//! Parsing Steam's `libraryfolders.vdf`: shared scanning of quoted tokens,
//! with one submodule per platform flavour of the path values.

pub mod unix;
pub mod windows;

use vstd::prelude::*;
use crate::scan::scan_to;
use crate::text::sub_chars;

verus! {

/// The non-empty pieces a line splits into on double quotes, in order.
pub open spec fn split_quotes_ne_rec(s: Seq<char>, i: int, cur: Seq<char>, acc: Seq<Seq<char>>) -> Seq<
    Seq<char>,
>
    decreases s.len() - i,
    when 0 <= i
{
    if i >= s.len() {
        if cur.len() > 0 {
            acc.push(cur)
        } else {
            acc
        }
    } else if s[i] == '"' {
        split_quotes_ne_rec(
            s,
            i + 1,
            Seq::<char>::empty(),
            if cur.len() > 0 {
                acc.push(cur)
            } else {
                acc
            },
        )
    } else {
        split_quotes_ne_rec(s, i + 1, cur.push(s[i]), acc)
    }
}

pub open spec fn split_quotes_ne(s: Seq<char>) -> Seq<Seq<char>> {
    split_quotes_ne_rec(s, 0, Seq::<char>::empty(), Seq::<Seq<char>>::empty())
}

pub(crate) fn split_quotes_ne_exec(s: &Vec<char>) -> (r: Vec<Vec<char>>)
    ensures
        r.deep_view() == split_quotes_ne(s@),
{
    let mut acc: Vec<Vec<char>> = Vec::new();
    let mut cur: Vec<char> = Vec::new();
    let mut i: usize = 0;
    proof {
        assert(cur@ =~= Seq::<char>::empty());
        assert(acc.deep_view() =~~= Seq::<Seq<char>>::empty());
    }
    while i < s.len()
        invariant
            i <= s.len(),
            split_quotes_ne(s@) == split_quotes_ne_rec(s@, i as int, cur@, acc.deep_view()),
        decreases s.len() - i,
    {
        let c = s[i];
        let ghost prev_acc = acc.deep_view();
        let ghost prev_cur = cur@;
        if c == '"' {
            if cur.len() > 0 {
                acc.push(cur);
                cur = Vec::new();
                proof {
                    assert(acc.deep_view() =~~= prev_acc.push(prev_cur));
                    assert(cur@ =~= Seq::<char>::empty());
                }
            } else {
                proof {
                    assert(cur@ =~= Seq::<char>::empty());
                }
            }
        } else {
            cur.push(c);
        }
        i = i + 1;
    }
    if cur.len() > 0 {
        let ghost prev_acc = acc.deep_view();
        let ghost prev_cur = cur@;
        acc.push(cur);
        proof {
            assert(acc.deep_view() =~~= prev_acc.push(prev_cur));
        }
    }
    acc
}

/// The raw value of the second quoted token on a line (the `"path" "..."`
/// layout), when all four quotes are present.
pub open spec fn spec_vdf_path_value(l: Seq<char>) -> Option<Seq<char>> {
    let q1 = scan_to(l, 0, '"');
    if q1 >= l.len() {
        None
    } else {
        let q2 = scan_to(l, q1 + 1, '"');
        if q2 >= l.len() {
            None
        } else {
            let q3 = scan_to(l, q2 + 1, '"');
            if q3 >= l.len() {
                None
            } else {
                let q4 = scan_to(l, q3 + 1, '"');
                if q4 >= l.len() {
                    None
                } else {
                    Some(l.subrange(q3 + 1, q4))
                }
            }
        }
    }
}

pub(crate) fn vdf_path_value(l: &Vec<char>) -> (r: Option<Vec<char>>)
    ensures
        match r {
            Some(v) => spec_vdf_path_value(l@) == Some(v@),
            None => spec_vdf_path_value(l@) is None,
        },
{
    let q1 = crate::scan::scan_to_exec(l, 0, '"');
    if q1 >= l.len() {
        return None;
    }
    let q2 = crate::scan::scan_to_exec(l, q1 + 1, '"');
    if q2 >= l.len() {
        return None;
    }
    let q3 = crate::scan::scan_to_exec(l, q2 + 1, '"');
    if q3 >= l.len() {
        return None;
    }
    let q4 = crate::scan::scan_to_exec(l, q3 + 1, '"');
    if q4 >= l.len() {
        return None;
    }
    Some(sub_chars(l, q3 + 1, q4))
}

/// Is every character a decimal digit?
pub(crate) fn all_digits_exec(v: &Vec<char>) -> (r: bool)
    ensures
        r == crate::num::all_dec_digits(v@),
{
    let mut k: usize = 0;
    while k < v.len()
        invariant
            k <= v.len(),
            forall|m: int| 0 <= m < k ==> crate::num::is_dec_digit(#[trigger] v@[m]),
        decreases v.len() - k,
    {
        let c = v[k];
        if !('0' <= c && c <= '9') {
            proof {
                assert(!crate::num::is_dec_digit(v@[k as int]));
            }
            return false;
        }
        k = k + 1;
    }
    true
}

/// Keep a path only when it is not yet listed.
pub(crate) fn push_unique(results: &mut Vec<String>, p: String)
    ensures
        final(results).deep_view() == if old(results).deep_view().contains(p@) {
            old(results).deep_view()
        } else {
            old(results).deep_view().push(p@)
        },
{
    let ghost v = results.deep_view();
    let mut k: usize = 0;
    while k < results.len()
        invariant
            k <= results.len(),
            v == results.deep_view(),
            v == old(results).deep_view(),
            forall|m: int| 0 <= m < k ==> #[trigger] v[m] != p@,
        decreases results.len() - k,
    {
        if crate::text::str_eq(results[k].as_str(), p.as_str()) {
            proof {
                assert(v[k as int] == results@[k as int]@);
                assert(v.contains(p@));
            }
            return ;
        }
        proof {
            assert(v[k as int] == results@[k as int]@);
        }
        k = k + 1;
    }
    let ghost gp = p@;
    results.push(p);
    proof {
        assert(!v.contains(gp));
        assert(results.deep_view() =~~= v.push(gp));
    }
}

} // verus!
