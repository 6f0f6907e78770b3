//! The Windows flavour of `libraryfolders.vdf` parsing: quoted values carry
//! backslash escapes, and paths are normalized to backslash separators.

use vstd::prelude::*;
use crate::num::all_dec_digits;
use crate::scan::{scan_to, scan_to_exec, trim_exec, trim_spec};
use crate::steam::{
    all_digits_exec, push_unique, spec_vdf_path_value, split_quotes_ne, split_quotes_ne_exec,
    vdf_path_value,
};
use crate::text::{contains_seq, find_sub, from_chars, lemma_first_sub_bounds, lemma_first_sub_none, sub_chars, to_chars};

verus! {

/// A quoted VDF value unescaped: a backslash takes the next character,
/// turning `n`, `r` and `t` into their control characters; a trailing lone
/// backslash stays.
pub open spec fn spec_unescape(s: Seq<char>, i: int) -> Seq<char>
    decreases s.len() - i,
    when 0 <= i
{
    if i >= s.len() {
        Seq::<char>::empty()
    } else if s[i] == '\\' {
        if i + 1 < s.len() {
            let n = s[i + 1];
            let c = if n == '\\' {
                '\\'
            } else if n == '"' {
                '"'
            } else if n == 'n' {
                '\n'
            } else if n == 'r' {
                '\r'
            } else if n == 't' {
                '\t'
            } else {
                n
            };
            seq![c] + spec_unescape(s, i + 2)
        } else {
            seq!['\\']
        }
    } else {
        seq![s[i]] + spec_unescape(s, i + 1)
    }
}

fn unescape_exec(s: &Vec<char>) -> (r: Vec<char>)
    ensures
        r@ == spec_unescape(s@, 0),
{
    let mut out: Vec<char> = Vec::new();
    let mut i: usize = 0;
    proof {
        assert(out@ + spec_unescape(s@, 0) =~= spec_unescape(s@, 0));
    }
    while i < s.len()
        invariant
            i <= s.len(),
            spec_unescape(s@, 0) == out@ + spec_unescape(s@, i as int),
        decreases s.len() - i,
    {
        let c = s[i];
        let ghost prev = out@;
        if c == '\\' {
            if i + 1 < s.len() {
                let n = s[i + 1];
                let u = if n == '\\' {
                    '\\'
                } else if n == '"' {
                    '"'
                } else if n == 'n' {
                    '\n'
                } else if n == 'r' {
                    '\r'
                } else if n == 't' {
                    '\t'
                } else {
                    n
                };
                out.push(u);
                proof {
                    assert(prev + (seq![u] + spec_unescape(s@, i as int + 2)) =~= out@
                        + spec_unescape(s@, i as int + 2));
                }
                i = i + 2;
            } else {
                out.push('\\');
                proof {
                    assert(prev + seq!['\\'] =~= out@);
                    assert(out@ + spec_unescape(s@, s@.len() as int) =~= out@);
                }
                i = i + 1;
            }
        } else {
            out.push(c);
            proof {
                assert(prev + (seq![s@[i as int]] + spec_unescape(s@, i as int + 1)) =~= out@
                    + spec_unescape(s@, i as int + 1));
            }
            i = i + 1;
        }
    }
    proof {
        assert(out@ + spec_unescape(s@, i as int) =~= out@);
    }
    out
}

/// Forward slashes turned into backslashes.
pub open spec fn win_slashes(s: Seq<char>) -> Seq<char> {
    s.map_values(
        |c: char|
            if c == '/' {
                '\\'
            } else {
                c
            },
    )
}

fn win_slashes_exec(s: &Vec<char>) -> (r: Vec<char>)
    ensures
        r@ == win_slashes(s@),
{
    let mut t: Vec<char> = Vec::new();
    let mut i: usize = 0;
    while i < s.len()
        invariant
            i <= s.len(),
            t@ =~= win_slashes(s@).take(i as int),
        decreases s.len() - i,
    {
        let c = s[i];
        if c == '/' {
            t.push('\\');
        } else {
            t.push(c);
        }
        proof {
            assert(t@ =~= win_slashes(s@).take(i as int + 1));
        }
        i = i + 1;
    }
    proof {
        assert(t@ =~= win_slashes(s@));
    }
    t
}

/// The library path one line contributes, if any: the value of a `"path"`
/// binding, or of an old-format `"<digits>" "<path>"` pair; either way
/// unescaped and normalized to backslashes.
pub open spec fn spec_win_line(line: Seq<char>) -> Option<Seq<char>> {
    let l = trim_spec(line);
    let newfmt = if contains_seq(l, "\"path\""@) {
        spec_vdf_path_value(l)
    } else {
        None
    };
    match newfmt {
        Some(raw) => Some(win_slashes(spec_unescape(raw, 0))),
        None => if l.len() > 0 && l[0] == '"' {
            let f = split_quotes_ne(l);
            if f.len() >= 3 && all_dec_digits(f[0]) {
                Some(win_slashes(spec_unescape(f[2], 0)))
            } else {
                None
            }
        } else {
            None
        },
    }
}

fn win_line(line: &Vec<char>) -> (r: Option<String>)
    ensures
        match r {
            Some(p) => spec_win_line(line@) == Some(p@),
            None => spec_win_line(line@) is None,
        },
{
    let l = trim_exec(line);
    let pathtok = to_chars("\"path\"");
    let has_path = match find_sub(&l, &pathtok) {
        Some(_) => {
            proof {
                lemma_first_sub_bounds(l@, pathtok@, 0);
            }
            true
        },
        None => {
            proof {
                lemma_first_sub_none(l@, pathtok@, 0);
            }
            false
        },
    };
    if has_path {
        match vdf_path_value(&l) {
            Some(raw) => {
                let u = unescape_exec(&raw);
                let n = win_slashes_exec(&u);
                return Some(from_chars(&n));
            },
            None => {},
        }
    }
    if l.len() > 0 && l[0] == '"' {
        let f = split_quotes_ne_exec(&l);
        if f.len() >= 3 {
            proof {
                assert(f.deep_view()[0] == f@[0]@);
                assert(f.deep_view()[2] == f@[2]@);
            }
            if all_digits_exec(&f[0]) {
                let u = unescape_exec(&f[2]);
                let n = win_slashes_exec(&u);
                return Some(from_chars(&n));
            }
        }
    }
    None
}

/// Every library path one line contributes from `i` on, newly seen ones
/// appended in order.
pub open spec fn win_vdf_rec(s: Seq<char>, i: int, acc: Seq<Seq<char>>) -> Seq<Seq<char>>
    decreases s.len() + 1 - i,
    when 0 <= i
{
    if i > s.len() {
        acc
    } else {
        let e = scan_to(s, i, '\n');
        let acc2 = match spec_win_line(s.subrange(i, e)) {
            Some(p) => if acc.contains(p) {
                acc
            } else {
                acc.push(p)
            },
            None => acc,
        };
        if e >= s.len() {
            acc2
        } else {
            win_vdf_rec(
                s,
                if e < i {
                    i + 1
                } else {
                    e + 1
                },
                acc2,
            )
        }
    }
}

pub open spec fn spec_parse_vdf_paths(s: Seq<char>) -> Seq<Seq<char>> {
    win_vdf_rec(s, 0, Seq::<Seq<char>>::empty())
}

/// Parse the Steam library roots out of a `libraryfolders.vdf`, Windows
/// flavour: old-format `"<digits>" "<path>"` pairs and new-format nested
/// blocks with a `"path"` entry, without duplicates, in order of appearance.
pub fn parse_libraryfolders_vdf_paths(text: &str) -> (r: Vec<String>)
    ensures
        r.deep_view() == spec_parse_vdf_paths(text@),
{
    let s = to_chars(text);
    let mut results: Vec<String> = Vec::new();
    let mut i: usize = 0;
    proof {
        assert(results.deep_view() =~~= Seq::<Seq<char>>::empty());
    }
    loop
        invariant
            i <= s.len(),
            s@ == text@,
            spec_parse_vdf_paths(text@) == win_vdf_rec(s@, i as int, results.deep_view()),
        decreases s.len() + 1 - i,
    {
        let e = scan_to_exec(&s, i, '\n');
        let line = sub_chars(&s, i, e);
        match win_line(&line) {
            Some(p) => {
                push_unique(&mut results, p);
            },
            None => {},
        }
        if e >= s.len() {
            return results;
        }
        i = e + 1;
    }
}

} // verus!
