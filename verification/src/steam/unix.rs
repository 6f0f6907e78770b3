//! The Unix flavour of `libraryfolders.vdf` parsing: quoted path values are
//! taken verbatim.

use vstd::prelude::*;
use crate::num::all_dec_digits;
use crate::scan::{scan_to, scan_to_exec, trim_exec, trim_spec};
use crate::steam::{
    all_digits_exec, push_unique, spec_vdf_path_value, split_quotes_ne, split_quotes_ne_exec,
    vdf_path_value,
};
use crate::text::{
    contains_seq, find_sub, from_chars, lemma_first_sub_bounds, lemma_first_sub_none, sub_chars,
    to_chars,
};

verus! {

/// The library path one line contributes, if any: the value of a `"path"`
/// binding, or of an old-format `"<digits>" "<path>"` pair, verbatim.
pub open spec fn spec_unix_line(line: Seq<char>) -> Option<Seq<char>> {
    let l = trim_spec(line);
    let newfmt = if contains_seq(l, "\"path\""@) {
        spec_vdf_path_value(l)
    } else {
        None
    };
    match newfmt {
        Some(raw) => Some(raw),
        None => if l.len() > 0 && l[0] == '"' {
            let f = split_quotes_ne(l);
            if f.len() >= 3 && all_dec_digits(f[0]) {
                Some(f[2])
            } else {
                None
            }
        } else {
            None
        },
    }
}

fn unix_line(line: &Vec<char>) -> (r: Option<String>)
    ensures
        match r {
            Some(p) => spec_unix_line(line@) == Some(p@),
            None => spec_unix_line(line@) is None,
        },
{
    let l = trim_exec(line);
    let pathtok = to_chars("\"path\"");
    let has_path = match find_sub(&l, &pathtok) {
        Some(_) => {
            proof {
                lemma_first_sub_bounds(l@, pathtok@, 0);
            }
            true
        },
        None => {
            proof {
                lemma_first_sub_none(l@, pathtok@, 0);
            }
            false
        },
    };
    if has_path {
        match vdf_path_value(&l) {
            Some(raw) => {
                return Some(from_chars(&raw));
            },
            None => {},
        }
    }
    if l.len() > 0 && l[0] == '"' {
        let f = split_quotes_ne_exec(&l);
        if f.len() >= 3 {
            proof {
                assert(f.deep_view()[0] == f@[0]@);
                assert(f.deep_view()[2] == f@[2]@);
            }
            if all_digits_exec(&f[0]) {
                return Some(from_chars(&f[2]));
            }
        }
    }
    None
}

/// Every library path one line contributes from `i` on, newly seen ones
/// appended in order.
pub open spec fn unix_vdf_rec(s: Seq<char>, i: int, acc: Seq<Seq<char>>) -> Seq<Seq<char>>
    decreases s.len() + 1 - i,
    when 0 <= i
{
    if i > s.len() {
        acc
    } else {
        let e = scan_to(s, i, '\n');
        let acc2 = match spec_unix_line(s.subrange(i, e)) {
            Some(p) => if acc.contains(p) {
                acc
            } else {
                acc.push(p)
            },
            None => acc,
        };
        if e >= s.len() {
            acc2
        } else {
            unix_vdf_rec(
                s,
                if e < i {
                    i + 1
                } else {
                    e + 1
                },
                acc2,
            )
        }
    }
}

pub open spec fn spec_parse_vdf_paths(s: Seq<char>) -> Seq<Seq<char>> {
    unix_vdf_rec(s, 0, Seq::<Seq<char>>::empty())
}

/// Parse the Steam library roots out of a `libraryfolders.vdf`, Unix flavour:
/// old-format `"<digits>" "<path>"` pairs and new-format nested blocks with a
/// `"path"` entry, without duplicates, in order of appearance.
pub fn parse_libraryfolders_vdf_paths(text: &str) -> (r: Vec<String>)
    ensures
        r.deep_view() == spec_parse_vdf_paths(text@),
{
    let s = to_chars(text);
    let mut results: Vec<String> = Vec::new();
    let mut i: usize = 0;
    proof {
        assert(results.deep_view() =~~= Seq::<Seq<char>>::empty());
    }
    loop
        invariant
            i <= s.len(),
            s@ == text@,
            spec_parse_vdf_paths(text@) == unix_vdf_rec(s@, i as int, results.deep_view()),
        decreases s.len() + 1 - i,
    {
        let e = scan_to_exec(&s, i, '\n');
        let line = sub_chars(&s, i, e);
        match unix_line(&line) {
            Some(p) => {
                push_unique(&mut results, p);
            },
            None => {},
        }
        if e >= s.len() {
            return results;
        }
        i = e + 1;
    }
}

} // verus!
