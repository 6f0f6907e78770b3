//! Small verified helpers for working with strings as character sequences.

use vstd::prelude::*;

verus! {

broadcast use vstd::string::group_string_axioms;

/// Whitespace, as the parsers in this crate understand it: the Unicode
/// `White_Space` set, the same characters `char::is_whitespace` recognizes.
pub open spec fn is_space_char(c: char) -> bool {
    ||| c == ' '
    ||| c == '\t'
    ||| c == '\n'
    ||| c == '\r'
    ||| c == '\u{b}'
    ||| c == '\u{c}'
    ||| c == '\u{85}'
    ||| c == '\u{a0}'
    ||| c == '\u{1680}'
    ||| ('\u{2000}' <= c && c <= '\u{200a}')
    ||| c == '\u{2028}'
    ||| c == '\u{2029}'
    ||| c == '\u{202f}'
    ||| c == '\u{205f}'
    ||| c == '\u{3000}'
}

pub fn is_space(c: char) -> (r: bool)
    ensures
        r == is_space_char(c),
{
    c == ' ' || c == '\t' || c == '\n' || c == '\r' || c == '\u{b}' || c == '\u{c}'
        || c == '\u{85}' || c == '\u{a0}' || c == '\u{1680}' || ('\u{2000}' <= c && c
        <= '\u{200a}') || c == '\u{2028}' || c == '\u{2029}' || c == '\u{202f}' || c == '\u{205f}'
        || c == '\u{3000}'
}

/// The characters of a string slice, in order.
pub fn to_chars(s: &str) -> (v: Vec<char>)
    ensures
        v@ == s@,
{
    let mut v: Vec<char> = Vec::new();
    for c in it: s.chars()
        invariant
            v@ =~= it.seq().take(it.index() as int),
            it.seq() == s@,
    {
        v.push(c);
    }
    proof {
        assert(v@ =~= s@);
    }
    v
}

/// Do two string slices hold the same characters?
pub fn str_eq(a: &str, b: &str) -> (r: bool)
    ensures
        r == (a@ == b@),
{
    let va = to_chars(a);
    let vb = to_chars(b);
    if va.len() != vb.len() {
        return false;
    }
    let mut k: usize = 0;
    while k < va.len()
        invariant
            k <= va.len(),
            va.len() == vb.len(),
            va@ == a@,
            vb@ == b@,
            forall|m: int| 0 <= m < k ==> va@[m] == vb@[m],
        decreases va.len() - k,
    {
        if va[k] != vb[k] {
            return false;
        }
        k = k + 1;
    }
    proof {
        assert(a@ =~= b@);
    }
    true
}

/// A copy of the characters from `a` (inclusive) to `b` (exclusive).
pub fn sub_chars(s: &Vec<char>, a: usize, b: usize) -> (r: Vec<char>)
    requires
        a <= b <= s.len(),
    ensures
        r@ == s@.subrange(a as int, b as int),
{
    let mut r: Vec<char> = Vec::new();
    let mut k: usize = a;
    while k < b
        invariant
            a <= k <= b <= s.len(),
            r@ =~= s@.subrange(a as int, k as int),
        decreases b - k,
    {
        r.push(s[k]);
        k = k + 1;
    }
    proof {
        assert(r@ =~= s@.subrange(a as int, b as int));
    }
    r
}

/// Relies on `String::push`: appends the given character to the end of the
/// string (vstd has no specification for it).
#[verifier::external_body]
pub(crate) fn push_char(s: &mut String, c: char)
    ensures
        final(s)@ == old(s)@.push(c),
{
    s.push(c)
}

/// A `String` holding exactly the given characters.
pub fn from_chars(v: &Vec<char>) -> (s: String)
    ensures
        s@ == v@,
{
    let mut s = String::new();
    let mut i: usize = 0;
    while i < v.len()
        invariant
            i <= v.len(),
            s@ =~= v@.take(i as int),
        decreases v.len() - i,
    {
        push_char(&mut s, v[i]);
        i = i + 1;
    }
    proof {
        assert(s@ =~= v@);
    }
    s
}

pub open spec fn sub_at(s: Seq<char>, pat: Seq<char>, i: int) -> bool {
    i + pat.len() <= s.len() && s.subrange(i, i + pat.len()) == pat
}

/// The first index at or after `from` where `pat` occurs in `s`.
pub open spec fn first_sub_from(s: Seq<char>, pat: Seq<char>, from: int) -> Option<int>
    decreases s.len() + 1 - from,
    when 0 <= from
{
    if from + pat.len() > s.len() {
        None
    } else if sub_at(s, pat, from) {
        Some(from)
    } else {
        first_sub_from(s, pat, from + 1)
    }
}

pub(crate) fn chars_eq_at(s: &Vec<char>, pat: &Vec<char>, at: usize) -> (b: bool)
    requires
        at + pat.len() <= s.len(),
    ensures
        b == (s@.subrange(at as int, at + pat@.len()) == pat@),
{
    let mut j: usize = 0;
    while j < pat.len()
        invariant
            j <= pat.len(),
            at + pat.len() <= s.len(),
            forall|m: int| 0 <= m < j ==> s@[at + m] == pat@[m],
        decreases pat.len() - j,
    {
        if s[at + j] != pat[j] {
            proof {
                assert(s@.subrange(at as int, at + pat@.len())[j as int] != pat@[j as int]);
            }
            return false;
        }
        j = j + 1;
    }
    proof {
        assert(s@.subrange(at as int, at + pat@.len()) =~= pat@);
    }
    true
}

/// Find the first occurrence of `pat` in `s`.
pub fn find_sub(s: &Vec<char>, pat: &Vec<char>) -> (r: Option<usize>)
    ensures
        match r {
            Some(p) => first_sub_from(s@, pat@, 0) == Some(p as int) && p + pat.len() <= s.len(),
            None => first_sub_from(s@, pat@, 0) is None,
        },
{
    if pat.len() > s.len() {
        return None;
    }
    if pat.len() == 0 {
        proof {
            assert(s@.subrange(0, 0) =~= pat@);
        }
        return Some(0);
    }
    let limit = s.len() - pat.len();
    let mut p: usize = 0;
    while p <= limit
        invariant
            pat.len() >= 1,
            pat.len() <= s.len(),
            limit == s.len() - pat.len(),
            p <= limit + 1,
            first_sub_from(s@, pat@, 0) == first_sub_from(s@, pat@, p as int),
        decreases limit + 1 - p,
    {
        if chars_eq_at(s, pat, p) {
            return Some(p);
        }
        p = p + 1;
    }
    None
}

/// `pat` occurs somewhere in `s`.
pub open spec fn contains_seq(s: Seq<char>, pat: Seq<char>) -> bool {
    exists|i: int| 0 <= i && sub_at(s, pat, i)
}

/// If the scan from `from` finds nothing, there is no occurrence at or after
/// `from`.
pub proof fn lemma_first_sub_none(s: Seq<char>, pat: Seq<char>, from: int)
    requires
        0 <= from,
        first_sub_from(s, pat, from) is None,
    ensures
        forall|i: int| from <= i ==> !sub_at(s, pat, i),
    decreases s.len() + 1 - from,
{
    if from + pat.len() <= s.len() {
        lemma_first_sub_none(s, pat, from + 1);
    }
}

pub fn contains_str(s: &str, pat: &str) -> (r: bool)
    ensures
        r == contains_seq(s@, pat@),
{
    let sv = to_chars(s);
    let pv = to_chars(pat);
    match find_sub(&sv, &pv) {
        Some(p) => {
            proof {
                crate::text::lemma_first_sub_bounds(sv@, pv@, 0);
            }
            true
        },
        None => {
            proof {
                lemma_first_sub_none(s@, pat@, 0);
            }
            false
        },
    }
}

pub proof fn lemma_first_sub_bounds(s: Seq<char>, pat: Seq<char>, from: int)
    requires
        0 <= from,
        first_sub_from(s, pat, from) is Some,
    ensures
        sub_at(s, pat, first_sub_from(s, pat, from)->Some_0),
        first_sub_from(s, pat, from)->Some_0 >= from,
    decreases s.len() + 1 - from,
{
    if from + pat.len() <= s.len() && !sub_at(s, pat, from) {
        lemma_first_sub_bounds(s, pat, from + 1);
    }
}

pub fn starts_with_str(s: &str, pat: &str) -> (r: bool)
    ensures
        r == pat@.is_prefix_of(s@),
{
    let sv = to_chars(s);
    let pv = to_chars(pat);
    if pv.len() > sv.len() {
        return false;
    }
    let eq = chars_eq_at(&sv, &pv, 0);
    proof {
        assert(s@.subrange(0, pat@.len() as int) =~= s@.take(pat@.len() as int));
    }
    eq
}

pub fn ends_with_str(s: &str, pat: &str) -> (r: bool)
    ensures
        r == pat@.is_suffix_of(s@),
{
    let sv = to_chars(s);
    let pv = to_chars(pat);
    if pv.len() > sv.len() {
        return false;
    }
    let eq = chars_eq_at(&sv, &pv, sv.len() - pv.len());
    proof {
        assert(s@.subrange(s@.len() - pat@.len(), s@.len() as int) =~= s@.skip(
            s@.len() - pat@.len(),
        ));
    }
    eq
}

/// Two characters are equal up to ASCII case.
pub open spec fn char_eq_ci(a: char, b: char) -> bool {
    a == b || (65 <= a as u32 && a as u32 <= 90 && b as u32 == a as u32 + 32) || (97 <= a as u32
        && a as u32 <= 122 && b as u32 == a as u32 - 32)
}

/// Two strings are equal up to ASCII case.
pub open spec fn eq_ci(a: Seq<char>, b: Seq<char>) -> bool {
    a.len() == b.len() && forall|i: int| 0 <= i < a.len() ==> char_eq_ci(#[trigger] a[i], b[i])
}

pub fn eq_ignore_ascii_case(a: &str, b: &str) -> (r: bool)
    ensures
        r == eq_ci(a@, b@),
{
    let va = to_chars(a);
    let vb = to_chars(b);
    if va.len() != vb.len() {
        return false;
    }
    let mut k: usize = 0;
    while k < va.len()
        invariant
            k <= va.len(),
            va.len() == vb.len(),
            va@ == a@,
            vb@ == b@,
            forall|m: int| 0 <= m < k ==> char_eq_ci(#[trigger] va@[m], vb@[m]),
        decreases va.len() - k,
    {
        let ca = va[k] as u32;
        let cb = vb[k] as u32;
        let same = va[k] == vb[k] || (65 <= ca && ca <= 90 && cb == ca + 32) || (97 <= ca && ca
            <= 122 && cb == ca - 32);
        if !same {
            proof {
                assert(!char_eq_ci(a@[k as int], b@[k as int]));
            }
            return false;
        }
        proof {
            assert(char_eq_ci(va@[k as int], vb@[k as int]));
        }
        k = k + 1;
    }
    true
}

/// The string with every leading copy of `pat` removed.
pub open spec fn trim_prefix_rep(s: Seq<char>, pat: Seq<char>) -> Seq<char>
    decreases s.len(),
{
    if pat.len() > 0 && pat.is_prefix_of(s) {
        trim_prefix_rep(s.skip(pat.len() as int), pat)
    } else {
        s
    }
}

pub fn trim_prefix_rep_exec(s: &Vec<char>, pat: &Vec<char>) -> (r: Vec<char>)
    ensures
        r@ == trim_prefix_rep(s@, pat@),
{
    if pat.len() == 0 {
        return sub_chars(s, 0, s.len());
    }
    let mut i: usize = 0;
    proof {
        assert(s@.skip(0) =~= s@);
    }
    while pat.len() <= s.len() - i && chars_eq_at(s, pat, i)
        invariant
            i <= s.len(),
            pat.len() >= 1,
            trim_prefix_rep(s@, pat@) == trim_prefix_rep(s@.skip(i as int), pat@),
        decreases s.len() - i,
    {
        proof {
            assert(s@.skip(i as int).take(pat@.len() as int) =~= s@.subrange(
                i as int,
                i + pat@.len(),
            ));
            assert(s@.skip(i as int).skip(pat@.len() as int) =~= s@.skip(i + pat@.len()));
        }
        i = i + pat.len();
    }
    proof {
        if i + pat@.len() <= s@.len() {
            assert(s@.skip(i as int).take(pat@.len() as int) =~= s@.subrange(
                i as int,
                i + pat@.len(),
            ));
        }
        assert(!pat@.is_prefix_of(s@.skip(i as int)));
    }
    sub_chars(s, i, s.len())
}

} // verus!
