//! Verified text-scanning primitives for the patch-script parser: whitespace
//! skipping, single-character scans, depth-counted bracket matching,
//! trimming, quote stripping and depth-aware splitting.

use vstd::prelude::*;
use crate::text::is_space_char;
use crate::text::is_space;

verus! {

/// The first index at or after `i` holding a non-space character (or the end).
pub open spec fn skip_ws(s: Seq<char>, i: int) -> int
    decreases s.len() - i,
    when 0 <= i
{
    if i < s.len() && is_space_char(s[i]) {
        skip_ws(s, i + 1)
    } else {
        i
    }
}

/// The first index at or after `i` holding `c` (or the length).
pub open spec fn scan_to(s: Seq<char>, i: int, c: char) -> int
    decreases s.len() - i,
    when 0 <= i
{
    if i >= s.len() {
        s.len() as int
    } else if s[i] == c {
        i
    } else {
        scan_to(s, i + 1, c)
    }
}

/// Depth-counted bracket matching: the index just past the `close` that
/// brings the running depth to zero, scanning from `i`; `None` if the depth
/// never returns to zero.
pub open spec fn bracket_end(s: Seq<char>, i: int, depth: int, open: char, close: char) -> Option<
    int,
>
    decreases s.len() - i,
    when 0 <= i
{
    if i >= s.len() {
        None
    } else {
        let c = s[i];
        let d2 = if c == open {
            depth + 1
        } else if c == close {
            depth - 1
        } else {
            depth
        };
        if c == close && d2 == 0 {
            Some(i + 1)
        } else {
            bracket_end(s, i + 1, d2, open, close)
        }
    }
}

/// Move past the next comma, but stop early at `stop` or at the end: the
/// parser uses this to step from one element to the next.
pub open spec fn advance_after_comma(s: Seq<char>, i: int, stop: char) -> int
    decreases s.len() - i,
    when 0 <= i
{
    if i >= s.len() {
        i
    } else if s[i] == stop {
        i
    } else if s[i] == ',' {
        i + 1
    } else {
        advance_after_comma(s, i + 1, stop)
    }
}

/// Skip spaces up to and including one colon: the parser uses this to step
/// from a key to its value.
pub open spec fn skip_ws_colon(s: Seq<char>, i: int) -> int
    decreases s.len() - i,
    when 0 <= i
{
    if i >= s.len() {
        i
    } else if s[i] == ':' {
        i + 1
    } else if is_space_char(s[i]) {
        skip_ws_colon(s, i + 1)
    } else {
        i
    }
}

/// The last index at or before `j` such that everything from it to `j` is
/// spaces, scanning from the right.
pub open spec fn rskip_ws(s: Seq<char>, j: int) -> int
    decreases j,
    when j <= s.len()
{
    if j > 0 && is_space_char(s[j - 1]) {
        rskip_ws(s, j - 1)
    } else {
        j
    }
}

/// The string without leading and trailing spaces.
pub open spec fn trim_spec(s: Seq<char>) -> Seq<char> {
    let a = skip_ws(s, 0);
    let b = rskip_ws(s, s.len() as int);
    if a >= b {
        Seq::<char>::empty()
    } else {
        s.subrange(a, b)
    }
}

pub open spec fn rskip_quotes(s: Seq<char>, j: int) -> int
    decreases j,
    when j <= s.len()
{
    if j > 0 && s[j - 1] == '\'' {
        rskip_quotes(s, j - 1)
    } else {
        j
    }
}

pub open spec fn skip_quotes(s: Seq<char>, i: int) -> int
    decreases s.len() - i,
    when 0 <= i
{
    if i < s.len() && s[i] == '\'' {
        skip_quotes(s, i + 1)
    } else {
        i
    }
}

/// The string without leading and trailing single quotes (all of them, from
/// both ends), as `trim_matches('\'')` strips them.
pub open spec fn unquote_spec(s: Seq<char>) -> Seq<char> {
    let a = skip_quotes(s, 0);
    let b = rskip_quotes(s, s.len() as int);
    if a >= b {
        Seq::<char>::empty()
    } else {
        s.subrange(a, b)
    }
}

/// Split on `delim` at bracket depth zero, trimming each piece; a trailing
/// piece is kept only when it is non-empty after trimming.
pub open spec fn split_rec(
    s: Seq<char>,
    i: int,
    depth: int,
    cur: Seq<char>,
    acc: Seq<Seq<char>>,
    delim: char,
) -> Seq<Seq<char>>
    decreases s.len() - i,
    when 0 <= i
{
    if i >= s.len() {
        if trim_spec(cur).len() > 0 {
            acc.push(trim_spec(cur))
        } else {
            acc
        }
    } else {
        let c = s[i];
        if c == '[' || c == '(' || c == '{' {
            split_rec(s, i + 1, depth + 1, cur.push(c), acc, delim)
        } else if c == ']' || c == ')' || c == '}' {
            split_rec(s, i + 1, depth - 1, cur.push(c), acc, delim)
        } else if c == delim && depth == 0 {
            split_rec(s, i + 1, depth, Seq::<char>::empty(), acc.push(trim_spec(cur)), delim)
        } else {
            split_rec(s, i + 1, depth, cur.push(c), acc, delim)
        }
    }
}

pub open spec fn spec_split_top_level(s: Seq<char>, delim: char) -> Seq<Seq<char>> {
    split_rec(s, 0, 0, Seq::<char>::empty(), Seq::<Seq<char>>::empty(), delim)
}

pub fn skip_ws_exec(s: &Vec<char>, from: usize) -> (r: usize)
    requires
        from <= s.len(),
    ensures
        r == skip_ws(s@, from as int),
        from <= r <= s.len(),
{
    let mut i: usize = from;
    while i < s.len() && is_space(s[i])
        invariant
            from <= i <= s.len(),
            skip_ws(s@, from as int) == skip_ws(s@, i as int),
        decreases s.len() - i,
    {
        i = i + 1;
    }
    i
}

pub fn scan_to_exec(s: &Vec<char>, from: usize, c: char) -> (r: usize)
    requires
        from <= s.len(),
    ensures
        r == scan_to(s@, from as int, c),
        from <= r <= s.len(),
{
    let mut i: usize = from;
    while i < s.len() && s[i] != c
        invariant
            from <= i <= s.len(),
            scan_to(s@, from as int, c) == scan_to(s@, i as int, c),
        decreases s.len() - i,
    {
        i = i + 1;
    }
    i
}

pub fn bracket_end_exec(s: &Vec<char>, from: usize, open: char, close: char) -> (r: Option<usize>)
    requires
        from <= s.len(),
    ensures
        match r {
            Some(e) => bracket_end(s@, from as int, 0, open, close) == Some(e as int) && from < e
                <= s.len(),
            None => bracket_end(s@, from as int, 0, open, close) is None,
        },
{
    let mut i: usize = from;
    let mut depth: i128 = 0;
    while i < s.len()
        invariant
            from <= i <= s.len(),
            -(i as int - from as int) <= depth <= i as int - from as int,
            bracket_end(s@, from as int, 0, open, close) == bracket_end(
                s@,
                i as int,
                depth as int,
                open,
                close,
            ),
        decreases s.len() - i,
    {
        let c = s[i];
        let mut d2 = depth;
        if c == open {
            d2 = depth + 1;
        } else if c == close {
            d2 = depth - 1;
        }
        if c == close && d2 == 0 {
            return Some(i + 1);
        }
        depth = d2;
        i = i + 1;
    }
    None
}

pub fn skip_ws_colon_exec(s: &Vec<char>, from: usize) -> (r: usize)
    requires
        from <= s.len(),
    ensures
        r == skip_ws_colon(s@, from as int),
        from <= r <= s.len(),
{
    let mut i: usize = from;
    while i < s.len()
        invariant
            from <= i <= s.len(),
            skip_ws_colon(s@, from as int) == skip_ws_colon(s@, i as int),
        decreases s.len() - i,
    {
        if s[i] == ':' {
            return i + 1;
        }
        if !is_space(s[i]) {
            return i;
        }
        i = i + 1;
    }
    i
}

pub fn advance_after_comma_exec(s: &Vec<char>, from: usize, stop: char) -> (r: usize)
    requires
        from <= s.len(),
    ensures
        r == advance_after_comma(s@, from as int, stop),
        from <= r <= s.len(),
{
    let mut i: usize = from;
    while i < s.len()
        invariant
            from <= i <= s.len(),
            advance_after_comma(s@, from as int, stop) == advance_after_comma(
                s@,
                i as int,
                stop,
            ),
        decreases s.len() - i,
    {
        if s[i] == stop {
            return i;
        }
        if s[i] == ',' {
            return i + 1;
        }
        i = i + 1;
    }
    i
}

pub fn trim_exec(s: &Vec<char>) -> (r: Vec<char>)
    ensures
        r@ == trim_spec(s@),
{
    let mut a: usize = 0;
    while a < s.len() && is_space(s[a])
        invariant
            a <= s.len(),
            skip_ws(s@, 0) == skip_ws(s@, a as int),
        decreases s.len() - a,
    {
        a = a + 1;
    }
    let mut b: usize = s.len();
    while b > 0 && is_space(s[b - 1])
        invariant
            b <= s.len(),
            rskip_ws(s@, s@.len() as int) == rskip_ws(s@, b as int),
        decreases b,
    {
        b = b - 1;
    }
    let mut r: Vec<char> = Vec::new();
    if a >= b {
        proof {
            assert(r@ =~= trim_spec(s@));
        }
        return r;
    }
    let mut k: usize = a;
    while k < b
        invariant
            a <= k <= b <= s.len(),
            r@ =~= s@.subrange(a as int, k as int),
        decreases b - k,
    {
        r.push(s[k]);
        k = k + 1;
    }
    proof {
        assert(r@ =~= trim_spec(s@));
    }
    r
}

pub fn unquote_exec(s: &Vec<char>) -> (r: Vec<char>)
    ensures
        r@ == unquote_spec(s@),
{
    let mut a: usize = 0;
    while a < s.len() && s[a] == '\''
        invariant
            a <= s.len(),
            skip_quotes(s@, 0) == skip_quotes(s@, a as int),
        decreases s.len() - a,
    {
        a = a + 1;
    }
    let mut b: usize = s.len();
    while b > 0 && s[b - 1] == '\''
        invariant
            b <= s.len(),
            rskip_quotes(s@, s@.len() as int) == rskip_quotes(s@, b as int),
        decreases b,
    {
        b = b - 1;
    }
    let mut r: Vec<char> = Vec::new();
    if a >= b {
        proof {
            assert(r@ =~= unquote_spec(s@));
        }
        return r;
    }
    let mut k: usize = a;
    while k < b
        invariant
            a <= k <= b <= s.len(),
            r@ =~= s@.subrange(a as int, k as int),
        decreases b - k,
    {
        r.push(s[k]);
        k = k + 1;
    }
    proof {
        assert(r@ =~= unquote_spec(s@));
    }
    r
}

pub fn split_top_level_exec(s: &Vec<char>, delim: char) -> (r: Vec<Vec<char>>)
    ensures
        r.deep_view() == spec_split_top_level(s@, delim),
{
    let mut acc: Vec<Vec<char>> = Vec::new();
    let mut cur: Vec<char> = Vec::new();
    let mut i: usize = 0;
    let mut depth: i128 = 0;
    proof {
        assert(cur@ =~= Seq::<char>::empty());
        assert(acc.deep_view() =~~= Seq::<Seq<char>>::empty());
    }
    while i < s.len()
        invariant
            i <= s.len(),
            -(i as int) <= depth <= i as int,
            spec_split_top_level(s@, delim) == split_rec(
                s@,
                i as int,
                depth as int,
                cur@,
                acc.deep_view(),
                delim,
            ),
        decreases s.len() - i,
    {
        let c = s[i];
        let ghost prev_acc = acc.deep_view();
        let ghost prev_cur = cur@;
        if c == '[' || c == '(' || c == '{' {
            depth = depth + 1;
            cur.push(c);
        } else if c == ']' || c == ')' || c == '}' {
            depth = depth - 1;
            cur.push(c);
        } else if c == delim && depth == 0 {
            let t = trim_exec(&cur);
            acc.push(t);
            cur = Vec::new();
            proof {
                assert(acc.deep_view() =~~= prev_acc.push(trim_spec(prev_cur)));
            }
        } else {
            cur.push(c);
        }
        i = i + 1;
    }
    let t = trim_exec(&cur);
    if t.len() > 0 {
        let ghost prev_acc = acc.deep_view();
        acc.push(t);
        proof {
            assert(acc.deep_view() =~~= prev_acc.push(trim_spec(cur@)));
        }
    }
    acc
}

} // verus!
