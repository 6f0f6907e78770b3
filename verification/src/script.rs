//! The signature mini-language parser: it extracts the two named table
//! literals (`patches32`/`patches_32` and `patches64`/`patches_64`) from a
//! patch-definition script and turns them into patch tables.  Comments start
//! at `#` and run to the end of the line; keys are quoted strings; values are
//! bracketed entry lists; commas are split only at bracket depth zero.

use vstd::prelude::*;
use crate::num::spec_parse_i64_or_zero;
use crate::num::parse_i64_or_zero;
use crate::patching::{GPatchSet, GPattern, PatchSet, PatternSpec};
use crate::scan::{
    advance_after_comma, advance_after_comma_exec, bracket_end, bracket_end_exec, scan_to,
    scan_to_exec, skip_ws, skip_ws_colon, skip_ws_colon_exec, skip_ws_exec, spec_split_top_level,
    split_top_level_exec, trim_exec, trim_spec, unquote_exec, unquote_spec,
};
use crate::text::{find_sub, first_sub_from, from_chars, str_eq, sub_chars, to_chars};

verus! {

/// Why a named table literal could not be extracted from the script text.
#[derive(Debug, Clone, Copy, PartialEq, Eq, Structural)]
pub enum ScanError {
    /// Neither `<name> = {` nor `<name>={` occurs in the text.
    NotFound,
    /// The brace depth never returns to zero after the opening brace.
    UnmatchedBraces,
}

/// Why a table body could not be parsed.
#[derive(Debug, Clone, Copy, PartialEq, Eq, Structural)]
pub enum ParseError {
    /// A table literal was found whose brace depth never returns to zero.
    UnmatchedBraces,
    /// An entry key is not a quoted string.
    ExpectedQuotedKey,
    /// An entry value does not start with `[`.
    ExpectedBracket,
    /// An entry list is empty.
    EmptyEntry,
    /// An entry starts neither with `[` nor with `(`.
    BadEntryShape,
    /// An alternatives list holds something that is not a tuple.
    ExpectedTuple,
    /// A tuple has fewer than two fields.
    TupleTooShort,
}

pub open spec fn parse_error_text(e: ParseError) -> Seq<char> {
    match e {
        ParseError::UnmatchedBraces => "unmatched braces"@,
        ParseError::ExpectedQuotedKey => "expected quoted key"@,
        ParseError::ExpectedBracket => "expected ["@,
        ParseError::EmptyEntry => "empty entry"@,
        ParseError::BadEntryShape => "entry must start with [ or ("@,
        ParseError::ExpectedTuple => "expected tuple"@,
        ParseError::TupleTooShort => "tuple too short"@,
    }
}

impl ParseError {
    /// The diagnostic wording for this parse failure.
    pub fn describe(&self) -> (s: &'static str)
        ensures
            s@ == parse_error_text(*self),
    {
        match self {
            ParseError::UnmatchedBraces => "unmatched braces",
            ParseError::ExpectedQuotedKey => "expected quoted key",
            ParseError::ExpectedBracket => "expected [",
            ParseError::EmptyEntry => "empty entry",
            ParseError::BadEntryShape => "entry must start with [ or (",
            ParseError::ExpectedTuple => "expected tuple",
            ParseError::TupleTooShort => "tuple too short",
        }
    }
}

/// The script text line by line, each line cut at its first `#`: lines are
/// split at `\n` (a `\r` before the `\n` is dropped with it), rejoined with
/// single newlines, and a trailing line terminator is not kept.
pub open spec fn strip_lines_rec(s: Seq<char>, i: int) -> Seq<char>
    decreases s.len() + 1 - i,
    when 0 <= i
{
    if i >= s.len() {
        Seq::<char>::empty()
    } else {
        let e = scan_to(s, i, '\n');
        let raw = s.subrange(i, e);
        let line = if e < s.len() && raw.len() > 0 && raw.last() == '\r' {
            raw.drop_last()
        } else {
            raw
        };
        let body = line.take(scan_to(line, 0, '#'));
        if e + 1 >= s.len() {
            body
        } else {
            body + seq!['\n'] + strip_lines_rec(
                s,
                if e < i {
                    i + 1
                } else {
                    e + 1
                },
            )
        }
    }
}

pub open spec fn strip_comments_spec(s: Seq<char>) -> Seq<char> {
    strip_lines_rec(s, 0)
}

/// Remove `#` comments: each runs to the end of its line.
pub fn strip_comments(src: &str) -> (r: String)
    ensures
        r@ == strip_comments_spec(src@),
{
    let s = to_chars(src);
    let mut out: Vec<char> = Vec::new();
    let mut i: usize = 0;
    proof {
        assert(out@ + strip_lines_rec(s@, 0) =~= strip_lines_rec(s@, 0));
    }
    loop
        invariant
            i <= s.len(),
            s@ == src@,
            strip_comments_spec(src@) == out@ + strip_lines_rec(s@, i as int),
        decreases s.len() + 1 - i,
    {
        if i >= s.len() {
            proof {
                assert(out@ + strip_lines_rec(s@, i as int) =~= out@);
            }
            return from_chars(&out);
        }
        let e = scan_to_exec(&s, i, '\n');
        let raw = sub_chars(&s, i, e);
        let line = if e < s.len() && raw.len() > 0 && raw[raw.len() - 1] == '\r' {
            sub_chars(&raw, 0, raw.len() - 1)
        } else {
            raw
        };
        proof {
            let graw = s@.subrange(i as int, e as int);
            if e < s@.len() && graw.len() > 0 && graw.last() == '\r' {
                assert(line@ =~= graw.drop_last());
            }
        }
        let h = scan_to_exec(&line, 0, '#');
        let mut body = sub_chars(&line, 0, h);
        proof {
            assert(body@ =~= line@.take(h as int));
        }
        let ghost prev = out@;
        out.append(&mut body);
        if s.len() - e <= 1 {
            proof {
                assert(out@ + Seq::<char>::empty() =~= out@);
                assert(prev + strip_lines_rec(s@, i as int) =~= out@);
            }
            return from_chars(&out);
        }
        out.push('\n');
        proof {
            assert(prev + (line@.take(scan_to(line@, 0, '#')) + seq!['\n'] + strip_lines_rec(
                s@,
                e as int + 1,
            )) =~= out@ + strip_lines_rec(s@, e as int + 1));
        }
        i = e + 1;
    }
}

/// The table literal named `name`: everything from the `{` after `name = ` or
/// `name=` through its matching `}`.
pub open spec fn spec_find_table(text: Seq<char>, name: Seq<char>) -> Result<Seq<char>, ScanError> {
    let tag1 = name + " = {"@;
    let tag2 = name + "={"@;
    let sp = match first_sub_from(text, tag1, 0) {
        Some(p) => Some(p + tag1.len() - 1),
        None => match first_sub_from(text, tag2, 0) {
            Some(p) => Some(p + tag2.len() - 1),
            None => None,
        },
    };
    match sp {
        None => Err(ScanError::NotFound),
        Some(b) => match bracket_end(text, b, 0, '{', '}') {
            None => Err(ScanError::UnmatchedBraces),
            Some(e) => Ok(text.subrange(b, e)),
        },
    }
}

/// Locate a named table literal in the script text.
pub fn find_table(text: &Vec<char>, name: &str) -> (r: Result<Vec<char>, ScanError>)
    ensures
        match r {
            Ok(body) => spec_find_table(text@, name@) == Ok::<Seq<char>, ScanError>(body@),
            Err(e) => spec_find_table(text@, name@) == Err::<Seq<char>, ScanError>(e),
        },
{
    let mut tag1 = to_chars(name);
    let mut sfx1 = to_chars(" = {");
    tag1.append(&mut sfx1);
    let mut tag2 = to_chars(name);
    let mut sfx2 = to_chars("={");
    tag2.append(&mut sfx2);
    proof {
        assert(tag1@ == name@ + " = {"@);
        assert(tag2@ == name@ + "={"@);
        reveal_strlit(" = {");
        reveal_strlit("={");
    }
    let b: usize = match find_sub(text, &tag1) {
        Some(p) => p + tag1.len() - 1,
        None => match find_sub(text, &tag2) {
            Some(p) => p + tag2.len() - 1,
            None => {
                return Err(ScanError::NotFound);
            },
        },
    };
    match bracket_end_exec(text, b, '{', '}') {
        None => Err(ScanError::UnmatchedBraces),
        Some(e) => Ok(sub_chars(text, b, e)),
    }
}

/// The characters between the first and last of a bracketed piece.
pub open spec fn inner_of(s: Seq<char>) -> Seq<char> {
    if s.len() >= 2 {
        s.subrange(1, s.len() - 1)
    } else {
        Seq::<char>::empty()
    }
}

fn inner_of_exec(s: &Vec<char>) -> (r: Vec<char>)
    ensures
        r@ == inner_of(s@),
{
    if s.len() >= 2 {
        sub_chars(s, 1, s.len() - 1)
    } else {
        let r: Vec<char> = Vec::new();
        proof {
            assert(r@ =~= inner_of(s@));
        }
        r
    }
}

/// A tuple literal `('hexmask', offset[, 'override'])`: field 0 is the hex
/// mask, field 1 a signed decimal displacement (`0` when malformed), field 2
/// an optional override replacement.
pub open spec fn spec_parse_tuple(src: Seq<char>) -> Result<GPattern, ParseError> {
    let parts = spec_split_top_level(inner_of(src), ',');
    if parts.len() < 2 {
        Err(ParseError::TupleTooShort)
    } else {
        Ok(
            GPattern {
                hex_mask: unquote_spec(parts[0]),
                offset: spec_parse_i64_or_zero(parts[1]) as int,
                override_hex: if parts.len() >= 3 {
                    Some(unquote_spec(parts[2]))
                } else {
                    None
                },
            },
        )
    }
}

pub fn parse_tuple_pattern(src: &Vec<char>) -> (r: Result<PatternSpec, ParseError>)
    ensures
        match r {
            Ok(p) => spec_parse_tuple(src@) == Ok::<GPattern, ParseError>(p@),
            Err(e) => spec_parse_tuple(src@) == Err::<GPattern, ParseError>(e),
        },
{
    let inner = inner_of_exec(src);
    let parts = split_top_level_exec(&inner, ',');
    if parts.len() < 2 {
        return Err(ParseError::TupleTooShort);
    }
    proof {
        assert(parts.deep_view()[0] == parts@[0]@);
        assert(parts.deep_view()[1] == parts@[1]@);
    }
    let hexv = unquote_exec(&parts[0]);
    let offset = parse_i64_or_zero(&parts[1]);
    let override_hex: Option<String> = if parts.len() >= 3 {
        proof {
            assert(parts.deep_view()[2] == parts@[2]@);
        }
        let ov = unquote_exec(&parts[2]);
        Some(from_chars(&ov))
    } else {
        None
    };
    Ok(PatternSpec { hex_mask: from_chars(&hexv), offset, override_hex })
}

pub open spec fn step_ix(ni: int, i: int, len: int) -> int {
    if ni <= i {
        i + 1
    } else if ni > len {
        len
    } else {
        ni
    }
}

/// The tuples of an alternatives list `[ ('hex', off), ... ]`, scanned from
/// `i` within the list's inner text.
pub open spec fn spec_parse_patterns_rec(s: Seq<char>, i: int, acc: Seq<GPattern>) -> Result<
    Seq<GPattern>,
    ParseError,
>
    decreases s.len() - i,
    when 0 <= i
{
    if i >= s.len() {
        Ok(acc)
    } else {
        let j = skip_ws(s, i);
        if j >= s.len() {
            Ok(acc)
        } else if s[j] != '(' {
            Err(ParseError::ExpectedTuple)
        } else {
            let end = match bracket_end(s, j, 0, '(', ')') {
                Some(e) => e,
                None => s.len() as int,
            };
            let tup = s.subrange(j, end);
            match spec_parse_tuple(tup) {
                Err(e) => Err(e),
                Ok(p) => {
                    let ni = advance_after_comma(s, end, '(');
                    spec_parse_patterns_rec(s, step_ix(ni, i, s.len() as int), acc.push(p))
                },
            }
        }
    }
}

pub open spec fn spec_parse_patterns(src: Seq<char>) -> Result<Seq<GPattern>, ParseError> {
    spec_parse_patterns_rec(inner_of(src), 0, seq![])
}

pub fn parse_patterns_list(src: &Vec<char>) -> (r: Result<Vec<PatternSpec>, ParseError>)
    ensures
        match r {
            Ok(ps) => spec_parse_patterns(src@) == Ok::<Seq<GPattern>, ParseError>(ps.deep_view()),
            Err(e) => spec_parse_patterns(src@) == Err::<Seq<GPattern>, ParseError>(e),
        },
{
    let inner = inner_of_exec(src);
    let mut acc: Vec<PatternSpec> = Vec::new();
    let mut i: usize = 0;
    proof {
        assert(acc.deep_view() =~= Seq::<GPattern>::empty());
    }
    loop
        invariant
            i <= inner.len(),
            inner@ == inner_of(src@),
            spec_parse_patterns(src@) == spec_parse_patterns_rec(
                inner@,
                i as int,
                acc.deep_view(),
            ),
        decreases inner.len() - i,
    {
        if i >= inner.len() {
            return Ok(acc);
        }
        let j = skip_ws_exec(&inner, i);
        if j >= inner.len() {
            return Ok(acc);
        }
        if inner[j] != '(' {
            return Err(ParseError::ExpectedTuple);
        }
        let end = match bracket_end_exec(&inner, j, '(', ')') {
            Some(e) => e,
            None => inner.len(),
        };
        let tup = sub_chars(&inner, j, end);
        match parse_tuple_pattern(&tup) {
            Err(e) => {
                return Err(e);
            },
            Ok(p) => {
                let ni = advance_after_comma_exec(&inner, end, '(');
                let ghost prev = acc.deep_view();
                acc.push(p);
                proof {
                    assert(acc.deep_view() =~~= prev.push(p@));
                    assert(step_ix(ni as int, i as int, inner@.len() as int) == ni as int);
                }
                i = ni;
            },
        }
    }
}

/// One entry `[ first, 'default'? ]`: `first` is either a single tuple or a
/// list of alternative tuples; a quoted second piece is the entry's default
/// replacement.
pub open spec fn spec_parse_entry(src: Seq<char>) -> Result<GPatchSet, ParseError> {
    let parts = spec_split_top_level(inner_of(src), ',');
    if parts.len() == 0 {
        Err(ParseError::EmptyEntry)
    } else {
        let default_replacement = if parts.len() >= 2 && parts[1].len() > 0 && parts[1][0] == '\'' {
            Some(unquote_spec(parts[1]))
        } else {
            None
        };
        let first = parts[0];
        if first.len() > 0 && first[0] == '[' {
            match spec_parse_patterns(first) {
                Ok(ps) => Ok(GPatchSet { patterns: ps, default_replacement }),
                Err(e) => Err(e),
            }
        } else if first.len() > 0 && first[0] == '(' {
            match spec_parse_tuple(first) {
                Ok(p) => Ok(GPatchSet { patterns: seq![p], default_replacement }),
                Err(e) => Err(e),
            }
        } else {
            Err(ParseError::BadEntryShape)
        }
    }
}

pub fn parse_entry_list(src: &Vec<char>) -> (r: Result<PatchSet, ParseError>)
    ensures
        match r {
            Ok(set) => spec_parse_entry(src@) == Ok::<GPatchSet, ParseError>(set@),
            Err(e) => spec_parse_entry(src@) == Err::<GPatchSet, ParseError>(e),
        },
{
    let inner = inner_of_exec(src);
    let parts = split_top_level_exec(&inner, ',');
    if parts.len() == 0 {
        return Err(ParseError::EmptyEntry);
    }
    proof {
        assert(parts.deep_view()[0] == parts@[0]@);
    }
    let default_replacement: Option<String> = if parts.len() >= 2 {
        proof {
            assert(parts.deep_view()[1] == parts@[1]@);
        }
        let p1 = &parts[1];
        if p1.len() > 0 && p1[0] == '\'' {
            let d = unquote_exec(p1);
            Some(from_chars(&d))
        } else {
            None
        }
    } else {
        None
    };
    let first = &parts[0];
    if first.len() > 0 && first[0] == '[' {
        match parse_patterns_list(first) {
            Ok(patterns) => Ok(PatchSet { patterns, default_replacement }),
            Err(e) => Err(e),
        }
    } else if first.len() > 0 && first[0] == '(' {
        match parse_tuple_pattern(first) {
            Ok(p) => {
                let mut patterns: Vec<PatternSpec> = Vec::new();
                let ghost gp = p@;
                patterns.push(p);
                proof {
                    assert(patterns.deep_view() =~= seq![gp]);
                }
                Ok(PatchSet { patterns, default_replacement })
            },
            Err(e) => Err(e),
        }
    } else {
        Err(ParseError::BadEntryShape)
    }
}

/// The entries of a patch-set list `[ entry, entry, ... ]`, scanned from `i`
/// within the list's inner text; anything that is not a bracketed entry is
/// skipped up to the next comma.
pub open spec fn spec_parse_sets_rec(s: Seq<char>, i: int, acc: Seq<GPatchSet>) -> Result<
    Seq<GPatchSet>,
    ParseError,
>
    decreases s.len() - i,
    when 0 <= i
{
    if i >= s.len() {
        Ok(acc)
    } else {
        let j = skip_ws(s, i);
        if j >= s.len() {
            Ok(acc)
        } else if s[j] == '[' {
            let end = match bracket_end(s, j, 0, '[', ']') {
                Some(e) => e,
                None => s.len() as int,
            };
            let entry = s.subrange(j, end);
            match spec_parse_entry(entry) {
                Err(e) => Err(e),
                Ok(g) => {
                    let ni = if end < s.len() && s[end] == ',' {
                        end + 1
                    } else {
                        end
                    };
                    spec_parse_sets_rec(s, step_ix(ni, i, s.len() as int), acc.push(g))
                },
            }
        } else {
            let k = scan_to(s, j, ',');
            let ni = if k < s.len() {
                k + 1
            } else {
                k
            };
            spec_parse_sets_rec(s, step_ix(ni, i, s.len() as int), acc)
        }
    }
}

pub open spec fn spec_parse_sets(src: Seq<char>) -> Result<Seq<GPatchSet>, ParseError> {
    spec_parse_sets_rec(inner_of(src), 0, seq![])
}

pub fn parse_patch_sets(src: &Vec<char>) -> (r: Result<Vec<PatchSet>, ParseError>)
    ensures
        match r {
            Ok(sets) => spec_parse_sets(src@) == Ok::<Seq<GPatchSet>, ParseError>(
                sets.deep_view(),
            ),
            Err(e) => spec_parse_sets(src@) == Err::<Seq<GPatchSet>, ParseError>(e),
        },
{
    let inner = inner_of_exec(src);
    let mut acc: Vec<PatchSet> = Vec::new();
    let mut i: usize = 0;
    proof {
        assert(acc.deep_view() =~= Seq::<GPatchSet>::empty());
    }
    loop
        invariant
            i <= inner.len(),
            inner@ == inner_of(src@),
            spec_parse_sets(src@) == spec_parse_sets_rec(inner@, i as int, acc.deep_view()),
        decreases inner.len() - i,
    {
        if i >= inner.len() {
            return Ok(acc);
        }
        let j = skip_ws_exec(&inner, i);
        if j >= inner.len() {
            return Ok(acc);
        }
        if inner[j] == '[' {
            let end = match bracket_end_exec(&inner, j, '[', ']') {
                Some(e) => e,
                None => inner.len(),
            };
            let entry = sub_chars(&inner, j, end);
            match parse_entry_list(&entry) {
                Err(e) => {
                    return Err(e);
                },
                Ok(set) => {
                    let ni = if end < inner.len() && inner[end] == ',' {
                        end + 1
                    } else {
                        end
                    };
                    let ghost prev = acc.deep_view();
                    let ghost gset = set@;
                    acc.push(set);
                    proof {
                        assert(acc.deep_view() =~~= prev.push(gset));
                        assert(step_ix(ni as int, i as int, inner@.len() as int) == ni as int);
                    }
                    i = ni;
                },
            }
        } else {
            let k = scan_to_exec(&inner, j, ',');
            let ni = if k < inner.len() {
                k + 1
            } else {
                k
            };
            proof {
                assert(step_ix(ni as int, i as int, inner@.len() as int) == ni as int);
            }
            i = ni;
        }
    }
}

/// A parsed patch table: relative file paths, each with its ordered list of
/// patch sets.  Keys are unique; a later binding of a key replaces the
/// earlier one.
pub struct PatchTable {
    pub entries: Vec<(String, Vec<PatchSet>)>,
}

impl View for PatchTable {
    type V = Seq<(Seq<char>, Seq<GPatchSet>)>;

    open spec fn view(&self) -> Seq<(Seq<char>, Seq<GPatchSet>)> {
        self.entries.deep_view()
    }
}

/// The patch sets bound to `key`, if any.
pub open spec fn table_lookup(t: Seq<(Seq<char>, Seq<GPatchSet>)>, key: Seq<char>) -> Option<
    Seq<GPatchSet>,
>
    decreases t.len(),
{
    if t.len() == 0 {
        None
    } else if t[0].0 == key {
        Some(t[0].1)
    } else {
        table_lookup(t.skip(1), key)
    }
}

/// The table with `key` bound to `v`: an existing binding is replaced in
/// place, a new key goes to the end.
pub open spec fn upsert(
    t: Seq<(Seq<char>, Seq<GPatchSet>)>,
    key: Seq<char>,
    v: Seq<GPatchSet>,
) -> Seq<(Seq<char>, Seq<GPatchSet>)>
    decreases t.len(),
{
    if t.len() == 0 {
        seq![(key, v)]
    } else if t[0].0 == key {
        seq![(key, v)] + t.skip(1)
    } else {
        seq![t[0]] + upsert(t.skip(1), key, v)
    }
}

proof fn lemma_upsert_found(
    t: Seq<(Seq<char>, Seq<GPatchSet>)>,
    key: Seq<char>,
    v: Seq<GPatchSet>,
    k: int,
)
    requires
        0 <= k < t.len(),
        t[k].0 == key,
        forall|m: int| 0 <= m < k ==> (#[trigger] t[m]).0 != key,
    ensures
        upsert(t, key, v) == t.update(k, (key, v)),
    decreases k,
{
    if k == 0 {
        assert(upsert(t, key, v) =~= t.update(0, (key, v)));
    } else {
        lemma_upsert_found(t.skip(1), key, v, k - 1);
        assert(t.skip(1).update(k - 1, (key, v)) =~= t.update(k, (key, v)).skip(1));
        assert(seq![t[0]] + t.skip(1).update(k - 1, (key, v)) =~= t.update(k, (key, v)));
    }
}

proof fn lemma_upsert_missing(t: Seq<(Seq<char>, Seq<GPatchSet>)>, key: Seq<char>, v: Seq<GPatchSet>)
    requires
        forall|m: int| 0 <= m < t.len() ==> (#[trigger] t[m]).0 != key,
    ensures
        upsert(t, key, v) == t.push((key, v)),
    decreases t.len(),
{
    if t.len() == 0 {
        assert(upsert(t, key, v) =~= t.push((key, v)));
    } else {
        lemma_upsert_missing(t.skip(1), key, v);
        assert(seq![t[0]] + t.skip(1).push((key, v)) =~= t.push((key, v)));
    }
}

fn table_upsert(entries: &mut Vec<(String, Vec<PatchSet>)>, key: String, sets: Vec<PatchSet>)
    ensures
        final(entries).deep_view() == upsert(old(entries).deep_view(), key@, sets.deep_view()),
{
    let ghost t = entries.deep_view();
    let mut k: usize = 0;
    while k < entries.len()
        invariant
            k <= entries.len(),
            t == entries.deep_view(),
            t == old(entries).deep_view(),
            forall|m: int| 0 <= m < k ==> (#[trigger] t[m]).0 != key@,
        decreases entries.len() - k,
    {
        let found = str_eq(entries[k].0.as_str(), key.as_str());
        proof {
            assert(t[k as int].0 == entries@[k as int].0@);
        }
        if found {
            let ghost gkey = key@;
            let ghost gsets = sets.deep_view();
            entries.set(k, (key, sets));
            proof {
                lemma_upsert_found(t, gkey, gsets, k as int);
                assert(upsert(t, gkey, gsets) == t.update(k as int, (gkey, gsets)));
                assert(entries.deep_view() =~~= t.update(k as int, (gkey, gsets)));
                assert(entries.deep_view() == upsert(old(entries).deep_view(), gkey, gsets));
            }
            return ;
        }
        k = k + 1;
    }
    let ghost gkey = key@;
    let ghost gsets = sets.deep_view();
    entries.push((key, sets));
    proof {
        lemma_upsert_missing(t, gkey, gsets);
        assert(entries.deep_view() =~~= t.push((gkey, gsets)));
    }
}

/// The entries of a table body, scanned from `i`: `'key': [ ... ]` pairs
/// separated by commas, ending at the closing brace or the end of the text.
pub open spec fn spec_parse_dict_entries(
    s: Seq<char>,
    i: int,
    acc: Seq<(Seq<char>, Seq<GPatchSet>)>,
) -> Result<Seq<(Seq<char>, Seq<GPatchSet>)>, ParseError>
    decreases s.len() - i,
    when 0 <= i
{
    if i >= s.len() {
        Ok(acc)
    } else {
        let j = skip_ws(s, i);
        if j >= s.len() {
            Ok(acc)
        } else if s[j] == '}' {
            Ok(acc)
        } else if s[j] != '\'' {
            Err(ParseError::ExpectedQuotedKey)
        } else {
            let ke = scan_to(s, j + 1, '\'');
            let key = s.subrange(j + 1, ke);
            let i1 = if ke < s.len() {
                ke + 1
            } else {
                s.len() as int
            };
            let i2 = skip_ws_colon(s, i1);
            let i3 = skip_ws(s, i2);
            if i3 >= s.len() || s[i3] != '[' {
                Err(ParseError::ExpectedBracket)
            } else {
                let end = match bracket_end(s, i3, 0, '[', ']') {
                    Some(e) => e,
                    None => s.len() as int,
                };
                let val = s.subrange(i3, end);
                match spec_parse_sets(val) {
                    Err(e) => Err(e),
                    Ok(sets) => {
                        let ni = advance_after_comma(s, end, '\'');
                        spec_parse_dict_entries(
                            s,
                            step_ix(ni, i, s.len() as int),
                            upsert(acc, key, sets),
                        )
                    },
                }
            }
        }
    }
}

/// A whole table literal: outer braces stripped, then its entries.
pub open spec fn spec_parse_dict(body: Seq<char>) -> Result<
    Seq<(Seq<char>, Seq<GPatchSet>)>,
    ParseError,
> {
    let t = trim_spec(body);
    let slice = if t.len() >= 2 && t[0] == '{' && t[t.len() - 1] == '}' {
        t.subrange(1, t.len() - 1)
    } else {
        t
    };
    spec_parse_dict_entries(slice, 0, Seq::<(Seq<char>, Seq<GPatchSet>)>::empty())
}

pub fn parse_dict(body: &Vec<char>) -> (r: Result<PatchTable, ParseError>)
    ensures
        match r {
            Ok(t) => spec_parse_dict(body@) == Ok::<Seq<(Seq<char>, Seq<GPatchSet>)>, ParseError>(
                t@,
            ),
            Err(e) => spec_parse_dict(body@) == Err::<
                Seq<(Seq<char>, Seq<GPatchSet>)>,
                ParseError,
            >(e),
        },
{
    let t = trim_exec(body);
    let use_inner = t.len() >= 2 && t[0] == '{' && t[t.len() - 1] == '}';
    let slice = if use_inner {
        sub_chars(&t, 1, t.len() - 1)
    } else {
        t
    };
    let mut entries: Vec<(String, Vec<PatchSet>)> = Vec::new();
    let mut i: usize = 0;
    proof {
        assert(entries.deep_view() =~= Seq::<(Seq<char>, Seq<GPatchSet>)>::empty());
    }
    loop
        invariant
            i <= slice.len(),
            slice@ == ({
                let tt = trim_spec(body@);
                if tt.len() >= 2 && tt[0] == '{' && tt[tt.len() - 1] == '}' {
                    tt.subrange(1, tt.len() - 1)
                } else {
                    tt
                }
            }),
            spec_parse_dict(body@) == spec_parse_dict_entries(
                slice@,
                i as int,
                entries.deep_view(),
            ),
        decreases slice.len() - i,
    {
        if i >= slice.len() {
            return Ok(PatchTable { entries });
        }
        let j = skip_ws_exec(&slice, i);
        if j >= slice.len() {
            return Ok(PatchTable { entries });
        }
        if slice[j] == '}' {
            return Ok(PatchTable { entries });
        }
        if slice[j] != '\'' {
            return Err(ParseError::ExpectedQuotedKey);
        }
        let ke = scan_to_exec(&slice, j + 1, '\'');
        let keyv = sub_chars(&slice, j + 1, ke);
        let i1 = if ke < slice.len() {
            ke + 1
        } else {
            slice.len()
        };
        let i2 = skip_ws_colon_exec(&slice, i1);
        let i3 = skip_ws_exec(&slice, i2);
        if i3 >= slice.len() {
            return Err(ParseError::ExpectedBracket);
        }
        if slice[i3] != '[' {
            return Err(ParseError::ExpectedBracket);
        }
        let end = match bracket_end_exec(&slice, i3, '[', ']') {
            Some(e) => e,
            None => slice.len(),
        };
        let val = sub_chars(&slice, i3, end);
        match parse_patch_sets(&val) {
            Err(e) => {
                return Err(e);
            },
            Ok(sets) => {
                let ni = advance_after_comma_exec(&slice, end, '\'');
                let key = from_chars(&keyv);
                let ghost prev = entries.deep_view();
                let ghost gkey = key@;
                let ghost gsets = sets.deep_view();
                table_upsert(&mut entries, key, sets);
                proof {
                    assert(entries.deep_view() == upsert(prev, gkey, gsets));
                    assert(step_ix(ni as int, i as int, slice@.len() as int) == ni as int);
                }
                i = ni;
            },
        }
    }
}

/// The body of the table named under either spelling: a table that is under
/// neither spelling reads as the empty literal, but one that is found and
/// whose braces never close is a failure.
pub open spec fn spec_locate_table(text: Seq<char>, n1: Seq<char>, n2: Seq<char>) -> Result<
    Seq<char>,
    ScanError,
> {
    match spec_find_table(text, n1) {
        Ok(b) => Ok(b),
        Err(ScanError::UnmatchedBraces) => Err(ScanError::UnmatchedBraces),
        Err(ScanError::NotFound) => match spec_find_table(text, n2) {
            Ok(b) => Ok(b),
            Err(ScanError::UnmatchedBraces) => Err(ScanError::UnmatchedBraces),
            Err(ScanError::NotFound) => Ok("{}"@),
        },
    }
}

/// What parsing a whole patch script yields: the 32-bit table and the 64-bit
/// table.  A missing table reads as empty; a table whose braces never close,
/// or whose body is malformed, fails the whole parse.
pub open spec fn spec_parse_script(src: Seq<char>) -> Result<
    (Seq<(Seq<char>, Seq<GPatchSet>)>, Seq<(Seq<char>, Seq<GPatchSet>)>),
    ParseError,
> {
    let text = strip_comments_spec(src);
    match spec_locate_table(text, "patches32"@, "patches_32"@) {
        Err(_) => Err(ParseError::UnmatchedBraces),
        Ok(d32) => match spec_locate_table(text, "patches64"@, "patches_64"@) {
            Err(_) => Err(ParseError::UnmatchedBraces),
            Ok(d64) => match spec_parse_dict(d32) {
                Err(e) => Err(e),
                Ok(t32) => match spec_parse_dict(d64) {
                    Err(e) => Err(e),
                    Ok(t64) => Ok((t32, t64)),
                },
            },
        },
    }
}

fn locate_table(text: &Vec<char>, n1: &str, n2: &str) -> (r: Result<Vec<char>, ScanError>)
    ensures
        match r {
            Ok(b) => spec_locate_table(text@, n1@, n2@) == Ok::<Seq<char>, ScanError>(b@),
            Err(e) => spec_locate_table(text@, n1@, n2@) == Err::<Seq<char>, ScanError>(e),
        },
{
    match find_table(text, n1) {
        Ok(b) => Ok(b),
        Err(ScanError::UnmatchedBraces) => Err(ScanError::UnmatchedBraces),
        Err(ScanError::NotFound) => match find_table(text, n2) {
            Ok(b) => Ok(b),
            Err(ScanError::UnmatchedBraces) => Err(ScanError::UnmatchedBraces),
            Err(ScanError::NotFound) => Ok(to_chars("{}")),
        },
    }
}

/// Parse a patch-definition script into its 32-bit and 64-bit patch tables.
/// A table whose literal is missing parses as empty; a table whose braces
/// never close, or whose body is malformed, fails the whole parse.
pub fn parse_patches_from_python(src: &str) -> (r: Result<(PatchTable, PatchTable), ParseError>)
    ensures
        match r {
            Ok(tt) => spec_parse_script(src@) == Ok::<
                (Seq<(Seq<char>, Seq<GPatchSet>)>, Seq<(Seq<char>, Seq<GPatchSet>)>),
                ParseError,
            >((tt.0@, tt.1@)),
            Err(e) => spec_parse_script(src@) == Err::<
                (Seq<(Seq<char>, Seq<GPatchSet>)>, Seq<(Seq<char>, Seq<GPatchSet>)>),
                ParseError,
            >(e),
        },
{
    let text = strip_comments(src);
    let tchars = to_chars(text.as_str());
    let d32 = match locate_table(&tchars, "patches32", "patches_32") {
        Ok(b) => b,
        Err(_) => {
            return Err(ParseError::UnmatchedBraces);
        },
    };
    let d64 = match locate_table(&tchars, "patches64", "patches_64") {
        Ok(b) => b,
        Err(_) => {
            return Err(ParseError::UnmatchedBraces);
        },
    };
    let t32 = match parse_dict(&d32) {
        Ok(t) => t,
        Err(e) => {
            return Err(e);
        },
    };
    let t64 = match parse_dict(&d64) {
        Ok(t) => t,
        Err(e) => {
            return Err(e);
        },
    };
    Ok((t32, t64))
}

impl PatchTable {
    /// How many file paths the table binds.
    pub fn len(&self) -> (n: usize)
        ensures
            n == self@.len(),
    {
        self.entries.len()
    }

    /// The patch sets bound to `key`, if any.
    pub fn get(&self, key: &str) -> (r: Option<&Vec<PatchSet>>)
        ensures
            match r {
                Some(sets) => table_lookup(self@, key@) == Some(sets.deep_view()),
                None => table_lookup(self@, key@) is None,
            },
    {
        let ghost t = self@;
        let mut k: usize = 0;
        proof {
            assert(t.skip(0) =~= t);
        }
        while k < self.entries.len()
            invariant
                k <= self.entries.len(),
                t == self@,
                table_lookup(t, key@) == table_lookup(t.skip(k as int), key@),
            decreases self.entries.len() - k,
        {
            let e = &self.entries[k];
            proof {
                assert(t.skip(k as int)[0] == t[k as int]);
                assert(t[k as int].0 == self.entries@[k as int].0@);
                assert(t[k as int].1 == self.entries@[k as int].1.deep_view());
                assert(t.skip(k as int).skip(1) =~= t.skip(k as int + 1));
            }
            if str_eq(e.0.as_str(), key) {
                return Some(&e.1);
            }
            k = k + 1;
        }
        proof {
            assert(t.skip(t.len() as int).len() == 0);
        }
        None
    }
}

} // verus!
