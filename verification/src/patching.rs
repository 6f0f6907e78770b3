//! The patch resolver: given a file's original bytes and a list of patch
//! sets, pick for each set the first alternative signature that occurs
//! exactly once, write its replacement at the declared displacement, and
//! record a diagnostic line for everything that deserves one.

use vstd::prelude::*;
use vstd::string::StringExecFns;
use crate::hexbytes::{decode_hex, spec_hex_decode};
use crate::mask::{
    findmask, first_match_from, mask_matches_at, mask_segs, mask_wf, unique_match,
};
use crate::num::{dec_chars, fmt_dec, fmt_hex_upper, hex_chars_upper};

verus! {

/// One candidate signature: a hex mask (possibly with `??` wildcards), a
/// signed byte displacement applied to the match position, and an optional
/// replacement that takes precedence over the set's default.
#[derive(Debug, Clone)]
pub struct PatternSpec {
    pub hex_mask: String,
    pub offset: i64,
    pub override_hex: Option<String>,
}

/// One patch intent for one file: alternative signatures tried in order, and
/// the replacement used when an alternative carries no override.
#[derive(Debug, Clone)]
pub struct PatchSet {
    pub patterns: Vec<PatternSpec>,
    pub default_replacement: Option<String>,
}

/// What a whole patch session reports: how many files were patched, and every
/// diagnostic line accumulated on the way.
#[derive(Debug, Clone, Default)]
pub struct PatchResult {
    pub files_patched: usize,
    pub warnings: Vec<String>,
}

/// The mathematical content of a `PatternSpec`.
pub ghost struct GPattern {
    pub hex_mask: Seq<char>,
    pub offset: int,
    pub override_hex: Option<Seq<char>>,
}

/// The mathematical content of a `PatchSet`.
pub ghost struct GPatchSet {
    pub patterns: Seq<GPattern>,
    pub default_replacement: Option<Seq<char>>,
}

impl View for PatternSpec {
    type V = GPattern;

    open spec fn view(&self) -> GPattern {
        GPattern {
            hex_mask: self.hex_mask@,
            offset: self.offset as int,
            override_hex: match self.override_hex {
                Some(h) => Some(h@),
                None => None,
            },
        }
    }
}

impl DeepView for PatternSpec {
    type V = GPattern;

    open spec fn deep_view(&self) -> GPattern {
        self.view()
    }
}

impl View for PatchSet {
    type V = GPatchSet;

    open spec fn view(&self) -> GPatchSet {
        GPatchSet {
            patterns: self.patterns.deep_view(),
            default_replacement: match self.default_replacement {
                Some(d) => Some(d@),
                None => None,
            },
        }
    }
}

impl DeepView for PatchSet {
    type V = GPatchSet;

    open spec fn deep_view(&self) -> GPatchSet {
        self.view()
    }
}

/// The first alternative (at or after `i`) whose signature occurs exactly
/// once in the buffer.
pub open spec fn chosen_from(data: Seq<u8>, pats: Seq<PatternSpec>, i: int) -> Option<int>
    decreases pats.len() - i,
    when 0 <= i
{
    if i >= pats.len() {
        None
    } else if unique_match(data, pats[i].hex_mask@) {
        Some(i)
    } else {
        chosen_from(data, pats, i + 1)
    }
}

/// The replacement hex for alternative `i` of a set: its own override if
/// present, otherwise the set's default.
pub open spec fn effective_replacement(set: PatchSet, i: int) -> Option<Seq<char>> {
    match set.patterns[i].override_hex {
        Some(h) => Some(h@),
        None => match set.default_replacement {
            Some(d) => Some(d@),
            None => None,
        },
    }
}

/// The absolute write position: the match position plus the displacement,
/// saturating at zero for a negative displacement.
pub open spec fn write_offset(base: int, off: int) -> int {
    if base + off >= 0 {
        base + off
    } else {
        0
    }
}

/// The buffer with `repl` overwriting the bytes starting at `at`.
pub open spec fn spec_write(out: Seq<u8>, at: int, repl: Seq<u8>) -> Seq<u8> {
    out.take(at) + repl + out.skip(at + repl.len())
}

pub open spec fn applied_msg(at: nat, len: nat) -> Seq<char> {
    "Applied patch at 0x"@ + hex_chars_upper(at) + ", len "@ + dec_chars(len)
}

pub open spec fn out_of_range_msg(mask: Seq<char>) -> Seq<char> {
    "Write out of range for pattern "@ + mask
}

pub open spec fn location_item(mask: Seq<char>, p: nat) -> Seq<char> {
    mask + "@0x"@ + hex_chars_upper(p)
}

/// One `<mask>@0x<position>` note for every position at or after `from`
/// where the mask matches.
pub open spec fn location_items(data: Seq<u8>, mask: Seq<char>, from: int) -> Seq<Seq<char>>
    decreases data.len() + 1 - from,
    when 0 <= from
{
    if !mask_wf(mask) || from > data.len() {
        seq![]
    } else {
        let rest = location_items(data, mask, from + 1);
        if mask_matches_at(data, mask_segs(mask), from) {
            seq![location_item(mask, from as nat)] + rest
        } else {
            rest
        }
    }
}

/// The location list starts at the first match and continues past it.
pub proof fn lemma_location_items_head(data: Seq<u8>, mask: Seq<char>, from: int)
    requires
        0 <= from,
    ensures
        match first_match_from(data, mask, from) {
            None => location_items(data, mask, from) =~= seq![],
            Some(p) => location_items(data, mask, from) =~= seq![
                location_item(mask, p as nat),
            ] + location_items(data, mask, p + 1),
        },
    decreases data.len() + 1 - from,
{
    if mask_wf(mask) && from <= data.len() {
        if !mask_matches_at(data, mask_segs(mask), from) {
            lemma_location_items_head(data, mask, from + 1);
        }
    }
}

/// The candidate locations of every alternative from `i` on, in order.
pub open spec fn pattern_locations(data: Seq<u8>, pats: Seq<PatternSpec>, i: int) -> Seq<
    Seq<char>,
>
    decreases pats.len() - i,
    when 0 <= i
{
    if i >= pats.len() {
        seq![]
    } else {
        location_items(data, pats[i].hex_mask@, 0) + pattern_locations(data, pats, i + 1)
    }
}

pub open spec fn join_comma(items: Seq<Seq<char>>) -> Seq<char>
    decreases items.len(),
{
    if items.len() == 0 {
        Seq::<char>::empty()
    } else if items.len() == 1 {
        items[0]
    } else {
        items[0] + ", "@ + join_comma(items.skip(1))
    }
}

/// The diagnostic when no alternative matched exactly once: all candidate
/// locations, or a plain note when nothing matched at all.
pub open spec fn no_unique_msg(data: Seq<u8>, pats: Seq<PatternSpec>) -> Seq<char> {
    let locs = pattern_locations(data, pats, 0);
    if locs.len() == 0 {
        "Failed to locate pattern"@
    } else {
        "Ambiguous or conflicting pattern(s): "@ + join_comma(locs)
    }
}

/// What applying one patch set does to the output buffer, and the diagnostics
/// it appends.
pub open spec fn apply_set_spec(orig: Seq<u8>, out: Seq<u8>, set: PatchSet) -> (Seq<u8>, Seq<
    Seq<char>,
>) {
    match chosen_from(orig, set.patterns@, 0) {
        None => (out, seq![no_unique_msg(orig, set.patterns@)]),
        Some(i) => {
            let pat = set.patterns@[i];
            let base = first_match_from(orig, pat.hex_mask@, 0)->Some_0;
            match effective_replacement(set, i) {
                None => (out, seq![]),
                Some(h) => match spec_hex_decode(h) {
                    None => (out, seq![]),
                    Some(repl) => {
                        let at = write_offset(base, pat.offset as int);
                        if at + repl.len() <= out.len() {
                            (spec_write(out, at, repl), seq![applied_msg(at as nat, repl.len())])
                        } else {
                            (out, seq![out_of_range_msg(pat.hex_mask@)])
                        }
                    },
                },
            }
        },
    }
}

/// What applying the sets from `i` on, in order, does to the output buffer,
/// and the diagnostics appended along the way.
pub open spec fn apply_sets_spec(orig: Seq<u8>, out: Seq<u8>, sets: Seq<PatchSet>, i: int) -> (
    Seq<u8>,
    Seq<Seq<char>>,
)
    decreases sets.len() - i,
    when 0 <= i
{
    if i >= sets.len() {
        (out, seq![])
    } else {
        let r0 = apply_set_spec(orig, out, sets[i]);
        let r1 = apply_sets_spec(orig, r0.0, sets, i + 1);
        (r1.0, r0.1 + r1.1)
    }
}

/// Find the first alternative with a unique match, and where it matched.
fn choose_unique(orig: &Vec<u8>, pats: &Vec<PatternSpec>) -> (r: Option<(usize, usize)>)
    ensures
        match r {
            Some(ib) => {
                &&& chosen_from(orig@, pats@, 0) == Some(ib.0 as int)
                &&& ib.0 < pats.len()
                &&& first_match_from(orig@, pats@[ib.0 as int].hex_mask@, 0) == Some(ib.1 as int)
            },
            None => chosen_from(orig@, pats@, 0) is None,
        },
{
    let mut i: usize = 0;
    while i < pats.len()
        invariant
            i <= pats.len(),
            chosen_from(orig@, pats@, 0) == chosen_from(orig@, pats@, i as int),
        decreases pats.len() - i,
    {
        let pat = &pats[i];
        match findmask(orig, pat.hex_mask.as_str(), 0) {
            Some(p) => {
                let second = if p < orig.len() {
                    findmask(orig, pat.hex_mask.as_str(), p + 1)
                } else {
                    proof {
                        crate::mask::lemma_first_match_bounds(orig@, pat.hex_mask@, 0);
                        assert(p as int + 1 > orig@.len());
                        assert(first_match_from(orig@, pat.hex_mask@, p as int + 1) is None);
                    }
                    None
                };
                if second.is_none() {
                    return Some((i, p));
                }
            },
            None => {},
        }
        i = i + 1;
    }
    None
}

fn write_bytes(out: &mut Vec<u8>, at: usize, repl: &Vec<u8>)
    requires
        at + repl.len() <= old(out).len(),
    ensures
        final(out)@ == spec_write(old(out)@, at as int, repl@),
{
    let total = out.len();
    let mut j: usize = 0;
    while j < repl.len()
        invariant
            j <= repl.len(),
            at + repl.len() <= old(out)@.len(),
            total == old(out)@.len(),
            out@.len() == old(out)@.len(),
            forall|m: int|
                0 <= m < out@.len() ==> #[trigger] out@[m] == (if at <= m < at + j {
                    repl@[m - at]
                } else {
                    old(out)@[m]
                }),
        decreases repl.len() - j,
    {
        out.set(at + j, repl[j]);
        j = j + 1;
    }
    proof {
        assert(out@ =~= spec_write(old(out)@, at as int, repl@));
    }
}

fn build_applied_msg(at: usize, len: usize) -> (s: String)
    ensures
        s@ == applied_msg(at as nat, len as nat),
{
    let mut s = String::new();
    s.append("Applied patch at 0x");
    let h = fmt_hex_upper(at as u64);
    s.append(h.as_str());
    s.append(", len ");
    let d = fmt_dec(len as u64);
    s.append(d.as_str());
    s
}

fn build_out_of_range_msg(mask: &String) -> (s: String)
    ensures
        s@ == out_of_range_msg(mask@),
{
    let mut s = String::new();
    s.append("Write out of range for pattern ");
    s.append(mask.as_str());
    s
}

fn build_location_item(mask: &String, p: usize) -> (s: String)
    ensures
        s@ == location_item(mask@, p as nat),
{
    let mut s = String::new();
    s.append(mask.as_str());
    s.append("@0x");
    let h = fmt_hex_upper(p as u64);
    s.append(h.as_str());
    s
}

/// `join_comma` of a sequence extended on the right.
proof fn lemma_join_comma_push(items: Seq<Seq<char>>, x: Seq<char>)
    requires
        items.len() >= 1,
    ensures
        join_comma(items.push(x)) == join_comma(items) + ", "@ + x,
    decreases items.len(),
{
    if items.len() == 1 {
        assert(items.push(x).skip(1) =~= seq![x]);
        assert(join_comma(seq![x]) == x);
        assert(items.push(x)[0] == items[0]);
        assert(join_comma(items.push(x)) == items[0] + ", "@ + x);
    } else {
        assert(items.push(x).skip(1) =~= items.skip(1).push(x));
        lemma_join_comma_push(items.skip(1), x);
        assert(items[0] + ", "@ + (join_comma(items.skip(1)) + ", "@ + x) =~= (items[0] + ", "@
            + join_comma(items.skip(1))) + ", "@ + x);
    }
}

fn join_comma_exec(items: &Vec<String>) -> (s: String)
    ensures
        s@ == join_comma(items.deep_view()),
{
    if items.len() == 0 {
        proof {
            assert(items.deep_view().len() == 0);
        }
        return String::new();
    }
    let mut s = items[0].clone();
    proof {
        assert(items.deep_view().take(1) =~= seq![items.deep_view()[0]]);
        assert(items.deep_view()[0] == items@[0]@);
    }
    let mut k: usize = 1;
    while k < items.len()
        invariant
            1 <= k <= items.len(),
            items.len() >= 1,
            s@ == join_comma(items.deep_view().take(k as int)),
        decreases items.len() - k,
    {
        s.append(", ");
        s.append(items[k].as_str());
        proof {
            let v = items.deep_view();
            assert(v.take(k as int).len() == k as int);
            lemma_join_comma_push(v.take(k as int), v[k as int]);
            assert(v.take(k as int).push(v[k as int]) =~= v.take(k as int + 1));
            assert(v[k as int] == items@[k as int]@);
        }
        k = k + 1;
    }
    proof {
        assert(items.deep_view().take(items.len() as int) =~= items.deep_view());
    }
    s
}

/// Append one `<mask>@0x<position>` note for every match of the mask.
fn push_pattern_locations(orig: &Vec<u8>, mask: &String, locs: &mut Vec<String>)
    ensures
        final(locs).deep_view() == old(locs).deep_view() + location_items(orig@, mask@, 0),
{
    let mut start: usize = 0;
    proof {
        assert(old(locs).deep_view() + location_items(orig@, mask@, 0) =~= locs.deep_view()
            + location_items(orig@, mask@, 0));
    }
    loop
        invariant
            start <= orig.len(),
            old(locs).deep_view() + location_items(orig@, mask@, 0) == locs.deep_view()
                + location_items(orig@, mask@, start as int),
        decreases orig.len() - start,
    {
        match findmask(orig, mask.as_str(), start) {
            None => {
                proof {
                    lemma_location_items_head(orig@, mask@, start as int);
                    assert(locs.deep_view() + location_items(orig@, mask@, start as int)
                        =~~= locs.deep_view());
                }
                return ;
            },
            Some(p) => {
                let ghost prev = locs.deep_view();
                let item = build_location_item(mask, p);
                locs.push(item);
                proof {
                    crate::mask::lemma_first_match_bounds(orig@, mask@, start as int);
                    lemma_location_items_head(orig@, mask@, start as int);
                    assert(locs.deep_view() =~~= prev.push(item@));
                    assert(prev + location_items(orig@, mask@, start as int) =~~= locs.deep_view()
                        + location_items(orig@, mask@, p as int + 1));
                }
                if p == orig.len() {
                    proof {
                        assert(location_items(orig@, mask@, p as int + 1) =~= Seq::<
                            Seq<char>,
                        >::empty());
                        assert(locs.deep_view() + location_items(orig@, mask@, p as int + 1)
                            =~~= locs.deep_view());
                    }
                    return ;
                }
                start = p + 1;
            },
        }
    }
}

fn build_no_unique_msg(orig: &Vec<u8>, pats: &Vec<PatternSpec>) -> (s: String)
    ensures
        s@ == no_unique_msg(orig@, pats@),
{
    let mut locs: Vec<String> = Vec::new();
    let mut i: usize = 0;
    proof {
        assert(locs.deep_view() + pattern_locations(orig@, pats@, 0) =~~= pattern_locations(
            orig@,
            pats@,
            0,
        ));
    }
    while i < pats.len()
        invariant
            i <= pats.len(),
            pattern_locations(orig@, pats@, 0) == locs.deep_view() + pattern_locations(
                orig@,
                pats@,
                i as int,
            ),
        decreases pats.len() - i,
    {
        let ghost prev = locs.deep_view();
        push_pattern_locations(orig, &pats[i].hex_mask, &mut locs);
        proof {
            assert(prev + (location_items(orig@, pats@[i as int].hex_mask@, 0)
                + pattern_locations(orig@, pats@, i as int + 1)) =~~= locs.deep_view()
                + pattern_locations(orig@, pats@, i as int + 1));
        }
        i = i + 1;
    }
    proof {
        assert(pattern_locations(orig@, pats@, pats@.len() as int) =~~= Seq::<Seq<char>>::empty());
        assert(locs.deep_view() + Seq::<Seq<char>>::empty() =~~= locs.deep_view());
    }
    if locs.len() == 0 {
        let mut s = String::new();
        s.append("Failed to locate pattern");
        proof {
            assert(s@ =~= "Failed to locate pattern"@);
        }
        s
    } else {
        let mut s = String::new();
        s.append("Ambiguous or conflicting pattern(s): ");
        let joined = join_comma_exec(&locs);
        s.append(joined.as_str());
        s
    }
}

/// Apply one patch set to the output buffer, appending its diagnostics.
fn apply_one_set(orig: &Vec<u8>, out: &mut Vec<u8>, set: &PatchSet, warnings: &mut Vec<String>)
    ensures
        final(out)@ == apply_set_spec(orig@, old(out)@, *set).0,
        final(warnings).deep_view() == old(warnings).deep_view() + apply_set_spec(
            orig@,
            old(out)@,
            *set,
        ).1,
{
    match choose_unique(orig, &set.patterns) {
        None => {
            let ghost prevw = warnings.deep_view();
            let msg = build_no_unique_msg(orig, &set.patterns);
            warnings.push(msg);
            proof {
                assert(warnings.deep_view() =~~= prevw.push(msg@));
                assert(prevw.push(msg@) =~~= prevw + seq![no_unique_msg(orig@, set.patterns@)]);
            }
        },
        Some((ci, base)) => {
            let pat = &set.patterns[ci];
            let repl_hex: Option<&String> = match &pat.override_hex {
                Some(h) => Some(h),
                None => match &set.default_replacement {
                    Some(d) => Some(d),
                    None => None,
                },
            };
            proof {
                match repl_hex {
                    Some(h) => {
                        assert(effective_replacement(*set, ci as int) == Some(h@));
                    },
                    None => {
                        assert(effective_replacement(*set, ci as int) is None);
                    },
                }
            }
            match repl_hex {
                None => {
                    proof {
                        assert(warnings.deep_view() + Seq::<Seq<char>>::empty()
                            =~~= warnings.deep_view());
                    }
                },
                Some(h) => {
                    match decode_hex(h.as_str()) {
                        None => {
                            proof {
                                assert(warnings.deep_view() + Seq::<Seq<char>>::empty()
                                    =~~= warnings.deep_view());
                            }
                        },
                        Some(repl) => {
                            let at128: u128 = if pat.offset >= 0 {
                                base as u128 + pat.offset as u128
                            } else {
                                let mag: u128 = (-(pat.offset as i128)) as u128;
                                if base as u128 >= mag {
                                    base as u128 - mag
                                } else {
                                    0
                                }
                            };
                            proof {
                                assert(at128 as int == write_offset(
                                    base as int,
                                    pat.offset as int,
                                ));
                            }
                            if at128 + repl.len() as u128 <= out.len() as u128 {
                                let at: usize = at128 as usize;
                                write_bytes(out, at, &repl);
                                let ghost prevw = warnings.deep_view();
                                let msg = build_applied_msg(at, repl.len());
                                warnings.push(msg);
                                proof {
                                    assert(warnings.deep_view() =~~= prevw.push(msg@));
                                    assert(prevw.push(msg@) =~~= prevw + seq![
                                        applied_msg(at as nat, repl@.len()),
                                    ]);
                                }
                            } else {
                                let ghost prevw = warnings.deep_view();
                                let msg = build_out_of_range_msg(&pat.hex_mask);
                                warnings.push(msg);
                                proof {
                                    assert(warnings.deep_view() =~~= prevw.push(msg@));
                                    assert(prevw.push(msg@) =~~= prevw + seq![
                                        out_of_range_msg(pat.hex_mask@),
                                    ]);
                                }
                            }
                        },
                    }
                },
            }
        },
    }
}

/// Apply every patch set, in order, to the output buffer (initially a copy of
/// the original), appending diagnostics to `warnings`.
pub fn apply_patchsets_to_file(
    orig: &Vec<u8>,
    out: &mut Vec<u8>,
    sets: &Vec<PatchSet>,
    warnings: &mut Vec<String>,
)
    ensures
        final(out)@ == apply_sets_spec(orig@, old(out)@, sets@, 0).0,
        final(warnings).deep_view() == old(warnings).deep_view() + apply_sets_spec(
            orig@,
            old(out)@,
            sets@,
            0,
        ).1,
{
    let ghost out0 = out@;
    let ghost w0 = warnings.deep_view();
    let mut i: usize = 0;
    proof {
        assert(w0.skip(w0.len() as int) =~~= Seq::<Seq<char>>::empty());
        assert(w0.skip(w0.len() as int) + apply_sets_spec(orig@, out0, sets@, 0).1
            =~~= apply_sets_spec(orig@, out0, sets@, 0).1);
    }
    while i < sets.len()
        invariant
            i <= sets.len(),
            w0.len() <= warnings.deep_view().len(),
            warnings.deep_view().take(w0.len() as int) == w0,
            apply_sets_spec(orig@, out0, sets@, 0).0 == apply_sets_spec(
                orig@,
                out@,
                sets@,
                i as int,
            ).0,
            apply_sets_spec(orig@, out0, sets@, 0).1 == warnings.deep_view().skip(w0.len() as int)
                + apply_sets_spec(orig@, out@, sets@, i as int).1,
        decreases sets.len() - i,
    {
        let ghost prev_out = out@;
        let ghost prevw = warnings.deep_view();
        apply_one_set(orig, out, &sets[i], warnings);
        proof {
            let r0 = apply_set_spec(orig@, prev_out, sets@[i as int]);
            assert(warnings.deep_view().take(w0.len() as int) =~~= w0);
            assert(warnings.deep_view().skip(w0.len() as int) =~~= prevw.skip(w0.len() as int)
                + r0.1);
            assert(prevw.skip(w0.len() as int) + (r0.1 + apply_sets_spec(
                orig@,
                out@,
                sets@,
                i as int + 1,
            ).1) =~~= (prevw.skip(w0.len() as int) + r0.1) + apply_sets_spec(
                orig@,
                out@,
                sets@,
                i as int + 1,
            ).1);
        }
        i = i + 1;
    }
    proof {
        assert(warnings.deep_view().skip(w0.len() as int) + Seq::<Seq<char>>::empty()
            =~~= warnings.deep_view().skip(w0.len() as int));
        assert(w0 + warnings.deep_view().skip(w0.len() as int) =~~= warnings.deep_view());
    }
}

} // verus!
