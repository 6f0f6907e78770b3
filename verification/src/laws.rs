//! Laws of the patch engine, stated once and proved: what the matcher means
//! for wildcard-free masks, when the resolver's uniqueness gate picks a later
//! alternative, and that failed or out-of-range patches never touch the
//! buffer.

use vstd::prelude::*;
use crate::hexbytes::{hex_val, spec_hex_decode};
use crate::mask::{
    first_match_from, mask_matches_at, mask_segs, mask_wf, seg_offset, spec_mask_segs,
    unique_match,
};
use crate::patching::{
    apply_set_spec, apply_sets_spec, chosen_from, effective_replacement, no_unique_msg,
    out_of_range_msg, pattern_locations, spec_write, write_offset, PatchSet, PatternSpec,
};
use crate::patching::GPatchSet;
use crate::script::{
    spec_parse_dict, spec_parse_dict_entries, spec_parse_script, table_lookup, upsert,
};

verus! {

/// A mask without wildcards denotes exactly its decoded bytes, as one
/// segment.
pub proof fn lemma_mask_without_wildcards(s: Seq<char>)
    requires
        forall|i: int| 0 <= i < s.len() ==> s[i] != '?',
    ensures
        spec_mask_segs(s) == match spec_hex_decode(s) {
            Some(b) => Some(seq![b]),
            None => None::<Seq<Seq<u8>>>,
        },
    decreases s.len(),
{
    if s.len() == 0 {
        assert(spec_mask_segs(s) == Some(seq![Seq::<u8>::empty()]));
        assert(spec_hex_decode(s) == Some(Seq::<u8>::empty()));
    } else if s.len() == 1 {
    } else {
        assert(forall|i: int| 0 <= i < s.skip(2).len() ==> s.skip(2)[i] != '?');
        lemma_mask_without_wildcards(s.skip(2));
        match (hex_val(s[0]), hex_val(s[1])) {
            (Some(hi), Some(lo)) => {
                match spec_hex_decode(s.skip(2)) {
                    Some(rest) => {
                        assert(spec_mask_segs(s.skip(2)) == Some(seq![rest]));
                        let segs = seq![rest].update(0, seq![(hi * 16 + lo) as u8] + rest);
                        assert(segs =~~= seq![seq![(hi * 16 + lo) as u8] + rest]);
                    },
                    None => {},
                }
            },
            _ => {},
        }
    }
}

/// Matching a wildcard-free mask at `p` means exactly that its bytes stand at
/// `p` within the buffer (an empty mask matches everywhere).
pub proof fn lemma_literal_mask_exact(data: Seq<u8>, mask: Seq<char>, p: int)
    requires
        mask_wf(mask),
        forall|i: int| 0 <= i < mask.len() ==> mask[i] != '?',
    ensures
        ({
            let bytes = spec_hex_decode(mask)->Some_0;
            mask_matches_at(data, mask_segs(mask), p) <==> (bytes.len() == 0 || (p + bytes.len()
                <= data.len() && data.subrange(p, p + bytes.len()) == bytes))
        }),
{
    lemma_mask_without_wildcards(mask);
    let bytes = spec_hex_decode(mask)->Some_0;
    let segs = mask_segs(mask);
    assert(segs == seq![bytes]);
    assert(segs[0] == bytes);
    assert(seg_offset(segs, 0) == 0);
    if bytes.len() == 0 {
        assert(mask_matches_at(data, segs, p));
    } else {
        if p + bytes.len() <= data.len() && data.subrange(p, p + bytes.len()) == bytes {
            assert forall|k: int| 0 <= k < segs.len() && (#[trigger] segs[k]).len() > 0 implies {
                &&& p + seg_offset(segs, k) + segs[k].len() <= data.len()
                &&& data.subrange(p + seg_offset(segs, k), p + seg_offset(segs, k) + segs[k].len())
                    == segs[k]
            } by {
                assert(k == 0);
            }
        }
        if mask_matches_at(data, segs, p) {
            assert(segs[0].len() > 0);
        }
    }
}

/// The scan from `from` finds a match whenever one exists at or after `from`,
/// and never a later one.
pub proof fn lemma_first_match_finds(data: Seq<u8>, mask: Seq<char>, from: int, m: int)
    requires
        0 <= from <= m <= data.len(),
        mask_wf(mask),
        mask_matches_at(data, mask_segs(mask), m),
    ensures
        first_match_from(data, mask, from) is Some,
        first_match_from(data, mask, from)->Some_0 <= m,
    decreases m - from,
{
    if !mask_matches_at(data, mask_segs(mask), from) {
        lemma_first_match_finds(data, mask, from + 1, m);
    }
}

/// A mask that matches at two distinct positions does not match uniquely.
pub proof fn lemma_two_matches_not_unique(data: Seq<u8>, mask: Seq<char>, p1: int, p2: int)
    requires
        0 <= p1 < p2 <= data.len(),
        mask_wf(mask),
        mask_matches_at(data, mask_segs(mask), p1),
        mask_matches_at(data, mask_segs(mask), p2),
    ensures
        !unique_match(data, mask),
{
    lemma_first_match_finds(data, mask, 0, p1);
    let q = first_match_from(data, mask, 0)->Some_0;
    crate::mask::lemma_first_match_bounds(data, mask, 0);
    lemma_first_match_finds(data, mask, q + 1, p2);
}

/// The uniqueness gate: when the first of two alternatives matches at two
/// positions and the second matches exactly once, the resolver selects the
/// second, never the first.
pub proof fn lemma_uniqueness_gate(
    data: Seq<u8>,
    pats: Seq<PatternSpec>,
    p1: int,
    p2: int,
)
    requires
        pats.len() == 2,
        0 <= p1 < p2 <= data.len(),
        mask_wf(pats[0].hex_mask@),
        mask_matches_at(data, mask_segs(pats[0].hex_mask@), p1),
        mask_matches_at(data, mask_segs(pats[0].hex_mask@), p2),
        unique_match(data, pats[1].hex_mask@),
    ensures
        chosen_from(data, pats, 0) == Some(1int),
{
    lemma_two_matches_not_unique(data, pats[0].hex_mask@, p1, p2);
    assert(chosen_from(data, pats, 1) == Some(1int));
    assert(chosen_from(data, pats, 0) == chosen_from(data, pats, 1));
}

/// No alternative is chosen exactly when none of them matches uniquely.
pub proof fn lemma_chosen_none_iff_no_unique(data: Seq<u8>, pats: Seq<PatternSpec>, i: int)
    requires
        0 <= i,
    ensures
        chosen_from(data, pats, i) is None <==> forall|k: int|
            i <= k < pats.len() ==> !unique_match(data, (#[trigger] pats[k]).hex_mask@),
    decreases pats.len() - i,
{
    if i < pats.len() {
        lemma_chosen_none_iff_no_unique(data, pats, i + 1);
    }
}

/// Writing within bounds preserves the buffer's length.
pub proof fn lemma_spec_write_len(out: Seq<u8>, at: int, repl: Seq<u8>)
    requires
        0 <= at,
        at + repl.len() <= out.len(),
    ensures
        spec_write(out, at, repl).len() == out.len(),
{
}

/// One patch set never changes the buffer's length.
pub proof fn lemma_apply_set_preserves_len(orig: Seq<u8>, out: Seq<u8>, set: PatchSet)
    ensures
        apply_set_spec(orig, out, set).0.len() == out.len(),
{
    match chosen_from(orig, set.patterns@, 0) {
        None => {},
        Some(i) => {
            let pat = set.patterns@[i];
            let base = first_match_from(orig, pat.hex_mask@, 0)->Some_0;
            match effective_replacement(set, i) {
                None => {},
                Some(h) => match spec_hex_decode(h) {
                    None => {},
                    Some(repl) => {
                        let at = write_offset(base, pat.offset as int);
                        if at + repl.len() <= out.len() {
                            lemma_spec_write_len(out, at, repl);
                        }
                    },
                },
            }
        },
    }
}

/// A whole resolver run never changes the buffer's length.
pub proof fn lemma_apply_sets_preserves_len(orig: Seq<u8>, out: Seq<u8>, sets: Seq<PatchSet>, i: int)
    requires
        0 <= i,
    ensures
        apply_sets_spec(orig, out, sets, i).0.len() == out.len(),
    decreases sets.len() - i,
{
    if i < sets.len() {
        lemma_apply_set_preserves_len(orig, out, sets[i]);
        lemma_apply_sets_preserves_len(orig, apply_set_spec(orig, out, sets[i]).0, sets, i + 1);
    }
}

/// Out-of-range safety: a chosen replacement that would run past the buffer's
/// end leaves the buffer untouched and records exactly one diagnostic.
pub proof fn lemma_out_of_range_write_is_harmless(orig: Seq<u8>, out: Seq<u8>, set: PatchSet)
    requires
        chosen_from(orig, set.patterns@, 0) is Some,
        ({
            let i = chosen_from(orig, set.patterns@, 0)->Some_0;
            let pat = set.patterns@[i];
            let base = first_match_from(orig, pat.hex_mask@, 0)->Some_0;
            match effective_replacement(set, i) {
                Some(h) => match spec_hex_decode(h) {
                    Some(repl) => write_offset(base, pat.offset as int) + repl.len() > out.len(),
                    None => false,
                },
                None => false,
            }
        }),
    ensures
        apply_set_spec(orig, out, set).0 == out,
        apply_set_spec(orig, out, set).1 == seq![
            out_of_range_msg(set.patterns@[chosen_from(orig, set.patterns@, 0)->Some_0].hex_mask@),
        ],
{
}

/// No path occurs twice among a table's keys.
pub open spec fn table_keys_unique(t: Seq<(Seq<char>, Seq<GPatchSet>)>) -> bool {
    forall|i: int, j: int| 0 <= i < j < t.len() ==> (#[trigger] t[i]).0 != (#[trigger] t[j]).0
}

/// Binding a key makes looking it up yield exactly the new value.
pub proof fn lemma_upsert_lookup(
    t: Seq<(Seq<char>, Seq<GPatchSet>)>,
    k: Seq<char>,
    v: Seq<GPatchSet>,
)
    ensures
        table_lookup(upsert(t, k, v), k) == Some(v),
    decreases t.len(),
{
    if t.len() == 0 {
    } else if t[0].0 == k {
        assert((seq![(k, v)] + t.skip(1))[0] == (k, v));
    } else {
        lemma_upsert_lookup(t.skip(1), k, v);
        let u = seq![t[0]] + upsert(t.skip(1), k, v);
        assert(u[0] == t[0]);
        assert(u.skip(1) =~= upsert(t.skip(1), k, v));
    }
}

/// Binding a key leaves every other key's binding untouched.
pub proof fn lemma_upsert_other(
    t: Seq<(Seq<char>, Seq<GPatchSet>)>,
    k: Seq<char>,
    v: Seq<GPatchSet>,
    k2: Seq<char>,
)
    requires
        k2 != k,
    ensures
        table_lookup(upsert(t, k, v), k2) == table_lookup(t, k2),
    decreases t.len(),
{
    let u = upsert(t, k, v);
    if t.len() == 0 {
        assert(u[0] == (k, v));
        assert(u.skip(1) =~= Seq::<(Seq<char>, Seq<GPatchSet>)>::empty());
        assert(table_lookup(u, k2) == table_lookup(u.skip(1), k2));
        assert(table_lookup(u.skip(1), k2) is None);
    } else if t[0].0 == k {
        assert(u =~= seq![(k, v)] + t.skip(1));
        assert(u[0] == (k, v));
        assert(u.skip(1) =~= t.skip(1));
        assert(table_lookup(u, k2) == table_lookup(u.skip(1), k2));
        assert(table_lookup(t, k2) == table_lookup(t.skip(1), k2));
    } else {
        lemma_upsert_other(t.skip(1), k, v, k2);
        assert(u =~= seq![t[0]] + upsert(t.skip(1), k, v));
        assert(u[0] == t[0]);
        assert(u.skip(1) =~= upsert(t.skip(1), k, v));
        if t[0].0 == k2 {
            assert(table_lookup(u, k2) == Some(u[0].1));
            assert(table_lookup(t, k2) == Some(t[0].1));
        } else {
            assert(table_lookup(u, k2) == table_lookup(u.skip(1), k2));
            assert(table_lookup(t, k2) == table_lookup(t.skip(1), k2));
        }
    }
}

/// Every key of the rebound table is the new key or one of the old keys.
proof fn lemma_upsert_keys(
    t: Seq<(Seq<char>, Seq<GPatchSet>)>,
    k: Seq<char>,
    v: Seq<GPatchSet>,
    m: int,
)
    requires
        0 <= m < upsert(t, k, v).len(),
    ensures
        upsert(t, k, v)[m].0 == k || exists|n: int| 0 <= n < t.len() && (#[trigger] t[n]).0
            == upsert(t, k, v)[m].0,
    decreases t.len(),
{
    if t.len() == 0 {
    } else if t[0].0 == k {
        let u = seq![(k, v)] + t.skip(1);
        if m > 0 {
            assert(u[m] == t[m]);
        }
    } else {
        let u = seq![t[0]] + upsert(t.skip(1), k, v);
        if m > 0 {
            assert(u[m] == upsert(t.skip(1), k, v)[m - 1]);
            lemma_upsert_keys(t.skip(1), k, v, m - 1);
            if u[m].0 != k {
                let n = choose|n: int|
                    0 <= n < t.skip(1).len() && (#[trigger] t.skip(1)[n]).0 == u[m].0;
                assert(t[n + 1].0 == u[m].0);
            }
        }
    }
}

/// Rebinding preserves key uniqueness: a table built by successive bindings
/// never lists a path twice.
pub proof fn lemma_upsert_preserves_unique(
    t: Seq<(Seq<char>, Seq<GPatchSet>)>,
    k: Seq<char>,
    v: Seq<GPatchSet>,
)
    requires
        table_keys_unique(t),
    ensures
        table_keys_unique(upsert(t, k, v)),
    decreases t.len(),
{
    if t.len() == 0 {
    } else if t[0].0 == k {
        let u = seq![(k, v)] + t.skip(1);
        assert forall|i: int, j: int| 0 <= i < j < u.len() implies (#[trigger] u[i]).0
            != (#[trigger] u[j]).0 by {
            if i == 0 {
                assert(u[j] == t[j]);
                assert(t[0].0 != t[j].0);
            } else {
                assert(u[i] == t[i]);
                assert(u[j] == t[j]);
            }
        }
    } else {
        assert(table_keys_unique(t.skip(1))) by {
            assert(forall|i: int, j: int|
                0 <= i < j < t.skip(1).len() ==> (#[trigger] t.skip(1)[i]).0 != (#[trigger] t.skip(
                    1,
                )[j]).0);
        }
        lemma_upsert_preserves_unique(t.skip(1), k, v);
        let u = seq![t[0]] + upsert(t.skip(1), k, v);
        assert forall|i: int, j: int| 0 <= i < j < u.len() implies (#[trigger] u[i]).0
            != (#[trigger] u[j]).0 by {
            if i == 0 {
                assert(u[j] == upsert(t.skip(1), k, v)[j - 1]);
                lemma_upsert_keys(t.skip(1), k, v, j - 1);
                if u[j].0 != k {
                    let n = choose|n: int|
                        0 <= n < t.skip(1).len() && (#[trigger] t.skip(1)[n]).0 == u[j].0;
                    assert(t[n + 1].0 == u[j].0);
                    assert(t[0].0 != t[n + 1].0);
                }
            } else {
                assert(u[i] == upsert(t.skip(1), k, v)[i - 1]);
                assert(u[j] == upsert(t.skip(1), k, v)[j - 1]);
            }
        }
    }
}

proof fn lemma_parse_dict_entries_unique(
    s: Seq<char>,
    i: int,
    acc: Seq<(Seq<char>, Seq<GPatchSet>)>,
)
    requires
        0 <= i,
        table_keys_unique(acc),
        spec_parse_dict_entries(s, i, acc) is Ok,
    ensures
        table_keys_unique(spec_parse_dict_entries(s, i, acc)->Ok_0),
    decreases s.len() - i,
{
    if i >= s.len() {
    } else {
        let j = crate::scan::skip_ws(s, i);
        if j >= s.len() || s[j] == '}' {
        } else {
            let ke = crate::scan::scan_to(s, j + 1, '\'');
            let key = s.subrange(j + 1, ke);
            let i1: int = if ke < s.len() {
                ke + 1
            } else {
                s.len() as int
            };
            let i2 = crate::scan::skip_ws_colon(s, i1);
            let i3 = crate::scan::skip_ws(s, i2);
            let end: int = match crate::scan::bracket_end(s, i3, 0, '[', ']') {
                Some(e) => e,
                None => s.len() as int,
            };
            let val = s.subrange(i3, end);
            match crate::script::spec_parse_sets(val) {
                Err(_) => {},
                Ok(sets) => {
                    let ni = crate::scan::advance_after_comma(s, end, '\'');
                    lemma_upsert_preserves_unique(acc, key, sets);
                    lemma_parse_dict_entries_unique(
                        s,
                        crate::script::step_ix(ni, i, s.len() as int),
                        upsert(acc, key, sets),
                    );
                },
            }
        }
    }
}

/// Parsing keeps paths unique: whatever the script, each table binds every
/// path at most once — a later binding of a path replaces the earlier one.
pub proof fn lemma_parsed_tables_have_unique_keys(src: Seq<char>)
    requires
        spec_parse_script(src) is Ok,
    ensures
        table_keys_unique(spec_parse_script(src)->Ok_0.0),
        table_keys_unique(spec_parse_script(src)->Ok_0.1),
{
    let text = crate::script::strip_comments_spec(src);
    let d32 = crate::script::spec_locate_table(text, "patches32"@, "patches_32"@)->Ok_0;
    let d64 = crate::script::spec_locate_table(text, "patches64"@, "patches_64"@)->Ok_0;
    lemma_parse_dict_unique(d32);
    lemma_parse_dict_unique(d64);
}

proof fn lemma_parse_dict_unique(body: Seq<char>)
    requires
        spec_parse_dict(body) is Ok,
    ensures
        table_keys_unique(spec_parse_dict(body)->Ok_0),
{
    let t = crate::scan::trim_spec(body);
    let slice = if t.len() >= 2 && t[0] == '{' && t[t.len() - 1] == '}' {
        t.subrange(1, t.len() - 1)
    } else {
        t
    };
    lemma_parse_dict_entries_unique(slice, 0, Seq::<(Seq<char>, Seq<GPatchSet>)>::empty());
}

/// Progress percentages are monotone: a later file never reports a smaller
/// percentage than an earlier one.
pub proof fn lemma_progress_monotone(i1: int, i2: int, total: int)
    requires
        1 <= total,
        0 <= i1 <= i2 <= total,
    ensures
        ({
            let p1 = if 12 + (i1 * 80) / total <= 90 {
                12 + (i1 * 80) / total
            } else {
                90
            };
            let p2 = if 12 + (i2 * 80) / total <= 90 {
                12 + (i2 * 80) / total
            } else {
                90
            };
            p1 <= p2
        }),
{
    vstd::arithmetic::div_mod::lemma_div_is_ordered(i1 * 80, i2 * 80, total);
}

/// The candidate-location list is empty exactly when no alternative matches
/// anywhere in the buffer.
pub proof fn lemma_locations_empty_iff_no_match(data: Seq<u8>, pats: Seq<PatternSpec>, i: int)
    requires
        0 <= i,
    ensures
        pattern_locations(data, pats, i).len() == 0 <==> forall|k: int|
            i <= k < pats.len() ==> first_match_from(
                data,
                (#[trigger] pats[k]).hex_mask@,
                0,
            ) is None,
    decreases pats.len() - i,
{
    if i < pats.len() {
        crate::patching::lemma_location_items_head(data, pats[i].hex_mask@, 0);
        lemma_locations_empty_iff_no_match(data, pats, i + 1);
    }
}

/// Ambiguity diagnostics: when no alternative matches uniquely, the buffer is
/// untouched and exactly one diagnostic is recorded — the combined candidate
/// list, or the plain not-found note when nothing matched anywhere.
pub proof fn lemma_no_unique_match_one_diagnostic(orig: Seq<u8>, out: Seq<u8>, set: PatchSet)
    requires
        chosen_from(orig, set.patterns@, 0) is None,
    ensures
        apply_set_spec(orig, out, set).0 == out,
        apply_set_spec(orig, out, set).1 =~= seq![no_unique_msg(orig, set.patterns@)],
        pattern_locations(orig, set.patterns@, 0).len() == 0 ==> apply_set_spec(orig, out, set).1[0]
            == "Failed to locate pattern"@,
{
}

} // verus!
