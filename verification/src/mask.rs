//! The masked byte-pattern matcher: a hex signature may contain the
//! two-character token `??`, standing for exactly one arbitrary byte.  A mask
//! denotes a list of literal byte segments separated by single wildcard
//! bytes; matching a mask at a position means every literal segment matches
//! the buffer at its displacement, while wildcard bytes are unconstrained
//! (trailing wildcards may even run past the end of the buffer).

use vstd::prelude::*;
use crate::hexbytes::hex_val;
use crate::text::to_chars;

verus! {

/// The literal segments a mask denotes, or `None` for an ill-formed mask
/// (odd-length or non-hexadecimal literal parts).
pub open spec fn spec_mask_segs(s: Seq<char>) -> Option<Seq<Seq<u8>>>
    decreases s.len(),
{
    if s.len() == 0 {
        Some(seq![Seq::<u8>::empty()])
    } else if s.len() == 1 {
        None
    } else if s[0] == '?' && s[1] == '?' {
        match spec_mask_segs(s.skip(2)) {
            Some(rest) => Some(seq![Seq::<u8>::empty()] + rest),
            None => None,
        }
    } else {
        match (hex_val(s[0]), hex_val(s[1])) {
            (Some(hi), Some(lo)) => match spec_mask_segs(s.skip(2)) {
                Some(rest) => Some(rest.update(0, seq![(hi * 16 + lo) as u8] + rest[0])),
                None => None,
            },
            _ => None,
        }
    }
}

pub open spec fn mask_wf(s: Seq<char>) -> bool {
    spec_mask_segs(s) is Some
}

pub open spec fn mask_segs(s: Seq<char>) -> Seq<Seq<u8>> {
    spec_mask_segs(s)->Some_0
}

pub proof fn lemma_mask_segs_nonempty(s: Seq<char>)
    requires
        mask_wf(s),
    ensures
        mask_segs(s).len() >= 1,
    decreases s.len(),
{
    if s.len() >= 2 {
        lemma_mask_segs_nonempty(s.skip(2));
    }
}

/// The displacement of segment `k` from the match position: every earlier
/// segment contributes its length plus one wildcard byte.
pub open spec fn seg_offset(segs: Seq<Seq<u8>>, k: int) -> int
    decreases k,
{
    if k <= 0 { 0 } else { seg_offset(segs, k - 1) + segs[k - 1].len() + 1 }
}

pub proof fn lemma_seg_offset_mono(segs: Seq<Seq<u8>>, i: int, j: int)
    requires
        0 <= i <= j,
    ensures
        seg_offset(segs, j) >= seg_offset(segs, i) + (j - i),
    decreases j - i,
{
    if i < j {
        lemma_seg_offset_mono(segs, i, j - 1);
    }
}

/// A mask (given as its segments) matches a buffer at `pos` when every
/// non-empty literal segment lies within the buffer and equals the bytes at
/// its displacement.
pub open spec fn mask_matches_at(data: Seq<u8>, segs: Seq<Seq<u8>>, pos: int) -> bool {
    forall|k: int|
        0 <= k < segs.len() && #[trigger] segs[k].len() > 0 ==> {
            &&& pos + seg_offset(segs, k) + segs[k].len() <= data.len()
            &&& data.subrange(
                pos + seg_offset(segs, k),
                pos + seg_offset(segs, k) + segs[k].len(),
            ) == segs[k]
        }
}

/// The first position at or after `from` (and at most `data.len()`) where the
/// mask matches; `None` for an ill-formed mask or when nothing matches.
pub open spec fn first_match_from(data: Seq<u8>, mask: Seq<char>, from: int) -> Option<int>
    decreases data.len() + 1 - from,
    when 0 <= from
{
    if !mask_wf(mask) || from > data.len() {
        None
    } else if mask_matches_at(data, mask_segs(mask), from) {
        Some(from)
    } else {
        first_match_from(data, mask, from + 1)
    }
}

pub proof fn lemma_first_match_bounds(data: Seq<u8>, mask: Seq<char>, from: int)
    requires
        0 <= from,
        first_match_from(data, mask, from) is Some,
    ensures
        from <= first_match_from(data, mask, from)->Some_0 <= data.len(),
        mask_wf(mask),
        mask_matches_at(data, mask_segs(mask), first_match_from(data, mask, from)->Some_0),
    decreases data.len() + 1 - from,
{
    if from <= data.len() && !mask_matches_at(data, mask_segs(mask), from) {
        lemma_first_match_bounds(data, mask, from + 1);
    }
}

/// A mask occurs exactly once in the buffer: it has a first match, and no
/// further match after that one.
pub open spec fn unique_match(data: Seq<u8>, mask: Seq<char>) -> bool {
    match first_match_from(data, mask, 0) {
        Some(p) => first_match_from(data, mask, p + 1) is None,
        None => false,
    }
}

fn bytes_eq_at(data: &Vec<u8>, seg: &Vec<u8>, at: usize) -> (b: bool)
    requires
        at + seg.len() <= data.len(),
    ensures
        b == (data@.subrange(at as int, at + seg@.len()) == seg@),
{
    let mut j: usize = 0;
    while j < seg.len()
        invariant
            j <= seg.len(),
            at + seg.len() <= data.len(),
            forall|m: int| 0 <= m < j ==> data@[at + m] == seg@[m],
        decreases seg.len() - j,
    {
        if data[at + j] != seg[j] {
            proof {
                assert(data@.subrange(at as int, at + seg@.len())[j as int] != seg@[j as int]);
            }
            return false;
        }
        j = j + 1;
    }
    proof {
        assert(data@.subrange(at as int, at + seg@.len()) =~= seg@);
    }
    true
}

/// Decode a mask string into its literal segments.
pub fn parse_mask(hex_mask: &str) -> (r: Option<Vec<Vec<u8>>>)
    ensures
        match r {
            Some(v) => spec_mask_segs(hex_mask@) == Some(v.deep_view()),
            None => !mask_wf(hex_mask@),
        },
{
    let chars = to_chars(hex_mask);
    let mut segs: Vec<Vec<u8>> = Vec::new();
    let mut cur: Vec<u8> = Vec::new();
    let mut i: usize = 0;
    proof {
        assert(chars@.skip(0) =~= chars@);
        lemma_mask_segs_nonempty_opt(chars@);
        if spec_mask_segs(chars@) is Some {
            let rest = spec_mask_segs(chars@)->Some_0;
            assert(segs.deep_view() + seq![cur@ + rest[0]] + rest.skip(1) =~~= rest);
        }
    }
    while i + 1 < chars.len()
        invariant
            i <= chars.len(),
            i % 2 == 0,
            chars@ == hex_mask@,
            match spec_mask_segs(chars@.skip(i as int)) {
                Some(rest) => spec_mask_segs(chars@) == Some(
                    segs.deep_view() + seq![cur@ + rest[0]] + rest.skip(1),
                ),
                None => !mask_wf(chars@),
            },
        decreases chars.len() - i,
    {
        let c0 = chars[i];
        let c1 = chars[i + 1];
        proof {
            assert(chars@.skip(i as int)[0] == chars@[i as int]);
            assert(chars@.skip(i as int)[1] == chars@[i as int + 1]);
            assert(chars@.skip(i as int).skip(2) =~= chars@.skip(i as int + 2));
            lemma_mask_segs_nonempty_opt(chars@.skip(i as int + 2));
        }
        let ghost old_segs = segs.deep_view();
        let ghost old_cur = cur@;
        if c0 == '?' && c1 == '?' {
            segs.push(cur);
            cur = Vec::new();
            proof {
                assert(segs.deep_view() =~~= old_segs.push(old_cur));
                if spec_mask_segs(chars@.skip(i as int + 2)) is Some {
                    let rest2 = spec_mask_segs(chars@.skip(i as int + 2))->Some_0;
                    let rest = seq![Seq::<u8>::empty()] + rest2;
                    assert(spec_mask_segs(chars@.skip(i as int)) == Some(rest));
                    assert(old_segs + seq![old_cur + rest[0]] + rest.skip(1) =~~= segs.deep_view()
                        + seq![cur@ + rest2[0]] + rest2.skip(1));
                }
            }
        } else {
            let hi = crate::hexbytes::hex_digit(c0);
            let lo = crate::hexbytes::hex_digit(c1);
            match (hi, lo) {
                (Some(h), Some(l)) => {
                    cur.push(h * 16 + l);
                    proof {
                        if spec_mask_segs(chars@.skip(i as int + 2)) is Some {
                            let rest2 = spec_mask_segs(chars@.skip(i as int + 2))->Some_0;
                            let rest = rest2.update(0, seq![(h * 16 + l) as u8] + rest2[0]);
                            assert(spec_mask_segs(chars@.skip(i as int)) == Some(rest));
                            assert(rest.skip(1) =~~= rest2.skip(1));
                            assert(old_segs + seq![old_cur + rest[0]] + rest.skip(1)
                                =~~= segs.deep_view() + seq![cur@ + rest2[0]] + rest2.skip(1));
                        }
                    }
                },
                _ => {
                    return None;
                },
            }
        }
        i = i + 2;
    }
    if i < chars.len() {
        proof {
            assert(chars@.skip(i as int).len() == 1);
        }
        return None;
    }
    let ghost old_segs = segs.deep_view();
    let ghost old_cur = cur@;
    segs.push(cur);
    proof {
        assert(chars@.skip(i as int).len() == 0);
        let rest = spec_mask_segs(chars@.skip(i as int))->Some_0;
        assert(old_segs + seq![old_cur + rest[0]] + rest.skip(1) =~~= segs.deep_view());
    }
    Some(segs)
}

proof fn lemma_mask_segs_nonempty_opt(s: Seq<char>)
    ensures
        spec_mask_segs(s) is Some ==> spec_mask_segs(s)->Some_0.len() >= 1,
{
    if spec_mask_segs(s) is Some {
        lemma_mask_segs_nonempty(s);
    }
}

/// Does the mask (given as its parsed segments) match the buffer at `pos`?
fn mask_matches(data: &Vec<u8>, segs: &Vec<Vec<u8>>, pos: usize) -> (b: bool)
    requires
        pos <= data.len(),
    ensures
        b == mask_matches_at(data@, segs.deep_view(), pos as int),
{
    let ghost segsv = segs.deep_view();
    // index of the last non-empty segment, or segs.len() if none
    let mut last_ne: usize = segs.len();
    let mut j: usize = 0;
    while j < segs.len()
        invariant
            j <= segs.len(),
            last_ne <= segs.len(),
            segsv == segs.deep_view(),
            last_ne < segs.len() ==> last_ne < j && segsv[last_ne as int].len() > 0,
            last_ne == segs.len() ==> forall|m: int|
                0 <= m < j ==> (#[trigger] segsv[m]).len() == 0,
            last_ne < segs.len() ==> forall|m: int|
                last_ne < m < j ==> (#[trigger] segsv[m]).len() == 0,
        decreases segs.len() - j,
    {
        if segs[j].len() > 0 {
            last_ne = j;
        }
        j = j + 1;
    }
    if last_ne == segs.len() {
        // every segment is empty: only wildcards, nothing to check
        return true;
    }
    let mut k: usize = 0;
    let mut checkpos: usize = pos;
    while k < last_ne
        invariant
            pos <= data.len(),
            last_ne < segs.len(),
            segsv == segs.deep_view(),
            segsv[last_ne as int].len() > 0,
            forall|m: int| last_ne < m < segsv.len() ==> (#[trigger] segsv[m]).len() == 0,
            k <= last_ne,
            checkpos as int == pos + seg_offset(segsv, k as int),
            checkpos <= data.len(),
            forall|m: int|
                0 <= m < k && (#[trigger] segsv[m]).len() > 0 ==> {
                    &&& pos + seg_offset(segsv, m) + segsv[m].len() <= data@.len()
                    &&& data@.subrange(
                        pos + seg_offset(segsv, m),
                        pos + seg_offset(segsv, m) + segsv[m].len(),
                    ) == segsv[m]
                },
        decreases last_ne - k,
    {
        let seg = &segs[k];
        proof {
            assert(segsv[k as int] =~= seg@);
        }
        if seg.len() == 0 {
            if checkpos >= data.len() {
                proof {
                    lemma_seg_offset_mono(segsv, k as int, last_ne as int);
                    assert(pos + seg_offset(segsv, last_ne as int) + segsv[last_ne as int].len()
                        > data@.len());
                    assert(!mask_matches_at(data@, segsv, pos as int));
                }
                return false;
            }
            checkpos = checkpos + 1;
        } else {
            proof {
                assert(segsv[k as int] =~= seg@);
            }
            if data.len() - checkpos < seg.len() {
                proof {
                    assert(segsv[k as int].len() > 0);
                    assert(pos + seg_offset(segsv, k as int) + segsv[k as int].len()
                        > data@.len());
                    assert(!mask_matches_at(data@, segsv, pos as int));
                }
                return false;
            }
            if !bytes_eq_at(data, seg, checkpos) {
                proof {
                    assert(segsv[k as int].len() > 0);
                    assert(data@.subrange(
                        pos + seg_offset(segsv, k as int),
                        pos + seg_offset(segsv, k as int) + segsv[k as int].len(),
                    ) != segsv[k as int]);
                    assert(!mask_matches_at(data@, segsv, pos as int));
                }
                return false;
            }
            let next = checkpos + seg.len();
            if data.len() - next < 2 {
                proof {
                    lemma_seg_offset_mono(segsv, k as int + 1, last_ne as int);
                    assert(pos + seg_offset(segsv, last_ne as int) + segsv[last_ne as int].len()
                        > data@.len());
                    assert(!mask_matches_at(data@, segsv, pos as int));
                }
                return false;
            }
            checkpos = next + 1;
        }
        k = k + 1;
    }
    // the last non-empty segment
    let seg = &segs[last_ne];
    proof {
        assert(segsv[last_ne as int] =~= seg@);
    }
    if data.len() - checkpos < seg.len() {
        proof {
            assert(segsv[last_ne as int].len() > 0);
            assert(pos + seg_offset(segsv, last_ne as int) + segsv[last_ne as int].len()
                > data@.len());
            assert(!mask_matches_at(data@, segsv, pos as int));
        }
        return false;
    }
    if !bytes_eq_at(data, seg, checkpos) {
        proof {
            assert(segsv[last_ne as int].len() > 0);
            assert(data@.subrange(
                pos + seg_offset(segsv, last_ne as int),
                pos + seg_offset(segsv, last_ne as int) + segsv[last_ne as int].len(),
            ) != segsv[last_ne as int]);
            assert(!mask_matches_at(data@, segsv, pos as int));
        }
        return false;
    }
    proof {
        assert forall|m: int| 0 <= m < segsv.len() && (#[trigger] segsv[m]).len() > 0 implies {
            &&& pos + seg_offset(segsv, m) + segsv[m].len() <= data@.len()
            &&& data@.subrange(
                pos + seg_offset(segsv, m),
                pos + seg_offset(segsv, m) + segsv[m].len(),
            ) == segsv[m]
        } by {
            if m > last_ne {
                assert(segsv[m].len() == 0);
            }
        }
        assert(mask_matches_at(data@, segsv, pos as int));
    }
    true
}

/// Find the first occurrence of a wildcard-capable hex signature in a buffer,
/// at or after `start`; `None` when the mask is ill-formed or nothing matches.
pub fn findmask(data: &Vec<u8>, hex_mask: &str, start: usize) -> (r: Option<usize>)
    ensures
        match r {
            Some(p) => first_match_from(data@, hex_mask@, start as int) == Some(p as int),
            None => first_match_from(data@, hex_mask@, start as int) is None,
        },
{
    let segs = match parse_mask(hex_mask) {
        Some(s) => s,
        None => {
            return None;
        },
    };
    let mut p: usize = start;
    if p > data.len() {
        return None;
    }
    loop
        invariant
            start <= p <= data.len(),
            mask_wf(hex_mask@),
            segs.deep_view() == mask_segs(hex_mask@),
            first_match_from(data@, hex_mask@, start as int) == first_match_from(
                data@,
                hex_mask@,
                p as int,
            ),
        decreases data.len() - p,
    {
        if mask_matches(data, &segs, p) {
            return Some(p);
        }
        if p == data.len() {
            proof {
                assert(first_match_from(data@, hex_mask@, p as int) == first_match_from(
                    data@,
                    hex_mask@,
                    p as int + 1,
                ));
                assert(first_match_from(data@, hex_mask@, p as int + 1) is None);
            }
            return None;
        }
        p = p + 1;
    }
}

} // verus!
