//! The masked byte-pattern matcher and the hex decoder on concrete buffers.

use rtxlauncher_core::hexbytes::decode_hex;
use rtxlauncher_core::mask::findmask;

#[test]
fn decode_hex_exact() {
    assert_eq!(decode_hex("DEADBEEF"), Some(vec![0xDE, 0xAD, 0xBE, 0xEF]));
    assert_eq!(decode_hex("00ff"), Some(vec![0x00, 0xFF]));
    assert_eq!(decode_hex(""), Some(vec![]));
    assert_eq!(decode_hex("ABC"), None);
    assert_eq!(decode_hex("G0"), None);
}

#[test]
fn literal_mask_matches_only_at_substring_positions() {
    let data: Vec<u8> = vec![0xAA, 0x00, 0xCC, 0xAA, 0xFF, 0xCC];
    assert_eq!(findmask(&data, "AA", 0), Some(0));
    assert_eq!(findmask(&data, "AA", 1), Some(3));
    assert_eq!(findmask(&data, "AA", 4), None);
    assert_eq!(findmask(&data, "AAFF", 0), Some(3));
    assert_eq!(findmask(&data, "CCAA", 0), Some(2));
    assert_eq!(findmask(&data, "AACC", 0), None);
}

#[test]
fn masked_search_uniqueness_probe() {
    // the matcher exactness scenario: "AA??CC" against AA 00 CC AA FF CC
    let data: Vec<u8> = vec![0xAA, 0x00, 0xCC, 0xAA, 0xFF, 0xCC];
    assert_eq!(findmask(&data, "AA??CC", 0), Some(0));
    // the uniqueness check's second search, one byte past the first match
    assert_eq!(findmask(&data, "AA??CC", 1), Some(3));
    assert_eq!(findmask(&data, "AA??CC", 4), None);
}

#[test]
fn wildcard_edge_cases() {
    let data: Vec<u8> = vec![0x10, 0x20, 0x30];
    // a mask starting with a wildcard anchors on the following literal
    assert_eq!(findmask(&data, "??20", 0), Some(0));
    assert_eq!(findmask(&data, "??30", 0), Some(1));
    // trailing wildcards may run past the end of the buffer
    assert_eq!(findmask(&data, "30??", 0), Some(2));
    // only wildcards: matches immediately at the start offset
    assert_eq!(findmask(&data, "????", 1), Some(1));
    // the empty mask matches everywhere
    assert_eq!(findmask(&data, "", 2), Some(2));
    // adjacent wildcards consume one byte each
    assert_eq!(findmask(&data, "10????", 0), Some(0));
    assert_eq!(findmask(&data, "10??????", 0), Some(0));
}

#[test]
fn ill_formed_masks_never_match() {
    let data: Vec<u8> = vec![0xAA, 0xBB];
    assert_eq!(findmask(&data, "A", 0), None);
    assert_eq!(findmask(&data, "AAB", 0), None);
    assert_eq!(findmask(&data, "ZZ", 0), None);
    assert_eq!(findmask(&data, "A?", 0), None);
    assert_eq!(findmask(&data, "???", 0), None);
}

#[test]
fn start_past_end_finds_nothing() {
    let data: Vec<u8> = vec![0xAA];
    assert_eq!(findmask(&data, "AA", 1), None);
    assert_eq!(findmask(&data, "AA", 5), None);
}
