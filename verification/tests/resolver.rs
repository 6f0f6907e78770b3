//! The patch resolver: uniqueness gating, offset arithmetic, out-of-range
//! safety and ambiguity diagnostics on concrete buffers.

use rtxlauncher_core::patching::{apply_patchsets_to_file, PatchSet, PatternSpec};

fn pat(mask: &str, offset: i64) -> PatternSpec {
    PatternSpec { hex_mask: mask.to_string(), offset, override_hex: None }
}

fn one_set(patterns: Vec<PatternSpec>, default_replacement: Option<&str>) -> Vec<PatchSet> {
    vec![PatchSet { patterns, default_replacement: default_replacement.map(|s| s.to_string()) }]
}

fn run(orig: &Vec<u8>, sets: &Vec<PatchSet>) -> (Vec<u8>, Vec<String>) {
    let mut out = orig.clone();
    let mut warnings: Vec<String> = Vec::new();
    apply_patchsets_to_file(orig, &mut out, sets, &mut warnings);
    (out, warnings)
}

#[test]
fn unique_match_applies_replacement() {
    let orig: Vec<u8> = vec![0x00, 0x11, 0x22, 0x33];
    let sets = one_set(vec![pat("11", 0)], Some("FF"));
    let (out, warnings) = run(&orig, &sets);
    assert_eq!(out, vec![0x00, 0xFF, 0x22, 0x33]);
    assert_eq!(warnings, vec!["Applied patch at 0x1, len 1".to_string()]);
}

#[test]
fn uniqueness_gate_prefers_the_unique_alternative() {
    // alternative 1 matches twice, alternative 2 exactly once
    let orig: Vec<u8> = vec![0xAA, 0x00, 0xAA, 0xBB];
    let sets = one_set(vec![pat("AA", 0), pat("BB", 0)], Some("EE"));
    let (out, warnings) = run(&orig, &sets);
    assert_eq!(out, vec![0xAA, 0x00, 0xAA, 0xEE]);
    assert_eq!(warnings, vec!["Applied patch at 0x3, len 1".to_string()]);
}

#[test]
fn positive_offset_writes_after_the_match() {
    let mut orig: Vec<u8> = vec![0u8; 16];
    orig[10] = 0xAA;
    let sets = one_set(vec![pat("AA", 4)], Some("FF"));
    let (out, warnings) = run(&orig, &sets);
    assert_eq!(out[14], 0xFF);
    assert_eq!(out[10], 0xAA);
    assert_eq!(warnings, vec!["Applied patch at 0xE, len 1".to_string()]);
}

#[test]
fn negative_offset_writes_before_the_match() {
    let mut orig: Vec<u8> = vec![0u8; 16];
    orig[10] = 0xAA;
    let sets = one_set(vec![pat("AA", -4)], Some("FF"));
    let (out, warnings) = run(&orig, &sets);
    assert_eq!(out[6], 0xFF);
    assert_eq!(warnings, vec!["Applied patch at 0x6, len 1".to_string()]);
}

#[test]
fn negative_offset_saturates_at_zero() {
    let mut orig: Vec<u8> = vec![1u8; 16];
    orig[10] = 0xAA;
    let sets = one_set(vec![pat("AA", -20)], Some("FF"));
    let (out, warnings) = run(&orig, &sets);
    assert_eq!(out[0], 0xFF);
    assert_eq!(warnings, vec!["Applied patch at 0x0, len 1".to_string()]);
}

#[test]
fn out_of_range_write_leaves_buffer_unchanged() {
    let orig: Vec<u8> = vec![0x00, 0xAA, 0x00];
    let sets = one_set(vec![pat("AA", 1)], Some("FFFF"));
    let (out, warnings) = run(&orig, &sets);
    assert_eq!(out, orig);
    assert_eq!(warnings, vec!["Write out of range for pattern AA".to_string()]);
}

#[test]
fn no_match_yields_not_found_diagnostic() {
    let orig: Vec<u8> = vec![0x00, 0x11];
    let sets = one_set(vec![pat("AB", 0), pat("CD", 0)], Some("FF"));
    let (out, warnings) = run(&orig, &sets);
    assert_eq!(out, orig);
    assert_eq!(warnings, vec!["Failed to locate pattern".to_string()]);
}

#[test]
fn ambiguous_matches_enumerate_every_location() {
    let orig: Vec<u8> = vec![0x00, 0xAA, 0x00, 0xAA, 0xBB, 0x00, 0xBB];
    let sets = one_set(vec![pat("AA", 0), pat("BB", 0)], Some("FF"));
    let (out, warnings) = run(&orig, &sets);
    assert_eq!(out, orig);
    assert_eq!(
        warnings,
        vec!["Ambiguous or conflicting pattern(s): AA@0x1, AA@0x3, BB@0x4, BB@0x6".to_string()],
    );
}

#[test]
fn matched_entry_without_replacement_is_silent() {
    let orig: Vec<u8> = vec![0x00, 0xAA];
    let sets = one_set(vec![pat("AA", 0)], None);
    let (out, warnings) = run(&orig, &sets);
    assert_eq!(out, orig);
    assert!(warnings.is_empty());
}

#[test]
fn invalid_replacement_hex_is_silent() {
    let orig: Vec<u8> = vec![0x00, 0xAA];
    let sets = one_set(vec![pat("AA", 0)], Some("GG"));
    let (out, warnings) = run(&orig, &sets);
    assert_eq!(out, orig);
    assert!(warnings.is_empty());
}

#[test]
fn override_replacement_takes_precedence() {
    let orig: Vec<u8> = vec![0xAA, 0x00];
    let sets = one_set(
        vec![PatternSpec {
            hex_mask: "AA".to_string(),
            offset: 0,
            override_hex: Some("12".to_string()),
        }],
        Some("34"),
    );
    let (out, _) = run(&orig, &sets);
    assert_eq!(out, vec![0x12, 0x00]);
}

#[test]
fn later_sets_see_earlier_writes_only_in_the_output() {
    // matching always runs against the original bytes, writes go to the copy
    let orig: Vec<u8> = vec![0xAA, 0xBB];
    let sets = vec![
        PatchSet {
            patterns: vec![pat("AA", 0)],
            default_replacement: Some("BB".to_string()),
        },
        PatchSet {
            patterns: vec![pat("BB", 0)],
            default_replacement: Some("CC".to_string()),
        },
    ];
    let (out, warnings) = run(&orig, &sets);
    // the second set still matches 0xBB uniquely at index 1 of the original
    assert_eq!(out, vec![0xBB, 0xCC]);
    assert_eq!(warnings.len(), 2);
}
