//! The end-to-end patch scenario and the session's pure decisions.

use rtxlauncher_core::patching::PatchResult;
use rtxlauncher_core::script::parse_patches_from_python;
use rtxlauncher_core::session::{
    build_patch_report, effective_rel_path, patch_file_bytes, patch_script_urls,
    select_patch_table, session_progress_percent,
};

#[test]
fn end_to_end_single_file_patch() {
    let script = "patches32 = { 'bin/test.dll': [ [[('DEADBEEF', 0)], 'CAFEBABE'] ] }";
    let (t32, t64) = parse_patches_from_python(script).unwrap();
    let table = select_patch_table(false, &t32, &t64);
    assert_eq!(table.len(), 1);

    let mut data: Vec<u8> = vec![0u8; 16];
    data[4] = 0xDE;
    data[5] = 0xAD;
    data[6] = 0xBE;
    data[7] = 0xEF;

    let sets = table.get("bin/test.dll").unwrap();
    let mut warnings: Vec<String> = Vec::new();
    let out = patch_file_bytes(&data, sets, &mut warnings);

    let mut expected = data.clone();
    expected[4] = 0xCA;
    expected[5] = 0xFE;
    expected[6] = 0xBA;
    expected[7] = 0xBE;
    assert_eq!(out, expected);

    let result = PatchResult { files_patched: 1, warnings: warnings.clone() };
    assert_eq!(result.files_patched, 1);
    // the one diagnostic is the informational applied-patch note; no failures
    assert_eq!(warnings, vec!["Applied patch at 0x4, len 4".to_string()]);
}

#[test]
fn effective_rel_path_rewrites_32bit_dll_keys() {
    assert_eq!(effective_rel_path(true, "bin/engine.dll"), "bin/win64/engine.dll");
    assert_eq!(effective_rel_path(false, "bin/engine.dll"), "bin/engine.dll");
    assert_eq!(effective_rel_path(true, "bin/win64/engine.dll"), "bin/win64/engine.dll");
    assert_eq!(effective_rel_path(true, "bin/engine.txt"), "bin/engine.txt");
    assert_eq!(effective_rel_path(true, "garrysmod/engine.dll"), "garrysmod/engine.dll");
}

#[test]
fn patch_script_urls_try_main_then_master() {
    let (a, b) = patch_script_urls("owner", "repo", "applypatch.py");
    assert_eq!(a, "https://raw.githubusercontent.com/owner/repo/refs/heads/main/applypatch.py");
    assert_eq!(b, "https://raw.githubusercontent.com/owner/repo/master/applypatch.py");
}

#[test]
fn progress_percent_band() {
    assert_eq!(session_progress_percent(0, 10), 12);
    assert_eq!(session_progress_percent(5, 10), 52);
    assert_eq!(session_progress_percent(10, 10), 90);
    assert_eq!(session_progress_percent(1, 1), 90);
}

#[test]
fn patch_report_lists_counts_files_and_warnings() {
    let patched = vec!["bin/a.dll".to_string()];
    let warnings = vec!["w1".to_string(), "w2".to_string()];
    let report = build_patch_report(1, &patched, &warnings);
    assert_eq!(report, "Patched 1 file(s)\nPatched: bin/a.dll\nw1\nw2\n");
    assert_eq!(build_patch_report(0, &vec![], &vec![]), "Patched 0 file(s)\n");
}
