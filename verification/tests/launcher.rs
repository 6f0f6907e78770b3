//! Launch arguments, settings defaults, asset selection, path filters and
//! the small formatting helpers.

use rtxlauncher_core::elevation::relaunch_as_admin;
use rtxlauncher_core::github::{GitHubAsset, GitHubRelease};
use rtxlauncher_core::install::{is_excluded_install_ext, is_linked_content_dir, preferred_root_exe};
use rtxlauncher_core::launch::{build_launch_args, dedup_by_path, split_args_quoted};
use rtxlauncher_core::mount::{
    custom_mount_prefix, is_excluded_material_dir, mount_addon_dir_name, mount_remix_dir_name,
};
use rtxlauncher_core::num::{fmt_dec, fmt_hex_upper, parse_i64_or_zero};
use rtxlauncher_core::remix_installer::{
    entry_layout_flags, normalize_path_for_match, parse_ignore_patterns, select_best_asset,
    select_best_package_asset, should_ignore,
};
use rtxlauncher_core::settings::AppSettings;
use rtxlauncher_core::update::{
    is_excluded_update_dir, is_excluded_update_ext, is_root_file_allowed, is_skipped_root_dir,
};

fn asset(name: &str) -> GitHubAsset {
    GitHubAsset { name: name.to_string(), browser_download_url: None, size: None }
}

#[test]
fn default_settings_enable_console_and_workshop() {
    let s = AppSettings::default();
    assert!(s.console_enabled);
    assert!(s.load_workshop_addons);
    assert!(!s.disable_chromium);
    assert!(s.custom_launch_options.is_none());
    assert!(s.width.is_none());
}

#[test]
fn launch_args_fixed_flags_and_toggles() {
    let s = AppSettings::default();
    let args = build_launch_args(&s);
    assert_eq!(
        args,
        vec![
            "-console", "-dxlevel", "90", "+mat_disable_d3d9ex", "1", "-nod3d9ex", "-windowed",
            "-noborder",
        ],
    );

    let mut s2 = AppSettings::default();
    s2.console_enabled = false;
    s2.width = Some(1920);
    s2.height = Some(1080);
    s2.load_workshop_addons = false;
    s2.disable_chromium = true;
    s2.developer_mode = true;
    s2.tools_mode = true;
    s2.custom_launch_options = Some("-extra \"two words\"".to_string());
    let args2 = build_launch_args(&s2);
    assert_eq!(
        args2,
        vec![
            "-dxlevel", "90", "+mat_disable_d3d9ex", "1", "-nod3d9ex", "-windowed", "-noborder",
            "-w", "1920", "-h", "1080", "-noworkshop", "-nochromium", "-dev", "-tools", "-extra",
            "two words",
        ],
    );
}

#[test]
fn zero_window_size_is_ignored() {
    let mut s = AppSettings::default();
    s.width = Some(0);
    s.height = Some(600);
    let args = build_launch_args(&s);
    assert!(!args.contains(&"-w".to_string()));
}

#[test]
fn split_args_honours_quotes_and_escapes() {
    assert_eq!(split_args_quoted("a b  c"), vec!["a", "b", "c"]);
    assert_eq!(split_args_quoted("'a b' c"), vec!["a b", "c"]);
    assert_eq!(split_args_quoted("\"a 'x' b\""), vec!["a 'x' b"]);
    assert_eq!(split_args_quoted("a\\ b"), vec!["a b"]);
    // any Unicode whitespace separates, as char::is_whitespace does
    assert_eq!(split_args_quoted("a\u{a0}b"), vec!["a", "b"]);
    assert_eq!(split_args_quoted("a\u{3000}b"), vec!["a", "b"]);
    assert_eq!(split_args_quoted(""), Vec::<String>::new());
}

#[test]
fn asset_selection_prefers_specific_suffixes() {
    let release = GitHubRelease {
        name: None,
        tag_name: None,
        published_at: None,
        assets: vec![
            asset("remix-symbols-release.zip"),
            asset("remix-debug.zip"),
            asset("remix-release.zip"),
            asset("remix-gmod.zip"),
        ],
    };
    let best = select_best_asset(&release, false).unwrap();
    assert_eq!(best.name, "remix-release.zip");
    let best64 = select_best_asset(&release, true).unwrap();
    assert_eq!(best64.name, "remix-gmod.zip");

    let none = GitHubRelease::default();
    assert!(select_best_asset(&none, true).is_none());
}

#[test]
fn package_asset_prefers_launcher_zip() {
    let release = GitHubRelease {
        name: None,
        tag_name: None,
        published_at: None,
        assets: vec![asset("fixes.zip"), asset("fixes-launcher.zip")],
    };
    assert_eq!(select_best_package_asset(&release).unwrap().name, "fixes-launcher.zip");
}

#[test]
fn ignore_patterns_filter_archive_paths() {
    let pats = parse_ignore_patterns("# header\nbin/.trex/*\n\nbin/d3d9.dll\n");
    assert_eq!(pats, vec!["bin/.trex/*".to_string(), "bin/d3d9.dll".to_string()]);
    assert!(should_ignore("bin/d3d9.dll", &pats));
    assert!(should_ignore("\\bin\\d3d9.dll", &pats));
    assert!(should_ignore("bin/.trex/runtime.dll", &pats));
    assert!(!should_ignore("bin/engine.dll", &pats));
}

#[test]
fn normalize_path_strips_leading_slashes_and_backslashes() {
    assert_eq!(normalize_path_for_match("\\a\\b"), "a/b");
    assert_eq!(normalize_path_for_match("//x/y"), "x/y");
    assert_eq!(normalize_path_for_match("plain"), "plain");
}

#[test]
fn zip_entry_layout_flags() {
    assert_eq!(entry_layout_flags(".trex/d3d9.dll"), (true, true));
    assert_eq!(entry_layout_flags("bin\\d3d9.dll"), (false, true));
    assert_eq!(entry_layout_flags("d3d9.dll"), (false, true));
    assert_eq!(entry_layout_flags("bin/engine.dll"), (false, false));
}

#[test]
fn name_filters_match_case_insensitively() {
    assert!(is_excluded_update_dir("Addons"));
    assert!(!is_excluded_update_dir("bin"));
    assert!(is_excluded_update_ext("VPK"));
    assert!(!is_excluded_update_ext("dll"));
    assert!(is_root_file_allowed("GMod.exe"));
    assert!(!is_root_file_allowed("other.exe"));
    assert!(is_skipped_root_dir("logs"));
    assert!(!is_skipped_root_dir("Logs"));
    assert!(is_excluded_material_dir("VGUI"));
    assert!(!is_excluded_material_dir("concrete"));
    assert!(is_excluded_install_ext("DEM"));
    assert!(is_linked_content_dir("maps"));
    assert!(!is_linked_content_dir("Maps"));
}

#[test]
fn mount_names_are_derived_from_folders() {
    assert_eq!(mount_addon_dir_name("hl2rtx"), "mount-hl2rtx");
    assert_eq!(mount_remix_dir_name("hl2rtx", "mod"), "mount-hl2rtx-mod");
    assert_eq!(custom_mount_prefix("hl2rtx"), "mount-hl2rtx-");
    assert_eq!(preferred_root_exe(true), "gmod.exe");
    assert_eq!(preferred_root_exe(false), "hl2.exe");
}

#[test]
fn proton_builds_deduplicate_by_path() {
    let items = vec![
        ("Proton 9".to_string(), "/a/proton".to_string()),
        ("Proton GE".to_string(), "/b/proton".to_string()),
        ("PATH: proton".to_string(), "/a/proton".to_string()),
    ];
    let out = dedup_by_path(items);
    assert_eq!(out.len(), 2);
    assert_eq!(out[0].0, "Proton 9");
    assert_eq!(out[1].0, "Proton GE");
}

#[test]
fn number_formatting_matches_display_forms() {
    assert_eq!(fmt_dec(0), "0");
    assert_eq!(fmt_dec(1234567890), "1234567890");
    assert_eq!(fmt_hex_upper(0), "0");
    assert_eq!(fmt_hex_upper(0xDEADBEEF), "DEADBEEF");
    assert_eq!(fmt_hex_upper(14), "E");
}

#[test]
fn offset_parsing_matches_unwrap_or_zero() {
    assert_eq!(parse_i64_or_zero(&"-20".chars().collect()), -20);
    assert_eq!(parse_i64_or_zero(&"+7".chars().collect()), 7);
    assert_eq!(parse_i64_or_zero(&"".chars().collect()), 0);
    assert_eq!(parse_i64_or_zero(&"12a".chars().collect()), 0);
    assert_eq!(parse_i64_or_zero(&"99999999999999999999999".chars().collect()), 0);
    assert_eq!(parse_i64_or_zero(&"9223372036854775807".chars().collect()), i64::MAX);
    assert_eq!(parse_i64_or_zero(&"-9223372036854775808".chars().collect()), i64::MIN);
    assert_eq!(parse_i64_or_zero(&"9223372036854775808".chars().collect()), 0);
}

#[test]
fn relaunch_is_refused_by_the_core() {
    let r = relaunch_as_admin();
    assert_eq!(r.err().unwrap(), "relaunch not implemented in core; UI should call pkexec/sudo");
}
