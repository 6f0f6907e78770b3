//! The Steam library-folder parser on mixed-format `libraryfolders.vdf` text.

use rtxlauncher_core::steam::unix;
use rtxlauncher_core::steam::windows;

#[test]
fn parse_vdf_paths_windows_mixed_formats() {
    let vdf = r#"
        "LibraryFolders"
        {
            "contentstatsid" "-123456789"
            "1" "D:\\SteamLibrary"
            "2"
            {
                "path" "E:\\Games\\SteamLibrary"
                "label" ""
                "contentid" "123456789"
            }
        }
        "#;
    let libs = windows::parse_libraryfolders_vdf_paths(vdf);
    assert!(libs.contains(&"D:\\SteamLibrary".to_string()));
    assert!(libs.contains(&"E:\\Games\\SteamLibrary".to_string()));
}

#[test]
fn parse_vdf_paths_unix_mixed_formats() {
    let vdf = r#"
        "LibraryFolders"
        {
            "contentstatsid" "-123456789"
            "1" "/mnt/ssd/SteamLibrary"
            "2"
            {
                "path" "/home/user/.steam/steamapps/compat/SteamLibrary"
                "label" ""
                "contentid" "123456789"
            }
        }
        "#;
    let libs = unix::parse_libraryfolders_vdf_paths(vdf);
    assert!(libs.contains(&"/mnt/ssd/SteamLibrary".to_string()));
    assert!(libs.contains(&"/home/user/.steam/steamapps/compat/SteamLibrary".to_string()));
}

#[test]
fn parse_vdf_paths_windows_unescapes_and_normalizes() {
    let vdf = "\"3\" \"C:/Games/Steam\"\n\"path\" \"D:\\\\Lib\\\\Steam\"";
    let libs = windows::parse_libraryfolders_vdf_paths(vdf);
    assert_eq!(libs, vec!["C:\\Games\\Steam".to_string(), "D:\\Lib\\Steam".to_string()]);
}

#[test]
fn parse_vdf_paths_deduplicates() {
    let vdf = "\"1\" \"/a/b\"\n\"2\" \"/a/b\"\n\"3\" \"/c\"";
    let libs = unix::parse_libraryfolders_vdf_paths(vdf);
    assert_eq!(libs, vec!["/a/b".to_string(), "/c".to_string()]);
}

#[test]
fn parse_vdf_paths_skips_non_numeric_keys() {
    let vdf = "\"contentstatsid\" \"-12345\"\n\"1\" \"/lib\"";
    let libs = unix::parse_libraryfolders_vdf_paths(vdf);
    assert_eq!(libs, vec!["/lib".to_string()]);
}
