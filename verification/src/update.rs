//! Base-game update planning: what one detected difference records, and which
//! names the scan skips.

use vstd::prelude::*;
use crate::text::{eq_ci, eq_ignore_ascii_case, str_eq};

verus! {

/// One file or directory the update scan wants to copy.
#[derive(Debug, Clone)]
pub struct FileUpdateInfo {
    pub relative_path: String,
    pub source_path: String,
    pub destination_path: String,
    pub is_directory: bool,
    pub is_new: bool,
    pub is_changed: bool,
}

/// Content directories the update scan never copies.
pub open spec fn spec_excluded_update_dir(n: Seq<char>) -> bool {
    eq_ci(n, "addons"@) || eq_ci(n, "saves"@) || eq_ci(n, "dupes"@) || eq_ci(n, "demos"@) || eq_ci(
        n,
        "settings"@,
    ) || eq_ci(n, "cache"@) || eq_ci(n, "materials"@) || eq_ci(n, "models"@) || eq_ci(n, "maps"@)
        || eq_ci(n, "screenshots"@) || eq_ci(n, "videos"@) || eq_ci(n, "download"@)
}

pub fn is_excluded_update_dir(name: &str) -> (r: bool)
    ensures
        r == spec_excluded_update_dir(name@),
{
    eq_ignore_ascii_case(name, "addons") || eq_ignore_ascii_case(name, "saves")
        || eq_ignore_ascii_case(name, "dupes") || eq_ignore_ascii_case(name, "demos")
        || eq_ignore_ascii_case(name, "settings") || eq_ignore_ascii_case(name, "cache")
        || eq_ignore_ascii_case(name, "materials") || eq_ignore_ascii_case(name, "models")
        || eq_ignore_ascii_case(name, "maps") || eq_ignore_ascii_case(name, "screenshots")
        || eq_ignore_ascii_case(name, "videos") || eq_ignore_ascii_case(name, "download")
}

/// File extensions the update scan never copies.
pub open spec fn spec_excluded_update_ext(ext: Seq<char>) -> bool {
    eq_ci(ext, "dem"@) || eq_ci(ext, "log"@) || eq_ci(ext, "vpk"@)
}

pub fn is_excluded_update_ext(ext: &str) -> (r: bool)
    ensures
        r == spec_excluded_update_ext(ext@),
{
    eq_ignore_ascii_case(ext, "dem") || eq_ignore_ascii_case(ext, "log") || eq_ignore_ascii_case(
        ext,
        "vpk",
    )
}

/// The only files the update scan takes from the install root.
pub open spec fn spec_root_file_allowed(n: Seq<char>) -> bool {
    eq_ci(n, "gmod.exe"@) || eq_ci(n, "hl2.exe"@) || eq_ci(n, "steam_appid.txt"@)
}

pub fn is_root_file_allowed(name: &str) -> (r: bool)
    ensures
        r == spec_root_file_allowed(name@),
{
    eq_ignore_ascii_case(name, "gmod.exe") || eq_ignore_ascii_case(name, "hl2.exe")
        || eq_ignore_ascii_case(name, "steam_appid.txt")
}

/// Root-level directories of the launcher's own that the scan steps over.
pub open spec fn spec_skipped_root_dir(n: Seq<char>) -> bool {
    n == "crashes"@ || n == "logs"@ || n == "temp"@ || n == "update"@ || n == "xenmod"@
}

pub fn is_skipped_root_dir(name: &str) -> (r: bool)
    ensures
        r == spec_skipped_root_dir(name@),
{
    str_eq(name, "crashes") || str_eq(name, "logs") || str_eq(name, "temp") || str_eq(
        name,
        "update",
    ) || str_eq(name, "xenmod")
}

} // verus!
