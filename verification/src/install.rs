//! The basic-install plan, and which names the install copy skips or links.

use vstd::prelude::*;
use vstd::string::StringExecFns;
use crate::text::{eq_ci, eq_ignore_ascii_case, str_eq};

verus! {

/// Where a basic install copies from and to.
pub struct InstallPlan {
    pub vanilla: String,
    pub rtx: String,
}

/// File extensions the install copy leaves behind.
pub open spec fn spec_excluded_install_ext(ext: Seq<char>) -> bool {
    eq_ci(ext, "dem"@) || eq_ci(ext, "log"@)
}

pub fn is_excluded_install_ext(ext: &str) -> (r: bool)
    ensures
        r == spec_excluded_install_ext(ext@),
{
    eq_ignore_ascii_case(ext, "dem") || eq_ignore_ascii_case(ext, "log")
}

/// Game-content directories that are linked rather than copied.
pub open spec fn spec_linked_content_dir(n: Seq<char>) -> bool {
    n == "saves"@ || n == "dupes"@ || n == "demos"@ || n == "settings"@ || n == "cache"@ || n
        == "download"@ || n == "materials"@ || n == "models"@ || n == "maps"@ || n
        == "screenshots"@ || n == "videos"@
}

pub fn is_linked_content_dir(name: &str) -> (r: bool)
    ensures
        r == spec_linked_content_dir(name@),
{
    str_eq(name, "saves") || str_eq(name, "dupes") || str_eq(name, "demos") || str_eq(
        name,
        "settings",
    ) || str_eq(name, "cache") || str_eq(name, "download") || str_eq(name, "materials") || str_eq(
        name,
        "models",
    ) || str_eq(name, "maps") || str_eq(name, "screenshots") || str_eq(name, "videos")
}

/// The root executable an install prefers, by name.
pub fn preferred_root_exe(has_gmod_exe: bool) -> (r: String)
    ensures
        r@ == if has_gmod_exe {
            "gmod.exe"@
        } else {
            "hl2.exe"@
        },
{
    let mut s = String::new();
    if has_gmod_exe {
        s.append("gmod.exe");
    } else {
        s.append("hl2.exe");
    }
    s
}

} // verus!
