//! Naming and filtering rules for mounting a game's content into the install.

use vstd::prelude::*;
use vstd::string::StringExecFns;
use crate::text::{eq_ci, eq_ignore_ascii_case};

verus! {

/// The addon directory a mounted game's content lives under.
pub fn mount_addon_dir_name(game_folder: &str) -> (r: String)
    ensures
        r@ == "mount-"@ + game_folder@,
{
    let mut s = String::new();
    s.append("mount-");
    s.append(game_folder);
    s
}

/// The directory a mounted game's Remix mod lives under.
pub fn mount_remix_dir_name(game_folder: &str, remix_mod_folder: &str) -> (r: String)
    ensures
        r@ == "mount-"@ + game_folder@ + "-"@ + remix_mod_folder@,
{
    let mut s = String::new();
    s.append("mount-");
    s.append(game_folder);
    s.append("-");
    s.append(remix_mod_folder);
    s
}

/// The name prefix of every custom mount of one game, as the unmount scan
/// matches it.
pub fn custom_mount_prefix(game_folder: &str) -> (r: String)
    ensures
        r@ == "mount-"@ + game_folder@ + "-"@,
{
    let mut s = String::new();
    s.append("mount-");
    s.append(game_folder);
    s.append("-");
    s
}

/// Material subdirectories that are never linked into a mount.
pub open spec fn spec_excluded_material_dir(n: Seq<char>) -> bool {
    eq_ci(n, "vgui"@) || eq_ci(n, "dev"@) || eq_ci(n, "editor"@) || eq_ci(n, "perftest"@) || eq_ci(
        n,
        "tools"@,
    )
}

pub fn is_excluded_material_dir(name: &str) -> (r: bool)
    ensures
        r == spec_excluded_material_dir(name@),
{
    eq_ignore_ascii_case(name, "vgui") || eq_ignore_ascii_case(name, "dev")
        || eq_ignore_ascii_case(name, "editor") || eq_ignore_ascii_case(name, "perftest")
        || eq_ignore_ascii_case(name, "tools")
}

} // verus!
