//! Pure decisions of the patch session: which table applies, how a relative
//! path is rewritten for a 64-bit install, what one file's patched bytes are,
//! how progress is reported, and the final report text.

use vstd::prelude::*;
use vstd::string::StringExecFns;
use crate::num::{dec_chars, fmt_dec};
use crate::patching::{apply_patchsets_to_file, apply_sets_spec, PatchSet};
use crate::script::PatchTable;
use crate::text::{
    contains_seq, contains_str, ends_with_str, from_chars, starts_with_str, to_chars,
    trim_prefix_rep, trim_prefix_rep_exec,
};

verus! {

/// The two raw-content URL variants under which a patch script is looked up:
/// the main branch path first, then the master branch fallback.
pub fn patch_script_urls(owner: &str, repo: &str, file_path: &str) -> (r: (String, String))
    ensures
        r.0@ == "https://raw.githubusercontent.com/"@ + owner@ + "/"@ + repo@
            + "/refs/heads/main/"@ + file_path@,
        r.1@ == "https://raw.githubusercontent.com/"@ + owner@ + "/"@ + repo@ + "/master/"@
            + file_path@,
{
    let mut a = String::new();
    a.append("https://raw.githubusercontent.com/");
    a.append(owner);
    a.append("/");
    a.append(repo);
    a.append("/refs/heads/main/");
    a.append(file_path);
    let mut b = String::new();
    b.append("https://raw.githubusercontent.com/");
    b.append(owner);
    b.append("/");
    b.append(repo);
    b.append("/master/");
    b.append(file_path);
    (a, b)
}

/// The effective table for an install: the 64-bit one exactly when the
/// install has a 64-bit binary directory.
pub fn select_patch_table<'a>(is64: bool, t32: &'a PatchTable, t64: &'a PatchTable) -> (r:
    &'a PatchTable)
    ensures
        r@ == if is64 {
            t64@
        } else {
            t32@
        },
{
    if is64 {
        t64
    } else {
        t32
    }
}

/// The path a table key really names on a 64-bit install: a 32-bit DLL key
/// directly under the binary directory moves under its 64-bit subdirectory.
pub open spec fn spec_effective_rel(is64: bool, rel: Seq<char>) -> Seq<char> {
    if is64 && "bin/"@.is_prefix_of(rel) && !contains_seq(rel, "/win64/"@)
        && ".dll"@.is_suffix_of(rel) {
        "bin/win64/"@ + trim_prefix_rep(rel, "bin/"@)
    } else {
        rel
    }
}

pub fn effective_rel_path(is64: bool, rel: &str) -> (r: String)
    ensures
        r@ == spec_effective_rel(is64, rel@),
{
    if is64 && starts_with_str(rel, "bin/") && !contains_str(rel, "/win64/") && ends_with_str(
        rel,
        ".dll",
    ) {
        let relv = to_chars(rel);
        let pat = to_chars("bin/");
        let tail = trim_prefix_rep_exec(&relv, &pat);
        let mut out = String::new();
        out.append("bin/win64/");
        let tail_s = from_chars(&tail);
        out.append(tail_s.as_str());
        out
    } else {
        let mut out = String::new();
        out.append(rel);
        out
    }
}

/// One file's patched bytes: a copy of the original with every patch set
/// applied in order, diagnostics appended to `warnings`.
pub fn patch_file_bytes(data: &Vec<u8>, sets: &Vec<PatchSet>, warnings: &mut Vec<String>) -> (out:
    Vec<u8>)
    ensures
        out@ == apply_sets_spec(data@, data@, sets@, 0).0,
        final(warnings).deep_view() == old(warnings).deep_view() + apply_sets_spec(
            data@,
            data@,
            sets@,
            0,
        ).1,
{
    let mut out = data.clone();
    proof {
        assert(out@ == data@);
    }
    apply_patchsets_to_file(data, &mut out, sets, warnings);
    out
}

/// The progress percentage while patching file `i` of `total`: a band from 12
/// to 90 percent, proportional to the files already processed.
pub fn session_progress_percent(i: usize, total: usize) -> (pct: u8)
    requires
        1 <= total,
        i <= total,
    ensures
        pct as int == if 12 + ((i * 80) as int) / (total as int) <= 90 {
            12 + ((i * 80) as int) / (total as int)
        } else {
            90
        },
{
    let scaled: u128 = ((i as u128) * 80) / (total as u128);
    let pct: u128 = 12 + scaled;
    if pct <= 90 {
        pct as u8
    } else {
        90
    }
}

pub open spec fn patched_lines(files: Seq<Seq<char>>, i: int) -> Seq<char>
    decreases files.len() - i,
    when 0 <= i
{
    if i >= files.len() {
        Seq::<char>::empty()
    } else {
        "Patched: "@ + files[i] + "\n"@ + patched_lines(files, i + 1)
    }
}

pub open spec fn warning_lines(ws: Seq<Seq<char>>, i: int) -> Seq<char>
    decreases ws.len() - i,
    when 0 <= i
{
    if i >= ws.len() {
        Seq::<char>::empty()
    } else {
        ws[i] + "\n"@ + warning_lines(ws, i + 1)
    }
}

/// The report written next to the staging directory: the patched-file count,
/// each patched path, and every diagnostic, one per line.
pub open spec fn spec_patch_report(
    files_patched: nat,
    patched: Seq<Seq<char>>,
    warnings: Seq<Seq<char>>,
) -> Seq<char> {
    "Patched "@ + dec_chars(files_patched) + " file(s)\n"@ + patched_lines(patched, 0)
        + warning_lines(warnings, 0)
}

pub fn build_patch_report(
    files_patched: usize,
    patched: &Vec<String>,
    warnings: &Vec<String>,
) -> (r: String)
    ensures
        r@ == spec_patch_report(files_patched as nat, patched.deep_view(), warnings.deep_view()),
{
    let mut text = String::new();
    text.append("Patched ");
    let n = fmt_dec(files_patched as u64);
    text.append(n.as_str());
    text.append(" file(s)\n");
    let ghost head = text@;
    let mut i: usize = 0;
    while i < patched.len()
        invariant
            i <= patched.len(),
            head + patched_lines(patched.deep_view(), 0) == text@ + patched_lines(
                patched.deep_view(),
                i as int,
            ),
        decreases patched.len() - i,
    {
        let ghost prev = text@;
        text.append("Patched: ");
        text.append(patched[i].as_str());
        text.append("\n");
        proof {
            assert(patched.deep_view()[i as int] == patched@[i as int]@);
            assert(prev + ("Patched: "@ + patched.deep_view()[i as int] + "\n"@ + patched_lines(
                patched.deep_view(),
                i as int + 1,
            )) =~= text@ + patched_lines(patched.deep_view(), i as int + 1));
        }
        i = i + 1;
    }
    proof {
        assert(text@ + patched_lines(patched.deep_view(), patched@.len() as int) =~= text@);
    }
    let ghost head2 = text@;
    let mut k: usize = 0;
    while k < warnings.len()
        invariant
            k <= warnings.len(),
            head2 + warning_lines(warnings.deep_view(), 0) == text@ + warning_lines(
                warnings.deep_view(),
                k as int,
            ),
        decreases warnings.len() - k,
    {
        let ghost prev = text@;
        text.append(warnings[k].as_str());
        text.append("\n");
        proof {
            assert(warnings.deep_view()[k as int] == warnings@[k as int]@);
            assert(prev + (warnings.deep_view()[k as int] + "\n"@ + warning_lines(
                warnings.deep_view(),
                k as int + 1,
            )) =~= text@ + warning_lines(warnings.deep_view(), k as int + 1));
        }
        k = k + 1;
    }
    proof {
        assert(text@ + warning_lines(warnings.deep_view(), warnings@.len() as int) =~= text@);
    }
    text
}

} // verus!
