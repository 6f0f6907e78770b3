//! Choosing release assets and filtering package contents: which zip asset a
//! release installs from, and which archive paths an ignore list excludes.

use vstd::prelude::*;
use crate::github::{GitHubAsset, GitHubRelease};
use crate::scan::{scan_to, scan_to_exec, trim_exec, trim_spec};
use crate::text::{
    chars_eq_at, contains_seq, contains_str, ends_with_str, from_chars, str_eq, sub_chars,
    to_chars,
};

verus! {

/// The first asset (at or after `i`) whose name ends with `pat`.
pub open spec fn first_suffix_idx(assets: Seq<GitHubAsset>, pat: Seq<char>, i: int) -> Option<int>
    decreases assets.len() - i,
    when 0 <= i
{
    if i >= assets.len() {
        None
    } else if pat.is_suffix_of(assets[i].name@) {
        Some(i)
    } else {
        first_suffix_idx(assets, pat, i + 1)
    }
}

/// The first asset (at or after `i`) whose name holds `pat` but is not a
/// symbols package.
pub open spec fn first_pat_idx(assets: Seq<GitHubAsset>, pat: Seq<char>, i: int) -> Option<int>
    decreases assets.len() - i,
    when 0 <= i
{
    if i >= assets.len() {
        None
    } else if contains_seq(assets[i].name@, pat) && !contains_seq(assets[i].name@, "-symbols"@) {
        Some(i)
    } else {
        first_pat_idx(assets, pat, i + 1)
    }
}

/// Which asset a release installs from: the gmod zip when one is preferred
/// and present, else the first match of the known packaging suffixes, most
/// specific first, never a symbols package.
pub open spec fn spec_select_best_asset(assets: Seq<GitHubAsset>, prefer_gmod_zip: bool) -> Option<
    int,
> {
    let gmod = if prefer_gmod_zip {
        first_suffix_idx(assets, "-gmod.zip"@, 0)
    } else {
        None
    };
    match gmod {
        Some(i) => Some(i),
        None => match first_pat_idx(assets, "-release.zip"@, 0) {
            Some(i) => Some(i),
            None => match first_pat_idx(assets, "-debugoptimized.zip"@, 0) {
                Some(i) => Some(i),
                None => match first_pat_idx(assets, "-debug.zip"@, 0) {
                    Some(i) => Some(i),
                    None => first_pat_idx(assets, ".zip"@, 0),
                },
            },
        },
    }
}

/// Which asset a fixes package installs from: a launcher zip first, else any
/// zip.
pub open spec fn spec_select_best_package_asset(assets: Seq<GitHubAsset>) -> Option<int> {
    match first_suffix_idx(assets, "-launcher.zip"@, 0) {
        Some(i) => Some(i),
        None => first_suffix_idx(assets, ".zip"@, 0),
    }
}

fn find_suffix_asset<'a>(assets: &'a Vec<GitHubAsset>, pat: &str) -> (r: Option<&'a GitHubAsset>)
    ensures
        match r {
            Some(a) => {
                let s = first_suffix_idx(assets@, pat@, 0);
                s is Some && 0 <= s->Some_0 < assets@.len() && *a == assets@[s->Some_0]
            },
            None => first_suffix_idx(assets@, pat@, 0) is None,
        },
{
    let mut i: usize = 0;
    while i < assets.len()
        invariant
            i <= assets.len(),
            first_suffix_idx(assets@, pat@, 0) == first_suffix_idx(assets@, pat@, i as int),
        decreases assets.len() - i,
    {
        if ends_with_str(assets[i].name.as_str(), pat) {
            return Some(&assets[i]);
        }
        i = i + 1;
    }
    None
}

fn find_pat_asset<'a>(assets: &'a Vec<GitHubAsset>, pat: &str) -> (r: Option<&'a GitHubAsset>)
    ensures
        match r {
            Some(a) => {
                let s = first_pat_idx(assets@, pat@, 0);
                s is Some && 0 <= s->Some_0 < assets@.len() && *a == assets@[s->Some_0]
            },
            None => first_pat_idx(assets@, pat@, 0) is None,
        },
{
    let mut i: usize = 0;
    while i < assets.len()
        invariant
            i <= assets.len(),
            first_pat_idx(assets@, pat@, 0) == first_pat_idx(assets@, pat@, i as int),
        decreases assets.len() - i,
    {
        if contains_str(assets[i].name.as_str(), pat) && !contains_str(
            assets[i].name.as_str(),
            "-symbols",
        ) {
            return Some(&assets[i]);
        }
        i = i + 1;
    }
    None
}

/// The asset to install RTX Remix from, preferring the gmod zip on 64-bit
/// installs.
pub fn select_best_asset<'a>(release: &'a GitHubRelease, prefer_gmod_zip: bool) -> (r: Option<
    &'a GitHubAsset,
>)
    ensures
        match r {
            Some(a) => {
                let s = spec_select_best_asset(release.assets@, prefer_gmod_zip);
                s is Some && 0 <= s->Some_0 < release.assets@.len() && *a
                    == release.assets@[s->Some_0]
            },
            None => spec_select_best_asset(release.assets@, prefer_gmod_zip) is None,
        },
{
    if prefer_gmod_zip {
        match find_suffix_asset(&release.assets, "-gmod.zip") {
            Some(a) => {
                return Some(a);
            },
            None => {},
        }
    }
    match find_pat_asset(&release.assets, "-release.zip") {
        Some(a) => {
            return Some(a);
        },
        None => {},
    }
    match find_pat_asset(&release.assets, "-debugoptimized.zip") {
        Some(a) => {
            return Some(a);
        },
        None => {},
    }
    match find_pat_asset(&release.assets, "-debug.zip") {
        Some(a) => {
            return Some(a);
        },
        None => {},
    }
    find_pat_asset(&release.assets, ".zip")
}

/// The asset to install a fixes package from.
pub fn select_best_package_asset<'a>(release: &'a GitHubRelease) -> (r: Option<&'a GitHubAsset>)
    ensures
        match r {
            Some(a) => {
                let s = spec_select_best_package_asset(release.assets@);
                s is Some && 0 <= s->Some_0 < release.assets@.len() && *a
                    == release.assets@[s->Some_0]
            },
            None => spec_select_best_package_asset(release.assets@) is None,
        },
{
    match find_suffix_asset(&release.assets, "-launcher.zip") {
        Some(a) => {
            return Some(a);
        },
        None => {},
    }
    find_suffix_asset(&release.assets, ".zip")
}

/// Every backslash turned into a forward slash.
pub open spec fn slashes_norm(s: Seq<char>) -> Seq<char> {
    s.map_values(
        |c: char|
            if c == '\\' {
                '/'
            } else {
                c
            },
    )
}

pub open spec fn skip_slashes(s: Seq<char>, i: int) -> int
    decreases s.len() - i,
    when 0 <= i
{
    if i < s.len() && s[i] == '/' {
        skip_slashes(s, i + 1)
    } else {
        i
    }
}

/// A path in comparison form: forward slashes only, no leading slash.
pub open spec fn spec_normalize_path(s: Seq<char>) -> Seq<char> {
    let t = slashes_norm(s);
    t.skip(skip_slashes(t, 0))
}

fn normalize_chars(s: &Vec<char>) -> (r: Vec<char>)
    ensures
        r@ == spec_normalize_path(s@),
{
    let mut t: Vec<char> = Vec::new();
    let mut i: usize = 0;
    while i < s.len()
        invariant
            i <= s.len(),
            t@ =~= slashes_norm(s@).take(i as int),
        decreases s.len() - i,
    {
        let c = s[i];
        if c == '\\' {
            t.push('/');
        } else {
            t.push(c);
        }
        proof {
            assert(t@ =~= slashes_norm(s@).take(i as int + 1));
        }
        i = i + 1;
    }
    proof {
        assert(t@ =~= slashes_norm(s@));
    }
    let mut a: usize = 0;
    while a < t.len() && t[a] == '/'
        invariant
            a <= t.len(),
            t@ == slashes_norm(s@),
            skip_slashes(t@, 0) == skip_slashes(t@, a as int),
        decreases t.len() - a,
    {
        a = a + 1;
    }
    let r = sub_chars(&t, a, t.len());
    proof {
        assert(r@ =~= t@.skip(a as int));
    }
    r
}

/// A path made comparable: backslashes to slashes, leading slashes dropped.
pub fn normalize_path_for_match(p: &str) -> (r: String)
    ensures
        r@ == spec_normalize_path(p@),
{
    let v = to_chars(p);
    let n = normalize_chars(&v);
    from_chars(&n)
}

/// The ignore patterns an ignore file declares: one normalized path per line,
/// blank lines and `#` comments skipped.
pub open spec fn ignore_rec(s: Seq<char>, i: int, acc: Seq<Seq<char>>) -> Seq<Seq<char>>
    decreases s.len() + 1 - i,
    when 0 <= i
{
    if i > s.len() {
        acc
    } else {
        let e = scan_to(s, i, '\n');
        let t = trim_spec(s.subrange(i, e));
        let acc2 = if t.len() > 0 && t[0] != '#' {
            acc.push(spec_normalize_path(t))
        } else {
            acc
        };
        if e >= s.len() {
            acc2
        } else {
            ignore_rec(s, if e < i { i + 1 } else { e + 1 }, acc2)
        }
    }
}

pub open spec fn spec_parse_ignore_patterns(s: Seq<char>) -> Seq<Seq<char>> {
    ignore_rec(s, 0, Seq::<Seq<char>>::empty())
}

pub fn parse_ignore_patterns(text: &str) -> (r: Vec<String>)
    ensures
        r.deep_view() == spec_parse_ignore_patterns(text@),
{
    let s = to_chars(text);
    let mut acc: Vec<String> = Vec::new();
    let mut i: usize = 0;
    proof {
        assert(acc.deep_view() =~~= Seq::<Seq<char>>::empty());
    }
    loop
        invariant
            i <= s.len(),
            s@ == text@,
            spec_parse_ignore_patterns(text@) == ignore_rec(s@, i as int, acc.deep_view()),
        decreases s.len() + 1 - i,
    {
        let e = scan_to_exec(&s, i, '\n');
        let line = sub_chars(&s, i, e);
        let t = trim_exec(&line);
        if t.len() > 0 && t[0] != '#' {
            let ghost prev = acc.deep_view();
            let n = normalize_chars(&t);
            let w = from_chars(&n);
            acc.push(w);
            proof {
                assert(acc.deep_view() =~~= prev.push(spec_normalize_path(trim_spec(s@.subrange(
                    i as int,
                    e as int,
                )))));
            }
        }
        if e >= s.len() {
            return acc;
        }
        i = e + 1;
    }
}

/// A path is ignored when its normal form equals a pattern, or a `/*` pattern's
/// stem is a prefix of it.
pub open spec fn spec_should_ignore(path: Seq<char>, pats: Seq<Seq<char>>) -> bool {
    let norm = spec_normalize_path(path);
    (exists|i: int| 0 <= i < pats.len() && #[trigger] pats[i] == norm) || (exists|i: int|
        0 <= i < pats.len() && "/*"@.is_suffix_of(#[trigger] pats[i]) && pats[i].take(
            pats[i].len() - 2,
        ).is_prefix_of(norm))
}

pub fn should_ignore(path: &str, ignored: &Vec<String>) -> (r: bool)
    ensures
        r == spec_should_ignore(path@, ignored.deep_view()),
{
    let norm = normalize_path_for_match(path);
    let normv = to_chars(norm.as_str());
    let ghost pats = ignored.deep_view();
    let mut i: usize = 0;
    while i < ignored.len()
        invariant
            i <= ignored.len(),
            pats == ignored.deep_view(),
            norm@ == spec_normalize_path(path@),
            normv@ == norm@,
            forall|m: int| 0 <= m < i ==> #[trigger] pats[m] != norm@,
        decreases ignored.len() - i,
    {
        if str_eq(ignored[i].as_str(), norm.as_str()) {
            proof {
                assert(pats[i as int] == norm@);
            }
            return true;
        }
        proof {
            assert(pats[i as int] == ignored@[i as int]@);
        }
        i = i + 1;
    }
    let mut k: usize = 0;
    while k < ignored.len()
        invariant
            k <= ignored.len(),
            pats == ignored.deep_view(),
            norm@ == spec_normalize_path(path@),
            normv@ == norm@,
            forall|m: int| 0 <= m < pats.len() ==> #[trigger] pats[m] != norm@,
            forall|m: int|
                0 <= m < k ==> !("/*"@.is_suffix_of(#[trigger] pats[m]) && pats[m].take(
                    pats[m].len() - 2,
                ).is_prefix_of(norm@)),
        decreases ignored.len() - k,
    {
        let pat = &ignored[k];
        proof {
            assert(pats[k as int] == ignored@[k as int]@);
        }
        if ends_with_str(pat.as_str(), "/*") {
            let pv = to_chars(pat.as_str());
            proof {
                reveal_strlit("/*");
            }
            let stem = sub_chars(&pv, 0, pv.len() - 2);
            if stem.len() <= normv.len() && chars_eq_at(&normv, &stem, 0) {
                proof {
                    assert(stem@ =~= pats[k as int].take(pats[k as int].len() - 2));
                    assert(normv@.subrange(0, stem@.len() as int) =~= normv@.take(
                        stem@.len() as int,
                    ));
                }
                return true;
            }
            proof {
                assert(stem@ =~= pats[k as int].take(pats[k as int].len() - 2));
                if stem@.len() <= normv@.len() {
                    assert(normv@.subrange(0, stem@.len() as int) =~= normv@.take(
                        stem@.len() as int,
                    ));
                }
            }
        }
        k = k + 1;
    }
    false
}

/// Layout flags of one archive entry name: whether it lies under a `.trex`
/// directory, and whether its file name is `d3d9.dll`.
pub open spec fn spec_entry_layout_flags(name: Seq<char>) -> (bool, bool) {
    let has_trex = contains_seq(name, ".trex/"@) || contains_seq(name, ".trex\\"@);
    let base_slash = name.skip(last_sep_end(name, '/'));
    let base_back = name.skip(last_sep_end(name, '\\'));
    (has_trex, base_slash == "d3d9.dll"@ || base_back == "d3d9.dll"@)
}

/// The index just past the last occurrence of `sep`, or zero.
pub open spec fn last_sep_end(s: Seq<char>, sep: char) -> int
    decreases s.len(),
{
    if s.len() == 0 {
        0
    } else if s.last() == sep {
        s.len() as int
    } else {
        last_sep_end(s.drop_last(), sep)
    }
}

fn rfind_sep_end(v: &Vec<char>, sep: char) -> (r: usize)
    ensures
        r == last_sep_end(v@, sep),
        r <= v.len(),
{
    let mut j: usize = v.len();
    proof {
        assert(v@.take(v@.len() as int) =~= v@);
    }
    while j > 0
        invariant
            j <= v.len(),
            last_sep_end(v@, sep) == last_sep_end(v@.take(j as int), sep),
        decreases j,
    {
        proof {
            assert(v@.take(j as int).last() == v@[j as int - 1]);
            assert(v@.take(j as int).drop_last() =~= v@.take(j as int - 1));
        }
        if v[j - 1] == sep {
            return j;
        }
        j = j - 1;
    }
    proof {
        assert(v@.take(0).len() == 0);
    }
    0
}

/// Inspect one archive entry name for the layout analysis: does it sit under
/// `.trex`, and is it a `d3d9.dll`?
pub fn entry_layout_flags(name: &str) -> (r: (bool, bool))
    ensures
        r == spec_entry_layout_flags(name@),
{
    let has_trex = contains_str(name, ".trex/") || contains_str(name, ".trex\\");
    let v = to_chars(name);
    let a = rfind_sep_end(&v, '/');
    let b = rfind_sep_end(&v, '\\');
    let base_a = sub_chars(&v, a, v.len());
    let base_b = sub_chars(&v, b, v.len());
    let sa = from_chars(&base_a);
    let sb = from_chars(&base_b);
    let is_d3d9 = str_eq(sa.as_str(), "d3d9.dll") || str_eq(sb.as_str(), "d3d9.dll");
    proof {
        assert(base_a@ =~= name@.skip(last_sep_end(name@, '/')));
        assert(base_b@ =~= name@.skip(last_sep_end(name@, '\\')));
    }
    (has_trex, is_d3d9)
}

} // verus!
