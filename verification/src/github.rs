//! Plain data for GitHub releases: what the release-fetching layer hands the
//! selection logic.

use vstd::prelude::*;

verus! {

/// One downloadable file attached to a release.
#[derive(Debug, Clone, Default)]
pub struct GitHubAsset {
    pub name: String,
    pub browser_download_url: Option<String>,
    pub size: Option<u64>,
}

/// One release with its assets.
#[derive(Debug, Clone, Default)]
pub struct GitHubRelease {
    pub name: Option<String>,
    pub tag_name: Option<String>,
    pub published_at: Option<String>,
    pub assets: Vec<GitHubAsset>,
}

/// The rate-limit header values of the last API response.
#[derive(Debug, Clone, Default)]
pub struct GitHubRateLimit {
    pub limit: i32,
    pub remaining: i32,
    pub reset_unix: i64,
}

} // verus!
