//! Release bookkeeping for the update check: the record a downloaded
//! release listing boils down to, and the version comparison that decides
//! whether a listed release is newer than the running program. Fetching the
//! listing and reading or writing the check file stay with the caller.

use vstd::prelude::*;
use vstd::string::StringExecFns;

verus! {

/// Which platform a downloadable artifact is built for.
#[derive(Clone, Debug)]
pub enum Platform {
    Windows,
    Linux,
    Bsd,
}

/// One downloadable artifact of a release.
#[derive(Clone, Debug)]
pub struct PlatformDownloadUrl {
    pub platform: Platform,
    pub url: String,
}

/// The addresses one platform needs from a release: its page, its artifact
/// and the artifact's digest file.
#[derive(Clone, Debug)]
pub struct ReleaseDownloadUrls {
    pub html: String,
    pub file: String,
    pub hash: String,
}

/// What the launcher keeps of a release listing: whether it is newer than
/// the running program, its version tag, its artifacts and its page.
#[derive(Clone, Debug)]
pub struct Releases {
    pub is_newer: bool,
    pub version: String,
    pub download_urls: Vec<PlatformDownloadUrl>,
    pub html_url: String,
}

impl Releases {
    /// The empty record: no version seen, nothing newer.
    pub fn initialize() -> (r: Releases)
        ensures
            !r.is_newer,
            r.version@.len() == 0,
            r.download_urls@.len() == 0,
            r.html_url@.len() == 0,
    {
        Releases {
            is_newer: false,
            version: String::new(),
            download_urls: Vec::new(),
            html_url: String::new(),
        }
    }
}

/// Whether the string parses as a version number. This and `version_lt`
/// depend on the strings alone.
pub uninterp spec fn version_parses(s: Seq<char>) -> bool;

/// Whether the first version orders strictly below the second.
pub uninterp spec fn version_lt(a: Seq<char>, b: Seq<char>) -> bool;

/// Relies on version_compare::Version::from and Version::compare: whether
/// both strings parse as version numbers and, if so, whether the first
/// orders strictly below the second; both are functions of the two strings
/// alone.
#[verifier::external_body]
fn version_is_older(a: &str, b: &str) -> (r: Option<bool>)
    ensures
        r is Some <==> (version_parses(a@) && version_parses(b@)),
        r matches Some(lt) ==> lt == version_lt(a@, b@),
{
    match (version_compare::Version::from(a), version_compare::Version::from(b)) {
        (Some(va), Some(vb)) => Some(matches!(va.compare(vb), version_compare::Cmp::Lt)),
        _ => None,
    }
}

/// Whether a listed release is newer than the running program: both version
/// tags parse and the running one orders strictly below the listed one.
pub open spec fn spec_is_newer_release(current: Seq<char>, latest: Seq<char>) -> bool {
    version_parses(current) && version_parses(latest) && version_lt(current, latest)
}

/// Decides whether the listed release is newer than the running program, as
/// `spec_is_newer_release` describes. A tag that does not parse as a
/// version number is never newer.
pub fn is_newer_release(current: &str, latest: &str) -> (r: bool)
    ensures
        r == spec_is_newer_release(current@, latest@),
{
    match version_is_older(current, latest) {
        Some(lt) => lt,
        None => false,
    }
}

} // verus!

verus! {

/// Whether an artifact address belongs to the given platform: it names the
/// platform, or both it and the platform name the BSD family.
pub open spec fn spec_url_matches_os(url: Seq<char>, os: Seq<char>) -> bool {
    crate::text::spec_contains(url, os) || (crate::text::spec_contains(os, "bsd"@)
        && crate::text::spec_contains(url, "bsd"@))
}

/// The artifact and digest addresses the scan of `urls` from index `i` on
/// ends with, starting from the pair already picked: among matching
/// addresses, digest files (named `.sha256`) fill the digest slot and the
/// rest the artifact slot, later matches replacing earlier ones.
pub open spec fn spec_platform_urls(
    urls: Seq<PlatformDownloadUrl>,
    os: Seq<char>,
    i: int,
    file: Seq<char>,
    hash: Seq<char>,
) -> (Seq<char>, Seq<char>)
    decreases urls.len() - i,
{
    if i < 0 || i >= urls.len() {
        (file, hash)
    } else {
        let u = urls[i].url@;
        if spec_url_matches_os(u, os) {
            if crate::text::spec_contains(u, ".sha256"@) {
                spec_platform_urls(urls, os, i + 1, file, u)
            } else {
                spec_platform_urls(urls, os, i + 1, u, hash)
            }
        } else {
            spec_platform_urls(urls, os, i + 1, file, hash)
        }
    }
}

impl Releases {
    /// Picks this release's artifact and digest addresses for the platform
    /// named `os`, as `spec_platform_urls` describes, together with the
    /// release page.
    pub fn get_platform_urls(&self, os: &str) -> (r: ReleaseDownloadUrls)
        ensures
            ({
                let p = spec_platform_urls(
                    self.download_urls@,
                    os@,
                    0,
                    Seq::<char>::empty(),
                    Seq::<char>::empty(),
                );
                &&& r.file@ == p.0
                &&& r.hash@ == p.1
                &&& r.html@ == self.html_url@
            }),
    {
        let ghost urls = self.download_urls@;
        let mut file = String::new();
        let mut hash = String::new();
        let n = self.download_urls.len();
        let mut i: usize = 0;
        while i < n
            invariant
                i <= n,
                n == urls.len(),
                urls == self.download_urls@,
                spec_platform_urls(urls, os@, 0, Seq::<char>::empty(), Seq::<char>::empty())
                    == spec_platform_urls(urls, os@, i as int, file@, hash@),
            decreases n - i,
        {
            let u = self.download_urls[i].url.as_str();
            if crate::text::contains_str(u, os) || (crate::text::contains_str(os, "bsd")
                && crate::text::contains_str(u, "bsd")) {
                if crate::text::contains_str(u, ".sha256") {
                    hash = String::from_str(u);
                } else {
                    file = String::from_str(u);
                }
            }
            i = i + 1;
        }
        ReleaseDownloadUrls { html: self.html_url.clone(), file, hash }
    }
}

} // verus!
