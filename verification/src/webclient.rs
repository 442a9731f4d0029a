//! Vetting of URLs before a browser is launched with them: whether the
//! string is an absolute URL of a supported scheme, and what charset class
//! its characters fall in under a configured policy.

use vstd::prelude::*;
use vstd::string::{StrSliceExecFns, StringExecFns};

use crate::config::{CharsetList, CharsetPolicyAction};

verus! {

/// Whether the string parses as an absolute URL. This and `url_scheme_of`
/// depend on the string alone.
pub uninterp spec fn url_parses(s: Seq<char>) -> bool;

/// The scheme of the parsed URL, as the parser normalizes it.
pub uninterp spec fn url_scheme_of(s: Seq<char>) -> Seq<char>;

/// Relies on url::Url::parse and url::Url::scheme: whether the string
/// parses as an absolute URL and, if so, its scheme; the parser hands the
/// scheme back already lower-cased, and both are functions of the string
/// alone.
#[verifier::external_body]
fn parse_scheme(s: &str) -> (r: Option<String>)
    ensures
        r is Some <==> url_parses(s@),
        r matches Some(sch) ==> sch@ == url_scheme_of(s@),
{
    match url::Url::parse(s) {
        Ok(u) => Some(u.scheme().to_owned()),
        Err(_) => None,
    }
}

/// Whether a scheme is one the launcher hands to a browser.
pub open spec fn spec_supported_scheme(sch: Seq<char>) -> bool {
    ||| sch == "http"@
    ||| sch == "https"@
    ||| sch == "ftp"@
    ||| sch == "file"@
}

/// Whether a request is a URL the launcher accepts.
pub open spec fn spec_validate_url(s: Seq<char>) -> bool {
    url_parses(s) && spec_supported_scheme(url_scheme_of(s))
}

/// Accepts a request exactly when it parses as an absolute URL whose scheme
/// is `http`, `https`, `ftp` or `file`.
pub fn validate_url(request_url: &str) -> (r: bool)
    ensures
        r == spec_validate_url(request_url@),
{
    match parse_scheme(request_url) {
        None => false,
        Some(scheme) => {
            let http = String::from_str("http");
            let https = String::from_str("https");
            let ftp = String::from_str("ftp");
            let file = String::from_str("file");
            scheme == http || scheme == https || scheme == ftp || scheme == file
        },
    }
}

/// The number of bytes the last character of a URL needs in UTF-8: 1 for
/// ASCII, 2 through 4 beyond it.
pub open spec fn spec_last_char_utf8_len(url: Seq<char>) -> int
    recommends
        url.len() > 0,
{
    let c = url.last() as u32;
    if c < 0x80 {
        1
    } else if c < 0x800 {
        2
    } else if c < 0x1_0000 {
        3
    } else {
        4
    }
}

/// The charset class a URL's last character reveals: plain for one UTF-8
/// byte, a two-byte class for two, a wider class beyond that; an empty URL
/// reveals nothing.
pub open spec fn spec_detected_charset(url: Seq<char>) -> CharsetList {
    if url.len() == 0 {
        CharsetList::Unknown
    } else if spec_last_char_utf8_len(url) == 1 {
        CharsetList::Unknown
    } else if spec_last_char_utf8_len(url) == 2 {
        CharsetList::Utf16
    } else {
        CharsetList::Utf32
    }
}

/// The policy's verdict on a URL: the configured action when the detected
/// charset class is the one asked about, and `Allow` otherwise.
pub open spec fn spec_check_url(
    url: Seq<char>,
    action: CharsetPolicyAction,
    charset: CharsetList,
) -> CharsetPolicyAction {
    if spec_detected_charset(url) == charset {
        action
    } else {
        CharsetPolicyAction::Allow
    }
}

/// Applies one line of a charset policy to a URL, as `spec_check_url`
/// describes.
pub fn check_url(url: &str, action: CharsetPolicyAction, charset: CharsetList) -> (r:
    CharsetPolicyAction)
    ensures
        r == spec_check_url(url@, action, charset),
{
    let n = url.unicode_len();
    let mut detected = CharsetList::Unknown;
    if n > 0 {
        let c = url.get_char(n - 1) as u32;
        if c < 0x80 {
        } else if c < 0x800 {
            detected = CharsetList::Utf16;
        } else {
            detected = CharsetList::Utf32;
        }
    }
    proof {
        assert(detected == spec_detected_charset(url@));
    }
    if detected == charset {
        action
    } else {
        CharsetPolicyAction::Allow
    }
}

} // verus!
