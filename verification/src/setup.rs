//! Pure pieces of the installer: the list of libraries an installation
//! needs, read from the bundled manifest text, the bookkeeping record for
//! their presence, and the removal of one entry from a separated list
//! string. Probing the filesystem and copying files stay with the caller.

use vstd::prelude::*;
use vstd::string::{StrSliceExecFns, StringExecFns};

use crate::text::{find_str, spec_find_str, spec_lines_from, split_lines, strs_view};

verus! {

/// Whether the needed libraries are all present, and which are missing.
pub struct DllInstallStatus {
    pub installed: bool,
    pub missing_list: Vec<String>,
}

impl DllInstallStatus {
    pub fn new() -> (r: DllInstallStatus)
        ensures
            !r.installed,
            r.missing_list@.len() == 0,
    {
        DllInstallStatus { installed: false, missing_list: Vec::new() }
    }
}

/// Reads the bundled manifest text into the list of library file names it
/// holds, one per line.
pub fn required_dlls(manifest_text: &str) -> (r: Vec<String>)
    ensures
        strs_view(r@) == spec_lines_from(manifest_text@, 0),
{
    split_lines(manifest_text)
}

/// What removing the first occurrence of `remove` from `string` leaves:
/// the string unchanged when it does not occur.
pub open spec fn spec_remove_from_string(string: Seq<char>, remove: Seq<char>) -> Seq<char> {
    match spec_find_str(string, remove, 0) {
        None => string,
        Some(i) => string.subrange(0, i) + string.subrange(
            i + remove.len(),
            string.len() as int,
        ),
    }
}

/// Removes the first occurrence of `remove` from `string`; a string that
/// does not contain it comes back unchanged.
pub fn remove_from_string(string: String, remove: String) -> (r: String)
    ensures
        r@ == spec_remove_from_string(string@, remove@),
{
    let s = string.as_str();
    let pat = remove.as_str();
    match find_str(s, pat) {
        None => string,
        Some(i) => {
            proof {
                crate::text::lemma_find_str_some(s@, pat@, 0);
            }
            let n = s.unicode_len();
            let m = pat.unicode_len();
            let prefix = String::from_str(s.substring_char(0, i));
            let suffix = s.substring_char(i + m, n);
            prefix.concat(suffix)
        },
    }
}

} // verus!
