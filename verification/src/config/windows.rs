//! Where the launcher's files live on a Windows system, as plain path
//! strings, and the reading of the `path.exe,7` executable-with-icon-index
//! syntax browser entries use. The `ProgramFiles` environment variable's
//! value, like the home directory, is handed in by the caller.

use vstd::prelude::*;
use vstd::string::{StrSliceExecFns, StringExecFns};

use crate::text::{
    find_char, parse_u31, spec_digits_value, spec_find_char, spec_is_digits,
};

verus! {

/// The installation directory under the program-files directory, or the
/// empty string when the caller found no program-files variable.
pub fn get_programfiles_path(program_files: Option<&str>) -> (r: String)
    ensures
        program_files matches Some(pf) ==> r@ == pf@ + "\\BrowseWith"@,
        program_files is None ==> r@.len() == 0,
{
    match program_files {
        Some(pf) => String::from_str(pf).concat("\\BrowseWith"),
        None => String::new(),
    }
}

/// The per-user configuration directory.
pub fn get_configuration_path(home: &str) -> (r: String)
    ensures
        r@ == home@ + "\\.browsewith"@,
{
    String::from_str(home).concat("\\.browsewith")
}

/// The per-user configuration file.
pub fn get_configuration_file(home: &str) -> (r: String)
    ensures
        r@ == home@ + "\\.browsewith"@ + "\\config.json"@,
{
    get_configuration_path(home).concat("\\config.json")
}

/// The directory the executable is installed in.
pub fn get_executable_path(is_admin: bool, home: &str, program_files: Option<&str>) -> (r: String)
    ensures
        is_admin ==> (program_files matches Some(pf) ==> r@ == pf@ + "\\BrowseWith"@),
        is_admin && program_files is None ==> r@.len() == 0,
        !is_admin ==> r@ == home@ + "\\.browsewith"@ + "\\bin"@,
{
    if is_admin {
        get_programfiles_path(program_files)
    } else {
        get_configuration_path(home).concat("\\bin")
    }
}

/// The installed executable.
pub fn get_executable_file(is_admin: bool, home: &str, program_files: Option<&str>) -> (r: String)
    ensures
        is_admin ==> (program_files matches Some(pf) ==> r@ == pf@ + "\\BrowseWith"@
            + "\\browsewith.exe"@),
        is_admin && program_files is None ==> r@ == "\\browsewith.exe"@,
        !is_admin ==> r@ == home@ + "\\.browsewith"@ + "\\bin"@ + "\\browsewith.exe"@,
{
    let r = get_executable_path(is_admin, home, program_files).concat("\\browsewith.exe");
    proof {
        if is_admin && program_files is None {
            assert(Seq::<char>::empty() + "\\browsewith.exe"@ =~= "\\browsewith.exe"@);
        }
    }
    r
}

/// The directory the application icon is installed in.
pub fn get_icon_path(is_admin: bool, home: &str, program_files: Option<&str>) -> (r: String)
    ensures
        is_admin ==> r@ == spec_executable_path(is_admin, home@, program_files),
        !is_admin ==> r@ == home@ + "\\.browsewith"@ + "\\icons"@,
{
    if is_admin {
        get_executable_path(is_admin, home, program_files)
    } else {
        get_configuration_path(home).concat("\\icons")
    }
}

/// What `get_executable_path` yields, at the specification level.
pub open spec fn spec_executable_path(
    is_admin: bool,
    home: Seq<char>,
    program_files: Option<&str>,
) -> Seq<char> {
    if is_admin {
        match program_files {
            Some(pf) => pf@ + "\\BrowseWith"@,
            None => Seq::empty(),
        }
    } else {
        home + "\\.browsewith"@ + "\\bin"@
    }
}

/// The installed application icon.
pub fn get_icon_file(is_admin: bool, home: &str, program_files: Option<&str>) -> (r: String)
    ensures
        is_admin ==> r@ == spec_executable_path(is_admin, home@, program_files)
            + "\\browsewith.ico"@,
        !is_admin ==> r@ == home@ + "\\.browsewith"@ + "\\icons"@ + "\\browsewith.ico"@,
{
    get_icon_path(is_admin, home, program_files).concat("\\browsewith.ico")
}

/// The executable part of a `path.exe,7` browser entry: everything before
/// the first comma, the whole string when it has none.
pub open spec fn spec_file_of_entry(s: Seq<char>) -> Seq<char> {
    match spec_find_char(s, ',', 0) {
        None => s,
        Some(c) => s.subrange(0, c),
    }
}

/// The icon index of a `path.exe,7` browser entry: the number spelled
/// between the first comma and the next one (or the end). An entry without
/// a comma, and one whose index part is not a number that fits, read as
/// index 0.
pub open spec fn spec_index_of_entry(s: Seq<char>) -> int {
    match spec_find_char(s, ',', 0) {
        None => 0,
        Some(c) => {
            let seg = s.subrange(
                c + 1,
                match spec_find_char(s, ',', c + 1) {
                    None => s.len() as int,
                    Some(c2) => c2,
                },
            );
            if spec_is_digits(seg) && spec_digits_value(seg) <= i32::MAX {
                spec_digits_value(seg)
            } else {
                0
            }
        },
    }
}

/// Splits a browser entry of the form `path.exe,7` into the executable
/// path and the icon index.
pub fn get_file_and_index(file_path: &String) -> (r: (String, i32))
    ensures
        r.0@ == spec_file_of_entry(file_path@),
        r.1 == spec_index_of_entry(file_path@),
{
    let s = file_path.as_str();
    let n = s.unicode_len();
    match find_char(s, ',', 0) {
        None => (String::from_str(s), 0),
        Some(c) => {
            let source = String::from_str(s.substring_char(0, c));
            let seg_end = match find_char(s, ',', c + 1) {
                None => n,
                Some(c2) => c2,
            };
            let seg = s.substring_char(c + 1, seg_end);
            let icon_index = match parse_u31(seg) {
                Some(v) => v,
                None => 0,
            };
            (source, icon_index)
        },
    }
}

} // verus!
