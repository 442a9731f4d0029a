//! Where the launcher's files live on a Unix system, as plain path strings:
//! system-wide locations for an administrator, per-user locations under the
//! given home directory otherwise.

use vstd::prelude::*;
use vstd::string::StringExecFns;

verus! {

/// The directory the executable is installed in.
pub fn get_executable_path(is_admin: bool, home: &str) -> (r: String)
    ensures
        is_admin ==> r@ == "/usr/local/bin"@,
        !is_admin ==> r@ == home@ + "/.local/bin"@,
{
    if is_admin {
        String::from_str("/usr/local/bin")
    } else {
        String::from_str(home).concat("/.local/bin")
    }
}

/// The installed executable.
pub fn get_executable_file(is_admin: bool, home: &str) -> (r: String)
    ensures
        is_admin ==> r@ == "/usr/local/bin"@ + "/browsewith"@,
        !is_admin ==> r@ == home@ + "/.local/bin"@ + "/browsewith"@,
{
    get_executable_path(is_admin, home).concat("/browsewith")
}

/// The directory the application icon is installed in.
pub fn get_icon_path(is_admin: bool, home: &str) -> (r: String)
    ensures
        is_admin ==> r@ == "/usr/share/icons/hicolor/scalable/apps"@,
        !is_admin ==> r@ == home@ + "/.config/browsewith"@ + "/icons"@,
{
    if is_admin {
        String::from_str("/usr/share/icons/hicolor/scalable/apps")
    } else {
        get_configuration_path(home).concat("/icons")
    }
}

/// The installed application icon.
pub fn get_icon_file(is_admin: bool, home: &str) -> (r: String)
    ensures
        is_admin ==> r@ == "/usr/share/icons/hicolor/scalable/apps"@ + "/browsewith.ico"@,
        !is_admin ==> r@ == home@ + "/.config/browsewith"@ + "/icons"@ + "/browsewith.ico"@,
{
    get_icon_path(is_admin, home).concat("/browsewith.ico")
}

/// The directory the desktop entry is installed in.
pub fn get_dotdesktop_path(is_admin: bool, home: &str) -> (r: String)
    ensures
        is_admin ==> r@ == "/usr/share/applications"@,
        !is_admin ==> r@ == home@ + "/.local/share/applications"@,
{
    if is_admin {
        String::from_str("/usr/share/applications")
    } else {
        String::from_str(home).concat("/.local/share/applications")
    }
}

/// The installed desktop entry.
pub fn get_dotdesktop_file(is_admin: bool, home: &str) -> (r: String)
    ensures
        is_admin ==> r@ == "/usr/share/applications"@ + "/browsewith.desktop"@,
        !is_admin ==> r@ == home@ + "/.local/share/applications"@ + "/browsewith.desktop"@,
{
    get_dotdesktop_path(is_admin, home).concat("/browsewith.desktop")
}

/// The per-user configuration directory.
pub fn get_configuration_path(home: &str) -> (r: String)
    ensures
        r@ == home@ + "/.config/browsewith"@,
{
    String::from_str(home).concat("/.config/browsewith")
}

/// The per-user configuration file.
pub fn get_configuration_file(home: &str) -> (r: String)
    ensures
        r@ == home@ + "/.config/browsewith"@ + "/config.json"@,
{
    get_configuration_path(home).concat("/config.json")
}

} // verus!
