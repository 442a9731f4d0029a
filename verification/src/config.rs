//! Configuration data for the launcher: the settings and browser-entry
//! types, the layout rules for the configuration files, and the decision
//! which browser a URL is auto-launched with. Reading and writing the files
//! themselves, and discovering the home directory, stay with the caller,
//! which hands the paths' starting points in as plain strings.

pub mod unix;
pub mod windows;

use vstd::prelude::*;
use vstd::string::StringExecFns;

verus! {

/// What to do with a URL whose characters fall in a given charset class.
#[derive(Clone, Copy, Debug, PartialEq, Eq, Structural)]
pub enum CharsetPolicyAction {
    Allow,
    Warn,
    Block,
}

/// The charset class detected in a URL.
#[derive(Debug, PartialEq, Eq, Structural)]
pub enum CharsetList {
    Unknown,
    Utf16,
    Utf32,
}

/// How the launcher's buttons are laid out.
pub struct ButtonProperties {
    pub width: i32,
    pub height: i32,
    pub spacing: i32,
    pub per_row: i32,
    pub show_label: bool,
    pub show_image: bool,
    pub image_position: String,
}

/// How the launcher's window behaves.
pub struct WindowProperties {
    pub always_ontop: bool,
    pub position: String,
}

/// The per-charset actions for vetting URLs.
#[derive(Clone, Copy)]
pub struct CharsetPolicy {
    pub utf8: CharsetPolicyAction,
    pub utf16: CharsetPolicyAction,
    pub utf32: CharsetPolicyAction,
}

/// The launcher's settings block.
pub struct Settings {
    pub homepage: String,
    pub host_info: bool,
    pub buttons: ButtonProperties,
    pub window: WindowProperties,
    pub charset_policy: Option<CharsetPolicy>,
}

/// One configured browser: a title, how to start it, and the URL patterns
/// it is auto-launched for.
#[derive(Clone, Debug)]
pub struct BrowserSettings {
    pub title: String,
    pub executable: String,
    pub arguments: String,
    pub icon: String,
    pub auto_launch: Option<Vec<String>>,
}

/// The whole configuration: settings plus the browser list.
pub struct Configuration {
    pub settings: Settings,
    pub browsers_list: Vec<BrowserSettings>,
}

/// The configuration directory under a home directory.
pub fn get_config_dir(home: &str) -> (r: String)
    ensures
        r@ == home@ + "/.config/browsewith"@,
{
    String::from_str(home).concat("/.config/browsewith")
}

/// The configuration file under a home directory.
pub fn get_config_file(home: &str) -> (r: String)
    ensures
        r@ == home@ + "/.config/browsewith"@ + "/config.json"@,
{
    get_config_dir(home).concat("/config.json")
}

/// A resource file under the configuration directory.
pub fn get_resource_path(home: &str, dir: &str, file: &str) -> (r: String)
    ensures
        r@ == home@ + "/.config/browsewith"@ + "/"@ + dir@ + "/"@ + file@,
{
    get_config_dir(home).concat("/").concat(dir).concat("/").concat(file)
}

/// Fills the one settings field older configuration files lack: a missing
/// charset policy is taken from the defaults. The flag says whether
/// anything changed, so the caller knows to save the upgraded file.
pub fn upgrade_configuration(data: Configuration, defaults: &Configuration) -> (r: (
    Configuration,
    bool,
))
    ensures
        spec_has_charset_policy(&data) ==> r.0 == data && !r.1,
        !spec_has_charset_policy(&data) ==> ({
            &&& r.1
            &&& r.0.settings.charset_policy == defaults.settings.charset_policy
            &&& r.0.settings.homepage == data.settings.homepage
            &&& r.0.settings.host_info == data.settings.host_info
            &&& r.0.settings.buttons == data.settings.buttons
            &&& r.0.settings.window == data.settings.window
            &&& r.0.browsers_list == data.browsers_list
        }),
{
    let mut data = data;
    match data.settings.charset_policy {
        Some(_) => (data, false),
        None => {
            data.settings.charset_policy = defaults.settings.charset_policy;
            (data, true)
        },
    }
}

/// Whether a configuration already carries a charset policy.
pub open spec fn spec_has_charset_policy(c: &Configuration) -> bool {
    c.settings.charset_policy is Some
}

/// Whether the pattern, compiled as a regular expression, compiles at all.
/// Both this and `regex_matches` depend on the strings alone.
pub uninterp spec fn regex_compiles(pattern: Seq<char>) -> bool;

/// Whether the pattern, compiled as a regular expression, matches the text.
pub uninterp spec fn regex_matches(pattern: Seq<char>, text: Seq<char>) -> bool;

/// Relies on regex::Regex::new and regex::Regex::is_match: whether the
/// pattern compiles, and whether it matches the text; both results are
/// functions of the two strings alone.
#[verifier::external_body]
fn regex_is_match(pattern: &str, text: &str) -> (r: Option<bool>)
    ensures
        r is Some <==> regex_compiles(pattern@),
        r matches Some(m) ==> m == regex_matches(pattern@, text@),
{
    match regex::Regex::new(pattern) {
        Ok(re) => Some(re.is_match(text)),
        Err(_) => None,
    }
}

/// Whether one browser's auto-launch list holds a pattern that compiles and
/// matches the URL.
pub open spec fn spec_browser_matches(b: BrowserSettings, url: Seq<char>) -> bool {
    &&& b.auto_launch is Some
    &&& exists|k: int|
        0 <= k < b.auto_launch->0@.len() && regex_compiles(#[trigger] b.auto_launch->0@[k]@)
            && regex_matches(b.auto_launch->0@[k]@, url)
}

/// The first browser from index `i` on whose auto-launch list matches the
/// URL.
pub open spec fn spec_auto_launch_from(
    browsers: Seq<BrowserSettings>,
    url: Seq<char>,
    i: int,
) -> Option<BrowserSettings>
    decreases browsers.len() - i,
{
    if i < 0 || i >= browsers.len() {
        None
    } else if spec_browser_matches(browsers[i], url) {
        Some(browsers[i])
    } else {
        spec_auto_launch_from(browsers, url, i + 1)
    }
}

/// Picks the first configured browser one of whose auto-launch patterns
/// matches the URL, or nothing. A pattern that does not compile as a
/// regular expression matches nothing and is skipped.
pub fn auto_launch_browser(url: String, mut browser_settings: Vec<BrowserSettings>) -> (r: Option<
    BrowserSettings,
>)
    ensures
        r == spec_auto_launch_from(browser_settings@, url@, 0),
{
    let ghost bs = browser_settings@;
    let n = browser_settings.len();
    let mut found_idx: Option<usize> = None;
    let mut i: usize = 0;
    while i < n && found_idx.is_none()
        invariant
            i <= n,
            n == bs.len(),
            bs == browser_settings@,
            found_idx matches Some(j) ==> 0 <= j < n && spec_auto_launch_from(bs, url@, 0)
                == Some(bs[j as int]),
            found_idx is None ==> spec_auto_launch_from(bs, url@, 0) == spec_auto_launch_from(
                bs,
                url@,
                i as int,
            ),
        decreases n - i,
    {
        let browser = &browser_settings[i];
        let mut found = false;
        match &browser.auto_launch {
            Some(patterns) => {
                let m = patterns.len();
                let mut k: usize = 0;
                while k < m && !found
                    invariant
                        k <= m,
                        i < bs.len(),
                        bs == browser_settings@,
                        m == patterns@.len(),
                        patterns == bs[i as int].auto_launch->0,
                        bs[i as int].auto_launch is Some,
                        found ==> spec_browser_matches(bs[i as int], url@),
                        !found ==> forall|j: int|
                            0 <= j < k ==> !(regex_compiles(#[trigger] patterns@[j]@)
                                && regex_matches(patterns@[j]@, url@)),
                    decreases m - k,
                {
                    match regex_is_match(patterns[k].as_str(), url.as_str()) {
                        Some(true) => {
                            found = true;
                        },
                        _ => {},
                    }
                    k = k + 1;
                }
            },
            None => {},
        }
        if found {
            proof {
                assert(spec_browser_matches(bs[i as int], url@));
                assert(spec_auto_launch_from(bs, url@, i as int) == Some(bs[i as int]));
            }
            found_idx = Some(i);
        } else {
            proof {
                assert(!spec_browser_matches(bs[i as int], url@));
            }
        }
        i = i + 1;
    }
    match found_idx {
        Some(j) => {
            let chosen = browser_settings.remove(j);
            Some(chosen)
        },
        None => None,
    }
}

} // verus!
