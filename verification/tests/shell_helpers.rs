//! Tests of the launcher-shell helpers: path layout, the browser-entry
//! syntax, configuration upgrading, URL vetting, auto-launch matching,
//! release-version comparison and the text utilities.

use browsewith::config::unix;
use browsewith::config::windows;
use browsewith::config::{
    auto_launch_browser, get_config_dir, get_config_file, get_resource_path,
    upgrade_configuration, BrowserSettings, ButtonProperties, CharsetList, CharsetPolicy,
    CharsetPolicyAction, Configuration, Settings, WindowProperties,
};
use browsewith::setup::{remove_from_string, required_dlls, DllInstallStatus};
use browsewith::text::{find_char, find_str, parse_u31, split_lines};
use browsewith::update::{is_newer_release, Platform, PlatformDownloadUrl, Releases};
use browsewith::webclient::{check_url, validate_url};

fn browser(title: &str, auto_launch: Option<Vec<String>>) -> BrowserSettings {
    BrowserSettings {
        title: title.to_string(),
        executable: format!("{}-bin", title),
        arguments: String::new(),
        icon: String::new(),
        auto_launch,
    }
}

fn configuration(charset_policy: Option<CharsetPolicy>) -> Configuration {
    Configuration {
        settings: Settings {
            homepage: "about:blank".to_string(),
            host_info: true,
            buttons: ButtonProperties {
                width: 100,
                height: 60,
                spacing: 5,
                per_row: 3,
                show_label: true,
                show_image: true,
                image_position: "top".to_string(),
            },
            window: WindowProperties { always_ontop: false, position: "center".to_string() },
            charset_policy,
        },
        browsers_list: vec![browser("one", None)],
    }
}

#[test]
fn unix_paths_admin_and_user() {
    assert_eq!(unix::get_executable_path(true, "/home/u"), "/usr/local/bin");
    assert_eq!(unix::get_executable_path(false, "/home/u"), "/home/u/.local/bin");
    assert_eq!(unix::get_executable_file(true, "/home/u"), "/usr/local/bin/browsewith");
    assert_eq!(unix::get_executable_file(false, "/home/u"), "/home/u/.local/bin/browsewith");
    assert_eq!(unix::get_icon_path(true, "/home/u"), "/usr/share/icons/hicolor/scalable/apps");
    assert_eq!(unix::get_icon_path(false, "/home/u"), "/home/u/.config/browsewith/icons");
    assert_eq!(
        unix::get_icon_file(false, "/home/u"),
        "/home/u/.config/browsewith/icons/browsewith.ico"
    );
    assert_eq!(unix::get_dotdesktop_path(true, "/home/u"), "/usr/share/applications");
    assert_eq!(
        unix::get_dotdesktop_file(false, "/home/u"),
        "/home/u/.local/share/applications/browsewith.desktop"
    );
    assert_eq!(unix::get_configuration_path("/home/u"), "/home/u/.config/browsewith");
    assert_eq!(
        unix::get_configuration_file("/home/u"),
        "/home/u/.config/browsewith/config.json"
    );
}

#[test]
fn windows_paths_admin_and_user() {
    let pf = Some("C:\\Program Files");
    assert_eq!(
        windows::get_programfiles_path(pf),
        "C:\\Program Files\\BrowseWith"
    );
    assert_eq!(windows::get_programfiles_path(None), "");
    assert_eq!(windows::get_configuration_path("C:\\Users\\u"), "C:\\Users\\u\\.browsewith");
    assert_eq!(
        windows::get_configuration_file("C:\\Users\\u"),
        "C:\\Users\\u\\.browsewith\\config.json"
    );
    assert_eq!(
        windows::get_executable_path(true, "C:\\Users\\u", pf),
        "C:\\Program Files\\BrowseWith"
    );
    assert_eq!(
        windows::get_executable_path(false, "C:\\Users\\u", pf),
        "C:\\Users\\u\\.browsewith\\bin"
    );
    assert_eq!(
        windows::get_executable_file(false, "C:\\Users\\u", pf),
        "C:\\Users\\u\\.browsewith\\bin\\browsewith.exe"
    );
    assert_eq!(
        windows::get_icon_path(true, "C:\\Users\\u", pf),
        "C:\\Program Files\\BrowseWith"
    );
    assert_eq!(
        windows::get_icon_file(false, "C:\\Users\\u", pf),
        "C:\\Users\\u\\.browsewith\\icons\\browsewith.ico"
    );
}

#[test]
fn config_root_paths() {
    assert_eq!(get_config_dir("/home/u"), "/home/u/.config/browsewith");
    assert_eq!(get_config_file("/home/u"), "/home/u/.config/browsewith/config.json");
    assert_eq!(
        get_resource_path("/home/u", "icons", "download.png"),
        "/home/u/.config/browsewith/icons/download.png"
    );
}

#[test]
fn file_and_index_syntax() {
    let (f, i) = windows::get_file_and_index(&"chrome.exe,7".to_string());
    assert_eq!(f, "chrome.exe");
    assert_eq!(i, 7);
    let (f, i) = windows::get_file_and_index(&"firefox.exe".to_string());
    assert_eq!(f, "firefox.exe");
    assert_eq!(i, 0);
    let (f, i) = windows::get_file_and_index(&"a.exe,12,9".to_string());
    assert_eq!(f, "a.exe");
    assert_eq!(i, 12);
    let (f, i) = windows::get_file_and_index(&"a.exe,x".to_string());
    assert_eq!(f, "a.exe");
    assert_eq!(i, 0);
    let (f, i) = windows::get_file_and_index(&"a.exe,99999999999999".to_string());
    assert_eq!(f, "a.exe");
    assert_eq!(i, 0);
    let (f, i) = windows::get_file_and_index(&"a.exe,".to_string());
    assert_eq!(f, "a.exe");
    assert_eq!(i, 0);
}

#[test]
fn upgrade_fills_missing_charset_policy() {
    let policy = CharsetPolicy {
        utf8: CharsetPolicyAction::Allow,
        utf16: CharsetPolicyAction::Warn,
        utf32: CharsetPolicyAction::Block,
    };
    let defaults = configuration(Some(policy));
    let (upgraded, changed) = upgrade_configuration(configuration(None), &defaults);
    assert!(changed);
    let got = upgraded.settings.charset_policy.expect("policy filled in");
    assert_eq!(got.utf16, CharsetPolicyAction::Warn);
    assert_eq!(got.utf32, CharsetPolicyAction::Block);

    let (same, changed) = upgrade_configuration(configuration(Some(policy)), &defaults);
    assert!(!changed);
    assert!(same.settings.charset_policy.is_some());
}

#[test]
fn auto_launch_picks_first_matching_browser() {
    let browsers = vec![
        browser("plain", None),
        browser("work", Some(vec!["^https://intranet\\.".to_string()])),
        browser("fallback", Some(vec![".*".to_string()])),
    ];
    let hit = auto_launch_browser("https://intranet.example/x".to_string(), browsers.clone());
    assert_eq!(hit.expect("a browser matches").title, "work");

    let hit = auto_launch_browser("https://other.example/".to_string(), browsers.clone());
    assert_eq!(hit.expect("the catch-all matches").title, "fallback");

    let none = auto_launch_browser("https://x/".to_string(), vec![browser("plain", None)]);
    assert!(none.is_none());
}

#[test]
fn auto_launch_skips_patterns_that_do_not_compile() {
    let browsers = vec![
        browser("broken", Some(vec!["(".to_string()])),
        browser("good", Some(vec!["example".to_string()])),
    ];
    let hit = auto_launch_browser("https://example.org/".to_string(), browsers);
    assert_eq!(hit.expect("the valid pattern matches").title, "good");
}

#[test]
fn url_validation_accepts_supported_schemes_only() {
    assert!(validate_url("http://example.org/"));
    assert!(validate_url("https://example.org/a?b=c"));
    assert!(validate_url("ftp://example.org/f"));
    assert!(validate_url("file:///tmp/x"));
    assert!(validate_url("HTTPS://EXAMPLE.ORG/")); // scheme comes back lower-cased
    assert!(!validate_url("mailto:user@example.org"));
    assert!(!validate_url("not a url"));
    assert!(!validate_url(""));
}

#[test]
fn charset_checks_go_by_last_character() {
    let block = CharsetPolicyAction::Block;
    let warn = CharsetPolicyAction::Warn;
    let allow = CharsetPolicyAction::Allow;
    assert_eq!(check_url("http://a/b", block, CharsetList::Utf16), allow);
    assert_eq!(check_url("http://a/\u{e9}", warn, CharsetList::Utf16), warn);
    assert_eq!(check_url("http://a/\u{e9}", warn, CharsetList::Utf32), allow);
    assert_eq!(check_url("http://a/\u{1f600}", block, CharsetList::Utf32), block);
    assert_eq!(check_url("", block, CharsetList::Utf16), allow);
}

#[test]
fn release_comparison() {
    assert!(is_newer_release("v1.0.0", "v1.2.0"));
    assert!(!is_newer_release("v1.2.0", "v1.0.0"));
    assert!(!is_newer_release("v1.2.0", "v1.2.0"));
    assert!(is_newer_release("0.9", "0.10"));

    let empty = Releases::initialize();
    assert!(!empty.is_newer);
    assert_eq!(empty.version, "");
    assert!(empty.download_urls.is_empty());
    assert_eq!(empty.html_url, "");
}

#[test]
fn dll_manifest_lines() {
    let dlls = required_dlls("one.dll\r\ntwo.dll\nthree.dll");
    assert_eq!(dlls, vec!["one.dll", "two.dll", "three.dll"]);
    let dlls = required_dlls("single.dll\n");
    assert_eq!(dlls, vec!["single.dll"]);
    let dlls = required_dlls("");
    assert!(dlls.is_empty());
    let status = DllInstallStatus::new();
    assert!(!status.installed);
    assert!(status.missing_list.is_empty());
}

#[test]
fn removing_an_entry_from_a_list_string() {
    let out = remove_from_string(
        "one.desktop;two.desktop;three.desktop;".to_string(),
        "two.desktop;".to_string(),
    );
    assert_eq!(out, "one.desktop;three.desktop;");
    let out = remove_from_string("a;b;".to_string(), "missing;".to_string());
    assert_eq!(out, "a;b;");
    let out = remove_from_string("aba".to_string(), "a".to_string());
    assert_eq!(out, "ba");
}

#[test]
fn text_search_and_number_parsing() {
    assert_eq!(find_char("abca", 'a', 0), Some(0));
    assert_eq!(find_char("abca", 'a', 1), Some(3));
    assert_eq!(find_char("abca", 'z', 0), None);
    assert_eq!(find_str("hello world", "o w"), Some(4));
    assert_eq!(find_str("hello", "xyz"), None);
    assert_eq!(find_str("hello", ""), Some(0));
    assert_eq!(parse_u31("0"), Some(0));
    assert_eq!(parse_u31("2147483647"), Some(2147483647));
    assert_eq!(parse_u31("2147483648"), None);
    assert_eq!(parse_u31(""), None);
    assert_eq!(parse_u31("12a"), None);
    assert_eq!(split_lines("a\nb\r\nc"), vec!["a", "b", "c"]);
    assert_eq!(split_lines("a\n\nb"), vec!["a", "", "b"]);
}

#[test]
fn platform_urls_pick_artifact_and_digest() {
    let release = Releases {
        is_newer: true,
        version: "v1.2.0".to_string(),
        download_urls: vec![
            PlatformDownloadUrl {
                platform: Platform::Windows,
                url: "https://host/r/browsewith-windows-x64.zip".to_string(),
            },
            PlatformDownloadUrl {
                platform: Platform::Linux,
                url: "https://host/r/browsewith-linux-x64.tar.gz".to_string(),
            },
            PlatformDownloadUrl {
                platform: Platform::Linux,
                url: "https://host/r/browsewith-linux-x64.tar.gz.sha256".to_string(),
            },
            PlatformDownloadUrl {
                platform: Platform::Bsd,
                url: "https://host/r/browsewith-freebsd-x64.tar.gz".to_string(),
            },
        ],
        html_url: "https://host/r".to_string(),
    };
    let linux = release.get_platform_urls("linux");
    assert_eq!(linux.file, "https://host/r/browsewith-linux-x64.tar.gz");
    assert_eq!(linux.hash, "https://host/r/browsewith-linux-x64.tar.gz.sha256");
    assert_eq!(linux.html, "https://host/r");
    // The BSD family matches by its shared name.
    let bsd = release.get_platform_urls("openbsd");
    assert_eq!(bsd.file, "https://host/r/browsewith-freebsd-x64.tar.gz");
    assert_eq!(bsd.hash, "");
    let other = release.get_platform_urls("plan9");
    assert_eq!(other.file, "");
    assert_eq!(other.hash, "");
}
