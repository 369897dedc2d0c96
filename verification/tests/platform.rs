use claude_usage::config::{config_path, Config};
use claude_usage::cookies::chrome::{is_profile_dir, profile_cookie_paths};
use claude_usage::cookies::firefox::{choose_db, cookie_db_path, profiles_dir};
use claude_usage::cookies::platform::{first_present, join_path, linux, macos, retain_present, windows, Platform};
use claude_usage::cookies::{newest_path, read_plan, BrowserKind, CookieError, ReadPlan};
use claude_usage::oauth::credentials_path;

#[test]
fn paths_join_with_one_separator() {
    assert_eq!(join_path("/home/u", "x", false), "/home/u/x");
    assert_eq!(join_path("/home/u/", "x", false), "/home/u/x");
    assert_eq!(join_path("", "x", false), "x");
    assert_eq!(join_path("C:\\Users", "a/b", true), "C:\\Users\\a/b");
    assert_eq!(join_path("C:\\Users\\", "a", true), "C:\\Users\\a");
    assert_eq!(join_path("C:/Users/", "a", true), "C:/Users/a");
}

#[test]
fn linux_default_dirs() {
    assert_eq!(linux::firefox_default_dir(Some("/home/u")).unwrap(), "/home/u/.mozilla/firefox");
    assert_eq!(linux::firefox_default_dir(None), None);
    let chrome = linux::chrome_default_dirs(Some("/home/u"));
    assert_eq!(chrome.len(), 5);
    assert_eq!(chrome[0], "/home/u/.config/google-chrome");
    assert_eq!(chrome[4], "/home/u/.var/app/org.chromium.Chromium/config/chromium");
    let brave = linux::brave_default_dirs(Some("/home/u"));
    assert_eq!(brave[1], "/home/u/snap/brave/current/.config/BraveSoftware/Brave-Browser");
    assert!(linux::brave_default_dirs(None).is_empty());
    assert_eq!(linux::edge_default_dirs(Some("/h"))[0], "/h/.config/microsoft-edge");
    assert_eq!(linux::config_dir(Some("/xdg"), Some("/home/u")).unwrap(), "/xdg");
    assert_eq!(linux::config_dir(None, Some("/home/u")).unwrap(), "/home/u/.config");
    assert_eq!(linux::config_dir(None, None), None);
}

#[test]
fn macos_and_windows_default_dirs() {
    assert_eq!(
        macos::firefox_default_dir(Some("/Users/u")).unwrap(),
        "/Users/u/Library/Application Support/Firefox/Profiles"
    );
    assert_eq!(macos::chrome_default_dirs(Some("/Users/u"))[0], "/Users/u/Library/Application Support/Google/Chrome");
    assert_eq!(macos::config_dir(Some("/Users/u")).unwrap(), "/Users/u/Library/Application Support");
    assert_eq!(windows::firefox_default_dir(Some("C:\\AppData")).unwrap(), "C:\\AppData\\Mozilla/Firefox/Profiles");
    assert_eq!(windows::chrome_default_dirs(Some("C:\\Local"))[0], "C:\\Local\\Google/Chrome/User Data");
    assert_eq!(windows::brave_default_dirs(Some("C:\\Local"))[0], "C:\\Local\\BraveSoftware/Brave-Browser/User Data");
    assert_eq!(windows::config_dir(Some("C:\\AppData")).unwrap(), "C:\\AppData");
}

#[test]
fn present_paths_are_kept_in_order() {
    let paths = vec!["a".to_string(), "b".to_string(), "c".to_string()];
    assert_eq!(retain_present(&paths, &[true, false, true]), vec!["a".to_string(), "c".to_string()]);
    assert_eq!(first_present(&paths, &[false, true, true]), Some("b".to_string()));
    assert_eq!(first_present(&paths, &[false, false, false]), None);
}

#[test]
fn newest_database_wins_and_ties_go_to_the_last() {
    let c = vec![("a".to_string(), 5i128), ("b".to_string(), 9), ("c".to_string(), 9), ("d".to_string(), 1)];
    assert_eq!(newest_path(&c), Some("c".to_string()));
    assert_eq!(newest_path(&vec![]), None);
}

#[test]
fn profile_directories() {
    assert!(is_profile_dir("Default"));
    assert!(is_profile_dir("Profile 1"));
    assert!(!is_profile_dir("Profile"));
    assert!(!is_profile_dir("System Profile"));
    assert_eq!(
        profile_cookie_paths("/d/Default", false),
        vec!["/d/Default/Network/Cookies".to_string(), "/d/Default/Cookies".to_string()]
    );
}

#[test]
fn firefox_database_choice() {
    assert_eq!(profiles_dir(Some("/ff"), None).unwrap(), "/ff");
    assert_eq!(profiles_dir(None, Some("/def".to_string())).unwrap(), "/def");
    assert!(matches!(profiles_dir(None, None), Err(CookieError::NoBrowserDir)));
    assert_eq!(cookie_db_path("/ff/p1", false), "/ff/p1/cookies.sqlite");
    assert!(matches!(choose_db(false, &vec![]), Err(CookieError::NoBrowserDir)));
    assert!(matches!(choose_db(true, &vec![]), Err(CookieError::NoCookieDb)));
    let dbs = vec![("x".to_string(), 2i128), ("y".to_string(), 1)];
    assert_eq!(choose_db(true, &dbs).unwrap(), "x");
}

#[test]
fn config_and_credentials_locations() {
    assert_eq!(
        config_path(Some("/home/u/.config"), "Vendor/usage-widget", false).unwrap(),
        "/home/u/.config/Vendor/usage-widget/config.json"
    );
    assert_eq!(config_path(None, "Vendor/usage-widget", false), None);
    assert_eq!(credentials_path(Some("/o"), Some("/h"), ".tool", false).unwrap(), "/o/.credentials.json");
    assert_eq!(credentials_path(None, Some("/h"), ".tool", false).unwrap(), "/h/.tool/.credentials.json");
    assert_eq!(credentials_path(None, None, ".tool", false), None);
    let c = Config::empty();
    assert!(c.refresh_secs.is_none());
}

#[test]
fn browser_names_and_errors() {
    for b in [BrowserKind::Firefox, BrowserKind::Chrome, BrowserKind::Brave, BrowserKind::Edge, BrowserKind::Safari] {
        assert_eq!(BrowserKind::from_name(b.name()), Some(b));
    }
    assert_eq!(BrowserKind::from_name("safari"), Some(BrowserKind::Safari));
    assert_eq!(BrowserKind::from_name("opera"), None);
    assert_eq!(BrowserKind::Safari.label(), "Safari");
    assert!(BrowserKind::Safari.uses_safari_file());
    assert!(!BrowserKind::Safari.uses_chromium_store());
    assert!(BrowserKind::Edge.uses_chromium_store());
    assert_eq!(BrowserKind::Brave.label(), "Brave");
    assert!(BrowserKind::Firefox.uses_firefox_store());
    assert!(!BrowserKind::Edge.uses_firefox_store());
    assert_eq!(CookieError::NoBrowserDir.message(), "Browser directory not found");
    assert_eq!(CookieError::NoCookieDb.message(), "No cookie database found");
    assert_eq!(CookieError::Sqlite("locked".into()).message(), "SQLite error: locked");
    assert_eq!(CookieError::Io("gone".into()).message(), "IO error: gone");
    assert_eq!(CookieError::Decrypt("bad".into()).message(), "Decrypt error: bad");
    assert_eq!(CookieError::PermissionDenied.message(), "Permission denied");
}

#[test]
fn each_browser_reads_its_own_store() {
    match read_plan(BrowserKind::Firefox, Platform::Linux, None, Some("/home/u"), None, None) {
        ReadPlan::Firefox(Ok(d)) => assert_eq!(d, "/home/u/.mozilla/firefox"),
        _ => panic!("expected Firefox"),
    }
    match read_plan(BrowserKind::Firefox, Platform::Linux, Some("/ff"), None, None, None) {
        ReadPlan::Firefox(Ok(d)) => assert_eq!(d, "/ff"),
        _ => panic!("expected Firefox"),
    }
    assert!(matches!(
        read_plan(BrowserKind::Firefox, Platform::Windows, None, Some("/home/u"), None, None),
        ReadPlan::Firefox(Err(CookieError::NoBrowserDir))
    ));
    match read_plan(BrowserKind::Brave, Platform::Linux, None, Some("/home/u"), None, None) {
        ReadPlan::Chromium(d) => assert_eq!(d[0], "/home/u/.config/BraveSoftware/Brave-Browser"),
        _ => panic!("expected Chromium"),
    }
    match read_plan(BrowserKind::Edge, Platform::Windows, None, None, None, Some("C:\\L")) {
        ReadPlan::Chromium(d) => assert_eq!(d, vec!["C:\\L\\Microsoft/Edge/User Data".to_string()]),
        _ => panic!("expected Chromium"),
    }
    match read_plan(BrowserKind::Chrome, Platform::MacOs, Some("/data"), Some("/Users/u"), None, None) {
        ReadPlan::Chromium(d) => assert_eq!(d, vec!["/data".to_string()]),
        _ => panic!("expected Chromium"),
    }
    match read_plan(BrowserKind::Safari, Platform::MacOs, None, Some("/Users/u"), None, None) {
        ReadPlan::Safari(f) => assert_eq!(f[1], "/Users/u/Library/Cookies/Cookies.binarycookies"),
        _ => panic!("expected Safari"),
    }
}
