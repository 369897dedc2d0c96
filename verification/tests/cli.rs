use claude_usage::cli::{check_chosen_browser, detect_browsers_or_exit, detection_order, parse_args, prefer_xwayland, Command};
use claude_usage::cookies::{BrowserKind, CookieError, CookieJar};

fn args(a: &[&str]) -> Vec<String> {
    a.iter().map(|s| s.to_string()).collect()
}

#[test]
fn defaults_without_arguments() {
    match parse_args(&args(&[]), false).unwrap() {
        Command::Run(o) => {
            assert_eq!(o.browser, None);
            assert_eq!(o.data_dir, None);
            assert_eq!(o.title, "Plan Usage");
            assert!(!o.title_explicit);
        }
        _ => panic!("expected run"),
    }
}

#[test]
fn options_are_read() {
    match parse_args(&args(&["--browser", "brave", "--data-dir", "/d", "--title", "Work"]), false).unwrap() {
        Command::Run(o) => {
            assert_eq!(o.browser, Some(BrowserKind::Brave));
            assert_eq!(o.data_dir.as_deref(), Some("/d"));
            assert_eq!(o.title, "Work");
            assert!(o.title_explicit);
        }
        _ => panic!("expected run"),
    }
}

#[test]
fn safari_can_be_chosen() {
    match parse_args(&args(&["--browser", "safari"]), true).unwrap() {
        Command::Run(o) => assert_eq!(o.browser, Some(BrowserKind::Safari)),
        _ => panic!("expected run"),
    }
    assert_eq!(
        parse_args(&args(&["--browser", "safari"]), false).err().unwrap(),
        "Error: unknown browser 'safari' (use firefox, chrome, brave, or edge)"
    );
    assert_eq!(
        parse_args(&args(&["--browser", "opera"]), true).err().unwrap(),
        "Error: unknown browser 'opera' (use firefox, chrome, brave, edge, or safari)"
    );
}

#[test]
fn help_and_uninstall() {
    assert!(matches!(parse_args(&args(&["-h"]), false), Ok(Command::Help)));
    assert!(matches!(parse_args(&args(&["--title", "x", "--help"]), false), Ok(Command::Help)));
    assert!(matches!(parse_args(&args(&["--uninstall", "--bogus"]), false), Ok(Command::Uninstall)));
}

#[test]
fn argument_errors() {
    let err = |a: &[&str]| parse_args(&args(a), false).err().unwrap();
    assert_eq!(err(&["--browser"]), "Error: --browser requires a value");
    assert_eq!(err(&["--browser", "opera"]), "Error: unknown browser 'opera' (use firefox, chrome, brave, or edge)");
    assert_eq!(err(&["--data-dir"]), "Error: --data-dir requires a value");
    assert_eq!(err(&["--title"]), "Error: --title requires a value");
    assert_eq!(err(&["-x"]), "Error: unknown argument '-x'");
    assert_eq!(err(&["--data-dir", "/d"]), "Error: --data-dir requires --browser");
}

#[test]
fn browser_choice() {
    assert_eq!(
        detect_browsers_or_exit(&vec![], "usage.example").err().unwrap(),
        "No usage.example session found in any supported browser."
    );
    assert_eq!(
        detect_browsers_or_exit(&vec![BrowserKind::Edge], "usage.example").unwrap(),
        BrowserKind::Edge
    );
    assert_eq!(
        detect_browsers_or_exit(&vec![BrowserKind::Safari, BrowserKind::Edge, BrowserKind::Chrome], "usage.example")
            .unwrap(),
        BrowserKind::Chrome
    );
    assert_eq!(
        detect_browsers_or_exit(&vec![BrowserKind::Edge, BrowserKind::Firefox], "usage.example").unwrap(),
        BrowserKind::Firefox
    );
    assert_eq!(
        detection_order(false),
        vec![BrowserKind::Firefox, BrowserKind::Chrome, BrowserKind::Brave, BrowserKind::Edge]
    );
    assert_eq!(
        detection_order(true),
        vec![BrowserKind::Firefox, BrowserKind::Chrome, BrowserKind::Brave, BrowserKind::Edge, BrowserKind::Safari]
    );
}

#[test]
fn chosen_browser_needs_a_session() {
    let mut jar = CookieJar::new();
    assert_eq!(
        check_chosen_browser(BrowserKind::Chrome, &Ok(CookieJar::new()), "usage.example").err().unwrap(),
        "No usage.example session found in chrome."
    );
    jar.insert("sessionKey".to_string(), "s".to_string());
    assert!(check_chosen_browser(BrowserKind::Chrome, &Ok(jar), "usage.example").is_ok());
    assert_eq!(
        check_chosen_browser(BrowserKind::Firefox, &Err(CookieError::NoCookieDb), "usage.example").err().unwrap(),
        "Error reading firefox cookies: No cookie database found"
    );
}

#[test]
fn xwayland_preference() {
    assert_eq!(prefer_xwayland(false, true), (true, false));
    assert_eq!(prefer_xwayland(false, false), (false, false));
    assert_eq!(prefer_xwayland(true, true), (true, true));
    assert_eq!(prefer_xwayland(true, false), (false, false));
}
