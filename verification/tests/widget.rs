use claude_usage::config::Config;
use claude_usage::cookies::BrowserKind;
use claude_usage::widget::{
    apply_account_name, apply_fetch_result, countdown, fetch_plan, refresh_options, should_refresh,
    time_left, time_left_at, time_left_with_reading, updated_ago, usage_sections, Settings,
};

#[test]
fn countdown_texts() {
    assert_eq!(countdown(0), "Resetting...");
    assert_eq!(countdown(-5), "Resetting...");
    assert_eq!(countdown(59), "Resets in 0 min");
    assert_eq!(countdown(61), "Resets in 1 min");
    assert_eq!(countdown(3600 + 120), "Resets in 1 hr 2 min");
    assert_eq!(countdown(23 * 3600 + 59 * 60), "Resets in 23 hr 59 min");
    assert_eq!(countdown(24 * 3600), "Resets in 1d 0h");
    assert_eq!(countdown(3 * 86400 + 5 * 3600 + 17), "Resets in 3d 5h");
}

#[test]
fn time_left_from_rfc3339() {
    let now = (1_700_000_000i64, 0u32);
    assert_eq!(time_left_at(None, now), "");
    assert_eq!(time_left_at(Some("not a date"), now), "");
    assert_eq!(time_left_at(Some("2023-11-14T22:13:20Z"), now), "Resetting...");
    assert_eq!(time_left_at(Some("2023-11-15T00:15:20Z"), now), "Resets in 2 hr 2 min");
    assert_eq!(time_left_at(Some("2023-11-15T02:15:20+02:00"), now), "Resets in 2 hr 2 min");
    assert_eq!(time_left_at(Some("2023-11-16T22:13:20.5Z"), now), "Resets in 2d 0h");
    assert_eq!(time_left_at(Some("2023-11-14T22:14:19.999Z"), (1_700_000_000, 500_000_000)), "Resets in 0 min");
    assert_eq!(time_left(Some("2000-01-01T00:00:00Z")), "Resetting...");
    assert_eq!(time_left(None), "");
    let date = Some("2023-11-15T00:15:20Z");
    assert_eq!(time_left_with_reading(date, Some((1_700_000_000, 0))), "Resets in 2 hr 2 min");
    assert_eq!(time_left_with_reading(date, None), "");
    assert_eq!(time_left_with_reading(date, Some((u64::MAX, 0))), "");
}

#[test]
fn updated_ago_texts() {
    assert_eq!(updated_ago(0), "Last updated: just now");
    assert_eq!(updated_ago(59), "Last updated: just now");
    assert_eq!(updated_ago(60), "Last updated: 1 minute ago");
    assert_eq!(updated_ago(150), "Last updated: 2 minutes ago");
    assert_eq!(updated_ago(3600), "Last updated: 1 hour ago");
    assert_eq!(updated_ago(7300), "Last updated: 2 hours ago");
}

#[test]
fn refresh_rules() {
    assert!(should_refresh(None, None, 300));
    assert!(!should_refresh(Some(61), None, 300));
    assert!(should_refresh(Some(60), None, 300));
    assert!(!should_refresh(None, Some(299), 300));
    assert!(should_refresh(None, Some(300), 300));
    assert_eq!(fetch_plan(None, false, false, false), None);
    assert_eq!(fetch_plan(Some(BrowserKind::Chrome), true, false, false), None);
    assert_eq!(fetch_plan(Some(BrowserKind::Chrome), false, false, false), Some(true));
    assert_eq!(fetch_plan(Some(BrowserKind::Chrome), false, true, false), Some(false));
    assert_eq!(fetch_plan(Some(BrowserKind::Chrome), false, false, true), Some(false));
}

#[test]
fn failures_never_hide_data() {
    let mut shown: Option<Result<u32, String>> = None;
    let e = apply_fetch_result(&mut shown, Err("down".into()));
    assert_eq!(shown, Some(Err("down".to_string())));
    assert!(!e.fetched && !e.animate);
    let e = apply_fetch_result(&mut shown, Ok(7));
    assert_eq!(shown, Some(Ok(7)));
    assert!(e.fetched && e.animate);
    let e = apply_fetch_result(&mut shown, Err("again".into()));
    assert_eq!(shown, Some(Ok(7)));
    assert!(!e.fetched);
    let e = apply_fetch_result(&mut shown, Ok(8));
    assert_eq!(shown, Some(Ok(8)));
    assert!(e.fetched && !e.animate);
}

#[test]
fn account_name_replaces_implicit_title() {
    let mut t = "Plan Usage".to_string();
    apply_account_name(&mut t, true, "Ann".into());
    assert_eq!(t, "Plan Usage");
    apply_account_name(&mut t, false, "Ann".into());
    assert_eq!(t, "Ann");
}

#[test]
fn settings_defaults_and_round_trip() {
    let s = Settings::from_config(&Config::empty());
    assert_eq!(s, Settings { refresh_secs: 300, always_on_top: true, all_workspaces: true });
    let saved = Config { refresh_secs: None, always_on_top: None, all_workspaces: None, chromium_prompted_exe: Some("/bin/x".into()) };
    let s = Settings { refresh_secs: 60, always_on_top: false, all_workspaces: true };
    let c = s.to_config(&saved);
    assert_eq!(c.refresh_secs, Some(60));
    assert_eq!(c.always_on_top, Some(false));
    assert_eq!(c.chromium_prompted_exe.as_deref(), Some("/bin/x"));
    assert_eq!(Settings::from_config(&c), s);
}

#[test]
fn menu_and_sections() {
    let opts = refresh_options();
    assert_eq!(opts.len(), 6);
    assert_eq!(opts[0], (60, "1 min"));
    assert_eq!(opts[5], (1800, "30 min"));
    let keys = vec!["seven_day_sonnet".to_string(), "five_hour".to_string(), "seven_day".to_string(), "extra".to_string()];
    let (five, weekly) = usage_sections(&keys);
    assert!(five);
    assert_eq!(weekly, vec![("seven_day", "All models"), ("seven_day_sonnet", "Sonnet")]);
    let (five, weekly) = usage_sections(&vec![]);
    assert!(!five);
    assert!(weekly.is_empty());
}
