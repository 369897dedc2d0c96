use claude_usage::api::{account_name, account_request, cookie_header, present_limits, usage_request};
use claude_usage::cookies::{has_session, CookieJar};

fn jar(pairs: &[(&str, &str)]) -> CookieJar {
    let mut j = CookieJar::new();
    for (k, v) in pairs {
        j.insert(k.to_string(), v.to_string());
    }
    j
}

#[test]
fn insert_replaces_and_keeps_order() {
    let mut j = jar(&[("a", "1"), ("b", "2")]);
    j.insert("a".to_string(), "3".to_string());
    assert_eq!(j.len(), 2);
    assert_eq!(j.get("a").map(|s| s.as_str()), Some("3"));
    let (k, v) = j.entry(0);
    assert_eq!((k.as_str(), v.as_str()), ("a", "3"));
    assert_eq!(j.get("c"), None);
}

#[test]
fn cookie_header_joins_pairs() {
    assert_eq!(cookie_header(&jar(&[])), "");
    assert_eq!(cookie_header(&jar(&[("a", "1")])), "a=1");
    assert_eq!(cookie_header(&jar(&[("a", "1"), ("b", "x=y")])), "a=1; b=x=y");
}

#[test]
fn usage_request_needs_session_and_org() {
    assert_eq!(usage_request(&jar(&[]), "usage.example").err().unwrap(), "No usage.example session found");
    assert_eq!(
        usage_request(&jar(&[("sessionKey", "s")]), "usage.example").err().unwrap(),
        "No organization ID in cookies"
    );
    let req = usage_request(&jar(&[("sessionKey", "s"), ("lastActiveOrg", "org-1")]), "usage.example").unwrap();
    assert_eq!(req.url, "https://usage.example/api/organizations/org-1/usage");
    assert_eq!(req.headers[0], ("Cookie".to_string(), "sessionKey=s; lastActiveOrg=org-1".to_string()));
    assert_eq!(
        req.headers[1].1,
        "Mozilla/5.0 (X11; Linux x86_64; rv:147.0) Gecko/20100101 Firefox/147.0"
    );
    assert_eq!(req.headers[2], ("Accept".to_string(), "*/*".to_string()));
    assert_eq!(req.headers[3], ("Referer".to_string(), "https://usage.example/settings/usage".to_string()));
}

#[test]
fn account_request_points_at_account() {
    let req = account_request(&jar(&[("sessionKey", "s")]), "usage.example");
    assert_eq!(req.url, "https://usage.example/api/account");
    assert_eq!(req.headers[3].1, "https://usage.example/settings/general");
}

#[test]
fn account_name_prefers_display_name() {
    assert_eq!(account_name(Some("Ann".into()), Some("Ann Lee".into())), Ok("Ann".to_string()));
    assert_eq!(account_name(Some("".into()), Some("Ann Lee".into())), Ok("Ann Lee".to_string()));
    assert_eq!(account_name(None, Some("Ann Lee".into())), Ok("Ann Lee".to_string()));
    assert_eq!(account_name(Some("".into()), Some("".into())), Err("No name in account response".to_string()));
    assert_eq!(account_name(None, None), Err("No name in account response".to_string()));
}

#[test]
fn session_is_the_session_key_cookie() {
    assert!(has_session(&jar(&[("sessionKey", "x")])));
    assert!(!has_session(&jar(&[("session", "x")])));
}

#[test]
fn null_limits_are_dropped_in_order() {
    let entries = vec![
        ("five_hour".to_string(), Some(12u32)),
        ("seven_day_opus".to_string(), None),
        ("seven_day".to_string(), Some(40u32)),
        ("seven_day_cowork".to_string(), None),
    ];
    let kept = present_limits(entries);
    assert_eq!(kept, vec![("five_hour".to_string(), 12u32), ("seven_day".to_string(), 40u32)]);
    assert!(present_limits::<u32>(vec![("a".to_string(), None)]).is_empty());
}
