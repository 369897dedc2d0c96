use claude_usage::cookies::safari::{
    cookie_db_candidates, cookie_db_path, parse_binary_cookies, read, read_cstring, u32_be, u32_le, FileError,
};
use claude_usage::cookies::CookieError;

fn record(url: &[u8], name: &[u8], value: &[u8]) -> Vec<u8> {
    let mut r = vec![0u8; 56];
    let url_off = 56u32;
    let name_off = url_off + url.len() as u32 + 1;
    let value_off = name_off + name.len() as u32 + 1;
    r[16..20].copy_from_slice(&url_off.to_le_bytes());
    r[20..24].copy_from_slice(&name_off.to_le_bytes());
    r[28..32].copy_from_slice(&value_off.to_le_bytes());
    r.extend_from_slice(url);
    r.push(0);
    r.extend_from_slice(name);
    r.push(0);
    r.extend_from_slice(value);
    r.push(0);
    r
}

fn page(records: &[Vec<u8>]) -> Vec<u8> {
    let mut p = vec![0x00, 0x00, 0x01, 0x00];
    p.extend_from_slice(&(records.len() as u32).to_le_bytes());
    let mut off = 8 + 4 * records.len() as u32;
    for r in records {
        p.extend_from_slice(&off.to_le_bytes());
        off += r.len() as u32;
    }
    for r in records {
        p.extend_from_slice(r);
    }
    p
}

fn file(pages: &[Vec<u8>]) -> Vec<u8> {
    let mut f = b"cook".to_vec();
    f.extend_from_slice(&(pages.len() as u32).to_be_bytes());
    for p in pages {
        f.extend_from_slice(&(p.len() as u32).to_be_bytes());
    }
    for p in pages {
        f.extend_from_slice(p);
    }
    f
}

#[test]
fn integers_are_read_in_both_byte_orders() {
    let data = [0x01, 0x02, 0x03, 0x04, 0x05];
    assert_eq!(u32_le(&data, 0), 0x0403_0201);
    assert_eq!(u32_be(&data, 0), 0x0102_0304);
    assert_eq!(u32_le(&data, 1), 0x0504_0302);
    assert_eq!(u32_be(&data, 1), 0x0203_0405);
}

#[test]
fn cstring_stops_at_nul_and_needs_one() {
    let data = b"abc\0def";
    assert_eq!(read_cstring(data, 0), Some("abc"));
    assert_eq!(read_cstring(data, 1), Some("bc"));
    assert_eq!(read_cstring(data, 3), Some(""));
    assert_eq!(read_cstring(data, 4), None);
    assert_eq!(read_cstring(data, 7), None);
    assert_eq!(read_cstring(data, 8), None);
    assert_eq!(read_cstring(b"\xff\xfe\0", 0), None);
}

#[test]
fn parses_matching_cookies() {
    let f = file(&[page(&[
        record(b".usage.example", b"sessionKey", b"sk-123"),
        record(b"example.com", b"other", b"x"),
        record(b"usage.example", b"lastActiveOrg", b"org-9"),
    ])]);
    let jar = parse_binary_cookies(&f, "usage.example").unwrap();
    assert_eq!(jar.len(), 2);
    assert_eq!(jar.get("sessionKey").map(|s| s.as_str()), Some("sk-123"));
    assert_eq!(jar.get("lastActiveOrg").map(|s| s.as_str()), Some("org-9"));
    assert!(!jar.contains_key("other"));
}

#[test]
fn looser_domain_keeps_every_cookie() {
    let f = file(&[page(&[
        record(b".usage.example", b"sessionKey", b"sk-123"),
        record(b"example.com", b"other", b"x"),
        record(b"usage.example", b"lastActiveOrg", b"org-9"),
    ])]);
    let strict = parse_binary_cookies(&f, "usage.example").unwrap();
    let loose = parse_binary_cookies(&f, "example").unwrap();
    let any = parse_binary_cookies(&f, "").unwrap();
    for name in ["sessionKey", "lastActiveOrg"] {
        assert!(strict.contains_key(name) && loose.contains_key(name) && any.contains_key(name));
    }
    assert!(loose.contains_key("other"));
    assert_eq!(any.len(), 3);
    assert!(parse_binary_cookies(b"nope", "").is_err() && parse_binary_cookies(b"nope", "x").is_err());
}

#[test]
fn skips_empty_values_and_keeps_the_last_duplicate() {
    let f = file(&[
        page(&[record(b"usage.example", b"a", b""), record(b"usage.example", b"b", b"1")]),
        page(&[record(b"usage.example", b"b", b"2")]),
    ]);
    let jar = parse_binary_cookies(&f, "usage.example").unwrap();
    assert!(!jar.contains_key("a"));
    assert_eq!(jar.get("b").map(|s| s.as_str()), Some("2"));
    assert_eq!(jar.len(), 1);
}

#[test]
fn rejects_bad_headers() {
    assert!(matches!(parse_binary_cookies(b"cook", "x"), Err(CookieError::NoCookieDb)));
    assert!(matches!(parse_binary_cookies(b"kooc\0\0\0\0", "x"), Err(CookieError::NoCookieDb)));
    let mut f = b"cook".to_vec();
    f.extend_from_slice(&2u32.to_be_bytes());
    f.extend_from_slice(&[0, 0, 0, 0]);
    assert!(matches!(parse_binary_cookies(&f, "x"), Err(CookieError::NoCookieDb)));
}

#[test]
fn stops_at_a_truncated_page() {
    let mut f = file(&[page(&[record(b"usage.example", b"a", b"1")]), page(&[record(b"usage.example", b"b", b"2")])]);
    f.truncate(f.len() - 3);
    let jar = parse_binary_cookies(&f, "usage.example").unwrap();
    assert_eq!(jar.get("a").map(|s| s.as_str()), Some("1"));
    assert!(!jar.contains_key("b"));
}

#[test]
fn skips_records_outside_their_page() {
    let mut p = page(&[record(b"usage.example", b"a", b"1")]);
    p[8..12].copy_from_slice(&10_000u32.to_le_bytes());
    let jar = parse_binary_cookies(&file(&[p]), "usage.example").unwrap();
    assert_eq!(jar.len(), 0);
}

#[test]
fn empty_file_of_pages_gives_empty_jar() {
    let jar = parse_binary_cookies(&file(&[]), "usage.example").unwrap();
    assert_eq!(jar.len(), 0);
}

#[test]
fn read_maps_file_errors() {
    assert!(matches!(read(Err(FileError::PermissionDenied), "usage.example"), Err(CookieError::PermissionDenied)));
    assert!(matches!(read(Err(FileError::Unreadable), "usage.example"), Err(CookieError::NoCookieDb)));
    let f = file(&[page(&[record(b"usage.example", b"sessionKey", b"v")])]);
    assert!(read(Ok(f), "usage.example").unwrap().contains_key("sessionKey"));
}

#[test]
fn safari_store_locations() {
    assert_eq!(
        cookie_db_candidates(Some("/Users/me")),
        vec![
            "/Users/me/Library/Containers/com.apple.Safari/Data/Library/Cookies/Cookies.binarycookies".to_string(),
            "/Users/me/Library/Cookies/Cookies.binarycookies".to_string(),
        ]
    );
    assert!(cookie_db_candidates(None).is_empty());
}

#[test]
fn cookie_file_is_first_existing_candidate() {
    let container = "/home/u/Library/Containers/com.apple.Safari/Data/Library/Cookies/Cookies.binarycookies";
    let classic = "/home/u/Library/Cookies/Cookies.binarycookies";
    assert_eq!(cookie_db_path(Some("/home/u"), &[true, true]).as_deref(), Some(container));
    assert_eq!(cookie_db_path(Some("/home/u"), &[false, true]).as_deref(), Some(classic));
    assert_eq!(cookie_db_path(Some("/home/u"), &[false, false]), None);
    assert_eq!(cookie_db_path(None, &[]), None);
}
