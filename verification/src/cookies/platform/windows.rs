//! Windows: profiles under `%APPDATA%` and `%LOCALAPPDATA%`; cookies
//! encrypted with AES-256-GCM under a key that DPAPI protects.

use vstd::prelude::*;
use vstd::utf8::*;

use super::{has_encryption_prefix, is_encrypted, join_path, joined};
use crate::cookies::CookieError;
use crate::cookies::crypto::{decrypt_gcm_payload, gcm_decrypted_payload};
use crate::text::{str_from_utf8, string_from_utf8_lossy, utf8_error_text, utf8_lossy};

verus! {

/// Firefox's profiles directory under `a`.
pub open spec fn firefox_dir(a: Seq<char>) -> Seq<char> {
    joined(a, "Mozilla/Firefox/Profiles"@, true)
}

/// Firefox's profile directory: `%APPDATA%\Mozilla/Firefox/Profiles`.
pub fn firefox_default_dir(appdata: Option<&str>) -> (r: Option<String>)
    ensures
        match appdata {
            Some(a) => r matches Some(p) && p@ == firefox_dir(a@),
            None => r is None,
        },
{
    match appdata {
        Some(a) => Some(join_path(a, "Mozilla/Firefox/Profiles", true)),
        None => None,
    }
}

/// The candidate data directories of Chrome under `l`.
pub open spec fn chrome_dirs(l: Seq<char>) -> Seq<Seq<char>> {
    seq![
        joined(l, "Google/Chrome/User Data"@, true),
    ]
}

/// Chrome's data directory under `%LOCALAPPDATA%`; the caller keeps it
/// when it exists.
pub fn chrome_default_dirs(local_appdata: Option<&str>) -> (r: Vec<String>)
    ensures
        match local_appdata {
            Some(l) => r@.map_values(|p: String| p@) == chrome_dirs(l@),
            None => r@.len() == 0,
        },
{
    let mut r: Vec<String> = Vec::new();
    if let Some(l) = local_appdata {
        r.push(join_path(l, "Google/Chrome/User Data", true));
        assert(r@.map_values(|p: String| p@) =~= seq![joined(l@, "Google/Chrome/User Data"@, true)]);
    }
    r
}

/// The candidate data directories of Brave under `l`.
pub open spec fn brave_dirs(l: Seq<char>) -> Seq<Seq<char>> {
    seq![
        joined(l, "BraveSoftware/Brave-Browser/User Data"@, true),
    ]
}

/// Brave's data directory under `%LOCALAPPDATA%`; the caller keeps it
/// when it exists.
pub fn brave_default_dirs(local_appdata: Option<&str>) -> (r: Vec<String>)
    ensures
        match local_appdata {
            Some(l) => r@.map_values(|p: String| p@) == brave_dirs(l@),
            None => r@.len() == 0,
        },
{
    let mut r: Vec<String> = Vec::new();
    if let Some(l) = local_appdata {
        r.push(join_path(l, "BraveSoftware/Brave-Browser/User Data", true));
        assert(r@.map_values(|p: String| p@) =~= seq![
            joined(l@, "BraveSoftware/Brave-Browser/User Data"@, true),
        ]);
    }
    r
}

/// The candidate data directories of Microsoft Edge under `l`.
pub open spec fn edge_dirs(l: Seq<char>) -> Seq<Seq<char>> {
    seq![joined(l, "Microsoft/Edge/User Data"@, true)]
}

/// Microsoft Edge's data directory under `%LOCALAPPDATA%`; the caller
/// keeps it when it exists.
pub fn edge_default_dirs(local_appdata: Option<&str>) -> (r: Vec<String>)
    ensures
        match local_appdata {
            Some(l) => r@.map_values(|p: String| p@) == edge_dirs(l@),
            None => r@.len() == 0,
        },
{
    let mut r: Vec<String> = Vec::new();
    if let Some(l) = local_appdata {
        r.push(join_path(l, "Microsoft/Edge/User Data", true));
        assert(r@.map_values(|p: String| p@) =~= seq![joined(l@, "Microsoft/Edge/User Data"@, true)]);
    }
    r
}

/// The outcome of reading a stored Chrome/Brave/Edge value on Windows,
/// where `key` is the browser's AES key as unprotected by DPAPI: the
/// value's text, or the reason it could not be decrypted.
pub open spec fn cookie_value(encrypted: Seq<u8>, key: Option<Seq<u8>>) -> Result<Seq<char>, Seq<char>> {
    if encrypted.len() == 0 {
        Ok(seq![])
    } else if !is_encrypted(encrypted) {
        Ok(utf8_lossy(encrypted))
    } else {
        match key {
            None => Err("Could not read the browser's encryption key (DPAPI)"@),
            Some(k) => match gcm_decrypted_payload(encrypted.subrange(3, encrypted.len() as int), k) {
                None => Err("AES-GCM decrypt failed"@),
                Some(p) => if valid_utf8(p) {
                    Ok(decode_utf8(p))
                } else {
                    Err("UTF-8 decode failed: "@ + utf8_error_text(p))
                },
            },
        }
    }
}

/// Decrypts a Chrome/Brave/Edge cookie value: after the `v10`/`v11`
/// prefix come a 12-byte nonce, the AES-256-GCM ciphertext and its tag,
/// under the key the browser keeps protected by DPAPI in `Local State`
/// (`None` when it could not be read). An empty value stays empty and a
/// value without the prefix is plain text (decoded leniently).
pub fn decrypt_chrome_value(encrypted: &[u8], key: Option<&[u8]>) -> (r: Result<String, CookieError>)
    ensures
        match cookie_value(
            encrypted@,
            match key {
                Some(k) => Some(k@),
                None => None,
            },
        ) {
            Ok(v) => r matches Ok(s) && s@ == v,
            Err(m) => r matches Err(CookieError::Decrypt(e)) && e@ == m,
        },
        !is_encrypted(encrypted@) && valid_utf8(encrypted@) ==> (r matches Ok(s) && s@
            == decode_utf8(encrypted@)),
{
    if encrypted.len() == 0 {
        return Ok(String::new());
    }
    if !has_encryption_prefix(encrypted) {
        return Ok(string_from_utf8_lossy(encrypted));
    }
    let key = match key {
        Some(k) => k,
        None => {
            return Err(
                CookieError::Decrypt(String::from_str("Could not read the browser's encryption key (DPAPI)")),
            );
        },
    };
    let payload = match decrypt_gcm_payload(&encrypted[3..encrypted.len()], key) {
        Some(p) => p,
        None => {
            return Err(CookieError::Decrypt(String::from_str("AES-GCM decrypt failed")));
        },
    };
    match str_from_utf8(payload.as_slice()) {
        Ok(s) => Ok(s.to_owned()),
        Err(e) => {
            let mut m = String::from_str("UTF-8 decode failed: ");
            m.append(e.as_str());
            Err(CookieError::Decrypt(m))
        },
    }
}

/// Where the widget keeps its settings: `%APPDATA%`.
pub fn config_dir(appdata: Option<&str>) -> (r: Option<String>)
    ensures
        match appdata {
            Some(a) => r matches Some(d) && d@ == a@,
            None => r is None,
        },
{
    match appdata {
        Some(a) => Some(a.to_owned()),
        None => None,
    }
}

} // verus!
