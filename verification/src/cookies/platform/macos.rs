//! macOS: profiles under `~/Library/Application Support`, cookies
//! encrypted with the password kept in the login keychain.

use vstd::prelude::*;
use vstd::utf8::*;

use super::{has_encryption_prefix, is_encrypted, join_path, joined};
use crate::cookies::crypto::{decrypt_payload, decrypted_payload};
use crate::cookies::CookieError;
use crate::text::{str_from_utf8, string_from_utf8_lossy, utf8_error_text, utf8_lossy};

verus! {

/// Firefox's profiles directory under `h`.
pub open spec fn firefox_dir(h: Seq<char>) -> Seq<char> {
    joined(h, "Library/Application Support/Firefox/Profiles"@, false)
}

/// Firefox's profile directory: `~/Library/Application Support/Firefox/Profiles`.
pub fn firefox_default_dir(home: Option<&str>) -> (r: Option<String>)
    ensures
        match home {
            Some(h) => r matches Some(p) && p@ == firefox_dir(h@),
            None => r is None,
        },
{
    match home {
        Some(h) => Some(join_path(h, "Library/Application Support/Firefox/Profiles", false)),
        None => None,
    }
}

/// The candidate data directories of Chrome under `h`.
pub open spec fn chrome_dirs(h: Seq<char>) -> Seq<Seq<char>> {
    seq![
        joined(h, "Library/Application Support/Google/Chrome"@, false),
    ]
}

/// Chrome's data directory; the caller keeps it when it exists.
pub fn chrome_default_dirs(home: Option<&str>) -> (r: Vec<String>)
    ensures
        match home {
            Some(h) => r@.map_values(|p: String| p@) == chrome_dirs(h@),
            None => r@.len() == 0,
        },
{
    let mut r: Vec<String> = Vec::new();
    if let Some(h) = home {
        r.push(join_path(h, "Library/Application Support/Google/Chrome", false));
        assert(r@.map_values(|p: String| p@) =~= seq![
            joined(h@, "Library/Application Support/Google/Chrome"@, false),
        ]);
    }
    r
}

/// The candidate data directories of Brave under `h`.
pub open spec fn brave_dirs(h: Seq<char>) -> Seq<Seq<char>> {
    seq![
        joined(h, "Library/Application Support/BraveSoftware/Brave-Browser"@, false),
    ]
}

/// Brave's data directory; the caller keeps it when it exists.
pub fn brave_default_dirs(home: Option<&str>) -> (r: Vec<String>)
    ensures
        match home {
            Some(h) => r@.map_values(|p: String| p@) == brave_dirs(h@),
            None => r@.len() == 0,
        },
{
    let mut r: Vec<String> = Vec::new();
    if let Some(h) = home {
        r.push(join_path(h, "Library/Application Support/BraveSoftware/Brave-Browser", false));
        assert(r@.map_values(|p: String| p@) =~= seq![
            joined(h@, "Library/Application Support/BraveSoftware/Brave-Browser"@, false),
        ]);
    }
    r
}

/// The candidate data directories of Microsoft Edge under `h`.
pub open spec fn edge_dirs(h: Seq<char>) -> Seq<Seq<char>> {
    seq![
        joined(h, "Library/Application Support/Microsoft Edge"@, false),
    ]
}

/// Microsoft Edge's data directory; the caller keeps it when it exists.
pub fn edge_default_dirs(home: Option<&str>) -> (r: Vec<String>)
    ensures
        match home {
            Some(h) => r@.map_values(|p: String| p@) == edge_dirs(h@),
            None => r@.len() == 0,
        },
{
    let mut r: Vec<String> = Vec::new();
    if let Some(h) = home {
        r.push(join_path(h, "Library/Application Support/Microsoft Edge", false));
        assert(r@.map_values(|p: String| p@) =~= seq![
            joined(h@, "Library/Application Support/Microsoft Edge"@, false),
        ]);
    }
    r
}

/// The outcome of decrypting a stored Chrome/Brave value on macOS: the
/// value's text, or the reason it could not be decrypted.
pub open spec fn cookie_value(encrypted: Seq<u8>, keychain_password: Option<Seq<u8>>) -> Result<
    Seq<char>,
    Seq<char>,
> {
    if encrypted.len() == 0 {
        Ok(seq![])
    } else if !is_encrypted(encrypted) {
        Ok(utf8_lossy(encrypted))
    } else {
        let ct = encrypted.subrange(3, encrypted.len() as int);
        match keychain_password {
            None => Err("Keychain lookup failed for all browsers"@),
            Some(pw) => match decrypted_payload(ct, pw, 1003) {
                None => Err("AES decrypt failed: Unpad Error"@),
                Some(p) => if valid_utf8(p) {
                    Ok(decode_utf8(p))
                } else {
                    Err("UTF-8 decode failed: "@ + utf8_error_text(p))
                },
            },
        }
    }
}

/// Decrypts a Chrome/Brave cookie value with the password the keychain
/// holds for the browser (`None` when the keychain had none), in 1003
/// PBKDF2 rounds. An empty value stays empty and a value without the
/// `v10`/`v11` prefix is plain text (decoded leniently).
pub fn decrypt_chrome_value(encrypted: &[u8], keychain_password: Option<&[u8]>) -> (r: Result<
    String,
    CookieError,
>)
    ensures
        match cookie_value(
            encrypted@,
            match keychain_password {
                Some(pw) => Some(pw@),
                None => None,
            },
        ) {
            Ok(v) => r matches Ok(s) && s@ == v,
            Err(m) => r matches Err(CookieError::Decrypt(e)) && e@ == m,
        },
        !is_encrypted(encrypted@) && valid_utf8(encrypted@) ==> (r matches Ok(s) && s@
            == decode_utf8(encrypted@)),
{
    if encrypted.len() == 0 {
        return Ok(String::new());
    }
    if !has_encryption_prefix(encrypted) {
        return Ok(string_from_utf8_lossy(encrypted));
    }
    let ciphertext = &encrypted[3..encrypted.len()];
    let password = match keychain_password {
        Some(pw) => pw,
        None => {
            return Err(
                CookieError::Decrypt(String::from_str("Keychain lookup failed for all browsers")),
            );
        },
    };
    let payload = match decrypt_payload(ciphertext, password, 1003) {
        Some(p) => p,
        None => {
            return Err(CookieError::Decrypt(String::from_str("AES decrypt failed: Unpad Error")));
        },
    };
    match str_from_utf8(payload.as_slice()) {
        Ok(s) => Ok(s.to_owned()),
        Err(e) => {
            let mut m = String::from_str("UTF-8 decode failed: ");
            m.append(e.as_str());
            Err(CookieError::Decrypt(m))
        },
    }
}

/// Where the widget keeps its settings: `~/Library/Application Support`.
pub fn config_dir(home: Option<&str>) -> (r: Option<String>)
    ensures
        match home {
            Some(h) => r matches Some(d) && d@ == joined(h@, "Library/Application Support"@, false),
            None => r is None,
        },
{
    match home {
        Some(h) => Some(join_path(h, "Library/Application Support", false)),
        None => None,
    }
}

} // verus!
