//! Linux: profiles under the home directory, cookies encrypted with the
//! password `peanuts` or the one kept in the desktop keyring.

use vstd::prelude::*;
use vstd::utf8::*;

use super::{has_encryption_prefix, is_encrypted, join_path, joined};
use crate::cookies::crypto::{decrypted_value, try_decrypt};
use crate::cookies::CookieError;
use crate::text::{string_from_utf8_lossy, utf8_lossy};

verus! {

/// Firefox's profiles directory under `h`.
pub open spec fn firefox_dir(h: Seq<char>) -> Seq<char> {
    joined(h, ".mozilla/firefox"@, false)
}

/// Firefox's profile directory: `~/.mozilla/firefox`.
pub fn firefox_default_dir(home: Option<&str>) -> (r: Option<String>)
    ensures
        match home {
            Some(h) => r matches Some(p) && p@ == firefox_dir(h@),
            None => r is None,
        },
{
    match home {
        Some(h) => Some(join_path(h, ".mozilla/firefox", false)),
        None => None,
    }
}

/// The candidate data directories of Chrome under `h`.
pub open spec fn chrome_dirs(h: Seq<char>) -> Seq<Seq<char>> {
    seq![
        joined(h, ".config/google-chrome"@, false),
        joined(h, ".config/chromium"@, false),
        joined(h, "snap/chromium/common/chromium"@, false),
        joined(h, ".var/app/com.google.Chrome/config/google-chrome"@, false),
        joined(h, ".var/app/org.chromium.Chromium/config/chromium"@, false),
    ]
}

/// The places Chrome and Chromium keep their data (native, snap and
/// flatpak installs): the candidates, of which the caller keeps those
/// that exist.
pub fn chrome_default_dirs(home: Option<&str>) -> (r: Vec<String>)
    ensures
        match home {
            Some(h) => r@.map_values(|p: String| p@) == chrome_dirs(h@),
            None => r@.len() == 0,
        },
{
    let mut r: Vec<String> = Vec::new();
    if let Some(h) = home {
        r.push(join_path(h, ".config/google-chrome", false));
        r.push(join_path(h, ".config/chromium", false));
        r.push(join_path(h, "snap/chromium/common/chromium", false));
        r.push(join_path(h, ".var/app/com.google.Chrome/config/google-chrome", false));
        r.push(join_path(h, ".var/app/org.chromium.Chromium/config/chromium", false));
        assert(r@.map_values(|p: String| p@) =~= seq![
            joined(h@, ".config/google-chrome"@, false),
            joined(h@, ".config/chromium"@, false),
            joined(h@, "snap/chromium/common/chromium"@, false),
            joined(h@, ".var/app/com.google.Chrome/config/google-chrome"@, false),
            joined(h@, ".var/app/org.chromium.Chromium/config/chromium"@, false),
        ]);
    }
    r
}

/// The candidate data directories of Brave under `h`.
pub open spec fn brave_dirs(h: Seq<char>) -> Seq<Seq<char>> {
    seq![
        joined(h, ".config/BraveSoftware/Brave-Browser"@, false),
        joined(h, "snap/brave/current/.config/BraveSoftware/Brave-Browser"@, false),
        joined(h, ".var/app/com.brave.Browser/config/BraveSoftware/Brave-Browser"@, false),
    ]
}

/// The places Brave keeps its data (native, snap and flatpak installs):
/// the candidates, of which the caller keeps those that exist.
pub fn brave_default_dirs(home: Option<&str>) -> (r: Vec<String>)
    ensures
        match home {
            Some(h) => r@.map_values(|p: String| p@) == brave_dirs(h@),
            None => r@.len() == 0,
        },
{
    let mut r: Vec<String> = Vec::new();
    if let Some(h) = home {
        r.push(join_path(h, ".config/BraveSoftware/Brave-Browser", false));
        r.push(join_path(h, "snap/brave/current/.config/BraveSoftware/Brave-Browser", false));
        r.push(join_path(h, ".var/app/com.brave.Browser/config/BraveSoftware/Brave-Browser", false));
        assert(r@.map_values(|p: String| p@) =~= seq![
            joined(h@, ".config/BraveSoftware/Brave-Browser"@, false),
            joined(h@, "snap/brave/current/.config/BraveSoftware/Brave-Browser"@, false),
            joined(h@, ".var/app/com.brave.Browser/config/BraveSoftware/Brave-Browser"@, false),
        ]);
    }
    r
}

/// The candidate data directories of Microsoft Edge under `h`.
pub open spec fn edge_dirs(h: Seq<char>) -> Seq<Seq<char>> {
    seq![joined(h, ".config/microsoft-edge"@, false)]
}

/// The place Microsoft Edge keeps its data: the candidate, which the
/// caller keeps when it exists.
pub fn edge_default_dirs(home: Option<&str>) -> (r: Vec<String>)
    ensures
        match home {
            Some(h) => r@.map_values(|p: String| p@) == edge_dirs(h@),
            None => r@.len() == 0,
        },
{
    let mut r: Vec<String> = Vec::new();
    if let Some(h) = home {
        r.push(join_path(h, ".config/microsoft-edge", false));
        assert(r@.map_values(|p: String| p@) =~= seq![joined(h@, ".config/microsoft-edge"@, false)]);
    }
    r
}

/// The password Chromium uses when no keyring is available: `peanuts`.
pub open spec fn peanuts() -> Seq<u8> {
    seq![0x70u8, 0x65, 0x61, 0x6e, 0x75, 0x74, 0x73]
}

/// The outcome of decrypting a stored Chrome/Brave value on Linux: the
/// value's text, or the reason it could not be decrypted.
pub open spec fn cookie_value(encrypted: Seq<u8>, keyring_password: Option<Seq<u8>>) -> Result<
    Seq<char>,
    Seq<char>,
> {
    if encrypted.len() == 0 {
        Ok(seq![])
    } else if !is_encrypted(encrypted) {
        Ok(utf8_lossy(encrypted))
    } else {
        let ct = encrypted.subrange(3, encrypted.len() as int);
        match decrypted_value(ct, peanuts(), 1) {
            Some(v) => Ok(v),
            None => match keyring_password {
                Some(pw) if decrypted_value(ct, pw, 1) is Some => Ok(decrypted_value(ct, pw, 1)->0),
                _ => Err("Could not decrypt Chrome cookie (tried peanuts + keyring)"@),
            },
        }
    }
}

/// Decrypts a Chrome/Brave cookie value. An empty value stays empty and a
/// value without the `v10`/`v11` prefix is plain text (decoded leniently).
/// An encrypted value is tried with the password `peanuts` and then with
/// the keyring's password, one PBKDF2 round each.
pub fn decrypt_chrome_value(encrypted: &[u8], keyring_password: Option<&[u8]>) -> (r: Result<
    String,
    CookieError,
>)
    ensures
        match cookie_value(
            encrypted@,
            match keyring_password {
                Some(pw) => Some(pw@),
                None => None,
            },
        ) {
            Ok(v) => r matches Ok(s) && s@ == v,
            Err(m) => r matches Err(CookieError::Decrypt(e)) && e@ == m,
        },
        !is_encrypted(encrypted@) && valid_utf8(encrypted@) ==> (r matches Ok(s) && s@
            == decode_utf8(encrypted@)),
{
    if encrypted.len() == 0 {
        return Ok(String::new());
    }
    if !has_encryption_prefix(encrypted) {
        return Ok(string_from_utf8_lossy(encrypted));
    }
    let ciphertext = &encrypted[3..encrypted.len()];
    let fallback: Vec<u8> = vec![0x70u8, 0x65, 0x61, 0x6e, 0x75, 0x74, 0x73];
    assert(fallback@ =~= peanuts());
    if let Some(s) = try_decrypt(ciphertext, fallback.as_slice(), 1) {
        return Ok(s);
    }
    if let Some(password) = keyring_password {
        if let Some(s) = try_decrypt(ciphertext, password, 1) {
            return Ok(s);
        }
    }
    Err(CookieError::Decrypt(String::from_str("Could not decrypt Chrome cookie (tried peanuts + keyring)")))
}

/// Where the widget keeps its settings: `$XDG_CONFIG_HOME`, or
/// `~/.config` when that is not set.
pub fn config_dir(xdg_config_home: Option<&str>, home: Option<&str>) -> (r: Option<String>)
    ensures
        match xdg_config_home {
            Some(x) => r matches Some(d) && d@ == x@,
            None => match home {
                Some(h) => r matches Some(d) && d@ == joined(h@, ".config"@, false),
                None => r is None,
            },
        },
{
    match xdg_config_home {
        Some(x) => Some(x.to_owned()),
        None => match home {
            Some(h) => Some(join_path(h, ".config", false)),
            None => None,
        },
    }
}

} // verus!
