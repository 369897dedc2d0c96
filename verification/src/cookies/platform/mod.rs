//! Where each browser keeps its data, and how its cookies are decrypted,
//! on each operating system. Paths are plain strings; the caller supplies
//! the environment (home directory and the like) and checks which of the
//! candidate directories exist.

pub mod linux;
pub mod macos;
pub mod windows;

use vstd::prelude::*;
use vstd::utf8::*;

use crate::cookies::CookieError;
use crate::text::{chars_of, push_char};

verus! {

/// The operating systems the widget runs on.
#[derive(Clone, Copy, Debug, PartialEq, Eq, Structural)]
pub enum Platform {
    Linux,
    MacOs,
    Windows,
}

/// The outcome of reading a stored Chrome/Brave/Edge value on `platform`,
/// where `secret` is the keyring (Linux) or keychain (macOS) password, or
/// the DPAPI-unprotected key (Windows).
pub open spec fn chromium_cookie_value(
    platform: Platform,
    encrypted: Seq<u8>,
    secret: Option<Seq<u8>>,
) -> Result<Seq<char>, Seq<char>> {
    match platform {
        Platform::Linux => linux::cookie_value(encrypted, secret),
        Platform::MacOs => macos::cookie_value(encrypted, secret),
        Platform::Windows => windows::cookie_value(encrypted, secret),
    }
}

/// Decrypts a stored Chrome/Brave/Edge value the way `platform` does.
pub fn decrypt_for(platform: Platform, encrypted: &[u8], secret: Option<&[u8]>) -> (r: Result<
    String,
    CookieError,
>)
    ensures
        match chromium_cookie_value(
            platform,
            encrypted@,
            match secret {
                Some(s) => Some(s@),
                None => None,
            },
        ) {
            Ok(v) => r matches Ok(s) && s@ == v,
            Err(m) => r matches Err(CookieError::Decrypt(e)) && e@ == m,
        },
        !is_encrypted(encrypted@) && valid_utf8(encrypted@) ==> (r matches Ok(s) && s@
            == decode_utf8(encrypted@)),
{
    match platform {
        Platform::Linux => linux::decrypt_chrome_value(encrypted, secret),
        Platform::MacOs => macos::decrypt_chrome_value(encrypted, secret),
        Platform::Windows => windows::decrypt_chrome_value(encrypted, secret),
    }
}

/// The characters that separate path components: `/` everywhere, and
/// also `\` on Windows.
pub open spec fn is_separator(c: char, windows: bool) -> bool {
    c == '/' || (windows && c == '\\')
}

/// The separator inserted when joining: `\` on Windows, `/` elsewhere.
pub open spec fn separator(windows: bool) -> char {
    if windows {
        '\\'
    } else {
        '/'
    }
}

/// `base` joined with the relative path `rel`: a separator goes between
/// them unless `base` is empty or already ends with one.
pub open spec fn joined(base: Seq<char>, rel: Seq<char>, windows: bool) -> Seq<char> {
    if base.len() == 0 || is_separator(base.last(), windows) {
        base + rel
    } else {
        base.push(separator(windows)) + rel
    }
}

/// Joins the relative path `rel` onto `base`.
pub fn join_path(base: &str, rel: &str, windows: bool) -> (r: String)
    ensures
        r@ == joined(base@, rel@, windows),
{
    let chars = chars_of(base);
    let mut r = base.to_owned();
    if chars.len() > 0 {
        let last = chars[chars.len() - 1];
        if !(last == '/' || (windows && last == '\\')) {
            push_char(&mut r, if windows { '\\' } else { '/' });
        }
    }
    r.append(rel);
    r
}

/// The items whose flag is set, in order.
pub open spec fn keep_flagged<T>(items: Seq<T>, flags: Seq<bool>) -> Seq<T>
    decreases items.len(),
{
    if items.len() == 0 {
        seq![]
    } else {
        let rest = keep_flagged(items.drop_last(), flags);
        if flags[items.len() - 1] {
            rest.push(items.last())
        } else {
            rest
        }
    }
}

/// Keeps the paths flagged as present (the caller flags the directories
/// that exist), in their order.
pub fn retain_present(paths: &Vec<String>, present: &[bool]) -> (r: Vec<String>)
    requires
        present@.len() == paths@.len(),
    ensures
        r@ == keep_flagged(paths@, present@),
{
    let mut r: Vec<String> = Vec::new();
    let mut i: usize = 0;
    while i < paths.len()
        invariant
            present@.len() == paths@.len(),
            0 <= i <= paths.len(),
            r@ == keep_flagged(paths@.take(i as int), present@),
        decreases paths.len() - i,
    {
        assert(paths@.take(i + 1).drop_last() =~= paths@.take(i as int));
        if present[i] {
            r.push(paths[i].clone());
        }
        i = i + 1;
    }
    assert(paths@.take(paths@.len() as int) =~= paths@);
    r
}

/// The first path flagged as present.
pub fn first_present(paths: &Vec<String>, present: &[bool]) -> (r: Option<String>)
    requires
        present@.len() == paths@.len(),
    ensures
        match r {
            Some(p) => exists|i: int|
                0 <= i < paths@.len() && present@[i] && p == paths@[i] && forall|j: int|
                    0 <= j < i ==> !present@[j],
            None => forall|j: int| 0 <= j < paths@.len() ==> !present@[j],
        },
{
    let mut i: usize = 0;
    while i < paths.len()
        invariant
            present@.len() == paths@.len(),
            0 <= i <= paths.len(),
            forall|j: int| 0 <= j < i ==> !present@[j],
        decreases paths.len() - i,
    {
        if present[i] {
            return Some(paths[i].clone());
        }
        i = i + 1;
    }
    None
}

/// The value is stored encrypted: it starts with `v10` or `v11`.
pub open spec fn is_encrypted(e: Seq<u8>) -> bool {
    &&& e.len() >= 3
    &&& e[0] == 0x76
    &&& e[1] == 0x31
    &&& (e[2] == 0x30 || e[2] == 0x31)
}

/// Whether the stored value starts with `v10` or `v11`.
pub fn has_encryption_prefix(e: &[u8]) -> (r: bool)
    ensures
        r == is_encrypted(e@),
{
    e.len() >= 3 && e[0] == 0x76 && e[1] == 0x31 && (e[2] == 0x30 || e[2] == 0x31)
}

} // verus!
