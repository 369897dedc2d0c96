//! Chrome, Brave and Edge: profile directories and the cookie database.

use vstd::prelude::*;

use super::crypto::{decrypted_value, try_decrypt};
use super::jar::{pairs_to_map, CookiePair};
use super::platform::linux::peanuts;
use super::platform::{
    chromium_cookie_value, decrypt_for, has_encryption_prefix, is_encrypted, join_path, joined,
    Platform,
};
use super::{chromium_pairs, chromium_rows_view, is_newest, newest_path, CookieError, CookieJar};
use crate::text::{chars_of, str_eq};

verus! {

/// The stored value is protected with app-bound encryption: it starts
/// with `v20`.
pub open spec fn is_app_bound(v: Seq<u8>) -> bool {
    v.len() >= 3 && v[0] == 0x76 && v[1] == 0x32 && v[2] == 0x30
}

/// Whether any of the stored values (those of every row for the domain,
/// in every cookie database of the browser) is app-bound (`v20`). Nothing
/// is decrypted.
pub fn has_v20_cookies(values: &Vec<Vec<u8>>) -> (r: bool)
    ensures
        r == exists|i: int| 0 <= i < values@.len() && is_app_bound(#[trigger] values@[i]@),
{
    let mut i: usize = 0;
    while i < values.len()
        invariant
            0 <= i <= values.len(),
            forall|j: int| 0 <= j < i ==> !is_app_bound(#[trigger] values@[j]@),
        decreases values.len() - i,
    {
        let v = &values[i];
        if v.len() >= 3 && v[0] == 0x76 && v[1] == 0x32 && v[2] == 0x30 {
            assert(is_app_bound(values@[i as int]@));
            return true;
        }
        i = i + 1;
    }
    false
}

/// Picks the cookie database to read among those found in the profiles
/// (each with its modification time): the most recent; none found is an
/// error.
pub fn choose_db(candidates: &Vec<(String, i128)>) -> (r: Result<String, CookieError>)
    ensures
        candidates@.len() == 0 ==> r matches Err(CookieError::NoCookieDb),
        candidates@.len() > 0 ==> (r matches Ok(p) && exists|i: int|
            is_newest(candidates@, i) && p == candidates@[i].0),
{
    match newest_path(candidates) {
        Some(p) => Ok(p),
        None => Err(CookieError::NoCookieDb),
    }
}

/// Whether decrypting the stored value `v` on `platform` depends on the
/// browser's password: it is encrypted and, on Linux, does not decrypt
/// with the built-in password `peanuts`.
pub open spec fn value_needs_secret(platform: Platform, v: Seq<u8>) -> bool {
    is_encrypted(v) && match platform {
        Platform::Linux => decrypted_value(v.subrange(3, v.len() as int), peanuts(), 1) is None,
        _ => true,
    }
}

/// Whether some row needs the browser's password (keyring, keychain or
/// DPAPI key) to be read; when none does, the password is not looked up.
pub fn needs_secret(rows: &Vec<(String, Vec<u8>)>, platform: Platform) -> (r: bool)
    ensures
        r == exists|i: int| 0 <= i < rows@.len() && value_needs_secret(platform, #[trigger] rows@[i].1@),
{
    let mut i: usize = 0;
    while i < rows.len()
        invariant
            0 <= i <= rows.len(),
            forall|j: int| 0 <= j < i ==> !value_needs_secret(platform, #[trigger] rows@[j].1@),
        decreases rows.len() - i,
    {
        let v = rows[i].1.as_slice();
        if has_encryption_prefix(v) {
            let needed = match platform {
                Platform::Linux => {
                    let fallback: Vec<u8> = vec![0x70u8, 0x65, 0x61, 0x6e, 0x75, 0x74, 0x73];
                    assert(fallback@ =~= peanuts());
                    try_decrypt(&v[3..v.len()], fallback.as_slice(), 1).is_none()
                },
                _ => true,
            };
            if needed {
                assert(value_needs_secret(platform, rows@[i as int].1@));
                return true;
            }
        }
        i = i + 1;
    }
    false
}

/// When no row needs the browser's password, the cookies the rows give do
/// not depend on it.
pub proof fn law_secret_unneeded(
    rows: Seq<(Seq<char>, Seq<u8>)>,
    platform: Platform,
    a: Option<Seq<u8>>,
    b: Option<Seq<u8>>,
)
    requires
        forall|i: int| 0 <= i < rows.len() ==> !value_needs_secret(platform, #[trigger] rows[i].1),
    ensures
        chromium_pairs(rows, platform, a) == chromium_pairs(rows, platform, b),
    decreases rows.len(),
{
    if rows.len() > 0 {
        let init = rows.drop_last();
        assert forall|i: int| 0 <= i < init.len() implies !value_needs_secret(platform, #[trigger] init[i].1) by {
            assert(init[i] == rows[i]);
        }
        law_secret_unneeded(init, platform, a, b);
        assert(!value_needs_secret(platform, rows[rows.len() - 1].1));
        assert(chromium_cookie_value(platform, rows.last().1, a) == chromium_cookie_value(platform, rows.last().1, b));
    }
}

/// A directory of the data directory that holds a profile: `Default` or
/// `Profile <n>`.
pub open spec fn is_profile_name(name: Seq<char>) -> bool {
    name == "Default"@ || (name.len() >= 8 && name.take(8) == "Profile "@)
}

/// Whether the directory called `name` holds a profile.
pub fn is_profile_dir(name: &str) -> (r: bool)
    ensures
        r == is_profile_name(name@),
{
    if str_eq(name, "Default") {
        return true;
    }
    let chars = chars_of(name);
    let prefix = chars_of("Profile ");
    proof {
        reveal_strlit("Profile ");
    }
    if chars.len() < 8 {
        return false;
    }
    let mut i: usize = 0;
    while i < 8
        invariant
            chars@ == name@,
            name@ != "Default"@,
            prefix@ == "Profile "@,
            prefix@.len() == 8,
            chars@.len() >= 8,
            0 <= i <= 8,
            forall|j: int| 0 <= j < i ==> chars@[j] == prefix@[j],
        decreases 8 - i,
    {
        if chars[i] != prefix[i] {
            assert(name@.take(8)[i as int] != "Profile "@[i as int]);
            return false;
        }
        i = i + 1;
    }
    assert(name@.take(8) =~= "Profile "@);
    true
}

/// Where a profile keeps its cookies: `Network/Cookies` (current Chrome)
/// and `Cookies` (older Chrome); the caller keeps those that are files.
pub fn profile_cookie_paths(profile: &str, windows: bool) -> (r: Vec<String>)
    ensures
        r@.map_values(|p: String| p@) == seq![
            joined(joined(profile@, "Network"@, windows), "Cookies"@, windows),
            joined(profile@, "Cookies"@, windows),
        ],
{
    let mut r: Vec<String> = Vec::new();
    let network = join_path(profile, "Network", windows);
    r.push(join_path(network.as_str(), "Cookies", windows));
    r.push(join_path(profile, "Cookies", windows));
    assert(r@.map_values(|p: String| p@) =~= seq![
        joined(joined(profile@, "Network"@, windows), "Cookies"@, windows),
        joined(profile@, "Cookies"@, windows),
    ]);
    r
}

/// Builds the jar from the rows of the cookie database: each stored value
/// is decrypted as `platform` does (with the keyring or keychain password
/// `secret`); values that fail to decrypt or are empty are left out.
pub fn read(rows: &Vec<(String, Vec<u8>)>, platform: Platform, secret: Option<&[u8]>) -> (jar:
    CookieJar)
    ensures
        jar@ == pairs_to_map(
            chromium_pairs(
                chromium_rows_view(rows@),
                platform,
                match secret {
                    Some(s) => Some(s@),
                    None => None,
                },
            ),
        ),
{
    let ghost sec = match secret {
        Some(s) => Some(s@),
        None => None,
    };
    let mut jar = CookieJar::new();
    let mut i: usize = 0;
    while i < rows.len()
        invariant
            0 <= i <= rows.len(),
            sec == match secret {
                Some(s) => Some(s@),
                None => None::<Seq<u8>>,
            },
            jar@ == pairs_to_map(chromium_pairs(chromium_rows_view(rows@.take(i as int)), platform, sec)),
        decreases rows.len() - i,
    {
        let ghost before = chromium_rows_view(rows@.take(i as int));
        let ghost after = chromium_rows_view(rows@.take(i + 1));
        assert(after.drop_last() =~= before);
        assert(after.last() == (rows@[i as int].0@, rows@[i as int].1@));
        let ghost prev = chromium_pairs(before, platform, sec);
        let (name, encrypted) = (&rows[i].0, &rows[i].1);
        match decrypt_for(platform, encrypted.as_slice(), secret) {
            Ok(v) => {
                if !v.as_str().is_empty() {
                    let ghost item: CookiePair = (name@, v@);
                    jar.insert(name.clone(), v);
                    assert(prev.push(item).drop_last() =~= prev);
                    assert(chromium_pairs(after, platform, sec) == prev.push(item));
                } else {
                    assert(chromium_pairs(after, platform, sec) == prev);
                }
            },
            Err(_) => {
                assert(chromium_pairs(after, platform, sec) == prev);
            },
        }
        i = i + 1;
    }
    assert(rows@.take(rows@.len() as int) =~= rows@);
    jar
}

} // verus!
