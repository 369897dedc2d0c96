//! Chromium's cookie encryption: a key derived with PBKDF2-HMAC-SHA1 from
//! the browser's password and the salt `saltysalt`, AES-128-CBC with an IV
//! of sixteen spaces and PKCS#7 padding (Linux, macOS); AES-256-GCM under a
//! key that the system protects (Windows).

use vstd::prelude::*;
use vstd::utf8::*;

use aes::cipher::{BlockDecryptMut, KeyIvInit};
use aes_gcm::aead::{Aead, KeyInit};

use crate::text::str_from_utf8;

verus! {

/// The salt Chromium derives its cookie key with: `saltysalt`.
pub open spec fn chromium_salt() -> Seq<u8> {
    seq![0x73u8, 0x61, 0x6c, 0x74, 0x79, 0x73, 0x61, 0x6c, 0x74]
}

/// The initialisation vector: sixteen spaces.
pub open spec fn chromium_iv() -> Seq<u8> {
    Seq::new(16, |i: int| 0x20u8)
}

/// The 16-byte key that PBKDF2-HMAC-SHA1 derives from `password` and
/// `salt` in `rounds` rounds.
pub uninterp spec fn pbkdf2_sha1_key16(password: Seq<u8>, salt: Seq<u8>, rounds: u32) -> Seq<u8>;

/// `pbkdf2::pbkdf2_hmac::<Sha1>` filling a 16-byte buffer: the key is the
/// named derivation of the arguments and is 16 bytes long.
#[verifier::external_body]
fn derive_key(password: &[u8], salt: &[u8], rounds: u32) -> (key: Vec<u8>)
    ensures
        key@ == pbkdf2_sha1_key16(password@, salt@, rounds),
        key@.len() == 16,
{
    let mut key = [0u8; 16];
    pbkdf2::pbkdf2_hmac::<sha1::Sha1>(password, salt, rounds, &mut key);
    key.to_vec()
}

/// The plaintext that AES-128-CBC decryption under `key` and `iv` followed
/// by PKCS#7 unpadding gives for `ciphertext`, or none when unpadding fails.
pub uninterp spec fn aes128_cbc_pkcs7_decrypt(
    key: Seq<u8>,
    iv: Seq<u8>,
    ciphertext: Seq<u8>,
) -> Option<Seq<u8>>;

/// `cbc::Decryptor::<aes::Aes128>::decrypt_padded_mut::<Pkcs7>`: the result
/// is the named decryption; input that is empty or not a whole number of
/// 16-byte blocks is refused, and the padding removed makes the plaintext
/// shorter than the ciphertext.
#[verifier::external_body]
fn aes128_cbc_decrypt(key: &[u8], iv: &[u8], ciphertext: &[u8]) -> (r: Option<Vec<u8>>)
    requires
        key@.len() == 16,
        iv@.len() == 16,
    ensures
        aes128_cbc_pkcs7_decrypt(key@, iv@, ciphertext@) == (match r {
            Some(p) => Some(p@),
            None => None,
        }),
        ciphertext@.len() == 0 || ciphertext@.len() % 16 != 0 ==> r is None,
        r matches Some(p) ==> p@.len() < ciphertext@.len(),
{
    let mut buf = ciphertext.to_vec();
    cbc::Decryptor::<aes::Aes128>::new(key.into(), iv.into())
        .decrypt_padded_mut::<aes::cipher::block_padding::Pkcs7>(&mut buf)
        .ok()
        .map(|p| p.to_vec())
}

/// The plaintext that AES-256-GCM decryption under `key` and `nonce` gives
/// for `sealed` (the ciphertext followed by its 16-byte tag), or none when
/// the tag does not authenticate it.
pub uninterp spec fn aes256_gcm_decrypt(key: Seq<u8>, nonce: Seq<u8>, sealed: Seq<u8>) -> Option<
    Seq<u8>,
>;

/// `aes_gcm::Aes256Gcm::decrypt` with no associated data: the result is the
/// named decryption; input shorter than the tag is refused, and the
/// plaintext is the input without its 16-byte tag.
#[verifier::external_body]
fn aes256_gcm_open(key: &[u8], nonce: &[u8], sealed: &[u8]) -> (r: Option<Vec<u8>>)
    requires
        key@.len() == 32,
        nonce@.len() == 12,
    ensures
        aes256_gcm_decrypt(key@, nonce@, sealed@) == (match r {
            Some(p) => Some(p@),
            None => None,
        }),
        sealed@.len() < 16 ==> r is None,
        r matches Some(p) ==> p@.len() + 16 == sealed@.len(),
{
    aes_gcm::Aes256Gcm::new(key.into()).decrypt(nonce.into(), sealed).ok()
}

/// The payload that `data` (a 12-byte nonce, then the ciphertext and its
/// tag) decrypts to under the 32-byte `key`, host hash removed; none when
/// the key or data is too short or the tag does not authenticate.
pub open spec fn gcm_decrypted_payload(data: Seq<u8>, key: Seq<u8>) -> Option<Seq<u8>> {
    if key.len() != 32 || data.len() < 12 {
        None
    } else {
        match aes256_gcm_decrypt(key, data.subrange(0, 12), data.subrange(12, data.len() as int)) {
            Some(d) => Some(strip_host_hash(d)),
            None => None,
        }
    }
}

/// Decrypts `data` (nonce, ciphertext, tag) with AES-256-GCM under `key`
/// and drops a leading host hash.
pub fn decrypt_gcm_payload(data: &[u8], key: &[u8]) -> (r: Option<Vec<u8>>)
    ensures
        match gcm_decrypted_payload(data@, key@) {
            Some(p) => r matches Some(b) && b@ == p,
            None => r is None,
        },
{
    if key.len() != 32 || data.len() < 12 {
        return None;
    }
    let nonce = &data[0..12];
    let sealed = &data[12..data.len()];
    let decrypted = match aes256_gcm_open(key, nonce, sealed) {
        Some(d) => d,
        None => {
            return None;
        },
    };
    if host_hash_present(decrypted.as_slice()) {
        Some(vstd::slice::slice_to_vec(&decrypted.as_slice()[32..decrypted.len()]))
    } else {
        Some(decrypted)
    }
}

/// A control byte other than tab, line feed and carriage return.
pub open spec fn is_binary_byte(b: u8) -> bool {
    b < 0x20 && b != 0x09 && b != 0x0a && b != 0x0d
}

/// Recent Chromium prepends a 32-byte hash of the cookie's host to the
/// plaintext: taken to be present when the plaintext is longer than 32
/// bytes and its first 32 bytes hold a binary byte.
pub open spec fn has_host_hash(d: Seq<u8>) -> bool {
    d.len() > 32 && exists|i: int| 0 <= i < 32 && is_binary_byte(d[i])
}

/// The plaintext without its host hash, when it has one.
pub open spec fn strip_host_hash(d: Seq<u8>) -> Seq<u8> {
    if has_host_hash(d) {
        d.subrange(32, d.len() as int)
    } else {
        d
    }
}

/// The payload bytes that `ciphertext` decrypts to under the key derived
/// from `password` in `rounds` rounds, host hash removed; none when
/// unpadding fails.
pub open spec fn decrypted_payload(ciphertext: Seq<u8>, password: Seq<u8>, rounds: u32) -> Option<
    Seq<u8>,
> {
    match aes128_cbc_pkcs7_decrypt(
        pbkdf2_sha1_key16(password, chromium_salt(), rounds),
        chromium_iv(),
        ciphertext,
    ) {
        Some(d) => Some(strip_host_hash(d)),
        None => None,
    }
}

/// The cookie value that `ciphertext` decrypts to: none when unpadding
/// fails or the payload is not UTF-8.
pub open spec fn decrypted_value(ciphertext: Seq<u8>, password: Seq<u8>, rounds: u32) -> Option<
    Seq<char>,
> {
    match decrypted_payload(ciphertext, password, rounds) {
        Some(p) => if valid_utf8(p) {
            Some(decode_utf8(p))
        } else {
            None
        },
        None => None,
    }
}

/// Recent Chromium puts a 32-byte hash of the host before the value: when
/// any of the first 32 bytes of the plaintext is a control byte other than
/// tab, line feed and carriage return, and text follows them, the value is
/// exactly the text after those 32 bytes.
pub proof fn law_host_hash_stripped(
    ciphertext: Seq<u8>,
    password: Seq<u8>,
    rounds: u32,
    prefix: Seq<u8>,
    text: Seq<u8>,
    i: int,
)
    requires
        aes128_cbc_pkcs7_decrypt(pbkdf2_sha1_key16(password, chromium_salt(), rounds), chromium_iv(), ciphertext)
            == Some(prefix + text),
        prefix.len() == 32,
        text.len() > 0,
        0 <= i < 32,
        prefix[i] < 0x20,
        prefix[i] != 0x09,
        prefix[i] != 0x0a,
        prefix[i] != 0x0d,
    ensures
        decrypted_payload(ciphertext, password, rounds) == Some(text),
{
    let d = prefix + text;
    assert(d[i] == prefix[i]);
    assert(is_binary_byte(d[i]));
    assert(d.subrange(32, d.len() as int) =~= text);
}

/// A plaintext with no such control byte among its first 32 bytes (or
/// with no more than 32 bytes) is the value as it is.
pub proof fn law_plain_payload_kept(ciphertext: Seq<u8>, password: Seq<u8>, rounds: u32, d: Seq<u8>)
    requires
        aes128_cbc_pkcs7_decrypt(pbkdf2_sha1_key16(password, chromium_salt(), rounds), chromium_iv(), ciphertext)
            == Some(d),
        d.len() <= 32 || forall|j: int| 0 <= j < 32 ==> !(d[j] < 0x20 && d[j] != 0x09 && d[j] != 0x0a && d[j] != 0x0d),
    ensures
        decrypted_payload(ciphertext, password, rounds) == Some(d),
{
}

/// The same host-hash rule holds for AES-256-GCM (Windows): a control byte
/// anywhere in the first 32 bytes of the plaintext marks a host hash, and
/// the value is the text after it.
pub proof fn law_gcm_host_hash_stripped(data: Seq<u8>, key: Seq<u8>, prefix: Seq<u8>, text: Seq<u8>, i: int)
    requires
        key.len() == 32,
        data.len() >= 12,
        aes256_gcm_decrypt(key, data.subrange(0, 12), data.subrange(12, data.len() as int)) == Some(prefix + text),
        prefix.len() == 32,
        text.len() > 0,
        0 <= i < 32,
        prefix[i] < 0x20,
        prefix[i] != 0x09,
        prefix[i] != 0x0a,
        prefix[i] != 0x0d,
    ensures
        gcm_decrypted_payload(data, key) == Some(text),
{
    let d = prefix + text;
    assert(d[i] == prefix[i]);
    assert(is_binary_byte(d[i]));
    assert(d.subrange(32, d.len() as int) =~= text);
}

/// Under AES-256-GCM too, a plaintext with no such control byte among its
/// first 32 bytes (or with no more than 32 bytes) is the value as it is.
pub proof fn law_gcm_plain_payload_kept(data: Seq<u8>, key: Seq<u8>, d: Seq<u8>)
    requires
        key.len() == 32,
        data.len() >= 12,
        aes256_gcm_decrypt(key, data.subrange(0, 12), data.subrange(12, data.len() as int)) == Some(d),
        d.len() <= 32 || forall|j: int| 0 <= j < 32 ==> !(d[j] < 0x20 && d[j] != 0x09 && d[j] != 0x0a && d[j] != 0x0d),
    ensures
        gcm_decrypted_payload(data, key) == Some(d),
{
}

/// Whether the plaintext starts with a host hash.
pub fn host_hash_present(d: &[u8]) -> (r: bool)
    ensures
        r == has_host_hash(d@),
{
    if d.len() <= 32 {
        return false;
    }
    let mut i: usize = 0;
    while i < 32
        invariant
            d@.len() > 32,
            0 <= i <= 32,
            forall|j: int| 0 <= j < i ==> !is_binary_byte(d@[j]),
        decreases 32 - i,
    {
        let b = d[i];
        if b < 0x20 && b != 0x09 && b != 0x0a && b != 0x0d {
            assert(is_binary_byte(d@[i as int]));
            return true;
        }
        i = i + 1;
    }
    false
}

/// Decrypts `ciphertext` (AES-128-CBC, PKCS#7) under the key that
/// PBKDF2-HMAC-SHA1 derives from `password` in `rounds` rounds and drops a
/// leading host hash.
pub fn decrypt_payload(ciphertext: &[u8], password: &[u8], rounds: u32) -> (r: Option<Vec<u8>>)
    ensures
        match decrypted_payload(ciphertext@, password@, rounds) {
            Some(p) => r matches Some(b) && b@ == p,
            None => r is None,
        },
{
    let salt: Vec<u8> = vec![0x73u8, 0x61, 0x6c, 0x74, 0x79, 0x73, 0x61, 0x6c, 0x74];
    assert(salt@ =~= chromium_salt());
    let key = derive_key(password, salt.as_slice(), rounds);
    let iv: Vec<u8> = vec![0x20u8; 16];
    assert(iv@ =~= chromium_iv());
    let decrypted = match aes128_cbc_decrypt(key.as_slice(), iv.as_slice(), ciphertext) {
        Some(d) => d,
        None => {
            return None;
        },
    };
    if host_hash_present(decrypted.as_slice()) {
        let payload = vstd::slice::slice_to_vec(&decrypted.as_slice()[32..decrypted.len()]);
        Some(payload)
    } else {
        Some(decrypted)
    }
}

/// Decrypts `ciphertext` as [`decrypt_payload`] does and decodes the
/// payload as UTF-8.
pub fn try_decrypt(ciphertext: &[u8], password: &[u8], rounds: u32) -> (r: Option<String>)
    ensures
        match decrypted_value(ciphertext@, password@, rounds) {
            Some(v) => r matches Some(s) && s@ == v,
            None => r is None,
        },
{
    let payload = match decrypt_payload(ciphertext, password, rounds) {
        Some(p) => p,
        None => {
            return None;
        },
    };
    match str_from_utf8(payload.as_slice()) {
        Ok(s) => Some(s.to_owned()),
        Err(_) => None,
    }
}

} // verus!
