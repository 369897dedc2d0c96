use aes::cipher::{BlockEncryptMut, KeyIvInit};
use aes_gcm::aead::{Aead, KeyInit};
use aes_gcm::Aes256Gcm;
use claude_usage::cookies::chrome::{choose_db, has_v20_cookies, needs_secret, read};
use claude_usage::cookies::crypto::try_decrypt;
use claude_usage::cookies::platform::{decrypt_for, linux, macos, windows, Platform};
use claude_usage::cookies::{read_cookies, CookieError, StoreRows};

fn encrypt(password: &[u8], rounds: u32, plaintext: &[u8]) -> Vec<u8> {
    let mut key = [0u8; 16];
    pbkdf2::pbkdf2_hmac::<sha1::Sha1>(password, b"saltysalt", rounds, &mut key);
    let iv = [0x20u8; 16];
    let mut buf = plaintext.to_vec();
    buf.resize(plaintext.len() + 16, 0);
    let n = cbc::Encryptor::<aes::Aes128>::new(&key.into(), &iv.into())
        .encrypt_padded_mut::<aes::cipher::block_padding::Pkcs7>(&mut buf, plaintext.len())
        .unwrap()
        .len();
    buf.truncate(n);
    buf
}

fn stored(prefix: &[u8], ciphertext: &[u8]) -> Vec<u8> {
    let mut v = prefix.to_vec();
    v.extend_from_slice(ciphertext);
    v
}

#[test]
fn peanuts_values_decrypt_on_linux() {
    let ct = encrypt(b"peanuts", 1, b"sk-ant-secret");
    assert_ne!(ct.as_slice(), b"sk-ant-secret");
    assert_eq!(try_decrypt(&ct, b"peanuts", 1).as_deref(), Some("sk-ant-secret"));
    assert_eq!(linux::decrypt_chrome_value(&stored(b"v10", &ct), None).unwrap(), "sk-ant-secret");
    assert_eq!(linux::decrypt_chrome_value(&stored(b"v11", &ct), None).unwrap(), "sk-ant-secret");
}

#[test]
fn keyring_password_is_tried_second() {
    let ct = encrypt(b"hunter2", 1, b"value");
    let err = linux::decrypt_chrome_value(&stored(b"v11", &ct), None).unwrap_err();
    match err {
        CookieError::Decrypt(m) => assert_eq!(m, "Could not decrypt Chrome cookie (tried peanuts + keyring)"),
        _ => panic!("wrong error"),
    }
    assert_eq!(linux::decrypt_chrome_value(&stored(b"v11", &ct), Some(b"hunter2")).unwrap(), "value");
}

#[test]
fn host_hash_prefix_is_removed() {
    let mut plain = vec![0x01u8; 32];
    plain.extend_from_slice(b"cookie");
    let ct = encrypt(b"peanuts", 1, &plain);
    assert_eq!(try_decrypt(&ct, b"peanuts", 1).as_deref(), Some("cookie"));
    let text = b"abcdefghijklmnopqrstuvwxyz0123456789";
    let ct = encrypt(b"peanuts", 1, text);
    assert_eq!(try_decrypt(&ct, b"peanuts", 1).as_deref(), Some("abcdefghijklmnopqrstuvwxyz0123456789"));
}

#[test]
fn broken_ciphertext_does_not_decrypt() {
    assert_eq!(try_decrypt(b"short", b"peanuts", 1), None);
    assert_eq!(try_decrypt(&[], b"peanuts", 1), None);
    let ct = encrypt(b"peanuts", 1, &[0xff, 0xfe]);
    assert_eq!(try_decrypt(&ct, b"peanuts", 1), None);
}

#[test]
fn plain_and_empty_values_pass_through() {
    assert_eq!(linux::decrypt_chrome_value(b"", None).unwrap(), "");
    assert_eq!(linux::decrypt_chrome_value(b"plain", None).unwrap(), "plain");
    assert_eq!(linux::decrypt_chrome_value(b"v1", None).unwrap(), "v1");
    assert_eq!(linux::decrypt_chrome_value(b"\xffab", None).unwrap(), "\u{fffd}ab");
    assert_eq!(windows::decrypt_chrome_value(b"plain", None).unwrap(), "plain");
    assert_eq!(macos::decrypt_chrome_value(b"plain", None).unwrap(), "plain");
}

#[test]
fn macos_uses_the_keychain_password() {
    let ct = encrypt(b"keychain-pw", 1003, b"mac-value");
    assert_eq!(macos::decrypt_chrome_value(&stored(b"v10", &ct), Some(b"keychain-pw")).unwrap(), "mac-value");
    match macos::decrypt_chrome_value(&stored(b"v10", &ct), None).unwrap_err() {
        CookieError::Decrypt(m) => assert_eq!(m, "Keychain lookup failed for all browsers"),
        _ => panic!("wrong error"),
    }
    match macos::decrypt_chrome_value(&stored(b"v10", &ct), Some(b"wrong")).unwrap_err() {
        CookieError::Decrypt(m) => assert!(m == "AES decrypt failed: Unpad Error" || m.starts_with("UTF-8 decode failed: ")),
        _ => panic!("wrong error"),
    }
    let bad = encrypt(b"keychain-pw", 1003, &[0xff]);
    match macos::decrypt_chrome_value(&stored(b"v10", &bad), Some(b"keychain-pw")).unwrap_err() {
        CookieError::Decrypt(m) => assert!(m.starts_with("UTF-8 decode failed: ")),
        _ => panic!("wrong error"),
    }
}

fn gcm_seal(key: &[u8; 32], nonce: &[u8; 12], plaintext: &[u8]) -> Vec<u8> {
    let cipher = Aes256Gcm::new(key.into());
    let mut out = b"v10".to_vec();
    out.extend_from_slice(nonce);
    out.extend(cipher.encrypt(nonce.into(), plaintext).unwrap());
    out
}

#[test]
fn windows_decrypts_with_the_dpapi_key() {
    let key = [7u8; 32];
    let stored = gcm_seal(&key, &[1u8; 12], b"win-value");
    assert_eq!(windows::decrypt_chrome_value(&stored, Some(&key)).unwrap(), "win-value");
    assert_eq!(decrypt_for(Platform::Windows, &stored, Some(&key)).unwrap(), "win-value");
    let mut hashed = vec![0u8; 32];
    hashed.extend_from_slice(b"after-hash");
    let stored_hashed = gcm_seal(&key, &[2u8; 12], &hashed);
    assert_eq!(windows::decrypt_chrome_value(&stored_hashed, Some(&key)).unwrap(), "after-hash");
    match windows::decrypt_chrome_value(&stored, None).unwrap_err() {
        CookieError::Decrypt(m) => assert_eq!(m, "Could not read the browser's encryption key (DPAPI)"),
        _ => panic!("wrong error"),
    }
    match windows::decrypt_chrome_value(&stored, Some(&[8u8; 32])).unwrap_err() {
        CookieError::Decrypt(m) => assert_eq!(m, "AES-GCM decrypt failed"),
        _ => panic!("wrong error"),
    }
    match windows::decrypt_chrome_value(b"v10short", Some(&key)).unwrap_err() {
        CookieError::Decrypt(m) => assert_eq!(m, "AES-GCM decrypt failed"),
        _ => panic!("wrong error"),
    }
    assert_eq!(windows::decrypt_chrome_value(b"plain", None).unwrap(), "plain");
}

#[test]
fn password_is_needed_only_when_no_built_in_one_works() {
    let peanuts = encrypt(b"peanuts", 1, b"v");
    let keyring = encrypt(b"from-keyring", 1, b"v");
    let plain = vec![("p".to_string(), b"plain".to_vec())];
    let with_peanuts = vec![("a".to_string(), stored(b"v10", &peanuts))];
    let with_keyring = vec![("a".to_string(), stored(b"v11", &keyring))];
    assert!(!needs_secret(&plain, Platform::Linux));
    assert!(!needs_secret(&with_peanuts, Platform::Linux));
    assert!(needs_secret(&with_keyring, Platform::Linux));
    assert!(needs_secret(&with_peanuts, Platform::MacOs));
    assert!(needs_secret(&with_peanuts, Platform::Windows));
    assert!(!needs_secret(&plain, Platform::Windows));
}

#[test]
fn chromium_database_choice() {
    assert!(matches!(choose_db(&vec![]), Err(CookieError::NoCookieDb)));
    let dbs = vec![("a".to_string(), 5i128), ("b".to_string(), 9), ("c".to_string(), 9)];
    assert_eq!(choose_db(&dbs).unwrap(), "c");
}

#[test]
fn chromium_rows_keep_only_decrypted_nonempty_values() {
    let ct = encrypt(b"peanuts", 1, b"sk");
    let rows = vec![
        ("sessionKey".to_string(), stored(b"v10", &ct)),
        ("empty".to_string(), Vec::new()),
        ("broken".to_string(), b"v10xxxx".to_vec()),
        ("plain".to_string(), b"p".to_vec()),
    ];
    let jar = read(&rows, Platform::Linux, None);
    assert_eq!(jar.len(), 2);
    assert_eq!(jar.get("sessionKey").map(|s| s.as_str()), Some("sk"));
    assert_eq!(jar.get("plain").map(|s| s.as_str()), Some("p"));
    let jar = read_cookies(&StoreRows::Chromium(rows), Platform::Linux, None);
    assert_eq!(jar.len(), 2);
}

#[test]
fn firefox_rows_are_kept_as_they_are() {
    let rows = vec![("a".to_string(), "".to_string()), ("b".to_string(), "1".to_string()), ("b".to_string(), "2".to_string())];
    let jar = read_cookies(&StoreRows::Firefox(rows), Platform::Linux, None);
    assert_eq!(jar.len(), 2);
    assert_eq!(jar.get("a").map(|s| s.as_str()), Some(""));
    assert_eq!(jar.get("b").map(|s| s.as_str()), Some("2"));
}

#[test]
fn app_bound_values_are_detected() {
    assert!(has_v20_cookies(&vec![b"v10abc".to_vec(), b"v20abc".to_vec()]));
    assert!(!has_v20_cookies(&vec![b"v10abc".to_vec(), b"v2".to_vec(), b"".to_vec()]));
    assert!(!has_v20_cookies(&vec![]));
}
