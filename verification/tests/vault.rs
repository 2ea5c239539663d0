use pm_store::error::StoreError;
use pm_store::rows::SettingsUpdate;
use pm_store::store::Workspace;
use pm_store::vault::{decrypt_string, derive_key, encrypt_string, machine_identifier};

fn blank_update() -> SettingsUpdate {
    SettingsUpdate {
        api_key: None,
        username: None,
        name: None,
        surname: None,
        job_title: None,
        company: None,
        company_url: None,
        profile_pic: None,
        about_me: None,
        about_role: None,
    }
}

#[test]
fn derive_key_is_deterministic_and_32_bytes() {
    let k1 = derive_key("machine-a");
    let k2 = derive_key("machine-a");
    let k3 = derive_key("machine-b");
    assert_eq!(k1.len(), 32);
    assert_eq!(k1, k2);
    assert_ne!(k1, k3);
    // the digest reduces inputs of any length to exactly 32 bytes
    assert_eq!(derive_key("x").len(), 32);
    assert_eq!(derive_key("a very long machine identifier string").len(), 32);
}

#[test]
fn machine_identifier_never_fails() {
    let id = machine_identifier();
    assert!(!id.is_empty());
}

#[test]
fn encrypt_decrypt_round_trips() {
    let key = derive_key("machine-a");
    let ct = encrypt_string("sk-secret-value", &key).unwrap();
    assert_ne!(ct, "sk-secret-value");
    let pt = decrypt_string(&ct, &key).unwrap();
    assert_eq!(pt, "sk-secret-value");
}

#[test]
fn empty_plaintext_round_trips() {
    let key = derive_key("machine-a");
    let ct = encrypt_string("", &key).unwrap();
    assert_eq!(decrypt_string(&ct, &key).unwrap(), "");
}

#[test]
fn two_encryptions_differ_by_nonce_but_both_open() {
    let key = derive_key("machine-a");
    let c1 = encrypt_string("same text", &key).unwrap();
    let c2 = encrypt_string("same text", &key).unwrap();
    assert_ne!(c1, c2);
    assert_eq!(decrypt_string(&c1, &key).unwrap(), "same text");
    assert_eq!(decrypt_string(&c2, &key).unwrap(), "same text");
}

#[test]
fn decrypt_with_wrong_key_fails_authentication() {
    let key = derive_key("machine-a");
    let other = derive_key("machine-b");
    let ct = encrypt_string("secret", &key).unwrap();
    assert_eq!(decrypt_string(&ct, &other).unwrap_err(), StoreError::DecryptFailed);
}

#[test]
fn tampered_ciphertext_fails_authentication() {
    let key = derive_key("machine-a");
    let ct = encrypt_string("secret", &key).unwrap();
    // flip one character of the base64 body, keeping it valid base64
    let mut chars: Vec<char> = ct.chars().collect();
    let mid = chars.len() / 2;
    chars[mid] = if chars[mid] == 'A' { 'B' } else { 'A' };
    let tampered: String = chars.into_iter().collect();
    let r = decrypt_string(&tampered, &key);
    assert!(matches!(
        r,
        Err(StoreError::DecryptFailed) | Err(StoreError::Base64Malformed)
    ));
}

#[test]
fn malformed_base64_is_its_own_error() {
    let key = derive_key("machine-a");
    assert_eq!(
        decrypt_string("@@not base64@@", &key).unwrap_err(),
        StoreError::Base64Malformed
    );
    // valid base64 that is too short to hold a nonce
    assert_eq!(
        decrypt_string("AAAA", &key).unwrap_err(),
        StoreError::Base64Malformed
    );
}

#[test]
fn settings_lifecycle_with_api_key() {
    let key = derive_key("machine-a");
    let mut w = Workspace::new();
    assert_eq!(w.get_settings().unwrap_err(), StoreError::SettingsMissing);
    w.ensure_settings(1000);
    let s = w.get_settings().unwrap();
    assert_eq!(s.id, "default");
    assert_eq!(s.api_key_encrypted, None);
    // creation happens once: a second ensure keeps the original row
    w.ensure_settings(2000);
    assert_eq!(w.get_settings().unwrap().created_at, 1000);

    let mut upd = blank_update();
    upd.api_key = Some("sk-test".to_string());
    let row = w.update_settings(upd, &key, 3000).unwrap();
    assert!(row.api_key_encrypted.is_some());
    assert_eq!(w.get_decrypted_api_key(&key).unwrap(), Some("sk-test".to_string()));

    w.delete_api_key(4000).unwrap();
    assert_eq!(w.get_decrypted_api_key(&key).unwrap(), None);
    assert_eq!(w.get_settings().unwrap().updated_at, 4000);
}

#[test]
fn update_settings_coalesces_profile_fields() {
    let key = derive_key("machine-a");
    let mut w = Workspace::new();
    w.ensure_settings(1000);
    let mut upd = blank_update();
    upd.username = Some("ada".to_string());
    upd.company = Some("Analytical".to_string());
    w.update_settings(upd, &key, 2000).unwrap();
    let mut upd2 = blank_update();
    upd2.company = Some("Engines".to_string());
    let row = w.update_settings(upd2, &key, 3000).unwrap();
    assert_eq!(row.username, Some("ada".to_string()));
    assert_eq!(row.company, Some("Engines".to_string()));
    assert_eq!(row.updated_at, 3000);
}

#[test]
fn empty_api_key_keeps_the_stored_one() {
    let key = derive_key("machine-a");
    let mut w = Workspace::new();
    w.ensure_settings(1000);
    let mut upd = blank_update();
    upd.api_key = Some("sk-first".to_string());
    w.update_settings(upd, &key, 2000).unwrap();
    let mut upd2 = blank_update();
    upd2.api_key = Some("".to_string());
    w.update_settings(upd2, &key, 3000).unwrap();
    assert_eq!(w.get_decrypted_api_key(&key).unwrap(), Some("sk-first".to_string()));
}

#[test]
fn error_messages_are_descriptive() {
    assert_eq!(
        StoreError::ProtectedEntity.message(),
        "cannot delete built-in entries"
    );
    assert_eq!(StoreError::Base64Malformed.message(), "base64 decode failed");
}
