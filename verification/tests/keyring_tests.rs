use mailbackup_core::error::Error;
use mailbackup_core::keyring::{
    account_key_of, decrypt_secret, encrypt_secret, encrypt_secret_with_nonce, CredentialStore,
};

fn key(b: u8) -> [u8; 32] {
    [b; 32]
}

fn keyring_message(e: Error) -> String {
    match e {
        Error::Keyring(m) => m,
        other => panic!("unexpected error: {}", other.message()),
    }
}

#[test]
fn sealed_secret_opens_to_itself() {
    let k = key(7);
    let sealed = encrypt_secret("supersecret123", &k).unwrap();
    assert!(sealed.starts_with("enc:v1:"));
    assert!(!sealed.contains("supersecret123"));
    assert_eq!(decrypt_secret(&sealed, &k).unwrap(), "supersecret123");
    let unicode = encrypt_secret("pässwörd ✓", &k).unwrap();
    assert_eq!(decrypt_secret(&unicode, &k).unwrap(), "pässwörd ✓");
}

#[test]
fn sealed_text_has_nonce_and_ciphertext_hex() {
    let nonce = vec![0u8, 1, 2, 3, 4, 5, 6, 7, 8, 9, 10, 11];
    let sealed = encrypt_secret_with_nonce("abc", &key(1), &nonce).unwrap();
    assert!(sealed.starts_with("enc:v1:000102030405060708090a0b:"));
    // 3 bytes of plaintext and a 16-byte tag
    let ct_hex = sealed.rsplit(':').next().unwrap();
    assert_eq!(ct_hex.len(), 2 * (3 + 16));
}

#[test]
fn unmarked_text_is_taken_as_it_is() {
    assert_eq!(decrypt_secret("legacy-plain", &key(3)).unwrap(), "legacy-plain");
}

#[test]
fn wrong_key_fails_to_open() {
    let sealed = encrypt_secret("s3cr3t", &key(1)).unwrap();
    let m = keyring_message(decrypt_secret(&sealed, &key(2)).unwrap_err());
    assert_eq!(m, "Decryption failed: aead::Error");
}

#[test]
fn malformed_sealed_texts_are_refused() {
    let k = key(4);
    assert_eq!(
        keyring_message(decrypt_secret("enc:v1:nocolon", &k).unwrap_err()),
        "Malformed encrypted credential format"
    );
    assert_eq!(
        keyring_message(decrypt_secret("enc:v1:zz:00", &k).unwrap_err()),
        "Invalid nonce hex: Invalid character 'z' at position 0"
    );
    assert_eq!(
        keyring_message(decrypt_secret("enc:v1:0011:0", &k).unwrap_err()),
        "Invalid ciphertext hex: Odd number of digits"
    );
    assert_eq!(
        keyring_message(decrypt_secret("enc:v1:0011:00", &k).unwrap_err()),
        "Invalid nonce length for AES-GCM"
    );
}

#[test]
fn test_keyring_error_message_text() {
    let e = Error::Keyring("boom".to_string());
    assert_eq!(e.message(), "Keyring error: boom");
    let e2 = Error::AuthFailed("acc".to_string(), "bad".to_string());
    assert_eq!(e2.message(), "Authentication failed for account 'acc': bad");
}

#[test]
fn set_get_delete_in_opened_map() {
    let store = CredentialStore::with_paths("/tmp/store.json".to_string(), "/tmp/store.key".to_string());
    let mut entries: Vec<(String, String)> = Vec::new();
    store.set_password(&mut entries, "acc1", "first");
    store.set_password(&mut entries, "acc2", "other");
    store.set_password(&mut entries, "acc1", "supersecret123");
    assert_eq!(entries.len(), 2);
    assert_eq!(store.get_password(None, &entries, "acc1").unwrap(), "supersecret123");
    assert_eq!(store.get_password(None, &entries, "acc2").unwrap(), "other");
    assert_eq!(
        store.get_password(Some("from-os".to_string()), &entries, "acc1").unwrap(),
        "from-os"
    );
    store.delete_password(&mut entries, "acc1");
    let m = keyring_message(store.get_password(None, &entries, "acc1").unwrap_err());
    assert_eq!(m, "Secret not found for key 'account:acc1'");
    assert_eq!(store.get_password(None, &entries, "acc2").unwrap(), "other");
}

#[test]
fn store_file_is_sealed_and_reopens() {
    let store = CredentialStore::with_paths("/tmp/s.json".to_string(), "/tmp/s.key".to_string());
    let k = key(9);
    let mut entries: Vec<(String, String)> = Vec::new();
    store.set_password(&mut entries, "acc1", "supersecret123");
    let bytes = store.encode_store(&entries, &k).unwrap();
    let text = String::from_utf8(bytes.clone()).unwrap();
    assert!(!text.contains("supersecret123"), "Plaintext password must not be present on disk!");
    assert!(text.contains("enc:v1:"), "Stored secrets must be encrypted with enc:v1: prefix");
    let (back, needs_migration) = store.decode_store(&bytes, &k, false);
    assert!(!needs_migration);
    assert_eq!(back, entries);
}

#[test]
fn legacy_plaintext_store_needs_migration() {
    let store = CredentialStore::with_paths("/tmp/l.json".to_string(), "/tmp/l.key".to_string());
    let legacy = br#"{ "account:legacy_user": "cleartext_password_999" }"#;
    let (entries, needs_migration) = store.decode_store(legacy, &key(1), false);
    assert!(needs_migration);
    assert_eq!(store.get_password(None, &entries, "legacy_user").unwrap(), "cleartext_password_999");
    // read from the older undotted file: migration too
    let sealed = store.encode_store(&entries, &key(1)).unwrap();
    let (_, from_undotted) = store.decode_store(&sealed, &key(1), true);
    assert!(from_undotted);
    // entries that cannot be opened are left out
    let (none, _) = store.decode_store(&sealed, &key(2), false);
    assert!(none.is_empty());
    // not JSON: nothing
    let (empty, flag) = store.decode_store(b"not json", &key(1), true);
    assert!(empty.is_empty() && !flag);
}

#[test]
fn active_store_path_prefers_the_store_then_the_undotted_file() {
    let store = CredentialStore::with_fallback_path("/data/.credentials_store.json".to_string());
    assert_eq!(store.key_path(), "/data/.credentials_store.key");
    assert_eq!(store.undotted_path(), "/data/credentials_store.json");
    assert_eq!(store.get_active_store_path(true, true), "/data/.credentials_store.json");
    assert_eq!(store.get_active_store_path(false, true), "/data/credentials_store.json");
    assert_eq!(store.get_active_store_path(false, false), "/data/.credentials_store.json");
}

#[test]
fn master_key_sources_in_order() {
    let store = CredentialStore::with_paths("/x/s.json".to_string(), "/x/s.key".to_string());
    let hex_a = "aa".repeat(32);
    let hex_b = "bb".repeat(32);
    // the environment passphrase wins: SHA-256 of the trimmed text
    let k = store
        .get_master_key(Some("  pass  ".to_string()), Some(hex_a.clone()), Some(hex_b.clone()))
        .unwrap();
    let k2 = store.get_master_key(Some("pass".to_string()), None, None).unwrap();
    assert_eq!(k, k2);
    assert_ne!(k, [0xaa; 32]);
    // a blank passphrase is ignored
    assert_eq!(store.get_master_key(Some("   ".to_string()), Some(hex_a.clone()), None), Some([0xaa; 32]));
    // keyring hex before the key file
    assert_eq!(store.get_master_key(None, Some(hex_a.clone()), Some(hex_b.clone())), Some([0xaa; 32]));
    // key file, trimmed
    assert_eq!(store.get_master_key(None, Some("short".to_string()), Some(format!("{}\n", hex_b))), Some([0xbb; 32]));
    assert_eq!(store.get_master_key(None, None, Some("abcd".to_string())), None);
    assert_eq!(store.get_master_key(None, None, None), None);
}

#[test]
fn fallback_seed_depends_on_the_key_path() {
    let a = CredentialStore::with_paths("/x/s.json".to_string(), "/x/a.key".to_string());
    let b = CredentialStore::with_paths("/x/s.json".to_string(), "/x/b.key".to_string());
    assert_eq!(a.fallback_seed_key(), a.fallback_seed_key());
    assert_ne!(a.fallback_seed_key(), b.fallback_seed_key());
}

#[test]
fn account_keys_are_prefixed() {
    assert_eq!(account_key_of("acc1"), "account:acc1");
}

#[test]
fn master_key_hex_reads_back() {
    let mut k = [0u8; 32];
    for (i, b) in k.iter_mut().enumerate() {
        *b = (i as u8).wrapping_mul(37);
    }
    let text = mailbackup_core::keyring::encode_master_key(&k);
    assert_eq!(text.len(), 64);
    assert!(text.starts_with("00254a6f"));
    let store = mailbackup_core::keyring::CredentialStore::with_paths("/tmp/x.json".to_string(), "/tmp/x.key".to_string());
    assert_eq!(store.get_master_key(None, None, Some(text)), Some(k));
}

fn store() -> CredentialStore {
    CredentialStore::with_paths("/tmp/rt.json".to_string(), "/tmp/rt.key".to_string())
}

#[test]
fn store_set_password_reads_back_through_file() {
    let s = store();
    let k = key(4);
    let mut entries: Vec<(String, String)> = Vec::new();
    s.set_password(&mut entries, "acc1", "supersecret123");
    s.set_password(&mut entries, "acc2", "other");
    let bytes = s.encode_store(&entries, &k).unwrap();
    let (back, rewrite) = s.decode_store(&bytes, &k, false);
    assert!(!rewrite);
    assert_eq!(s.get_password(None, &back, "acc1").unwrap(), "supersecret123");
    let mut again = back;
    s.set_password(&mut again, "acc1", "changed");
    let bytes = s.encode_store(&again, &k).unwrap();
    let (back, _) = s.decode_store(&bytes, &k, false);
    assert_eq!(s.get_password(None, &back, "acc1").unwrap(), "changed");
    assert_eq!(s.get_password(None, &back, "acc2").unwrap(), "other");
}

#[test]
fn store_deleted_password_is_gone_after_reread() {
    let s = store();
    let k = key(5);
    let mut entries: Vec<(String, String)> = Vec::new();
    s.set_password(&mut entries, "acc1", "supersecret123");
    s.set_password(&mut entries, "acc2", "keep");
    s.delete_password(&mut entries, "acc1");
    let bytes = s.encode_store(&entries, &k).unwrap();
    let (back, _) = s.decode_store(&bytes, &k, false);
    assert!(matches!(s.get_password(None, &back, "acc1"), Err(Error::Keyring(_))));
    assert_eq!(s.get_password(None, &back, "acc2").unwrap(), "keep");
}

#[test]
fn store_migrated_plaintext_reads_back_on_second_read() {
    let s = store();
    let k = key(6);
    let legacy = br#"{"account:legacy_user": "cleartext_password_999"}"#;
    let (entries, rewrite) = s.decode_store(legacy, &k, false);
    assert!(rewrite);
    let bytes = s.encode_store(&entries, &k).unwrap();
    let text = String::from_utf8(bytes.clone()).unwrap();
    assert!(!text.contains("cleartext_password_999"));
    assert!(text.contains("enc:v1:"));
    let (back, rewrite) = s.decode_store(&bytes, &k, false);
    assert!(!rewrite);
    assert_eq!(s.get_password(None, &back, "legacy_user").unwrap(), "cleartext_password_999");
}

#[test]
fn event_line_reads_back_type_and_details() {
    let line = mailbackup_core::event_log::event_line("sync_success", "Account 'Work': Synced 42 messages");
    let entries = mailbackup_core::event_log::recent_log_entries(&line, 10);
    assert_eq!(entries.len(), 1);
    assert_eq!(entries[0].event_type, "SYNC_SUCCESS");
    assert_eq!(entries[0].details, "Account 'Work': Synced 42 messages");
}

#[test]
fn generated_master_key_reads_back() {
    let (k, text) = mailbackup_core::keyring::generate_master_key();
    assert_eq!(text.len(), 64);
    assert_eq!(store().get_master_key(None, None, Some(text)), Some(k));
    let (k2, _) = mailbackup_core::keyring::generate_master_key();
    assert_ne!(k, k2);
}
