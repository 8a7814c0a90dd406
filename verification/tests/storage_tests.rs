use mailbackup_core::storage::StorageEngine;

#[test]
fn sha256_hex_and_checksum_match() {
    let h = StorageEngine::compute_sha256(b"abc");
    assert_eq!(h, "ba7816bf8f01cfea414140de5dae2223b00361a396177a9cb410ff61f20015ad");
    assert!(StorageEngine::checksum_matches(b"abc", &h.to_uppercase()));
    assert!(!StorageEngine::checksum_matches(b"abd", &h));
}

#[test]
fn eml_location_layout() {
    let storage = StorageEngine::new("/archive");
    // 2021-01-01T00:00:00Z
    let info = storage.eml_location("acc1", "INBOX/Work Items", 101, Some(1_609_459_200), b"hello");
    let sha = StorageEngine::compute_sha256(b"hello");
    assert_eq!(info.sha256, sha);
    assert_eq!(info.size_bytes, 5);
    assert_eq!(info.relative_path, format!("acc1/INBOX_Work_Items/2021/01/101_{}.eml", &sha[..12]));
    assert_eq!(info.absolute_path, format!("/archive/{}", info.relative_path));
}

#[test]
fn slug_and_base_dir() {
    assert_eq!(StorageEngine::sanitize_slug("[Gmail]/All Mail"), "Gmail_All_Mail");
    let mut s = StorageEngine::new("/a");
    s.set_base_dir("/b");
    assert_eq!(s.base_dir(), "/b");
    assert_eq!(s.get_absolute_path("x/y.eml"), "/b/x/y.eml");
}
