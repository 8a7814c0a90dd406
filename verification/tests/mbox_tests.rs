use mailbackup_core::mbox::{escape_line, mbox_message, sender_of, AddressHeader, MboxExporter};
use mailbackup_core::storage::StorageEngine;

#[test]
fn test_mbox_message_escapes_body_from_lines() {
    let raw_eml1 = b"From: alice@example.com\r\nSubject: First\r\n\r\nHello from message 1\r\nFrom somewhere";
    let raw_eml2 = b"From: bob@example.com\r\nSubject: Second\r\n\r\nHello from message 2";
    let mut mbox_content = mbox_message(raw_eml1, "Thu Jan  1 00:00:00 2026");
    mbox_content.push_str(&mbox_message(raw_eml2, "Thu Jan  1 00:00:00 2026"));
    assert!(mbox_content.contains("From "));
    assert!(mbox_content.contains(">From somewhere")); // Escaped
    assert!(mbox_content.contains("Subject: First"));
    assert!(mbox_content.contains("Subject: Second"));
    assert!(mbox_content.starts_with("From alice@example.com Thu Jan  1 00:00:00 2026\n"));
    assert!(mbox_content.ends_with("Hello from message 2\n\n"));
}

#[test]
fn undated_unparsable_message_uses_mailer_daemon_and_now() {
    let out = mbox_message(b"no headers at all", "NOW");
    assert!(out.starts_with("From "));
    assert!(out.ends_with("\n\n"));
}

#[test]
fn dated_message_uses_its_own_date() {
    let raw = b"From: carol@example.com\r\nDate: Thu, 1 Jan 2026 08:30:00 +0000\r\nSubject: Dated\r\n\r\nBody";
    let out = mbox_message(raw, "NOW");
    assert!(out.starts_with("From carol@example.com Thu Jan  1 08:30:00 2026\n"), "{}", out);
}

#[test]
fn escaping_adds_one_quote_level() {
    let l: Vec<char> = "From here".chars().collect();
    assert_eq!(escape_line(&l).iter().collect::<String>(), ">From here");
    let q: Vec<char> = ">From there".chars().collect();
    assert_eq!(escape_line(&q).iter().collect::<String>(), ">>From there");
    let n: Vec<char> = "Fromage".chars().collect();
    assert_eq!(escape_line(&n).iter().collect::<String>(), "Fromage");
}

#[test]
fn exporter_renders_with_its_archive() {
    let storage = StorageEngine::new("/tmp/archive");
    let exporter = MboxExporter::new(&storage);
    assert_eq!(exporter.storage().base_dir(), "/tmp/archive");
    let out = exporter.render_message(b"From: d@example.com\r\n\r\nhi");
    assert!(out.starts_with("From d@example.com "));
    assert!(out.ends_with("hi\n\n"));
}

#[test]
fn sender_is_first_entry_of_list_or_first_group() {
    let list = AddressHeader::List(vec![Some("a@x.org".to_string()), Some("b@x.org".to_string())]);
    assert_eq!(sender_of(&list), Some("a@x.org".to_string()));
    let nameless = AddressHeader::List(vec![None, Some("b@x.org".to_string())]);
    assert_eq!(sender_of(&nameless), None);
    let groups = AddressHeader::Groups(vec![vec![], vec![Some("c@x.org".to_string())]]);
    assert_eq!(sender_of(&groups), None);
    let groups = AddressHeader::Groups(vec![vec![Some("d@x.org".to_string())], vec![Some("c@x.org".to_string())]]);
    assert_eq!(sender_of(&groups), Some("d@x.org".to_string()));
    assert_eq!(sender_of(&AddressHeader::Groups(vec![])), None);
}

#[test]
fn envelope_uses_sender_and_falls_back_to_mailer_daemon() {
    let with_group = b"From: Team: carol@example.com, dan@example.com;\r\nSubject: G\r\n\r\nbody";
    let m = mbox_message(with_group, "Thu Jan  1 00:00:00 2026");
    assert!(m.starts_with("From carol@example.com "));
    let without_from = b"Subject: none\r\n\r\nbody";
    let m = mbox_message(without_from, "Thu Jan  1 00:00:00 2026");
    assert!(m.starts_with("From MAILER-DAEMON Thu Jan  1 00:00:00 2026\n"));
}
