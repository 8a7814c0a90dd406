use mailbackup_core::config::{AccountConfig, AuthType, FolderFilter, ProviderType};
use mailbackup_core::config::AppConfig;
use mailbackup_core::error::Error;
use mailbackup_core::imap::{
    accounts_to_sync, format_address,
    folders_to_sync, new_uids, run_status, server_address, should_sync_folder, summarize_message, uid_search_query,
    SyncProgress,
};

#[test]
fn exclusions_take_precedence_over_inclusions() {
    let f = FolderFilter { included: vec!["INBOX".to_string()], exclude: vec!["Trash".to_string()] };
    assert!(should_sync_folder(&f, "INBOX"));
    assert!(should_sync_folder(&f, "inbox"));
    assert!(should_sync_folder(&f, "INBOX/Work"));
    assert!(!should_sync_folder(&f, "Sent"));
    let g = FolderFilter { included: vec!["INBOX".to_string()], exclude: vec!["INBOX".to_string()] };
    assert!(!should_sync_folder(&g, "INBOX"));
}

#[test]
fn default_filter_skips_trash_and_spam() {
    let f = FolderFilter::default();
    assert!(should_sync_folder(&f, "INBOX"));
    assert!(!should_sync_folder(&f, "[Gmail]/Trash"));
    assert!(!should_sync_folder(&f, "junk"));
    let names = vec!["INBOX".to_string(), "Spam".to_string(), "Sent".to_string()];
    assert_eq!(folders_to_sync(&f, &names), vec!["INBOX".to_string(), "Sent".to_string()]);
}

#[test]
fn new_uids_are_after_the_checkpoint_in_order() {
    assert_eq!(new_uids(&vec![9, 3, 12, 5, 7], 5), vec![7, 9, 12]);
    assert!(new_uids(&vec![1, 2], 2).is_empty());
    assert_eq!(uid_search_query(41), "UID 42:*");
    assert_eq!(uid_search_query(0), "UID 1:*");
}

#[test]
fn progress_accumulates() {
    let mut p = SyncProgress::start("acc1");
    p.add_found(3);
    p.record_stored(1024);
    p.record_stored(10);
    assert_eq!(p.account_id, "acc1");
    assert_eq!(p.total_messages, 3);
    assert_eq!(p.processed_messages, 2);
    assert_eq!(p.downloaded_bytes, 1034);
    assert_eq!(run_status(false), "success");
    assert_eq!(run_status(true), "partial_or_failed");
}

#[test]
fn message_summary_reads_headers() {
    let raw = b"From: Alice <alice@example.com>\r\nTo: bob@example.com, carol@example.com\r\nSubject: Urgent Financial Report\r\nMessage-ID: <msg001@example.com>\r\nDate: Tue, 1 Sep 2026 10:00:00 +0000\r\n\r\nPlease review the attached report.";
    let s = summarize_message(raw, Some(5));
    assert_eq!(s.subject.as_deref(), Some("Urgent Financial Report"));
    assert_eq!(s.from_addr.as_deref(), Some("alice@example.com"));
    assert_eq!(s.to_addrs.as_deref(), Some("bob@example.com, carol@example.com"));
    assert_eq!(s.cc_addrs, None);
    assert_eq!(s.message_id.as_deref(), Some("msg001@example.com"));
    assert_eq!(s.date, Some(1788256800));
    assert!(s.body_text.unwrap().contains("Please review"));
    assert!(s.attachments.is_empty());
    let undated = summarize_message(b"Subject: x\r\n\r\nbody", Some(77));
    assert_eq!(undated.date, Some(77));
}

#[test]
fn server_address_is_host_and_port() {
    let a = AccountConfig {
        id: "a".to_string(),
        name: "A".to_string(),
        email: "a@example.com".to_string(),
        provider: ProviderType::GenericImap,
        imap_server: "imap.example.com".to_string(),
        imap_port: 993,
        use_tls: true,
        auth_type: AuthType::Password,
        username: "a".to_string(),
        schedule: None,
        retention_days: None,
        folder_filter: FolderFilter::default(),
        gmail_smart_labels: false,
        enabled: true,
    };
    assert_eq!(server_address(&a), "imap.example.com:993");
}

#[test]
fn sync_covers_the_named_or_the_enabled_accounts() {
    let mk = |id: &str, enabled: bool| AccountConfig {
        id: id.to_string(),
        name: id.to_string(),
        email: format!("{}@example.com", id),
        provider: ProviderType::GenericImap,
        imap_server: "imap.example.com".to_string(),
        imap_port: 993,
        use_tls: true,
        auth_type: AuthType::Password,
        username: id.to_string(),
        schedule: None,
        retention_days: None,
        folder_filter: FolderFilter::default(),
        gmail_smart_labels: false,
        enabled,
    };
    let mut cfg = AppConfig::default();
    cfg.accounts = vec![mk("a", true), mk("b", false), mk("c", true)];
    assert_eq!(accounts_to_sync(&cfg, None).unwrap(), vec![0, 2]);
    assert_eq!(accounts_to_sync(&cfg, Some("b@example.com")).unwrap(), vec![1]);
    match accounts_to_sync(&cfg, Some("zzz")) {
        Err(Error::AccountNotFound(m)) => assert_eq!(m, "zzz"),
        _ => panic!("expected AccountNotFound"),
    }
}

#[test]
fn format_address_skips_entries_without_address() {
    let entries = vec![Some("a@x.org".to_string()), None, Some("b@x.org".to_string())];
    assert_eq!(format_address(&entries), "a@x.org, b@x.org");
    assert_eq!(format_address(&vec![None]), "");
    assert_eq!(format_address(&vec![]), "");
}

#[test]
fn summary_joins_header_addresses() {
    let raw = b"From: a@x.org\r\nTo: b@x.org, \"C\" <c@x.org>\r\nCc: Team: d@x.org;\r\nSubject: Hi\r\n\r\nBody";
    let s = summarize_message(raw, None);
    assert_eq!(s.from_addr.as_deref(), Some("a@x.org"));
    assert_eq!(s.to_addrs.as_deref(), Some("b@x.org, c@x.org"));
    assert_eq!(s.cc_addrs.as_deref(), Some("d@x.org"));
}

#[test]
fn message_detail_shows_bodies_and_attachments() {
    let raw = b"From: a@x.org\r\nSubject: Hi\r\nContent-Type: multipart/mixed; boundary=\"b\"\r\n\r\n--b\r\nContent-Type: text/plain\r\n\r\nHello there\r\n--b\r\nContent-Type: application/pdf\r\nContent-Disposition: attachment; filename=\"r.pdf\"\r\n\r\nPDFDATA\r\n--b--\r\n";
    let d = mailbackup_core::imap::message_detail(raw);
    assert_eq!(d.body_text.as_deref().map(|t| t.trim()), Some("Hello there"));
    assert_eq!(d.attachments.len(), 1);
    assert_eq!(d.attachments[0].0, "r.pdf");
    assert_eq!(d.attachments[0].1, "application");
    assert!(d.attachments[0].2 > 0);
}

#[test]
fn message_detail_defaults_for_unnamed_untyped_attachments() {
    let d = mailbackup_core::imap::message_detail_from(Some((
        Some("<p>x</p>".to_string()),
        None,
        vec![(None, None, 7), (Some("a.txt".to_string()), Some("text".to_string()), 3)],
    )));
    assert_eq!(d.body_html.as_deref(), Some("<p>x</p>"));
    assert_eq!(d.body_text, None);
    assert_eq!(
        d.attachments,
        vec![
            ("unnamed".to_string(), "application/octet-stream".to_string(), 7),
            ("a.txt".to_string(), "text".to_string(), 3)
        ]
    );
    let none = mailbackup_core::imap::message_detail_from(None);
    assert!(none.body_html.is_none() && none.body_text.is_none() && none.attachments.is_empty());
}
