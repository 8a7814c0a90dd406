use mailbackup_core::db::{
    build_fts_query, build_search_query, export_folder_indices, folder_indices_named, folder_for_sync, AdvancedSearchFilter, FolderAction, FolderRecord, SqlValue,
};

fn text(v: &SqlValue) -> String {
    match v {
        SqlValue::Text(s) => s.clone(),
        SqlValue::Integer(i) => panic!("expected text, got {}", i),
    }
}

fn integer(v: &SqlValue) -> i64 {
    match v {
        SqlValue::Integer(i) => *i,
        SqlValue::Text(s) => panic!("expected integer, got {}", s),
    }
}

#[test]
fn empty_filter_hides_deleted_and_limits_to_fifty() {
    let q = build_search_query(&AdvancedSearchFilter::default());
    assert!(q.sql.contains("WHERE m.is_remote_deleted = 0"));
    assert!(q.sql.contains("FROM messages m"));
    assert!(!q.sql.contains("messages_fts"));
    assert_eq!(q.params.len(), 1);
    assert_eq!(integer(&q.params[0]), 50);
}

#[test]
fn full_text_query_becomes_prefix_tokens() {
    assert_eq!(build_fts_query("quarterly earnings"), "\"quarterly\"* \"earnings\"*");
    assert_eq!(build_fts_query("wild*card"), "\"wildcard\"*");
    assert_eq!(build_fts_query("\"exact phrase\""), "\"exact phrase\"");
    let mut f = AdvancedSearchFilter::default();
    f.query = Some("  quarterly earnings ".to_string());
    f.include_deleted = Some(true);
    f.limit = Some(10_000);
    let q = build_search_query(&f);
    assert!(q.sql.contains("FROM messages_fts"));
    assert!(q.sql.contains("WHERE messages_fts MATCH ?"));
    assert!(q.sql.contains("ORDER BY messages_fts.rank, m.date DESC"));
    assert!(!q.sql.contains("is_remote_deleted"));
    assert_eq!(q.params.len(), 2);
    assert_eq!(text(&q.params[0]), "\"quarterly\"* \"earnings\"*");
    assert_eq!(integer(&q.params[1]), 500);
}

#[test]
fn word_filters_give_one_condition_per_word() {
    let mut f = AdvancedSearchFilter::default();
    f.from = Some("cfo@company.com legal".to_string());
    f.exclude_words = Some("billing".to_string());
    f.subject = Some("   ".to_string());
    let q = build_search_query(&f);
    assert!(q.sql.contains(
        "WHERE m.from_addr LIKE ? AND m.from_addr LIKE ? AND m.is_remote_deleted = 0 AND m.subject NOT LIKE ?"
    ));
    assert_eq!(q.params.len(), 4);
    assert_eq!(text(&q.params[0]), "%cfo@company.com%");
    assert_eq!(text(&q.params[1]), "%legal%");
    assert_eq!(text(&q.params[2]), "%billing%");
    assert_eq!(integer(&q.params[3]), 50);
}

#[test]
fn scope_date_size_and_attachment_filters() {
    let mut f = AdvancedSearchFilter::default();
    f.date_from = Some("2026-08-01T00:00:00Z".to_string());
    f.date_to = Some("2026-09".to_string());
    f.account_id = Some("ALL".to_string());
    f.folder_id = Some(" f1 ".to_string());
    f.min_size_bytes = Some(20_000);
    f.has_attachments = Some(true);
    f.attachment_name = Some("invoice".to_string());
    f.attachment_type = Some("PDF".to_string());
    f.limit = Some(20);
    let q = build_search_query(&f);
    assert!(q.sql.contains("date(m.date) >= ? AND date(m.date) <= ? AND m.folder_id = ?"));
    assert!(!q.sql.contains("m.account_id = ?"));
    assert!(q.sql.contains("m.size_bytes >= ?"));
    assert!(q.sql.contains("a.filename LIKE ?"));
    assert!(q.sql.contains("a.mime_type LIKE '%pdf%'"));
    assert_eq!(text(&q.params[0]), "2026-08-01");
    assert_eq!(text(&q.params[1]), "2026-09");
    assert_eq!(text(&q.params[2]), "f1");
    assert_eq!(integer(&q.params[3]), 20_000);
    assert_eq!(text(&q.params[4]), "%invoice%");
    assert_eq!(integer(&q.params[5]), 20);
    assert_eq!(q.params.len(), 6);
}

fn folder(uv: Option<u32>, last: u32) -> FolderRecord {
    FolderRecord {
        id: "f1".to_string(),
        account_id: "acc1".to_string(),
        remote_name: "INBOX".to_string(),
        local_slug: "inbox".to_string(),
        uidvalidity: uv,
        last_synced_uid: last,
        message_count: 3,
        updated_at: 100,
    }
}

#[test]
fn uidvalidity_change_restarts_from_zero() {
    match folder_for_sync(Some(folder(Some(1), 40)), Some(2), 500) {
        FolderAction::Reset(f) => {
            assert_eq!(f.uidvalidity, Some(2));
            assert_eq!(f.last_synced_uid, 0);
            assert_eq!(f.updated_at, 500);
            assert_eq!(f.id, "f1");
        }
        _ => panic!("expected a reset"),
    }
    match folder_for_sync(Some(folder(Some(1), 40)), Some(1), 500) {
        FolderAction::Keep(f) => assert_eq!(f.last_synced_uid, 40),
        _ => panic!("expected the record kept"),
    }
    match folder_for_sync(Some(folder(None, 40)), Some(7), 500) {
        FolderAction::Keep(f) => assert_eq!(f.uidvalidity, None),
        _ => panic!("expected the record kept"),
    }
    assert!(matches!(folder_for_sync(None, Some(7), 500), FolderAction::Create));
}

#[test]
fn export_folder_selection() {
    let mut a = folder(Some(1), 0);
    a.id = "f1".to_string();
    let mut b = folder(Some(1), 0);
    b.id = "f2".to_string();
    b.remote_name = "Sent".to_string();
    b.local_slug = "sent".to_string();
    let fs = vec![a, b];
    assert_eq!(export_folder_indices(&fs, &None), vec![0, 1]);
    assert_eq!(export_folder_indices(&fs, &Some("ALL".to_string())), vec![0, 1]);
    assert_eq!(export_folder_indices(&fs, &Some(" ".to_string())), vec![0, 1]);
    assert_eq!(export_folder_indices(&fs, &Some("f2".to_string())), vec![1]);
    assert_eq!(folder_indices_named(&fs, "sent"), vec![1]);
    assert_eq!(folder_indices_named(&fs, "INBOX"), vec![0]);
    assert!(folder_indices_named(&fs, "Drafts").is_empty());
}
