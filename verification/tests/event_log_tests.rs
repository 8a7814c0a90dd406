use mailbackup_core::event_log::{event_line, format_log_line, recent_log_entries};

#[test]
fn test_event_log_operations() {
    let mut raw = String::new();
    raw.push_str(&event_line("ACCOUNT_ADDED", "Account 'Work' (work@corp.com) added"));
    raw.push_str(&event_line("SYNC_SUCCESS", "Account 'Work': Synced 42 messages"));

    let entries = recent_log_entries(&raw, 10);
    assert!(entries.len() >= 2);
    assert_eq!(entries[0].event_type, "SYNC_SUCCESS");
    assert!(entries[0].details.contains("42 messages"));

    assert!(raw.contains("[ACCOUNT_ADDED]"));
    assert!(raw.contains("[SYNC_SUCCESS]"));
}

#[test]
fn log_lines_are_upper_cased_and_parsed_back() {
    let line = format_log_line("2026-01-02T03:04:05+00:00", "sync_started", "go");
    assert_eq!(line, "[2026-01-02T03:04:05+00:00] [SYNC_STARTED] go\n");
    let entries = recent_log_entries(&format!("{}garbage line\n", line), 5);
    assert_eq!(entries.len(), 1);
    assert_eq!(entries[0].event_type, "SYNC_STARTED");
    assert_eq!(entries[0].details, "go");
    assert_eq!(entries[0].timestamp_secs, 1_767_323_045);
}

#[test]
fn limit_keeps_the_newest() {
    let mut raw = String::new();
    for i in 0..5 {
        raw.push_str(&format_log_line("2026-01-02T03:04:05Z", "E", &format!("n{}", i)));
    }
    let entries = recent_log_entries(&raw, 2);
    assert_eq!(entries.len(), 2);
    assert_eq!(entries[0].details, "n4");
    assert_eq!(entries[1].details, "n3");
}
