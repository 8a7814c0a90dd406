use mailbackup_core::config::{AccountConfig, AppConfig, AuthType, FolderFilter, ProviderType};
use mailbackup_core::imap::SyncProgress;
use mailbackup_core::server::{
    account_from_form, apply_account_update, apply_settings_update, AccountUpdate, import_decision, plan_settings_update, service_toggle_response, settings_update_message,
    sync_status_for, import_accounts, ImportDecision, SyncEvent, UpdateSettingsPayload,
};
use mailbackup_core::service::{service_status_from, TargetOs};

fn payload() -> UpdateSettingsPayload {
    UpdateSettingsPayload {
        data_dir: None,
        move_existing: None,
        db_path: None,
        move_db_existing: None,
        close_to_tray: None,
        autostart: None,
        run_as_service: None,
    }
}

#[test]
fn sync_status_follows_events() {
    let s = sync_status_for("acc1", "Work", SyncEvent::Connecting);
    assert!(s.is_syncing);
    assert_eq!(s.status, "connecting");
    assert_eq!(s.current_folder, "Connecting to IMAP...");
    let mut p = SyncProgress::start("acc1");
    p.add_found(4);
    p.record_stored(100);
    let s = sync_status_for("acc1", "Work", SyncEvent::Finished(p));
    assert!(!s.is_syncing);
    assert_eq!(s.status, "completed");
    assert_eq!(s.processed_messages, 1);
    assert_eq!(s.downloaded_bytes, 100);
    let s = sync_status_for("acc1", "Work", SyncEvent::Failed("boom".to_string()));
    assert_eq!(s.status, "failed");
    assert_eq!(s.error.as_deref(), Some("boom"));
    assert_eq!(s.total_messages, 0);
}

#[test]
fn settings_plan_moves_only_what_changes() {
    let mut p = payload();
    p.data_dir = Some("  ~/Mail  ".to_string());
    p.db_path = Some("/data/db.sqlite".to_string());
    p.move_db_existing = Some(false);
    let plan = plan_settings_update(&p, "/old/data", "/data/db.sqlite", Some("/home/u".to_string()));
    assert_eq!(plan.storage_move, Some(("/home/u/Mail".to_string(), true)));
    assert_eq!(plan.db_move, None);
    let mut blank = payload();
    blank.data_dir = Some("   ".to_string());
    let plan = plan_settings_update(&blank, "/old", "/db", None);
    assert!(plan.storage_move.is_none() && plan.db_move.is_none());
}

#[test]
fn settings_apply_and_message() {
    let mut cfg = AppConfig::default();
    let mut p = payload();
    p.close_to_tray = Some(false);
    p.run_as_service = Some(true);
    apply_settings_update(&mut cfg, &p, Some("/new/data".to_string()), None);
    assert_eq!(cfg.data_dir, "/new/data");
    assert!(!cfg.settings.close_to_tray);
    assert!(cfg.settings.run_as_service);
    assert!(!cfg.settings.autostart);
    assert_eq!(
        settings_update_message(Some("/new/data"), 12, Some("/db2")),
        "Storage moved to /new/data (12 files migrated). Database catalog relocated to /db2."
    );
    assert_eq!(settings_update_message(None, 0, None), "Settings updated successfully.");
}

#[test]
fn service_toggle_answers() {
    let st = service_status_from(TargetOs::Other, false, None, "i".into(), "u".into());
    let ok = service_toggle_response(true, Ok(()), st.clone());
    assert!(ok.success && ok.enabled);
    assert_eq!(ok.message, "System service installed and started successfully");
    let bad = service_toggle_response(true, Err("Configuration error: nope".to_string()), st);
    assert!(!bad.success && !bad.enabled);
    assert_eq!(bad.message, "Failed to configure service: Configuration error: nope");
}

#[test]
fn import_decisions() {
    assert_eq!(import_decision(true, 0), ImportDecision::Preview);
    assert_eq!(import_decision(false, 0), ImportDecision::Rejected);
    assert_eq!(import_decision(false, 3), ImportDecision::Import);
}

#[test]
fn imported_accounts_replace_by_id() {
    let acc = |id: &str, name: &str| AccountConfig {
        id: id.to_string(),
        name: name.to_string(),
        email: format!("{}@example.com", id),
        provider: ProviderType::GenericImap,
        imap_server: "imap.example.com".to_string(),
        imap_port: 993,
        use_tls: true,
        auth_type: AuthType::Password,
        username: id.to_string(),
        schedule: None,
        retention_days: None,
        folder_filter: FolderFilter::default(),
        gmail_smart_labels: false,
        enabled: true,
    };
    let mut cfg = AppConfig::default();
    cfg.accounts = vec![acc("a", "old a"), acc("b", "b")];
    import_accounts(&mut cfg, vec![acc("a", "new a"), acc("c", "c")]);
    let names: Vec<&str> = cfg.accounts.iter().map(|a| a.name.as_str()).collect();
    assert_eq!(names, vec!["b", "new a", "c"]);
}

#[test]
fn account_form_and_update() {
    let mut a = account_from_form(
        "GMail",
        "Alice".to_string(),
        "alice@gmail.com".to_string(),
        "imap.gmail.com".to_string(),
        993,
        "alice@gmail.com".to_string(),
        Some(30),
        None,
    );
    assert_eq!(a.id, "alicegmail_com");
    assert_eq!(a.provider, ProviderType::Gmail);
    assert!(a.use_tls && a.gmail_smart_labels && a.enabled);
    apply_account_update(
        &mut a,
        AccountUpdate {
            name: Some("Alice W".to_string()),
            server: None,
            port: Some(1993),
            username: None,
            retention_days: None,
            schedule: Some("0 1 * * *".to_string()),
            enabled: Some(false),
        },
    );
    assert_eq!(a.name, "Alice W");
    assert_eq!(a.imap_server, "imap.gmail.com");
    assert_eq!(a.imap_port, 1993);
    assert_eq!(a.retention_days, None);
    assert_eq!(a.schedule.as_deref(), Some("0 1 * * *"));
    assert!(!a.enabled);
}

#[test]
fn scheduler_reports_become_statuses() {
    let s = mailbackup_core::server::scheduler_status("a1", "Work", "started", None, None).unwrap();
    assert!(s.is_syncing);
    assert_eq!(s.current_folder, "Starting...");
    assert_eq!(s.status, "syncing");
    let mut p = mailbackup_core::imap::SyncProgress::start("a1");
    p.current_folder = "INBOX".to_string();
    p.total_messages = 4;
    p.processed_messages = 2;
    let s = mailbackup_core::server::scheduler_status("a1", "Work", "syncing", Some(&p), None).unwrap();
    assert_eq!((s.current_folder.as_str(), s.total_messages, s.processed_messages), ("INBOX", 4, 2));
    let s = mailbackup_core::server::scheduler_status("a1", "Work", "completed", Some(&p), None).unwrap();
    assert_eq!((s.current_folder.as_str(), s.status.as_str(), s.is_syncing), ("Finished", "completed", false));
    assert!(mailbackup_core::server::scheduler_status("a1", "Work", "completed", None, None).is_none());
    let s = mailbackup_core::server::scheduler_status("a1", "Work", "error", None, Some("boom")).unwrap();
    assert_eq!((s.status.as_str(), s.error.as_deref()), ("failed", Some("boom")));
    let s = mailbackup_core::server::scheduler_status("a1", "Work", "error", None, None).unwrap();
    assert_eq!(s.error, None);
    assert!(mailbackup_core::server::scheduler_status("a1", "Work", "paused", None, None).is_none());
}
