use mailbackup_core::config::{
    default_export_dir, numbered_path, resolve_export_path, resolve_export_path_in, resolve_path_with_home, AppConfig,
    ProviderType,
};

#[test]
fn export_paths_resolve_against_the_default_directory() {
    let d = "/home/u/.mailbackup/exports";
    assert_eq!(resolve_export_path_in("backup_2026.mbox", d, "S", None), format!("{}/backup_2026.mbox", d));
    assert_eq!(resolve_export_path_in("  ", d, "20260101_000000", None), format!("{}/backup_20260101_000000.mbox", d));
    assert_eq!(resolve_export_path_in("/abs/x.mbox", d, "S", None), "/abs/x.mbox");
    assert_eq!(resolve_export_path_in("~/x.mbox", d, "S", Some("/home/u".to_string())), "/home/u/x.mbox");
    let def_dir = default_export_dir();
    assert!(!def_dir.is_empty());
    assert_eq!(resolve_export_path("backup_2026.mbox"), format!("{}/backup_2026.mbox", def_dir));
    let empty = resolve_export_path("");
    assert!(empty.contains("backup_") && empty.ends_with(".mbox"));
}

#[test]
fn numbered_alternatives_keep_the_extension() {
    assert_eq!(numbered_path("/tmp/d/my_backup.mbox", 1).as_deref(), Some("/tmp/d/my_backup (1).mbox"));
    assert_eq!(numbered_path("/tmp/d/my_backup.mbox", 2).as_deref(), Some("/tmp/d/my_backup (2).mbox"));
    assert_eq!(numbered_path("/tmp/d/.hidden", 3).as_deref(), Some("/tmp/d/.hidden (3)"));
    assert_eq!(numbered_path("/tmp/d/a.b.c", 1).as_deref(), Some("/tmp/d/a.b (1).c"));
    assert_eq!(numbered_path("/", 1), None);
}

#[test]
fn tilde_paths_use_the_home_directory() {
    assert_eq!(resolve_path_with_home(" ~ ", Some("/home/u".to_string())), "/home/u");
    assert_eq!(resolve_path_with_home("~/data", Some("/home/u".to_string())), "/home/u/data");
    assert_eq!(resolve_path_with_home("~/data", None), "~/data");
    assert_eq!(resolve_path_with_home("rel/x", Some("/home/u".to_string())), "rel/x");
}

#[test]
fn config_defaults_and_provider_servers() {
    let cfg = AppConfig::default();
    assert!(cfg.accounts.is_empty());
    assert_eq!(cfg.settings.web_port, 8765);
    assert_eq!(cfg.settings.default_schedule, "0 0 * * *");
    assert!(cfg.settings.close_to_tray);
    assert_eq!(ProviderType::Gmail.default_server(), ("imap.gmail.com", 993, true));
    assert_eq!(ProviderType::Outlook.default_server().0, "outlook.office365.com");
}
