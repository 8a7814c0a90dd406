use mailbackup_core::config::{AccountConfig, AppConfig, AuthType, FolderFilter, ProviderType};
use mailbackup_core::scheduler::{normalize_cron, scheduled_jobs};
use tokio_cron_scheduler::Job;

#[test]
fn test_cron_syntax() {
    // 5-field every minute
    let cron_every_min = "*/1 * * * *";
    let normalized = normalize_cron(cron_every_min);
    assert_eq!(normalized, "0 */1 * * * *");
    let res = Job::new_async(&normalized, |_uuid, _lock| Box::pin(async {}));
    assert!(res.is_ok(), "Failed for */1 * * * *: {:?}", res.err());

    // * * * * * (also every minute)
    let cron_star = "* * * * *";
    let norm_star = normalize_cron(cron_star);
    assert_eq!(norm_star, "0 * * * * *");
    let res_star = Job::new_async(&norm_star, |_uuid, _lock| Box::pin(async {}));
    assert!(res_star.is_ok(), "Failed for * * * * *: {:?}", res_star.err());
}

#[test]
fn normalize_cron_keeps_six_fields_and_is_idempotent() {
    assert_eq!(normalize_cron("0 0 2 * * *"), "0 0 2 * * *");
    let once = normalize_cron("  0 3 * * 1  ");
    assert_eq!(normalize_cron(&once), once);
}

#[test]
fn scheduled_jobs_cover_enabled_accounts_only() {
    let mut cfg = AppConfig::default();
    let mut a = sample_account("a1", "a1@example.com");
    a.schedule = Some("0 4 * * *".to_string());
    let mut b = sample_account("b1", "b1@example.com");
    b.enabled = false;
    let c = sample_account("c1", "c1@example.com");
    cfg.accounts = vec![a, b, c];
    let jobs = scheduled_jobs(&cfg);
    assert_eq!(jobs.len(), 2);
    assert_eq!(jobs[0].account_index, 0);
    assert_eq!(jobs[0].cron, "0 0 4 * * *");
    assert_eq!(jobs[1].account_index, 2);
    assert_eq!(jobs[1].cron, "0 0 0 * * *");
}

fn sample_account(id: &str, email: &str) -> AccountConfig {
    AccountConfig {
        id: id.to_string(),
        name: id.to_string(),
        email: email.to_string(),
        provider: ProviderType::GenericImap,
        imap_server: "imap.example.com".to_string(),
        imap_port: 993,
        use_tls: true,
        auth_type: AuthType::Password,
        username: email.to_string(),
        schedule: None,
        retention_days: None,
        folder_filter: FolderFilter::default(),
        gmail_smart_labels: false,
        enabled: true,
    }
}
