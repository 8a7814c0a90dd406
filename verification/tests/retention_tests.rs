use mailbackup_core::retention::{retention_cutoff, retention_report, RetentionReport};

#[test]
fn no_policy_or_zero_days_keeps_forever() {
    assert_eq!(retention_cutoff(None, 1_000_000), None);
    assert_eq!(retention_cutoff(Some(0), 1_000_000), None);
    assert_eq!(retention_cutoff(Some(90), 10_000_000), Some(10_000_000 - 90 * 86_400));
}

#[test]
fn report_counts_only_removed_messages() {
    let r = retention_report("acc1", &vec![(true, 120), (false, 999), (true, 30)]);
    assert_eq!(r.account_id, "acc1");
    assert_eq!(r.pruned_count, 2);
    assert_eq!(r.reclaimed_bytes, 150);
    let d = RetentionReport::default();
    assert_eq!(d.pruned_count, 0);
    assert_eq!(d.reclaimed_bytes, 0);
    assert!(d.account_id.is_empty());
}
