use aether_usage_policy::usage_cleanup::{
    cleanup_execution_mode, preview_manual_usage_cleanup, usage_cleanup_gate,
    usage_cleanup_window_for_mode, CleanupGate, LedgerCleanup, LedgerCleanupAction,
    ManualUsageCleanupMode, ManualUsageCleanupOptions, Moment, UsageCleanupCounts,
    UsageCleanupExecutionMode, UsageCleanupWindow, MAX_LEDGER_CLEANUP_ROUNDS,
};

fn moment(unix_secs: i64, nanos: u32) -> Moment {
    Moment { unix_secs, nanos }
}

fn window(at: i64) -> UsageCleanupWindow {
    UsageCleanupWindow {
        detail_cutoff: moment(at, 123_456_789),
        compressed_cutoff: moment(at - 1, 0),
        header_cutoff: moment(at - 2, 1),
        log_cutoff: moment(at - 3, 999_999_999),
    }
}

#[test]
fn modes_have_names_windows_and_ways() {
    assert_eq!(ManualUsageCleanupMode::Policy.as_str(), "policy");
    assert_eq!(ManualUsageCleanupMode::OlderThanDays.as_str(), "older_than_days");
    assert_eq!(ManualUsageCleanupMode::BeforeNow.as_str(), "before_now");
    let of = |mode| usage_cleanup_window_for_mode(moment(500, 987_654_321), mode, window(100), window(200));
    assert_eq!(of(ManualUsageCleanupMode::Policy), window(100));
    assert_eq!(of(ManualUsageCleanupMode::OlderThanDays), window(200));
    let now = of(ManualUsageCleanupMode::BeforeNow);
    assert_eq!(now.detail_cutoff, moment(500, 987_654_321));
    assert_eq!(now.compressed_cutoff, moment(500, 987_654_321));
    assert_eq!(now.header_cutoff, moment(500, 987_654_321));
    assert_eq!(now.log_cutoff, moment(500, 987_654_321));
    assert_eq!(
        cleanup_execution_mode(ManualUsageCleanupMode::BeforeNow),
        UsageCleanupExecutionMode::BeforeNowBodyFields
    );
    for mode in [ManualUsageCleanupMode::Policy, ManualUsageCleanupMode::OlderThanDays] {
        assert_eq!(cleanup_execution_mode(mode), UsageCleanupExecutionMode::Policy);
    }
}

#[test]
fn options_and_previews_carry_what_they_were_made_with() {
    let policy = ManualUsageCleanupOptions::policy("all");
    assert_eq!(policy.mode, ManualUsageCleanupMode::Policy);
    let older = ManualUsageCleanupOptions::with_override(true, "all");
    assert_eq!(older.mode, ManualUsageCleanupMode::OlderThanDays);
    assert_eq!(ManualUsageCleanupOptions::with_override(false, "all"), policy);
    let counts = UsageCleanupCounts { detail: 1, compressed: 2, header: 3, log: 4 };
    let preview = preview_manual_usage_cleanup(window(100), older, counts);
    assert_eq!(preview.detail_cutoff, moment(100, 123_456_789));
    assert_eq!(preview.compressed_cutoff, moment(99, 0));
    assert_eq!(preview.header_cutoff, moment(98, 1));
    assert_eq!(preview.log_cutoff, moment(97, 999_999_999));
    assert_eq!((preview.detail_count, preview.log_count), (1, 4));
    assert_eq!((preview.compressed_count, preview.header_count), (2, 3));
    assert_eq!(preview.targets, "all");
    assert_eq!(preview.mode, ManualUsageCleanupMode::OlderThanDays);
}

#[test]
fn cleanups_run_only_where_they_may() {
    assert_eq!(usage_cleanup_gate(false, false, true), CleanupGate::Skip);
    assert_eq!(usage_cleanup_gate(true, true, false), CleanupGate::AskAutoCleanup);
    assert_eq!(usage_cleanup_gate(true, true, true), CleanupGate::Run);
    assert_eq!(usage_cleanup_gate(true, false, false), CleanupGate::Run);
}

#[test]
fn a_cleanup_of_the_ledgers_ends() {
    let mut cleanup = LedgerCleanup::new(true, 10, 1, 2);
    assert_eq!(cleanup.action, LedgerCleanupAction::CleanCostReservations);
    cleanup.on_round(10);
    assert_eq!(cleanup.action, LedgerCleanupAction::CleanCostReservations);
    cleanup.on_round(9);
    assert_eq!(cleanup.action, LedgerCleanupAction::CleanRequestAdmissions);
    cleanup.on_round(0);
    assert_eq!(cleanup.action, LedgerCleanupAction::Done);
    assert_eq!(cleanup.cost_reservations_deleted, 20);
    assert_eq!(cleanup.request_admissions_deleted, 2);
}

#[test]
fn a_cleanup_takes_a_bounded_number_of_rounds() {
    let mut cleanup = LedgerCleanup::new(true, 0, 0, 0);
    assert_eq!(cleanup.batch_size, 1);
    let mut rounds = 0;
    while cleanup.action != LedgerCleanupAction::Done {
        cleanup.on_round(1);
        rounds += 1;
    }
    assert_eq!(rounds, 2 * MAX_LEDGER_CLEANUP_ROUNDS);
    assert_eq!(cleanup.cost_reservations_deleted, 32);
    assert_eq!(cleanup.request_admissions_deleted, 32);
    let skipped = LedgerCleanup::new(false, 10, 3, 4);
    assert_eq!(skipped.action, LedgerCleanupAction::Done);
    assert_eq!(skipped.cost_reservations_deleted, 3);
}
