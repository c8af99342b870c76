use aether_usage_policy::cost_ledger::{
    ReconcileUsagePolicyCostInput, ReserveUsagePolicyCostInput, ReserveUsagePolicyCostOutcome,
    UsagePolicyCostReservationState, UsagePolicyCostWindow,
};
use aether_usage_policy::error::DataLayerError;
use aether_usage_policy::settlement_repository::{
    InMemorySettlementRepository, SettlementWriteRepository,
};

fn reserve(
    request_id: &str,
    admitted_at: u64,
    reserved: u64,
    limit: u64,
) -> ReserveUsagePolicyCostInput {
    ReserveUsagePolicyCostInput {
        request_id: request_id.to_string(),
        subject_id: "user-1".to_string(),
        reservation_token: format!("token-{request_id}"),
        admitted_at_unix_secs: admitted_at,
        reserved_cost_units: reserved,
        reservation_expires_at_unix_secs: admitted_at + 86_400,
        retain_until_unix_secs: admitted_at + 32 * 86_400,
        windows: vec![UsagePolicyCostWindow {
            window_id: "rolling-5h".to_string(),
            starts_at_unix_secs: admitted_at.saturating_sub(18_000),
            ends_at_unix_secs: admitted_at + 1,
            limit_cost_units: limit,
        }],
    }
}

#[test]
fn cost_reservations_are_atomic_idempotent_and_reconciled() {
    let mut repository = InMemorySettlementRepository::default();
    assert_eq!(
        repository
            .reserve_usage_policy_cost(reserve("request-1", 20_000, 60, 100))
            .unwrap(),
        ReserveUsagePolicyCostOutcome::Allowed {
            reserved_cost_units: 60,
            additional_reserved_cost_units: 60,
        }
    );
    assert_eq!(
        repository
            .reserve_usage_policy_cost(reserve("request-1", 20_000, 60, 100))
            .unwrap(),
        ReserveUsagePolicyCostOutcome::Allowed {
            reserved_cost_units: 60,
            additional_reserved_cost_units: 0,
        }
    );
    assert!(matches!(
        repository
            .reserve_usage_policy_cost(reserve("request-2", 20_001, 50, 100))
            .unwrap(),
        ReserveUsagePolicyCostOutcome::Rejected {
            window_index: 0,
            used_cost_units: 60,
            ..
        }
    ));

    repository
        .reconcile_usage_policy_cost(ReconcileUsagePolicyCostInput {
            request_id: "request-1".to_string(),
            subject_id: "user-1".to_string(),
            reservation_token: "token-request-1".to_string(),
            actual_cost_units: 30,
            terminal_state: UsagePolicyCostReservationState::Finalized,
            finalized_at_unix_secs: 20_001,
        })
        .unwrap();
    assert!(matches!(
        repository
            .reserve_usage_policy_cost(reserve("request-2", 20_002, 50, 100))
            .unwrap(),
        ReserveUsagePolicyCostOutcome::Allowed { .. }
    ));
}

#[test]
fn same_request_id_can_have_independent_inbound_reservation_tokens() {
    let mut repository = InMemorySettlementRepository::default();
    repository
        .reserve_usage_policy_cost(reserve("shared-trace", 20_000, 10, 100))
        .unwrap();

    let mut second = reserve("shared-trace", 20_000, 10, 100);
    second.reservation_token = "another-inbound-request".to_string();
    assert_eq!(
        repository.reserve_usage_policy_cost(second).unwrap(),
        ReserveUsagePolicyCostOutcome::Allowed {
            reserved_cost_units: 10,
            additional_reserved_cost_units: 10,
        }
    );

    let finalized = repository
        .reconcile_usage_policy_cost(ReconcileUsagePolicyCostInput {
            request_id: "shared-trace".to_string(),
            subject_id: "user-1".to_string(),
            reservation_token: "another-inbound-request".to_string(),
            actual_cost_units: 8,
            terminal_state: UsagePolicyCostReservationState::Finalized,
            finalized_at_unix_secs: 20_001,
        })
        .unwrap()
        .expect("second reservation");
    assert_eq!(finalized.reservation_token, "another-inbound-request");
    assert_eq!(finalized.state, UsagePolicyCostReservationState::Finalized);

    // A forged token cannot finalize the first reservation, even though request_id matches.
    assert_eq!(
        repository
            .reconcile_usage_policy_cost(ReconcileUsagePolicyCostInput {
                request_id: "shared-trace".to_string(),
                subject_id: "user-1".to_string(),
                reservation_token: "forged-token".to_string(),
                actual_cost_units: 0,
                terminal_state: UsagePolicyCostReservationState::Released,
                finalized_at_unix_secs: 20_002,
            })
            .unwrap(),
        None
    );
    assert_eq!(
        repository
            .reserve_usage_policy_cost(reserve("shared-trace", 20_000, 10, 100))
            .unwrap(),
        ReserveUsagePolicyCostOutcome::Allowed {
            reserved_cost_units: 10,
            additional_reserved_cost_units: 0,
        }
    );
}

#[test]
fn expired_and_released_reservations_stop_consuming_capacity() {
    let mut repository = InMemorySettlementRepository::default();
    let mut expired = reserve("expired", 10, 100, 100);
    expired.reservation_expires_at_unix_secs = 11;
    expired.retain_until_unix_secs = 100_000;
    repository.reserve_usage_policy_cost(expired).unwrap();
    assert!(matches!(
        repository
            .reserve_usage_policy_cost(reserve("after-expiry", 12, 100, 100))
            .unwrap(),
        ReserveUsagePolicyCostOutcome::Allowed { .. }
    ));

    repository
        .reconcile_usage_policy_cost(ReconcileUsagePolicyCostInput {
            request_id: "after-expiry".to_string(),
            subject_id: "user-1".to_string(),
            reservation_token: "token-after-expiry".to_string(),
            actual_cost_units: 0,
            terminal_state: UsagePolicyCostReservationState::Released,
            finalized_at_unix_secs: 13,
        })
        .unwrap();
    assert!(matches!(
        repository
            .reserve_usage_policy_cost(reserve("after-release", 14, 100, 100))
            .unwrap(),
        ReserveUsagePolicyCostOutcome::Allowed { .. }
    ));
}

#[test]
fn retries_only_extend_expiry_and_retention_and_cleanup_is_bounded() {
    let mut repository = InMemorySettlementRepository::default();
    let mut initial = reserve("retry", 20_000, 10, 100);
    initial.reservation_expires_at_unix_secs = 30_000;
    initial.retain_until_unix_secs = 50_000;
    repository.reserve_usage_policy_cost(initial).unwrap();

    let mut shorter = reserve("retry", 20_000, 10, 100);
    shorter.reservation_expires_at_unix_secs = 25_000;
    shorter.retain_until_unix_secs = 45_000;
    repository.reserve_usage_policy_cost(shorter).unwrap();

    let stored = repository
        .cost_reservation("token-retry")
        .cloned()
        .expect("reservation");
    assert_eq!(stored.reservation_expires_at_unix_secs, 30_000);
    assert_eq!(stored.retain_until_unix_secs, 50_000);
    assert_eq!(
        repository
            .cleanup_usage_policy_cost_reservations(49_999, 10)
            .unwrap(),
        0
    );
    assert_eq!(
        repository
            .cleanup_usage_policy_cost_reservations(50_000, 1)
            .unwrap(),
        1
    );
}

#[test]
fn reconciliation_ignores_subject_or_token_mismatches() {
    let mut repository = InMemorySettlementRepository::default();
    repository
        .reserve_usage_policy_cost(reserve("protected", 20_000, 10, 100))
        .unwrap();

    let mismatched = repository
        .reconcile_usage_policy_cost(ReconcileUsagePolicyCostInput {
            request_id: "protected".to_string(),
            subject_id: "user-1".to_string(),
            reservation_token: "forged-token".to_string(),
            actual_cost_units: 0,
            terminal_state: UsagePolicyCostReservationState::Released,
            finalized_at_unix_secs: 20_001,
        })
        .unwrap();
    assert_eq!(mismatched, None);

    assert!(matches!(
        repository
            .reserve_usage_policy_cost(reserve("after-mismatch", 20_001, 91, 100))
            .unwrap(),
        ReserveUsagePolicyCostOutcome::Rejected {
            window_index: 0,
            used_cost_units: 10,
            ..
        }
    ));
}

fn finalize(request_id: &str, actual: u64, at: u64) -> ReconcileUsagePolicyCostInput {
    ReconcileUsagePolicyCostInput {
        request_id: request_id.to_string(),
        subject_id: "user-1".to_string(),
        reservation_token: format!("token-{request_id}"),
        actual_cost_units: actual,
        terminal_state: UsagePolicyCostReservationState::Finalized,
        finalized_at_unix_secs: at,
    }
}

#[test]
fn a_larger_retry_reserves_the_difference() {
    let mut repository = InMemorySettlementRepository::default();
    repository.reserve_usage_policy_cost(reserve("grow", 20_000, 60, 100)).unwrap();
    assert_eq!(
        repository.reserve_usage_policy_cost(reserve("grow", 20_000, 90, 100)),
        Ok(ReserveUsagePolicyCostOutcome::Allowed {
            reserved_cost_units: 90,
            additional_reserved_cost_units: 30,
        })
    );
    assert_eq!(
        repository.reserve_usage_policy_cost(reserve("grow", 20_000, 101, 100)),
        Ok(ReserveUsagePolicyCostOutcome::Rejected {
            window_index: 0,
            limit_cost_units: 100,
            used_cost_units: 0,
        })
    );
    assert_eq!(repository.cost_reservation("token-grow").unwrap().reserved_cost_units, 90);
}

#[test]
fn a_conflicting_retry_is_refused() {
    let mut repository = InMemorySettlementRepository::default();
    repository.reserve_usage_policy_cost(reserve("once", 20_000, 60, 100)).unwrap();
    let mut other_request = reserve("once", 20_000, 60, 100);
    other_request.request_id = "other".to_string();
    assert_eq!(
        repository.reserve_usage_policy_cost(other_request),
        Ok(ReserveUsagePolicyCostOutcome::Conflict)
    );
    assert_eq!(
        repository.reserve_usage_policy_cost(reserve("once", 20_001, 60, 100)),
        Err(DataLayerError::InvalidInput(
            "usage policy reservation_token must keep its original admitted_at".to_string()
        ))
    );
}

#[test]
fn an_ended_reservation_is_final() {
    let mut repository = InMemorySettlementRepository::default();
    repository.reserve_usage_policy_cost(reserve("done", 20_000, 60, 100)).unwrap();
    let first = repository.reconcile_usage_policy_cost(finalize("done", 30, 20_001)).unwrap();
    let first = first.expect("settled");
    assert_eq!(first.actual_cost_units, Some(30));
    assert_eq!(first.finalized_at_unix_secs, Some(20_001));
    assert_eq!(
        repository.reconcile_usage_policy_cost(finalize("done", 70, 20_002)).unwrap(),
        Some(first)
    );
    assert!(matches!(
        repository.reserve_usage_policy_cost(reserve("done", 20_000, 60, 100)),
        Ok(ReserveUsagePolicyCostOutcome::AlreadyTerminal {
            state: UsagePolicyCostReservationState::Finalized,
        })
    ));
}

#[test]
fn a_rejection_names_the_first_exhausted_window() {
    let mut repository = InMemorySettlementRepository::default();
    repository.reserve_usage_policy_cost(reserve("first", 20_000, 60, 100)).unwrap();
    let mut second = reserve("second", 20_001, 10, 1_000);
    for (id, limit) in [("b", 69), ("c", 5)] {
        second.windows.push(UsagePolicyCostWindow {
            window_id: id.to_string(),
            starts_at_unix_secs: 0,
            ends_at_unix_secs: 30_000,
            limit_cost_units: limit,
        });
    }
    assert_eq!(
        repository.reserve_usage_policy_cost(second),
        Ok(ReserveUsagePolicyCostOutcome::Rejected {
            window_index: 1,
            limit_cost_units: 69,
            used_cost_units: 60,
        })
    );
    assert!(repository.cost_reservation("token-second").is_none());
}

#[test]
fn a_total_that_overflows_is_told() {
    let mut repository = InMemorySettlementRepository::default();
    let most = i64::MAX as u64;
    for (name, at) in [("one", 20_000), ("two", 20_001), ("three", 20_002)] {
        let mut alone = reserve(name, at, 1, most);
        alone.windows[0].starts_at_unix_secs = at;
        repository.reserve_usage_policy_cost(alone).unwrap();
        repository.reconcile_usage_policy_cost(finalize(name, most, at)).unwrap();
    }
    assert_eq!(
        repository.reserve_usage_policy_cost(reserve("late", 20_003, 1, most)),
        Err(DataLayerError::UnexpectedValue("usage policy cost total overflowed".to_string()))
    );
    assert!(repository.cost_reservation("token-late").is_none());
}
