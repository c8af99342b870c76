use aether_usage_policy::error::DataLayerError;
use aether_usage_policy::request_ledger::{
    ReleaseUsagePolicyRequestAdmissionInput, ReserveUsagePolicyRequestInput,
    ReserveUsagePolicyRequestOutcome, UsagePolicyRequestAdmissionState, UsagePolicyRequestWindow,
};
use aether_usage_policy::settlement_repository::{
    InMemorySettlementRepository, SettlementWriteRepository,
};
use std::sync::{Arc, Mutex};

fn reserve(
    request_id: &str,
    event_token: &str,
    admitted_at: u64,
    limits: &[(u64, u64, u64)],
) -> ReserveUsagePolicyRequestInput {
    let windows = limits
        .iter()
        .map(|(start, end, limit)| UsagePolicyRequestWindow {
            starts_at_unix_secs: *start,
            ends_at_unix_secs: *end,
            limit_requests: *limit,
        })
        .collect::<Vec<_>>();
    ReserveUsagePolicyRequestInput {
        request_id: request_id.to_string(),
        subject_id: "user-1".to_string(),
        event_token: event_token.to_string(),
        admitted_at_unix_secs: admitted_at,
        retain_until_unix_secs: windows
            .iter()
            .map(|window| window.ends_at_unix_secs)
            .max()
            .unwrap_or(admitted_at + 1),
        windows,
    }
}

#[test]
fn any_rejected_window_prevents_the_admission_insert() {
    let mut repository = InMemorySettlementRepository::default();
    repository
        .reserve_usage_policy_request(reserve("request-1", "event-1", 100, &[(0, 1_000, 10)]))
        .unwrap();

    assert_eq!(
        repository
            .reserve_usage_policy_request(reserve(
                "request-2",
                "event-2",
                101,
                &[(0, 1_000, 2), (50, 200, 1)],
            ))
            .unwrap(),
        ReserveUsagePolicyRequestOutcome::Rejected {
            window_index: 1,
            limit_requests: 1,
            used_requests: 1,
        }
    );
    assert!(repository.request_admission("event-2").is_none());
}

#[test]
fn retries_are_idempotent_and_identity_or_timestamp_conflicts_are_explicit() {
    let mut repository = InMemorySettlementRepository::default();
    let initial = reserve("request-1", "event-1", 100, &[(0, 1_000, 1)]);
    assert_eq!(
        repository
            .reserve_usage_policy_request(initial.clone())
            .unwrap(),
        ReserveUsagePolicyRequestOutcome::Allowed
    );
    let mut extended = initial.clone();
    extended.retain_until_unix_secs = 2_000;
    extended.windows[0].ends_at_unix_secs = 2_000;
    assert_eq!(
        repository
            .reserve_usage_policy_request(extended)
            .unwrap(),
        ReserveUsagePolicyRequestOutcome::Allowed
    );
    assert_eq!(
        repository
            .request_admission("event-1")
            .expect("admission")
            .retain_until_unix_secs,
        2_000
    );

    let mut conflicting = initial.clone();
    conflicting.request_id = "other-request".to_string();
    assert_eq!(
        repository
            .reserve_usage_policy_request(conflicting)
            .unwrap(),
        ReserveUsagePolicyRequestOutcome::Conflict
    );
    let mut changed_timestamp = initial;
    changed_timestamp.admitted_at_unix_secs = 101;
    assert!(matches!(
        repository
            .reserve_usage_policy_request(changed_timestamp),
        Err(DataLayerError::InvalidInput(_))
    ));
}

#[test]
fn released_admission_stops_counting_and_never_reactivates() {
    let mut repository = InMemorySettlementRepository::default();
    let initial = reserve("request-1", "event-1", 100, &[(0, 1_000, 1)]);
    repository
        .reserve_usage_policy_request(initial.clone())
        .unwrap();
    let released = repository
        .release_usage_policy_request_admission(ReleaseUsagePolicyRequestAdmissionInput {
            request_id: "request-1".to_string(),
            subject_id: "user-1".to_string(),
            event_token: "event-1".to_string(),
            released_at_unix_secs: 101,
        })
        .unwrap()
        .expect("released admission");
    assert_eq!(released.state, UsagePolicyRequestAdmissionState::Released);

    let released_again = repository
        .release_usage_policy_request_admission(ReleaseUsagePolicyRequestAdmissionInput {
            request_id: "request-1".to_string(),
            subject_id: "user-1".to_string(),
            event_token: "event-1".to_string(),
            released_at_unix_secs: 999,
        })
        .unwrap()
        .expect("released admission retry");
    assert_eq!(released_again.released_at_unix_secs, Some(101));

    let mut retry = initial;
    retry.windows[0].ends_at_unix_secs = 2_000;
    retry.retain_until_unix_secs = 2_000;
    assert_eq!(
        repository
            .reserve_usage_policy_request(retry)
            .unwrap(),
        ReserveUsagePolicyRequestOutcome::AlreadyReleased
    );
    assert_eq!(
        repository
            .request_admission("event-1")
            .expect("released admission")
            .retain_until_unix_secs,
        2_000
    );
    assert_eq!(
        repository
            .reserve_usage_policy_request(reserve(
                "request-2",
                "event-2",
                102,
                &[(0, 1_000, 1)],
            ))
            .unwrap(),
        ReserveUsagePolicyRequestOutcome::Allowed
    );
}

#[test]
fn cleanup_is_bounded_and_preserves_unexpired_tombstones() {
    let mut repository = InMemorySettlementRepository::default();
    repository
        .reserve_usage_policy_request(reserve("request-1", "event-1", 10, &[(0, 100, 10)]))
        .unwrap();
    repository
        .reserve_usage_policy_request(reserve("request-2", "event-2", 11, &[(0, 200, 10)]))
        .unwrap();
    assert_eq!(
        repository
            .cleanup_usage_policy_request_admissions(99, 10)
            .unwrap(),
        0
    );
    assert_eq!(
        repository
            .cleanup_usage_policy_request_admissions(200, 1)
            .unwrap(),
        1
    );
    assert_eq!(
        repository
            .cleanup_usage_policy_request_admissions(200, 10)
            .unwrap(),
        1
    );
}

#[test]
fn concurrent_admissions_do_not_oversell_capacity() {
    let runtime = tokio::runtime::Builder::new_current_thread().build().expect("runtime");
    runtime.block_on(async {
        let repository = Arc::new(Mutex::new(InMemorySettlementRepository::default()));
        let mut tasks = Vec::new();
        for index in 0..32 {
            let repository = Arc::clone(&repository);
            tasks.push(tokio::spawn(async move {
                repository
                    .lock()
                    .expect("admission lock")
                    .reserve_usage_policy_request(reserve(
                        &format!("request-{index}"),
                        &format!("event-{index}"),
                        100,
                        &[(0, 1_000, 5)],
                    ))
                    .unwrap()
            }));
        }
        let mut allowed = 0;
        for task in tasks {
            if task.await.unwrap() == ReserveUsagePolicyRequestOutcome::Allowed {
                allowed += 1;
            }
        }
        assert_eq!(allowed, 5);
        let repository = repository.lock().expect("admission lock");
        assert_eq!(
            (0..32)
                .filter(|index| repository.request_admission(&format!("event-{index}")).is_some())
                .count(),
            5
        );
    });
}

#[test]
fn as_many_requests_are_let_in_as_there_are_places() {
    for (requests, limit) in [(0_u64, 3_u64), (2, 3), (3, 3), (7, 3), (4, 1)] {
        let mut repository = InMemorySettlementRepository::default();
        let mut allowed = 0;
        let mut rejected = 0;
        for index in 0..requests {
            match repository
                .reserve_usage_policy_request(reserve(
                    &format!("request-{index}"),
                    &format!("event-{index}"),
                    100,
                    &[(0, 1_000, limit)],
                ))
                .unwrap()
            {
                ReserveUsagePolicyRequestOutcome::Allowed => allowed += 1,
                ReserveUsagePolicyRequestOutcome::Rejected { .. } => rejected += 1,
                other => panic!("unexpected {:?}", other),
            }
        }
        assert_eq!(allowed, requests.min(limit));
        assert_eq!(rejected, requests - allowed);
        let stored = (0..requests)
            .filter(|index| repository.request_admission(&format!("event-{index}")).is_some())
            .count() as u64;
        assert_eq!(stored, allowed);
    }
}

fn release(request_id: &str, event_token: &str, at: u64) -> ReleaseUsagePolicyRequestAdmissionInput {
    ReleaseUsagePolicyRequestAdmissionInput {
        request_id: request_id.to_string(),
        subject_id: "user-1".to_string(),
        event_token: event_token.to_string(),
        released_at_unix_secs: at,
    }
}

#[test]
fn a_rejection_names_the_first_full_window_and_changes_nothing() {
    let mut repository = InMemorySettlementRepository::default();
    for index in 0..3 {
        repository
            .reserve_usage_policy_request(reserve(
                &format!("request-{index}"),
                &format!("event-{index}"),
                100,
                &[(0, 1_000, 10)],
            ))
            .unwrap();
    }
    let full = reserve("late", "late", 100, &[(0, 1_000, 4), (0, 1_000, 3), (0, 1_000, 2)]);
    for _ in 0..2 {
        assert_eq!(
            repository.reserve_usage_policy_request(full.clone()).unwrap(),
            ReserveUsagePolicyRequestOutcome::Rejected {
                window_index: 1,
                limit_requests: 3,
                used_requests: 3,
            }
        );
        assert!(repository.request_admission("late").is_none());
    }
}

#[test]
fn windows_count_from_their_start_up_to_their_end() {
    let mut repository = InMemorySettlementRepository::default();
    for (token, at) in [("a", 99), ("b", 100), ("c", 199), ("d", 200)] {
        repository
            .reserve_usage_policy_request(reserve(token, token, at, &[(0, 1_000, 10)]))
            .unwrap();
    }
    assert_eq!(
        repository
            .reserve_usage_policy_request(reserve("e", "e", 150, &[(100, 200, 2)]))
            .unwrap(),
        ReserveUsagePolicyRequestOutcome::Rejected {
            window_index: 0,
            limit_requests: 2,
            used_requests: 2,
        }
    );
    assert_eq!(
        repository
            .reserve_usage_policy_request(reserve("e", "e", 150, &[(100, 200, 3)]))
            .unwrap(),
        ReserveUsagePolicyRequestOutcome::Allowed
    );
}

#[test]
fn other_subjects_take_no_place() {
    let mut repository = InMemorySettlementRepository::default();
    let mut other = reserve("other", "other", 100, &[(0, 1_000, 1)]);
    other.subject_id = "user-2".to_string();
    repository.reserve_usage_policy_request(other).unwrap();
    assert_eq!(
        repository
            .reserve_usage_policy_request(reserve("mine", "mine", 100, &[(0, 1_000, 1)]))
            .unwrap(),
        ReserveUsagePolicyRequestOutcome::Allowed
    );
}

#[test]
fn a_release_of_another_finds_nothing() {
    let mut repository = InMemorySettlementRepository::default();
    repository
        .reserve_usage_policy_request(reserve("request-1", "event-1", 100, &[(0, 1_000, 1)]))
        .unwrap();
    assert_eq!(
        repository.release_usage_policy_request_admission(release("request-1", "event-9", 101)),
        Ok(None)
    );
    assert_eq!(
        repository.release_usage_policy_request_admission(release("request-9", "event-1", 101)),
        Ok(None)
    );
    let mut wrong_subject = release("request-1", "event-1", 101);
    wrong_subject.subject_id = "user-9".to_string();
    assert_eq!(repository.release_usage_policy_request_admission(wrong_subject), Ok(None));
    assert_eq!(
        repository.request_admission("event-1").unwrap().state,
        UsagePolicyRequestAdmissionState::Active
    );
}

#[test]
fn a_changed_admission_time_is_told() {
    let mut repository = InMemorySettlementRepository::default();
    repository
        .reserve_usage_policy_request(reserve("request-1", "event-1", 100, &[(0, 1_000, 1)]))
        .unwrap();
    assert_eq!(
        repository
            .reserve_usage_policy_request(reserve("request-1", "event-1", 101, &[(0, 1_000, 1)])),
        Err(DataLayerError::InvalidInput(
            "usage policy event_token must keep its original admitted_at".to_string()
        ))
    );
}

#[test]
fn a_sweep_takes_the_first_tokens_that_have_expired() {
    let mut repository = InMemorySettlementRepository::default();
    for token in ["c", "a", "b"] {
        repository
            .reserve_usage_policy_request(reserve(token, token, 10, &[(0, 100, 10)]))
            .unwrap();
    }
    repository
        .reserve_usage_policy_request(reserve("0", "0", 10, &[(0, 101, 10)]))
        .unwrap();
    assert_eq!(repository.cleanup_usage_policy_request_admissions(100, 2), Ok(2));
    assert!(repository.request_admission("a").is_none());
    assert!(repository.request_admission("b").is_none());
    assert!(repository.request_admission("c").is_some());
    assert!(repository.request_admission("0").is_some());
    assert_eq!(repository.cleanup_usage_policy_request_admissions(100, 0), Ok(0));
}

#[test]
fn a_release_before_the_admission_is_refused() {
    let mut repository = InMemorySettlementRepository::default();
    repository
        .reserve_usage_policy_request(reserve("request-1", "event-1", 100, &[(0, 1_000, 1)]))
        .unwrap();
    assert_eq!(
        repository.release_usage_policy_request_admission(release("request-1", "event-1", 99)),
        Err(DataLayerError::InvalidInput(
            "usage policy released_at must not precede admitted_at".to_string()
        ))
    );
}
