use aether_usage_policy::binary64::Binary64;
use aether_usage_policy::cost_ledger::{
    ReserveUsagePolicyCostOutcome, UsagePolicyCostReservationState,
};
use aether_usage_policy::effective_policy::{
    compile_effective_policy, policy_is_stale, window_identity, EffectiveCostRule,
    EffectivePlanUsagePolicy, EffectiveRequestRule, UserPlanEntitlementRecord,
};
use aether_usage_policy::entitlement::{EntitlementItem, Entitlements, FieldValue, PolicyShape};
use aether_usage_policy::error::{GatewayError, RuntimeSemaphoreError};
use aether_usage_policy::plan_admission_flow::{
    AdmissionAction, AdmissionEvent, PlanAdmission, UsageLimitCheck,
};
use aether_usage_policy::plan_usage_policy::{
    build_usage_policy_cost_release_input, conclude_plan_usage_policy_cost,
    ensure_cost_policy_usage_runtime_enabled, plan_usage_auth_context,
    release_plan_usage_policy_cost, reserve_admitted_http_plan_usage_policy_cost,
    reserve_admitted_plan_usage_policy_cost, reserve_plan_usage_policy_cost_with_policy,
    CostReservationStart, GatewayAdminPrincipal, GatewayControlAuthContext,
    GatewayControlDecision, PlanUsageCostReservationOutcome, PlanUsagePolicySnapshot,
};
use aether_usage_policy::plan_windows::{
    durable_request_rule, is_placeable, request_rule_uses_runtime_state, rolling_label,
    runtime_cost_rule, runtime_request_rule, PlanUsageAdmissionError, PolicyLimit,
};
use aether_usage_policy::request_ledger::ReserveUsagePolicyRequestOutcome;
use aether_usage_policy::usage_policy::{
    UsagePolicyEnforcement, UsagePolicyEntitlement, UsagePolicyEntitlementType, UsagePolicyMetric,
    UsagePolicyRule, UsagePolicyWindow,
};

fn usd(value: f64) -> Binary64 {
    Binary64 { bits: value.to_bits() }
}

fn rule(metric: UsagePolicyMetric, window: UsagePolicyWindow, limit: f64) -> UsagePolicyRule {
    UsagePolicyRule {
        metric,
        window,
        limit: usd(limit),
        enforcement: UsagePolicyEnforcement::default(),
    }
}

fn requests(window: UsagePolicyWindow, limit: f64) -> UsagePolicyRule {
    rule(UsagePolicyMetric::RequestCount, window, limit)
}

fn rolling(seconds: u64) -> UsagePolicyWindow {
    UsagePolicyWindow::Rolling { seconds }
}

fn entitlement(id: &str, rules: Vec<UsagePolicyRule>) -> UserPlanEntitlementRecord {
    let item = EntitlementItem {
        fields: vec![("type".to_string(), FieldValue::Text("usage_policy".to_string()))],
        policy: PolicyShape::Policy(UsagePolicyEntitlement {
            entitlement_type: UsagePolicyEntitlementType::UsagePolicy,
            policy_id: None,
            name: None,
            replacement_group: None,
            rules,
        }),
    };
    UserPlanEntitlementRecord {
        id: id.to_string(),
        user_id: "user-1".to_string(),
        plan_id: "plan-1".to_string(),
        payment_order_id: "order-1".to_string(),
        status: "active".to_string(),
        starts_at_unix_secs: 1_000,
        expires_at_unix_secs: 10_000,
        entitlements_snapshot: Entitlements::Items(vec![item]),
        created_at_unix_secs: 1_000,
        updated_at_unix_secs: 1_000,
    }
}

fn cost_entitlement() -> UserPlanEntitlementRecord {
    entitlement(
        "ent-cost",
        vec![rule(
            UsagePolicyMetric::ActualCostUsd,
            UsagePolicyWindow::SubscriptionPeriod,
            10.0,
        )],
    )
}

#[test]
fn compiles_week_only_and_combined_rules() {
    let policy = compile_effective_policy(
        &vec![entitlement(
            "ent-1",
            vec![
                requests(rolling(18000), 500.0),
                requests(
                    UsagePolicyWindow::CalendarWeek {
                        timezone: Some("Asia/Shanghai".to_string()),
                        week_start: 1,
                    },
                    10000.0,
                ),
                rule(UsagePolicyMetric::Concurrency, UsagePolicyWindow::Concurrent, 4.0),
            ],
        )],
        2_000,
        None,
    )
    .expect("policy");
    assert_eq!(policy.request_rules.len(), 2);
    assert_eq!(policy.concurrency_limit, Some(4));
}

#[test]
fn policy_snapshot_exists_only_for_cost_rules_and_derives_unique_tokens() {
    assert!(PlanUsagePolicySnapshot::for_admission(
        "user-1",
        EffectivePlanUsagePolicy::default(),
        2_000,
    )
    .is_none());

    let policy =
        compile_effective_policy(&vec![cost_entitlement()], 2_000, None).expect("cost policy");
    let snapshot = PlanUsagePolicySnapshot::for_admission("user-1", policy.clone(), 2_000)
        .expect("cost rules require a policy snapshot");
    let reservation = snapshot.new_reservation_context();
    let retry_reservation = snapshot.new_reservation_context();

    assert_eq!(reservation.subject_id(), "user-1");
    assert_eq!(reservation.admitted_at_unix_secs(), 2_000);
    assert_eq!(reservation.policy(), &policy);
    assert!(!reservation.token().trim().is_empty());
    assert_ne!(reservation.token(), retry_reservation.token());
    assert_eq!(retry_reservation.admitted_at_unix_secs(), 2_000);
    assert!(std::ptr::eq(reservation.policy(), retry_reservation.policy()));
}

#[test]
fn tokens_are_version_four_uuids() {
    let policy =
        compile_effective_policy(&vec![cost_entitlement()], 2_000, None).expect("cost policy");
    let snapshot = PlanUsagePolicySnapshot::for_admission("user-1", policy, 2_000).unwrap();
    for _ in 0..100 {
        let reservation = snapshot.new_reservation_context();
        let token = reservation.token();
        assert_eq!(token.len(), 36);
        for (at, c) in token.chars().enumerate() {
            match at {
                8 | 13 | 18 | 23 => assert_eq!(c, '-'),
                14 => assert_eq!(c, '4'),
                _ => assert!(c.is_ascii_digit() || ('a'..='f').contains(&c)),
            }
        }
    }
}

#[test]
fn admitted_cost_snapshot_keeps_original_window_after_entitlement_expiry() {
    let policy = compile_effective_policy(&vec![cost_entitlement()], 9_999, None)
        .expect("policy before expiry");
    let snapshot = PlanUsagePolicySnapshot::for_admission("user-1", policy, 9_999)
        .expect("cost policy snapshot");

    let rule = snapshot.policy().cost_rules.first().expect("snapshotted cost rule");
    let runtime = runtime_cost_rule(rule, snapshot.admitted_at_unix_secs, None)
        .expect("snapshot remains compilable at its admitted timestamp");
    assert_eq!(runtime.window.starts_at_unix_secs, 1_000);
    assert_eq!(runtime.window.ends_at_unix_secs, 10_000);
    assert_eq!(runtime.retry_after, 1);

    assert!(compile_effective_policy(&vec![cost_entitlement()], 10_000, None)
        .expect("policy at expiry")
        .cost_rules
        .is_empty());
}

#[test]
fn same_window_uses_strictest_limit_but_subscription_periods_stay_independent() {
    let first = entitlement(
        "ent-a",
        vec![
            requests(rolling(60), 100.0),
            requests(UsagePolicyWindow::SubscriptionPeriod, 1000.0),
        ],
    );
    let second = entitlement(
        "ent-b",
        vec![
            requests(rolling(60), 40.0),
            requests(UsagePolicyWindow::SubscriptionPeriod, 2000.0),
        ],
    );
    let policy = compile_effective_policy(&vec![first, second], 2_000, None).expect("policy");
    assert_eq!(policy.request_rules.len(), 3);
    assert_eq!(
        policy
            .request_rules
            .iter()
            .find(|rule| rule.identity == "rolling:60")
            .map(|rule| rule.limit),
        Some(40)
    );
}

fn unix(moment: &str) -> u64 {
    chrono::DateTime::parse_from_rfc3339(moment).unwrap().timestamp() as u64
}

#[test]
fn rolling_windows_use_stable_sliding_keys_and_calendar_windows_use_epoch_keys() {
    let rolling = EffectiveRequestRule {
        identity: "rolling:18000".to_string(),
        window: UsagePolicyWindow::Rolling { seconds: 18_000 },
        limit: 10,
        entitlement_period: None,
    };
    let first = runtime_request_rule("user-1", &rolling, 20_000, None).expect("first rolling");
    let second = runtime_request_rule("user-1", &rolling, 40_000, None).expect("second rolling");
    assert_eq!(first.key, second.key);
    assert_eq!(first.window_seconds, 18_000);
    assert_eq!(first.retention_seconds, 18_000);

    let weekly = EffectiveRequestRule {
        identity: "calendar_week:Asia/Shanghai:1".to_string(),
        window: UsagePolicyWindow::CalendarWeek {
            timezone: Some("Asia/Shanghai".to_string()),
            week_start: 1,
        },
        limit: 20,
        entitlement_period: None,
    };
    let sunday = unix("2026-08-16T12:00:00+08:00");
    let monday = unix("2026-08-17T12:00:00+08:00");
    let first = runtime_request_rule("user-1", &weekly, sunday, None).expect("first week");
    let second = runtime_request_rule("user-1", &weekly, monday, None).expect("second week");
    assert_ne!(first.key, second.key);
    assert_eq!(first.window, "calendar_week");
    assert_eq!(first.retention_seconds, first.retry_after);
    assert!(first.retention_seconds < first.window_seconds);
}

#[test]
fn subscription_period_counter_keeps_the_entitlement_epoch_isolated() {
    let rule = EffectiveRequestRule {
        identity: "subscription:ent-1".to_string(),
        window: UsagePolicyWindow::SubscriptionPeriod,
        limit: 5,
        entitlement_period: Some((1_000, 10_000)),
    };
    let runtime = runtime_request_rule("user-1", &rule, 9_500, None).expect("subscription rule");
    assert!(runtime.key.ends_with(":subscription:ent-1:1000"));
    assert_eq!(runtime.window_seconds, 9_000);
    assert_eq!(runtime.retention_seconds, 500);
    assert_eq!(runtime.retry_after, 500);
}

#[test]
fn calendar_bucket_retention_uses_only_the_short_remaining_period() {
    let daily = EffectiveRequestRule {
        identity: "calendar_day:Asia/Shanghai".to_string(),
        window: UsagePolicyWindow::CalendarDay { timezone: Some("Asia/Shanghai".to_string()) },
        limit: 5,
        entitlement_period: None,
    };
    let near_midnight = unix("2026-08-18T23:59:59+08:00");
    let runtime =
        runtime_request_rule("user-1", &daily, near_midnight, None).expect("daily rule");

    assert_eq!(runtime.window_seconds, 24 * 60 * 60);
    assert_eq!(runtime.retention_seconds, 1);
    assert_eq!(runtime.retry_after, 1);
}

#[test]
fn cost_policy_fails_closed_when_usage_runtime_is_disabled() {
    assert!(ensure_cost_policy_usage_runtime_enabled(true).is_ok());
    assert!(matches!(
        ensure_cost_policy_usage_runtime_enabled(false),
        Err(GatewayError::Internal(message))
            if message.contains("usage runtime")
                && message.contains("terminal reconciliation")
    ));
}

#[test]
fn cost_retention_uses_exclusive_rolling_influence_end() {
    let rule = EffectiveCostRule {
        identity: "rolling:18000".to_string(),
        window: UsagePolicyWindow::Rolling { seconds: 18_000 },
        limit_cost_units: 100,
        entitlement_period: None,
    };
    let runtime = runtime_cost_rule(&rule, 20_000, None).expect("runtime cost rule");
    assert_eq!(runtime.influence_ends_at_unix_secs, 38_001);
}

#[test]
fn explicit_cost_release_uses_server_token_and_zero_actual_cost() {
    let input = build_usage_policy_cost_release_input(
        "request-1",
        "user-1",
        "server-reservation-token",
        12_345,
    );

    assert_eq!(input.request_id, "request-1");
    assert_eq!(input.subject_id, "user-1");
    assert_eq!(input.reservation_token, "server-reservation-token");
    assert_eq!(input.actual_cost_units, 0);
    assert_eq!(input.terminal_state, UsagePolicyCostReservationState::Released);
    assert_eq!(input.finalized_at_unix_secs, 12_345);
    input.validate().expect("release input should validate");
}

#[test]
fn rules_are_compiled_in_the_order_of_their_windows() {
    let policy = compile_effective_policy(
        &vec![entitlement(
            "ent-1",
            vec![
                requests(rolling(60), 5.0),
                requests(UsagePolicyWindow::CalendarMonth { timezone: None }, 7.0),
                rule(UsagePolicyMetric::ActualCostUsd, rolling(60), 1.5),
            ],
        )],
        2_000,
        Some(" Europe/Berlin "),
    )
    .expect("policy");
    assert_eq!(
        policy.request_rules.iter().map(|rule| rule.identity.as_str()).collect::<Vec<_>>(),
        vec!["calendar_month:Europe/Berlin", "rolling:60"]
    );
    assert_eq!(policy.cost_rules[0].limit_cost_units, 150_000_000);
    assert_eq!(policy.valid_until_unix_secs, Some(10_000));
    assert!(!policy_is_stale(&policy, 9_999));
    assert!(policy_is_stale(&policy, 10_000));
    assert!(!policy_is_stale(&EffectivePlanUsagePolicy::default(), u64::MAX));
}

#[test]
fn only_active_plans_count() {
    let mut paused = entitlement("paused", vec![requests(rolling(60), 1.0)]);
    paused.status = "paused".to_string();
    let mut later = entitlement("later", vec![requests(rolling(60), 1.0)]);
    later.starts_at_unix_secs = 2_001;
    let policy = compile_effective_policy(&vec![paused, later], 2_000, None).expect("policy");
    assert!(policy.request_rules.is_empty());
    assert_eq!(policy, EffectivePlanUsagePolicy::default());
}

#[test]
fn a_policy_is_that_of_the_active_plans_until_the_first_expires() {
    let plans = |with_others: bool| {
        let mut first = entitlement("first", vec![requests(rolling(60), 5.0)]);
        first.expires_at_unix_secs = 9_000;
        let mut second = entitlement("second", vec![requests(rolling(60), 3.0)]);
        second.expires_at_unix_secs = 4_000;
        let mut expired = entitlement("expired", vec![requests(rolling(60), 1.0)]);
        expired.expires_at_unix_secs = 2_000;
        let mut paused = entitlement("paused", vec![requests(rolling(60), 0.0)]);
        paused.status = "paused".to_string();
        paused.expires_at_unix_secs = 3_000;
        if with_others {
            vec![expired, first, paused, second]
        } else {
            vec![first, second]
        }
    };
    let policy = compile_effective_policy(&plans(true), 2_000, None).expect("policy");
    assert_eq!(policy, compile_effective_policy(&plans(false), 2_000, None).expect("policy"));
    assert_eq!(policy.valid_until_unix_secs, Some(4_000));
    assert_eq!(policy.request_rules[0].limit, 3);
    assert!(!policy_is_stale(&policy, 3_999));
    assert!(policy_is_stale(&policy, 4_000));
}

#[test]
fn a_policy_that_cannot_be_read_fails_the_compilation() {
    let broken = entitlement("ent-x", vec![requests(rolling(60), 0.0)]);
    assert!(matches!(
        compile_effective_policy(&vec![broken], 2_000, None),
        Err(GatewayError::Internal(message)) if message
            == "usage_policy entitlement at index 0 is invalid: usage_policy.rules[0].limit must be finite and positive"
    ));
}

#[test]
fn windows_have_their_identities() {
    let week = UsagePolicyWindow::CalendarWeek { timezone: None, week_start: 3 };
    assert_eq!(window_identity(&week, None), "calendar_week:Asia/Shanghai:3");
    assert_eq!(window_identity(&week, Some("Mars/Olympus")), "calendar_week:Asia/Shanghai:3");
    assert_eq!(window_identity(&week, Some("UTC")), "calendar_week:UTC:3");
    let day = UsagePolicyWindow::CalendarDay { timezone: Some(" UTC ".to_string()) };
    assert_eq!(window_identity(&day, None), "calendar_day:UTC");
    assert_eq!(window_identity(&rolling(7), None), "rolling:7");
    assert_eq!(
        window_identity(&UsagePolicyWindow::SubscriptionPeriod, None),
        "subscription_period"
    );
    assert_eq!(window_identity(&UsagePolicyWindow::Concurrent, None), "concurrent");
}

fn effective(window: UsagePolicyWindow, limit: u64) -> EffectiveRequestRule {
    EffectiveRequestRule {
        identity: window_identity(&window, None),
        window,
        limit,
        entitlement_period: None,
    }
}

#[test]
fn rolling_windows_are_named_and_counted_by_their_length() {
    assert_eq!(rolling_label(1), "qps");
    assert_eq!(rolling_label(60), "rpm");
    assert_eq!(rolling_label(61), "rolling");
    assert!(request_rule_uses_runtime_state(&effective(rolling(60), 1)));
    assert!(!request_rule_uses_runtime_state(&effective(rolling(61), 1)));
    assert!(!request_rule_uses_runtime_state(&effective(
        UsagePolicyWindow::CalendarDay { timezone: None },
        1
    )));
    let rule = runtime_request_rule("u", &effective(rolling(1), 3), 50, None).unwrap();
    assert_eq!(rule.key, "plan-usage:user:{u}:rolling:1:sliding");
    assert_eq!(rule.window, "qps");
    assert!(rule.retention_seconds <= 60);
    let durable = durable_request_rule(&effective(rolling(300), 3), 100, None).unwrap();
    assert_eq!(durable.window.starts_at_unix_secs, 0);
    assert_eq!(durable.window.ends_at_unix_secs, 101);
    assert_eq!(durable.influence_ends_at_unix_secs, 401);
    assert_eq!((durable.retry_after, durable.label), (300, "rolling"));
}

#[test]
fn windows_that_cannot_be_placed_are_told() {
    let missing = EffectiveRequestRule {
        identity: "subscription:x".to_string(),
        window: UsagePolicyWindow::SubscriptionPeriod,
        limit: 1,
        entitlement_period: None,
    };
    assert!(matches!(
        runtime_request_rule("u", &missing, 1, None),
        Err(PlanUsageAdmissionError::Gateway(GatewayError::Internal(message)))
            if message == "subscription period usage policy is missing its entitlement period"
    ));
    assert!(matches!(
        durable_request_rule(&missing, 1, None),
        Err(PlanUsageAdmissionError::Gateway(GatewayError::Internal(message)))
            if message == "subscription period cost policy is missing its entitlement period"
    ));
    let concurrent = effective(UsagePolicyWindow::Concurrent, 1);
    assert!(matches!(
        runtime_request_rule("u", &concurrent, 1, None),
        Err(PlanUsageAdmissionError::Gateway(GatewayError::Internal(message)))
            if message == "concurrent window reached request counter compiler"
    ));
    assert!(matches!(
        durable_request_rule(&concurrent, 1, None),
        Err(PlanUsageAdmissionError::Gateway(GatewayError::Internal(message)))
            if message == "concurrent window reached cost policy compiler"
    ));
    let nowhere =
        effective(UsagePolicyWindow::CalendarDay { timezone: Some("Nowhere".to_string()) }, 1);
    assert!(matches!(
        durable_request_rule(&nowhere, 1, None),
        Err(PlanUsageAdmissionError::Gateway(GatewayError::Internal(message)))
            if message == "usage policy contains an invalid timezone"
    ));
    assert!(is_placeable(&nowhere.window, 0));
    assert!(!is_placeable(&nowhere.window, 8_210_266_876_799));
    assert!(is_placeable(&rolling(60), 8_210_266_876_799));
}

fn policy_of(request_rules: Vec<EffectiveRequestRule>, concurrency: Option<u64>) -> EffectivePlanUsagePolicy {
    EffectivePlanUsagePolicy {
        request_rules,
        cost_rules: Vec::new(),
        concurrency_limit: concurrency,
        valid_until_unix_secs: None,
    }
}

#[test]
fn a_request_goes_through_permit_short_and_long_windows() {
    let policy = policy_of(vec![effective(rolling(60), 5), effective(rolling(3_600), 9)], Some(4));
    let mut admission = PlanAdmission::new("user-1", &policy, "event-1", 50_000_999, None);
    match admission.on_event(AdmissionEvent::Begin) {
        AdmissionAction::AcquirePermit { key, limit } => {
            assert_eq!(key, "admission:plan_usage_concurrency:user:{user-1}");
            assert_eq!(limit, 4);
        }
        other => panic!("unexpected {:?}", other),
    }
    assert!(matches!(
        admission.on_event(AdmissionEvent::Permit(Ok(()))),
        AdmissionAction::ConsumeShortWindows
    ));
    assert_eq!(admission.short.len(), 1);
    assert_eq!(admission.short[0].limit, 5);
    match admission.on_event(AdmissionEvent::ShortWindows(Ok(UsageLimitCheck::Allowed))) {
        AdmissionAction::ReserveLongWindows(input) => {
            assert_eq!(input.request_id, "event-1");
            assert_eq!(input.event_token, "event-1");
            assert_eq!(input.subject_id, "user-1");
            assert_eq!(input.admitted_at_unix_secs, 50_000);
            assert_eq!(input.retain_until_unix_secs, 50_000 + 2_764_800);
            assert_eq!(input.windows.len(), 1);
            assert_eq!(input.windows[0].limit_requests, 9);
            assert_eq!(input.windows[0].starts_at_unix_secs, 46_400);
            assert_eq!(input.windows[0].ends_at_unix_secs, 50_001);
            input.validate().expect("ledger request should validate");
        }
        other => panic!("unexpected {:?}", other),
    }
    assert!(matches!(
        admission.on_event(AdmissionEvent::LongWindows(Ok(Some(
            ReserveUsagePolicyRequestOutcome::Allowed
        )))),
        AdmissionAction::Admit
    ));
}

fn after_short_windows(policy: &EffectivePlanUsagePolicy) -> PlanAdmission<'_> {
    let mut admission = PlanAdmission::new("user-1", policy, "event-1", 50_000_000, None);
    assert!(matches!(
        admission.on_event(AdmissionEvent::Begin),
        AdmissionAction::ConsumeShortWindows
    ));
    assert!(matches!(
        admission.on_event(AdmissionEvent::ShortWindows(Ok(UsageLimitCheck::Allowed))),
        AdmissionAction::ReserveLongWindows(_)
    ));
    admission
}

#[test]
fn what_the_ledger_refuses_is_taken_out_of_the_short_windows() {
    let policy = policy_of(vec![effective(rolling(60), 5), effective(rolling(3_600), 9)], None);
    let rejected = ReserveUsagePolicyRequestOutcome::Rejected {
        window_index: 0,
        limit_requests: 9,
        used_requests: 9,
    };
    match after_short_windows(&policy).on_event(AdmissionEvent::LongWindows(Ok(Some(rejected)))) {
        AdmissionAction::ReleaseAndRefuse {
            reason,
            error: PlanUsageAdmissionError::Rejected(rejection),
        } => {
            assert_eq!(reason, "durable_admission_rejected");
            assert_eq!(rejection.metric, "request_count");
            assert_eq!(rejection.limit, PolicyLimit::Requests(9));
            assert_eq!((rejection.retry_after, rejection.window), (3_600, "rolling"));
        }
        other => panic!("unexpected {:?}", other),
    }
    let cases = vec![
        (Err("down".to_string()), "durable_admission_error", "down"),
        (
            Ok(None),
            "settlement_writer_unavailable",
            "long-window plan request limits require a settlement write repository",
        ),
        (
            Ok(Some(ReserveUsagePolicyRequestOutcome::AlreadyReleased)),
            "durable_admission_already_released",
            "plan request admission token is already released",
        ),
        (
            Ok(Some(ReserveUsagePolicyRequestOutcome::Conflict)),
            "durable_admission_conflict",
            "plan request admission identity conflict",
        ),
        (
            Ok(Some(ReserveUsagePolicyRequestOutcome::Rejected {
                window_index: 1,
                limit_requests: 9,
                used_requests: 9,
            })),
            "durable_admission_rejected",
            "usage policy request ledger returned an invalid rule index",
        ),
    ];
    for (reply, expected_reason, expected_message) in cases {
        match after_short_windows(&policy).on_event(AdmissionEvent::LongWindows(reply)) {
            AdmissionAction::ReleaseAndRefuse {
                reason,
                error: PlanUsageAdmissionError::Gateway(GatewayError::Internal(message)),
            } => {
                assert_eq!(reason, expected_reason);
                assert_eq!(message, expected_message);
            }
            other => panic!("unexpected {:?}", other),
        }
    }
}

#[test]
fn a_long_window_that_cannot_be_placed_is_undone_in_the_short_windows() {
    let cairo = UsagePolicyWindow::CalendarDay { timezone: Some("Africa/Cairo".to_string()) };
    let now_unix_ms = unix("2026-04-24T12:00:00+03:00") * 1_000;
    let policy = policy_of(vec![effective(rolling(60), 5), effective(cairo.clone(), 9)], None);
    let mut admission = PlanAdmission::new("user-1", &policy, "event-1", now_unix_ms, None);
    assert!(matches!(
        admission.on_event(AdmissionEvent::Begin),
        AdmissionAction::ConsumeShortWindows
    ));
    let counted = admission.short.clone();
    match admission.on_event(AdmissionEvent::ShortWindows(Ok(UsageLimitCheck::Allowed))) {
        AdmissionAction::ReleaseAndRefuse {
            reason,
            error: PlanUsageAdmissionError::Gateway(GatewayError::Internal(message)),
        } => {
            assert_eq!(reason, "durable_admission_error");
            assert_eq!(message, "usage policy calendar window is out of range");
        }
        other => panic!("unexpected {:?}", other),
    }
    assert_eq!(counted.len(), 1);
    assert_eq!(admission.short, counted);

    let policy = policy_of(vec![effective(cairo, 9)], None);
    let mut admission = PlanAdmission::new("user-1", &policy, "event-1", now_unix_ms, None);
    assert!(matches!(
        admission.on_event(AdmissionEvent::Begin),
        AdmissionAction::Refuse(PlanUsageAdmissionError::Gateway(GatewayError::Internal(message)))
            if message == "usage policy calendar window is out of range"
    ));
}

#[test]
fn without_short_windows_there_is_nothing_to_take_back() {
    let policy = policy_of(vec![effective(rolling(3_600), 9)], None);
    let mut admission = PlanAdmission::new("user-1", &policy, "event-1", 50_000_000, None);
    assert!(matches!(
        admission.on_event(AdmissionEvent::Begin),
        AdmissionAction::ReserveLongWindows(_)
    ));
    assert!(matches!(
        admission.on_event(AdmissionEvent::LongWindows(Ok(None))),
        AdmissionAction::Refuse(PlanUsageAdmissionError::Gateway(_))
    ));
}

#[test]
fn short_windows_and_permits_refuse() {
    let policy = policy_of(vec![effective(rolling(60), 5)], None);
    for (retry_after, expected) in [(0, 1), (7, 7), (600, 60)] {
        let mut admission = PlanAdmission::new("user-1", &policy, "event-1", 50_000_000, None);
        admission.on_event(AdmissionEvent::Begin);
        let reply = UsageLimitCheck::Rejected { rule_index: 0, limit: 5, retry_after };
        match admission.on_event(AdmissionEvent::ShortWindows(Ok(reply))) {
            AdmissionAction::Refuse(PlanUsageAdmissionError::Rejected(rejection)) => {
                assert_eq!(rejection.retry_after, expected);
                assert_eq!(rejection.window, "rpm");
                assert_eq!(rejection.limit, PolicyLimit::Requests(5));
            }
            other => panic!("unexpected {:?}", other),
        }
    }
    let mut admission = PlanAdmission::new("user-1", &policy, "event-1", 50_000_000, None);
    admission.on_event(AdmissionEvent::Begin);
    let reply = UsageLimitCheck::Rejected { rule_index: 1, limit: 5, retry_after: 1 };
    assert!(matches!(
        admission.on_event(AdmissionEvent::ShortWindows(Ok(reply))),
        AdmissionAction::Refuse(PlanUsageAdmissionError::Gateway(GatewayError::Internal(message)))
            if message == "usage policy runtime returned an invalid rule index"
    ));
    let limited = policy_of(Vec::new(), Some(2));
    let mut admission = PlanAdmission::new("user-1", &limited, "event-1", 50_000_000, None);
    admission.on_event(AdmissionEvent::Begin);
    let saturated = RuntimeSemaphoreError::Saturated { gate: "g".to_string(), limit: 2 };
    assert!(matches!(
        admission.on_event(AdmissionEvent::Permit(Err(saturated))),
        AdmissionAction::Refuse(PlanUsageAdmissionError::Runtime(
            RuntimeSemaphoreError::Saturated { limit: 2, .. }
        ))
    ));
    let free = policy_of(Vec::new(), None);
    let mut admission = PlanAdmission::new("user-1", &free, "event-1", 50_000_000, None);
    assert!(matches!(admission.on_event(AdmissionEvent::Begin), AdmissionAction::Admit));
}

fn decision(user_id: &str, bypass: bool, standalone: bool) -> GatewayControlDecision {
    GatewayControlDecision {
        route_class: Some("ai_public".to_string()),
        auth_context: Some(GatewayControlAuthContext {
            user_id: user_id.to_string(),
            admin_bypass_limits: bypass,
            api_key_is_standalone: standalone,
        }),
        admin_principal: None,
    }
}

#[test]
fn plans_limit_only_users_of_the_public_routes() {
    assert_eq!(plan_usage_auth_context(&decision("user-1", false, false)).unwrap().user_id, "user-1");
    assert!(plan_usage_auth_context(&decision("user-1", true, false)).is_none());
    assert!(plan_usage_auth_context(&decision("user-1", false, true)).is_none());
    let mut admin = decision("user-1", false, false);
    admin.route_class = Some("admin".to_string());
    assert!(plan_usage_auth_context(&admin).is_none());
    admin.route_class = None;
    admin.admin_principal = Some(GatewayAdminPrincipal { user_id: "a".to_string() });
    assert!(plan_usage_auth_context(&admin).is_none());
    let mut nobody = decision("user-1", false, false);
    nobody.auth_context = None;
    assert!(plan_usage_auth_context(&nobody).is_none());
}

fn cost_snapshot() -> PlanUsagePolicySnapshot {
    let policy =
        compile_effective_policy(&vec![cost_entitlement()], 2_000, None).expect("cost policy");
    PlanUsagePolicySnapshot::for_admission("user-1", policy, 2_000).expect("snapshot")
}

#[test]
fn costs_are_reserved_only_for_the_one_who_was_admitted() {
    let snapshot = cost_snapshot().clone();
    let reservation = snapshot.reservation_with_token("token-1".to_string()).clone();
    assert_eq!(reservation.token(), "token-1");
    assert!(std::ptr::eq(reservation.policy(), snapshot.policy()));
    for start in [
        reserve_admitted_http_plan_usage_policy_cost(
            &decision("user-1", false, false),
            Some(&reservation),
            true,
        ),
        reserve_admitted_plan_usage_policy_cost(
            &decision("user-1", false, false),
            Some(&snapshot),
            true,
        ),
    ] {
        assert!(matches!(
            start,
            Ok(CostReservationStart::Estimate { user_id }) if user_id == "user-1"
        ));
    }
    for start in [
        reserve_admitted_http_plan_usage_policy_cost(
            &decision("user-2", false, false),
            Some(&reservation),
            true,
        ),
        reserve_admitted_plan_usage_policy_cost(
            &decision("user-2", false, false),
            Some(&snapshot),
            true,
        ),
    ] {
        assert!(matches!(
            start,
            Err(GatewayError::Internal(message))
                if message == "plan usage reservation subject does not match the admitted request"
        ));
    }
    assert!(matches!(
        reserve_admitted_http_plan_usage_policy_cost(&decision("user-1", false, false), None, true),
        Ok(CostReservationStart::NotRequired)
    ));
    assert!(matches!(
        reserve_admitted_plan_usage_policy_cost(
            &decision("user-1", true, false),
            Some(&snapshot),
            false
        ),
        Ok(CostReservationStart::NotRequired)
    ));
    assert!(reserve_admitted_plan_usage_policy_cost(
        &decision("user-1", false, false),
        Some(&snapshot),
        false
    )
    .is_err());
}

#[test]
fn the_ledger_is_asked_for_the_estimated_cost_in_every_window() {
    let snapshot = cost_snapshot();
    let request = reserve_plan_usage_policy_cost_with_policy(
        "request-1",
        "user-1",
        snapshot.policy(),
        snapshot.admitted_at_unix_secs,
        "token-1",
        Some(usd(0.25)),
        None,
    )
    .expect("request");
    assert_eq!(request.input.request_id, "request-1");
    assert_eq!(request.input.reservation_token, "token-1");
    assert_eq!(request.input.reserved_cost_units, 25_000_000);
    assert_eq!(request.input.reservation_expires_at_unix_secs, 2_000 + 86_400);
    assert_eq!(request.input.retain_until_unix_secs, 2_000 + 2_764_800);
    assert_eq!(request.input.windows.len(), 1);
    assert_eq!(request.input.windows[0].window_id, "subscription:ent-cost:1000");
    assert_eq!(request.input.windows[0].limit_cost_units, 1_000_000_000);
    request.input.validate().expect("ledger request should validate");

    let conclude =
        |reply| conclude_plan_usage_policy_cost("request-1", &request.rules, reply);
    assert!(matches!(
        conclude(Ok(Some(ReserveUsagePolicyCostOutcome::Allowed {
            reserved_cost_units: 1,
            additional_reserved_cost_units: 1,
        }))),
        Ok(PlanUsageCostReservationOutcome::Reserved)
    ));
    match conclude(Ok(Some(ReserveUsagePolicyCostOutcome::Rejected {
        window_index: 0,
        limit_cost_units: 5,
        used_cost_units: 5,
    }))) {
        Ok(PlanUsageCostReservationOutcome::Rejected(rejection)) => {
            assert_eq!(rejection.metric, "actual_cost_usd");
            assert_eq!(rejection.limit, PolicyLimit::CostUnits(5));
            assert_eq!((rejection.retry_after, rejection.window), (8_000, "subscription_period"));
        }
        other => panic!("unexpected {:?}", other),
    }
    for (reply, text) in vec![
        (Err("down".to_string()), "down"),
        (Ok(None), "plan cost limits require a settlement write repository"),
        (
            Ok(Some(ReserveUsagePolicyCostOutcome::Conflict)),
            "plan cost reservation request identity conflict",
        ),
        (
            Ok(Some(ReserveUsagePolicyCostOutcome::AlreadyTerminal {
                state: UsagePolicyCostReservationState::Released,
            })),
            "plan cost reservation for request request-1 is already released",
        ),
        (
            Ok(Some(ReserveUsagePolicyCostOutcome::Rejected {
                window_index: 1,
                limit_cost_units: 5,
                used_cost_units: 5,
            })),
            "usage policy cost reservation returned an invalid window index",
        ),
    ] {
        assert!(matches!(
            conclude(reply),
            Err(GatewayError::Internal(message)) if message == text
        ));
    }
}

#[test]
fn an_error_of_the_gateway_is_one_of_the_admission() {
    let error = PlanUsageAdmissionError::from(GatewayError::Internal("down".to_string()));
    assert!(matches!(
        error,
        PlanUsageAdmissionError::Gateway(GatewayError::Internal(message)) if message == "down"
    ));
}

#[test]
fn costs_that_cannot_be_estimated_are_refused() {
    let snapshot = cost_snapshot();
    for (estimate, text) in [
        (
            None,
            "a hard plan cost limit is active, but this request cost cannot be estimated safely",
        ),
        (
            Some(usd(-1.0)),
            "estimated request cost is outside the supported plan limit range",
        ),
    ] {
        assert!(matches!(
            reserve_plan_usage_policy_cost_with_policy(
                "request-1",
                "user-1",
                snapshot.policy(),
                2_000,
                "token-1",
                estimate,
                None,
            ),
            Err(GatewayError::Internal(message)) if message == text
        ));
    }
}

#[test]
fn a_reservation_is_given_back_only_where_a_plan_limits() {
    let release = release_plan_usage_policy_cost(
        &decision("user-1", false, false),
        "request-1",
        "token-1",
        7,
    )
    .expect("release");
    assert_eq!((release.subject_id.as_str(), release.finalized_at_unix_secs), ("user-1", 7));
    assert!(release_plan_usage_policy_cost(
        &decision("user-1", true, false),
        "request-1",
        "token-1",
        7
    )
    .is_none());
}

#[test]
fn every_limit_is_that_of_an_active_rule() {
    let mut expired = entitlement("old", vec![requests(rolling(60), 1.0)]);
    expired.expires_at_unix_secs = 2_000;
    let plans = vec![
        expired,
        entitlement(
            "ent-a",
            vec![
                requests(rolling(60), 100.0),
                rule(UsagePolicyMetric::Concurrency, UsagePolicyWindow::Concurrent, 8.0),
            ],
        ),
        entitlement(
            "ent-b",
            vec![
                requests(rolling(60), 40.0),
                rule(UsagePolicyMetric::Concurrency, UsagePolicyWindow::Concurrent, 4.0),
                rule(UsagePolicyMetric::ActualCostUsd, rolling(60), 0.00000001),
            ],
        ),
    ];
    let policy = compile_effective_policy(&plans, 2_000, None).expect("policy");
    assert_eq!(policy.request_rules, vec![effective(rolling(60), 40)]);
    assert_eq!(policy.concurrency_limit, Some(4));
    assert_eq!(policy.cost_rules.len(), 1);
    assert_eq!(policy.cost_rules[0].limit_cost_units, 1);
}
