use aether_usage_policy::binary64::Binary64;
use aether_usage_policy::cost_ledger::{
    ReconcileUsagePolicyCostInput, ReserveUsagePolicyCostInput, UsagePolicyCostReservationState,
    UsagePolicyCostWindow,
};
use aether_usage_policy::error::DataLayerError;
use aether_usage_policy::request_ledger::{
    ReleaseUsagePolicyRequestAdmissionInput, ReserveUsagePolicyRequestInput,
    UsagePolicyRequestAdmissionState, UsagePolicyRequestWindow,
};
use aether_usage_policy::settlement::{
    settlement_billable_cost_usd, settlement_billing_status_for_usage_status, UsageSettlementInput,
};
use aether_usage_policy::wallet::{
    finite_wallet_available_usd, plan_finite_wallet_debit, SETTLEMENT_EPSILON_USD_BITS,
};

fn usd(value: f64) -> Binary64 {
    Binary64 { bits: value.to_bits() }
}

fn dollars(value: Binary64) -> f64 {
    f64::from_bits(value.bits)
}

fn settlement_input() -> UsageSettlementInput {
    UsageSettlementInput {
        request_id: "request-1".to_string(),
        user_id: None,
        api_key_id: None,
        api_key_is_standalone: false,
        provider_id: None,
        status: "completed".to_string(),
        billing_status: "pending".to_string(),
        total_cost_usd: usd(0.1),
        actual_total_cost_usd: usd(0.1),
        finalized_at_unix_secs: None,
    }
}

fn invalid(result: Result<(), DataLayerError>) -> String {
    match result {
        Err(DataLayerError::InvalidInput(message)) => message,
        other => panic!("expected an invalid input, got {:?}", other),
    }
}

#[test]
fn rejects_invalid_settlement_input() {
    let mut input = settlement_input();
    input.request_id = "".to_string();
    assert!(input.validate().is_err());
}

#[test]
fn settlement_input_errors_have_their_texts() {
    assert!(settlement_input().validate().is_ok());
    let mut input = settlement_input();
    input.request_id = " ".to_string();
    assert_eq!(invalid(input.validate()), "settlement request_id cannot be empty");
    let mut input = settlement_input();
    input.status = " ".to_string();
    assert_eq!(invalid(input.validate()), "settlement status cannot be empty");
    let mut input = settlement_input();
    input.billing_status = "".to_string();
    assert_eq!(invalid(input.validate()), "settlement status cannot be empty");
    let mut input = settlement_input();
    input.actual_total_cost_usd = usd(f64::NAN);
    assert_eq!(invalid(input.validate()), "settlement cost must be finite");
    let mut input = settlement_input();
    input.total_cost_usd = usd(f64::INFINITY);
    assert_eq!(invalid(input.validate()), "settlement cost must be finite");
}

fn request_input() -> ReserveUsagePolicyRequestInput {
    ReserveUsagePolicyRequestInput {
        request_id: "request-1".to_string(),
        subject_id: "user-1".to_string(),
        event_token: "event-1".to_string(),
        admitted_at_unix_secs: 100,
        retain_until_unix_secs: 200,
        windows: vec![UsagePolicyRequestWindow {
            starts_at_unix_secs: 50,
            ends_at_unix_secs: 200,
            limit_requests: 10,
        }],
    }
}

#[test]
fn validates_request_admission_window_and_retention_bounds() {
    let valid = request_input();
    assert!(valid.validate().is_ok());

    let mut invalid_retention = valid.clone();
    invalid_retention.retain_until_unix_secs = 199;
    assert!(invalid_retention.validate().is_err());

    let mut invalid_window = valid;
    invalid_window.windows[0].starts_at_unix_secs = 101;
    assert!(invalid_window.validate().is_err());
}

#[test]
fn request_input_errors_have_their_texts() {
    let broken = |change: fn(&mut ReserveUsagePolicyRequestInput)| {
        let mut input = request_input();
        change(&mut input);
        invalid(input.validate())
    };
    assert_eq!(
        broken(|input| input.request_id = " ".to_string()),
        "usage policy request_id must not be empty"
    );
    assert_eq!(
        broken(|input| input.subject_id = "x".repeat(129)),
        "usage policy subject_id exceeds 128 bytes"
    );
    assert_eq!(
        broken(|input| input.event_token = "ä".repeat(65)),
        "usage policy event_token exceeds 128 bytes"
    );
    assert_eq!(
        broken(|input| input.admitted_at_unix_secs = 1 << 63),
        "usage policy admitted_at exceeds the database integer range"
    );
    assert_eq!(
        broken(|input| input.retain_until_unix_secs = u64::MAX),
        "usage policy retain_until exceeds the database integer range"
    );
    assert_eq!(
        broken(|input| input.windows.clear()),
        "usage policy request admission requires 1 to 64 windows"
    );
    assert_eq!(
        broken(|input| input.windows = vec![input.windows[0]; 65]),
        "usage policy request admission requires 1 to 64 windows"
    );
    assert_eq!(
        broken(|input| input.windows[0].starts_at_unix_secs = 1 << 63),
        "usage policy request window 0 start exceeds the database integer range"
    );
    assert_eq!(
        broken(|input| input.windows[0].ends_at_unix_secs = 1 << 63),
        "usage policy request window 0 end exceeds the database integer range"
    );
    assert_eq!(
        broken(|input| input.windows[0].limit_requests = 1 << 63),
        "usage policy request window 0 limit exceeds the database integer range"
    );
    assert_eq!(
        broken(|input| input.windows[0].limit_requests = 0),
        "usage policy request window 0 does not contain admission or has invalid bounds"
    );
    assert_eq!(
        broken(|input| input.retain_until_unix_secs = 199),
        "usage policy request retain_until precedes window 0 end"
    );
}

#[test]
fn release_input_errors_have_their_texts() {
    let mut input = ReleaseUsagePolicyRequestAdmissionInput {
        request_id: "request-1".to_string(),
        subject_id: "user-1".to_string(),
        event_token: "event-1".to_string(),
        released_at_unix_secs: 1,
    };
    assert!(input.validate().is_ok());
    input.released_at_unix_secs = u64::MAX;
    assert_eq!(
        invalid(input.validate()),
        "usage policy released_at exceeds the database integer range"
    );
    input.event_token = String::new();
    assert_eq!(invalid(input.validate()), "usage policy event_token must not be empty");
}

fn cost_input() -> ReserveUsagePolicyCostInput {
    ReserveUsagePolicyCostInput {
        request_id: "request-1".to_string(),
        subject_id: "user-1".to_string(),
        reservation_token: "token-1".to_string(),
        admitted_at_unix_secs: 100,
        reserved_cost_units: 1,
        reservation_expires_at_unix_secs: 150,
        retain_until_unix_secs: 200,
        windows: vec![UsagePolicyCostWindow {
            window_id: "window-1".to_string(),
            starts_at_unix_secs: 50,
            ends_at_unix_secs: 200,
            limit_cost_units: 10,
        }],
    }
}

#[test]
fn usage_policy_cost_ids_match_sql_column_bounds() {
    let bounded = "x".repeat(128);
    let reserve = ReserveUsagePolicyCostInput {
        request_id: bounded.clone(),
        subject_id: bounded.clone(),
        reservation_token: bounded.clone(),
        admitted_at_unix_secs: 100,
        reserved_cost_units: 1,
        reservation_expires_at_unix_secs: 150,
        retain_until_unix_secs: 200,
        windows: vec![UsagePolicyCostWindow {
            window_id: "window-1".to_string(),
            starts_at_unix_secs: 50,
            ends_at_unix_secs: 200,
            limit_cost_units: 10,
        }],
    };
    assert!(reserve.validate().is_ok());

    for field in ["request_id", "subject_id", "reservation_token"] {
        let mut too_long = reserve.clone();
        match field {
            "request_id" => too_long.request_id.push('x'),
            "subject_id" => too_long.subject_id.push('x'),
            "reservation_token" => too_long.reservation_token.push('x'),
            _ => unreachable!(),
        }
        assert!(too_long.validate().is_err(), "{field} must be bounded");
    }

    let reconcile = ReconcileUsagePolicyCostInput {
        request_id: bounded.clone(),
        subject_id: bounded.clone(),
        reservation_token: bounded,
        actual_cost_units: 1,
        terminal_state: UsagePolicyCostReservationState::Finalized,
        finalized_at_unix_secs: 200,
    };
    assert!(reconcile.validate().is_ok());
    for field in ["request_id", "subject_id", "reservation_token"] {
        let mut too_long = reconcile.clone();
        match field {
            "request_id" => too_long.request_id.push('x'),
            "subject_id" => too_long.subject_id.push('x'),
            "reservation_token" => too_long.reservation_token.push('x'),
            _ => unreachable!(),
        }
        assert!(too_long.validate().is_err(), "{field} must be bounded");
    }
}

#[test]
fn cost_input_errors_have_their_texts() {
    let broken = |change: fn(&mut ReserveUsagePolicyCostInput)| {
        let mut input = cost_input();
        change(&mut input);
        invalid(input.validate())
    };
    assert_eq!(
        broken(|input| input.reserved_cost_units = u64::MAX),
        "reserved_cost_units exceeds the database integer range"
    );
    assert_eq!(
        broken(|input| input.reservation_expires_at_unix_secs = 100),
        "usage policy reservation must expire after admission"
    );
    assert_eq!(
        broken(|input| input.retain_until_unix_secs = 149),
        "usage policy retain_until must not precede reservation expiry"
    );
    assert_eq!(
        broken(|input| input.windows.clear()),
        "usage policy reservation requires 1 to 64 windows"
    );
    assert_eq!(
        broken(|input| input.windows[0].window_id = " ".to_string()),
        "usage policy window 0 id must not be empty"
    );
    assert_eq!(
        broken(|input| input.windows[0].limit_cost_units = u64::MAX),
        "usage policy window 0 limit_cost_units exceeds the database integer range"
    );
    assert_eq!(
        broken(|input| input.windows[0].ends_at_unix_secs = 100),
        "usage policy window 0 does not contain admission or has invalid bounds"
    );
    assert_eq!(
        broken(|input| {
            let window = input.windows[0].clone();
            input.windows.push(window);
        }),
        "usage policy window 1 duplicates window_id window-1"
    );
}

#[test]
fn reconciliation_errors_have_their_texts() {
    let mut input = ReconcileUsagePolicyCostInput {
        request_id: "request-1".to_string(),
        subject_id: "user-1".to_string(),
        reservation_token: "token-1".to_string(),
        actual_cost_units: 1,
        terminal_state: UsagePolicyCostReservationState::Reserved,
        finalized_at_unix_secs: 1,
    };
    assert_eq!(
        invalid(input.validate()),
        "usage policy reconciliation requires a terminal state"
    );
    input.terminal_state = UsagePolicyCostReservationState::Released;
    assert_eq!(
        invalid(input.validate()),
        "released usage policy reservations must have zero actual cost"
    );
    input.actual_cost_units = u64::MAX;
    assert_eq!(
        invalid(input.validate()),
        "actual_cost_units exceeds the database integer range"
    );
}

#[test]
fn states_are_read_back_from_their_names() {
    for state in [
        UsagePolicyRequestAdmissionState::Active,
        UsagePolicyRequestAdmissionState::Released,
    ] {
        assert_eq!(UsagePolicyRequestAdmissionState::parse(state.as_str()), Some(state));
    }
    for state in [
        UsagePolicyCostReservationState::Reserved,
        UsagePolicyCostReservationState::Finalized,
        UsagePolicyCostReservationState::Released,
    ] {
        assert_eq!(UsagePolicyCostReservationState::parse(state.as_str()), Some(state));
    }
    assert_eq!(UsagePolicyRequestAdmissionState::Active.as_str(), "active");
    assert_eq!(UsagePolicyCostReservationState::Finalized.as_str(), "finalized");
    assert_eq!(UsagePolicyRequestAdmissionState::parse("Active"), None);
    assert_eq!(UsagePolicyCostReservationState::parse(""), None);
}

#[test]
fn usage_statuses_have_their_billing_statuses() {
    assert_eq!(settlement_billing_status_for_usage_status("completed"), "settled");
    assert_eq!(settlement_billing_status_for_usage_status("cancelled"), "settled");
    assert_eq!(settlement_billing_status_for_usage_status("failed"), "void");
    assert_eq!(settlement_billing_status_for_usage_status("Completed"), "void");
    let mut input = settlement_input();
    assert_eq!(dollars(settlement_billable_cost_usd(&input)), 0.1);
    input.actual_total_cost_usd = usd(-2.0);
    assert_eq!(dollars(settlement_billable_cost_usd(&input)), 0.0);
}

#[test]
fn the_epsilon_is_a_hundred_millionth() {
    assert_eq!(f64::from_bits(SETTLEMENT_EPSILON_USD_BITS), 0.000_000_01);
}

#[test]
fn debits_take_recharge_then_gift_then_overdraw() {
    let plan = |recharge: f64, gift: f64, cost: f64| {
        let plan = plan_finite_wallet_debit(usd(recharge), usd(gift), usd(cost));
        (
            dollars(plan.recharge_deduction),
            dollars(plan.gift_deduction),
            dollars(plan.recharge_overdraft),
        )
    };
    assert_eq!(plan(10.0, 2.0, 6.0), (6.0, 0.0, 0.0));
    assert_eq!(plan(10.0, 2.0, 11.0), (10.0, 1.0, 0.0));
    assert_eq!(plan(10.0, 2.0, 15.0), (10.0, 2.0, 3.0));
    assert_eq!(plan(-1.0, 2.0, 3.0), (0.0, 2.0, 1.0));
    assert_eq!(plan(1.0, 2.0, -3.0), (0.0, 0.0, 0.0));
    assert_eq!(dollars(finite_wallet_available_usd(usd(-4.0), usd(2.5))), 2.5);
}

#[test]
fn debits_agree_with_floating_point() {
    let mut state = 0x2545_f491_4f6c_dd1d_u64;
    let mut next = || {
        state ^= state << 13;
        state ^= state >> 7;
        state ^= state << 17;
        let exponent = 1023 - 30 + (state >> 30) % 60;
        let sign = if state % 5 == 0 { 1_u64 << 63 } else { 0 };
        f64::from_bits(sign | (exponent << 52) | (state & 0xf_ffff_ffff_ffff))
    };
    for _ in 0..20_000 {
        let (recharge, gift, cost) = (next(), next(), next());
        let requested = cost.max(0.0);
        let recharge_deduction = recharge.max(0.0).min(requested);
        let remaining = (requested - recharge_deduction).max(0.0);
        let gift_deduction = gift.max(0.0).min(remaining);
        let overdraft = (remaining - gift_deduction).max(0.0);
        let plan = plan_finite_wallet_debit(usd(recharge), usd(gift), usd(cost));
        assert_eq!(dollars(plan.recharge_deduction), recharge_deduction);
        assert_eq!(dollars(plan.gift_deduction), gift_deduction);
        assert_eq!(dollars(plan.recharge_overdraft), overdraft);
        let (after_recharge, after_gift) = plan.after_balances(usd(recharge), usd(gift));
        assert_eq!(dollars(after_recharge), recharge - recharge_deduction - overdraft);
        assert_eq!(dollars(after_gift), gift - gift_deduction);
        assert_eq!(
            dollars(finite_wallet_available_usd(usd(recharge), usd(gift))),
            recharge.max(0.0) + gift.max(0.0)
        );
    }
}

#[test]
fn sums_agree_with_floating_point_on_all_kinds_of_doubles() {
    let special = [
        0.0,
        -0.0,
        1.0,
        -1.0,
        f64::MIN_POSITIVE,
        5e-324,
        -5e-324,
        f64::MAX,
        f64::MIN,
        f64::INFINITY,
        f64::NEG_INFINITY,
        f64::NAN,
        1.0e16,
        1.0 + f64::EPSILON,
    ];
    let same = |a: f64, b: Binary64| a.to_bits() == b.bits || (a.is_nan() && dollars(b).is_nan());
    for a in special {
        for b in special {
            assert!(same(a + b, usd(a).plus(usd(b))), "{a} + {b}");
            assert!(same(a - b, usd(a).minus(usd(b))), "{a} - {b}");
            assert_eq!(usd(a).exceeds(usd(b)), a > b, "{a} > {b}");
            assert!(
                dollars(usd(a).max(usd(b))) == a.max(b) || a.max(b).is_nan(),
                "max({a}, {b})"
            );
            assert!(
                dollars(usd(a).min(usd(b))) == a.min(b) || a.min(b).is_nan(),
                "min({a}, {b})"
            );
        }
    }
    let mut state = 0x1234_5678_9abc_def1_u64;
    let mut next = || {
        state ^= state << 13;
        state ^= state >> 7;
        state ^= state << 17;
        f64::from_bits(state)
    };
    for _ in 0..20_000 {
        let (a, b) = (next(), next());
        assert!(same(a + b, usd(a).plus(usd(b))), "{a:e} + {b:e}");
        assert!(same(a - b, usd(a).minus(usd(b))), "{a:e} - {b:e}");
        let near = f64::from_bits(a.to_bits() ^ (b.to_bits() & 0x8010_0000_0000_0fff));
        assert!(same(a + near, usd(a).plus(usd(near))), "{a:e} + {near:e}");
        assert!(same(a - near, usd(a).minus(usd(near))), "{a:e} - {near:e}");
    }
}
