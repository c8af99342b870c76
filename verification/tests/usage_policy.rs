use aether_usage_policy::binary64::{
    nonnegative_usd_to_usage_policy_cost_units, usd_to_usage_policy_cost_units, Binary64,
};
use aether_usage_policy::entitlement::{EntitlementItem, Entitlements, FieldValue, PolicyShape};
use aether_usage_policy::policy_parser::{parse_usage_policy_entitlements, UsagePolicyParseError};
use aether_usage_policy::usage_policy::{
    default_week_start, validate_optional_text, UsagePolicyEnforcement, UsagePolicyEntitlement,
    UsagePolicyEntitlementType, UsagePolicyMetric, UsagePolicyRule, UsagePolicyValidationError,
    UsagePolicyWindow, MAX_USAGE_POLICY_ENTITLEMENTS, MAX_USAGE_POLICY_EXACT_INTEGER,
    MAX_USAGE_POLICY_RULES, MAX_USAGE_POLICY_TEXT_LENGTH,
};

fn usd(value: f64) -> Binary64 {
    Binary64 { bits: value.to_bits() }
}

fn rule(metric: UsagePolicyMetric, window: UsagePolicyWindow, limit: f64) -> UsagePolicyRule {
    UsagePolicyRule {
        metric,
        window,
        limit: usd(limit),
        enforcement: UsagePolicyEnforcement::default(),
    }
}

fn requests(window: UsagePolicyWindow, limit: f64) -> UsagePolicyRule {
    rule(UsagePolicyMetric::RequestCount, window, limit)
}

fn rolling(seconds: u64) -> UsagePolicyWindow {
    UsagePolicyWindow::Rolling { seconds }
}

fn day(timezone: Option<&str>) -> UsagePolicyWindow {
    UsagePolicyWindow::CalendarDay { timezone: timezone.map(str::to_string) }
}

fn week(timezone: Option<&str>, week_start: u8) -> UsagePolicyWindow {
    UsagePolicyWindow::CalendarWeek { timezone: timezone.map(str::to_string), week_start }
}

fn month(timezone: Option<&str>) -> UsagePolicyWindow {
    UsagePolicyWindow::CalendarMonth { timezone: timezone.map(str::to_string) }
}

fn policy(policy_id: Option<&str>, rules: Vec<UsagePolicyRule>) -> UsagePolicyEntitlement {
    UsagePolicyEntitlement {
        entitlement_type: UsagePolicyEntitlementType::UsagePolicy,
        policy_id: policy_id.map(str::to_string),
        name: None,
        replacement_group: None,
        rules,
    }
}

fn text(name: &str, value: &str) -> (String, FieldValue) {
    (name.to_string(), FieldValue::Text(value.to_string()))
}

fn item(policy: UsagePolicyEntitlement) -> EntitlementItem {
    let mut fields = vec![text("type", "usage_policy")];
    if let Some(group) = &policy.replacement_group {
        fields.push(text("replacement_group", group));
    }
    fields.push(("rules".to_string(), FieldValue::List(Vec::new())));
    EntitlementItem { fields, policy: PolicyShape::Policy(policy) }
}

fn document(policies: Vec<UsagePolicyEntitlement>) -> Entitlements {
    Entitlements::Items(policies.into_iter().map(item).collect())
}

fn one_rule(rule: UsagePolicyRule) -> Entitlements {
    document(vec![policy(None, vec![rule])])
}

fn validation_error(entitlements: &Entitlements) -> UsagePolicyValidationError {
    match parse_usage_policy_entitlements(entitlements) {
        Err(UsagePolicyParseError::InvalidPolicy { source, .. }) => source,
        other => panic!("expected an invalid policy, got {:?}", other),
    }
}

#[test]
fn parses_flexible_combinations_and_ignores_legacy_entitlements() {
    let mut standard = policy(
        Some("standard-traffic"),
        vec![
            requests(rolling(18000), 500.0),
            requests(week(Some("Asia/Shanghai"), 1), 10000.0),
            rule(UsagePolicyMetric::Concurrency, UsagePolicyWindow::Concurrent, 4.0),
        ],
    );
    standard.name = Some("Standard traffic limits".to_string());
    standard.replacement_group = Some("pro-tier".to_string());
    let entitlements = Entitlements::Items(vec![
        EntitlementItem {
            fields: vec![
                text("type", "daily_quota"),
                ("daily_quota_usd".to_string(), FieldValue::Number(usd(25.0))),
            ],
            policy: PolicyShape::Malformed("missing field `rules`".to_string()),
        },
        item(standard),
    ]);

    let policies = parse_usage_policy_entitlements(&entitlements).unwrap();

    assert_eq!(policies.len(), 1);
    assert_eq!(policies[0].policy_id.as_deref(), Some("standard-traffic"));
    assert_eq!(policies[0].replacement_group.as_deref(), Some("pro-tier"));
    assert_eq!(policies[0].rules.len(), 3);
    assert_eq!(policies[0].rules[0].enforcement, UsagePolicyEnforcement::HardCap);
    assert_eq!(policies[0].rules[2].window, UsagePolicyWindow::Concurrent);
}

#[test]
fn supports_single_weekly_rule_and_subscription_period() {
    let entitlements = document(vec![
        policy(None, vec![requests(week(None, default_week_start()), 1000.0)]),
        policy(None, vec![requests(UsagePolicyWindow::SubscriptionPeriod, 10000.0)]),
    ]);

    let policies = parse_usage_policy_entitlements(&entitlements).unwrap();

    assert_eq!(policies.len(), 2);
    assert_eq!(
        policies[0].rules[0].window,
        UsagePolicyWindow::CalendarWeek { timezone: None, week_start: 1 }
    );
    assert_eq!(policies[1].rules[0].window, UsagePolicyWindow::SubscriptionPeriod);
}

#[test]
fn rejects_invalid_limits_and_zero_rolling_windows() {
    assert_eq!(
        validation_error(&one_rule(requests(rolling(60), 0.0))),
        UsagePolicyValidationError::InvalidLimit { index: 0 }
    );
    assert_eq!(
        validation_error(&one_rule(requests(rolling(0), 1.0))),
        UsagePolicyValidationError::ZeroRollingWindow { index: 0 }
    );
    assert_eq!(
        validation_error(&one_rule(requests(rolling(2_592_001), 1.0))),
        UsagePolicyValidationError::RollingWindowTooLong { index: 0, max_seconds: 2_592_000 }
    );
}

#[test]
fn validates_metric_specific_limits_and_cost_conversion() {
    let cost_policy = one_rule(rule(
        UsagePolicyMetric::ActualCostUsd,
        rolling(18000),
        12.34567891,
    ));
    let policies = parse_usage_policy_entitlements(&cost_policy).unwrap();
    assert_eq!(policies[0].rules[0].cost_limit_units(), Some(1_234_567_891));
    assert_eq!(policies[0].rules[0].request_limit(), None);

    assert_eq!(
        validation_error(&one_rule(requests(rolling(60), 1.5))),
        UsagePolicyValidationError::InvalidIntegerLimit { index: 0 }
    );
    assert_eq!(
        validation_error(&one_rule(rule(
            UsagePolicyMetric::ActualCostUsd,
            day(None),
            0.000000001
        ))),
        UsagePolicyValidationError::InvalidCostLimit { index: 0 }
    );
}

#[test]
fn rejects_metric_and_window_mismatches() {
    assert_eq!(
        validation_error(&one_rule(rule(UsagePolicyMetric::Concurrency, rolling(60), 3.0))),
        UsagePolicyValidationError::ConcurrencyRequiresConcurrentWindow { index: 0 }
    );
    assert_eq!(
        validation_error(&one_rule(rule(
            UsagePolicyMetric::ActualCostUsd,
            UsagePolicyWindow::Concurrent,
            1.0
        ))),
        UsagePolicyValidationError::ActualCostRequiresTimeWindow { index: 0 }
    );
    assert_eq!(
        validation_error(&one_rule(requests(UsagePolicyWindow::Concurrent, 3.0))),
        UsagePolicyValidationError::RequestCountRequiresTimeWindow { index: 0 }
    );
}

#[test]
fn rejects_invalid_calendar_configuration() {
    assert_eq!(
        validation_error(&one_rule(requests(day(Some("Mars/Olympus")), 100.0))),
        UsagePolicyValidationError::InvalidTimezone { index: 0 }
    );
    assert_eq!(
        validation_error(&one_rule(requests(week(None, 0), 100.0))),
        UsagePolicyValidationError::InvalidWeekStart { index: 0 }
    );
}

#[test]
fn rejects_empty_rules_unknown_fields_and_non_array_roots() {
    assert_eq!(
        validation_error(&document(vec![policy(None, Vec::new())])),
        UsagePolicyValidationError::EmptyRules
    );

    let typo = Entitlements::Items(vec![EntitlementItem {
        fields: vec![text("type", "usage_policy")],
        policy: PolicyShape::Malformed("unknown field `enforcment`".to_string()),
    }]);
    assert!(matches!(
        parse_usage_policy_entitlements(&typo),
        Err(UsagePolicyParseError::InvalidShape { .. })
    ));

    assert!(matches!(
        parse_usage_policy_entitlements(&Entitlements::NotAnArray),
        Err(UsagePolicyParseError::EntitlementsMustBeArray)
    ));
}

#[test]
fn enforces_collection_and_metadata_bounds() {
    let rules = |count: usize| -> Vec<UsagePolicyRule> {
        (0..count).map(|_| requests(rolling(1), 1.0)).collect()
    };
    let maximum_rules = document(vec![policy(None, rules(MAX_USAGE_POLICY_RULES))]);
    assert_eq!(
        parse_usage_policy_entitlements(&maximum_rules).unwrap().first().unwrap().rules.len(),
        MAX_USAGE_POLICY_RULES
    );

    let too_many_rules = document(vec![policy(None, rules(MAX_USAGE_POLICY_RULES + 1))]);
    assert_eq!(
        validation_error(&too_many_rules),
        UsagePolicyValidationError::TooManyRules { max_rules: MAX_USAGE_POLICY_RULES }
    );

    let mut empty_name = policy(
        None,
        vec![rule(UsagePolicyMetric::Concurrency, UsagePolicyWindow::Concurrent, 1.0)],
    );
    empty_name.name = Some("   ".to_string());
    assert!(matches!(
        validation_error(&document(vec![empty_name])),
        UsagePolicyValidationError::EmptyText { .. }
    ));
}

#[test]
fn bounds_policy_count_and_total_rule_count() {
    let with_rules = |count: usize| -> UsagePolicyEntitlement {
        policy(None, (0..count).map(|_| requests(rolling(60), 1.0)).collect())
    };
    let too_many_policies =
        document((0..=MAX_USAGE_POLICY_ENTITLEMENTS).map(|_| with_rules(1)).collect());
    assert!(matches!(
        validation_error(&too_many_policies),
        UsagePolicyValidationError::TooManyPolicies { .. }
    ));

    let too_many_total_rules = document(vec![
        with_rules(MAX_USAGE_POLICY_RULES),
        with_rules(MAX_USAGE_POLICY_RULES),
        with_rules(1),
    ]);
    assert!(matches!(
        validation_error(&too_many_total_rules),
        UsagePolicyValidationError::TooManyTotalRules { .. }
    ));
}

#[test]
fn supports_week_only_and_five_hour_plus_week_combinations() {
    let entitlements = document(vec![
        policy(
            Some("weekly-only"),
            vec![requests(week(Some("Asia/Shanghai"), default_week_start()), 10_000.0)],
        ),
        policy(
            Some("burst-and-weekly"),
            vec![
                requests(rolling(18_000), 500.0),
                requests(week(Some("Asia/Shanghai"), default_week_start()), 20_000.0),
            ],
        ),
    ]);

    let policies = parse_usage_policy_entitlements(&entitlements).expect("policy combinations");

    assert_eq!(policies.len(), 2);
    assert_eq!(policies[0].rules.len(), 1);
    assert_eq!(policies[1].rules.len(), 2);
    assert!(matches!(
        policies[1].rules[0].window,
        UsagePolicyWindow::Rolling { seconds: 18_000 }
    ));
    assert!(matches!(policies[1].rules[1].window, UsagePolicyWindow::CalendarWeek { .. }));
}

#[test]
fn supports_qps_rpm_concurrency_and_cost_in_one_policy() {
    let entitlements = document(vec![policy(
        Some("full-traffic-policy"),
        vec![
            requests(rolling(1), 2.0),
            requests(rolling(60), 60.0),
            rule(UsagePolicyMetric::Concurrency, UsagePolicyWindow::Concurrent, 8.0),
            rule(UsagePolicyMetric::ActualCostUsd, month(Some("UTC")), 125.50),
        ],
    )]);

    let policies = parse_usage_policy_entitlements(&entitlements).expect("combined policy");
    let policy = &policies[0];

    assert_eq!(policy.rules.len(), 4);
    assert_eq!(policy.rules[0].request_limit(), Some(2));
    assert_eq!(policy.rules[1].request_limit(), Some(60));
    assert_eq!(policy.rules[2].request_limit(), Some(8));
    assert_eq!(policy.rules[3].cost_limit_units(), Some(12_550_000_000));
    assert!(matches!(policy.rules[2].window, UsagePolicyWindow::Concurrent));
}

#[test]
fn keeps_multiple_policy_entitlements_independent() {
    let entitlements = document(vec![
        policy(Some("api-traffic"), vec![requests(rolling(60), 100.0)]),
        policy(
            Some("model-cost"),
            vec![rule(UsagePolicyMetric::ActualCostUsd, rolling(18_000), 5.0)],
        ),
        policy(
            Some("subscription-lifetime"),
            vec![requests(UsagePolicyWindow::SubscriptionPeriod, 10_000.0)],
        ),
    ]);

    let policies = parse_usage_policy_entitlements(&entitlements).expect("independent policies");

    assert_eq!(policies.iter().map(|policy| policy.rules.len()).sum::<usize>(), 3);
    assert_eq!(
        policies.iter().map(|policy| policy.policy_id.as_deref()).collect::<Vec<_>>(),
        vec![Some("api-traffic"), Some("model-cost"), Some("subscription-lifetime")]
    );
}

#[test]
fn validates_dst_timezones_and_week_start_boundaries() {
    let dst_policies = document(vec![
        policy(None, vec![requests(day(Some("America/New_York")), 100.0)]),
        policy(None, vec![requests(week(Some("Europe/Berlin"), 7), 100.0)]),
        policy(
            None,
            vec![rule(UsagePolicyMetric::ActualCostUsd, month(Some("Pacific/Apia")), 1.0)],
        ),
    ]);

    let policies = parse_usage_policy_entitlements(&dst_policies).expect("DST timezones");
    assert_eq!(policies.len(), 3);
    assert!(matches!(
        policies[1].rules[0].window,
        UsagePolicyWindow::CalendarWeek { week_start: 7, .. }
    ));

    for (timezone, expected) in [
        ("America/New_York", true),
        ("Europe/Berlin", true),
        ("Pacific/Apia", true),
        ("UTC", true),
        ("America/New_York ", true),
        ("EST", true),
    ] {
        let value = one_rule(requests(day(Some(timezone)), 1.0));
        assert_eq!(parse_usage_policy_entitlements(&value).is_ok(), expected, "{timezone}");
    }
}

#[test]
fn accepts_week_start_one_and_rejects_values_outside_one_through_seven() {
    for week_start in 1..=7 {
        let value = one_rule(requests(week(None, week_start), 1.0));
        assert!(
            parse_usage_policy_entitlements(&value).is_ok(),
            "week_start={week_start}"
        );
    }

    for week_start in [0, 8, u8::MAX] {
        let value = one_rule(requests(week(None, week_start), 1.0));
        assert_eq!(
            validation_error(&value),
            UsagePolicyValidationError::InvalidWeekStart { index: 0 }
        );
    }
}

#[test]
fn validation_errors_have_their_texts() {
    let cases = vec![
        (
            UsagePolicyValidationError::EmptyText { field: "usage_policy.name".to_string() },
            "usage_policy.name must not be empty",
        ),
        (
            UsagePolicyValidationError::TextTooLong {
                field: "usage_policy.name".to_string(),
                max_len: 128,
            },
            "usage_policy.name exceeds maximum length 128",
        ),
        (UsagePolicyValidationError::EmptyRules, "usage_policy.rules must not be empty"),
        (
            UsagePolicyValidationError::TooManyRules { max_rules: 32 },
            "usage_policy.rules must contain at most 32 rules",
        ),
        (
            UsagePolicyValidationError::TooManyPolicies { max_policies: 16 },
            "entitlements must contain at most 16 usage_policy entries",
        ),
        (
            UsagePolicyValidationError::TooManyTotalRules { max_rules: 64 },
            "usage_policy entries must contain at most 64 rules in total",
        ),
        (
            UsagePolicyValidationError::InvalidLimit { index: 3 },
            "usage_policy.rules[3].limit must be finite and positive",
        ),
        (
            UsagePolicyValidationError::InvalidIntegerLimit { index: 10 },
            "usage_policy.rules[10].limit must be a positive exact integer",
        ),
        (
            UsagePolicyValidationError::InvalidCostLimit { index: 0 },
            "usage_policy.rules[0].limit is outside the supported cost range",
        ),
        (
            UsagePolicyValidationError::ZeroRollingWindow { index: 1 },
            "usage_policy.rules[1].window.seconds must be positive",
        ),
        (
            UsagePolicyValidationError::RollingWindowTooLong { index: 1, max_seconds: 2_592_000 },
            "usage_policy.rules[1].window.seconds must not exceed 2592000 seconds",
        ),
        (
            UsagePolicyValidationError::InvalidTimezone { index: 2 },
            "usage_policy.rules[2].window.timezone is not a valid IANA timezone",
        ),
        (
            UsagePolicyValidationError::InvalidWeekStart { index: 2 },
            "usage_policy.rules[2].window.week_start must be between 1 and 7",
        ),
        (
            UsagePolicyValidationError::RequestCountRequiresTimeWindow { index: 0 },
            "usage_policy.rules[0] request_count requires a time-based window",
        ),
        (
            UsagePolicyValidationError::ConcurrencyRequiresConcurrentWindow { index: 0 },
            "usage_policy.rules[0] concurrency requires a concurrent window",
        ),
        (
            UsagePolicyValidationError::ActualCostRequiresTimeWindow { index: 0 },
            "usage_policy.rules[0] actual_cost_usd requires a time-based window",
        ),
    ];
    for (error, message) in cases {
        assert_eq!(error.message(), message);
    }
    assert_eq!(
        UsagePolicyParseError::EntitlementsMustBeArray.message(),
        "entitlements must be an array"
    );
    assert_eq!(
        UsagePolicyParseError::InvalidShape { index: 2, source: "bad".to_string() }.message(),
        "usage_policy entitlement at index 2 has invalid JSON shape: bad"
    );
    assert_eq!(
        UsagePolicyParseError::InvalidPolicy {
            index: 1,
            source: UsagePolicyValidationError::EmptyRules,
        }
        .message(),
        "usage_policy entitlement at index 1 is invalid: usage_policy.rules must not be empty"
    );
}

#[test]
fn text_bounds_count_characters_without_outer_white_space() {
    assert!(validate_optional_text(None, "field", 3).is_ok());
    assert!(validate_optional_text(Some("  äöü\u{3000}"), "field", 3).is_ok());
    assert_eq!(
        validate_optional_text(Some("abcd"), "field", 3),
        Err(UsagePolicyValidationError::TextTooLong { field: "field".to_string(), max_len: 3 })
    );
    assert_eq!(
        validate_optional_text(Some("\u{2003}\n"), "field", 3),
        Err(UsagePolicyValidationError::EmptyText { field: "field".to_string() })
    );
    let mut too_long = policy(None, vec![requests(rolling(60), 1.0)]);
    too_long.policy_id = Some("x".repeat(MAX_USAGE_POLICY_TEXT_LENGTH + 1));
    assert_eq!(
        too_long.validate(),
        Err(UsagePolicyValidationError::TextTooLong {
            field: "usage_policy.policy_id".to_string(),
            max_len: 128,
        })
    );
}

#[test]
fn integer_limits_are_exact_up_to_two_to_the_fifty_third() {
    let limit = |value: f64| requests(rolling(60), value).request_limit();
    assert_eq!(limit(1.0), Some(1));
    assert_eq!(limit(0.5), None);
    assert_eq!(limit(-1.0), None);
    assert_eq!(limit(f64::NAN), None);
    assert_eq!(limit(f64::INFINITY), None);
    assert_eq!(
        limit(MAX_USAGE_POLICY_EXACT_INTEGER as f64),
        Some(MAX_USAGE_POLICY_EXACT_INTEGER)
    );
    assert_eq!(limit(MAX_USAGE_POLICY_EXACT_INTEGER as f64 + 1.0), None);
}

fn reference_units(value: f64) -> Option<u64> {
    if !value.is_finite() || value <= 0.0 {
        return None;
    }
    let scaled = value * 100_000_000_u64 as f64;
    if !scaled.is_finite() || scaled < 0.5 || scaled > i64::MAX as f64 {
        return None;
    }
    let units = scaled.round() as u64;
    if units <= i64::MAX as u64 {
        Some(units)
    } else {
        None
    }
}

fn reference_nonnegative_units(value: f64) -> Option<u64> {
    if !value.is_finite() || value < 0.0 {
        return None;
    }
    let scaled = value * 100_000_000_u64 as f64;
    if !scaled.is_finite() || scaled > i64::MAX as f64 {
        return None;
    }
    let units = scaled.round() as u64;
    if units <= i64::MAX as u64 {
        Some(units)
    } else {
        None
    }
}

#[test]
fn cost_units_agree_with_floating_point() {
    let mut values = vec![
        0.0,
        -0.0,
        0.1,
        0.2,
        0.1 + 0.2,
        1.0,
        12.34567891,
        125.50,
        4.9e-9,
        5.0e-9,
        5.000000000000001e-9,
        1.5e-8,
        2.5e-8,
        92_233_720_368.547,
        92_233_720_368.547_76,
        92_233_720_369.0,
        1.0e300,
        f64::MIN_POSITIVE,
        5e-324,
        f64::MAX,
        f64::INFINITY,
        f64::NEG_INFINITY,
        f64::NAN,
        -1.0,
    ];
    let mut state = 0x9e37_79b9_7f4a_7c15_u64;
    for _ in 0..20_000 {
        state ^= state << 13;
        state ^= state >> 7;
        state ^= state << 17;
        values.push(f64::from_bits(state));
        let exponent = 1023 - 40 + (state >> 20) % 90;
        values.push(f64::from_bits((exponent << 52) | (state & 0xf_ffff_ffff_ffff)));
    }
    for value in values {
        assert_eq!(usd_to_usage_policy_cost_units(usd(value)), reference_units(value), "{value:e}");
        assert_eq!(
            nonnegative_usd_to_usage_policy_cost_units(usd(value)),
            reference_nonnegative_units(value),
            "{value:e}"
        );
    }
}
