use aether_usage_policy::binary64::Binary64;
use aether_usage_policy::entitlement::{EntitlementItem, Entitlements, FieldValue, PolicyShape};
use aether_usage_policy::replacement::{
    entitlements_have_replacement_selector, entitlements_should_replace_existing,
    validate_entitlement_replacement_groups, EntitlementReplacementGroupValidationError,
    MAX_ENTITLEMENT_REPLACEMENT_GROUP_LENGTH,
};

fn text(name: &str, value: &str) -> (String, FieldValue) {
    (name.to_string(), FieldValue::Text(value.to_string()))
}

fn number(name: &str, value: f64) -> (String, FieldValue) {
    (name.to_string(), FieldValue::Number(Binary64 { bits: value.to_bits() }))
}

fn groups(names: &[&str]) -> (String, FieldValue) {
    (
        "grant_user_groups".to_string(),
        FieldValue::List(names.iter().map(|name| Some(name.to_string())).collect()),
    )
}

fn item(fields: Vec<(String, FieldValue)>) -> EntitlementItem {
    EntitlementItem { fields, policy: PolicyShape::Malformed("missing field".to_string()) }
}

fn list(items: Vec<Vec<(String, FieldValue)>>) -> Entitlements {
    Entitlements::Items(items.into_iter().map(item).collect())
}

#[test]
fn legacy_daily_quota_and_membership_groups_remain_mutually_exclusive() {
    assert!(entitlements_should_replace_existing(
        &list(vec![vec![text("type", "daily_quota"), number("daily_quota_usd", 20.0)]]),
        &list(vec![
            vec![text("type", "daily_quota"), number("daily_quota_usd", 10.0)],
            vec![text("type", "usage_policy")],
        ]),
    ));
    assert!(entitlements_should_replace_existing(
        &list(vec![vec![text("type", "membership_group"), groups(&["pro"])]]),
        &list(vec![vec![text("type", "membership_group"), groups(&["basic"])]]),
    ));
}

#[test]
fn usage_policies_stack_by_default() {
    let incoming = list(vec![vec![text("type", "usage_policy"), text("policy_id", "weekly")]]);
    let existing = list(vec![vec![text("type", "usage_policy"), text("policy_id", "five-hour")]]);

    assert!(!entitlements_have_replacement_selector(&incoming));
    assert!(!entitlements_should_replace_existing(&incoming, &existing));
}

#[test]
fn matching_explicit_groups_replace_the_whole_package() {
    let incoming = list(vec![vec![
        text("type", "usage_policy"),
        text("replacement_group", "pro-tier"),
    ]]);
    let existing = list(vec![
        vec![text("type", "wallet_credit"), number("amount_usd", 10.0)],
        vec![text("type", "usage_policy"), text("replacement_group", "pro-tier")],
    ]);

    assert!(entitlements_have_replacement_selector(&incoming));
    assert!(entitlements_should_replace_existing(&incoming, &existing));
    assert!(!entitlements_should_replace_existing(
        &incoming,
        &list(vec![vec![
            text("type", "usage_policy"),
            text("replacement_group", "team-tier"),
        ]]),
    ));
}

#[test]
fn explicit_groups_can_span_entitlement_types_and_ignore_outer_whitespace() {
    assert!(entitlements_should_replace_existing(
        &list(vec![vec![
            text("type", "usage_policy"),
            text("replacement_group", " traffic-tier "),
        ]]),
        &list(vec![vec![
            text("type", "wallet_credit"),
            text("replacement_group", "traffic-tier"),
            number("amount_usd", 10.0),
        ]]),
    ));
}

#[test]
fn validates_explicit_group_shape_and_bounds() {
    let with_group = |group: (String, FieldValue)| list(vec![vec![text("type", "usage_policy"), group]]);
    assert!(validate_entitlement_replacement_groups(&with_group(text(
        "replacement_group",
        "pro-tier"
    )))
    .is_ok());
    assert_eq!(
        validate_entitlement_replacement_groups(&with_group(text("replacement_group", "   "))),
        Err(EntitlementReplacementGroupValidationError::Empty { index: 0 })
    );
    assert_eq!(
        validate_entitlement_replacement_groups(&with_group(number("replacement_group", 42.0))),
        Err(EntitlementReplacementGroupValidationError::InvalidType { index: 0 })
    );
    assert!(matches!(
        validate_entitlement_replacement_groups(&with_group(text(
            "replacement_group",
            &"x".repeat(MAX_ENTITLEMENT_REPLACEMENT_GROUP_LENGTH + 1)
        ))),
        Err(EntitlementReplacementGroupValidationError::TooLong { index: 0, .. })
    ));
}

#[test]
fn what_is_no_array_replaces_nothing_and_is_not_valid() {
    let plan = list(vec![vec![text("type", "daily_quota")]]);
    assert!(!entitlements_should_replace_existing(&Entitlements::NotAnArray, &plan));
    assert!(!entitlements_should_replace_existing(&plan, &Entitlements::NotAnArray));
    assert!(!entitlements_have_replacement_selector(&Entitlements::NotAnArray));
    assert_eq!(
        validate_entitlement_replacement_groups(&Entitlements::NotAnArray),
        Err(EntitlementReplacementGroupValidationError::EntitlementsMustBeArray)
    );
}

#[test]
fn replacement_is_symmetric_and_a_selector_replaces_itself() {
    let quota = || list(vec![vec![text("type", "daily_quota")]]);
    let group = || list(vec![vec![text("type", "usage_policy"), text("replacement_group", "a")]]);
    for (a, b) in [(quota(), group()), (group(), quota()), (quota(), quota()), (group(), group())] {
        assert_eq!(
            entitlements_should_replace_existing(&a, &b),
            entitlements_should_replace_existing(&b, &a)
        );
    }
    assert!(entitlements_should_replace_existing(&quota(), &quota()));
    assert!(entitlements_should_replace_existing(&group(), &group()));
    assert!(!entitlements_should_replace_existing(&quota(), &group()));
}

#[test]
fn group_errors_have_their_texts() {
    assert_eq!(
        EntitlementReplacementGroupValidationError::EntitlementsMustBeArray.message(),
        "entitlements must be an array"
    );
    assert_eq!(
        EntitlementReplacementGroupValidationError::InvalidType { index: 1 }.message(),
        "entitlements[1].replacement_group must be a string"
    );
    assert_eq!(
        EntitlementReplacementGroupValidationError::Empty { index: 12 }.message(),
        "entitlements[12].replacement_group must not be empty"
    );
    assert_eq!(
        EntitlementReplacementGroupValidationError::TooLong { index: 0, max_len: 128 }.message(),
        "entitlements[0].replacement_group exceeds maximum length 128"
    );
}
