use aether_usage_policy::billing_plan_routes::{
    read_plan_body, read_status_body, reply_to_plan_change, route_admin_billing_plans, HttpMethod,
    LocalMutationOutcome, PlansReply, PlansRoute, RequestBody,
};
use aether_usage_policy::billing_plans::{
    default_enabled, default_max_active_per_user, default_price_currency,
    default_purchase_limit_scope, normalize_optional_text, normalize_plan_input, normalize_text,
    plan_id_from_path, validate_entitlements, BillingPlanRequest,
};
use aether_usage_policy::binary64::Binary64;
use aether_usage_policy::entitlement::{EntitlementItem, Entitlements, FieldValue, PolicyShape};
use aether_usage_policy::usage_policy::{UsagePolicyEntitlement, UsagePolicyEntitlementType};

fn usd(value: f64) -> Binary64 {
    Binary64 { bits: value.to_bits() }
}

fn text(name: &str, value: &str) -> (String, FieldValue) {
    (name.to_string(), FieldValue::Text(value.to_string()))
}

fn number(name: &str, value: f64) -> (String, FieldValue) {
    (name.to_string(), FieldValue::Number(usd(value)))
}

fn flag(name: &str, value: bool) -> (String, FieldValue) {
    (name.to_string(), FieldValue::Flag(value))
}

fn other(name: &str) -> (String, FieldValue) {
    (name.to_string(), FieldValue::Other)
}

fn groups(names: Vec<Option<&str>>) -> (String, FieldValue) {
    (
        "grant_user_groups".to_string(),
        FieldValue::List(names.into_iter().map(|name| name.map(str::to_string)).collect()),
    )
}

fn item(fields: Vec<(String, FieldValue)>) -> EntitlementItem {
    EntitlementItem { fields, policy: PolicyShape::Malformed("missing field `rules`".to_string()) }
}

fn list(items: Vec<Vec<(String, FieldValue)>>) -> Entitlements {
    Entitlements::Items(items.into_iter().map(item).collect())
}

fn quota() -> Vec<(String, FieldValue)> {
    vec![text("type", "daily_quota"), number("daily_quota_usd", 5.0)]
}

fn fault(fields: Vec<(String, FieldValue)>) -> String {
    validate_entitlements(&list(vec![fields, quota()])).unwrap_err()
}

#[test]
fn entitlements_that_grant_a_right_are_valid() {
    assert!(validate_entitlements(&list(vec![quota()])).is_ok());
    assert!(validate_entitlements(&list(vec![
        vec![
            text("type", "wallet_credit"),
            number("amount_usd", 1.0),
            text("balance_bucket", "gift"),
        ],
        vec![
            text("type", "daily_quota"),
            number("daily_quota_usd", 5.0),
            text("reset_timezone", " Europe/Berlin "),
            flag("carry_over", false),
            flag("allow_wallet_overage", true),
        ],
        vec![text("type", "membership_group"), groups(vec![Some("pro")])],
    ]))
    .is_ok());
}

#[test]
fn faults_of_entitlements_have_their_texts() {
    assert_eq!(
        validate_entitlements(&Entitlements::NotAnArray).unwrap_err(),
        "entitlements must be an array"
    );
    assert_eq!(
        validate_entitlements(&list(Vec::new())).unwrap_err(),
        "entitlements must not be empty"
    );
    assert_eq!(fault(Vec::new()), "entitlement.type is required");
    assert_eq!(fault(vec![text("type", "gold")]), "unsupported entitlement type: gold");
    let credit = |more: Vec<(String, FieldValue)>| {
        let mut fields = vec![text("type", "wallet_credit")];
        fields.extend(more);
        fault(fields)
    };
    assert_eq!(credit(Vec::new()), "wallet_credit.amount_usd is required");
    assert_eq!(credit(vec![text("amount_usd", "5")]), "wallet_credit.amount_usd is required");
    assert_eq!(
        credit(vec![number("amount_usd", 0.0)]),
        "wallet_credit.amount_usd must be positive"
    );
    assert_eq!(
        credit(vec![number("amount_usd", 1.0), text("balance_bucket", "other")]),
        "wallet_credit.balance_bucket must be recharge/gift"
    );
    assert_eq!(
        credit(vec![number("amount_usd", 1.0), other("balance_bucket")]),
        "wallet_credit.balance_bucket must be a string"
    );
    let daily = |more: Vec<(String, FieldValue)>| {
        let mut fields = vec![text("type", "daily_quota")];
        fields.extend(more);
        fault(fields)
    };
    assert_eq!(daily(Vec::new()), "daily_quota.daily_quota_usd is required");
    assert_eq!(
        daily(vec![number("daily_quota_usd", -1.0)]),
        "daily_quota.daily_quota_usd must be positive"
    );
    let amount = || number("daily_quota_usd", 1.0);
    assert_eq!(
        daily(vec![amount(), text("reset_timezone", " ")]),
        "daily_quota.reset_timezone must not be empty"
    );
    assert_eq!(
        daily(vec![amount(), text("reset_timezone", "Mars/Olympus")]),
        "daily_quota.reset_timezone must be a valid timezone"
    );
    assert_eq!(
        daily(vec![amount(), other("reset_timezone")]),
        "daily_quota.reset_timezone must be a string"
    );
    assert_eq!(
        daily(vec![amount(), flag("carry_over", true)]),
        "daily_quota.carry_over is not supported"
    );
    assert_eq!(
        daily(vec![amount(), other("carry_over")]),
        "daily_quota.carry_over must be a boolean"
    );
    assert_eq!(
        daily(vec![amount(), other("allow_wallet_overage")]),
        "daily_quota.allow_wallet_overage must be a boolean"
    );
    let member = |more: Vec<(String, FieldValue)>| {
        let mut fields = vec![text("type", "membership_group")];
        fields.extend(more);
        fault(fields)
    };
    assert_eq!(member(Vec::new()), "membership_group.grant_user_groups is required");
    assert_eq!(
        member(vec![groups(Vec::new())]),
        "membership_group.grant_user_groups must not be empty"
    );
    assert_eq!(
        member(vec![groups(vec![Some("a"), None])]),
        "membership_group.grant_user_groups must contain strings"
    );
    assert_eq!(
        member(vec![groups(vec![Some(" ")])]),
        "membership_group.grant_user_groups must not contain empty values"
    );
    assert_eq!(
        validate_entitlements(&list(vec![vec![
            text("type", "wallet_credit"),
            number("amount_usd", 1.0)
        ]]))
        .unwrap_err(),
        "套餐至少需要包含每日额度、会员分组或使用限制；钱包充值请使用充值功能"
    );
    let mut grouped = quota();
    grouped.push(text("replacement_group", " "));
    assert_eq!(
        validate_entitlements(&list(vec![grouped])).unwrap_err(),
        "entitlements[0].replacement_group must not be empty"
    );
    assert_eq!(
        validate_entitlements(&list(vec![quota(), vec![text("type", "usage_policy")]]))
            .unwrap_err(),
        "usage_policy entitlement at index 1 has invalid JSON shape: missing field `rules`"
    );
    let empty = EntitlementItem {
        fields: vec![text("type", "usage_policy")],
        policy: PolicyShape::Policy(UsagePolicyEntitlement {
            entitlement_type: UsagePolicyEntitlementType::UsagePolicy,
            policy_id: None,
            name: None,
            replacement_group: None,
            rules: Vec::new(),
        }),
    };
    assert_eq!(
        validate_entitlements(&Entitlements::Items(vec![empty])).unwrap_err(),
        "usage_policy entitlement at index 0 is invalid: usage_policy.rules must not be empty"
    );
}

fn plan() -> BillingPlanRequest {
    BillingPlanRequest {
        title: " Pro ".to_string(),
        description: Some("  ".to_string()),
        price_amount: usd(9.9),
        price_currency: default_price_currency(),
        duration_unit: " month ".to_string(),
        duration_value: 1,
        enabled: default_enabled(),
        sort_order: -3,
        max_active_per_user: default_max_active_per_user(),
        purchase_limit_scope: default_purchase_limit_scope(),
        entitlements: list(vec![quota()]),
    }
}

#[test]
fn plans_are_written_without_outer_white_space() {
    let written = normalize_plan_input(plan()).expect("plan");
    assert_eq!(written.title, "Pro");
    assert_eq!(written.description, None);
    assert_eq!(written.price_amount, usd(9.9));
    assert_eq!(written.price_currency, "CNY");
    assert_eq!(written.duration_unit, "month");
    assert_eq!(written.sort_order, -3);
    assert_eq!(written.max_active_per_user, 1);
    assert_eq!(written.purchase_limit_scope, "active_period");
    assert!(written.enabled);
}

#[test]
fn faults_of_plans_have_their_texts() {
    let broken = |change: fn(&mut BillingPlanRequest)| {
        let mut plan = plan();
        change(&mut plan);
        normalize_plan_input(plan).unwrap_err()
    };
    assert_eq!(broken(|p| p.price_amount = usd(f64::NAN)), "price_amount must be positive");
    assert_eq!(broken(|p| p.duration_value = 0), "duration_value must be positive");
    assert_eq!(broken(|p| p.max_active_per_user = -1), "max_active_per_user must be positive");
    assert_eq!(broken(|p| p.duration_unit = " ".to_string()), "duration_unit must not be empty");
    assert_eq!(
        broken(|p| p.duration_unit = "week".to_string()),
        "duration_unit must be day/month/year/custom"
    );
    assert_eq!(
        broken(|p| p.purchase_limit_scope = "never".to_string()),
        "purchase_limit_scope must be active_period/lifetime/unlimited"
    );
    assert_eq!(
        broken(|p| p.entitlements = Entitlements::NotAnArray),
        "entitlements must be an array"
    );
    assert_eq!(broken(|p| p.title = String::new()), "title must not be empty");
    assert_eq!(
        broken(|p| p.description = Some("x".repeat(2_049))),
        "field exceeds maximum length 2048"
    );
    assert_eq!(
        broken(|p| p.price_currency = "x".repeat(17)),
        "price_currency exceeds maximum length 16"
    );
}

#[test]
fn texts_are_trimmed_and_bounded_by_characters() {
    assert_eq!(normalize_text(" äöü ", "name", 3), Ok("äöü".to_string()));
    assert_eq!(normalize_optional_text(None, 3), Ok(None));
    assert_eq!(normalize_optional_text(Some(" a "), 3), Ok(Some("a".to_string())));
}

#[test]
fn requests_are_routed_by_method_and_path() {
    let route = |method, path: &str| route_admin_billing_plans(method, path);
    assert!(matches!(route(HttpMethod::Get, "/api/admin/billing/plans"), PlansRoute::List));
    assert!(matches!(route(HttpMethod::Get, "/api/admin/billing/plans//"), PlansRoute::List));
    assert!(matches!(route(HttpMethod::Post, "/api/admin/billing/plans/"), PlansRoute::Create));
    assert!(matches!(
        route(HttpMethod::Put, "/api/admin/billing/plans/p-1/"),
        PlansRoute::Update { plan_id } if plan_id == "p-1"
    ));
    assert!(matches!(
        route(HttpMethod::Patch, "/api/admin/billing/plans/p-1/status"),
        PlansRoute::SetEnabled { plan_id } if plan_id == "p-1"
    ));
    assert!(matches!(
        route(HttpMethod::Delete, "/api/admin/billing/plans/p-1"),
        PlansRoute::Delete { plan_id } if plan_id == "p-1"
    ));
    for (method, path) in [
        (HttpMethod::Get, "/api/admin/billing/plans/p-1"),
        (HttpMethod::Post, "/api/admin/billing"),
        (HttpMethod::Put, "/api/admin/billing/plans"),
        (HttpMethod::Put, "/api/admin/billing/plans/p-1/status"),
        (HttpMethod::Patch, "/api/admin/billing/plans/p-1"),
        (HttpMethod::Patch, "/api/admin/billing/plans//status"),
        (HttpMethod::Delete, "/api/admin/billing/plans/a/b"),
        (HttpMethod::Other, "/api/admin/billing/plans"),
    ] {
        assert!(matches!(route(method, path), PlansRoute::NotHandled), "{path}");
    }
    assert_eq!(
        plan_id_from_path("/api/admin/billing/plans/p//status", Some("/status")),
        Some("p".to_string())
    );
}

#[test]
fn bodies_are_answered_where_they_cannot_be_used() {
    assert!(matches!(
        read_plan_body(RequestBody::Missing),
        Err(PlansReply::BadRequest(detail)) if detail == "缺少请求体"
    ));
    assert!(matches!(
        read_plan_body(RequestBody::Malformed),
        Err(PlansReply::BadRequest(detail)) if detail == "输入验证失败"
    ));
    assert!(read_plan_body(RequestBody::Read(plan())).is_ok());
    let mut broken = plan();
    broken.duration_value = 0;
    assert!(matches!(
        read_plan_body(RequestBody::Read(broken)),
        Err(PlansReply::BadRequest(detail)) if detail == "duration_value must be positive"
    ));
    assert!(matches!(read_status_body(RequestBody::Read(true)), Ok(true)));
    assert!(matches!(
        read_status_body(RequestBody::Missing),
        Err(PlansReply::BadRequest(detail)) if detail == "缺少请求体"
    ));
    assert!(matches!(
        read_status_body(RequestBody::Malformed),
        Err(PlansReply::BadRequest(detail)) if detail == "输入验证失败"
    ));
}

#[test]
fn changes_are_answered_by_what_the_store_made_of_them() {
    let update = PlansRoute::Update { plan_id: "p".to_string() };
    let delete = PlansRoute::Delete { plan_id: "p".to_string() };
    let reply = reply_to_plan_change;
    assert!(matches!(reply(&update, LocalMutationOutcome::Applied), PlansReply::Plan));
    assert!(matches!(reply(&delete, LocalMutationOutcome::Applied), PlansReply::NoContent));
    assert!(matches!(
        reply(&update, LocalMutationOutcome::NotFound),
        PlansReply::NotFound(detail) if detail == "Billing plan not found"
    ));
    assert!(matches!(
        reply(&PlansRoute::Create, LocalMutationOutcome::NotFound),
        PlansReply::DataUnavailable
    ));
    assert!(matches!(
        reply(&delete, LocalMutationOutcome::Invalid("in use".to_string())),
        PlansReply::Conflict(detail) if detail == "in use"
    ));
    assert!(matches!(
        reply(&update, LocalMutationOutcome::Invalid("in use".to_string())),
        PlansReply::DataUnavailable
    ));
    assert!(matches!(
        reply(&delete, LocalMutationOutcome::Unavailable),
        PlansReply::DataUnavailable
    ));
}
