use aether_usage_policy::billing_plan_routes::RequestBody;
use aether_usage_policy::binary64::Binary64;
use aether_usage_policy::entitlement::{EntitlementItem, Entitlements, FieldValue, PolicyShape};
use aether_usage_policy::plan_grant_flow::{GrantAction, GrantEvent, PlanGrant};
use aether_usage_policy::plan_grants::{
    admin_plan_grant_order_no, admin_user_billing_operator_id, admin_user_id_from_billing_path,
    listed_user, normalize_admin_grant_reason, plan_grant_order_expiry, plan_grant_order_number,
    plan_has_package_rights, AdminGrantUserPlanRequest, AdminWalletMutationOutcome,
    CreatePlanPurchaseOrderOutcome, GrantReply, GrantedPlan,
};
use aether_usage_policy::plan_usage_policy::{GatewayAdminPrincipal, GatewayControlDecision};

fn entitlements(kind: &str) -> Entitlements {
    Entitlements::Items(vec![EntitlementItem {
        fields: vec![("type".to_string(), FieldValue::Text(kind.to_string()))],
        policy: PolicyShape::Malformed("missing field `rules`".to_string()),
    }])
}

fn granted(kind: &str) -> GrantedPlan {
    GrantedPlan {
        id: "plan-1".to_string(),
        price_currency: "CNY".to_string(),
        entitlements: entitlements(kind),
    }
}

#[test]
fn paths_name_one_user() {
    let user = |path: &str| admin_user_id_from_billing_path(path, "/billing/grant-plan");
    assert_eq!(user("/api/admin/users/u-1/billing/grant-plan/"), Some("u-1".to_string()));
    assert_eq!(user("/api/admin/users//billing/grant-plan"), None);
    assert_eq!(user("/api/admin/users/a/b/billing/grant-plan"), None);
    assert_eq!(user("/api/admin/users/u-1/billing"), None);
    assert!(matches!(
        listed_user("/api/admin/users/u-1/billing/entitlements"),
        Ok(user_id) if user_id == "u-1"
    ));
    assert!(matches!(
        listed_user("/api/admin/users/"),
        Err(GrantReply::BadRequest(detail)) if detail == "缺少 user_id"
    ));
}

#[test]
fn the_operator_is_the_administrator() {
    let decision = |principal: Option<&str>| GatewayControlDecision {
        route_class: None,
        auth_context: None,
        admin_principal: principal
            .map(|user_id| GatewayAdminPrincipal { user_id: user_id.to_string() }),
    };
    assert_eq!(admin_user_billing_operator_id(None), None);
    assert_eq!(admin_user_billing_operator_id(Some(&decision(None))), None);
    assert_eq!(
        admin_user_billing_operator_id(Some(&decision(Some("admin")))),
        Some("admin".to_string())
    );
}

#[test]
fn reasons_are_trimmed_and_bounded() {
    assert_eq!(normalize_admin_grant_reason(None), Ok(None));
    assert_eq!(normalize_admin_grant_reason(Some("  ")), Ok(None));
    assert_eq!(normalize_admin_grant_reason(Some(" gift ")), Ok(Some("gift".to_string())));
    assert!(normalize_admin_grant_reason(Some(&"ä".repeat(512))).is_ok());
    assert_eq!(
        normalize_admin_grant_reason(Some(&"ä".repeat(513))),
        Err("reason exceeds maximum length 512".to_string())
    );
}

#[test]
fn only_plans_with_rights_are_granted() {
    for kind in ["daily_quota", "membership_group", "usage_policy"] {
        assert!(plan_has_package_rights(&entitlements(kind)), "{kind}");
    }
    assert!(!plan_has_package_rights(&entitlements("wallet_credit")));
    assert!(!plan_has_package_rights(&Entitlements::NotAnArray));
}

#[test]
fn order_numbers_hold_the_moment_and_twelve_random_digits() {
    assert_eq!(plan_grant_order_number("2026", "0123456789abcdef"), "pg_2026_0123456789ab");
    let moment = chrono::DateTime::parse_from_rfc3339("2026-08-09T07:06:05.004003002Z").unwrap();
    let number =
        admin_plan_grant_order_no(moment.timestamp(), moment.timestamp_subsec_nanos());
    let (stamp, random) = number.rsplit_once('_').unwrap();
    assert_eq!(stamp, "pg_20260809070605004003");
    assert_eq!(random.len(), 12);
    assert!(random.chars().all(|c| c.is_ascii_digit() || ('a'..='f').contains(&c)));
    let before = admin_plan_grant_order_no(-1, 999_999_999);
    assert!(before.starts_with("pg_19691231235959999999_"));
    let leap = admin_plan_grant_order_no(59, 1_500_000_999);
    assert!(leap.starts_with("pg_19700101000060500000_"));
    assert_ne!(admin_plan_grant_order_no(0, 0), admin_plan_grant_order_no(0, 0));
}

#[test]
fn orders_stay_open_for_half_an_hour() {
    assert_eq!(plan_grant_order_expiry(1_000), 2_800);
    assert_eq!(plan_grant_order_expiry(-1_801), 0);
}

fn begin() -> PlanGrant {
    let mut grant = PlanGrant::new(Some("admin".to_string()));
    let action = grant.on_event(GrantEvent::Begin {
        path: "/api/admin/users/u-1/billing/grant-plan".to_string(),
    });
    assert!(matches!(action, GrantAction::FindUser { user_id } if user_id == "u-1"));
    grant
}

fn found_user() -> PlanGrant {
    let mut grant = begin();
    assert!(matches!(grant.on_event(GrantEvent::User { found: true }), GrantAction::ReadBody));
    grant
}

fn request(plan_id: &str, reason: Option<&str>) -> RequestBody<AdminGrantUserPlanRequest> {
    RequestBody::Read(AdminGrantUserPlanRequest {
        plan_id: plan_id.to_string(),
        reason: reason.map(str::to_string),
    })
}

fn read_body() -> PlanGrant {
    let mut grant = found_user();
    let action = grant.on_event(GrantEvent::Body(request(" plan-1 ", Some(" gift "))));
    assert!(matches!(action, GrantAction::FindPlan { plan_id } if plan_id == "plan-1"));
    grant
}

fn made_order() -> PlanGrant {
    let mut grant = read_body();
    match grant.on_event(GrantEvent::Plan {
        plan: Some(granted("daily_quota")),
        order_no: "pg_1".to_string(),
        expires_at_unix_secs: 77,
    }) {
        GrantAction::CreateOrder { order, reason } => {
            assert_eq!(order.user_id, "u-1");
            assert_eq!(order.amount_usd, Binary64 { bits: 0.0_f64.to_bits() });
            assert_eq!(order.pay_amount, Binary64 { bits: 0.0_f64.to_bits() });
            assert_eq!(order.exchange_rate, Binary64 { bits: 1.0_f64.to_bits() });
            assert_eq!(order.pay_currency, "CNY");
            assert_eq!(order.payment_method, "admin_grant");
            assert_eq!(order.payment_provider, "admin");
            assert_eq!(order.payment_channel, "manual");
            assert_eq!(order.order_no, "pg_1");
            assert_eq!(order.gateway_order_id, "pg_1");
            assert_eq!(order.product_id, "plan-1");
            assert_eq!(order.expires_at_unix_secs, 77);
            assert_eq!(reason.as_deref(), Some("gift"));
        }
        other => panic!("unexpected {:?}", other),
    }
    grant
}

fn credited() -> PlanGrant {
    let mut grant = made_order();
    let created = CreatePlanPurchaseOrderOutcome::Created { order_id: "o-1".to_string() };
    match grant.on_event(GrantEvent::Order(Some(created))) {
        GrantAction::CreditOrder(credit) => {
            assert_eq!(credit.order_id, "o-1");
            assert_eq!(credit.gateway_order_id, "pg_1");
            assert_eq!(credit.pay_currency, "CNY");
            assert_eq!(credit.operator_id.as_deref(), Some("admin"));
            assert_eq!(credit.exchange_rate, Binary64 { bits: 1.0_f64.to_bits() });
        }
        other => panic!("unexpected {:?}", other),
    }
    grant
}

#[test]
fn a_grant_goes_all_the_way() {
    let mut grant = credited();
    assert!(matches!(
        grant.on_event(GrantEvent::Credit(AdminWalletMutationOutcome::Applied)),
        GrantAction::ReadEntitlements { user_id } if user_id == "u-1"
    ));
    match grant.on_event(GrantEvent::Entitlements { read: true }) {
        GrantAction::Reply(GrantReply::Granted { event, action, target, user_id }) => {
            assert_eq!(event, "admin_user_plan_granted");
            assert_eq!(action, "grant_user_billing_plan");
            assert_eq!(target, "user");
            assert_eq!(user_id, "u-1");
        }
        other => panic!("unexpected {:?}", other),
    }
}

fn bad_request(action: GrantAction) -> String {
    match action {
        GrantAction::Reply(GrantReply::BadRequest(detail)) => detail,
        other => panic!("unexpected {:?}", other),
    }
}

fn not_found(action: GrantAction) -> String {
    match action {
        GrantAction::Reply(GrantReply::NotFound(detail)) => detail,
        other => panic!("unexpected {:?}", other),
    }
}

fn conflict(action: GrantAction) -> String {
    match action {
        GrantAction::Reply(GrantReply::Conflict(detail)) => detail,
        other => panic!("unexpected {:?}", other),
    }
}

#[test]
fn a_grant_ends_where_something_is_missing() {
    let mut grant = PlanGrant::new(None);
    assert_eq!(
        bad_request(grant.on_event(GrantEvent::Begin { path: "/api/admin/users".to_string() })),
        "缺少 user_id"
    );
    assert_eq!(not_found(begin().on_event(GrantEvent::User { found: false })), "用户不存在");
    assert_eq!(
        bad_request(found_user().on_event(GrantEvent::Body(RequestBody::Missing))),
        "缺少请求体"
    );
    assert_eq!(
        bad_request(found_user().on_event(GrantEvent::Body(RequestBody::Malformed))),
        "输入验证失败"
    );
    assert_eq!(
        bad_request(found_user().on_event(GrantEvent::Body(request(" ", None)))),
        "plan_id 不能为空"
    );
    let long = "x".repeat(513);
    assert_eq!(
        bad_request(found_user().on_event(GrantEvent::Body(request("p", Some(&long))))),
        "reason exceeds maximum length 512"
    );
    let found_plan = |plan| {
        read_body().on_event(GrantEvent::Plan {
            plan,
            order_no: "pg_1".to_string(),
            expires_at_unix_secs: 77,
        })
    };
    assert_eq!(not_found(found_plan(None)), "套餐不存在");
    assert_eq!(
        bad_request(found_plan(Some(granted("wallet_credit")))),
        "余额包已移除，请使用钱包充值功能"
    );
    assert_eq!(
        bad_request(made_order().on_event(GrantEvent::Order(Some(
            CreatePlanPurchaseOrderOutcome::WalletInactive
        )))),
        "wallet is not active"
    );
    assert_eq!(
        conflict(made_order().on_event(GrantEvent::Order(Some(
            CreatePlanPurchaseOrderOutcome::ActivePlanLimitReached
        )))),
        "套餐购买限制已达到上限"
    );
    assert!(matches!(
        made_order().on_event(GrantEvent::Order(None)),
        GrantAction::Reply(GrantReply::DataUnavailable)
    ));
    assert_eq!(
        conflict(credited().on_event(GrantEvent::Credit(AdminWalletMutationOutcome::Invalid(
            "paid".to_string()
        )))),
        "paid"
    );
    for outcome in [AdminWalletMutationOutcome::NotFound, AdminWalletMutationOutcome::Unavailable] {
        assert!(matches!(
            credited().on_event(GrantEvent::Credit(outcome)),
            GrantAction::Reply(GrantReply::DataUnavailable)
        ));
    }
    let mut unread = credited();
    unread.on_event(GrantEvent::Credit(AdminWalletMutationOutcome::Applied));
    assert!(matches!(
        unread.on_event(GrantEvent::Entitlements { read: false }),
        GrantAction::Reply(GrantReply::DataUnavailable)
    ));
}
