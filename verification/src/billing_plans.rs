//! Billing plans, as an administrator writes them.

use crate::binary64::Binary64;
use crate::entitlement;
use crate::entitlement::{EntitlementItem, Entitlements, FieldValue};
use crate::path;
use crate::policy_parser;
use crate::replacement;
use crate::text;
use crate::timezone;
use vstd::prelude::*;
use vstd::string::*;

verus! {

/// A plan as an administrator sent it.
#[derive(Debug)]
pub struct BillingPlanRequest {
    pub title: String,
    pub description: Option<String>,
    pub price_amount: Binary64,
    pub price_currency: String,
    pub duration_unit: String,
    pub duration_value: i64,
    pub enabled: bool,
    pub sort_order: i64,
    pub max_active_per_user: i64,
    pub purchase_limit_scope: String,
    pub entitlements: Entitlements,
}

/// A plan as it is written to the store.
#[derive(Debug)]
pub struct BillingPlanWriteInput {
    pub title: String,
    pub description: Option<String>,
    pub price_amount: Binary64,
    pub price_currency: String,
    pub duration_unit: String,
    pub duration_value: i64,
    pub enabled: bool,
    pub sort_order: i64,
    pub max_active_per_user: i64,
    pub purchase_limit_scope: String,
    pub entitlements: Entitlements,
}

/// The currency of a plan that names none.
pub fn default_price_currency() -> (r: String)
    ensures
        r@ == "CNY"@,
{
    "CNY".to_string()
}

/// A plan is on sale unless it says otherwise.
pub fn default_enabled() -> (r: bool)
    ensures
        r,
{
    true
}

/// A user holds one copy of a plan at a time unless the plan says otherwise.
pub fn default_max_active_per_user() -> (r: i64)
    ensures
        r == 1,
{
    1
}

/// The purchases of a plan are counted within its period unless the plan says otherwise.
pub fn default_purchase_limit_scope() -> (r: String)
    ensures
        r@ == "active_period"@,
{
    "active_period".to_string()
}

/// Whether `r` is the text or the error that is expected.
pub open spec fn is_text(
    r: Result<String, String>,
    expected: Result<Seq<char>, Seq<char>>,
) -> bool {
    match expected {
        Ok(value) => r is Ok && r->Ok_0@ == value,
        Err(message) => r is Err && r->Err_0@ == message,
    }
}

/// A text without the white space around it, where something is left and that is not too long.
pub open spec fn normalized(value: Seq<char>, field: Seq<char>, max_len: usize) -> Result<
    Seq<char>,
    Seq<char>,
> {
    let trimmed = text::trimmed(value);
    if trimmed.len() == 0 {
        Err(field + " must not be empty"@)
    } else if trimmed.len() > max_len {
        Err(field + " exceeds maximum length "@ + text::decimal(max_len as nat))
    } else {
        Ok(trimmed)
    }
}

/// A text without the white space around it, where something is left and that is not too long.
pub fn normalize_text(value: &str, field: &str, max_len: usize) -> (r: Result<String, String>)
    ensures
        is_text(r, normalized(value@, field@, max_len)),
{
    let trimmed = text::trim(value);
    if trimmed.is_empty() {
        return Err(text::joined(field, " must not be empty"));
    }
    if trimmed.unicode_len() > max_len {
        let mut message = text::joined(field, " exceeds maximum length ");
        message.append(text::decimal_text(max_len as u64).as_str());
        return Err(message);
    }
    Ok(trimmed.to_string())
}

/// An optional text without the white space around it: none where nothing is left.
pub open spec fn normalized_optional(value: Option<Seq<char>>, max_len: usize) -> Result<
    Option<Seq<char>>,
    Seq<char>,
> {
    match value {
        None => Ok(None),
        Some(value) => {
            let trimmed = text::trimmed(value);
            if trimmed.len() == 0 {
                Ok(None)
            } else if trimmed.len() > max_len {
                Err("field exceeds maximum length "@ + text::decimal(max_len as nat))
            } else {
                Ok(Some(trimmed))
            }
        },
    }
}

/// Whether `r` is the optional text or the error that is expected.
pub open spec fn is_optional_text(
    r: Result<Option<String>, String>,
    expected: Result<Option<Seq<char>>, Seq<char>>,
) -> bool {
    match expected {
        Ok(value) => r is Ok && text::opt_string(r->Ok_0) == value,
        Err(message) => r is Err && r->Err_0@ == message,
    }
}

/// An optional text without the white space around it: none where nothing is left.
pub fn normalize_optional_text(value: Option<&str>, max_len: usize) -> (r: Result<
    Option<String>,
    String,
>)
    ensures
        is_optional_text(r, normalized_optional(text::opt_view(value), max_len)),
{
    let value = match value {
        Some(value) => value,
        None => return Ok(None),
    };
    let trimmed = text::trim(value);
    if trimmed.is_empty() {
        return Ok(None);
    }
    if trimmed.unicode_len() > max_len {
        return Err(
            text::joined(
                "field exceeds maximum length ",
                text::decimal_text(max_len as u64).as_str(),
            ),
        );
    }
    Ok(Some(trimmed.to_string()))
}

/// The number of a field that is one.
pub open spec fn number_of(item: EntitlementItem, name: Seq<char>) -> Option<Binary64> {
    match item.spec_field(name) {
        Some(FieldValue::Number(value)) => Some(value),
        _ => None,
    }
}

fn number_field(item: &EntitlementItem, name: &str) -> (r: Option<Binary64>)
    ensures
        r == number_of(*item, name@),
{
    match item.field(name) {
        Some(FieldValue::Number(value)) => Some(*value),
        _ => None,
    }
}

/// What is wrong with a credit to the wallet.
pub open spec fn wallet_credit_fault(item: EntitlementItem) -> Option<Seq<char>> {
    let amount = number_of(item, "amount_usd"@);
    if amount is None {
        Some("wallet_credit.amount_usd is required"@)
    } else if !amount->0.positive() {
        Some("wallet_credit.amount_usd must be positive"@)
    } else {
        match item.spec_field("balance_bucket"@) {
            None => None,
            Some(FieldValue::Text(bucket)) => if bucket@ == "recharge"@ || bucket@ == "gift"@ {
                None
            } else {
                Some("wallet_credit.balance_bucket must be recharge/gift"@)
            },
            Some(_) => Some("wallet_credit.balance_bucket must be a string"@),
        }
    }
}

/// What is wrong with the time zone of a daily quota.
pub open spec fn reset_timezone_fault(item: EntitlementItem) -> Option<Seq<char>> {
    match item.spec_field("reset_timezone"@) {
        None => None,
        Some(FieldValue::Text(zone)) => if text::trimmed(zone@).len() == 0 {
            Some("daily_quota.reset_timezone must not be empty"@)
        } else if !timezone::is_timezone(text::trimmed(zone@)) {
            Some("daily_quota.reset_timezone must be a valid timezone"@)
        } else {
            None
        },
        Some(_) => Some("daily_quota.reset_timezone must be a string"@),
    }
}

/// What is wrong with the flags of a daily quota.
pub open spec fn quota_flags_fault(item: EntitlementItem) -> Option<Seq<char>> {
    match item.spec_field("carry_over"@) {
        Some(FieldValue::Flag(true)) => Some("daily_quota.carry_over is not supported"@),
        Some(FieldValue::Flag(false)) | None => match item.spec_field("allow_wallet_overage"@) {
            Some(FieldValue::Flag(_)) | None => None,
            Some(_) => Some("daily_quota.allow_wallet_overage must be a boolean"@),
        },
        Some(_) => Some("daily_quota.carry_over must be a boolean"@),
    }
}

/// What is wrong with a daily quota.
pub open spec fn daily_quota_fault(item: EntitlementItem) -> Option<Seq<char>> {
    let amount = number_of(item, "daily_quota_usd"@);
    if amount is None {
        Some("daily_quota.daily_quota_usd is required"@)
    } else if !amount->0.positive() {
        Some("daily_quota.daily_quota_usd must be positive"@)
    } else if reset_timezone_fault(item) is Some {
        reset_timezone_fault(item)
    } else {
        quota_flags_fault(item)
    }
}

/// The first fault of the groups of a membership from position `from` on.
pub open spec fn groups_fault(groups: Seq<Option<String>>, from: nat) -> Option<Seq<char>>
    decreases groups.len() - from,
{
    if from >= groups.len() {
        None
    } else {
        match groups[from as int] {
            None => Some("membership_group.grant_user_groups must contain strings"@),
            Some(group) => if text::trimmed(group@).len() == 0 {
                Some("membership_group.grant_user_groups must not contain empty values"@)
            } else {
                groups_fault(groups, from + 1)
            },
        }
    }
}

/// What is wrong with a membership.
pub open spec fn membership_fault(item: EntitlementItem) -> Option<Seq<char>> {
    match item.spec_field("grant_user_groups"@) {
        Some(FieldValue::List(groups)) => if groups@.len() == 0 {
            Some("membership_group.grant_user_groups must not be empty"@)
        } else {
            groups_fault(groups@, 0)
        },
        _ => Some("membership_group.grant_user_groups is required"@),
    }
}

/// What is wrong with an entitlement, but for its replacement group and its usage policy.
pub open spec fn item_fault(item: EntitlementItem) -> Option<Seq<char>> {
    match item.kind() {
        None => Some("entitlement.type is required"@),
        Some(kind) => if kind == "wallet_credit"@ {
            wallet_credit_fault(item)
        } else if kind == "daily_quota"@ {
            daily_quota_fault(item)
        } else if kind == "membership_group"@ {
            membership_fault(item)
        } else if kind == "usage_policy"@ {
            None
        } else {
            Some("unsupported entitlement type: "@ + kind)
        },
    }
}

/// The first fault of an entitlement from position `from` on.
pub open spec fn first_item_fault(items: Seq<EntitlementItem>, from: nat) -> Option<Seq<char>>
    decreases items.len() - from,
{
    if from >= items.len() {
        None
    } else if item_fault(items[from as int]) is Some {
        item_fault(items[from as int])
    } else {
        first_item_fault(items, from + 1)
    }
}

/// What is wrong with the entitlements of a plan: each in turn, then the replacement groups, then
/// the usage policies; and a plan must grant more than a credit.
pub open spec fn entitlements_fault(entitlements: Entitlements) -> Option<Seq<char>> {
    match entitlements {
        Entitlements::NotAnArray => Some("entitlements must be an array"@),
        Entitlements::Items(items) => if items@.len() == 0 {
            Some("entitlements must not be empty"@)
        } else if first_item_fault(items@, 0) is Some {
            first_item_fault(items@, 0)
        } else if replacement::groups_fault(entitlements) is Some {
            Some(replacement::groups_fault(entitlements)->0.spec_message())
        } else if policy_parser::policies_of(entitlements) is Err {
            Some(policy_parser::policies_of(entitlements)->Err_0.message())
        } else if !entitlement::has_package_right(items@) {
            Some("套餐至少需要包含每日额度、会员分组或使用限制；钱包充值请使用充值功能"@)
        } else {
            None
        },
    }
}

/// Whether `r` carries the error that is expected, or none.
pub open spec fn fails_with<T>(r: Result<T, String>, fault: Option<Seq<char>>) -> bool {
    match fault {
        Some(message) => r is Err && r->Err_0@ == message,
        None => r is Ok,
    }
}

fn validate_wallet_credit(item: &EntitlementItem) -> (r: Result<(), String>)
    ensures
        fails_with(r, wallet_credit_fault(*item)),
{
    let amount = match number_field(item, "amount_usd") {
        Some(amount) => amount,
        None => return Err("wallet_credit.amount_usd is required".to_string()),
    };
    if !amount.is_positive() {
        return Err("wallet_credit.amount_usd must be positive".to_string());
    }
    match item.field("balance_bucket") {
        None => Ok(()),
        Some(FieldValue::Text(bucket)) => {
            if text::same(bucket.as_str(), "recharge") || text::same(bucket.as_str(), "gift") {
                Ok(())
            } else {
                Err("wallet_credit.balance_bucket must be recharge/gift".to_string())
            }
        },
        Some(_) => Err("wallet_credit.balance_bucket must be a string".to_string()),
    }
}

fn validate_daily_quota(item: &EntitlementItem) -> (r: Result<(), String>)
    ensures
        fails_with(r, daily_quota_fault(*item)),
{
    let amount = match number_field(item, "daily_quota_usd") {
        Some(amount) => amount,
        None => return Err("daily_quota.daily_quota_usd is required".to_string()),
    };
    if !amount.is_positive() {
        return Err("daily_quota.daily_quota_usd must be positive".to_string());
    }
    match item.field("reset_timezone") {
        None => {},
        Some(FieldValue::Text(zone)) => {
            let zone = text::trim(zone.as_str());
            if zone.is_empty() {
                return Err("daily_quota.reset_timezone must not be empty".to_string());
            }
            if !timezone::parses_as_timezone(zone) {
                return Err("daily_quota.reset_timezone must be a valid timezone".to_string());
            }
        },
        Some(_) => return Err("daily_quota.reset_timezone must be a string".to_string()),
    }
    match item.field("carry_over") {
        None => {},
        Some(FieldValue::Flag(carry_over)) => {
            if *carry_over {
                return Err("daily_quota.carry_over is not supported".to_string());
            }
        },
        Some(_) => return Err("daily_quota.carry_over must be a boolean".to_string()),
    }
    match item.field("allow_wallet_overage") {
        None => Ok(()),
        Some(FieldValue::Flag(_)) => Ok(()),
        Some(_) => Err("daily_quota.allow_wallet_overage must be a boolean".to_string()),
    }
}

fn validate_membership(item: &EntitlementItem) -> (r: Result<(), String>)
    ensures
        fails_with(r, membership_fault(*item)),
{
    let groups = match item.field("grant_user_groups") {
        Some(FieldValue::List(groups)) => groups,
        _ => return Err("membership_group.grant_user_groups is required".to_string()),
    };
    if groups.len() == 0 {
        return Err("membership_group.grant_user_groups must not be empty".to_string());
    }
    let mut at: usize = 0;
    while at < groups.len()
        invariant
            at <= groups@.len(),
            membership_fault(*item) == groups_fault(groups@, at as nat),
        decreases groups@.len() - at,
    {
        match &groups[at] {
            None => return Err(
                "membership_group.grant_user_groups must contain strings".to_string(),
            ),
            Some(group) => {
                if text::trim(group.as_str()).is_empty() {
                    return Err(
                        "membership_group.grant_user_groups must not contain empty values".to_string(),
                    );
                }
            },
        }
        at += 1;
    }
    Ok(())
}

fn validate_item(item: &EntitlementItem) -> (r: Result<(), String>)
    ensures
        fails_with(r, item_fault(*item)),
{
    let kind = match item.text_field("type") {
        Some(kind) => kind,
        None => return Err("entitlement.type is required".to_string()),
    };
    if text::same(kind, "wallet_credit") {
        validate_wallet_credit(item)
    } else if text::same(kind, "daily_quota") {
        validate_daily_quota(item)
    } else if text::same(kind, "membership_group") {
        validate_membership(item)
    } else if text::same(kind, "usage_policy") {
        Ok(())
    } else {
        Err(text::joined("unsupported entitlement type: ", kind))
    }
}

/// Checks the entitlements of a plan.
pub fn validate_entitlements(entitlements: &Entitlements) -> (r: Result<(), String>)
    ensures
        fails_with(r, entitlements_fault(*entitlements)),
{
    let items = match entitlements {
        Entitlements::NotAnArray => return Err("entitlements must be an array".to_string()),
        Entitlements::Items(items) => items,
    };
    if items.len() == 0 {
        return Err("entitlements must not be empty".to_string());
    }
    let mut at: usize = 0;
    while at < items.len()
        invariant
            *entitlements == Entitlements::Items(*items),
            items@.len() > 0,
            at <= items@.len(),
            first_item_fault(items@, 0) == first_item_fault(items@, at as nat),
        decreases items@.len() - at,
    {
        validate_item(&items[at])?;
        at += 1;
    }
    if let Err(e) = replacement::validate_entitlement_replacement_groups(entitlements) {
        return Err(e.message());
    }
    if let Err(e) = policy_parser::parse_usage_policy_entitlements(entitlements) {
        return Err(e.message());
    }
    if !entitlement::entitlements_include_package_rights(items) {
        return Err(
            "套餐至少需要包含每日额度、会员分组或使用限制；钱包充值请使用充值功能".to_string(),
        );
    }
    Ok(())
}

/// The texts of a plan.
pub struct PlanTexts {
    pub title: Seq<char>,
    pub description: Option<Seq<char>>,
    pub price_currency: Seq<char>,
    pub duration_unit: Seq<char>,
    pub purchase_limit_scope: Seq<char>,
}

/// The unit of a duration.
pub open spec fn is_duration_unit(unit: Seq<char>) -> bool {
    unit == "day"@ || unit == "month"@ || unit == "year"@ || unit == "custom"@
}

/// What purchases are counted within.
pub open spec fn is_limit_scope(scope: Seq<char>) -> bool {
    scope == "active_period"@ || scope == "lifetime"@ || scope == "unlimited"@
}

/// What is wrong with the numbers of a plan.
pub open spec fn plan_numbers_fault(plan: BillingPlanRequest) -> Option<Seq<char>> {
    if !plan.price_amount.positive() {
        Some("price_amount must be positive"@)
    } else if plan.duration_value <= 0 {
        Some("duration_value must be positive"@)
    } else if plan.max_active_per_user <= 0 {
        Some("max_active_per_user must be positive"@)
    } else {
        None
    }
}

/// What is wrong with the choices of a plan.
pub open spec fn plan_choices_fault(plan: BillingPlanRequest) -> Option<Seq<char>> {
    match normalized(plan.duration_unit@, "duration_unit"@, 32) {
        Err(message) => Some(message),
        Ok(unit) => if !is_duration_unit(unit) {
            Some("duration_unit must be day/month/year/custom"@)
        } else {
            match normalized(plan.purchase_limit_scope@, "purchase_limit_scope"@, 32) {
                Err(message) => Some(message),
                Ok(scope) => if !is_limit_scope(scope) {
                    Some("purchase_limit_scope must be active_period/lifetime/unlimited"@)
                } else {
                    None
                },
            }
        },
    }
}

/// The texts of a plan as they are written, or what is wrong with the plan.
pub open spec fn plan_of(plan: BillingPlanRequest) -> Result<PlanTexts, Seq<char>> {
    if plan_numbers_fault(plan) is Some {
        Err(plan_numbers_fault(plan)->0)
    } else if plan_choices_fault(plan) is Some {
        Err(plan_choices_fault(plan)->0)
    } else if entitlements_fault(plan.entitlements) is Some {
        Err(entitlements_fault(plan.entitlements)->0)
    } else {
        match (
            normalized(plan.title@, "title"@, 128),
            normalized_optional(text::opt_string(plan.description), 2048),
            normalized(plan.price_currency@, "price_currency"@, 16),
        ) {
            (Err(message), _, _) => Err(message),
            (Ok(_), Err(message), _) => Err(message),
            (Ok(_), Ok(_), Err(message)) => Err(message),
            (Ok(title), Ok(description), Ok(price_currency)) => Ok(
                PlanTexts {
                    title,
                    description,
                    price_currency,
                    duration_unit: text::trimmed(plan.duration_unit@),
                    purchase_limit_scope: text::trimmed(plan.purchase_limit_scope@),
                },
            ),
        }
    }
}

/// The plan is written with these texts, and otherwise as it was sent.
pub open spec fn is_plan(
    written: BillingPlanWriteInput,
    sent: BillingPlanRequest,
    texts: PlanTexts,
) -> bool {
    &&& written.title@ == texts.title
    &&& text::opt_string(written.description) == texts.description
    &&& written.price_currency@ == texts.price_currency
    &&& written.duration_unit@ == texts.duration_unit
    &&& written.purchase_limit_scope@ == texts.purchase_limit_scope
    &&& written.price_amount == sent.price_amount
    &&& written.duration_value == sent.duration_value
    &&& written.enabled == sent.enabled
    &&& written.sort_order == sent.sort_order
    &&& written.max_active_per_user == sent.max_active_per_user
    &&& written.entitlements == sent.entitlements
}

/// A plan as it is written to the store, or what is wrong with it.
pub fn normalize_plan_input(payload: BillingPlanRequest) -> (r: Result<
    BillingPlanWriteInput,
    String,
>)
    ensures
        match plan_of(payload) {
            Ok(texts) => r is Ok && is_plan(r->Ok_0, payload, texts),
            Err(message) => r is Err && r->Err_0@ == message,
        },
{
    if !payload.price_amount.is_positive() {
        return Err("price_amount must be positive".to_string());
    }
    if payload.duration_value <= 0 {
        return Err("duration_value must be positive".to_string());
    }
    if payload.max_active_per_user <= 0 {
        return Err("max_active_per_user must be positive".to_string());
    }
    let duration_unit = normalize_text(payload.duration_unit.as_str(), "duration_unit", 32)?;
    if !text::same(duration_unit.as_str(), "day") && !text::same(duration_unit.as_str(), "month")
        && !text::same(duration_unit.as_str(), "year") && !text::same(
        duration_unit.as_str(),
        "custom",
    ) {
        return Err("duration_unit must be day/month/year/custom".to_string());
    }
    let purchase_limit_scope = normalize_text(
        payload.purchase_limit_scope.as_str(),
        "purchase_limit_scope",
        32,
    )?;
    if !text::same(purchase_limit_scope.as_str(), "active_period") && !text::same(
        purchase_limit_scope.as_str(),
        "lifetime",
    ) && !text::same(purchase_limit_scope.as_str(), "unlimited") {
        return Err("purchase_limit_scope must be active_period/lifetime/unlimited".to_string());
    }
    validate_entitlements(&payload.entitlements)?;
    let title = normalize_text(payload.title.as_str(), "title", 128)?;
    let description = normalize_optional_text(text::as_text(&payload.description), 2048)?;
    let price_currency = normalize_text(payload.price_currency.as_str(), "price_currency", 16)?;
    Ok(
        BillingPlanWriteInput {
            title,
            description,
            price_amount: payload.price_amount,
            price_currency,
            duration_unit,
            duration_value: payload.duration_value,
            enabled: payload.enabled,
            sort_order: payload.sort_order,
            max_active_per_user: payload.max_active_per_user,
            purchase_limit_scope,
            entitlements: payload.entitlements,
        },
    )
}

/// Every plan that is written grants a right of its own, and its usage policies can be read.
pub proof fn a_plan_that_is_written_can_be_enforced(plan: BillingPlanRequest)
    requires
        plan_of(plan) is Ok,
    ensures
        plan.entitlements is Items,
        entitlement::has_package_right(plan.entitlements->Items_0@),
        policy_parser::policies_of(plan.entitlements) is Ok,
        replacement::groups_fault(plan.entitlements) is None,
{
}

/// The id of the plan that a path names.
pub open spec fn plan_id_of(request_path: Seq<char>, suffix: Option<Seq<char>>) -> Option<
    Seq<char>,
> {
    match path::behind(path::unslashed(request_path), "/api/admin/billing/plans/"@) {
        None => None,
        Some(rest) => match suffix {
            None => path::segment(rest),
            Some(suffix) => match path::ahead(rest, suffix) {
                None => None,
                Some(id) => path::segment(path::unslashed(id)),
            },
        },
    }
}

/// The id of the plan that a path names.
pub fn plan_id_from_path(request_path: &str, suffix: Option<&str>) -> (r: Option<String>)
    ensures
        text::opt_string(r) == plan_id_of(request_path@, text::opt_view(suffix)),
{
    let trimmed = path::without_trailing_slashes(request_path);
    let rest = match path::strip_prefix(trimmed, "/api/admin/billing/plans/") {
        Some(rest) => rest,
        None => return None,
    };
    match suffix {
        None => path::as_segment(rest),
        Some(suffix) => match path::strip_suffix(rest, suffix) {
            Some(id) => path::as_segment(path::without_trailing_slashes(id)),
            None => None,
        },
    }
}

} // verus!
