//! Granting a plan to a user by hand: which of the user, the plan, the order and the credit is asked
//! for next, and what the administrator is answered.

use crate::binary64::Binary64;
use crate::billing_plan_routes::RequestBody;
use crate::calendar::{CivilDate, DAY_SECONDS, LAST_DATED_SECOND};
use crate::entitlement;
use crate::entitlement::Entitlements;
use crate::path;
use crate::plan_usage_policy;
use crate::plan_usage_policy::GatewayControlDecision;
use crate::text;
use vstd::prelude::*;
use vstd::string::*;

verus! {

/// The bits of the number one.
pub const ONE_BITS: u64 = 0x3ff0_0000_0000_0000;

/// How long a granted order stays open: half an hour.
pub const GRANT_ORDER_SECONDS: i64 = 1_800;

/// The most characters in a reason.
pub const MAX_GRANT_REASON_LENGTH: usize = 512;

/// The first second that has a date.
pub const FIRST_DATED_SECOND: i64 = -8_334_601_228_800;

/// What an administrator asks for.
#[derive(Debug)]
pub struct AdminGrantUserPlanRequest {
    pub plan_id: String,
    pub reason: Option<String>,
}

/// What is known of the plan that is granted.
#[derive(Debug)]
pub struct GrantedPlan {
    pub id: String,
    pub price_currency: String,
    pub entitlements: Entitlements,
}

/// The id of the user that a path names.
pub open spec fn user_id_of(request_path: Seq<char>, suffix: Seq<char>) -> Option<Seq<char>> {
    match path::behind(path::unslashed(request_path), "/api/admin/users/"@) {
        None => None,
        Some(rest) => match path::ahead(rest, suffix) {
            None => None,
            Some(id) => path::segment(path::unslashed(id)),
        },
    }
}

/// The id of the user that a path names.
pub fn admin_user_id_from_billing_path(request_path: &str, suffix: &str) -> (r: Option<String>)
    ensures
        text::opt_string(r) == user_id_of(request_path@, suffix@),
{
    let trimmed = path::without_trailing_slashes(request_path);
    match path::strip_prefix(trimmed, "/api/admin/users/") {
        None => None,
        Some(rest) => match path::strip_suffix(rest, suffix) {
            None => None,
            Some(id) => path::as_segment(path::without_trailing_slashes(id)),
        },
    }
}

/// The administrator who sent a request.
pub open spec fn operator_of(decision: Option<GatewayControlDecision>) -> Option<Seq<char>> {
    match decision {
        Some(decision) => match decision.admin_principal {
            Some(principal) => Some(principal.user_id@),
            None => None,
        },
        None => None,
    }
}

/// The administrator who sent a request.
pub fn admin_user_billing_operator_id(decision: Option<&GatewayControlDecision>) -> (r: Option<
    String,
>)
    ensures
        text::opt_string(r) == match decision {
            Some(decision) => operator_of(Some(*decision)),
            None => None,
        },
{
    match decision {
        Some(decision) => match &decision.admin_principal {
            Some(principal) => Some(principal.user_id.clone()),
            None => None,
        },
        None => None,
    }
}

/// A reason without the white space around it: none where nothing is left.
pub open spec fn reason_of(value: Option<Seq<char>>) -> Result<Option<Seq<char>>, Seq<char>> {
    match value {
        None => Ok(None),
        Some(value) => if text::trimmed(value).len() == 0 {
            Ok(None)
        } else if text::trimmed(value).len() > MAX_GRANT_REASON_LENGTH {
            Err("reason exceeds maximum length 512"@)
        } else {
            Ok(Some(text::trimmed(value)))
        },
    }
}

/// A reason without the white space around it: none where nothing is left.
pub fn normalize_admin_grant_reason(value: Option<&str>) -> (r: Result<Option<String>, String>)
    ensures
        match reason_of(text::opt_view(value)) {
            Ok(reason) => r is Ok && text::opt_string(r->Ok_0) == reason,
            Err(message) => r is Err && r->Err_0@ == message,
        },
{
    let value = match value {
        Some(value) => text::trim(value),
        None => return Ok(None),
    };
    if value.is_empty() {
        return Ok(None);
    }
    if value.unicode_len() > MAX_GRANT_REASON_LENGTH {
        return Err("reason exceeds maximum length 512".to_string());
    }
    Ok(Some(value.to_string()))
}

/// The plan grants more than a credit to the wallet.
pub open spec fn grants_rights(entitlements: Entitlements) -> bool {
    match entitlements {
        Entitlements::NotAnArray => false,
        Entitlements::Items(items) => entitlement::has_package_right(items@),
    }
}

/// Whether the plan grants more than a credit to the wallet.
pub fn plan_has_package_rights(entitlements: &Entitlements) -> (r: bool)
    ensures
        r == grants_rights(*entitlements),
{
    match entitlements {
        Entitlements::NotAnArray => false,
        Entitlements::Items(items) => entitlement::entitlements_include_package_rights(items),
    }
}

/// The last `width` digits of `n` in decimal notation, with zeros in front.
pub open spec fn padded(n: nat, width: nat) -> Seq<char>
    decreases width,
{
    if width == 0 {
        Seq::empty()
    } else {
        padded(n / 10, (width - 1) as nat).push(text::digit(n % 10))
    }
}

/// The day in UTC that a moment falls on.
pub open spec fn is_day_of(date: CivilDate, unix_secs: i64) -> bool {
    date.valid() && date.number() == unix_secs as int / DAY_SECONDS as int
}

/// The nanoseconds fit the second: there are more than a second has only in a leap second, which
/// follows the last second of a minute.
pub open spec fn is_moment(unix_secs: i64, nanos: u32) -> bool {
    nanos < 1_000_000_000 || nanos < 2_000_000_000 && unix_secs as int % 60 == 59
}

/// A moment of a day in UTC: year, month, day, hour, minute, second and microsecond, in digits
/// without anything between. A leap second is second 60 of its minute.
pub open spec fn stamp_of(date: CivilDate, unix_secs: i64, nanos: u32) -> Seq<char> {
    let second = unix_secs as int % DAY_SECONDS as int;
    padded(date.year as nat, 4) + padded(date.month as nat, 2) + padded(date.day as nat, 2)
        + padded((second / 3_600) as nat, 2) + padded((second / 60 % 60) as nat, 2) + padded(
        (second % 60 + nanos / 1_000_000_000) as nat,
        2,
    ) + padded((nanos / 1_000 % 1_000_000) as nat, 6)
}

/// A moment in UTC, as `%Y%m%d%H%M%S%6f` formats it.
pub uninterp spec fn moment_digits(unix_secs: i64, nanos: u32) -> Seq<char>;

/// Calls `DateTime::<Utc>::from_timestamp`, which gives a moment for every second in range, leap
/// seconds at the end of a minute among them, and `format` with `%Y%m%d%H%M%S%6f` on it. In a year of four digits that is the year, the month, the
/// day, the hour, the minute, the second and the microsecond in UTC, each with zeros in front; of
/// other years no more is said than that the text depends on the moment alone.
#[verifier::external_body]
fn digits_of_moment(unix_secs: i64, nanos: u32) -> (r: String)
    requires
        FIRST_DATED_SECOND <= unix_secs <= LAST_DATED_SECOND,
        is_moment(unix_secs, nanos),
    ensures
        r@ == moment_digits(unix_secs, nanos),
        forall|date: CivilDate| #[trigger]
            is_day_of(date, unix_secs) && 0 <= date.year <= 9_999 ==> r@ == stamp_of(
                date,
                unix_secs,
                nanos,
            ),
{
    let moment = chrono::DateTime::<chrono::Utc>::from_timestamp(unix_secs, nanos).unwrap();
    moment.format("%Y%m%d%H%M%S%6f").to_string()
}

/// Thirty-two lower case hexadecimal digits of a version four UUID.
pub open spec fn is_uuid_digits(s: Seq<char>) -> bool {
    &&& s.len() == 32
    &&& forall|i: int| 0 <= i < 32 ==> plan_usage_policy::is_hex_digit(#[trigger] s[i])
    &&& s[12] == '4'
}

/// Calls `Uuid::new_v4`, `simple` and `to_string`: thirty-two lower case hexadecimal digits, of which
/// the thirteenth tells the version. The others are random, or mark the variant; nothing is said of
/// them.
#[verifier::external_body]
fn random_digits() -> (r: String)
    ensures
        is_uuid_digits(r@),
{
    uuid::Uuid::new_v4().simple().to_string()
}

/// The number of an order.
pub open spec fn order_number(stamp: Seq<char>, random: Seq<char>) -> Seq<char> {
    "pg_"@ + stamp + "_"@ + random.take(12)
}

/// The number of an order: when it was made, and twelve random digits.
pub fn plan_grant_order_number(stamp: &str, random: &str) -> (r: String)
    requires
        random@.len() >= 12,
    ensures
        r@ == order_number(stamp@, random@),
{
    let mut r = text::joined("pg_", stamp);
    r.append("_");
    assert(random@.subrange(0, 12) =~= random@.take(12));
    r.append(random.substring_char(0, 12));
    r
}

/// The number of an order that is made at a moment: the digits of that moment, and twelve random
/// hexadecimal digits.
pub fn admin_plan_grant_order_no(unix_secs: i64, nanos: u32) -> (r: String)
    requires
        FIRST_DATED_SECOND <= unix_secs <= LAST_DATED_SECOND,
        is_moment(unix_secs, nanos),
    ensures
        exists|random: Seq<char>| #[trigger]
            is_uuid_digits(random) && r@ == order_number(moment_digits(unix_secs, nanos), random),
        forall|date: CivilDate| #[trigger]
            is_day_of(date, unix_secs) && 0 <= date.year <= 9_999 ==> moment_digits(
                unix_secs,
                nanos,
            ) == stamp_of(date, unix_secs, nanos),
{
    let random = random_digits();
    assert(is_uuid_digits(random@));
    plan_grant_order_number(digits_of_moment(unix_secs, nanos).as_str(), random.as_str())
}

/// Up to when an order that is made at a moment is open.
pub open spec fn order_expiry(unix_secs: i64) -> u64 {
    if unix_secs + GRANT_ORDER_SECONDS < 0 {
        0
    } else {
        (unix_secs + GRANT_ORDER_SECONDS) as u64
    }
}

/// Up to when an order that is made at a moment is open: half an hour later.
pub fn plan_grant_order_expiry(unix_secs: i64) -> (r: u64)
    requires
        unix_secs <= LAST_DATED_SECOND - GRANT_ORDER_SECONDS,
    ensures
        r == order_expiry(unix_secs),
{
    let expiry: i64 = unix_secs + GRANT_ORDER_SECONDS;
    if expiry < 0 {
        0
    } else {
        expiry as u64
    }
}

/// The order that a granted plan is booked with. It costs nothing.
#[derive(Debug)]
pub struct CreatePlanPurchaseOrderInput {
    pub user_id: String,
    pub amount_usd: Binary64,
    pub pay_amount: Binary64,
    pub pay_currency: String,
    pub exchange_rate: Binary64,
    pub payment_method: &'static str,
    pub payment_provider: &'static str,
    pub payment_channel: &'static str,
    pub order_no: String,
    pub gateway_order_id: String,
    pub product_id: String,
    pub expires_at_unix_secs: u64,
}

/// The credit that puts a granted plan into effect. It costs nothing.
#[derive(Debug)]
pub struct CreditPaymentOrderInput {
    pub order_id: String,
    pub gateway_order_id: String,
    pub pay_amount: Binary64,
    pub pay_currency: String,
    pub exchange_rate: Binary64,
    pub operator_id: Option<String>,
}

/// What the store made of an order.
#[derive(Debug)]
pub enum CreatePlanPurchaseOrderOutcome {
    Created { order_id: String },
    WalletInactive,
    ActivePlanLimitReached,
}

/// What the store made of a credit.
#[derive(Debug)]
pub enum AdminWalletMutationOutcome {
    Applied,
    NotFound,
    Invalid(String),
    Unavailable,
}

/// What an administrator is answered.
#[derive(Debug)]
pub enum GrantReply {
    BadRequest(String),
    NotFound(String),
    Conflict(String),
    DataUnavailable,
    /// The plan is granted. The grant is put on record under this event and action.
    Granted { event: &'static str, action: &'static str, target: &'static str, user_id: String },
}

/// What an administrator is answered, by its texts.
pub enum Answer {
    BadRequest(Seq<char>),
    NotFound(Seq<char>),
    Conflict(Seq<char>),
    DataUnavailable,
    Granted { event: &'static str, action: &'static str, target: &'static str, user_id: Seq<char> },
}

impl View for GrantReply {
    type V = Answer;

    open spec fn view(&self) -> Answer {
        match *self {
            GrantReply::BadRequest(detail) => Answer::BadRequest(detail@),
            GrantReply::NotFound(detail) => Answer::NotFound(detail@),
            GrantReply::Conflict(detail) => Answer::Conflict(detail@),
            GrantReply::DataUnavailable => Answer::DataUnavailable,
            GrantReply::Granted { event, action, target, user_id } => Answer::Granted {
                event,
                action,
                target,
                user_id: user_id@,
            },
        }
    }
}

/// Whether `r` is an answer that ends the request.
pub open spec fn answers<T>(r: Result<T, GrantReply>, answer: Answer) -> bool {
    r is Err && r->Err_0@ == answer
}

/// The user that a plan is to be granted to.
pub fn grant_user(request_path: &str) -> (r: Result<String, GrantReply>)
    ensures
        match user_id_of(request_path@, "/billing/grant-plan"@) {
            Some(user_id) => r is Ok && r->Ok_0@ == user_id,
            None => answers(r, Answer::BadRequest("缺少 user_id"@)),
        },
{
    match admin_user_id_from_billing_path(request_path, "/billing/grant-plan") {
        Some(user_id) => Ok(user_id),
        None => Err(GrantReply::BadRequest("缺少 user_id".to_string())),
    }
}

/// The user whose plans are listed.
pub fn listed_user(request_path: &str) -> (r: Result<String, GrantReply>)
    ensures
        match user_id_of(request_path@, "/billing/entitlements"@) {
            Some(user_id) => r is Ok && r->Ok_0@ == user_id,
            None => answers(r, Answer::BadRequest("缺少 user_id"@)),
        },
{
    match admin_user_id_from_billing_path(request_path, "/billing/entitlements") {
        Some(user_id) => Ok(user_id),
        None => Err(GrantReply::BadRequest("缺少 user_id".to_string())),
    }
}

/// A plan can be granted only to a user who exists, and listed only for one.
pub fn ensure_user_exists(found: bool) -> (r: Result<(), GrantReply>)
    ensures
        found ==> r is Ok,
        !found ==> answers(r, Answer::NotFound("用户不存在"@)),
{
    if found {
        Ok(())
    } else {
        Err(GrantReply::NotFound("用户不存在".to_string()))
    }
}

/// A plan that is asked for, and the reason.
#[derive(Debug)]
pub struct GrantRequest {
    pub plan_id: String,
    pub reason: Option<String>,
}

/// What is wrong with a request for a plan.
pub open spec fn request_fault(plan_id: Seq<char>, reason: Option<Seq<char>>) -> Option<Seq<char>> {
    if text::trimmed(plan_id).len() == 0 {
        Some("plan_id 不能为空"@)
    } else {
        match reason_of(reason) {
            Ok(_) => None,
            Err(message) => Some(message),
        }
    }
}

/// Reads the body of a request for a plan.
pub fn read_grant_body(body: RequestBody<AdminGrantUserPlanRequest>) -> (r: Result<
    GrantRequest,
    GrantReply,
>)
    ensures
        match body {
            RequestBody::Missing => answers(r, Answer::BadRequest("缺少请求体"@)),
            RequestBody::Malformed => answers(r, Answer::BadRequest("输入验证失败"@)),
            RequestBody::Read(request) => match request_fault(
                request.plan_id@,
                text::opt_string(request.reason),
            ) {
                Some(message) => answers(r, Answer::BadRequest(message)),
                None => {
                    &&& r is Ok
                    &&& r->Ok_0.plan_id@ == text::trimmed(request.plan_id@)
                    &&& text::opt_string(r->Ok_0.reason) == reason_of(
                        text::opt_string(request.reason),
                    )->Ok_0
                },
            },
        },
{
    let request = match body {
        RequestBody::Missing => return Err(GrantReply::BadRequest("缺少请求体".to_string())),
        RequestBody::Malformed => return Err(GrantReply::BadRequest("输入验证失败".to_string())),
        RequestBody::Read(request) => request,
    };
    let plan_id = text::trim(request.plan_id.as_str());
    if plan_id.is_empty() {
        return Err(GrantReply::BadRequest("plan_id 不能为空".to_string()));
    }
    match normalize_admin_grant_reason(text::as_text(&request.reason)) {
        Ok(reason) => Ok(GrantRequest { plan_id: plan_id.to_string(), reason }),
        Err(detail) => Err(GrantReply::BadRequest(detail)),
    }
}

/// The order is for this plan and user, under this number, and costs nothing.
pub open spec fn is_grant_order(
    order: CreatePlanPurchaseOrderInput,
    user_id: Seq<char>,
    plan: GrantedPlan,
    order_no: Seq<char>,
    expires_at: u64,
) -> bool {
    &&& order.user_id@ == user_id
    &&& order.amount_usd == Binary64 { bits: 0 }
    &&& order.pay_amount == Binary64 { bits: 0 }
    &&& order.pay_currency@ == plan.price_currency@
    &&& order.exchange_rate == Binary64 { bits: ONE_BITS }
    &&& order.payment_method == "admin_grant"
    &&& order.payment_provider == "admin"
    &&& order.payment_channel == "manual"
    &&& order.order_no@ == order_no
    &&& order.gateway_order_id@ == order_no
    &&& order.product_id@ == plan.id@
    &&& order.expires_at_unix_secs == expires_at
}

/// The order that a plan is granted with: the plan must exist, and grant more than a credit.
pub fn grant_order(
    user_id: &str,
    plan: Option<&GrantedPlan>,
    order_no: &str,
    expires_at_unix_secs: u64,
) -> (r: Result<CreatePlanPurchaseOrderInput, GrantReply>)
    ensures
        match plan {
            None => answers(r, Answer::NotFound("套餐不存在"@)),
            Some(plan) => if !grants_rights(plan.entitlements) {
                answers(r, Answer::BadRequest("余额包已移除，请使用钱包充值功能"@))
            } else {
                r is Ok && is_grant_order(
                    r->Ok_0,
                    user_id@,
                    *plan,
                    order_no@,
                    expires_at_unix_secs,
                )
            },
        },
{
    let plan = match plan {
        Some(plan) => plan,
        None => return Err(GrantReply::NotFound("套餐不存在".to_string())),
    };
    if !plan_has_package_rights(&plan.entitlements) {
        return Err(GrantReply::BadRequest("余额包已移除，请使用钱包充值功能".to_string()));
    }
    Ok(
        CreatePlanPurchaseOrderInput {
            user_id: user_id.to_string(),
            amount_usd: Binary64 { bits: 0 },
            pay_amount: Binary64 { bits: 0 },
            pay_currency: plan.price_currency.clone(),
            exchange_rate: Binary64 { bits: ONE_BITS },
            payment_method: "admin_grant",
            payment_provider: "admin",
            payment_channel: "manual",
            order_no: order_no.to_string(),
            gateway_order_id: order_no.to_string(),
            product_id: plan.id.clone(),
            expires_at_unix_secs,
        },
    )
}

/// The credit of an order that was created. `outcome` is none where the store is not available.
pub fn grant_credit(
    outcome: Option<CreatePlanPurchaseOrderOutcome>,
    plan: &GrantedPlan,
    order_no: &str,
    operator_id: Option<&str>,
) -> (r: Result<CreditPaymentOrderInput, GrantReply>)
    ensures
        match outcome {
            None => answers(r, Answer::DataUnavailable),
            Some(CreatePlanPurchaseOrderOutcome::WalletInactive) => answers(
                r,
                Answer::BadRequest("wallet is not active"@),
            ),
            Some(CreatePlanPurchaseOrderOutcome::ActivePlanLimitReached) => answers(
                r,
                Answer::Conflict("套餐购买限制已达到上限"@),
            ),
            Some(CreatePlanPurchaseOrderOutcome::Created { order_id }) => {
                &&& r is Ok
                &&& r->Ok_0.order_id@ == order_id@
                &&& r->Ok_0.gateway_order_id@ == order_no@
                &&& r->Ok_0.pay_amount == Binary64 { bits: 0 }
                &&& r->Ok_0.pay_currency@ == plan.price_currency@
                &&& r->Ok_0.exchange_rate == Binary64 { bits: ONE_BITS }
                &&& text::opt_string(r->Ok_0.operator_id) == text::opt_view(operator_id)
            },
        },
{
    match outcome {
        None => Err(GrantReply::DataUnavailable),
        Some(CreatePlanPurchaseOrderOutcome::WalletInactive) => Err(
            GrantReply::BadRequest("wallet is not active".to_string()),
        ),
        Some(CreatePlanPurchaseOrderOutcome::ActivePlanLimitReached) => Err(
            GrantReply::Conflict("套餐购买限制已达到上限".to_string()),
        ),
        Some(CreatePlanPurchaseOrderOutcome::Created { order_id }) => Ok(
            CreditPaymentOrderInput {
                order_id,
                gateway_order_id: order_no.to_string(),
                pay_amount: Binary64 { bits: 0 },
                pay_currency: plan.price_currency.clone(),
                exchange_rate: Binary64 { bits: ONE_BITS },
                operator_id: match operator_id {
                    Some(id) => Some(id.to_string()),
                    None => None,
                },
            },
        ),
    }
}

/// What the outcome of the credit means: the plan is in effect, or what is answered.
pub fn conclude_grant_credit(outcome: AdminWalletMutationOutcome) -> (r: Result<(), GrantReply>)
    ensures
        match outcome {
            AdminWalletMutationOutcome::Applied => r is Ok,
            AdminWalletMutationOutcome::NotFound => answers(r, Answer::DataUnavailable),
            AdminWalletMutationOutcome::Invalid(detail) => answers(r, Answer::Conflict(detail@)),
            AdminWalletMutationOutcome::Unavailable => answers(r, Answer::DataUnavailable),
        },
{
    match outcome {
        AdminWalletMutationOutcome::Applied => Ok(()),
        AdminWalletMutationOutcome::NotFound => Err(GrantReply::DataUnavailable),
        AdminWalletMutationOutcome::Invalid(detail) => Err(GrantReply::Conflict(detail)),
        AdminWalletMutationOutcome::Unavailable => Err(GrantReply::DataUnavailable),
    }
}

/// What is answered once the plan is in effect. The plans of the user are none where they cannot be
/// read.
pub fn granted_reply(entitlements_read: bool, user_id: &str) -> (r: GrantReply)
    ensures
        r@ == if entitlements_read {
            Answer::Granted {
                event: "admin_user_plan_granted",
                action: "grant_user_billing_plan",
                target: "user",
                user_id: user_id@,
            }
        } else {
            Answer::DataUnavailable
        },
{
    if entitlements_read {
        GrantReply::Granted {
            event: "admin_user_plan_granted",
            action: "grant_user_billing_plan",
            target: "user",
            user_id: user_id.to_string(),
        }
    } else {
        GrantReply::DataUnavailable
    }
}

} // verus!
