//! What granting a plan by hand comes to, by what was sent and what the stores say.

use crate::billing_laws::{are_slashes, is_one_segment, says_something};
use crate::billing_plan_routes::RequestBody;
use crate::calendar::CivilDate;
use crate::entitlement;
use crate::entitlement::Entitlements;
use crate::path;
use crate::plan_grant_flow::{GrantAction, GrantEvent, PlanGrant};
use crate::plan_grants;
use crate::plan_grants::{
    CreatePlanPurchaseOrderInput, CreatePlanPurchaseOrderOutcome, CreditPaymentOrderInput,
    GrantReply, GrantedPlan,
};
use crate::plan_usage_policy::GatewayControlDecision;
use crate::text;
use crate::text_laws;
use vstd::prelude::*;
use vstd::string::*;

verus! {

/// Every user can be named: a request under a path of a user, with or without slashes behind it, is for
/// that user.
pub proof fn every_user_can_be_named(id: Seq<char>, suffix: Seq<char>, slashes: Seq<char>)
    requires
        is_one_segment(id),
        are_slashes(slashes),
        suffix.len() > 0,
        suffix.last() != '/',
    ensures
        plan_grants::user_id_of("/api/admin/users/"@ + id + suffix + slashes, suffix) == Some(id),
{
    let prefix = "/api/admin/users/"@;
    let whole = prefix + id + suffix;
    assert(whole.last() == suffix.last());
    text_laws::slashes_behind_a_path_do_not_matter(whole, slashes);
    assert(whole =~= prefix + (id + suffix));
    text_laws::a_text_is_made_of_its_parts(whole, prefix, id + suffix);
    text_laws::a_text_is_made_of_its_parts(id + suffix, suffix, id);
    text_laws::slashes_behind_a_path_do_not_matter(id, Seq::empty());
    assert(id + Seq::<char>::empty() =~= id);
    assert(!id.contains('/')) by {
        if id.contains('/') {
            let i = choose|i: int| 0 <= i < id.len() && id[i] == '/';
            assert(id[i] == '/');
        }
    }
}

/// A request is for a user only under a path of that user.
pub proof fn only_its_path_names_a_user(request_path: Seq<char>, suffix: Seq<char>)
    ensures
        plan_grants::user_id_of(request_path, suffix) matches Some(id) ==> {
            &&& is_one_segment(id)
            &&& exists|slashes: Seq<char>| #[trigger]
                are_slashes(slashes) && path::unslashed(request_path) == "/api/admin/users/"@ + (id
                    + slashes + suffix)
        },
{
    let p = path::unslashed(request_path);
    let prefix = "/api/admin/users/"@;
    let rest = path::behind(p, prefix);
    if plan_grants::user_id_of(request_path, suffix) is Some {
        let ahead = path::ahead(rest->0, suffix)->0;
        text_laws::a_text_is_made_of_its_parts(p, prefix, rest->0);
        text_laws::a_text_is_made_of_its_parts(rest->0, suffix, ahead);
        let id = path::unslashed(ahead);
        text_laws::only_trailing_slashes_are_taken(ahead);
        let slashes = ahead.skip(id.len() as int);
        assert(are_slashes(slashes)) by {
            assert forall|i: int| 0 <= i < slashes.len() implies #[trigger] slashes[i] == '/' by {
                assert(ahead[id.len() + i] == '/');
            }
        }
        assert(ahead =~= id + slashes);
        assert(p == prefix + (id + slashes + suffix));
        assert forall|i: int| 0 <= i < id.len() implies #[trigger] id[i] != '/' by {
            assert(!id.contains('/'));
        }
    }
}

/// A reason is taken without the white space around it, exactly if it is then at most 512 characters
/// long; one that says nothing is none.
pub proof fn a_reason_is_taken_if_it_is_not_too_long(
    value: Option<&str>,
    r: Result<Option<String>, String>,
)
    requires
        call_ensures(plan_grants::normalize_admin_grant_reason, (value,), r),
    ensures
        r is Ok <==> (value is Some ==> text::trimmed(value->0@).len() <= 512),
        r is Ok ==> (r->Ok_0 is Some <==> value is Some && says_something(value->0@)),
        r is Ok && r->Ok_0 is Some ==> r->Ok_0->0@ == text::trimmed(value->0@),
        r is Err ==> r->Err_0@ == "reason exceeds maximum length 512"@,
{
    if value is Some {
        text_laws::only_blank_texts_are_trimmed_away(value->0@);
    }
}

/// The administrator on record is the one who was told from the request.
pub proof fn the_operator_is_the_administrator(
    decision: Option<&GatewayControlDecision>,
    r: Option<String>,
)
    requires
        call_ensures(plan_grants::admin_user_billing_operator_id, (decision,), r),
    ensures
        r is Some <==> decision is Some && decision->0.admin_principal is Some,
        r is Some ==> r->0@ == decision->0.admin_principal->0.user_id@,
{
}

/// A plan grants a right exactly if one of its entitlements is a daily quota, a membership or a usage
/// policy.
pub proof fn a_plan_grants_a_right_by_its_entitlements(entitlements: Entitlements, r: bool)
    requires
        call_ensures(plan_grants::plan_has_package_rights, (&entitlements,), r),
    ensures
        r <==> entitlements is Items && exists|i: int|
            #![trigger entitlements->Items_0@[i]]
            0 <= i < entitlements->Items_0@.len() && (entitlements->Items_0@[i].kind() == Some(
                "daily_quota"@,
            ) || entitlements->Items_0@[i].kind() == Some("membership_group"@)
                || entitlements->Items_0@[i].kind() == Some("usage_policy"@)),
        r == plan_grants::grants_rights(entitlements),
{
    if r {
        let items = entitlements->Items_0@;
        let i = choose|i: int|
            0 <= i < items.len() && entitlement::is_package_right(#[trigger] items[i]);
        assert(entitlement::is_package_right(items[i]));
    } else if entitlements is Items {
        let items = entitlements->Items_0@;
        assert forall|i: int| 0 <= i < items.len() implies !entitlement::is_package_right(
            #[trigger] items[i],
        ) by {}
    }
}

/// Ten to the `k`.
pub open spec fn power_of_ten(k: nat) -> nat
    decreases k,
{
    if k == 0 {
        1
    } else {
        10 * power_of_ten((k - 1) as nat)
    }
}

/// A number is written with as many digits as asked for: its last ones, zeros in front.
pub proof fn padded_numbers_have_their_digits(n: nat, width: nat)
    ensures
        plan_grants::padded(n, width).len() == width,
        forall|i: int|
            0 <= i < width ==> 48 <= #[trigger] plan_grants::padded(n, width)[i] as int <= 57,
        text_laws::number_of_digits(plan_grants::padded(n, width)) == n % power_of_ten(width),
    decreases width,
{
    if width > 0 {
        let w = (width - 1) as nat;
        padded_numbers_have_their_digits(n / 10, w);
        let s = plan_grants::padded(n, width);
        assert(text::digit(n % 10) as int == 48 + n % 10);
        assert(s.drop_last() =~= plan_grants::padded(n / 10, w));
        let p = power_of_ten(w) as int;
        lemma_power_of_ten_positive(w);
        vstd::arithmetic::div_mod::lemma_mod_breakdown(n as int, 10, p);
        assert(n as int % (10 * p) == 10 * ((n as int / 10) % p) + n as int % 10);
    }
}

proof fn lemma_power_of_ten_positive(k: nat)
    ensures
        power_of_ten(k) > 0,
    decreases k,
{
    if k > 0 {
        lemma_power_of_ten_positive((k - 1) as nat);
    }
}

proof fn lemma_parts_of_stamp(
    year: Seq<char>,
    month: Seq<char>,
    day: Seq<char>,
    hour: Seq<char>,
    minute: Seq<char>,
    second: Seq<char>,
    micros: Seq<char>,
)
    requires
        year.len() == 4,
        month.len() == 2,
        day.len() == 2,
        hour.len() == 2,
        minute.len() == 2,
        second.len() == 2,
        micros.len() == 6,
    ensures
        ({
            let s = year + month + day + hour + minute + second + micros;
            &&& s.len() == 20
            &&& s.subrange(0, 4) == year
            &&& s.subrange(4, 6) == month
            &&& s.subrange(6, 8) == day
            &&& s.subrange(8, 10) == hour
            &&& s.subrange(10, 12) == minute
            &&& s.subrange(12, 14) == second
            &&& s.subrange(14, 20) == micros
        }),
{
    let s = year + month + day + hour + minute + second + micros;
    assert(s.subrange(0, 4) =~= year);
    assert(s.subrange(4, 6) =~= month);
    assert(s.subrange(6, 8) =~= day);
    assert(s.subrange(8, 10) =~= hour);
    assert(s.subrange(10, 12) =~= minute);
    assert(s.subrange(12, 14) =~= second);
    assert(s.subrange(14, 20) =~= micros);
}

proof fn lemma_microseconds(nanos: u32)
    ensures
        nanos / 1_000 % 1_000_000 == (nanos % 1_000_000_000) / 1_000,
        nanos / 1_000 % 1_000_000 < 1_000_000,
{
}

/// The digits of a moment are four for the year, two each for the month, the day, the hour, the minute
/// and the second, and six for the microsecond, in this order. A leap second counts one second more.
pub proof fn a_stamp_has_the_digits_of_its_moment(date: CivilDate, unix_secs: i64, nanos: u32)
    requires
        0 <= date.year <= 9_999,
        date.month <= 12,
        date.day <= 31,
        nanos < 2_000_000_000,
    ensures
        ({
            let s = plan_grants::stamp_of(date, unix_secs, nanos);
            let second = unix_secs as int % 86_400;
            &&& s.len() == 20
            &&& text_laws::number_of_digits(s.subrange(0, 4)) == date.year
            &&& text_laws::number_of_digits(s.subrange(4, 6)) == date.month
            &&& text_laws::number_of_digits(s.subrange(6, 8)) == date.day
            &&& text_laws::number_of_digits(s.subrange(8, 10)) == second / 3_600
            &&& text_laws::number_of_digits(s.subrange(10, 12)) == second / 60 % 60
            &&& text_laws::number_of_digits(s.subrange(12, 14)) == if nanos >= 1_000_000_000 {
                second % 60 + 1
            } else {
                second % 60
            }
            &&& text_laws::number_of_digits(s.subrange(14, 20)) == (nanos % 1_000_000_000) / 1_000
        }),
{
    let second = unix_secs as int % 86_400;
    let year = plan_grants::padded(date.year as nat, 4);
    let month = plan_grants::padded(date.month as nat, 2);
    let day = plan_grants::padded(date.day as nat, 2);
    let hour = plan_grants::padded((second / 3_600) as nat, 2);
    let minute = plan_grants::padded((second / 60 % 60) as nat, 2);
    let leap = nanos as int / 1_000_000_000;
    let sec = plan_grants::padded((second % 60 + leap) as nat, 2);
    let micros = plan_grants::padded((nanos / 1_000 % 1_000_000) as nat, 6);
    lemma_microseconds(nanos);
    padded_numbers_have_their_digits(date.year as nat, 4);
    padded_numbers_have_their_digits(date.month as nat, 2);
    padded_numbers_have_their_digits(date.day as nat, 2);
    padded_numbers_have_their_digits((second / 3_600) as nat, 2);
    padded_numbers_have_their_digits((second / 60 % 60) as nat, 2);
    padded_numbers_have_their_digits((second % 60 + leap) as nat, 2);
    padded_numbers_have_their_digits((nanos / 1_000 % 1_000_000) as nat, 6);
    assert(power_of_ten(2) == 100 && power_of_ten(4) == 10_000 && power_of_ten(6) == 1_000_000)
        by {
        reveal_with_fuel(power_of_ten, 7);
    }
    assert(0 <= second < 86_400);
    assert(0 <= second / 3_600 < 24 && 0 <= second / 60 % 60 < 60 && 0 <= second % 60 < 60);
    assert(0 <= leap <= 1);
    let s = plan_grants::stamp_of(date, unix_secs, nanos);
    assert(s == year + month + day + hour + minute + sec + micros);
    lemma_parts_of_stamp(year, month, day, hour, minute, sec, micros);
}

/// The number of an order is made of its stamp and of the first twelve of the random digits; an
/// order is open for half an hour, but never up to a moment before 1970.
pub proof fn an_order_has_its_number_and_half_an_hour(
    stamp: &str,
    random: &str,
    number: String,
    unix_secs: i64,
    expiry: u64,
)
    requires
        call_ensures(plan_grants::plan_grant_order_number, (stamp, random), number),
        call_ensures(plan_grants::plan_grant_order_expiry, (unix_secs,), expiry),
        random@.len() >= 12,
        unix_secs <= 8_210_266_876_799 - 1_800,
    ensures
        number@ == "pg_"@ + stamp@ + "_"@ + random@.subrange(0, 12),
        unix_secs + 30 * 60 >= 0 ==> expiry == unix_secs + 30 * 60,
        unix_secs + 30 * 60 < 0 ==> expiry == 0,
{
    assert(random@.take(12) =~= random@.subrange(0, 12));
}

/// A plan that is there and grants a right is ordered for the user: under the number and up to the
/// moment that were given, for nothing, in the currency of the plan. A plan that is not there, and one
/// that grants no right, is not ordered.
pub proof fn an_order_is_for_the_plan_and_costs_nothing(
    user_id: &str,
    plan: Option<&GrantedPlan>,
    order_no: &str,
    expires_at: u64,
    r: Result<CreatePlanPurchaseOrderInput, GrantReply>,
)
    requires
        call_ensures(plan_grants::grant_order, (user_id, plan, order_no, expires_at), r),
    ensures
        r is Ok <==> plan is Some && plan_grants::grants_rights(plan->0.entitlements),
        plan is None ==> r->Err_0 is NotFound,
        plan is Some && r is Err ==> r->Err_0 is BadRequest,
        r is Ok ==> {
            let order = r->Ok_0;
            &&& order.user_id@ == user_id@
            &&& order.product_id@ == plan->0.id@
            &&& order.pay_currency@ == plan->0.price_currency@
            &&& order.order_no@ == order_no@
            &&& order.gateway_order_id@ == order_no@
            &&& order.expires_at_unix_secs == expires_at
            &&& order.amount_usd.bits == 0
            &&& order.pay_amount.bits == 0
            &&& order.exchange_rate.bits == 0x3ff0_0000_0000_0000
            &&& order.payment_method == "admin_grant"
            &&& order.payment_provider == "admin"
            &&& order.payment_channel == "manual"
        },
{
    if plan is None {
        assert(r->Err_0@ is NotFound);
    }
    if plan is Some && r is Err {
        assert(r->Err_0@ is BadRequest);
    }
}

/// An order that was made is credited, for nothing, in the currency of the plan and on behalf of the
/// administrator; every other outcome ends the grant.
pub proof fn only_an_order_that_was_made_is_credited(
    outcome: Option<CreatePlanPurchaseOrderOutcome>,
    plan: GrantedPlan,
    order_no: &str,
    operator: Option<&str>,
    r: Result<CreditPaymentOrderInput, GrantReply>,
)
    requires
        call_ensures(plan_grants::grant_credit, (outcome, &plan, order_no, operator), r),
    ensures
        r is Ok <==> outcome is Some && outcome->0 is Created,
        r is Ok ==> {
            let credit = r->Ok_0;
            &&& credit.order_id@ == outcome->0->order_id@
            &&& credit.gateway_order_id@ == order_no@
            &&& credit.pay_amount.bits == 0
            &&& credit.pay_currency@ == plan.price_currency@
            &&& credit.exchange_rate.bits == 0x3ff0_0000_0000_0000
            &&& credit.operator_id is Some <==> operator is Some
            &&& operator is Some ==> credit.operator_id->0@ == operator->0@
        },
        outcome is None ==> r->Err_0 is DataUnavailable,
        outcome is Some && outcome->0 is WalletInactive ==> r->Err_0 is BadRequest,
        outcome is Some && outcome->0 is ActivePlanLimitReached ==> r->Err_0 is Conflict,
{
    if r is Err {
        assert(r->Err_0@ is DataUnavailable <==> r->Err_0 is DataUnavailable);
    }
}

/// The course of a grant: a path names the user, who must exist; the body names the plan, which must
/// exist and grant a right; the order is made for that user and that plan, credited under its own id,
/// and the plans of that user are read in the end. The user stays the same from the first step to the
/// answer, and so does the reason up to the order.
pub proof fn a_grant_goes_from_the_user_to_the_credit(
    before: PlanGrant,
    event: GrantEvent,
    after: PlanGrant,
    action: GrantAction,
)
    requires
        before.wf(),
        before.expects(event),
        before.led_to(event, &after, action),
    ensures
        action is Reply <==> after.stage is Done,
        !(action is Reply) ==> match event {
            GrantEvent::Begin { .. } => after.stage is User,
            GrantEvent::User { .. } => after.stage is Body,
            GrantEvent::Body(_) => after.stage is Plan,
            GrantEvent::Plan { .. } => after.stage is Order,
            GrantEvent::Order(_) => after.stage is Credit,
            _ => after.stage is Entitlements,
        },
        event matches GrantEvent::Begin { path } && plan_grants::user_id_of(
            path@,
            "/billing/grant-plan"@,
        ) is None ==> action->Reply_0@ is BadRequest,
        event matches GrantEvent::Plan { plan, .. } ==> {
            &&& plan is None ==> action->Reply_0@ is NotFound
            &&& plan is Some && action is Reply ==> action->Reply_0@ is BadRequest
        },
        event matches GrantEvent::Order(outcome) ==> {
            &&& outcome is None ==> action->Reply_0@ is DataUnavailable
            &&& outcome is Some && outcome->0 is WalletInactive ==> action->Reply_0@ is BadRequest
            &&& outcome is Some && outcome->0 is ActivePlanLimitReached ==> action->Reply_0@
                is Conflict
        },
        event matches GrantEvent::Credit(outcome) && (outcome is NotFound || outcome
            is Unavailable) ==> action->Reply_0@ is DataUnavailable,
        event matches GrantEvent::Begin { path } ==> {
            let id = plan_grants::user_id_of(path@, "/billing/grant-plan"@);
            &&& id is Some <==> action is FindUser
            &&& id is Some ==> action->FindUser_user_id@ == id->0 && after.user_id@ == id->0
        },
        event matches GrantEvent::User { found } ==> (found <==> action is ReadBody) && (
        !found ==> action->Reply_0@ is NotFound) && (found ==> after.user_id@ == before.user_id@),
        event matches GrantEvent::Body(body) ==> {
            let request = body->Read_0;
            let sound = body is Read && says_something(request.plan_id@) && (request.reason is Some
                ==> text::trimmed(request.reason->0@).len() <= 512);
            &&& sound <==> action is FindPlan
            &&& !sound ==> action->Reply_0@ is BadRequest
            &&& sound ==> {
                &&& action->plan_id@ == text::trimmed(request.plan_id@)
                &&& after.user_id@ == before.user_id@
                &&& after.reason is Some <==> request.reason is Some && says_something(
                    request.reason->0@,
                )
                &&& after.reason is Some ==> after.reason->0@ == text::trimmed(request.reason->0@)
            }
        },
        event matches GrantEvent::Plan { plan, order_no, expires_at_unix_secs } ==> {
            let ordered = plan is Some && plan_grants::grants_rights(plan->0.entitlements);
            &&& ordered <==> action is CreateOrder
            &&& ordered ==> {
                &&& action->order.user_id@ == before.user_id@
                &&& action->order.product_id@ == plan->0.id@
                &&& action->order.order_no@ == order_no@
                &&& action->order.gateway_order_id@ == order_no@
                &&& action->order.expires_at_unix_secs == expires_at_unix_secs
                &&& action->order.amount_usd.bits == 0
                &&& action->order.pay_amount.bits == 0
                &&& action->order.pay_currency@ == plan->0.price_currency@
                &&& text::opt_string(action->reason) == text::opt_string(before.reason)
                &&& after.user_id@ == before.user_id@
                &&& after.order_no@ == order_no@
                &&& after.plan == plan
            }
        },
        event matches GrantEvent::Order(outcome) ==> {
            let made = outcome is Some && outcome->0 is Created;
            &&& made <==> action is CreditOrder
            &&& made ==> {
                let credit = action->CreditOrder_0;
                &&& credit.order_id@ == outcome->0->order_id@
                &&& credit.gateway_order_id@ == before.order_no@
                &&& credit.pay_amount.bits == 0
                &&& credit.pay_currency@ == before.plan->0.price_currency@
                &&& text::opt_string(credit.operator_id) == text::opt_string(before.operator_id)
                &&& after.user_id@ == before.user_id@
            }
        },
        event matches GrantEvent::Credit(outcome) ==> {
            &&& outcome is Applied <==> action is ReadEntitlements
            &&& outcome is Applied ==> action->ReadEntitlements_user_id@ == before.user_id@
                && after.user_id@ == before.user_id@
            &&& outcome is Invalid ==> action->Reply_0@ is Conflict
                && action->Reply_0@->Conflict_0 == outcome->Invalid_0@
        },
        event matches GrantEvent::Entitlements { read } ==> {
            &&& action is Reply
            &&& read <==> action->Reply_0@ is Granted
            &&& read ==> action->Reply_0@->user_id == before.user_id@
            &&& !read ==> action->Reply_0@ is DataUnavailable
        },
{
    match event {
        GrantEvent::Body(RequestBody::Read(request)) => {
            text_laws::only_blank_texts_are_trimmed_away(request.plan_id@);
            if request.reason is Some {
                text_laws::only_blank_texts_are_trimmed_away(request.reason->0@);
            }
        },
        _ => {},
    }
}

} // verus!
