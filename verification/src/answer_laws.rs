//! What requests are answered and permits report, by what was sent and what was found.

use crate::admission;
use crate::admission::{
    AdmissionPermit, AdmissionPermitHealth, ConcurrencyPermit, HeldPermit, Supervision,
};
use crate::binary64::Binary64;
use crate::billing_laws::says_something;
use crate::billing_plan_routes;
use crate::billing_plan_routes::{PlansReply, RequestBody};
use crate::billing_plans;
use crate::cost_ledger::UsagePolicyCostReservationState;
use crate::effective_policy::EffectivePlanUsagePolicy;
use crate::error;
use crate::error::{DataLayerError, DataLayerFault, GatewayError};
use crate::plan_grants;
use crate::plan_grants::{
    AdminGrantUserPlanRequest, AdminWalletMutationOutcome, GrantReply, GrantRequest,
};
use crate::plan_usage_policy;
use crate::plan_usage_policy::{PlanUsagePolicySnapshot, PlanUsageReservationContext};
use crate::plan_windows::PlanUsageAdmissionError;
use crate::request_ledger::UsagePolicyRequestAdmissionState;
use crate::settlement;
use crate::settlement::UsageSettlementInput;
use crate::text;
use crate::text_laws;
use crate::usage_cleanup::{ManualUsageCleanupMode, ManualUsageCleanupOptions};
use crate::usage_policy;
use crate::usage_policy::{UsagePolicyFault, UsagePolicyValidationError};
use crate::wallet;
use crate::websocket_admission;
use crate::websocket_admission::ResponsesWebSocketPlanAdmissionError;
use std::sync::Arc;
use vstd::prelude::*;
use vstd::string::*;

verus! {

/// Permits stand exactly if each of them does, and may be lost exactly if one of them may: a permit of
/// this process always stands, and cannot be lost; the others are asked. Where there is no permit,
/// nothing can be lost.
pub proof fn permits_answer_for_each_of_them<D: AdmissionPermitHealth>(
    permit: AdmissionPermit<D>,
    healthy: bool,
    polled: bool,
    watched: Supervision,
    unwatched: Supervision,
    told: bool,
    untold: bool,
)
    requires
        call_ensures(AdmissionPermit::<D>::is_healthy, (&permit,), healthy),
        call_ensures(AdmissionPermit::<D>::requires_health_poll, (&permit,), polled),
        call_ensures(admission::supervision_for::<D>, (Some(&permit),), watched),
        call_ensures(admission::supervision_for::<D>, (None,), unwatched),
        call_ensures(
            websocket_admission::responses_websocket_plan_permit_is_healthy::<D>,
            (Some(&permit),),
            told,
        ),
        call_ensures(
            websocket_admission::responses_websocket_plan_permit_is_healthy::<D>,
            (None,),
            untold,
        ),
    ensures
        healthy ==> forall|i: int|
            0 <= i < permit.held().len() ==> ((#[trigger] permit.held()[i]) matches
                HeldPermit::Distributed(d) ==> call_ensures(D::is_healthy, (&*d,), true)),
        !healthy ==> exists|i: int|
            0 <= i < permit.held().len() && (#[trigger] permit.held()[i]) is Distributed
                && call_ensures(D::is_healthy, (&*permit.held()[i]->Distributed_0,), false),
        told ==> forall|i: int|
            0 <= i < permit.held().len() ==> ((#[trigger] permit.held()[i]) matches
                HeldPermit::Distributed(d) ==> call_ensures(D::is_healthy, (&*d,), true)),
        !told ==> exists|i: int|
            0 <= i < permit.held().len() && (#[trigger] permit.held()[i]) is Distributed
                && call_ensures(D::is_healthy, (&*permit.held()[i]->Distributed_0,), false),
        untold,
        polled ==> exists|i: int|
            0 <= i < permit.held().len() && (#[trigger] permit.held()[i]) is Distributed
                && call_ensures(D::requires_health_poll, (&*permit.held()[i]->Distributed_0,), true),
        !polled ==> forall|i: int|
            0 <= i < permit.held().len() ==> ((#[trigger] permit.held()[i]) matches
                HeldPermit::Distributed(d) ==> call_ensures(
                D::requires_health_poll,
                (&*d,),
                false,
            )),
        watched is Poll ==> exists|i: int|
            0 <= i < permit.held().len() && (#[trigger] permit.held()[i]) is Distributed
                && call_ensures(D::requires_health_poll, (&*permit.held()[i]->Distributed_0,), true),
        watched is RunToEnd ==> forall|i: int|
            0 <= i < permit.held().len() ==> ((#[trigger] permit.held()[i]) matches
                HeldPermit::Distributed(d) ==> call_ensures(
                D::requires_health_poll,
                (&*d,),
                false,
            )),
        unwatched is RunToEnd,
{
    assert(permit.stands(healthy));
    assert(permit.stands(told));
    assert(permit.may_be_lost(polled));
    assert(permit.may_be_lost(watched is Poll));
    if healthy || told {
        assert forall|i: int| 0 <= i < permit.held().len() implies ((#[trigger] permit.held()[i])
            matches HeldPermit::Distributed(d) ==> call_ensures(D::is_healthy, (&*d,), true)) by {
            assert(permit.held()[i].reported(true));
        }
    }
    if !healthy || !told {
        let i = choose|i: int|
            0 <= i < permit.held().len() && (#[trigger] permit.held()[i]).reported(false);
        assert(permit.held()[i] is Distributed);
    }
    if polled || watched is Poll {
        let i = choose|i: int|
            0 <= i < permit.held().len() && (#[trigger] permit.held()[i]).may_be_lost(true);
        assert(permit.held()[i] is Distributed);
    }
    if !polled || watched is RunToEnd {
        assert forall|i: int| 0 <= i < permit.held().len() implies ((#[trigger] permit.held()[i])
            matches HeldPermit::Distributed(d) ==> call_ensures(
            D::requires_health_poll,
            (&*d,),
            false,
        )) by {
            assert(permit.held()[i].may_be_lost(false));
        }
    }
}

/// Permits that were taken are held together, the local one first; permits that are combined are held
/// one list behind the other, none more and none less.
pub proof fn permits_that_are_taken_are_held<D: AdmissionPermitHealth>(
    local: Option<ConcurrencyPermit>,
    distributed: Option<D>,
    taken: Option<AdmissionPermit<D>>,
    first: AdmissionPermit<D>,
    second: AdmissionPermit<D>,
    both: Vec<AdmissionPermit<D>>,
    combined: Option<AdmissionPermit<D>>,
    count: usize,
)
    requires
        call_ensures(AdmissionPermit::<D>::from_parts, (local, distributed), taken),
        both@ == seq![first, second],
        call_ensures(AdmissionPermit::<D>::combine, (both,), combined),
        call_ensures(AdmissionPermit::<D>::permit_count, (&first,), count),
    ensures
        taken is None <==> local is None && distributed is None,
        taken is Some ==> taken->0.held().len() == (if local is Some {
            1int
        } else {
            0int
        }) + (if distributed is Some {
            1int
        } else {
            0int
        }),
        local is Some ==> taken->0.held()[0] == HeldPermit::<D>::Local(Arc::new(local->0)),
        distributed is Some ==> taken->0.held().last() == HeldPermit::Distributed(
            Arc::new(distributed->0),
        ),
        combined is Some && combined->0.held() == first.held() + second.held(),
        count == first.held().len(),
        count > 0,
{
    let all = both@;
    assert(admission::held_together(all, 2) =~= Seq::<HeldPermit<D>>::empty());
    assert(admission::held_together(all, 1) =~= second.held());
    assert(admission::held_together(all, 0) =~= first.held() + second.held());
}

/// A state has its own name, which no other state has.
pub proof fn a_state_is_told_by_its_name(
    cost: UsagePolicyCostReservationState,
    other_cost: UsagePolicyCostReservationState,
    cost_name: &'static str,
    admission: UsagePolicyRequestAdmissionState,
    other_admission: UsagePolicyRequestAdmissionState,
    admission_name: &'static str,
)
    requires
        call_ensures(UsagePolicyCostReservationState::as_str, (cost,), cost_name),
        call_ensures(UsagePolicyRequestAdmissionState::as_str, (admission,), admission_name),
    ensures
        cost is Reserved ==> cost_name@ == "reserved"@,
        cost is Finalized ==> cost_name@ == "finalized"@,
        cost is Released ==> cost_name@ == "released"@,
        admission is Active ==> admission_name@ == "active"@,
        admission is Released ==> admission_name@ == "released"@,
        cost_name@ == cost.name(),
        admission_name@ == admission.name(),
        cost.name() == other_cost.name() <==> cost == other_cost,
        admission.name() == other_admission.name() <==> admission == other_admission,
{
    reveal_strlit("reserved");
    reveal_strlit("finalized");
    reveal_strlit("released");
    reveal_strlit("active");
    assert("reserved"@[2] != "released"@[2]);
    assert("reserved"@[0] != "finalized"@[0]);
    assert("released"@[0] != "finalized"@[0]);
    assert("released"@[0] != "active"@[0]);
}

/// A cleanup without another age goes by the policy, one with another age by that; either means all
/// records that the policy means, and was not asked for by hand.
pub proof fn a_cleanup_means_what_the_policy_means<T>(
    targets: T,
    own_age: bool,
    plain: ManualUsageCleanupOptions<T>,
    other: ManualUsageCleanupOptions<T>,
    mode: ManualUsageCleanupMode,
    name: &'static str,
)
    requires
        call_ensures(ManualUsageCleanupOptions::<T>::policy, (targets,), plain),
        call_ensures(ManualUsageCleanupOptions::<T>::with_override, (own_age, targets), other),
        call_ensures(ManualUsageCleanupMode::as_str, (mode,), name),
    ensures
        plain.mode is Policy,
        plain.targets == targets,
        plain.requested_older_than_days is None,
        other.mode is OlderThanDays <==> own_age,
        other.mode is Policy <==> !own_age,
        other.targets == targets,
        other.requested_older_than_days is None,
        mode is Policy ==> name == "policy",
        mode is OlderThanDays ==> name == "older_than_days",
        mode is BeforeNow ==> name == "before_now",
{
}

/// A client whose permit was lost is told 503 and may try again; one that ran into a limit 429. A
/// connection is closed with the code and the reason that its client is told.
pub proof fn a_closed_connection_says_why(
    lost: ResponsesWebSocketPlanAdmissionError,
    limited: ResponsesWebSocketPlanAdmissionError,
    error: PlanUsageAdmissionError,
    close: (u16, &'static str),
)
    requires
        call_ensures(websocket_admission::plan_permit_loss_error, (), lost),
        call_ensures(websocket_admission::plan_limit_exceeded_error, (), limited),
        call_ensures(
            websocket_admission::responses_websocket_plan_admission_close,
            (&error,),
            close,
        ),
    ensures
        lost.status == 503,
        lost.error_type == "server_error",
        lost.code == "plan_usage_concurrency_unavailable",
        lost.close_code == 1013,
        lost.close_reason == "plan_usage_concurrency_unavailable",
        limited.status == 429,
        limited.error_type == "rate_limit_error",
        limited.code == "plan_usage_limit_exceeded",
        limited.close_code == 1013,
        limited.close_reason == "plan_usage_limit_exceeded",
        ({
            let reached = error is Rejected || (error is Runtime && error->Runtime_0 is Saturated);
            let down = error is Runtime && error->Runtime_0 is Unavailable;
            close == (
                if reached || down {
                    1013u16
                } else {
                    1011u16
                },
                if reached {
                    "plan_usage_limit_exceeded"
                } else {
                    "plan_usage_policy_unavailable"
                },
            )
        }),
{
}

/// A plan is asked for exactly by a body that can be read, names a plan and gives no reason that is too
/// long; the plan is the one that is named, without the white space around it.
pub proof fn a_grant_is_asked_for_by_naming_a_plan(
    body: RequestBody<AdminGrantUserPlanRequest>,
    r: Result<GrantRequest, GrantReply>,
)
    requires
        call_ensures(plan_grants::read_grant_body, (body,), r),
    ensures
        body is Missing ==> r is Err && r->Err_0 is BadRequest,
        body is Malformed ==> r is Err && r->Err_0 is BadRequest,
        body is Read ==> {
            let sent = body->Read_0;
            let long = sent.reason is Some && text::trimmed(sent.reason->0@).len() > 512;
            &&& r is Ok <==> says_something(sent.plan_id@) && !long
            &&& r is Err ==> r->Err_0 is BadRequest
            &&& r is Ok ==> r->Ok_0.plan_id@ == text::trimmed(sent.plan_id@)
            &&& r is Ok ==> (r->Ok_0.reason is Some <==> sent.reason is Some && says_something(
                sent.reason->0@,
            ))
            &&& r is Ok && r->Ok_0.reason is Some ==> r->Ok_0.reason->0@ == text::trimmed(
                sent.reason->0@,
            )
        },
{
    if body is Read {
        let sent = body->Read_0;
        text_laws::only_blank_texts_are_trimmed_away(sent.plan_id@);
        if sent.reason is Some {
            text_laws::only_blank_texts_are_trimmed_away(sent.reason->0@);
        }
    }
}

/// A plan that was granted is answered as such exactly if the credit was applied and the plans of the
/// user can be read; only a user who exists is granted one.
pub proof fn a_grant_is_answered_by_what_became_of_it(
    outcome: AdminWalletMutationOutcome,
    concluded: Result<(), GrantReply>,
    read: bool,
    user_id: &str,
    reply: GrantReply,
    found: bool,
    known: Result<(), GrantReply>,
)
    requires
        call_ensures(plan_grants::conclude_grant_credit, (outcome,), concluded),
        call_ensures(plan_grants::granted_reply, (read, user_id), reply),
        call_ensures(plan_grants::ensure_user_exists, (found,), known),
    ensures
        concluded is Ok <==> outcome is Applied,
        outcome is Invalid ==> concluded->Err_0 is Conflict && concluded->Err_0->Conflict_0@
            == outcome->Invalid_0@,
        outcome is NotFound || outcome is Unavailable ==> concluded->Err_0 is DataUnavailable,
        reply is Granted <==> read,
        read ==> reply->user_id@ == user_id@,
        !read ==> reply is DataUnavailable,
        known is Ok <==> found,
        !found ==> known->Err_0 is NotFound,
{
    assert(reply@ is Granted <==> reply is Granted);
    assert(reply@ is DataUnavailable <==> reply is DataUnavailable);
}

/// Whether a plan is on sale is what the body says; a body that is missing or malformed changes
/// nothing.
pub proof fn a_status_is_what_the_body_says(body: RequestBody<bool>, r: Result<bool, PlansReply>)
    requires
        call_ensures(billing_plan_routes::read_status_body, (body,), r),
    ensures
        r is Ok <==> body is Read,
        r is Ok ==> r->Ok_0 == body->Read_0,
        r is Err ==> r->Err_0 is BadRequest,
{
}

/// What a plan does not say is taken as usual: it is priced in yuan and on sale, one copy is held at a
/// time, and purchases are counted within its period; and a week starts on Monday.
pub proof fn what_is_not_said_is_taken_as_usual(
    currency: String,
    enabled: bool,
    copies: i64,
    scope: String,
    first_day: u8,
)
    requires
        call_ensures(billing_plans::default_price_currency, (), currency),
        call_ensures(billing_plans::default_enabled, (), enabled),
        call_ensures(billing_plans::default_max_active_per_user, (), copies),
        call_ensures(billing_plans::default_purchase_limit_scope, (), scope),
        call_ensures(usage_policy::default_week_start, (), first_day),
    ensures
        currency@ == "CNY"@,
        enabled,
        copies == 1,
        scope@ == "active_period"@,
        first_day == 1,
{
}

/// The usage of a request is settled exactly if it was completed or cancelled, and void otherwise; what
/// is charged is the actual cost, or nothing where that is negative.
pub proof fn usage_that_was_done_is_settled(
    status: &str,
    billing: &'static str,
    input: UsageSettlementInput,
    cost: Binary64,
)
    requires
        call_ensures(settlement::settlement_billing_status_for_usage_status, (status,), billing),
        call_ensures(settlement::settlement_billable_cost_usd, (&input,), cost),
        input.actual_total_cost_usd.finite(),
    ensures
        billing@ == "settled"@ <==> status@ == "completed"@ || status@ == "cancelled"@,
        billing@ == "void"@ <==> !(status@ == "completed"@ || status@ == "cancelled"@),
        input.actual_total_cost_usd.value() >= 0 ==> cost.value()
            == input.actual_total_cost_usd.value(),
        input.actual_total_cost_usd.value() < 0 ==> cost.value() == 0,
{
    reveal_strlit("settled");
    reveal_strlit("void");
    assert("settled"@[0] != "void"@[0]);
    wallet::lemma_at_least_zero(input.actual_total_cost_usd);
}

/// The policy that a request was admitted under is kept exactly if it limits cost, as it was and for
/// whom it was at that moment; and a reservation under it has the token that it is given.
pub proof fn a_policy_is_kept_as_it_was_at_admission(
    subject_id: &str,
    policy: EffectivePlanUsagePolicy,
    admitted_at: u64,
    kept: Option<PlanUsagePolicySnapshot>,
    token: String,
    reservation: PlanUsageReservationContext,
)
    requires
        call_ensures(
            PlanUsagePolicySnapshot::for_admission,
            (subject_id, policy, admitted_at),
            kept,
        ),
        kept is Some ==> call_ensures(
            PlanUsagePolicySnapshot::reservation_with_token,
            (&kept->0, token),
            reservation,
        ),
    ensures
        kept is Some <==> policy.cost_rules@.len() > 0,
        kept is Some ==> {
            &&& kept->0.subject() == subject_id@
            &&& kept->0.spec_policy() == policy
            &&& kept->0.admitted_at() == admitted_at
            &&& reservation.subject() == subject_id@
            &&& reservation.spec_policy() == policy
            &&& reservation.admitted_at() == admitted_at
            &&& reservation.spec_token() == token@
        },
{
}

/// Cost limits hold exactly where the usage runtime is enabled.
pub proof fn cost_limits_need_the_usage_runtime(enabled: bool, r: Result<(), GatewayError>)
    requires
        call_ensures(
            plan_usage_policy::ensure_cost_policy_usage_runtime_enabled,
            (enabled,),
            r,
        ),
    ensures
        r is Ok <==> enabled,
        r is Err ==> r->Err_0 is Internal,
{
    assert(r is Err ==> (r->Err_0@ is Internal <==> r->Err_0 is Internal));
}

/// A check fails exactly where something is wrong, and says what is.
pub proof fn a_check_fails_exactly_where_something_is_wrong<T>(
    stored: Result<T, DataLayerError>,
    fault: Option<DataLayerFault>,
    outcome: Result<T, DataLayerError>,
    expected: Result<T, DataLayerFault>,
    checked: Result<T, UsagePolicyValidationError>,
    policy_fault: Option<UsagePolicyFault>,
    billed: Result<T, String>,
    message: Option<Seq<char>>,
)
    requires
        error::fails_with(stored, fault),
        error::is_outcome(outcome, expected),
        usage_policy::faults_with(checked, policy_fault),
        billing_plans::fails_with(billed, message),
    ensures
        stored is Err <==> fault is Some,
        stored is Err ==> stored->Err_0@ == fault->0,
        outcome is Ok <==> expected is Ok,
        outcome is Ok ==> outcome->Ok_0 == expected->Ok_0,
        outcome is Err ==> outcome->Err_0@ == expected->Err_0,
        checked is Err <==> policy_fault is Some,
        checked is Err ==> checked->Err_0@ == policy_fault->0,
        billed is Err <==> message is Some,
        billed is Err ==> billed->Err_0@ == message->0,
{
}

} // verus!
