//! What is asked of the ledgers and of the runtime state for a request, and what their answers mean.

use crate::binary64;
use crate::binary64::Binary64;
use crate::cost_ledger::{ReconcileUsagePolicyCostInput, ReserveUsagePolicyCostOutcome};
use crate::effective_policy::{
    EffectiveCostRule, EffectivePlanUsagePolicy, EffectiveRequestRule,
};
use crate::error::{GatewayError, GatewayFault, RuntimeSemaphoreError};
use crate::ledger_request_laws;
use crate::plan_admission_flow;
use crate::plan_admission_flow::{
    AdmissionAction, AdmissionEvent, Decision, PlanAdmission, Refusal, UsageLimitCheck,
};
use crate::plan_usage_policy;
use crate::plan_usage_policy::{
    CostReservationRequest, CostReservationStart, GatewayControlAuthContext,
    GatewayControlDecision, PlanUsageCostReservationOutcome, PlanUsagePolicySnapshot,
    PlanUsageReservationContext,
};
use crate::plan_windows;
use crate::plan_windows::{
    CostPlacement, Counter, DurableRequestRule, PolicyLimit, RuntimeCostRule,
};
use crate::request_ledger::{ReserveUsagePolicyRequestInput, ReserveUsagePolicyRequestOutcome};
use crate::text;
use vstd::prelude::*;
use vstd::string::*;

verus! {

/// A plan limits exactly the requests on public routes whose sender is known, is not exempt and has no
/// key that stands alone.
pub proof fn plans_limit_known_senders_on_public_routes(
    decision: GatewayControlDecision,
    r: Option<&GatewayControlAuthContext>,
)
    requires
        call_ensures(plan_usage_policy::plan_usage_auth_context, (&decision,), r),
    ensures
        r is Some <==> {
            &&& decision.route_class is Some
            &&& decision.route_class->0@ == "ai_public"@
            &&& decision.auth_context is Some
            &&& !decision.auth_context->0.admin_bypass_limits
            &&& !decision.auth_context->0.api_key_is_standalone
        },
        r is Some ==> *r->0 == decision.auth_context->0,
        r is Some <==> plan_usage_policy::limited_sender(decision) is Some,
        r is Some ==> plan_usage_policy::limited_sender(decision)->0 == *r->0,
{
}

/// The cost of a request is reserved exactly if a plan limits it and has a rule on cost, and then for
/// the sender; that fails where the runtime cannot settle costs in the end.
pub proof fn cost_is_reserved_where_a_plan_limits_it(
    decision: GatewayControlDecision,
    policy: EffectivePlanUsagePolicy,
    enabled: bool,
    r: Result<CostReservationStart, GatewayError>,
)
    requires
        call_ensures(
            plan_usage_policy::start_plan_usage_policy_cost,
            (&decision, &policy, enabled),
            r,
        ),
    ensures
        ({
            let limited = plan_usage_policy::limited_sender(decision) is Some
                && policy.cost_rules@.len() > 0;
            &&& r is Ok <==> !limited || enabled
            &&& r is Ok ==> (r->Ok_0 is Estimate <==> limited)
            &&& limited && enabled ==> r->Ok_0->user_id@ == plan_usage_policy::limited_sender(
                decision,
            )->0.user_id@
        }),
{
}

/// A reservation is used only for the subject that it was made for, and under the policy of the moment
/// of admission.
pub proof fn a_reservation_serves_its_own_subject(
    decision: GatewayControlDecision,
    reservation: PlanUsageReservationContext,
    snapshot: PlanUsagePolicySnapshot,
    enabled: bool,
    by_reservation: Result<CostReservationStart, GatewayError>,
    by_snapshot: Result<CostReservationStart, GatewayError>,
    without: Result<CostReservationStart, GatewayError>,
)
    requires
        call_ensures(
            plan_usage_policy::reserve_admitted_http_plan_usage_policy_cost,
            (&decision, Some(&reservation), enabled),
            by_reservation,
        ),
        call_ensures(
            plan_usage_policy::reserve_admitted_plan_usage_policy_cost,
            (&decision, Some(&snapshot), enabled),
            by_snapshot,
        ),
        call_ensures(
            plan_usage_policy::reserve_admitted_http_plan_usage_policy_cost,
            (&decision, None, enabled),
            without,
        ),
    ensures
        ({
            let sender = plan_usage_policy::limited_sender(decision);
            &&& without is Ok && without->Ok_0 is NotRequired
            &&& sender is None ==> by_reservation is Ok && by_reservation->Ok_0 is NotRequired
                && by_snapshot is Ok && by_snapshot->Ok_0 is NotRequired
            &&& sender is Some && reservation.subject() != sender->0.user_id@
                ==> by_reservation is Err
            &&& sender is Some && snapshot.subject() != sender->0.user_id@ ==> by_snapshot is Err
            &&& sender is Some && reservation.subject() == sender->0.user_id@ ==> {
                let limited = reservation.spec_policy().cost_rules@.len() > 0;
                &&& by_reservation is Ok <==> !limited || enabled
                &&& by_reservation is Ok ==> (by_reservation->Ok_0 is Estimate <==> limited)
                &&& limited && enabled ==> by_reservation->Ok_0->user_id@ == sender->0.user_id@
            }
            &&& sender is Some && snapshot.subject() == sender->0.user_id@ ==> {
                let limited = snapshot.spec_policy().cost_rules@.len() > 0;
                &&& by_snapshot is Ok <==> !limited || enabled
                &&& by_snapshot is Ok ==> (by_snapshot->Ok_0 is Estimate <==> limited)
                &&& limited && enabled ==> by_snapshot->Ok_0->user_id@ == sender->0.user_id@
            }
        }),
{
}

proof fn lemma_placing_fails(
    rules: Seq<EffectiveCostRule>,
    from: nat,
    placed: Seq<CostPlacement>,
    admitted_at: u64,
    zone: Option<Seq<char>>,
)
    ensures
        plan_usage_policy::placed_rules(rules, from, placed, admitted_at, zone) is Ok
            <==> forall|i: int|
            from <= i < rules.len() ==> plan_windows::placement(
                (#[trigger] rules[i]).window,
                rules[i].entitlement_period,
                admitted_at,
                zone,
            ) is Ok,
    decreases rules.len() - from,
{
    if from < rules.len() {
        let rule = rules[from as int];
        match plan_windows::cost_placement(rule, admitted_at, zone) {
            Ok(p) => {
                lemma_placing_fails(rules, from + 1, placed.push(p), admitted_at, zone);
            },
            Err(_) => {
                assert(plan_windows::placement(
                    rules[from as int].window,
                    rules[from as int].entitlement_period,
                    admitted_at,
                    zone,
                ) is Err);
            },
        }
    }
}

proof fn lemma_latest(placed: Seq<CostPlacement>, count: nat, moment: u64)
    requires
        count <= placed.len(),
    ensures
        ({
            let latest = plan_usage_policy::latest_influence(placed, count, moment);
            &&& latest >= moment
            &&& forall|i: int| 0 <= i < count ==> latest >= (#[trigger] placed[i]).influence_ends_at
            &&& latest == moment || exists|i: int|
                0 <= i < count && latest == (#[trigger] placed[i]).influence_ends_at
        }),
    decreases count,
{
    if count > 0 {
        lemma_latest(placed, (count - 1) as nat, moment);
        assert(placed[count - 1].influence_ends_at <= plan_usage_policy::latest_influence(
            placed,
            count,
            moment,
        ));
    }
}

/// What is asked of the ledger for the cost of a request: its cost units, for a day, in one window for
/// each rule on cost, with the limit of that rule and where the rule is placed at the moment of
/// admission. The record is kept for thirty-two days, or for as long as a window can count it if that
/// is longer. It can be asked for exactly if the cost is known and has cost units, and every rule can
/// be placed.
pub proof fn the_cost_of_a_request_is_asked_for_in_every_window(
    request_id: &str,
    user_id: &str,
    policy: EffectivePlanUsagePolicy,
    admitted_at: u64,
    token: &str,
    cost: Option<Binary64>,
    zone: Option<&str>,
    r: Result<CostReservationRequest, GatewayError>,
    k: int,
)
    requires
        call_ensures(
            plan_usage_policy::reserve_plan_usage_policy_cost_with_policy,
            (request_id, user_id, &policy, admitted_at, token, cost, zone),
            r,
        ),
        admitted_at < 0x8000_0000_0000_0000,
    ensures
        ({
            let rules = policy.cost_rules@;
            &&& r is Ok <==> {
                &&& cost is Some
                &&& binary64::nonnegative_cost_units(cost->0) is Some
                &&& forall|i: int|
                    0 <= i < rules.len() ==> plan_windows::placement(
                        (#[trigger] rules[i]).window,
                        rules[i].entitlement_period,
                        admitted_at,
                        text::opt_view(zone),
                    ) is Ok
            }
            &&& r is Ok ==> {
                let input = r->Ok_0.input;
                &&& input.request_id@ == request_id@
                &&& input.subject_id@ == user_id@
                &&& input.reservation_token@ == token@
                &&& input.admitted_at_unix_secs == admitted_at
                &&& binary64::nonnegative_cost_units(cost->0) == Some(input.reserved_cost_units)
                &&& input.reservation_expires_at_unix_secs == admitted_at + 24 * 60 * 60
                &&& input.retain_until_unix_secs >= admitted_at + 32 * 24 * 60 * 60
                &&& input.windows@.len() == rules.len()
                &&& r->Ok_0.rules@.len() == rules.len()
                &&& input.retain_until_unix_secs == admitted_at + 32 * 24 * 60 * 60 || exists|
                    i: int,
                |
                    0 <= i < rules.len() && input.retain_until_unix_secs == (
                    #[trigger] r->Ok_0.rules@[i]).influence_ends_at_unix_secs
            }
            &&& r is Ok && 0 <= k < rules.len() ==> {
                let input = r->Ok_0.input;
                let placed = plan_windows::placement(
                    rules[k].window,
                    rules[k].entitlement_period,
                    admitted_at,
                    text::opt_view(zone),
                )->Ok_0;
                let rule = r->Ok_0.rules@[k];
                &&& input.windows@[k].limit_cost_units == rules[k].limit_cost_units
                &&& input.windows@[k].starts_at_unix_secs == placed.starts_at
                &&& input.windows@[k].ends_at_unix_secs == placed.ends_at
                &&& input.windows@[k].window_id@ == rules[k].identity@ + ":"@ + text::decimal(
                    placed.starts_at as nat,
                )
                &&& rule.retry_after == placed.retry_after
                &&& rule.label == placed.label
                &&& rule.influence_ends_at_unix_secs == plan_windows::influence_end(
                    rules[k].window,
                    admitted_at,
                    placed.ends_at,
                )
                &&& input.retain_until_unix_secs >= rule.influence_ends_at_unix_secs
            }
        }),
{
    let rules = policy.cost_rules@;
    let view = text::opt_view(zone);
    lemma_placing_fails(rules, 0, Seq::empty(), admitted_at, view);
    if r is Ok {
        let placed = plan_usage_policy::placed_rules(
            rules,
            0,
            Seq::empty(),
            admitted_at,
            view,
        )->Ok_0;
        ledger_request_laws::lemma_placed_rules(
            rules,
            0,
            Seq::empty(),
            admitted_at,
            view,
            placed,
        );
        lemma_latest(
            placed,
            placed.len(),
            plan_windows::more(admitted_at, 2_764_800),
        );
        let made = r->Ok_0.rules@;
        assert(plan_usage_policy::placements(made) == placed);
        assert(made.len() == placed.len());
        assert forall|i: int| 0 <= i < made.len() implies (
        #[trigger] made[i]).influence_ends_at_unix_secs == placed[i].influence_ends_at by {
            assert(plan_usage_policy::placements(made)[i] == made[i]@);
        }
        if r->Ok_0.input.retain_until_unix_secs != admitted_at + 32 * 24 * 60 * 60 {
            let i = choose|i: int|
                0 <= i < placed.len() && r->Ok_0.input.retain_until_unix_secs == (
                #[trigger] placed[i]).influence_ends_at;
            assert(made[i].influence_ends_at_unix_secs == placed[i].influence_ends_at);
        }
        if 0 <= k < rules.len() {
            assert(plan_usage_policy::placements(made)[k] == made[k]@);
            assert(Ok::<CostPlacement, GatewayFault>(placed[k]) == plan_windows::cost_placement(
                rules[k],
                admitted_at,
                view,
            ));
        }
    }
}

/// A cost counts as reserved exactly if the ledger allowed it, and the request as rejected exactly if
/// the ledger rejected it at a window that was asked for: then with the limit that the ledger names and
/// the wait and the name of that window. Everything else is an error.
pub proof fn only_the_ledger_reserves(
    request_id: &str,
    rules: Vec<RuntimeCostRule>,
    reply: Result<Option<ReserveUsagePolicyCostOutcome>, String>,
    r: Result<PlanUsageCostReservationOutcome, GatewayError>,
)
    requires
        call_ensures(
            plan_usage_policy::conclude_plan_usage_policy_cost,
            (request_id, &rules, reply),
            r,
        ),
    ensures
        ({
            let outcome = reply->Ok_0->0;
            let answered = reply is Ok && reply->Ok_0 is Some;
            let rejected = answered && outcome is Rejected && outcome->window_index < rules@.len();
            &&& r is Ok && r->Ok_0 is Reserved <==> answered && outcome is Allowed
            &&& r is Ok && r->Ok_0 is Rejected <==> rejected
            &&& !(r is Ok && r->Ok_0 is NotRequired)
            &&& rejected ==> {
                let rule = rules@[outcome->window_index as int];
                &&& r->Ok_0->Rejected_0.metric == "actual_cost_usd"
                &&& r->Ok_0->Rejected_0.limit == PolicyLimit::CostUnits(
                    outcome->limit_cost_units,
                )
                &&& r->Ok_0->Rejected_0.retry_after == rule.retry_after
                &&& r->Ok_0->Rejected_0.window == rule.label
            }
        }),
{
    let placed = plan_usage_policy::placements(rules@);
    assert(placed.len() == rules@.len());
    if reply is Ok && reply->Ok_0 is Some && reply->Ok_0->0 is Rejected {
        let at = reply->Ok_0->0->window_index as int;
        if at < rules@.len() {
            assert(placed[at] == rules@[at]@);
        }
    }
}

/// Giving a reservation back spends nothing and ends it as released, for the sender that the plan
/// limits; where no plan limits the request there is nothing to give back.
pub proof fn giving_back_spends_nothing(
    decision: GatewayControlDecision,
    request_id: &str,
    token: &str,
    at: u64,
    r: Option<ReconcileUsagePolicyCostInput>,
)
    requires
        call_ensures(
            plan_usage_policy::release_plan_usage_policy_cost,
            (&decision, request_id, token, at),
            r,
        ),
    ensures
        r is Some <==> plan_usage_policy::limited_sender(decision) is Some,
        r is Some ==> {
            &&& r->0.request_id@ == request_id@
            &&& r->0.subject_id@ == plan_usage_policy::limited_sender(decision)->0.user_id@
            &&& r->0.reservation_token@ == token@
            &&& r->0.actual_cost_units == 0
            &&& r->0.terminal_state is Released
            &&& r->0.finalized_at_unix_secs == at
        },
{
}

/// The short windows of a policy are the rolling ones of up to a minute.
pub open spec fn is_short_rule(rule: EffectiveRequestRule) -> bool {
    rule.window is Rolling && rule.window->seconds <= 60
}

proof fn lemma_short_counters(
    user_id: Seq<char>,
    rules: Seq<EffectiveRequestRule>,
    from: nat,
    found: Seq<Counter>,
    now: u64,
    zone: Option<Seq<char>>,
)
    requires
        from <= rules.len(),
    ensures
        ({
            let all = plan_admission_flow::short_counters(user_id, rules, from, found, now, zone);
            let short = rules.skip(from as int).filter(|r: EffectiveRequestRule| is_short_rule(r));
            &&& all is Ok
            &&& all->Ok_0.len() == found.len() + short.len()
            &&& forall|i: int| 0 <= i < found.len() ==> #[trigger] all->Ok_0[i] == found[i]
            &&& forall|i: int|
                0 <= i < short.len() ==> Ok::<Counter, GatewayFault>(
                    all->Ok_0[found.len() + i],
                ) == plan_windows::counter(user_id, #[trigger] short[i], now, zone)
        }),
    decreases rules.len() - from,
{
    let chosen = |r: EffectiveRequestRule| is_short_rule(r);
    let rest = rules.skip(from as int);
    let short = rest.filter(chosen);
    reveal(Seq::filter);
    if from < rules.len() {
        let rule = rules[from as int];
        let later = rules.skip(from as int + 1);
        assert(rest =~= seq![rule] + later);
        lemma_filter_head(rule, rest, later);
        if is_short_rule(rule) {
            let c = plan_windows::counter(user_id, rule, now, zone)->Ok_0;
            lemma_short_counters(user_id, rules, from + 1, found.push(c), now, zone);
            let all = plan_admission_flow::short_counters(
                user_id,
                rules,
                from,
                found,
                now,
                zone,
            )->Ok_0;
            assert(all[found.len() as int] == found.push(c)[found.len() as int]);
            assert forall|i: int| 0 <= i < found.len() implies #[trigger] all[i] == found[i] by {
                assert(all[i] == found.push(c)[i]);
            }
            assert forall|i: int| 0 <= i < short.len() implies Ok::<Counter, GatewayFault>(
                all[found.len() + i],
            ) == plan_windows::counter(user_id, #[trigger] short[i], now, zone) by {
                if i > 0 {
                    assert(short[i] == later.filter(chosen)[i - 1]);
                    assert(found.push(c).len() + (i - 1) == found.len() + i);
                }
            }
        } else {
            lemma_short_counters(user_id, rules, from + 1, found, now, zone);
        }
    } else {
        assert(rest.len() == 0);
    }
}

proof fn lemma_filter_head(
    rule: EffectiveRequestRule,
    rest: Seq<EffectiveRequestRule>,
    later: Seq<EffectiveRequestRule>,
)
    requires
        rest == seq![rule] + later,
    ensures
        rest.filter(|r: EffectiveRequestRule| is_short_rule(r)) == if is_short_rule(rule) {
            seq![rule] + later.filter(|r: EffectiveRequestRule| is_short_rule(r))
        } else {
            later.filter(|r: EffectiveRequestRule| is_short_rule(r))
        },
        rest.filter(|r: EffectiveRequestRule| !is_short_rule(r)) == if !is_short_rule(rule) {
            seq![rule] + later.filter(|r: EffectiveRequestRule| !is_short_rule(r))
        } else {
            later.filter(|r: EffectiveRequestRule| !is_short_rule(r))
        },
{
    let yes = |r: EffectiveRequestRule| is_short_rule(r);
    let no = |r: EffectiveRequestRule| !is_short_rule(r);
    reveal(Seq::filter);
    let one = seq![rule];
    assert(one.drop_last() =~= Seq::<EffectiveRequestRule>::empty());
    assert(one.last() == rule);
    assert(Seq::<EffectiveRequestRule>::empty().filter(yes) =~= Seq::empty());
    assert(Seq::<EffectiveRequestRule>::empty().filter(no) =~= Seq::empty());
    assert(Seq::<EffectiveRequestRule>::empty().push(rule) =~= one);
    Seq::filter_distributes_over_add(one, later, yes);
    Seq::filter_distributes_over_add(one, later, no);
    assert(Seq::<EffectiveRequestRule>::empty() + later.filter(yes) =~= later.filter(yes));
    assert(Seq::<EffectiveRequestRule>::empty() + later.filter(no) =~= later.filter(no));
}

proof fn lemma_long_windows(
    rules: Seq<EffectiveRequestRule>,
    from: nat,
    found: Seq<DurableRequestRule>,
    now: u64,
    zone: Option<Seq<char>>,
)
    requires
        from <= rules.len(),
    ensures
        ({
            let all = plan_admission_flow::long_windows(rules, from, found, now, zone);
            let long = rules.skip(from as int).filter(|r: EffectiveRequestRule| !is_short_rule(r));
            &&& all is Ok <==> forall|i: int|
                0 <= i < long.len() ==> plan_windows::placement(
                    (#[trigger] long[i]).window,
                    long[i].entitlement_period,
                    now,
                    zone,
                ) is Ok
            &&& all is Ok ==> {
                &&& all->Ok_0.len() == found.len() + long.len()
                &&& forall|i: int| 0 <= i < found.len() ==> #[trigger] all->Ok_0[i] == found[i]
                &&& forall|i: int|
                    0 <= i < long.len() ==> all->Ok_0[found.len() + i] == plan_windows::durable_of(
                        #[trigger] long[i],
                        now,
                        plan_windows::placement(
                            long[i].window,
                            long[i].entitlement_period,
                            now,
                            zone,
                        )->Ok_0,
                    )
            }
        }),
    decreases rules.len() - from,
{
    let chosen = |r: EffectiveRequestRule| !is_short_rule(r);
    let rest = rules.skip(from as int);
    let long = rest.filter(chosen);
    reveal(Seq::filter);
    if from < rules.len() {
        let rule = rules[from as int];
        let later = rules.skip(from as int + 1);
        assert(rest =~= seq![rule] + later);
        lemma_filter_head(rule, rest, later);
        if !is_short_rule(rule) {
            match plan_windows::placement(rule.window, rule.entitlement_period, now, zone) {
                Ok(p) => {
                    let d = plan_windows::durable_of(rule, now, p);
                    lemma_long_windows(rules, from + 1, found.push(d), now, zone);
                    let all = plan_admission_flow::long_windows(rules, from, found, now, zone);
                    assert forall|i: int| 0 < i < long.len() implies #[trigger] long[i]
                        == later.filter(chosen)[i - 1] by {}
                    assert(long[0] == rule);
                    if all is Ok {
                        assert(all->Ok_0[found.len() as int] == found.push(d)[found.len() as int]);
                        assert forall|i: int| 0 <= i < found.len() implies #[trigger] all->Ok_0[i]
                            == found[i] by {
                            assert(all->Ok_0[i] == found.push(d)[i]);
                        }
                        assert forall|i: int| 0 <= i < long.len() implies all->Ok_0[found.len() + i]
                            == plan_windows::durable_of(
                            #[trigger] long[i],
                            now,
                            plan_windows::placement(
                                long[i].window,
                                long[i].entitlement_period,
                                now,
                                zone,
                            )->Ok_0,
                        ) by {
                            if i > 0 {
                                assert(long[i] == later.filter(chosen)[i - 1]);
                                assert(found.push(d).len() + (i - 1) == found.len() + i);
                            }
                        }
                        assert forall|i: int| 0 <= i < long.len() implies plan_windows::placement(
                            (#[trigger] long[i]).window,
                            long[i].entitlement_period,
                            now,
                            zone,
                        ) is Ok by {
                            if i > 0 {
                                assert(long[i] == later.filter(chosen)[i - 1]);
                            }
                        }
                    } else {
                        let i = choose|i: int|
                            0 <= i < later.filter(chosen).len() && !(plan_windows::placement(
                                (#[trigger] later.filter(chosen)[i]).window,
                                later.filter(chosen)[i].entitlement_period,
                                now,
                                zone,
                            ) is Ok);
                        assert(long[i + 1] == later.filter(chosen)[i]);
                    }
                },
                Err(_) => {
                    assert(long[0] == rule);
                },
            }
        } else {
            lemma_long_windows(rules, from + 1, found, now, zone);
        }
    } else {
        assert(rest.len() == 0);
    }
}

/// The runtime state is asked for every rolling rule of up to a minute, in their order, and the ledger
/// for every other rule, in their order: no rule is left out and none is asked for twice. The short
/// ones can always be asked for, the others exactly if each can be placed.
pub proof fn every_rule_is_asked_for_once(
    user_id: Seq<char>,
    rules: Seq<EffectiveRequestRule>,
    now: u64,
    zone: Option<Seq<char>>,
)
    ensures
        ({
            let short = rules.filter(|r: EffectiveRequestRule| is_short_rule(r));
            let counters = plan_admission_flow::short_counters(
                user_id,
                rules,
                0,
                Seq::empty(),
                now,
                zone,
            );
            &&& counters is Ok
            &&& counters->Ok_0.len() == short.len()
            &&& forall|i: int|
                0 <= i < short.len() ==> Ok::<Counter, GatewayFault>(counters->Ok_0[i])
                    == plan_windows::counter(user_id, #[trigger] short[i], now, zone)
        }),
        ({
            let long = rules.filter(|r: EffectiveRequestRule| !is_short_rule(r));
            let windows = plan_admission_flow::long_windows(rules, 0, Seq::empty(), now, zone);
            &&& windows is Ok <==> forall|i: int|
                0 <= i < long.len() ==> plan_windows::placement(
                    (#[trigger] long[i]).window,
                    long[i].entitlement_period,
                    now,
                    zone,
                ) is Ok
            &&& windows is Ok ==> windows->Ok_0.len() == long.len()
            &&& windows is Ok ==> forall|i: int|
                0 <= i < long.len() ==> {
                    let p = plan_windows::placement(
                        (#[trigger] long[i]).window,
                        long[i].entitlement_period,
                        now,
                        zone,
                    )->Ok_0;
                    let w = windows->Ok_0[i];
                    &&& w.window.limit_requests == long[i].limit
                    &&& w.window.starts_at_unix_secs == p.starts_at
                    &&& w.window.ends_at_unix_secs == p.ends_at
                    &&& w.retry_after == p.retry_after
                    &&& w.label == p.label
                    &&& w.influence_ends_at_unix_secs == plan_windows::influence_end(
                        long[i].window,
                        now,
                        p.ends_at,
                    )
                }
        }),
{
    assert(rules.skip(0) =~= rules);
    lemma_short_counters(user_id, rules, 0, Seq::empty(), now, zone);
    lemma_long_windows(rules, 0, Seq::empty(), now, zone);
    let long = rules.filter(|r: EffectiveRequestRule| !is_short_rule(r));
    let windows = plan_admission_flow::long_windows(rules, 0, Seq::empty(), now, zone);
    if windows is Ok {
        assert forall|i: int| 0 <= i < long.len() implies windows->Ok_0[i]
            == plan_windows::durable_of(
            #[trigger] long[i],
            now,
            plan_windows::placement(
                long[i].window,
                long[i].entitlement_period,
                now,
                zone,
            )->Ok_0,
        ) by {
            assert(Seq::<DurableRequestRule>::empty().len() + i == i);
        }
    }
}

proof fn lemma_latest_of_rules(rules: Seq<DurableRequestRule>, count: nat, moment: u64)
    requires
        count <= rules.len(),
    ensures
        ({
            let latest = plan_admission_flow::latest_influence(rules, count, moment);
            &&& latest >= moment
            &&& forall|i: int|
                0 <= i < count ==> latest >= (#[trigger] rules[i]).influence_ends_at_unix_secs
            &&& latest == moment || exists|i: int|
                0 <= i < count && latest == (#[trigger] rules[i]).influence_ends_at_unix_secs
        }),
    decreases count,
{
    if count > 0 {
        lemma_latest_of_rules(rules, (count - 1) as nat, moment);
        assert(rules[count - 1].influence_ends_at_unix_secs
            <= plan_admission_flow::latest_influence(rules, count, moment));
    }
}

/// What is asked of the ledger for an admission: one place in each long window, under the event and for
/// the subject, at the moment of the request. The admission is kept for thirty-two days, or for as long
/// as a window can count it if that is longer.
pub proof fn an_admission_is_asked_for_in_every_long_window(
    input: ReserveUsagePolicyRequestInput,
    subject_id: Seq<char>,
    event_id: Seq<char>,
    rules: Seq<DurableRequestRule>,
    now: u64,
)
    requires
        plan_admission_flow::asks_ledger(input, subject_id, event_id, rules, now),
        now < 0x8000_0000_0000_0000,
    ensures
        input.request_id@ == event_id,
        input.event_token@ == event_id,
        input.subject_id@ == subject_id,
        input.admitted_at_unix_secs == now,
        input.windows@.len() == rules.len(),
        forall|i: int| 0 <= i < rules.len() ==> #[trigger] input.windows@[i] == rules[i].window,
        input.retain_until_unix_secs >= now + 32 * 24 * 60 * 60,
        forall|i: int|
            0 <= i < rules.len() ==> input.retain_until_unix_secs >= (
            #[trigger] rules[i]).influence_ends_at_unix_secs,
        input.retain_until_unix_secs == now + 32 * 24 * 60 * 60 || exists|i: int|
            0 <= i < rules.len() && input.retain_until_unix_secs == (
            #[trigger] rules[i]).influence_ends_at_unix_secs,
{
    lemma_latest_of_rules(rules, rules.len(), plan_windows::more(now, 2_764_800));
}

/// How an admission begins: without rules the request is let in; with a limit on requests at a time a
/// permit of the user is taken first, one of as many as the limit says.
pub proof fn an_admission_begins_with_the_permit(admission: PlanAdmission<'_>)
    ensures
        ({
            let step = admission.next_step(AdmissionEvent::Begin);
            let limit = admission.policy.concurrency_limit;
            &&& limit is Some && limit->0 <= usize::MAX ==> step.decision == (
            Decision::AcquirePermit {
                key: "admission:"@ + "plan_usage_concurrency"@ + ":user:{"@
                    + admission.subject_id@ + "}"@,
                limit: limit->0 as usize,
            }) && step.stage is Permit
            &&& limit is Some && limit->0 > usize::MAX ==> step.decision is Refuse
            &&& limit is None && admission.policy.request_rules@.len() == 0 ==> step.decision
                is Admit
            &&& limit is None ==> step == admission.next_step(AdmissionEvent::Permit(Ok(())))
                || admission.policy.request_rules@.len() == 0
        }),
{
}

/// Once the permit is there, the short windows are asked if there are any, then the long ones if there
/// are any, and then the request is let in. A permit that is not given refuses the request as it says.
pub proof fn windows_are_asked_in_turn(
    admission: PlanAdmission<'_>,
    error: RuntimeSemaphoreError,
)
    ensures
        ({
            let rules = admission.policy.request_rules@;
            let short = rules.filter(|r: EffectiveRequestRule| is_short_rule(r));
            let long = rules.filter(|r: EffectiveRequestRule| !is_short_rule(r));
            let placeable = forall|i: int|
                0 <= i < long.len() ==> plan_windows::placement(
                    (#[trigger] long[i]).window,
                    long[i].entitlement_period,
                    admission.now_unix_secs,
                    admission.zone(),
                ) is Ok;
            let taken = admission.next_step(AdmissionEvent::Permit(Ok(())));
            let counted = admission.next_step(
                AdmissionEvent::ShortWindows(Ok(UsageLimitCheck::Allowed)),
            );
            &&& admission.next_step(AdmissionEvent::Permit(Err(error))).decision
                == Decision::Refuse(Refusal::Runtime(error))
            &&& short.len() > 0 ==> taken.decision is ConsumeShortWindows && taken.short.len()
                == short.len()
            &&& short.len() == 0 && long.len() == 0 ==> taken.decision is Admit
            &&& short.len() == 0 && long.len() > 0 && placeable ==> taken.decision
                is ReserveLongWindows && taken.long.len() == long.len()
            &&& short.len() == 0 && !placeable ==> taken.decision is Refuse
            &&& long.len() == 0 ==> counted.decision is Admit
            &&& long.len() > 0 && placeable ==> counted.decision is ReserveLongWindows
                && counted.long.len() == long.len()
            &&& !placeable && admission.short@.len() > 0 ==> counted.decision is ReleaseAndRefuse
        }),
{
    let rules = admission.policy.request_rules@;
    every_rule_is_asked_for_once(
        admission.subject_id@,
        rules,
        admission.now_unix_secs,
        admission.zone(),
    );
}

/// A request that the runtime state rejects is turned away, with the limit that it names and the name
/// of the window, to wait for as long as it says, but for no longer than the window and for a second at
/// least. Where it fails, the request is turned away with its words.
pub proof fn a_full_short_window_refuses(
    admission: PlanAdmission<'_>,
    index: usize,
    limit: u64,
    wait: u64,
    words: String,
)
    requires
        index < admission.short@.len(),
    ensures
        ({
            let reply = UsageLimitCheck::Rejected { rule_index: index, limit, retry_after: wait };
            let step = admission.next_step(AdmissionEvent::ShortWindows(Ok(reply)));
            let rule = admission.short@[index as int];
            &&& step.decision is Refuse
            &&& step.decision->Refuse_0 is Rejected
            &&& step.decision->Refuse_0->Rejected_0.metric == "request_count"
            &&& step.decision->Refuse_0->Rejected_0.limit == PolicyLimit::Requests(limit)
            &&& step.decision->Refuse_0->Rejected_0.window == rule.window
            &&& step.decision->Refuse_0->Rejected_0.retry_after >= 1
            &&& 1 <= wait <= rule.retry_after
                ==> step.decision->Refuse_0->Rejected_0.retry_after == wait
            &&& wait > rule.retry_after && rule.retry_after >= 1
                ==> step.decision->Refuse_0->Rejected_0.retry_after == rule.retry_after
            &&& wait == 0 ==> step.decision->Refuse_0->Rejected_0.retry_after == 1
            &&& admission.next_step(AdmissionEvent::ShortWindows(Err(words))).decision
                == Decision::Refuse(Refusal::Gateway(GatewayFault::Internal(words@)))
        }),
{
    assert(plan_admission_flow::counters(admission.short@)[index as int]
        == admission.short@[index as int]@);
}

/// A request that the ledger rejects is turned away with the limit that the ledger names and the wait
/// and the name of that window; one that it lets in is let in; and where it fails or cannot be asked,
/// the request is turned away.
pub proof fn a_full_long_window_refuses(
    admission: PlanAdmission<'_>,
    index: usize,
    limit: u64,
    used: u64,
    words: String,
)
    requires
        index < admission.long@.len(),
    ensures
        ({
            let reply = ReserveUsagePolicyRequestOutcome::Rejected {
                window_index: index,
                limit_requests: limit,
                used_requests: used,
            };
            let step = admission.next_step(AdmissionEvent::LongWindows(Ok(Some(reply))));
            let rule = admission.long@[index as int];
            let refusal = if admission.short@.len() > 0 {
                step.decision->refusal
            } else {
                step.decision->Refuse_0
            };
            &&& admission.short@.len() > 0 ==> step.decision is ReleaseAndRefuse
            &&& admission.short@.len() == 0 ==> step.decision is Refuse
            &&& refusal is Rejected
            &&& refusal->Rejected_0.metric == "request_count"
            &&& refusal->Rejected_0.limit == PolicyLimit::Requests(limit)
            &&& refusal->Rejected_0.retry_after == rule.retry_after
            &&& refusal->Rejected_0.window == rule.label
            &&& admission.next_step(
                AdmissionEvent::LongWindows(Ok(Some(ReserveUsagePolicyRequestOutcome::Allowed))),
            ).decision is Admit
            &&& !(admission.next_step(AdmissionEvent::LongWindows(Ok(None))).decision is Admit)
            &&& !(admission.next_step(AdmissionEvent::LongWindows(Err(words))).decision is Admit)
        }),
{
}

/// A rule that the runtime state or the ledger names and that was not asked for is an error of the
/// gateway: nothing is admitted by it.
pub proof fn a_window_that_was_not_asked_for_cannot_be_full(
    admission: PlanAdmission<'_>,
    index: usize,
    limit: u64,
    other: u64,
)
    ensures
        ({
            let reply = UsageLimitCheck::Rejected { rule_index: index, limit, retry_after: other };
            let step = admission.next_step(AdmissionEvent::ShortWindows(Ok(reply)));
            index >= admission.short@.len() ==> step.decision is Refuse && step.decision->Refuse_0
                is Gateway && step.decision->Refuse_0->Gateway_0 is Internal
        }),
        ({
            let reply = ReserveUsagePolicyRequestOutcome::Rejected {
                window_index: index,
                limit_requests: limit,
                used_requests: other,
            };
            let step = admission.next_step(AdmissionEvent::LongWindows(Ok(Some(reply))));
            index >= admission.long@.len() ==> {
                let refusal = if admission.short@.len() > 0 {
                    step.decision->refusal
                } else {
                    step.decision->Refuse_0
                };
                !(step.decision is Admit) && refusal is Gateway && refusal->Gateway_0 is Internal
            }
        }),
{
}

/// A request whose event was released or stands for another request is turned away, and leaves the
/// short windows again. Every refusal after the short windows were asked names what it is for.
pub proof fn a_refusal_leaves_the_short_windows(
    admission: PlanAdmission<'_>,
    reply: Result<Option<ReserveUsagePolicyRequestOutcome>, String>,
)
    ensures
        ({
            let step = admission.next_step(AdmissionEvent::LongWindows(reply));
            let allowed = reply is Ok && reply->Ok_0 is Some && reply->Ok_0->0 is Allowed;
            &&& step.decision is Admit <==> allowed
            &&& step.decision is ReleaseAndRefuse <==> !allowed && admission.short@.len() > 0
            &&& step.decision is Refuse <==> !allowed && admission.short@.len() == 0
            &&& step.stage is Done
            &&& step.decision is ReleaseAndRefuse ==> step.decision->reason == (if reply is Err {
                "durable_admission_error"
            } else if reply->Ok_0 is None {
                "settlement_writer_unavailable"
            } else if reply->Ok_0->0 is Rejected {
                "durable_admission_rejected"
            } else if reply->Ok_0->0 is AlreadyReleased {
                "durable_admission_already_released"
            } else {
                "durable_admission_conflict"
            })
        }),
{
}

/// From one event to the next an admission stays the same: what is asked of the ledger is asked for the
/// sender of the request, under its event and at its moment.
pub proof fn an_admission_stays_that_of_its_request(
    before: PlanAdmission<'_>,
    event: AdmissionEvent,
    after: PlanAdmission<'_>,
    action: AdmissionAction,
)
    requires
        after.same_request(&before),
        after.took(before.next_step(event), action),
    ensures
        after.subject_id == before.subject_id,
        after.policy == before.policy,
        after.event_id == before.event_id,
        after.now_unix_secs == before.now_unix_secs,
        after.app_timezone == before.app_timezone,
        after.stage == before.next_step(event).stage,
        after.long@ == before.next_step(event).long,
        after.short@.len() == before.next_step(event).short.len(),
        forall|i: int|
            0 <= i < after.short@.len() ==> (#[trigger] after.short@[i])@ == before.next_step(
                event,
            ).short[i],
        action is Admit <==> before.next_step(event).decision is Admit,
        action is AcquirePermit <==> before.next_step(event).decision is AcquirePermit,
        action is ConsumeShortWindows <==> before.next_step(event).decision is ConsumeShortWindows,
        action is ReserveLongWindows <==> before.next_step(event).decision is ReserveLongWindows,
        action is Refuse <==> before.next_step(event).decision is Refuse,
        action is ReleaseAndRefuse <==> before.next_step(event).decision is ReleaseAndRefuse,
        action is ReserveLongWindows ==> {
            let input = action->ReserveLongWindows_0;
            &&& input.subject_id@ == before.subject_id@
            &&& input.request_id@ == before.event_id@
            &&& input.event_token@ == before.event_id@
            &&& input.admitted_at_unix_secs == before.now_unix_secs
            &&& input.windows@.len() == after.long@.len()
            &&& forall|i: int|
                0 <= i < after.long@.len() ==> #[trigger] input.windows@[i]
                    == after.long@[i].window
        },
{
    let step = before.next_step(event);
    assert(plan_admission_flow::counters(after.short@) == step.short);
    assert forall|i: int| 0 <= i < after.short@.len() implies (#[trigger] after.short@[i])@
        == step.short[i] by {
        assert(plan_admission_flow::counters(after.short@)[i] == after.short@[i]@);
    }
}

/// An admission begins at the second of its request, for its sender, under its event, with nothing
/// asked yet.
pub proof fn an_admission_is_made_of_its_request(
    subject_id: &'static str,
    policy: &'static EffectivePlanUsagePolicy,
    event_id: &'static str,
    now_unix_ms: u64,
    zone: Option<&'static str>,
    r: PlanAdmission<'static>,
)
    requires
        call_ensures(
            PlanAdmission::<'static>::new,
            (subject_id, policy, event_id, now_unix_ms, zone),
            r,
        ),
    ensures
        r.subject_id == subject_id,
        r.policy == policy,
        r.event_id == event_id,
        r.now_unix_secs * 1_000 <= now_unix_ms < (r.now_unix_secs + 1) * 1_000,
        r.app_timezone == zone,
        r.expects(AdmissionEvent::Begin),
        r.short@.len() == 0,
        r.long@.len() == 0,
{
}

} // verus!
