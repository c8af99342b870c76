//! What the policy of a user says, by the fields of the user's plans.

use crate::effective_policy;
use crate::effective_policy::{EffectivePlanUsagePolicy, LimitRule, UserPlanEntitlementRecord};
use crate::effective_policy_laws;
use crate::effective_policy_sources;
use crate::effective_policy_sources::Holdings;
use crate::error::GatewayError;
use crate::policy_validation_laws;
use crate::policy_validation_laws::is_whole_limit;
use crate::binary64;
use crate::text;
use crate::timezone;
use crate::token_map;
use crate::token_map::Entries;
use crate::usage_policy::UsagePolicyWindow;
use vstd::prelude::*;
use vstd::string::*;

verus! {

/// A plan is active exactly from its start up to the moment at which it expires, if its status says so.
pub proof fn a_plan_is_active_within_its_period(
    plan: UserPlanEntitlementRecord,
    now: u64,
    r: bool,
)
    requires
        call_ensures(UserPlanEntitlementRecord::is_active_at, (&plan, now), r),
    ensures
        r <==> plan.status@ == "active"@ && plan.starts_at_unix_secs <= now && now
            < plan.expires_at_unix_secs,
        r == plan.active_at(now),
{
}

/// Windows are told apart by a text: rolling ones by their seconds, calendar ones by their kind and
/// zone, weeks also by their first weekday, and subscription periods by the plan.
pub proof fn a_window_is_told_by_what_it_is(
    window: UsagePolicyWindow,
    plan_id: Seq<char>,
    app_timezone: Option<Seq<char>>,
)
    ensures
        ({
            let id = effective_policy::rule_identity(window, plan_id, app_timezone);
            match window {
                UsagePolicyWindow::Rolling { seconds } => id == "rolling:"@ + text::decimal(
                    seconds as nat,
                ),
                UsagePolicyWindow::CalendarDay { timezone } => id == "calendar_day:"@
                    + timezone::effective_timezone(text::opt_string(timezone), app_timezone),
                UsagePolicyWindow::CalendarWeek { timezone, week_start } => id
                    == "calendar_week:"@ + timezone::effective_timezone(
                    text::opt_string(timezone),
                    app_timezone,
                ) + ":"@ + text::decimal(week_start as nat),
                UsagePolicyWindow::CalendarMonth { timezone } => id == "calendar_month:"@
                    + timezone::effective_timezone(text::opt_string(timezone), app_timezone),
                UsagePolicyWindow::SubscriptionPeriod => id == "subscription:"@ + plan_id,
                UsagePolicyWindow::Concurrent => id == "concurrent"@,
            }
        }),
{
}

/// The limit stands under the window of rule `j` of policy `i` of plan `e`, which is active: it has the
/// window of that rule, and, if that is a subscription period, the start and the end of that plan.
pub open spec fn is_of_rule(
    held: Holdings,
    e: int,
    i: int,
    j: int,
    id: Seq<char>,
    limit: LimitRule,
) -> bool {
    let plan = held.entitlements[e];
    let rule = held.rule(e, i, j);
    &&& plan.status@ == "active"@
    &&& plan.starts_at_unix_secs <= held.now < plan.expires_at_unix_secs
    &&& limit.window == rule.window
    &&& rule.window is SubscriptionPeriod ==> {
        &&& id == "subscription:"@ + plan.id@
        &&& limit.entitlement_period == Some((plan.starts_at_unix_secs, plan.expires_at_unix_secs))
    }
    &&& !(rule.window is SubscriptionPeriod) ==> {
        &&& id == effective_policy::identity_of(rule.window, held.app_timezone)
        &&& limit.entitlement_period is None
    }
}

/// A limit that is made of a rule has the window and the number of that rule. On a subscription period
/// it carries the start and the end of the plan, whatever these are; on any other window no period.
pub proof fn a_limit_carries_the_period_of_its_plan(
    plan: UserPlanEntitlementRecord,
    window: UsagePolicyWindow,
    n: u64,
)
    ensures
        ({
            let limit = effective_policy::limit_rule(plan, window, n);
            &&& limit.limit == n
            &&& limit.window == window
            &&& window is SubscriptionPeriod ==> limit.entitlement_period == Some(
                (plan.starts_at_unix_secs, plan.expires_at_unix_secs),
            )
            &&& !(window is SubscriptionPeriod) ==> limit.entitlement_period is None
        }),
{
}

/// Every limit of a compiled policy is that of a rule of an active plan, to the number: on requests and
/// on requests at a time the whole number that the rule says, on cost the cost units of its amount. It
/// stands under the window of that rule; one on a subscription period carries the period of that plan.
pub proof fn every_limit_says_what_its_rule_says(held: Holdings, id: Seq<char>)
    requires
        effective_policy::compiled(held.entitlements, held.now, held.app_timezone) is Ok,
    ensures
        ({
            let policy = effective_policy::compiled(
                held.entitlements,
                held.now,
                held.app_timezone,
            )->Ok_0;
            let on_requests = token_map::lookup(policy.request_rules, id);
            let on_cost = token_map::lookup(policy.cost_rules, id);
            &&& on_requests is Some ==> exists|e: int, i: int, j: int| #[trigger]
                held.has(e, i, j) && held.rule(e, i, j).metric is RequestCount && is_whole_limit(
                    held.rule(e, i, j).limit,
                    on_requests->0.limit,
                ) && is_of_rule(held, e, i, j, id, on_requests->0)
            &&& on_cost is Some ==> exists|e: int, i: int, j: int| #[trigger]
                held.has(e, i, j) && held.rule(e, i, j).metric is ActualCostUsd
                    && binary64::cost_units(held.rule(e, i, j).limit) == Some(on_cost->0.limit)
                    && is_of_rule(held, e, i, j, id, on_cost->0)
            &&& policy.concurrency_limit is Some ==> exists|e: int, i: int, j: int| #[trigger]
                held.has(e, i, j) && held.rule(e, i, j).metric is Concurrency && is_whole_limit(
                    held.rule(e, i, j).limit,
                    policy.concurrency_limit->0,
                )
        }),
{
    effective_policy_sources::every_limit_is_that_of_an_active_rule(held);
    let policy = effective_policy::compiled(
        held.entitlements,
        held.now,
        held.app_timezone,
    )->Ok_0;
    let on_requests = token_map::lookup(policy.request_rules, id);
    let on_cost = token_map::lookup(policy.cost_rules, id);
    if on_requests is Some {
        assert(held.give_requests(id, on_requests->0));
        let (e, i, j) = choose|e: int, i: int, j: int| #[trigger]
            held.has(e, i, j) && held.rule(e, i, j).metric is RequestCount && held.gives(
                e,
                i,
                j,
                id,
                on_requests->0,
                held.rule(e, i, j).spec_request_limit(),
            );
        policy_validation_laws::a_limit_is_what_the_rule_says(
            held.rule(e, i, j),
            on_requests->0.limit,
        );
        assert(held.has(e, i, j));
        assert(is_of_rule(held, e, i, j, id, on_requests->0));
    }
    if on_cost is Some {
        assert(held.give_cost(id, on_cost->0));
        let (e, i, j) = choose|e: int, i: int, j: int| #[trigger]
            held.has(e, i, j) && held.rule(e, i, j).metric is ActualCostUsd && held.gives(
                e,
                i,
                j,
                id,
                on_cost->0,
                held.rule(e, i, j).spec_cost_limit_units(),
            );
        policy_validation_laws::a_limit_is_what_the_rule_says(
            held.rule(e, i, j),
            on_cost->0.limit,
        );
        assert(held.has(e, i, j));
        assert(is_of_rule(held, e, i, j, id, on_cost->0));
    }
    if policy.concurrency_limit is Some {
        let limit = policy.concurrency_limit->0;
        assert(held.give_concurrency(limit));
        let (e, i, j) = choose|e: int, i: int, j: int| #[trigger]
            held.has(e, i, j) && held.rule(e, i, j).metric is Concurrency && held.rule(
                e,
                i,
                j,
            ).spec_request_limit() == Some(limit);
        policy_validation_laws::a_limit_is_what_the_rule_says(held.rule(e, i, j), limit);
        assert(held.has(e, i, j));
    }
}

/// A limit on the subscription period of a plan carries exactly the moments at which that plan starts
/// and expires, however long that is: the plan is the one that the limit names.
pub proof fn a_subscription_limit_carries_the_period_of_its_plan(
    held: Holdings,
    plan_id: Seq<char>,
    limit: LimitRule,
)
    requires
        effective_policy::compiled(held.entitlements, held.now, held.app_timezone) is Ok,
        ({
            let policy = effective_policy::compiled(
                held.entitlements,
                held.now,
                held.app_timezone,
            )->Ok_0;
            let id = "subscription:"@ + plan_id;
            token_map::lookup(policy.request_rules, id) == Some(limit) || token_map::lookup(
                policy.cost_rules,
                id,
            ) == Some(limit)
        }),
    ensures
        limit.window is SubscriptionPeriod,
        exists|e: int|
            #![trigger held.entitlements[e]]
            0 <= e < held.entitlements.len() && held.entitlements[e].id@ == plan_id
                && held.entitlements[e].status@ == "active"@ && limit.entitlement_period == Some(
                (
                    held.entitlements[e].starts_at_unix_secs,
                    held.entitlements[e].expires_at_unix_secs,
                ),
            ),
        forall|e: int|
            #![trigger held.entitlements[e]]
            0 <= e < held.entitlements.len() && held.entitlements[e].id@ == plan_id && (forall|
                other: int,
            |
                0 <= other < held.entitlements.len() && other != e ==> (
                #[trigger] held.entitlements[other]).id@ != plan_id) ==> limit.entitlement_period
                == Some(
                (
                    held.entitlements[e].starts_at_unix_secs,
                    held.entitlements[e].expires_at_unix_secs,
                ),
            ),
{
    let id = "subscription:"@ + plan_id;
    every_limit_says_what_its_rule_says(held, id);
    let (e, i, j) = choose|e: int, i: int, j: int| #[trigger]
        held.has(e, i, j) && is_of_rule(held, e, i, j, id, limit);
    let plan = held.entitlements[e];
    let window = held.rule(e, i, j).window;
    if !(window is SubscriptionPeriod) {
        effective_policy_laws::subscription_periods_stay_apart(
            plan_id,
            plan_id.push('x'),
            window,
            held.app_timezone,
        );
        assert(plan_id.push('x').len() != plan_id.len());
    }
    reveal_strlit("subscription:");
    assert(("subscription:"@ + plan_id).skip(13) =~= plan_id);
    assert(("subscription:"@ + plan.id@).skip(13) =~= plan.id@);
    assert(held.entitlements[e].id@ == plan_id);
}

/// Every rule of an active plan holds: a rule on requests with the whole number `n` as limit leaves at
/// most `n` in its window, a rule on concurrency at most `n` at a time, and a rule on cost at most the
/// cost units of its amount.
pub proof fn every_rule_of_an_active_plan_holds(held: Holdings, e: int, i: int, j: int, n: u64)
    requires
        effective_policy::compiled(held.entitlements, held.now, held.app_timezone) is Ok,
        held.has(e, i, j),
    ensures
        ({
            let policy = effective_policy::compiled(
                held.entitlements,
                held.now,
                held.app_timezone,
            )->Ok_0;
            let plan = held.entitlements[e];
            let rule = held.rule(e, i, j);
            let id = if rule.window is SubscriptionPeriod {
                "subscription:"@ + plan.id@
            } else {
                effective_policy::identity_of(rule.window, held.app_timezone)
            };
            &&& rule.metric is RequestCount && is_whole_limit(rule.limit, n) ==> {
                let limit = token_map::lookup(policy.request_rules, id);
                limit is Some && limit->0.limit <= n
            }
            &&& rule.metric is Concurrency && is_whole_limit(rule.limit, n) ==> {
                policy.concurrency_limit is Some && policy.concurrency_limit->0 <= n
            }
            &&& rule.metric is ActualCostUsd && binary64::cost_units(rule.limit) == Some(n) ==> {
                let limit = token_map::lookup(policy.cost_rules, id);
                limit is Some && limit->0.limit <= n
            }
            &&& policy.valid_until is Some
            &&& policy.valid_until->0 <= plan.expires_at_unix_secs
        }),
{
    let policy = effective_policy::compiled(
        held.entitlements,
        held.now,
        held.app_timezone,
    )->Ok_0;
    let rule = held.rule(e, i, j);
    effective_policy_laws::every_active_rule_is_respected(
        held.entitlements,
        held.now,
        held.app_timezone,
        e,
    );
    assert(effective_policy_laws::respects(
        policy,
        held.entitlements[e],
        effective_policy_laws::read(held.entitlements[e])[i].rules[j],
        held.app_timezone,
    ));
    policy_validation_laws::a_limit_is_what_the_rule_says(rule, n);
}

/// What is compiled is handed out rule by rule: the rules of the policy are the limits on windows, each
/// under the text that tells its window, in the order of those texts, no two for one window.
pub proof fn the_rules_that_are_handed_out_are_the_limits(
    entitlements: Vec<UserPlanEntitlementRecord>,
    now: u64,
    zone: Option<&str>,
    r: Result<EffectivePlanUsagePolicy, GatewayError>,
    k: int,
)
    requires
        call_ensures(effective_policy::compile_effective_policy, (&entitlements, now, zone), r),
        r is Ok,
    ensures
        ({
            let policy = effective_policy::compiled(
                entitlements@,
                now,
                text::opt_view(zone),
            )->Ok_0;
            let handed = r->Ok_0;
            &&& handed.concurrency_limit == policy.concurrency_limit
            &&& handed.valid_until_unix_secs == policy.valid_until
            &&& handed.request_rules@.len() == policy.request_rules.len()
            &&& handed.cost_rules@.len() == policy.cost_rules.len()
            &&& 0 <= k < handed.request_rules@.len() ==> {
                let rule = handed.request_rules@[k];
                token_map::lookup(policy.request_rules, rule.identity@) == Some(
                    LimitRule {
                        window: rule.window,
                        limit: rule.limit,
                        entitlement_period: rule.entitlement_period,
                    },
                )
            }
            &&& 0 <= k < handed.cost_rules@.len() ==> {
                let rule = handed.cost_rules@[k];
                token_map::lookup(policy.cost_rules, rule.identity@) == Some(
                    LimitRule {
                        window: rule.window,
                        limit: rule.limit_cost_units,
                        entitlement_period: rule.entitlement_period,
                    },
                )
            }
            &&& 0 < k < handed.request_rules@.len() ==> text::key_before(
                handed.request_rules@[k - 1].identity@,
                handed.request_rules@[k].identity@,
            )
            &&& 0 < k < handed.cost_rules@.len() ==> text::key_before(
                handed.cost_rules@[k - 1].identity@,
                handed.cost_rules@[k].identity@,
            )
        }),
{
    let held = Holdings { entitlements: entitlements@, now, app_timezone: text::opt_view(zone) };
    effective_policy_sources::every_limit_is_that_of_an_active_rule(held);
    let policy = effective_policy::compiled(entitlements@, now, text::opt_view(zone))->Ok_0;
    let handed = r->Ok_0;
    assert(handed@ == policy);
    assert(policy.request_rules == effective_policy::request_models(handed.request_rules@));
    assert(policy.cost_rules == effective_policy::cost_models(handed.cost_rules@));
    if 0 <= k < handed.request_rules@.len() {
        token_map::lemma_at_position(
            policy.request_rules,
            policy.request_rules[k].0,
            policy.request_rules[k].1,
            k,
        );
    }
    if 0 <= k < handed.cost_rules@.len() {
        token_map::lemma_at_position(
            policy.cost_rules,
            policy.cost_rules[k].0,
            policy.cost_rules[k].1,
            k,
        );
    }
    if 0 < k < handed.request_rules@.len() {
        assert(text::key_before(policy.request_rules[k - 1].0, policy.request_rules[k].0));
    }
    if 0 < k < handed.cost_rules@.len() {
        assert(text::key_before(policy.cost_rules[k - 1].0, policy.cost_rules[k].0));
    }
}

/// A compiled policy must be compiled anew exactly once the moment has come at which the first of its
/// plans expires.
pub proof fn a_policy_is_stale_once_a_plan_has_expired(
    policy: EffectivePlanUsagePolicy,
    now: u64,
    r: bool,
)
    requires
        call_ensures(effective_policy::policy_is_stale, (&policy, now), r),
    ensures
        r <==> policy.valid_until_unix_secs is Some && policy.valid_until_unix_secs->0 <= now,
{
}

/// Of all limits on one window the lowest holds, and of several that are as low the first: one that
/// is no lower than what holds already changes nothing. Limits on other windows stay as they are.
pub proof fn the_first_of_the_lowest_limits_holds(
    rules: Entries<LimitRule>,
    id: Seq<char>,
    rule: LimitRule,
    other: Seq<char>,
)
    requires
        token_map::in_key_order(rules),
    ensures
        ({
            let before = token_map::lookup(rules, id);
            let after = effective_policy::strictest(rules, id, rule);
            &&& before is None ==> token_map::lookup(after, id) == Some(rule)
            &&& before is Some && rule.limit < before->0.limit ==> token_map::lookup(after, id)
                == Some(rule)
            &&& before is Some && rule.limit >= before->0.limit ==> after == rules
            &&& other != id ==> token_map::lookup(after, other) == token_map::lookup(rules, other)
        }),
{
    token_map::a_stored_value_is_read_back(rules, id, rule, id);
    token_map::a_stored_value_is_read_back(rules, id, rule, other);
}

} // verus!
