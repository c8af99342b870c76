//! What the policy of a user promises about the rules of the user's plans.

use crate::effective_policy;
use crate::effective_policy::{EffectivePolicy, LimitRule, UserPlanEntitlementRecord};
use crate::policy_parser;
use crate::text;
use crate::token_map;
use crate::token_map::Entries;
use crate::usage_policy::{
    UsagePolicy, UsagePolicyMetric, UsagePolicyRule, UsagePolicyWindow,
};
use vstd::prelude::*;
use vstd::string::*;

verus! {

/// Every window that `before` limits, `after` limits at least as strictly.
pub open spec fn no_looser(before: Entries<LimitRule>, after: Entries<LimitRule>) -> bool {
    forall|id: Seq<char>|
        (#[trigger] token_map::lookup(before, id)) is Some ==> token_map::lookup(after, id) is Some
            && token_map::lookup(after, id)->0.limit <= token_map::lookup(before, id)->0.limit
}

/// A number that is there stays, and does not grow.
pub open spec fn no_higher(before: Option<u64>, after: Option<u64>) -> bool {
    before is Some ==> after is Some && after->0 <= before->0
}

/// `after` is at least as strict as `before` in every respect.
pub open spec fn tightens(before: EffectivePolicy, after: EffectivePolicy) -> bool {
    &&& no_looser(before.request_rules, after.request_rules)
    &&& no_looser(before.cost_rules, after.cost_rules)
    &&& no_higher(before.concurrency_limit, after.concurrency_limit)
    &&& no_higher(before.valid_until, after.valid_until)
}

/// The policy is at least as strict as a rule of a plan.
pub open spec fn respects(
    policy: EffectivePolicy,
    entitlement: UserPlanEntitlementRecord,
    rule: UsagePolicyRule,
    app_timezone: Option<Seq<char>>,
) -> bool {
    let id = effective_policy::rule_identity(rule.window, entitlement.id@, app_timezone);
    match rule.metric {
        UsagePolicyMetric::Concurrency => no_higher(
            rule.spec_request_limit(),
            policy.concurrency_limit,
        ),
        UsagePolicyMetric::RequestCount => rule.spec_request_limit() is Some ==> (
        token_map::lookup(policy.request_rules, id) is Some && token_map::lookup(
            policy.request_rules,
            id,
        )->0.limit <= rule.spec_request_limit()->0),
        UsagePolicyMetric::ActualCostUsd => rule.spec_cost_limit_units() is Some ==> (
        token_map::lookup(policy.cost_rules, id) is Some && token_map::lookup(
            policy.cost_rules,
            id,
        )->0.limit <= rule.spec_cost_limit_units()->0),
    }
}

/// The limit is one over time, carries a period where it is one on a subscription period, and names
/// a weekday where it is one on a week.
pub open spec fn is_sound(rule: LimitRule) -> bool {
    &&& !(rule.window is Concurrent)
    &&& rule.window is SubscriptionPeriod <==> rule.entitlement_period is Some
    &&& rule.window is CalendarWeek ==> 1 <= rule.window->week_start <= 7
}

/// Every limit can be placed in time.
pub open spec fn sound(rules: Entries<LimitRule>) -> bool {
    forall|id: Seq<char>|
        (#[trigger] token_map::lookup(rules, id)) is Some ==> is_sound(
            token_map::lookup(rules, id)->0,
        )
}

proof fn lemma_strictest(rules: Entries<LimitRule>, id: Seq<char>, rule: LimitRule)
    ensures
        no_looser(rules, effective_policy::strictest(rules, id, rule)),
        token_map::lookup(effective_policy::strictest(rules, id, rule), id) is Some,
        token_map::lookup(effective_policy::strictest(rules, id, rule), id)->0.limit
            <= rule.limit,
        sound(rules) && is_sound(rule) ==> sound(effective_policy::strictest(rules, id, rule)),
{
    let after = effective_policy::strictest(rules, id, rule);
    token_map::a_stored_value_is_read_back(rules, id, rule, id);
    assert forall|other: Seq<char>|
        (#[trigger] token_map::lookup(rules, other)) is Some implies token_map::lookup(
        after,
        other,
    ) is Some && token_map::lookup(after, other)->0.limit <= token_map::lookup(
        rules,
        other,
    )->0.limit by {
        token_map::a_stored_value_is_read_back(rules, id, rule, other);
    }
    if sound(rules) && is_sound(rule) {
        assert forall|other: Seq<char>|
            (#[trigger] token_map::lookup(after, other)) is Some implies is_sound(
            token_map::lookup(after, other)->0,
        ) by {
            token_map::a_stored_value_is_read_back(rules, id, rule, other);
            assert(other != id ==> token_map::lookup(after, other) == token_map::lookup(
                rules,
                other,
            ));
        }
    }
}

proof fn lemma_with_rule(
    policy: EffectivePolicy,
    entitlement: UserPlanEntitlementRecord,
    rule: UsagePolicyRule,
    app_timezone: Option<Seq<char>>,
)
    ensures
        effective_policy::with_rule(policy, entitlement, rule, app_timezone) matches Ok(then) ==> {
            &&& tightens(policy, then)
            &&& respects(then, entitlement, rule, app_timezone)
            &&& then.valid_until == policy.valid_until
            &&& (sound(policy.request_rules) && sound(policy.cost_rules) && (
            rule.metric is Concurrency <==> rule.window is Concurrent) && (
            rule.window is CalendarWeek ==> 1 <= rule.window->week_start <= 7)) ==> sound(
                then.request_rules,
            ) && sound(then.cost_rules)
        },
{
    let id = effective_policy::rule_identity(rule.window, entitlement.id@, app_timezone);
    if rule.spec_request_limit() is Some {
        lemma_strictest(
            policy.request_rules,
            id,
            effective_policy::limit_rule(entitlement, rule.window, rule.spec_request_limit()->0),
        );
    }
    if rule.spec_cost_limit_units() is Some {
        lemma_strictest(
            policy.cost_rules,
            id,
            effective_policy::limit_rule(
                entitlement,
                rule.window,
                rule.spec_cost_limit_units()->0,
            ),
        );
    }
}

proof fn lemma_tightens_transitive(a: EffectivePolicy, b: EffectivePolicy, c: EffectivePolicy)
    requires
        tightens(a, b),
        tightens(b, c),
    ensures
        tightens(a, c),
{
    assert forall|id: Seq<char>|
        (#[trigger] token_map::lookup(a.request_rules, id)) is Some implies token_map::lookup(
        c.request_rules,
        id,
    ) is Some && token_map::lookup(c.request_rules, id)->0.limit <= token_map::lookup(
        a.request_rules,
        id,
    )->0.limit by {
        assert(token_map::lookup(b.request_rules, id) is Some);
    }
    assert forall|id: Seq<char>|
        (#[trigger] token_map::lookup(a.cost_rules, id)) is Some implies token_map::lookup(
        c.cost_rules,
        id,
    ) is Some && token_map::lookup(c.cost_rules, id)->0.limit <= token_map::lookup(
        a.cost_rules,
        id,
    )->0.limit by {
        assert(token_map::lookup(b.cost_rules, id) is Some);
    }
}

proof fn lemma_respects_stays(
    a: EffectivePolicy,
    b: EffectivePolicy,
    entitlement: UserPlanEntitlementRecord,
    rule: UsagePolicyRule,
    app_timezone: Option<Seq<char>>,
)
    requires
        respects(a, entitlement, rule, app_timezone),
        tightens(a, b),
    ensures
        respects(b, entitlement, rule, app_timezone),
{
}

/// Whether each rule is one that a valid policy has.
pub open spec fn all_valid(rules: Seq<UsagePolicyRule>) -> bool {
    forall|j: int| 0 <= j < rules.len() ==> {
        let rule = #[trigger] rules[j];
        &&& rule.counts_requests() ==> rule.spec_request_limit() is Some
        &&& rule.metric is ActualCostUsd ==> rule.spec_cost_limit_units() is Some
        &&& rule.metric is Concurrency <==> rule.window is Concurrent
        &&& rule.window is CalendarWeek ==> 1 <= rule.window->week_start <= 7
    }
}

proof fn lemma_with_rules(
    policy: EffectivePolicy,
    entitlement: UserPlanEntitlementRecord,
    rules: Seq<UsagePolicyRule>,
    from: nat,
    app_timezone: Option<Seq<char>>,
)
    requires
        all_valid(rules),
        sound(policy.request_rules),
        sound(policy.cost_rules),
    ensures
        effective_policy::with_rules(policy, entitlement, rules, from, app_timezone) is Ok,
        ({
            let then = effective_policy::with_rules(
                policy,
                entitlement,
                rules,
                from,
                app_timezone,
            )->Ok_0;
            &&& tightens(policy, then)
            &&& then.valid_until == policy.valid_until
            &&& sound(then.request_rules)
            &&& sound(then.cost_rules)
            &&& forall|j: int|
                from <= j < rules.len() ==> respects(
                    then,
                    entitlement,
                    #[trigger] rules[j],
                    app_timezone,
                )
        }),
    decreases rules.len() - from,
{
    if from < rules.len() {
        let rule = rules[from as int];
        lemma_with_rule(policy, entitlement, rule, app_timezone);
        let next = effective_policy::with_rule(policy, entitlement, rule, app_timezone)->Ok_0;
        lemma_with_rules(next, entitlement, rules, from + 1, app_timezone);
        let then = effective_policy::with_rules(
            next,
            entitlement,
            rules,
            from + 1,
            app_timezone,
        )->Ok_0;
        lemma_tightens_transitive(policy, next, then);
        lemma_respects_stays(next, then, entitlement, rule, app_timezone);
    }
}

proof fn lemma_with_policies(
    policy: EffectivePolicy,
    entitlement: UserPlanEntitlementRecord,
    policies: Seq<UsagePolicy>,
    from: nat,
    app_timezone: Option<Seq<char>>,
)
    requires
        forall|i: int| 0 <= i < policies.len() ==> (#[trigger] policies[i]).fault() is None,
        sound(policy.request_rules),
        sound(policy.cost_rules),
    ensures
        effective_policy::with_policies(policy, entitlement, policies, from, app_timezone) is Ok,
        ({
            let then = effective_policy::with_policies(
                policy,
                entitlement,
                policies,
                from,
                app_timezone,
            )->Ok_0;
            &&& tightens(policy, then)
            &&& then.valid_until == policy.valid_until
            &&& sound(then.request_rules)
            &&& sound(then.cost_rules)
            &&& forall|i: int, j: int|
                from <= i < policies.len() && 0 <= j < policies[i].rules.len() ==> respects(
                    then,
                    entitlement,
                    #[trigger] policies[i].rules[j],
                    app_timezone,
                )
        }),
    decreases policies.len() - from,
{
    if from < policies.len() {
        let rules = policies[from as int].rules;
        assert(all_valid(rules)) by {
            assert forall|j: int| 0 <= j < rules.len() implies {
                let rule = #[trigger] rules[j];
                &&& rule.counts_requests() ==> rule.spec_request_limit() is Some
                &&& rule.metric is ActualCostUsd ==> rule.spec_cost_limit_units() is Some
                &&& rule.metric is Concurrency <==> rule.window is Concurrent
                &&& rule.window is CalendarWeek ==> 1 <= rule.window->week_start <= 7
            } by {
                policy_parser::a_valid_rule_has_its_limit(policies[from as int], j);
            }
        }
        lemma_with_rules(policy, entitlement, rules, 0, app_timezone);
        let next = effective_policy::with_rules(
            policy,
            entitlement,
            rules,
            0,
            app_timezone,
        )->Ok_0;
        lemma_with_policies(next, entitlement, policies, from + 1, app_timezone);
        let then = effective_policy::with_policies(
            next,
            entitlement,
            policies,
            from + 1,
            app_timezone,
        )->Ok_0;
        lemma_tightens_transitive(policy, next, then);
        assert forall|i: int, j: int|
            from <= i < policies.len() && 0 <= j < policies[i].rules.len() implies respects(
            then,
            entitlement,
            #[trigger] policies[i].rules[j],
            app_timezone,
        ) by {
            if i == from {
                lemma_respects_stays(next, then, entitlement, rules[j], app_timezone);
            }
        }
    }
}

/// The usage policies of a plan can be read.
pub open spec fn readable(entitlement: UserPlanEntitlementRecord) -> bool {
    policy_parser::policies_of(entitlement.entitlements_snapshot) is Ok
}

/// The usage policies of a plan.
pub open spec fn read(entitlement: UserPlanEntitlementRecord) -> Seq<UsagePolicy> {
    policy_parser::policies_of(entitlement.entitlements_snapshot)->Ok_0
}

proof fn lemma_with_entitlement(
    policy: EffectivePolicy,
    entitlement: UserPlanEntitlementRecord,
    now: u64,
    app_timezone: Option<Seq<char>>,
)
    requires
        sound(policy.request_rules),
        sound(policy.cost_rules),
        policy.valid_until is Some ==> policy.valid_until->0 > now,
    ensures
        effective_policy::with_entitlement(policy, entitlement, now, app_timezone) is Ok <==> (
        entitlement.active_at(now) ==> readable(entitlement)),
        effective_policy::with_entitlement(policy, entitlement, now, app_timezone) matches Ok(then)
            ==> {
            &&& tightens(policy, then)
            &&& sound(then.request_rules)
            &&& sound(then.cost_rules)
            &&& then.valid_until is Some ==> then.valid_until->0 > now
            &&& then.valid_until == if entitlement.active_at(now) {
                Some(effective_policy::lower(policy.valid_until, entitlement.expires_at_unix_secs))
            } else {
                policy.valid_until
            }
            &&& entitlement.active_at(now) ==> forall|i: int, j: int|
                0 <= i < read(entitlement).len() && 0 <= j < read(entitlement)[i].rules.len()
                    ==> respects(
                    then,
                    entitlement,
                    #[trigger] read(entitlement)[i].rules[j],
                    app_timezone,
                )
        },
{
    if entitlement.active_at(now) && readable(entitlement) {
        policy_parser::policies_that_are_read_are_valid(entitlement.entitlements_snapshot);
        let bounded = EffectivePolicy {
            valid_until: Some(
                effective_policy::lower(policy.valid_until, entitlement.expires_at_unix_secs),
            ),
            ..policy
        };
        lemma_with_policies(bounded, entitlement, read(entitlement), 0, app_timezone);
        let then = effective_policy::with_policies(
            bounded,
            entitlement,
            read(entitlement),
            0,
            app_timezone,
        )->Ok_0;
        lemma_tightens_transitive(policy, bounded, then);
    }
}

proof fn lemma_with_entitlements(
    policy: EffectivePolicy,
    entitlements: Seq<UserPlanEntitlementRecord>,
    from: nat,
    now: u64,
    app_timezone: Option<Seq<char>>,
)
    requires
        sound(policy.request_rules),
        sound(policy.cost_rules),
        policy.valid_until is Some ==> policy.valid_until->0 > now,
    ensures
        effective_policy::with_entitlements(
            policy,
            entitlements,
            from,
            now,
            app_timezone,
        ) is Ok <==> (forall|e: int|
            from <= e < entitlements.len() && (#[trigger] entitlements[e]).active_at(now)
                ==> readable(entitlements[e])),
        effective_policy::with_entitlements(
            policy,
            entitlements,
            from,
            now,
            app_timezone,
        ) matches Ok(then) ==> {
            &&& tightens(policy, then)
            &&& sound(then.request_rules)
            &&& sound(then.cost_rules)
            &&& then.valid_until is Some ==> then.valid_until->0 > now
            &&& forall|e: int|
                from <= e < entitlements.len() && (#[trigger] entitlements[e]).active_at(now)
                    ==> covers(then, entitlements[e], app_timezone)
        },
    decreases entitlements.len() - from,
{
    if from < entitlements.len() {
        let entitlement = entitlements[from as int];
        lemma_with_entitlement(policy, entitlement, now, app_timezone);
        match effective_policy::with_entitlement(policy, entitlement, now, app_timezone) {
            Ok(next) => {
                lemma_with_entitlements(next, entitlements, from + 1, now, app_timezone);
                match effective_policy::with_entitlements(
                    next,
                    entitlements,
                    from + 1,
                    now,
                    app_timezone,
                ) {
                    Ok(then) => {
                        lemma_tightens_transitive(policy, next, then);
                        assert forall|e: int|
                            from <= e < entitlements.len() && (
                            #[trigger] entitlements[e]).active_at(now) implies covers(
                            then,
                            entitlements[e],
                            app_timezone,
                        ) by {
                            if e == from {
                                lemma_covers_stays(next, then, entitlement, app_timezone);
                            }
                        }
                    },
                    Err(_) => {},
                }
            },
            Err(_) => {
                assert(entitlements[from as int].active_at(now));
            },
        }
    }
}

/// The policy is at least as strict as each rule of a plan, and does not outlive the plan.
pub open spec fn covers(
    policy: EffectivePolicy,
    entitlement: UserPlanEntitlementRecord,
    app_timezone: Option<Seq<char>>,
) -> bool {
    &&& policy.valid_until is Some
    &&& policy.valid_until->0 <= entitlement.expires_at_unix_secs
    &&& forall|i: int, j: int|
        0 <= i < read(entitlement).len() && 0 <= j < read(entitlement)[i].rules.len() ==> respects(
            policy,
            entitlement,
            #[trigger] read(entitlement)[i].rules[j],
            app_timezone,
        )
}

proof fn lemma_covers_stays(
    a: EffectivePolicy,
    b: EffectivePolicy,
    entitlement: UserPlanEntitlementRecord,
    app_timezone: Option<Seq<char>>,
)
    requires
        covers(a, entitlement, app_timezone),
        tightens(a, b),
    ensures
        covers(b, entitlement, app_timezone),
{
    assert forall|i: int, j: int|
        0 <= i < read(entitlement).len() && 0 <= j < read(entitlement)[i].rules.len() implies respects(
        b,
        entitlement,
        #[trigger] read(entitlement)[i].rules[j],
        app_timezone,
    ) by {
        lemma_respects_stays(a, b, entitlement, read(entitlement)[i].rules[j], app_timezone);
    }
}

proof fn lemma_empty_is_sound()
    ensures
        sound(effective_policy::no_policy().request_rules),
        sound(effective_policy::no_policy().cost_rules),
{
}

/// A policy can be compiled exactly where the usage policies of every active plan can be read: no
/// rule that was valid loses its limit.
pub proof fn compiling_fails_only_where_reading_fails(
    entitlements: Seq<UserPlanEntitlementRecord>,
    now: u64,
    app_timezone: Option<Seq<char>>,
)
    ensures
        effective_policy::compiled(entitlements, now, app_timezone) is Ok <==> (forall|e: int|
            0 <= e < entitlements.len() && (#[trigger] entitlements[e]).active_at(now) ==> readable(
                entitlements[e],
            )),
{
    lemma_empty_is_sound();
    lemma_with_entitlements(
        effective_policy::no_policy(),
        entitlements,
        0,
        now,
        app_timezone,
    );
}

/// The policy of a user is at least as strict as every rule of every active plan. It is valid at the
/// moment that it was compiled for, and not beyond the first moment at which such a plan expires.
pub proof fn every_active_rule_is_respected(
    entitlements: Seq<UserPlanEntitlementRecord>,
    now: u64,
    app_timezone: Option<Seq<char>>,
    e: int,
)
    requires
        effective_policy::compiled(entitlements, now, app_timezone) is Ok,
        0 <= e < entitlements.len(),
        entitlements[e].active_at(now),
    ensures
        covers(
            effective_policy::compiled(entitlements, now, app_timezone)->Ok_0,
            entitlements[e],
            app_timezone,
        ),
        effective_policy::compiled(entitlements, now, app_timezone)->Ok_0.valid_until->0 > now,
{
    lemma_empty_is_sound();
    lemma_with_entitlements(
        effective_policy::no_policy(),
        entitlements,
        0,
        now,
        app_timezone,
    );
}

proof fn lemma_last_entitlement(
    policy: EffectivePolicy,
    entitlements: Seq<UserPlanEntitlementRecord>,
    from: nat,
    now: u64,
    app_timezone: Option<Seq<char>>,
)
    requires
        from < entitlements.len(),
    ensures
        effective_policy::with_entitlements(policy, entitlements, from, now, app_timezone)
            == match effective_policy::with_entitlements(
            policy,
            entitlements.drop_last(),
            from,
            now,
            app_timezone,
        ) {
            Ok(then) => effective_policy::with_entitlement(
                then,
                entitlements.last(),
                now,
                app_timezone,
            ),
            Err(fault) => Err(fault),
        },
    decreases entitlements.len() - from,
{
    if from + 1 < entitlements.len() {
        match effective_policy::with_entitlement(
            policy,
            entitlements[from as int],
            now,
            app_timezone,
        ) {
            Ok(next) => lemma_last_entitlement(next, entitlements, from + 1, now, app_timezone),
            Err(_) => {},
        }
    } else {
        reveal_with_fuel(effective_policy::with_entitlements, 2);
    }
}

/// The plans that are active at a moment.
pub open spec fn active_plans(
    entitlements: Seq<UserPlanEntitlementRecord>,
    now: u64,
) -> Seq<UserPlanEntitlementRecord> {
    entitlements.filter(|e: UserPlanEntitlementRecord| e.active_at(now))
}

/// Plans that are not active change nothing: the policy of a user, and whether there is one, is that
/// of the active plans alone.
pub proof fn only_active_plans_count(
    entitlements: Seq<UserPlanEntitlementRecord>,
    now: u64,
    app_timezone: Option<Seq<char>>,
)
    ensures
        effective_policy::compiled(entitlements, now, app_timezone) == effective_policy::compiled(
            active_plans(entitlements, now),
            now,
            app_timezone,
        ),
    decreases entitlements.len(),
{
    reveal(Seq::filter);
    if entitlements.len() > 0 {
        let policy = effective_policy::no_policy();
        let active = active_plans(entitlements, now);
        only_active_plans_count(entitlements.drop_last(), now, app_timezone);
        lemma_last_entitlement(policy, entitlements, 0, now, app_timezone);
        if entitlements.last().active_at(now) {
            assert(active.drop_last() =~= active_plans(entitlements.drop_last(), now));
            lemma_last_entitlement(policy, active, 0, now, app_timezone);
        }
    }
}

proof fn lemma_valid_until(
    policy: EffectivePolicy,
    entitlements: Seq<UserPlanEntitlementRecord>,
    from: nat,
    now: u64,
    app_timezone: Option<Seq<char>>,
)
    requires
        sound(policy.request_rules),
        sound(policy.cost_rules),
        policy.valid_until is Some ==> policy.valid_until->0 > now,
        effective_policy::with_entitlements(
            policy,
            entitlements,
            from,
            now,
            app_timezone,
        ) is Ok,
    ensures
        ({
            let until = effective_policy::with_entitlements(
                policy,
                entitlements,
                from,
                now,
                app_timezone,
            )->Ok_0.valid_until;
            ||| until == policy.valid_until
            ||| exists|e: int|
                from <= e < entitlements.len() && (#[trigger] entitlements[e]).active_at(now)
                    && until == Some(entitlements[e].expires_at_unix_secs)
        }),
    decreases entitlements.len() - from,
{
    if from < entitlements.len() {
        let entitlement = entitlements[from as int];
        lemma_with_entitlement(policy, entitlement, now, app_timezone);
        let next = effective_policy::with_entitlement(
            policy,
            entitlement,
            now,
            app_timezone,
        )->Ok_0;
        lemma_valid_until(next, entitlements, from + 1, now, app_timezone);
    }
}

/// The policy of a user is valid until the first of the active plans expires, and without an end
/// exactly where there is no active plan.
pub proof fn a_policy_is_valid_until_the_first_plan_expires(
    entitlements: Seq<UserPlanEntitlementRecord>,
    now: u64,
    app_timezone: Option<Seq<char>>,
)
    requires
        effective_policy::compiled(entitlements, now, app_timezone) is Ok,
    ensures
        match effective_policy::compiled(entitlements, now, app_timezone)->Ok_0.valid_until {
            Some(until) => {
                &&& until > now
                &&& exists|e: int|
                    0 <= e < entitlements.len() && (#[trigger] entitlements[e]).active_at(now)
                        && entitlements[e].expires_at_unix_secs == until
                &&& forall|e: int|
                    0 <= e < entitlements.len() && (#[trigger] entitlements[e]).active_at(now)
                        ==> until <= entitlements[e].expires_at_unix_secs
            },
            None => forall|e: int|
                0 <= e < entitlements.len() ==> !(#[trigger] entitlements[e]).active_at(now),
        },
{
    let policy = effective_policy::no_policy();
    lemma_empty_is_sound();
    lemma_with_entitlements(policy, entitlements, 0, now, app_timezone);
    lemma_valid_until(policy, entitlements, 0, now, app_timezone);
    let then = effective_policy::compiled(entitlements, now, app_timezone)->Ok_0;
    assert forall|e: int|
        0 <= e < entitlements.len() && (#[trigger] entitlements[e]).active_at(
            now,
        ) implies then.valid_until is Some && then.valid_until->0
        <= entitlements[e].expires_at_unix_secs by {
        assert(covers(then, entitlements[e], app_timezone));
    }
}

/// The windows of a compiled policy can all be placed in time: none is a concurrency window, each
/// subscription period comes with its start and its end, and each week starts on a weekday.
pub proof fn compiled_windows_are_sound(
    entitlements: Seq<UserPlanEntitlementRecord>,
    now: u64,
    app_timezone: Option<Seq<char>>,
)
    requires
        effective_policy::compiled(entitlements, now, app_timezone) is Ok,
    ensures
        sound(effective_policy::compiled(entitlements, now, app_timezone)->Ok_0.request_rules),
        sound(effective_policy::compiled(entitlements, now, app_timezone)->Ok_0.cost_rules),
{
    lemma_empty_is_sound();
    lemma_with_entitlements(
        effective_policy::no_policy(),
        entitlements,
        0,
        now,
        app_timezone,
    );
}

/// The subscription periods of two plans are never taken for the same window, nor is one taken for a
/// window that is no subscription period.
pub proof fn subscription_periods_stay_apart(
    first: Seq<char>,
    second: Seq<char>,
    window: UsagePolicyWindow,
    app_timezone: Option<Seq<char>>,
)
    requires
        first != second,
        !(window is SubscriptionPeriod),
    ensures
        effective_policy::rule_identity(
            UsagePolicyWindow::SubscriptionPeriod,
            first,
            app_timezone,
        ) != effective_policy::rule_identity(
            UsagePolicyWindow::SubscriptionPeriod,
            second,
            app_timezone,
        ),
        effective_policy::rule_identity(
            UsagePolicyWindow::SubscriptionPeriod,
            first,
            app_timezone,
        ) != effective_policy::rule_identity(window, second, app_timezone),
{
    reveal_strlit("subscription:");
    reveal_strlit("rolling:");
    reveal_strlit("calendar_day:");
    reveal_strlit("calendar_week:");
    reveal_strlit("calendar_month:");
    reveal_strlit("concurrent");
    let a = "subscription:"@ + first;
    let b = "subscription:"@ + second;
    let c = effective_policy::rule_identity(window, second, app_timezone);
    if a == b {
        assert(a.skip(13) =~= first);
        assert(b.skip(13) =~= second);
    }
    assert(a[0] == 's');
    assert(c[0] != 's');
}

/// Rolling windows of different lengths are different windows.
pub proof fn rolling_windows_stay_apart(a: u64, b: u64, app_timezone: Option<Seq<char>>)
    requires
        a != b,
    ensures
        effective_policy::identity_of(
            UsagePolicyWindow::Rolling { seconds: a },
            app_timezone,
        ) != effective_policy::identity_of(
            UsagePolicyWindow::Rolling { seconds: b },
            app_timezone,
        ),
{
    reveal_strlit("rolling:");
    let x = "rolling:"@ + text::decimal(a as nat);
    let y = "rolling:"@ + text::decimal(b as nat);
    if x == y {
        assert(x.skip(8) =~= text::decimal(a as nat));
        assert(y.skip(8) =~= text::decimal(b as nat));
        text::decimal_tells_numbers_apart(a as nat, b as nat);
    }
}

} // verus!
