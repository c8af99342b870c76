//! Where the limits of a user's policy come from.

use crate::binary64;
use crate::effective_policy;
use crate::effective_policy::{EffectivePolicy, LimitRule, UserPlanEntitlementRecord};
use crate::effective_policy_laws;
use crate::ledger_input::MAX_DATABASE_INTEGER;
use crate::token_map;
use crate::token_map::Entries;
use crate::usage_policy::{
    UsagePolicy, UsagePolicyMetric, UsagePolicyRule, MAX_USAGE_POLICY_EXACT_INTEGER,
};
use vstd::prelude::*;

verus! {

/// The plans of a user at a moment, read where calendar windows without a time zone are read in that
/// of the application.
pub struct Holdings {
    pub entitlements: Seq<UserPlanEntitlementRecord>,
    pub now: u64,
    pub app_timezone: Option<Seq<char>>,
}

impl Holdings {
    /// Plan `e` is active, its policy `i` can be read, and that one has a rule `j`.
    pub open spec fn has(self, e: int, i: int, j: int) -> bool {
        &&& 0 <= e < self.entitlements.len()
        &&& self.entitlements[e].active_at(self.now)
        &&& 0 <= i < effective_policy_laws::read(self.entitlements[e]).len()
        &&& 0 <= j < effective_policy_laws::read(self.entitlements[e])[i].rules.len()
    }

    /// Rule `j` of policy `i` of plan `e`.
    pub open spec fn rule(self, e: int, i: int, j: int) -> UsagePolicyRule {
        effective_policy_laws::read(self.entitlements[e])[i].rules[j]
    }

    /// The limit `limit` on the window `id` is that of rule `j` of policy `i` of plan `e`, which is
    /// counted as `counted`.
    pub open spec fn gives(
        self,
        e: int,
        i: int,
        j: int,
        id: Seq<char>,
        limit: LimitRule,
        counted: Option<u64>,
    ) -> bool {
        let plan = self.entitlements[e];
        let window = self.rule(e, i, j).window;
        &&& id == effective_policy::rule_identity(window, plan.id@, self.app_timezone)
        &&& counted is Some
        &&& limit == effective_policy::limit_rule(plan, window, counted->0)
    }

    /// A limit on requests is that of an active rule.
    pub open spec fn give_requests(self, id: Seq<char>, limit: LimitRule) -> bool {
        exists|e: int, i: int, j: int| #[trigger]
            self.has(e, i, j) && self.rule(e, i, j).metric is RequestCount && self.gives(
                e,
                i,
                j,
                id,
                limit,
                self.rule(e, i, j).spec_request_limit(),
            )
    }

    /// A limit on cost is that of an active rule.
    pub open spec fn give_cost(self, id: Seq<char>, limit: LimitRule) -> bool {
        exists|e: int, i: int, j: int| #[trigger]
            self.has(e, i, j) && self.rule(e, i, j).metric is ActualCostUsd && self.gives(
                e,
                i,
                j,
                id,
                limit,
                self.rule(e, i, j).spec_cost_limit_units(),
            )
    }

    /// A limit on requests at a time is that of an active rule.
    pub open spec fn give_concurrency(self, limit: u64) -> bool {
        exists|e: int, i: int, j: int| #[trigger]
            self.has(e, i, j) && self.rule(e, i, j).metric is Concurrency && self.rule(
                e,
                i,
                j,
            ).spec_request_limit() == Some(limit)
    }

    /// Every limit of the policy is that of an active rule.
    pub open spec fn give(self, policy: EffectivePolicy) -> bool {
        &&& forall|id: Seq<char>|
            (#[trigger] token_map::lookup(policy.request_rules, id)) is Some ==> self.give_requests(
                id,
                token_map::lookup(policy.request_rules, id)->0,
            )
        &&& forall|id: Seq<char>|
            (#[trigger] token_map::lookup(policy.cost_rules, id)) is Some ==> self.give_cost(
                id,
                token_map::lookup(policy.cost_rules, id)->0,
            )
        &&& policy.concurrency_limit is Some ==> self.give_concurrency(policy.concurrency_limit->0)
    }
}

/// The rules of the policy stand in the order of their windows, each window there once.
pub open spec fn in_order(policy: EffectivePolicy) -> bool {
    token_map::in_key_order(policy.request_rules) && token_map::in_key_order(policy.cost_rules)
}

proof fn lemma_strictest_in_order(rules: Entries<LimitRule>, id: Seq<char>, rule: LimitRule)
    requires
        token_map::in_key_order(rules),
    ensures
        token_map::in_key_order(effective_policy::strictest(rules, id, rule)),
{
    token_map::storing_keeps_the_order(rules, id, rule);
}

proof fn lemma_with_rule(held: Holdings, policy: EffectivePolicy, e: int, i: int, j: int)
    requires
        held.has(e, i, j),
        held.give(policy),
        in_order(policy),
    ensures
        effective_policy::with_rule(
            policy,
            held.entitlements[e],
            held.rule(e, i, j),
            held.app_timezone,
        ) matches Ok(then) ==> held.give(then) && in_order(then),
{
    let plan = held.entitlements[e];
    let rule = held.rule(e, i, j);
    let own = effective_policy::rule_identity(rule.window, plan.id@, held.app_timezone);
    match effective_policy::with_rule(policy, plan, rule, held.app_timezone) {
        Err(_) => {},
        Ok(then) => match rule.metric {
            UsagePolicyMetric::Concurrency => {},
            UsagePolicyMetric::RequestCount => {
                let new = effective_policy::limit_rule(
                    plan,
                    rule.window,
                    rule.spec_request_limit()->0,
                );
                lemma_strictest_in_order(policy.request_rules, own, new);
                assert(held.give_requests(own, new));
                assert forall|id: Seq<char>|
                    (#[trigger] token_map::lookup(then.request_rules, id)) is Some implies
                    held.give_requests(id, token_map::lookup(then.request_rules, id)->0) by {
                    token_map::a_stored_value_is_read_back(policy.request_rules, own, new, id);
                    assert(token_map::lookup(policy.request_rules, id) is Some
                        ==> held.give_requests(
                        id,
                        token_map::lookup(policy.request_rules, id)->0,
                    ));
                }
            },
            UsagePolicyMetric::ActualCostUsd => {
                let new = effective_policy::limit_rule(
                    plan,
                    rule.window,
                    rule.spec_cost_limit_units()->0,
                );
                lemma_strictest_in_order(policy.cost_rules, own, new);
                assert(held.give_cost(own, new));
                assert forall|id: Seq<char>|
                    (#[trigger] token_map::lookup(then.cost_rules, id)) is Some implies
                    held.give_cost(id, token_map::lookup(then.cost_rules, id)->0) by {
                    token_map::a_stored_value_is_read_back(policy.cost_rules, own, new, id);
                    assert(token_map::lookup(policy.cost_rules, id) is Some ==> held.give_cost(
                        id,
                        token_map::lookup(policy.cost_rules, id)->0,
                    ));
                }
            },
        },
    }
}

proof fn lemma_with_rules(held: Holdings, policy: EffectivePolicy, e: int, i: int, from: nat)
    requires
        0 <= e < held.entitlements.len(),
        held.entitlements[e].active_at(held.now),
        0 <= i < effective_policy_laws::read(held.entitlements[e]).len(),
        held.give(policy),
        in_order(policy),
    ensures
        effective_policy::with_rules(
            policy,
            held.entitlements[e],
            effective_policy_laws::read(held.entitlements[e])[i].rules,
            from,
            held.app_timezone,
        ) matches Ok(then) ==> held.give(then) && in_order(then),
    decreases effective_policy_laws::read(held.entitlements[e])[i].rules.len() - from,
{
    if from < effective_policy_laws::read(held.entitlements[e])[i].rules.len() {
        assert(held.has(e, i, from as int));
        lemma_with_rule(held, policy, e, i, from as int);
        match effective_policy::with_rule(
            policy,
            held.entitlements[e],
            held.rule(e, i, from as int),
            held.app_timezone,
        ) {
            Ok(next) => lemma_with_rules(held, next, e, i, from + 1),
            Err(_) => {},
        }
    }
}

proof fn lemma_with_policies(held: Holdings, policy: EffectivePolicy, e: int, from: nat)
    requires
        0 <= e < held.entitlements.len(),
        held.entitlements[e].active_at(held.now),
        held.give(policy),
        in_order(policy),
    ensures
        effective_policy::with_policies(
            policy,
            held.entitlements[e],
            effective_policy_laws::read(held.entitlements[e]),
            from,
            held.app_timezone,
        ) matches Ok(then) ==> held.give(then) && in_order(then),
    decreases effective_policy_laws::read(held.entitlements[e]).len() - from,
{
    let policies: Seq<UsagePolicy> = effective_policy_laws::read(held.entitlements[e]);
    if from < policies.len() {
        lemma_with_rules(held, policy, e, from as int, 0);
        match effective_policy::with_rules(
            policy,
            held.entitlements[e],
            policies[from as int].rules,
            0,
            held.app_timezone,
        ) {
            Ok(next) => lemma_with_policies(held, next, e, from + 1),
            Err(_) => {},
        }
    }
}

proof fn lemma_with_entitlements(held: Holdings, policy: EffectivePolicy, from: nat)
    requires
        held.give(policy),
        in_order(policy),
    ensures
        effective_policy::with_entitlements(
            policy,
            held.entitlements,
            from,
            held.now,
            held.app_timezone,
        ) matches Ok(then) ==> held.give(then) && in_order(then),
    decreases held.entitlements.len() - from,
{
    if from < held.entitlements.len() {
        let entitlement = held.entitlements[from as int];
        if entitlement.active_at(held.now) {
            let bounded = EffectivePolicy {
                valid_until: Some(
                    effective_policy::lower(policy.valid_until, entitlement.expires_at_unix_secs),
                ),
                ..policy
            };
            assert(held.give(bounded));
            lemma_with_policies(held, bounded, from as int, 0);
        }
        match effective_policy::with_entitlement(
            policy,
            entitlement,
            held.now,
            held.app_timezone,
        ) {
            Ok(next) => lemma_with_entitlements(held, next, from + 1),
            Err(_) => {},
        }
    }
}

/// No limit is made up: each limit of the policy of a user is that of a rule of an active plan, on the
/// window of that rule. The rules stand in the order of their windows, each window there once.
pub proof fn every_limit_is_that_of_an_active_rule(held: Holdings)
    requires
        effective_policy::compiled(held.entitlements, held.now, held.app_timezone) is Ok,
    ensures
        held.give(
            effective_policy::compiled(held.entitlements, held.now, held.app_timezone)->Ok_0,
        ),
        in_order(
            effective_policy::compiled(held.entitlements, held.now, held.app_timezone)->Ok_0,
        ),
{
    lemma_with_entitlements(held, effective_policy::no_policy(), 0);
}

/// Every limit of the policy of a user is at least one, and no more than the database holds.
pub proof fn every_limit_can_be_kept(held: Holdings, id: Seq<char>)
    requires
        effective_policy::compiled(held.entitlements, held.now, held.app_timezone) is Ok,
    ensures
        ({
            let policy = effective_policy::compiled(
                held.entitlements,
                held.now,
                held.app_timezone,
            )->Ok_0;
            let on_requests = token_map::lookup(policy.request_rules, id);
            let on_cost = token_map::lookup(policy.cost_rules, id);
            &&& on_requests is Some ==> 1 <= on_requests->0.limit <= MAX_DATABASE_INTEGER
            &&& on_cost is Some ==> 1 <= on_cost->0.limit <= MAX_DATABASE_INTEGER
            &&& policy.concurrency_limit is Some ==> 1 <= policy.concurrency_limit->0
                <= MAX_DATABASE_INTEGER
        }),
{
    every_limit_is_that_of_an_active_rule(held);
    let policy = effective_policy::compiled(
        held.entitlements,
        held.now,
        held.app_timezone,
    )->Ok_0;
    let on_requests = token_map::lookup(policy.request_rules, id);
    let on_cost = token_map::lookup(policy.cost_rules, id);
    if on_requests is Some {
        assert(held.give_requests(id, on_requests->0));
        let (e, i, j) = choose|e: int, i: int, j: int| #[trigger]
            held.has(e, i, j) && held.rule(e, i, j).metric is RequestCount && held.gives(
                e,
                i,
                j,
                id,
                on_requests->0,
                held.rule(e, i, j).spec_request_limit(),
            );
        binary64::a_positive_integer_is_at_least_one(
            held.rule(e, i, j).limit,
            MAX_USAGE_POLICY_EXACT_INTEGER,
        );
    }
    if on_cost is Some {
        assert(held.give_cost(id, on_cost->0));
        let (e, i, j) = choose|e: int, i: int, j: int| #[trigger]
            held.has(e, i, j) && held.rule(e, i, j).metric is ActualCostUsd && held.gives(
                e,
                i,
                j,
                id,
                on_cost->0,
                held.rule(e, i, j).spec_cost_limit_units(),
            );
        binary64::a_positive_amount_is_at_least_a_unit(held.rule(e, i, j).limit);
    }
    if policy.concurrency_limit is Some {
        let limit = policy.concurrency_limit->0;
        assert(held.give_concurrency(limit));
        let (e, i, j) = choose|e: int, i: int, j: int| #[trigger]
            held.has(e, i, j) && held.rule(e, i, j).metric is Concurrency && held.rule(
                e,
                i,
                j,
            ).spec_request_limit() == Some(limit);
        binary64::a_positive_integer_is_at_least_one(
            held.rule(e, i, j).limit,
            MAX_USAGE_POLICY_EXACT_INTEGER,
        );
    }
}

} // verus!
