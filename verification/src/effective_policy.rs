//! The policy that holds for a user: the rules of all active plans, the strictest of each kind.

use crate::entitlement::Entitlements;
use crate::error;
use crate::error::{GatewayError, GatewayFault};
use crate::policy_parser;
use crate::text;
use crate::timezone;
use crate::token_map;
use crate::token_map::{Entries, TokenMap};
use crate::usage_policy::{
    UsagePolicy, UsagePolicyEntitlement, UsagePolicyMetric, UsagePolicyRule, UsagePolicyWindow,
};
use vstd::prelude::*;
use vstd::string::*;

verus! {

/// A plan that a user holds.
#[derive(Debug)]
pub struct UserPlanEntitlementRecord {
    pub id: String,
    pub user_id: String,
    pub plan_id: String,
    pub payment_order_id: String,
    pub status: String,
    pub starts_at_unix_secs: u64,
    pub expires_at_unix_secs: u64,
    pub entitlements_snapshot: Entitlements,
    pub created_at_unix_secs: u64,
    pub updated_at_unix_secs: u64,
}

impl UserPlanEntitlementRecord {
    /// The plan is active at a moment.
    pub open spec fn active_at(self, now: u64) -> bool {
        self.status@ == "active"@ && self.starts_at_unix_secs <= now < self.expires_at_unix_secs
    }

    /// Whether the plan is active at a moment.
    pub fn is_active_at(&self, now_unix_secs: u64) -> (r: bool)
        ensures
            r == self.active_at(now_unix_secs),
    {
        text::same(self.status.as_str(), "active") && self.starts_at_unix_secs <= now_unix_secs
            && self.expires_at_unix_secs > now_unix_secs
    }
}

/// A limit within a window. One on a subscription period carries the period.
#[derive(Debug, PartialEq, Eq)]
pub struct LimitRule {
    pub window: UsagePolicyWindow,
    pub limit: u64,
    pub entitlement_period: Option<(u64, u64)>,
}

impl Clone for LimitRule {
    fn clone(&self) -> (r: Self)
        ensures
            r == *self,
    {
        LimitRule {
            window: self.window.clone(),
            limit: self.limit,
            entitlement_period: self.entitlement_period,
        }
    }
}

/// A limit on the number of requests.
#[derive(Debug, PartialEq, Eq)]
pub struct EffectiveRequestRule {
    pub identity: String,
    pub window: UsagePolicyWindow,
    pub limit: u64,
    pub entitlement_period: Option<(u64, u64)>,
}

/// A limit on cost.
#[derive(Debug, PartialEq, Eq)]
pub struct EffectiveCostRule {
    pub identity: String,
    pub window: UsagePolicyWindow,
    pub limit_cost_units: u64,
    pub entitlement_period: Option<(u64, u64)>,
}

impl View for EffectiveRequestRule {
    type V = (Seq<char>, LimitRule);

    open spec fn view(&self) -> (Seq<char>, LimitRule) {
        (
            self.identity@,
            LimitRule {
                window: self.window,
                limit: self.limit,
                entitlement_period: self.entitlement_period,
            },
        )
    }
}

impl View for EffectiveCostRule {
    type V = (Seq<char>, LimitRule);

    open spec fn view(&self) -> (Seq<char>, LimitRule) {
        (
            self.identity@,
            LimitRule {
                window: self.window,
                limit: self.limit_cost_units,
                entitlement_period: self.entitlement_period,
            },
        )
    }
}

impl Clone for EffectiveRequestRule {
    fn clone(&self) -> (r: Self)
        ensures
            r == *self,
    {
        EffectiveRequestRule {
            identity: self.identity.clone(),
            window: self.window.clone(),
            limit: self.limit,
            entitlement_period: self.entitlement_period,
        }
    }
}

impl Clone for EffectiveCostRule {
    fn clone(&self) -> (r: Self)
        ensures
            r == *self,
    {
        EffectiveCostRule {
            identity: self.identity.clone(),
            window: self.window.clone(),
            limit_cost_units: self.limit_cost_units,
            entitlement_period: self.entitlement_period,
        }
    }
}

/// The policy that holds for a user, up to the moment at which the first of the user's plans
/// expires.
#[derive(Debug, PartialEq, Eq)]
pub struct EffectivePlanUsagePolicy {
    pub request_rules: Vec<EffectiveRequestRule>,
    pub cost_rules: Vec<EffectiveCostRule>,
    pub concurrency_limit: Option<u64>,
    pub valid_until_unix_secs: Option<u64>,
}

/// A policy by its rules: each kind of window with its limit.
pub struct EffectivePolicy {
    pub request_rules: Entries<LimitRule>,
    pub cost_rules: Entries<LimitRule>,
    pub concurrency_limit: Option<u64>,
    pub valid_until: Option<u64>,
}

/// Rules on requests by their windows and limits.
pub open spec fn request_models(rules: Seq<EffectiveRequestRule>) -> Entries<LimitRule> {
    Seq::new(rules.len(), |i: int| rules[i]@)
}

/// Rules on cost by their windows and limits.
pub open spec fn cost_models(rules: Seq<EffectiveCostRule>) -> Entries<LimitRule> {
    Seq::new(rules.len(), |i: int| rules[i]@)
}

impl View for EffectivePlanUsagePolicy {
    type V = EffectivePolicy;

    open spec fn view(&self) -> EffectivePolicy {
        EffectivePolicy {
            request_rules: request_models(self.request_rules@),
            cost_rules: cost_models(self.cost_rules@),
            concurrency_limit: self.concurrency_limit,
            valid_until: self.valid_until_unix_secs,
        }
    }
}

/// A policy without rules.
pub open spec fn no_policy() -> EffectivePolicy {
    EffectivePolicy {
        request_rules: Entries::empty(),
        cost_rules: Entries::empty(),
        concurrency_limit: None,
        valid_until: None,
    }
}

impl Default for EffectivePlanUsagePolicy {
    fn default() -> (r: Self)
        ensures
            r@ == no_policy(),
    {
        let r = EffectivePlanUsagePolicy {
            request_rules: Vec::new(),
            cost_rules: Vec::new(),
            concurrency_limit: None,
            valid_until_unix_secs: None,
        };
        assert(r@.request_rules =~= Entries::empty());
        assert(r@.cost_rules =~= Entries::empty());
        r
    }
}

impl Clone for EffectivePlanUsagePolicy {
    fn clone(&self) -> (r: Self)
        ensures
            r@ == self@,
            r.request_rules@ == self.request_rules@,
            r.cost_rules@ == self.cost_rules@,
    {
        let mut request_rules: Vec<EffectiveRequestRule> = Vec::new();
        let mut at: usize = 0;
        while at < self.request_rules.len()
            invariant
                at <= self.request_rules@.len(),
                request_rules@ == self.request_rules@.take(at as int),
            decreases self.request_rules@.len() - at,
        {
            request_rules.push(self.request_rules[at].clone());
            assert(request_rules@ =~= self.request_rules@.take(at + 1));
            at += 1;
        }
        let mut cost_rules: Vec<EffectiveCostRule> = Vec::new();
        let mut i: usize = 0;
        while i < self.cost_rules.len()
            invariant
                i <= self.cost_rules@.len(),
                cost_rules@ == self.cost_rules@.take(i as int),
            decreases self.cost_rules@.len() - i,
        {
            cost_rules.push(self.cost_rules[i].clone());
            assert(cost_rules@ =~= self.cost_rules@.take(i + 1));
            i += 1;
        }
        assert(request_rules@ =~= self.request_rules@);
        assert(cost_rules@ =~= self.cost_rules@);
        EffectivePlanUsagePolicy {
            request_rules,
            cost_rules,
            concurrency_limit: self.concurrency_limit,
            valid_until_unix_secs: self.valid_until_unix_secs,
        }
    }
}

/// What tells a window from others. A calendar window without a time zone of its own is in that of
/// the application.
pub open spec fn identity_of(window: UsagePolicyWindow, app_timezone: Option<Seq<char>>) -> Seq<
    char,
> {
    let zone = timezone::effective_timezone(
        text::opt_string(window.timezone_name()),
        app_timezone,
    );
    match window {
        UsagePolicyWindow::Rolling { seconds } => "rolling:"@ + text::decimal(seconds as nat),
        UsagePolicyWindow::CalendarDay { .. } => "calendar_day:"@ + zone,
        UsagePolicyWindow::CalendarWeek { week_start, .. } => "calendar_week:"@ + zone + ":"@
            + text::decimal(week_start as nat),
        UsagePolicyWindow::CalendarMonth { .. } => "calendar_month:"@ + zone,
        UsagePolicyWindow::SubscriptionPeriod => "subscription_period"@,
        UsagePolicyWindow::Concurrent => "concurrent"@,
    }
}

/// What tells a window from others.
pub fn window_identity(window: &UsagePolicyWindow, app_timezone: Option<&str>) -> (r: String)
    ensures
        r@ == identity_of(*window, text::opt_view(app_timezone)),
{
    match window {
        UsagePolicyWindow::Rolling { seconds } => text::joined(
            "rolling:",
            text::decimal_text(*seconds).as_str(),
        ),
        UsagePolicyWindow::CalendarDay { timezone } => text::joined(
            "calendar_day:",
            timezone::effective_timezone_name(text::as_text(timezone), app_timezone).as_str(),
        ),
        UsagePolicyWindow::CalendarWeek { timezone, week_start } => {
            let mut r = text::joined(
                "calendar_week:",
                timezone::effective_timezone_name(text::as_text(timezone), app_timezone).as_str(),
            );
            r.append(":");
            r.append(text::decimal_text(*week_start as u64).as_str());
            r
        },
        UsagePolicyWindow::CalendarMonth { timezone } => text::joined(
            "calendar_month:",
            timezone::effective_timezone_name(text::as_text(timezone), app_timezone).as_str(),
        ),
        UsagePolicyWindow::SubscriptionPeriod => "subscription_period".to_string(),
        UsagePolicyWindow::Concurrent => "concurrent".to_string(),
    }
}

/// What tells the window of a rule from others: a subscription period is that of one plan.
pub open spec fn rule_identity(
    window: UsagePolicyWindow,
    entitlement_id: Seq<char>,
    app_timezone: Option<Seq<char>>,
) -> Seq<char> {
    if window is SubscriptionPeriod {
        "subscription:"@ + entitlement_id
    } else {
        identity_of(window, app_timezone)
    }
}

/// A rule of a plan, with a limit.
pub open spec fn limit_rule(
    entitlement: UserPlanEntitlementRecord,
    window: UsagePolicyWindow,
    limit: u64,
) -> LimitRule {
    LimitRule {
        window,
        limit,
        entitlement_period: if window is SubscriptionPeriod {
            Some((entitlement.starts_at_unix_secs, entitlement.expires_at_unix_secs))
        } else {
            None
        },
    }
}

/// The rules with one more: of two for the same window the one with the lower limit stays, the
/// earlier one of two with the same.
pub open spec fn strictest(
    rules: Entries<LimitRule>,
    identity: Seq<char>,
    rule: LimitRule,
) -> Entries<LimitRule> {
    match token_map::lookup(rules, identity) {
        Some(current) => if rule.limit < current.limit {
            token_map::put(rules, identity, rule)
        } else {
            rules
        },
        None => token_map::put(rules, identity, rule),
    }
}

/// The lower of a limit that may be there and another.
pub open spec fn lower(current: Option<u64>, limit: u64) -> u64 {
    match current {
        Some(current) => if current < limit {
            current
        } else {
            limit
        },
        None => limit,
    }
}

/// The policy with one more rule of a plan.
pub open spec fn with_rule(
    policy: EffectivePolicy,
    entitlement: UserPlanEntitlementRecord,
    rule: UsagePolicyRule,
    app_timezone: Option<Seq<char>>,
) -> Result<EffectivePolicy, GatewayFault> {
    let identity = rule_identity(rule.window, entitlement.id@, app_timezone);
    match rule.metric {
        UsagePolicyMetric::Concurrency => match rule.spec_request_limit() {
            Some(limit) => Ok(
                EffectivePolicy {
                    concurrency_limit: Some(lower(policy.concurrency_limit, limit)),
                    ..policy
                },
            ),
            None => Err(
                GatewayFault::Internal(
                    "validated concurrency usage policy lost its integer limit"@,
                ),
            ),
        },
        UsagePolicyMetric::RequestCount => match rule.spec_request_limit() {
            Some(limit) => Ok(
                EffectivePolicy {
                    request_rules: strictest(
                        policy.request_rules,
                        identity,
                        limit_rule(entitlement, rule.window, limit),
                    ),
                    ..policy
                },
            ),
            None => Err(
                GatewayFault::Internal(
                    "validated request-count usage policy lost its integer limit"@,
                ),
            ),
        },
        UsagePolicyMetric::ActualCostUsd => match rule.spec_cost_limit_units() {
            Some(limit) => Ok(
                EffectivePolicy {
                    cost_rules: strictest(
                        policy.cost_rules,
                        identity,
                        limit_rule(entitlement, rule.window, limit),
                    ),
                    ..policy
                },
            ),
            None => Err(
                GatewayFault::Internal("validated cost usage policy lost its fixed-point limit"@),
            ),
        },
    }
}

/// The policy with the rules from position `from` on.
pub open spec fn with_rules(
    policy: EffectivePolicy,
    entitlement: UserPlanEntitlementRecord,
    rules: Seq<UsagePolicyRule>,
    from: nat,
    app_timezone: Option<Seq<char>>,
) -> Result<EffectivePolicy, GatewayFault>
    decreases rules.len() - from,
{
    if from >= rules.len() {
        Ok(policy)
    } else {
        match with_rule(policy, entitlement, rules[from as int], app_timezone) {
            Ok(then) => with_rules(then, entitlement, rules, from + 1, app_timezone),
            Err(fault) => Err(fault),
        }
    }
}

/// The policy with the rules of the policies from position `from` on.
pub open spec fn with_policies(
    policy: EffectivePolicy,
    entitlement: UserPlanEntitlementRecord,
    policies: Seq<UsagePolicy>,
    from: nat,
    app_timezone: Option<Seq<char>>,
) -> Result<EffectivePolicy, GatewayFault>
    decreases policies.len() - from,
{
    if from >= policies.len() {
        Ok(policy)
    } else {
        match with_rules(policy, entitlement, policies[from as int].rules, 0, app_timezone) {
            Ok(then) => with_policies(then, entitlement, policies, from + 1, app_timezone),
            Err(fault) => Err(fault),
        }
    }
}

/// The policy with what a plan of the user adds at a moment: nothing where it is not active.
pub open spec fn with_entitlement(
    policy: EffectivePolicy,
    entitlement: UserPlanEntitlementRecord,
    now: u64,
    app_timezone: Option<Seq<char>>,
) -> Result<EffectivePolicy, GatewayFault> {
    if !entitlement.active_at(now) {
        Ok(policy)
    } else {
        let bounded = EffectivePolicy {
            valid_until: Some(lower(policy.valid_until, entitlement.expires_at_unix_secs)),
            ..policy
        };
        match policy_parser::policies_of(entitlement.entitlements_snapshot) {
            Ok(policies) => with_policies(bounded, entitlement, policies, 0, app_timezone),
            Err(fault) => Err(GatewayFault::Internal(fault.message())),
        }
    }
}

/// The policy with what the plans from position `from` on add at a moment.
pub open spec fn with_entitlements(
    policy: EffectivePolicy,
    entitlements: Seq<UserPlanEntitlementRecord>,
    from: nat,
    now: u64,
    app_timezone: Option<Seq<char>>,
) -> Result<EffectivePolicy, GatewayFault>
    decreases entitlements.len() - from,
{
    if from >= entitlements.len() {
        Ok(policy)
    } else {
        match with_entitlement(policy, entitlements[from as int], now, app_timezone) {
            Ok(then) => with_entitlements(then, entitlements, from + 1, now, app_timezone),
            Err(fault) => Err(fault),
        }
    }
}

/// The policy that holds for a user with these plans at a moment.
pub open spec fn compiled(
    entitlements: Seq<UserPlanEntitlementRecord>,
    now: u64,
    app_timezone: Option<Seq<char>>,
) -> Result<EffectivePolicy, GatewayFault> {
    with_entitlements(no_policy(), entitlements, 0, now, app_timezone)
}

/// A policy in the making.
struct PolicyBuilder {
    request_rules: TokenMap<LimitRule>,
    cost_rules: TokenMap<LimitRule>,
    concurrency_limit: Option<u64>,
    valid_until: Option<u64>,
}

impl PolicyBuilder {
    spec fn model(&self) -> EffectivePolicy {
        EffectivePolicy {
            request_rules: self.request_rules@,
            cost_rules: self.cost_rules@,
            concurrency_limit: self.concurrency_limit,
            valid_until: self.valid_until,
        }
    }

    spec fn wf(&self) -> bool {
        self.request_rules.wf() && self.cost_rules.wf()
    }

    fn add_rule(
        &mut self,
        entitlement: &UserPlanEntitlementRecord,
        rule: &UsagePolicyRule,
        app_timezone: Option<&str>,
    ) -> (r: Result<(), GatewayError>)
        requires
            old(self).wf(),
        ensures
            final(self).wf(),
            match with_rule(old(self).model(), *entitlement, *rule, text::opt_view(app_timezone)) {
                Ok(then) => r is Ok && final(self).model() == then,
                Err(fault) => r is Err && r->Err_0@ == fault,
            },
    {
        match rule.metric {
            UsagePolicyMetric::Concurrency => {
                let limit: u64 = match rule.request_limit() {
                    Some(limit) => limit,
                    None => return Err(
                        error::internal(
                            "validated concurrency usage policy lost its integer limit",
                        ),
                    ),
                };
                self.concurrency_limit = Some(lower_of(self.concurrency_limit, limit));
            },
            UsagePolicyMetric::RequestCount => {
                let limit: u64 = match rule.request_limit() {
                    Some(limit) => limit,
                    None => return Err(
                        error::internal(
                            "validated request-count usage policy lost its integer limit",
                        ),
                    ),
                };
                add_limit(
                    &mut self.request_rules,
                    identity_of_rule(entitlement, &rule.window, app_timezone),
                    rule_with_limit(entitlement, &rule.window, limit),
                );
            },
            UsagePolicyMetric::ActualCostUsd => {
                let limit: u64 = match rule.cost_limit_units() {
                    Some(limit) => limit,
                    None => return Err(
                        error::internal(
                            "validated cost usage policy lost its fixed-point limit",
                        ),
                    ),
                };
                add_limit(
                    &mut self.cost_rules,
                    identity_of_rule(entitlement, &rule.window, app_timezone),
                    rule_with_limit(entitlement, &rule.window, limit),
                );
            },
        }
        Ok(())
    }

    fn add_policies(
        &mut self,
        entitlement: &UserPlanEntitlementRecord,
        policies: &Vec<UsagePolicyEntitlement>,
        app_timezone: Option<&str>,
    ) -> (r: Result<(), GatewayError>)
        requires
            old(self).wf(),
        ensures
            final(self).wf(),
            match with_policies(
                old(self).model(),
                *entitlement,
                policy_parser::models(policies@),
                0,
                text::opt_view(app_timezone),
            ) {
                Ok(then) => r is Ok && final(self).model() == then,
                Err(fault) => r is Err && r->Err_0@ == fault,
            },
    {
        let ghost zone = text::opt_view(app_timezone);
        let ghost read = policy_parser::models(policies@);
        let ghost expected = with_policies(self.model(), *entitlement, read, 0, zone);
        let mut i: usize = 0;
        while i < policies.len()
            invariant
                self.wf(),
                zone == text::opt_view(app_timezone),
                expected == with_policies(old(self).model(), *entitlement, read, 0, zone),
                read == policy_parser::models(policies@),
                i <= policies@.len(),
                expected == with_policies(self.model(), *entitlement, read, i as nat, zone),
            decreases policies@.len() - i,
        {
            let rules = &policies[i].rules;
            assert(read[i as int].rules == rules@);
            let ghost after_rules = with_rules(self.model(), *entitlement, rules@, 0, zone);
            let mut j: usize = 0;
            while j < rules.len()
                invariant
                    self.wf(),
                    zone == text::opt_view(app_timezone),
                    read == policy_parser::models(policies@),
                    expected == with_policies(old(self).model(), *entitlement, read, 0, zone),
                    j <= rules@.len(),
                    after_rules == with_rules(self.model(), *entitlement, rules@, j as nat, zone),
                    after_rules is Err ==> expected == Err::<EffectivePolicy, GatewayFault>(
                        after_rules->Err_0,
                    ),
                decreases rules@.len() - j,
            {
                self.add_rule(entitlement, &rules[j], app_timezone)?;
                j += 1;
            }
            i += 1;
        }
        Ok(())
    }

    fn add_entitlement(
        &mut self,
        entitlement: &UserPlanEntitlementRecord,
        now_unix_secs: u64,
        app_timezone: Option<&str>,
    ) -> (r: Result<(), GatewayError>)
        requires
            old(self).wf(),
        ensures
            final(self).wf(),
            match with_entitlement(
                old(self).model(),
                *entitlement,
                now_unix_secs,
                text::opt_view(app_timezone),
            ) {
                Ok(then) => r is Ok && final(self).model() == then,
                Err(fault) => r is Err && r->Err_0@ == fault,
            },
    {
        if !entitlement.is_active_at(now_unix_secs) {
            return Ok(());
        }
        self.valid_until = Some(lower_of(self.valid_until, entitlement.expires_at_unix_secs));
        match policy_parser::parse_usage_policy_entitlements(&entitlement.entitlements_snapshot) {
            Ok(policies) => self.add_policies(entitlement, &policies, app_timezone),
            Err(e) => Err(GatewayError::Internal(e.message())),
        }
    }
}

fn lower_of(current: Option<u64>, limit: u64) -> (r: u64)
    ensures
        r == lower(current, limit),
{
    match current {
        Some(current) => if current < limit {
            current
        } else {
            limit
        },
        None => limit,
    }
}

fn identity_of_rule(
    entitlement: &UserPlanEntitlementRecord,
    window: &UsagePolicyWindow,
    app_timezone: Option<&str>,
) -> (r: String)
    ensures
        r@ == rule_identity(*window, entitlement.id@, text::opt_view(app_timezone)),
{
    match window {
        UsagePolicyWindow::SubscriptionPeriod => text::joined(
            "subscription:",
            entitlement.id.as_str(),
        ),
        _ => window_identity(window, app_timezone),
    }
}

fn rule_with_limit(
    entitlement: &UserPlanEntitlementRecord,
    window: &UsagePolicyWindow,
    limit: u64,
) -> (r: LimitRule)
    ensures
        r == limit_rule(*entitlement, *window, limit),
{
    LimitRule {
        window: window.clone(),
        limit,
        entitlement_period: match window {
            UsagePolicyWindow::SubscriptionPeriod => Some(
                (entitlement.starts_at_unix_secs, entitlement.expires_at_unix_secs),
            ),
            _ => None,
        },
    }
}

fn add_limit(rules: &mut TokenMap<LimitRule>, identity: String, rule: LimitRule)
    requires
        old(rules).wf(),
    ensures
        final(rules).wf(),
        final(rules)@ == strictest(old(rules)@, identity@, rule),
{
    let stricter = match rules.get(identity.as_str()) {
        Some(current) => rule.limit < current.limit,
        None => true,
    };
    if stricter {
        rules.insert(identity, rule);
    }
}

/// The policy that holds for a user with these plans at a moment. `app_timezone` is the time zone
/// that is configured for the application.
pub fn compile_effective_policy(
    entitlements: &Vec<UserPlanEntitlementRecord>,
    now_unix_secs: u64,
    app_timezone: Option<&str>,
) -> (r: Result<EffectivePlanUsagePolicy, GatewayError>)
    ensures
        match compiled(entitlements@, now_unix_secs, text::opt_view(app_timezone)) {
            Ok(policy) => r is Ok && r->Ok_0@ == policy,
            Err(fault) => r is Err && r->Err_0@ == fault,
        },
{
    let mut builder = PolicyBuilder {
        request_rules: TokenMap::new(),
        cost_rules: TokenMap::new(),
        concurrency_limit: None,
        valid_until: None,
    };
    let ghost zone = text::opt_view(app_timezone);
    let mut at: usize = 0;
    while at < entitlements.len()
        invariant
            builder.wf(),
            zone == text::opt_view(app_timezone),
            at <= entitlements@.len(),
            compiled(entitlements@, now_unix_secs, zone) == with_entitlements(
                builder.model(),
                entitlements@,
                at as nat,
                now_unix_secs,
                zone,
            ),
        decreases entitlements@.len() - at,
    {
        builder.add_entitlement(&entitlements[at], now_unix_secs, app_timezone)?;
        at += 1;
    }
    let mut request_rules: Vec<EffectiveRequestRule> = Vec::new();
    let mut i: usize = 0;
    while i < builder.request_rules.len()
        invariant
            i <= builder.request_rules@.len(),
            request_models(request_rules@) == builder.request_rules@.take(i as int),
        decreases builder.request_rules@.len() - i,
    {
        let rule = builder.request_rules.value_at(i);
        let ghost before = request_models(request_rules@);
        request_rules.push(
            EffectiveRequestRule {
                identity: builder.request_rules.key_at(i).to_string(),
                window: rule.window.clone(),
                limit: rule.limit,
                entitlement_period: rule.entitlement_period,
            },
        );
        proof {
            assert(builder.request_rules@.take(i + 1) =~= builder.request_rules@.take(
                i as int,
            ).push(builder.request_rules@[i as int]));
            assert(request_models(request_rules@) =~= before.push(request_rules@[i as int]@));
        }
        i += 1;
    }
    let mut cost_rules: Vec<EffectiveCostRule> = Vec::new();
    let mut j: usize = 0;
    while j < builder.cost_rules.len()
        invariant
            j <= builder.cost_rules@.len(),
            cost_models(cost_rules@) == builder.cost_rules@.take(j as int),
        decreases builder.cost_rules@.len() - j,
    {
        let rule = builder.cost_rules.value_at(j);
        let ghost before = cost_models(cost_rules@);
        cost_rules.push(
            EffectiveCostRule {
                identity: builder.cost_rules.key_at(j).to_string(),
                window: rule.window.clone(),
                limit_cost_units: rule.limit,
                entitlement_period: rule.entitlement_period,
            },
        );
        proof {
            assert(builder.cost_rules@.take(j + 1) =~= builder.cost_rules@.take(j as int).push(
                builder.cost_rules@[j as int],
            ));
            assert(cost_models(cost_rules@) =~= before.push(cost_rules@[j as int]@));
        }
        j += 1;
    }
    proof {
        assert(builder.request_rules@.take(i as int) =~= builder.request_rules@);
        assert(builder.cost_rules@.take(j as int) =~= builder.cost_rules@);
    }
    Ok(
        EffectivePlanUsagePolicy {
            request_rules,
            cost_rules,
            concurrency_limit: builder.concurrency_limit,
            valid_until_unix_secs: builder.valid_until,
        },
    )
}

/// Whether a policy that was compiled earlier must be compiled anew at a moment: one of the plans
/// that it rests on has expired.
pub fn policy_is_stale(policy: &EffectivePlanUsagePolicy, now_unix_secs: u64) -> (r: bool)
    ensures
        r == (policy@.valid_until is Some && policy@.valid_until->0 <= now_unix_secs),
{
    match policy.valid_until_unix_secs {
        Some(valid_until) => valid_until <= now_unix_secs,
        None => false,
    }
}

} // verus!
