//! Usage policies: the rules of a plan, and what makes them valid.

use crate::binary64;
use crate::binary64::Binary64;
use crate::text;
use crate::timezone;
use vstd::prelude::*;
use vstd::string::*;

verus! {

/// The entitlement type that carries a usage policy.
pub const USAGE_POLICY_ENTITLEMENT_TYPE: &'static str = "usage_policy";

/// The most rules in one policy.
pub const MAX_USAGE_POLICY_RULES: usize = 32;

/// The most policies in one list of entitlements.
pub const MAX_USAGE_POLICY_ENTITLEMENTS: usize = 16;

/// The most rules in all policies of a list of entitlements.
pub const MAX_USAGE_POLICY_TOTAL_RULES: usize = 64;

/// The longest rolling window: thirty days.
pub const MAX_USAGE_POLICY_ROLLING_WINDOW_SECONDS: u64 = 2_592_000;

/// The most characters in a text of a policy.
pub const MAX_USAGE_POLICY_TEXT_LENGTH: usize = 128;

/// The largest integer limit: up to here every integer is a double.
pub const MAX_USAGE_POLICY_EXACT_INTEGER: u64 = 0x1f_ffff_ffff_ffff;

/// The type of a usage policy entitlement.
#[derive(Debug, Clone, Copy, PartialEq, Eq, Structural)]
pub enum UsagePolicyEntitlementType {
    UsagePolicy,
}

/// A usage policy: rules that all hold at once.
#[derive(Debug, PartialEq, Eq)]
pub struct UsagePolicyEntitlement {
    pub entitlement_type: UsagePolicyEntitlementType,
    pub policy_id: Option<String>,
    pub name: Option<String>,
    pub replacement_group: Option<String>,
    pub rules: Vec<UsagePolicyRule>,
}

/// A usage policy by its texts and rules.
pub struct UsagePolicy {
    pub policy_id: Option<Seq<char>>,
    pub name: Option<Seq<char>>,
    pub replacement_group: Option<Seq<char>>,
    pub rules: Seq<UsagePolicyRule>,
}

impl View for UsagePolicyEntitlement {
    type V = UsagePolicy;

    open spec fn view(&self) -> UsagePolicy {
        UsagePolicy {
            policy_id: text::opt_string(self.policy_id),
            name: text::opt_string(self.name),
            replacement_group: text::opt_string(self.replacement_group),
            rules: self.rules@,
        }
    }
}

impl Clone for UsagePolicyEntitlement {
    fn clone(&self) -> (r: Self)
        ensures
            r@ == self@,
    {
        let mut rules: Vec<UsagePolicyRule> = Vec::new();
        let mut at: usize = 0;
        while at < self.rules.len()
            invariant
                at <= self.rules@.len(),
                rules@ == self.rules@.take(at as int),
            decreases self.rules@.len() - at,
        {
            rules.push(self.rules[at].clone());
            assert(rules@ =~= self.rules@.take(at + 1));
            at += 1;
        }
        assert(rules@ =~= self.rules@);
        UsagePolicyEntitlement {
            entitlement_type: self.entitlement_type,
            policy_id: text::copy_of(&self.policy_id),
            name: text::copy_of(&self.name),
            replacement_group: text::copy_of(&self.replacement_group),
            rules,
        }
    }
}

/// One limit on one metric within one window.
#[derive(Debug, PartialEq, Eq)]
pub struct UsagePolicyRule {
    pub metric: UsagePolicyMetric,
    pub window: UsagePolicyWindow,
    pub limit: Binary64,
    pub enforcement: UsagePolicyEnforcement,
}

/// What a rule counts.
#[derive(Debug, Clone, Copy, PartialEq, Eq, Structural)]
pub enum UsagePolicyMetric {
    RequestCount,
    Concurrency,
    ActualCostUsd,
}

/// How a rule is enforced.
#[derive(Debug, Clone, Copy, PartialEq, Eq, Structural)]
pub enum UsagePolicyEnforcement {
    HardCap,
}

impl Default for UsagePolicyEnforcement {
    fn default() -> (r: Self)
        ensures
            r is HardCap,
    {
        UsagePolicyEnforcement::HardCap
    }
}

impl Clone for UsagePolicyRule {
    fn clone(&self) -> (r: Self)
        ensures
            r == *self,
    {
        UsagePolicyRule {
            metric: self.metric,
            window: self.window.clone(),
            limit: self.limit,
            enforcement: self.enforcement,
        }
    }
}

/// The stretch of time within which a rule counts.
#[derive(Debug, PartialEq, Eq)]
pub enum UsagePolicyWindow {
    Rolling { seconds: u64 },
    CalendarDay { timezone: Option<String> },
    CalendarWeek { timezone: Option<String>, week_start: u8 },
    CalendarMonth { timezone: Option<String> },
    SubscriptionPeriod,
    Concurrent,
}

impl Clone for UsagePolicyWindow {
    fn clone(&self) -> (r: Self)
        ensures
            r == *self,
    {
        match self {
            UsagePolicyWindow::Rolling { seconds } => UsagePolicyWindow::Rolling {
                seconds: *seconds,
            },
            UsagePolicyWindow::CalendarDay { timezone } => UsagePolicyWindow::CalendarDay {
                timezone: text::copy_of(timezone),
            },
            UsagePolicyWindow::CalendarWeek { timezone, week_start } => UsagePolicyWindow::CalendarWeek {
                timezone: text::copy_of(timezone),
                week_start: *week_start,
            },
            UsagePolicyWindow::CalendarMonth { timezone } => UsagePolicyWindow::CalendarMonth {
                timezone: text::copy_of(timezone),
            },
            UsagePolicyWindow::SubscriptionPeriod => UsagePolicyWindow::SubscriptionPeriod,
            UsagePolicyWindow::Concurrent => UsagePolicyWindow::Concurrent,
        }
    }
}

/// The week starts on Monday where a policy does not say.
pub fn default_week_start() -> (r: u8)
    ensures
        r == 1,
{
    1
}

/// Why a policy is not valid.
#[derive(Debug, Clone, PartialEq, Eq)]
pub enum UsagePolicyValidationError {
    EmptyText { field: String },
    TextTooLong { field: String, max_len: usize },
    EmptyRules,
    TooManyRules { max_rules: usize },
    TooManyPolicies { max_policies: usize },
    TooManyTotalRules { max_rules: usize },
    InvalidLimit { index: usize },
    InvalidIntegerLimit { index: usize },
    InvalidCostLimit { index: usize },
    ZeroRollingWindow { index: usize },
    RollingWindowTooLong { index: usize, max_seconds: u64 },
    InvalidTimezone { index: usize },
    InvalidWeekStart { index: usize },
    RequestCountRequiresTimeWindow { index: usize },
    ConcurrencyRequiresConcurrentWindow { index: usize },
    ActualCostRequiresTimeWindow { index: usize },
}

/// A validation error by its texts and numbers.
pub enum UsagePolicyFault {
    EmptyText { field: Seq<char> },
    TextTooLong { field: Seq<char>, max_len: usize },
    EmptyRules,
    TooManyRules { max_rules: usize },
    TooManyPolicies { max_policies: usize },
    TooManyTotalRules { max_rules: usize },
    InvalidLimit { index: usize },
    InvalidIntegerLimit { index: usize },
    InvalidCostLimit { index: usize },
    ZeroRollingWindow { index: usize },
    RollingWindowTooLong { index: usize, max_seconds: u64 },
    InvalidTimezone { index: usize },
    InvalidWeekStart { index: usize },
    RequestCountRequiresTimeWindow { index: usize },
    ConcurrencyRequiresConcurrentWindow { index: usize },
    ActualCostRequiresTimeWindow { index: usize },
}

impl View for UsagePolicyValidationError {
    type V = UsagePolicyFault;

    open spec fn view(&self) -> UsagePolicyFault {
        match *self {
            UsagePolicyValidationError::EmptyText { field } => UsagePolicyFault::EmptyText {
                field: field@,
            },
            UsagePolicyValidationError::TextTooLong { field, max_len } =>
                UsagePolicyFault::TextTooLong { field: field@, max_len },
            UsagePolicyValidationError::EmptyRules => UsagePolicyFault::EmptyRules,
            UsagePolicyValidationError::TooManyRules { max_rules } =>
                UsagePolicyFault::TooManyRules { max_rules },
            UsagePolicyValidationError::TooManyPolicies { max_policies } =>
                UsagePolicyFault::TooManyPolicies { max_policies },
            UsagePolicyValidationError::TooManyTotalRules { max_rules } =>
                UsagePolicyFault::TooManyTotalRules { max_rules },
            UsagePolicyValidationError::InvalidLimit { index } =>
                UsagePolicyFault::InvalidLimit { index },
            UsagePolicyValidationError::InvalidIntegerLimit { index } =>
                UsagePolicyFault::InvalidIntegerLimit { index },
            UsagePolicyValidationError::InvalidCostLimit { index } =>
                UsagePolicyFault::InvalidCostLimit { index },
            UsagePolicyValidationError::ZeroRollingWindow { index } =>
                UsagePolicyFault::ZeroRollingWindow { index },
            UsagePolicyValidationError::RollingWindowTooLong { index, max_seconds } =>
                UsagePolicyFault::RollingWindowTooLong { index, max_seconds },
            UsagePolicyValidationError::InvalidTimezone { index } =>
                UsagePolicyFault::InvalidTimezone { index },
            UsagePolicyValidationError::InvalidWeekStart { index } =>
                UsagePolicyFault::InvalidWeekStart { index },
            UsagePolicyValidationError::RequestCountRequiresTimeWindow { index } =>
                UsagePolicyFault::RequestCountRequiresTimeWindow { index },
            UsagePolicyValidationError::ConcurrencyRequiresConcurrentWindow { index } =>
                UsagePolicyFault::ConcurrencyRequiresConcurrentWindow { index },
            UsagePolicyValidationError::ActualCostRequiresTimeWindow { index } =>
                UsagePolicyFault::ActualCostRequiresTimeWindow { index },
        }
    }
}

/// What a validation error says about rule `index`.
pub open spec fn rule_message(index: usize, tail: Seq<char>) -> Seq<char> {
    "usage_policy.rules["@ + text::decimal(index as nat) + tail
}

impl UsagePolicyFault {
    /// The text of the error.
    pub open spec fn message(self) -> Seq<char> {
        match self {
            UsagePolicyFault::EmptyText { field } => field + " must not be empty"@,
            UsagePolicyFault::TextTooLong { field, max_len } => field
                + " exceeds maximum length "@ + text::decimal(max_len as nat),
            UsagePolicyFault::EmptyRules => "usage_policy.rules must not be empty"@,
            UsagePolicyFault::TooManyRules { max_rules } =>
                "usage_policy.rules must contain at most "@ + text::decimal(max_rules as nat)
                + " rules"@,
            UsagePolicyFault::TooManyPolicies { max_policies } =>
                "entitlements must contain at most "@ + text::decimal(max_policies as nat)
                + " usage_policy entries"@,
            UsagePolicyFault::TooManyTotalRules { max_rules } =>
                "usage_policy entries must contain at most "@ + text::decimal(max_rules as nat)
                + " rules in total"@,
            UsagePolicyFault::InvalidLimit { index } => rule_message(
                index,
                "].limit must be finite and positive"@,
            ),
            UsagePolicyFault::InvalidIntegerLimit { index } => rule_message(
                index,
                "].limit must be a positive exact integer"@,
            ),
            UsagePolicyFault::InvalidCostLimit { index } => rule_message(
                index,
                "].limit is outside the supported cost range"@,
            ),
            UsagePolicyFault::ZeroRollingWindow { index } => rule_message(
                index,
                "].window.seconds must be positive"@,
            ),
            UsagePolicyFault::RollingWindowTooLong { index, max_seconds } => rule_message(
                index,
                "].window.seconds must not exceed "@,
            ) + text::decimal(max_seconds as nat) + " seconds"@,
            UsagePolicyFault::InvalidTimezone { index } => rule_message(
                index,
                "].window.timezone is not a valid IANA timezone"@,
            ),
            UsagePolicyFault::InvalidWeekStart { index } => rule_message(
                index,
                "].window.week_start must be between 1 and 7"@,
            ),
            UsagePolicyFault::RequestCountRequiresTimeWindow { index } => rule_message(
                index,
                "] request_count requires a time-based window"@,
            ),
            UsagePolicyFault::ConcurrencyRequiresConcurrentWindow { index } => rule_message(
                index,
                "] concurrency requires a concurrent window"@,
            ),
            UsagePolicyFault::ActualCostRequiresTimeWindow { index } => rule_message(
                index,
                "] actual_cost_usd requires a time-based window"@,
            ),
        }
    }
}

fn about_rule(index: usize, tail: &str) -> (r: String)
    ensures
        r@ == rule_message(index, tail@),
{
    text::numbered("usage_policy.rules[", index as u64, tail)
}

impl UsagePolicyValidationError {
    /// The text of the error.
    pub fn message(&self) -> (r: String)
        ensures
            r@ == self@.message(),
    {
        match self {
            UsagePolicyValidationError::EmptyText { field } => text::joined(
                field.as_str(),
                " must not be empty",
            ),
            UsagePolicyValidationError::TextTooLong { field, max_len } => {
                let mut r = text::joined(field.as_str(), " exceeds maximum length ");
                r.append(text::decimal_text(*max_len as u64).as_str());
                r
            },
            UsagePolicyValidationError::EmptyRules => "usage_policy.rules must not be empty".to_string(),
            UsagePolicyValidationError::TooManyRules { max_rules } => text::numbered(
                "usage_policy.rules must contain at most ",
                *max_rules as u64,
                " rules",
            ),
            UsagePolicyValidationError::TooManyPolicies { max_policies } => text::numbered(
                "entitlements must contain at most ",
                *max_policies as u64,
                " usage_policy entries",
            ),
            UsagePolicyValidationError::TooManyTotalRules { max_rules } => text::numbered(
                "usage_policy entries must contain at most ",
                *max_rules as u64,
                " rules in total",
            ),
            UsagePolicyValidationError::InvalidLimit { index } => about_rule(
                *index,
                "].limit must be finite and positive",
            ),
            UsagePolicyValidationError::InvalidIntegerLimit { index } => about_rule(
                *index,
                "].limit must be a positive exact integer",
            ),
            UsagePolicyValidationError::InvalidCostLimit { index } => about_rule(
                *index,
                "].limit is outside the supported cost range",
            ),
            UsagePolicyValidationError::ZeroRollingWindow { index } => about_rule(
                *index,
                "].window.seconds must be positive",
            ),
            UsagePolicyValidationError::RollingWindowTooLong { index, max_seconds } => {
                let mut r = about_rule(*index, "].window.seconds must not exceed ");
                r.append(text::decimal_text(*max_seconds).as_str());
                r.append(" seconds");
                r
            },
            UsagePolicyValidationError::InvalidTimezone { index } => about_rule(
                *index,
                "].window.timezone is not a valid IANA timezone",
            ),
            UsagePolicyValidationError::InvalidWeekStart { index } => about_rule(
                *index,
                "].window.week_start must be between 1 and 7",
            ),
            UsagePolicyValidationError::RequestCountRequiresTimeWindow { index } => about_rule(
                *index,
                "] request_count requires a time-based window",
            ),
            UsagePolicyValidationError::ConcurrencyRequiresConcurrentWindow { index } => about_rule(
                *index,
                "] concurrency requires a concurrent window",
            ),
            UsagePolicyValidationError::ActualCostRequiresTimeWindow { index } => about_rule(
                *index,
                "] actual_cost_usd requires a time-based window",
            ),
        }
    }
}

/// What is wrong with an optional text: blank, or longer than `max_len` without the white space
/// around it.
pub open spec fn text_fault(value: Option<Seq<char>>, field: Seq<char>, max_len: usize) -> Option<
    UsagePolicyFault,
> {
    if value is None {
        None
    } else if text::trimmed(value->0).len() == 0 {
        Some(UsagePolicyFault::EmptyText { field })
    } else if text::trimmed(value->0).len() > max_len {
        Some(UsagePolicyFault::TextTooLong { field, max_len })
    } else {
        None
    }
}

/// A time zone that a window may name: none, or a known one.
pub open spec fn timezone_valid(name: Option<String>) -> bool {
    name is Some ==> text::trimmed(name->0@).len() > 0 && timezone::is_timezone(
        text::trimmed(name->0@),
    )
}

impl UsagePolicyWindow {
    /// The time zone that the window names.
    pub open spec fn timezone_name(self) -> Option<String> {
        match self {
            UsagePolicyWindow::CalendarDay { timezone } => timezone,
            UsagePolicyWindow::CalendarWeek { timezone, .. } => timezone,
            UsagePolicyWindow::CalendarMonth { timezone } => timezone,
            _ => None,
        }
    }
}

impl UsagePolicyRule {
    /// The rule counts requests, one after another or at once.
    pub open spec fn counts_requests(self) -> bool {
        self.metric is RequestCount || self.metric is Concurrency
    }

    /// The limit of a rule that counts requests: a positive integer.
    pub open spec fn spec_request_limit(self) -> Option<u64> {
        if self.counts_requests() {
            self.limit.positive_integer(MAX_USAGE_POLICY_EXACT_INTEGER)
        } else {
            None
        }
    }

    /// The limit of a rule that counts cost, in cost units.
    pub open spec fn spec_cost_limit_units(self) -> Option<u64> {
        if self.metric is ActualCostUsd {
            binary64::cost_units(self.limit)
        } else {
            None
        }
    }

    /// What is wrong with the rule at position `index`.
    pub open spec fn fault(self, index: usize) -> Option<UsagePolicyFault> {
        if !self.limit.positive() {
            Some(UsagePolicyFault::InvalidLimit { index })
        } else if self.counts_requests() && self.spec_request_limit() is None {
            Some(UsagePolicyFault::InvalidIntegerLimit { index })
        } else if self.metric is ActualCostUsd && self.spec_cost_limit_units() is None {
            Some(UsagePolicyFault::InvalidCostLimit { index })
        } else if self.window is Rolling && self.window->seconds == 0 {
            Some(UsagePolicyFault::ZeroRollingWindow { index })
        } else if self.window is Rolling && self.window->seconds
            > MAX_USAGE_POLICY_ROLLING_WINDOW_SECONDS {
            Some(
                UsagePolicyFault::RollingWindowTooLong {
                    index,
                    max_seconds: MAX_USAGE_POLICY_ROLLING_WINDOW_SECONDS,
                },
            )
        } else if !timezone_valid(self.window.timezone_name()) {
            Some(UsagePolicyFault::InvalidTimezone { index })
        } else if self.window is CalendarWeek && !(1 <= self.window->week_start <= 7) {
            Some(UsagePolicyFault::InvalidWeekStart { index })
        } else if self.metric is Concurrency && self.window !is Concurrent {
            Some(UsagePolicyFault::ConcurrencyRequiresConcurrentWindow { index })
        } else if self.metric is RequestCount && self.window is Concurrent {
            Some(UsagePolicyFault::RequestCountRequiresTimeWindow { index })
        } else if self.metric is ActualCostUsd && self.window is Concurrent {
            Some(UsagePolicyFault::ActualCostRequiresTimeWindow { index })
        } else {
            None
        }
    }

    /// The limit of a rule that counts requests, where it is an exact positive integer.
    pub fn request_limit(&self) -> (r: Option<u64>)
        ensures
            r == self.spec_request_limit(),
    {
        match self.metric {
            UsagePolicyMetric::RequestCount | UsagePolicyMetric::Concurrency => {
                self.limit.to_positive_integer(MAX_USAGE_POLICY_EXACT_INTEGER)
            },
            UsagePolicyMetric::ActualCostUsd => None,
        }
    }

    /// The limit of a rule that counts cost, in cost units.
    pub fn cost_limit_units(&self) -> (r: Option<u64>)
        ensures
            r == self.spec_cost_limit_units(),
    {
        match self.metric {
            UsagePolicyMetric::ActualCostUsd => binary64::usd_to_usage_policy_cost_units(
                self.limit,
            ),
            _ => None,
        }
    }

    /// Checks the rule at position `index`.
    pub fn validate(&self, index: usize) -> (r: Result<(), UsagePolicyValidationError>)
        ensures
            faults_with(r, self.fault(index)),
    {
        if !self.limit.is_positive() {
            return Err(UsagePolicyValidationError::InvalidLimit { index });
        }
        match self.metric {
            UsagePolicyMetric::RequestCount | UsagePolicyMetric::Concurrency => {
                if self.request_limit().is_none() {
                    return Err(UsagePolicyValidationError::InvalidIntegerLimit { index });
                }
            },
            UsagePolicyMetric::ActualCostUsd => {
                if self.cost_limit_units().is_none() {
                    return Err(UsagePolicyValidationError::InvalidCostLimit { index });
                }
            },
        }
        match &self.window {
            UsagePolicyWindow::Rolling { seconds } => {
                if *seconds == 0 {
                    return Err(UsagePolicyValidationError::ZeroRollingWindow { index });
                }
                if *seconds > MAX_USAGE_POLICY_ROLLING_WINDOW_SECONDS {
                    return Err(
                        UsagePolicyValidationError::RollingWindowTooLong {
                            index,
                            max_seconds: MAX_USAGE_POLICY_ROLLING_WINDOW_SECONDS,
                        },
                    );
                }
            },
            UsagePolicyWindow::CalendarDay { timezone }
            | UsagePolicyWindow::CalendarMonth { timezone } => {
                if !is_valid_timezone(timezone) {
                    return Err(UsagePolicyValidationError::InvalidTimezone { index });
                }
            },
            UsagePolicyWindow::CalendarWeek { timezone, week_start } => {
                if !is_valid_timezone(timezone) {
                    return Err(UsagePolicyValidationError::InvalidTimezone { index });
                }
                if !(1 <= *week_start && *week_start <= 7) {
                    return Err(UsagePolicyValidationError::InvalidWeekStart { index });
                }
            },
            UsagePolicyWindow::SubscriptionPeriod | UsagePolicyWindow::Concurrent => {},
        }
        match (self.metric, &self.window) {
            (UsagePolicyMetric::RequestCount, UsagePolicyWindow::Concurrent) => Err(
                UsagePolicyValidationError::RequestCountRequiresTimeWindow { index },
            ),
            (UsagePolicyMetric::Concurrency, UsagePolicyWindow::Concurrent) => Ok(()),
            (UsagePolicyMetric::Concurrency, _) => Err(
                UsagePolicyValidationError::ConcurrencyRequiresConcurrentWindow { index },
            ),
            (UsagePolicyMetric::RequestCount, _) => Ok(()),
            (UsagePolicyMetric::ActualCostUsd, UsagePolicyWindow::Concurrent) => Err(
                UsagePolicyValidationError::ActualCostRequiresTimeWindow { index },
            ),
            (UsagePolicyMetric::ActualCostUsd, _) => Ok(()),
        }
    }
}

/// Whether `r` carries the error `fault`, or none where `fault` is `None`.
pub open spec fn faults_with<T>(
    r: Result<T, UsagePolicyValidationError>,
    fault: Option<UsagePolicyFault>,
) -> bool {
    match fault {
        Some(f) => r is Err && r->Err_0@ == f,
        None => r is Ok,
    }
}

/// Checks the time zone of the window of a rule.
pub fn is_valid_timezone(name: &Option<String>) -> (r: bool)
    ensures
        r == timezone_valid(*name),
{
    match name {
        None => true,
        Some(name) => {
            let name = text::trim(name.as_str());
            !name.is_empty() && timezone::parses_as_timezone(name)
        },
    }
}

/// Checks an optional text of a policy.
pub fn validate_optional_text(value: Option<&str>, field: &str, max_len: usize) -> (r: Result<
    (),
    UsagePolicyValidationError,
>)
    ensures
        faults_with(r, text_fault(text::opt_view(value), field@, max_len)),
{
    match value {
        None => Ok(()),
        Some(value) => {
            let value = text::trim(value);
            if value.is_empty() {
                return Err(UsagePolicyValidationError::EmptyText { field: field.to_string() });
            }
            if value.unicode_len() > max_len {
                return Err(
                    UsagePolicyValidationError::TextTooLong { field: field.to_string(), max_len },
                );
            }
            Ok(())
        },
    }
}

/// The first fault of the rules from position `from` on.
pub open spec fn first_rule_fault(rules: Seq<UsagePolicyRule>, from: nat) -> Option<
    UsagePolicyFault,
>
    decreases rules.len() - from,
{
    if from >= rules.len() {
        None
    } else if rules[from as int].fault(from as usize) is Some {
        rules[from as int].fault(from as usize)
    } else {
        first_rule_fault(rules, from + 1)
    }
}

impl UsagePolicy {
    /// What is wrong with the policy: its texts first, then the number of rules, then the rules.
    pub open spec fn fault(self) -> Option<UsagePolicyFault> {
        let id = text_fault(
            self.policy_id,
            "usage_policy.policy_id"@,
            MAX_USAGE_POLICY_TEXT_LENGTH,
        );
        let name = text_fault(
            self.name,
            "usage_policy.name"@,
            MAX_USAGE_POLICY_TEXT_LENGTH,
        );
        let group = text_fault(
            self.replacement_group,
            "usage_policy.replacement_group"@,
            MAX_USAGE_POLICY_TEXT_LENGTH,
        );
        if id is Some {
            id
        } else if name is Some {
            name
        } else if group is Some {
            group
        } else if self.rules.len() == 0 {
            Some(UsagePolicyFault::EmptyRules)
        } else if self.rules.len() > MAX_USAGE_POLICY_RULES {
            Some(UsagePolicyFault::TooManyRules { max_rules: MAX_USAGE_POLICY_RULES })
        } else {
            first_rule_fault(self.rules, 0)
        }
    }

}

impl UsagePolicyEntitlement {
    /// Checks the policy.
    pub fn validate(&self) -> (r: Result<(), UsagePolicyValidationError>)
        ensures
            faults_with(r, self@.fault()),
    {
        validate_optional_text(
            text::as_text(&self.policy_id),
            "usage_policy.policy_id",
            MAX_USAGE_POLICY_TEXT_LENGTH,
        )?;
        validate_optional_text(
            text::as_text(&self.name),
            "usage_policy.name",
            MAX_USAGE_POLICY_TEXT_LENGTH,
        )?;
        validate_optional_text(
            text::as_text(&self.replacement_group),
            "usage_policy.replacement_group",
            MAX_USAGE_POLICY_TEXT_LENGTH,
        )?;
        if self.rules.len() == 0 {
            return Err(UsagePolicyValidationError::EmptyRules);
        }
        if self.rules.len() > MAX_USAGE_POLICY_RULES {
            return Err(
                UsagePolicyValidationError::TooManyRules { max_rules: MAX_USAGE_POLICY_RULES },
            );
        }
        let mut index: usize = 0;
        while index < self.rules.len()
            invariant
                index <= self.rules@.len(),
                first_rule_fault(self.rules@, 0) == first_rule_fault(self.rules@, index as nat),
                self@.fault() == first_rule_fault(self.rules@, 0),
            decreases self.rules@.len() - index,
        {
            self.rules[index].validate(index)?;
            index += 1;
        }
        Ok(())
    }
}

} // verus!
