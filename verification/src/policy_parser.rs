//! Reading the usage policies out of an entitlement document.

use crate::entitlement::{EntitlementItem, Entitlements, PolicyShape};
use crate::text;
use crate::usage_policy;
use crate::usage_policy::{
    UsagePolicy, UsagePolicyEntitlement, UsagePolicyFault, UsagePolicyValidationError,
    MAX_USAGE_POLICY_ENTITLEMENTS, MAX_USAGE_POLICY_TOTAL_RULES, USAGE_POLICY_ENTITLEMENT_TYPE,
};
use vstd::prelude::*;
use vstd::string::*;

verus! {

/// Why the usage policies of an entitlement document cannot be read.
#[allow(inconsistent_fields)]
#[derive(Debug, Clone, PartialEq, Eq)]
pub enum UsagePolicyParseError {
    EntitlementsMustBeArray,
    InvalidShape { index: usize, source: String },
    InvalidPolicy { index: usize, source: UsagePolicyValidationError },
}

/// A parse error by its texts and numbers.
#[allow(inconsistent_fields)]
pub enum UsagePolicyParseFault {
    EntitlementsMustBeArray,
    InvalidShape { index: usize, source: Seq<char> },
    InvalidPolicy { index: usize, source: UsagePolicyFault },
}

impl View for UsagePolicyParseError {
    type V = UsagePolicyParseFault;

    open spec fn view(&self) -> UsagePolicyParseFault {
        match *self {
            UsagePolicyParseError::EntitlementsMustBeArray =>
                UsagePolicyParseFault::EntitlementsMustBeArray,
            UsagePolicyParseError::InvalidShape { index, source } =>
                UsagePolicyParseFault::InvalidShape { index, source: source@ },
            UsagePolicyParseError::InvalidPolicy { index, source } =>
                UsagePolicyParseFault::InvalidPolicy { index, source: source@ },
        }
    }
}

impl UsagePolicyParseFault {
    /// The text of the error.
    pub open spec fn message(self) -> Seq<char> {
        match self {
            UsagePolicyParseFault::EntitlementsMustBeArray => "entitlements must be an array"@,
            UsagePolicyParseFault::InvalidShape { index, source } =>
                "usage_policy entitlement at index "@ + text::decimal(index as nat)
                + " has invalid JSON shape: "@ + source,
            UsagePolicyParseFault::InvalidPolicy { index, source } =>
                "usage_policy entitlement at index "@ + text::decimal(index as nat)
                + " is invalid: "@ + source.message(),
        }
    }
}

impl UsagePolicyParseError {
    /// The text of the error.
    pub fn message(&self) -> (r: String)
        ensures
            r@ == self@.message(),
    {
        match self {
            UsagePolicyParseError::EntitlementsMustBeArray =>
                "entitlements must be an array".to_string(),
            UsagePolicyParseError::InvalidShape { index, source } => {
                let mut r = text::numbered(
                    "usage_policy entitlement at index ",
                    *index as u64,
                    " has invalid JSON shape: ",
                );
                r.append(source.as_str());
                r
            },
            UsagePolicyParseError::InvalidPolicy { index, source } => {
                let mut r = text::numbered(
                    "usage_policy entitlement at index ",
                    *index as u64,
                    " is invalid: ",
                );
                r.append(source.message().as_str());
                r
            },
        }
    }
}

/// What reading the entitlement at position `index` adds to the policies read before it.
pub open spec fn read_item(
    item: EntitlementItem,
    index: usize,
    policies: Seq<UsagePolicy>,
    total_rules: nat,
) -> Result<Seq<UsagePolicy>, UsagePolicyParseFault> {
    if item.kind() != Some(USAGE_POLICY_ENTITLEMENT_TYPE@) {
        Ok(policies)
    } else {
        match item.policy {
            PolicyShape::Malformed(source) => Err(
                UsagePolicyParseFault::InvalidShape { index, source: source@ },
            ),
            PolicyShape::Policy(policy) => if policy@.fault() is Some {
                Err(
                    UsagePolicyParseFault::InvalidPolicy { index, source: policy@.fault()->0 },
                )
            } else if policies.len() >= MAX_USAGE_POLICY_ENTITLEMENTS {
                Err(
                    UsagePolicyParseFault::InvalidPolicy {
                        index,
                        source: UsagePolicyFault::TooManyPolicies {
                            max_policies: MAX_USAGE_POLICY_ENTITLEMENTS,
                        },
                    },
                )
            } else if total_rules + policy@.rules.len() > MAX_USAGE_POLICY_TOTAL_RULES {
                Err(
                    UsagePolicyParseFault::InvalidPolicy {
                        index,
                        source: UsagePolicyFault::TooManyTotalRules {
                            max_rules: MAX_USAGE_POLICY_TOTAL_RULES,
                        },
                    },
                )
            } else {
                Ok(policies.push(policy@))
            },
        }
    }
}

/// How many rules policies have together.
pub open spec fn count_rules(policies: Seq<UsagePolicy>) -> nat
    decreases policies.len(),
{
    if policies.len() == 0 {
        0
    } else {
        count_rules(policies.drop_last()) + policies.last().rules.len()
    }
}

/// The policies read so far, and those from position `from` on.
pub open spec fn read_items(
    items: Seq<EntitlementItem>,
    from: nat,
    policies: Seq<UsagePolicy>,
) -> Result<Seq<UsagePolicy>, UsagePolicyParseFault>
    decreases items.len() - from,
{
    if from >= items.len() {
        Ok(policies)
    } else {
        match read_item(items[from as int], from as usize, policies, count_rules(policies)) {
            Ok(then) => read_items(items, from + 1, then),
            Err(fault) => Err(fault),
        }
    }
}

/// The usage policies of an entitlement document, in order; or the first thing that is wrong.
pub open spec fn policies_of(entitlements: Entitlements) -> Result<
    Seq<UsagePolicy>,
    UsagePolicyParseFault,
> {
    match entitlements {
        Entitlements::NotAnArray => Err(UsagePolicyParseFault::EntitlementsMustBeArray),
        Entitlements::Items(items) => read_items(items@, 0, Seq::empty()),
    }
}

/// Policies by their texts and rules.
pub open spec fn models(policies: Seq<UsagePolicyEntitlement>) -> Seq<UsagePolicy> {
    policies.map_values(|p: UsagePolicyEntitlement| p@)
}

/// Whether `r` is what `expected` says.
pub open spec fn is_reading(
    r: Result<Vec<UsagePolicyEntitlement>, UsagePolicyParseError>,
    expected: Result<Seq<UsagePolicy>, UsagePolicyParseFault>,
) -> bool {
    match (r, expected) {
        (Ok(policies), Ok(read)) => models(policies@) == read,
        (Err(e), Err(fault)) => e@ == fault,
        _ => false,
    }
}

/// Reads the usage policies out of an entitlement document. Other entitlements are passed over.
pub fn parse_usage_policy_entitlements(entitlements: &Entitlements) -> (r: Result<
    Vec<UsagePolicyEntitlement>,
    UsagePolicyParseError,
>)
    ensures
        is_reading(r, policies_of(*entitlements)),
{
    let items = match entitlements {
        Entitlements::NotAnArray => return Err(UsagePolicyParseError::EntitlementsMustBeArray),
        Entitlements::Items(items) => items,
    };
    let mut policies: Vec<UsagePolicyEntitlement> = Vec::new();
    let mut total_rules: usize = 0;
    let mut index: usize = 0;
    assert(models(policies@) =~= Seq::empty());
    while index < items.len()
        invariant
            index <= items@.len(),
            policies_of(*entitlements) == read_items(items@, index as nat, models(policies@)),
            total_rules == count_rules(models(policies@)),
            total_rules <= MAX_USAGE_POLICY_TOTAL_RULES,
        decreases items@.len() - index,
    {
        let item = &items[index];
        if item.is_of_type(USAGE_POLICY_ENTITLEMENT_TYPE) {
            let policy = match &item.policy {
                PolicyShape::Malformed(source) => {
                    return Err(
                        UsagePolicyParseError::InvalidShape { index, source: source.clone() },
                    );
                },
                PolicyShape::Policy(policy) => policy,
            };
            if let Err(source) = policy.validate() {
                return Err(UsagePolicyParseError::InvalidPolicy { index, source });
            }
            if policies.len() >= MAX_USAGE_POLICY_ENTITLEMENTS {
                return Err(
                    UsagePolicyParseError::InvalidPolicy {
                        index,
                        source: UsagePolicyValidationError::TooManyPolicies {
                            max_policies: MAX_USAGE_POLICY_ENTITLEMENTS,
                        },
                    },
                );
            }
            if policy.rules.len() > MAX_USAGE_POLICY_TOTAL_RULES - total_rules {
                return Err(
                    UsagePolicyParseError::InvalidPolicy {
                        index,
                        source: UsagePolicyValidationError::TooManyTotalRules {
                            max_rules: MAX_USAGE_POLICY_TOTAL_RULES,
                        },
                    },
                );
            }
            total_rules += policy.rules.len();
            let ghost before = models(policies@);
            policies.push(policy.clone());
            proof {
                assert(models(policies@) =~= before.push(policy@));
                assert(before.push(policy@).drop_last() =~= before);
            }
        }
        index += 1;
    }
    Ok(policies)
}

proof fn lemma_read_items(items: Seq<EntitlementItem>, from: nat, policies: Seq<UsagePolicy>)
    requires
        forall|i: int| 0 <= i < policies.len() ==> (#[trigger] policies[i]).fault() is None,
        policies.len() <= MAX_USAGE_POLICY_ENTITLEMENTS,
        count_rules(policies) <= MAX_USAGE_POLICY_TOTAL_RULES,
    ensures
        read_items(items, from, policies) matches Ok(read) ==> {
            &&& forall|i: int| 0 <= i < read.len() ==> (#[trigger] read[i]).fault() is None
            &&& read.len() <= MAX_USAGE_POLICY_ENTITLEMENTS
            &&& count_rules(read) <= MAX_USAGE_POLICY_TOTAL_RULES
        },
    decreases items.len() - from,
{
    if from < items.len() {
        match read_item(items[from as int], from as usize, policies, count_rules(policies)) {
            Ok(then) => {
                if then.len() > policies.len() {
                    assert(then.drop_last() =~= policies);
                }
                lemma_read_items(items, from + 1, then);
            },
            Err(_) => {},
        }
    }
}

/// Every policy that is read is valid, and there are no more policies and rules than allowed.
pub proof fn policies_that_are_read_are_valid(entitlements: Entitlements)
    ensures
        policies_of(entitlements) matches Ok(read) ==> {
            &&& forall|i: int| 0 <= i < read.len() ==> (#[trigger] read[i]).fault() is None
            &&& read.len() <= MAX_USAGE_POLICY_ENTITLEMENTS
            &&& count_rules(read) <= MAX_USAGE_POLICY_TOTAL_RULES
        },
{
    match entitlements {
        Entitlements::Items(items) => {
            lemma_read_items(items@, 0, Seq::empty());
        },
        Entitlements::NotAnArray => {},
    }
}

proof fn lemma_rule_without_fault(
    rules: Seq<usage_policy::UsagePolicyRule>,
    from: nat,
    index: int,
)
    requires
        usage_policy::first_rule_fault(rules, from) is None,
        from <= index < rules.len(),
    ensures
        rules[index].fault(index as usize) is None,
    decreases rules.len() - from,
{
    if from < index {
        lemma_rule_without_fault(rules, from + 1, index);
    }
}

/// Each rule of a valid policy has the limit that its metric needs, within a window that fits its
/// metric: concurrency counts what is there at once, everything else counts over time.
pub proof fn a_valid_rule_has_its_limit(policy: UsagePolicy, index: int)
    requires
        policy.fault() is None,
        0 <= index < policy.rules.len(),
    ensures
        ({
            let rule = policy.rules[index];
            &&& rule.counts_requests() ==> rule.spec_request_limit() is Some
            &&& rule.metric is ActualCostUsd ==> rule.spec_cost_limit_units() is Some
            &&& rule.metric is Concurrency <==> rule.window is Concurrent
            &&& rule.window is Rolling ==> 0 < rule.window->seconds
                <= usage_policy::MAX_USAGE_POLICY_ROLLING_WINDOW_SECONDS
            &&& rule.window is CalendarWeek ==> 1 <= rule.window->week_start <= 7
            &&& usage_policy::timezone_valid(rule.window.timezone_name())
        }),
{
    lemma_rule_without_fault(policy.rules, 0, index);
}

} // verus!
