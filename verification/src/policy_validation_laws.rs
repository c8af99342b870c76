//! Which usage policies are valid, and which are read out of a document, rule by rule.

use crate::amount_laws;
use crate::binary64;
use crate::binary64::Binary64;
use crate::entitlement;
use crate::entitlement::{EntitlementItem, Entitlements, FieldValue};
use crate::policy_parser;
use crate::text;
use crate::text_laws;
use crate::timezone;
use crate::usage_policy;
use crate::usage_policy::{
    UsagePolicy, UsagePolicyFault, UsagePolicyRule, UsagePolicyValidationError,
    UsagePolicyWindow,
};
use vstd::arithmetic::power2::*;
use vstd::prelude::*;
use vstd::string::*;

verus! {

/// The text says something, and is at most 128 characters long without the white space around it.
pub open spec fn is_short_text(value: Option<Seq<char>>) -> bool {
    value is Some ==> {
        &&& exists|i: int| 0 <= i < value->0.len() && !text::is_white_space(#[trigger] value->0[i])
        &&& text::trimmed(value->0).len() <= 128
    }
}

/// The limit is an integer from one to two to the fifty-third less one.
pub open spec fn is_whole_limit(limit: Binary64, n: u64) -> bool {
    &&& limit.finite()
    &&& limit.value() == n * pow2(1074)
    &&& 1 <= n <= 0x1f_ffff_ffff_ffff
}

/// The window can be enforced: a rolling one is a second to thirty days long, a week starts on a
/// weekday, and a zone that is named is known.
pub open spec fn is_sound_window(window: UsagePolicyWindow) -> bool {
    match window {
        UsagePolicyWindow::Rolling { seconds } => 1 <= seconds <= 30 * 24 * 60 * 60,
        UsagePolicyWindow::CalendarDay { timezone } => is_known_zone(timezone),
        UsagePolicyWindow::CalendarWeek { timezone, week_start } => is_known_zone(timezone) && 1
            <= week_start <= 7,
        UsagePolicyWindow::CalendarMonth { timezone } => is_known_zone(timezone),
        UsagePolicyWindow::SubscriptionPeriod => true,
        UsagePolicyWindow::Concurrent => true,
    }
}

/// No zone is named, or one that is known.
pub open spec fn is_known_zone(name: Option<String>) -> bool {
    name is Some ==> {
        &&& exists|i: int| 0 <= i < name->0@.len() && !text::is_white_space(#[trigger] name->0@[i])
        &&& timezone::is_timezone(text::trimmed(name->0@))
    }
}

/// The rule can be enforced: concurrency in the window of that name and everything else over time,
/// requests with a whole number as limit, cost with an amount that has cost units.
pub open spec fn is_sound_rule(rule: UsagePolicyRule) -> bool {
    &&& is_sound_window(rule.window)
    &&& rule.metric is Concurrency <==> rule.window is Concurrent
    &&& rule.metric is RequestCount || rule.metric is Concurrency ==> exists|n: u64| #[trigger]
        is_whole_limit(rule.limit, n)
    &&& rule.metric is ActualCostUsd ==> binary64::cost_units(rule.limit) is Some
}

/// A limit on requests is the whole number that the rule says, and nothing else; a limit on cost are
/// the cost units of the amount that the rule says, and nothing else.
pub proof fn a_limit_is_what_the_rule_says(rule: UsagePolicyRule, n: u64)
    ensures
        rule.spec_request_limit() == Some(n) <==> !(rule.metric is ActualCostUsd)
            && is_whole_limit(rule.limit, n),
        rule.spec_cost_limit_units() == Some(n) <==> rule.metric is ActualCostUsd
            && binary64::cost_units(rule.limit) == Some(n),
{
    amount_laws::only_exact_integers_are_integers(rule.limit, 0x1f_ffff_ffff_ffff, n);
    amount_laws::bits_are_read_as_ieee_754_says(rule.limit);
    lemma_pow2_pos(1074);
    assert(1 <= n ==> n * pow2(1074) > 0) by (nonlinear_arith)
        requires
            pow2(1074) > 0,
    ;
}

/// A rule is valid exactly if it can be enforced.
pub proof fn a_rule_is_valid_exactly_if_it_can_be_enforced(rule: UsagePolicyRule, index: usize)
    ensures
        rule.fault(index) is None <==> is_sound_rule(rule),
{
    let zone = rule.window.timezone_name();
    if zone is Some {
        text_laws::only_blank_texts_are_trimmed_away(zone->0@);
    }
    assert(usage_policy::timezone_valid(zone) <==> is_known_zone(zone));
    amount_laws::bits_are_read_as_ieee_754_says(rule.limit);
    lemma_pow2_pos(1074);
    if rule.spec_request_limit() is Some {
        let n = rule.spec_request_limit()->0;
        a_limit_is_what_the_rule_says(rule, n);
        assert(is_whole_limit(rule.limit, n));
        assert(n * pow2(1074) > 0) by (nonlinear_arith)
            requires
                pow2(1074) > 0,
                n >= 1,
        ;
    }
    if rule.counts_requests() && exists|n: u64| #[trigger] is_whole_limit(rule.limit, n) {
        let n = choose|n: u64| #[trigger] is_whole_limit(rule.limit, n);
        a_limit_is_what_the_rule_says(rule, n);
    }
}

proof fn lemma_rules_without_fault(rules: Seq<UsagePolicyRule>, from: nat)
    ensures
        usage_policy::first_rule_fault(rules, from) is None <==> forall|i: int|
            from <= i < rules.len() ==> is_sound_rule(#[trigger] rules[i]),
    decreases rules.len() - from,
{
    if from < rules.len() {
        lemma_rules_without_fault(rules, from + 1);
        a_rule_is_valid_exactly_if_it_can_be_enforced(rules[from as int], from as usize);
    }
}

/// A policy can be enforced: its texts are short, and it has one to thirty-two rules that all can.
pub open spec fn is_sound_policy(policy: UsagePolicy) -> bool {
    &&& is_short_text(policy.policy_id)
    &&& is_short_text(policy.name)
    &&& is_short_text(policy.replacement_group)
    &&& 1 <= policy.rules.len() <= 32
    &&& forall|i: int| 0 <= i < policy.rules.len() ==> is_sound_rule(#[trigger] policy.rules[i])
}

/// A policy is valid exactly if it can be enforced.
pub proof fn a_policy_is_valid_exactly_if_it_can_be_enforced(policy: UsagePolicy)
    ensures
        policy.fault() is None <==> is_sound_policy(policy),
{
    if policy.policy_id is Some {
        text_laws::only_blank_texts_are_trimmed_away(policy.policy_id->0);
    }
    if policy.name is Some {
        text_laws::only_blank_texts_are_trimmed_away(policy.name->0);
    }
    if policy.replacement_group is Some {
        text_laws::only_blank_texts_are_trimmed_away(policy.replacement_group->0);
    }
    lemma_rules_without_fault(policy.rules, 0);
}

/// A field of an entitlement is the first one of that name, and there is none only where no field has
/// that name.
pub proof fn a_field_is_the_first_of_its_name(item: EntitlementItem, name: Seq<char>)
    ensures
        match item.spec_field(name) {
            Some(value) => exists|i: int|
                #![trigger item.fields@[i]]
                0 <= i < item.fields@.len() && item.fields@[i].0@ == name && item.fields@[i].1
                    == value && forall|j: int|
                    0 <= j < i ==> (#[trigger] item.fields@[j]).0@ != name,
            None => forall|i: int|
                0 <= i < item.fields@.len() ==> (#[trigger] item.fields@[i]).0@ != name,
        },
{
    lemma_field_from(item.fields@, name, 0);
}

proof fn lemma_field_from(fields: Seq<(String, FieldValue)>, name: Seq<char>, from: nat)
    ensures
        match entitlement::field_from(fields, name, from) {
            Some(value) => exists|i: int|
                #![trigger fields[i]]
                from <= i < fields.len() && fields[i].0@ == name && fields[i].1 == value && forall|
                    j: int,
                |
                    from <= j < i ==> (#[trigger] fields[j]).0@ != name,
            None => forall|i: int|
                from <= i < fields.len() ==> (#[trigger] fields[i]).0@ != name,
        },
    decreases fields.len() - from,
{
    if from < fields.len() {
        if fields[from as int].0@ != name {
            lemma_field_from(fields, name, from + 1);
        }
    }
}

/// An entitlement has a type exactly if its first field of that name is a text, and then that one.
pub proof fn the_type_is_the_text_of_its_field(item: EntitlementItem, kind: Seq<char>)
    ensures
        item.kind() == Some(kind) <==> {
            let field = item.spec_field("type"@);
            field is Some && field->0 is Text && field->0->Text_0@ == kind
        },
        entitlement::is_package_right(item) <==> item.kind() is Some && (item.kind()->0
            == "daily_quota"@ || item.kind()->0 == "membership_group"@ || item.kind()->0
            == "usage_policy"@),
{
}

/// The entitlement is a usage policy that can be enforced.
pub open spec fn is_policy_item(item: EntitlementItem) -> bool {
    item.kind() == Some("usage_policy"@)
}

/// The usage policies among entitlements, in their order.
pub open spec fn policies_among(items: Seq<EntitlementItem>) -> Seq<UsagePolicy> {
    items.filter(|item: EntitlementItem| is_policy_item(item)).map_values(
        |item: EntitlementItem| item.policy->Policy_0@,
    )
}

/// The rules of policies, counted together.
pub open spec fn rules_together(policies: Seq<UsagePolicy>) -> nat {
    policies.fold_left(0nat, |n: nat, policy: UsagePolicy| n + policy.rules.len())
}

proof fn lemma_read_items(items: Seq<EntitlementItem>, from: nat, read: Seq<UsagePolicy>)
    requires
        from <= items.len(),
    ensures
        ({
            let rest = items.skip(from as int);
            let all = read + policies_among(rest);
            let answer = policy_parser::read_items(items, from, read);
            &&& answer is Ok ==> answer->Ok_0 == all
            &&& answer is Ok && (read.len() > 0 ==> read.len() <= 16 && policy_parser::count_rules(
                read,
            ) <= 64) ==> {
                &&& all.len() <= 16
                &&& policy_parser::count_rules(all) <= 64
                &&& forall|i: int|
                    from <= i < items.len() && is_policy_item(#[trigger] items[i])
                        ==> items[i].policy is Policy && is_sound_policy(
                        items[i].policy->Policy_0@,
                    )
            }
            &&& all.len() <= 16 && policy_parser::count_rules(all) <= 64 && (forall|i: int|
                from <= i < items.len() && is_policy_item(#[trigger] items[i])
                    ==> items[i].policy is Policy && is_sound_policy(
                    items[i].policy->Policy_0@,
                )) ==> answer is Ok
        }),
    decreases items.len() - from,
{
    let rest = items.skip(from as int);
    let chosen = |item: EntitlementItem| is_policy_item(item);
    reveal(Seq::filter);
    if from >= items.len() {
        assert(rest.len() == 0);
        assert(read + policies_among(rest) =~= read);
    } else {
        let item = items[from as int];
        let later = items.skip(from as int + 1);
        assert(rest =~= seq![item] + later);
        Seq::filter_distributes_over_add(seq![item], later, chosen);
        assert(seq![item].drop_last() =~= Seq::<EntitlementItem>::empty());
        let head = seq![item].filter(chosen);
        assert(seq![item].last() == item);
        assert(Seq::<EntitlementItem>::empty().filter(chosen) =~= Seq::empty());
        assert(Seq::<EntitlementItem>::empty().push(item) =~= seq![item]);
        assert(head =~= if is_policy_item(item) {
            seq![item]
        } else {
            Seq::<EntitlementItem>::empty()
        });
        if is_policy_item(item) {
            let policy = item.policy->Policy_0@;
            a_policy_is_valid_exactly_if_it_can_be_enforced(policy);
            let next = read.push(policy);
            assert(policies_among(rest) =~= seq![policy] + policies_among(later));
            assert(read + policies_among(rest) =~= next + policies_among(later));
            assert(next.drop_last() =~= read);
            lemma_read_items(items, from + 1, next);
            lemma_more_rules(next, policies_among(later));
            lemma_more_rules(read, policies_among(rest));
        } else {
            assert(policies_among(rest) =~= policies_among(later));
            lemma_read_items(items, from + 1, read);
        }
    }
}

proof fn lemma_more_rules(a: Seq<UsagePolicy>, b: Seq<UsagePolicy>)
    ensures
        policy_parser::count_rules(a + b) == policy_parser::count_rules(a)
            + policy_parser::count_rules(b),
    decreases b.len(),
{
    if b.len() > 0 {
        lemma_more_rules(a, b.drop_last());
        assert((a + b).drop_last() =~= a + b.drop_last());
    } else {
        assert(a + b =~= a);
    }
}

/// The rules of one more policy come to those of before: what is counted together are all rules.
pub proof fn rules_are_counted_together(policies: Seq<UsagePolicy>)
    ensures
        policy_parser::count_rules(policies) == rules_together(policies),
    decreases policies.len(),
{
    let add = |n: nat, policy: UsagePolicy| n + policy.rules.len();
    if policies.len() > 0 {
        rules_are_counted_together(policies.drop_last());
        reveal(Seq::fold_left);
    } else {
        reveal(Seq::fold_left);
    }
}

/// The policies of a document can be read exactly if it is a list, each entitlement of that type in
/// it is a policy that can be enforced, and there are at most sixteen of them with at most sixty-
/// four rules together. What is read are those policies, all of them, in their order, and no
/// others.
pub proof fn all_policies_of_a_document_are_read(entitlements: Entitlements)
    ensures
        policy_parser::policies_of(entitlements) is Ok <==> {
            &&& entitlements is Items
            &&& forall|i: int|
                0 <= i < entitlements->Items_0@.len() && is_policy_item(
                    #[trigger] entitlements->Items_0@[i],
                ) ==> entitlements->Items_0@[i].policy is Policy && is_sound_policy(
                    entitlements->Items_0@[i].policy->Policy_0@,
                )
            &&& policies_among(entitlements->Items_0@).len() <= 16
            &&& rules_together(policies_among(entitlements->Items_0@)) <= 64
        },
        policy_parser::policies_of(entitlements) matches Ok(read) ==> read == policies_among(
            entitlements->Items_0@,
        ),
{
    if entitlements is Items {
        let items = entitlements->Items_0@;
        lemma_read_items(items, 0, Seq::empty());
        assert(items.skip(0) =~= items);
        assert(Seq::<UsagePolicy>::empty() + policies_among(items) =~= policies_among(items));
        rules_are_counted_together(policies_among(items));
    }
}

/// A rule that is refused is refused for something that is wrong with it, and at its own position.
pub proof fn a_refusal_names_what_is_wrong_with_the_rule(
    rule: UsagePolicyRule,
    index: usize,
    r: Result<(), UsagePolicyValidationError>,
)
    requires
        call_ensures(UsagePolicyRule::validate, (&rule, index), r),
    ensures
        r is Ok <==> is_sound_rule(rule),
        r is Err ==> match r->Err_0 {
            UsagePolicyValidationError::InvalidLimit { index: i } => i == index && !(
            rule.limit.finite() && rule.limit.value() > 0),
            UsagePolicyValidationError::InvalidIntegerLimit { index: i } => i == index && !(
            rule.metric is ActualCostUsd) && forall|n: u64| !#[trigger] is_whole_limit(
                rule.limit,
                n,
            ),
            UsagePolicyValidationError::InvalidCostLimit { index: i } => i == index && rule.metric
                is ActualCostUsd && binary64::cost_units(rule.limit) is None,
            UsagePolicyValidationError::ZeroRollingWindow { index: i } => i == index && rule.window
                == (UsagePolicyWindow::Rolling { seconds: 0 }),
            UsagePolicyValidationError::RollingWindowTooLong { index: i, max_seconds } => i == index
                && max_seconds == 30 * 24 * 60 * 60 && rule.window is Rolling
                && rule.window->seconds > max_seconds,
            UsagePolicyValidationError::InvalidTimezone { index: i } => i == index && !is_known_zone(
                rule.window.timezone_name(),
            ),
            UsagePolicyValidationError::InvalidWeekStart { index: i } => i == index && rule.window
                is CalendarWeek && !(1 <= rule.window->week_start <= 7),
            UsagePolicyValidationError::ConcurrencyRequiresConcurrentWindow { index: i } => i
                == index && rule.metric is Concurrency && !(rule.window is Concurrent),
            UsagePolicyValidationError::RequestCountRequiresTimeWindow { index: i } => i == index
                && rule.metric is RequestCount && rule.window is Concurrent,
            UsagePolicyValidationError::ActualCostRequiresTimeWindow { index: i } => i == index
                && rule.metric is ActualCostUsd && rule.window is Concurrent,
            _ => false,
        },
{
    a_rule_is_valid_exactly_if_it_can_be_enforced(rule, index);
    let zone = rule.window.timezone_name();
    if zone is Some {
        text_laws::only_blank_texts_are_trimmed_away(zone->0@);
    }
    amount_laws::bits_are_read_as_ieee_754_says(rule.limit);
    if rule.counts_requests() {
        assert forall|n: u64| #[trigger] is_whole_limit(rule.limit, n) implies
            rule.spec_request_limit() is Some by {
            a_limit_is_what_the_rule_says(rule, n);
        }
    }
    assert(r is Err ==> r->Err_0@ == rule.fault(index)->0);
}

proof fn lemma_first_rule_fault(rules: Seq<UsagePolicyRule>, from: nat) -> (k: int)
    requires
        usage_policy::first_rule_fault(rules, from) is Some,
    ensures
        from <= k < rules.len(),
        !is_sound_rule(rules[k]),
        forall|i: int| from <= i < k ==> is_sound_rule(#[trigger] rules[i]),
        usage_policy::first_rule_fault(rules, from) == rules[k].fault(k as usize),
    decreases rules.len() - from,
{
    a_rule_is_valid_exactly_if_it_can_be_enforced(rules[from as int], from as usize);
    if rules[from as int].fault(from as usize) is Some {
        from as int
    } else {
        lemma_first_rule_fault(rules, from + 1)
    }
}

/// A policy that is refused though its texts and the number of its rules are in order is refused for
/// the first of its rules that cannot be enforced.
pub proof fn the_first_rule_that_cannot_be_enforced_is_named(policy: UsagePolicy) -> (k: int)
    requires
        policy.fault() is Some,
        is_short_text(policy.policy_id),
        is_short_text(policy.name),
        is_short_text(policy.replacement_group),
    ensures
        policy.rules.len() == 0 ==> policy.fault()->0 is EmptyRules,
        policy.rules.len() > 32 ==> policy.fault()->0 == (UsagePolicyFault::TooManyRules {
            max_rules: 32,
        }),
        1 <= policy.rules.len() <= 32 ==> {
            &&& 0 <= k < policy.rules.len()
            &&& !is_sound_rule(policy.rules[k])
            &&& forall|i: int| 0 <= i < k ==> is_sound_rule(#[trigger] policy.rules[i])
            &&& policy.fault() == policy.rules[k].fault(k as usize)
        },
{
    if policy.policy_id is Some {
        text_laws::only_blank_texts_are_trimmed_away(policy.policy_id->0);
    }
    if policy.name is Some {
        text_laws::only_blank_texts_are_trimmed_away(policy.name->0);
    }
    if policy.replacement_group is Some {
        text_laws::only_blank_texts_are_trimmed_away(policy.replacement_group->0);
    }
    if 1 <= policy.rules.len() <= 32 {
        lemma_first_rule_fault(policy.rules, 0)
    } else {
        0
    }
}

} // verus!
