//! Which plans can be written and which replace each other, entitlement by entitlement.

use crate::billing_plan_routes;
use crate::billing_plan_routes::{HttpMethod, LocalMutationOutcome, PlansReply, PlansRoute, Route};
use crate::billing_plans;
use crate::billing_plans::{BillingPlanRequest, BillingPlanWriteInput};
use crate::entitlement;
use crate::entitlement::{EntitlementItem, Entitlements, FieldValue};
use crate::path;
use crate::policy_parser;
use crate::replacement;
use crate::text;
use crate::text_laws;
use crate::timezone;
use vstd::prelude::*;
use vstd::string::*;

verus! {

/// The text has a character that is no white space.
pub open spec fn says_something(s: Seq<char>) -> bool {
    exists|i: int| 0 <= i < s.len() && !text::is_white_space(#[trigger] s[i])
}

/// A text of a plan is taken without the white space around it, exactly if it says something and is
/// then no longer than it may be.
pub proof fn a_text_is_taken_if_it_is_not_too_long(
    value: &str,
    field: &str,
    max: usize,
    r: Result<String, String>,
)
    requires
        call_ensures(billing_plans::normalize_text, (value, field, max), r),
    ensures
        r is Ok <==> says_something(value@) && text::trimmed(value@).len() <= max,
        r is Ok ==> r->Ok_0@ == text::trimmed(value@),
        r is Ok <==> billing_plans::normalized(value@, field@, max) is Ok,
{
    text_laws::only_blank_texts_are_trimmed_away(value@);
}

/// An optional text is taken in the same way, and is none where it says nothing.
pub proof fn an_optional_text_may_be_blank(
    value: Option<&str>,
    max: usize,
    r: Result<Option<String>, String>,
)
    requires
        call_ensures(billing_plans::normalize_optional_text, (value, max), r),
    ensures
        r is Ok <==> (value is Some ==> text::trimmed(value->0@).len() <= max),
        r is Ok ==> (r->Ok_0 is Some <==> value is Some && says_something(value->0@)),
        r is Ok && r->Ok_0 is Some ==> r->Ok_0->0@ == text::trimmed(value->0@),
{
    if value is Some {
        text_laws::only_blank_texts_are_trimmed_away(value->0@);
    }
}

/// The field is a number that is finite and greater than zero.
pub open spec fn is_positive_number(field: Option<FieldValue>) -> bool {
    field is Some && field->0 is Number && field->0->Number_0.positive()
}

/// A credit says a positive amount, and goes to the recharge or the gift balance, if it says where.
pub open spec fn is_sound_credit(item: EntitlementItem) -> bool {
    let bucket = item.spec_field("balance_bucket"@);
    &&& is_positive_number(item.spec_field("amount_usd"@))
    &&& bucket is Some ==> bucket->0 is Text && (bucket->0->Text_0@ == "recharge"@
        || bucket->0->Text_0@ == "gift"@)
}

/// A daily quota says a positive amount; what it says of its zone, of carrying over and of the
/// wallet is a known zone, that nothing is carried over, and yes or no.
pub open spec fn is_sound_quota(item: EntitlementItem) -> bool {
    let zone = item.spec_field("reset_timezone"@);
    let carry = item.spec_field("carry_over"@);
    let overage = item.spec_field("allow_wallet_overage"@);
    &&& is_positive_number(item.spec_field("daily_quota_usd"@))
    &&& zone is Some ==> zone->0 is Text && says_something(zone->0->Text_0@)
        && timezone::is_timezone(text::trimmed(zone->0->Text_0@))
    &&& carry is Some ==> carry->0 is Flag && !carry->0->Flag_0
    &&& overage is Some ==> overage->0 is Flag
}

/// A membership names at least one group, and only groups that say something.
pub open spec fn is_sound_membership(item: EntitlementItem) -> bool {
    let groups = item.spec_field("grant_user_groups"@);
    &&& groups is Some
    &&& groups->0 is List
    &&& groups->0->List_0@.len() > 0
    &&& forall|i: int|
        0 <= i < groups->0->List_0@.len() ==> (#[trigger] groups->0->List_0@[i]) is Some
            && says_something(groups->0->List_0@[i]->0@)
}

/// The entitlement is of a type that there is, and sound as one of that type.
pub open spec fn is_sound_item(item: EntitlementItem) -> bool {
    let kind = item.kind();
    &&& kind is Some
    &&& {
        ||| kind->0 == "wallet_credit"@ && is_sound_credit(item)
        ||| kind->0 == "daily_quota"@ && is_sound_quota(item)
        ||| kind->0 == "membership_group"@ && is_sound_membership(item)
        ||| kind->0 == "usage_policy"@
    }
}

proof fn lemma_groups(groups: Seq<Option<String>>, from: nat)
    ensures
        billing_plans::groups_fault(groups, from) is None <==> forall|i: int|
            from <= i < groups.len() ==> (#[trigger] groups[i]) is Some && says_something(
                groups[i]->0@,
            ),
    decreases groups.len() - from,
{
    if from < groups.len() {
        lemma_groups(groups, from + 1);
        match groups[from as int] {
            Some(group) => {
                text_laws::only_blank_texts_are_trimmed_away(group@);
            },
            None => {},
        }
    }
}

proof fn lemma_kinds()
    ensures
        "wallet_credit"@ != "daily_quota"@,
        "wallet_credit"@ != "membership_group"@,
        "wallet_credit"@ != "usage_policy"@,
        "daily_quota"@ != "membership_group"@,
        "daily_quota"@ != "usage_policy"@,
        "membership_group"@ != "usage_policy"@,
{
    reveal_strlit("wallet_credit");
    reveal_strlit("daily_quota");
    reveal_strlit("membership_group");
    reveal_strlit("usage_policy");
    assert("wallet_credit"@.len() == 13);
    assert("daily_quota"@.len() == 11);
    assert("membership_group"@.len() == 16);
    assert("usage_policy"@.len() == 12);
}

/// An entitlement is taken exactly if it is sound.
pub proof fn an_entitlement_is_taken_exactly_if_it_is_sound(item: EntitlementItem)
    ensures
        billing_plans::item_fault(item) is None <==> is_sound_item(item),
{
    lemma_kinds();
    match item.spec_field("grant_user_groups"@) {
        Some(FieldValue::List(groups)) => {
            lemma_groups(groups@, 0);
        },
        _ => {},
    }
    match item.spec_field("reset_timezone"@) {
        Some(FieldValue::Text(zone)) => {
            text_laws::only_blank_texts_are_trimmed_away(zone@);
        },
        _ => {},
    }
}

/// The entitlement names a group that says something and is at most 128 characters long, if it has a
/// field of that name at all.
pub open spec fn has_sound_group(item: EntitlementItem) -> bool {
    let group = item.spec_field("replacement_group"@);
    group is Some ==> {
        &&& group->0 is Text
        &&& says_something(group->0->Text_0@)
        &&& text::trimmed(group->0->Text_0@).len() <= 128
    }
}

proof fn lemma_group_faults(items: Seq<EntitlementItem>, from: nat)
    ensures
        replacement::first_group_fault(items, from) is None <==> forall|i: int|
            from <= i < items.len() ==> has_sound_group(#[trigger] items[i]),
    decreases items.len() - from,
{
    if from < items.len() {
        lemma_group_faults(items, from + 1);
        match items[from as int].spec_field("replacement_group"@) {
            Some(FieldValue::Text(group)) => {
                text_laws::only_blank_texts_are_trimmed_away(group@);
            },
            _ => {},
        }
    }
}

/// The replacement groups of a document are taken exactly if it is a list and each of them is sound.
pub proof fn groups_are_taken_exactly_if_they_are_sound(entitlements: Entitlements)
    ensures
        replacement::groups_fault(entitlements) is None <==> entitlements is Items && forall|i: int|
            0 <= i < entitlements->Items_0@.len() ==> has_sound_group(
                #[trigger] entitlements->Items_0@[i],
            ),
{
    if entitlements is Items {
        lemma_group_faults(entitlements->Items_0@, 0);
    }
}

/// The entitlement names this group, white space around it aside.
pub open spec fn names_group(item: EntitlementItem, group: Seq<char>) -> bool {
    let field = item.spec_field("replacement_group"@);
    &&& field is Some
    &&& field->0 is Text
    &&& says_something(field->0->Text_0@)
    &&& text::trimmed(field->0->Text_0@) == group
}

/// Two entitlements replace each other: both are daily quotas, both are memberships, or both name one
/// group.
pub open spec fn displace(a: EntitlementItem, b: EntitlementItem) -> bool {
    ||| a.kind() == Some("daily_quota"@) && b.kind() == Some("daily_quota"@)
    ||| a.kind() == Some("membership_group"@) && b.kind() == Some("membership_group"@)
    ||| exists|group: Seq<char>| #[trigger] names_group(a, group) && names_group(b, group)
}

proof fn lemma_group_of(item: EntitlementItem, group: Seq<char>)
    ensures
        replacement::group_of(item) == Some(group) <==> names_group(item, group),
{
    match item.spec_field("replacement_group"@) {
        Some(FieldValue::Text(value)) => {
            text_laws::only_blank_texts_are_trimmed_away(value@);
        },
        _ => {},
    }
}

/// A plan replaces another exactly if an entitlement of the one and an entitlement of the other replace
/// each other; a plan can replace others exactly if it has a daily quota, a membership or a group.
pub proof fn plans_replace_each_other_by_their_entitlements(a: Entitlements, b: Entitlements)
    ensures
        replacement::replaces(a, b) <==> a is Items && b is Items && exists|i: int, j: int|
            0 <= i < a->Items_0@.len() && 0 <= j < b->Items_0@.len() && displace(
                #[trigger] a->Items_0@[i],
                #[trigger] b->Items_0@[j],
            ),
        replacement::has_selector(a) <==> a is Items && exists|i: int|
            0 <= i < a->Items_0@.len() && displace(#[trigger] a->Items_0@[i], a->Items_0@[i]),
{
    if a is Items {
        let x = a->Items_0@;
        assert forall|i: int| 0 <= i < x.len() implies (replacement::is_selector(#[trigger] x[i])
            <==> displace(x[i], x[i])) by {
            if replacement::group_of(x[i]) is Some {
                lemma_group_of(x[i], replacement::group_of(x[i])->0);
                assert(names_group(x[i], replacement::group_of(x[i])->0));
            }
            if exists|group: Seq<char>| #[trigger] names_group(x[i], group) && names_group(
                x[i],
                group,
            ) {
                let group = choose|group: Seq<char>| #[trigger] names_group(x[i], group)
                    && names_group(x[i], group);
                lemma_group_of(x[i], group);
            }
        }
        if replacement::has_selector(a) {
            let i = choose|i: int| 0 <= i < x.len() && replacement::is_selector(#[trigger] x[i]);
            assert(displace(x[i], x[i]));
        }
        if exists|i: int| 0 <= i < x.len() && displace(#[trigger] x[i], x[i]) {
            let i = choose|i: int| 0 <= i < x.len() && displace(#[trigger] x[i], x[i]);
            assert(replacement::is_selector(x[i]));
        }
    }
    if a is Items && b is Items {
        let x = a->Items_0@;
        let y = b->Items_0@;
        if replacement::replaces(a, b) {
            lemma_replaces(a, b);
        }
        if exists|i: int, j: int|
            0 <= i < x.len() && 0 <= j < y.len() && displace(#[trigger] x[i], #[trigger] y[j]) {
            let (i, j) = choose|i: int, j: int|
                0 <= i < x.len() && 0 <= j < y.len() && displace(#[trigger] x[i], #[trigger] y[j]);
            if x[i].kind() == Some("daily_quota"@) && y[j].kind() == Some("daily_quota"@) {
                assert(replacement::replaces_without_group("daily_quota"@));
                assert(replacement::some_of_type(x, "daily_quota"@));
                assert(replacement::some_of_type(y, "daily_quota"@));
            } else if x[i].kind() == Some("membership_group"@) && y[j].kind() == Some(
                "membership_group"@,
            ) {
                assert(replacement::replaces_without_group("membership_group"@));
                assert(replacement::some_of_type(x, "membership_group"@));
                assert(replacement::some_of_type(y, "membership_group"@));
            } else {
                let group = choose|group: Seq<char>| #[trigger] names_group(x[i], group)
                    && names_group(y[j], group);
                lemma_group_of(x[i], group);
                lemma_group_of(y[j], group);
                assert(replacement::some_in_group(x, group));
                assert(replacement::some_in_group(y, group));
            }
        }
    }
}

proof fn lemma_replaces(a: Entitlements, b: Entitlements)
    requires
        replacement::replaces(a, b),
    ensures
        a is Items,
        b is Items,
        exists|i: int, j: int|
            0 <= i < a->Items_0@.len() && 0 <= j < b->Items_0@.len() && displace(
                #[trigger] a->Items_0@[i],
                #[trigger] b->Items_0@[j],
            ),
{
    let x = a->Items_0@;
    let y = b->Items_0@;
    if exists|kind: Seq<char>| #[trigger]
        replacement::replaces_without_group(kind) && replacement::some_of_type(x, kind)
            && replacement::some_of_type(y, kind) {
        let kind = choose|kind: Seq<char>| #[trigger]
            replacement::replaces_without_group(kind) && replacement::some_of_type(x, kind)
                && replacement::some_of_type(y, kind);
        let i = choose|i: int| 0 <= i < x.len() && (#[trigger] x[i]).kind() == Some(kind);
        let j = choose|j: int| 0 <= j < y.len() && (#[trigger] y[j]).kind() == Some(kind);
        assert(displace(x[i], y[j]));
    } else {
        let group = choose|group: Seq<char>| #[trigger]
            replacement::some_in_group(x, group) && replacement::some_in_group(y, group);
        let i = choose|i: int|
            0 <= i < x.len() && replacement::group_of(#[trigger] x[i]) == Some(group);
        let j = choose|j: int|
            0 <= j < y.len() && replacement::group_of(#[trigger] y[j]) == Some(group);
        lemma_group_of(x[i], group);
        lemma_group_of(y[j], group);
        assert(names_group(x[i], group) && names_group(y[j], group));
        assert(displace(x[i], y[j]));
    }
}

proof fn lemma_items(items: Seq<EntitlementItem>, from: nat)
    ensures
        billing_plans::first_item_fault(items, from) is None <==> forall|i: int|
            from <= i < items.len() ==> is_sound_item(#[trigger] items[i]),
    decreases items.len() - from,
{
    if from < items.len() {
        lemma_items(items, from + 1);
        an_entitlement_is_taken_exactly_if_it_is_sound(items[from as int]);
    }
}

/// The entitlements of a plan are sound: there are some, each is sound and has a sound group, the usage
/// policies among them can be read, and one of them is more than a credit.
pub open spec fn are_sound_entitlements(entitlements: Entitlements) -> bool {
    &&& entitlements is Items
    &&& entitlements->Items_0@.len() > 0
    &&& forall|i: int|
        0 <= i < entitlements->Items_0@.len() ==> is_sound_item(
            #[trigger] entitlements->Items_0@[i],
        ) && has_sound_group(entitlements->Items_0@[i])
    &&& policy_parser::policies_of(entitlements) is Ok
    &&& exists|i: int|
        0 <= i < entitlements->Items_0@.len() && (#[trigger] entitlements->Items_0@[i]).kind()
            != Some("wallet_credit"@)
}

/// The entitlements of a plan are taken exactly if they are sound.
pub proof fn entitlements_are_taken_exactly_if_they_are_sound(entitlements: Entitlements)
    ensures
        billing_plans::entitlements_fault(entitlements) is None <==> are_sound_entitlements(
            entitlements,
        ),
{
    lemma_kinds();
    groups_are_taken_exactly_if_they_are_sound(entitlements);
    if entitlements is Items {
        let items = entitlements->Items_0@;
        lemma_items(items, 0);
        if billing_plans::entitlements_fault(entitlements) is None {
            let i = choose|i: int|
                0 <= i < items.len() && entitlement::is_package_right(#[trigger] items[i]);
            assert(items[i].kind() != Some("wallet_credit"@));
        }
        if are_sound_entitlements(entitlements) {
            let i = choose|i: int|
                0 <= i < items.len() && (#[trigger] items[i]).kind() != Some("wallet_credit"@);
            assert(is_sound_item(items[i]));
            assert(entitlement::is_package_right(items[i]));
        }
    }
}

/// The text is one of these, white space around it aside.
pub open spec fn is_unit(s: Seq<char>) -> bool {
    let t = text::trimmed(s);
    t == "day"@ || t == "month"@ || t == "year"@ || t == "custom"@
}

/// The text is one of these, white space around it aside.
pub open spec fn is_scope(s: Seq<char>) -> bool {
    let t = text::trimmed(s);
    t == "active_period"@ || t == "lifetime"@ || t == "unlimited"@
}

/// A plan is written exactly if its price, its duration and the number of copies that a user may hold
/// are positive, its unit and its scope are known, its entitlements are sound, and its texts are there
/// and not too long. It is written as it was sent, its texts without the white space around them.
pub proof fn a_plan_is_written_exactly_if_it_is_sound(
    plan: BillingPlanRequest,
    r: Result<BillingPlanWriteInput, String>,
)
    requires
        call_ensures(billing_plans::normalize_plan_input, (plan,), r),
    ensures
        r is Ok <==> {
            &&& plan.price_amount.positive()
            &&& plan.duration_value > 0
            &&& plan.max_active_per_user > 0
            &&& is_unit(plan.duration_unit@)
            &&& is_scope(plan.purchase_limit_scope@)
            &&& are_sound_entitlements(plan.entitlements)
            &&& says_something(plan.title@) && text::trimmed(plan.title@).len() <= 128
            &&& plan.description is Some ==> text::trimmed(plan.description->0@).len() <= 2048
            &&& says_something(plan.price_currency@) && text::trimmed(plan.price_currency@).len()
                <= 16
        },
        r is Ok ==> {
            let written = r->Ok_0;
            &&& written.title@ == text::trimmed(plan.title@)
            &&& written.price_currency@ == text::trimmed(plan.price_currency@)
            &&& written.duration_unit@ == text::trimmed(plan.duration_unit@)
            &&& written.purchase_limit_scope@ == text::trimmed(plan.purchase_limit_scope@)
            &&& written.description is Some <==> plan.description is Some && says_something(
                plan.description->0@,
            )
            &&& written.description is Some ==> written.description->0@ == text::trimmed(
                plan.description->0@,
            )
            &&& written.price_amount == plan.price_amount
            &&& written.duration_value == plan.duration_value
            &&& written.enabled == plan.enabled
            &&& written.sort_order == plan.sort_order
            &&& written.max_active_per_user == plan.max_active_per_user
            &&& written.entitlements == plan.entitlements
        },
        r is Ok <==> billing_plans::plan_of(plan) is Ok,
{
    entitlements_are_taken_exactly_if_they_are_sound(plan.entitlements);
    text_laws::only_blank_texts_are_trimmed_away(plan.title@);
    text_laws::only_blank_texts_are_trimmed_away(plan.price_currency@);
    if plan.description is Some {
        text_laws::only_blank_texts_are_trimmed_away(plan.description->0@);
    }
    reveal_strlit("day");
    reveal_strlit("month");
    reveal_strlit("year");
    reveal_strlit("custom");
    reveal_strlit("active_period");
    reveal_strlit("lifetime");
    reveal_strlit("unlimited");
    assert("day"@.len() == 3 && "month"@.len() == 5 && "year"@.len() == 4 && "custom"@.len() == 6);
    assert("active_period"@.len() == 13 && "lifetime"@.len() == 8 && "unlimited"@.len() == 9);
}

/// The text is one segment of a path.
pub open spec fn is_one_segment(s: Seq<char>) -> bool {
    s.len() > 0 && forall|i: int| 0 <= i < s.len() ==> #[trigger] s[i] != '/'
}

/// The text is slashes alone.
pub open spec fn are_slashes(s: Seq<char>) -> bool {
    forall|i: int| 0 <= i < s.len() ==> #[trigger] s[i] == '/'
}

proof fn lemma_segment(s: Seq<char>)
    ensures
        path::segment(s) == if is_one_segment(s) {
            Some(s)
        } else {
            None
        },
{
    if s.contains('/') {
        let i = choose|i: int| 0 <= i < s.len() && s[i] == '/';
        assert(s[i] == '/');
    }
}

proof fn lemma_twice_unslashed(s: Seq<char>)
    ensures
        path::unslashed(path::unslashed(s)) == path::unslashed(s),
{
    text_laws::only_trailing_slashes_are_taken(s);
    let t = path::unslashed(s);
    text_laws::slashes_behind_a_path_do_not_matter(t, Seq::empty());
    assert(t + Seq::<char>::empty() =~= t);
}

/// Every plan can be named: a request under the path of a plan, with or without slashes behind it, asks
/// for that plan, to change it, to delete it, or, under its status, to put it on sale or take it off.
pub proof fn every_plan_can_be_named(id: Seq<char>, slashes: Seq<char>)
    requires
        is_one_segment(id),
        are_slashes(slashes),
    ensures
        ({
            let plan = "/api/admin/billing/plans/"@ + id + slashes;
            let status = "/api/admin/billing/plans/"@ + id + "/status"@ + slashes;
            &&& billing_plan_routes::route_of(HttpMethod::Put, plan) == (Route::Update {
                plan_id: id,
            })
            &&& billing_plan_routes::route_of(HttpMethod::Delete, plan) == (Route::Delete {
                plan_id: id,
            })
            &&& billing_plan_routes::route_of(HttpMethod::Patch, status) == (Route::SetEnabled {
                plan_id: id,
            })
        }),
{
    let prefix = "/api/admin/billing/plans/"@;
    let plan = prefix + id;
    assert(plan.last() == id.last());
    text_laws::slashes_behind_a_path_do_not_matter(plan, slashes);
    lemma_twice_unslashed(plan + slashes);
    text_laws::a_text_is_made_of_its_parts(plan, prefix, id);
    lemma_segment(id);
    reveal_strlit("/status");
    let status = prefix + id + "/status"@;
    assert(status.last() == 's');
    text_laws::slashes_behind_a_path_do_not_matter(status, slashes);
    lemma_twice_unslashed(status + slashes);
    let rest = id + "/status"@;
    assert(status =~= prefix + rest);
    text_laws::a_text_is_made_of_its_parts(status, prefix, rest);
    text_laws::a_text_is_made_of_its_parts(rest, "/status"@, id);
    text_laws::slashes_behind_a_path_do_not_matter(id, Seq::empty());
    assert(id + Seq::<char>::empty() =~= id);
}

/// A request asks for a plan only under the path of that plan, for all plans exactly under theirs, and
/// for anything only by the methods that there are for it.
#[verifier::spinoff_prover]
#[verifier::rlimit(40)]
pub proof fn only_its_path_names_a_plan(method: HttpMethod, request_path: Seq<char>)
    ensures
        ({
            let route = billing_plan_routes::route_of(method, request_path);
            let p = path::unslashed(request_path);
            let prefix = "/api/admin/billing/plans/"@;
            &&& route is List <==> method is Get && p == "/api/admin/billing/plans"@
            &&& route is Create <==> method is Post && p == "/api/admin/billing/plans"@
            &&& route is Update ==> method is Put && is_one_segment(route->Update_plan_id) && p
                == prefix + route->Update_plan_id
            &&& route is Delete ==> method is Delete && is_one_segment(route->Delete_plan_id) && p
                == prefix + route->Delete_plan_id
            &&& route is SetEnabled ==> method is Patch && is_one_segment(
                route->SetEnabled_plan_id,
            ) && exists|slashes: Seq<char>| #[trigger]
                are_slashes(slashes) && p == prefix + (route->SetEnabled_plan_id + slashes
                    + "/status"@)
        }),
{
    let p = path::unslashed(request_path);
    let prefix = "/api/admin/billing/plans/"@;
    lemma_twice_unslashed(request_path);
    let rest = path::behind(p, prefix);
    if rest is Some {
        text_laws::a_text_is_made_of_its_parts(p, prefix, rest->0);
        lemma_segment(rest->0);
        let ahead = path::ahead(rest->0, "/status"@);
        if ahead is Some {
            text_laws::a_text_is_made_of_its_parts(rest->0, "/status"@, ahead->0);
            let id = path::unslashed(ahead->0);
            text_laws::only_trailing_slashes_are_taken(ahead->0);
            lemma_segment(id);
            let slashes = ahead->0.skip(id.len() as int);
            assert(are_slashes(slashes)) by {
                assert forall|i: int| 0 <= i < slashes.len() implies #[trigger] slashes[i] == '/' by {
                    assert(ahead->0[id.len() + i] == '/');
                }
            }
            assert(ahead->0 =~= id + slashes);
            assert(p == prefix + (id + slashes + "/status"@));
        }
    }
}

/// A change that was made is answered with the plan, or, for a deletion, with nothing; one of a plan
/// that is not there with that; a deletion that the store refuses with its words; and everything else
/// with that the data are not available.
pub proof fn a_change_is_answered_by_what_became_of_it(
    route: PlansRoute,
    outcome: LocalMutationOutcome,
    r: PlansReply,
)
    requires
        call_ensures(billing_plan_routes::reply_to_plan_change, (&route, outcome), r),
        !(route is NotHandled),
        !(route is List),
    ensures
        r is NoContent <==> outcome is Applied && route is Delete,
        r is Plan <==> outcome is Applied && !(route is Delete),
        r is NotFound <==> outcome is NotFound && !(route is Create),
        r is Conflict <==> outcome is Invalid && route is Delete,
        r is Conflict ==> r->Conflict_0@ == outcome->Invalid_0@,
        !(r is BadRequest),
{
    assert(r@ == billing_plan_routes::reply_of(route@, outcome));
}

} // verus!
