//! Replacement groups: which plans take the place of which.

use crate::entitlement::{EntitlementItem, Entitlements, FieldValue};
use crate::text;
use vstd::prelude::*;
use vstd::string::*;

verus! {

/// The field that names the replacement group of an entitlement.
pub const ENTITLEMENT_REPLACEMENT_GROUP_FIELD: &'static str = "replacement_group";

/// The most characters in the name of a replacement group.
pub const MAX_ENTITLEMENT_REPLACEMENT_GROUP_LENGTH: usize = 128;

/// Why a replacement group is not valid.
#[derive(Debug, Clone, Copy, PartialEq, Eq, Structural)]
pub enum EntitlementReplacementGroupValidationError {
    EntitlementsMustBeArray,
    InvalidType { index: usize },
    Empty { index: usize },
    TooLong { index: usize, max_len: usize },
}

impl EntitlementReplacementGroupValidationError {
    /// The text of the error.
    pub open spec fn spec_message(self) -> Seq<char> {
        match self {
            EntitlementReplacementGroupValidationError::EntitlementsMustBeArray =>
                "entitlements must be an array"@,
            EntitlementReplacementGroupValidationError::InvalidType { index } => "entitlements["@
                + text::decimal(index as nat) + "].replacement_group must be a string"@,
            EntitlementReplacementGroupValidationError::Empty { index } => "entitlements["@
                + text::decimal(index as nat) + "].replacement_group must not be empty"@,
            EntitlementReplacementGroupValidationError::TooLong { index, max_len } =>
                "entitlements["@ + text::decimal(index as nat)
                + "].replacement_group exceeds maximum length "@ + text::decimal(max_len as nat),
        }
    }

    /// The text of the error.
    pub fn message(&self) -> (r: String)
        ensures
            r@ == self.spec_message(),
    {
        match self {
            EntitlementReplacementGroupValidationError::EntitlementsMustBeArray =>
                "entitlements must be an array".to_string(),
            EntitlementReplacementGroupValidationError::InvalidType { index } => text::numbered(
                "entitlements[",
                *index as u64,
                "].replacement_group must be a string",
            ),
            EntitlementReplacementGroupValidationError::Empty { index } => text::numbered(
                "entitlements[",
                *index as u64,
                "].replacement_group must not be empty",
            ),
            EntitlementReplacementGroupValidationError::TooLong { index, max_len } => {
                let mut r = text::numbered(
                    "entitlements[",
                    *index as u64,
                    "].replacement_group exceeds maximum length ",
                );
                r.append(text::decimal_text(*max_len as u64).as_str());
                r
            },
        }
    }
}

/// What is wrong with the replacement group of the entitlement at position `index`, if it has one.
pub open spec fn group_fault(item: EntitlementItem, index: usize) -> Option<
    EntitlementReplacementGroupValidationError,
> {
    match item.spec_field(ENTITLEMENT_REPLACEMENT_GROUP_FIELD@) {
        None => None,
        Some(FieldValue::Text(group)) => {
            let name = text::trimmed(group@);
            if name.len() == 0 {
                Some(EntitlementReplacementGroupValidationError::Empty { index })
            } else if name.len() > MAX_ENTITLEMENT_REPLACEMENT_GROUP_LENGTH {
                Some(
                    EntitlementReplacementGroupValidationError::TooLong {
                        index,
                        max_len: MAX_ENTITLEMENT_REPLACEMENT_GROUP_LENGTH,
                    },
                )
            } else {
                None
            }
        },
        Some(_) => Some(EntitlementReplacementGroupValidationError::InvalidType { index }),
    }
}

/// The first fault of a replacement group from position `from` on.
pub open spec fn first_group_fault(items: Seq<EntitlementItem>, from: nat) -> Option<
    EntitlementReplacementGroupValidationError,
>
    decreases items.len() - from,
{
    if from >= items.len() {
        None
    } else if group_fault(items[from as int], from as usize) is Some {
        group_fault(items[from as int], from as usize)
    } else {
        first_group_fault(items, from + 1)
    }
}

/// What is wrong with the replacement groups of entitlements.
pub open spec fn groups_fault(entitlements: Entitlements) -> Option<
    EntitlementReplacementGroupValidationError,
> {
    match entitlements {
        Entitlements::NotAnArray => Some(
            EntitlementReplacementGroupValidationError::EntitlementsMustBeArray,
        ),
        Entitlements::Items(items) => first_group_fault(items@, 0),
    }
}

fn validate_group(item: &EntitlementItem, index: usize) -> (r: Result<
    (),
    EntitlementReplacementGroupValidationError,
>)
    ensures
        match group_fault(*item, index) {
            Some(fault) => r == Err::<(), EntitlementReplacementGroupValidationError>(fault),
            None => r is Ok,
        },
{
    match item.field(ENTITLEMENT_REPLACEMENT_GROUP_FIELD) {
        None => Ok(()),
        Some(FieldValue::Text(group)) => {
            let group = text::trim(group.as_str());
            if group.is_empty() {
                return Err(EntitlementReplacementGroupValidationError::Empty { index });
            }
            if group.unicode_len() > MAX_ENTITLEMENT_REPLACEMENT_GROUP_LENGTH {
                return Err(
                    EntitlementReplacementGroupValidationError::TooLong {
                        index,
                        max_len: MAX_ENTITLEMENT_REPLACEMENT_GROUP_LENGTH,
                    },
                );
            }
            Ok(())
        },
        Some(_) => Err(EntitlementReplacementGroupValidationError::InvalidType { index }),
    }
}

/// Checks the replacement groups of entitlements.
pub fn validate_entitlement_replacement_groups(entitlements: &Entitlements) -> (r: Result<
    (),
    EntitlementReplacementGroupValidationError,
>)
    ensures
        match groups_fault(*entitlements) {
            Some(fault) => r == Err::<(), EntitlementReplacementGroupValidationError>(fault),
            None => r is Ok,
        },
{
    match entitlements {
        Entitlements::NotAnArray => Err(
            EntitlementReplacementGroupValidationError::EntitlementsMustBeArray,
        ),
        Entitlements::Items(items) => {
            let mut index: usize = 0;
            while index < items.len()
                invariant
                    index <= items@.len(),
                    groups_fault(*entitlements) == first_group_fault(items@, index as nat),
                decreases items@.len() - index,
            {
                validate_group(&items[index], index)?;
                index += 1;
            }
            Ok(())
        },
    }
}

/// The replacement group that an entitlement names, without the white space around it.
pub open spec fn group_of(item: EntitlementItem) -> Option<Seq<char>> {
    match item.text_of(ENTITLEMENT_REPLACEMENT_GROUP_FIELD@) {
        Some(group) => if text::trimmed(group).len() > 0 {
            Some(text::trimmed(group))
        } else {
            None
        },
        None => None,
    }
}

fn replacement_group(item: &EntitlementItem) -> (r: Option<&str>)
    ensures
        text::opt_view(r) == group_of(*item),
{
    match item.text_field(ENTITLEMENT_REPLACEMENT_GROUP_FIELD) {
        Some(group) => {
            let group = text::trim(group);
            if group.is_empty() {
                None
            } else {
                Some(group)
            }
        },
        None => None,
    }
}

/// Daily quotas and membership groups replace each other without a group.
pub open spec fn replaces_without_group(kind: Seq<char>) -> bool {
    kind == "daily_quota"@ || kind == "membership_group"@
}

/// The entitlement may replace others.
pub open spec fn is_selector(item: EntitlementItem) -> bool {
    (item.kind() is Some && replaces_without_group(item.kind()->0)) || group_of(item) is Some
}

/// One of the entitlements may replace others.
pub open spec fn some_selector(items: Seq<EntitlementItem>) -> bool {
    exists|i: int| 0 <= i < items.len() && is_selector(#[trigger] items[i])
}

/// The entitlements may replace others.
pub open spec fn has_selector(entitlements: Entitlements) -> bool {
    match entitlements {
        Entitlements::NotAnArray => false,
        Entitlements::Items(items) => some_selector(items@),
    }
}

fn items_have_selector(items: &Vec<EntitlementItem>) -> (r: bool)
    ensures
        r == some_selector(items@),
{
    let mut at: usize = 0;
    while at < items.len()
        invariant
            at <= items@.len(),
            forall|i: int| 0 <= i < at ==> !is_selector(#[trigger] items@[i]),
        decreases items@.len() - at,
    {
        let item = &items[at];
        if item.is_of_type("daily_quota") || item.is_of_type("membership_group")
            || replacement_group(item).is_some() {
            assert(is_selector(items@[at as int]));
            return true;
        }
        at += 1;
    }
    false
}

/// Whether the entitlements may replace others.
pub fn entitlements_have_replacement_selector(entitlements: &Entitlements) -> (r: bool)
    ensures
        r == has_selector(*entitlements),
{
    match entitlements {
        Entitlements::NotAnArray => false,
        Entitlements::Items(items) => items_have_selector(items),
    }
}

/// One of the entitlements has a type.
pub open spec fn some_of_type(items: Seq<EntitlementItem>, kind: Seq<char>) -> bool {
    exists|i: int| 0 <= i < items.len() && (#[trigger] items[i]).kind() == Some(kind)
}

/// One of the entitlements names a group.
pub open spec fn some_in_group(items: Seq<EntitlementItem>, group: Seq<char>) -> bool {
    exists|i: int| 0 <= i < items.len() && group_of(#[trigger] items[i]) == Some(group)
}

/// Both lists have an entitlement of a type that replaces without a group, or name a common group.
pub open spec fn replaces(incoming: Entitlements, existing: Entitlements) -> bool {
    match (incoming, existing) {
        (Entitlements::Items(incoming), Entitlements::Items(existing)) => {
            ||| exists|kind: Seq<char>| #[trigger]
                replaces_without_group(kind) && some_of_type(incoming@, kind) && some_of_type(
                    existing@,
                    kind,
                )
            ||| exists|group: Seq<char>| #[trigger]
                some_in_group(incoming@, group) && some_in_group(existing@, group)
        },
        _ => false,
    }
}

fn entitlement_items_have_type(items: &Vec<EntitlementItem>, entitlement_type: &str) -> (r: bool)
    ensures
        r == some_of_type(items@, entitlement_type@),
{
    let mut at: usize = 0;
    while at < items.len()
        invariant
            at <= items@.len(),
            forall|i: int|
                0 <= i < at ==> (#[trigger] items@[i]).kind() != Some(entitlement_type@),
        decreases items@.len() - at,
    {
        if items[at].is_of_type(entitlement_type) {
            assert(items@[at as int].kind() == Some(entitlement_type@));
            return true;
        }
        at += 1;
    }
    false
}

fn items_have_group(items: &Vec<EntitlementItem>, group: &str) -> (r: bool)
    ensures
        r == some_in_group(items@, group@),
{
    let mut at: usize = 0;
    while at < items.len()
        invariant
            at <= items@.len(),
            forall|i: int| 0 <= i < at ==> group_of(#[trigger] items@[i]) != Some(group@),
        decreases items@.len() - at,
    {
        if let Some(other) = replacement_group(&items[at]) {
            if text::same(other, group) {
                assert(group_of(items@[at as int]) == Some(group@));
                return true;
            }
        }
        at += 1;
    }
    false
}

fn share_a_group(incoming: &Vec<EntitlementItem>, existing: &Vec<EntitlementItem>) -> (r: bool)
    ensures
        r == exists|group: Seq<char>| #[trigger]
            some_in_group(incoming@, group) && some_in_group(existing@, group),
{
    let mut at: usize = 0;
    while at < existing.len()
        invariant
            at <= existing@.len(),
            forall|i: int|
                0 <= i < at && group_of(#[trigger] existing@[i]) is Some ==> !some_in_group(
                    incoming@,
                    group_of(existing@[i])->0,
                ),
        decreases existing@.len() - at,
    {
        if let Some(group) = replacement_group(&existing[at]) {
            if items_have_group(incoming, group) {
                assert(group_of(existing@[at as int]) == Some(group@));
                assert(some_in_group(existing@, group@));
                return true;
            }
        }
        at += 1;
    }
    false
}

/// Whether a plan with the incoming entitlements takes the place of one with the existing ones.
pub fn entitlements_should_replace_existing(incoming: &Entitlements, existing: &Entitlements) -> (r:
    bool)
    ensures
        r == replaces(*incoming, *existing),
{
    let (incoming, existing) = match (incoming, existing) {
        (Entitlements::Items(incoming), Entitlements::Items(existing)) => (incoming, existing),
        _ => return false,
    };
    if entitlement_items_have_type(incoming, "daily_quota") && entitlement_items_have_type(
        existing,
        "daily_quota",
    ) {
        assert(replaces_without_group("daily_quota"@));
        return true;
    }
    if entitlement_items_have_type(incoming, "membership_group") && entitlement_items_have_type(
        existing,
        "membership_group",
    ) {
        assert(replaces_without_group("membership_group"@));
        return true;
    }
    share_a_group(incoming, existing)
}

/// Whether plans replace each other does not depend on which of them is the incoming one.
pub proof fn replacement_is_symmetric(a: Entitlements, b: Entitlements)
    ensures
        replaces(a, b) == replaces(b, a),
{
}

/// A plan that names no group and is of no type that replaces without one stacks with every plan.
pub proof fn a_plan_without_selector_replaces_nothing(a: Entitlements, b: Entitlements)
    requires
        !has_selector(a),
    ensures
        !replaces(a, b),
{
    if replaces(a, b) {
        let items = a->Items_0@;
        let others = b->Items_0@;
        if exists|kind: Seq<char>| #[trigger]
            replaces_without_group(kind) && some_of_type(items, kind) && some_of_type(
                others,
                kind,
            ) {
            let kind = choose|kind: Seq<char>| #[trigger]
                replaces_without_group(kind) && some_of_type(items, kind) && some_of_type(
                    others,
                    kind,
                );
            let i = choose|i: int|
                0 <= i < items.len() && (#[trigger] items[i]).kind() == Some(kind);
            assert(is_selector(items[i]));
        } else {
            let group = choose|group: Seq<char>| #[trigger]
                some_in_group(items, group) && some_in_group(others, group);
            let i = choose|i: int|
                0 <= i < items.len() && group_of(#[trigger] items[i]) == Some(group);
            assert(is_selector(items[i]));
        }
    }
}

/// A plan that may replace others replaces a plan with the same entitlements.
pub proof fn a_plan_with_selector_replaces_itself(a: Entitlements)
    requires
        has_selector(a),
    ensures
        replaces(a, a),
{
    let items = a->Items_0@;
    let i = choose|i: int| 0 <= i < items.len() && is_selector(#[trigger] items[i]);
    if group_of(items[i]) is Some {
        assert(some_in_group(items, group_of(items[i])->0));
    } else {
        let kind = items[i].kind()->0;
        assert(replaces_without_group(kind));
        assert(some_of_type(items, kind));
    }
}

} // verus!
