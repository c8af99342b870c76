//! Entitlement documents: the list of rights that a plan grants, as it is read.

use crate::binary64::Binary64;
use crate::text;
use crate::usage_policy::UsagePolicyEntitlement;
use vstd::prelude::*;
use vstd::string::*;

verus! {

/// The value of a field of an entitlement.
#[derive(Debug)]
pub enum FieldValue {
    Text(String),
    Flag(bool),
    Number(Binary64),
    /// A list: the text of each element that is one.
    List(Vec<Option<String>>),
    /// A null or an object.
    Other,
}

/// What an entitlement is when it is read as a usage policy.
#[derive(Debug)]
pub enum PolicyShape {
    Policy(UsagePolicyEntitlement),
    /// It has not the shape of one, for this reason.
    Malformed(String),
}

/// One right of a plan: its fields, none where it is not an object, and what it is as a usage
/// policy.
#[derive(Debug)]
pub struct EntitlementItem {
    pub fields: Vec<(String, FieldValue)>,
    pub policy: PolicyShape,
}

/// The rights of a plan.
#[derive(Debug)]
pub enum Entitlements {
    NotAnArray,
    Items(Vec<EntitlementItem>),
}

/// The value of the first field from position `from` on with a name.
pub open spec fn field_from(
    fields: Seq<(String, FieldValue)>,
    name: Seq<char>,
    from: nat,
) -> Option<FieldValue>
    decreases fields.len() - from,
{
    if from >= fields.len() {
        None
    } else if fields[from as int].0@ == name {
        Some(fields[from as int].1)
    } else {
        field_from(fields, name, from + 1)
    }
}

impl EntitlementItem {
    /// The value of a field.
    pub open spec fn spec_field(self, name: Seq<char>) -> Option<FieldValue> {
        field_from(self.fields@, name, 0)
    }

    /// The text of a field that is one.
    pub open spec fn text_of(self, name: Seq<char>) -> Option<Seq<char>> {
        match self.spec_field(name) {
            Some(FieldValue::Text(value)) => Some(value@),
            _ => None,
        }
    }

    /// The type of the entitlement.
    pub open spec fn kind(self) -> Option<Seq<char>> {
        self.text_of("type"@)
    }

    /// The value of a field.
    pub fn field(&self, name: &str) -> (r: Option<&FieldValue>)
        ensures
            match r {
                Some(value) => self.spec_field(name@) == Some(*value),
                None => self.spec_field(name@) is None,
            },
    {
        let mut at: usize = 0;
        while at < self.fields.len()
            invariant
                at <= self.fields@.len(),
                self.spec_field(name@) == field_from(self.fields@, name@, at as nat),
            decreases self.fields@.len() - at,
        {
            if text::same(self.fields[at].0.as_str(), name) {
                return Some(&self.fields[at].1);
            }
            at += 1;
        }
        None
    }

    /// The text of a field that is one.
    pub fn text_field(&self, name: &str) -> (r: Option<&str>)
        ensures
            text::opt_view(r) == self.text_of(name@),
    {
        match self.field(name) {
            Some(FieldValue::Text(value)) => Some(value.as_str()),
            _ => None,
        }
    }

    /// Whether the entitlement has a type.
    pub fn is_of_type(&self, name: &str) -> (r: bool)
        ensures
            r == (self.kind() == Some(name@)),
    {
        match self.text_field("type") {
            Some(kind) => text::same(kind, name),
            None => false,
        }
    }
}

/// The entitlement is a right of its own, not just a credit to the wallet.
pub open spec fn is_package_right(item: EntitlementItem) -> bool {
    item.kind() == Some("daily_quota"@) || item.kind() == Some("membership_group"@) || item.kind()
        == Some("usage_policy"@)
}

/// One of the entitlements is a right of its own.
pub open spec fn has_package_right(items: Seq<EntitlementItem>) -> bool {
    exists|i: int| 0 <= i < items.len() && is_package_right(#[trigger] items[i])
}

/// Whether one of the entitlements is a right of its own.
pub fn entitlements_include_package_rights(items: &Vec<EntitlementItem>) -> (r: bool)
    ensures
        r == has_package_right(items@),
{
    let mut at: usize = 0;
    while at < items.len()
        invariant
            at <= items@.len(),
            forall|i: int| 0 <= i < at ==> !is_package_right(#[trigger] items@[i]),
        decreases items@.len() - at,
    {
        let item = &items[at];
        if item.is_of_type("daily_quota") || item.is_of_type("membership_group") || item.is_of_type(
            "usage_policy",
        ) {
            assert(is_package_right(items@[at as int]));
            return true;
        }
        at += 1;
    }
    false
}

} // verus!
