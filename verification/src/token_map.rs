//! A map from text keys to values that keeps its entries in the order of their keys.

use crate::text;
use crate::text::KeyOrder;
use vstd::prelude::*;

verus! {

/// Entries of a map: keys with their values.
pub type Entries<V> = Seq<(Seq<char>, V)>;

/// The keys strictly increase, so no key occurs twice.
pub open spec fn in_key_order<V>(s: Entries<V>) -> bool {
    forall|i: int, j: int| 0 <= i < j < s.len() ==> text::key_before(#[trigger] s[i].0, #[trigger] s[j].0)
}

/// The value stored under `key`.
pub open spec fn lookup<V>(s: Entries<V>, key: Seq<char>) -> Option<V>
    decreases s.len(),
{
    if s.len() == 0 {
        None
    } else if s[0].0 == key {
        Some(s[0].1)
    } else {
        lookup(s.drop_first(), key)
    }
}

/// The entries after `value` was stored under `key`.
pub open spec fn put<V>(s: Entries<V>, key: Seq<char>, value: V) -> Entries<V>
    decreases s.len(),
{
    if s.len() == 0 {
        seq![(key, value)]
    } else if s[0].0 == key {
        seq![(key, value)] + s.drop_first()
    } else if text::key_before(key, s[0].0) {
        seq![(key, value)] + s
    } else {
        seq![s[0]] + put(s.drop_first(), key, value)
    }
}

/// `key` stands at position `at`.
pub(crate) proof fn lemma_at_position<V>(s: Entries<V>, key: Seq<char>, value: V, at: int)
    requires
        in_key_order(s),
        0 <= at < s.len(),
        s[at].0 == key,
    ensures
        lookup(s, key) == Some(s[at].1),
        put(s, key, value) == s.update(at, (key, value)),
    decreases s.len(),
{
    text::lemma_key_before_strict(key, key, key);
    if at == 0 {
        assert(put(s, key, value) =~= s.update(at, (key, value)));
    } else {
        assert(text::key_before(s[0].0, s[at].0));
        text::lemma_key_before_strict(s[0].0, key, s[0].0);
        let rest = s.drop_first();
        lemma_rest_in_key_order(s);
        lemma_at_position(rest, key, value, at - 1);
        assert(put(s, key, value) =~= s.update(at, (key, value)));
    }
}

/// `key` is missing and belongs in front of position `at`.
proof fn lemma_before_position<V>(s: Entries<V>, key: Seq<char>, value: V, at: int)
    requires
        in_key_order(s),
        0 <= at <= s.len(),
        forall|i: int| 0 <= i < at ==> text::key_before(#[trigger] s[i].0, key),
        forall|i: int| at <= i < s.len() ==> text::key_before(key, #[trigger] s[i].0),
    ensures
        lookup(s, key) is None,
        put(s, key, value) == s.insert(at, (key, value)),
    decreases s.len(),
{
    text::lemma_key_before_strict(key, key, key);
    if s.len() == 0 {
        assert(put(s, key, value) =~= s.insert(at, (key, value)));
    } else {
        let rest = s.drop_first();
        lemma_rest_in_key_order(s);
        if at == 0 {
            assert(text::key_before(key, s[0].0));
            lemma_before_position(rest, key, value, 0);
            assert(put(s, key, value) =~= s.insert(at, (key, value)));
        } else {
            assert(text::key_before(s[0].0, key));
            text::lemma_key_before_strict(s[0].0, key, s[0].0);
            lemma_before_position(rest, key, value, at - 1);
            assert(put(s, key, value) =~= s.insert(at, (key, value)));
        }
    }
}

/// Entries in order stay in order without the first.
pub proof fn lemma_rest_in_key_order<V>(s: Entries<V>)
    requires
        in_key_order(s),
        s.len() > 0,
    ensures
        in_key_order(s.drop_first()),
{
    let rest = s.drop_first();
    assert forall|i: int, j: int| 0 <= i < j < rest.len() implies text::key_before(
        #[trigger] rest[i].0,
        #[trigger] rest[j].0,
    ) by {
        assert(text::key_before(s[i + 1].0, s[j + 1].0));
    }
}

/// A key that comes before the first key is not there.
pub proof fn a_key_before_all_is_missing<V>(s: Entries<V>, key: Seq<char>)
    requires
        in_key_order(s),
        s.len() > 0,
        text::key_before(key, s[0].0),
    ensures
        lookup(s, key) is None,
{
    assert forall|i: int| 0 <= i < s.len() implies text::key_before(key, #[trigger] s[i].0) by {
        if i > 0 {
            text::lemma_key_before_strict(key, s[0].0, s[i].0);
        }
    }
    lemma_before_position(s, key, s[0].1, 0);
}

/// The key in front of the entries in order does not occur again behind.
pub proof fn a_key_occurs_once<V>(s: Entries<V>, key: Seq<char>)
    requires
        in_key_order(s),
        s.len() > 0,
        s[0].0 == key,
    ensures
        lookup(s.drop_first(), key) is None,
{
    let rest = s.drop_first();
    assert forall|i: int| 0 <= i < rest.len() implies text::key_before(key, #[trigger] rest[i].0) by {
        assert(text::key_before(s[0].0, s[i + 1].0));
    }
    lemma_rest_in_key_order(s);
    lemma_before_position(rest, key, s[0].1, 0);
}

/// A key reads back what was last stored under it, and storing leaves the other keys alone.
pub proof fn a_stored_value_is_read_back<V>(s: Entries<V>, key: Seq<char>, value: V, other: Seq<char>)
    ensures
        lookup(put(s, key, value), key) == Some(value),
        other != key ==> lookup(put(s, key, value), other) == lookup(s, other),
    decreases s.len(),
{
    let after = put(s, key, value);
    if s.len() == 0 {
        assert(after.drop_first() =~= s);
    } else if s[0].0 == key {
        assert(after.drop_first() =~= s.drop_first());
    } else if text::key_before(key, s[0].0) {
        assert(after.drop_first() =~= s);
    } else {
        a_stored_value_is_read_back(s.drop_first(), key, value, other);
        assert(after.drop_first() =~= put(s.drop_first(), key, value));
    }
}

/// Storing a second value under a key replaces the first.
pub proof fn the_last_value_stays<V>(s: Entries<V>, key: Seq<char>, first: V, second: V)
    ensures
        put(put(s, key, first), key, second) == put(s, key, second),
    decreases s.len(),
{
    let after = put(s, key, first);
    if s.len() == 0 {
        assert(after.drop_first() =~= s);
    } else if s[0].0 == key {
        assert(after.drop_first() =~= s.drop_first());
    } else if text::key_before(key, s[0].0) {
        assert(after.drop_first() =~= s);
    } else {
        the_last_value_stays(s.drop_first(), key, first, second);
        assert(after.drop_first() =~= put(s.drop_first(), key, first));
    }
    assert(put(after, key, second) =~= put(s, key, second));
}

/// A value under a new key is one entry more; one under a key that is there takes its place.
pub proof fn only_a_new_key_adds_an_entry<V>(s: Entries<V>, key: Seq<char>, value: V)
    requires
        in_key_order(s),
    ensures
        put(s, key, value).len() == s.len() + if lookup(s, key) is None {
            1int
        } else {
            0int
        },
    decreases s.len(),
{
    if s.len() > 0 && s[0].0 != key {
        if text::key_before(key, s[0].0) {
            a_key_before_all_is_missing(s, key);
        } else {
            lemma_rest_in_key_order(s);
            only_a_new_key_adds_an_entry(s.drop_first(), key, value);
        }
    }
}

proof fn lemma_put_stays_behind<V>(s: Entries<V>, key: Seq<char>, value: V, bound: Seq<char>)
    requires
        text::key_before(bound, key),
        forall|i: int| 0 <= i < s.len() ==> text::key_before(bound, #[trigger] s[i].0),
    ensures
        forall|i: int|
            0 <= i < put(s, key, value).len() ==> text::key_before(
                bound,
                #[trigger] put(s, key, value)[i].0,
            ),
    decreases s.len(),
{
    let after = put(s, key, value);
    if s.len() > 0 {
        let rest = s.drop_first();
        assert forall|i: int| 0 <= i < rest.len() implies text::key_before(
            bound,
            #[trigger] rest[i].0,
        ) by {
            assert(text::key_before(bound, s[i + 1].0));
        }
        lemma_put_stays_behind(rest, key, value, bound);
        assert forall|i: int| 0 <= i < after.len() implies text::key_before(
            bound,
            #[trigger] after[i].0,
        ) by {
            if s[0].0 == key {
                if i > 0 {
                    assert(after[i] == s[i]);
                }
            } else if text::key_before(key, s[0].0) {
                if i > 0 {
                    assert(after[i] == s[i - 1]);
                }
            } else if i > 0 {
                assert(after[i] == put(rest, key, value)[i - 1]);
            } else {
                assert(after[0] == s[0]);
            }
        }
    }
}

/// Entries in order stay in order when a value is stored.
pub proof fn storing_keeps_the_order<V>(s: Entries<V>, key: Seq<char>, value: V)
    requires
        in_key_order(s),
    ensures
        in_key_order(put(s, key, value)),
    decreases s.len(),
{
    let after = put(s, key, value);
    if s.len() > 0 {
        let rest = s.drop_first();
        lemma_rest_in_key_order(s);
        storing_keeps_the_order(rest, key, value);
        if s[0].0 != key && !text::key_before(key, s[0].0) {
            text::lemma_key_before_total(key, s[0].0);
            assert forall|i: int| 0 <= i < rest.len() implies text::key_before(
                s[0].0,
                #[trigger] rest[i].0,
            ) by {
                assert(text::key_before(s[0].0, s[i + 1].0));
            }
            lemma_put_stays_behind(rest, key, value, s[0].0);
        }
        assert forall|i: int, j: int| 0 <= i < j < after.len() implies text::key_before(
            #[trigger] after[i].0,
            #[trigger] after[j].0,
        ) by {
            if s[0].0 == key {
                assert(after[j].0 == s[j].0 && after[i].0 == s[i].0);
            } else if text::key_before(key, s[0].0) {
                assert(after[j] == s[j - 1]);
                if i > 0 {
                    assert(after[i] == s[i - 1]);
                } else if j > 1 {
                    text::lemma_key_before_strict(key, s[0].0, s[j - 1].0);
                }
            } else {
                assert(after[j] == put(rest, key, value)[j - 1]);
                if i > 0 {
                    assert(after[i] == put(rest, key, value)[i - 1]);
                } else {
                    assert(after[0] == s[0]);
                }
            }
        }
    }
}

/// Where a key stands among the entries of a map, or where it belongs.
pub enum Position {
    Found(usize),
    Missing(usize),
}

/// A map from text keys to values, in the order of the keys.
#[derive(Debug)]
pub struct TokenMap<V> {
    entries: Vec<(String, V)>,
}

impl<V> View for TokenMap<V> {
    type V = Entries<V>;

    closed spec fn view(&self) -> Entries<V> {
        self.entries@.map_values(|e: (String, V)| (e.0@, e.1))
    }
}

impl<V> TokenMap<V> {
    /// The keys are in order, each there once.
    pub open spec fn wf(&self) -> bool {
        in_key_order(self@)
    }

    /// A map without entries.
    pub fn new() -> (r: Self)
        ensures
            r.wf(),
            r@ == Entries::<V>::empty(),
    {
        let r = TokenMap { entries: Vec::new() };
        assert(r@ =~= Entries::<V>::empty());
        r
    }

    /// How many entries there are.
    pub fn len(&self) -> (r: usize)
        ensures
            r == self@.len(),
    {
        self.entries.len()
    }

    /// The key at position `at`.
    pub fn key_at(&self, at: usize) -> (r: &str)
        requires
            at < self@.len(),
        ensures
            r@ == self@[at as int].0,
    {
        self.entries[at].0.as_str()
    }

    /// The value at position `at`.
    pub fn value_at(&self, at: usize) -> (r: &V)
        requires
            at < self@.len(),
        ensures
            *r == self@[at as int].1,
    {
        &self.entries[at].1
    }

    /// Where `key` stands, or where it belongs.
    pub fn find(&self, key: &str) -> (r: Position)
        requires
            self.wf(),
        ensures
            match r {
                Position::Found(at) => at < self@.len() && self@[at as int].0 == key@ && lookup(
                    self@,
                    key@,
                ) == Some(self@[at as int].1),
                Position::Missing(at) => at <= self@.len() && lookup(self@, key@) is None && (
                forall|i: int| 0 <= i < at ==> text::key_before(#[trigger] self@[i].0, key@)) && (forall|
                    i: int,
                |
                    at <= i < self@.len() ==> text::key_before(key@, #[trigger] self@[i].0)),
            },
    {
        let mut low: usize = 0;
        let mut high: usize = self.entries.len();
        while low < high
            invariant
                self.wf(),
                low <= high <= self@.len(),
                self@.len() == self.entries@.len(),
                forall|i: int| 0 <= i < low ==> text::key_before(#[trigger] self@[i].0, key@),
                forall|i: int| high <= i < self@.len() ==> text::key_before(key@, #[trigger] self@[i].0),
            decreases high - low,
        {
            let middle: usize = low + (high - low) / 2;
            match text::order_keys(self.entries[middle].0.as_str(), key) {
                KeyOrder::Same => {
                    proof {
                        lemma_at_position(self@, key@, self@[middle as int].1, middle as int);
                    }
                    return Position::Found(middle);
                },
                KeyOrder::Before => {
                    assert forall|i: int| 0 <= i < middle + 1 implies text::key_before(
                        #[trigger] self@[i].0,
                        key@,
                    ) by {
                        text::lemma_key_before_strict(self@[i].0, self@[middle as int].0, key@);
                    }
                    low = middle + 1;
                },
                KeyOrder::After => {
                    assert forall|i: int| middle <= i < self@.len() implies text::key_before(
                        key@,
                        #[trigger] self@[i].0,
                    ) by {
                        text::lemma_key_before_strict(key@, self@[middle as int].0, self@[i].0);
                    }
                    high = middle;
                },
            }
        }
        proof {
            if self@.len() > 0 {
                lemma_before_position(self@, key@, self@[0].1, low as int);
            }
        }
        Position::Missing(low)
    }

    /// The value stored under `key`.
    pub fn get(&self, key: &str) -> (r: Option<&V>)
        requires
            self.wf(),
        ensures
            match r {
                Some(value) => lookup(self@, key@) == Some(*value),
                None => lookup(self@, key@) is None,
            },
    {
        match self.find(key) {
            Position::Found(at) => Some(&self.entries[at].1),
            Position::Missing(_) => None,
        }
    }

    /// Stores `value` under `key`.
    pub fn insert(&mut self, key: String, value: V)
        requires
            old(self).wf(),
        ensures
            final(self).wf(),
            final(self)@ == put(old(self)@, key@, value),
    {
        let ghost before = self@;
        let ghost name = key@;
        match self.find(key.as_str()) {
            Position::Found(at) => {
                proof {
                    lemma_at_position(before, name, value, at as int);
                }
                self.entries.set(at, (key, value));
                assert(self@ =~= before.update(at as int, (name, value)));
            },
            Position::Missing(at) => {
                proof {
                    lemma_before_position(before, name, value, at as int);
                }
                self.entries.insert(at, (key, value));
                assert(self@ =~= before.insert(at as int, (name, value)));
                assert forall|i: int, j: int| 0 <= i < j < self@.len() implies text::key_before(
                    #[trigger] self@[i].0,
                    #[trigger] self@[j].0,
                ) by {
                    if i < at && j > at {
                        assert(text::key_before(before[i].0, before[j - 1].0));
                    } else if i > at {
                        assert(text::key_before(before[i - 1].0, before[j - 1].0));
                    } else if j < at {
                        assert(text::key_before(before[i].0, before[j].0));
                    } else if i == at {
                        assert(text::key_before(name, before[j - 1].0));
                    } else {
                        assert(text::key_before(before[i].0, name));
                    }
                }
            },
        }
    }

    /// Puts another value at position `at`.
    pub fn replace_at(&mut self, at: usize, value: V)
        requires
            old(self).wf(),
            at < old(self)@.len(),
        ensures
            final(self).wf(),
            final(self)@ == old(self)@.update(at as int, (old(self)@[at as int].0, value)),
    {
        let ghost before = self@;
        let entry = &mut self.entries[at];
        entry.1 = value;
        assert(self@ =~= before.update(at as int, (before[at as int].0, value)));
    }

    /// Takes the entry at position `at` out.
    pub fn remove_at(&mut self, at: usize)
        requires
            old(self).wf(),
            at < old(self)@.len(),
        ensures
            final(self).wf(),
            final(self)@ == old(self)@.remove(at as int),
    {
        let ghost before = self@;
        self.entries.remove(at);
        assert(self@ =~= before.remove(at as int));
    }
}

} // verus!
