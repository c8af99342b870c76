//! Sweeping out what is not to be kept any longer.

use crate::token_map;
use crate::token_map::{Entries, TokenMap};
use vstd::prelude::*;

verus! {

/// A record that is kept up to a moment, which itself is excluded.
pub trait Retained {
    /// Up to when the record is kept.
    spec fn kept_until(&self) -> u64;

    /// Up to when the record is kept.
    fn retained_until(&self) -> (r: u64)
        ensures
            r == self.kept_until(),
    ;
}

/// The entries without the first `limit` that are not to be kept at `now`.
pub open spec fn swept<V: Retained>(s: Entries<V>, now: u64, limit: nat) -> Entries<V>
    decreases s.len(),
{
    if s.len() == 0 || limit == 0 {
        s
    } else if s[0].1.kept_until() <= now {
        swept(s.drop_first(), now, (limit - 1) as nat)
    } else {
        seq![s[0]] + swept(s.drop_first(), now, limit)
    }
}

/// How many entries are not to be kept at `now`.
pub open spec fn expired<V: Retained>(s: Entries<V>, now: u64) -> nat
    decreases s.len(),
{
    if s.len() == 0 {
        0
    } else {
        expired(s.drop_first(), now) + if s[0].1.kept_until() <= now {
            1nat
        } else {
            0nat
        }
    }
}

/// A sweep takes out as many expired entries as there are, but no more than it may.
pub proof fn a_sweep_is_bounded<V: Retained>(s: Entries<V>, now: u64, limit: nat)
    ensures
        s.len() - swept(s, now, limit).len() == if expired(s, now) < limit {
            expired(s, now)
        } else {
            limit
        },
    decreases s.len(),
{
    if s.len() > 0 && limit > 0 {
        if s[0].1.kept_until() <= now {
            a_sweep_is_bounded(s.drop_first(), now, (limit - 1) as nat);
        } else {
            a_sweep_is_bounded(s.drop_first(), now, limit);
        }
    }
}

/// A sweep leaves what is still to be kept, and adds nothing: a key reads back what it read before
/// or, where that has expired, possibly nothing.
pub proof fn a_sweep_keeps_what_has_not_expired<V: Retained>(
    s: Entries<V>,
    now: u64,
    limit: nat,
    key: Seq<char>,
)
    requires
        token_map::in_key_order(s),
    ensures
        token_map::lookup(s, key) is None ==> token_map::lookup(swept(s, now, limit), key) is None,
        token_map::lookup(s, key) matches Some(v) ==> {
            ||| token_map::lookup(swept(s, now, limit), key) == Some(v)
            ||| v.kept_until() <= now && token_map::lookup(swept(s, now, limit), key) is None
        },
    decreases s.len(),
{
    if s.len() > 0 && limit > 0 {
        let rest = s.drop_first();
        token_map::lemma_rest_in_key_order(s);
        if s[0].1.kept_until() <= now {
            a_sweep_keeps_what_has_not_expired(rest, now, (limit - 1) as nat, key);
            if s[0].0 == key {
                token_map::a_key_occurs_once(s, key);
            }
        } else {
            a_sweep_keeps_what_has_not_expired(rest, now, limit, key);
            assert(swept(s, now, limit).drop_first() =~= swept(rest, now, limit));
        }
    }
}

/// Takes out up to `limit` entries that are not to be kept at `now`, in the order of their keys.
pub fn sweep<V: Retained>(map: &mut TokenMap<V>, now: u64, limit: usize) -> (removed: usize)
    requires
        old(map).wf(),
    ensures
        final(map).wf(),
        final(map)@ == swept(old(map)@, now, limit as nat),
        removed == old(map)@.len() - final(map)@.len(),
{
    let ghost before = map@;
    let mut removed: usize = 0;
    let mut at: usize = 0;
    proof {
        assert(map@.skip(0) =~= map@);
        assert(map@.take(0) + swept(before, now, limit as nat) =~= swept(
            before,
            now,
            limit as nat,
        ));
    }
    while removed < limit && at < map.len()
        invariant
            map.wf(),
            removed <= limit,
            at <= map@.len(),
            removed + map@.len() == before.len(),
            swept(before, now, limit as nat) == map@.take(at as int) + swept(
                map@.skip(at as int),
                now,
                (limit - removed) as nat,
            ),
        decreases map@.len() - at,
    {
        let ghost now_there = map@;
        if map.value_at(at).retained_until() <= now {
            map.remove_at(at);
            proof {
                assert(map@.take(at as int) =~= now_there.take(at as int));
                assert(map@.skip(at as int) =~= now_there.skip(at as int).drop_first());
            }
            removed += 1;
        } else {
            proof {
                assert(map@.skip(at + 1) =~= map@.skip(at as int).drop_first());
                assert(map@.take(at as int) + swept(
                    map@.skip(at as int),
                    now,
                    (limit - removed) as nat,
                ) =~= map@.take(at + 1) + swept(map@.skip(at + 1), now, (limit - removed) as nat));
            }
            at += 1;
        }
    }
    assert(map@.take(at as int) + map@.skip(at as int) =~= map@);
    removed
}

} // verus!
