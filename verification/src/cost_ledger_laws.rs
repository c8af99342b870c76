//! What the ledger of reserved and spent cost promises over several operations.

use crate::cost_ledger;
use crate::cost_ledger::{
    Obstacle, ReconcileUsagePolicyCostInput, ReserveUsagePolicyCostInput,
    ReserveUsagePolicyCostOutcome, StoredUsagePolicyCostReservation,
    UsagePolicyCostReservationState, UsagePolicyCostWindow,
};
use crate::error::DataLayerFault;
use crate::retention;
use crate::retention::Retained;
use crate::text;
use crate::token_map;
use crate::token_map::Entries;
use vstd::prelude::*;
use vstd::string::*;

verus! {

/// What all reservations of a subject come to in a window, seen at the moment `at`.
pub open spec fn total_cost(
    ledger: Entries<StoredUsagePolicyCostReservation>,
    subject_id: Seq<char>,
    window: UsagePolicyCostWindow,
    at: u64,
) -> nat
    decreases ledger.len(),
{
    if ledger.len() == 0 {
        0
    } else {
        total_cost(ledger.drop_first(), subject_id, window, at) + ledger[0].1.counted_cost(
            subject_id,
            window,
            at,
        )
    }
}

/// What a reservation that may be there adds.
pub open spec fn share(
    reservation: Option<StoredUsagePolicyCostReservation>,
    subject_id: Seq<char>,
    window: UsagePolicyCostWindow,
    at: u64,
) -> nat {
    match reservation {
        Some(r) => r.counted_cost(subject_id, window, at),
        None => 0,
    }
}

/// The tokens are in order, and each reservation stands under its own.
pub open spec fn well_formed(ledger: Entries<StoredUsagePolicyCostReservation>) -> bool {
    token_map::in_key_order(ledger) && cost_ledger::under_own_token(ledger)
}

proof fn lemma_rest_well_formed(ledger: Entries<StoredUsagePolicyCostReservation>)
    requires
        well_formed(ledger),
        ledger.len() > 0,
    ensures
        well_formed(ledger.drop_first()),
        ledger[0].1.reservation_token@ == ledger[0].0,
{
    let rest = ledger.drop_first();
    token_map::lemma_rest_in_key_order(ledger);
    assert forall|i: int| 0 <= i < rest.len() implies #[trigger] rest[i].1.reservation_token@
        == rest[i].0 by {
        assert(ledger[i + 1].1.reservation_token@ == ledger[i + 1].0);
    }
}

/// The total is what the others come to, and the reservation under the token.
proof fn lemma_total_in_parts(
    ledger: Entries<StoredUsagePolicyCostReservation>,
    token: Seq<char>,
    subject_id: Seq<char>,
    window: UsagePolicyCostWindow,
    at: u64,
)
    requires
        well_formed(ledger),
    ensures
        total_cost(ledger, subject_id, window, at) == cost_ledger::used_by_others(
            ledger,
            token,
            subject_id,
            window,
            at,
        ) + share(token_map::lookup(ledger, token), subject_id, window, at),
    decreases ledger.len(),
{
    if ledger.len() > 0 {
        lemma_rest_well_formed(ledger);
        lemma_total_in_parts(ledger.drop_first(), token, subject_id, window, at);
        if ledger[0].0 == token {
            token_map::a_key_occurs_once(ledger, token);
        }
    }
}

/// Storing a reservation leaves what the others come to as it is.
proof fn lemma_others_after_put(
    ledger: Entries<StoredUsagePolicyCostReservation>,
    token: Seq<char>,
    reservation: StoredUsagePolicyCostReservation,
    subject_id: Seq<char>,
    window: UsagePolicyCostWindow,
    at: u64,
)
    requires
        well_formed(ledger),
        reservation.reservation_token@ == token,
    ensures
        cost_ledger::used_by_others(
            token_map::put(ledger, token, reservation),
            token,
            subject_id,
            window,
            at,
        ) == cost_ledger::used_by_others(ledger, token, subject_id, window, at),
        total_cost(token_map::put(ledger, token, reservation), subject_id, window, at)
            == cost_ledger::used_by_others(ledger, token, subject_id, window, at)
            + reservation.counted_cost(subject_id, window, at),
    decreases ledger.len(),
{
    let after = token_map::put(ledger, token, reservation);
    lemma_total_in_parts(ledger, token, subject_id, window, at);
    if ledger.len() == 0 {
        assert(after.drop_first() =~= ledger);
    } else {
        let rest = ledger.drop_first();
        lemma_rest_well_formed(ledger);
        lemma_total_in_parts(rest, token, subject_id, window, at);
        if ledger[0].0 == token {
            token_map::a_key_occurs_once(ledger, token);
            assert(after.drop_first() =~= rest);
        } else if text::key_before(token, ledger[0].0) {
            token_map::a_key_before_all_is_missing(ledger, token);
            assert(after.drop_first() =~= ledger);
        } else {
            lemma_others_after_put(rest, token, reservation, subject_id, window, at);
            assert(after.drop_first() =~= token_map::put(rest, token, reservation));
        }
    }
}

proof fn lemma_no_obstacle(
    ledger: Entries<StoredUsagePolicyCostReservation>,
    input: ReserveUsagePolicyCostInput,
    units: u64,
    from: nat,
    index: int,
)
    requires
        cost_ledger::first_obstacle(ledger, input, units, from) is None,
        from <= index < input.windows@.len(),
    ensures
        cost_ledger::used_by_others(
            ledger,
            input.reservation_token@,
            input.subject_id@,
            input.windows@[index],
            input.admitted_at_unix_secs,
        ) + units <= input.windows@[index].limit_cost_units,
    decreases input.windows@.len() - from,
{
    if from < index {
        lemma_no_obstacle(ledger, input, units, from + 1, index);
    }
}

/// After a reservation was allowed, no window that was asked for is over its limit, whatever else
/// was reserved or spent in it.
pub proof fn no_window_is_overspent(
    ledger: Entries<StoredUsagePolicyCostReservation>,
    input: ReserveUsagePolicyCostInput,
    index: int,
)
    requires
        well_formed(ledger),
        cost_ledger::reserved(ledger, input).0 is Ok,
        cost_ledger::reserved(ledger, input).0->Ok_0 is Allowed,
        0 <= index < input.windows@.len(),
    ensures
        total_cost(
            cost_ledger::reserved(ledger, input).1,
            input.subject_id@,
            input.windows@[index],
            input.admitted_at_unix_secs,
        ) <= input.windows@[index].limit_cost_units,
{
    let existing = token_map::lookup(ledger, input.reservation_token@);
    let target = cost_ledger::target_reservation(existing, input);
    lemma_no_obstacle(ledger, input, cost_ledger::target_units(existing, input), 0, index);
    lemma_others_after_put(
        ledger,
        input.reservation_token@,
        target,
        input.subject_id@,
        input.windows@[index],
        input.admitted_at_unix_secs,
    );
}

/// A request that is not allowed leaves the ledger as it was.
pub proof fn a_refused_reservation_changes_nothing(
    ledger: Entries<StoredUsagePolicyCostReservation>,
    input: ReserveUsagePolicyCostInput,
)
    ensures
        match cost_ledger::reserved(ledger, input).0 {
            Ok(ReserveUsagePolicyCostOutcome::Allowed { .. }) => true,
            _ => cost_ledger::reserved(ledger, input).1 == ledger,
        },
{
}

proof fn lemma_first_obstacle(
    ledger: Entries<StoredUsagePolicyCostReservation>,
    input: ReserveUsagePolicyCostInput,
    units: u64,
    from: nat,
)
    ensures
        cost_ledger::first_obstacle(ledger, input, units, from) matches Some(Obstacle::Full(full))
            ==> {
            &&& from <= full < input.windows@.len()
            &&& cost_ledger::used_by_others(
                ledger,
                input.reservation_token@,
                input.subject_id@,
                input.windows@[full as int],
                input.admitted_at_unix_secs,
            ) + units > input.windows@[full as int].limit_cost_units
            &&& forall|i: int|
                from <= i < full ==> cost_ledger::used_by_others(
                    ledger,
                    input.reservation_token@,
                    input.subject_id@,
                    #[trigger] input.windows@[i],
                    input.admitted_at_unix_secs,
                ) + units <= input.windows@[i].limit_cost_units
        },
    decreases input.windows@.len() - from,
{
    if from < input.windows@.len() {
        lemma_first_obstacle(ledger, input, units, from + 1);
    }
}

/// A request is rejected at the first of its windows that has not enough left.
pub proof fn a_rejection_names_the_first_exhausted_window(
    ledger: Entries<StoredUsagePolicyCostReservation>,
    input: ReserveUsagePolicyCostInput,
)
    ensures
        cost_ledger::reserved(ledger, input).0 matches Ok(
            ReserveUsagePolicyCostOutcome::Rejected {
                window_index,
                limit_cost_units,
                used_cost_units,
            },
        ) ==> {
            let units = cost_ledger::target_units(
                token_map::lookup(ledger, input.reservation_token@),
                input,
            );
            &&& window_index < input.windows@.len()
            &&& limit_cost_units == input.windows@[window_index as int].limit_cost_units
            &&& cost_ledger::used_by_others(
                ledger,
                input.reservation_token@,
                input.subject_id@,
                input.windows@[window_index as int],
                input.admitted_at_unix_secs,
            ) + units > limit_cost_units
            &&& forall|i: int|
                0 <= i < window_index ==> cost_ledger::used_by_others(
                    ledger,
                    input.reservation_token@,
                    input.subject_id@,
                    #[trigger] input.windows@[i],
                    input.admitted_at_unix_secs,
                ) + units <= input.windows@[i].limit_cost_units
        },
{
    lemma_first_obstacle(
        ledger,
        input,
        cost_ledger::target_units(token_map::lookup(ledger, input.reservation_token@), input),
        0,
    );
}

proof fn lemma_same_obstacles(
    ledger: Entries<StoredUsagePolicyCostReservation>,
    reservation: StoredUsagePolicyCostReservation,
    input: ReserveUsagePolicyCostInput,
    units: u64,
    from: nat,
)
    requires
        well_formed(ledger),
        reservation.reservation_token@ == input.reservation_token@,
    ensures
        cost_ledger::first_obstacle(
            token_map::put(ledger, input.reservation_token@, reservation),
            input,
            units,
            from,
        ) == cost_ledger::first_obstacle(ledger, input, units, from),
    decreases input.windows@.len() - from,
{
    if from < input.windows@.len() {
        lemma_others_after_put(
            ledger,
            input.reservation_token@,
            reservation,
            input.subject_id@,
            input.windows@[from as int],
            input.admitted_at_unix_secs,
        );
        lemma_same_obstacles(ledger, reservation, input, units, from + 1);
    }
}

/// A request that was allowed may be sent again: it is allowed again, reserves nothing more and
/// changes nothing.
pub proof fn a_retry_reserves_nothing_more(
    ledger: Entries<StoredUsagePolicyCostReservation>,
    input: ReserveUsagePolicyCostInput,
)
    requires
        well_formed(ledger),
        cost_ledger::reserved(ledger, input).0 is Ok,
        cost_ledger::reserved(ledger, input).0->Ok_0 is Allowed,
    ensures
        ({
            let (first, after) = cost_ledger::reserved(ledger, input);
            let (second, later) = cost_ledger::reserved(after, input);
            &&& later == after
            &&& second == Ok::<_, DataLayerFault>(
                ReserveUsagePolicyCostOutcome::Allowed {
                    reserved_cost_units: first->Ok_0->Allowed_reserved_cost_units,
                    additional_reserved_cost_units: 0,
                },
            )
        }),
{
    let token = input.reservation_token@;
    let existing = token_map::lookup(ledger, token);
    let target = cost_ledger::target_reservation(existing, input);
    token_map::a_stored_value_is_read_back(ledger, token, target, token);
    lemma_same_obstacles(
        ledger,
        target,
        input,
        cost_ledger::target_units(existing, input),
        0,
    );
    token_map::the_last_value_stays(
        ledger,
        token,
        target,
        cost_ledger::target_reservation(Some(target), input),
    );
}

/// A retry only raises what is reserved, and how long the reservation and its record live. What was
/// admitted when, for whom, stays; so does every other reservation, also of the same request.
pub proof fn a_retry_only_extends_a_reservation(
    ledger: Entries<StoredUsagePolicyCostReservation>,
    input: ReserveUsagePolicyCostInput,
    token: Seq<char>,
)
    requires
        token_map::lookup(ledger, token) is Some,
    ensures
        ({
            let before = token_map::lookup(ledger, token)->0;
            let after = token_map::lookup(cost_ledger::reserved(ledger, input).1, token);
            &&& after is Some
            &&& after->0.request_id@ == before.request_id@
            &&& after->0.subject_id@ == before.subject_id@
            &&& after->0.admitted_at_unix_secs == before.admitted_at_unix_secs
            &&& after->0.state == before.state
            &&& after->0.reserved_cost_units >= before.reserved_cost_units
            &&& after->0.reservation_expires_at_unix_secs
                >= before.reservation_expires_at_unix_secs
            &&& after->0.retain_until_unix_secs >= before.retain_until_unix_secs
            &&& token != input.reservation_token@ ==> after->0 == before
        }),
{
    token_map::a_stored_value_is_read_back(
        ledger,
        input.reservation_token@,
        cost_ledger::target_reservation(
            token_map::lookup(ledger, input.reservation_token@),
            input,
        ),
        token,
    );
}

/// A reservation that has ended stays as it is, whatever is reserved or reconciled later, and a
/// request under its token is not allowed.
pub proof fn an_ended_reservation_is_final(
    ledger: Entries<StoredUsagePolicyCostReservation>,
    token: Seq<char>,
    reserve: ReserveUsagePolicyCostInput,
    reconcile: ReconcileUsagePolicyCostInput,
)
    requires
        token_map::lookup(ledger, token) is Some,
        !(token_map::lookup(ledger, token)->0.state is Reserved),
    ensures
        token_map::lookup(cost_ledger::reserved(ledger, reserve).1, token) == token_map::lookup(
            ledger,
            token,
        ),
        token_map::lookup(cost_ledger::reconciled(ledger, reconcile).1, token)
            == token_map::lookup(ledger, token),
        reserve.reservation_token@ == token ==> !(cost_ledger::reserved(ledger, reserve).0 is Ok
            && cost_ledger::reserved(ledger, reserve).0->Ok_0 is Allowed),
{
    token_map::a_stored_value_is_read_back(
        ledger,
        reserve.reservation_token@,
        cost_ledger::target_reservation(
            token_map::lookup(ledger, reserve.reservation_token@),
            reserve,
        ),
        token,
    );
    match token_map::lookup(ledger, reconcile.reservation_token@) {
        Some(existing) => {
            token_map::a_stored_value_is_read_back(
                ledger,
                reconcile.reservation_token@,
                StoredUsagePolicyCostReservation {
                    state: reconcile.terminal_state,
                    actual_cost_units: Some(reconcile.actual_cost_units),
                    finalized_at_unix_secs: Some(reconcile.finalized_at_unix_secs),
                    ..existing
                },
                token,
            );
        },
        None => {},
    }
}

/// A reconciliation replaces, in every window that holds the request, what the reservation came to
/// by what was spent, and leaves the rest alone; a second one gives the same answer and changes
/// nothing.
pub proof fn a_reconciliation_settles_once(
    ledger: Entries<StoredUsagePolicyCostReservation>,
    input: ReconcileUsagePolicyCostInput,
    window: UsagePolicyCostWindow,
    at: u64,
)
    requires
        well_formed(ledger),
        input.fault() is None,
        token_map::lookup(ledger, input.reservation_token@) is Some,
        token_map::lookup(ledger, input.reservation_token@)->0.belongs_to(
            input.request_id@,
            input.subject_id@,
        ),
        token_map::lookup(ledger, input.reservation_token@)->0.state is Reserved,
    ensures
        ({
            let before = token_map::lookup(ledger, input.reservation_token@)->0;
            let (answer, after) = cost_ledger::reconciled(ledger, input);
            &&& total_cost(after, input.subject_id@, window, at) + before.counted_cost(
                input.subject_id@,
                window,
                at,
            ) == total_cost(ledger, input.subject_id@, window, at) + if window.holds(
                before.admitted_at_unix_secs,
            ) {
                input.actual_cost_units as nat
            } else {
                0
            }
            &&& token_map::lookup(after, input.reservation_token@) == answer->Ok_0
            &&& cost_ledger::reconciled(after, input) == (answer, after)
        }),
{
    let token = input.reservation_token@;
    let before = token_map::lookup(ledger, token)->0;
    let after = StoredUsagePolicyCostReservation {
        state: input.terminal_state,
        actual_cost_units: Some(input.actual_cost_units),
        finalized_at_unix_secs: Some(input.finalized_at_unix_secs),
        ..before
    };
    lemma_found_under_own_token(ledger, token);
    token_map::a_stored_value_is_read_back(ledger, token, after, token);
    lemma_others_after_put(ledger, token, after, input.subject_id@, window, at);
    lemma_total_in_parts(ledger, token, input.subject_id@, window, at);
}

proof fn lemma_found_under_own_token(
    ledger: Entries<StoredUsagePolicyCostReservation>,
    token: Seq<char>,
)
    requires
        well_formed(ledger),
    ensures
        token_map::lookup(ledger, token) matches Some(r) ==> r.reservation_token@ == token,
    decreases ledger.len(),
{
    if ledger.len() > 0 {
        lemma_rest_well_formed(ledger);
        lemma_found_under_own_token(ledger.drop_first(), token);
    }
}

/// A reconciliation under another request or subject changes nothing.
pub proof fn a_reconciliation_of_another_changes_nothing(
    ledger: Entries<StoredUsagePolicyCostReservation>,
    input: ReconcileUsagePolicyCostInput,
)
    requires
        token_map::lookup(ledger, input.reservation_token@) matches Some(existing)
            ==> !existing.belongs_to(input.request_id@, input.subject_id@),
    ensures
        cost_ledger::reconciled(ledger, input).1 == ledger,
        input.fault() is None ==> cost_ledger::reconciled(ledger, input).0 == Ok::<
            _,
            DataLayerFault,
        >(None::<StoredUsagePolicyCostReservation>),
{
}

/// A reservation that was released, or that expired while it was open, costs nothing.
pub proof fn an_expired_or_released_reservation_costs_nothing(
    reservation: StoredUsagePolicyCostReservation,
    at: u64,
)
    requires
        reservation.state is Released || (reservation.state is Reserved
            && reservation.reservation_expires_at_unix_secs <= at),
    ensures
        reservation.cost_at(at) == 0,
{
}

/// Sweeping the ledger never makes a total grow.
pub proof fn a_sweep_costs_nothing(
    ledger: Entries<StoredUsagePolicyCostReservation>,
    now: u64,
    limit: nat,
    subject_id: Seq<char>,
    window: UsagePolicyCostWindow,
    at: u64,
)
    ensures
        total_cost(retention::swept(ledger, now, limit), subject_id, window, at) <= total_cost(
            ledger,
            subject_id,
            window,
            at,
        ),
    decreases ledger.len(),
{
    if ledger.len() > 0 && limit > 0 {
        let rest = ledger.drop_first();
        if ledger[0].1.kept_until() <= now {
            a_sweep_costs_nothing(rest, now, (limit - 1) as nat, subject_id, window, at);
        } else {
            a_sweep_costs_nothing(rest, now, limit, subject_id, window, at);
            assert(retention::swept(ledger, now, limit).drop_first() =~= retention::swept(
                rest,
                now,
                limit,
            ));
        }
    }
}

proof fn lemma_window_without_fault(
    windows: Seq<UsagePolicyCostWindow>,
    from: nat,
    admitted_at: u64,
    index: int,
)
    requires
        cost_ledger::first_window_fault(windows, from, admitted_at) is None,
        from <= index < windows.len(),
    ensures
        cost_ledger::window_fault(windows, index as nat, admitted_at) is None,
    decreases windows.len() - from,
{
    if from < index {
        lemma_window_without_fault(windows, from + 1, admitted_at, index);
    }
}

/// Each window of a valid request holds the moment of admission, and no two share an id; the record
/// of a reservation outlives the reservation.
pub proof fn a_valid_reservation_has_distinct_windows(
    input: ReserveUsagePolicyCostInput,
    i: int,
    j: int,
)
    requires
        input.fault() is None,
        0 <= i < j < input.windows@.len(),
    ensures
        input.windows@[i].admits(input.admitted_at_unix_secs),
        input.windows@[j].admits(input.admitted_at_unix_secs),
        input.windows@[i].window_id@ != input.windows@[j].window_id@,
        input.admitted_at_unix_secs < input.reservation_expires_at_unix_secs,
        input.reservation_expires_at_unix_secs <= input.retain_until_unix_secs,
{
    lemma_window_without_fault(input.windows@, 0, input.admitted_at_unix_secs, i);
    lemma_window_without_fault(input.windows@, 0, input.admitted_at_unix_secs, j);
    assert(!cost_ledger::id_taken(input.windows@, j, input.windows@[j].window_id@));
}

/// The name of a state determines the state.
pub proof fn a_name_determines_the_reservation_state(
    a: UsagePolicyCostReservationState,
    b: UsagePolicyCostReservationState,
)
    requires
        a.name() == b.name(),
    ensures
        a == b,
{
    reveal_strlit("reserved");
    reveal_strlit("finalized");
    reveal_strlit("released");
    assert("reserved"@[2] == 's');
    assert("released"@[2] == 'l');
    assert("finalized"@.len() == 9);
}

} // verus!
