//! What reserving cost and reconciling it come to, by what was sent and what is stored.

use crate::cost_ledger;
use crate::cost_ledger::{
    Obstacle, ReconcileUsagePolicyCostInput, ReserveUsagePolicyCostInput,
    ReserveUsagePolicyCostOutcome, StoredUsagePolicyCostReservation, UsagePolicyCostWindow,
};
use crate::cost_ledger_laws;
use crate::error::DataLayerFault;
use crate::request_admission_laws;
use crate::request_admission_laws::is_ledger_id;
use crate::retention;
use crate::retention::Retained;
use crate::text;
use crate::token_map;
use crate::token_map::Entries;
use vstd::prelude::*;

verus! {

/// An open reservation counts in full up to the moment at which it expires, however long after the
/// admission that is, in every window of its subject that holds the admission, and in no other.
pub proof fn an_open_reservation_counts_in_full_until_it_expires(
    reservation: StoredUsagePolicyCostReservation,
    subject_id: Seq<char>,
    window: UsagePolicyCostWindow,
    at: u64,
)
    requires
        reservation.state is Reserved,
    ensures
        ({
            let counts = reservation.subject_id@ == subject_id && window.starts_at_unix_secs
                <= reservation.admitted_at_unix_secs && reservation.admitted_at_unix_secs
                < window.ends_at_unix_secs;
            let units = reservation.counted_cost(subject_id, window, at);
            &&& counts && at < reservation.reservation_expires_at_unix_secs ==> units
                == reservation.reserved_cost_units
            &&& counts && at >= reservation.reservation_expires_at_unix_secs ==> units == 0
            &&& !counts ==> units == 0
        }),
{
}

/// A reservation that has ended counts what was spent, at every moment, in every window of its subject
/// that holds the admission, and in no other; one that was released counts nothing.
pub proof fn an_ended_reservation_counts_what_was_spent(
    reservation: StoredUsagePolicyCostReservation,
    subject_id: Seq<char>,
    window: UsagePolicyCostWindow,
    at: u64,
)
    requires
        !(reservation.state is Reserved),
    ensures
        ({
            let counts = reservation.subject_id@ == subject_id && window.starts_at_unix_secs
                <= reservation.admitted_at_unix_secs && reservation.admitted_at_unix_secs
                < window.ends_at_unix_secs;
            let units = reservation.counted_cost(subject_id, window, at);
            &&& counts && reservation.state is Finalized && reservation.actual_cost_units is Some
                ==> units == reservation.actual_cost_units->0
            &&& reservation.actual_cost_units is None ==> units == 0
            &&& reservation.state is Released ==> units == 0
            &&& !counts ==> units == 0
        }),
{
}

/// What the others come to is counted reservation by reservation: one more in the ledger adds what it
/// stands for, unless it is under the token that is left out; without any there is nothing.
pub proof fn each_reservation_adds_what_it_stands_for(
    ledger: Entries<StoredUsagePolicyCostReservation>,
    entry: (Seq<char>, StoredUsagePolicyCostReservation),
    token: Seq<char>,
    subject_id: Seq<char>,
    window: UsagePolicyCostWindow,
    at: u64,
)
    ensures
        cost_ledger::used_by_others(
            Entries::<StoredUsagePolicyCostReservation>::empty(),
            token,
            subject_id,
            window,
            at,
        ) == 0,
        cost_ledger::used_by_others(ledger.push(entry), token, subject_id, window, at)
            == cost_ledger::used_by_others(ledger, token, subject_id, window, at) + if entry.1.reservation_token@
            == token {
            0
        } else {
            entry.1.counted_cost(subject_id, window, at)
        },
    decreases ledger.len(),
{
    let more = ledger.push(entry);
    if ledger.len() > 0 {
        let rest = ledger.drop_first();
        each_reservation_adds_what_it_stands_for(rest, entry, token, subject_id, window, at);
        assert(more.drop_first() =~= rest.push(entry));
    } else {
        assert(more.drop_first() =~= ledger);
    }
}

/// The window can be reserved in: it is named, lets some cost in that the database holds, and holds
/// the moment of admission.
pub open spec fn is_sound_window(window: UsagePolicyCostWindow, admitted_at: u64) -> bool {
    &&& exists|i: int|
        0 <= i < window.window_id@.len() && !text::is_white_space(#[trigger] window.window_id@[i])
    &&& 0 < window.limit_cost_units < 0x8000_0000_0000_0000
    &&& window.starts_at_unix_secs <= admitted_at < window.ends_at_unix_secs
}

/// The windows can be reserved in, and no two share an id.
pub open spec fn are_sound_windows(
    windows: Seq<UsagePolicyCostWindow>,
    from: int,
    admitted_at: u64,
) -> bool {
    &&& forall|i: int|
        from <= i < windows.len() ==> is_sound_window(#[trigger] windows[i], admitted_at)
    &&& forall|i: int, j: int|
        from <= j < windows.len() && 0 <= i < j ==> (#[trigger] windows[i]).window_id@ != (
        #[trigger] windows[j]).window_id@
}

proof fn lemma_windows_without_fault(
    windows: Seq<UsagePolicyCostWindow>,
    from: nat,
    admitted_at: u64,
)
    ensures
        cost_ledger::first_window_fault(windows, from, admitted_at) is None <==> are_sound_windows(
            windows,
            from as int,
            admitted_at,
        ),
    decreases windows.len() - from,
{
    if from < windows.len() {
        lemma_windows_without_fault(windows, from + 1, admitted_at);
        let window = windows[from as int];
        request_admission_laws::ids_and_numbers_are_taken_within_bounds(
            window.window_id@,
            0,
            "usage policy window "@ + text::decimal(from) + " id"@,
        );
        let taken = cost_ledger::id_taken(windows, from as int, window.window_id@);
        assert(cost_ledger::window_fault(windows, from, admitted_at) is None <==> is_sound_window(
            window,
            admitted_at,
        ) && !taken);
        if are_sound_windows(windows, from as int, admitted_at) {
            assert(!taken);
            assert(are_sound_windows(windows, from as int + 1, admitted_at));
        }
        if are_sound_windows(windows, from as int + 1, admitted_at) && is_sound_window(window, admitted_at)
            && !taken {
            assert forall|i: int, j: int|
                from <= j < windows.len() && 0 <= i < j implies (#[trigger] windows[i]).window_id@
                != (#[trigger] windows[j]).window_id@ by {
                if j == from && windows[i].window_id@ == windows[j].window_id@ {
                    assert(taken);
                }
            }
        }
    }
}

/// A request for a reservation is valid exactly if its ids and its cost are such that the ledger takes
/// them, it expires after the admission and is kept until it has expired, and it asks for one to
/// sixty-four windows that can all be reserved in, no two with one id.
pub proof fn a_request_for_cost_is_valid_exactly_if_it_is_sound(input: ReserveUsagePolicyCostInput)
    ensures
        input.fault() is None <==> {
            &&& is_ledger_id(input.request_id@)
            &&& is_ledger_id(input.subject_id@)
            &&& is_ledger_id(input.reservation_token@)
            &&& input.reserved_cost_units < 0x8000_0000_0000_0000
            &&& input.admitted_at_unix_secs < input.reservation_expires_at_unix_secs
            &&& input.reservation_expires_at_unix_secs <= input.retain_until_unix_secs
            &&& 1 <= input.windows@.len() <= 64
            &&& are_sound_windows(input.windows@, 0, input.admitted_at_unix_secs)
        },
{
    lemma_ids(input.request_id@, input.subject_id@, input.reservation_token@);
    lemma_windows_without_fault(input.windows@, 0, input.admitted_at_unix_secs);
}

proof fn lemma_ids(request_id: Seq<char>, subject_id: Seq<char>, token: Seq<char>)
    ensures
        crate::ledger_input::id_fault(request_id, "usage policy request_id"@) is None
            <==> is_ledger_id(request_id),
        crate::ledger_input::id_fault(subject_id, "usage policy subject_id"@) is None
            <==> is_ledger_id(subject_id),
        crate::ledger_input::id_fault(token, "usage policy reservation_token"@) is None
            <==> is_ledger_id(token),
{
    request_admission_laws::ids_and_numbers_are_taken_within_bounds(
        request_id,
        0,
        "usage policy request_id"@,
    );
    request_admission_laws::ids_and_numbers_are_taken_within_bounds(
        subject_id,
        0,
        "usage policy subject_id"@,
    );
    request_admission_laws::ids_and_numbers_are_taken_within_bounds(
        token,
        0,
        "usage policy reservation_token"@,
    );
}

/// A reconciliation is valid exactly if its ids and its cost are such that the ledger takes them, and
/// it ends the reservation: with what was spent, or released with nothing spent.
pub proof fn a_reconciliation_is_valid_exactly_if_it_ends_the_reservation(
    input: ReconcileUsagePolicyCostInput,
)
    ensures
        input.fault() is None <==> {
            &&& is_ledger_id(input.request_id@)
            &&& is_ledger_id(input.subject_id@)
            &&& is_ledger_id(input.reservation_token@)
            &&& input.actual_cost_units < 0x8000_0000_0000_0000
            &&& input.terminal_state is Finalized || (input.terminal_state is Released
                && input.actual_cost_units == 0)
        },
{
    lemma_ids(input.request_id@, input.subject_id@, input.reservation_token@);
}

proof fn lemma_obstacles(
    ledger: Entries<StoredUsagePolicyCostReservation>,
    input: ReserveUsagePolicyCostInput,
    units: u64,
    from: nat,
)
    ensures
        match cost_ledger::first_obstacle(ledger, input, units, from) {
            None => forall|i: int|
                from <= i < input.windows@.len() ==> #[trigger] fits(ledger, input, units, i),
            Some(Obstacle::Full(full)) => {
                &&& from <= full < input.windows@.len()
                &&& !fits(ledger, input, units, full as int)
                &&& used_in(ledger, input, full as int) <= u64::MAX
                &&& forall|i: int| from <= i < full ==> #[trigger] fits(ledger, input, units, i)
            },
            Some(Obstacle::Overflow) => exists|i: int|
                #![trigger fits(ledger, input, units, i)]
                from <= i < input.windows@.len() && !fits(ledger, input, units, i) && used_in(
                    ledger,
                    input,
                    i,
                ) > u64::MAX && forall|j: int|
                    from <= j < i ==> #[trigger] fits(ledger, input, units, j),
        },
    decreases input.windows@.len() - from,
{
    if from < input.windows@.len() {
        lemma_obstacles(ledger, input, units, from + 1);
        let here = fits(ledger, input, units, from as int);
        match cost_ledger::first_obstacle(ledger, input, units, from) {
            Some(Obstacle::Overflow) => {
                if used_in(ledger, input, from as int) <= u64::MAX {
                    let i = choose|i: int|
                        #![trigger fits(ledger, input, units, i)]
                        from + 1 <= i < input.windows@.len() && !fits(ledger, input, units, i)
                            && used_in(ledger, input, i) > u64::MAX && forall|j: int|
                            from + 1 <= j < i ==> #[trigger] fits(ledger, input, units, j);
                    assert(!fits(ledger, input, units, i));
                } else {
                    assert(!fits(ledger, input, units, from as int));
                }
            },
            _ => {},
        }
    }
}

/// What the other reservations of the subject come to in window `i` of a request.
pub open spec fn used_in(
    ledger: Entries<StoredUsagePolicyCostReservation>,
    input: ReserveUsagePolicyCostInput,
    i: int,
) -> nat {
    cost_ledger::used_by_others(
        ledger,
        input.reservation_token@,
        input.subject_id@,
        input.windows@[i],
        input.admitted_at_unix_secs,
    )
}

/// The units fit into window `i` of a request, beside what the others come to.
pub open spec fn fits(
    ledger: Entries<StoredUsagePolicyCostReservation>,
    input: ReserveUsagePolicyCostInput,
    units: u64,
    i: int,
) -> bool {
    used_in(ledger, input, i) + units <= input.windows@[i].limit_cost_units
}

/// A valid request under a new token is allowed exactly if its cost fits into every window that it
/// asks for, and then for all of that cost. Else it is rejected at the first window into which it does
/// not fit, with the limit and what is used of it, unless the sum of that is more than a number holds.
pub proof fn a_new_reservation_is_allowed_exactly_where_it_fits(
    ledger: Entries<StoredUsagePolicyCostReservation>,
    input: ReserveUsagePolicyCostInput,
)
    requires
        input.fault() is None,
        token_map::lookup(ledger, input.reservation_token@) is None,
    ensures
        ({
            let answer = cost_ledger::reserved(ledger, input).0;
            let units = input.reserved_cost_units;
            &&& answer is Ok && answer->Ok_0 is Allowed <==> forall|i: int|
                0 <= i < input.windows@.len() ==> #[trigger] fits(ledger, input, units, i)
            &&& answer is Ok && answer->Ok_0 is Allowed ==> {
                &&& answer->Ok_0->Allowed_reserved_cost_units == units
                &&& answer->Ok_0->additional_reserved_cost_units == units
            }
            &&& answer is Ok && !(answer->Ok_0 is Allowed) ==> {
                let at = answer->Ok_0->window_index as int;
                &&& answer->Ok_0 is Rejected
                &&& at < input.windows@.len()
                &&& !fits(ledger, input, units, at)
                &&& forall|i: int| 0 <= i < at ==> #[trigger] fits(ledger, input, units, i)
                &&& answer->Ok_0->limit_cost_units == input.windows@[at].limit_cost_units
                &&& answer->Ok_0->used_cost_units == used_in(ledger, input, at)
            }
            &&& answer is Err ==> exists|i: int|
                #![trigger fits(ledger, input, units, i)]
                0 <= i < input.windows@.len() && !fits(ledger, input, units, i) && used_in(
                    ledger,
                    input,
                    i,
                ) > u64::MAX
        }),
{
    a_request_for_cost_is_valid_exactly_if_it_is_sound(input);
    lemma_obstacles(ledger, input, input.reserved_cost_units, 0);
}

/// What is allowed under a new token is stored as it was asked for, open; nothing else changes.
pub proof fn what_is_allowed_is_stored_as_it_was_asked_for(
    ledger: Entries<StoredUsagePolicyCostReservation>,
    input: ReserveUsagePolicyCostInput,
    other: Seq<char>,
)
    requires
        token_map::lookup(ledger, input.reservation_token@) is None,
        cost_ledger::reserved(ledger, input).0 is Ok,
        cost_ledger::reserved(ledger, input).0->Ok_0 is Allowed,
    ensures
        ({
            let after = cost_ledger::reserved(ledger, input).1;
            let stored = token_map::lookup(after, input.reservation_token@);
            &&& stored is Some
            &&& stored->0.request_id@ == input.request_id@
            &&& stored->0.subject_id@ == input.subject_id@
            &&& stored->0.reservation_token@ == input.reservation_token@
            &&& stored->0.admitted_at_unix_secs == input.admitted_at_unix_secs
            &&& stored->0.reserved_cost_units == input.reserved_cost_units
            &&& stored->0.actual_cost_units is None
            &&& stored->0.state is Reserved
            &&& stored->0.reservation_expires_at_unix_secs
                == input.reservation_expires_at_unix_secs
            &&& stored->0.retain_until_unix_secs == input.retain_until_unix_secs
            &&& stored->0.finalized_at_unix_secs is None
            &&& other != input.reservation_token@ ==> token_map::lookup(after, other)
                == token_map::lookup(ledger, other)
        }),
{
    token_map::a_stored_value_is_read_back(
        ledger,
        input.reservation_token@,
        cost_ledger::target_reservation(None, input),
        other,
    );
}

/// A valid request under a known token is answered by what is stored there: of another request or
/// subject it is a conflict, of a reservation that has ended refused with the way it ended, at another
/// moment an error. Nothing changes then.
pub proof fn a_known_reservation_is_not_taken_over(
    ledger: Entries<StoredUsagePolicyCostReservation>,
    input: ReserveUsagePolicyCostInput,
)
    requires
        input.fault() is None,
        token_map::lookup(ledger, input.reservation_token@) is Some,
    ensures
        ({
            let known = token_map::lookup(ledger, input.reservation_token@)->0;
            let (answer, after) = cost_ledger::reserved(ledger, input);
            let same = known.request_id@ == input.request_id@ && known.subject_id@
                == input.subject_id@;
            &&& !same ==> after == ledger && answer == Ok::<_, DataLayerFault>(
                ReserveUsagePolicyCostOutcome::Conflict,
            )
            &&& same && !(known.state is Reserved) ==> after == ledger && answer == Ok::<
                _,
                DataLayerFault,
            >(ReserveUsagePolicyCostOutcome::AlreadyTerminal { state: known.state })
            &&& same && known.state is Reserved && known.admitted_at_unix_secs
                != input.admitted_at_unix_secs ==> after == ledger && answer is Err
                && answer->Err_0 is InvalidInput
        }),
{
}

/// A valid retry of an open reservation asks for the greater of what is reserved and what it asks for.
/// It is allowed exactly if that fits into every window beside the other reservations, and then
/// reserves the difference; the reservation and its record live as long as the longer of the two asks.
pub proof fn a_retry_is_allowed_exactly_where_the_greater_cost_fits(
    ledger: Entries<StoredUsagePolicyCostReservation>,
    input: ReserveUsagePolicyCostInput,
    units: u64,
    other: Seq<char>,
)
    requires
        input.fault() is None,
        ({
            let known = token_map::lookup(ledger, input.reservation_token@);
            &&& known is Some
            &&& known->0.request_id@ == input.request_id@
            &&& known->0.subject_id@ == input.subject_id@
            &&& known->0.state is Reserved
            &&& known->0.admitted_at_unix_secs == input.admitted_at_unix_secs
            &&& units >= known->0.reserved_cost_units
            &&& units >= input.reserved_cost_units
            &&& units == known->0.reserved_cost_units || units == input.reserved_cost_units
        }),
    ensures
        ({
            let known = token_map::lookup(ledger, input.reservation_token@)->0;
            let (answer, after) = cost_ledger::reserved(ledger, input);
            let stored = token_map::lookup(after, input.reservation_token@);
            &&& answer is Ok && answer->Ok_0 is Allowed <==> forall|i: int|
                0 <= i < input.windows@.len() ==> #[trigger] fits(ledger, input, units, i)
            &&& !(answer is Ok && answer->Ok_0 is Allowed) ==> after == ledger
            &&& answer is Ok && answer->Ok_0 is Allowed ==> {
                &&& answer->Ok_0->Allowed_reserved_cost_units == units
                &&& answer->Ok_0->additional_reserved_cost_units == units
                    - known.reserved_cost_units
                &&& stored is Some
                &&& stored->0.request_id@ == known.request_id@
                &&& stored->0.subject_id@ == known.subject_id@
                &&& stored->0.admitted_at_unix_secs == known.admitted_at_unix_secs
                &&& stored->0.reserved_cost_units == units
                &&& stored->0.actual_cost_units is None
                &&& stored->0.state is Reserved
                &&& stored->0.finalized_at_unix_secs is None
                &&& stored->0.reservation_expires_at_unix_secs
                    >= known.reservation_expires_at_unix_secs
                &&& stored->0.reservation_expires_at_unix_secs
                    >= input.reservation_expires_at_unix_secs
                &&& stored->0.reservation_expires_at_unix_secs
                    == known.reservation_expires_at_unix_secs
                    || stored->0.reservation_expires_at_unix_secs
                    == input.reservation_expires_at_unix_secs
                &&& stored->0.retain_until_unix_secs >= known.retain_until_unix_secs
                &&& stored->0.retain_until_unix_secs >= input.retain_until_unix_secs
                &&& stored->0.retain_until_unix_secs == known.retain_until_unix_secs
                    || stored->0.retain_until_unix_secs == input.retain_until_unix_secs
            }
            &&& other != input.reservation_token@ ==> token_map::lookup(after, other)
                == token_map::lookup(ledger, other)
        }),
{
    let known = token_map::lookup(ledger, input.reservation_token@);
    lemma_obstacles(ledger, input, units, 0);
    token_map::a_stored_value_is_read_back(
        ledger,
        input.reservation_token@,
        cost_ledger::target_reservation(known, input),
        other,
    );
}

/// Two open reservations of one subject share a window: once the first is allowed, the second, admitted
/// while the first has not expired, is allowed only if both fit into the limit together, however far
/// apart they are.
pub proof fn what_is_reserved_is_not_given_twice(
    ledger: Entries<StoredUsagePolicyCostReservation>,
    first: ReserveUsagePolicyCostInput,
    second: ReserveUsagePolicyCostInput,
    i: int,
)
    requires
        cost_ledger_laws::well_formed(ledger),
        cost_ledger::reserved(ledger, first).0 is Ok,
        cost_ledger::reserved(ledger, first).0->Ok_0 is Allowed,
        second.reservation_token@ != first.reservation_token@,
        second.subject_id@ == first.subject_id@,
        second.admitted_at_unix_secs < first.reservation_expires_at_unix_secs,
        0 <= i < second.windows@.len(),
        second.windows@[i].starts_at_unix_secs <= first.admitted_at_unix_secs,
        first.admitted_at_unix_secs < second.windows@[i].ends_at_unix_secs,
        ({
            let answer = cost_ledger::reserved(cost_ledger::reserved(ledger, first).1, second).0;
            answer is Ok && answer->Ok_0 is Allowed
        }),
    ensures
        first.reserved_cost_units + second.reserved_cost_units
            <= second.windows@[i].limit_cost_units,
{
    let token = first.reservation_token@;
    let known = token_map::lookup(ledger, token);
    let target = cost_ledger::target_reservation(known, first);
    let after = cost_ledger::reserved(ledger, first).1;
    let window = second.windows@[i];
    let at = second.admitted_at_unix_secs;
    token_map::a_stored_value_is_read_back(ledger, token, target, token);
    lemma_counts_among_others(after, token, second, i);
    lemma_obstacles(
        after,
        second,
        cost_ledger::target_units(token_map::lookup(after, second.reservation_token@), second),
        0,
    );
    assert(fits(
        after,
        second,
        cost_ledger::target_units(token_map::lookup(after, second.reservation_token@), second),
        i,
    ));
}

proof fn lemma_counts_among_others(
    ledger: Entries<StoredUsagePolicyCostReservation>,
    token: Seq<char>,
    input: ReserveUsagePolicyCostInput,
    i: int,
)
    requires
        token_map::lookup(ledger, token) is Some,
        token_map::lookup(ledger, token)->0.reservation_token@ == token,
        token != input.reservation_token@,
    ensures
        used_in(ledger, input, i) >= token_map::lookup(ledger, token)->0.counted_cost(
            input.subject_id@,
            input.windows@[i],
            input.admitted_at_unix_secs,
        ),
    decreases ledger.len(),
{
    if ledger.len() > 0 && ledger[0].0 != token {
        lemma_counts_among_others(ledger.drop_first(), token, input, i);
    }
}

/// A valid reconciliation of an open reservation, by the request and the subject that it belongs to,
/// ends it at whatever moment it comes: it is answered with the reservation, in the state that was
/// asked for and with what was spent, and stored so. One that has ended is answered as it is stored.
pub proof fn a_reconciliation_ends_its_reservation(
    ledger: Entries<StoredUsagePolicyCostReservation>,
    input: ReconcileUsagePolicyCostInput,
    other: Seq<char>,
)
    requires
        input.fault() is None,
    ensures
        ({
            let known = token_map::lookup(ledger, input.reservation_token@);
            let (answer, after) = cost_ledger::reconciled(ledger, input);
            let stored = token_map::lookup(after, input.reservation_token@);
            let same = known is Some && known->0.request_id@ == input.request_id@
                && known->0.subject_id@ == input.subject_id@;
            &&& answer is Ok
            &&& !same ==> answer->Ok_0 is None && after == ledger
            &&& same && !(known->0.state is Reserved) ==> answer->Ok_0 == known && after == ledger
            &&& same && known->0.state is Reserved ==> {
                &&& answer->Ok_0 is Some
                &&& stored == answer->Ok_0
                &&& stored->0.state == input.terminal_state
                &&& stored->0.actual_cost_units == Some(input.actual_cost_units)
                &&& stored->0.finalized_at_unix_secs == Some(input.finalized_at_unix_secs)
                &&& stored->0.request_id == known->0.request_id
                &&& stored->0.subject_id == known->0.subject_id
                &&& stored->0.reservation_token == known->0.reservation_token
                &&& stored->0.admitted_at_unix_secs == known->0.admitted_at_unix_secs
                &&& stored->0.reserved_cost_units == known->0.reserved_cost_units
                &&& stored->0.reservation_expires_at_unix_secs
                    == known->0.reservation_expires_at_unix_secs
                &&& stored->0.retain_until_unix_secs == known->0.retain_until_unix_secs
            }
            &&& other != input.reservation_token@ ==> token_map::lookup(after, other)
                == token_map::lookup(ledger, other)
        }),
{
    match token_map::lookup(ledger, input.reservation_token@) {
        Some(known) => {
            token_map::a_stored_value_is_read_back(
                ledger,
                input.reservation_token@,
                StoredUsagePolicyCostReservation {
                    state: input.terminal_state,
                    actual_cost_units: Some(input.actual_cost_units),
                    finalized_at_unix_secs: Some(input.finalized_at_unix_secs),
                    ..known
                },
                other,
            );
        },
        None => {},
    }
}

/// What is not valid is answered with an error, and changes nothing.
pub proof fn what_is_not_valid_is_refused(
    ledger: Entries<StoredUsagePolicyCostReservation>,
    reserve: ReserveUsagePolicyCostInput,
    reconcile: ReconcileUsagePolicyCostInput,
)
    ensures
        reserve.fault() is Some ==> cost_ledger::reserved(ledger, reserve).0 is Err
            && cost_ledger::reserved(ledger, reserve).1 == ledger,
        reconcile.fault() is Some ==> cost_ledger::reconciled(ledger, reconcile).0 is Err
            && cost_ledger::reconciled(ledger, reconcile).1 == ledger,
{
}

/// A sweep that may take out everything leaves exactly the reservations whose time has not come.
pub proof fn a_full_sweep_leaves_what_is_retained(
    ledger: Entries<StoredUsagePolicyCostReservation>,
    now: u64,
    limit: nat,
    token: Seq<char>,
)
    requires
        token_map::in_key_order(ledger),
        limit >= ledger.len(),
    ensures
        token_map::lookup(retention::swept(ledger, now, limit), token) == match token_map::lookup(
            ledger,
            token,
        ) {
            Some(reservation) => if reservation.retain_until_unix_secs > now {
                Some(reservation)
            } else {
                None
            },
            None => None,
        },
    decreases ledger.len(),
{
    if ledger.len() > 0 && limit > 0 {
        let rest = ledger.drop_first();
        token_map::lemma_rest_in_key_order(ledger);
        if ledger[0].1.kept_until() <= now {
            a_full_sweep_leaves_what_is_retained(rest, now, (limit - 1) as nat, token);
            if ledger[0].0 == token {
                token_map::a_key_occurs_once(ledger, token);
            }
        } else {
            a_full_sweep_leaves_what_is_retained(rest, now, limit, token);
            assert(retention::swept(ledger, now, limit).drop_first() =~= retention::swept(
                rest,
                now,
                limit,
            ));
        }
    }
}

} // verus!
