//! What admitting a request and giving it back come to, by what was sent and what is stored.

use crate::error::DataLayerFault;
use crate::ledger_input;
use crate::request_ledger;
use crate::request_ledger::{
    ReleaseUsagePolicyRequestAdmissionInput, ReserveUsagePolicyRequestInput,
    ReserveUsagePolicyRequestOutcome, StoredUsagePolicyRequestAdmission, UsagePolicyRequestWindow,
};
use crate::retention;
use crate::retention::Retained;
use crate::text;
use crate::text_laws;
use crate::token_map;
use crate::token_map::Entries;
use vstd::prelude::*;
use vstd::utf8::*;

verus! {

/// An id is more than white space, and at most 128 bytes long.
pub open spec fn is_ledger_id(id: Seq<char>) -> bool {
    &&& exists|i: int| 0 <= i < id.len() && !text::is_white_space(#[trigger] id[i])
    &&& encode_utf8(id).len() <= 128
}

/// The ledgers take an id exactly if it is more than white space and at most 128 bytes long, and a
/// number exactly if a signed database integer holds it.
pub proof fn ids_and_numbers_are_taken_within_bounds(id: Seq<char>, n: u64, field: Seq<char>)
    ensures
        ledger_input::id_fault(id, field) is None <==> is_ledger_id(id),
        ledger_input::empty_id_fault(id, field) is None <==> exists|i: int|
            0 <= i < id.len() && !text::is_white_space(#[trigger] id[i]),
        ledger_input::range_fault(n, field) is None <==> n < 0x8000_0000_0000_0000,
{
    text_laws::only_blank_texts_are_trimmed_away(id);
}

proof fn lemma_windows_without_fault(input: ReserveUsagePolicyRequestInput, from: nat)
    requires
        input.windows@.len() <= 64,
    ensures
        request_ledger::first_window_fault(input, from) is None <==> forall|i: int|
            from <= i < input.windows@.len() ==> is_sound_window(
                #[trigger] input.windows@[i],
                input.admitted_at_unix_secs,
                input.retain_until_unix_secs,
            ),
    decreases input.windows@.len() - from,
{
    if from < input.windows@.len() {
        lemma_windows_without_fault(input, from + 1);
        let window = input.windows@[from as int];
        assert(window.fault(
            from as usize,
            input.admitted_at_unix_secs,
            input.retain_until_unix_secs,
        ) is None <==> is_sound_window(
            window,
            input.admitted_at_unix_secs,
            input.retain_until_unix_secs,
        ));
        if is_sound_window(window, input.admitted_at_unix_secs, input.retain_until_unix_secs) {
            assert forall|i: int|
                from <= i < input.windows@.len() && request_ledger::first_window_fault(
                    input,
                    from + 1,
                ) is None implies is_sound_window(
                #[trigger] input.windows@[i],
                input.admitted_at_unix_secs,
                input.retain_until_unix_secs,
            ) by {}
        }
    }
}

/// The window can be counted in: it lets something in, holds the moment of admission, ends before the
/// admission is forgotten, and fits the database.
pub open spec fn is_sound_window(
    window: UsagePolicyRequestWindow,
    admitted_at: u64,
    retain_until: u64,
) -> bool {
    &&& 0 < window.limit_requests < 0x8000_0000_0000_0000
    &&& window.starts_at_unix_secs <= admitted_at < window.ends_at_unix_secs
    &&& window.ends_at_unix_secs <= retain_until
    &&& window.ends_at_unix_secs < 0x8000_0000_0000_0000
}

/// A request for admission is valid exactly if its ids and moments are such that the ledger takes
/// them, and it asks for one to sixty-four windows that can all be counted in.
pub proof fn a_request_for_admission_is_valid_exactly_if_it_is_sound(
    input: ReserveUsagePolicyRequestInput,
)
    ensures
        input.fault() is None <==> {
            &&& is_ledger_id(input.request_id@)
            &&& is_ledger_id(input.subject_id@)
            &&& is_ledger_id(input.event_token@)
            &&& input.admitted_at_unix_secs < 0x8000_0000_0000_0000
            &&& input.retain_until_unix_secs < 0x8000_0000_0000_0000
            &&& 1 <= input.windows@.len() <= 64
            &&& forall|i: int|
                0 <= i < input.windows@.len() ==> is_sound_window(
                    #[trigger] input.windows@[i],
                    input.admitted_at_unix_secs,
                    input.retain_until_unix_secs,
                )
        },
{
    ids_and_numbers_are_taken_within_bounds(input.request_id@, 0, "usage policy request_id"@);
    ids_and_numbers_are_taken_within_bounds(input.subject_id@, 0, "usage policy subject_id"@);
    ids_and_numbers_are_taken_within_bounds(input.event_token@, 0, "usage policy event_token"@);
    if input.windows@.len() <= 64 {
        lemma_windows_without_fault(input, 0);
    }
}

/// A release is valid exactly if its ids and its moment are such that the ledger takes them.
pub proof fn a_release_is_valid_exactly_if_it_is_sound(
    input: ReleaseUsagePolicyRequestAdmissionInput,
)
    ensures
        input.fault() is None <==> {
            &&& is_ledger_id(input.request_id@)
            &&& is_ledger_id(input.subject_id@)
            &&& is_ledger_id(input.event_token@)
            &&& input.released_at_unix_secs < 0x8000_0000_0000_0000
        },
{
    ids_and_numbers_are_taken_within_bounds(input.request_id@, 0, "usage policy request_id"@);
    ids_and_numbers_are_taken_within_bounds(input.subject_id@, 0, "usage policy subject_id"@);
    ids_and_numbers_are_taken_within_bounds(input.event_token@, 0, "usage policy event_token"@);
}

/// The admission takes a place: it is active, of the subject, and from a moment in the window.
pub open spec fn takes_a_place(
    admission: StoredUsagePolicyRequestAdmission,
    subject_id: Seq<char>,
    window: UsagePolicyRequestWindow,
) -> bool {
    &&& admission.state is Active
    &&& admission.subject_id@ == subject_id
    &&& window.starts_at_unix_secs <= admission.admitted_at_unix_secs
    &&& admission.admitted_at_unix_secs < window.ends_at_unix_secs
}

/// What is used of a window are the active admissions of the subject from moments in it, each one
/// place, however long ago they were made and whatever the limit of the window.
pub proof fn each_active_admission_uses_one_place(
    ledger: Entries<StoredUsagePolicyRequestAdmission>,
    subject_id: Seq<char>,
    window: UsagePolicyRequestWindow,
)
    ensures
        request_ledger::used_requests(ledger, subject_id, window) == ledger.filter(
            |e: (Seq<char>, StoredUsagePolicyRequestAdmission)|
                takes_a_place(e.1, subject_id, window),
        ).len(),
    decreases ledger.len(),
{
    let counts = |e: (Seq<char>, StoredUsagePolicyRequestAdmission)|
        takes_a_place(e.1, subject_id, window);
    if ledger.len() > 0 {
        let rest = ledger.drop_first();
        each_active_admission_uses_one_place(rest, subject_id, window);
        let head = seq![ledger[0]];
        assert(ledger =~= head + rest);
        Seq::filter_distributes_over_add(head, rest, counts);
        reveal(Seq::filter);
        assert(head.drop_last() =~= Seq::empty());
        assert(head.drop_last().filter(counts).len() == 0);
        assert(head.last() == ledger[0]);
        assert(head.filter(counts).len() == if counts(ledger[0]) {
            1int
        } else {
            0int
        });
    } else {
        reveal(Seq::filter);
    }
}

proof fn lemma_full_windows(
    ledger: Entries<StoredUsagePolicyRequestAdmission>,
    subject_id: Seq<char>,
    windows: Seq<UsagePolicyRequestWindow>,
    from: nat,
)
    ensures
        match request_ledger::first_full_window(ledger, subject_id, windows, from) {
            None => forall|i: int|
                from <= i < windows.len() ==> request_ledger::used_requests(
                    ledger,
                    subject_id,
                    #[trigger] windows[i],
                ) < windows[i].limit_requests,
            Some(full) => {
                &&& from <= full < windows.len()
                &&& request_ledger::used_requests(ledger, subject_id, windows[full as int])
                    >= windows[full as int].limit_requests
                &&& forall|i: int|
                    from <= i < full ==> request_ledger::used_requests(
                        ledger,
                        subject_id,
                        #[trigger] windows[i],
                    ) < windows[i].limit_requests
            },
        },
    decreases windows.len() - from,
{
    if from < windows.len() {
        lemma_full_windows(ledger, subject_id, windows, from + 1);
    }
}

/// A valid request under a new token is let in exactly if every window that it asks for has fewer
/// places used than its limit; else it is rejected at the first one that has not, with its limit and
/// what is used of it.
pub proof fn a_new_request_is_let_in_exactly_where_there_is_room(
    ledger: Entries<StoredUsagePolicyRequestAdmission>,
    input: ReserveUsagePolicyRequestInput,
)
    requires
        input.fault() is None,
        token_map::lookup(ledger, input.event_token@) is None,
        ledger.len() <= u64::MAX,
    ensures
        ({
            let answer = request_ledger::reserved(ledger, input).0;
            let has_room = |i: int|
                request_ledger::used_requests(ledger, input.subject_id@, input.windows@[i])
                    < input.windows@[i].limit_requests;
            &&& answer is Ok
            &&& answer->Ok_0 is Allowed <==> forall|i: int|
                0 <= i < input.windows@.len() ==> #[trigger] has_room(i)
            &&& !(answer->Ok_0 is Allowed) ==> {
                &&& answer->Ok_0 is Rejected
                &&& answer->Ok_0->window_index < input.windows@.len()
                &&& !has_room(answer->Ok_0->window_index as int)
                &&& forall|i: int|
                    0 <= i < answer->Ok_0->window_index ==> #[trigger] has_room(i)
                &&& answer->Ok_0->limit_requests
                    == input.windows@[answer->Ok_0->window_index as int].limit_requests
                &&& answer->Ok_0->used_requests == request_ledger::used_requests(
                    ledger,
                    input.subject_id@,
                    input.windows@[answer->Ok_0->window_index as int],
                )
            }
        }),
{
    let has_room = |i: int|
        request_ledger::used_requests(ledger, input.subject_id@, input.windows@[i])
            < input.windows@[i].limit_requests;
    a_request_for_admission_is_valid_exactly_if_it_is_sound(input);
    lemma_full_windows(ledger, input.subject_id@, input.windows@, 0);
    match request_ledger::first_full_window(ledger, input.subject_id@, input.windows@, 0) {
        Some(full) => {
            assert(!has_room(full as int));
            lemma_used_within(ledger, input.subject_id@, input.windows@[full as int]);
        },
        None => {
            assert forall|i: int| 0 <= i < input.windows@.len() implies #[trigger] has_room(i) by {
                assert(request_ledger::used_requests(
                    ledger,
                    input.subject_id@,
                    input.windows@[i],
                ) < input.windows@[i].limit_requests);
            }
        },
    }
}

proof fn lemma_used_within(
    ledger: Entries<StoredUsagePolicyRequestAdmission>,
    subject_id: Seq<char>,
    window: UsagePolicyRequestWindow,
)
    ensures
        request_ledger::used_requests(ledger, subject_id, window) <= ledger.len(),
    decreases ledger.len(),
{
    if ledger.len() > 0 {
        lemma_used_within(ledger.drop_first(), subject_id, window);
    }
}

/// A request that is let in under a new token is stored as it was sent, active; nothing else changes.
pub proof fn what_is_let_in_is_stored_as_it_was_sent(
    ledger: Entries<StoredUsagePolicyRequestAdmission>,
    input: ReserveUsagePolicyRequestInput,
    other: Seq<char>,
)
    requires
        token_map::lookup(ledger, input.event_token@) is None,
        request_ledger::reserved(ledger, input).0 is Ok,
        request_ledger::reserved(ledger, input).0->Ok_0 is Allowed,
    ensures
        ({
            let after = request_ledger::reserved(ledger, input).1;
            let stored = token_map::lookup(after, input.event_token@);
            &&& stored is Some
            &&& stored->0.request_id@ == input.request_id@
            &&& stored->0.subject_id@ == input.subject_id@
            &&& stored->0.event_token@ == input.event_token@
            &&& stored->0.admitted_at_unix_secs == input.admitted_at_unix_secs
            &&& stored->0.retain_until_unix_secs == input.retain_until_unix_secs
            &&& stored->0.state is Active
            &&& stored->0.released_at_unix_secs is None
            &&& other != input.event_token@ ==> token_map::lookup(after, other)
                == token_map::lookup(ledger, other)
        }),
{
    token_map::a_stored_value_is_read_back(
        ledger,
        input.event_token@,
        request_ledger::new_admission(input),
        other,
    );
}

/// A valid request under a known token is answered by what is stored there, whatever windows it asks
/// for: of another request or subject it is a conflict, at another moment an error, of a released
/// admission refused, and else let in again. It takes no new place; the admission is kept for as long
/// as the longer of the two asks.
pub proof fn a_known_token_is_answered_by_what_is_stored(
    ledger: Entries<StoredUsagePolicyRequestAdmission>,
    input: ReserveUsagePolicyRequestInput,
    other: Seq<char>,
)
    requires
        input.fault() is None,
        token_map::lookup(ledger, input.event_token@) is Some,
    ensures
        ({
            let known = token_map::lookup(ledger, input.event_token@)->0;
            let (answer, after) = request_ledger::reserved(ledger, input);
            let stored = token_map::lookup(after, input.event_token@);
            &&& if known.request_id@ != input.request_id@ || known.subject_id@
                != input.subject_id@ {
                answer is Ok && answer->Ok_0 is Conflict && after == ledger
            } else if known.admitted_at_unix_secs != input.admitted_at_unix_secs {
                answer is Err && answer->Err_0 is InvalidInput && after == ledger
            } else {
                &&& answer is Ok
                &&& known.state is Active ==> answer->Ok_0 is Allowed
                &&& known.state is Released ==> answer->Ok_0 is AlreadyReleased
                &&& stored is Some
                &&& stored->0.request_id == known.request_id
                &&& stored->0.subject_id == known.subject_id
                &&& stored->0.event_token == known.event_token
                &&& stored->0.admitted_at_unix_secs == known.admitted_at_unix_secs
                &&& stored->0.state == known.state
                &&& stored->0.released_at_unix_secs == known.released_at_unix_secs
                &&& stored->0.retain_until_unix_secs >= known.retain_until_unix_secs
                &&& stored->0.retain_until_unix_secs >= input.retain_until_unix_secs
                &&& stored->0.retain_until_unix_secs == known.retain_until_unix_secs
                    || stored->0.retain_until_unix_secs == input.retain_until_unix_secs
            }
            &&& other != input.event_token@ ==> token_map::lookup(after, other)
                == token_map::lookup(ledger, other)
        }),
{
    token_map::a_stored_value_is_read_back(
        ledger,
        input.event_token@,
        request_ledger::retried_admission(
            token_map::lookup(ledger, input.event_token@)->0,
            input,
        ),
        other,
    );
}

/// A valid release of an admission, by the request and the subject that it belongs to and not before
/// it was made, is answered with the admission, released, however much later it comes. The admission
/// is stored so, under the moment of its first release, and takes no place in any window any more.
pub proof fn a_release_in_time_releases(
    ledger: Entries<StoredUsagePolicyRequestAdmission>,
    input: ReleaseUsagePolicyRequestAdmissionInput,
    window: UsagePolicyRequestWindow,
    other: Seq<char>,
)
    requires
        input.fault() is None,
        token_map::lookup(ledger, input.event_token@) is Some,
        token_map::lookup(ledger, input.event_token@)->0.request_id@ == input.request_id@,
        token_map::lookup(ledger, input.event_token@)->0.subject_id@ == input.subject_id@,
        token_map::lookup(ledger, input.event_token@)->0.admitted_at_unix_secs
            <= input.released_at_unix_secs,
    ensures
        ({
            let known = token_map::lookup(ledger, input.event_token@)->0;
            let (answer, after) = request_ledger::released(ledger, input);
            let stored = token_map::lookup(after, input.event_token@);
            &&& answer is Ok
            &&& answer->Ok_0 is Some
            &&& stored == answer->Ok_0
            &&& stored->0.state is Released
            &&& stored->0.released_at_unix_secs == if known.state is Active {
                Some(input.released_at_unix_secs)
            } else {
                known.released_at_unix_secs
            }
            &&& stored->0.request_id == known.request_id
            &&& stored->0.subject_id == known.subject_id
            &&& stored->0.event_token == known.event_token
            &&& stored->0.admitted_at_unix_secs == known.admitted_at_unix_secs
            &&& stored->0.retain_until_unix_secs == known.retain_until_unix_secs
            &&& !stored->0.counts(input.subject_id@, window)
            &&& other != input.event_token@ ==> token_map::lookup(after, other)
                == token_map::lookup(ledger, other)
        }),
{
    let known = token_map::lookup(ledger, input.event_token@)->0;
    let (answer, after) = request_ledger::released(ledger, input);
    if known.state is Active {
        token_map::a_stored_value_is_read_back(
            ledger,
            input.event_token@,
            answer->Ok_0->0,
            other,
        );
    }
}

/// A valid release that finds no admission of its request and subject is answered with none, and one
/// from before the admission is an error; neither changes anything.
pub proof fn a_release_of_nothing_changes_nothing(
    ledger: Entries<StoredUsagePolicyRequestAdmission>,
    input: ReleaseUsagePolicyRequestAdmissionInput,
)
    requires
        input.fault() is None,
    ensures
        ({
            let known = token_map::lookup(ledger, input.event_token@);
            let (answer, after) = request_ledger::released(ledger, input);
            &&& (known is None || known->0.request_id@ != input.request_id@
                || known->0.subject_id@ != input.subject_id@) ==> {
                &&& answer == Ok::<_, DataLayerFault>(None::<StoredUsagePolicyRequestAdmission>)
                &&& after == ledger
            }
            &&& (known is Some && known->0.request_id@ == input.request_id@
                && known->0.subject_id@ == input.subject_id@
                && known->0.admitted_at_unix_secs > input.released_at_unix_secs) ==> {
                &&& answer is Err
                &&& answer->Err_0 is InvalidInput
                &&& after == ledger
            }
        }),
{
}

/// What is not valid is answered with an error, and changes nothing.
pub proof fn what_is_not_valid_is_refused(
    ledger: Entries<StoredUsagePolicyRequestAdmission>,
    reserve: ReserveUsagePolicyRequestInput,
    release: ReleaseUsagePolicyRequestAdmissionInput,
)
    ensures
        reserve.fault() is Some ==> request_ledger::reserved(ledger, reserve).0 is Err
            && request_ledger::reserved(ledger, reserve).1 == ledger,
        release.fault() is Some ==> request_ledger::released(ledger, release).0 is Err
            && request_ledger::released(ledger, release).1 == ledger,
{
}

/// A place that was given back can be taken again: where a request was rejected for a window of which
/// an admission in it is released, however late, the same request is let in, provided that was the
/// only window and one place too few.
pub proof fn a_released_place_can_be_taken(
    ledger: Entries<StoredUsagePolicyRequestAdmission>,
    release: ReleaseUsagePolicyRequestAdmissionInput,
    next: ReserveUsagePolicyRequestInput,
)
    requires
        token_map::in_key_order(ledger),
        ledger.len() <= u64::MAX,
        release.fault() is None,
        next.fault() is None,
        next.windows@.len() == 1,
        next.subject_id@ == release.subject_id@,
        next.event_token@ != release.event_token@,
        token_map::lookup(ledger, next.event_token@) is None,
        ({
            let held = token_map::lookup(ledger, release.event_token@);
            &&& held is Some
            &&& held->0.request_id@ == release.request_id@
            &&& held->0.subject_id@ == release.subject_id@
            &&& held->0.state is Active
            &&& held->0.admitted_at_unix_secs <= release.released_at_unix_secs
            &&& next.windows@[0].starts_at_unix_secs <= held->0.admitted_at_unix_secs
            &&& held->0.admitted_at_unix_secs < next.windows@[0].ends_at_unix_secs
        }),
        request_ledger::used_requests(ledger, next.subject_id@, next.windows@[0])
            == next.windows@[0].limit_requests,
    ensures
        request_ledger::reserved(ledger, next).0->Ok_0 is Rejected,
        request_ledger::reserved(request_ledger::released(ledger, release).1, next).0 == Ok::<
            _,
            DataLayerFault,
        >(ReserveUsagePolicyRequestOutcome::Allowed),
{
    let after = request_ledger::released(ledger, release).1;
    a_release_in_time_releases(ledger, release, next.windows@[0], next.event_token@);
    a_new_request_is_let_in_exactly_where_there_is_room(ledger, next);
    crate::request_ledger_laws::a_release_frees_its_place(
        ledger,
        release,
        next.subject_id@,
        next.windows@[0],
    );
    let held = token_map::lookup(ledger, release.event_token@)->0;
    token_map::only_a_new_key_adds_an_entry(
        ledger,
        release.event_token@,
        request_ledger::released(ledger, release).0->Ok_0->0,
    );
    lemma_full_windows(after, next.subject_id@, next.windows@, 0);
    let answer = request_ledger::reserved(ledger, next).0;
    assert(!(request_ledger::used_requests(ledger, next.subject_id@, next.windows@[0])
        < next.windows@[0].limit_requests));
}

/// A sweep that may take out everything leaves exactly the admissions whose time has not come.
pub proof fn a_full_sweep_leaves_what_is_retained(
    ledger: Entries<StoredUsagePolicyRequestAdmission>,
    now: u64,
    limit: nat,
    token: Seq<char>,
)
    requires
        token_map::in_key_order(ledger),
        limit >= ledger.len(),
    ensures
        token_map::lookup(retention::swept(ledger, now, limit), token) == match token_map::lookup(
            ledger,
            token,
        ) {
            Some(admission) => if admission.retain_until_unix_secs > now {
                Some(admission)
            } else {
                None
            },
            None => None,
        },
    decreases ledger.len(),
{
    if ledger.len() > 0 && limit > 0 {
        let rest = ledger.drop_first();
        token_map::lemma_rest_in_key_order(ledger);
        if ledger[0].1.kept_until() <= now {
            a_full_sweep_leaves_what_is_retained(rest, now, (limit - 1) as nat, token);
            if ledger[0].0 == token {
                token_map::a_key_occurs_once(ledger, token);
            }
        } else {
            a_full_sweep_leaves_what_is_retained(rest, now, limit, token);
            assert(retention::swept(ledger, now, limit).drop_first() =~= retention::swept(
                rest,
                now,
                limit,
            ));
        }
    }
}

} // verus!
