//! What the ledger of admitted requests promises over several operations.

use crate::error::DataLayerFault;
use crate::request_ledger;
use crate::request_ledger::{
    ReleaseUsagePolicyRequestAdmissionInput, ReserveUsagePolicyRequestInput,
    ReserveUsagePolicyRequestOutcome, StoredUsagePolicyRequestAdmission,
    UsagePolicyRequestAdmissionState, UsagePolicyRequestWindow,
};
use crate::retention;
use crate::retention::Retained;
use crate::text;
use crate::token_map;
use crate::token_map::Entries;
use vstd::prelude::*;
use vstd::string::*;

verus! {

/// One if the admission counts, else nothing.
pub open spec fn weight(
    admission: Option<StoredUsagePolicyRequestAdmission>,
    subject_id: Seq<char>,
    window: UsagePolicyRequestWindow,
) -> nat {
    if admission is Some && admission->0.counts(subject_id, window) {
        1
    } else {
        0
    }
}

/// Storing an admission changes a count by that admission and the one in its place.
proof fn lemma_used_after_put(
    ledger: Entries<StoredUsagePolicyRequestAdmission>,
    token: Seq<char>,
    admission: StoredUsagePolicyRequestAdmission,
    subject_id: Seq<char>,
    window: UsagePolicyRequestWindow,
)
    requires
        token_map::in_key_order(ledger),
    ensures
        request_ledger::used_requests(
            token_map::put(ledger, token, admission),
            subject_id,
            window,
        ) + weight(token_map::lookup(ledger, token), subject_id, window)
            == request_ledger::used_requests(ledger, subject_id, window) + weight(
            Some(admission),
            subject_id,
            window,
        ),
    decreases ledger.len(),
{
    let after = token_map::put(ledger, token, admission);
    if ledger.len() == 0 {
        assert(after.drop_first() =~= ledger);
    } else if ledger[0].0 == token {
        assert(after.drop_first() =~= ledger.drop_first());
    } else if text::key_before(token, ledger[0].0) {
        assert(after.drop_first() =~= ledger);
        token_map::a_key_before_all_is_missing(ledger, token);
    } else {
        let rest = ledger.drop_first();
        token_map::lemma_rest_in_key_order(ledger);
        lemma_used_after_put(rest, token, admission, subject_id, window);
        assert(after.drop_first() =~= token_map::put(rest, token, admission));
    }
}

proof fn lemma_no_full_window(
    ledger: Entries<StoredUsagePolicyRequestAdmission>,
    subject_id: Seq<char>,
    windows: Seq<UsagePolicyRequestWindow>,
    from: nat,
    index: int,
)
    requires
        request_ledger::first_full_window(ledger, subject_id, windows, from) is None,
        from <= index < windows.len(),
    ensures
        request_ledger::used_requests(ledger, subject_id, windows[index])
            < windows[index].limit_requests,
    decreases windows.len() - from,
{
    if from < index {
        lemma_no_full_window(ledger, subject_id, windows, from + 1, index);
    }
}

/// A window that is within its limit stays within it: no request takes a place in it that names it
/// among its windows and finds it full. A request of another subject, or one at another time, takes
/// no place in it.
pub proof fn no_window_is_oversold(
    ledger: Entries<StoredUsagePolicyRequestAdmission>,
    input: ReserveUsagePolicyRequestInput,
    subject_id: Seq<char>,
    window: UsagePolicyRequestWindow,
)
    requires
        token_map::in_key_order(ledger),
        request_ledger::used_requests(ledger, subject_id, window) <= window.limit_requests,
        input.windows@.contains(window) || input.subject_id@ != subject_id || !(
        window.starts_at_unix_secs <= input.admitted_at_unix_secs < window.ends_at_unix_secs),
    ensures
        request_ledger::used_requests(
            request_ledger::reserved(ledger, input).1,
            subject_id,
            window,
        ) <= window.limit_requests,
{
    let token = input.event_token@;
    let after = request_ledger::reserved(ledger, input).1;
    if after != ledger {
        match token_map::lookup(ledger, token) {
            Some(existing) => {
                lemma_used_after_put(
                    ledger,
                    token,
                    request_ledger::retried_admission(existing, input),
                    subject_id,
                    window,
                );
            },
            None => {
                lemma_used_after_put(
                    ledger,
                    token,
                    request_ledger::new_admission(input),
                    subject_id,
                    window,
                );
                if input.subject_id@ == subject_id && input.windows@.contains(window) {
                    let index = choose|i: int|
                        0 <= i < input.windows@.len() && input.windows@[i] == window;
                    lemma_no_full_window(ledger, subject_id, input.windows@, 0, index);
                }
            },
        }
    }
}

/// A new admission takes one place in each window that holds it, and no window that was asked for
/// was full.
pub proof fn a_new_admission_takes_one_place(
    ledger: Entries<StoredUsagePolicyRequestAdmission>,
    input: ReserveUsagePolicyRequestInput,
    index: int,
)
    requires
        token_map::in_key_order(ledger),
        token_map::lookup(ledger, input.event_token@) is None,
        request_ledger::reserved(ledger, input).0 == Ok::<_, DataLayerFault>(
            ReserveUsagePolicyRequestOutcome::Allowed,
        ),
        0 <= index < input.windows@.len(),
    ensures
        request_ledger::used_requests(
            request_ledger::reserved(ledger, input).1,
            input.subject_id@,
            input.windows@[index],
        ) == request_ledger::used_requests(ledger, input.subject_id@, input.windows@[index]) + 1,
        request_ledger::used_requests(ledger, input.subject_id@, input.windows@[index])
            < input.windows@[index].limit_requests,
{
    a_valid_request_outlives_its_windows(input, index);
    lemma_no_full_window(ledger, input.subject_id@, input.windows@, 0, index);
    lemma_used_after_put(
        ledger,
        input.event_token@,
        request_ledger::new_admission(input),
        input.subject_id@,
        input.windows@[index],
    );
}

/// The ledger after several requests, one behind the other.
pub open spec fn after_requests(
    ledger: Entries<StoredUsagePolicyRequestAdmission>,
    inputs: Seq<ReserveUsagePolicyRequestInput>,
) -> Entries<StoredUsagePolicyRequestAdmission>
    decreases inputs.len(),
{
    if inputs.len() == 0 {
        ledger
    } else {
        request_ledger::reserved(after_requests(ledger, inputs.drop_last()), inputs.last()).1
    }
}

/// What the last of several requests, one behind the other, is answered.
pub open spec fn last_answer(
    ledger: Entries<StoredUsagePolicyRequestAdmission>,
    inputs: Seq<ReserveUsagePolicyRequestInput>,
) -> Result<ReserveUsagePolicyRequestOutcome, DataLayerFault> {
    request_ledger::reserved(after_requests(ledger, inputs.drop_last()), inputs.last()).0
}

/// How many of several requests, one behind the other, are let in.
pub open spec fn allowed_requests(
    ledger: Entries<StoredUsagePolicyRequestAdmission>,
    inputs: Seq<ReserveUsagePolicyRequestInput>,
) -> nat
    decreases inputs.len(),
{
    if inputs.len() == 0 {
        0
    } else {
        allowed_requests(ledger, inputs.drop_last()) + if last_answer(ledger, inputs) == Ok::<
            _,
            DataLayerFault,
        >(ReserveUsagePolicyRequestOutcome::Allowed) {
            1nat
        } else {
            0nat
        }
    }
}

/// How many of several requests, one behind the other, are rejected.
pub open spec fn rejected_requests(
    ledger: Entries<StoredUsagePolicyRequestAdmission>,
    inputs: Seq<ReserveUsagePolicyRequestInput>,
) -> nat
    decreases inputs.len(),
{
    if inputs.len() == 0 {
        0
    } else {
        rejected_requests(ledger, inputs.drop_last()) + if last_answer(ledger, inputs) matches Ok(
            ReserveUsagePolicyRequestOutcome::Rejected { .. },
        ) {
            1nat
        } else {
            0nat
        }
    }
}

/// Valid requests of one subject at one moment that ask for one and the same window, each under a
/// token of its own that the ledger does not know.
pub open spec fn compete_for(
    ledger: Entries<StoredUsagePolicyRequestAdmission>,
    inputs: Seq<ReserveUsagePolicyRequestInput>,
    subject_id: Seq<char>,
    admitted_at: u64,
    window: UsagePolicyRequestWindow,
) -> bool {
    &&& forall|i: int|
        0 <= i < inputs.len() ==> {
            &&& (#[trigger] inputs[i]).fault() is None
            &&& inputs[i].subject_id@ == subject_id
            &&& inputs[i].admitted_at_unix_secs == admitted_at
            &&& inputs[i].windows@ == seq![window]
            &&& token_map::lookup(ledger, inputs[i].event_token@) is None
        }
    &&& forall|i: int, j: int|
        0 <= i < j < inputs.len() ==> (#[trigger] inputs[i]).event_token@ != (
        #[trigger] inputs[j]).event_token@
}

/// The places that are still free in a window.
pub open spec fn free_places(
    ledger: Entries<StoredUsagePolicyRequestAdmission>,
    subject_id: Seq<char>,
    window: UsagePolicyRequestWindow,
) -> nat {
    let used = request_ledger::used_requests(ledger, subject_id, window);
    if used < window.limit_requests {
        (window.limit_requests - used) as nat
    } else {
        0
    }
}

/// Of requests that compete for one window, in whatever order they come, exactly as many are let in
/// as there are free places, or all of them where they are fewer; the others are rejected. As many
/// admissions are stored as were let in. In an empty ledger the free places are the limit.
pub proof fn as_many_are_let_in_as_there_are_places(
    ledger: Entries<StoredUsagePolicyRequestAdmission>,
    inputs: Seq<ReserveUsagePolicyRequestInput>,
    subject_id: Seq<char>,
    admitted_at: u64,
    window: UsagePolicyRequestWindow,
)
    requires
        token_map::in_key_order(ledger),
        compete_for(ledger, inputs, subject_id, admitted_at, window),
    ensures
        ({
            let free = free_places(ledger, subject_id, window);
            let allowed = allowed_requests(ledger, inputs);
            let after = after_requests(ledger, inputs);
            &&& allowed == if inputs.len() <= free {
                inputs.len()
            } else {
                free
            }
            &&& rejected_requests(ledger, inputs) == inputs.len() - allowed
            &&& after.len() == ledger.len() + allowed
            &&& request_ledger::used_requests(after, subject_id, window)
                == request_ledger::used_requests(ledger, subject_id, window) + allowed
            &&& token_map::in_key_order(after)
        }),
        ledger.len() == 0 ==> free_places(ledger, subject_id, window) == window.limit_requests,
        forall|token: Seq<char>|
            token_map::lookup(after_requests(ledger, inputs), token) is Some ==> {
                ||| token_map::lookup(ledger, token) is Some
                ||| exists|i: int| 0 <= i < inputs.len() && (#[trigger] inputs[i]).event_token@ == token
            },
    decreases inputs.len(),
{
    if inputs.len() > 0 {
        let earlier = inputs.drop_last();
        let input = inputs.last();
        let before = after_requests(ledger, earlier);
        let token = input.event_token@;
        assert(earlier.len() == inputs.len() - 1);
        assert forall|i: int| 0 <= i < earlier.len() implies #[trigger] earlier[i] == inputs[i] by {}
        assert(compete_for(ledger, earlier, subject_id, admitted_at, window));
        as_many_are_let_in_as_there_are_places(ledger, earlier, subject_id, admitted_at, window);
        assert(input == inputs[inputs.len() - 1]);
        assert(input.fault() is None);
        assert(token_map::lookup(before, token) is None) by {
            if token_map::lookup(before, token) is Some {
                let i = choose|i: int|
                    0 <= i < earlier.len() && (#[trigger] earlier[i]).event_token@ == token;
                assert(inputs[i].event_token@ != inputs[inputs.len() - 1].event_token@);
            }
        }
        assert(input.windows@[0] == window);
        a_valid_request_outlives_its_windows(input, 0);
        let admission = request_ledger::new_admission(input);
        lemma_used_after_put(before, token, admission, subject_id, window);
        token_map::storing_keeps_the_order(before, token, admission);
        token_map::only_a_new_key_adds_an_entry(before, token, admission);
        reveal_with_fuel(request_ledger::first_full_window, 2);
        assert forall|other: Seq<char>|
            token_map::lookup(after_requests(ledger, inputs), other) is Some implies {
            ||| token_map::lookup(ledger, other) is Some
            ||| exists|i: int| 0 <= i < inputs.len() && (#[trigger] inputs[i]).event_token@ == other
        } by {
            token_map::a_stored_value_is_read_back(before, token, admission, other);
            if other == token {
                assert(inputs[inputs.len() - 1].event_token@ == other);
            } else if token_map::lookup(ledger, other) is None {
                let i = choose|i: int|
                    0 <= i < earlier.len() && (#[trigger] earlier[i]).event_token@ == other;
                assert(inputs[i].event_token@ == other);
            }
        }
    }
}

proof fn lemma_window_without_fault(
    input: ReserveUsagePolicyRequestInput,
    from: nat,
    index: int,
)
    requires
        request_ledger::first_window_fault(input, from) is None,
        from <= index < input.windows@.len() <= usize::MAX,
    ensures
        input.windows@[index].fault(
            index as usize,
            input.admitted_at_unix_secs,
            input.retain_until_unix_secs,
        ) is None,
    decreases input.windows@.len() - from,
{
    if from < index {
        lemma_window_without_fault(input, from + 1, index);
    }
}

/// Each window of a valid request holds the moment of admission, and has ended by the time up to
/// which the admission is kept: once that time has come, no request falls into the window any more.
pub proof fn a_valid_request_outlives_its_windows(
    input: ReserveUsagePolicyRequestInput,
    index: int,
)
    requires
        input.fault() is None,
        0 <= index < input.windows@.len(),
    ensures
        input.windows@[index].admits(input.admitted_at_unix_secs),
        input.windows@[index].ends_at_unix_secs <= input.retain_until_unix_secs,
        forall|now: u64|
            now >= input.retain_until_unix_secs ==> !input.windows@[index].admits(now),
{
    lemma_window_without_fault(input, 0, index);
}

/// A request that is not let in, or that is refused, leaves the ledger as it was.
pub proof fn a_refused_request_changes_nothing(
    ledger: Entries<StoredUsagePolicyRequestAdmission>,
    input: ReserveUsagePolicyRequestInput,
)
    ensures
        match request_ledger::reserved(ledger, input).0 {
            Err(_) => request_ledger::reserved(ledger, input).1 == ledger,
            Ok(ReserveUsagePolicyRequestOutcome::Rejected { .. }) => request_ledger::reserved(
                ledger,
                input,
            ).1 == ledger,
            Ok(ReserveUsagePolicyRequestOutcome::Conflict) => request_ledger::reserved(
                ledger,
                input,
            ).1 == ledger,
            Ok(_) => true,
        },
{
}

/// A request is rejected at the first of its windows that is full.
pub proof fn a_rejection_names_the_first_full_window(
    ledger: Entries<StoredUsagePolicyRequestAdmission>,
    input: ReserveUsagePolicyRequestInput,
)
    ensures
        request_ledger::reserved(ledger, input).0 matches Ok(
            ReserveUsagePolicyRequestOutcome::Rejected {
                window_index,
                limit_requests,
                used_requests,
            },
        ) ==> {
            &&& window_index < input.windows@.len()
            &&& limit_requests == input.windows@[window_index as int].limit_requests
            &&& request_ledger::used_requests(
                ledger,
                input.subject_id@,
                input.windows@[window_index as int],
            ) >= limit_requests
            &&& forall|i: int|
                0 <= i < window_index ==> request_ledger::used_requests(
                    ledger,
                    input.subject_id@,
                    #[trigger] input.windows@[i],
                ) < input.windows@[i].limit_requests
        },
{
    lemma_first_full_window(ledger, input.subject_id@, input.windows@, 0);
}

proof fn lemma_first_full_window(
    ledger: Entries<StoredUsagePolicyRequestAdmission>,
    subject_id: Seq<char>,
    windows: Seq<UsagePolicyRequestWindow>,
    from: nat,
)
    ensures
        request_ledger::first_full_window(ledger, subject_id, windows, from) matches Some(full)
            ==> {
            &&& from <= full < windows.len()
            &&& request_ledger::used_requests(ledger, subject_id, windows[full as int])
                >= windows[full as int].limit_requests
            &&& forall|i: int|
                from <= i < full ==> request_ledger::used_requests(
                    ledger,
                    subject_id,
                    #[trigger] windows[i],
                ) < windows[i].limit_requests
        },
    decreases windows.len() - from,
{
    if from < windows.len() && request_ledger::used_requests(
        ledger,
        subject_id,
        windows[from as int],
    ) < windows[from as int].limit_requests {
        lemma_first_full_window(ledger, subject_id, windows, from + 1);
    }
}

/// A request that was let in may be sent again: it is let in again and changes nothing.
pub proof fn a_retry_is_idempotent(
    ledger: Entries<StoredUsagePolicyRequestAdmission>,
    input: ReserveUsagePolicyRequestInput,
)
    requires
        request_ledger::reserved(ledger, input).0 == Ok::<_, DataLayerFault>(
            ReserveUsagePolicyRequestOutcome::Allowed,
        ),
    ensures
        request_ledger::reserved(request_ledger::reserved(ledger, input).1, input)
            == request_ledger::reserved(ledger, input),
{
    let token = input.event_token@;
    let stored = match token_map::lookup(ledger, token) {
        Some(existing) => request_ledger::retried_admission(existing, input),
        None => request_ledger::new_admission(input),
    };
    token_map::a_stored_value_is_read_back(ledger, token, stored, token);
    token_map::the_last_value_stays(
        ledger,
        token,
        stored,
        request_ledger::retried_admission(stored, input),
    );
    assert(request_ledger::retried_admission(stored, input) == stored);
}

/// A request under a known token is a retry, a conflict or refused. It changes nothing but how long
/// that admission is kept, which only grows; every other admission stays as it is.
pub proof fn a_retry_only_extends_retention(
    ledger: Entries<StoredUsagePolicyRequestAdmission>,
    input: ReserveUsagePolicyRequestInput,
    token: Seq<char>,
)
    requires
        token_map::lookup(ledger, token) is Some,
    ensures
        ({
            let before = token_map::lookup(ledger, token)->0;
            let after = token_map::lookup(request_ledger::reserved(ledger, input).1, token);
            &&& after is Some
            &&& after->0.retain_until_unix_secs >= before.retain_until_unix_secs
            &&& after->0 == StoredUsagePolicyRequestAdmission {
                retain_until_unix_secs: after->0.retain_until_unix_secs,
                ..before
            }
            &&& token != input.event_token@ ==> after->0 == before
        }),
{
    let stored = match token_map::lookup(ledger, input.event_token@) {
        Some(existing) => request_ledger::retried_admission(existing, input),
        None => request_ledger::new_admission(input),
    };
    token_map::a_stored_value_is_read_back(ledger, input.event_token@, stored, token);
}

/// A released admission is never active again, and keeps the time of its first release; a request
/// under its token is not let in.
pub proof fn a_released_admission_stays_released(
    ledger: Entries<StoredUsagePolicyRequestAdmission>,
    token: Seq<char>,
    reserve: ReserveUsagePolicyRequestInput,
    release: ReleaseUsagePolicyRequestAdmissionInput,
)
    requires
        token_map::lookup(ledger, token) is Some,
        token_map::lookup(ledger, token)->0.state is Released,
    ensures
        ({
            let before = token_map::lookup(ledger, token)->0;
            let after = token_map::lookup(request_ledger::reserved(ledger, reserve).1, token)->0;
            let later = token_map::lookup(request_ledger::released(ledger, release).1, token)->0;
            &&& after.state is Released
            &&& after.released_at_unix_secs == before.released_at_unix_secs
            &&& later == before
        }),
        reserve.event_token@ == token ==> request_ledger::reserved(ledger, reserve).0 != Ok::<
            _,
            DataLayerFault,
        >(ReserveUsagePolicyRequestOutcome::Allowed),
{
    a_retry_only_extends_retention(ledger, reserve, token);
    match token_map::lookup(ledger, release.event_token@) {
        Some(existing) => {
            token_map::a_stored_value_is_read_back(
                ledger,
                release.event_token@,
                StoredUsagePolicyRequestAdmission {
                    state: UsagePolicyRequestAdmissionState::Released,
                    released_at_unix_secs: Some(release.released_at_unix_secs),
                    ..existing
                },
                token,
            );
        },
        None => {},
    }
}

/// A release takes the admission out of every count and leaves all other counts alone, and a second
/// release gives the same answer.
pub proof fn a_release_frees_its_place(
    ledger: Entries<StoredUsagePolicyRequestAdmission>,
    input: ReleaseUsagePolicyRequestAdmissionInput,
    subject_id: Seq<char>,
    window: UsagePolicyRequestWindow,
)
    requires
        token_map::in_key_order(ledger),
        request_ledger::released(ledger, input).0 is Ok,
        request_ledger::released(ledger, input).0->Ok_0 is Some,
    ensures
        ({
            let after = request_ledger::released(ledger, input).1;
            &&& request_ledger::used_requests(after, subject_id, window) + weight(
                token_map::lookup(ledger, input.event_token@),
                subject_id,
                window,
            ) == request_ledger::used_requests(ledger, subject_id, window)
            &&& token_map::lookup(after, input.event_token@) is Some
            &&& token_map::lookup(after, input.event_token@)->0.state is Released
            &&& request_ledger::released(after, input) == (
                request_ledger::released(ledger, input).0,
                after,
            )
        }),
{
    let existing = token_map::lookup(ledger, input.event_token@)->0;
    let after = StoredUsagePolicyRequestAdmission {
        state: UsagePolicyRequestAdmissionState::Released,
        released_at_unix_secs: Some(input.released_at_unix_secs),
        ..existing
    };
    token_map::a_stored_value_is_read_back(ledger, input.event_token@, after, input.event_token@);
    lemma_used_after_put(ledger, input.event_token@, after, subject_id, window);
}

/// A release under another request or subject changes nothing.
pub proof fn a_release_of_another_changes_nothing(
    ledger: Entries<StoredUsagePolicyRequestAdmission>,
    input: ReleaseUsagePolicyRequestAdmissionInput,
)
    requires
        token_map::lookup(ledger, input.event_token@) matches Some(existing) ==> !existing.belongs_to(
            input.request_id@,
            input.subject_id@,
        ),
    ensures
        request_ledger::released(ledger, input).1 == ledger,
        input.fault() is None ==> request_ledger::released(ledger, input).0 == Ok::<
            _,
            DataLayerFault,
        >(None::<StoredUsagePolicyRequestAdmission>),
{
}

/// Sweeping the ledger never makes a count grow.
pub proof fn a_sweep_takes_no_place(
    ledger: Entries<StoredUsagePolicyRequestAdmission>,
    now: u64,
    limit: nat,
    subject_id: Seq<char>,
    window: UsagePolicyRequestWindow,
)
    ensures
        request_ledger::used_requests(retention::swept(ledger, now, limit), subject_id, window)
            <= request_ledger::used_requests(ledger, subject_id, window),
    decreases ledger.len(),
{
    if ledger.len() > 0 && limit > 0 {
        let rest = ledger.drop_first();
        if ledger[0].1.kept_until() <= now {
            a_sweep_takes_no_place(rest, now, (limit - 1) as nat, subject_id, window);
        } else {
            a_sweep_takes_no_place(rest, now, limit, subject_id, window);
            assert(retention::swept(ledger, now, limit).drop_first() =~= retention::swept(
                rest,
                now,
                limit,
            ));
        }
    }
}

/// The name of a state determines the state.
pub proof fn a_name_determines_the_admission_state(
    a: UsagePolicyRequestAdmissionState,
    b: UsagePolicyRequestAdmissionState,
)
    requires
        a.name() == b.name(),
    ensures
        a == b,
{
    reveal_strlit("active");
    reveal_strlit("released");
    assert("active"@.len() != "released"@.len());
}

} // verus!
