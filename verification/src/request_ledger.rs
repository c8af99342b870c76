//! The ledger of admitted requests: how many of a subject's requests fall into each window.

use crate::error;
use crate::error::{DataLayerError, DataLayerFault};
use crate::ledger_input;
use crate::retention;
use crate::retention::Retained;
use crate::text;
use crate::token_map;
use crate::token_map::{Entries, TokenMap};
use crate::usage_policy::MAX_USAGE_POLICY_TOTAL_RULES;
use vstd::prelude::*;
use vstd::string::*;

verus! {

/// A window of time that holds at most `limit_requests` requests.
#[derive(Debug, PartialEq, Eq, Clone, Copy, Structural)]
pub struct UsagePolicyRequestWindow {
    pub starts_at_unix_secs: u64,
    pub ends_at_unix_secs: u64,
    pub limit_requests: u64,
}

/// A request that asks to be admitted.
#[derive(Debug, Clone, PartialEq, Eq)]
pub struct ReserveUsagePolicyRequestInput {
    pub request_id: String,
    pub subject_id: String,
    pub event_token: String,
    pub admitted_at_unix_secs: u64,
    /// Exclusive timestamp after which this admission cannot affect any supplied window and its
    /// idempotency tombstone may be deleted safely.
    pub retain_until_unix_secs: u64,
    pub windows: Vec<UsagePolicyRequestWindow>,
}

impl UsagePolicyRequestWindow {
    /// The window is not empty, lets requests in, and holds the moment `at`.
    pub open spec fn admits(self, at: u64) -> bool {
        self.limit_requests > 0 && self.starts_at_unix_secs <= at < self.ends_at_unix_secs
    }

    /// What is wrong with the window at position `index` of a request.
    pub open spec fn fault(self, index: usize, admitted_at: u64, retain_until: u64) -> Option<
        DataLayerFault,
    > {
        let name = "usage policy request window "@ + text::decimal(index as nat);
        ledger_input::earlier(
            ledger_input::range_fault(self.starts_at_unix_secs, name + " start"@),
            ledger_input::earlier(
                ledger_input::range_fault(self.ends_at_unix_secs, name + " end"@),
                ledger_input::earlier(
                    ledger_input::range_fault(self.limit_requests, name + " limit"@),
                    if !self.admits(admitted_at) {
                        Some(
                            DataLayerFault::InvalidInput(
                                name + " does not contain admission or has invalid bounds"@,
                            ),
                        )
                    } else if retain_until < self.ends_at_unix_secs {
                        Some(
                            DataLayerFault::InvalidInput(
                                "usage policy request retain_until precedes window "@
                                    + text::decimal(index as nat) + " end"@,
                            ),
                        )
                    } else {
                        None
                    },
                ),
            ),
        )
    }

    /// Checks the window at position `index` of a request.
    pub fn validate(&self, index: usize, admitted_at: u64, retain_until: u64) -> (r: Result<
        (),
        DataLayerError,
    >)
        ensures
            error::fails_with(r, self.fault(index, admitted_at, retain_until)),
    {
        ledger_input::validate_database_u64(
            self.starts_at_unix_secs,
            text::numbered("usage policy request window ", index as u64, " start").as_str(),
        )?;
        ledger_input::validate_database_u64(
            self.ends_at_unix_secs,
            text::numbered("usage policy request window ", index as u64, " end").as_str(),
        )?;
        ledger_input::validate_database_u64(
            self.limit_requests,
            text::numbered("usage policy request window ", index as u64, " limit").as_str(),
        )?;
        if self.limit_requests == 0 || self.starts_at_unix_secs >= self.ends_at_unix_secs
            || admitted_at < self.starts_at_unix_secs || admitted_at >= self.ends_at_unix_secs {
            return Err(
                DataLayerError::InvalidInput(
                    text::numbered(
                        "usage policy request window ",
                        index as u64,
                        " does not contain admission or has invalid bounds",
                    ),
                ),
            );
        }
        if retain_until < self.ends_at_unix_secs {
            return Err(
                DataLayerError::InvalidInput(
                    text::numbered(
                        "usage policy request retain_until precedes window ",
                        index as u64,
                        " end",
                    ),
                ),
            );
        }
        Ok(())
    }
}

/// The first fault of the windows from position `from` on.
pub open spec fn first_window_fault(input: ReserveUsagePolicyRequestInput, from: nat) -> Option<
    DataLayerFault,
>
    decreases input.windows@.len() - from,
{
    if from >= input.windows@.len() {
        None
    } else {
        ledger_input::earlier(
            input.windows@[from as int].fault(
                from as usize,
                input.admitted_at_unix_secs,
                input.retain_until_unix_secs,
            ),
            first_window_fault(input, from + 1),
        )
    }
}

impl ReserveUsagePolicyRequestInput {
    /// What is wrong with the request.
    pub open spec fn fault(self) -> Option<DataLayerFault> {
        let ids = ledger_input::earlier(
            ledger_input::id_fault(self.request_id@, "usage policy request_id"@),
            ledger_input::earlier(
                ledger_input::id_fault(self.subject_id@, "usage policy subject_id"@),
                ledger_input::id_fault(self.event_token@, "usage policy event_token"@),
            ),
        );
        let times = ledger_input::earlier(
            ledger_input::range_fault(self.admitted_at_unix_secs, "usage policy admitted_at"@),
            ledger_input::range_fault(self.retain_until_unix_secs, "usage policy retain_until"@),
        );
        let count = if self.windows@.len() == 0 || self.windows@.len()
            > MAX_USAGE_POLICY_TOTAL_RULES {
            Some(
                DataLayerFault::InvalidInput(
                    "usage policy request admission requires 1 to "@ + text::decimal(
                        MAX_USAGE_POLICY_TOTAL_RULES as nat,
                    ) + " windows"@,
                ),
            )
        } else {
            first_window_fault(self, 0)
        };
        ledger_input::earlier(ids, ledger_input::earlier(times, count))
    }

    /// Checks the request.
    pub fn validate(&self) -> (r: Result<(), DataLayerError>)
        ensures
            error::fails_with(r, self.fault()),
    {
        ledger_input::validate_bounded_id(self.request_id.as_str(), "usage policy request_id")?;
        ledger_input::validate_bounded_id(self.subject_id.as_str(), "usage policy subject_id")?;
        ledger_input::validate_bounded_id(self.event_token.as_str(), "usage policy event_token")?;
        ledger_input::validate_database_u64(
            self.admitted_at_unix_secs,
            "usage policy admitted_at",
        )?;
        ledger_input::validate_database_u64(
            self.retain_until_unix_secs,
            "usage policy retain_until",
        )?;
        if self.windows.len() == 0 || self.windows.len() > MAX_USAGE_POLICY_TOTAL_RULES {
            return Err(
                DataLayerError::InvalidInput(
                    text::numbered(
                        "usage policy request admission requires 1 to ",
                        MAX_USAGE_POLICY_TOTAL_RULES as u64,
                        " windows",
                    ),
                ),
            );
        }
        let mut index: usize = 0;
        while index < self.windows.len()
            invariant
                index <= self.windows@.len(),
                self.fault() == first_window_fault(*self, index as nat),
            decreases self.windows@.len() - index,
        {
            self.windows[index].validate(
                index,
                self.admitted_at_unix_secs,
                self.retain_until_unix_secs,
            )?;
            index += 1;
        }
        Ok(())
    }
}

/// Whether an admission still counts.
#[derive(Debug, Clone, Copy, PartialEq, Eq, Structural)]
pub enum UsagePolicyRequestAdmissionState {
    Active,
    Released,
}

impl UsagePolicyRequestAdmissionState {
    /// The name of the state.
    pub open spec fn name(self) -> Seq<char> {
        match self {
            UsagePolicyRequestAdmissionState::Active => "active"@,
            UsagePolicyRequestAdmissionState::Released => "released"@,
        }
    }

    /// The name of the state.
    pub fn as_str(self) -> (r: &'static str)
        ensures
            r@ == self.name(),
    {
        match self {
            UsagePolicyRequestAdmissionState::Active => "active",
            UsagePolicyRequestAdmissionState::Released => "released",
        }
    }

    /// The state with a name.
    pub fn parse(value: &str) -> (r: Option<Self>)
        ensures
            match r {
                Some(state) => value@ == state.name(),
                None => forall|state: Self| value@ != #[trigger] state.name(),
            },
    {
        if text::same(value, "active") {
            Some(UsagePolicyRequestAdmissionState::Active)
        } else if text::same(value, "released") {
            Some(UsagePolicyRequestAdmissionState::Released)
        } else {
            None
        }
    }
}

/// What became of a request that asked to be admitted.
#[derive(Debug, Clone, Copy, PartialEq, Eq, Structural)]
pub enum ReserveUsagePolicyRequestOutcome {
    Allowed,
    Rejected { window_index: usize, limit_requests: u64, used_requests: u64 },
    AlreadyReleased,
    Conflict,
}

/// A request whose admission is to be given back.
#[derive(Debug, Clone, PartialEq, Eq)]
pub struct ReleaseUsagePolicyRequestAdmissionInput {
    pub request_id: String,
    pub subject_id: String,
    pub event_token: String,
    pub released_at_unix_secs: u64,
}

impl ReleaseUsagePolicyRequestAdmissionInput {
    /// What is wrong with the request.
    pub open spec fn fault(self) -> Option<DataLayerFault> {
        ledger_input::earlier(
            ledger_input::id_fault(self.request_id@, "usage policy request_id"@),
            ledger_input::earlier(
                ledger_input::id_fault(self.subject_id@, "usage policy subject_id"@),
                ledger_input::earlier(
                    ledger_input::id_fault(self.event_token@, "usage policy event_token"@),
                    ledger_input::range_fault(
                        self.released_at_unix_secs,
                        "usage policy released_at"@,
                    ),
                ),
            ),
        )
    }

    /// Checks the request.
    pub fn validate(&self) -> (r: Result<(), DataLayerError>)
        ensures
            error::fails_with(r, self.fault()),
    {
        ledger_input::validate_bounded_id(self.request_id.as_str(), "usage policy request_id")?;
        ledger_input::validate_bounded_id(self.subject_id.as_str(), "usage policy subject_id")?;
        ledger_input::validate_bounded_id(self.event_token.as_str(), "usage policy event_token")?;
        ledger_input::validate_database_u64(self.released_at_unix_secs, "usage policy released_at")
    }
}

/// An admission as the ledger keeps it.
#[derive(Debug, PartialEq, Eq)]
pub struct StoredUsagePolicyRequestAdmission {
    pub request_id: String,
    pub subject_id: String,
    pub event_token: String,
    pub admitted_at_unix_secs: u64,
    pub retain_until_unix_secs: u64,
    pub state: UsagePolicyRequestAdmissionState,
    pub released_at_unix_secs: Option<u64>,
}

impl Clone for StoredUsagePolicyRequestAdmission {
    fn clone(&self) -> (r: Self)
        ensures
            r == *self,
    {
        StoredUsagePolicyRequestAdmission {
            request_id: self.request_id.clone(),
            subject_id: self.subject_id.clone(),
            event_token: self.event_token.clone(),
            admitted_at_unix_secs: self.admitted_at_unix_secs,
            retain_until_unix_secs: self.retain_until_unix_secs,
            state: self.state,
            released_at_unix_secs: self.released_at_unix_secs,
        }
    }
}

impl StoredUsagePolicyRequestAdmission {
    /// The admission belongs to this request of this subject.
    pub open spec fn belongs_to(self, request_id: Seq<char>, subject_id: Seq<char>) -> bool {
        self.request_id@ == request_id && self.subject_id@ == subject_id
    }

    /// The admission counts for a subject in a window.
    pub open spec fn counts(self, subject_id: Seq<char>, window: UsagePolicyRequestWindow) -> bool {
        self.state is Active && self.subject_id@ == subject_id && window.starts_at_unix_secs
            <= self.admitted_at_unix_secs < window.ends_at_unix_secs
    }

    fn is_counted(&self, subject_id: &str, window: &UsagePolicyRequestWindow) -> (r: bool)
        ensures
            r == self.counts(subject_id@, *window),
    {
        match self.state {
            UsagePolicyRequestAdmissionState::Active => text::same(
                self.subject_id.as_str(),
                subject_id,
            ) && self.admitted_at_unix_secs >= window.starts_at_unix_secs
                && self.admitted_at_unix_secs < window.ends_at_unix_secs,
            UsagePolicyRequestAdmissionState::Released => false,
        }
    }
}

/// How many admissions of a subject count in a window.
pub open spec fn used_requests(
    ledger: Entries<StoredUsagePolicyRequestAdmission>,
    subject_id: Seq<char>,
    window: UsagePolicyRequestWindow,
) -> nat
    decreases ledger.len(),
{
    if ledger.len() == 0 {
        0
    } else {
        used_requests(ledger.drop_first(), subject_id, window) + if ledger[0].1.counts(
            subject_id,
            window,
        ) {
            1nat
        } else {
            0nat
        }
    }
}

/// The first window from position `from` on that has no room for one more request.
pub open spec fn first_full_window(
    ledger: Entries<StoredUsagePolicyRequestAdmission>,
    subject_id: Seq<char>,
    windows: Seq<UsagePolicyRequestWindow>,
    from: nat,
) -> Option<nat>
    decreases windows.len() - from,
{
    if from >= windows.len() {
        None
    } else if used_requests(ledger, subject_id, windows[from as int])
        >= windows[from as int].limit_requests {
        Some(from)
    } else {
        first_full_window(ledger, subject_id, windows, from + 1)
    }
}

/// The admission that a request leaves in the ledger.
pub open spec fn new_admission(
    input: ReserveUsagePolicyRequestInput,
) -> StoredUsagePolicyRequestAdmission {
    StoredUsagePolicyRequestAdmission {
        request_id: input.request_id,
        subject_id: input.subject_id,
        event_token: input.event_token,
        admitted_at_unix_secs: input.admitted_at_unix_secs,
        retain_until_unix_secs: input.retain_until_unix_secs,
        state: UsagePolicyRequestAdmissionState::Active,
        released_at_unix_secs: None,
    }
}

/// An admission after a retry: kept for at least as long as the retry asks.
pub open spec fn retried_admission(
    existing: StoredUsagePolicyRequestAdmission,
    input: ReserveUsagePolicyRequestInput,
) -> StoredUsagePolicyRequestAdmission {
    StoredUsagePolicyRequestAdmission {
        retain_until_unix_secs: if existing.retain_until_unix_secs < input.retain_until_unix_secs {
            input.retain_until_unix_secs
        } else {
            existing.retain_until_unix_secs
        },
        ..existing
    }
}

/// What a request for admission comes to, and the ledger after it. A token that the ledger knows
/// is a retry, which takes no room. A new token is let in where every window has room.
pub open spec fn reserved(
    ledger: Entries<StoredUsagePolicyRequestAdmission>,
    input: ReserveUsagePolicyRequestInput,
) -> (
    Result<ReserveUsagePolicyRequestOutcome, DataLayerFault>,
    Entries<StoredUsagePolicyRequestAdmission>,
) {
    let token = input.event_token@;
    if input.fault() is Some {
        (Err(input.fault()->0), ledger)
    } else {
        match token_map::lookup(ledger, token) {
            Some(existing) => {
                if !existing.belongs_to(input.request_id@, input.subject_id@) {
                    (Ok(ReserveUsagePolicyRequestOutcome::Conflict), ledger)
                } else if existing.admitted_at_unix_secs != input.admitted_at_unix_secs {
                    (
                        Err(
                            DataLayerFault::InvalidInput(
                                "usage policy event_token must keep its original admitted_at"@,
                            ),
                        ),
                        ledger,
                    )
                } else {
                    (
                        Ok(
                            if existing.state is Released {
                                ReserveUsagePolicyRequestOutcome::AlreadyReleased
                            } else {
                                ReserveUsagePolicyRequestOutcome::Allowed
                            },
                        ),
                        token_map::put(ledger, token, retried_admission(existing, input)),
                    )
                }
            },
            None => match first_full_window(ledger, input.subject_id@, input.windows@, 0) {
                Some(full) => (
                    Ok(
                        ReserveUsagePolicyRequestOutcome::Rejected {
                            window_index: full as usize,
                            limit_requests: input.windows@[full as int].limit_requests,
                            used_requests: used_requests(
                                ledger,
                                input.subject_id@,
                                input.windows@[full as int],
                            ) as u64,
                        },
                    ),
                    ledger,
                ),
                None => (
                    Ok(ReserveUsagePolicyRequestOutcome::Allowed),
                    token_map::put(ledger, token, new_admission(input)),
                ),
            },
        }
    }
}

/// What a release comes to, and the ledger after it. Only an active admission of the same request
/// and subject changes.
pub open spec fn released(
    ledger: Entries<StoredUsagePolicyRequestAdmission>,
    input: ReleaseUsagePolicyRequestAdmissionInput,
) -> (
    Result<Option<StoredUsagePolicyRequestAdmission>, DataLayerFault>,
    Entries<StoredUsagePolicyRequestAdmission>,
) {
    if input.fault() is Some {
        (Err(input.fault()->0), ledger)
    } else {
        match token_map::lookup(ledger, input.event_token@) {
            None => (Ok(None), ledger),
            Some(existing) => {
                if !existing.belongs_to(input.request_id@, input.subject_id@) {
                    (Ok(None), ledger)
                } else if input.released_at_unix_secs < existing.admitted_at_unix_secs {
                    (
                        Err(
                            DataLayerFault::InvalidInput(
                                "usage policy released_at must not precede admitted_at"@,
                            ),
                        ),
                        ledger,
                    )
                } else if existing.state is Released {
                    (Ok(Some(existing)), ledger)
                } else {
                    let after = StoredUsagePolicyRequestAdmission {
                        state: UsagePolicyRequestAdmissionState::Released,
                        released_at_unix_secs: Some(input.released_at_unix_secs),
                        ..existing
                    };
                    (Ok(Some(after)), token_map::put(ledger, input.event_token@, after))
                }
            },
        }
    }
}

/// The ledger of admitted requests, by the token of each.
#[derive(Debug)]
pub struct RequestLedger {
    admissions: TokenMap<StoredUsagePolicyRequestAdmission>,
}

impl View for RequestLedger {
    type V = Entries<StoredUsagePolicyRequestAdmission>;

    closed spec fn view(&self) -> Entries<StoredUsagePolicyRequestAdmission> {
        self.admissions@
    }
}

impl RequestLedger {
    /// The tokens are in order, each there once.
    pub open spec fn wf(&self) -> bool {
        token_map::in_key_order(self@)
    }

    /// A ledger without admissions.
    pub fn new() -> (r: Self)
        ensures
            r.wf(),
            r@ == Entries::<StoredUsagePolicyRequestAdmission>::empty(),
    {
        RequestLedger { admissions: TokenMap::new() }
    }

    /// The admission with a token.
    pub fn get(&self, event_token: &str) -> (r: Option<&StoredUsagePolicyRequestAdmission>)
        requires
            self.wf(),
        ensures
            match r {
                Some(admission) => token_map::lookup(self@, event_token@) == Some(*admission),
                None => token_map::lookup(self@, event_token@) is None,
            },
    {
        self.admissions.get(event_token)
    }

    fn count_used(&self, subject_id: &str, window: &UsagePolicyRequestWindow) -> (r: u64)
        ensures
            r == used_requests(self@, subject_id@, *window),
    {
        let mut used: u64 = 0;
        let mut at: usize = 0;
        assert(self@.skip(0) =~= self@);
        while at < self.admissions.len()
            invariant
                at <= self@.len(),
                self@ == self.admissions@,
                used <= at,
                used + used_requests(self@.skip(at as int), subject_id@, *window) == used_requests(
                    self@,
                    subject_id@,
                    *window,
                ),
            decreases self@.len() - at,
        {
            assert(self@.skip(at as int).drop_first() =~= self@.skip(at + 1));
            if self.admissions.value_at(at).is_counted(subject_id, window) {
                used += 1;
            }
            at += 1;
        }
        used
    }

    /// Admits a request where every window has room for it.
    pub fn reserve(&mut self, input: ReserveUsagePolicyRequestInput) -> (r: Result<
        ReserveUsagePolicyRequestOutcome,
        DataLayerError,
    >)
        requires
            old(self).wf(),
        ensures
            final(self).wf(),
            error::is_outcome(r, reserved(old(self)@, input).0),
            final(self)@ == reserved(old(self)@, input).1,
    {
        input.validate()?;
        if let Some(existing) = self.admissions.get(input.event_token.as_str()) {
            if !text::same(existing.request_id.as_str(), input.request_id.as_str()) || !text::same(
                existing.subject_id.as_str(),
                input.subject_id.as_str(),
            ) {
                return Ok(ReserveUsagePolicyRequestOutcome::Conflict);
            }
            if existing.admitted_at_unix_secs != input.admitted_at_unix_secs {
                return Err(
                    error::invalid_input(
                        "usage policy event_token must keep its original admitted_at",
                    ),
                );
            }
            let mut after = existing.clone();
            if after.retain_until_unix_secs < input.retain_until_unix_secs {
                after.retain_until_unix_secs = input.retain_until_unix_secs;
            }
            let state = after.state;
            self.admissions.insert(input.event_token, after);
            return match state {
                UsagePolicyRequestAdmissionState::Released => Ok(
                    ReserveUsagePolicyRequestOutcome::AlreadyReleased,
                ),
                UsagePolicyRequestAdmissionState::Active => Ok(
                    ReserveUsagePolicyRequestOutcome::Allowed,
                ),
            };
        }
        let mut index: usize = 0;
        while index < input.windows.len()
            invariant
                self@ == old(self)@,
                self.admissions@ == self@,
                self.wf(),
                index <= input.windows@.len(),
                first_full_window(self@, input.subject_id@, input.windows@, 0)
                    == first_full_window(self@, input.subject_id@, input.windows@, index as nat),
                input.fault() is None,
                token_map::lookup(self@, input.event_token@) is None,
            decreases input.windows@.len() - index,
        {
            let window = &input.windows[index];
            let used_requests: u64 = self.count_used(input.subject_id.as_str(), window);
            if used_requests >= window.limit_requests {
                return Ok(
                    ReserveUsagePolicyRequestOutcome::Rejected {
                        window_index: index,
                        limit_requests: window.limit_requests,
                        used_requests,
                    },
                );
            }
            index += 1;
        }
        let token = input.event_token.clone();
        self.admissions.insert(
            token,
            StoredUsagePolicyRequestAdmission {
                request_id: input.request_id,
                subject_id: input.subject_id,
                event_token: input.event_token,
                admitted_at_unix_secs: input.admitted_at_unix_secs,
                retain_until_unix_secs: input.retain_until_unix_secs,
                state: UsagePolicyRequestAdmissionState::Active,
                released_at_unix_secs: None,
            },
        );
        Ok(ReserveUsagePolicyRequestOutcome::Allowed)
    }

    /// Gives an admission back.
    pub fn release(&mut self, input: ReleaseUsagePolicyRequestAdmissionInput) -> (r: Result<
        Option<StoredUsagePolicyRequestAdmission>,
        DataLayerError,
    >)
        requires
            old(self).wf(),
        ensures
            final(self).wf(),
            error::is_outcome(r, released(old(self)@, input).0),
            final(self)@ == released(old(self)@, input).1,
    {
        input.validate()?;
        let mut admission = match self.admissions.get(input.event_token.as_str()) {
            None => return Ok(None),
            Some(admission) => admission.clone(),
        };
        if !text::same(admission.request_id.as_str(), input.request_id.as_str()) || !text::same(
            admission.subject_id.as_str(),
            input.subject_id.as_str(),
        ) {
            return Ok(None);
        }
        if input.released_at_unix_secs < admission.admitted_at_unix_secs {
            return Err(
                error::invalid_input("usage policy released_at must not precede admitted_at"),
            );
        }
        match admission.state {
            UsagePolicyRequestAdmissionState::Active => {
                admission.state = UsagePolicyRequestAdmissionState::Released;
                admission.released_at_unix_secs = Some(input.released_at_unix_secs);
                self.admissions.insert(input.event_token, admission.clone());
            },
            UsagePolicyRequestAdmissionState::Released => {},
        }
        Ok(Some(admission))
    }

    /// Takes out up to `batch_size` admissions that are not to be kept any longer.
    pub fn cleanup(&mut self, now_unix_secs: u64, batch_size: usize) -> (r: usize)
        requires
            old(self).wf(),
        ensures
            final(self).wf(),
            final(self)@ == retention::swept(old(self)@, now_unix_secs, batch_size as nat),
            r == old(self)@.len() - final(self)@.len(),
    {
        retention::sweep(&mut self.admissions, now_unix_secs, batch_size)
    }
}

impl Retained for StoredUsagePolicyRequestAdmission {
    open spec fn kept_until(&self) -> u64 {
        self.retain_until_unix_secs
    }

    fn retained_until(&self) -> (r: u64) {
        self.retain_until_unix_secs
    }
}

} // verus!
