//! The ledger of reserved and spent cost: what a subject's requests cost within each window.

use crate::error;
use crate::error::{DataLayerError, DataLayerFault};
use crate::ledger_input;
use crate::retention;
use crate::retention::Retained;
use crate::text;
use crate::token_map;
use crate::token_map::{Entries, TokenMap};
use crate::usage_policy::MAX_USAGE_POLICY_TOTAL_RULES;
use vstd::prelude::*;
use vstd::string::*;

verus! {

/// A window of time within which requests may cost at most `limit_cost_units`.
#[derive(Debug, Clone, PartialEq, Eq)]
pub struct UsagePolicyCostWindow {
    pub window_id: String,
    pub starts_at_unix_secs: u64,
    pub ends_at_unix_secs: u64,
    pub limit_cost_units: u64,
}

/// A request that asks for its cost to be reserved.
#[derive(Debug, Clone, PartialEq, Eq)]
pub struct ReserveUsagePolicyCostInput {
    pub request_id: String,
    pub subject_id: String,
    pub reservation_token: String,
    pub admitted_at_unix_secs: u64,
    pub reserved_cost_units: u64,
    pub reservation_expires_at_unix_secs: u64,
    /// Exclusive timestamp after which this reservation can no longer affect any future window
    /// and its idempotency tombstone may be deleted safely.
    pub retain_until_unix_secs: u64,
    pub windows: Vec<UsagePolicyCostWindow>,
}

impl UsagePolicyCostWindow {
    /// The window is not empty, lets cost in, and holds the moment `at`.
    pub open spec fn admits(self, at: u64) -> bool {
        self.limit_cost_units > 0 && self.holds(at)
    }

    /// The window holds the moment `at`.
    pub open spec fn holds(self, at: u64) -> bool {
        self.starts_at_unix_secs <= at < self.ends_at_unix_secs
    }
}

/// Whether one of the first `count` windows has the id `id`.
pub open spec fn id_taken(windows: Seq<UsagePolicyCostWindow>, count: int, id: Seq<char>) -> bool {
    exists|j: int| 0 <= j < count && #[trigger] windows[j].window_id@ == id
}

/// What is wrong with the window at position `index` of a request admitted at `admitted_at`.
pub open spec fn window_fault(
    windows: Seq<UsagePolicyCostWindow>,
    index: nat,
    admitted_at: u64,
) -> Option<DataLayerFault> {
    let window = windows[index as int];
    let name = "usage policy window "@ + text::decimal(index);
    ledger_input::earlier(
        ledger_input::empty_id_fault(window.window_id@, name + " id"@),
        ledger_input::earlier(
            ledger_input::range_fault(window.limit_cost_units, name + " limit_cost_units"@),
            if !window.admits(admitted_at) {
                Some(
                    DataLayerFault::InvalidInput(
                        name + " does not contain admission or has invalid bounds"@,
                    ),
                )
            } else if id_taken(windows, index as int, window.window_id@) {
                Some(
                    DataLayerFault::InvalidInput(
                        name + " duplicates window_id "@ + window.window_id@,
                    ),
                )
            } else {
                None
            },
        ),
    )
}

/// The first fault of the windows from position `from` on.
pub open spec fn first_window_fault(
    windows: Seq<UsagePolicyCostWindow>,
    from: nat,
    admitted_at: u64,
) -> Option<DataLayerFault>
    decreases windows.len() - from,
{
    if from >= windows.len() {
        None
    } else {
        ledger_input::earlier(
            window_fault(windows, from, admitted_at),
            first_window_fault(windows, from + 1, admitted_at),
        )
    }
}

fn is_id_taken(windows: &Vec<UsagePolicyCostWindow>, count: usize, id: &str) -> (r: bool)
    requires
        count <= windows@.len(),
    ensures
        r == id_taken(windows@, count as int, id@),
{
    let mut at: usize = 0;
    while at < count
        invariant
            at <= count <= windows@.len(),
            forall|j: int| 0 <= j < at ==> #[trigger] windows@[j].window_id@ != id@,
        decreases count - at,
    {
        if text::same(windows[at].window_id.as_str(), id) {
            assert(windows@[at as int].window_id@ == id@);
            return true;
        }
        at += 1;
    }
    false
}

fn validate_window(
    windows: &Vec<UsagePolicyCostWindow>,
    index: usize,
    admitted_at: u64,
) -> (r: Result<(), DataLayerError>)
    requires
        index < windows@.len(),
    ensures
        error::fails_with(r, window_fault(windows@, index as nat, admitted_at)),
{
    let window = &windows[index];
    ledger_input::validate_non_empty_id(
        window.window_id.as_str(),
        text::numbered("usage policy window ", index as u64, " id").as_str(),
    )?;
    ledger_input::validate_cost_units(
        window.limit_cost_units,
        text::numbered("usage policy window ", index as u64, " limit_cost_units").as_str(),
    )?;
    if window.limit_cost_units == 0 || window.starts_at_unix_secs >= window.ends_at_unix_secs
        || admitted_at < window.starts_at_unix_secs || admitted_at >= window.ends_at_unix_secs {
        return Err(
            DataLayerError::InvalidInput(
                text::numbered(
                    "usage policy window ",
                    index as u64,
                    " does not contain admission or has invalid bounds",
                ),
            ),
        );
    }
    if is_id_taken(windows, index, window.window_id.as_str()) {
        let mut message = text::numbered(
            "usage policy window ",
            index as u64,
            " duplicates window_id ",
        );
        message.append(window.window_id.as_str());
        return Err(DataLayerError::InvalidInput(message));
    }
    Ok(())
}

impl ReserveUsagePolicyCostInput {
    /// What is wrong with the request.
    pub open spec fn fault(self) -> Option<DataLayerFault> {
        let ids = ledger_input::earlier(
            ledger_input::id_fault(self.request_id@, "usage policy request_id"@),
            ledger_input::earlier(
                ledger_input::id_fault(self.subject_id@, "usage policy subject_id"@),
                ledger_input::id_fault(self.reservation_token@, "usage policy reservation_token"@),
            ),
        );
        let rest = if self.reservation_expires_at_unix_secs <= self.admitted_at_unix_secs {
            Some(
                DataLayerFault::InvalidInput(
                    "usage policy reservation must expire after admission"@,
                ),
            )
        } else if self.retain_until_unix_secs < self.reservation_expires_at_unix_secs {
            Some(
                DataLayerFault::InvalidInput(
                    "usage policy retain_until must not precede reservation expiry"@,
                ),
            )
        } else if self.windows@.len() == 0 || self.windows@.len() > MAX_USAGE_POLICY_TOTAL_RULES {
            Some(
                DataLayerFault::InvalidInput(
                    "usage policy reservation requires 1 to "@ + text::decimal(
                        MAX_USAGE_POLICY_TOTAL_RULES as nat,
                    ) + " windows"@,
                ),
            )
        } else {
            first_window_fault(self.windows@, 0, self.admitted_at_unix_secs)
        };
        ledger_input::earlier(
            ids,
            ledger_input::earlier(
                ledger_input::range_fault(self.reserved_cost_units, "reserved_cost_units"@),
                rest,
            ),
        )
    }

    /// Checks the request.
    pub fn validate(&self) -> (r: Result<(), DataLayerError>)
        ensures
            error::fails_with(r, self.fault()),
    {
        ledger_input::validate_bounded_id(self.request_id.as_str(), "usage policy request_id")?;
        ledger_input::validate_bounded_id(self.subject_id.as_str(), "usage policy subject_id")?;
        ledger_input::validate_bounded_id(
            self.reservation_token.as_str(),
            "usage policy reservation_token",
        )?;
        ledger_input::validate_cost_units(self.reserved_cost_units, "reserved_cost_units")?;
        if self.reservation_expires_at_unix_secs <= self.admitted_at_unix_secs {
            return Err(
                error::invalid_input("usage policy reservation must expire after admission"),
            );
        }
        if self.retain_until_unix_secs < self.reservation_expires_at_unix_secs {
            return Err(
                error::invalid_input(
                    "usage policy retain_until must not precede reservation expiry",
                ),
            );
        }
        if self.windows.len() == 0 || self.windows.len() > MAX_USAGE_POLICY_TOTAL_RULES {
            return Err(
                DataLayerError::InvalidInput(
                    text::numbered(
                        "usage policy reservation requires 1 to ",
                        MAX_USAGE_POLICY_TOTAL_RULES as u64,
                        " windows",
                    ),
                ),
            );
        }
        let mut index: usize = 0;
        while index < self.windows.len()
            invariant
                index <= self.windows@.len(),
                self.fault() == first_window_fault(
                    self.windows@,
                    index as nat,
                    self.admitted_at_unix_secs,
                ),
            decreases self.windows@.len() - index,
        {
            validate_window(&self.windows, index, self.admitted_at_unix_secs)?;
            index += 1;
        }
        Ok(())
    }
}

/// Where a reservation stands: open, or ended one way or the other.
#[derive(Debug, Clone, Copy, PartialEq, Eq, Structural)]
pub enum UsagePolicyCostReservationState {
    Reserved,
    Finalized,
    Released,
}

impl UsagePolicyCostReservationState {
    /// The name of the state.
    pub open spec fn name(self) -> Seq<char> {
        match self {
            UsagePolicyCostReservationState::Reserved => "reserved"@,
            UsagePolicyCostReservationState::Finalized => "finalized"@,
            UsagePolicyCostReservationState::Released => "released"@,
        }
    }

    /// The name of the state.
    pub fn as_str(self) -> (r: &'static str)
        ensures
            r@ == self.name(),
    {
        match self {
            UsagePolicyCostReservationState::Reserved => "reserved",
            UsagePolicyCostReservationState::Finalized => "finalized",
            UsagePolicyCostReservationState::Released => "released",
        }
    }

    /// The state with a name.
    pub fn parse(value: &str) -> (r: Option<Self>)
        ensures
            match r {
                Some(state) => value@ == state.name(),
                None => forall|state: Self| value@ != #[trigger] state.name(),
            },
    {
        if text::same(value, "reserved") {
            Some(UsagePolicyCostReservationState::Reserved)
        } else if text::same(value, "finalized") {
            Some(UsagePolicyCostReservationState::Finalized)
        } else if text::same(value, "released") {
            Some(UsagePolicyCostReservationState::Released)
        } else {
            None
        }
    }
}

/// What became of a request for a reservation.
#[derive(Debug, Clone, Copy, PartialEq, Eq, Structural)]
pub enum ReserveUsagePolicyCostOutcome {
    Allowed { reserved_cost_units: u64, additional_reserved_cost_units: u64 },
    Rejected { window_index: usize, limit_cost_units: u64, used_cost_units: u64 },
    AlreadyTerminal { state: UsagePolicyCostReservationState },
    Conflict,
}

/// What a request has cost in the end.
#[derive(Debug, Clone, PartialEq, Eq)]
pub struct ReconcileUsagePolicyCostInput {
    pub request_id: String,
    pub subject_id: String,
    pub reservation_token: String,
    pub actual_cost_units: u64,
    pub terminal_state: UsagePolicyCostReservationState,
    pub finalized_at_unix_secs: u64,
}

impl ReconcileUsagePolicyCostInput {
    /// What is wrong with the reconciliation.
    pub open spec fn fault(self) -> Option<DataLayerFault> {
        let ids = ledger_input::earlier(
            ledger_input::id_fault(self.request_id@, "usage policy request_id"@),
            ledger_input::earlier(
                ledger_input::id_fault(self.subject_id@, "usage policy subject_id"@),
                ledger_input::id_fault(self.reservation_token@, "usage policy reservation_token"@),
            ),
        );
        let rest = if self.terminal_state is Reserved {
            Some(
                DataLayerFault::InvalidInput(
                    "usage policy reconciliation requires a terminal state"@,
                ),
            )
        } else if self.terminal_state is Released && self.actual_cost_units != 0 {
            Some(
                DataLayerFault::InvalidInput(
                    "released usage policy reservations must have zero actual cost"@,
                ),
            )
        } else {
            None
        };
        ledger_input::earlier(
            ids,
            ledger_input::earlier(
                ledger_input::range_fault(self.actual_cost_units, "actual_cost_units"@),
                rest,
            ),
        )
    }

    /// Checks the reconciliation.
    pub fn validate(&self) -> (r: Result<(), DataLayerError>)
        ensures
            error::fails_with(r, self.fault()),
    {
        ledger_input::validate_bounded_id(self.request_id.as_str(), "usage policy request_id")?;
        ledger_input::validate_bounded_id(self.subject_id.as_str(), "usage policy subject_id")?;
        ledger_input::validate_bounded_id(
            self.reservation_token.as_str(),
            "usage policy reservation_token",
        )?;
        ledger_input::validate_cost_units(self.actual_cost_units, "actual_cost_units")?;
        match self.terminal_state {
            UsagePolicyCostReservationState::Reserved => Err(
                error::invalid_input("usage policy reconciliation requires a terminal state"),
            ),
            UsagePolicyCostReservationState::Released => {
                if self.actual_cost_units != 0 {
                    return Err(
                        error::invalid_input(
                            "released usage policy reservations must have zero actual cost",
                        ),
                    );
                }
                Ok(())
            },
            UsagePolicyCostReservationState::Finalized => Ok(()),
        }
    }
}

/// A reservation as the ledger keeps it.
#[derive(Debug, PartialEq, Eq)]
pub struct StoredUsagePolicyCostReservation {
    pub request_id: String,
    pub subject_id: String,
    pub reservation_token: String,
    pub admitted_at_unix_secs: u64,
    pub reserved_cost_units: u64,
    pub actual_cost_units: Option<u64>,
    pub state: UsagePolicyCostReservationState,
    pub reservation_expires_at_unix_secs: u64,
    pub retain_until_unix_secs: u64,
    pub finalized_at_unix_secs: Option<u64>,
}

impl Clone for StoredUsagePolicyCostReservation {
    fn clone(&self) -> (r: Self)
        ensures
            r == *self,
    {
        StoredUsagePolicyCostReservation {
            request_id: self.request_id.clone(),
            subject_id: self.subject_id.clone(),
            reservation_token: self.reservation_token.clone(),
            admitted_at_unix_secs: self.admitted_at_unix_secs,
            reserved_cost_units: self.reserved_cost_units,
            actual_cost_units: self.actual_cost_units,
            state: self.state,
            reservation_expires_at_unix_secs: self.reservation_expires_at_unix_secs,
            retain_until_unix_secs: self.retain_until_unix_secs,
            finalized_at_unix_secs: self.finalized_at_unix_secs,
        }
    }
}

impl Retained for StoredUsagePolicyCostReservation {
    open spec fn kept_until(&self) -> u64 {
        self.retain_until_unix_secs
    }

    fn retained_until(&self) -> (r: u64) {
        self.retain_until_unix_secs
    }
}

impl StoredUsagePolicyCostReservation {
    /// The reservation belongs to this request of this subject.
    pub open spec fn belongs_to(self, request_id: Seq<char>, subject_id: Seq<char>) -> bool {
        self.request_id@ == request_id && self.subject_id@ == subject_id
    }

    /// What the reservation stands for at the moment `at`: the reserved units while it is open and
    /// has not expired, the actual units once it is final, else nothing.
    pub open spec fn cost_at(self, at: u64) -> nat {
        match self.state {
            UsagePolicyCostReservationState::Reserved => if self.reservation_expires_at_unix_secs
                > at {
                self.reserved_cost_units as nat
            } else {
                0
            },
            UsagePolicyCostReservationState::Finalized => match self.actual_cost_units {
                Some(units) => units as nat,
                None => 0,
            },
            UsagePolicyCostReservationState::Released => 0,
        }
    }

    /// What the reservation adds for a subject in a window, seen at the moment `at`.
    pub open spec fn counted_cost(
        self,
        subject_id: Seq<char>,
        window: UsagePolicyCostWindow,
        at: u64,
    ) -> nat {
        if self.subject_id@ == subject_id && window.holds(self.admitted_at_unix_secs) {
            self.cost_at(at)
        } else {
            0
        }
    }

    fn cost_units_at(&self, at: u64) -> (r: u64)
        ensures
            r == self.cost_at(at),
    {
        match self.state {
            UsagePolicyCostReservationState::Reserved => {
                if self.reservation_expires_at_unix_secs > at {
                    self.reserved_cost_units
                } else {
                    0
                }
            },
            UsagePolicyCostReservationState::Finalized => match self.actual_cost_units {
                Some(units) => units,
                None => 0,
            },
            UsagePolicyCostReservationState::Released => 0,
        }
    }
}

/// What the reservations of a subject come to in a window, all but the one with a token.
pub open spec fn used_by_others(
    ledger: Entries<StoredUsagePolicyCostReservation>,
    token: Seq<char>,
    subject_id: Seq<char>,
    window: UsagePolicyCostWindow,
    at: u64,
) -> nat
    decreases ledger.len(),
{
    if ledger.len() == 0 {
        0
    } else {
        used_by_others(ledger.drop_first(), token, subject_id, window, at) + if ledger[0].1.reservation_token@
            != token {
            ledger[0].1.counted_cost(subject_id, window, at)
        } else {
            0
        }
    }
}

/// What stands in the way of a reservation.
pub enum Obstacle {
    /// The total of a window is more than a number holds.
    Overflow,
    /// This window has not enough left.
    Full(nat),
}

/// The first window from position `from` on that stands in the way of `units` more.
pub open spec fn first_obstacle(
    ledger: Entries<StoredUsagePolicyCostReservation>,
    input: ReserveUsagePolicyCostInput,
    units: u64,
    from: nat,
) -> Option<Obstacle>
    decreases input.windows@.len() - from,
{
    if from >= input.windows@.len() {
        None
    } else {
        let window = input.windows@[from as int];
        let used = used_by_others(
            ledger,
            input.reservation_token@,
            input.subject_id@,
            window,
            input.admitted_at_unix_secs,
        );
        if used > u64::MAX {
            Some(Obstacle::Overflow)
        } else if used + units > window.limit_cost_units {
            Some(Obstacle::Full(from))
        } else {
            first_obstacle(ledger, input, units, from + 1)
        }
    }
}


/// The units that a reservation holds after a request: never fewer than before.
pub open spec fn target_units(
    existing: Option<StoredUsagePolicyCostReservation>,
    input: ReserveUsagePolicyCostInput,
) -> u64 {
    if existing is Some && existing->0.reserved_cost_units > input.reserved_cost_units {
        existing->0.reserved_cost_units
    } else {
        input.reserved_cost_units
    }
}

/// The reservation that a request leaves in the ledger. A retry never shortens it.
pub open spec fn target_reservation(
    existing: Option<StoredUsagePolicyCostReservation>,
    input: ReserveUsagePolicyCostInput,
) -> StoredUsagePolicyCostReservation {
    StoredUsagePolicyCostReservation {
        request_id: input.request_id,
        subject_id: input.subject_id,
        reservation_token: input.reservation_token,
        admitted_at_unix_secs: input.admitted_at_unix_secs,
        reserved_cost_units: target_units(existing, input),
        actual_cost_units: None,
        state: UsagePolicyCostReservationState::Reserved,
        reservation_expires_at_unix_secs: if existing is Some
            && existing->0.reservation_expires_at_unix_secs
            > input.reservation_expires_at_unix_secs {
            existing->0.reservation_expires_at_unix_secs
        } else {
            input.reservation_expires_at_unix_secs
        },
        retain_until_unix_secs: if existing is Some && existing->0.retain_until_unix_secs
            > input.retain_until_unix_secs {
            existing->0.retain_until_unix_secs
        } else {
            input.retain_until_unix_secs
        },
        finalized_at_unix_secs: None,
    }
}

/// What answers a request before its windows are looked at.
pub open spec fn early_answer(
    existing: Option<StoredUsagePolicyCostReservation>,
    input: ReserveUsagePolicyCostInput,
) -> Option<Result<ReserveUsagePolicyCostOutcome, DataLayerFault>> {
    if input.fault() is Some {
        Some(Err(input.fault()->0))
    } else if existing is None {
        None
    } else if !existing->0.belongs_to(input.request_id@, input.subject_id@) {
        Some(Ok(ReserveUsagePolicyCostOutcome::Conflict))
    } else if !(existing->0.state is Reserved) {
        Some(Ok(ReserveUsagePolicyCostOutcome::AlreadyTerminal { state: existing->0.state }))
    } else if existing->0.admitted_at_unix_secs != input.admitted_at_unix_secs {
        Some(
            Err(
                DataLayerFault::InvalidInput(
                    "usage policy reservation_token must keep its original admitted_at"@,
                ),
            ),
        )
    } else {
        None
    }
}

/// What a request for a reservation comes to, and the ledger after it.
pub open spec fn reserved(
    ledger: Entries<StoredUsagePolicyCostReservation>,
    input: ReserveUsagePolicyCostInput,
) -> (
    Result<ReserveUsagePolicyCostOutcome, DataLayerFault>,
    Entries<StoredUsagePolicyCostReservation>,
) {
    let token = input.reservation_token@;
    let existing = token_map::lookup(ledger, token);
    let units = target_units(existing, input);
    if early_answer(existing, input) is Some {
        (early_answer(existing, input)->0, ledger)
    } else {
        match first_obstacle(ledger, input, units, 0) {
            Some(Obstacle::Overflow) => (
                Err(DataLayerFault::UnexpectedValue("usage policy cost total overflowed"@)),
                ledger,
            ),
            Some(Obstacle::Full(full)) => (
                Ok(
                    ReserveUsagePolicyCostOutcome::Rejected {
                        window_index: full as usize,
                        limit_cost_units: input.windows@[full as int].limit_cost_units,
                        used_cost_units: used_by_others(
                            ledger,
                            token,
                            input.subject_id@,
                            input.windows@[full as int],
                            input.admitted_at_unix_secs,
                        ) as u64,
                    },
                ),
                ledger,
            ),
            None => (
                Ok(
                    ReserveUsagePolicyCostOutcome::Allowed {
                        reserved_cost_units: units,
                        additional_reserved_cost_units: match existing {
                            Some(reservation) => (units - reservation.reserved_cost_units) as u64,
                            None => units,
                        },
                    },
                ),
                token_map::put(ledger, token, target_reservation(existing, input)),
            ),
        }
    }
}

/// What a reconciliation comes to, and the ledger after it. Only an open reservation of the same
/// request and subject changes.
pub open spec fn reconciled(
    ledger: Entries<StoredUsagePolicyCostReservation>,
    input: ReconcileUsagePolicyCostInput,
) -> (
    Result<Option<StoredUsagePolicyCostReservation>, DataLayerFault>,
    Entries<StoredUsagePolicyCostReservation>,
) {
    if input.fault() is Some {
        (Err(input.fault()->0), ledger)
    } else {
        match token_map::lookup(ledger, input.reservation_token@) {
            None => (Ok(None), ledger),
            Some(existing) => {
                if !existing.belongs_to(input.request_id@, input.subject_id@) {
                    (Ok(None), ledger)
                } else if existing.state is Reserved {
                    let after = StoredUsagePolicyCostReservation {
                        state: input.terminal_state,
                        actual_cost_units: Some(input.actual_cost_units),
                        finalized_at_unix_secs: Some(input.finalized_at_unix_secs),
                        ..existing
                    };
                    (Ok(Some(after)), token_map::put(ledger, input.reservation_token@, after))
                } else {
                    (Ok(Some(existing)), ledger)
                }
            },
        }
    }
}

/// Every reservation stands under its own token.
pub open spec fn under_own_token(ledger: Entries<StoredUsagePolicyCostReservation>) -> bool {
    forall|i: int| 0 <= i < ledger.len() ==> #[trigger] ledger[i].1.reservation_token@ == ledger[i].0
}

/// A reservation that is stored under its own token keeps the others under theirs.
proof fn lemma_put_under_own_token(
    ledger: Entries<StoredUsagePolicyCostReservation>,
    token: Seq<char>,
    reservation: StoredUsagePolicyCostReservation,
)
    requires
        under_own_token(ledger),
        reservation.reservation_token@ == token,
    ensures
        under_own_token(token_map::put(ledger, token, reservation)),
    decreases ledger.len(),
{
    if ledger.len() > 0 {
        let rest = ledger.drop_first();
        assert forall|i: int| 0 <= i < rest.len() implies #[trigger] rest[i].1.reservation_token@
            == rest[i].0 by {
            assert(ledger[i + 1].1.reservation_token@ == ledger[i + 1].0);
        }
        lemma_put_under_own_token(rest, token, reservation);
    }
}

proof fn lemma_lookup_under_own_token(
    ledger: Entries<StoredUsagePolicyCostReservation>,
    token: Seq<char>,
)
    requires
        under_own_token(ledger),
    ensures
        token_map::lookup(ledger, token) matches Some(reservation)
            ==> reservation.reservation_token@ == token,
    decreases ledger.len(),
{
    if ledger.len() > 0 {
        let rest = ledger.drop_first();
        assert forall|i: int| 0 <= i < rest.len() implies #[trigger] rest[i].1.reservation_token@
            == rest[i].0 by {
            assert(ledger[i + 1].1.reservation_token@ == ledger[i + 1].0);
        }
        assert(ledger[0].1.reservation_token@ == ledger[0].0);
        lemma_lookup_under_own_token(rest, token);
    }
}

proof fn lemma_swept_under_own_token(
    ledger: Entries<StoredUsagePolicyCostReservation>,
    now: u64,
    limit: nat,
)
    requires
        under_own_token(ledger),
    ensures
        under_own_token(retention::swept(ledger, now, limit)),
    decreases ledger.len(),
{
    if ledger.len() > 0 && limit > 0 {
        let rest = ledger.drop_first();
        assert forall|i: int| 0 <= i < rest.len() implies #[trigger] rest[i].1.reservation_token@
            == rest[i].0 by {
            assert(ledger[i + 1].1.reservation_token@ == ledger[i + 1].0);
        }
        if ledger[0].1.kept_until() <= now {
            lemma_swept_under_own_token(rest, now, (limit - 1) as nat);
        } else {
            lemma_swept_under_own_token(rest, now, limit);
        }
    }
}

/// The ledger of reserved and spent cost, by the token of each reservation.
#[derive(Debug)]
pub struct CostLedger {
    reservations: TokenMap<StoredUsagePolicyCostReservation>,
}

impl View for CostLedger {
    type V = Entries<StoredUsagePolicyCostReservation>;

    closed spec fn view(&self) -> Entries<StoredUsagePolicyCostReservation> {
        self.reservations@
    }
}

impl CostLedger {
    /// The tokens are in order, each there once, and each reservation stands under its own.
    pub open spec fn wf(&self) -> bool {
        token_map::in_key_order(self@) && under_own_token(self@)
    }

    /// A ledger without reservations.
    pub fn new() -> (r: Self)
        ensures
            r.wf(),
            r@ == Entries::<StoredUsagePolicyCostReservation>::empty(),
    {
        CostLedger { reservations: TokenMap::new() }
    }

    /// The reservation with a token.
    pub fn get(&self, reservation_token: &str) -> (r: Option<&StoredUsagePolicyCostReservation>)
        requires
            self.wf(),
        ensures
            match r {
                Some(reservation) => token_map::lookup(self@, reservation_token@) == Some(
                    *reservation,
                ),
                None => token_map::lookup(self@, reservation_token@) is None,
            },
    {
        self.reservations.get(reservation_token)
    }

    fn sum_used_by_others(
        &self,
        token: &str,
        subject_id: &str,
        window: &UsagePolicyCostWindow,
        at: u64,
    ) -> (r: Option<u64>)
        ensures
            match r {
                Some(used) => used == used_by_others(self@, token@, subject_id@, *window, at),
                None => used_by_others(self@, token@, subject_id@, *window, at) > u64::MAX,
            },
    {
        let mut used: u64 = 0;
        let mut i: usize = 0;
        assert(self@.skip(0) =~= self@);
        while i < self.reservations.len()
            invariant
                i <= self@.len(),
                self@ == self.reservations@,
                used + used_by_others(self@.skip(i as int), token@, subject_id@, *window, at)
                    == used_by_others(self@, token@, subject_id@, *window, at),
            decreases self@.len() - i,
        {
            assert(self@.skip(i as int).drop_first() =~= self@.skip(i + 1));
            let reservation = self.reservations.value_at(i);
            if !text::same(reservation.reservation_token.as_str(), token) && text::same(
                reservation.subject_id.as_str(),
                subject_id,
            ) && reservation.admitted_at_unix_secs >= window.starts_at_unix_secs
                && reservation.admitted_at_unix_secs < window.ends_at_unix_secs {
                match used.checked_add(reservation.cost_units_at(at)) {
                    Some(total) => {
                        used = total;
                    },
                    None => {
                        return None;
                    },
                }
            }
            i += 1;
        }
        Some(used)
    }

    /// Reserves cost where every window has enough left for it.
    pub fn reserve(&mut self, input: ReserveUsagePolicyCostInput) -> (r: Result<
        ReserveUsagePolicyCostOutcome,
        DataLayerError,
    >)
        requires
            old(self).wf(),
        ensures
            final(self).wf(),
            error::is_outcome(r, reserved(old(self)@, input).0),
            final(self)@ == reserved(old(self)@, input).1,
    {
        input.validate()?;
        let ghost existing = token_map::lookup(self@, input.reservation_token@);
        let mut units: u64 = input.reserved_cost_units;
        let mut expires_at: u64 = input.reservation_expires_at_unix_secs;
        let mut retain_until: u64 = input.retain_until_unix_secs;
        let mut previous: u64 = 0;
        if let Some(existing) = self.reservations.get(input.reservation_token.as_str()) {
            if !text::same(existing.request_id.as_str(), input.request_id.as_str()) || !text::same(
                existing.subject_id.as_str(),
                input.subject_id.as_str(),
            ) {
                return Ok(ReserveUsagePolicyCostOutcome::Conflict);
            }
            if existing.state != UsagePolicyCostReservationState::Reserved {
                return Ok(ReserveUsagePolicyCostOutcome::AlreadyTerminal { state: existing.state });
            }
            if existing.admitted_at_unix_secs != input.admitted_at_unix_secs {
                return Err(
                    error::invalid_input(
                        "usage policy reservation_token must keep its original admitted_at",
                    ),
                );
            }
            previous = existing.reserved_cost_units;
            if existing.reserved_cost_units > units {
                units = existing.reserved_cost_units;
            }
            if existing.reservation_expires_at_unix_secs > expires_at {
                expires_at = existing.reservation_expires_at_unix_secs;
            }
            if existing.retain_until_unix_secs > retain_until {
                retain_until = existing.retain_until_unix_secs;
            }
        }
        assert(early_answer(existing, input) is None);
        let mut index: usize = 0;
        while index < input.windows.len()
            invariant
                self@ == old(self)@,
                self.wf(),
                existing == token_map::lookup(self@, input.reservation_token@),
                early_answer(existing, input) is None,
                units == target_units(existing, input),
                index <= input.windows@.len(),
                first_obstacle(self@, input, units, 0) == first_obstacle(
                    self@,
                    input,
                    units,
                    index as nat,
                ),
            decreases input.windows@.len() - index,
        {
            let window = &input.windows[index];
            let used_cost_units = match self.sum_used_by_others(
                input.reservation_token.as_str(),
                input.subject_id.as_str(),
                window,
                input.admitted_at_unix_secs,
            ) {
                Some(used) => used,
                None => {
                    return Err(
                        DataLayerError::UnexpectedValue(
                            "usage policy cost total overflowed".to_string(),
                        ),
                    );
                },
            };
            let fits = match used_cost_units.checked_add(units) {
                Some(total) => total <= window.limit_cost_units,
                None => false,
            };
            if !fits {
                return Ok(
                    ReserveUsagePolicyCostOutcome::Rejected {
                        window_index: index,
                        limit_cost_units: window.limit_cost_units,
                        used_cost_units,
                    },
                );
            }
            index += 1;
        }
        let token = input.reservation_token.clone();
        proof {
            lemma_put_under_own_token(
                self@,
                input.reservation_token@,
                target_reservation(existing, input),
            );
        }
        self.reservations.insert(
            token,
            StoredUsagePolicyCostReservation {
                request_id: input.request_id,
                subject_id: input.subject_id,
                reservation_token: input.reservation_token,
                admitted_at_unix_secs: input.admitted_at_unix_secs,
                reserved_cost_units: units,
                actual_cost_units: None,
                state: UsagePolicyCostReservationState::Reserved,
                reservation_expires_at_unix_secs: expires_at,
                retain_until_unix_secs: retain_until,
                finalized_at_unix_secs: None,
            },
        );
        Ok(
            ReserveUsagePolicyCostOutcome::Allowed {
                reserved_cost_units: units,
                additional_reserved_cost_units: units - previous,
            },
        )
    }

    /// Ends a reservation with what was spent. The token alone selects the reservation; one that
    /// belongs to another request or subject is left alone.
    pub fn reconcile(&mut self, input: ReconcileUsagePolicyCostInput) -> (r: Result<
        Option<StoredUsagePolicyCostReservation>,
        DataLayerError,
    >)
        requires
            old(self).wf(),
        ensures
            final(self).wf(),
            error::is_outcome(r, reconciled(old(self)@, input).0),
            final(self)@ == reconciled(old(self)@, input).1,
    {
        input.validate()?;
        let mut reservation = match self.reservations.get(input.reservation_token.as_str()) {
            None => return Ok(None),
            Some(reservation) => reservation.clone(),
        };
        if !text::same(reservation.request_id.as_str(), input.request_id.as_str()) || !text::same(
            reservation.subject_id.as_str(),
            input.subject_id.as_str(),
        ) {
            return Ok(None);
        }
        if reservation.state == UsagePolicyCostReservationState::Reserved {
            reservation.state = input.terminal_state;
            reservation.actual_cost_units = Some(input.actual_cost_units);
            reservation.finalized_at_unix_secs = Some(input.finalized_at_unix_secs);
            proof {
                lemma_lookup_under_own_token(self@, input.reservation_token@);
                lemma_put_under_own_token(self@, input.reservation_token@, reservation);
            }
            self.reservations.insert(input.reservation_token, reservation.clone());
        }
        Ok(Some(reservation))
    }

    /// Takes out up to `batch_size` reservations that are not to be kept any longer.
    pub fn cleanup(&mut self, now_unix_secs: u64, batch_size: usize) -> (r: usize)
        requires
            old(self).wf(),
        ensures
            final(self).wf(),
            final(self)@ == retention::swept(old(self)@, now_unix_secs, batch_size as nat),
            r == old(self)@.len() - final(self)@.len(),
    {
        proof {
            lemma_swept_under_own_token(self@, now_unix_secs, batch_size as nat);
        }
        retention::sweep(&mut self.reservations, now_unix_secs, batch_size)
    }
}

} // verus!
