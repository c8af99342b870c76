//! Cleaning up usage records and ledgers: what is cleaned, up to when, and in how many rounds.

use vstd::prelude::*;

verus! {

/// How far back a cleanup goes.
#[derive(Debug, Clone, Copy, PartialEq, Eq, Structural)]
pub enum ManualUsageCleanupMode {
    Policy,
    OlderThanDays,
    BeforeNow,
}

impl ManualUsageCleanupMode {
    /// The name of the mode.
    pub open spec fn name(self) -> &'static str {
        match self {
            ManualUsageCleanupMode::Policy => "policy",
            ManualUsageCleanupMode::OlderThanDays => "older_than_days",
            ManualUsageCleanupMode::BeforeNow => "before_now",
        }
    }

    /// The name of the mode.
    pub fn as_str(self) -> (r: &'static str)
        ensures
            r == self.name(),
    {
        match self {
            ManualUsageCleanupMode::Policy => "policy",
            ManualUsageCleanupMode::OlderThanDays => "older_than_days",
            ManualUsageCleanupMode::BeforeNow => "before_now",
        }
    }
}

/// What is cleaned up, and how far back. `T` says which records are meant.
#[derive(Debug, Clone, Copy, PartialEq, Eq)]
pub struct ManualUsageCleanupOptions<T> {
    pub mode: ManualUsageCleanupMode,
    pub requested_older_than_days: Option<u32>,
    pub targets: T,
}

impl<T> ManualUsageCleanupOptions<T> {
    /// A cleanup of all that the policy means.
    pub fn policy(all_policy_targets: T) -> (r: Self)
        ensures
            r == (ManualUsageCleanupOptions {
                mode: ManualUsageCleanupMode::Policy,
                requested_older_than_days: None,
                targets: all_policy_targets,
            }),
    {
        ManualUsageCleanupOptions {
            mode: ManualUsageCleanupMode::Policy,
            requested_older_than_days: None,
            targets: all_policy_targets,
        }
    }

    /// A cleanup of all that the policy means; with another age of its own, where one is given.
    pub fn with_override(has_override: bool, all_policy_targets: T) -> (r: Self)
        ensures
            r == (ManualUsageCleanupOptions {
                mode: if has_override {
                    ManualUsageCleanupMode::OlderThanDays
                } else {
                    ManualUsageCleanupMode::Policy
                },
                requested_older_than_days: None,
                targets: all_policy_targets,
            }),
    {
        ManualUsageCleanupOptions {
            mode: if has_override {
                ManualUsageCleanupMode::OlderThanDays
            } else {
                ManualUsageCleanupMode::Policy
            },
            requested_older_than_days: None,
            targets: all_policy_targets,
        }
    }
}

/// How records are cleaned.
#[derive(Debug, Clone, Copy, PartialEq, Eq, Structural)]
pub enum UsageCleanupExecutionMode {
    Policy,
    BeforeNowBodyFields,
}

/// How the records of a mode are cleaned.
pub fn cleanup_execution_mode(mode: ManualUsageCleanupMode) -> (r: UsageCleanupExecutionMode)
    ensures
        r is BeforeNowBodyFields <==> mode is BeforeNow,
{
    match mode {
        ManualUsageCleanupMode::BeforeNow => UsageCleanupExecutionMode::BeforeNowBodyFields,
        ManualUsageCleanupMode::Policy | ManualUsageCleanupMode::OlderThanDays =>
            UsageCleanupExecutionMode::Policy,
    }
}

/// A moment: the seconds since 1970, and the nanoseconds of the second that has begun. In a leap
/// second there are more of them than a second has.
#[derive(Debug, Clone, Copy, PartialEq, Eq, Structural)]
pub struct Moment {
    pub unix_secs: i64,
    pub nanos: u32,
}

/// Up to when each kind of record is cleaned.
#[derive(Debug, Clone, Copy, PartialEq, Eq, Structural)]
pub struct UsageCleanupWindow {
    pub detail_cutoff: Moment,
    pub compressed_cutoff: Moment,
    pub header_cutoff: Moment,
    pub log_cutoff: Moment,
}

/// Up to when each kind of record is cleaned in a mode: what the policy says, what an age of its own
/// says, or everything before now.
pub fn usage_cleanup_window_for_mode(
    now: Moment,
    mode: ManualUsageCleanupMode,
    policy_window: UsageCleanupWindow,
    override_window: UsageCleanupWindow,
) -> (r: UsageCleanupWindow)
    ensures
        r == match mode {
            ManualUsageCleanupMode::Policy => policy_window,
            ManualUsageCleanupMode::OlderThanDays => override_window,
            ManualUsageCleanupMode::BeforeNow => UsageCleanupWindow {
                detail_cutoff: now,
                compressed_cutoff: now,
                header_cutoff: now,
                log_cutoff: now,
            },
        },
{
    match mode {
        ManualUsageCleanupMode::Policy => policy_window,
        ManualUsageCleanupMode::OlderThanDays => override_window,
        ManualUsageCleanupMode::BeforeNow => UsageCleanupWindow {
            detail_cutoff: now,
            compressed_cutoff: now,
            header_cutoff: now,
            log_cutoff: now,
        },
    }
}

/// How many records of each kind a cleanup would take.
#[derive(Debug, Clone, Copy, PartialEq, Eq, Structural)]
pub struct UsageCleanupCounts {
    pub detail: u64,
    pub compressed: u64,
    pub header: u64,
    pub log: u64,
}

/// What a cleanup would do.
#[derive(Debug, Clone, Copy, PartialEq, Eq)]
pub struct ManualUsageCleanupPreview<T> {
    pub detail_cutoff: Moment,
    pub compressed_cutoff: Moment,
    pub header_cutoff: Moment,
    pub log_cutoff: Moment,
    pub mode: ManualUsageCleanupMode,
    pub targets: T,
    pub requested_older_than_days: Option<u32>,
    pub detail_count: u64,
    pub compressed_count: u64,
    pub header_count: u64,
    pub log_count: u64,
}

/// What a cleanup would do.
pub fn preview_manual_usage_cleanup<T>(
    window: UsageCleanupWindow,
    options: ManualUsageCleanupOptions<T>,
    counts: UsageCleanupCounts,
) -> (r: ManualUsageCleanupPreview<T>)
    ensures
        r == (ManualUsageCleanupPreview {
            detail_cutoff: window.detail_cutoff,
            compressed_cutoff: window.compressed_cutoff,
            header_cutoff: window.header_cutoff,
            log_cutoff: window.log_cutoff,
            mode: options.mode,
            targets: options.targets,
            requested_older_than_days: options.requested_older_than_days,
            detail_count: counts.detail,
            compressed_count: counts.compressed,
            header_count: counts.header,
            log_count: counts.log,
        }),
{
    ManualUsageCleanupPreview {
        detail_cutoff: window.detail_cutoff,
        compressed_cutoff: window.compressed_cutoff,
        header_cutoff: window.header_cutoff,
        log_cutoff: window.log_cutoff,
        mode: options.mode,
        targets: options.targets,
        requested_older_than_days: options.requested_older_than_days,
        detail_count: counts.detail,
        compressed_count: counts.compressed,
        header_count: counts.header,
        log_count: counts.log,
    }
}

/// Whether a cleanup runs.
#[derive(Debug, Clone, Copy, PartialEq, Eq, Structural)]
pub enum CleanupGate {
    /// There is nothing to do.
    Skip,
    /// It depends on whether automatic cleanup is switched on.
    AskAutoCleanup,
    /// The cleanup runs.
    Run,
}

/// Whether a cleanup runs: not without a writer, and, unless it has an age of its own or was asked
/// for by hand, only where automatic cleanup is switched on.
pub fn usage_cleanup_gate(
    has_usage_writer: bool,
    respect_auto_enabled: bool,
    has_override: bool,
) -> (r: CleanupGate)
    ensures
        r == if !has_usage_writer {
            CleanupGate::Skip
        } else if respect_auto_enabled && !has_override {
            CleanupGate::AskAutoCleanup
        } else {
            CleanupGate::Run
        },
{
    if !has_usage_writer {
        CleanupGate::Skip
    } else if respect_auto_enabled && !has_override {
        CleanupGate::AskAutoCleanup
    } else {
        CleanupGate::Run
    }
}

/// How many rounds a cleanup of one ledger takes at most. That bounds a run, and still drains more
/// than a day adds.
pub const MAX_LEDGER_CLEANUP_ROUNDS: u64 = 32;

/// What the cleanup of the ledgers does next.
#[derive(Debug, Clone, Copy, PartialEq, Eq, Structural)]
pub enum LedgerCleanupAction {
    CleanCostReservations,
    CleanRequestAdmissions,
    Done,
}

/// A cleanup of the ledgers: first the reservations, then the admissions, each in rounds of
/// `batch_size`.
#[derive(Debug, Clone, Copy, PartialEq, Eq, Structural)]
pub struct LedgerCleanup {
    pub batch_size: usize,
    pub action: LedgerCleanupAction,
    /// The rounds that the ledger in turn has had.
    pub rounds: u64,
    pub cost_reservations_deleted: usize,
    pub request_admissions_deleted: usize,
}

/// `a` and `b` together, but not more than a number holds.
pub open spec fn more(a: usize, b: usize) -> usize {
    if a + b > usize::MAX {
        usize::MAX
    } else {
        (a + b) as usize
    }
}

impl LedgerCleanup {
    /// The ledger in turn has had fewer rounds than it may have.
    pub open spec fn wf(self) -> bool {
        self.rounds < MAX_LEDGER_CLEANUP_ROUNDS && self.batch_size > 0
    }

    /// A cleanup with rounds of a size, at least one. The totals go on from those of before.
    pub fn new(
        has_settlement_writer: bool,
        batch_size: usize,
        cost_reservations_deleted: usize,
        request_admissions_deleted: usize,
    ) -> (r: Self)
        ensures
            r.wf(),
            r.batch_size == if batch_size == 0 {
                1
            } else {
                batch_size
            },
            r.action == if has_settlement_writer {
                LedgerCleanupAction::CleanCostReservations
            } else {
                LedgerCleanupAction::Done
            },
            r.rounds == 0,
            r.cost_reservations_deleted == cost_reservations_deleted,
            r.request_admissions_deleted == request_admissions_deleted,
    {
        LedgerCleanup {
            batch_size: if batch_size == 0 {
                1
            } else {
                batch_size
            },
            action: if has_settlement_writer {
                LedgerCleanupAction::CleanCostReservations
            } else {
                LedgerCleanupAction::Done
            },
            rounds: 0,
            cost_reservations_deleted,
            request_admissions_deleted,
        }
    }

    /// The ledger in turn is done with after a round: nothing is left, or it had all its rounds.
    pub open spec fn turn_ends(self, deleted: usize) -> bool {
        deleted < self.batch_size || self.rounds + 1 >= MAX_LEDGER_CLEANUP_ROUNDS
    }

    /// The cleanup after a round that took out `deleted` records.
    pub open spec fn after_round(self, deleted: usize) -> LedgerCleanup {
        let (action, rounds) = if !self.turn_ends(deleted) {
            (self.action, (self.rounds + 1) as u64)
        } else if self.action is CleanCostReservations {
            (LedgerCleanupAction::CleanRequestAdmissions, 0u64)
        } else {
            (LedgerCleanupAction::Done, 0u64)
        };
        LedgerCleanup {
            batch_size: self.batch_size,
            action,
            rounds,
            cost_reservations_deleted: if self.action is CleanCostReservations {
                more(self.cost_reservations_deleted, deleted)
            } else {
                self.cost_reservations_deleted
            },
            request_admissions_deleted: if self.action is CleanRequestAdmissions {
                more(self.request_admissions_deleted, deleted)
            } else {
                self.request_admissions_deleted
            },
        }
    }

    /// Takes in how many records a round took out, and moves on.
    pub fn on_round(&mut self, deleted: usize)
        requires
            old(self).wf(),
            !(old(self).action is Done),
        ensures
            final(self).wf(),
            *final(self) == old(self).after_round(deleted),
    {
        let ends = deleted < self.batch_size || self.rounds + 1 >= MAX_LEDGER_CLEANUP_ROUNDS;
        match self.action {
            LedgerCleanupAction::CleanCostReservations => {
                self.cost_reservations_deleted = self.cost_reservations_deleted.saturating_add(
                    deleted,
                );
                if ends {
                    self.action = LedgerCleanupAction::CleanRequestAdmissions;
                }
            },
            _ => {
                self.request_admissions_deleted = self.request_admissions_deleted.saturating_add(
                    deleted,
                );
                if ends {
                    self.action = LedgerCleanupAction::Done;
                }
            },
        }
        if ends {
            self.rounds = 0;
        } else {
            self.rounds = self.rounds + 1;
        }
    }

    /// How many rounds may still come.
    pub open spec fn rounds_left(self) -> int {
        match self.action {
            LedgerCleanupAction::CleanCostReservations => 2 * MAX_LEDGER_CLEANUP_ROUNDS
                - self.rounds,
            LedgerCleanupAction::CleanRequestAdmissions => MAX_LEDGER_CLEANUP_ROUNDS - self.rounds,
            LedgerCleanupAction::Done => 0,
        }
    }
}

/// Every round brings a cleanup closer to its end, so that it has at most sixty-four, and the totals
/// never shrink.
pub proof fn a_cleanup_ends(cleanup: LedgerCleanup, deleted: usize)
    requires
        cleanup.wf(),
        !(cleanup.action is Done),
    ensures
        0 <= cleanup.after_round(deleted).rounds_left() < cleanup.rounds_left()
            <= 2 * MAX_LEDGER_CLEANUP_ROUNDS,
        cleanup.after_round(deleted).cost_reservations_deleted >= cleanup.cost_reservations_deleted,
        cleanup.after_round(deleted).request_admissions_deleted
            >= cleanup.request_admissions_deleted,
        cleanup.action is CleanRequestAdmissions ==> !(cleanup.after_round(deleted).action
            is CleanCostReservations),
{
}

} // verus!
