//! Admitting a request under the policy of a user: which of the permit, the short windows and the
//! long windows is asked next, and what an answer means.

use crate::effective_policy::{EffectivePlanUsagePolicy, EffectiveRequestRule};
use crate::error;
use crate::error::{GatewayError, GatewayFault, RuntimeSemaphoreError};
use crate::plan_usage_policy;
use crate::plan_usage_policy::COST_RESERVATION_SAFE_HISTORY_SECS;
use crate::plan_windows;
use crate::plan_windows::{
    Counter, DurableRequestRule, PlanUsageAdmissionError, PlanUsagePolicyRejection, PolicyLimit,
    RuntimeRequestRule,
};
use crate::request_ledger::{
    ReserveUsagePolicyRequestInput, ReserveUsagePolicyRequestOutcome, UsagePolicyRequestWindow,
};
use crate::text;
use vstd::prelude::*;
use vstd::string::*;

verus! {

/// Name of the limiter that hands out the permits of plans.
pub const CONCURRENCY_GATE: &'static str = "plan_usage_concurrency";

/// What the runtime state says of the short windows.
#[derive(Debug, Clone, Copy, PartialEq, Eq, Structural)]
pub enum UsageLimitCheck {
    Allowed,
    Rejected { rule_index: usize, limit: u64, retry_after: u64 },
}

/// What an admission waits for.
#[derive(Debug, Clone, Copy, PartialEq, Eq, Structural)]
pub enum AdmissionStage {
    /// The admission has not begun.
    Start,
    /// A permit.
    Permit,
    /// The short windows in the runtime state.
    ShortWindows,
    /// The long windows in the ledger.
    LongWindows,
    /// Nothing more.
    Done,
}

/// What happened.
#[derive(Debug)]
pub enum AdmissionEvent {
    /// The request arrived.
    Begin,
    /// The limiter gave a permit, or none.
    Permit(Result<(), RuntimeSemaphoreError>),
    /// The runtime state counted the request in the short windows or not, or failed with a text.
    ShortWindows(Result<UsageLimitCheck, String>),
    /// The ledger answered, if there is one, or failed with a text.
    LongWindows(Result<Option<ReserveUsagePolicyRequestOutcome>, String>),
}

/// What is to be done next.
#[derive(Debug)]
pub enum AdmissionAction {
    /// Take one of so many permits that there are under a key.
    AcquirePermit { key: String, limit: usize },
    /// Count the request in the short windows.
    ConsumeShortWindows,
    /// Ask the ledger to count the request in the long windows.
    ReserveLongWindows(ReserveUsagePolicyRequestInput),
    /// Let the request in, with the permit that was taken, if any.
    Admit,
    /// Turn the request away, and give the permit back.
    Refuse(PlanUsageAdmissionError),
    /// Take the request out of the short windows again, for this reason; then turn it away.
    ReleaseAndRefuse { reason: &'static str, error: PlanUsageAdmissionError },
}

/// The counters of the short windows from position `from` on, behind those found before.
pub open spec fn short_counters(
    user_id: Seq<char>,
    rules: Seq<EffectiveRequestRule>,
    from: nat,
    found: Seq<Counter>,
    now: u64,
    app_timezone: Option<Seq<char>>,
) -> Result<Seq<Counter>, GatewayFault>
    decreases rules.len() - from,
{
    if from >= rules.len() {
        Ok(found)
    } else if !plan_windows::is_short(rules[from as int].window) {
        short_counters(user_id, rules, from + 1, found, now, app_timezone)
    } else {
        match plan_windows::counter(user_id, rules[from as int], now, app_timezone) {
            Ok(c) => short_counters(user_id, rules, from + 1, found.push(c), now, app_timezone),
            Err(fault) => Err(fault),
        }
    }
}

/// The long windows from position `from` on, behind those found before.
pub open spec fn long_windows(
    rules: Seq<EffectiveRequestRule>,
    from: nat,
    found: Seq<DurableRequestRule>,
    now: u64,
    app_timezone: Option<Seq<char>>,
) -> Result<Seq<DurableRequestRule>, GatewayFault>
    decreases rules.len() - from,
{
    if from >= rules.len() {
        Ok(found)
    } else if plan_windows::is_short(rules[from as int].window) {
        long_windows(rules, from + 1, found, now, app_timezone)
    } else {
        let rule = rules[from as int];
        match plan_windows::placement(rule.window, rule.entitlement_period, now, app_timezone) {
            Ok(p) => long_windows(
                rules,
                from + 1,
                found.push(plan_windows::durable_of(rule, now, p)),
                now,
                app_timezone,
            ),
            Err(fault) => Err(fault),
        }
    }
}

/// Counters by their texts and numbers.
pub open spec fn counters(rules: Seq<RuntimeRequestRule>) -> Seq<Counter> {
    Seq::new(rules.len(), |i: int| rules[i]@)
}

/// All windows of the policy can be placed at a moment.
pub open spec fn all_placeable(rules: Seq<EffectiveRequestRule>, now: u64) -> bool {
    forall|i: int|
        0 <= i < rules.len() ==> plan_windows::placeable((#[trigger] rules[i]).window, now)
}

/// The counters of the short windows of a policy.
pub fn compile_short_windows(
    user_id: &str,
    rules: &Vec<EffectiveRequestRule>,
    now_unix_secs: u64,
    app_timezone: Option<&str>,
) -> (r: Result<Vec<RuntimeRequestRule>, PlanUsageAdmissionError>)
    requires
        all_placeable(rules@, now_unix_secs),
    ensures
        match short_counters(
            user_id@,
            rules@,
            0,
            Seq::empty(),
            now_unix_secs,
            text::opt_view(app_timezone),
        ) {
            Ok(found) => r is Ok && counters(r->Ok_0@) == found,
            Err(fault) => plan_windows::gateway_fails(r, fault),
        },
{
    let ghost zone = text::opt_view(app_timezone);
    let ghost expected = short_counters(
        user_id@,
        rules@,
        0,
        Seq::empty(),
        now_unix_secs,
        zone,
    );
    let mut found: Vec<RuntimeRequestRule> = Vec::new();
    let mut at: usize = 0;
    assert(counters(found@) =~= Seq::empty());
    while at < rules.len()
        invariant
            all_placeable(rules@, now_unix_secs),
            zone == text::opt_view(app_timezone),
            at <= rules@.len(),
            expected == short_counters(
                user_id@,
                rules@,
                0,
                Seq::empty(),
                now_unix_secs,
                zone,
            ),
            expected == short_counters(
                user_id@,
                rules@,
                at as nat,
                counters(found@),
                now_unix_secs,
                zone,
            ),
        decreases rules@.len() - at,
    {
        if plan_windows::request_rule_uses_runtime_state(&rules[at]) {
            let ghost before = counters(found@);
            let rule = plan_windows::runtime_request_rule(
                user_id,
                &rules[at],
                now_unix_secs,
                app_timezone,
            )?;
            let ghost c = rule@;
            found.push(rule);
            assert(counters(found@) =~= before.push(c));
        }
        at += 1;
    }
    Ok(found)
}

/// The long windows of a policy.
pub fn compile_long_windows(
    rules: &Vec<EffectiveRequestRule>,
    now_unix_secs: u64,
    app_timezone: Option<&str>,
) -> (r: Result<Vec<DurableRequestRule>, PlanUsageAdmissionError>)
    requires
        all_placeable(rules@, now_unix_secs),
    ensures
        match long_windows(
            rules@,
            0,
            Seq::empty(),
            now_unix_secs,
            text::opt_view(app_timezone),
        ) {
            Ok(found) => r is Ok && r->Ok_0@ == found,
            Err(fault) => plan_windows::gateway_fails(r, fault),
        },
{
    let ghost zone = text::opt_view(app_timezone);
    let ghost expected = long_windows(rules@, 0, Seq::empty(), now_unix_secs, zone);
    let mut found: Vec<DurableRequestRule> = Vec::new();
    let mut at: usize = 0;
    while at < rules.len()
        invariant
            all_placeable(rules@, now_unix_secs),
            zone == text::opt_view(app_timezone),
            at <= rules@.len(),
            expected == long_windows(rules@, 0, Seq::empty(), now_unix_secs, zone),
            expected == long_windows(rules@, at as nat, found@, now_unix_secs, zone),
        decreases rules@.len() - at,
    {
        if !plan_windows::request_rule_uses_runtime_state(&rules[at]) {
            let rule = plan_windows::durable_request_rule(
                &rules[at],
                now_unix_secs,
                app_timezone,
            )?;
            found.push(rule);
        }
        at += 1;
    }
    Ok(found)
}

/// The latest of a moment and the ends of influence of the first `count` windows.
pub open spec fn latest_influence(rules: Seq<DurableRequestRule>, count: nat, moment: u64) -> u64
    decreases count,
{
    if count == 0 || count > rules.len() {
        moment
    } else {
        let before = latest_influence(rules, (count - 1) as nat, moment);
        if rules[count - 1].influence_ends_at_unix_secs > before {
            rules[count - 1].influence_ends_at_unix_secs
        } else {
            before
        }
    }
}

/// Up to when an admission is kept.
pub open spec fn admission_retention(rules: Seq<DurableRequestRule>, now: u64) -> u64 {
    latest_influence(
        rules,
        rules.len(),
        plan_windows::more(now, COST_RESERVATION_SAFE_HISTORY_SECS),
    )
}

/// The request that asks the ledger to count an event in the long windows.
pub open spec fn asks_ledger(
    input: ReserveUsagePolicyRequestInput,
    subject_id: Seq<char>,
    event_id: Seq<char>,
    rules: Seq<DurableRequestRule>,
    now: u64,
) -> bool {
    &&& input.request_id@ == event_id
    &&& input.subject_id@ == subject_id
    &&& input.event_token@ == event_id
    &&& input.admitted_at_unix_secs == now
    &&& input.retain_until_unix_secs == admission_retention(rules, now)
    &&& input.windows@ == Seq::new(rules.len(), |i: int| rules[i].window)
}

fn ledger_request(
    subject_id: &str,
    event_id: &str,
    rules: &Vec<DurableRequestRule>,
    now_unix_secs: u64,
) -> (r: ReserveUsagePolicyRequestInput)
    ensures
        asks_ledger(r, subject_id@, event_id@, rules@, now_unix_secs),
{
    let floor: u64 = now_unix_secs.saturating_add(COST_RESERVATION_SAFE_HISTORY_SECS);
    let mut retain_until: u64 = floor;
    let mut windows: Vec<UsagePolicyRequestWindow> = Vec::new();
    let mut at: usize = 0;
    while at < rules.len()
        invariant
            at <= rules@.len(),
            windows@ == Seq::new(at as nat, |i: int| rules@[i].window),
            retain_until == latest_influence(rules@, at as nat, floor),
        decreases rules@.len() - at,
    {
        if rules[at].influence_ends_at_unix_secs > retain_until {
            retain_until = rules[at].influence_ends_at_unix_secs;
        }
        windows.push(rules[at].window);
        assert(windows@ =~= Seq::new((at + 1) as nat, |i: int| rules@[i].window));
        at += 1;
    }
    assert(windows@ =~= Seq::new(rules@.len(), |i: int| rules@[i].window));
    ReserveUsagePolicyRequestInput {
        request_id: event_id.to_string(),
        subject_id: subject_id.to_string(),
        event_token: event_id.to_string(),
        admitted_at_unix_secs: now_unix_secs,
        retain_until_unix_secs: retain_until,
        windows,
    }
}

/// What an action comes to, by its texts and numbers.
pub enum Decision {
    AcquirePermit { key: Seq<char>, limit: usize },
    ConsumeShortWindows,
    ReserveLongWindows,
    Admit,
    Refuse(Refusal),
    ReleaseAndRefuse { reason: &'static str, refusal: Refusal },
}

/// Why a request is turned away, by its texts and numbers.
pub enum Refusal {
    Rejected(PlanUsagePolicyRejection),
    Runtime(RuntimeSemaphoreError),
    Gateway(GatewayFault),
}

impl View for PlanUsageAdmissionError {
    type V = Refusal;

    open spec fn view(&self) -> Refusal {
        match *self {
            PlanUsageAdmissionError::Rejected(rejection) => Refusal::Rejected(rejection),
            PlanUsageAdmissionError::Runtime(e) => Refusal::Runtime(e),
            PlanUsageAdmissionError::Gateway(e) => Refusal::Gateway(e@),
        }
    }
}

impl View for AdmissionAction {
    type V = Decision;

    open spec fn view(&self) -> Decision {
        match *self {
            AdmissionAction::AcquirePermit { key, limit } => Decision::AcquirePermit {
                key: key@,
                limit,
            },
            AdmissionAction::ConsumeShortWindows => Decision::ConsumeShortWindows,
            AdmissionAction::ReserveLongWindows(_) => Decision::ReserveLongWindows,
            AdmissionAction::Admit => Decision::Admit,
            AdmissionAction::Refuse(error) => Decision::Refuse(error@),
            AdmissionAction::ReleaseAndRefuse { reason, error } => Decision::ReleaseAndRefuse {
                reason,
                refusal: error@,
            },
        }
    }
}

/// What to do about a request that is not let in after the short windows counted it: take it out of
/// them again, where there are any.
pub open spec fn undo(short: nat, reason: &'static str, refusal: Refusal) -> Decision {
    if short == 0 {
        Decision::Refuse(refusal)
    } else {
        Decision::ReleaseAndRefuse { reason, refusal }
    }
}

/// An internal error of the gateway.
pub open spec fn internally(message: Seq<char>) -> Refusal {
    Refusal::Gateway(GatewayFault::Internal(message))
}

/// What the answer of the runtime state means: why the request is turned away, if it is.
pub open spec fn short_answer(
    short: Seq<Counter>,
    reply: Result<UsageLimitCheck, Seq<char>>,
) -> Option<Refusal> {
    match reply {
        Err(message) => Some(internally(message)),
        Ok(UsageLimitCheck::Allowed) => None,
        Ok(UsageLimitCheck::Rejected { rule_index, limit, retry_after }) => if rule_index
            < short.len() {
            let longest = short[rule_index as int].retry_after;
            Some(
                Refusal::Rejected(
                    PlanUsagePolicyRejection {
                        metric: "request_count",
                        limit: PolicyLimit::Requests(limit),
                        retry_after: plan_windows::one_at_least(
                            if retry_after < longest {
                                retry_after
                            } else {
                                longest
                            },
                        ),
                        window: short[rule_index as int].window,
                    },
                ),
            )
        } else {
            Some(internally("usage policy runtime returned an invalid rule index"@))
        },
    }
}

/// What the answer of the ledger means: why the request is turned away, if it is, and the reason for
/// which it is taken out of the short windows then.
pub open spec fn long_answer(
    long: Seq<DurableRequestRule>,
    reply: Result<Option<ReserveUsagePolicyRequestOutcome>, Seq<char>>,
) -> Option<(&'static str, Refusal)> {
    match reply {
        Err(message) => Some(("durable_admission_error", internally(message))),
        Ok(None) => Some(
            (
                "settlement_writer_unavailable",
                internally(
                    "long-window plan request limits require a settlement write repository"@,
                ),
            ),
        ),
        Ok(Some(ReserveUsagePolicyRequestOutcome::Allowed)) => None,
        Ok(
            Some(
                ReserveUsagePolicyRequestOutcome::Rejected { window_index, limit_requests, .. },
            ),
        ) => Some(
            (
                "durable_admission_rejected",
                if window_index < long.len() {
                    Refusal::Rejected(
                        PlanUsagePolicyRejection {
                            metric: "request_count",
                            limit: PolicyLimit::Requests(limit_requests),
                            retry_after: long[window_index as int].retry_after,
                            window: long[window_index as int].label,
                        },
                    )
                } else {
                    internally("usage policy request ledger returned an invalid rule index"@)
                },
            ),
        ),
        Ok(Some(ReserveUsagePolicyRequestOutcome::AlreadyReleased)) => Some(
            (
                "durable_admission_already_released",
                internally("plan request admission token is already released"@),
            ),
        ),
        Ok(Some(ReserveUsagePolicyRequestOutcome::Conflict)) => Some(
            (
                "durable_admission_conflict",
                internally("plan request admission identity conflict"@),
            ),
        ),
    }
}

/// What the answer of the runtime state means.
pub fn judge_short_windows(
    short: &Vec<RuntimeRequestRule>,
    reply: Result<UsageLimitCheck, String>,
) -> (r: Option<PlanUsageAdmissionError>)
    ensures
        match short_answer(counters(short@), plan_usage_policy::reply_of(reply)) {
            Some(refusal) => r is Some && r->0@ == refusal,
            None => r is None,
        },
{
    match reply {
        Err(message) => Some(PlanUsageAdmissionError::Gateway(GatewayError::Internal(message))),
        Ok(UsageLimitCheck::Allowed) => None,
        Ok(UsageLimitCheck::Rejected { rule_index, limit, retry_after }) => {
            if rule_index >= short.len() {
                return Some(
                    PlanUsageAdmissionError::Gateway(
                        error::internal("usage policy runtime returned an invalid rule index"),
                    ),
                );
            }
            let rule = &short[rule_index];
            let wait: u64 = if retry_after < rule.retry_after {
                retry_after
            } else {
                rule.retry_after
            };
            Some(
                PlanUsageAdmissionError::Rejected(
                    PlanUsagePolicyRejection {
                        metric: "request_count",
                        limit: PolicyLimit::Requests(limit),
                        retry_after: if wait < 1 {
                            1
                        } else {
                            wait
                        },
                        window: rule.window,
                    },
                ),
            )
        },
    }
}

/// What the answer of the ledger means.
pub fn judge_long_windows(
    long: &Vec<DurableRequestRule>,
    reply: Result<Option<ReserveUsagePolicyRequestOutcome>, String>,
) -> (r: Option<(&'static str, PlanUsageAdmissionError)>)
    ensures
        match long_answer(long@, plan_usage_policy::reply_of(reply)) {
            Some((reason, refusal)) => r is Some && (r->0).0 == reason && (r->0).1@ == refusal,
            None => r is None,
        },
{
    match reply {
        Err(message) => Some(
            (
                "durable_admission_error",
                PlanUsageAdmissionError::Gateway(GatewayError::Internal(message)),
            ),
        ),
        Ok(None) => Some(
            (
                "settlement_writer_unavailable",
                PlanUsageAdmissionError::Gateway(
                    error::internal(
                        "long-window plan request limits require a settlement write repository",
                    ),
                ),
            ),
        ),
        Ok(Some(ReserveUsagePolicyRequestOutcome::Allowed)) => None,
        Ok(
            Some(
                ReserveUsagePolicyRequestOutcome::Rejected { window_index, limit_requests, .. },
            ),
        ) => {
            if window_index >= long.len() {
                return Some(
                    (
                        "durable_admission_rejected",
                        PlanUsageAdmissionError::Gateway(
                            error::internal(
                                "usage policy request ledger returned an invalid rule index",
                            ),
                        ),
                    ),
                );
            }
            Some(
                (
                    "durable_admission_rejected",
                    PlanUsageAdmissionError::Rejected(
                        PlanUsagePolicyRejection {
                            metric: "request_count",
                            limit: PolicyLimit::Requests(limit_requests),
                            retry_after: long[window_index].retry_after,
                            window: long[window_index].label,
                        },
                    ),
                ),
            )
        },
        Ok(Some(ReserveUsagePolicyRequestOutcome::AlreadyReleased)) => Some(
            (
                "durable_admission_already_released",
                PlanUsageAdmissionError::Gateway(
                    error::internal("plan request admission token is already released"),
                ),
            ),
        ),
        Ok(Some(ReserveUsagePolicyRequestOutcome::Conflict)) => Some(
            (
                "durable_admission_conflict",
                PlanUsageAdmissionError::Gateway(
                    error::internal("plan request admission identity conflict"),
                ),
            ),
        ),
    }
}

/// An admission under way.
#[derive(Debug)]
pub struct PlanAdmission<'a> {
    pub subject_id: &'a str,
    pub policy: &'a EffectivePlanUsagePolicy,
    pub event_id: &'a str,
    pub now_unix_secs: u64,
    pub app_timezone: Option<&'a str>,
    pub stage: AdmissionStage,
    pub short: Vec<RuntimeRequestRule>,
    pub long: Vec<DurableRequestRule>,
}

/// The key of a user's permits.
pub open spec fn permit_key(subject_id: Seq<char>) -> Seq<char> {
    "admission:"@ + CONCURRENCY_GATE@ + ":user:{"@ + subject_id + "}"@
}

/// What is to be done next, what is waited for then, and the windows found so far.
pub struct Step {
    pub decision: Decision,
    pub stage: AdmissionStage,
    pub short: Seq<Counter>,
    pub long: Seq<DurableRequestRule>,
}

/// A request that is turned away.
pub open spec fn refused(refusal: Refusal, short: Seq<Counter>) -> Step {
    Step {
        decision: Decision::Refuse(refusal),
        stage: AdmissionStage::Done,
        short,
        long: Seq::empty(),
    }
}

impl<'a> PlanAdmission<'a> {
    /// The time zone of the application.
    pub open spec fn zone(&self) -> Option<Seq<char>> {
        text::opt_view(self.app_timezone)
    }

    /// The windows of the policy can be placed at the moment of the request.
    pub open spec fn wf(&self) -> bool {
        all_placeable(self.policy.request_rules@, self.now_unix_secs)
    }

    /// The next step once the short windows, if there are any, have let the request in. Where a long
    /// window cannot be placed, the request is taken out of the short windows again.
    pub open spec fn long_step(&self, short: Seq<Counter>) -> Step {
        match long_windows(
            self.policy.request_rules@,
            0,
            Seq::empty(),
            self.now_unix_secs,
            self.zone(),
        ) {
            Err(fault) => Step {
                decision: undo(short.len(), "durable_admission_error", Refusal::Gateway(fault)),
                stage: AdmissionStage::Done,
                short,
                long: Seq::empty(),
            },
            Ok(long) => if long.len() == 0 {
                Step {
                    decision: Decision::Admit,
                    stage: AdmissionStage::Done,
                    short,
                    long: Seq::empty(),
                }
            } else {
                Step {
                    decision: Decision::ReserveLongWindows,
                    stage: AdmissionStage::LongWindows,
                    short,
                    long,
                }
            },
        }
    }

    /// The next step once the permit, if one is needed, was taken.
    pub open spec fn short_step(&self) -> Step {
        match short_counters(
            self.subject_id@,
            self.policy.request_rules@,
            0,
            Seq::empty(),
            self.now_unix_secs,
            self.zone(),
        ) {
            Err(fault) => refused(Refusal::Gateway(fault), Seq::empty()),
            Ok(short) => if short.len() == 0 {
                self.long_step(short)
            } else {
                Step {
                    decision: Decision::ConsumeShortWindows,
                    stage: AdmissionStage::ShortWindows,
                    short,
                    long: Seq::empty(),
                }
            },
        }
    }

    /// The first step.
    pub open spec fn first_step(&self) -> Step {
        match self.policy.concurrency_limit {
            None => if self.policy.request_rules@.len() == 0 {
                Step {
                    decision: Decision::Admit,
                    stage: AdmissionStage::Done,
                    short: Seq::empty(),
                    long: Seq::empty(),
                }
            } else {
                self.short_step()
            },
            Some(limit) => if limit > usize::MAX {
                refused(
                    internally("plan usage concurrency limit exceeds platform capacity"@),
                    Seq::empty(),
                )
            } else {
                Step {
                    decision: Decision::AcquirePermit {
                        key: permit_key(self.subject_id@),
                        limit: limit as usize,
                    },
                    stage: AdmissionStage::Permit,
                    short: Seq::empty(),
                    long: Seq::empty(),
                }
            },
        }
    }

    /// The event is the one that is waited for.
    pub open spec fn expects(&self, event: AdmissionEvent) -> bool {
        match event {
            AdmissionEvent::Begin => self.stage is Start,
            AdmissionEvent::Permit(_) => self.stage is Permit,
            AdmissionEvent::ShortWindows(_) => self.stage is ShortWindows,
            AdmissionEvent::LongWindows(_) => self.stage is LongWindows,
        }
    }

    /// The next step after an event.
    pub open spec fn next_step(&self, event: AdmissionEvent) -> Step {
        match event {
            AdmissionEvent::Begin => self.first_step(),
            AdmissionEvent::Permit(Err(e)) => refused(Refusal::Runtime(e), Seq::empty()),
            AdmissionEvent::Permit(Ok(_)) => self.short_step(),
            AdmissionEvent::ShortWindows(reply) => match short_answer(
                counters(self.short@),
                plan_usage_policy::reply_of(reply),
            ) {
                Some(refusal) => refused(refusal, counters(self.short@)),
                None => self.long_step(counters(self.short@)),
            },
            AdmissionEvent::LongWindows(reply) => match long_answer(
                self.long@,
                plan_usage_policy::reply_of(reply),
            ) {
                Some((reason, refusal)) => Step {
                    decision: undo(self.short@.len(), reason, refusal),
                    stage: AdmissionStage::Done,
                    short: counters(self.short@),
                    long: self.long@,
                },
                None => Step {
                    decision: Decision::Admit,
                    stage: AdmissionStage::Done,
                    short: counters(self.short@),
                    long: self.long@,
                },
            },
        }
    }

    /// Two states of one admission.
    pub open spec fn same_request(&self, other: &Self) -> bool {
        &&& self.subject_id == other.subject_id
        &&& self.policy == other.policy
        &&& self.event_id == other.event_id
        &&& self.now_unix_secs == other.now_unix_secs
        &&& self.app_timezone == other.app_timezone
    }

    /// The state and the action are those of a step.
    pub open spec fn took(&self, step: Step, action: AdmissionAction) -> bool {
        &&& action@ == step.decision
        &&& self.stage == step.stage
        &&& counters(self.short@) == step.short
        &&& self.long@ == step.long
        &&& action matches AdmissionAction::ReserveLongWindows(input) ==> asks_ledger(
            input,
            self.subject_id@,
            self.event_id@,
            step.long,
            self.now_unix_secs,
        )
    }

    /// An admission that has not begun.
    pub fn new(
        subject_id: &'a str,
        policy: &'a EffectivePlanUsagePolicy,
        event_id: &'a str,
        now_unix_ms: u64,
        app_timezone: Option<&'a str>,
    ) -> (r: Self)
        ensures
            r.subject_id == subject_id,
            r.policy == policy,
            r.event_id == event_id,
            r.now_unix_secs == now_unix_ms / 1_000,
            r.app_timezone == app_timezone,
            r.stage is Start,
            r.short@.len() == 0,
            r.long@.len() == 0,
    {
        PlanAdmission {
            subject_id,
            policy,
            event_id,
            now_unix_secs: now_unix_ms / 1_000,
            app_timezone,
            stage: AdmissionStage::Start,
            short: Vec::new(),
            long: Vec::new(),
        }
    }

    fn enter_long_windows(&mut self) -> (r: AdmissionAction)
        requires
            old(self).wf(),
        ensures
            final(self).same_request(old(self)),
            final(self).took(old(self).long_step(counters(old(self).short@)), r),
    {
        match compile_long_windows(
            &self.policy.request_rules,
            self.now_unix_secs,
            self.app_timezone,
        ) {
            Err(e) => {
                self.stage = AdmissionStage::Done;
                self.long = Vec::new();
                assert(self.long@ =~= Seq::empty());
                if self.short.len() == 0 {
                    AdmissionAction::Refuse(e)
                } else {
                    AdmissionAction::ReleaseAndRefuse {
                        reason: "durable_admission_error",
                        error: e,
                    }
                }
            },
            Ok(long) => {
                if long.len() == 0 {
                    self.stage = AdmissionStage::Done;
                    self.long = Vec::new();
                    assert(self.long@ =~= Seq::empty());
                    return AdmissionAction::Admit;
                }
                let input = ledger_request(
                    self.subject_id,
                    self.event_id,
                    &long,
                    self.now_unix_secs,
                );
                self.stage = AdmissionStage::LongWindows;
                self.long = long;
                AdmissionAction::ReserveLongWindows(input)
            },
        }
    }

    fn enter_short_windows(&mut self) -> (r: AdmissionAction)
        requires
            old(self).wf(),
        ensures
            final(self).same_request(old(self)),
            final(self).took(old(self).short_step(), r),
    {
        self.long = Vec::new();
        assert(self.long@ =~= Seq::empty());
        match compile_short_windows(
            self.subject_id,
            &self.policy.request_rules,
            self.now_unix_secs,
            self.app_timezone,
        ) {
            Err(e) => {
                self.stage = AdmissionStage::Done;
                self.short = Vec::new();
                assert(counters(self.short@) =~= Seq::empty());
                AdmissionAction::Refuse(e)
            },
            Ok(short) => {
                let none = short.len() == 0;
                self.short = short;
                if none {
                    return self.enter_long_windows();
                }
                self.stage = AdmissionStage::ShortWindows;
                AdmissionAction::ConsumeShortWindows
            },
        }
    }

    fn finish(&mut self)
        ensures
            final(self).same_request(old(self)),
            final(self).stage is Done,
            counters(final(self).short@) == Seq::<Counter>::empty(),
            final(self).long@ == Seq::<DurableRequestRule>::empty(),
    {
        self.stage = AdmissionStage::Done;
        self.short = Vec::new();
        self.long = Vec::new();
        assert(counters(self.short@) =~= Seq::empty());
        assert(self.long@ =~= Seq::empty());
    }

    fn begin(&mut self) -> (r: AdmissionAction)
        requires
            old(self).wf(),
        ensures
            final(self).same_request(old(self)),
            final(self).took(old(self).first_step(), r),
    {
        match self.policy.concurrency_limit {
            None => {
                if self.policy.request_rules.len() == 0 {
                    self.finish();
                    return AdmissionAction::Admit;
                }
                self.enter_short_windows()
            },
            Some(limit) => {
                self.finish();
                if limit > usize::MAX as u64 {
                    return AdmissionAction::Refuse(
                        PlanUsageAdmissionError::Gateway(
                            error::internal(
                                "plan usage concurrency limit exceeds platform capacity",
                            ),
                        ),
                    );
                }
                self.stage = AdmissionStage::Permit;
                let mut key = text::joined("admission:", CONCURRENCY_GATE);
                key.append(":user:{");
                key.append(self.subject_id);
                key.append("}");
                AdmissionAction::AcquirePermit { key, limit: limit as usize }
            },
        }
    }

    /// Takes an event in, and says what is to be done next. The permit comes first, then the short
    /// windows, then the long ones. Whatever turns the request away once the short windows have counted
    /// it, it is taken out of them again: only where the process ends in between is something left
    /// behind, and that is gone after a minute.
    pub fn on_event(&mut self, event: AdmissionEvent) -> (r: AdmissionAction)
        requires
            old(self).wf(),
            old(self).expects(event),
        ensures
            final(self).wf(),
            final(self).same_request(old(self)),
            final(self).took(old(self).next_step(event), r),
    {
        match event {
            AdmissionEvent::Begin => self.begin(),
            AdmissionEvent::Permit(Err(e)) => {
                self.finish();
                AdmissionAction::Refuse(PlanUsageAdmissionError::Runtime(e))
            },
            AdmissionEvent::Permit(Ok(_)) => self.enter_short_windows(),
            AdmissionEvent::ShortWindows(reply) => {
                match judge_short_windows(&self.short, reply) {
                    Some(error) => {
                        self.stage = AdmissionStage::Done;
                        self.long = Vec::new();
                        assert(self.long@ =~= Seq::empty());
                        AdmissionAction::Refuse(error)
                    },
                    None => self.enter_long_windows(),
                }
            },
            AdmissionEvent::LongWindows(reply) => {
                self.stage = AdmissionStage::Done;
                match judge_long_windows(&self.long, reply) {
                    Some((reason, error)) => {
                        if self.short.len() == 0 {
                            AdmissionAction::Refuse(error)
                        } else {
                            AdmissionAction::ReleaseAndRefuse { reason, error }
                        }
                    },
                    None => AdmissionAction::Admit,
                }
            },
        }
    }
}

/// What is not let in after the short windows have counted it is taken out of them again: where a long
/// window cannot be placed, as where the ledger does not agree. The decision is then never to turn the
/// request away and leave it counted.
pub proof fn a_refusal_is_undone_in_the_short_windows(
    admission: PlanAdmission<'_>,
    reply: Result<Option<ReserveUsagePolicyRequestOutcome>, String>,
)
    requires
        admission.short@.len() > 0,
    ensures
        ({
            let counted = admission.next_step(
                AdmissionEvent::ShortWindows(Ok(UsageLimitCheck::Allowed)),
            );
            &&& !(counted.decision is Refuse)
            &&& counted.decision is ReleaseAndRefuse <==> long_windows(
                admission.policy.request_rules@,
                0,
                Seq::empty(),
                admission.now_unix_secs,
                admission.zone(),
            ) is Err
        }),
        ({
            let answered = admission.next_step(AdmissionEvent::LongWindows(reply));
            &&& !(answered.decision is Refuse)
            &&& answered.decision is ReleaseAndRefuse <==> reply != Ok::<
                Option<ReserveUsagePolicyRequestOutcome>,
                String,
            >(Some(ReserveUsagePolicyRequestOutcome::Allowed))
        }),
{
}

/// A request is let in only at the end: where the policy has no rule for it, or once the last of what
/// had to be asked has agreed. The ledger is asked only after the short windows, and these only after
/// the permit.
pub proof fn a_request_is_admitted_only_by_the_last_that_is_asked(
    admission: PlanAdmission<'_>,
    event: AdmissionEvent,
)
    requires
        admission.expects(event),
    ensures
        ({
            let step = admission.next_step(event);
            &&& step.decision is Admit ==> step.stage is Done && match event {
                AdmissionEvent::Begin => admission.policy.concurrency_limit is None,
                AdmissionEvent::Permit(answer) => answer is Ok,
                AdmissionEvent::ShortWindows(answer) => answer
                    == Ok::<UsageLimitCheck, String>(UsageLimitCheck::Allowed),
                AdmissionEvent::LongWindows(answer) => answer
                    == Ok::<Option<ReserveUsagePolicyRequestOutcome>, String>(
                    Some(ReserveUsagePolicyRequestOutcome::Allowed),
                ),
            }
            &&& step.decision is ReserveLongWindows ==> step.stage is LongWindows && step.long.len()
                > 0 && (step.short.len() > 0 ==> event
                == AdmissionEvent::ShortWindows(Ok(UsageLimitCheck::Allowed)))
            &&& step.decision is ConsumeShortWindows ==> step.stage is ShortWindows
                && step.short.len() > 0 && (admission.policy.concurrency_limit is Some
                ==> event is Permit)
        }),
{
}

/// An admission is kept until no window that it was counted in can count it any more.
pub proof fn an_admission_is_kept_while_it_counts(
    rules: Seq<DurableRequestRule>,
    now: u64,
    index: int,
)
    requires
        0 <= index < rules.len(),
    ensures
        admission_retention(rules, now) >= rules[index].influence_ends_at_unix_secs,
{
    lemma_latest_influence(
        rules,
        rules.len(),
        plan_windows::more(now, COST_RESERVATION_SAFE_HISTORY_SECS),
        index,
    );
}

proof fn lemma_latest_influence(
    rules: Seq<DurableRequestRule>,
    count: nat,
    moment: u64,
    index: int,
)
    requires
        0 <= index < count <= rules.len(),
    ensures
        latest_influence(rules, count, moment) >= rules[index].influence_ends_at_unix_secs,
    decreases count,
{
    if index < count - 1 {
        lemma_latest_influence(rules, (count - 1) as nat, moment, index);
    }
}

} // verus!
