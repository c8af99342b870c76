//! Placing the windows of a policy in time.

use crate::calendar;
use crate::calendar::{CalendarWindow, DAY_SECONDS, LAST_DATED_SECOND};
use crate::cost_ledger::UsagePolicyCostWindow;
use crate::effective_policy::{EffectiveCostRule, EffectiveRequestRule};
use crate::error;
use crate::error::{GatewayError, GatewayFault, RuntimeSemaphoreError};
use crate::request_ledger::UsagePolicyRequestWindow;
use crate::text;
use crate::timezone;
use crate::usage_policy::UsagePolicyWindow;
use vstd::prelude::*;
use vstd::string::*;

verus! {

/// The limit that a request ran into.
#[derive(Debug, Clone, Copy, PartialEq, Eq, Structural)]
pub enum PolicyLimit {
    Requests(u64),
    CostUnits(u64),
}

/// Why a request was turned away, and when it may come again.
#[derive(Debug, Clone, Copy, PartialEq, Eq)]
pub struct PlanUsagePolicyRejection {
    pub metric: &'static str,
    pub limit: PolicyLimit,
    pub retry_after: u64,
    pub window: &'static str,
}

/// Why a request was not admitted.
#[derive(Debug)]
pub enum PlanUsageAdmissionError {
    Rejected(PlanUsagePolicyRejection),
    Runtime(RuntimeSemaphoreError),
    Gateway(GatewayError),
}

impl From<GatewayError> for PlanUsageAdmissionError {
    fn from(value: GatewayError) -> (r: Self) {
        PlanUsageAdmissionError::Gateway(value)
    }
}

impl vstd::std_specs::convert::FromSpecImpl<GatewayError> for PlanUsageAdmissionError {
    open spec fn obeys_from_spec() -> bool {
        true
    }

    open spec fn from_spec(value: GatewayError) -> Self {
        PlanUsageAdmissionError::Gateway(value)
    }
}

/// Whether `r` fails with an error of the gateway.
pub open spec fn gateway_fails<T>(
    r: Result<T, PlanUsageAdmissionError>,
    fault: GatewayFault,
) -> bool {
    r is Err && r->Err_0 is Gateway && r->Err_0->Gateway_0@ == fault
}

/// A window on requests, as the runtime state counts it.
#[derive(Debug, Clone, PartialEq, Eq)]
pub struct RuntimeRequestRule {
    pub key: String,
    pub limit: u64,
    pub window_seconds: u64,
    pub retention_seconds: u64,
    pub retry_after: u64,
    pub window: &'static str,
}

/// A window on requests, as the ledger counts it.
#[derive(Debug, Clone, Copy, PartialEq, Eq)]
pub struct DurableRequestRule {
    pub window: UsagePolicyRequestWindow,
    pub retry_after: u64,
    pub label: &'static str,
    pub influence_ends_at_unix_secs: u64,
}

/// A window on cost, as the ledger counts it.
#[derive(Debug, Clone, PartialEq, Eq)]
pub struct RuntimeCostRule {
    pub window: UsagePolicyCostWindow,
    pub retry_after: u64,
    pub label: &'static str,
    pub influence_ends_at_unix_secs: u64,
}

/// A moment that has a date in every time zone, or none at all.
pub open spec fn datable(unix_secs: u64) -> bool {
    unix_secs <= LAST_DATED_SECOND - DAY_SECONDS || unix_secs > LAST_DATED_SECOND
}

/// The window can be placed at a moment.
pub open spec fn placeable(window: UsagePolicyWindow, now: u64) -> bool {
    match window {
        UsagePolicyWindow::CalendarDay { .. } => datable(now),
        UsagePolicyWindow::CalendarWeek { week_start, .. } => datable(now) && week_start <= 8,
        UsagePolicyWindow::CalendarMonth { .. } => datable(now),
        _ => true,
    }
}

/// Whether a window can be placed at a moment.
pub fn is_placeable(window: &UsagePolicyWindow, now_unix_secs: u64) -> (r: bool)
    ensures
        r == placeable(*window, now_unix_secs),
{
    let dated = now_unix_secs <= LAST_DATED_SECOND - DAY_SECONDS || now_unix_secs
        > LAST_DATED_SECOND;
    match window {
        UsagePolicyWindow::CalendarDay { .. } => dated,
        UsagePolicyWindow::CalendarWeek { week_start, .. } => dated && *week_start <= 8,
        UsagePolicyWindow::CalendarMonth { .. } => dated,
        _ => true,
    }
}

/// `a` less `b`, but not less than nothing.
pub open spec fn less(a: u64, b: u64) -> u64 {
    if a < b {
        0
    } else {
        (a - b) as u64
    }
}

/// `a` and `b` together, but not more than a number holds.
pub open spec fn more(a: u64, b: u64) -> u64 {
    if a + b > u64::MAX {
        u64::MAX
    } else {
        (a + b) as u64
    }
}

/// `a`, but at least one.
pub open spec fn one_at_least(a: u64) -> u64 {
    if a < 1 {
        1
    } else {
        a
    }
}

fn at_least_one(a: u64) -> (r: u64)
    ensures
        r == one_at_least(a),
{
    if a < 1 {
        1
    } else {
        a
    }
}

/// What a rolling window is called.
pub open spec fn rolling_name(seconds: u64) -> &'static str {
    if seconds == 1 {
        "qps"
    } else if seconds == 60 {
        "rpm"
    } else {
        "rolling"
    }
}

/// What a rolling window is called.
pub fn rolling_label(seconds: u64) -> (r: &'static str)
    ensures
        r == rolling_name(seconds),
{
    if seconds == 1 {
        "qps"
    } else if seconds == 60 {
        "rpm"
    } else {
        "rolling"
    }
}

/// When a window starts and ends, when to try again, and what it is called.
pub struct Placement {
    pub starts_at: u64,
    pub ends_at: u64,
    pub retry_after: u64,
    pub label: &'static str,
}

/// The calendar window that holds a moment. It is at least a second long, and so is the time to the
/// next try.
pub open spec fn calendar_placement(
    now: u64,
    zone: Option<Seq<char>>,
    app_timezone: Option<Seq<char>>,
    kind: CalendarWindow,
    week_start: u8,
) -> Result<Placement, GatewayFault> {
    match calendar::period_of(
        now,
        timezone::effective_timezone(zone, app_timezone),
        kind,
        week_start,
    ) {
        Ok((start, end)) => Ok(
            Placement {
                starts_at: start,
                ends_at: more(start, one_at_least(less(end, start))),
                retry_after: one_at_least(less(end, now)),
                label: kind.name(),
            },
        ),
        Err(fault) => Err(fault),
    }
}

/// The calendar window that a window stands for.
pub open spec fn calendar_kind(window: UsagePolicyWindow) -> Option<CalendarWindow> {
    match window {
        UsagePolicyWindow::CalendarDay { .. } => Some(CalendarWindow::Day),
        UsagePolicyWindow::CalendarWeek { .. } => Some(CalendarWindow::Week),
        UsagePolicyWindow::CalendarMonth { .. } => Some(CalendarWindow::Month),
        _ => None,
    }
}

/// The weekday that the weeks of a window start on.
pub open spec fn weeks_start_on(window: UsagePolicyWindow) -> u8 {
    match window {
        UsagePolicyWindow::CalendarWeek { week_start, .. } => week_start,
        _ => 1,
    }
}

/// Where a window stands that holds a moment. A rolling window reaches back from that moment, which
/// it includes.
pub open spec fn placement(
    window: UsagePolicyWindow,
    entitlement_period: Option<(u64, u64)>,
    now: u64,
    app_timezone: Option<Seq<char>>,
) -> Result<Placement, GatewayFault> {
    match window {
        UsagePolicyWindow::Rolling { seconds } => Ok(
            Placement {
                starts_at: less(now, seconds),
                ends_at: more(now, 1),
                retry_after: seconds,
                label: rolling_name(seconds),
            },
        ),
        UsagePolicyWindow::SubscriptionPeriod => match entitlement_period {
            Some((starts_at, ends_at)) => Ok(
                Placement {
                    starts_at,
                    ends_at,
                    retry_after: one_at_least(less(ends_at, now)),
                    label: "subscription_period",
                },
            ),
            None => Err(
                GatewayFault::Internal(
                    "subscription period cost policy is missing its entitlement period"@,
                ),
            ),
        },
        UsagePolicyWindow::Concurrent => Err(
            GatewayFault::Internal("concurrent window reached cost policy compiler"@),
        ),
        _ => calendar_placement(
            now,
            text::opt_string(window.timezone_name()),
            app_timezone,
            calendar_kind(window)->0,
            weeks_start_on(window),
        ),
    }
}

/// The calendar window that holds a moment: the moment of its start in decimal notation, how long it
/// is, how long it still lasts, and what it is called.
pub open spec fn calendar_stretch(
    now: u64,
    zone: Option<Seq<char>>,
    app_timezone: Option<Seq<char>>,
    kind: CalendarWindow,
    week_start: u8,
) -> Result<(Seq<char>, u64, u64, &'static str), GatewayFault> {
    match calendar::period_of(
        now,
        timezone::effective_timezone(zone, app_timezone),
        kind,
        week_start,
    ) {
        Ok((start, end)) => Ok(
            (
                text::decimal(start as nat),
                one_at_least(less(end, start)),
                one_at_least(less(end, now)),
                kind.name(),
            ),
        ),
        Err(fault) => Err(fault),
    }
}

/// Whether `r` is the stretch that is expected.
pub open spec fn is_stretch(
    r: Result<(String, u64, u64, &'static str), PlanUsageAdmissionError>,
    expected: Result<(Seq<char>, u64, u64, &'static str), GatewayFault>,
) -> bool {
    match expected {
        Ok((bucket, window_seconds, retry_after, label)) => {
            &&& r is Ok
            &&& r->Ok_0.0@ == bucket
            &&& r->Ok_0.1 == window_seconds
            &&& r->Ok_0.2 == retry_after
            &&& r->Ok_0.3 == label
        },
        Err(fault) => gateway_fails(r, fault),
    }
}

/// The calendar window that holds a moment: the moment of its start in decimal notation, how long it
/// is, how long it still lasts, and what it is called.
pub fn calendar_bucket(
    now_unix_secs: u64,
    timezone: Option<&str>,
    app_timezone: Option<&str>,
    kind: CalendarWindow,
    week_start: u8,
) -> (r: Result<(String, u64, u64, &'static str), PlanUsageAdmissionError>)
    requires
        datable(now_unix_secs),
        week_start <= 8,
    ensures
        is_stretch(
            r,
            calendar_stretch(
                now_unix_secs,
                text::opt_view(timezone),
                text::opt_view(app_timezone),
                kind,
                week_start,
            ),
        ),
        r is Ok ==> calendar::is_dated(
            timezone::effective_timezone(text::opt_view(timezone), text::opt_view(app_timezone)),
            now_unix_secs,
        ),
{
    let zone = timezone::effective_timezone_name(timezone, app_timezone);
    match calendar::calendar_period(now_unix_secs, zone.as_str(), kind, week_start) {
        Ok((start, end)) => Ok(
            (
                text::decimal_text(start),
                at_least_one(end.saturating_sub(start)),
                at_least_one(end.saturating_sub(now_unix_secs)),
                kind.label(),
            ),
        ),
        Err(e) => Err(PlanUsageAdmissionError::Gateway(e)),
    }
}

/// The calendar window that holds a moment: when it starts and ends, how long it still lasts, and
/// what it is called.
pub fn calendar_window_bounds(
    now_unix_secs: u64,
    timezone: Option<&str>,
    app_timezone: Option<&str>,
    kind: CalendarWindow,
    week_start: u8,
) -> (r: Result<(u64, u64, u64, &'static str), GatewayError>)
    requires
        datable(now_unix_secs),
        week_start <= 8,
    ensures
        is_placed(
            r,
            calendar_placement(
                now_unix_secs,
                text::opt_view(timezone),
                text::opt_view(app_timezone),
                kind,
                week_start,
            ),
        ),
        r is Ok ==> calendar::is_dated(
            timezone::effective_timezone(text::opt_view(timezone), text::opt_view(app_timezone)),
            now_unix_secs,
        ),
{
    let zone = timezone::effective_timezone_name(timezone, app_timezone);
    match calendar::calendar_period(now_unix_secs, zone.as_str(), kind, week_start) {
        Ok((start, end)) => Ok(
            (
                start,
                start.saturating_add(at_least_one(end.saturating_sub(start))),
                at_least_one(end.saturating_sub(now_unix_secs)),
                kind.label(),
            ),
        ),
        Err(e) => Err(e),
    }
}

/// Whether `r` is the placement that is expected.
pub open spec fn is_placed(
    r: Result<(u64, u64, u64, &'static str), GatewayError>,
    expected: Result<Placement, GatewayFault>,
) -> bool {
    match expected {
        Ok(p) => r == Ok::<(u64, u64, u64, &'static str), GatewayError>(
            (p.starts_at, p.ends_at, p.retry_after, p.label),
        ),
        Err(fault) => r is Err && r->Err_0@ == fault,
    }
}

/// Where a window stands that holds a moment: when it starts and ends, when to try again, and what
/// it is called.
pub fn usage_window_bounds(
    window: &UsagePolicyWindow,
    entitlement_period: Option<(u64, u64)>,
    now_unix_secs: u64,
    app_timezone: Option<&str>,
) -> (r: Result<(u64, u64, u64, &'static str), GatewayError>)
    requires
        placeable(*window, now_unix_secs),
    ensures
        is_placed(
            r,
            placement(*window, entitlement_period, now_unix_secs, text::opt_view(app_timezone)),
        ),
{
    match window {
        UsagePolicyWindow::Rolling { seconds } => Ok(
            (
                now_unix_secs.saturating_sub(*seconds),
                now_unix_secs.saturating_add(1),
                *seconds,
                rolling_label(*seconds),
            ),
        ),
        UsagePolicyWindow::CalendarDay { timezone } => calendar_window_bounds(
            now_unix_secs,
            text::as_text(timezone),
            app_timezone,
            CalendarWindow::Day,
            1,
        ),
        UsagePolicyWindow::CalendarWeek { timezone, week_start } => calendar_window_bounds(
            now_unix_secs,
            text::as_text(timezone),
            app_timezone,
            CalendarWindow::Week,
            *week_start,
        ),
        UsagePolicyWindow::CalendarMonth { timezone } => calendar_window_bounds(
            now_unix_secs,
            text::as_text(timezone),
            app_timezone,
            CalendarWindow::Month,
            1,
        ),
        UsagePolicyWindow::SubscriptionPeriod => match entitlement_period {
            Some((starts_at, ends_at)) => Ok(
                (
                    starts_at,
                    ends_at,
                    at_least_one(ends_at.saturating_sub(now_unix_secs)),
                    "subscription_period",
                ),
            ),
            None => Err(
                error::internal(
                    "subscription period cost policy is missing its entitlement period",
                ),
            ),
        },
        UsagePolicyWindow::Concurrent => Err(
            error::internal("concurrent window reached cost policy compiler"),
        ),
    }
}

/// Up to when an admission at a moment can count: in a rolling window for as long as the window
/// reaches back to it, else to the end of the window.
pub open spec fn influence_end(window: UsagePolicyWindow, admitted_at: u64, ends_at: u64) -> u64 {
    match window {
        UsagePolicyWindow::Rolling { seconds } => more(more(admitted_at, seconds), 1),
        _ => ends_at,
    }
}

fn influence_end_of(window: &UsagePolicyWindow, admitted_at: u64, ends_at: u64) -> (r: u64)
    ensures
        r == influence_end(*window, admitted_at, ends_at),
{
    match window {
        UsagePolicyWindow::Rolling { seconds } => admitted_at.saturating_add(
            *seconds,
        ).saturating_add(1),
        _ => ends_at,
    }
}

/// A request window in the making.
pub open spec fn durable_of(rule: EffectiveRequestRule, now: u64, p: Placement) -> DurableRequestRule {
    DurableRequestRule {
        window: UsagePolicyRequestWindow {
            starts_at_unix_secs: p.starts_at,
            ends_at_unix_secs: p.ends_at,
            limit_requests: rule.limit,
        },
        retry_after: p.retry_after,
        label: p.label,
        influence_ends_at_unix_secs: influence_end(rule.window, now, p.ends_at),
    }
}

/// The window of a rule on requests that holds the moment of an admission, for the ledger.
pub fn durable_request_rule(
    rule: &EffectiveRequestRule,
    admitted_at_unix_secs: u64,
    app_timezone: Option<&str>,
) -> (r: Result<DurableRequestRule, PlanUsageAdmissionError>)
    requires
        placeable(rule.window, admitted_at_unix_secs),
    ensures
        match placement(
            rule.window,
            rule.entitlement_period,
            admitted_at_unix_secs,
            text::opt_view(app_timezone),
        ) {
            Ok(p) => r is Ok && r->Ok_0 == durable_of(*rule, admitted_at_unix_secs, p),
            Err(fault) => gateway_fails(r, fault),
        },
{
    match usage_window_bounds(
        &rule.window,
        rule.entitlement_period,
        admitted_at_unix_secs,
        app_timezone,
    ) {
        Ok((starts_at, ends_at, retry_after, label)) => Ok(
            DurableRequestRule {
                window: UsagePolicyRequestWindow {
                    starts_at_unix_secs: starts_at,
                    ends_at_unix_secs: ends_at,
                    limit_requests: rule.limit,
                },
                retry_after,
                label,
                influence_ends_at_unix_secs: influence_end_of(
                    &rule.window,
                    admitted_at_unix_secs,
                    ends_at,
                ),
            },
        ),
        Err(e) => Err(PlanUsageAdmissionError::Gateway(e)),
    }
}

/// A cost window by its texts and numbers.
pub struct CostPlacement {
    pub window_id: Seq<char>,
    pub starts_at: u64,
    pub ends_at: u64,
    pub limit: u64,
    pub retry_after: u64,
    pub label: &'static str,
    pub influence_ends_at: u64,
}

impl View for RuntimeCostRule {
    type V = CostPlacement;

    open spec fn view(&self) -> CostPlacement {
        CostPlacement {
            window_id: self.window.window_id@,
            starts_at: self.window.starts_at_unix_secs,
            ends_at: self.window.ends_at_unix_secs,
            limit: self.window.limit_cost_units,
            retry_after: self.retry_after,
            label: self.label,
            influence_ends_at: self.influence_ends_at_unix_secs,
        }
    }
}

/// The window of a rule on cost that holds the moment of an admission.
pub open spec fn cost_placement(
    rule: EffectiveCostRule,
    admitted_at: u64,
    app_timezone: Option<Seq<char>>,
) -> Result<CostPlacement, GatewayFault> {
    match placement(rule.window, rule.entitlement_period, admitted_at, app_timezone) {
        Ok(p) => Ok(
            CostPlacement {
                window_id: rule.identity@ + ":"@ + text::decimal(p.starts_at as nat),
                starts_at: p.starts_at,
                ends_at: p.ends_at,
                limit: rule.limit_cost_units,
                retry_after: p.retry_after,
                label: p.label,
                influence_ends_at: influence_end(rule.window, admitted_at, p.ends_at),
            },
        ),
        Err(fault) => Err(fault),
    }
}

/// The window of a rule on cost that holds the moment of an admission, for the ledger.
pub fn runtime_cost_rule(
    rule: &EffectiveCostRule,
    admitted_at_unix_secs: u64,
    app_timezone: Option<&str>,
) -> (r: Result<RuntimeCostRule, GatewayError>)
    requires
        placeable(rule.window, admitted_at_unix_secs),
    ensures
        match cost_placement(*rule, admitted_at_unix_secs, text::opt_view(app_timezone)) {
            Ok(p) => r is Ok && r->Ok_0@ == p,
            Err(fault) => r is Err && r->Err_0@ == fault,
        },
{
    let (starts_at, ends_at, retry_after, label) = usage_window_bounds(
        &rule.window,
        rule.entitlement_period,
        admitted_at_unix_secs,
        app_timezone,
    )?;
    let mut window_id = text::joined(rule.identity.as_str(), ":");
    window_id.append(text::decimal_text(starts_at).as_str());
    Ok(
        RuntimeCostRule {
            window: UsagePolicyCostWindow {
                window_id,
                starts_at_unix_secs: starts_at,
                ends_at_unix_secs: ends_at,
                limit_cost_units: rule.limit_cost_units,
            },
            retry_after,
            label,
            influence_ends_at_unix_secs: influence_end_of(
                &rule.window,
                admitted_at_unix_secs,
                ends_at,
            ),
        },
    )
}

/// A counter of the runtime state by its texts and numbers.
pub struct Counter {
    pub key: Seq<char>,
    pub limit: u64,
    pub window_seconds: u64,
    pub retention_seconds: u64,
    pub retry_after: u64,
    pub window: &'static str,
}

impl View for RuntimeRequestRule {
    type V = Counter;

    open spec fn view(&self) -> Counter {
        Counter {
            key: self.key@,
            limit: self.limit,
            window_seconds: self.window_seconds,
            retention_seconds: self.retention_seconds,
            retry_after: self.retry_after,
            window: self.window,
        }
    }
}

/// The part of a counter that a window gives: what tells one stretch of it from the next, how long it
/// is, when to try again, and what it is called.
pub open spec fn stretch(
    window: UsagePolicyWindow,
    entitlement_period: Option<(u64, u64)>,
    now: u64,
    app_timezone: Option<Seq<char>>,
) -> Result<(Seq<char>, u64, u64, &'static str), GatewayFault> {
    match window {
        UsagePolicyWindow::Rolling { seconds } => Ok(
            ("sliding"@, seconds, seconds, rolling_name(seconds)),
        ),
        UsagePolicyWindow::SubscriptionPeriod => match entitlement_period {
            Some((starts_at, expires_at)) => Ok(
                (
                    text::decimal(starts_at as nat),
                    one_at_least(less(expires_at, starts_at)),
                    one_at_least(less(expires_at, now)),
                    "subscription_period",
                ),
            ),
            None => Err(
                GatewayFault::Internal(
                    "subscription period usage policy is missing its entitlement period"@,
                ),
            ),
        },
        UsagePolicyWindow::Concurrent => Err(
            GatewayFault::Internal("concurrent window reached request counter compiler"@),
        ),
        _ => calendar_stretch(
            now,
            text::opt_string(window.timezone_name()),
            app_timezone,
            calendar_kind(window)->0,
            weeks_start_on(window),
        ),
    }
}

/// The counter of a rule on requests for a user at a moment. What it counted is kept for as long as
/// a request may have to wait.
pub open spec fn counter(
    user_id: Seq<char>,
    rule: EffectiveRequestRule,
    now: u64,
    app_timezone: Option<Seq<char>>,
) -> Result<Counter, GatewayFault> {
    match stretch(rule.window, rule.entitlement_period, now, app_timezone) {
        Ok((bucket, window_seconds, retry_after, window)) => Ok(
            Counter {
                key: "plan-usage:user:{"@ + user_id + "}:"@ + rule.identity@ + ":"@ + bucket,
                limit: rule.limit,
                window_seconds: one_at_least(window_seconds),
                retention_seconds: one_at_least(retry_after),
                retry_after: one_at_least(retry_after),
                window,
            },
        ),
        Err(fault) => Err(fault),
    }
}

fn stretch_of(
    window: &UsagePolicyWindow,
    entitlement_period: Option<(u64, u64)>,
    now_unix_secs: u64,
    app_timezone: Option<&str>,
) -> (r: Result<(String, u64, u64, &'static str), PlanUsageAdmissionError>)
    requires
        placeable(*window, now_unix_secs),
    ensures
        is_stretch(
            r,
            stretch(*window, entitlement_period, now_unix_secs, text::opt_view(app_timezone)),
        ),
{
    match window {
        UsagePolicyWindow::Rolling { seconds } => Ok(
            ("sliding".to_string(), *seconds, *seconds, rolling_label(*seconds)),
        ),
        UsagePolicyWindow::CalendarDay { timezone } => calendar_bucket(
            now_unix_secs,
            text::as_text(timezone),
            app_timezone,
            CalendarWindow::Day,
            1,
        ),
        UsagePolicyWindow::CalendarWeek { timezone, week_start } => calendar_bucket(
            now_unix_secs,
            text::as_text(timezone),
            app_timezone,
            CalendarWindow::Week,
            *week_start,
        ),
        UsagePolicyWindow::CalendarMonth { timezone } => calendar_bucket(
            now_unix_secs,
            text::as_text(timezone),
            app_timezone,
            CalendarWindow::Month,
            1,
        ),
        UsagePolicyWindow::SubscriptionPeriod => match entitlement_period {
            Some((starts_at, expires_at)) => Ok(
                (
                    text::decimal_text(starts_at),
                    at_least_one(expires_at.saturating_sub(starts_at)),
                    at_least_one(expires_at.saturating_sub(now_unix_secs)),
                    "subscription_period",
                ),
            ),
            None => Err(
                PlanUsageAdmissionError::Gateway(
                    error::internal(
                        "subscription period usage policy is missing its entitlement period",
                    ),
                ),
            ),
        },
        UsagePolicyWindow::Concurrent => Err(
            PlanUsageAdmissionError::Gateway(
                error::internal("concurrent window reached request counter compiler"),
            ),
        ),
    }
}

/// The counter of a rule on requests for a user at a moment, for the runtime state.
pub fn runtime_request_rule(
    user_id: &str,
    rule: &EffectiveRequestRule,
    now_unix_secs: u64,
    app_timezone: Option<&str>,
) -> (r: Result<RuntimeRequestRule, PlanUsageAdmissionError>)
    requires
        placeable(rule.window, now_unix_secs),
    ensures
        match counter(user_id@, *rule, now_unix_secs, text::opt_view(app_timezone)) {
            Ok(c) => r is Ok && r->Ok_0@ == c,
            Err(fault) => gateway_fails(r, fault),
        },
{
    let (bucket, window_seconds, retry_after, window) = match stretch_of(
        &rule.window,
        rule.entitlement_period,
        now_unix_secs,
        app_timezone,
    ) {
        Ok(found) => found,
        Err(e) => return Err(e),
    };
    let mut key = "plan-usage:user:{".to_string();
    key.append(user_id);
    key.append("}:");
    key.append(rule.identity.as_str());
    key.append(":");
    key.append(bucket.as_str());
    Ok(
        RuntimeRequestRule {
            key,
            limit: rule.limit,
            window_seconds: at_least_one(window_seconds),
            retention_seconds: at_least_one(retry_after),
            retry_after: at_least_one(retry_after),
            window,
        },
    )
}

/// The rule counts over a minute at most: the runtime state counts it, not the ledger.
pub open spec fn is_short(window: UsagePolicyWindow) -> bool {
    window is Rolling && window->seconds <= 60
}

/// Whether the runtime state counts a rule.
pub fn request_rule_uses_runtime_state(rule: &EffectiveRequestRule) -> (r: bool)
    ensures
        r == is_short(rule.window),
{
    match rule.window {
        UsagePolicyWindow::Rolling { seconds } => seconds <= 60,
        _ => false,
    }
}

/// A rolling window holds the moment that it ends at, and every admission of the last `seconds`
/// seconds; from the end of its influence on it does not hold an admission any more.
pub proof fn a_rolling_window_forgets_after_its_influence_ends(
    seconds: u64,
    admitted_at: u64,
    now: u64,
    period: Option<(u64, u64)>,
    app_timezone: Option<Seq<char>>,
)
    requires
        admitted_at <= now < u64::MAX,
    ensures
        ({
            let window = UsagePolicyWindow::Rolling { seconds };
            let p = placement(window, period, now, app_timezone)->Ok_0;
            let q = placement(window, period, admitted_at, app_timezone)->Ok_0;
            &&& p.starts_at <= now < p.ends_at
            &&& (p.starts_at <= admitted_at < p.ends_at) == (now < influence_end(
                window,
                admitted_at,
                q.ends_at,
            ))
        }),
{
}

/// The counter of a rolling window has the same key at all times, and the counter of another window
/// has one of its own for each stretch.
pub proof fn counters_are_kept_by_stretch(
    user_id: Seq<char>,
    rule: EffectiveRequestRule,
    now: u64,
    later: u64,
    app_timezone: Option<Seq<char>>,
    first: Seq<char>,
    second: Seq<char>,
)
    requires
        stretch(rule.window, rule.entitlement_period, now, app_timezone) is Ok,
        stretch(rule.window, rule.entitlement_period, later, app_timezone) is Ok,
        first == stretch(rule.window, rule.entitlement_period, now, app_timezone)->Ok_0.0,
        second == stretch(rule.window, rule.entitlement_period, later, app_timezone)->Ok_0.0,
    ensures
        rule.window is Rolling ==> first == second,
        (counter(user_id, rule, now, app_timezone)->Ok_0.key == counter(
            user_id,
            rule,
            later,
            app_timezone,
        )->Ok_0.key) == (first == second),
{
    let prefix = "plan-usage:user:{"@ + user_id + "}:"@ + rule.identity@ + ":"@;
    let a = prefix + first;
    let b = prefix + second;
    if a == b {
        assert(a.skip(prefix.len() as int) =~= first);
        assert(b.skip(prefix.len() as int) =~= second);
    }
}

/// Two stretches of a calendar window have different keys where they start at different moments.
pub proof fn calendar_stretches_stay_apart(
    rule: EffectiveRequestRule,
    now: u64,
    later: u64,
    app_timezone: Option<Seq<char>>,
)
    requires
        calendar_kind(rule.window) is Some,
        placement(rule.window, rule.entitlement_period, now, app_timezone) is Ok,
        placement(rule.window, rule.entitlement_period, later, app_timezone) is Ok,
        placement(rule.window, rule.entitlement_period, now, app_timezone)->Ok_0.starts_at
            != placement(rule.window, rule.entitlement_period, later, app_timezone)->Ok_0.starts_at,
    ensures
        stretch(rule.window, rule.entitlement_period, now, app_timezone) is Ok,
        stretch(rule.window, rule.entitlement_period, later, app_timezone) is Ok,
        stretch(rule.window, rule.entitlement_period, now, app_timezone)->Ok_0.0 != stretch(
            rule.window,
            rule.entitlement_period,
            later,
            app_timezone,
        )->Ok_0.0,
{
    let a = placement(
        rule.window,
        rule.entitlement_period,
        now,
        app_timezone,
    )->Ok_0.starts_at as nat;
    let b = placement(
        rule.window,
        rule.entitlement_period,
        later,
        app_timezone,
    )->Ok_0.starts_at as nat;
    if text::decimal(a) == text::decimal(b) {
        text::decimal_tells_numbers_apart(a, b);
    }
}

/// What a counter counted is kept exactly as long as a request may have to wait, and never for less
/// than a second.
pub proof fn a_counter_is_kept_as_long_as_one_waits(
    user_id: Seq<char>,
    rule: EffectiveRequestRule,
    now: u64,
    app_timezone: Option<Seq<char>>,
)
    ensures
        counter(user_id, rule, now, app_timezone) matches Ok(c) ==> c.retention_seconds
            == c.retry_after && c.retry_after >= 1 && c.window_seconds >= 1,
{
}

/// What is left behind in a short window is gone after a minute.
pub proof fn a_short_window_forgets_within_a_minute(
    user_id: Seq<char>,
    rule: EffectiveRequestRule,
    now: u64,
    app_timezone: Option<Seq<char>>,
)
    requires
        is_short(rule.window),
    ensures
        counter(user_id, rule, now, app_timezone) is Ok,
        counter(user_id, rule, now, app_timezone)->Ok_0.retention_seconds <= 60,
{
}

} // verus!
