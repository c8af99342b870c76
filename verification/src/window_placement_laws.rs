//! Where windows stand in time, by their own numbers.

use crate::calendar;
use crate::calendar::{CalendarWindow, CivilDate};
use crate::effective_policy::{EffectiveCostRule, EffectiveRequestRule};
use crate::error::GatewayError;
use crate::plan_windows;
use crate::plan_windows::{
    DurableRequestRule, PlanUsageAdmissionError, RuntimeCostRule, RuntimeRequestRule,
};
use crate::text;
use crate::text_laws;
use crate::timezone;
use crate::usage_policy::UsagePolicyWindow;
use vstd::prelude::*;
use vstd::string::*;

verus! {

/// A rolling window of `n` seconds holds an admission exactly for `n` seconds: it starts `n` seconds
/// before the moment, or with time itself, and ends right behind it, whatever `n` is. Of two moments
/// the later sees the earlier exactly if they are at most `n` seconds apart. One waits `n` seconds.
pub proof fn a_rolling_window_is_as_long_as_it_says(
    n: u64,
    admitted_at: u64,
    now: u64,
    period: Option<(u64, u64)>,
    zone: Option<&str>,
    r: Result<(u64, u64, u64, &'static str), GatewayError>,
)
    requires
        now < u64::MAX,
        admitted_at <= now,
        call_ensures(
            plan_windows::usage_window_bounds,
            (&UsagePolicyWindow::Rolling { seconds: n }, period, now, zone),
            r,
        ),
    ensures
        r is Ok,
        r->Ok_0.0 == if n > now {
            0
        } else {
            now - n
        },
        r->Ok_0.1 == now + 1,
        r->Ok_0.2 == n,
        (r->Ok_0.0 <= admitted_at < r->Ok_0.1) <==> now - admitted_at <= n,
        n == 1 ==> r->Ok_0.3 == "qps",
        n == 60 ==> r->Ok_0.3 == "rpm",
        n != 1 && n != 60 ==> r->Ok_0.3 == "rolling",
{
}

/// An admission counts in a rolling window for as long as some later moment sees it there: it has
/// influence up to `n` seconds later, that moment included, and not beyond. In every other window it
/// has influence until the window ends.
pub proof fn influence_lasts_as_long_as_the_window_reaches_back(
    window: UsagePolicyWindow,
    admitted_at: u64,
    ends_at: u64,
    now: u64,
)
    requires
        window is Rolling ==> admitted_at + window->seconds < u64::MAX,
        admitted_at <= now,
    ensures
        window is Rolling ==> (now < plan_windows::influence_end(window, admitted_at, ends_at)
            <==> now - admitted_at <= window->seconds),
        !(window is Rolling) ==> plan_windows::influence_end(window, admitted_at, ends_at)
            == ends_at,
{
}

/// A subscription period stands where the plan says, from its start to its end, at every moment; one
/// waits for its end, a second at least. Without a period it cannot be placed.
pub proof fn a_subscription_period_is_that_of_the_plan(
    starts_at: u64,
    ends_at: u64,
    now: u64,
    zone: Option<&str>,
    r: Result<(u64, u64, u64, &'static str), GatewayError>,
    without: Result<(u64, u64, u64, &'static str), GatewayError>,
)
    requires
        call_ensures(
            plan_windows::usage_window_bounds,
            (&UsagePolicyWindow::SubscriptionPeriod, Some((starts_at, ends_at)), now, zone),
            r,
        ),
        call_ensures(
            plan_windows::usage_window_bounds,
            (&UsagePolicyWindow::SubscriptionPeriod, None, now, zone),
            without,
        ),
    ensures
        r is Ok,
        r->Ok_0.0 == starts_at,
        r->Ok_0.1 == ends_at,
        r->Ok_0.2 == if ends_at > now + 1 {
            ends_at - now
        } else {
            1
        },
        without is Err,
{
}

/// A concurrency window has no place in time.
pub proof fn concurrency_has_no_place_in_time(
    period: Option<(u64, u64)>,
    now: u64,
    zone: Option<&str>,
    r: Result<(u64, u64, u64, &'static str), GatewayError>,
)
    requires
        call_ensures(
            plan_windows::usage_window_bounds,
            (&UsagePolicyWindow::Concurrent, period, now, zone),
            r,
        ),
    ensures
        r is Err,
{
}

/// A day starts with its date and ends with the next; a month starts with the first of its month and
/// ends with the first of the next; a week starts on its weekday, at most six days back, and ends
/// seven days later.
pub proof fn calendar_windows_begin_with_their_first_day(date: CivilDate, week_start: u8)
    requires
        date.valid(),
        date.year > calendar::FIRST_YEAR,
        1 <= week_start <= 7,
        CalendarWindow::Week.day_behind(date, week_start).year <= calendar::LAST_YEAR,
    ensures
        CalendarWindow::Day.first_day(date, week_start) == date,
        CalendarWindow::Day.day_behind(date, week_start).number() == date.number() + 1,
        ({
            let first = CalendarWindow::Month.first_day(date, week_start);
            let behind = CalendarWindow::Month.day_behind(date, week_start);
            &&& first.year == date.year && first.month == date.month && first.day == 1
            &&& behind.day == 1
            &&& date.month < 12 ==> behind.year == date.year && behind.month == date.month + 1
            &&& date.month == 12 ==> behind.year == date.year + 1 && behind.month == 1
        }),
        ({
            let first = CalendarWindow::Week.first_day(date, week_start);
            let behind = CalendarWindow::Week.day_behind(date, week_start);
            &&& date.number() - 6 <= first.number() <= date.number()
            &&& (first.number() + 3) % 7 == week_start - 1
            &&& behind.number() == first.number() + 7
        }),
{
    calendar::the_next_day_counts_one_more(date);
    calendar::a_week_holds_its_day(date, week_start);
}

/// The first of January 1970 is day zero, and was a Thursday; the weekdays go on from day to day.
pub proof fn days_are_counted_from_1970(date: CivilDate)
    requires
        date.valid(),
    ensures
        (CivilDate { year: 1970, month: 1, day: 1 }).number() == 0,
        (CivilDate { year: 1970, month: 1, day: 1 }).weekday() == 4,
        1 <= date.weekday() <= 7,
        date.next().weekday() == if date.weekday() == 7 {
            1
        } else {
            date.weekday() + 1
        },
{
    calendar::the_next_day_counts_one_more(date);
    assert(calendar::days_before_month(1970, 1) == 0);
}

/// A calendar window starts with the first midnight of its first day and ends with the last midnight
/// of the day behind it, a second later at least. One waits for that end, a second at least. It cannot
/// be placed exactly where the zone is unknown, the moment is beyond the calendar, one of those days
/// has no midnight or is beyond the calendar, or a midnight is before 1970.
pub proof fn a_calendar_window_runs_from_midnight_to_midnight(
    now: u64,
    timezone: Option<&str>,
    app_timezone: Option<&str>,
    kind: CalendarWindow,
    week_start: u8,
    r: Result<(u64, u64, u64, &'static str), GatewayError>,
    bucket: Result<(String, u64, u64, &'static str), PlanUsageAdmissionError>,
)
    requires
        call_ensures(
            plan_windows::calendar_window_bounds,
            (now, timezone, app_timezone, kind, week_start),
            r,
        ),
        call_ensures(
            plan_windows::calendar_bucket,
            (now, timezone, app_timezone, kind, week_start),
            bucket,
        ),
    ensures
        ({
            let zone = timezone::effective_timezone(
                text::opt_view(timezone),
                text::opt_view(app_timezone),
            );
            let date = calendar::date_of(zone, now);
            let first = kind.first_day(date, week_start);
            let behind = kind.day_behind(date, week_start);
            let start = calendar::earliest_midnight(zone, first.year, first.month, first.day);
            let end = calendar::latest_midnight(zone, behind.year, behind.month, behind.day);
            &&& r is Ok <==> {
                &&& timezone::is_timezone(zone)
                &&& now <= 8_210_266_876_799
                &&& behind.year <= 262_142
                &&& start is Some && start->0 >= 0
                &&& end is Some && end->0 >= 0
            }
            &&& bucket is Ok <==> r is Ok
            &&& r is Ok && end->0 > start->0 ==> {
                &&& r->Ok_0.0 == start->0
                &&& r->Ok_0.1 == end->0
                &&& bucket->Ok_0.0@ == text::decimal(start->0 as nat)
                &&& bucket->Ok_0.1 == end->0 - start->0
            }
            &&& r is Ok && end->0 > now ==> {
                &&& r->Ok_0.2 == end->0 - now
                &&& bucket->Ok_0.2 == end->0 - now
            }
            &&& r is Ok ==> {
                &&& r->Ok_0.0 == start->0
                &&& r->Ok_0.1 > r->Ok_0.0 || r->Ok_0.0 == u64::MAX
                &&& r->Ok_0.2 >= 1
                &&& bucket->Ok_0.0@ == text::decimal(start->0 as nat)
                &&& bucket->Ok_0.1 >= 1
                &&& bucket->Ok_0.2 >= 1
            }
        }),
{
}

/// A calendar window stands where the day, the week or the month stands that it is called after, in its
/// zone and with the first weekday that it names.
pub proof fn a_calendar_window_is_that_of_its_name(
    window: UsagePolicyWindow,
    kind: CalendarWindow,
    zone: Option<&str>,
    week_start: u8,
    period: Option<(u64, u64)>,
    now: u64,
    app_timezone: Option<&str>,
    r: Result<(u64, u64, u64, &'static str), GatewayError>,
    expected: Result<(u64, u64, u64, &'static str), GatewayError>,
)
    requires
        match window {
            UsagePolicyWindow::CalendarDay { timezone } => kind is Day && text::opt_string(timezone)
                == text::opt_view(zone),
            UsagePolicyWindow::CalendarWeek { timezone, week_start: first } => kind is Week
                && week_start == first && text::opt_string(timezone) == text::opt_view(zone),
            UsagePolicyWindow::CalendarMonth { timezone } => kind is Month && text::opt_string(
                timezone,
            ) == text::opt_view(zone),
            _ => false,
        },
        call_ensures(plan_windows::usage_window_bounds, (&window, period, now, app_timezone), r),
        call_ensures(
            plan_windows::calendar_window_bounds,
            (now, zone, app_timezone, kind, week_start),
            expected,
        ),
    ensures
        r is Ok <==> expected is Ok,
        r is Ok ==> r->Ok_0 == expected->Ok_0,
        r is Err ==> r->Err_0@ == expected->Err_0@,
        r is Ok ==> r->Ok_0.3 == (match window {
            UsagePolicyWindow::CalendarDay { .. } => "calendar_day",
            UsagePolicyWindow::CalendarWeek { .. } => "calendar_week",
            _ => "calendar_month",
        }),
{
    calendar_windows_do_not_ask_for_another_week(
        now,
        text::opt_view(zone),
        text::opt_view(app_timezone),
        kind,
        week_start,
    );
}

/// Days and months stand where they stand whatever weekday a week starts on.
pub proof fn calendar_windows_do_not_ask_for_another_week(
    now: u64,
    zone: Option<Seq<char>>,
    app_timezone: Option<Seq<char>>,
    kind: CalendarWindow,
    week_start: u8,
)
    ensures
        !(kind is Week) ==> plan_windows::calendar_placement(
            now,
            zone,
            app_timezone,
            kind,
            week_start,
        ) == plan_windows::calendar_placement(now, zone, app_timezone, kind, 1),
{
}

/// A calendar window is read in the zone that it names, without the white space around the name; where
/// it names none, in that of the application, if that is one; else in that of Shanghai.
pub proof fn a_window_is_read_in_the_zone_that_it_names(
    explicit: Option<Seq<char>>,
    app_timezone: Option<Seq<char>>,
)
    ensures
        ({
            let zone = timezone::effective_timezone(explicit, app_timezone);
            let named = explicit is Some && exists|i: int|
                0 <= i < explicit->0.len() && !text::is_white_space(#[trigger] explicit->0[i]);
            &&& named ==> zone == text::trimmed(explicit->0)
            &&& !named && app_timezone is Some && timezone::is_timezone(
                text::trimmed(app_timezone->0),
            ) ==> zone == text::trimmed(app_timezone->0)
            &&& !named && !(app_timezone is Some && timezone::is_timezone(
                text::trimmed(app_timezone->0),
            )) ==> zone == "Asia/Shanghai"@
        }),
{
    if explicit is Some {
        text_laws::only_blank_texts_are_trimmed_away(explicit->0);
    }
}

/// The window of a rule keeps the limit of the rule, stands where the window is placed at the moment of
/// admission, and is waited for as long as the placement says.
pub proof fn a_placed_rule_keeps_its_limit(
    rule: EffectiveRequestRule,
    now: u64,
    zone: Option<&str>,
    placed: Result<DurableRequestRule, PlanUsageAdmissionError>,
    bounds: Result<(u64, u64, u64, &'static str), GatewayError>,
)
    requires
        call_ensures(plan_windows::durable_request_rule, (&rule, now, zone), placed),
        call_ensures(
            plan_windows::usage_window_bounds,
            (&rule.window, rule.entitlement_period, now, zone),
            bounds,
        ),
    ensures
        placed is Ok <==> bounds is Ok,
        placed is Ok ==> {
            &&& placed->Ok_0.window.limit_requests == rule.limit
            &&& placed->Ok_0.window.starts_at_unix_secs == bounds->Ok_0.0
            &&& placed->Ok_0.window.ends_at_unix_secs == bounds->Ok_0.1
            &&& placed->Ok_0.retry_after == bounds->Ok_0.2
            &&& placed->Ok_0.label == bounds->Ok_0.3
            &&& placed->Ok_0.influence_ends_at_unix_secs == plan_windows::influence_end(
                rule.window,
                now,
                bounds->Ok_0.1,
            )
        },
{
}

/// The cost window of a rule keeps the limit of the rule and stands where the window is placed; its id
/// is that of the rule and the moment at which it starts.
pub proof fn a_placed_cost_rule_keeps_its_limit(
    rule: EffectiveCostRule,
    admitted_at: u64,
    zone: Option<&str>,
    placed: Result<RuntimeCostRule, GatewayError>,
    bounds: Result<(u64, u64, u64, &'static str), GatewayError>,
)
    requires
        call_ensures(plan_windows::runtime_cost_rule, (&rule, admitted_at, zone), placed),
        call_ensures(
            plan_windows::usage_window_bounds,
            (&rule.window, rule.entitlement_period, admitted_at, zone),
            bounds,
        ),
    ensures
        placed is Ok <==> bounds is Ok,
        placed is Ok ==> {
            let window = placed->Ok_0.window;
            &&& window.limit_cost_units == rule.limit_cost_units
            &&& window.starts_at_unix_secs == bounds->Ok_0.0
            &&& window.ends_at_unix_secs == bounds->Ok_0.1
            &&& window.window_id@ == rule.identity@ + ":"@ + text::decimal(bounds->Ok_0.0 as nat)
            &&& placed->Ok_0.retry_after == bounds->Ok_0.2
            &&& placed->Ok_0.label == bounds->Ok_0.3
            &&& placed->Ok_0.influence_ends_at_unix_secs == plan_windows::influence_end(
                rule.window,
                admitted_at,
                bounds->Ok_0.1,
            )
        },
{
    if placed is Ok {
        assert(placed->Ok_0@.limit == rule.limit_cost_units);
    }
}

/// The counter of a rolling rule counts over the seconds of its window, keeps what it counted and lets
/// one wait for as long, has the limit of its rule, and one key for each user and rule at all times.
pub proof fn a_rolling_counter_counts_over_its_window(
    user_id: &str,
    rule: EffectiveRequestRule,
    now: u64,
    zone: Option<&str>,
    r: Result<RuntimeRequestRule, PlanUsageAdmissionError>,
)
    requires
        call_ensures(plan_windows::runtime_request_rule, (user_id, &rule, now, zone), r),
        rule.window is Rolling,
        rule.window->seconds > 0,
    ensures
        r is Ok,
        r->Ok_0.limit == rule.limit,
        r->Ok_0.window_seconds == rule.window->seconds,
        r->Ok_0.retention_seconds == rule.window->seconds,
        r->Ok_0.retry_after == rule.window->seconds,
        rule.window->seconds == 1 ==> r->Ok_0.window == "qps",
        rule.window->seconds == 60 ==> r->Ok_0.window == "rpm",
        rule.window->seconds != 1 && rule.window->seconds != 60 ==> r->Ok_0.window == "rolling",
        r->Ok_0.key@ == "plan-usage:user:{"@ + user_id@ + "}:"@ + rule.identity@ + ":"@
            + "sliding"@,
{
    assert(r->Ok_0@.limit == rule.limit);
}

/// The counter of any other rule has the limit of its rule, and the key of its user, its rule and the
/// moment at which the window starts; it counts over the window and keeps what it counted to the end.
pub proof fn a_counter_counts_over_its_window(
    user_id: &str,
    rule: EffectiveRequestRule,
    now: u64,
    zone: Option<&str>,
    r: Result<RuntimeRequestRule, PlanUsageAdmissionError>,
    bounds: Result<(u64, u64, u64, &'static str), GatewayError>,
)
    requires
        call_ensures(plan_windows::runtime_request_rule, (user_id, &rule, now, zone), r),
        call_ensures(
            plan_windows::usage_window_bounds,
            (&rule.window, rule.entitlement_period, now, zone),
            bounds,
        ),
        !(rule.window is Rolling),
    ensures
        r is Ok <==> bounds is Ok,
        r is Ok ==> {
            &&& r->Ok_0.limit == rule.limit
            &&& r->Ok_0.key@ == "plan-usage:user:{"@ + user_id@ + "}:"@ + rule.identity@ + ":"@
                + text::decimal(bounds->Ok_0.0 as nat)
            &&& bounds->Ok_0.1 > bounds->Ok_0.0 ==> r->Ok_0.window_seconds == bounds->Ok_0.1
                - bounds->Ok_0.0
            &&& r->Ok_0.retention_seconds == bounds->Ok_0.2
            &&& r->Ok_0.retry_after == bounds->Ok_0.2
            &&& r->Ok_0.window == bounds->Ok_0.3
        },
{
    if r is Ok {
        assert(r->Ok_0@.limit == rule.limit);
    }
}

/// The runtime state counts rolling windows of up to a minute, the ledger everything else.
pub proof fn only_rolling_windows_of_a_minute_are_short(rule: EffectiveRequestRule, r: bool)
    requires
        call_ensures(plan_windows::request_rule_uses_runtime_state, (&rule,), r),
    ensures
        r <==> rule.window is Rolling && rule.window->seconds <= 60,
        r == plan_windows::is_short(rule.window),
{
}

/// A window can be placed at every moment, but for calendar windows on the last dated day, and for
/// weeks that start on no weekday.
pub proof fn windows_can_be_placed_up_to_the_last_day(window: UsagePolicyWindow, now: u64, r: bool)
    requires
        call_ensures(plan_windows::is_placeable, (&window, now), r),
    ensures
        window is Rolling || window is SubscriptionPeriod || window is Concurrent ==> r,
        now <= 8_210_266_876_799 - 86_400 && !(window is CalendarWeek) ==> r,
        now <= 8_210_266_876_799 - 86_400 && window is CalendarWeek && window->week_start <= 8 ==> r,
{
}

/// Months are as long as in the Gregorian calendar: February has a twenty-ninth day in every fourth
/// year, but of the full hundreds only in every fourth, and a year is as long as its months.
pub proof fn months_are_as_long_as_in_the_gregorian_calendar(date: CivilDate)
    ensures
        date.valid() <==> {
            let last: int = if date.month == 1 || date.month == 3 || date.month == 5 || date.month
                == 7
                || date.month == 8 || date.month == 10 || date.month == 12 {
                31
            } else if date.month != 2 {
                30
            } else if date.year as int % 400 == 0 || (date.year as int % 100 != 0
                && date.year as int % 4 == 0) {
                29
            } else {
                28
            };
            &&& -262_143 <= date.year <= 262_142
            &&& 1 <= date.month <= 12
            &&& 1 <= date.day <= last
        },
{
}

/// What is beyond the numbers is taken at their end: a rolling window at the last moment ends
/// there, and influence that would last longer lasts up to it.
pub proof fn what_is_beyond_the_numbers_is_taken_at_their_end(
    n: u64,
    now: u64,
    ends_at: u64,
    period: Option<(u64, u64)>,
    zone: Option<&str>,
    r: Result<(u64, u64, u64, &'static str), GatewayError>,
)
    requires
        call_ensures(
            plan_windows::usage_window_bounds,
            (&UsagePolicyWindow::Rolling { seconds: n }, period, now, zone),
            r,
        ),
    ensures
        now == u64::MAX ==> r is Ok && r->Ok_0.1 == u64::MAX && r->Ok_0.0 == u64::MAX - n,
        now + n >= u64::MAX ==> plan_windows::influence_end(
            UsagePolicyWindow::Rolling { seconds: n },
            now,
            ends_at,
        ) == u64::MAX,
        now + n < u64::MAX ==> plan_windows::influence_end(
            UsagePolicyWindow::Rolling { seconds: n },
            now,
            ends_at,
        ) == now + n + 1,
{
}

} // verus!
