//! What calendar windows promise of the moments in them. When days start, and which moments have which
//! date, is up to the tables of the time zone: each law says what it takes of them.

use crate::calendar;
use crate::calendar::{
    CalendarWindow, CivilDate, DAY_SECONDS, FIRST_YEAR, LAST_DATED_SECOND, LAST_YEAR,
};
use crate::plan_windows;
use crate::text;
use crate::timezone;
use vstd::prelude::*;

verus! {

/// The day starts at one moment only in a time zone.
pub open spec fn starts_once(timezone: Seq<char>, date: CivilDate) -> bool {
    let earliest = calendar::earliest_midnight(timezone, date.year, date.month, date.day);
    earliest is Some && earliest == calendar::latest_midnight(
        timezone,
        date.year,
        date.month,
        date.day,
    )
}

/// The moment at which a day starts in a time zone.
pub open spec fn start_of(timezone: Seq<char>, date: CivilDate) -> int {
    calendar::earliest_midnight(timezone, date.year, date.month, date.day)->0 as int
}

/// The last moment at which a day starts in a time zone.
pub open spec fn last_start_of(timezone: Seq<char>, date: CivilDate) -> int {
    calendar::latest_midnight(timezone, date.year, date.month, date.day)->0 as int
}

/// The moment is in the window of its date: not before the first day of the window starts for the
/// first time, but before the day behind it starts for the last time.
pub open spec fn is_in_window(
    timezone: Seq<char>,
    kind: CalendarWindow,
    week_start: u8,
    t: u64,
) -> bool {
    let date = calendar::date_of(timezone, t);
    start_of(timezone, kind.first_day(date, week_start)) <= t < last_start_of(
        timezone,
        kind.day_behind(date, week_start),
    )
}

/// The moment fits its date: of the days that have a midnight, those up to its date have started, and
/// those behind its date are still to start, at least once more.
pub open spec fn fits_its_date(timezone: Seq<char>, t: u64) -> bool {
    let date = calendar::date_of(timezone, t);
    &&& forall|day: CivilDate|
        day.valid() && day.number() <= date.number() && (
        #[trigger] calendar::earliest_midnight(timezone, day.year, day.month, day.day)) is Some
            ==> start_of(timezone, day) <= t
    &&& forall|day: CivilDate|
        day.valid() && day.number() > date.number() && (
        #[trigger] calendar::latest_midnight(timezone, day.year, day.month, day.day)) is Some
            ==> t < last_start_of(timezone, day)
}

/// The day starts once, and so does the next one, later.
pub open spec fn starts_before_next(timezone: Seq<char>, date: CivilDate) -> bool {
    &&& starts_once(timezone, date)
    &&& starts_once(timezone, date.next())
    &&& start_of(timezone, date) < start_of(timezone, date.next())
}

/// The moment is in a day: not before its start, but before the start of the next.
pub open spec fn is_in_day(timezone: Seq<char>, date: CivilDate, t: u64) -> bool {
    start_of(timezone, date) <= t < start_of(timezone, date.next())
}

/// So many days from a day on start one behind the other, each once.
pub open spec fn days_follow(timezone: Seq<char>, first: CivilDate, count: nat) -> bool {
    forall|i: nat| i < count ==> starts_before_next(timezone, #[trigger] first.plus(i))
}

/// The moments in so many days from a day on have the date of their day.
pub open spec fn moments_are_dated(timezone: Seq<char>, first: CivilDate, count: nat) -> bool {
    forall|i: nat, t: u64|
        #![trigger first.plus(i), calendar::date_of(timezone, t)]
        i < count && t <= LAST_DATED_SECOND - DAY_SECONDS && is_in_day(timezone, first.plus(i), t)
            ==> calendar::date_of(timezone, t) == first.plus(i)
}

/// How many days a window has that a day falls into.
pub open spec fn days_of(kind: CalendarWindow, date: CivilDate) -> nat {
    match kind {
        CalendarWindow::Day => 1,
        CalendarWindow::Week => 7,
        CalendarWindow::Month => calendar::days_in_month(
            date.year as int,
            date.month as int,
        ) as nat,
    }
}

proof fn lemma_starts_grow(timezone: Seq<char>, first: CivilDate, count: nat, i: nat, j: nat)
    requires
        days_follow(timezone, first, count),
        i <= j <= count,
    ensures
        start_of(timezone, first.plus(i)) + (j - i) <= start_of(timezone, first.plus(j)),
    decreases j - i,
{
    if i < j {
        let k = (j - 1) as nat;
        lemma_starts_grow(timezone, first, count, i, k);
        assert(starts_before_next(timezone, first.plus(k)));
        assert(first.plus(j) == first.plus(k).next());
    }
}

proof fn lemma_day_of_moment(timezone: Seq<char>, first: CivilDate, count: nat, t: u64) -> (i: nat)
    requires
        days_follow(timezone, first, count),
        moments_are_dated(timezone, first, count),
        t <= LAST_DATED_SECOND - DAY_SECONDS,
        start_of(timezone, first) <= t < start_of(timezone, first.plus(count)),
    ensures
        i < count,
        calendar::date_of(timezone, t) == first.plus(i),
    decreases count,
{
    if count == 0 {
        assert(first.plus(0) == first);
        0
    } else {
        let k = (count - 1) as nat;
        assert(first.plus(count) == first.plus(k).next());
        assert(starts_before_next(timezone, first.plus(k)));
        if t < start_of(timezone, first.plus(k)) {
            lemma_day_of_moment(timezone, first, k, t)
        } else {
            k
        }
    }
}

proof fn lemma_month_day(first: CivilDate, i: nat)
    requires
        first.valid(),
        first.day == 1,
        i < calendar::days_in_month(first.year as int, first.month as int),
    ensures
        first.plus(i) == (CivilDate { day: (1 + i) as u32, ..first }),
    decreases i,
{
    if i > 0 {
        lemma_month_day(first, (i - 1) as nat);
    }
}

proof fn lemma_years_grow(date: CivilDate, i: nat, j: nat)
    requires
        date.valid(),
        i <= j <= 7,
    ensures
        date.plus(i).year <= date.plus(j).year,
    decreases j - i,
{
    if i < j {
        let k = (j - 1) as nat;
        lemma_years_grow(date, i, k);
        calendar::lemma_plus(date, k);
        assert(date.plus(j) == date.plus(k).next());
    }
}

proof fn lemma_back_again(date: CivilDate, i: nat, j: nat)
    requires
        date.valid(),
        j <= i <= 7,
        date.plus(i).year <= LAST_YEAR,
    ensures
        date.plus(i).minus(j) == date.plus((i - j) as nat),
    decreases j,
{
    if j > 0 {
        lemma_back_again(date, i, (j - 1) as nat);
        let k = (i - j) as nat;
        lemma_years_grow(date, k, i);
        calendar::lemma_plus(date, k);
        calendar::the_next_day_counts_one_more(date.plus(k));
        assert(date.plus((k + 1) as nat) == date.plus(k).next());
    }
}

proof fn lemma_there_again(date: CivilDate, i: nat, j: nat)
    requires
        date.valid(),
        date.year > FIRST_YEAR,
        j <= i < 7,
    ensures
        date.minus(i).plus(j) == date.minus((i - j) as nat),
    decreases j,
{
    if j > 0 {
        lemma_there_again(date, i, (j - 1) as nat);
        let k = (i - j) as nat;
        calendar::lemma_minus(date, k);
        calendar::lemma_minus(date, k + 1);
        calendar::the_previous_day_counts_one_less(date.minus(k));
        assert(date.minus(k + 1) == date.minus(k).previous());
    }
}

proof fn lemma_day_of_week(first: CivilDate, week_start: u8, i: nat)
    requires
        first.valid(),
        first.weekday() == week_start,
        i < 7,
        first.plus(7).year <= LAST_YEAR,
    ensures
        CalendarWindow::Week.first_day(first.plus(i), week_start) == first,
{
    lemma_years_grow(first, i, 7);
    calendar::lemma_plus(first, i);
    lemma_back_again(first, i, i);
    assert(first.plus(0) == first);
    let n = first.number();
    assert(first.plus(i).number() == n + i);
    assert(((n + i + 3) % 7 + 1 + 7 - week_start) % 7 == i);
}

proof fn lemma_week_of_days(date: CivilDate, week_start: u8) -> (at: nat)
    requires
        date.valid(),
        date.year > FIRST_YEAR,
        1 <= week_start <= 7,
        CalendarWindow::Week.day_behind(date, week_start).year <= LAST_YEAR,
    ensures
        at < 7,
        date == CalendarWindow::Week.first_day(date, week_start).plus(at),
        CalendarWindow::Week.first_day(date, week_start).valid(),
        CalendarWindow::Week.first_day(date, week_start).weekday() == week_start,
        ({
            let behind = CalendarWindow::Week.day_behind(date, week_start);
            CalendarWindow::Week.first_day(behind, week_start) == behind
        }),
{
    let elapsed = ((date.weekday() + 7 - week_start) % 7) as nat;
    calendar::a_week_holds_its_day(date, week_start);
    calendar::lemma_minus(date, elapsed);
    lemma_there_again(date, elapsed, elapsed);
    assert(date.minus(0) == date);
    let first = date.minus(elapsed);
    let behind = first.plus(7);
    assert(behind.number() == first.number() + 7);
    assert((first.number() + 7 + 3) % 7 == (first.number() + 3) % 7);
    assert(behind.weekday() == week_start);
    assert(behind.minus(0) == behind);
    elapsed
}

/// A window is made of its days: the day that was asked for is one of them, and the day behind the
/// last starts the next window.
proof fn lemma_window_of_days(kind: CalendarWindow, date: CivilDate, week_start: u8) -> (at: nat)
    requires
        date.valid(),
        date.year > FIRST_YEAR,
        1 <= week_start <= 7,
        kind.day_behind(date, week_start).year <= LAST_YEAR,
    ensures
        at < days_of(kind, date),
        date == kind.first_day(date, week_start).plus(at),
        kind.day_behind(date, week_start) == kind.first_day(date, week_start).plus(
            days_of(kind, date),
        ),
        kind.first_day(kind.day_behind(date, week_start), week_start) == kind.day_behind(
            date,
            week_start,
        ),
{
    match kind {
        CalendarWindow::Day => {
            reveal_with_fuel(CivilDate::plus, 2);
            0
        },
        CalendarWindow::Week => lemma_week_of_days(date, week_start),
        CalendarWindow::Month => {
            let first = date.month_start();
            let count = days_of(kind, date);
            lemma_month_day(first, (date.day - 1) as nat);
            lemma_month_day(first, (count - 1) as nat);
            assert(first.plus(count) == first.plus((count - 1) as nat).next());
            (date.day - 1) as nat
        },
    }
}

/// The days of a window are all in that window.
proof fn lemma_day_of_window(kind: CalendarWindow, date: CivilDate, week_start: u8, i: nat)
    requires
        date.valid(),
        date.year > FIRST_YEAR,
        1 <= week_start <= 7,
        kind.day_behind(date, week_start).year <= LAST_YEAR,
        i < days_of(kind, date),
    ensures
        ({
            let day = kind.first_day(date, week_start).plus(i);
            &&& kind.first_day(day, week_start) == kind.first_day(date, week_start)
            &&& kind.day_behind(day, week_start) == kind.day_behind(date, week_start)
        }),
{
    match kind {
        CalendarWindow::Day => {
            assert(date.plus(0) == date);
        },
        CalendarWindow::Week => {
            let at = lemma_week_of_days(date, week_start);
            lemma_day_of_week(kind.first_day(date, week_start), week_start, i);
        },
        CalendarWindow::Month => {
            lemma_month_day(date.month_start(), i);
        },
    }
}

/// Where the moment is not before the first midnight of the first day of its window, and before the
/// last midnight of the day behind it, the window holds the moment: it starts at that moment or before,
/// and ends behind it. Its length and its rest reach to one and the same end, and the rest is at least
/// a second.
pub proof fn a_calendar_window_holds_its_moment(
    now: u64,
    zone: Option<Seq<char>>,
    app_timezone: Option<Seq<char>>,
    kind: CalendarWindow,
    week_start: u8,
    start: u64,
)
    requires
        is_in_window(timezone::effective_timezone(zone, app_timezone), kind, week_start, now),
        plan_windows::calendar_stretch(now, zone, app_timezone, kind, week_start) is Ok,
        plan_windows::calendar_stretch(now, zone, app_timezone, kind, week_start)->Ok_0.0
            == text::decimal(start as nat),
    ensures
        ({
            let (_, length, rest, _) = plan_windows::calendar_stretch(
                now,
                zone,
                app_timezone,
                kind,
                week_start,
            )->Ok_0;
            &&& start <= now < start + length
            &&& rest == start + length - now
            &&& rest >= 1
        }),
        ({
            let placed = plan_windows::calendar_placement(
                now,
                zone,
                app_timezone,
                kind,
                week_start,
            );
            &&& placed is Ok
            &&& placed->Ok_0.starts_at == start
            &&& start <= now < placed->Ok_0.ends_at
            &&& placed->Ok_0.retry_after == placed->Ok_0.ends_at - now
        }),
{
    let tz = timezone::effective_timezone(zone, app_timezone);
    let (starts_at, ends_at) = calendar::period_of(now, tz, kind, week_start)->Ok_0;
    text::decimal_tells_numbers_apart(starts_at as nat, start as nat);
}

/// A moment that fits its date is in its window, whatever the kind of the window: days may start more
/// than once, or without a midnight.
pub proof fn a_moment_that_fits_its_date_is_in_its_window(
    now: u64,
    timezone: Seq<char>,
    kind: CalendarWindow,
    week_start: u8,
)
    requires
        1 <= week_start <= 7,
        calendar::is_dated(timezone, now),
        calendar::period_of(now, timezone, kind, week_start) is Ok,
        fits_its_date(timezone, now),
    ensures
        is_in_window(timezone, kind, week_start, now),
{
    let date = calendar::date_of(timezone, now);
    match kind {
        CalendarWindow::Day => {
            calendar::the_next_day_counts_one_more(date);
        },
        CalendarWindow::Week => {
            calendar::a_week_holds_its_day(date, week_start);
        },
        CalendarWindow::Month => {
            calendar::a_day_and_a_month_hold_their_day(date);
        },
    }
}

proof fn lemma_period_of_days(
    now: u64,
    tz: Seq<char>,
    kind: CalendarWindow,
    week_start: u8,
)
    requires
        1 <= week_start <= 7,
        calendar::is_dated(tz, now),
        days_follow(
            tz,
            kind.first_day(calendar::date_of(tz, now), week_start),
            days_of(kind, calendar::date_of(tz, now)),
        ),
        calendar::period_of(now, tz, kind, week_start) is Ok,
    ensures
        ({
            let (start, end) = calendar::period_of(now, tz, kind, week_start)->Ok_0;
            let date = calendar::date_of(tz, now);
            &&& start < end
            &&& start == start_of(tz, kind.first_day(date, week_start))
            &&& end == start_of(tz, kind.day_behind(date, week_start))
        }),
{
    let date = calendar::date_of(tz, now);
    let first = kind.first_day(date, week_start);
    let count = days_of(kind, date);
    let at = lemma_window_of_days(kind, date, week_start);
    assert(first.plus(0) == first);
    assert(starts_before_next(tz, first.plus((count - 1) as nat)));
    assert(first.plus(count) == first.plus((count - 1) as nat).next());
    lemma_starts_grow(tz, first, count, 0, count);
}

/// Two moments whose dates are days of one window are told the same window: the same start, the same
/// length and the same name.
pub proof fn the_days_of_a_window_are_told_one_window(
    now: u64,
    other: u64,
    zone: Option<Seq<char>>,
    app_timezone: Option<Seq<char>>,
    kind: CalendarWindow,
    week_start: u8,
    day: nat,
)
    requires
        other <= LAST_DATED_SECOND,
        1 <= week_start <= 7,
        ({
            let tz = timezone::effective_timezone(zone, app_timezone);
            let date = calendar::date_of(tz, now);
            &&& calendar::is_dated(tz, now)
            &&& day < days_of(kind, date)
            &&& calendar::date_of(tz, other) == kind.first_day(date, week_start).plus(day)
        }),
        plan_windows::calendar_stretch(now, zone, app_timezone, kind, week_start) is Ok,
    ensures
        ({
            let told = plan_windows::calendar_stretch(now, zone, app_timezone, kind, week_start);
            let same = plan_windows::calendar_stretch(other, zone, app_timezone, kind, week_start);
            &&& same is Ok
            &&& same->Ok_0.0 == told->Ok_0.0
            &&& same->Ok_0.1 == told->Ok_0.1
            &&& same->Ok_0.3 == told->Ok_0.3
        }),
{
    let tz = timezone::effective_timezone(zone, app_timezone);
    lemma_day_of_window(kind, calendar::date_of(tz, now), week_start, day);
}

/// Where the days of the window start one behind the other, and the moments in them have their dates,
/// every moment in the window is told the same window: the same start, the same length and the same
/// name.
pub proof fn a_calendar_window_is_that_of_all_its_moments(
    now: u64,
    other: u64,
    zone: Option<Seq<char>>,
    app_timezone: Option<Seq<char>>,
    kind: CalendarWindow,
    week_start: u8,
    start: u64,
)
    requires
        other <= LAST_DATED_SECOND - DAY_SECONDS,
        1 <= week_start <= 7,
        ({
            let tz = timezone::effective_timezone(zone, app_timezone);
            let date = calendar::date_of(tz, now);
            &&& calendar::is_dated(tz, now)
            &&& days_follow(tz, kind.first_day(date, week_start), days_of(kind, date))
            &&& moments_are_dated(tz, kind.first_day(date, week_start), days_of(kind, date))
        }),
        plan_windows::calendar_stretch(now, zone, app_timezone, kind, week_start) is Ok,
        plan_windows::calendar_stretch(now, zone, app_timezone, kind, week_start)->Ok_0.0
            == text::decimal(start as nat),
        start <= other < start + plan_windows::calendar_stretch(
            now,
            zone,
            app_timezone,
            kind,
            week_start,
        )->Ok_0.1,
    ensures
        ({
            let told = plan_windows::calendar_stretch(now, zone, app_timezone, kind, week_start);
            let same = plan_windows::calendar_stretch(other, zone, app_timezone, kind, week_start);
            &&& same is Ok
            &&& same->Ok_0.0 == told->Ok_0.0
            &&& same->Ok_0.1 == told->Ok_0.1
            &&& same->Ok_0.3 == told->Ok_0.3
        }),
{
    let tz = timezone::effective_timezone(zone, app_timezone);
    let date = calendar::date_of(tz, now);
    let first = kind.first_day(date, week_start);
    let (starts_at, ends_at) = calendar::period_of(now, tz, kind, week_start)->Ok_0;
    text::decimal_tells_numbers_apart(starts_at as nat, start as nat);
    lemma_period_of_days(now, tz, kind, week_start);
    let at = lemma_window_of_days(kind, date, week_start);
    let i = lemma_day_of_moment(tz, first, days_of(kind, date), other);
    the_days_of_a_window_are_told_one_window(
        now,
        other,
        zone,
        app_timezone,
        kind,
        week_start,
        i,
    );
}

/// Where the days of the window and the day behind it start one behind the other, and the moments in
/// them have their dates, the end of the window is the start of the next: the moment at which a window
/// ends is told another one, which starts there.
pub proof fn the_next_calendar_window_starts_where_one_ends(
    now: u64,
    zone: Option<Seq<char>>,
    app_timezone: Option<Seq<char>>,
    kind: CalendarWindow,
    week_start: u8,
    start: u64,
    end: u64,
)
    requires
        end <= LAST_DATED_SECOND - DAY_SECONDS,
        1 <= week_start <= 7,
        ({
            let tz = timezone::effective_timezone(zone, app_timezone);
            let date = calendar::date_of(tz, now);
            &&& calendar::is_dated(tz, now)
            &&& days_follow(tz, kind.first_day(date, week_start), days_of(kind, date) + 1)
            &&& moments_are_dated(tz, kind.first_day(date, week_start), days_of(kind, date) + 1)
        }),
        plan_windows::calendar_stretch(now, zone, app_timezone, kind, week_start) is Ok,
        plan_windows::calendar_stretch(now, zone, app_timezone, kind, week_start)->Ok_0.0
            == text::decimal(start as nat),
        end == start + plan_windows::calendar_stretch(
            now,
            zone,
            app_timezone,
            kind,
            week_start,
        )->Ok_0.1,
    ensures
        plan_windows::calendar_stretch(end, zone, app_timezone, kind, week_start) matches Ok(next)
            ==> {
            &&& next.0 == text::decimal(end as nat)
            &&& next.0 != text::decimal(start as nat)
        },
{
    let tz = timezone::effective_timezone(zone, app_timezone);
    let date = calendar::date_of(tz, now);
    let first = kind.first_day(date, week_start);
    let count = days_of(kind, date);
    let (starts_at, ends_at) = calendar::period_of(now, tz, kind, week_start)->Ok_0;
    text::decimal_tells_numbers_apart(starts_at as nat, start as nat);
    assert(days_follow(tz, first, count));
    lemma_period_of_days(now, tz, kind, week_start);
    let at = lemma_window_of_days(kind, date, week_start);
    assert(starts_before_next(tz, first.plus(count)));
    assert(calendar::date_of(tz, end) == first.plus(count));
    if text::decimal(end as nat) == text::decimal(start as nat) {
        text::decimal_tells_numbers_apart(end as nat, start as nat);
    }
}

} // verus!
