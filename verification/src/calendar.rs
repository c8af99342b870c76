//! Calendar days, weeks and months in a time zone.

use crate::error;
use crate::error::{GatewayError, GatewayFault};
use crate::timezone;
use chrono::{Datelike, TimeZone};
use vstd::prelude::*;

verus! {

/// A day of the proleptic Gregorian calendar.
#[derive(Debug, Clone, Copy, PartialEq, Eq, Structural)]
pub struct CivilDate {
    pub year: i32,
    pub month: u32,
    pub day: u32,
}

/// The last year that dates reach.
pub const LAST_YEAR: i32 = 262_142;

/// The first year that dates reach.
pub const FIRST_YEAR: i32 = -262_143;

/// The last second that has a date.
pub const LAST_DATED_SECOND: u64 = 8_210_266_876_799;

/// The seconds in a day.
pub const DAY_SECONDS: u64 = 86_400;

/// A leap year.
pub open spec fn is_leap(year: int) -> bool {
    year % 4 == 0 && (year % 100 != 0 || year % 400 == 0)
}

/// The days in a month.
pub open spec fn days_in_month(year: int, month: int) -> int {
    if month == 2 {
        if is_leap(year) {
            29
        } else {
            28
        }
    } else if month == 4 || month == 6 || month == 9 || month == 11 {
        30
    } else {
        31
    }
}

/// The days of a year before a month.
pub open spec fn days_before_month(year: int, month: int) -> int
    decreases month,
{
    if month <= 1 {
        0
    } else {
        days_before_month(year, month - 1) + days_in_month(year, month - 1)
    }
}

/// The days from the first year to the start of a year.
pub open spec fn days_before_year(year: int) -> int {
    let y = year - 1;
    365 * y + y / 4 - y / 100 + y / 400
}

impl CivilDate {
    /// The date exists and is within reach.
    pub open spec fn valid(self) -> bool {
        &&& FIRST_YEAR <= self.year <= LAST_YEAR
        &&& 1 <= self.month <= 12
        &&& 1 <= self.day <= days_in_month(self.year as int, self.month as int)
    }

    /// The number of the day, counted from the first of January 1970.
    pub open spec fn number(self) -> int {
        days_before_year(self.year as int) + days_before_month(
            self.year as int,
            self.month as int,
        ) + self.day - 719_163
    }

    /// The next day.
    pub open spec fn next(self) -> CivilDate {
        if self.day < days_in_month(self.year as int, self.month as int) {
            CivilDate { day: (self.day + 1) as u32, ..self }
        } else if self.month < 12 {
            CivilDate { month: (self.month + 1) as u32, day: 1, ..self }
        } else {
            CivilDate { year: (self.year + 1) as i32, month: 1, day: 1 }
        }
    }

    /// The day before.
    pub open spec fn previous(self) -> CivilDate {
        if self.day > 1 {
            CivilDate { day: (self.day - 1) as u32, ..self }
        } else if self.month > 1 {
            CivilDate {
                month: (self.month - 1) as u32,
                day: days_in_month(self.year as int, self.month - 1) as u32,
                ..self
            }
        } else {
            CivilDate { year: (self.year - 1) as i32, month: 12, day: 31 }
        }
    }

    /// The day `n` days later.
    pub open spec fn plus(self, n: nat) -> CivilDate
        decreases n,
    {
        if n == 0 {
            self
        } else {
            self.plus((n - 1) as nat).next()
        }
    }

    /// The day `n` days before.
    pub open spec fn minus(self, n: nat) -> CivilDate
        decreases n,
    {
        if n == 0 {
            self
        } else {
            self.minus((n - 1) as nat).previous()
        }
    }

    /// The day of the week, one for Monday to seven for Sunday.
    pub open spec fn weekday(self) -> int {
        (self.number() + 3) % 7 + 1
    }

    /// The first day of the month.
    pub open spec fn month_start(self) -> CivilDate {
        CivilDate { day: 1, ..self }
    }

    /// The first day of the next month.
    pub open spec fn next_month_start(self) -> CivilDate {
        if self.month == 12 {
            CivilDate { year: (self.year + 1) as i32, month: 1, day: 1 }
        } else {
            CivilDate { month: (self.month + 1) as u32, day: 1, ..self }
        }
    }
}

/// The local date that a moment falls on in a time zone.
pub uninterp spec fn local_date(timezone: Seq<char>, unix_secs: u64) -> (int, int, int);

/// The first moment at which a day starts in a time zone: none where the clock skips midnight.
pub uninterp spec fn earliest_midnight(
    timezone: Seq<char>,
    year: i32,
    month: u32,
    day: u32,
) -> Option<i64>;

/// The last moment at which a day starts in a time zone: none where the clock skips midnight.
pub uninterp spec fn latest_midnight(
    timezone: Seq<char>,
    year: i32,
    month: u32,
    day: u32,
) -> Option<i64>;

/// Calls `DateTime::<Utc>::with_timezone` and `DateTime::date_naive` on a moment after 1970. Every
/// such moment has a date; since a zone is less than a day away from UTC, that is the date in UTC, or
/// the one before or behind it. The last day is left out: in a zone ahead of UTC it has no date.
#[verifier::external_body]
fn date_in_timezone(timezone: &str, unix_secs: u64) -> (r: CivilDate)
    requires
        timezone::is_timezone(timezone@),
        unix_secs <= LAST_DATED_SECOND - DAY_SECONDS,
    ensures
        local_date(timezone@, unix_secs) == (r.year as int, r.month as int, r.day as int),
        r.valid(),
        unix_secs / DAY_SECONDS - 1 <= r.number() <= unix_secs / DAY_SECONDS + 1,
{
    let zone = timezone.parse::<chrono_tz::Tz>().unwrap();
    let moment = chrono::Utc.timestamp_opt(unix_secs as i64, 0).unwrap();
    let date = moment.with_timezone(&zone).date_naive();
    CivilDate { year: date.year(), month: date.month(), day: date.day() }
}

/// Calls `NaiveDate::succ_opt`: the next day, unless that is out of reach.
#[verifier::external_body]
fn next_day(date: CivilDate) -> (r: Option<CivilDate>)
    requires
        date.valid(),
    ensures
        r == if date.next().year <= LAST_YEAR {
            Some(date.next())
        } else {
            None
        },
{
    let day = chrono::NaiveDate::from_ymd_opt(date.year, date.month, date.day).unwrap();
    day.succ_opt().map(|d| CivilDate { year: d.year(), month: d.month(), day: d.day() })
}

/// Calls `NaiveDate::weekday` and `Weekday::num_days_from_monday`: the days since Monday.
#[verifier::external_body]
fn days_since_monday(date: CivilDate) -> (r: u32)
    requires
        date.valid(),
    ensures
        r == date.weekday() - 1,
{
    let day = chrono::NaiveDate::from_ymd_opt(date.year, date.month, date.day).unwrap();
    day.weekday().num_days_from_monday()
}

/// Subtracts a `chrono::Duration` of days from a `NaiveDate`: the day that many days before. Less
/// than a week before a day that is not in the first year is within reach.
#[verifier::external_body]
fn days_before(date: CivilDate, days: u32) -> (r: CivilDate)
    requires
        date.valid(),
        date.year > FIRST_YEAR,
        days < 7,
    ensures
        r == date.minus(days as nat),
{
    let day = chrono::NaiveDate::from_ymd_opt(date.year, date.month, date.day).unwrap();
    let d = day - chrono::Duration::days(i64::from(days));
    CivilDate { year: d.year(), month: d.month(), day: d.day() }
}

/// Calls `NaiveDate::checked_add_days`: the day that many days later, unless that is out of reach.
#[verifier::external_body]
fn days_after(date: CivilDate, days: u32) -> (r: Option<CivilDate>)
    requires
        date.valid(),
        days <= 7,
    ensures
        r == if date.plus(days as nat).year <= LAST_YEAR {
            Some(date.plus(days as nat))
        } else {
            None
        },
{
    let day = chrono::NaiveDate::from_ymd_opt(date.year, date.month, date.day).unwrap();
    let later = day.checked_add_days(chrono::Days::new(u64::from(days)));
    later.map(|d| CivilDate { year: d.year(), month: d.month(), day: d.day() })
}

/// Calls `NaiveDate::from_ymd_opt`: the date, where it exists and is within reach.
#[verifier::external_body]
fn existing_date(year: i32, month: u32, day: u32) -> (r: Option<CivilDate>)
    ensures
        r == if (CivilDate { year, month, day }).valid() {
            Some(CivilDate { year, month, day })
        } else {
            None
        },
{
    let date = chrono::NaiveDate::from_ymd_opt(year, month, day);
    date.map(|d| CivilDate { year: d.year(), month: d.month(), day: d.day() })
}

/// Calls `Tz::from_local_datetime` on the midnight at which a day starts, and `earliest` on what
/// came back: the first moment that the clock shows it, as seconds since 1970.
#[verifier::external_body]
fn first_midnight(timezone: &str, date: CivilDate) -> (r: Option<i64>)
    requires
        timezone::is_timezone(timezone@),
        date.valid(),
    ensures
        r == earliest_midnight(timezone@, date.year, date.month, date.day),
{
    let zone = timezone.parse::<chrono_tz::Tz>().unwrap();
    let day = chrono::NaiveDate::from_ymd_opt(date.year, date.month, date.day).unwrap();
    let midnight = zone.from_local_datetime(&day.and_hms_opt(0, 0, 0).unwrap());
    midnight.earliest().map(|moment| moment.timestamp())
}

/// Calls `Tz::from_local_datetime` on the midnight at which a day starts, and `latest` on what came
/// back: the last moment that the clock shows it, as seconds since 1970.
#[verifier::external_body]
fn last_midnight(timezone: &str, date: CivilDate) -> (r: Option<i64>)
    requires
        timezone::is_timezone(timezone@),
        date.valid(),
    ensures
        r == latest_midnight(timezone@, date.year, date.month, date.day),
{
    let zone = timezone.parse::<chrono_tz::Tz>().unwrap();
    let day = chrono::NaiveDate::from_ymd_opt(date.year, date.month, date.day).unwrap();
    let midnight = zone.from_local_datetime(&day.and_hms_opt(0, 0, 0).unwrap());
    midnight.latest().map(|moment| moment.timestamp())
}

/// A calendar window.
#[derive(Debug, Clone, Copy, PartialEq, Eq, Structural)]
pub enum CalendarWindow {
    Day,
    Week,
    Month,
}

impl CalendarWindow {
    /// The name of the window.
    pub open spec fn name(self) -> &'static str {
        match self {
            CalendarWindow::Day => "calendar_day",
            CalendarWindow::Week => "calendar_week",
            CalendarWindow::Month => "calendar_month",
        }
    }

    pub(crate) fn label(self) -> (r: &'static str)
        ensures
            r == self.name(),
    {
        match self {
            CalendarWindow::Day => "calendar_day",
            CalendarWindow::Week => "calendar_week",
            CalendarWindow::Month => "calendar_month",
        }
    }

    /// The first day of the window that a day falls into. Weeks start on the weekday `week_start`.
    pub open spec fn first_day(self, date: CivilDate, week_start: u8) -> CivilDate {
        match self {
            CalendarWindow::Day => date,
            CalendarWindow::Week => date.minus(((date.weekday() + 7 - week_start) % 7) as nat),
            CalendarWindow::Month => date.month_start(),
        }
    }

    /// The first day behind the window that a day falls into.
    pub open spec fn day_behind(self, date: CivilDate, week_start: u8) -> CivilDate {
        match self {
            CalendarWindow::Day => date.next(),
            CalendarWindow::Week => self.first_day(date, week_start).plus(7),
            CalendarWindow::Month => date.next_month_start(),
        }
    }
}

/// The error of a calendar window that cannot be told.
pub open spec fn overflow_fault() -> GatewayFault {
    GatewayFault::Internal("usage policy calendar window is out of range"@)
}

/// When a window starts and when it ends, as its midnights say.
pub open spec fn bounds_between(
    timezone: Seq<char>,
    first: CivilDate,
    behind: CivilDate,
) -> Result<(u64, u64), GatewayFault> {
    let start = earliest_midnight(timezone, first.year, first.month, first.day);
    let end = latest_midnight(timezone, behind.year, behind.month, behind.day);
    if behind.year > LAST_YEAR || start is None || end is None || start->0 < 0 || end->0 < 0 {
        Err(overflow_fault())
    } else {
        Ok((start->0 as u64, end->0 as u64))
    }
}

/// The date that a moment falls on in a time zone.
pub open spec fn date_of(timezone: Seq<char>, unix_secs: u64) -> CivilDate {
    let (year, month, day) = local_date(timezone, unix_secs);
    CivilDate { year: year as i32, month: month as u32, day: day as u32 }
}

/// The moment has a date in a time zone, and one that is not in the first year.
pub open spec fn is_dated(timezone: Seq<char>, unix_secs: u64) -> bool {
    date_of(timezone, unix_secs).valid() && date_of(timezone, unix_secs).year > FIRST_YEAR
}

/// When the window that holds a moment starts, and when it ends, in a time zone.
pub open spec fn period_of(
    unix_secs: u64,
    timezone: Seq<char>,
    kind: CalendarWindow,
    week_start: u8,
) -> Result<(u64, u64), GatewayFault> {
    if !timezone::is_timezone(timezone) {
        Err(GatewayFault::Internal("usage policy contains an invalid timezone"@))
    } else if unix_secs > LAST_DATED_SECOND {
        Err(GatewayFault::Internal("usage policy timestamp is out of range"@))
    } else {
        let date = date_of(timezone, unix_secs);
        bounds_between(
            timezone,
            kind.first_day(date, week_start),
            kind.day_behind(date, week_start),
        )
    }
}

proof fn lemma_year_step(year: int)
    ensures
        days_before_year(year + 1) == days_before_year(year) + if is_leap(year) {
            366int
        } else {
            365int
        },
{
    let y = year - 1;
    assert(year / 4 == y / 4 + if year % 4 == 0 {
        1int
    } else {
        0int
    });
    assert(year / 100 == y / 100 + if year % 100 == 0 {
        1int
    } else {
        0int
    });
    assert(year / 400 == y / 400 + if year % 400 == 0 {
        1int
    } else {
        0int
    });
}

proof fn lemma_days_in_year(year: int)
    ensures
        days_before_month(year, 12) + 31 == if is_leap(year) {
            366int
        } else {
            365int
        },
{
    reveal_with_fuel(days_before_month, 13);
}

/// The next day has the next number.
pub proof fn the_next_day_counts_one_more(date: CivilDate)
    requires
        date.valid(),
    ensures
        date.next().number() == date.number() + 1,
        date.next().previous() == date,
        date.next().year <= LAST_YEAR ==> date.next().valid(),
{
    if date.day == days_in_month(date.year as int, date.month as int) {
        if date.month == 12 {
            lemma_year_step(date.year as int);
            lemma_days_in_year(date.year as int);
            assert(days_before_month(date.year + 1, 1) == 0);
        }
    }
}

/// The day before has the number before.
pub proof fn the_previous_day_counts_one_less(date: CivilDate)
    requires
        date.valid(),
        date.previous().year >= FIRST_YEAR,
    ensures
        date.previous().valid(),
        date.previous().number() == date.number() - 1,
        date.previous().next() == date,
{
    if date.day == 1 && date.month == 1 {
        lemma_year_step(date.year - 1);
        lemma_days_in_year(date.year - 1);
        assert(days_before_month(date.year as int, 1) == 0);
    } else if date.day == 1 {
        let m = (date.month - 1) as int;
        assert(days_before_month(date.year as int, m + 1) == days_before_month(date.year as int, m)
            + days_in_month(date.year as int, m));
    }
}

pub(crate) proof fn lemma_minus(date: CivilDate, n: nat)
    requires
        date.valid(),
        date.year > FIRST_YEAR,
        n < 7,
    ensures
        date.minus(n).valid(),
        date.minus(n).number() == date.number() - n,
        date.minus(n).year >= date.year - 1,
        date.minus(n).year == date.year - 1 ==> date.minus(n).month == 12 && date.minus(n).day
            >= 32 - n,
    decreases n,
{
    if n > 0 {
        lemma_minus(date, (n - 1) as nat);
        the_previous_day_counts_one_less(date.minus((n - 1) as nat));
    }
}

pub(crate) proof fn lemma_plus(date: CivilDate, n: nat)
    requires
        date.valid(),
        n <= 7,
    ensures
        date.plus(n).year <= LAST_YEAR ==> date.plus(n).valid(),
        date.plus(n).year <= LAST_YEAR ==> date.plus(n).number() == date.number() + n,
        date.plus(n).year >= date.year,
        1 <= date.plus(n).month <= 12,
        1 <= date.plus(n).day <= days_in_month(
            date.plus(n).year as int,
            date.plus(n).month as int,
        ),
        date.plus(n).year <= date.year + 1,
        date.plus(n).year == date.year + 1 ==> date.plus(n).month == 1 && date.plus(n).day <= n,
    decreases n,
{
    if n > 0 {
        let before = date.plus((n - 1) as nat);
        lemma_plus(date, (n - 1) as nat);
        if before.year <= LAST_YEAR {
            the_next_day_counts_one_more(before);
        }
    }
}

/// A week has its first day on the weekday that weeks start on, holds the day that it was asked for,
/// and is seven days long.
pub proof fn a_week_holds_its_day(date: CivilDate, week_start: u8)
    requires
        date.valid(),
        date.year > FIRST_YEAR,
        1 <= week_start <= 7,
        CalendarWindow::Week.day_behind(date, week_start).year <= LAST_YEAR,
    ensures
        ({
            let first = CalendarWindow::Week.first_day(date, week_start);
            let behind = CalendarWindow::Week.day_behind(date, week_start);
            &&& first.valid()
            &&& behind.valid()
            &&& first.weekday() == week_start
            &&& first.number() <= date.number() < behind.number()
            &&& behind.number() == first.number() + 7
        }),
{
    let elapsed = (date.weekday() + 7 - week_start) % 7;
    lemma_minus(date, elapsed as nat);
    let first = date.minus(elapsed as nat);
    lemma_plus(first, 7);
    assert((date.number() - elapsed + 3) % 7 + 1 == week_start);
}

/// A day and a month hold the day that they were asked for.
pub proof fn a_day_and_a_month_hold_their_day(date: CivilDate)
    requires
        date.valid(),
        CalendarWindow::Month.day_behind(date, 1).year <= LAST_YEAR,
    ensures
        CalendarWindow::Day.first_day(date, 1).number() <= date.number()
            < CalendarWindow::Day.day_behind(date, 1).number(),
        CalendarWindow::Month.first_day(date, 1).number() <= date.number()
            < CalendarWindow::Month.day_behind(date, 1).number(),
        CalendarWindow::Month.first_day(date, 1).valid(),
        CalendarWindow::Month.day_behind(date, 1).valid(),
{
    the_next_day_counts_one_more(date);
    if date.month == 12 {
        lemma_year_step(date.year as int);
        lemma_days_in_year(date.year as int);
        assert(days_before_month(date.year + 1, 1) == 0);
    } else {
        let m = date.month as int;
        assert(days_before_month(date.year as int, m + 1) == days_before_month(date.year as int, m)
            + days_in_month(date.year as int, m));
    }
}

proof fn lemma_number_grows(date: CivilDate)
    requires
        date.valid(),
        date.number() >= -1,
    ensures
        date.year >= 1969,
{
    if date.year < 1969 {
        let y = date.year as int;
        reveal_with_fuel(days_before_month, 13);
        assert(date.number() < days_before_year(y) + 366 + 1 - 719_163);
        assert(days_before_year(y) <= 365 * (y - 1) + (y - 1) / 4 - (y - 1) / 100 + (y - 1) / 400);
        assert(y <= 1968);
        assert(days_before_year(y) <= 718_432) by {
            let z = y - 1;
            assert(z <= 1967);
            assert(z / 4 - z / 100 + z / 400 <= (1967 - 0) / 4 + 0) by {
                assert(z / 400 <= z / 100 || z < 0);
            }
        }
    }
}

fn date_overflow() -> (r: GatewayError)
    ensures
        r@ == overflow_fault(),
{
    error::internal("usage policy calendar window is out of range")
}

/// When the calendar window that holds a moment starts and ends in a time zone. A week starts on the
/// weekday `week_start`, one for Monday.
pub fn calendar_period(
    now_unix_secs: u64,
    timezone: &str,
    kind: CalendarWindow,
    week_start: u8,
) -> (r: Result<(u64, u64), GatewayError>)
    requires
        now_unix_secs <= LAST_DATED_SECOND - DAY_SECONDS || now_unix_secs > LAST_DATED_SECOND,
        week_start <= 8,
    ensures
        match period_of(now_unix_secs, timezone@, kind, week_start) {
            Ok(bounds) => r == Ok::<(u64, u64), GatewayError>(bounds),
            Err(fault) => r is Err && r->Err_0@ == fault,
        },
        r is Ok ==> is_dated(timezone@, now_unix_secs),
{
    if !timezone::parses_as_timezone(timezone) {
        return Err(error::internal("usage policy contains an invalid timezone"));
    }
    if now_unix_secs > LAST_DATED_SECOND {
        return Err(error::internal("usage policy timestamp is out of range"));
    }
    let date = date_in_timezone(timezone, now_unix_secs);
    proof {
        lemma_number_grows(date);
        assert(date == date_of(timezone@, now_unix_secs));
    }
    let (first, behind) = match kind {
        CalendarWindow::Day => match next_day(date) {
            Some(behind) => {
                proof {
                    the_next_day_counts_one_more(date);
                }
                (date, behind)
            },
            None => return Err(date_overflow()),
        },
        CalendarWindow::Week => {
            let current: u32 = days_since_monday(date) + 1;
            let elapsed: u32 = (current + 7 - week_start as u32) % 7;
            let first = days_before(date, elapsed);
            proof {
                lemma_minus(date, elapsed as nat);
                lemma_plus(first, 7);
            }
            match days_after(first, 7) {
                Some(behind) => (first, behind),
                None => return Err(date_overflow()),
            }
        },
        CalendarWindow::Month => {
            let first = CivilDate { year: date.year, month: date.month, day: 1 };
            let (year, month): (i32, u32) = if date.month == 12 {
                (date.year + 1, 1)
            } else {
                (date.year, date.month + 1)
            };
            match existing_date(year, month, 1) {
                Some(behind) => (first, behind),
                None => return Err(date_overflow()),
            }
        },
    };
    let start: i64 = match first_midnight(timezone, first) {
        Some(start) => start,
        None => return Err(date_overflow()),
    };
    let end: i64 = match last_midnight(timezone, behind) {
        Some(end) => end,
        None => return Err(date_overflow()),
    };
    if start < 0 || end < 0 {
        return Err(date_overflow());
    }
    Ok((start as u64, end as u64))
}

} // verus!
