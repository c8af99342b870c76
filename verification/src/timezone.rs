//! The IANA time zones that calendar windows may name.

use crate::text;
use vstd::prelude::*;

verus! {

/// Whether `name` is one of the time zone names that `chrono_tz::Tz` parses.
pub uninterp spec fn is_timezone(name: Seq<char>) -> bool;

/// Calls `<chrono_tz::Tz as FromStr>::from_str`, a lookup in the table of names that the crate
/// carries, and says whether it found a zone.
#[verifier::external_body]
pub(crate) fn parses_as_timezone(name: &str) -> (r: bool)
    ensures
        r == is_timezone(name@),
{
    name.parse::<chrono_tz::Tz>().is_ok()
}

/// The time zone of calendar windows where nothing else names one.
pub const DEFAULT_CALENDAR_TIMEZONE: &'static str = "Asia/Shanghai";

/// The time zone in which a calendar window is read: the one that it names, else the one
/// configured for the application where that is a time zone, else the default.
pub open spec fn effective_timezone(
    explicit: Option<Seq<char>>,
    app_timezone: Option<Seq<char>>,
) -> Seq<char> {
    if explicit is Some && text::trimmed(explicit->0).len() > 0 {
        text::trimmed(explicit->0)
    } else if app_timezone is Some && is_timezone(text::trimmed(app_timezone->0)) {
        text::trimmed(app_timezone->0)
    } else {
        DEFAULT_CALENDAR_TIMEZONE@
    }
}

/// The time zone in which a calendar window is read. `app_timezone` is what is configured for the
/// application.
pub fn effective_timezone_name(explicit: Option<&str>, app_timezone: Option<&str>) -> (r: String)
    ensures
        r@ == effective_timezone(text::opt_view(explicit), text::opt_view(app_timezone)),
{
    if let Some(name) = explicit {
        let name = text::trim(name);
        if !name.is_empty() {
            return name.to_string();
        }
    }
    if let Some(name) = app_timezone {
        let name = text::trim(name);
        if parses_as_timezone(name) {
            return name.to_string();
        }
    }
    DEFAULT_CALENDAR_TIMEZONE.to_string()
}

} // verus!
