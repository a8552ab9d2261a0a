use vstd::prelude::*;
use std::fmt::Write;
use std::str::FromStr;
use chrono::format::StrftimeItems;
use chrono::{DateTime, FixedOffset, Locale, NaiveDate, NaiveDateTime, NaiveTime, Timelike};
use crate::calendar::{MAX_SECS, MIN_SECS};
use crate::datetime::DateTimeFixed;

verus! {

/// The RFC 3339 text of the instant `secs` seconds and `nanos` nanoseconds after the epoch,
/// shown under an offset of `offset` seconds.
pub uninterp spec fn rfc3339_text_of(secs: int, nanos: int, offset: int) -> Seq<char>;

/// The RFC 2822 text of the instant `secs` seconds and `nanos` nanoseconds after the epoch,
/// shown under an offset of `offset` seconds.
pub uninterp spec fn rfc2822_text_of(secs: int, nanos: int, offset: int) -> Seq<char>;

/// The instant (seconds, nanoseconds, offset) that an RFC 3339 text names, if it is one.
pub uninterp spec fn rfc3339_parse_of(s: Seq<char>) -> Option<(int, int, int)>;

/// The instant (seconds, nanoseconds, offset) that an RFC 2822 text names, if it is one.
pub uninterp spec fn rfc2822_parse_of(s: Seq<char>) -> Option<(int, int, int)>;

/// The UTC instant (seconds, nanoseconds) that `s` names under a strftime `pattern`, if any.
pub uninterp spec fn pattern_parse_of(s: Seq<char>, pattern: Seq<char>) -> Option<(int, int)>;

/// Seconds since the epoch of midnight UTC of the date that `s` names under a strftime
/// `pattern` read as a date alone, if any.
pub uninterp spec fn date_parse_of(s: Seq<char>, pattern: Seq<char>) -> Option<int>;

/// The time of day (seconds after midnight, nanoseconds) that `s` names under a strftime
/// `pattern` read as a time alone, if any.
pub uninterp spec fn time_parse_of(s: Seq<char>, pattern: Seq<char>) -> Option<(int, int)>;

/// The text of a value under a strftime `pattern`, invalid specifiers written as they stand;
/// none when chrono cannot write the value.
pub uninterp spec fn pattern_text_of(secs: int, nanos: int, offset: int, pattern: Seq<char>) -> Option<Seq<char>>;

/// Whether chrono knows a locale by this name.
pub uninterp spec fn locale_known_of(name: Seq<char>) -> bool;

/// The text of a value under a strftime `pattern` with a locale's names, invalid specifiers
/// written as they stand; none when chrono cannot write the value.
pub uninterp spec fn localized_text_of(
    secs: int,
    nanos: int,
    offset: int,
    pattern: Seq<char>,
    locale: Seq<char>,
) -> Option<Seq<char>>;

/// Relies on chrono's `DateTime::to_rfc3339`, which depends on the instant and offset alone.
#[verifier::external_body]
pub(crate) fn rfc3339_text(m: &DateTimeFixed) -> (r: String)
    requires
        m.wf(),
    ensures
        r@ == rfc3339_text_of(m.secs as int, m.nanos as int, m.offset as int),
{
    let dt = DateTime::from_timestamp(m.secs, 0).unwrap().with_nanosecond(m.nanos).unwrap().with_timezone(&FixedOffset::east_opt(m.offset).unwrap());
    dt.to_rfc3339()
}

/// Relies on chrono's `DateTime::to_rfc2822`, which panics unless the local year is 0 to 9999.
#[verifier::external_body]
pub(crate) fn rfc2822_text(m: &DateTimeFixed) -> (r: String)
    requires
        m.wf(),
        0 <= m.year() <= 9_999,
    ensures
        r@ == rfc2822_text_of(m.secs as int, m.nanos as int, m.offset as int),
{
    let dt = DateTime::from_timestamp(m.secs, 0).unwrap().with_nanosecond(m.nanos).unwrap().with_timezone(&FixedOffset::east_opt(m.offset).unwrap());
    dt.to_rfc2822()
}

/// Relies on chrono's `DateTime::parse_from_rfc3339`; its results lie in the representable
/// range, and the error is returned as text.
#[verifier::external_body]
pub(crate) fn parse_rfc3339(s: &str) -> (r: Result<(i64, u32, i32), String>)
    ensures
        r is Ok <==> rfc3339_parse_of(s@) is Some,
        r matches Ok(p) ==> rfc3339_parse_of(s@) == Some((p.0 as int, p.1 as int, p.2 as int))
            && MIN_SECS <= p.0 <= MAX_SECS && p.1 < 2_000_000_000 && -86_400 < p.2 < 86_400,
{
    match DateTime::parse_from_rfc3339(s) {
        Ok(d) => Ok((d.timestamp(), d.timestamp_subsec_nanos(), d.offset().local_minus_utc())),
        Err(e) => Err(e.to_string()),
    }
}

/// Relies on chrono's `DateTime::parse_from_rfc2822`; its results lie in the representable
/// range, and the error is returned as text.
#[verifier::external_body]
pub(crate) fn parse_rfc2822(s: &str) -> (r: Result<(i64, u32, i32), String>)
    ensures
        r is Ok <==> rfc2822_parse_of(s@) is Some,
        r matches Ok(p) ==> rfc2822_parse_of(s@) == Some((p.0 as int, p.1 as int, p.2 as int))
            && MIN_SECS <= p.0 <= MAX_SECS && p.1 < 2_000_000_000 && -86_400 < p.2 < 86_400,
{
    match DateTime::parse_from_rfc2822(s) {
        Ok(d) => Ok((d.timestamp(), d.timestamp_subsec_nanos(), d.offset().local_minus_utc())),
        Err(e) => Err(e.to_string()),
    }
}

/// Relies on chrono's `NaiveDateTime::parse_from_str`, read as UTC; its results lie in the
/// representable range, and the error is returned as text.
#[verifier::external_body]
pub(crate) fn parse_pattern(s: &str, pattern: &str) -> (r: Result<(i64, u32), String>)
    ensures
        r is Ok <==> pattern_parse_of(s@, pattern@) is Some,
        r matches Ok(p) ==> pattern_parse_of(s@, pattern@) == Some((p.0 as int, p.1 as int))
            && MIN_SECS <= p.0 <= MAX_SECS && p.1 < 2_000_000_000,
{
    match NaiveDateTime::parse_from_str(s, pattern) {
        Ok(d) => Ok((d.and_utc().timestamp(), d.and_utc().timestamp_subsec_nanos())),
        Err(e) => Err(e.to_string()),
    }
}

/// Relies on chrono's `NaiveDate::parse_from_str`, taken at midnight UTC; the date lies in the
/// representable range.
#[verifier::external_body]
pub(crate) fn parse_date_only(s: &str, pattern: &str) -> (r: Option<i64>)
    ensures
        r is Some <==> date_parse_of(s@, pattern@) is Some,
        r matches Some(t) ==> date_parse_of(s@, pattern@) == Some(t as int) && MIN_SECS <= t <= MAX_SECS,
{
    match NaiveDate::parse_from_str(s, pattern) {
        Ok(d) => Some(d.and_time(NaiveTime::MIN).and_utc().timestamp()),
        Err(_) => None,
    }
}

/// Relies on chrono's `NaiveTime::parse_from_str`: seconds after midnight and the fraction.
#[verifier::external_body]
pub(crate) fn parse_time_only(s: &str, pattern: &str) -> (r: Option<(u32, u32)>)
    ensures
        r is Some <==> time_parse_of(s@, pattern@) is Some,
        r matches Some(t) ==> time_parse_of(s@, pattern@) == Some((t.0 as int, t.1 as int)) && t.0
            < 86_400 && t.1 < 2_000_000_000,
{
    match NaiveTime::parse_from_str(s, pattern) {
        Ok(t) => Some((t.num_seconds_from_midnight(), t.nanosecond())),
        Err(_) => None,
    }
}

/// Relies on chrono's `DateTime::format_with_items` over `StrftimeItems::new_lenient`, which
/// keeps an invalid specifier as literal text.
#[verifier::external_body]
pub(crate) fn pattern_text(m: &DateTimeFixed, pattern: &str) -> (r: Option<String>)
    requires
        m.wf(),
    ensures
        r is Some <==> pattern_text_of(m.secs as int, m.nanos as int, m.offset as int, pattern@) is Some,
        r matches Some(t) ==> pattern_text_of(m.secs as int, m.nanos as int, m.offset as int, pattern@)
            == Some(t@),
{
    let dt = DateTime::from_timestamp(m.secs, 0).unwrap().with_nanosecond(m.nanos).unwrap().with_timezone(&FixedOffset::east_opt(m.offset).unwrap());
    let mut out = String::new();
    match write!(out, "{}", dt.format_with_items(StrftimeItems::new_lenient(pattern))) {
        Ok(()) => Some(out),
        Err(_) => None,
    }
}

/// Relies on chrono's `Locale::from_str`: whether the name is a known locale.
#[verifier::external_body]
pub(crate) fn locale_known(name: &str) -> (r: bool)
    ensures
        r == locale_known_of(name@),
{
    Locale::from_str(name).is_ok()
}

/// Relies on chrono's `DateTime::format_localized_with_items` over
/// `StrftimeItems::new_lenient`: the locale's month and weekday names, an invalid specifier kept
/// as literal text.
#[verifier::external_body]
pub(crate) fn localized_text(m: &DateTimeFixed, pattern: &str, locale: &str) -> (r: Option<String>)
    requires
        m.wf(),
        locale_known_of(locale@),
    ensures
        r is Some <==> localized_text_of(m.secs as int, m.nanos as int, m.offset as int, pattern@, locale@) is Some,
        r matches Some(t) ==> localized_text_of(m.secs as int, m.nanos as int, m.offset as int, pattern@, locale@)
            == Some(t@),
{
    let dt = DateTime::from_timestamp(m.secs, 0).unwrap().with_nanosecond(m.nanos).unwrap().with_timezone(&FixedOffset::east_opt(m.offset).unwrap());
    let mut out = String::new();
    let items = StrftimeItems::new_lenient(pattern);
    match write!(out, "{}", dt.format_localized_with_items(items, Locale::from_str(locale).unwrap())) {
        Ok(()) => Some(out),
        Err(_) => None,
    }
}

} // verus!
