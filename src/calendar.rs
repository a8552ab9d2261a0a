use vstd::prelude::*;
use chrono::{DateTime, Datelike, FixedOffset, Months, TimeDelta, Timelike};
use crate::datetime::{in_instant_range, DateTimeFixed};
use crate::timedelta::{in_span_range, Timedelta};

verus! {

/// Seconds of the earliest representable instant, 1 January of year -262143, UTC.
pub const MIN_SECS: i64 = -8_334_601_228_800;

/// Seconds of the last representable whole second, 31 December of year 262142, UTC.
pub const MAX_SECS: i64 = 8_210_266_876_799;

pub const SECS_PER_DAY: i64 = 86_400;

/// Leap years of the proleptic Gregorian calendar.
pub open spec fn is_leap_year(y: int) -> bool {
    y % 4 == 0 && (y % 100 != 0 || y % 400 == 0)
}

pub open spec fn days_in_year(y: int) -> int {
    if is_leap_year(y) {
        366
    } else {
        365
    }
}

/// Length of month `m` (1 to 12) of year `y`.
pub open spec fn days_in_month(y: int, m: int) -> int {
    if m == 2 {
        if is_leap_year(y) {
            29
        } else {
            28
        }
    } else if m == 4 || m == 6 || m == 9 || m == 11 {
        30
    } else {
        31
    }
}

/// Years whose dates lie, under any offset, well inside the representable range.
pub open spec fn safe_year(y: int) -> bool {
    -262_000 <= y <= 262_000
}

/// The proleptic Gregorian (year, month, day) of the day that lies `days` days after
/// 1 January 1970: years are counted in 400-year eras of 146,097 days, each starting on
/// 1 March.
pub open spec fn civil_of(days: int) -> (int, int, int) {
    let z = days + 719_468;
    let era = z / 146_097;
    let doe = z - era * 146_097;
    let yoe = (doe - doe / 1_460 + doe / 36_524 - doe / 146_096) / 365;
    let doy = doe - (365 * yoe + yoe / 4 - yoe / 100);
    let mp = (5 * doy + 2) / 153;
    let d = doy - (153 * mp + 2) / 5 + 1;
    let m = if mp < 10 { mp + 3 } else { mp - 9 };
    (yoe + era * 400 + if m <= 2 { 1int } else { 0int }, m, d)
}

/// Calendar year of the day that lies `days` days after 1 January 1970.
pub open spec fn year_of(days: int) -> int {
    civil_of(days).0
}

/// Month (1 to 12) of the day that lies `days` days after 1 January 1970.
pub open spec fn month_of(days: int) -> int {
    civil_of(days).1
}

/// Day of the month (from 1) of the day that lies `days` days after 1 January 1970.
pub open spec fn day_of(days: int) -> int {
    civil_of(days).2
}

/// Days in the months of year `y` before month `m`.
pub open spec fn days_before_month(y: int, m: int) -> int {
    let common: int = if m == 1 { 0 } else if m == 2 { 31 } else if m == 3 { 59 } else if m == 4 { 90 }
    else if m == 5 { 120 } else if m == 6 { 151 } else if m == 7 { 181 } else if m == 8 { 212 }
    else if m == 9 { 243 } else if m == 10 { 273 } else if m == 11 { 304 } else { 334 };
    common + if m > 2 && is_leap_year(y) { 1int } else { 0int }
}

/// Day of the year (from 1) of the day that lies `days` days after 1 January 1970.
pub open spec fn ordinal_of(days: int) -> int {
    days_before_month(year_of(days), month_of(days)) + day_of(days)
}

/// Both values show the same wall-clock time of day under the same offset.
pub open spec fn same_clock(a: DateTimeFixed, b: DateTimeFixed) -> bool {
    &&& a.offset == b.offset
    &&& a.nanos == b.nanos
    &&& a.secs_of_day() == b.secs_of_day()
}

/// Months since January of year 0, counted in local time.
pub open spec fn month_index(m: DateTimeFixed) -> int {
    m.year() * 12 + m.month() - 1
}

/// Whole calendar years from `b` to `a` as chrono counts them in each value's local time:
/// the difference of the years, less one when `a` falls earlier in its year than `b`.
pub open spec fn whole_years(a: DateTimeFixed, b: DateTimeFixed) -> int {
    let earlier = a.month() < b.month() || (a.month() == b.month() && (a.day() < b.day() || (
    a.day() == b.day() && (a.secs_of_day() < b.secs_of_day() || (a.secs_of_day()
        == b.secs_of_day() && a.nanos < b.nanos)))));
    a.year() - b.year() - if earlier {
        1int
    } else {
        0int
    }
}

/// Relies on chrono's `DateTime::from_timestamp`: the UTC value of `secs` seconds and `nanos`
/// nanoseconds after the epoch, none when the seconds leave the representable range.
#[verifier::external_body]
pub(crate) fn utc_from_timestamp(secs: i64, nanos: u32) -> (r: Option<DateTimeFixed>)
    requires
        nanos < 1_000_000_000,
    ensures
        r is Some <==> MIN_SECS <= secs <= MAX_SECS,
        r matches Some(m) ==> m == (DateTimeFixed { secs, nanos, offset: 0 }),
{
    DateTime::from_timestamp(secs, nanos).map(|d| DateTimeFixed { secs: d.timestamp(), nanos: d.timestamp_subsec_nanos(), offset: 0 })
}

/// Relies on chrono's `Datelike::year` of a `DateTime<FixedOffset>`: the year of the local date.
#[verifier::external_body]
pub(crate) fn local_year(m: &DateTimeFixed) -> (r: i32)
    requires
        m.wf(),
    ensures
        r == year_of(m.local_days()),
{
    let dt = DateTime::from_timestamp(m.secs, 0).unwrap().with_nanosecond(m.nanos).unwrap().with_timezone(&FixedOffset::east_opt(m.offset).unwrap());
    dt.year()
}

/// Relies on chrono's `Datelike::month` of a `DateTime<FixedOffset>`: the month of the local date.
#[verifier::external_body]
pub(crate) fn local_month(m: &DateTimeFixed) -> (r: u32)
    requires
        m.wf(),
    ensures
        r == month_of(m.local_days()),
        1 <= r <= 12,
{
    let dt = DateTime::from_timestamp(m.secs, 0).unwrap().with_nanosecond(m.nanos).unwrap().with_timezone(&FixedOffset::east_opt(m.offset).unwrap());
    dt.month()
}

/// Relies on chrono's `Datelike::day` of a `DateTime<FixedOffset>`: the day of the local date.
#[verifier::external_body]
pub(crate) fn local_day(m: &DateTimeFixed) -> (r: u32)
    requires
        m.wf(),
    ensures
        r == day_of(m.local_days()),
        1 <= r <= 31,
{
    let dt = DateTime::from_timestamp(m.secs, 0).unwrap().with_nanosecond(m.nanos).unwrap().with_timezone(&FixedOffset::east_opt(m.offset).unwrap());
    dt.day()
}

/// Relies on chrono's `Datelike::ordinal` of a `DateTime<FixedOffset>`: the day of the year
/// of the local date.
#[verifier::external_body]
pub(crate) fn local_ordinal(m: &DateTimeFixed) -> (r: u32)
    requires
        m.wf(),
    ensures
        r == ordinal_of(m.local_days()),
        1 <= r <= 366,
{
    let dt = DateTime::from_timestamp(m.secs, 0).unwrap().with_nanosecond(m.nanos).unwrap().with_timezone(&FixedOffset::east_opt(m.offset).unwrap());
    dt.ordinal()
}

/// Relies on chrono's `Datelike::with_year`: same month, day and time in year `year`; none
/// when that date does not exist or leaves the representable range.
#[verifier::external_body]
pub(crate) fn replace_year(m: &DateTimeFixed, year: i32) -> (r: Option<DateTimeFixed>)
    requires
        m.wf(),
    ensures
        r matches Some(n) ==> n.wf() && same_clock(n, *m) && n.year() == year && n.month()
            == m.month() && n.day() == m.day(),
        m.day() > days_in_month(year as int, m.month()) ==> r is None,
        safe_year(year as int) && safe_year(m.year()) && m.day() <= days_in_month(year as int, m.month())
            ==> r is Some,
{
    let dt = DateTime::from_timestamp(m.secs, 0).unwrap().with_nanosecond(m.nanos).unwrap().with_timezone(&FixedOffset::east_opt(m.offset).unwrap());
    dt.with_year(year).map(|d| DateTimeFixed { secs: d.timestamp(), nanos: d.timestamp_subsec_nanos(), offset: d.offset().local_minus_utc() })
}

/// Relies on chrono's `Datelike::with_month`: same year, day and time in month `month`; none
/// when the month is not 1 to 12, the date does not exist, or it leaves the range.
#[verifier::external_body]
pub(crate) fn replace_month(m: &DateTimeFixed, month: u32) -> (r: Option<DateTimeFixed>)
    requires
        m.wf(),
    ensures
        r matches Some(n) ==> n.wf() && same_clock(n, *m) && n.year() == m.year() && n.month()
            == month && n.day() == m.day(),
        !(1 <= month <= 12) || m.day() > days_in_month(m.year(), month as int) ==> r is None,
        safe_year(m.year()) && 1 <= month <= 12 && m.day() <= days_in_month(m.year(), month as int)
            ==> r is Some,
{
    let dt = DateTime::from_timestamp(m.secs, 0).unwrap().with_nanosecond(m.nanos).unwrap().with_timezone(&FixedOffset::east_opt(m.offset).unwrap());
    dt.with_month(month).map(|d| DateTimeFixed { secs: d.timestamp(), nanos: d.timestamp_subsec_nanos(), offset: d.offset().local_minus_utc() })
}

/// Relies on chrono's `Datelike::with_day`: same year, month and time on day `day`; none when
/// that day is not in the month or it leaves the range.
#[verifier::external_body]
pub(crate) fn replace_day(m: &DateTimeFixed, day: u32) -> (r: Option<DateTimeFixed>)
    requires
        m.wf(),
    ensures
        r matches Some(n) ==> n.wf() && same_clock(n, *m) && n.year() == m.year() && n.month()
            == m.month() && n.day() == day,
        !(1 <= day <= days_in_month(m.year(), m.month())) ==> r is None,
        safe_year(m.year()) && 1 <= day <= days_in_month(m.year(), m.month()) ==> r is Some,
{
    let dt = DateTime::from_timestamp(m.secs, 0).unwrap().with_nanosecond(m.nanos).unwrap().with_timezone(&FixedOffset::east_opt(m.offset).unwrap());
    dt.with_day(day).map(|d| DateTimeFixed { secs: d.timestamp(), nanos: d.timestamp_subsec_nanos(), offset: d.offset().local_minus_utc() })
}

/// Relies on chrono's `Datelike::with_ordinal`: same year and time on day `ordinal` of the
/// year; none when the year has no such day or it leaves the range.
#[verifier::external_body]
pub(crate) fn replace_ordinal(m: &DateTimeFixed, ordinal: u32) -> (r: Option<DateTimeFixed>)
    requires
        m.wf(),
    ensures
        r matches Some(n) ==> n.wf() && same_clock(n, *m) && n.year() == m.year() && n.ordinal()
            == ordinal,
        !(1 <= ordinal <= days_in_year(m.year())) ==> r is None,
        safe_year(m.year()) && 1 <= ordinal <= days_in_year(m.year()) ==> r is Some,
{
    let dt = DateTime::from_timestamp(m.secs, 0).unwrap().with_nanosecond(m.nanos).unwrap().with_timezone(&FixedOffset::east_opt(m.offset).unwrap());
    dt.with_ordinal(ordinal).map(|d| DateTimeFixed { secs: d.timestamp(), nanos: d.timestamp_subsec_nanos(), offset: d.offset().local_minus_utc() })
}

/// Relies on chrono's `DateTime::checked_add_months`: `months` later in the calendar, the
/// day clamped to the end of a shorter month, the time kept; none when the local date leaves
/// the range. No upper bound is checked on the UTC value, so a leap second may come back at
/// the last representable second.
#[verifier::external_body]
pub(crate) fn months_later(m: &DateTimeFixed, months: u32) -> (r: Option<DateTimeFixed>)
    requires
        m.wf(),
    ensures
        r matches Some(n) ==> MIN_SECS <= n.secs <= MAX_SECS && n.nanos < 2_000_000_000
            && same_clock(n, *m) && month_index(n) == month_index(*m) + months
            && n.day() == (if m.day() <= days_in_month(n.year(), n.month()) { m.day() } else {
            days_in_month(n.year(), n.month()) }),
        safe_year(m.year()) && safe_year((month_index(*m) + months) / 12) ==> r is Some,
        r matches Some(n) ==> (safe_year(m.year()) && safe_year(n.year()) ==> n.secs < MAX_SECS),
{
    let dt = DateTime::from_timestamp(m.secs, 0).unwrap().with_nanosecond(m.nanos).unwrap().with_timezone(&FixedOffset::east_opt(m.offset).unwrap());
    dt.checked_add_months(Months::new(months)).map(|d| DateTimeFixed { secs: d.timestamp(), nanos: d.timestamp_subsec_nanos(), offset: d.offset().local_minus_utc() })
}

/// Relies on chrono's `DateTime::checked_sub_months`: `months` earlier in the calendar, the
/// day clamped to the end of a shorter month, the time kept; none outside the range.
#[verifier::external_body]
pub(crate) fn months_earlier(m: &DateTimeFixed, months: u32) -> (r: Option<DateTimeFixed>)
    requires
        m.wf(),
    ensures
        r matches Some(n) ==> n.wf() && same_clock(n, *m) && month_index(n) == month_index(*m) - months
            && n.day() == (if m.day() <= days_in_month(n.year(), n.month()) { m.day() } else {
            days_in_month(n.year(), n.month()) }),
        safe_year(m.year()) && safe_year((month_index(*m) - months) / 12) ==> r is Some,
{
    let dt = DateTime::from_timestamp(m.secs, 0).unwrap().with_nanosecond(m.nanos).unwrap().with_timezone(&FixedOffset::east_opt(m.offset).unwrap());
    dt.checked_sub_months(Months::new(months)).map(|d| DateTimeFixed { secs: d.timestamp(), nanos: d.timestamp_subsec_nanos(), offset: d.offset().local_minus_utc() })
}

/// Relies on chrono's `DateTime::years_since`: the whole years from `base` to `a`, none when
/// that count is negative.
#[verifier::external_body]
pub(crate) fn chrono_years_since(a: &DateTimeFixed, base: &DateTimeFixed) -> (r: Option<u32>)
    requires
        a.wf(),
        base.wf(),
    ensures
        r is Some <==> whole_years(*a, *base) >= 0,
        r matches Some(v) ==> v == whole_years(*a, *base),
{
    let x = DateTime::from_timestamp(a.secs, 0).unwrap().with_nanosecond(a.nanos).unwrap().with_timezone(&FixedOffset::east_opt(a.offset).unwrap());
    let y = DateTime::from_timestamp(base.secs, 0).unwrap().with_nanosecond(base.nanos).unwrap().with_timezone(&FixedOffset::east_opt(base.offset).unwrap());
    x.years_since(y)
}

/// Relies on chrono's `DateTime::checked_add_signed`: outside a leap second, the instant `td`
/// later under the same offset, none when that leaves the range; from within a leap second,
/// some value under the same offset, or none.
#[verifier::external_body]
pub(crate) fn shifted_later(m: &DateTimeFixed, td: &Timedelta) -> (r: Option<DateTimeFixed>)
    requires
        m.wf(),
        td.wf(),
    ensures
        r matches Some(n) ==> n.wf() && n.offset == m.offset,
        !m.is_leap() ==> (r is Some <==> in_instant_range(m.instant() + td.total())),
        !m.is_leap() ==> (r matches Some(n) ==> n.instant() == m.instant() + td.total() && !n.is_leap()),
{
    let dt = DateTime::from_timestamp(m.secs, 0).unwrap().with_nanosecond(m.nanos).unwrap().with_timezone(&FixedOffset::east_opt(m.offset).unwrap());
    let d = TimeDelta::new(td.secs, td.nanos as u32).unwrap();
    dt.checked_add_signed(d).map(|n| DateTimeFixed { secs: n.timestamp(), nanos: n.timestamp_subsec_nanos(), offset: n.offset().local_minus_utc() })
}

/// Relies on chrono's `DateTime::checked_sub_signed`: outside a leap second, the instant `td`
/// earlier under the same offset, none when that leaves the range; from within a leap second,
/// some value under the same offset, or none.
#[verifier::external_body]
pub(crate) fn shifted_earlier(m: &DateTimeFixed, td: &Timedelta) -> (r: Option<DateTimeFixed>)
    requires
        m.wf(),
        td.wf(),
    ensures
        r matches Some(n) ==> n.wf() && n.offset == m.offset,
        !m.is_leap() ==> (r is Some <==> in_instant_range(m.instant() - td.total())),
        !m.is_leap() ==> (r matches Some(n) ==> n.instant() == m.instant() - td.total() && !n.is_leap()),
{
    let dt = DateTime::from_timestamp(m.secs, 0).unwrap().with_nanosecond(m.nanos).unwrap().with_timezone(&FixedOffset::east_opt(m.offset).unwrap());
    let d = TimeDelta::new(td.secs, td.nanos as u32).unwrap();
    dt.checked_sub_signed(d).map(|n| DateTimeFixed { secs: n.timestamp(), nanos: n.timestamp_subsec_nanos(), offset: n.offset().local_minus_utc() })
}

/// Relies on chrono's `DateTime::signed_duration_since`, given as whole seconds and the rest
/// (both rounded toward zero, as `num_seconds` and `subsec_nanos` give them): outside leap
/// seconds it is the difference of the instants.
#[verifier::external_body]
pub(crate) fn duration_between(a: &DateTimeFixed, b: &DateTimeFixed) -> (r: (i64, i32))
    requires
        a.wf(),
        b.wf(),
    ensures
        -1_000_000_000 < r.1 < 1_000_000_000,
        in_span_range(r.0 * 1_000_000_000 + r.1),
        !a.is_leap() && !b.is_leap() ==> r.0 * 1_000_000_000 + r.1 == a.instant() - b.instant(),
{
    let x = DateTime::from_timestamp(a.secs, 0).unwrap().with_nanosecond(a.nanos).unwrap().with_timezone(&FixedOffset::east_opt(a.offset).unwrap());
    let y = DateTime::from_timestamp(b.secs, 0).unwrap().with_nanosecond(b.nanos).unwrap().with_timezone(&FixedOffset::east_opt(b.offset).unwrap());
    let d = x.signed_duration_since(y);
    (d.num_seconds(), d.subsec_nanos())
}

} // verus!
