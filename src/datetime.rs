use vstd::prelude::*;
use vstd::arithmetic::div_mod::lemma_fundamental_div_mod_converse;
use crate::arith::div_mod_floor;
use crate::calendar::{
    chrono_years_since, day_of, duration_between, shifted_earlier, shifted_later, days_in_month, days_in_year, local_day, local_month, local_ordinal,
    local_year, month_index, month_of, months_earlier, months_later, ordinal_of, replace_day,
    replace_month, replace_ordinal, replace_year, safe_year, same_clock, utc_from_timestamp,
    whole_years, year_of, MAX_SECS, MIN_SECS,
};
use crate::error::{Field, TimeError};
use crate::formats::{
    date_parse_of, locale_known, locale_known_of, localized_text, localized_text_of, parse_date_only,
    parse_pattern, parse_rfc2822, parse_rfc3339, parse_time_only, pattern_parse_of, pattern_text,
    pattern_text_of, rfc2822_parse_of, rfc2822_text, rfc2822_text_of, rfc3339_parse_of, rfc3339_text,
    rfc3339_text_of, time_parse_of,
};
use crate::text::{
    contains_char, equals_ignoring_case, names_time, pattern_names_time, lenient_time, lenient_time_of, offset_text, offset_text_of,
    spells_ignoring_case, time_text, time_text_of,
};
use crate::timedelta::Timedelta;
use crate::zone::{
    fixed_offset_of, parse_fixed_offset, zone_known, zone_known_of, zone_offset_at, zone_offset_of,
};

verus! {

/// An instant with a fixed UTC offset: whole seconds since 1970-01-01T00:00:00Z, a nanosecond
/// fraction, and the offset east of UTC in seconds.
#[derive(Clone, Copy, Debug, PartialEq, Eq, Structural)]
pub struct DateTimeFixed {
    pub secs: i64,
    pub nanos: u32,
    pub offset: i32,
}

impl DateTimeFixed {
    /// Whether the value is well formed, checked at run time.
    pub fn is_valid(&self) -> (r: bool)
        ensures
            r == self.wf(),
    {
        MIN_SECS <= self.secs && self.secs <= MAX_SECS && self.nanos < 2_000_000_000 && (self.secs
            != MAX_SECS || self.nanos < 1_000_000_000) && -86_400 < self.offset && self.offset < 86_400
    }

    /// The value lies in the representable range and the offset is under one day. A fraction
    /// of one second or more marks a leap second, which the last representable second cannot be.
    pub open spec fn wf(self) -> bool {
        &&& MIN_SECS <= self.secs <= MAX_SECS
        &&& self.nanos < 2_000_000_000
        &&& (self.secs == MAX_SECS ==> self.nanos < 1_000_000_000)
        &&& -86_400 < self.offset < 86_400
    }

    /// The value sits in a leap second.
    pub open spec fn is_leap(self) -> bool {
        self.nanos >= 1_000_000_000
    }

    /// Chrono's order of values: by whole second, then by fraction.
    pub open spec fn before(self, other: DateTimeFixed) -> bool {
        self.secs < other.secs || (self.secs == other.secs && self.nanos < other.nanos)
    }

    /// Nanoseconds since the epoch.
    pub open spec fn instant(self) -> int {
        self.secs * 1_000_000_000 + self.nanos
    }

    /// Seconds since the epoch of the local wall-clock reading.
    pub open spec fn local_secs(self) -> int {
        self.secs + self.offset
    }

    /// Days since 1970-01-01 of the local date.
    pub open spec fn local_days(self) -> int {
        self.local_secs() / 86_400
    }

    /// Seconds since local midnight.
    pub open spec fn secs_of_day(self) -> int {
        self.local_secs() % 86_400
    }

    pub open spec fn year(self) -> int {
        year_of(self.local_days())
    }

    pub open spec fn month(self) -> int {
        month_of(self.local_days())
    }

    pub open spec fn day(self) -> int {
        day_of(self.local_days())
    }

    pub open spec fn ordinal(self) -> int {
        ordinal_of(self.local_days())
    }

    pub open spec fn hour(self) -> int {
        self.secs_of_day() / 3_600
    }

    pub open spec fn minute(self) -> int {
        self.secs_of_day() / 60 % 60
    }

    pub open spec fn second(self) -> int {
        self.secs_of_day() % 60
    }
}

/// Whether a value at `secs` seconds with fraction `nanos` (below two seconds) is representable.
pub open spec fn fits_at(secs: int, nanos: int) -> bool {
    MIN_SECS <= secs <= MAX_SECS && (secs == MAX_SECS ==> nanos < 1_000_000_000)
}

/// Whole milliseconds since the epoch, rounded toward negative infinity.
pub open spec fn millis_of(m: DateTimeFixed) -> int {
    m.secs * 1_000 + m.nanos / 1_000_000
}

/// Whole microseconds since the epoch, rounded toward negative infinity.
pub open spec fn micros_of(m: DateTimeFixed) -> int {
    m.secs * 1_000_000 + m.nanos / 1_000
}

/// The value of a field as its getter reports it.
pub open spec fn field_value(m: DateTimeFixed, f: Field) -> int {
    match f {
        Field::Ordinal => m.ordinal(),
        Field::Ordinal0 => m.ordinal() - 1,
        Field::Year => m.year(),
        Field::Month => m.month(),
        Field::Month0 => m.month() - 1,
        Field::Day => m.day(),
        Field::Day0 => m.day() - 1,
        Field::Hour => m.hour(),
        Field::Minute => m.minute(),
        Field::Second => m.second(),
        Field::Nanosecond => m.nanos as int,
    }
}

/// The values a field can hold at all, whatever the rest of the date.
pub open spec fn field_bounds(f: Field, v: int) -> bool {
    match f {
        Field::Ordinal => 1 <= v <= 366,
        Field::Ordinal0 => 0 <= v <= 365,
        Field::Year => -262_143 <= v <= 262_142,
        Field::Month => 1 <= v <= 12,
        Field::Month0 => 0 <= v <= 11,
        Field::Day => 1 <= v <= 31,
        Field::Day0 => 0 <= v <= 30,
        Field::Hour => 0 <= v <= 23,
        Field::Minute => 0 <= v <= 59,
        Field::Second => 0 <= v <= 59,
        Field::Nanosecond => 0 <= v <= 1_999_999_999,
    }
}

/// What every field setter guarantees: on success the field reads back as `v` and the offset
/// is kept; on failure nothing changes and the error names the field; a value outside the
/// field's bounds always fails.
pub open spec fn set_outcome(
    f: Field,
    before: DateTimeFixed,
    v: int,
    after: DateTimeFixed,
    r: Result<(), TimeError>,
) -> bool {
    &&& r is Ok ==> after.wf() && field_value(after, f) == v && after.offset == before.offset
    &&& r is Err ==> after == before && r == Err::<(), TimeError>(TimeError::FieldRange(f))
    &&& !field_bounds(f, v) ==> r is Err
}

/// Whole years between two values, signed: positive when `a` is the later one, negative when
/// `b` is, and zero when chrono counts no whole year between them.
pub open spec fn signed_years(a: DateTimeFixed, b: DateTimeFixed) -> int {
    if b.before(a) {
        if whole_years(a, b) >= 0 { whole_years(a, b) } else { 0 }
    } else {
        if whole_years(b, a) >= 0 { -whole_years(b, a) } else { 0 }
    }
}

proof fn lemma_split_local(m: DateTimeFixed, days: int, sod: int)
    requires
        m.local_secs() == days * 86_400 + sod,
        0 <= sod < 86_400,
    ensures
        m.local_days() == days,
        m.secs_of_day() == sod,
{
    lemma_fundamental_div_mod_converse(m.local_secs(), 86_400, days, sod);
}

proof fn lemma_clock_parts(sod: int, h: int, mi: int, s: int)
    requires
        sod == h * 3_600 + mi * 60 + s,
        0 <= h < 24,
        0 <= mi < 60,
        0 <= s < 60,
    ensures
        sod / 3_600 == h,
        sod / 60 % 60 == mi,
        sod % 60 == s,
{
    lemma_fundamental_div_mod_converse(sod, 3_600, h, mi * 60 + s);
    lemma_fundamental_div_mod_converse(sod, 60, h * 60 + mi, s);
    lemma_fundamental_div_mod_converse(h * 60 + mi, 60, h, mi);
}

proof fn lemma_clock_split(sod: int)
    requires
        0 <= sod < 86_400,
    ensures
        sod == (sod / 3_600) * 3_600 + (sod / 60 % 60) * 60 + sod % 60,
        0 <= sod / 3_600 < 24,
        0 <= sod / 60 % 60 < 60,
        0 <= sod % 60 < 60,
{
    vstd::arithmetic::div_mod::lemma_fundamental_div_mod(sod, 60);
    vstd::arithmetic::div_mod::lemma_fundamental_div_mod(sod / 60, 60);
    vstd::arithmetic::div_mod::lemma_div_denominator(sod, 60, 60);
    vstd::arithmetic::div_mod::lemma_div_pos_is_pos(sod, 3_600);
    assert(sod / 3_600 < 24) by {
        vstd::arithmetic::div_mod::lemma_div_is_ordered(sod, 86_399, 3_600);
    }
}

/// The local day number and the seconds since local midnight.
fn local_parts(m: &DateTimeFixed) -> (r: (i64, i64))
    requires
        m.wf(),
    ensures
        r.0 == m.local_days(),
        r.1 == m.secs_of_day(),
        0 <= r.1 < 86_400,
{
    let (d, s) = div_mod_floor(m.secs as i128 + m.offset as i128, 86_400);
    proof {
        vstd::arithmetic::div_mod::lemma_div_is_ordered(m.local_secs(), MAX_SECS + 86_400, 86_400);
        vstd::arithmetic::div_mod::lemma_div_is_ordered(MIN_SECS - 86_400, m.local_secs(), 86_400);
        assert((MAX_SECS + 86_400) / 86_400 < 100_000_000);
        assert((MIN_SECS - 86_400) / 86_400 > -100_000_000);
    }
    (d as i64, s as i64)
}

/// The same local date at wall-clock time `sod` seconds after midnight with fraction `nanos`;
/// none when that leaves the representable range.
fn at_local_time(m: &DateTimeFixed, sod: i64, nanos: u32) -> (r: Option<DateTimeFixed>)
    requires
        m.wf(),
        0 <= sod < 86_400,
        nanos < 2_000_000_000,
    ensures
        r is Some <==> fits_at(m.secs + (sod - m.secs_of_day()), nanos as int),
        r matches Some(n) ==> n.wf() && n.offset == m.offset && n.nanos == nanos && n.local_days()
            == m.local_days() && n.secs_of_day() == sod && n.secs == m.secs + (sod - m.secs_of_day()),
{
    let (_d, cur) = local_parts(m);
    let secs = m.secs + (sod - cur);
    if MIN_SECS <= secs && secs <= MAX_SECS && (secs < MAX_SECS || nanos < 1_000_000_000) {
        let n = DateTimeFixed { secs, nanos, offset: m.offset };
        proof {
            vstd::arithmetic::div_mod::lemma_fundamental_div_mod(m.local_secs(), 86_400);
            lemma_split_local(n, m.local_days(), sod as int);
        }
        Some(n)
    } else {
        None
    }
}

// ---------------------------------------------------------------------------------------
// Construction

/// The current time in UTC.
pub fn datetime_utc() -> (r: DateTimeFixed)
    ensures
        r.wf(),
        r.offset == 0,
        r.secs >= 0,
{
    crate::zone::utc_now()
}

/// The current time under the machine's local offset.
pub fn datetime_local() -> (r: DateTimeFixed)
    ensures
        r.wf(),
        r.secs >= 0,
{
    crate::zone::local_now()
}

/// The instant `secs` seconds after the epoch, in UTC; fails when out of range.
pub fn datetime_unix(secs: i64) -> (r: Result<DateTimeFixed, TimeError>)
    ensures
        r is Ok <==> MIN_SECS <= secs <= MAX_SECS,
        match r {
            Ok(m) => m.wf() && m.offset == 0 && m.instant() == secs * 1_000_000_000 && !m.is_leap(),
            Err(e) => e == TimeError::Range,
        },
{
    match utc_from_timestamp(secs, 0) {
        Some(m) => Ok(m),
        None => Err(TimeError::Range),
    }
}

/// Splits `count` units of `per_sec` per second into seconds and nanoseconds, then builds the
/// UTC value.
fn from_subunits(count: i64, per_sec: i128) -> (r: Result<DateTimeFixed, TimeError>)
    requires
        per_sec == 1_000 || per_sec == 1_000_000 || per_sec == 1_000_000_000,
    ensures
        r is Ok <==> MIN_SECS <= count as int / per_sec as int <= MAX_SECS,
        match r {
            Ok(m) => m.wf() && m.offset == 0 && m.instant() * per_sec == count * 1_000_000_000
                && !m.is_leap(),
            Err(e) => e == TimeError::Range,
        },
{
    let (q, rem) = div_mod_floor(count as i128, per_sec);
    proof {
        vstd::arithmetic::div_mod::lemma_fundamental_div_mod(count as int, per_sec as int);
        vstd::arithmetic::div_mod::lemma_div_is_ordered(count as int, i64::MAX as int, per_sec as int);
        vstd::arithmetic::div_mod::lemma_div_is_ordered(i64::MIN as int, count as int, per_sec as int);
    }
    let scale: i128 = 1_000_000_000 / per_sec;
    assert(scale * per_sec == 1_000_000_000);
    assert(0 <= rem * scale < 1_000_000_000) by (nonlinear_arith)
        requires
            0 <= rem < per_sec,
            scale * per_sec == 1_000_000_000,
            scale > 0,
    ;
    assert(i64::MIN <= q <= i64::MAX) by (nonlinear_arith)
        requires
            count == per_sec * q + rem,
            0 <= rem < per_sec,
            per_sec >= 1_000,
            i64::MIN <= count <= i64::MAX,
    ;
    let nanos = rem * scale;
    match utc_from_timestamp(q as i64, nanos as u32) {
        Some(m) => {
            assert(m.instant() * per_sec == count * 1_000_000_000) by (nonlinear_arith)
                requires
                    m.instant() == q * 1_000_000_000 + nanos,
                    nanos == rem * scale,
                    scale * per_sec == 1_000_000_000,
                    count == per_sec * q + rem,
            ;
            Ok(m)
        },
        None => Err(TimeError::Range),
    }
}

/// The instant `millis` milliseconds after the epoch, in UTC; fails when out of range.
pub fn datetime_millis(millis: i64) -> (r: Result<DateTimeFixed, TimeError>)
    ensures
        r is Ok <==> MIN_SECS <= millis as int / 1_000 <= MAX_SECS,
        match r {
            Ok(m) => m.wf() && m.offset == 0 && m.instant() == millis * 1_000_000 && !m.is_leap(),
            Err(e) => e == TimeError::Range,
        },
{
    from_subunits(millis, 1_000)
}

/// The instant `micros` microseconds after the epoch, in UTC; fails when out of range.
pub fn datetime_micros(micros: i64) -> (r: Result<DateTimeFixed, TimeError>)
    ensures
        r is Ok <==> MIN_SECS <= micros as int / 1_000_000 <= MAX_SECS,
        match r {
            Ok(m) => m.wf() && m.offset == 0 && m.instant() == micros * 1_000 && !m.is_leap(),
            Err(e) => e == TimeError::Range,
        },
{
    from_subunits(micros, 1_000_000)
}

/// The instant `nanos` nanoseconds after the epoch, in UTC; every `i64` is in range.
pub fn datetime_nanos(nanos: i64) -> (r: DateTimeFixed)
    ensures
        r.wf(),
        r.offset == 0,
        r.instant() == nanos,
        !r.is_leap(),
{
    proof {
        vstd::arithmetic::div_mod::lemma_div_is_ordered(nanos as int, i64::MAX as int, 1_000_000_000);
        vstd::arithmetic::div_mod::lemma_div_is_ordered(i64::MIN as int, nanos as int, 1_000_000_000);
    }
    from_subunits(nanos, 1_000_000_000).unwrap()
}

// ---------------------------------------------------------------------------------------
// Epoch projections

/// Whole seconds since the epoch.
pub fn timestamp(dt: &DateTimeFixed) -> (r: i64)
    requires
        dt.wf(),
    ensures
        r == dt.secs,
{
    dt.secs
}

/// Milliseconds since the epoch, rounded toward negative infinity.
pub fn timestamp_millis(dt: &DateTimeFixed) -> (r: i64)
    requires
        dt.wf(),
    ensures
        r == millis_of(*dt),
{
    dt.secs * 1_000 + (dt.nanos / 1_000_000) as i64
}

/// Microseconds since the epoch, rounded toward negative infinity.
pub fn timestamp_micros(dt: &DateTimeFixed) -> (r: i64)
    requires
        dt.wf(),
    ensures
        r == micros_of(*dt),
{
    dt.secs * 1_000_000 + (dt.nanos / 1_000) as i64
}

/// Nanoseconds since the epoch; fails when that count does not fit in an `i64`, about 584
/// years around the epoch.
pub fn timestamp_nanos(dt: &DateTimeFixed) -> (r: Result<i64, TimeError>)
    requires
        dt.wf(),
    ensures
        r is Ok <==> i64::MIN <= dt.instant() <= i64::MAX,
        match r {
            Ok(v) => v == dt.instant(),
            Err(e) => e == TimeError::Range,
        },
{
    let t = dt.secs as i128 * 1_000_000_000 + dt.nanos as i128;
    if i64::MIN as i128 <= t && t <= i64::MAX as i128 {
        Ok(t as i64)
    } else {
        Err(TimeError::Range)
    }
}

/// Milliseconds since the last whole second.
pub fn timestamp_subsec_millis(dt: &DateTimeFixed) -> (r: i64)
    requires
        dt.wf(),
    ensures
        r == dt.nanos / 1_000_000,
        0 <= r < 2_000,
{
    (dt.nanos / 1_000_000) as i64
}

/// Microseconds since the last whole second.
pub fn timestamp_subsec_micros(dt: &DateTimeFixed) -> (r: i64)
    requires
        dt.wf(),
    ensures
        r == dt.nanos / 1_000,
        0 <= r < 2_000_000,
{
    (dt.nanos / 1_000) as i64
}

/// Nanoseconds since the last whole second.
pub fn timestamp_subsec_nanos(dt: &DateTimeFixed) -> (r: i64)
    requires
        dt.wf(),
    ensures
        r == dt.nanos,
        0 <= r < 2_000_000_000,
{
    dt.nanos as i64
}

// ---------------------------------------------------------------------------------------
// Field getters

pub fn get_year(dt: &DateTimeFixed) -> (r: i64)
    requires
        dt.wf(),
    ensures
        r == field_value(*dt, Field::Year),
{
    local_year(dt) as i64
}

pub fn get_month(dt: &DateTimeFixed) -> (r: i64)
    requires
        dt.wf(),
    ensures
        r == field_value(*dt, Field::Month),
        1 <= r <= 12,
{
    local_month(dt) as i64
}

pub fn get_month0(dt: &DateTimeFixed) -> (r: i64)
    requires
        dt.wf(),
    ensures
        r == field_value(*dt, Field::Month0),
        0 <= r <= 11,
{
    local_month(dt) as i64 - 1
}

pub fn get_day(dt: &DateTimeFixed) -> (r: i64)
    requires
        dt.wf(),
    ensures
        r == field_value(*dt, Field::Day),
        1 <= r <= 31,
{
    local_day(dt) as i64
}

pub fn get_day0(dt: &DateTimeFixed) -> (r: i64)
    requires
        dt.wf(),
    ensures
        r == field_value(*dt, Field::Day0),
        0 <= r <= 30,
{
    local_day(dt) as i64 - 1
}

pub fn get_ordinal(dt: &DateTimeFixed) -> (r: i64)
    requires
        dt.wf(),
    ensures
        r == field_value(*dt, Field::Ordinal),
        1 <= r <= 366,
{
    local_ordinal(dt) as i64
}

pub fn get_ordinal0(dt: &DateTimeFixed) -> (r: i64)
    requires
        dt.wf(),
    ensures
        r == field_value(*dt, Field::Ordinal0),
        0 <= r <= 365,
{
    local_ordinal(dt) as i64 - 1
}

pub fn get_hour(dt: &DateTimeFixed) -> (r: i64)
    requires
        dt.wf(),
    ensures
        r == field_value(*dt, Field::Hour),
        0 <= r <= 23,
{
    let (_d, sod) = local_parts(dt);
    proof { lemma_clock_split(sod as int); }
    sod / 3_600
}

pub fn get_minute(dt: &DateTimeFixed) -> (r: i64)
    requires
        dt.wf(),
    ensures
        r == field_value(*dt, Field::Minute),
        0 <= r <= 59,
{
    let (_d, sod) = local_parts(dt);
    proof { lemma_clock_split(sod as int); }
    sod / 60 % 60
}

pub fn get_second(dt: &DateTimeFixed) -> (r: i64)
    requires
        dt.wf(),
    ensures
        r == field_value(*dt, Field::Second),
        0 <= r <= 59,
{
    let (_d, sod) = local_parts(dt);
    sod % 60
}

pub fn get_nanosecond(dt: &DateTimeFixed) -> (r: i64)
    requires
        dt.wf(),
    ensures
        r == field_value(*dt, Field::Nanosecond),
        0 <= r <= 1_999_999_999,
{
    dt.nanos as i64
}

// ---------------------------------------------------------------------------------------
// Field setters

/// Stores the outcome of a calendar replacement, or reports the field.
fn store(dt: &mut DateTimeFixed, n: Option<DateTimeFixed>, f: Field) -> (r: Result<(), TimeError>)
    ensures
        r is Ok <==> n is Some,
        n matches Some(v) ==> *final(dt) == v,
        n is None ==> *final(dt) == *old(dt) && r == Err::<(), TimeError>(TimeError::FieldRange(f)),
{
    match n {
        Some(v) => {
            *dt = v;
            Ok(())
        },
        None => Err(TimeError::FieldRange(f)),
    }
}

/// Sets the calendar year, keeping month, day and time; fails when that date does not exist
/// (29 February) or leaves the range.
pub fn set_year(dt: &mut DateTimeFixed, year: i64) -> (r: Result<(), TimeError>)
    requires
        old(dt).wf(),
    ensures
        set_outcome(Field::Year, *old(dt), year as int, *final(dt), r),
        r is Ok ==> same_clock(*final(dt), *old(dt)) && final(dt).month() == old(dt).month()
            && final(dt).day() == old(dt).day(),
        old(dt).day() > days_in_month(year as int, old(dt).month()) ==> r is Err,
        !(-262_143 <= year <= 262_142) ==> r is Err,
        safe_year(year as int) && safe_year(old(dt).year()) && old(dt).day() <= days_in_month(
            year as int,
            old(dt).month(),
        ) ==> r is Ok,
{
    if year < -262_143 || year > 262_142 {
        return Err(TimeError::FieldRange(Field::Year));
    }
    let n = replace_year(dt, year as i32);
    store(dt, n, Field::Year)
}

/// Sets the month (1 to 12), keeping year, day and time; fails when that date does not exist
/// or leaves the range.
pub fn set_month(dt: &mut DateTimeFixed, month: i64) -> (r: Result<(), TimeError>)
    requires
        old(dt).wf(),
    ensures
        set_outcome(Field::Month, *old(dt), month as int, *final(dt), r),
        r is Ok ==> same_clock(*final(dt), *old(dt)) && final(dt).year() == old(dt).year()
            && final(dt).day() == old(dt).day(),
        old(dt).day() > days_in_month(old(dt).year(), month as int) ==> r is Err,
        safe_year(old(dt).year()) && 1 <= month <= 12 && old(dt).day() <= days_in_month(
            old(dt).year(),
            month as int,
        ) ==> r is Ok,
{
    if month < 1 || month > 12 {
        return Err(TimeError::FieldRange(Field::Month));
    }
    let n = replace_month(dt, month as u32);
    store(dt, n, Field::Month)
}

/// Sets the month counted from 0, keeping year, day and time; fails when that date does not
/// exist or leaves the range.
pub fn set_month0(dt: &mut DateTimeFixed, month0: i64) -> (r: Result<(), TimeError>)
    requires
        old(dt).wf(),
    ensures
        set_outcome(Field::Month0, *old(dt), month0 as int, *final(dt), r),
        r is Ok ==> same_clock(*final(dt), *old(dt)) && final(dt).year() == old(dt).year()
            && final(dt).day() == old(dt).day(),
        old(dt).day() > days_in_month(old(dt).year(), month0 + 1) ==> r is Err,
        safe_year(old(dt).year()) && 0 <= month0 <= 11 && old(dt).day() <= days_in_month(
            old(dt).year(),
            month0 + 1,
        ) ==> r is Ok,
{
    if month0 < 0 || month0 > 11 {
        return Err(TimeError::FieldRange(Field::Month0));
    }
    let n = replace_month(dt, (month0 + 1) as u32);
    store(dt, n, Field::Month0)
}

/// Sets the day of the month, keeping year, month and time; fails when the month has no such
/// day or the result leaves the range.
pub fn set_day(dt: &mut DateTimeFixed, day: i64) -> (r: Result<(), TimeError>)
    requires
        old(dt).wf(),
    ensures
        set_outcome(Field::Day, *old(dt), day as int, *final(dt), r),
        r is Ok ==> same_clock(*final(dt), *old(dt)) && final(dt).year() == old(dt).year()
            && final(dt).month() == old(dt).month(),
        !(1 <= day <= days_in_month(old(dt).year(), old(dt).month())) ==> r is Err,
        safe_year(old(dt).year()) && 1 <= day <= days_in_month(old(dt).year(), old(dt).month())
            ==> r is Ok,
{
    if day < 1 || day > 31 {
        return Err(TimeError::FieldRange(Field::Day));
    }
    let n = replace_day(dt, day as u32);
    store(dt, n, Field::Day)
}

/// Sets the day of the month counted from 0, keeping year, month and time.
pub fn set_day0(dt: &mut DateTimeFixed, day0: i64) -> (r: Result<(), TimeError>)
    requires
        old(dt).wf(),
    ensures
        set_outcome(Field::Day0, *old(dt), day0 as int, *final(dt), r),
        r is Ok ==> same_clock(*final(dt), *old(dt)) && final(dt).year() == old(dt).year()
            && final(dt).month() == old(dt).month(),
        !(0 <= day0 < days_in_month(old(dt).year(), old(dt).month())) ==> r is Err,
        safe_year(old(dt).year()) && 0 <= day0 < days_in_month(old(dt).year(), old(dt).month())
            ==> r is Ok,
{
    if day0 < 0 || day0 > 30 {
        return Err(TimeError::FieldRange(Field::Day0));
    }
    let n = replace_day(dt, (day0 + 1) as u32);
    store(dt, n, Field::Day0)
}

/// Sets the day of the year, keeping year and time; fails when the year has no such day or
/// the result leaves the range.
pub fn set_ordinal(dt: &mut DateTimeFixed, day: i64) -> (r: Result<(), TimeError>)
    requires
        old(dt).wf(),
    ensures
        set_outcome(Field::Ordinal, *old(dt), day as int, *final(dt), r),
        r is Ok ==> same_clock(*final(dt), *old(dt)) && final(dt).year() == old(dt).year(),
        !(1 <= day <= days_in_year(old(dt).year())) ==> r is Err,
        safe_year(old(dt).year()) && 1 <= day <= days_in_year(old(dt).year()) ==> r is Ok,
{
    if day < 1 || day > 366 {
        return Err(TimeError::FieldRange(Field::Ordinal));
    }
    let n = replace_ordinal(dt, day as u32);
    store(dt, n, Field::Ordinal)
}

/// Sets the day of the year counted from 0, keeping year and time.
pub fn set_ordinal0(dt: &mut DateTimeFixed, day: i64) -> (r: Result<(), TimeError>)
    requires
        old(dt).wf(),
    ensures
        set_outcome(Field::Ordinal0, *old(dt), day as int, *final(dt), r),
        r is Ok ==> same_clock(*final(dt), *old(dt)) && final(dt).year() == old(dt).year(),
        !(0 <= day < days_in_year(old(dt).year())) ==> r is Err,
        safe_year(old(dt).year()) && 0 <= day < days_in_year(old(dt).year()) ==> r is Ok,
{
    if day < 0 || day > 365 {
        return Err(TimeError::FieldRange(Field::Ordinal0));
    }
    let n = replace_ordinal(dt, (day + 1) as u32);
    store(dt, n, Field::Ordinal0)
}

/// Sets the hour, keeping the local date, minute, second and fraction; fails when the hour is
/// not 0 to 23 or the result leaves the range.
pub fn set_hour(dt: &mut DateTimeFixed, hour: i64) -> (r: Result<(), TimeError>)
    requires
        old(dt).wf(),
    ensures
        set_outcome(Field::Hour, *old(dt), hour as int, *final(dt), r),
        r is Ok <==> 0 <= hour <= 23 && fits_at(
            old(dt).secs + (hour - old(dt).hour()) * 3_600,
            old(dt).nanos as int,
        ),
        r is Ok ==> final(dt).secs == old(dt).secs + (hour - old(dt).hour()) * 3_600 && final(dt).nanos
            == old(dt).nanos && final(dt).minute() == old(dt).minute() && final(dt).second()
            == old(dt).second() && final(dt).local_days() == old(dt).local_days(),
{
    if hour < 0 || hour > 23 {
        return Err(TimeError::FieldRange(Field::Hour));
    }
    let (_d, sod) = local_parts(dt);
    proof { lemma_clock_split(sod as int); }
    let target = hour * 3_600 + sod / 60 % 60 * 60 + sod % 60;
    let n = at_local_time(dt, target, dt.nanos);
    proof {
        if n is Some {
            lemma_clock_parts(target as int, hour as int, (sod / 60 % 60) as int, (sod % 60) as int);
        }
    }
    store(dt, n, Field::Hour)
}

/// Sets the minute, keeping the local date, hour, second and fraction; fails when the minute
/// is not 0 to 59 or the result leaves the range.
pub fn set_minute(dt: &mut DateTimeFixed, minute: i64) -> (r: Result<(), TimeError>)
    requires
        old(dt).wf(),
    ensures
        set_outcome(Field::Minute, *old(dt), minute as int, *final(dt), r),
        r is Ok <==> 0 <= minute <= 59 && fits_at(
            old(dt).secs + (minute - old(dt).minute()) * 60,
            old(dt).nanos as int,
        ),
        r is Ok ==> final(dt).secs == old(dt).secs + (minute - old(dt).minute()) * 60 && final(dt).nanos
            == old(dt).nanos && final(dt).hour() == old(dt).hour() && final(dt).second()
            == old(dt).second() && final(dt).local_days() == old(dt).local_days(),
{
    if minute < 0 || minute > 59 {
        return Err(TimeError::FieldRange(Field::Minute));
    }
    let (_d, sod) = local_parts(dt);
    proof { lemma_clock_split(sod as int); }
    let target = sod / 3_600 * 3_600 + minute * 60 + sod % 60;
    let n = at_local_time(dt, target, dt.nanos);
    proof {
        if n is Some {
            lemma_clock_parts(target as int, (sod / 3_600) as int, minute as int, (sod % 60) as int);
        }
    }
    store(dt, n, Field::Minute)
}

/// Sets the second, keeping the local date, hour, minute and fraction; fails when the second
/// is not 0 to 59 or the result leaves the range.
pub fn set_second(dt: &mut DateTimeFixed, second: i64) -> (r: Result<(), TimeError>)
    requires
        old(dt).wf(),
    ensures
        set_outcome(Field::Second, *old(dt), second as int, *final(dt), r),
        r is Ok <==> 0 <= second <= 59 && fits_at(
            old(dt).secs + (second - old(dt).second()),
            old(dt).nanos as int,
        ),
        r is Ok ==> final(dt).secs == old(dt).secs + (second - old(dt).second()) && final(dt).nanos
            == old(dt).nanos && final(dt).hour() == old(dt).hour() && final(dt).minute()
            == old(dt).minute() && final(dt).local_days() == old(dt).local_days(),
{
    if second < 0 || second > 59 {
        return Err(TimeError::FieldRange(Field::Second));
    }
    let (_d, sod) = local_parts(dt);
    proof { lemma_clock_split(sod as int); }
    let target = sod / 3_600 * 3_600 + sod / 60 % 60 * 60 + second;
    let n = at_local_time(dt, target, dt.nanos);
    proof {
        if n is Some {
            lemma_clock_parts(target as int, (sod / 3_600) as int, (sod / 60 % 60) as int, second as int);
        }
    }
    store(dt, n, Field::Second)
}

/// Sets the fraction of the second in nanoseconds. A fraction of one second or more (up to
/// two) marks a leap second, which the last representable second cannot hold.
pub fn set_nanosecond(dt: &mut DateTimeFixed, nanosecond: i64) -> (r: Result<(), TimeError>)
    requires
        old(dt).wf(),
    ensures
        set_outcome(Field::Nanosecond, *old(dt), nanosecond as int, *final(dt), r),
        r is Ok <==> 0 <= nanosecond <= 1_999_999_999 && fits_at(old(dt).secs as int, nanosecond as int),
        r is Ok ==> final(dt).secs == old(dt).secs,
{
    if nanosecond < 0 || nanosecond > 1_999_999_999 || (dt.secs == MAX_SECS && nanosecond
        >= 1_000_000_000) {
        return Err(TimeError::FieldRange(Field::Nanosecond));
    }
    dt.nanos = nanosecond as u32;
    Ok(())
}

// ---------------------------------------------------------------------------------------
// Arithmetic

/// Moves the value `days` whole days later; fails for a negative count or when the result
/// leaves the range.
pub fn add_days(dt: &mut DateTimeFixed, days: i64) -> (r: Result<(), TimeError>)
    requires
        old(dt).wf(),
    ensures
        r is Ok <==> 0 <= days && fits_at(old(dt).secs + days * 86_400, old(dt).nanos as int),
        r is Ok ==> *final(dt) == (DateTimeFixed { secs: (old(dt).secs + days * 86_400) as i64, ..*old(dt) }),
        r is Err ==> *final(dt) == *old(dt) && r == Err::<(), TimeError>(TimeError::Range),
{
    if days < 0 || days > 200_000_000 {
        return Err(TimeError::Range);
    }
    let secs = dt.secs + days * 86_400;
    if secs > MAX_SECS || (secs == MAX_SECS && dt.nanos >= 1_000_000_000) {
        return Err(TimeError::Range);
    }
    dt.secs = secs;
    Ok(())
}

/// Moves the value `days` whole days earlier; fails for a negative count or when the result
/// leaves the range.
pub fn sub_days(dt: &mut DateTimeFixed, days: i64) -> (r: Result<(), TimeError>)
    requires
        old(dt).wf(),
    ensures
        r is Ok <==> 0 <= days && fits_at(old(dt).secs - days * 86_400, old(dt).nanos as int),
        r is Ok ==> *final(dt) == (DateTimeFixed { secs: (old(dt).secs - days * 86_400) as i64, ..*old(dt) }),
        r is Err ==> *final(dt) == *old(dt) && r == Err::<(), TimeError>(TimeError::Range),
{
    if days < 0 || days > 200_000_000 {
        return Err(TimeError::Range);
    }
    let secs = dt.secs - days * 86_400;
    if secs < MIN_SECS {
        return Err(TimeError::Range);
    }
    dt.secs = secs;
    Ok(())
}

/// Moves the value `months` calendar months later, clamping the day to the end of a shorter
/// month; fails for a count outside `0..=u32::MAX`, when the result leaves the range, or when a
/// leap second would land on the last representable second.
pub fn add_months(dt: &mut DateTimeFixed, months: i64) -> (r: Result<(), TimeError>)
    requires
        old(dt).wf(),
    ensures
        r is Ok ==> final(dt).wf() && same_clock(*final(dt), *old(dt)) && month_index(*final(dt))
            == month_index(*old(dt)) + months && final(dt).day() == (if old(dt).day()
            <= days_in_month(final(dt).year(), final(dt).month()) { old(dt).day() } else {
            days_in_month(final(dt).year(), final(dt).month()) }),
        r is Err ==> *final(dt) == *old(dt) && r == Err::<(), TimeError>(TimeError::Range),
        !(0 <= months <= u32::MAX) ==> r is Err,
        0 <= months <= u32::MAX && safe_year(old(dt).year()) && safe_year(
            (month_index(*old(dt)) + months) / 12,
        ) ==> r is Ok,
{
    if months < 0 || months > u32::MAX as i64 {
        return Err(TimeError::Range);
    }
    match months_later(dt, months as u32) {
        Some(n) => {
            if n.secs == MAX_SECS && n.nanos >= 1_000_000_000 {
                return Err(TimeError::Range);
            }
            *dt = n;
            Ok(())
        },
        None => Err(TimeError::Range),
    }
}

/// Moves the value `months` calendar months earlier, clamping the day to the end of a
/// shorter month; fails for a count outside `0..=u32::MAX` or when the result leaves the range.
pub fn sub_months(dt: &mut DateTimeFixed, months: i64) -> (r: Result<(), TimeError>)
    requires
        old(dt).wf(),
    ensures
        r is Ok ==> final(dt).wf() && same_clock(*final(dt), *old(dt)) && month_index(*final(dt))
            == month_index(*old(dt)) - months && final(dt).day() == (if old(dt).day()
            <= days_in_month(final(dt).year(), final(dt).month()) { old(dt).day() } else {
            days_in_month(final(dt).year(), final(dt).month()) }),
        r is Err ==> *final(dt) == *old(dt) && r == Err::<(), TimeError>(TimeError::Range),
        !(0 <= months <= u32::MAX) ==> r is Err,
        0 <= months <= u32::MAX && safe_year(old(dt).year()) && safe_year(
            (month_index(*old(dt)) - months) / 12,
        ) ==> r is Ok,
{
    if months < 0 || months > u32::MAX as i64 {
        return Err(TimeError::Range);
    }
    match months_earlier(dt, months as u32) {
        Some(n) => {
            *dt = n;
            Ok(())
        },
        None => Err(TimeError::Range),
    }
}

/// Whether `t` nanoseconds since the epoch is a representable instant.
pub open spec fn in_instant_range(t: int) -> bool {
    MIN_SECS * 1_000_000_000 <= t <= MAX_SECS * 1_000_000_000 + 999_999_999
}

/// The value at instant `t`, under offset `offset`.
fn at_instant(t: i128, offset: i32) -> (r: DateTimeFixed)
    requires
        in_instant_range(t as int),
        -86_400 < offset < 86_400,
    ensures
        r.wf(),
        r.instant() == t,
        r.offset == offset,
{
    let (q, m) = div_mod_floor(t, 1_000_000_000);
    proof {
        vstd::arithmetic::div_mod::lemma_fundamental_div_mod(t as int, 1_000_000_000);
        assert(MIN_SECS <= q <= MAX_SECS) by (nonlinear_arith)
            requires
                t == 1_000_000_000 * q + m,
                0 <= m < 1_000_000_000,
                MIN_SECS * 1_000_000_000 <= t <= MAX_SECS * 1_000_000_000 + 999_999_999,
        ;
    }
    DateTimeFixed { secs: q as i64, nanos: m as u32, offset }
}

/// Moves the value later by `td`, keeping the offset; fails when the result leaves the range.
/// Outside a leap second this is exactly the instant `td` later.
pub fn add_timedelta(dt: &mut DateTimeFixed, td: Timedelta) -> (r: Result<(), TimeError>)
    requires
        old(dt).wf(),
        td.wf(),
    ensures
        r is Ok ==> final(dt).wf() && final(dt).offset == old(dt).offset,
        r is Err ==> *final(dt) == *old(dt) && r == Err::<(), TimeError>(TimeError::Range),
        !old(dt).is_leap() ==> (r is Ok <==> in_instant_range(old(dt).instant() + td.total())),
        !old(dt).is_leap() && r is Ok ==> final(dt).instant() == old(dt).instant() + td.total()
            && !final(dt).is_leap(),
{
    match shifted_later(dt, &td) {
        Some(n) => {
            *dt = n;
            Ok(())
        },
        None => Err(TimeError::Range),
    }
}

/// Moves the value earlier by `td`, keeping the offset; fails when the result leaves the
/// range. Outside a leap second this is exactly the instant `td` earlier.
pub fn sub_timedelta(dt: &mut DateTimeFixed, td: Timedelta) -> (r: Result<(), TimeError>)
    requires
        old(dt).wf(),
        td.wf(),
    ensures
        r is Ok ==> final(dt).wf() && final(dt).offset == old(dt).offset,
        r is Err ==> *final(dt) == *old(dt) && r == Err::<(), TimeError>(TimeError::Range),
        !old(dt).is_leap() ==> (r is Ok <==> in_instant_range(old(dt).instant() - td.total())),
        !old(dt).is_leap() && r is Ok ==> final(dt).instant() == old(dt).instant() - td.total()
            && !final(dt).is_leap(),
{
    match shifted_earlier(dt, &td) {
        Some(n) => {
            *dt = n;
            Ok(())
        },
        None => Err(TimeError::Range),
    }
}

/// The signed time from `rhs` to `dt`: outside leap seconds, `dt - rhs` exactly.
pub fn diff(dt: &DateTimeFixed, rhs: &DateTimeFixed) -> (r: Timedelta)
    requires
        dt.wf(),
        rhs.wf(),
    ensures
        r.wf(),
        !dt.is_leap() && !rhs.is_leap() ==> r.total() == dt.instant() - rhs.instant(),
{
    let (s, n) = duration_between(dt, rhs);
    Timedelta::from_total(s as i128 * 1_000_000_000 + n as i128)
}

/// Whole years from `base` to `dt`: positive when `dt` is later, negative when `base` is.
pub fn years_since(dt: &DateTimeFixed, base: &DateTimeFixed) -> (r: i64)
    requires
        dt.wf(),
        base.wf(),
    ensures
        r == signed_years(*dt, *base),
        base.before(*dt) ==> r >= 0,
        !base.before(*dt) ==> r <= 0,
        !dt.is_leap() && !base.is_leap() && dt.instant() < base.instant() ==> r <= 0,
        !dt.is_leap() && !base.is_leap() && base.instant() < dt.instant() ==> r >= 0,
{
    if base.secs < dt.secs || (base.secs == dt.secs && base.nanos < dt.nanos) {
        match chrono_years_since(dt, base) {
            Some(n) => n as i64,
            None => 0,
        }
    } else {
        match chrono_years_since(base, dt) {
            Some(n) => -(n as i64),
            None => 0,
        }
    }
}

/// Whole years from the current local time to `dt`: negative when `dt` lies in the past.
pub fn years_since_now(dt: &DateTimeFixed) -> (r: i64)
    requires
        dt.wf(),
    ensures
        exists|now: DateTimeFixed| now.wf() && now.secs >= 0 && r == signed_years(*dt, now),
{
    let now = crate::zone::local_now();
    years_since(dt, &now)
}

// ---------------------------------------------------------------------------------------
// Text

/// A parse error that carries the text, the format it was read against and the reason.
pub open spec fn is_parse_error(e: TimeError, input: Seq<char>) -> bool {
    e matches TimeError::Parse { input: i, .. } && i@ == input
}

fn parse_error(input: &str, pattern: &str, cause: String) -> (e: TimeError)
    ensures
        e matches TimeError::Parse { input: i, format, .. } && i@ == input@ && format@ == pattern@,
{
    TimeError::Parse { input: String::from_str(input), format: String::from_str(pattern), cause }
}

/// What a constructor from a fixed text format returns, given what the text names.
pub open spec fn parsed_result(r: Result<DateTimeFixed, TimeError>, named: Option<(int, int, int)>, input: Seq<char>) -> bool {
    match named {
        None => r matches Err(e) && is_parse_error(e, input),
        Some(p) => if fits_at(p.0, p.1) {
            r matches Ok(m) && m.wf() && m.secs == p.0 && m.nanos == p.1 && m.offset == p.2
        } else {
            r == Err::<DateTimeFixed, TimeError>(TimeError::Range)
        },
    }
}

/// A value from parsed parts; a leap second at the last representable second is out of range.
fn from_parsed(secs: i64, nanos: u32, offset: i32) -> (r: Result<DateTimeFixed, TimeError>)
    requires
        MIN_SECS <= secs <= MAX_SECS,
        nanos < 2_000_000_000,
        -86_400 < offset < 86_400,
    ensures
        parsed_result(r, Some((secs as int, nanos as int, offset as int)), Seq::empty()),
{
    if secs == MAX_SECS && nanos >= 1_000_000_000 {
        Err(TimeError::Range)
    } else {
        Ok(DateTimeFixed { secs, nanos, offset })
    }
}

/// Reads an RFC 2822 date and time such as `Wed, 9 Aug 1989 09:30:11 +0000`.
pub fn datetime_rfc2822(timestamp: &str) -> (r: Result<DateTimeFixed, TimeError>)
    ensures
        parsed_result(r, rfc2822_parse_of(timestamp@), timestamp@),
{
    match parse_rfc2822(timestamp) {
        Ok(p) => from_parsed(p.0, p.1, p.2),
        Err(cause) => Err(parse_error(timestamp, "RFC 2822", cause)),
    }
}

/// Reads an RFC 3339 date and time such as `1989-08-09T09:30:11+00:00`.
pub fn datetime_rfc3339(timestamp: &str) -> (r: Result<DateTimeFixed, TimeError>)
    ensures
        parsed_result(r, rfc3339_parse_of(timestamp@), timestamp@),
{
    match parse_rfc3339(timestamp) {
        Ok(p) => from_parsed(p.0, p.1, p.2),
        Err(cause) => Err(parse_error(timestamp, "RFC 3339", cause)),
    }
}

/// What reading `timestamp` against `pattern` names, as (seconds, nanoseconds): the full date
/// and time when the text gives both; else, for a pattern with no time specifier, the date at
/// midnight; else the time on 1970-01-01; all in UTC.
pub open spec fn pattern_instant_of(timestamp: Seq<char>, pattern: Seq<char>) -> Option<(int, int)> {
    match pattern_parse_of(timestamp, pattern) {
        Some(p) => Some(p),
        None => match (if names_time(pattern) { None } else { date_parse_of(timestamp, pattern) }) {
            Some(t) => Some((t, 0)),
            None => match time_parse_of(timestamp, pattern) {
                Some(c) => Some(c),
                None => None,
            },
        },
    }
}

/// Reads a date and time against a strftime pattern, in UTC; a pattern without any time
/// specifier reads as midnight, and a text that gives a time but no date as that time on
/// 1970-01-01.
pub fn datetime_parse(timestamp: &str, pattern: &str) -> (r: Result<DateTimeFixed, TimeError>)
    ensures
        match pattern_instant_of(timestamp@, pattern@) {
            None => r matches Err(TimeError::Parse { input, format, .. }) && input@ == timestamp@
                && format@ == pattern@,
            Some(p) => parsed_result(r, Some((p.0, p.1, 0)), timestamp@),
        },
{
    match parse_pattern(timestamp, pattern) {
        Ok(p) => from_parsed(p.0, p.1, 0),
        Err(cause) => {
            let date = if pattern_names_time(pattern) {
                None
            } else {
                parse_date_only(timestamp, pattern)
            };
            match date {
                Some(t) => Ok(DateTimeFixed { secs: t, nanos: 0, offset: 0 }),
                None => match parse_time_only(timestamp, pattern) {
                    Some(c) => Ok(DateTimeFixed { secs: c.0 as i64, nanos: c.1, offset: 0 }),
                    None => Err(parse_error(timestamp, pattern, cause)),
                },
            }
        },
    }
}

/// The RFC 3339 text of the value.
pub fn to_string(dt: &DateTimeFixed) -> (r: String)
    requires
        dt.wf(),
    ensures
        r@ == rfc3339_text_of(dt.secs as int, dt.nanos as int, dt.offset as int),
{
    rfc3339_text(dt)
}

/// The RFC 2822 text of the value; fails when the local year is not 0 to 9999, which that
/// format cannot show.
pub fn to_rfc2822(dt: &DateTimeFixed) -> (r: Result<String, TimeError>)
    requires
        dt.wf(),
    ensures
        r is Ok <==> 0 <= dt.year() <= 9_999,
        match r {
            Ok(s) => s@ == rfc2822_text_of(dt.secs as int, dt.nanos as int, dt.offset as int),
            Err(e) => e == TimeError::Range,
        },
{
    let year = local_year(dt);
    if year < 0 || year > 9_999 {
        return Err(TimeError::Range);
    }
    Ok(rfc2822_text(dt))
}

/// The value written under a strftime pattern; an invalid specifier is written as it stands.
/// Fails only where chrono cannot write the value.
pub fn format(dt: &DateTimeFixed, pattern: &str) -> (r: Result<String, TimeError>)
    requires
        dt.wf(),
    ensures
        match pattern_text_of(dt.secs as int, dt.nanos as int, dt.offset as int, pattern@) {
            Some(t) => r matches Ok(s) && s@ == t,
            None => r == Err::<String, TimeError>(TimeError::Range),
        },
{
    match pattern_text(dt, pattern) {
        Some(s) => Ok(s),
        None => Err(TimeError::Range),
    }
}

/// The value written under a strftime pattern with the month and weekday names of a locale
/// such as `fr_FR`; an invalid specifier is written as it stands. Fails when the locale is
/// unknown, and otherwise only where chrono cannot write the value.
pub fn format_localized(dt: &DateTimeFixed, pattern: &str, locale: &str) -> (r: Result<String, TimeError>)
    requires
        dt.wf(),
    ensures
        !locale_known_of(locale@) ==> r == Err::<String, TimeError>(TimeError::Config),
        locale_known_of(locale@) ==> match localized_text_of(
            dt.secs as int,
            dt.nanos as int,
            dt.offset as int,
            pattern@,
            locale@,
        ) {
            Some(t) => r matches Ok(s) && s@ == t,
            None => r == Err::<String, TimeError>(TimeError::Range),
        },
{
    if !locale_known(locale) {
        return Err(TimeError::Config);
    }
    match localized_text(dt, pattern, locale) {
        Some(s) => Ok(s),
        None => Err(TimeError::Range),
    }
}

/// The offset as `+HH:MM` (or `+HH:MM:SS`).
pub fn get_timezone(dt: &DateTimeFixed) -> (r: String)
    requires
        dt.wf(),
    ensures
        r@ == offset_text_of(dt.offset as int),
{
    offset_text(dt.offset)
}

/// The offset as `+HH:MM` (or `+HH:MM:SS`).
pub fn get_offset(dt: &DateTimeFixed) -> (r: String)
    requires
        dt.wf(),
    ensures
        r@ == offset_text_of(dt.offset as int),
{
    offset_text(dt.offset)
}

/// The local time of day as `HH:MM:SS`, with a fraction when it is not zero.
pub fn get_time(dt: &DateTimeFixed) -> (r: String)
    requires
        dt.wf(),
    ensures
        r@ == time_text_of(dt.secs_of_day(), dt.nanos as int),
{
    let (_d, sod) = local_parts(dt);
    time_text(sod as u32, dt.nanos)
}

/// Sets the local time of day from a lenient `H:M:S` text, keeping the local date and
/// clearing the fraction: missing or unreadable pieces count as zero, and a time that does
/// not exist becomes midnight. Fails only when the result leaves the range.
pub fn set_time(dt: &mut DateTimeFixed, time: &str) -> (r: Result<(), TimeError>)
    requires
        old(dt).wf(),
    ensures
        r is Ok <==> MIN_SECS <= old(dt).secs + (lenient_time_of(time@) - old(dt).secs_of_day()) <= MAX_SECS,
        r is Ok ==> final(dt).wf() && final(dt).offset == old(dt).offset && final(dt).local_days()
            == old(dt).local_days() && final(dt).secs_of_day() == lenient_time_of(time@)
            && final(dt).nanos == 0,
        r is Err ==> *final(dt) == *old(dt) && r == Err::<(), TimeError>(TimeError::Range),
{
    let sod = lenient_time(time);
    match at_local_time(dt, sod as i64, 0) {
        Some(n) => {
            *dt = n;
            Ok(())
        },
        None => Err(TimeError::Range),
    }
}

/// How a time zone text is read: `local` in any letter case, a fixed offset when it holds
/// a `0`, and a zone name otherwise.
pub open spec fn timezone_outcome(tz: Seq<char>, before: DateTimeFixed, after: DateTimeFixed, r: Result<(), TimeError>) -> bool {
    &&& r is Ok ==> after.wf() && after.secs == before.secs && after.nanos == before.nanos
    &&& r is Err ==> after == before
    &&& if spells_ignoring_case(tz, "local"@) {
        r is Ok
    } else if tz.contains('0') {
        match fixed_offset_of(tz) {
            Some(o) => r is Ok && after.offset == o,
            None => r == Err::<(), TimeError>(TimeError::InvalidOffset),
        }
    } else if zone_known_of(tz) {
        r is Ok && after.offset == zone_offset_of(tz, before.secs as int)
    } else {
        r == Err::<(), TimeError>(TimeError::InvalidTimezone)
    }
}

/// Moves the value to another offset, keeping the instant: `local` takes the machine's current
/// offset, a text with a `0` is read as a fixed offset such as `-06:00`, and anything else as a
/// zone name such as `America/Edmonton`, whose offset at this instant is taken.
pub fn set_timezone(dt: &mut DateTimeFixed, timezone: &str) -> (r: Result<(), TimeError>)
    requires
        old(dt).wf(),
    ensures
        timezone_outcome(timezone@, *old(dt), *final(dt), r),
{
    let offset = if equals_ignoring_case(timezone, "local") {
        crate::zone::local_now().offset
    } else if contains_char(timezone, '0') {
        match parse_fixed_offset(timezone) {
            Some(o) => o,
            None => return Err(TimeError::InvalidOffset),
        }
    } else if zone_known(timezone) {
        zone_offset_at(timezone, dt.secs)
    } else {
        return Err(TimeError::InvalidTimezone);
    };
    dt.offset = offset;
    Ok(())
}

} // verus!
