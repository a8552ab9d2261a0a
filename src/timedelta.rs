use vstd::prelude::*;
use vstd::arithmetic::div_mod::{lemma_fundamental_div_mod, lemma_fundamental_div_mod_converse};
use crate::arith::{div_mod_floor, trunc_div};
use crate::error::TimeError;

verus! {

/// Nanoseconds in one second.
pub const NANOS_PER_SEC: i128 = 1_000_000_000;

/// The largest magnitude of a time delta in nanoseconds: `i64::MAX` milliseconds.
pub const MAX_SPAN_NANOS: i128 = 9_223_372_036_854_775_807_000_000;

/// Whether `t` nanoseconds lies within the representable range of a time delta.
pub open spec fn in_span_range(t: int) -> bool {
    -MAX_SPAN_NANOS <= t <= MAX_SPAN_NANOS
}

/// Whether `t` fits in an `i64`.
pub open spec fn fits_i64(t: int) -> bool {
    i64::MIN <= t <= i64::MAX
}

/// A signed duration, held as whole seconds (rounded toward negative infinity) and a
/// non-negative nanosecond remainder below one second.
#[derive(Clone, Copy, Debug, PartialEq, Eq, Structural)]
pub struct Timedelta {
    pub secs: i64,
    pub nanos: i32,
}

impl Timedelta {
    /// The duration in nanoseconds.
    pub open spec fn total(self) -> int {
        self.secs * NANOS_PER_SEC + self.nanos
    }

    /// The remainder is normalized and the magnitude is within range.
    pub open spec fn wf(self) -> bool {
        &&& 0 <= self.nanos < NANOS_PER_SEC
        &&& in_span_range(self.total())
    }

    /// Whether the value is well formed, checked at run time.
    pub fn is_valid(&self) -> (r: bool)
        ensures
            r == self.wf(),
    {
        if self.nanos < 0 || self.nanos >= 1_000_000_000 {
            return false;
        }
        let t = self.secs as i128 * NANOS_PER_SEC + self.nanos as i128;
        -MAX_SPAN_NANOS <= t && t <= MAX_SPAN_NANOS
    }

    /// The duration in nanoseconds, computed.
    pub fn total_nanos(&self) -> (r: i128)
        requires
            self.wf(),
        ensures
            r == self.total(),
    {
        self.secs as i128 * NANOS_PER_SEC + self.nanos as i128
    }

    /// The delta of exactly `t` nanoseconds.
    pub fn from_total(t: i128) -> (r: Timedelta)
        requires
            in_span_range(t as int),
        ensures
            r.wf(),
            r.total() == t,
    {
        let (q, m) = div_mod_floor(t, NANOS_PER_SEC);
        proof {
            lemma_fundamental_div_mod(t as int, NANOS_PER_SEC as int);
            assert(-10_000_000_000_000_000 <= q <= 10_000_000_000_000_000) by (nonlinear_arith)
                requires
                    t == 1_000_000_000 * q + m,
                    0 <= m < 1_000_000_000,
                    -MAX_SPAN_NANOS <= t <= MAX_SPAN_NANOS,
            ;
        }
        Timedelta { secs: q as i64, nanos: m as i32 }
    }
}

/// The absolute value of `t`.
pub open spec fn magnitude(t: int) -> int {
    if t < 0 {
        -t
    } else {
        t
    }
}

/// Two well-formed deltas of the same length are the same value.
pub proof fn lemma_total_determines(a: Timedelta, b: Timedelta)
    requires
        a.wf(),
        b.wf(),
        a.total() == b.total(),
    ensures
        a == b,
{
    lemma_fundamental_div_mod_converse(a.total(), NANOS_PER_SEC as int, a.secs as int, a.nanos as int);
    lemma_fundamental_div_mod_converse(b.total(), NANOS_PER_SEC as int, b.secs as int, b.nanos as int);
}

/// What a constructor from `count` units of `unit` nanoseconds returns.
pub open spec fn from_units_result(r: Result<Timedelta, TimeError>, count: int, unit: int) -> bool {
    &&& (r is Ok <==> in_span_range(count * unit))
    &&& match r {
        Ok(d) => d.wf() && d.total() == count * unit,
        Err(e) => e == TimeError::Range,
    }
}

fn from_units(count: i64, unit: i128) -> (r: Result<Timedelta, TimeError>)
    requires
        0 < unit <= 604_800 * NANOS_PER_SEC,
    ensures
        from_units_result(r, count as int, unit as int),
{
    proof {
        assert(-9_223_372_036_854_775_808 * 604_800_000_000_000 <= count * unit
            <= 9_223_372_036_854_775_807 * 604_800_000_000_000) by (nonlinear_arith)
            requires
                i64::MIN <= count <= i64::MAX,
                0 < unit <= 604_800_000_000_000,
        ;
    }
    let t = count as i128 * unit;
    if -MAX_SPAN_NANOS <= t && t <= MAX_SPAN_NANOS {
        Ok(Timedelta::from_total(t))
    } else {
        Err(TimeError::Range)
    }
}

/// The zero delta.
pub fn timedelta() -> (r: Timedelta)
    ensures
        r.wf(),
        r.total() == 0,
{
    Timedelta { secs: 0, nanos: 0 }
}

/// The most negative delta: minus `i64::MAX` milliseconds.
pub fn timedelta_min() -> (r: Timedelta)
    ensures
        r.wf(),
        r.total() == -MAX_SPAN_NANOS,
{
    Timedelta::from_total(-MAX_SPAN_NANOS)
}

/// The largest delta: `i64::MAX` milliseconds.
pub fn timedelta_max() -> (r: Timedelta)
    ensures
        r.wf(),
        r.total() == MAX_SPAN_NANOS,
{
    Timedelta::from_total(MAX_SPAN_NANOS)
}

/// A delta of whole seconds; fails when out of range.
pub fn timedelta_seconds(seconds: i64) -> (r: Result<Timedelta, TimeError>)
    ensures
        from_units_result(r, seconds as int, NANOS_PER_SEC as int),
{
    from_units(seconds, NANOS_PER_SEC)
}

/// A delta of seconds plus a nanosecond remainder in `0..1_000_000_000`; fails when the
/// remainder is not in that range or the delta is out of range.
pub fn timedelta_seconds_and_nanos(seconds: i64, nanos: i64) -> (r: Result<Timedelta, TimeError>)
    ensures
        r is Ok <==> (0 <= nanos < NANOS_PER_SEC && in_span_range(seconds * NANOS_PER_SEC + nanos)),
        match r {
            Ok(d) => d.wf() && d.total() == seconds * NANOS_PER_SEC + nanos,
            Err(e) => e == TimeError::Range,
        },
{
    if nanos < 0 || nanos >= 1_000_000_000 {
        return Err(TimeError::Range);
    }
    let t = seconds as i128 * NANOS_PER_SEC + nanos as i128;
    if -MAX_SPAN_NANOS <= t && t <= MAX_SPAN_NANOS {
        Ok(Timedelta::from_total(t))
    } else {
        Err(TimeError::Range)
    }
}

/// A delta of whole days (86,400 seconds each); fails when out of range.
pub fn timedelta_days(days: i64) -> (r: Result<Timedelta, TimeError>)
    ensures
        from_units_result(r, days as int, 86_400 * NANOS_PER_SEC),
{
    from_units(days, 86_400 * NANOS_PER_SEC)
}

/// A delta of whole weeks; fails when out of range.
pub fn timedelta_weeks(weeks: i64) -> (r: Result<Timedelta, TimeError>)
    ensures
        from_units_result(r, weeks as int, 604_800 * NANOS_PER_SEC),
{
    from_units(weeks, 604_800 * NANOS_PER_SEC)
}

/// A delta of whole hours; fails when out of range.
pub fn timedelta_hours(hours: i64) -> (r: Result<Timedelta, TimeError>)
    ensures
        from_units_result(r, hours as int, 3_600 * NANOS_PER_SEC),
{
    from_units(hours, 3_600 * NANOS_PER_SEC)
}

/// A delta of whole minutes; fails when out of range.
pub fn timedelta_minutes(minutes: i64) -> (r: Result<Timedelta, TimeError>)
    ensures
        from_units_result(r, minutes as int, 60 * NANOS_PER_SEC),
{
    from_units(minutes, 60 * NANOS_PER_SEC)
}

/// A delta of milliseconds; fails only for `i64::MIN`.
pub fn timedelta_millis(millis: i64) -> (r: Result<Timedelta, TimeError>)
    ensures
        from_units_result(r, millis as int, 1_000_000),
        r is Ok <==> millis != i64::MIN,
{
    from_units(millis, 1_000_000)
}

/// A delta of microseconds; every `i64` count is in range.
pub fn timedelta_micros(micros: i64) -> (r: Timedelta)
    ensures
        r.wf(),
        r.total() == micros * 1_000,
{
    Timedelta::from_total(micros as i128 * 1_000)
}

/// A delta of nanoseconds; every `i64` count is in range.
pub fn timedelta_nanos(nanos: i64) -> (r: Timedelta)
    ensures
        r.wf(),
        r.total() == nanos,
{
    Timedelta::from_total(nanos as i128)
}

/// Whether the delta is zero.
pub fn is_zero(td: &Timedelta) -> (r: bool)
    requires
        td.wf(),
    ensures
        r == (td.total() == 0),
{
    td.secs == 0 && td.nanos == 0
}

/// Replaces the delta by its magnitude.
pub fn abs(td: &mut Timedelta)
    requires
        old(td).wf(),
    ensures
        final(td).wf(),
        final(td).total() == magnitude(old(td).total()),
{
    let t = td.total_nanos();
    let m = if t < 0 { -t } else { t };
    *td = Timedelta::from_total(m);
}

/// Adds `rhs` to the delta in place; on overflow reports a range error and changes nothing.
pub fn add(td: &mut Timedelta, rhs: Timedelta) -> (r: Result<(), TimeError>)
    requires
        old(td).wf(),
        rhs.wf(),
    ensures
        r is Ok <==> in_span_range(old(td).total() + rhs.total()),
        r is Ok ==> final(td).wf() && final(td).total() == old(td).total() + rhs.total(),
        r is Err ==> *final(td) == *old(td) && r == Err::<(), TimeError>(TimeError::Range),
{
    let t = td.total_nanos() + rhs.total_nanos();
    if -MAX_SPAN_NANOS <= t && t <= MAX_SPAN_NANOS {
        *td = Timedelta::from_total(t);
        Ok(())
    } else {
        Err(TimeError::Range)
    }
}

/// Subtracts `rhs` from the delta in place; on overflow reports a range error and changes
/// nothing.
pub fn sub(td: &mut Timedelta, rhs: Timedelta) -> (r: Result<(), TimeError>)
    requires
        old(td).wf(),
        rhs.wf(),
    ensures
        r is Ok <==> in_span_range(old(td).total() - rhs.total()),
        r is Ok ==> final(td).wf() && final(td).total() == old(td).total() - rhs.total(),
        r is Err ==> *final(td) == *old(td) && r == Err::<(), TimeError>(TimeError::Range),
{
    let t = td.total_nanos() - rhs.total_nanos();
    if -MAX_SPAN_NANOS <= t && t <= MAX_SPAN_NANOS {
        *td = Timedelta::from_total(t);
        Ok(())
    } else {
        Err(TimeError::Range)
    }
}

/// The delta in `unit` nanoseconds, rounded toward zero.
fn in_units(td: &Timedelta, unit: i128) -> (r: i128)
    requires
        td.wf(),
        1 <= unit,
    ensures
        r == trunc_div(td.total(), unit as int),
        -MAX_SPAN_NANOS <= r <= MAX_SPAN_NANOS,
{
    let t = td.total_nanos();
    proof {
        if t >= 0 {
            vstd::arithmetic::div_mod::lemma_div_is_ordered_by_denominator(t as int, 1, unit as int);
            vstd::arithmetic::div_mod::lemma_div_basics(t as int);
            vstd::arithmetic::div_mod::lemma_div_pos_is_pos(t as int, unit as int);
        } else {
            vstd::arithmetic::div_mod::lemma_div_is_ordered_by_denominator(-t as int, 1, unit as int);
            vstd::arithmetic::div_mod::lemma_div_basics(-t as int);
            vstd::arithmetic::div_mod::lemma_div_pos_is_pos(-t as int, unit as int);
        }
    }
    t / unit
}

/// Whole seconds, rounded toward zero.
pub fn get_seconds(td: &Timedelta) -> (r: i64)
    requires
        td.wf(),
    ensures
        r == trunc_div(td.total(), NANOS_PER_SEC as int),
{
    let v = in_units(td, NANOS_PER_SEC);
    proof { lemma_trunc_div_shrinks(td.total(), NANOS_PER_SEC as int, 1_000_000); }
    v as i64
}

/// Whole minutes, rounded toward zero.
pub fn get_minutes(td: &Timedelta) -> (r: i64)
    requires
        td.wf(),
    ensures
        r == trunc_div(td.total(), 60 * NANOS_PER_SEC),
{
    let v = in_units(td, 60 * NANOS_PER_SEC);
    proof { lemma_trunc_div_shrinks(td.total(), 60 * NANOS_PER_SEC as int, 1_000_000); }
    v as i64
}

/// Whole hours, rounded toward zero.
pub fn get_hours(td: &Timedelta) -> (r: i64)
    requires
        td.wf(),
    ensures
        r == trunc_div(td.total(), 3_600 * NANOS_PER_SEC),
{
    let v = in_units(td, 3_600 * NANOS_PER_SEC);
    proof { lemma_trunc_div_shrinks(td.total(), 3_600 * NANOS_PER_SEC as int, 1_000_000); }
    v as i64
}

/// Whole days, rounded toward zero.
pub fn get_days(td: &Timedelta) -> (r: i64)
    requires
        td.wf(),
    ensures
        r == trunc_div(td.total(), 86_400 * NANOS_PER_SEC),
{
    let v = in_units(td, 86_400 * NANOS_PER_SEC);
    proof { lemma_trunc_div_shrinks(td.total(), 86_400 * NANOS_PER_SEC as int, 1_000_000); }
    v as i64
}

/// Whole weeks, rounded toward zero.
pub fn get_weeks(td: &Timedelta) -> (r: i64)
    requires
        td.wf(),
    ensures
        r == trunc_div(td.total(), 604_800 * NANOS_PER_SEC),
{
    let v = in_units(td, 604_800 * NANOS_PER_SEC);
    proof { lemma_trunc_div_shrinks(td.total(), 604_800 * NANOS_PER_SEC as int, 1_000_000); }
    v as i64
}

/// The part below one whole second, with the sign of the delta.
pub fn get_subsec_nanos(td: &Timedelta) -> (r: i64)
    requires
        td.wf(),
    ensures
        r == td.total() - trunc_div(td.total(), NANOS_PER_SEC as int) * NANOS_PER_SEC,
        -NANOS_PER_SEC < r < NANOS_PER_SEC,
{
    let t = td.total_nanos();
    let q = in_units(td, NANOS_PER_SEC);
    proof {
        if t >= 0 {
            lemma_fundamental_div_mod(t as int, NANOS_PER_SEC as int);
        } else {
            lemma_fundamental_div_mod(-t as int, NANOS_PER_SEC as int);
        }
    }
    (t - q * NANOS_PER_SEC) as i64
}

/// Whole milliseconds, rounded toward zero.
pub fn get_milliseconds(td: &Timedelta) -> (r: i64)
    requires
        td.wf(),
    ensures
        r == trunc_div(td.total(), 1_000_000),
{
    let v = in_units(td, 1_000_000);
    proof { lemma_trunc_div_shrinks(td.total(), 1_000_000, 1_000_000); }
    v as i64
}

/// Whole microseconds, rounded toward zero; fails when that count does not fit in an `i64`.
pub fn get_microseconds(td: &Timedelta) -> (r: Result<i64, TimeError>)
    requires
        td.wf(),
    ensures
        r is Ok <==> fits_i64(trunc_div(td.total(), 1_000)),
        match r {
            Ok(v) => v == trunc_div(td.total(), 1_000),
            Err(e) => e == TimeError::Range,
        },
{
    let v = in_units(td, 1_000);
    if i64::MIN as i128 <= v && v <= i64::MAX as i128 {
        Ok(v as i64)
    } else {
        Err(TimeError::Range)
    }
}

/// The delta in nanoseconds; fails when that count does not fit in an `i64`.
pub fn get_nanoseconds(td: &Timedelta) -> (r: Result<i64, TimeError>)
    requires
        td.wf(),
    ensures
        r is Ok <==> fits_i64(td.total()),
        match r {
            Ok(v) => v == td.total(),
            Err(e) => e == TimeError::Range,
        },
{
    let v = td.total_nanos();
    if i64::MIN as i128 <= v && v <= i64::MAX as i128 {
        Ok(v as i64)
    } else {
        Err(TimeError::Range)
    }
}

/// Dividing a delta by at least `k` nanoseconds leaves at most the range over `k`.
proof fn lemma_trunc_div_shrinks(t: int, unit: int, k: int)
    requires
        in_span_range(t),
        k == 1_000_000,
        unit >= k,
    ensures
        fits_i64(trunc_div(t, unit)),
{
    let a = if t >= 0 { t } else { -t };
    vstd::arithmetic::div_mod::lemma_div_is_ordered_by_denominator(a, k, unit);
    vstd::arithmetic::div_mod::lemma_div_is_ordered(a, MAX_SPAN_NANOS as int, k);
    vstd::arithmetic::div_mod::lemma_div_pos_is_pos(a, unit);
    lemma_fundamental_div_mod_converse(MAX_SPAN_NANOS as int, k, i64::MAX as int, 0);
}

} // verus!
