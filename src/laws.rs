use vstd::prelude::*;
use crate::datetime::{field_bounds, field_value, micros_of, millis_of, set_outcome, DateTimeFixed};
use crate::error::{Field, TimeError};
use crate::timedelta::{in_span_range, lemma_total_determines, magnitude, Timedelta};

verus! {

/// Building a value from an epoch count (which never lands in a leap second) and projecting
/// it back in the same unit gives the count again: seconds through `timestamp`, milliseconds through `timestamp_millis`,
/// microseconds through `timestamp_micros`, nanoseconds through `timestamp_nanos`.
pub proof fn law_epoch_round_trip(v: i64, m: DateTimeFixed)
    requires
        m.wf(),
        !m.is_leap(),
    ensures
        m.instant() == v * 1_000_000_000 ==> m.secs == v,
        m.instant() == v * 1_000_000 ==> millis_of(m) == v,
        m.instant() == v * 1_000 ==> micros_of(m) == v,
        m.instant() == v ==> i64::MIN <= m.instant() <= i64::MAX && m.instant() == v,
{
    if m.instant() == v * 1_000_000_000 {
        assert(m.secs == v) by (nonlinear_arith)
            requires
                m.secs * 1_000_000_000 + m.nanos == v * 1_000_000_000,
                0 <= m.nanos < 1_000_000_000,
        ;
    }
    if m.instant() == v * 1_000_000 {
        let k = v - m.secs * 1_000;
        assert(m.nanos == k * 1_000_000) by (nonlinear_arith)
            requires
                m.secs * 1_000_000_000 + m.nanos == v * 1_000_000,
                k == v - m.secs * 1_000,
        ;
        vstd::arithmetic::div_mod::lemma_div_multiples_vanish(k, 1_000_000);
    }
    if m.instant() == v * 1_000 {
        let k = v - m.secs * 1_000_000;
        assert(m.nanos == k * 1_000) by (nonlinear_arith)
            requires
                m.secs * 1_000_000_000 + m.nanos == v * 1_000,
                k == v - m.secs * 1_000_000,
        ;
        vstd::arithmetic::div_mod::lemma_div_multiples_vanish(k, 1_000);
    }
}

/// Adding the zero delta always succeeds and leaves a delta as it was.
pub proof fn law_add_zero(s: Timedelta, zero: Timedelta, after: Timedelta)
    requires
        s.wf(),
        zero.wf(),
        zero.total() == 0,
        after.wf(),
        after.total() == s.total() + zero.total(),
    ensures
        in_span_range(s.total() + zero.total()),
        after == s,
{
    lemma_total_determines(after, s);
}

/// Subtracting the zero delta always succeeds and leaves a delta as it was.
pub proof fn law_subtract_zero(s: Timedelta, zero: Timedelta, after: Timedelta)
    requires
        s.wf(),
        zero.wf(),
        zero.total() == 0,
        after.wf(),
        after.total() == s.total() - zero.total(),
    ensures
        in_span_range(s.total() - zero.total()),
        after == s,
{
    lemma_total_determines(after, s);
}

/// Taking the absolute value twice gives the same delta as taking it once.
pub proof fn law_abs_idempotent(s: Timedelta, once: Timedelta, twice: Timedelta)
    requires
        s.wf(),
        once.wf(),
        once.total() == magnitude(s.total()),
        twice.wf(),
        twice.total() == magnitude(once.total()),
    ensures
        twice == once,
{
    lemma_total_determines(twice, once);
}

/// A field setter that succeeds stores exactly the value given, which the matching getter
/// reads back; a value outside the field's bounds fails with a field range error and leaves
/// the date and time unchanged.
pub proof fn law_set_then_get(
    f: Field,
    before: DateTimeFixed,
    v: int,
    after: DateTimeFixed,
    r: Result<(), TimeError>,
)
    requires
        before.wf(),
        set_outcome(f, before, v, after, r),
    ensures
        r is Ok ==> field_value(after, f) == v,
        !field_bounds(f, v) ==> after == before && r == Err::<(), TimeError>(TimeError::FieldRange(f)),
{
}

} // verus!
