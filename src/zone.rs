use vstd::prelude::*;
use std::str::FromStr;
use chrono::{DateTime, FixedOffset, Local, Offset, Utc};
use chrono_tz::Tz;
use crate::datetime::DateTimeFixed;

verus! {

/// Relies on chrono's `Utc::now`: the current instant, in UTC; it panics rather than return
/// an instant before the epoch.
#[verifier::external_body]
pub(crate) fn utc_now() -> (r: DateTimeFixed)
    ensures
        r.wf(),
        r.offset == 0,
        r.secs >= 0,
{
    let d = Utc::now();
    DateTimeFixed { secs: d.timestamp(), nanos: d.timestamp_subsec_nanos(), offset: 0 }
}

/// Relies on chrono's `Local::now`: the current instant (read through `Utc::now`, so never
/// before the epoch) under the machine's current offset.
#[verifier::external_body]
pub(crate) fn local_now() -> (r: DateTimeFixed)
    ensures
        r.wf(),
        r.secs >= 0,
{
    let d = Local::now().fixed_offset();
    DateTimeFixed { secs: d.timestamp(), nanos: d.timestamp_subsec_nanos(), offset: d.offset().local_minus_utc() }
}

/// The offset in seconds that a fixed-offset text such as `-06:00` names, if it is one.
pub uninterp spec fn fixed_offset_of(s: Seq<char>) -> Option<int>;

/// Whether the time zone database knows a zone by this name.
pub uninterp spec fn zone_known_of(name: Seq<char>) -> bool;

/// The offset in seconds that the named zone observes at `secs` seconds after the epoch.
pub uninterp spec fn zone_offset_of(name: Seq<char>, secs: int) -> int;

/// Relies on chrono's `FixedOffset::from_str`: the offset that the text names, always under
/// one day.
#[verifier::external_body]
pub(crate) fn parse_fixed_offset(s: &str) -> (r: Option<i32>)
    ensures
        r is Some <==> fixed_offset_of(s@) is Some,
        r matches Some(o) ==> fixed_offset_of(s@) == Some(o as int) && -86_400 < o < 86_400,
{
    match FixedOffset::from_str(s) {
        Ok(o) => Some(o.local_minus_utc()),
        Err(_) => None,
    }
}

/// Relies on chrono-tz's `Tz::from_str`: whether the name is a zone of its database.
#[verifier::external_body]
pub(crate) fn zone_known(name: &str) -> (r: bool)
    ensures
        r == zone_known_of(name@),
{
    Tz::from_str(name).is_ok()
}

/// Relies on chrono-tz's offset lookup for a known zone at a UTC instant; an offset is always
/// under one day.
#[verifier::external_body]
pub(crate) fn zone_offset_at(name: &str, secs: i64) -> (r: i32)
    requires
        zone_known_of(name@),
        crate::calendar::MIN_SECS <= secs <= crate::calendar::MAX_SECS,
    ensures
        r == zone_offset_of(name@, secs as int),
        -86_400 < r < 86_400,
{
    let tz = Tz::from_str(name).unwrap();
    DateTime::from_timestamp(secs, 0).unwrap().with_timezone(&tz).offset().fix().local_minus_utc()
}

} // verus!
