use rhai_chrono::calendar::{MAX_SECS, MIN_SECS};
use rhai_chrono::datetime::{
    add_timedelta, datetime_micros, datetime_millis, datetime_nanos, datetime_rfc2822,
    datetime_rfc3339, datetime_unix, diff, get_day, get_day0, get_hour, get_minute, get_month,
    get_month0, get_nanosecond, get_ordinal, get_ordinal0, get_second, get_timezone, get_year,
    set_day, set_day0, set_hour, set_minute, set_month, set_month0, set_nanosecond, set_ordinal,
    set_ordinal0, set_second, set_timezone, set_year, timestamp, timestamp_micros, timestamp_millis,
    timestamp_nanos, to_rfc2822, to_string, years_since, DateTimeFixed,
};
use rhai_chrono::error::{Field, TimeError};
use rhai_chrono::timedelta::{
    self, abs, get_seconds, timedelta_days, timedelta_max, timedelta_min, timedelta_nanos,
    timedelta_seconds_and_nanos, Timedelta,
};

fn sample_spans() -> Vec<Timedelta> {
    vec![
        timedelta::timedelta(),
        timedelta_min(),
        timedelta_max(),
        timedelta_nanos(-1),
        timedelta_nanos(1),
        timedelta_seconds_and_nanos(-7, 999_999_999).unwrap(),
        timedelta_days(-365).unwrap(),
    ]
}

#[test]
fn epoch_round_trip_in_each_unit() {
    for v in [0i64, 1, -1, 618658211, -618658211, MIN_SECS, MAX_SECS] {
        assert_eq!(timestamp(&datetime_unix(v).unwrap()), v);
    }
    for v in [0i64, 999, -1, -1001, 618658211123, -8_334_601_228_800_000] {
        assert_eq!(timestamp_millis(&datetime_millis(v).unwrap()), v);
    }
    for v in [0i64, -1, 618658211123456, 8_000_000_000_000_000_000, -8_000_000_000_000_000_000] {
        assert_eq!(timestamp_micros(&datetime_micros(v).unwrap()), v);
    }
    for v in [0i64, -1, 618658211123456789, i64::MAX, i64::MIN] {
        assert_eq!(timestamp_nanos(&datetime_nanos(v)).unwrap(), v);
    }
}

#[test]
fn rfc3339_round_trip_keeps_instant_and_offset() {
    let mut values = vec![datetime_nanos(618658211123456789), datetime_unix(-1).unwrap()];
    let mut shifted = datetime_millis(-618658211123).unwrap();
    set_timezone(&mut shifted, "+05:30").unwrap();
    values.push(shifted);
    let mut west = datetime_unix(0).unwrap();
    set_timezone(&mut west, "America/Edmonton").unwrap();
    values.push(west);
    for m in values {
        let back = datetime_rfc3339(&to_string(&m)).unwrap();
        assert_eq!(back, m);
    }
}

#[test]
fn adding_or_subtracting_zero_is_identity() {
    for s in sample_spans() {
        let mut a = s;
        timedelta::add(&mut a, timedelta::timedelta()).unwrap();
        assert_eq!(a, s);
        let mut b = s;
        timedelta::sub(&mut b, timedelta::timedelta()).unwrap();
        assert_eq!(b, s);
    }
}

#[test]
fn abs_is_idempotent() {
    for s in sample_spans() {
        let mut once = s;
        abs(&mut once);
        let mut twice = once;
        abs(&mut twice);
        assert_eq!(twice, once);
        assert!(get_seconds(&once) >= 0);
    }
    let mut m = timedelta_min();
    abs(&mut m);
    assert_eq!(m, timedelta_max());
}

#[test]
fn set_then_get_returns_the_value() {
    let base = datetime_rfc3339("1989-08-09T09:30:11.5+02:00").unwrap();
    let cases: Vec<(fn(&mut DateTimeFixed, i64) -> Result<(), TimeError>, fn(&DateTimeFixed) -> i64, i64)> = vec![
        (set_year, get_year, 2024),
        (set_month, get_month, 2),
        (set_month0, get_month0, 11),
        (set_day, get_day, 31),
        (set_day0, get_day0, 0),
        (set_ordinal, get_ordinal, 365),
        (set_ordinal0, get_ordinal0, 0),
        (set_hour, get_hour, 0),
        (set_minute, get_minute, 59),
        (set_second, get_second, 0),
        (set_nanosecond, get_nanosecond, 999_999_999),
        (set_nanosecond, get_nanosecond, 1_500_000_000),
    ];
    for (set, get, v) in cases {
        let mut m = base;
        set(&mut m, v).unwrap();
        assert_eq!(get(&m), v);
        assert_eq!(m.offset, base.offset);
    }
}

#[test]
fn out_of_range_field_leaves_value_unchanged() {
    let base = datetime_rfc3339("1989-02-10T09:30:11+00:00").unwrap();
    let cases: Vec<(fn(&mut DateTimeFixed, i64) -> Result<(), TimeError>, i64, Field)> = vec![
        (set_month, 13, Field::Month),
        (set_month, 0, Field::Month),
        (set_month0, 12, Field::Month0),
        (set_day, 30, Field::Day),
        (set_day, 0, Field::Day),
        (set_day0, 28, Field::Day0),
        (set_ordinal, 366, Field::Ordinal),
        (set_ordinal0, -1, Field::Ordinal0),
        (set_hour, 24, Field::Hour),
        (set_minute, -1, Field::Minute),
        (set_second, 60, Field::Second),
        (set_nanosecond, 2_000_000_000, Field::Nanosecond),
        (set_year, 1i64 << 40, Field::Year),
        (set_year, 300_000, Field::Year),
        (set_year, (1i64 << 32) + 1989, Field::Year),
    ];
    for (set, v, f) in cases {
        let mut m = base;
        assert_eq!(set(&mut m, v), Err(TimeError::FieldRange(f)));
        assert_eq!(m, base);
    }
    let mut leap = datetime_rfc3339("2024-02-29T00:00:00+00:00").unwrap();
    assert_eq!(set_year(&mut leap, 2023), Err(TimeError::FieldRange(Field::Year)));
    assert_eq!(get_year(&leap), 2024);
}

#[test]
fn fixed_offset_reads_back_and_named_zone_follows_daylight_saving() {
    let mut m = datetime_rfc3339("1989-08-09T09:30:11+00:00").unwrap();
    set_timezone(&mut m, "-06:00").unwrap();
    assert_eq!(get_timezone(&m), "-06:00");
    let mut summer = datetime_rfc3339("1989-08-09T09:30:11+00:00").unwrap();
    set_timezone(&mut summer, "America/Edmonton").unwrap();
    assert_eq!(to_rfc2822(&summer).unwrap(), "Wed, 9 Aug 1989 03:30:11 -0600");
    let mut winter = datetime_rfc3339("1989-01-09T09:30:11+00:00").unwrap();
    set_timezone(&mut winter, "America/Edmonton").unwrap();
    assert_eq!(to_rfc2822(&winter).unwrap(), "Mon, 9 Jan 1989 02:30:11 -0700");
    assert_eq!(timestamp(&winter), timestamp(&datetime_rfc3339("1989-01-09T09:30:11+00:00").unwrap()));
}

#[test]
fn years_since_sign_follows_order() {
    let earlier = datetime_rfc3339("1989-08-09T09:30:11+00:00").unwrap();
    let later = datetime_rfc3339("2000-01-01T00:00:00+00:00").unwrap();
    assert_eq!(years_since(&earlier, &later), -10);
    assert_eq!(years_since(&later, &earlier), 10);
    let close = datetime_rfc3339("1990-03-01T00:00:00+00:00").unwrap();
    assert_eq!(years_since(&earlier, &close), 0);
    assert_eq!(years_since(&close, &earlier), 0);
    let anniversary = datetime_rfc3339("1990-08-09T09:30:11+00:00").unwrap();
    assert_eq!(years_since(&anniversary, &earlier), 1);
    assert_eq!(years_since(&earlier, &earlier), 0);
}

#[test]
fn concrete_scenario() {
    assert_eq!(to_string(&datetime_unix(618658211).unwrap()), "1989-08-09T09:30:11+00:00");
    assert_eq!(timestamp(&datetime_rfc2822("Wed, 9 Aug 1989 09:30:11 +0000").unwrap()), 618658211);
    let mut m = datetime_unix(618658211).unwrap();
    add_timedelta(&mut m, timedelta_days(2).unwrap()).unwrap();
    assert_eq!(timestamp(&m), 618658211 + 172800);
    let d = diff(&datetime_unix(618658211).unwrap(), &datetime_unix(487772700).unwrap());
    assert_eq!(get_seconds(&d), 130885511);
}
