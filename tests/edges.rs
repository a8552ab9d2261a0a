use rhai_chrono::calendar::{MAX_SECS, MIN_SECS};
use rhai_chrono::datetime::{
    add_days, add_months, add_timedelta, datetime_millis, datetime_parse, datetime_rfc3339,
    datetime_unix, format_localized, get_day, get_month, get_offset, get_time, set_day,
    set_hour, set_month, set_nanosecond, set_time, set_timezone, set_year, sub_days, sub_months,
    sub_timedelta, timestamp, timestamp_nanos, to_rfc2822, to_string, years_since_now,
};
use rhai_chrono::error::{Field, TimeError};
use rhai_chrono::timedelta::{
    self, get_days, get_hours, get_microseconds, get_milliseconds, get_minutes, get_nanoseconds,
    get_seconds, get_subsec_nanos, get_weeks, timedelta_days, timedelta_hours, timedelta_max,
    timedelta_micros, timedelta_millis, timedelta_min, timedelta_minutes, timedelta_nanos,
    timedelta_seconds, timedelta_seconds_and_nanos, timedelta_weeks,
};

fn at(s: &str) -> rhai_chrono::datetime::DateTimeFixed {
    datetime_rfc3339(s).unwrap()
}

#[test]
fn unix_range_edges() {
    assert!(datetime_unix(MIN_SECS).is_ok());
    assert_eq!(datetime_unix(MIN_SECS - 1), Err(TimeError::Range));
    assert!(datetime_unix(MAX_SECS).is_ok());
    assert_eq!(datetime_unix(MAX_SECS + 1), Err(TimeError::Range));
    assert_eq!(datetime_millis(i64::MIN), Err(TimeError::Range));
    assert_eq!(to_string(&datetime_unix(MIN_SECS).unwrap()), "-262143-01-01T00:00:00+00:00");
    assert_eq!(to_string(&datetime_unix(MAX_SECS).unwrap()), "+262142-12-31T23:59:59+00:00");
}

#[test]
fn timestamp_nanos_overflows_far_from_epoch() {
    assert_eq!(timestamp_nanos(&at("2262-04-11T23:47:16.854775807+00:00")).unwrap(), i64::MAX);
    assert_eq!(timestamp_nanos(&at("2262-04-11T23:47:16.854775808+00:00")), Err(TimeError::Range));
    assert_eq!(timestamp_nanos(&at("1677-09-21T00:12:43.145224192+00:00")).unwrap(), i64::MIN);
    assert_eq!(timestamp_nanos(&at("1677-09-21T00:12:43.145224191+00:00")), Err(TimeError::Range));
}

#[test]
fn parse_errors_carry_input() {
    match datetime_rfc3339("not a date") {
        Err(TimeError::Parse { input, .. }) => assert_eq!(input, "not a date"),
        other => panic!("unexpected {other:?}"),
    }
    match datetime_parse("1989-08-09", "%Y-%m-%d %H") {
        Err(TimeError::Parse { input, format, .. }) => {
            assert_eq!(input, "1989-08-09");
            assert_eq!(format, "%Y-%m-%d %H");
        }
        other => panic!("unexpected {other:?}"),
    }
    assert!(matches!(datetime_parse("1989-08-09 09", "%Y-%m-%d %H"), Err(TimeError::Parse { .. })));
}

#[test]
fn leap_seconds_are_kept() {
    let m = datetime_rfc3339("2016-12-31T23:59:60.5Z").unwrap();
    assert_eq!(m.nanos, 1_500_000_000);
    assert_eq!(get_time(&m), "23:59:60.500");
    assert_eq!(to_string(&m), "2016-12-31T23:59:60.500+00:00");
    let r = rhai_chrono::datetime::datetime_rfc2822("Sat, 31 Dec 2016 23:59:60 +0000").unwrap();
    assert_eq!(timestamp(&r), 1483228799);
    assert_eq!(r.nanos, 1_000_000_000);
    let mut n = datetime_unix(59).unwrap();
    set_nanosecond(&mut n, 1_999_999_999).unwrap();
    assert_eq!(get_time(&n), "00:00:60.999999999");
    let mut last = datetime_unix(MAX_SECS).unwrap();
    assert_eq!(set_nanosecond(&mut last, 1_000_000_000), Err(TimeError::FieldRange(Field::Nanosecond)));
    let mut later = m;
    add_timedelta(&mut later, timedelta_seconds(1).unwrap()).unwrap();
    assert_eq!(to_string(&later), "2017-01-01T00:00:00.500+00:00");
}

#[test]
fn leap_second_at_the_last_second_is_out_of_range() {
    assert_eq!(
        rhai_chrono::datetime::datetime_rfc2822("31 Dec 262142 23:59:60 +0000"),
        Err(TimeError::Range)
    );
    assert_eq!(
        datetime_parse("+262142-12-31 23:59:60", "%Y-%m-%d %H:%M:%S"),
        Err(TimeError::Range)
    );
    let mut m = datetime_unix(MAX_SECS - 61 * 86_400).unwrap();
    assert_eq!(get_time(&m), "23:59:59");
    set_nanosecond(&mut m, 1_500_000_000).unwrap();
    let before = m;
    assert_eq!(add_months(&mut m, 2), Err(TimeError::Range));
    assert_eq!(m, before);
    add_months(&mut m, 1).unwrap();
    assert_eq!(get_month(&m), 11);
}

#[test]
fn parse_with_pattern_without_seconds() {
    let m = datetime_parse("1989-08-09 09:30", "%Y-%m-%d %H:%M").unwrap();
    assert_eq!(timestamp(&m), 618658200);
    assert_eq!(m.offset, 0);
}

#[test]
fn parse_defaults_to_midnight_and_epoch_date() {
    assert_eq!(to_string(&datetime_parse("1989-08-09", "%Y-%m-%d").unwrap()), "1989-08-09T00:00:00+00:00");
    assert_eq!(to_string(&datetime_parse("09:30:11", "%H:%M:%S").unwrap()), "1970-01-01T09:30:11+00:00");
    assert!(matches!(datetime_parse("09:30:61x", "%H:%M:%S"), Err(TimeError::Parse { .. })));
}

#[test]
fn timezone_resolution_order() {
    let mut m = at("1989-08-09T09:30:11+00:00");
    assert_eq!(set_timezone(&mut m, "+0x:00"), Err(TimeError::InvalidOffset));
    assert_eq!(set_timezone(&mut m, "Mars/Olympus"), Err(TimeError::InvalidTimezone));
    assert_eq!(m, at("1989-08-09T09:30:11+00:00"));
    set_timezone(&mut m, "LoCaL").unwrap();
    assert_eq!(timestamp(&m), 618658211);
    set_timezone(&mut m, "+05:30").unwrap();
    assert_eq!(get_offset(&m), "+05:30");
    assert_eq!(to_string(&m), "1989-08-09T15:00:11+05:30");
    set_timezone(&mut m, "Asia/Tokyo").unwrap();
    assert_eq!(get_offset(&m), "+09:00");
}

#[test]
fn locale_and_pattern_errors() {
    let m = at("1989-08-09T09:30:11+00:00");
    assert_eq!(format_localized(&m, "%A", "xx_XX"), Err(TimeError::Config));
    assert_eq!(rhai_chrono::datetime::format(&m, "%Q").unwrap(), "%Q");
    assert_eq!(rhai_chrono::datetime::format(&m, "%Y-%Q").unwrap(), "1989-%Q");
    assert_eq!(format_localized(&m, "%Q %B", "fr_FR").unwrap(), "%Q ao\u{fb}t");
    assert_eq!(rhai_chrono::datetime::format(&m, "%d/%m/%Y").unwrap(), "09/08/1989");
    assert_eq!(format_localized(&m, "%B", "de_DE").unwrap(), "August");
}

#[test]
fn rfc2822_needs_four_digit_year() {
    let mut far = at("1989-08-09T09:30:11+00:00");
    set_year(&mut far, 10_000).unwrap();
    assert_eq!(to_rfc2822(&far), Err(TimeError::Range));
    set_year(&mut far, -1).unwrap();
    assert_eq!(to_rfc2822(&far), Err(TimeError::Range));
    assert_eq!(to_rfc2822(&at("0000-01-01T00:00:00+00:00")).unwrap(), "Sat, 1 Jan 0000 00:00:00 +0000");
}

#[test]
fn lenient_time_setting() {
    let base = at("1989-08-09T09:30:11.25+02:00");
    let cases = [
        ("7:xx:5", "07:00:05"),
        ("25:00", "00:00:00"),
        ("1:2:3:4", "01:02:03"),
        ("+5", "05:00:00"),
        ("", "00:00:00"),
        ("23:59:59", "23:59:59"),
        ("4294967296:1", "00:01:00"),
    ];
    for (text, shown) in cases {
        let mut m = base;
        set_time(&mut m, text).unwrap();
        assert_eq!(get_time(&m), shown);
        assert_eq!(get_day(&m), 9);
        assert_eq!(m.offset, base.offset);
    }
}

#[test]
fn time_text_shows_fraction() {
    let mut m = at("1989-08-09T09:30:11+00:00");
    assert_eq!(get_time(&m), "09:30:11");
    set_nanosecond(&mut m, 500_000_000).unwrap();
    assert_eq!(get_time(&m), "09:30:11.500");
    set_nanosecond(&mut m, 123_456_000).unwrap();
    assert_eq!(get_time(&m), "09:30:11.123456");
    set_nanosecond(&mut m, 7).unwrap();
    assert_eq!(get_time(&m), "09:30:11.000000007");
}

#[test]
fn calendar_setters_respect_month_lengths() {
    let mut m = at("2023-01-31T10:00:00+00:00");
    assert_eq!(set_month(&mut m, 2), Err(TimeError::FieldRange(Field::Month)));
    assert_eq!(set_month(&mut m, 3), Ok(()));
    assert_eq!(get_month(&m), 3);
    let mut feb = at("2024-02-10T10:00:00+00:00");
    assert_eq!(set_day(&mut feb, 29), Ok(()));
    assert_eq!(set_year(&mut feb, 2023), Err(TimeError::FieldRange(Field::Year)));
    assert_eq!(set_year(&mut feb, 2028), Ok(()));
    assert_eq!(to_string(&feb), "2028-02-29T10:00:00+00:00");
}

#[test]
fn setters_keep_local_clock_under_offset() {
    let mut m = at("1989-08-09T23:30:00-05:00");
    set_hour(&mut m, 1).unwrap();
    assert_eq!(to_string(&m), "1989-08-09T01:30:00-05:00");
}

#[test]
fn month_arithmetic_clamps_day() {
    let mut m = at("2023-01-31T10:00:00+00:00");
    add_months(&mut m, 1).unwrap();
    assert_eq!(to_string(&m), "2023-02-28T10:00:00+00:00");
    sub_months(&mut m, 12).unwrap();
    assert_eq!(to_string(&m), "2022-02-28T10:00:00+00:00");
    assert_eq!(add_months(&mut m, -1), Err(TimeError::Range));
    assert_eq!(get_day(&m), 28);
}

#[test]
fn day_arithmetic_edges() {
    let mut m = at("1989-08-09T09:30:11+00:00");
    assert_eq!(add_days(&mut m, -1), Err(TimeError::Range));
    assert_eq!(sub_days(&mut m, -1), Err(TimeError::Range));
    add_days(&mut m, 0).unwrap();
    assert_eq!(timestamp(&m), 618658211);
    let mut last = datetime_unix(MAX_SECS).unwrap();
    assert_eq!(add_days(&mut last, 1), Err(TimeError::Range));
    assert_eq!(timestamp(&last), MAX_SECS);
}

#[test]
fn moment_span_arithmetic_edges() {
    let mut last = datetime_unix(MAX_SECS).unwrap();
    assert_eq!(add_timedelta(&mut last, timedelta_seconds(1).unwrap()), Err(TimeError::Range));
    assert_eq!(timestamp(&last), MAX_SECS);
    let mut first = datetime_unix(MIN_SECS).unwrap();
    assert_eq!(sub_timedelta(&mut first, timedelta_nanos(1)), Err(TimeError::Range));
    let mut m = datetime_unix(0).unwrap();
    sub_timedelta(&mut m, timedelta_nanos(1)).unwrap();
    assert_eq!(to_string(&m), "1969-12-31T23:59:59.999999999+00:00");
}

#[test]
fn years_since_now_is_negative_for_the_past() {
    assert!(years_since_now(&at("1989-08-09T09:30:11+00:00")) < 0);
    assert!(years_since_now(&at("2111-03-05T11:25:00+00:00")) > 0);
}

#[test]
fn span_constructor_ranges() {
    assert_eq!(timedelta_seconds(i64::MAX), Err(TimeError::Range));
    assert!(timedelta_seconds(9_223_372_036_854_775).is_ok());
    assert_eq!(timedelta_seconds(9_223_372_036_854_776), Err(TimeError::Range));
    assert_eq!(timedelta_millis(i64::MIN), Err(TimeError::Range));
    assert!(timedelta_millis(i64::MIN + 1).is_ok());
    assert_eq!(timedelta_days(i64::MAX / 86_400), Err(TimeError::Range));
    assert_eq!(timedelta_weeks(i64::MIN), Err(TimeError::Range));
    assert_eq!(timedelta_hours(i64::MAX), Err(TimeError::Range));
    assert_eq!(timedelta_minutes(i64::MIN), Err(TimeError::Range));
    assert_eq!(timedelta_seconds_and_nanos(1, 1_000_000_000), Err(TimeError::Range));
    assert_eq!(timedelta_seconds_and_nanos(1, -1), Err(TimeError::Range));
    assert_eq!(get_seconds(&timedelta_micros(i64::MIN)), i64::MIN / 1_000_000);
}

#[test]
fn span_accessors_round_toward_zero() {
    let d = timedelta_seconds_and_nanos(-2, 500_000_000).unwrap();
    assert_eq!(get_seconds(&d), -1);
    assert_eq!(get_subsec_nanos(&d), -500_000_000);
    assert_eq!(get_milliseconds(&d), -1500);
    let d = timedelta_seconds(-90).unwrap();
    assert_eq!(get_minutes(&d), -1);
    assert_eq!(get_hours(&timedelta_minutes(-119).unwrap()), -1);
    assert_eq!(get_days(&timedelta_hours(-47).unwrap()), -1);
    assert_eq!(get_weeks(&timedelta_days(-13).unwrap()), -1);
}

#[test]
fn span_accessor_overflow() {
    assert_eq!(get_microseconds(&timedelta_max()), Err(TimeError::Range));
    assert_eq!(get_nanoseconds(&timedelta_days(300 * 366).unwrap()), Err(TimeError::Range));
    assert_eq!(get_milliseconds(&timedelta_max()), i64::MAX);
    assert_eq!(get_milliseconds(&timedelta_min()), -i64::MAX);
}

#[test]
fn span_add_overflow_leaves_value() {
    let mut d = timedelta_max();
    assert_eq!(timedelta::add(&mut d, timedelta_nanos(1)), Err(TimeError::Range));
    assert_eq!(d, timedelta_max());
    let mut d = timedelta_min();
    assert_eq!(timedelta::sub(&mut d, timedelta_nanos(1)), Err(TimeError::Range));
    assert_eq!(d, timedelta_min());
}
