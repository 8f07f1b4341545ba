use chrono::{DateTime, LocalResult, TimeZone, Utc};
use chrono_tz::Tz;

use pd_override::instant::Instant;
use pd_override::timeparse::{
    parse, parse_date, parse_literal, parse_meridiem, parse_number, parse_time, Meridiem,
    ParseErrorReason,
};

fn new_york(year: i32, month: u32, day: u32, hour: u32, minute: u32, second: u32) -> Instant {
    Instant {
        year,
        month,
        day,
        hour,
        minute,
        second,
        tz: "America/New_York".to_string(),
    }
}

fn to_timestamp(i: &Instant) -> i64 {
    let tz: Tz = i.tz.parse().unwrap();
    tz.with_ymd_and_hms(i.year, i.month, i.day, i.hour, i.minute, i.second)
        .unwrap()
        .timestamp()
}

#[test]
fn test_me() {
    // UTC-5
    let now = new_york(2023, 2, 11, 12, 0, 0);

    let run_test = |s: &str, from: LocalResult<DateTime<Utc>>, to: LocalResult<DateTime<Utc>>| {
        let (parsed_from, parsed_to) =
            parse(&now, s).expect(format!("expected to parse {:?}", s).as_str());
        assert_eq!(to_timestamp(&parsed_from), from.unwrap().timestamp());
        assert_eq!(to_timestamp(&parsed_to), to.unwrap().timestamp());
    };

    run_test(
        "tomorrow, 10am-10pm",
        Utc.with_ymd_and_hms(2023, 2, 12, 15, 0, 0),
        Utc.with_ymd_and_hms(2023, 2, 13, 3, 0, 0),
    );

    run_test(
        "today,9am-9pm",
        Utc.with_ymd_and_hms(2023, 2, 11, 14, 0, 0),
        Utc.with_ymd_and_hms(2023, 2, 12, 2, 0, 0),
    );

    run_test(
        "today, 11am-12pm",
        Utc.with_ymd_and_hms(2023, 2, 11, 16, 0, 0),
        Utc.with_ymd_and_hms(2023, 2, 11, 17, 0, 0),
    );

    run_test(
        "today, 12am-1am",
        Utc.with_ymd_and_hms(2023, 2, 11, 5, 0, 0),
        Utc.with_ymd_and_hms(2023, 2, 11, 6, 0, 0),
    );

    run_test(
        "today, 12:00am-01:30am",
        Utc.with_ymd_and_hms(2023, 2, 11, 5, 0, 0),
        Utc.with_ymd_and_hms(2023, 2, 11, 6, 30, 0),
    );

    // weird capitalization
    run_test(
        "today, 11Am-12PM",
        Utc.with_ymd_and_hms(2023, 2, 11, 16, 0, 0),
        Utc.with_ymd_and_hms(2023, 2, 11, 17, 0, 0),
    );
}

#[test]
fn test_parse_number() {
    let source = " - 10";

    let rest = parse_literal(source.as_bytes(), 0, "-".as_bytes()).expect("expected hyphen to parse");
    let (_after, result) = parse_number(source.as_bytes(), rest).expect("expected number to parse");

    assert_eq!(result, 10);

    let now = new_york(2023, 2, 11, 12, 0, 0);
    parse_date(&now, "today".as_bytes(), 0).expect("expected to parse date");
    parse_date(&now, "10/30".as_bytes(), 0).expect("expected date to parse");
    parse_time(&now, "10:30 am".as_bytes(), 0).expect("expected date to parse");
}

#[test]
fn multi_day_range_preferred_over_single_day() {
    // "today 10am - tomorrow 2pm" must not be misparsed as a single-day
    // range with garbage in the middle: the trailing date token wins the
    // multi-day production.
    let now = new_york(2023, 2, 11, 12, 0, 0);
    let (start, end) = parse(&now, "today 10am - tomorrow 2pm").expect("expected to parse");
    assert_eq!((start.year, start.month, start.day), (2023, 2, 11));
    assert_eq!((start.hour, start.minute), (10, 0));
    assert_eq!((end.year, end.month, end.day), (2023, 2, 12));
    assert_eq!((end.hour, end.minute), (14, 0));
    assert_eq!(
        to_timestamp(&start),
        Utc.with_ymd_and_hms(2023, 2, 11, 15, 0, 0).unwrap().timestamp()
    );
    assert_eq!(
        to_timestamp(&end),
        Utc.with_ymd_and_hms(2023, 2, 12, 19, 0, 0).unwrap().timestamp()
    );
}

#[test]
fn single_day_range_shares_date() {
    let now = new_york(2023, 2, 11, 12, 0, 0);
    let (start, end) = parse(&now, "2/14, 9:30am-5pm").expect("expected to parse");
    assert_eq!((start.year, start.month, start.day), (2023, 2, 14));
    assert_eq!((end.year, end.month, end.day), (2023, 2, 14));
    assert_eq!((start.hour, start.minute), (9, 30));
    assert_eq!((end.hour, end.minute), (17, 0));
    assert_eq!(start.tz, end.tz);
}

#[test]
fn tomorrow_preserves_local_midnight_across_dst() {
    // Daylight saving starts 2023-03-12 in America/New_York: that local
    // day is 23 hours long. One calendar day, not a fixed 24 hours.
    let now = new_york(2023, 3, 11, 12, 0, 0);
    let (start, end) = parse(&now, "today 10am - tomorrow 10am").expect("expected to parse");
    assert_eq!((start.month, start.day, start.hour), (3, 11, 10));
    assert_eq!((end.month, end.day, end.hour), (3, 12, 10));
    assert_eq!(to_timestamp(&end) - to_timestamp(&start), 23 * 3600);
}

#[test]
fn parse_is_deterministic() {
    let now = new_york(2023, 2, 11, 12, 0, 0);
    let first = parse(&now, "tomorrow, 10am-10pm").expect("expected to parse");
    let second = parse(&now, "tomorrow, 10am-10pm").expect("expected to parse");
    assert_eq!(first, second);

    let bad_first = parse(&now, "banana, 10am-11am").unwrap_err();
    let bad_second = parse(&now, "banana, 10am-11am").unwrap_err();
    assert_eq!(bad_first, bad_second);
}

#[test]
fn meridiem_normalization_cases() {
    let now = new_york(2023, 2, 11, 12, 0, 0);

    // 12am -> 0, 12pm -> 12
    let (start, end) = parse(&now, "today, 12am-12pm").expect("expected to parse");
    assert_eq!(start.hour, 0);
    assert_eq!(end.hour, 12);

    // 9am -> 9, 9pm -> 21
    let (start, end) = parse(&now, "today, 9am-9pm").expect("expected to parse");
    assert_eq!(start.hour, 9);
    assert_eq!(end.hour, 21);

    // no meridiem: a 24-hour reading is taken literally
    let (start, end) = parse(&now, "today, 14-15").expect("expected to parse");
    assert_eq!((start.hour, end.hour), (14, 15));

    // a bare 12 resolves to midnight, by the AM default
    let (start, _end) = parse(&now, "today, 12-13").expect("expected to parse");
    assert_eq!(start.hour, 0);
}

#[test]
fn unrecognized_date_error() {
    let now = new_york(2023, 2, 11, 12, 0, 0);
    let err = parse(&now, "banana, 10am-11am").unwrap_err();
    assert!(matches!(err.reason, ParseErrorReason::UnrecognizedDate));
    assert_eq!(err.source, Some(b"banana, 10am-11am".to_vec()));
}

#[test]
fn garbled_time_error() {
    // The grammar consumes "10" as an hour and then needs the hyphen;
    // "xx" makes the required literal fail.
    let now = new_york(2023, 2, 11, 12, 0, 0);
    let err = parse(&now, "today, 10xx-11am").unwrap_err();
    match err.reason {
        ParseErrorReason::ExpectedLiteral(lit) => assert_eq!(lit, b"-".to_vec()),
        other => panic!("expected ExpectedLiteral, got {:?}", other),
    }
    assert_eq!(err.source, Some(b"xx-11am".to_vec()));
}

#[test]
fn trailing_hyphen_error() {
    let now = new_york(2023, 2, 11, 12, 0, 0);
    let err = parse(&now, "today 10am-").unwrap_err();
    assert!(matches!(err.reason, ParseErrorReason::ExpectedNumber));
    assert_eq!(err.source, Some(b"".to_vec()));
}

#[test]
fn out_of_range_hour_error() {
    let now = new_york(2023, 2, 11, 12, 0, 0);
    let err = parse(&now, "today, 25am-26am").unwrap_err();
    assert!(matches!(err.reason, ParseErrorReason::IllegalTime));

    // normalization can push an in-range token out of range: 13pm is 25
    let err = parse(&now, "today, 13pm-2pm").unwrap_err();
    assert!(matches!(err.reason, ParseErrorReason::IllegalTime));
}

#[test]
fn out_of_range_minute_error() {
    let now = new_york(2023, 2, 11, 12, 0, 0);
    let err = parse(&now, "today, 10:99am-11am").unwrap_err();
    assert!(matches!(err.reason, ParseErrorReason::IllegalTime));
}

#[test]
fn numeric_token_overflow_error() {
    let now = new_york(2023, 2, 11, 12, 0, 0);
    let err = parse(&now, "today, 99999999999-11").unwrap_err();
    assert!(matches!(err.reason, ParseErrorReason::IllegalTime));
}

#[test]
fn illegal_meridiem_error() {
    let err = parse_meridiem(b"xx", 0).unwrap_err();
    assert!(matches!(err.reason, ParseErrorReason::IllegalMeridiem));
    assert_eq!(err.source, Some(b"xx".to_vec()));

    let (rest, m) = parse_meridiem(b"am rest", 0).unwrap();
    assert_eq!(m, Meridiem::Am);
    assert_eq!(rest, 3);

    let (_rest, m) = parse_meridiem(b" pm", 0).unwrap();
    assert_eq!(m, Meridiem::Pm);
}

#[test]
fn month_day_with_no_such_date_is_unrecognized() {
    let now = new_york(2023, 2, 11, 12, 0, 0);
    let err = parse(&now, "2/30, 10am-11am").unwrap_err();
    assert!(matches!(err.reason, ParseErrorReason::UnrecognizedDate));
    let err = parse(&now, "13/2, 10am-11am").unwrap_err();
    assert!(matches!(err.reason, ParseErrorReason::UnrecognizedDate));

    // 2024 is a leap year, 2023 is not
    let leap_now = new_york(2024, 2, 11, 12, 0, 0);
    parse(&leap_now, "2/29, 10am-11am").expect("expected to parse in a leap year");
    let err = parse(&now, "2/29, 10am-11am").unwrap_err();
    assert!(matches!(err.reason, ParseErrorReason::UnrecognizedDate));
}

#[test]
fn empty_input_is_unrecognized_date() {
    let now = new_york(2023, 2, 11, 12, 0, 0);
    let err = parse(&now, "").unwrap_err();
    assert!(matches!(err.reason, ParseErrorReason::UnrecognizedDate));
}

#[test]
fn single_day_comma_is_optional() {
    let now = new_york(2023, 2, 11, 12, 0, 0);
    let with_comma = parse(&now, "today, 10am-10pm").expect("expected to parse");
    let without_comma = parse(&now, "today 10am-10pm").expect("expected to parse");
    assert_eq!(with_comma, without_comma);
}

#[test]
fn irregular_spacing_tolerated() {
    let now = new_york(2023, 2, 11, 12, 0, 0);
    let a = parse(&now, "today, 10am-10pm").expect("expected to parse");
    let b = parse(&now, "today,10am - 10pm").expect("expected to parse");
    let c = parse(&now, "today , 10am -10pm").expect("expected to parse");
    assert_eq!(a, b);
    assert_eq!(a, c);
}

#[test]
fn tomorrow_rolls_over_month_and_year() {
    let eom = new_york(2023, 2, 28, 8, 30, 15);
    let (start, _end) = parse(&eom, "tomorrow, 10am-11am").expect("expected to parse");
    assert_eq!((start.year, start.month, start.day), (2023, 3, 1));

    let eoy = new_york(2023, 12, 31, 8, 30, 15);
    let (start, _end) = parse(&eoy, "tomorrow, 10am-11am").expect("expected to parse");
    assert_eq!((start.year, start.month, start.day), (2024, 1, 1));
}

#[test]
fn today_truncates_time_of_day() {
    let now = new_york(2023, 2, 11, 12, 44, 59);
    let (start, _end) = parse(&now, "today, 12am-1am").expect("expected to parse");
    assert_eq!((start.hour, start.minute, start.second), (0, 0, 0));
    assert_eq!((start.year, start.month, start.day), (2023, 2, 11));
    assert_eq!(start.tz, "America/New_York");
}
