use teart::errors::TeartError;
use teart::timestamp::{days_in_month, format_timestamp, is_leap_year, parse_timestamp, Timestamp};

#[test]
fn parse_start_of_2022() {
    let t = parse_timestamp("20220101T000000").unwrap();
    assert_eq!(t, Timestamp { year: 2022, month: 1, day: 1, hour: 0, minute: 0 });
}

#[test]
fn parse_arbitrary_minute() {
    let t = parse_timestamp("19991231T234500").unwrap();
    assert_eq!(t, Timestamp { year: 1999, month: 12, day: 31, hour: 23, minute: 45 });
}

#[test]
fn parse_rejects_wrong_length() {
    assert_eq!(parse_timestamp("20220101T0000"), Err(TeartError::FormatError));
    assert_eq!(parse_timestamp(""), Err(TeartError::FormatError));
    assert_eq!(parse_timestamp("20220101T0000000"), Err(TeartError::FormatError));
}

#[test]
fn parse_rejects_non_digit() {
    assert_eq!(parse_timestamp("2022x101T000000"), Err(TeartError::FormatError));
    assert_eq!(parse_timestamp("20220101t000000"), Err(TeartError::FormatError));
}

#[test]
fn parse_rejects_nonzero_seconds() {
    assert_eq!(parse_timestamp("20220101T000030"), Err(TeartError::FormatError));
}

#[test]
fn parse_rejects_impossible_dates() {
    assert_eq!(parse_timestamp("20220231T000000"), Err(TeartError::FormatError));
    assert_eq!(parse_timestamp("20221301T000000"), Err(TeartError::FormatError));
    assert_eq!(parse_timestamp("20220100T000000"), Err(TeartError::FormatError));
    assert_eq!(parse_timestamp("20220101T240000"), Err(TeartError::FormatError));
    assert_eq!(parse_timestamp("20220101T006000"), Err(TeartError::FormatError));
}

#[test]
fn parse_honours_leap_years() {
    assert!(parse_timestamp("20240229T120000").is_ok());
    assert_eq!(parse_timestamp("20230229T120000"), Err(TeartError::FormatError));
    // 1900 was no leap year, 2000 was.
    assert_eq!(parse_timestamp("19000229T120000"), Err(TeartError::FormatError));
    assert!(parse_timestamp("20000229T120000").is_ok());
}

#[test]
fn format_pads_every_field() {
    let t = Timestamp { year: 987, month: 3, day: 4, hour: 5, minute: 6 };
    assert_eq!(format_timestamp(&t), "09870304T050600");
}

#[test]
fn format_round_trips_through_parse() {
    let texts = ["20220103T000000", "20240229T235000", "00010101T000000"];
    for text in texts {
        let t = parse_timestamp(text).unwrap();
        assert_eq!(format_timestamp(&t), text);
    }
}

#[test]
fn leap_year_rule() {
    assert!(is_leap_year(2024));
    assert!(!is_leap_year(2023));
    assert!(!is_leap_year(1900));
    assert!(is_leap_year(2000));
}

#[test]
fn month_lengths() {
    assert_eq!(days_in_month(2022, 1), 31);
    assert_eq!(days_in_month(2022, 2), 28);
    assert_eq!(days_in_month(2024, 2), 29);
    assert_eq!(days_in_month(2022, 4), 30);
    assert_eq!(days_in_month(2022, 12), 31);
}

#[test]
fn validity_check() {
    assert!(Timestamp { year: 2022, month: 2, day: 28, hour: 23, minute: 59 }.is_valid());
    assert!(!Timestamp { year: 2022, month: 2, day: 29, hour: 0, minute: 0 }.is_valid());
    assert!(!Timestamp { year: 2022, month: 0, day: 1, hour: 0, minute: 0 }.is_valid());
}
