use ledger_parser::date::{date_from_readings, parse_date};
use ledger_parser::error::ParseError;
use ledger_parser::Timestamp;

#[test]
fn a_date_is_read_in_each_of_its_forms() {
    let day = Timestamp::from_ymd(2023, 10, 26).unwrap();
    assert_eq!(parse_date("26.10.2023").unwrap(), day);
    assert_eq!(parse_date("2023-10-26").unwrap(), day);
    assert_eq!(parse_date("2023-10-26T12:00:00").unwrap(), day);
    let moment = parse_date("2023-10-26T12:00:00.5-03:30").unwrap();
    assert_eq!(moment, Timestamp::new(2023, 10, 26, 43_200, 500_000_000, -12_600).unwrap());
    assert_eq!(moment.nanosecond(), 500_000_000);
}

#[test]
fn what_is_no_date_is_an_invalid_format() {
    for text in ["", "invalid", "31.02.2023", "2023-13-01", "+12023-01-01", "26/10/2023"] {
        match parse_date(text) {
            Err(ParseError::InvalidFormat(m)) => assert_eq!(m, "Invalid date"),
            _ => panic!("an invalid format is expected"),
        }
    }
}

#[test]
fn the_first_reading_counts() {
    let rfc = Some((2001, 2, 3, 4, 5, 6));
    let a = Some((2002, 1, 1));
    let b = Some((2003, 1, 1));
    let c = Some((2004, 1, 1));
    assert_eq!(
        date_from_readings(rfc, a, b, c).unwrap(),
        Timestamp::new(2001, 2, 3, 4, 5, 6).unwrap()
    );
    assert_eq!(date_from_readings(None, a, b, c).unwrap(), Timestamp::from_ymd(2002, 1, 1).unwrap());
    assert_eq!(date_from_readings(None, None, b, c).unwrap(), Timestamp::from_ymd(2003, 1, 1).unwrap());
    assert_eq!(
        date_from_readings(None, None, None, c).unwrap(),
        Timestamp::from_ymd(2004, 1, 1).unwrap()
    );
    assert!(date_from_readings(None, None, None, None).is_err());
    assert!(date_from_readings(Some((10_000, 1, 1, 0, 0, 0)), a, b, c).is_err());
    assert!(date_from_readings(None, Some((2023, 2, 29)), b, c).is_err());
}

#[test]
fn a_timestamp_holds_only_what_exists() {
    assert!(Timestamp::from_ymd(2024, 2, 29).is_some());
    assert!(Timestamp::from_ymd(2023, 2, 29).is_none());
    assert!(Timestamp::from_ymd(1900, 2, 29).is_none());
    assert!(Timestamp::from_ymd(2000, 2, 29).is_some());
    assert!(Timestamp::from_ymd(2023, 4, 31).is_none());
    assert!(Timestamp::from_ymd(2023, 0, 1).is_none());
    assert!(Timestamp::from_ymd(2023, 13, 1).is_none());
    assert!(Timestamp::from_ymd(2023, 1, 0).is_none());
    assert!(Timestamp::from_ymd(-1, 1, 1).is_none());
    assert!(Timestamp::from_ymd(10_000, 1, 1).is_none());
    assert!(Timestamp::new(2023, 1, 1, 86_400, 0, 0).is_none());
    assert!(Timestamp::new(2023, 1, 1, 0, 2_000_000_000, 0).is_none());
    assert!(Timestamp::new(2023, 1, 1, 0, 0, 86_400).is_none());
    assert!(Timestamp::new(2023, 1, 1, 86_399, 1_999_999_999, -86_399).is_some());
    let first = Timestamp::from_ymd(0, 1, 1).unwrap();
    assert_eq!(first.iso_date(), "0000-01-01");
    assert_eq!(first.dotted_date(), "01.01.0000");
    assert_eq!(first.compact_date(), "000101");
    let last = Timestamp::from_ymd(9999, 12, 31).unwrap();
    assert_eq!(last.iso_date(), "9999-12-31");
    assert_eq!(last.compact_date(), "991231");
    assert_eq!(last.year(), 9999);
    assert_eq!(last.month(), 12);
    assert_eq!(last.day(), 31);
}

#[test]
fn the_day_of_a_timestamp_is_read_back_from_its_text() {
    let moment = Timestamp::new(1999, 12, 31, 86_399, 5, -3_600).unwrap();
    assert_eq!(
        parse_date(&moment.iso_date()).unwrap(),
        Timestamp::from_ymd(1999, 12, 31).unwrap()
    );
    for year in [0, 1, 4, 99, 100, 400, 999, 1000, 1900, 1999, 2000, 2023, 2024, 9999] {
        for month in 1..=12u32 {
            for day in 1..=31u32 {
                if let Some(t) = Timestamp::from_ymd(year, month, day) {
                    assert_eq!(parse_date(&t.iso_date()).unwrap(), t);
                }
            }
        }
    }
    for year in 0..=9999 {
        let first = Timestamp::from_ymd(year, 1, 1).unwrap();
        let last = Timestamp::from_ymd(year, 12, 31).unwrap();
        assert_eq!(parse_date(&first.iso_date()).unwrap(), first);
        assert_eq!(parse_date(&last.iso_date()).unwrap(), last);
    }
}

#[test]
fn a_day_that_does_not_exist_is_not_read() {
    assert!(parse_date("2023-02-29").is_err());
    assert!(parse_date("2023-13-01").is_err());
    assert!(parse_date("2023-00-10").is_err());
    assert!(parse_date("2023-04-31").is_err());
    assert_eq!(parse_date("2024-02-29").unwrap(), Timestamp::from_ymd(2024, 2, 29).unwrap());
}
