use ledger_parser::camt053_statement::values::{
    parse_amount, parse_balance_indicator, parse_transaction_type, parse_xml_date,
};
use ledger_parser::error::ParseError;
use ledger_parser::model::{BalanceType, TransactionType};

const CRDT: &str = "crdt";
const DBIT: &str = "dbit";

#[test]
fn camt053_utils_test_parse_amount() {
    assert_eq!(parse_amount("123.45").unwrap().minor_units as f64 / 100.0, 123.45);
    assert_eq!(parse_amount("123,45").unwrap().minor_units as f64 / 100.0, 123.45);
    assert_eq!(parse_amount("  123.45  ").unwrap().minor_units as f64 / 100.0, 123.45);
    assert!(parse_amount("invalid").is_err());
}

#[test]
fn test_parse_balance_indicator() {
    assert_eq!(parse_balance_indicator(CRDT).unwrap(), BalanceType::Credit);
    assert_eq!(parse_balance_indicator(DBIT).unwrap(), BalanceType::Debit);
    assert!(parse_balance_indicator("INVALID").is_err());
}

#[test]
fn test_parse_transaction_type() {
    assert_eq!(parse_transaction_type(CRDT).unwrap(), TransactionType::Credit);
    assert_eq!(parse_transaction_type(DBIT).unwrap(), TransactionType::Debit);
    assert!(parse_transaction_type("INVALID").is_err());
}

#[test]
fn test_parse_xml_date() {
    let result = parse_xml_date("2023-04-20");
    assert!(result.is_ok());

    let result = parse_xml_date("2023-04-20T23:24:31");
    assert!(result.is_ok());

    let result = parse_xml_date("2023-04-20T23:24:31+00:00");
    assert!(result.is_ok());
}

#[test]
fn indicators_are_read_whatever_their_case() {
    assert_eq!(parse_balance_indicator(" CRDT ").unwrap(), BalanceType::Credit);
    assert_eq!(parse_transaction_type("Dbit").unwrap(), TransactionType::Debit);
    match parse_balance_indicator("x") {
        Err(ParseError::InvalidFieldValue { field, value }) => {
            assert_eq!(field, "balance_indicator");
            assert_eq!(value, "x");
        }
        _ => panic!("an invalid value is expected"),
    }
    match parse_transaction_type("y") {
        Err(ParseError::InvalidFieldValue { field, value }) => {
            assert_eq!(field, "transaction_type");
            assert_eq!(value, "y");
        }
        _ => panic!("an invalid value is expected"),
    }
}

#[test]
fn an_amount_keeps_its_magnitude_without_its_sign() {
    assert_eq!(parse_amount("-5.00").unwrap().minor_units, 500);
    assert_eq!(parse_amount("+5").unwrap().minor_units, 500);
    assert_eq!(parse_amount("0.129").unwrap().minor_units, 13);
    assert_eq!(parse_amount("1.239").unwrap().minor_units, 124);
    assert_eq!(parse_amount("1.235").unwrap().minor_units, 124);
    assert_eq!(parse_amount("1.2349").unwrap().minor_units, 123);
    assert_eq!(parse_amount("0.004").unwrap().minor_units, 0);
    assert_eq!(parse_amount("0.995").unwrap().minor_units, 100);
    assert_eq!(parse_amount(".5").unwrap().minor_units, 50);
    assert!(parse_amount("").is_err());
    assert!(parse_amount("1.2.3").is_err());
    assert!(parse_amount("184467440737095516.16").is_err());
    assert_eq!(parse_amount("184467440737095516.15").unwrap().minor_units, u64::MAX);
    assert_eq!(parse_amount("184467440737095516.154").unwrap().minor_units, u64::MAX);
    assert!(parse_amount("184467440737095516.155").is_err());
}

#[test]
fn a_date_with_time_and_offset_keeps_them() {
    let t = parse_xml_date(" 2023-04-20T23:24:31+02:00 ").unwrap();
    assert_eq!(t.year(), 2023);
    assert_eq!(t.month(), 4);
    assert_eq!(t.day(), 20);
    assert_eq!(t.second_of_day(), 23 * 3600 + 24 * 60 + 31);
    assert_eq!(t.offset_seconds(), 7200);
    assert_eq!(t.iso_date(), "2023-04-20");
    assert_eq!(t.dotted_date(), "20.04.2023");
    assert_eq!(t.compact_date(), "230420");
}
