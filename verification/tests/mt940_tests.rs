use ledger_parser::amount::Amount;
use ledger_parser::error::ParseError;
use ledger_parser::model::{BalanceType, TransactionType};
use ledger_parser::mt940_statement::Mt940Statement;

fn value(amount: Amount) -> f64 {
    amount.minor_units as f64 / 100.0
}

#[test]
fn test_parse_yymmdd_date() {
    let result = Mt940Statement::parse_yymmdd_date("250218");
    assert!(result.is_ok());
    let date = result.unwrap();
    assert_eq!(date.iso_date(), "2025-02-18");

    let result = Mt940Statement::parse_yymmdd_date("950315");
    assert!(result.is_ok());
    let date = result.unwrap();
    assert_eq!(date.iso_date(), "1995-03-15");
}

#[test]
fn test_parse_yymmdd_date_century_inference() {
    let result = Mt940Statement::parse_yymmdd_date("230101").expect("Expected successful parse");
    assert_eq!(result.iso_date(), "2023-01-01");
}

#[test]
fn test_parse_yymmdd_date_invalid_input() {
    let result = Mt940Statement::parse_yymmdd_date("2A0101");
    assert!(matches!(result, Err(ParseError::Mt940Error(_))));
}

#[test]
fn test_parse_amount_comma() {
    let result = Mt940Statement::parse_amount("1540,50");
    assert!(result.is_ok());
    assert_eq!(value(result.unwrap()), 1540.50);
}

#[test]
fn test_parse_amount_dot() {
    let result = Mt940Statement::parse_amount("2500.75");
    assert!(result.is_ok());
    assert_eq!(value(result.unwrap()), 2500.75);
}

#[test]
fn test_parse_amount_trailing_comma() {
    let result = Mt940Statement::parse_amount("100,");
    assert!(result.is_ok());
    assert_eq!(value(result.unwrap()), 100.00);
}

#[test]
fn test_parse_balance_line() {
    let result = Mt940Statement::parse_balance_line("C200101EUR444,29");
    assert!(result.is_ok());
    let (amount, date, indicator, currency) = result.unwrap();
    assert_eq!(value(amount), 444.29);
    assert_eq!(date.iso_date(), "2020-01-01");
    assert_eq!(indicator, BalanceType::Credit);
    assert_eq!(currency, "EUR");
}

#[test]
fn test_parse_balance_line_debit() {
    let result = Mt940Statement::parse_balance_line("D110707CHF100,");
    assert!(result.is_ok());
    let (amount, date, indicator, currency) = result.unwrap();
    assert_eq!(value(amount), 100.00);
    assert_eq!(date.iso_date(), "2011-07-07");
    assert_eq!(indicator, BalanceType::Debit);
    assert_eq!(currency, "CHF");
}

#[test]
fn test_parse_transaction_line() {
    let result = Mt940Statement::parse_transaction_line(
        "2001010101D65,00NOVBNL47INGB9999999999",
        "Betaling sieraden",
    );
    assert!(result.is_ok());
    let tx = result.unwrap();
    assert_eq!(value(tx.amount), 65.00);
    assert_eq!(tx.transaction_type, TransactionType::Debit);
    assert_eq!(tx.description, "Betaling sieraden");
    assert_eq!(tx.booking_date.iso_date(), "2020-01-01");
}

#[test]
fn test_parse_empty_mt940() {
    let input = "";
    let result = Mt940Statement::from_read(input.as_bytes());
    assert!(result.is_err());
}

#[test]
fn test_extract_block4() {
    let input = "{1:F01TEST}{2:I940}{4:\n:20:REF\n:25:ACC123\n-}";
    let result = Mt940Statement::extract_block4(input);
    assert!(result.is_ok());
    let block4 = result.unwrap();
    assert!(block4.contains(":20:REF"));
    assert!(block4.contains(":25:ACC123"));
}

#[test]
fn test_mt940_write() {
    let statement = Mt940Statement {
        account_number: "NL81ASNB9999999999".into(),
        currency: "EUR".into(),
        opening_balance: Amount { minor_units: 44429 },
        opening_date: Mt940Statement::parse_yymmdd_date("200101").unwrap(),
        opening_indicator: BalanceType::Credit,
        closing_balance: Amount { minor_units: 37929 },
        closing_date: Mt940Statement::parse_yymmdd_date("200101").unwrap(),
        closing_indicator: BalanceType::Credit,
        transactions: vec![],
    };

    let output_str = statement.write_to();
    assert!(output_str.contains(":25:NL81ASNB9999999999"));
    assert!(output_str.contains(":60F:C200101EUR444,29"));
    assert!(output_str.contains(":62F:C200101EUR379,29"));
}

#[test]
fn a_message_is_read_with_its_transactions_in_order() {
    let input = "{1:F01TEST}{2:I940}{4:\r\n:20:REF\r\n:25:NL81ASNB9999999999\r\n:28C:1/1\r\n\
:60F:C200101EUR444,29\r\n:61:2001010101D65,00NOVBNL47INGB9999999999\r\n:86:Betaling sieraden\r\ntweede regel\r\n\
:61:200102C10,5NTRFREF2\r\n:61:2A0102C10,5NTRF\r\n:62F:D200102EUR389,79\r\n-}";
    let statement = Mt940Statement::from_read(input.as_bytes()).unwrap();
    assert_eq!(statement.account_number, "NL81ASNB9999999999");
    assert_eq!(statement.currency, "EUR");
    assert_eq!(statement.opening_balance.minor_units, 44429);
    assert_eq!(statement.opening_indicator, BalanceType::Credit);
    assert_eq!(statement.closing_balance.minor_units, 38979);
    assert_eq!(statement.closing_indicator, BalanceType::Debit);
    assert_eq!(statement.closing_date.iso_date(), "2020-01-02");
    assert_eq!(statement.transactions.len(), 2);
    let first = &statement.transactions[0];
    assert_eq!(first.amount.minor_units, 6500);
    assert_eq!(first.transaction_type, TransactionType::Debit);
    assert_eq!(first.description, "Betaling sieraden\ntweede regel");
    assert_eq!(first.reference.as_deref(), Some("NOVBNL47INGB9999999999"));
    let second = &statement.transactions[1];
    assert_eq!(second.amount.minor_units, 1050);
    assert_eq!(second.transaction_type, TransactionType::Credit);
    assert_eq!(second.description, "");
    assert_eq!(second.reference.as_deref(), Some("NTRFREF2"));
}

#[test]
fn a_message_without_an_envelope_is_all_payload() {
    let input = ":25:ACC\n:60M:C200101USD1,00\n:62M:C200101USD1,00\n";
    let statement = Mt940Statement::from_read(input.as_bytes()).unwrap();
    assert_eq!(statement.account_number, "ACC");
    assert_eq!(statement.currency, "USD");
    assert!(statement.transactions.is_empty());
}

#[test]
fn each_missing_part_of_a_message_has_its_error() {
    let message = |input: &str| match Mt940Statement::from_read(input.as_bytes()) {
        Err(e) => e.message(),
        Ok(_) => String::from("decoded"),
    };
    assert_eq!(message("  \n "), "MT940 error: Empty input");
    assert_eq!(message("{4:\n:25:ACC\n"), "MT940 error: Block 4 not properly closed");
    assert_eq!(message(":20:X\n"), "MT940 error: Missing :25: account tag");
    assert_eq!(message(":25:ACC\n"), "MT940 error: Missing :60F: or :60M: tag");
    assert_eq!(
        message(":25:ACC\n:60F:C200101EUR1,00\n"),
        "MT940 error: Missing :62F: or :62M: tag"
    );
    assert_eq!(
        message(":25:ACC\n:60F:X200101EUR1,00\n:62F:C200101EUR1,00\n"),
        "MT940 error: Invalid balance indicator"
    );
    assert_eq!(
        message(":25:ACC\n:60F:C2001\n:62F:C200101EUR1,00\n"),
        "MT940 error: Balance line too short"
    );
    assert_eq!(
        message(":25:ACC\n:60F:C200101EU\n:62F:C200101EUR1,00\n"),
        "MT940 error: Missing currency in balance"
    );
    assert_eq!(
        message(":25:ACC\n:60F:C200101EUR1,0x\n:62F:C200101EUR1,00\n"),
        "MT940 error: Invalid amount: 1,0x"
    );
    assert_eq!(
        message(":25:ACC\n:60F:C200431EUR1,00\n:62F:C200101EUR1,00\n"),
        "MT940 error: Invalid calendar date derived from '200431': 2020-04-31"
    );
    assert_eq!(
        message(":25:ACC\n:60F:C2004x1EUR1,00\n:62F:C200101EUR1,00\n"),
        "MT940 error: Expected YYMMDD date, found '2004x1'"
    );
}

#[test]
fn bytes_that_are_no_text_are_an_io_error() {
    let result = Mt940Statement::from_read(&[0xff, 0xfe, 0x00]);
    assert!(matches!(result, Err(ParseError::IoError(_))));
}

#[test]
fn each_fault_of_a_transaction_line_has_its_error() {
    let message = |line: &str| match Mt940Statement::parse_transaction_line(line, "") {
        Err(e) => e.message(),
        Ok(_) => String::from("read"),
    };
    assert_eq!(message(" "), "MT940 error: Empty transaction line");
    assert_eq!(message("2001"), "MT940 error: Transaction line too short");
    assert_eq!(message("200101"), "MT940 error: Missing transaction indicator");
    assert_eq!(message("2001010101"), "MT940 error: Missing transaction indicator");
    assert_eq!(message("200101X5,00"), "MT940 error: Invalid transaction indicator");
    assert_eq!(message("200101CNTRF"), "MT940 error: Missing amount in transaction");
    assert_eq!(message("200101C1,2,3NTRF"), "MT940 error: Invalid amount: 1,2,3");
}

#[test]
fn a_transaction_line_without_a_reference_has_none() {
    let tx = Mt940Statement::parse_transaction_line("200101C12,34", "d").unwrap();
    assert_eq!(tx.reference, None);
    assert_eq!(tx.amount.minor_units, 1234);
}

#[test]
fn the_written_message_is_exact() {
    let statement = Mt940Statement {
        account_number: "ACC".into(),
        currency: "EUR".into(),
        opening_balance: Amount { minor_units: 5 },
        opening_date: Mt940Statement::parse_yymmdd_date("991231").unwrap(),
        opening_indicator: BalanceType::Debit,
        closing_balance: Amount { minor_units: 123456 },
        closing_date: Mt940Statement::parse_yymmdd_date("000101").unwrap(),
        closing_indicator: BalanceType::Credit,
        transactions: vec![
            Mt940Statement::parse_transaction_line("000101C1234,51NTRFREF", "first").unwrap(),
            Mt940Statement::parse_transaction_line("000101D0,5", "second").unwrap(),
        ],
    };
    assert_eq!(
        statement.write_to(),
        "{1:F01BANKXXXXXX0000000000}{2:I940BANKXXXXXXN}{4:\n:20:STATEMENT\n:25:ACC\n:28C:1/1\n\
:60F:D991231EUR0,05\n:61:000101C1234,51NTRFNTRFREF\n:86:first\n:61:000101D0,50NTRF\n:86:second\n\
:62F:C000101EUR1234,56\n-}\n"
    );
}

#[test]
fn what_is_written_is_read_back() {
    let statement = Mt940Statement {
        account_number: "NL81ASNB9999999999".into(),
        currency: "EUR".into(),
        opening_balance: Amount { minor_units: 44429 },
        opening_date: Mt940Statement::parse_yymmdd_date("200101").unwrap(),
        opening_indicator: BalanceType::Credit,
        closing_balance: Amount { minor_units: 37929 },
        closing_date: Mt940Statement::parse_yymmdd_date("200102").unwrap(),
        closing_indicator: BalanceType::Debit,
        transactions: vec![],
    };
    let written = statement.write_to();
    let read = Mt940Statement::from_read(written.as_bytes()).unwrap();
    assert_eq!(read, statement);
}

#[test]
fn an_amount_with_a_sign_is_read_as_its_magnitude_in_a_message() {
    let (amount, _, indicator, _) =
        Mt940Statement::parse_balance_line("D200101EUR-5,00").unwrap();
    assert_eq!(amount.minor_units, 500);
    assert_eq!(indicator, BalanceType::Debit);
    assert_eq!(Mt940Statement::parse_amount("  ").unwrap().minor_units, 0);
    assert_eq!(Mt940Statement::parse_amount(",").unwrap().minor_units, 0);
    assert_eq!(Mt940Statement::parse_amount("1 000,259").unwrap().minor_units, 100026);
    assert!(Mt940Statement::parse_amount("1e3").is_err());
}

#[test]
fn a_written_message_is_read_back_with_its_transactions() {
    let mut first =
        Mt940Statement::parse_transaction_line("200101C1234,51NTRFREF", "rent for May").unwrap();
    first.reference = Some("REF 1".into());
    first.counterparty_name = Some("A. Payer".into());
    let mut second = Mt940Statement::parse_transaction_line("200102D0,5", "").unwrap();
    second.reference = None;
    second.value_date = Some("2020-01-03".into());
    let statement = Mt940Statement {
        account_number: "NL81ASNB9999999999".into(),
        currency: "EUR".into(),
        opening_balance: Amount { minor_units: 44429 },
        opening_date: Mt940Statement::parse_yymmdd_date("200101").unwrap(),
        opening_indicator: BalanceType::Credit,
        closing_balance: Amount { minor_units: 167830 },
        closing_date: Mt940Statement::parse_yymmdd_date("200102").unwrap(),
        closing_indicator: BalanceType::Credit,
        transactions: vec![first.clone(), second.clone()],
    };
    let written = statement.write_to();
    let read = Mt940Statement::from_read(written.as_bytes()).unwrap();
    let mut first_read = first;
    first_read.reference = Some("NTRFREF 1".into());
    first_read.counterparty_name = None;
    let mut second_read = second;
    second_read.reference = Some("NTRF".into());
    second_read.value_date = None;
    let mut expected = statement;
    expected.transactions = vec![first_read, second_read];
    assert_eq!(read, expected);
}
