use ledger_parser::csv_statement::constants::CURRENCY_RUB;
use ledger_parser::csv_statement::CsvStatement;
use ledger_parser::error::ParseError;
use ledger_parser::{Amount, BalanceType, SignedAmount, Timestamp, Transaction, TransactionType};

fn value(amount: SignedAmount) -> f64 {
    let magnitude = amount.magnitude.minor_units as f64 / 100.0;
    if amount.negative {
        -magnitude
    } else {
        magnitude
    }
}

fn amount(value: f64) -> Amount {
    Amount { minor_units: (value * 100.0).round() as u64 }
}

#[test]
fn test_parse_date() {
    let result = CsvStatement::parse_date("20.02.2024");
    assert!(result.is_ok());
    assert_eq!(result.unwrap().dotted_date(), "20.02.2024");
}

#[test]
fn csv_statement_test_parse_amount() {
    let result = CsvStatement::parse_amount("1540,00");
    assert!(result.is_ok());
    assert_eq!(value(result.unwrap()), 1540.0);
}

#[test]
fn csv_statement_test_parse_empty_amount() {
    let result = CsvStatement::parse_amount("");
    assert!(result.is_ok());
    assert_eq!(value(result.unwrap()), 0.0);
}

#[test]
fn csv_statement_test_parse_invalid_date() {
    let result = CsvStatement::parse_date("invalid");
    assert!(result.is_err());
}

#[test]
fn csv_statement_test_parse_invalid_amount() {
    let result = CsvStatement::parse_amount("invalid");
    assert!(result.is_err());
}

#[test]
fn csv_statement_test_parse_empty_csv() {
    let input = "";
    let result = CsvStatement::from_read(input.as_bytes());
    assert!(result.is_err());
}

#[test]
fn csv_statement_test_csv_statement_creation() {
    let statement = CsvStatement {
        account_number: "40702810440000030888".into(),
        currency: CURRENCY_RUB.into(),
        opening_balance: amount(1332.54),
        opening_date: CsvStatement::parse_date("2024-01-01").unwrap(),
        opening_indicator: BalanceType::Credit,
        closing_balance: amount(5975.04),
        closing_date: CsvStatement::parse_date("2024-12-31").unwrap(),
        closing_indicator: BalanceType::Credit,
        transactions: vec![],
    };

    assert_eq!(statement.account_number, "40702810440000030888");
    assert_eq!(statement.currency, CURRENCY_RUB);
}

fn message(result: Result<CsvStatement, ParseError>) -> String {
    match result {
        Err(e) => e.message(),
        Ok(_) => String::from("decoded"),
    }
}

fn export(currency: &str, rows: &[&str], footer: &[&str]) -> String {
    let mut lines: Vec<String> = vec![
        ",СберБизнес".into(),
        ",ПАО СБЕРБАНК".into(),
        ",".into(),
        ",ВЫПИСКА,,,,,,,,,, 40702810440000030888 ".into(),
        ",".into(),
        ",".into(),
        ",".into(),
        ",".into(),
        format!(",,{}", currency),
        ",Дата проводки,,,Счет,,,,,Сумма по дебету,,,,Сумма по кредиту,№ документа".into(),
        ",,,,Дебет,,,,Кредит".into(),
    ];
    lines.extend(rows.iter().map(|r| r.to_string()));
    lines.extend(footer.iter().map(|r| r.to_string()));
    lines.join("\n") + "\n"
}

const FOOTER: [&str; 4] = [
    ",б/с",
    ",Количество операций,,,,,1,,,1",
    ",Входящий остаток,,\"0,00\",,,\"1 332,54\",,,,,,01 января 2024 г.",
    ",Исходящий остаток,,,,\"-5975,04\",,,,,,,31 декабря 2024 г.",
];

#[test]
fn a_positional_export_is_read() {
    let text = export(
        "Российский рубль",
        &[
            ",01.02.2024,,,acc,,,,,\"1540,00\",,,,,D-1,,,,, ,Rent for February",
            ",,,,,,,,,,,,,,,,,,,,",
            ",02.02.2024,,,acc,,,,,,,,,\"2 000,5\",,,,,payment",
            ",03.02.2024,,,acc,,,,,,,,,,,,,,nothing moved",
            ",not a date,,,acc,,,,,\"1,00\"",
        ],
        &FOOTER,
    );
    let statement = CsvStatement::from_read(text.as_bytes()).unwrap();
    assert_eq!(statement.account_number, "40702810440000030888");
    assert_eq!(statement.currency, "RUB");
    assert_eq!(statement.opening_balance.minor_units, 133254);
    assert_eq!(statement.opening_indicator, BalanceType::Credit);
    assert_eq!(statement.opening_date, Timestamp::from_ymd(2024, 1, 1).unwrap());
    assert_eq!(statement.closing_balance.minor_units, 597504);
    assert_eq!(statement.closing_indicator, BalanceType::Debit);
    assert_eq!(statement.closing_date, Timestamp::from_ymd(2024, 1, 1).unwrap());
    assert_eq!(statement.transactions.len(), 2);
    let first = &statement.transactions[0];
    assert_eq!(first.booking_date, Timestamp::from_ymd(2024, 2, 1).unwrap());
    assert_eq!(first.amount.minor_units, 154000);
    assert_eq!(first.transaction_type, TransactionType::Debit);
    assert_eq!(first.reference.as_deref(), Some("D-1"));
    assert_eq!(first.description, "Rent for February");
    let second = &statement.transactions[1];
    assert_eq!(second.amount.minor_units, 200050);
    assert_eq!(second.transaction_type, TransactionType::Credit);
    assert_eq!(second.reference, None);
    assert_eq!(second.description, "payment");
}

#[test]
fn the_currency_is_read_from_its_record() {
    let read = |currency: &str| {
        CsvStatement::from_read(export(currency, &[], &FOOTER).as_bytes()).unwrap().currency
    };
    assert_eq!(read("Доллар США"), "USD");
    assert_eq!(read("in usd"), "USD");
    assert_eq!(read("ЕВРО"), "EUR");
    assert_eq!(read("Eur"), "EUR");
    assert_eq!(read("рубль"), "RUB");
    assert_eq!(read("something else"), "RUB");
}

#[test]
fn each_missing_part_of_an_export_has_its_error() {
    assert_eq!(message(CsvStatement::from_read(b"")), "CSV error: Empty input");
    assert_eq!(
        message(CsvStatement::from_read(b"a,b\nc\n")),
        "CSV error: CSV too short - missing required sections"
    );
    let short = "x\n".repeat(12);
    assert_eq!(
        message(CsvStatement::from_read(short.as_bytes())),
        "CSV error: Account number not found in header"
    );
    let no_header = export("", &[], &FOOTER).replace("Дата проводки", "Дата");
    assert_eq!(
        message(CsvStatement::from_read(no_header.as_bytes())),
        "CSV error: Transaction section not found (missing 'Дата проводки')"
    );
    assert_eq!(
        message(CsvStatement::from_read(export("", &[], &FOOTER[..2]).as_bytes())),
        "CSV error: Opening balance not found"
    );
    assert_eq!(
        message(CsvStatement::from_read(export("", &[], &FOOTER[..3]).as_bytes())),
        "CSV error: Closing balance not found"
    );
    let undated = [FOOTER[0], FOOTER[1], ",Входящий остаток,,,,\"1,00\"", FOOTER[3]];
    assert_eq!(
        message(CsvStatement::from_read(export("", &[], &undated).as_bytes())),
        "CSV error: Date not found"
    );
    assert!(matches!(
        CsvStatement::from_read(&[0xff, 0xfe]),
        Err(ParseError::IoError(_))
    ));
}

#[test]
fn an_amount_is_read_with_its_sign() {
    assert_eq!(value(CsvStatement::parse_amount(" 1 234,56 ").unwrap()), 1234.56);
    assert_eq!(value(CsvStatement::parse_amount("-0,5").unwrap()), -0.5);
    match CsvStatement::parse_amount("12a") {
        Err(e) => assert_eq!(e.message(), "CSV error: Invalid amount: 12a"),
        Ok(_) => panic!("an error is expected"),
    }
    match CsvStatement::parse_date("32.01.2024") {
        Err(e) => assert_eq!(e.message(), "CSV error: Invalid date: 32.01.2024"),
        Ok(_) => panic!("an error is expected"),
    }
}

fn sample() -> CsvStatement {
    CsvStatement {
        account_number: "40702810440000030888".into(),
        currency: "RUB".into(),
        opening_balance: amount(1332.54),
        opening_date: Timestamp::from_ymd(2024, 1, 1).unwrap(),
        opening_indicator: BalanceType::Credit,
        closing_balance: amount(5975.04),
        closing_date: Timestamp::from_ymd(2024, 12, 31).unwrap(),
        closing_indicator: BalanceType::Debit,
        transactions: vec![
            Transaction {
                booking_date: Timestamp::from_ymd(2024, 2, 20).unwrap(),
                value_date: Some("2024-02-21".into()),
                amount: amount(1540.0),
                transaction_type: TransactionType::Debit,
                description: "Rent, February".into(),
                reference: Some("D-1".into()),
                counterparty_name: Some("Landlord \"L\"".into()),
                counterparty_account: None,
            },
            Transaction {
                booking_date: Timestamp::from_ymd(2024, 2, 21).unwrap(),
                value_date: None,
                amount: amount(0.05),
                transaction_type: TransactionType::Credit,
                description: "".into(),
                reference: None,
                counterparty_name: None,
                counterparty_account: Some("ACC".into()),
            },
        ],
    }
}

#[test]
fn the_positional_layout_is_written_exactly() {
    let written = String::from_utf8(sample().write_to().unwrap()).unwrap();
    let expected = ",СберБизнес\n\
,ПАО СБЕРБАНК\n\
,\n\
,ВЫПИСКА ОПЕРАЦИЙ ПО ЛИЦЕВОМУ СЧЕТУ,,,,,,,,,,40702810440000030888\n\
,,RUB\n\
\"\"\n\
,Дата проводки,,,Счет,,,,,Сумма по дебету,,,,Сумма по кредиту,№ документа,,ВО,Банк,,,Назначение платежа\n\
,,,,Дебет,,,,Кредит\n\
,20.02.2024,,,,,,,,\"1540,00\",,,,,D-1,,,,,,\"Rent, February\"\n\
,21.02.2024,,,,,,,,,,,,\"0,05\",,,,,,,\n\
\"\"\n\
,б/с\n\
,Количество операций,,,,,1,,,1\n\
,Входящий остаток,,,,,\"1332,54\",,,,,,,,,,,,01.01.2024\n\
,Исходящий остаток,,,,,\"-5975,04\",,,,,,,,,,,,31.12.2024\n";
    assert_eq!(written, expected);
}

#[test]
fn the_layout_of_named_columns_is_written_exactly_and_read_back() {
    let statement = sample();
    let written = String::from_utf8(statement.write_simple().unwrap()).unwrap();
    let expected = "account_number,currency,opening_balance,opening_date,opening_indicator,\
closing_balance,closing_date,closing_indicator\n\
40702810440000030888,RUB,1332.54,2024-01-01,Credit,5975.04,2024-12-31,Debit\n\
booking_date,value_date,amount,transaction_type,description,reference,counterparty_name,\
counterparty_account\n\
2024-02-20,2024-02-21,1540.00,Debit,\"Rent, February\",D-1,\"Landlord \"\"L\"\"\",\n\
2024-02-21,,0.05,Credit,,,,ACC\n";
    assert_eq!(written, expected);
    let read = CsvStatement::from_read(written.as_bytes()).unwrap();
    assert_eq!(read, statement);
}

#[test]
fn a_record_of_named_columns_that_states_no_transaction_is_passed_over() {
    let text = "account_number,currency,opening_balance,opening_date,opening_indicator,\
closing_balance,closing_date,closing_indicator\n\
ACC,EUR,1.00,2024-01-01,Credit,2,2024-01-31T10:00:00+01:00,Debit\n\
booking_date,value_date,amount,transaction_type,description,reference,counterparty_name,\
counterparty_account\n\
2024-01-02,,1.00,Credit,ok,,,\n\
2024-01-02,,,Credit,no amount,,,\n\
2024-01-02,,1.00,credit,no direction,,,\n\
nothing,,1.00,Credit,no date,,,\n\
2024-01-02,,-1.00,Credit,negative,,,\n\
2024-01-02,,1.00,Credit,too short\n";
    let statement = CsvStatement::from_read(text.as_bytes()).unwrap();
    assert_eq!(statement.transactions.len(), 1);
    assert_eq!(statement.transactions[0].description, "ok");
    assert_eq!(statement.closing_balance.minor_units, 200);
    assert_eq!(statement.closing_date.iso_date(), "2024-01-31");
    assert_eq!(statement.closing_date.offset_seconds(), 3600);
}

#[test]
fn each_fault_of_the_record_of_the_statement_has_its_error() {
    let header = "account_number,currency,opening_balance,opening_date,opening_indicator,\
closing_balance,closing_date,closing_indicator\n";
    let second = "booking_date,value_date,amount,transaction_type,description,reference,\
counterparty_name,counterparty_account\n";
    let read = |row: &str, columns: &str| {
        message(CsvStatement::from_read(format!("{}{}{}", header, row, columns).as_bytes()))
    };
    assert_eq!(
        read("ACC,EUR,1,2024-01-01,Credit,2,2024-01-31,Debit\n", ""),
        "CSV error: CSV too short - missing required sections"
    );
    assert_eq!(
        read("ACC,EUR,1,2024-01-01,Credit,2,2024-01-31\n", second),
        "CSV error: Statement record needs eight fields"
    );
    assert_eq!(
        read("ACC,EUR,1,2024-01-01,Credit,2,2024-01-31,Debit\n", "booking_date\n"),
        "CSV error: Transaction header not found"
    );
    assert_eq!(
        read("ACC,EUR,x,2024-01-01,Credit,2,2024-01-31,Debit\n", second),
        "Invalid value 'x' for field 'opening_balance'"
    );
    assert_eq!(
        read("ACC,EUR,1,2024-02-30,Credit,2,2024-01-31,Debit\n", second),
        "Invalid value '2024-02-30' for field 'opening_date'"
    );
    assert_eq!(
        read("ACC,EUR,1,2024-01-01,CRDT,2,2024-01-31,Debit\n", second),
        "Invalid value 'CRDT' for field 'opening_indicator'"
    );
    assert_eq!(
        read("ACC,EUR,1,2024-01-01,Credit,-2,2024-01-31,Debit\n", second),
        "Invalid value '-2' for field 'closing_balance'"
    );
    assert_eq!(
        read("ACC,EUR,1,2024-01-01,Credit,2,,Debit\n", second),
        "Invalid value '' for field 'closing_date'"
    );
    assert_eq!(
        read("ACC,EUR,1,2024-01-01,Credit,2,2024-01-31,\n", second),
        "Invalid value '' for field 'closing_indicator'"
    );
    assert_eq!(read("ACC,EUR,1,2024-01-01,Credit,2,2024-01-31,Debit\n", second), "decoded");
}
