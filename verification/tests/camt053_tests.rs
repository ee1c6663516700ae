use ledger_parser::amount::Amount;
use ledger_parser::camt053_statement::Camt053Statement;
use ledger_parser::date::parse_date;
use ledger_parser::error::ParseError;
use ledger_parser::model::{BalanceType, Transaction, TransactionType};

fn value(amount: Amount) -> f64 {
    amount.minor_units as f64 / 100.0
}

fn amount(value: f64) -> Amount {
    Amount { minor_units: (value * 100.0).round() as u64 }
}

#[test]
fn test_parse_minimal_camt053() {
    let xml = r#"
        <Document xmlns="urn:iso:std:iso:20022:tech:xsd:camt.053.001.02">
            <BkToCstmrStmt>
                <Stmt>
                    <Acct>
                        <Id><IBAN>DK8030000001234567</IBAN></Id>
                        <Ccy>DKK</Ccy>
                    </Acct>
                    <Bal>
                        <Tp><CdOrPrtry><Cd>OPBD</Cd></CdOrPrtry></Tp>
                        <Amt Ccy="DKK">12345.67</Amt>
                        <CdtDbtInd>DBIT</CdtDbtInd>
                        <Dt><Dt>2023-04-20</Dt></Dt>
                    </Bal>
                    <Bal>
                        <Tp><CdOrPrtry><Cd>CLBD</Cd></CdOrPrtry></Tp>
                        <Amt Ccy="DKK">23456.78</Amt>
                        <CdtDbtInd>DBIT</CdtDbtInd>
                        <Dt><Dt>2023-04-20</Dt></Dt>
                    </Bal>
                </Stmt>
            </BkToCstmrStmt>
        </Document>
        "#;

    let result = Camt053Statement::from_read(xml.as_bytes());

    assert!(result.is_ok());
    let statement = result.unwrap();
    assert_eq!(statement.account_number, "DK8030000001234567");
    assert_eq!(statement.currency, "DKK");
    assert_eq!(value(statement.opening_balance), 12345.67);
    assert_eq!(value(statement.closing_balance), 23456.78);
    assert_eq!(statement.opening_indicator, BalanceType::Debit);
    assert_eq!(statement.closing_indicator, BalanceType::Debit);
    assert_eq!(statement.transactions.len(), 0);
}

#[test]
fn test_parse_camt053_with_transaction() {
    let xml = r#"
        <Document xmlns="urn:iso:std:iso:20022:tech:xsd:camt.053.001.02">
            <BkToCstmrStmt>
                <Stmt>
                    <Acct>
                        <Id><IBAN>DK8030000001234567</IBAN></Id>
                        <Ccy>DKK</Ccy>
                    </Acct>
                    <Bal>
                        <Tp><CdOrPrtry><Cd>OPBD</Cd></CdOrPrtry></Tp>
                        <Amt Ccy="DKK">1000.00</Amt>
                        <CdtDbtInd>CRDT</CdtDbtInd>
                        <Dt><Dt>2023-04-20</Dt></Dt>
                    </Bal>
                    <Bal>
                        <Tp><CdOrPrtry><Cd>CLBD</Cd></CdOrPrtry></Tp>
                        <Amt Ccy="DKK">1591.15</Amt>
                        <CdtDbtInd>CRDT</CdtDbtInd>
                        <Dt><Dt>2023-04-20</Dt></Dt>
                    </Bal>
                    <Ntry>
                        <NtryRef>1</NtryRef>
                        <Amt Ccy="DKK">591.15</Amt>
                        <CdtDbtInd>CRDT</CdtDbtInd>
                        <BookgDt><Dt>2023-04-20</Dt></BookgDt>
                        <ValDt><Dt>2023-04-20</Dt></ValDt>
                        <NtryDtls>
                            <TxDtls>
                                <Refs><TxId>3825-0123456789</TxId></Refs>
                                <RltdPties>
                                    <Dbtr><Nm>Debtor Name</Nm></Dbtr>
                                    <DbtrAcct><Id><IBAN>SE5180000810512345678901</IBAN></Id></DbtrAcct>
                                </RltdPties>
                                <RmtInf><Ustrd>Payment description</Ustrd></RmtInf>
                            </TxDtls>
                        </NtryDtls>
                    </Ntry>
                </Stmt>
            </BkToCstmrStmt>
        </Document>
        "#;

    let result = Camt053Statement::from_read(xml.as_bytes());

    assert!(result.is_ok());
    let statement = result.unwrap();
    assert_eq!(statement.transactions.len(), 1);

    let tx = &statement.transactions[0];
    assert_eq!(value(tx.amount), 591.15);
    assert_eq!(tx.transaction_type, TransactionType::Credit);
    assert_eq!(tx.reference, Some("3825-0123456789".to_string()));
    assert_eq!(tx.description, "Payment description");
    assert_eq!(tx.counterparty_name, Some("Debtor Name".to_string()));
    assert_eq!(
        tx.counterparty_account,
        Some("SE5180000810512345678901".to_string())
    );
}

#[test]
fn test_parse_empty_camt053() {
    let xml = "";
    let result = Camt053Statement::from_read(xml.as_bytes());
    assert!(result.is_err());
}

#[test]
fn test_parse_camt053_filters_balance_types() {
    let xml = r#"
        <Document xmlns="urn:iso:std:iso:20022:tech:xsd:camt.053.001.02">
            <BkToCstmrStmt>
                <Stmt>
                    <Acct>
                        <Id><IBAN>DK8030000001234567</IBAN></Id>
                        <Ccy>DKK</Ccy>
                    </Acct>
                    <Bal>
                        <Tp><CdOrPrtry><Cd>OPBD</Cd></CdOrPrtry></Tp>
                        <Amt Ccy="DKK">100.00</Amt>
                        <CdtDbtInd>CRDT</CdtDbtInd>
                        <Dt><Dt>2023-04-20</Dt></Dt>
                    </Bal>
                    <Bal>
                        <Tp><CdOrPrtry><Cd>OPAV</Cd></CdOrPrtry></Tp>
                        <Amt Ccy="DKK">999.99</Amt>
                        <CdtDbtInd>CRDT</CdtDbtInd>
                        <Dt><Dt>2023-04-20</Dt></Dt>
                    </Bal>
                    <Bal>
                        <Tp><CdOrPrtry><Cd>CLBD</Cd></CdOrPrtry></Tp>
                        <Amt Ccy="DKK">200.00</Amt>
                        <CdtDbtInd>CRDT</CdtDbtInd>
                        <Dt><Dt>2023-04-20</Dt></Dt>
                    </Bal>
                    <Bal>
                        <Tp><CdOrPrtry><Cd>CLAV</Cd></CdOrPrtry></Tp>
                        <Amt Ccy="DKK">888.88</Amt>
                        <CdtDbtInd>CRDT</CdtDbtInd>
                        <Dt><Dt>2023-04-20</Dt></Dt>
                    </Bal>
                </Stmt>
            </BkToCstmrStmt>
        </Document>
        "#;

    let result = Camt053Statement::from_read(xml.as_bytes());

    assert!(result.is_ok());
    let statement = result.unwrap();
    assert_eq!(value(statement.opening_balance), 100.00);
    assert_eq!(value(statement.closing_balance), 200.00);
}

#[test]
fn camt053_statement_test_camt053_structure() {
    let statement = Camt053Statement {
        account_number: "DK1234567890".into(),
        currency: "DKK".into(),
        opening_balance: amount(1000.0),
        opening_date: parse_date("2025-01-01").unwrap(),
        opening_indicator: BalanceType::Credit,
        closing_balance: amount(1500.0),
        closing_date: parse_date("2025-01-31").unwrap(),
        closing_indicator: BalanceType::Credit,
        transactions: vec![],
    };

    assert_eq!(statement.account_number, "DK1234567890");
    assert_eq!(statement.currency, "DKK");
    assert_eq!(value(statement.opening_balance), 1000.0);
    assert_eq!(value(statement.closing_balance), 1500.0);
}

#[test]
fn camt053_statement_test_write_minimal_camt053() {
    let statement = Camt053Statement {
        account_number: "DK8030000001234567".into(),
        currency: "DKK".into(),
        opening_balance: amount(1000.00),
        opening_date: parse_date("2025-01-01").unwrap(),
        opening_indicator: BalanceType::Credit,
        closing_balance: amount(1500.00),
        closing_date: parse_date("2025-01-31").unwrap(),
        closing_indicator: BalanceType::Credit,
        transactions: vec![],
    };

    let result = statement.write_to();

    assert!(result.is_ok());
    let xml_output = String::from_utf8(result.unwrap()).unwrap();

    assert!(xml_output.contains("<?xml version=\"1.0\" encoding=\"UTF-8\"?>"));
    assert!(xml_output
        .contains("<Document xmlns=\"urn:iso:std:iso:20022:tech:xsd:camt.053.001.02\">"));
    assert!(xml_output.contains("<IBAN>DK8030000001234567</IBAN>"));
    assert!(xml_output.contains("<Ccy>DKK</Ccy>"));
    assert!(xml_output.contains("<Cd>OPBD</Cd>"));
    assert!(xml_output.contains("<Cd>CLBD</Cd>"));
    assert!(xml_output.contains("<Amt Ccy=\"DKK\">1000.00</Amt>"));
    assert!(xml_output.contains("<Amt Ccy=\"DKK\">1500.00</Amt>"));
    assert!(xml_output.contains("<CdtDbtInd>CRDT</CdtDbtInd>"));
    assert!(xml_output.contains("</Document>"));
}

#[test]
fn camt053_statement_test_write_camt053_with_transactions() {
    let statement = Camt053Statement {
        account_number: "DK8030000001234567".into(),
        currency: "DKK".into(),
        opening_balance: amount(1000.00),
        opening_date: parse_date("2025-01-01").unwrap(),
        opening_indicator: BalanceType::Credit,
        closing_balance: amount(1591.15),
        closing_date: parse_date("2025-01-31").unwrap(),
        closing_indicator: BalanceType::Credit,
        transactions: vec![
            Transaction {
                booking_date: parse_date("2025-01-15").unwrap(),
                value_date: Some("2025-01-15".into()),
                amount: amount(591.15),
                transaction_type: TransactionType::Credit,
                description: "Payment received".into(),
                reference: Some("TXN-123".into()),
                counterparty_name: Some("John Doe".into()),
                counterparty_account: Some("SE5180000810512345678901".into()),
            },
            Transaction {
                booking_date: parse_date("2025-01-20").unwrap(),
                value_date: None,
                amount: amount(250.00),
                transaction_type: TransactionType::Debit,
                description: "Payment sent".into(),
                reference: Some("TXN-456".into()),
                counterparty_name: Some("Jane Smith".into()),
                counterparty_account: Some("NO9386011117947".into()),
            },
        ],
    };

    let result = statement.write_to();

    assert!(result.is_ok());
    let xml_output = String::from_utf8(result.unwrap()).unwrap();

    assert!(xml_output.contains("<Ntry>"));
    assert!(xml_output.contains("<NtryRef>1</NtryRef>"));
    assert!(xml_output.contains("<NtryRef>2</NtryRef>"));
    assert!(xml_output.contains("<Amt Ccy=\"DKK\">591.15</Amt>"));
    assert!(xml_output.contains("<Amt Ccy=\"DKK\">250.00</Amt>"));
    assert!(xml_output.contains("<TxId>TXN-123</TxId>"));
    assert!(xml_output.contains("<TxId>TXN-456</TxId>"));
    assert!(xml_output.contains("<Dbtr>"));
    assert!(xml_output.contains("<Nm>John Doe</Nm>"));
    assert!(xml_output.contains("<Cdtr>"));
    assert!(xml_output.contains("<Nm>Jane Smith</Nm>"));
    assert!(xml_output.contains("<Ustrd>Payment received</Ustrd>"));
    assert!(xml_output.contains("<Ustrd>Payment sent</Ustrd>"));
}

#[test]
fn camt053_statement_test_round_trip_camt053() {
    let original = Camt053Statement {
        account_number: "DK8030000001234567".into(),
        currency: "DKK".into(),
        opening_balance: amount(12345.67),
        opening_date: parse_date("2025-04-20").unwrap(),
        opening_indicator: BalanceType::Debit,
        closing_balance: amount(23456.78),
        closing_date: parse_date("2025-04-20").unwrap(),
        closing_indicator: BalanceType::Debit,
        transactions: vec![Transaction {
            booking_date: parse_date("2025-04-20").unwrap(),
            value_date: Some("2025-04-20".into()),
            amount: amount(591.15),
            transaction_type: TransactionType::Credit,
            description: "Payment description".into(),
            reference: Some("3825-0123456789".into()),
            counterparty_name: Some("Debtor Name".into()),
            counterparty_account: Some("SE5180000810512345678901".into()),
        }],
    };

    let buffer = original.write_to().unwrap();

    let parsed = Camt053Statement::from_read(buffer.as_slice()).unwrap();

    assert_eq!(parsed.account_number, original.account_number);
    assert_eq!(parsed.currency, original.currency);
    assert_eq!(value(parsed.opening_balance), value(original.opening_balance));
    assert_eq!(parsed.opening_date.iso_date(), original.opening_date.iso_date());
    assert_eq!(parsed.opening_indicator, original.opening_indicator);
    assert_eq!(value(parsed.closing_balance), value(original.closing_balance));
    assert_eq!(parsed.closing_date.iso_date(), original.closing_date.iso_date());
    assert_eq!(parsed.closing_indicator, original.closing_indicator);
    assert_eq!(parsed.transactions.len(), original.transactions.len());

    let parsed_tx = &parsed.transactions[0];
    let original_tx = &original.transactions[0];
    assert_eq!(value(parsed_tx.amount), value(original_tx.amount));
    assert_eq!(parsed_tx.transaction_type, original_tx.transaction_type);
    assert_eq!(parsed_tx.description, original_tx.description);
    assert_eq!(parsed_tx.reference, original_tx.reference);
    assert_eq!(parsed_tx.counterparty_name, original_tx.counterparty_name);
    assert_eq!(
        parsed_tx.counterparty_account,
        original_tx.counterparty_account
    );
}

#[test]
fn camt053_statement_test_write_to_buffer() {
    let statement = Camt053Statement {
        account_number: "TEST123".into(),
        currency: "EUR".into(),
        opening_balance: amount(500.0),
        opening_date: parse_date("2025-01-01").unwrap(),
        opening_indicator: BalanceType::Credit,
        closing_balance: amount(750.0),
        closing_date: parse_date("2025-01-31").unwrap(),
        closing_indicator: BalanceType::Credit,
        transactions: vec![],
    };

    let result = statement.write_to();

    assert!(result.is_ok());
    let output = result.unwrap();
    assert!(!output.is_empty());

    let xml_string = String::from_utf8(output).unwrap();
    assert!(xml_string.starts_with("<?xml"));
}

#[test]
fn camt053_statement_test_write_camt053_with_debit_balance() {
    let statement = Camt053Statement {
        account_number: "DEBIT123".into(),
        currency: "USD".into(),
        opening_balance: amount(100.0),
        opening_date: parse_date("2025-01-01").unwrap(),
        opening_indicator: BalanceType::Debit,
        closing_balance: amount(50.0),
        closing_date: parse_date("2025-01-31").unwrap(),
        closing_indicator: BalanceType::Debit,
        transactions: vec![],
    };

    let result = statement.write_to();

    assert!(result.is_ok());
    let xml_output = String::from_utf8(result.unwrap()).unwrap();

    assert!(xml_output.contains("<CdtDbtInd>DBIT</CdtDbtInd>"));
}

#[test]
fn camt053_statement_test_write_camt053_transaction_without_optional_fields() {
    let statement = Camt053Statement {
        account_number: "MINIMAL123".into(),
        currency: "GBP".into(),
        opening_balance: amount(1000.0),
        opening_date: parse_date("2025-01-01").unwrap(),
        opening_indicator: BalanceType::Credit,
        closing_balance: amount(1100.0),
        closing_date: parse_date("2025-01-31").unwrap(),
        closing_indicator: BalanceType::Credit,
        transactions: vec![Transaction {
            booking_date: parse_date("2025-01-15").unwrap(),
            value_date: None,
            amount: amount(100.0),
            transaction_type: TransactionType::Credit,
            description: "Simple payment".into(),
            reference: None,
            counterparty_name: None,
            counterparty_account: None,
        }],
    };

    let result = statement.write_to();

    assert!(result.is_ok());
    let xml_output = String::from_utf8(result.unwrap()).unwrap();

    assert!(xml_output.contains("<Ntry>"));
    assert!(xml_output.contains("<Amt Ccy=\"GBP\">100.00</Amt>"));
    assert!(xml_output.contains("<Ustrd>Simple payment</Ustrd>"));
    assert!(!xml_output.contains("<TxId>"));
    assert!(!xml_output.contains("<Dbtr>"));
    assert!(!xml_output.contains("<DbtrAcct>"));
}

#[test]
fn an_entry_without_an_amount_is_left_out() {
    let xml = r#"<Document><BkToCstmrStmt><Stmt>
        <Acct><Id><IBAN>ACC</IBAN></Id><Ccy>EUR</Ccy></Acct>
        <Bal><Tp><CdOrPrtry><Cd>OPBD</Cd></CdOrPrtry></Tp><Amt Ccy="EUR">1.00</Amt>
             <CdtDbtInd>CRDT</CdtDbtInd><Dt><Dt>2023-04-20</Dt></Dt></Bal>
        <Bal><Tp><CdOrPrtry><Cd>CLBD</Cd></CdOrPrtry></Tp><Amt Ccy="EUR">2.00</Amt>
             <CdtDbtInd>CRDT</CdtDbtInd><Dt><Dt>2023-04-21</Dt></Dt></Bal>
        <Ntry><NtryRef>1</NtryRef><Amt Ccy="EUR">5.50</Amt><CdtDbtInd>DBIT</CdtDbtInd>
              <BookgDt><Dt>2023-04-20</Dt></BookgDt></Ntry>
        <Ntry><NtryRef>2</NtryRef><CdtDbtInd>DBIT</CdtDbtInd>
              <BookgDt><Dt>2023-04-20</Dt></BookgDt></Ntry>
        </Stmt></BkToCstmrStmt></Document>"#;
    let statement = Camt053Statement::from_read(xml.as_bytes()).unwrap();
    assert_eq!(statement.transactions.len(), 1);
    let tx = &statement.transactions[0];
    assert_eq!(tx.amount.minor_units, 550);
    assert_eq!(tx.transaction_type, TransactionType::Debit);
    assert_eq!(tx.reference.as_deref(), Some("1"));
    assert_eq!(tx.description, "");
    assert_eq!(tx.value_date, None);
}

#[test]
fn the_identifier_of_the_transaction_comes_before_the_entry_reference() {
    let xml = r#"<Document><BkToCstmrStmt><Stmt>
        <Acct><Id><Othr><Id>LOCAL-1</Id></Othr></Id></Acct>
        <Bal><Tp><CdOrPrtry><Cd>opbd</Cd></CdOrPrtry></Tp><Amt Ccy="SEK">1,50</Amt>
             <CdtDbtInd>crdt</CdtDbtInd><Dt><Dt>20.04.2023</Dt></Dt></Bal>
        <Bal><Tp><CdOrPrtry><Cd>CLBD</Cd></CdOrPrtry></Tp>
             <CdtDbtInd>DBIT</CdtDbtInd><Dt><Dt>2023-04-21T10:00:00</Dt></Dt></Bal>
        <ns:NTRY xmlns:ns="x"><NtryRef>1</NtryRef><Amt Ccy="EUR">7</Amt><CdtDbtInd>CRDT</CdtDbtInd>
              <BookgDt><Dt>2023-04-20</Dt></BookgDt>
              <AddtlTxInf>more</AddtlTxInf>
              <NtryDtls><TxDtls><Refs><TxId>3825-0123456789</TxId></Refs>
                <RltdPties><Cdtr><Nm>Creditor</Nm></Cdtr><Dbtr><Nm>Debtor</Nm></Dbtr>
                  <CdtrAcct><Id><Othr><Id>C-ACC</Id></Othr></Id></CdtrAcct></RltdPties>
                <RmtInf><Strd><CdtrRefInf><Ref>STRUCT</Ref></CdtrRefInf></Strd>
                        <Ustrd>free</Ustrd><Ustrd>text</Ustrd></RmtInf>
              </TxDtls></NtryDtls></ns:NTRY>
        </Stmt></BkToCstmrStmt></Document>"#;
    let statement = Camt053Statement::from_read(xml.as_bytes()).unwrap();
    assert_eq!(statement.account_number, "LOCAL-1");
    assert_eq!(statement.currency, "SEK");
    assert_eq!(statement.opening_balance.minor_units, 150);
    assert_eq!(statement.opening_date.iso_date(), "2023-04-20");
    assert_eq!(statement.closing_balance.minor_units, 0);
    assert_eq!(statement.closing_indicator, BalanceType::Debit);
    assert_eq!(statement.closing_date.iso_date(), "2023-04-21");
    assert_eq!(statement.transactions.len(), 1);
    let tx = &statement.transactions[0];
    assert_eq!(tx.reference.as_deref(), Some("3825-0123456789"));
    assert_eq!(tx.description, "more free text");
    assert_eq!(tx.counterparty_name.as_deref(), Some("Debtor"));
    assert_eq!(tx.counterparty_account.as_deref(), Some("C-ACC"));
    assert_eq!(tx.amount.minor_units, 700);
}

#[test]
fn each_missing_field_of_a_document_has_its_error() {
    let missing = |xml: &str| match Camt053Statement::from_read(xml.as_bytes()) {
        Err(ParseError::MissingField(name)) => name,
        Err(e) => e.message(),
        Ok(_) => String::from("decoded"),
    };
    let account = "<Acct><Id><IBAN>A</IBAN></Id></Acct>";
    let currency = "<Acct><Ccy>EUR</Ccy></Acct>";
    let opening = |parts: &str| {
        format!("<Bal><Tp><CdOrPrtry><Cd>OPBD</Cd></CdOrPrtry></Tp>{}</Bal>", parts)
    };
    let closing = |parts: &str| {
        format!("<Bal><Tp><CdOrPrtry><Cd>CLBD</Cd></CdOrPrtry></Tp>{}</Bal>", parts)
    };
    let date = "<Dt><Dt>2023-04-20</Dt></Dt>";
    let indicator = "<CdtDbtInd>CRDT</CdtDbtInd>";
    assert_eq!(missing("<Stmt/>"), "account_number");
    assert_eq!(missing(&format!("<Stmt>{}</Stmt>", account)), "currency");
    assert_eq!(missing(&format!("<Stmt>{}{}</Stmt>", account, currency)), "opening_date");
    assert_eq!(
        missing(&format!("<Stmt>{}{}{}</Stmt>", account, currency, opening(date))),
        "opening_indicator"
    );
    let opened = opening(&format!("{}{}", date, indicator));
    assert_eq!(
        missing(&format!("<Stmt>{}{}{}</Stmt>", account, currency, opened)),
        "closing_date"
    );
    assert_eq!(
        missing(&format!("<Stmt>{}{}{}{}</Stmt>", account, currency, opened, closing(date))),
        "closing_indicator"
    );
    assert_eq!(
        missing(&format!(
            "<Stmt>{}{}{}{}</Stmt>",
            account,
            currency,
            opened,
            closing(&format!("{}{}", date, indicator))
        )),
        "decoded"
    );
}

#[test]
fn a_document_that_is_no_xml_is_an_error_of_the_format() {
    let result = Camt053Statement::from_read("<Stmt><Acct></Stmt>".as_bytes());
    match result {
        Err(ParseError::Camt053Error(m)) => assert!(m.starts_with("XML parse error: ")),
        _ => panic!("an error of the format is expected"),
    }
    let result = Camt053Statement::from_read("   \n".as_bytes());
    match result {
        Err(ParseError::Camt053Error(m)) => assert_eq!(m, "Empty input"),
        _ => panic!("an error of the format is expected"),
    }
    let result = Camt053Statement::from_read("<Stmt><Amt Ccy=EUR>1</Amt></Stmt>".as_bytes());
    match result {
        Err(ParseError::Camt053Error(m)) => assert!(m.starts_with("XML attribute error: ")),
        _ => panic!("an error of the format is expected"),
    }
}

#[test]
fn the_written_document_is_exact() {
    let statement = Camt053Statement {
        account_number: "ACC".into(),
        currency: "EUR".into(),
        opening_balance: Amount { minor_units: 100 },
        opening_date: parse_date("2025-01-01").unwrap(),
        opening_indicator: BalanceType::Credit,
        closing_balance: Amount { minor_units: 5 },
        closing_date: parse_date("2025-01-31").unwrap(),
        closing_indicator: BalanceType::Debit,
        transactions: vec![Transaction {
            booking_date: parse_date("2025-01-15").unwrap(),
            value_date: Some("2025-01-16".into()),
            amount: Amount { minor_units: 95 },
            transaction_type: TransactionType::Debit,
            description: "Rent".into(),
            reference: Some("R-1".into()),
            counterparty_name: Some("Landlord".into()),
            counterparty_account: Some("L-ACC".into()),
        }],
    };
    let written = String::from_utf8(statement.write_to().unwrap()).unwrap();
    let expected = "<?xml version=\"1.0\" encoding=\"UTF-8\"?>\n\
<Document xmlns=\"urn:iso:std:iso:20022:tech:xsd:camt.053.001.02\">\n\
\x20 <BkToCstmrStmt>\n\
\x20   <Stmt>\n\
\x20     <Acct>\n\
\x20       <Id>\n\
\x20         <IBAN>ACC</IBAN>\n\
\x20       </Id>\n\
\x20       <Ccy>EUR</Ccy>\n\
\x20     </Acct>\n\
\x20     <Bal>\n\
\x20       <Tp>\n\
\x20         <CdOrPrtry>\n\
\x20           <Cd>OPBD</Cd>\n\
\x20         </CdOrPrtry>\n\
\x20       </Tp>\n\
\x20       <Amt Ccy=\"EUR\">1.00</Amt>\n\
\x20       <CdtDbtInd>CRDT</CdtDbtInd>\n\
\x20       <Dt>\n\
\x20         <Dt>2025-01-01</Dt>\n\
\x20       </Dt>\n\
\x20     </Bal>\n\
\x20     <Bal>\n\
\x20       <Tp>\n\
\x20         <CdOrPrtry>\n\
\x20           <Cd>CLBD</Cd>\n\
\x20         </CdOrPrtry>\n\
\x20       </Tp>\n\
\x20       <Amt Ccy=\"EUR\">0.05</Amt>\n\
\x20       <CdtDbtInd>DBIT</CdtDbtInd>\n\
\x20       <Dt>\n\
\x20         <Dt>2025-01-31</Dt>\n\
\x20       </Dt>\n\
\x20     </Bal>\n\
\x20     <Ntry>\n\
\x20       <NtryRef>1</NtryRef>\n\
\x20       <Amt Ccy=\"EUR\">0.95</Amt>\n\
\x20       <CdtDbtInd>DBIT</CdtDbtInd>\n\
\x20       <BookgDt>\n\
\x20         <Dt>2025-01-15</Dt>\n\
\x20       </BookgDt>\n\
\x20       <ValDt>\n\
\x20         <Dt>2025-01-16</Dt>\n\
\x20       </ValDt>\n\
\x20       <NtryDtls>\n\
\x20         <TxDtls>\n\
\x20           <Refs>\n\
\x20             <TxId>R-1</TxId>\n\
\x20           </Refs>\n\
\x20           <RltdPties>\n\
\x20             <Cdtr>\n\
\x20               <Nm>Landlord</Nm>\n\
\x20             </Cdtr>\n\
\x20             <CdtrAcct>\n\
\x20               <Id>\n\
\x20                 <IBAN>L-ACC</IBAN>\n\
\x20               </Id>\n\
\x20             </CdtrAcct>\n\
\x20           </RltdPties>\n\
\x20           <RmtInf>\n\
\x20             <Ustrd>Rent</Ustrd>\n\
\x20           </RmtInf>\n\
\x20         </TxDtls>\n\
\x20       </NtryDtls>\n\
\x20     </Ntry>\n\
\x20   </Stmt>\n\
\x20 </BkToCstmrStmt>\n\
</Document>";
    assert_eq!(written, expected);
    let read = Camt053Statement::from_read(written.as_bytes()).unwrap();
    assert_eq!(read, statement);
}

#[test]
fn an_amount_with_a_sign_is_read_as_its_magnitude() {
    let xml = r#"<Document><BkToCstmrStmt><Stmt>
        <Acct><Id><IBAN>ACC</IBAN></Id><Ccy>EUR</Ccy></Acct>
        <Bal><Tp><CdOrPrtry><Cd>OPBD</Cd></CdOrPrtry></Tp><Amt Ccy="EUR">-1.00</Amt>
             <CdtDbtInd>DBIT</CdtDbtInd><Dt><Dt>2023-04-20</Dt></Dt></Bal>
        <Bal><Tp><CdOrPrtry><Cd>CLBD</Cd></CdOrPrtry></Tp><Amt Ccy="EUR">+2.00</Amt>
             <CdtDbtInd>CRDT</CdtDbtInd><Dt><Dt>2023-04-21</Dt></Dt></Bal>
        <Ntry><Amt Ccy="EUR">-5.50</Amt><CdtDbtInd>DBIT</CdtDbtInd>
              <BookgDt><Dt>2023-04-20</Dt></BookgDt></Ntry>
        </Stmt></BkToCstmrStmt></Document>"#;
    let statement = Camt053Statement::from_read(xml.as_bytes()).unwrap();
    assert_eq!(statement.opening_balance.minor_units, 100);
    assert_eq!(statement.opening_indicator, BalanceType::Debit);
    assert_eq!(statement.closing_balance.minor_units, 200);
    assert_eq!(statement.transactions.len(), 1);
    assert_eq!(statement.transactions[0].amount.minor_units, 550);
    assert_eq!(statement.transactions[0].transaction_type, TransactionType::Debit);
    assert_eq!(statement.transactions[0].reference, None);
}

fn document(entry: &str) -> String {
    format!(
        r#"<Document><BkToCstmrStmt><Stmt>
        <Acct><Id><IBAN>ACC</IBAN></Id><Ccy>EUR</Ccy></Acct>
        <Bal><Tp><CdOrPrtry><Cd>OPBD</Cd></CdOrPrtry></Tp><Amt Ccy="EUR">1.00</Amt>
             <CdtDbtInd>CRDT</CdtDbtInd><Dt><Dt>2023-04-20</Dt></Dt></Bal>
        <Bal><Tp><CdOrPrtry><Cd>CLBD</Cd></CdOrPrtry></Tp><Amt Ccy="EUR">2.00</Amt>
             <CdtDbtInd>CRDT</CdtDbtInd><Dt><Dt>2023-04-21</Dt></Dt></Bal>
        {}
        </Stmt></BkToCstmrStmt></Document>"#,
        entry
    )
}

fn entry(indicator: &str, details: &str) -> String {
    format!(
        "<Ntry><Amt Ccy=\"EUR\">7.00</Amt><CdtDbtInd>{}</CdtDbtInd>\
         <BookgDt><Dt>2023-04-20</Dt></BookgDt><NtryDtls><TxDtls>{}</TxDtls></NtryDtls></Ntry>",
        indicator, details
    )
}

#[test]
fn the_creditor_is_the_other_party_of_a_debit_and_the_debtor_that_of_a_credit() {
    let both = "<RltdPties><Dbtr><Nm>A</Nm></Dbtr><DbtrAcct><Id><IBAN>X</IBAN></Id></DbtrAcct>\
                <Cdtr><Nm>B</Nm></Cdtr><CdtrAcct><Id><IBAN>Y</IBAN></Id></CdtrAcct></RltdPties>";
    let read = |indicator: &str, parties: &str| {
        let xml = document(&entry(indicator, parties));
        Camt053Statement::from_read(xml.as_bytes()).unwrap().transactions.remove(0)
    };
    let debit = read("DBIT", both);
    assert_eq!(debit.counterparty_name.as_deref(), Some("B"));
    assert_eq!(debit.counterparty_account.as_deref(), Some("Y"));
    let credit = read("CRDT", both);
    assert_eq!(credit.counterparty_name.as_deref(), Some("A"));
    assert_eq!(credit.counterparty_account.as_deref(), Some("X"));
    let debtor = "<RltdPties><Dbtr><Nm>A</Nm></Dbtr>\
                  <DbtrAcct><Id><IBAN>X</IBAN></Id></DbtrAcct></RltdPties>";
    let only = read("DBIT", debtor);
    assert_eq!(only.counterparty_name.as_deref(), Some("A"));
    assert_eq!(only.counterparty_account.as_deref(), Some("X"));
    let creditor = "<RltdPties><Cdtr><Nm>B</Nm></Cdtr>\
                    <CdtrAcct><Id><Othr><Id>Y</Id></Othr></Id></CdtrAcct></RltdPties>";
    let only = read("CRDT", creditor);
    assert_eq!(only.counterparty_name.as_deref(), Some("B"));
    assert_eq!(only.counterparty_account.as_deref(), Some("Y"));
}

#[test]
fn the_reference_of_the_creditor_stands_in_for_a_narrative_that_is_not_there() {
    let read = |remittance: &str| {
        let xml = document(&entry("CRDT", &format!("<RmtInf>{}</RmtInf>", remittance)));
        Camt053Statement::from_read(xml.as_bytes()).unwrap().transactions.remove(0).description
    };
    let reference = "<Strd><CdtrRefInf><Ref>REF</Ref></CdtrRefInf></Strd>";
    assert_eq!(read(&format!("{}<Ustrd>free</Ustrd><Ustrd>text</Ustrd>", reference)), "free text");
    assert_eq!(read(&format!("<Ustrd>free</Ustrd>{}<Ustrd>text</Ustrd>", reference)), "free text");
    assert_eq!(read(reference), "REF");
    assert_eq!(read(""), "");
}

#[test]
fn a_text_with_marks_of_its_own_comes_back_from_the_document() {
    let statement = Camt053Statement {
        account_number: "A&B".into(),
        currency: "EUR".into(),
        opening_balance: Amount { minor_units: 100 },
        opening_date: parse_date("2025-01-01").unwrap(),
        opening_indicator: BalanceType::Credit,
        closing_balance: Amount { minor_units: 5 },
        closing_date: parse_date("2025-01-31").unwrap(),
        closing_indicator: BalanceType::Debit,
        transactions: vec![Transaction {
            booking_date: parse_date("2025-01-15").unwrap(),
            value_date: None,
            amount: Amount { minor_units: 95 },
            transaction_type: TransactionType::Debit,
            description: "1 < 2 & \"three\" > 'two'".into(),
            reference: Some("R&D".into()),
            counterparty_name: Some("Smith & Sons <Ltd>".into()),
            counterparty_account: None,
        }],
    };
    let written = statement.write_to().unwrap();
    let text = String::from_utf8(written.clone()).unwrap();
    assert!(text.contains("<IBAN>A&amp;B</IBAN>"));
    assert!(text.contains("<Nm>Smith &amp; Sons &lt;Ltd&gt;</Nm>"));
    assert_eq!(Camt053Statement::from_read(&written).unwrap(), statement);
    let loose = document(&entry("CRDT", "<RmtInf><Ustrd>AT&T &unknown; x</Ustrd></RmtInf>"));
    let read = Camt053Statement::from_read(loose.as_bytes()).unwrap();
    assert_eq!(read.transactions[0].description, "AT&T &unknown; x");
}
