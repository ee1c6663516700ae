use ledger_parser::camt053_statement::elements::ElementName;
use ledger_parser::camt053_statement::parser::{decode_events, slot, CamtParser, TextSlot};
use ledger_parser::camt053_statement::scratch::{BalanceScratch, EntryScratch};
use ledger_parser::camt053_statement::writer::CamtWriter;
use ledger_parser::camt053_statement::xml::{read_events, render, XmlAttribute, XmlEvent};
use ledger_parser::camt053_statement::Camt053Statement;
use ledger_parser::date::parse_date;
use ledger_parser::error::ParseError;
use ledger_parser::{Amount, BalanceType, Timestamp, Transaction, TransactionType};

#[test]
fn a_tag_is_read_whatever_its_prefix_and_case() {
    assert_eq!(ElementName::from_name_bytes(b"IBAN").unwrap(), ElementName::Iban);
    assert_eq!(ElementName::from_name_bytes(b"iban").unwrap(), ElementName::Iban);
    assert_eq!(ElementName::from_name_bytes(b"ns:Ntry").unwrap(), ElementName::Entry);
    assert_eq!(ElementName::from_name_bytes(b"a:b:CdtDbtInd").unwrap(), ElementName::CreditDebit);
    assert_eq!(ElementName::from_name_bytes(b"Othr").unwrap(), ElementName::Other);
    assert_eq!(ElementName::from_name_bytes(b"").unwrap(), ElementName::Other);
    assert_eq!(ElementName::from_name_bytes(b"Stmt:").unwrap(), ElementName::Other);
    assert_eq!(ElementName::from_name_bytes("Stm\u{17f}".as_bytes()).unwrap(), ElementName::Other);
    match ElementName::from_name_bytes(&[b'A', 0xff]) {
        Err(ParseError::Camt053Error(m)) => assert_eq!(m, "Invalid XML tag name encoding"),
        _ => panic!("an error of the format is expected"),
    }
}

#[test]
fn every_known_element_is_read_from_its_tag() {
    for i in 0..34 {
        let element = ElementName::known(i);
        assert_ne!(element, ElementName::Other);
        assert_eq!(ElementName::from_name_bytes(element.tag().as_bytes()).unwrap(), element);
        let upper = element.tag().to_uppercase();
        assert_eq!(ElementName::from_name_bytes(upper.as_bytes()).unwrap(), element);
    }
    assert_eq!(ElementName::known(34), ElementName::Other);
    assert_eq!(ElementName::Other.tag(), "");
    assert_eq!(ElementName::BkToCstmrStmt.tag(), "BkToCstmrStmt");
}

#[test]
fn a_balance_scratch_is_cleared() {
    let mut scratch = BalanceScratch {
        balance_type: Some("OPBD".into()),
        amount: Some("1".into()),
        indicator: Some("CRDT".into()),
        date: Some("2024-01-01".into()),
    };
    scratch.clear();
    assert_eq!(scratch.balance_type, None);
    assert_eq!(scratch.amount, None);
    assert_eq!(scratch.indicator, None);
    assert_eq!(scratch.date, None);
}

#[test]
fn pieces_of_a_description_are_joined_by_a_blank() {
    let mut entry = EntryScratch::default();
    entry.push_description("first");
    assert_eq!(entry.description, "first");
    entry.push_description("third");
    assert_eq!(entry.description, "first third");
    let mut entry = EntryScratch::default();
    entry.push_description("only");
    assert_eq!(entry.description, "only");
}

fn entry_with_what_one_needs() -> EntryScratch {
    let mut entry = EntryScratch::default();
    entry.amount = Some("1".into());
    entry.indicator = Some("CRDT".into());
    entry.booking_date = Some("2024-01-01".into());
    entry
}

#[test]
fn the_reference_of_the_creditor_is_the_description_only_without_a_narrative() {
    let mut entry = EntryScratch::default();
    entry.set_description_if_empty("first");
    assert_eq!(entry.description, "");
    assert_eq!(entry.creditor_reference.as_deref(), Some("first"));
    entry.set_description_if_empty("second");
    assert_eq!(entry.creditor_reference.as_deref(), Some("first"));

    let mut before = entry_with_what_one_needs();
    before.set_description_if_empty("REF");
    before.push_description("free");
    before.push_description("text");
    assert_eq!(before.finish().unwrap().unwrap().description, "free text");

    let mut behind = entry_with_what_one_needs();
    behind.push_description("free");
    behind.set_description_if_empty("REF");
    behind.push_description("text");
    assert_eq!(behind.finish().unwrap().unwrap().description, "free text");

    let mut alone = entry_with_what_one_needs();
    alone.set_description_if_empty(" REF ");
    assert_eq!(alone.finish().unwrap().unwrap().description, "REF");

    let neither = entry_with_what_one_needs();
    assert_eq!(neither.finish().unwrap().unwrap().description, "");
}

#[test]
fn the_direction_decides_which_party_is_the_other_one() {
    let both = |indicator: &str| {
        let mut entry = entry_with_what_one_needs();
        entry.indicator = Some(indicator.into());
        entry.debtor_name = Some("A".into());
        entry.debtor_account = Some("X".into());
        entry.creditor_name = Some("B".into());
        entry.creditor_account = Some("Y".into());
        entry.finish().unwrap().unwrap()
    };
    let debit = both("DBIT");
    assert_eq!(debit.counterparty_name.as_deref(), Some("B"));
    assert_eq!(debit.counterparty_account.as_deref(), Some("Y"));
    let credit = both("CRDT");
    assert_eq!(credit.counterparty_name.as_deref(), Some("A"));
    assert_eq!(credit.counterparty_account.as_deref(), Some("X"));

    let mut entry = entry_with_what_one_needs();
    entry.indicator = Some("DBIT".into());
    entry.debtor_name = Some("A".into());
    entry.creditor_account = Some("Y".into());
    let tx = entry.finish().unwrap().unwrap();
    assert_eq!(tx.counterparty_name.as_deref(), Some("A"));
    assert_eq!(tx.counterparty_account.as_deref(), Some("Y"));

    let mut entry = entry_with_what_one_needs();
    entry.creditor_name = Some("B".into());
    entry.debtor_account = Some("X".into());
    let tx = entry.finish().unwrap().unwrap();
    assert_eq!(tx.counterparty_name.as_deref(), Some("B"));
    assert_eq!(tx.counterparty_account.as_deref(), Some("X"));

    let tx = entry_with_what_one_needs().finish().unwrap().unwrap();
    assert_eq!(tx.counterparty_name, None);
    assert_eq!(tx.counterparty_account, None);
}

#[test]
fn an_entry_makes_a_transaction_where_it_has_what_one_needs() {
    let full = || EntryScratch {
        amount: Some(" 12,5 ".into()),
        indicator: Some("dbit".into()),
        booking_date: Some("2024-02-29".into()),
        value_date: Some("whenever".into()),
        ntry_ref: Some("7".into()),
        tx_id: None,
        description: "  spaced  ".into(),
        creditor_reference: Some("unused".into()),
        debtor_name: None,
        creditor_name: Some("N".into()),
        debtor_account: Some("other".into()),
        creditor_account: Some("A".into()),
    };
    let tx = full().finish().unwrap().unwrap();
    assert_eq!(
        tx,
        Transaction {
            booking_date: Timestamp::from_ymd(2024, 2, 29).unwrap(),
            value_date: Some("whenever".into()),
            amount: Amount { minor_units: 1250 },
            transaction_type: TransactionType::Debit,
            description: "spaced".into(),
            reference: Some("7".into()),
            counterparty_name: Some("N".into()),
            counterparty_account: Some("A".into()),
        }
    );
    let mut entry = full();
    entry.tx_id = Some("T".into());
    assert_eq!(entry.finish().unwrap().unwrap().reference.as_deref(), Some("T"));
    let mut entry = full();
    entry.amount = None;
    assert_eq!(entry.finish().unwrap(), None);
    let mut entry = full();
    entry.indicator = Some("both".into());
    assert_eq!(entry.finish().unwrap(), None);
    let mut entry = full();
    entry.booking_date = Some("2023-02-29".into());
    assert_eq!(entry.finish().unwrap(), None);
}

fn path(elements: &[ElementName]) -> Vec<ElementName> {
    elements.to_vec()
}

#[test]
fn the_nearest_ancestors_decide_the_place_of_a_text() {
    assert_eq!(slot(&path(&[ElementName::Document, ElementName::Stmt, ElementName::Acct, ElementName::Id, ElementName::Iban])), TextSlot::AccountId);
    assert_eq!(slot(&path(&[ElementName::Acct, ElementName::Id, ElementName::Other, ElementName::Id])), TextSlot::AccountId);
    assert_eq!(slot(&path(&[ElementName::Acct, ElementName::Currency])), TextSlot::AccountCurrency);
    assert_eq!(slot(&path(&[ElementName::Balance, ElementName::BalanceType, ElementName::CodeOrProprietary, ElementName::Code])), TextSlot::BalanceCode);
    assert_eq!(slot(&path(&[ElementName::Balance, ElementName::Amount])), TextSlot::BalanceAmount);
    assert_eq!(slot(&path(&[ElementName::Balance, ElementName::CreditDebit])), TextSlot::BalanceIndicator);
    assert_eq!(slot(&path(&[ElementName::Balance, ElementName::Date, ElementName::Date])), TextSlot::BalanceDate);
    assert_eq!(slot(&path(&[ElementName::Balance, ElementName::Date])), TextSlot::Nowhere);
    assert_eq!(slot(&path(&[ElementName::Stmt, ElementName::Entry, ElementName::Amount])), TextSlot::EntryAmount);
    assert_eq!(slot(&path(&[ElementName::Entry, ElementName::CreditDebit])), TextSlot::EntryIndicator);
    assert_eq!(slot(&path(&[ElementName::Entry, ElementName::BookingDate, ElementName::Date])), TextSlot::EntryBookingDate);
    assert_eq!(slot(&path(&[ElementName::Entry, ElementName::ValueDate, ElementName::Date])), TextSlot::EntryValueDate);
    assert_eq!(slot(&path(&[ElementName::Entry, ElementName::EntryRef])), TextSlot::EntryReference);
    assert_eq!(slot(&path(&[ElementName::Entry, ElementName::AdditionalInfo])), TextSlot::AdditionalInfo);
    let details = [ElementName::Entry, ElementName::EntryDetails, ElementName::TransactionDetails];
    let below = |tail: &[ElementName]| {
        let mut p = details.to_vec();
        p.extend_from_slice(tail);
        slot(&p)
    };
    assert_eq!(below(&[ElementName::References, ElementName::TransactionId]), TextSlot::TransactionId);
    assert_eq!(below(&[ElementName::RemittanceInfo, ElementName::UnstructuredRemittance]), TextSlot::Remittance);
    assert_eq!(
        below(&[ElementName::RemittanceInfo, ElementName::StructuredRemittance, ElementName::CreditorReferenceInfo, ElementName::ReferenceValue]),
        TextSlot::CreditorReference
    );
    assert_eq!(below(&[ElementName::RelatedParties, ElementName::Debtor, ElementName::Name]), TextSlot::DebtorName);
    assert_eq!(below(&[ElementName::RelatedParties, ElementName::Creditor, ElementName::Name]), TextSlot::CreditorName);
    assert_eq!(below(&[ElementName::RelatedParties, ElementName::DebtorAccount, ElementName::Id, ElementName::Iban]), TextSlot::DebtorAccount);
    assert_eq!(below(&[ElementName::RelatedParties, ElementName::DebtorAccount, ElementName::Id, ElementName::Other, ElementName::Id]), TextSlot::DebtorAccount);
    assert_eq!(below(&[ElementName::RelatedParties, ElementName::CreditorAccount, ElementName::Id, ElementName::Iban]), TextSlot::CreditorAccount);
    assert_eq!(below(&[ElementName::RelatedParties, ElementName::CreditorAccount, ElementName::Id, ElementName::Other, ElementName::Id]), TextSlot::CreditorAccount);
    assert_eq!(below(&[ElementName::RelatedParties, ElementName::Debtor]), TextSlot::Nowhere);
    assert_eq!(slot(&path(&[])), TextSlot::Nowhere);
    assert_eq!(slot(&path(&[ElementName::TransactionDetails, ElementName::References, ElementName::TransactionId])), TextSlot::Nowhere);
}

fn pair(key: &str, value: &str) -> XmlAttribute {
    XmlAttribute::Pair { key: key.as_bytes().to_vec(), value: value.as_bytes().to_vec() }
}

#[test]
fn the_first_currency_that_is_read_stays() {
    let mut parser = CamtParser::default();
    parser.handle_start(b"Amt", &vec![pair("x", "1"), pair("CCY", " ")]).unwrap();
    assert_eq!(parser.currency, None);
    parser.handle_end().unwrap();
    parser.handle_start(b"Amt", &vec![pair("ccy", "EUR"), pair("Ccy", "USD")]).unwrap();
    assert_eq!(parser.currency.as_deref(), Some("EUR"));
    parser.handle_end().unwrap();
    parser
        .handle_start(b"Amt", &vec![XmlAttribute::Malformed("broken".into()), pair("Ccy", "USD")])
        .unwrap();
    assert_eq!(parser.currency.as_deref(), Some("EUR"));
    parser.handle_end().unwrap();
    parser.handle_start(b"Acct", &vec![]).unwrap();
    parser.handle_start(b"Ccy", &vec![]).unwrap();
    parser.handle_text("DKK").unwrap();
    assert_eq!(parser.currency.as_deref(), Some("EUR"));
    assert_eq!(parser.path, vec![ElementName::Acct, ElementName::Currency]);
    parser.handle_end().unwrap();
    parser.handle_end().unwrap();
    parser.handle_end().unwrap();
    assert!(parser.path.is_empty());

    let mut parser = CamtParser::default();
    let failed = parser.handle_start(b"Amt", &vec![XmlAttribute::Malformed("broken".into())]);
    match failed {
        Err(ParseError::Camt053Error(m)) => assert_eq!(m, "XML attribute error: broken"),
        _ => panic!("an error of the format is expected"),
    }
    let mut parser = CamtParser::default();
    let key = XmlAttribute::Pair { key: vec![0xff], value: vec![] };
    match parser.handle_start(b"Amt", &vec![key]) {
        Err(ParseError::Camt053Error(m)) => assert_eq!(m, "Invalid attribute key encoding"),
        _ => panic!("an error of the format is expected"),
    }
    let mut parser = CamtParser::default();
    let value = XmlAttribute::Pair { key: b"Ccy".to_vec(), value: vec![0xff] };
    match parser.handle_start(b"Amt", &vec![value]) {
        Err(ParseError::Camt053Error(m)) => assert_eq!(m, "Invalid currency encoding"),
        _ => panic!("an error of the format is expected"),
    }
}

#[test]
fn a_state_without_what_a_statement_needs_builds_none() {
    match CamtParser::default().build_statement() {
        Err(ParseError::MissingField(name)) => assert_eq!(name, "account_number"),
        _ => panic!("a missing field is expected"),
    }
    let mut parser = CamtParser::default();
    parser.account_number = Some("A".into());
    parser.currency = Some("EUR".into());
    parser.opening_date = Some(Timestamp::from_ymd(2024, 1, 1).unwrap());
    parser.opening_indicator = Some(BalanceType::Debit);
    parser.closing_date = Some(Timestamp::from_ymd(2024, 1, 2).unwrap());
    parser.closing_indicator = Some(BalanceType::Credit);
    let statement = parser.build_statement().unwrap();
    assert_eq!(statement.opening_balance.minor_units, 0);
    assert_eq!(statement.closing_balance.minor_units, 0);
    assert_eq!(statement.opening_indicator, BalanceType::Debit);
}

#[test]
fn the_events_of_a_document_are_read_in_order() {
    let events = read_events("<?xml version=\"1.0\"?><a:Amt Ccy=\"EUR\" x='1'> 1.00 </a:Amt><!-- c --><b/>");
    assert_eq!(events.len(), 7);
    assert!(matches!(events[0], XmlEvent::Declaration));
    match &events[1] {
        XmlEvent::Start { name, attributes } => {
            assert_eq!(name, b"a:Amt");
            assert_eq!(attributes.len(), 2);
            match &attributes[0] {
                XmlAttribute::Pair { key, value } => {
                    assert_eq!(key, b"Ccy");
                    assert_eq!(value, b"EUR");
                }
                _ => panic!("a pair is expected"),
            }
        }
        _ => panic!("a start tag is expected"),
    }
    match &events[2] {
        XmlEvent::Text(t) => assert_eq!(t, "1.00"),
        _ => panic!("a text is expected"),
    }
    match &events[3] {
        XmlEvent::End { name } => assert_eq!(name, b"a:Amt"),
        _ => panic!("an end tag is expected"),
    }
    assert!(matches!(events[4], XmlEvent::Other));
    assert!(matches!(events[5], XmlEvent::Other));
    assert!(matches!(events[6], XmlEvent::Eof));
    let events = read_events("<a></b>");
    assert!(matches!(events.last(), Some(XmlEvent::Failed(_))));
    let events = read_events("<a><![CDATA[ x ]]></a>");
    match &events[1] {
        XmlEvent::CData(t) => assert_eq!(t, " x "),
        _ => panic!("character data is expected"),
    }
}

#[test]
fn the_events_of_a_statement_are_read_back_as_the_statement() {
    let statement = Camt053Statement {
        account_number: "ACC".into(),
        currency: "EUR".into(),
        opening_balance: Amount { minor_units: 100 },
        opening_date: parse_date("2025-01-01T10:00:00+02:00").unwrap(),
        opening_indicator: BalanceType::Credit,
        closing_balance: Amount { minor_units: 5 },
        closing_date: Timestamp::from_ymd(2025, 1, 31).unwrap(),
        closing_indicator: BalanceType::Debit,
        transactions: vec![
            Transaction {
                booking_date: Timestamp::from_ymd(2025, 1, 15).unwrap(),
                value_date: None,
                amount: Amount { minor_units: 95 },
                transaction_type: TransactionType::Credit,
                description: "".into(),
                reference: Some("R-1".into()),
                counterparty_name: None,
                counterparty_account: Some("D-ACC".into()),
            },
            Transaction {
                booking_date: Timestamp::from_ymd(2025, 1, 16).unwrap(),
                value_date: Some("2025-01-17".into()),
                amount: Amount { minor_units: u64::MAX },
                transaction_type: TransactionType::Debit,
                description: "Rent".into(),
                reference: Some("R-2".into()),
                counterparty_name: Some("Landlord".into()),
                counterparty_account: None,
            },
        ],
    };
    let events = CamtWriter::new(&statement).events();
    assert!(matches!(events[0], XmlEvent::Declaration));
    let read = decode_events(&events).unwrap();
    let mut by_day = statement.clone();
    by_day.opening_date = Timestamp::from_ymd(2025, 1, 1).unwrap();
    assert_eq!(read, by_day);
    let written = render(&events).unwrap();
    assert_eq!(written, statement.write_to().unwrap());
    assert_eq!(Camt053Statement::from_read(&written).unwrap(), by_day);
}

#[test]
fn what_is_no_part_of_a_document_is_not_written() {
    assert!(matches!(render(&vec![XmlEvent::Eof]), Err(ParseError::Camt053Error(_))));
    assert!(matches!(
        render(&vec![XmlEvent::Start { name: vec![0xff], attributes: vec![] }]),
        Err(ParseError::Camt053Error(_))
    ));
    assert!(matches!(
        render(&vec![XmlEvent::Start {
            name: b"a".to_vec(),
            attributes: vec![XmlAttribute::Malformed("m".into())]
        }]),
        Err(ParseError::Camt053Error(_))
    ));
    let written = render(&vec![
        XmlEvent::Start { name: b"a".to_vec(), attributes: vec![pair("k", "v")] },
        XmlEvent::Text("1 < 2".into()),
        XmlEvent::End { name: b"a".to_vec() },
    ])
    .unwrap();
    assert_eq!(String::from_utf8(written).unwrap(), "<a k=\"v\">1 &lt; 2</a>");
}
