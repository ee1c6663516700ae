use ledger_parser::amount::Amount;
use ledger_parser::date::parse_date;
use ledger_parser::model::{BalanceType, Transaction, TransactionType};

#[test]
fn test_transaction_creation() {
    let tx = Transaction {
        booking_date: parse_date("2025-01-15").unwrap(),
        value_date: Some("2025-01-15".into()),
        amount: Amount { minor_units: 10050 },
        transaction_type: TransactionType::Credit,
        description: "Payment received".into(),
        reference: Some("REF123".into()),
        counterparty_name: Some("John Doe".into()),
        counterparty_account: Some("IBAN123".into()),
    };
    assert_eq!(tx.amount.minor_units as f64 / 100.0, 100.50);
    assert_eq!(tx.transaction_type, TransactionType::Credit);
}

#[test]
fn test_balance_type_creation() {
    let credit = BalanceType::Credit;
    let debit = BalanceType::Debit;
    assert_eq!(credit, BalanceType::Credit);
    assert_eq!(debit, BalanceType::Debit);
    assert_ne!(credit, debit);
}

#[test]
fn test_transaction_type_creation() {
    let credit = TransactionType::Credit;
    let debit = TransactionType::Debit;
    assert_eq!(credit, TransactionType::Credit);
    assert_eq!(debit, TransactionType::Debit);
    assert_ne!(credit, debit);
}

#[test]
fn a_copy_of_a_transaction_equals_it() {
    let tx = Transaction {
        booking_date: parse_date("2025-01-15").unwrap(),
        value_date: None,
        amount: Amount { minor_units: 25075 },
        transaction_type: TransactionType::Debit,
        description: "Purchase".into(),
        reference: Some("R".into()),
        counterparty_name: None,
        counterparty_account: Some("A".into()),
    };
    assert_eq!(tx.clone(), tx);
}
