//! The statement model shared by every format.

use crate::amount::Amount;
use crate::date::{Timestamp, TimestampView};
use vstd::prelude::*;

verus! {

/// Whether a balance stands in credit or in debit.
#[derive(Debug, Clone, Copy, PartialEq, Eq, Structural)]
pub enum BalanceType {
    /// Positive balance.
    Credit,
    /// Negative balance.
    Debit,
}

/// Whether a transaction brought money in or took it out.
#[derive(Debug, Clone, Copy, PartialEq, Eq, Structural)]
pub enum TransactionType {
    /// Money received.
    Credit,
    /// Money paid out.
    Debit,
}

/// One entry of a statement.
#[derive(Debug, PartialEq)]
pub struct Transaction {
    /// When the entry was posted to the account.
    pub booking_date: Timestamp,
    /// When the funds count, as the source wrote it; not every source does.
    pub value_date: Option<String>,
    /// The amount moved. Its direction is `transaction_type`.
    pub amount: Amount,
    /// Whether the amount came in or went out.
    pub transaction_type: TransactionType,
    /// The narrative of the entry.
    pub description: String,
    /// An identifier that the source gave the entry.
    pub reference: Option<String>,
    /// The name of the other party.
    pub counterparty_name: Option<String>,
    /// The account of the other party.
    pub counterparty_account: Option<String>,
}

/// A `Transaction` as a mathematical value.
pub struct TransactionView {
    pub booking_date: TimestampView,
    pub value_date: Option<Seq<char>>,
    pub amount: nat,
    pub transaction_type: TransactionType,
    pub description: Seq<char>,
    pub reference: Option<Seq<char>>,
    pub counterparty_name: Option<Seq<char>>,
    pub counterparty_account: Option<Seq<char>>,
}

/// A statement as a mathematical value, whatever format it came in.
pub struct StatementView {
    pub account_number: Seq<char>,
    pub currency: Seq<char>,
    pub opening_balance: nat,
    pub opening_date: TimestampView,
    pub opening_indicator: BalanceType,
    pub closing_balance: nat,
    pub closing_date: TimestampView,
    pub closing_indicator: BalanceType,
    pub transactions: Seq<TransactionView>,
}

impl TransactionView {
    /// The transaction with its booking date at midnight UTC.
    pub open spec fn by_day(self) -> TransactionView {
        TransactionView { booking_date: self.booking_date.at_midnight(), ..self }
    }
}

impl StatementView {
    /// The statement with all its dates at midnight UTC.
    pub open spec fn by_day(self) -> StatementView {
        StatementView {
            opening_date: self.opening_date.at_midnight(),
            closing_date: self.closing_date.at_midnight(),
            transactions: self.transactions.map_values(|t: TransactionView| t.by_day()),
            ..self
        }
    }
}

/// The text that an optional string holds.
pub open spec fn text_of(o: Option<String>) -> Option<Seq<char>> {
    match o {
        Some(s) => Some(s@),
        None => None,
    }
}

/// The values of a list of transactions, in order.
pub open spec fn transactions_view(v: Seq<Transaction>) -> Seq<TransactionView> {
    v.map_values(|t: Transaction| t@)
}

impl View for Transaction {
    type V = TransactionView;

    open spec fn view(&self) -> TransactionView {
        TransactionView {
            booking_date: self.booking_date@,
            value_date: text_of(self.value_date),
            amount: self.amount.minor_units as nat,
            transaction_type: self.transaction_type,
            description: self.description@,
            reference: text_of(self.reference),
            counterparty_name: text_of(self.counterparty_name),
            counterparty_account: text_of(self.counterparty_account),
        }
    }
}

/// A copy of an optional string.
pub fn copy_text(o: &Option<String>) -> (r: Option<String>)
    ensures
        text_of(r) == text_of(*o),
{
    match o {
        Some(s) => Some(s.clone()),
        None => None,
    }
}

impl Clone for Transaction {
    fn clone(&self) -> (r: Self)
        ensures
            r@ == self@,
    {
        Transaction {
            booking_date: self.booking_date,
            value_date: copy_text(&self.value_date),
            amount: self.amount,
            transaction_type: self.transaction_type,
            description: self.description.clone(),
            reference: copy_text(&self.reference),
            counterparty_name: copy_text(&self.counterparty_name),
            counterparty_account: copy_text(&self.counterparty_account),
        }
    }
}

/// A copy of a list of transactions.
pub fn copy_transactions(v: &Vec<Transaction>) -> (r: Vec<Transaction>)
    ensures
        transactions_view(r@) == transactions_view(v@),
{
    let mut r: Vec<Transaction> = Vec::new();
    let mut i: usize = 0;
    while i < v.len()
        invariant
            i <= v.len(),
            transactions_view(r@) == transactions_view(v@.take(i as int)),
        decreases v.len() - i,
    {
        r.push(v[i].clone());
        i += 1;
        assert(transactions_view(v@.take(i as int)) =~= transactions_view(v@.take(i - 1)).push(
            v@[i - 1]@,
        ));
    }
    assert(v@.take(i as int) =~= v@);
    r
}

} // verus!
