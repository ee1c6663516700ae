//! ISO 20022 CAMT.053 documents.

pub mod elements;
pub mod parser;
pub mod round_trip;
pub mod scratch;
pub mod tags;
pub mod values;
pub mod writer;
pub mod xml;

use crate::amount::Amount;
use crate::date::Timestamp;
use crate::error::{outcome, text_of_bytes, ErrorView, ParseError};
use crate::model::{transactions_view, BalanceType, StatementView, Transaction};
use crate::text::{chars_of, trim, trimmed};
use vstd::prelude::*;

verus! {

/// A statement as a CAMT.053 document carries it.
#[derive(Debug, PartialEq)]
pub struct Camt053Statement {
    /// The account that the statement is about.
    pub account_number: String,
    /// The currency of every amount, as a three-letter code.
    pub currency: String,
    /// The balance before the first transaction.
    pub opening_balance: Amount,
    /// The day of the opening balance.
    pub opening_date: Timestamp,
    /// Whether the opening balance is in credit or in debit.
    pub opening_indicator: BalanceType,
    /// The balance after the last transaction.
    pub closing_balance: Amount,
    /// The day of the closing balance.
    pub closing_date: Timestamp,
    /// Whether the closing balance is in credit or in debit.
    pub closing_indicator: BalanceType,
    /// The transactions, in the order of the document.
    pub transactions: Vec<Transaction>,
}

impl Clone for Camt053Statement {
    fn clone(&self) -> (r: Self)
        ensures
            r@ == self@,
    {
        Camt053Statement {
            account_number: self.account_number.clone(),
            currency: self.currency.clone(),
            opening_balance: self.opening_balance,
            opening_date: self.opening_date,
            opening_indicator: self.opening_indicator,
            closing_balance: self.closing_balance,
            closing_date: self.closing_date,
            closing_indicator: self.closing_indicator,
            transactions: crate::model::copy_transactions(&self.transactions),
        }
    }
}

impl View for Camt053Statement {
    type V = StatementView;

    open spec fn view(&self) -> StatementView {
        StatementView {
            account_number: self.account_number@,
            currency: self.currency@,
            opening_balance: self.opening_balance.minor_units as nat,
            opening_date: self.opening_date@,
            opening_indicator: self.opening_indicator,
            closing_balance: self.closing_balance.minor_units as nat,
            closing_date: self.closing_date@,
            closing_indicator: self.closing_indicator,
            transactions: transactions_view(self.transactions@),
        }
    }
}

/// The statement that the text of a document states.
pub open spec fn statement_of_text(content: Seq<char>) -> Result<StatementView, ErrorView> {
    if trimmed(content).len() == 0 {
        Err(ErrorView::Camt053Error("Empty input"@))
    } else {
        parser::statement_of_events(xml::events_of_text(content))
    }
}

/// The statement that the bytes of a document state.
pub open spec fn statement_of_bytes(input: Seq<u8>) -> Result<StatementView, ErrorView> {
    match text_of_bytes(input) {
        Err(e) => Err(e),
        Ok(content) => statement_of_text(content),
    }
}

impl Camt053Statement {
    /// Decodes the document in `input`.
    pub fn from_read(input: &[u8]) -> (r: Result<Camt053Statement, ParseError>)
        ensures
            outcome(r) == statement_of_bytes(input@),
    {
        let text = match crate::error::read_text(input) {
            Ok(t) => t,
            Err(e) => {
                return Err(e);
            },
        };
        if trim(chars_of(text).as_slice()).len() == 0 {
            return Err(ParseError::Camt053Error("Empty input".to_owned()));
        }
        let events = xml::read_events(text);
        parser::decode_events(&events)
    }

    /// Encodes the statement as a document. Every statement has one.
    pub fn write_to(&self) -> (r: Result<Vec<u8>, ParseError>)
        ensures
            r matches Ok(bytes) && bytes@ == xml::xml_document(writer::statement_events(self@)),
    {
        writer::CamtWriter::new(self).write()
    }
}

} // verus!
