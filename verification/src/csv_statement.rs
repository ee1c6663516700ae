//! Bank statements as CSV.

pub mod constants;
pub mod heuristic;
pub mod layout;
pub mod records;
pub mod simple;

use crate::amount::{Amount, SignedAmount};
use crate::date::Timestamp;
use crate::error::{outcome, text_of_bytes, ErrorView, ParseError};
use crate::model::{transactions_view, BalanceType, StatementView, Transaction};
use crate::text::chars_of;
use vstd::prelude::*;

verus! {

/// A statement as a CSV export carries it.
#[derive(Debug, PartialEq)]
pub struct CsvStatement {
    /// The account that the statement is about.
    pub account_number: String,
    /// The currency of every amount, as a three-letter code.
    pub currency: String,
    /// The balance before the first transaction.
    pub opening_balance: Amount,
    /// The day of the opening balance.
    pub opening_date: Timestamp,
    /// Whether the opening balance is in credit or in debit.
    pub opening_indicator: BalanceType,
    /// The balance after the last transaction.
    pub closing_balance: Amount,
    /// The day of the closing balance.
    pub closing_date: Timestamp,
    /// Whether the closing balance is in credit or in debit.
    pub closing_indicator: BalanceType,
    /// The transactions, in the order of the export.
    pub transactions: Vec<Transaction>,
}

impl Clone for CsvStatement {
    fn clone(&self) -> (r: Self)
        ensures
            r@ == self@,
    {
        CsvStatement {
            account_number: self.account_number.clone(),
            currency: self.currency.clone(),
            opening_balance: self.opening_balance,
            opening_date: self.opening_date,
            opening_indicator: self.opening_indicator,
            closing_balance: self.closing_balance,
            closing_date: self.closing_date,
            closing_indicator: self.closing_indicator,
            transactions: crate::model::copy_transactions(&self.transactions),
        }
    }
}

impl View for CsvStatement {
    type V = StatementView;

    open spec fn view(&self) -> StatementView {
        StatementView {
            account_number: self.account_number@,
            currency: self.currency@,
            opening_balance: self.opening_balance.minor_units as nat,
            opening_date: self.opening_date@,
            opening_indicator: self.opening_indicator,
            closing_balance: self.closing_balance.minor_units as nat,
            closing_date: self.closing_date@,
            closing_indicator: self.closing_indicator,
            transactions: transactions_view(self.transactions@),
        }
    }
}

/// The statement that records state: in the layout of named columns where
/// the first record is its header, in the positional layout else.
pub open spec fn statement_of_records(rows: Seq<Seq<Seq<char>>>) -> Result<StatementView, ErrorView> {
    if simple::is_simple(rows) {
        simple::statement_of_rows(rows)
    } else {
        heuristic::statement_of_rows(rows)
    }
}

/// The statement that the text of an export states.
pub open spec fn statement_of_text(content: Seq<char>) -> Result<StatementView, ErrorView> {
    if content.len() == 0 {
        Err(ErrorView::CsvError(constants::ERROR_EMPTY_INPUT@))
    } else {
        match records::csv_records(content) {
            Err(reason) => Err(ErrorView::CsvError(reason)),
            Ok(rows) => statement_of_records(rows),
        }
    }
}

/// The statement that the bytes of an export state.
pub open spec fn statement_of_bytes(input: Seq<u8>) -> Result<StatementView, ErrorView> {
    match text_of_bytes(input) {
        Err(e) => Err(e),
        Ok(content) => statement_of_text(content),
    }
}

/// The statement that records state.
pub fn decode_records(rows: &Vec<Vec<Vec<char>>>) -> (r: Result<CsvStatement, ParseError>)
    ensures
        outcome(r) == statement_of_records(records::cells(rows@)),
{
    if simple::has_simple_header(rows) {
        simple::decode_rows(rows)
    } else {
        heuristic::decode_rows(rows)
    }
}

impl CsvStatement {
    /// Decodes the export in `input`.
    pub fn from_read(input: &[u8]) -> (r: Result<CsvStatement, ParseError>)
        ensures
            outcome(r) == statement_of_bytes(input@),
    {
        let text = match crate::error::read_text(input) {
            Ok(t) => t,
            Err(e) => {
                return Err(e);
            },
        };
        if text.is_empty() {
            return Err(ParseError::CsvError(constants::ERROR_EMPTY_INPUT.to_owned()));
        }
        let rows = match records::read_rows(text) {
            Ok(r) => r,
            Err(e) => {
                return Err(e);
            },
        };
        decode_records(&rows)
    }

    /// Encodes the statement in the positional layout.
    pub fn write_to(&self) -> (r: Result<Vec<u8>, ParseError>)
        ensures
            r matches Ok(bytes) && bytes@ == records::csv_document(layout::statement_rows(self@)),
    {
        records::write_rows(&layout::rows_of(self))
    }

    /// Encodes the statement in the layout of named columns.
    pub fn write_simple(&self) -> (r: Result<Vec<u8>, ParseError>)
        ensures
            r matches Ok(bytes) && bytes@ == records::csv_document(simple::statement_rows(self@)),
    {
        records::write_rows(&simple::rows_of(self))
    }

    /// The timestamp that a text states.
    pub fn parse_date(date_str: &str) -> (r: Result<Timestamp, ParseError>)
        ensures
            outcome(r) == heuristic::csv_date_of(date_str@),
    {
        heuristic::read_date(chars_of(date_str).as_slice())
    }

    /// The amount that a text states, with its sign.
    pub fn parse_amount(amount_str: &str) -> (r: Result<SignedAmount, ParseError>)
        ensures
            match r {
                Ok(a) => heuristic::signed_amount_of(amount_str@) == Ok::<SignedAmount, ErrorView>(a),
                Err(e) => heuristic::signed_amount_of(amount_str@) == Err::<
                    SignedAmount,
                    ErrorView,
                >(e@),
            },
    {
        heuristic::read_signed_amount(chars_of(amount_str).as_slice())
    }
}

} // verus!
