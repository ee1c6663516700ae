//! The values that the text of a CAMT.053 element states.

use crate::amount::{numeral_value, read_numeral, Amount};
use crate::date::{date_of_text, parse_date, Timestamp, TimestampView};
use crate::error::{outcome, ErrorView, ParseError};
use crate::model::{BalanceType, TransactionType};
use crate::text::{
    ascii_lowercase, chars_of, replace_char, replaced, same_text, string_of, to_ascii_lowercase,
    trim, trimmed,
};
use vstd::prelude::*;

verus! {

/// The error that a value of a field cannot be read.
pub open spec fn invalid_value(field: Seq<char>, value: Seq<char>) -> ErrorView {
    ErrorView::InvalidFieldValue { field, value }
}

/// The amount that a text states, in hundredths: a numeral with a point or
/// a comma. A sign before the numeral is passed over.
pub open spec fn amount_of(s: Seq<char>) -> Result<nat, ErrorView> {
    match numeral_value(replaced(trimmed(s), ',', '.')) {
        Some(v) => Ok(v.magnitude.minor_units as nat),
        None => Err(invalid_value("amount"@, s)),
    }
}

/// The text is the indicator of a credit, whatever the case of its letters.
pub open spec fn says_credit(s: Seq<char>) -> bool {
    ascii_lowercase(trimmed(s)) == "crdt"@
}

/// The text is the indicator of a debit, whatever the case of its letters.
pub open spec fn says_debit(s: Seq<char>) -> bool {
    ascii_lowercase(trimmed(s)) == "dbit"@
}

/// The balance indicator that a text states.
pub open spec fn balance_indicator_of(s: Seq<char>) -> Result<BalanceType, ErrorView> {
    if says_credit(s) {
        Ok(BalanceType::Credit)
    } else if says_debit(s) {
        Ok(BalanceType::Debit)
    } else {
        Err(invalid_value("balance_indicator"@, s))
    }
}

/// The direction of a transaction that a text states.
pub open spec fn transaction_type_of(s: Seq<char>) -> Result<TransactionType, ErrorView> {
    if says_credit(s) {
        Ok(TransactionType::Credit)
    } else if says_debit(s) {
        Ok(TransactionType::Debit)
    } else {
        Err(invalid_value("transaction_type"@, s))
    }
}

/// The timestamp that the text of a date element states.
pub open spec fn xml_date_of(s: Seq<char>) -> Result<TimestampView, ErrorView> {
    date_of_text(trimmed(s))
}

/// Whether `s`, trimmed and in lower case, is `word`.
pub fn says(s: &str, word: &str) -> (r: bool)
    ensures
        r == (ascii_lowercase(trimmed(s@)) == word@),
{
    let lower = to_ascii_lowercase(trim(chars_of(s).as_slice()).as_slice());
    same_text(lower.as_slice(), chars_of(word).as_slice())
}

/// The amount that `s` states.
pub fn parse_amount(s: &str) -> (r: Result<Amount, ParseError>)
    ensures
        match r {
            Ok(a) => amount_of(s@) == Ok::<nat, ErrorView>(a.minor_units as nat),
            Err(e) => amount_of(s@) == Err::<nat, ErrorView>(e@),
        },
{
    let cleaned = replace_char(trim(chars_of(s).as_slice()).as_slice(), ',', '.');
    match read_numeral(cleaned.as_slice()) {
        Some(v) => Ok(v.magnitude),
        None => Err(
            ParseError::InvalidFieldValue { field: "amount".to_owned(), value: s.to_owned() },
        ),
    }
}

/// The timestamp that the text of a date element states.
pub fn parse_xml_date(s: &str) -> (r: Result<Timestamp, ParseError>)
    ensures
        outcome(r) == xml_date_of(s@),
{
    let t = string_of(trim(chars_of(s).as_slice()).as_slice());
    parse_date(t.as_str())
}

/// The balance indicator that `s` states.
pub fn parse_balance_indicator(s: &str) -> (r: Result<BalanceType, ParseError>)
    ensures
        match r {
            Ok(b) => balance_indicator_of(s@) == Ok::<BalanceType, ErrorView>(b),
            Err(e) => balance_indicator_of(s@) == Err::<BalanceType, ErrorView>(e@),
        },
{
    if says(s, "crdt") {
        Ok(BalanceType::Credit)
    } else if says(s, "dbit") {
        Ok(BalanceType::Debit)
    } else {
        Err(
            ParseError::InvalidFieldValue {
                field: "balance_indicator".to_owned(),
                value: s.to_owned(),
            },
        )
    }
}

/// The direction of a transaction that `s` states.
pub fn parse_transaction_type(s: &str) -> (r: Result<TransactionType, ParseError>)
    ensures
        match r {
            Ok(t) => transaction_type_of(s@) == Ok::<TransactionType, ErrorView>(t),
            Err(e) => transaction_type_of(s@) == Err::<TransactionType, ErrorView>(e@),
        },
{
    if says(s, "crdt") {
        Ok(TransactionType::Credit)
    } else if says(s, "dbit") {
        Ok(TransactionType::Debit)
    } else {
        Err(
            ParseError::InvalidFieldValue {
                field: "transaction_type".to_owned(),
                value: s.to_owned(),
            },
        )
    }
}

} // verus!
