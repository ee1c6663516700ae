//! The error that decoding and encoding report.

use crate::text::{append_text, chars_of, string_of, utf8_text};
use vstd::prelude::*;

verus! {

/// Why a statement could not be decoded or encoded.
#[derive(Debug)]
pub enum ParseError {
    /// The format selector names no known format.
    InvalidFormat(String),
    /// A field that the statement needs was not in the input.
    MissingField(String),
    /// A field was in the input, and its value cannot be read.
    InvalidFieldValue {
        /// The name of the field.
        field: String,
        /// The value as it stood in the input.
        value: String,
    },
    /// The input is no CSV statement.
    CsvError(String),
    /// The input is no MT940 message.
    Mt940Error(String),
    /// The input is no CAMT.053 document.
    Camt053Error(String),
    /// The byte stream could not be read as text.
    IoError(String),
}

/// A `ParseError` as a mathematical value.
pub enum ErrorView {
    InvalidFormat(Seq<char>),
    MissingField(Seq<char>),
    InvalidFieldValue { field: Seq<char>, value: Seq<char> },
    CsvError(Seq<char>),
    Mt940Error(Seq<char>),
    Camt053Error(Seq<char>),
    IoError(Seq<char>),
}

impl ErrorView {
    /// The text that describes the error to a reader.
    pub open spec fn message(self) -> Seq<char> {
        match self {
            ErrorView::InvalidFormat(m) => "Invalid format: "@ + m,
            ErrorView::MissingField(m) => "Missing required field: "@ + m,
            ErrorView::InvalidFieldValue { field, value } => "Invalid value '"@ + value
                + "' for field '"@ + field + "'"@,
            ErrorView::CsvError(m) => "CSV error: "@ + m,
            ErrorView::Mt940Error(m) => "MT940 error: "@ + m,
            ErrorView::Camt053Error(m) => "CAMT.053 error: "@ + m,
            ErrorView::IoError(m) => "I/O error: "@ + m,
        }
    }
}

impl View for ParseError {
    type V = ErrorView;

    open spec fn view(&self) -> ErrorView {
        match self {
            ParseError::InvalidFormat(m) => ErrorView::InvalidFormat(m@),
            ParseError::MissingField(m) => ErrorView::MissingField(m@),
            ParseError::InvalidFieldValue { field, value } => ErrorView::InvalidFieldValue {
                field: field@,
                value: value@,
            },
            ParseError::CsvError(m) => ErrorView::CsvError(m@),
            ParseError::Mt940Error(m) => ErrorView::Mt940Error(m@),
            ParseError::Camt053Error(m) => ErrorView::Camt053Error(m@),
            ParseError::IoError(m) => ErrorView::IoError(m@),
        }
    }
}

/// A result as a mathematical value: the view of what it holds.
pub open spec fn outcome<T: View>(r: Result<T, ParseError>) -> Result<T::V, ErrorView> {
    match r {
        Ok(v) => Ok(v@),
        Err(e) => Err(e@),
    }
}

/// `prefix` followed by `rest`.
pub fn prefixed(prefix: &str, rest: &[char]) -> (r: String)
    ensures
        r@ == prefix@ + rest@,
{
    let mut v = chars_of(prefix);
    append_text(&mut v, rest);
    string_of(v.as_slice())
}

impl ParseError {
    /// The text that describes the error to a reader.
    pub fn message(&self) -> (r: String)
        ensures
            r@ == self@.message(),
    {
        match self {
            ParseError::InvalidFormat(m) => prefixed("Invalid format: ", chars_of(m).as_slice()),
            ParseError::MissingField(m) => prefixed(
                "Missing required field: ",
                chars_of(m).as_slice(),
            ),
            ParseError::InvalidFieldValue { field, value } => {
                let mut v = chars_of("Invalid value '");
                append_text(&mut v, chars_of(value).as_slice());
                append_text(&mut v, chars_of("' for field '").as_slice());
                append_text(&mut v, chars_of(field).as_slice());
                append_text(&mut v, chars_of("'").as_slice());
                string_of(v.as_slice())
            },
            ParseError::CsvError(m) => prefixed("CSV error: ", chars_of(m).as_slice()),
            ParseError::Mt940Error(m) => prefixed("MT940 error: ", chars_of(m).as_slice()),
            ParseError::Camt053Error(m) => prefixed("CAMT.053 error: ", chars_of(m).as_slice()),
            ParseError::IoError(m) => prefixed("I/O error: ", chars_of(m).as_slice()),
        }
    }
}

/// The text of a byte stream: its decoding as UTF-8, where it has one.
pub open spec fn text_of_bytes(bytes: Seq<u8>) -> Result<Seq<char>, ErrorView> {
    if vstd::utf8::valid_utf8(bytes) {
        Ok(vstd::utf8::decode_utf8(bytes))
    } else {
        Err(ErrorView::IoError("stream did not contain valid UTF-8"@))
    }
}

/// The text of a byte stream.
pub fn read_text(bytes: &[u8]) -> (r: Result<&str, ParseError>)
    ensures
        match r {
            Ok(s) => text_of_bytes(bytes@) == Ok::<Seq<char>, ErrorView>(s@),
            Err(e) => text_of_bytes(bytes@) == Err::<Seq<char>, ErrorView>(e@),
        },
{
    match utf8_text(bytes) {
        Some(s) => Ok(s),
        None => Err(ParseError::IoError("stream did not contain valid UTF-8".to_owned())),
    }
}

} // verus!
