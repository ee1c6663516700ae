//! The formats by their names.

use crate::error::{ErrorView, ParseError};
use crate::text::{append_text, chars_of, lowercase, same_text, string_of, to_lowercase};
use vstd::prelude::*;

verus! {

/// One of the formats that carry a statement.
#[derive(Debug, Clone, Copy, PartialEq, Eq, Structural)]
pub enum Format {
    /// A CSV export.
    Csv,
    /// A SWIFT MT940 message.
    Mt940,
    /// An ISO 20022 CAMT.053 document.
    Camt053,
}

/// The format that a name in lower case stands for.
pub open spec fn format_named(lower: Seq<char>) -> Option<Format> {
    if lower == "csv"@ {
        Some(Format::Csv)
    } else if lower == "mt940"@ {
        Some(Format::Mt940)
    } else if lower == "camt053"@ {
        Some(Format::Camt053)
    } else {
        None
    }
}

/// The error that a name stands for no format; `role` says what the format
/// was named for.
pub open spec fn unknown_format(name: Seq<char>, role: Seq<char>) -> ErrorView {
    ErrorView::InvalidFormat(
        "Unknown "@ + role + " format: "@ + name + ". Supported: csv, mt940, camt053"@,
    )
}

/// The format that a name stands for, whatever the case of its letters.
pub open spec fn format_of_name(name: Seq<char>, role: Seq<char>) -> Result<Format, ErrorView> {
    match format_named(lowercase(name)) {
        Some(f) => Ok(f),
        None => Err(unknown_format(name, role)),
    }
}

/// The format that a name in lower case stands for.
pub fn format_from_lowercase(lower: &str) -> (r: Option<Format>)
    ensures
        r == format_named(lower@),
{
    let name = chars_of(lower);
    if same_text(name.as_slice(), chars_of("csv").as_slice()) {
        Some(Format::Csv)
    } else if same_text(name.as_slice(), chars_of("mt940").as_slice()) {
        Some(Format::Mt940)
    } else if same_text(name.as_slice(), chars_of("camt053").as_slice()) {
        Some(Format::Camt053)
    } else {
        None
    }
}

/// The format that `name` stands for, whatever the case of its letters;
/// `role` says in the error what the format was named for.
pub fn format_of(name: &str, role: &str) -> (r: Result<Format, ParseError>)
    ensures
        match r {
            Ok(f) => format_of_name(name@, role@) == Ok::<Format, ErrorView>(f),
            Err(e) => format_of_name(name@, role@) == Err::<Format, ErrorView>(e@),
        },
{
    let lower = to_lowercase(name);
    match format_from_lowercase(lower.as_str()) {
        Some(f) => Ok(f),
        None => {
            let mut m = chars_of("Unknown ");
            append_text(&mut m, chars_of(role).as_slice());
            append_text(&mut m, chars_of(" format: ").as_slice());
            append_text(&mut m, chars_of(name).as_slice());
            append_text(&mut m, chars_of(". Supported: csv, mt940, camt053").as_slice());
            Err(ParseError::InvalidFormat(string_of(m.as_slice())))
        },
    }
}

} // verus!
