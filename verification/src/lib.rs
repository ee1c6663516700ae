//! Decoding and encoding of bank account statements.
//!
//! Three formats carry a statement: a CSV export, a SWIFT MT940 message and
//! an ISO 20022 CAMT.053 document. Each has a type of its own with the same
//! fields, a decoder from bytes and an encoder; a statement of one format is
//! turned into one of another by `From`.

pub mod amount;
pub mod camt053_conversions;
pub mod camt053_statement;
pub mod csv_conversions;
pub mod csv_statement;
pub mod date;
pub mod error;
pub mod format;
pub mod laws;
pub mod model;
pub mod mt940_conversions;
pub mod mt940_round_trip;
pub mod mt940_statement;
pub mod text;

pub use amount::{Amount, SignedAmount};
pub use camt053_statement::Camt053Statement;
pub use csv_statement::CsvStatement;
pub use date::Timestamp;
pub use error::ParseError;
pub use format::Format;
pub use model::{BalanceType, Transaction, TransactionType};
pub use mt940_statement::Mt940Statement;
