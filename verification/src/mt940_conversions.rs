//! A statement of an MT940 message as a statement of the other formats.

use crate::mt940_statement::Mt940Statement;
use crate::camt053_statement::Camt053Statement;
use crate::csv_statement::CsvStatement;
use vstd::prelude::*;
use vstd::std_specs::convert::FromSpecImpl;

verus! {

impl From<Mt940Statement> for Camt053Statement {
    /// The same statement, field for field.
    fn from(statement: Mt940Statement) -> (r: Camt053Statement) {
        Camt053Statement {
            account_number: statement.account_number,
            currency: statement.currency,
            opening_balance: statement.opening_balance,
            opening_date: statement.opening_date,
            opening_indicator: statement.opening_indicator,
            closing_balance: statement.closing_balance,
            closing_date: statement.closing_date,
            closing_indicator: statement.closing_indicator,
            transactions: statement.transactions,
        }
    }
}

impl FromSpecImpl<Mt940Statement> for Camt053Statement {
    open spec fn obeys_from_spec() -> bool {
        true
    }

    open spec fn from_spec(statement: Mt940Statement) -> Camt053Statement {
        Camt053Statement {
            account_number: statement.account_number,
            currency: statement.currency,
            opening_balance: statement.opening_balance,
            opening_date: statement.opening_date,
            opening_indicator: statement.opening_indicator,
            closing_balance: statement.closing_balance,
            closing_date: statement.closing_date,
            closing_indicator: statement.closing_indicator,
            transactions: statement.transactions,
        }
    }
}

impl From<Mt940Statement> for CsvStatement {
    /// The same statement, field for field.
    fn from(statement: Mt940Statement) -> (r: CsvStatement) {
        CsvStatement {
            account_number: statement.account_number,
            currency: statement.currency,
            opening_balance: statement.opening_balance,
            opening_date: statement.opening_date,
            opening_indicator: statement.opening_indicator,
            closing_balance: statement.closing_balance,
            closing_date: statement.closing_date,
            closing_indicator: statement.closing_indicator,
            transactions: statement.transactions,
        }
    }
}

impl FromSpecImpl<Mt940Statement> for CsvStatement {
    open spec fn obeys_from_spec() -> bool {
        true
    }

    open spec fn from_spec(statement: Mt940Statement) -> CsvStatement {
        CsvStatement {
            account_number: statement.account_number,
            currency: statement.currency,
            opening_balance: statement.opening_balance,
            opening_date: statement.opening_date,
            opening_indicator: statement.opening_indicator,
            closing_balance: statement.closing_balance,
            closing_date: statement.closing_date,
            closing_indicator: statement.closing_indicator,
            transactions: statement.transactions,
        }
    }
}

} // verus!
