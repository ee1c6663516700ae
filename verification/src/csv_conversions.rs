//! A statement of a CSV export as a statement of the other formats.

use crate::csv_statement::CsvStatement;
use crate::camt053_statement::Camt053Statement;
use crate::mt940_statement::Mt940Statement;
use vstd::prelude::*;
use vstd::std_specs::convert::FromSpecImpl;

verus! {

impl From<CsvStatement> for Mt940Statement {
    /// The same statement, field for field.
    fn from(statement: CsvStatement) -> (r: Mt940Statement) {
        Mt940Statement {
            account_number: statement.account_number,
            currency: statement.currency,
            opening_balance: statement.opening_balance,
            opening_date: statement.opening_date,
            opening_indicator: statement.opening_indicator,
            closing_balance: statement.closing_balance,
            closing_date: statement.closing_date,
            closing_indicator: statement.closing_indicator,
            transactions: statement.transactions,
        }
    }
}

impl FromSpecImpl<CsvStatement> for Mt940Statement {
    open spec fn obeys_from_spec() -> bool {
        true
    }

    open spec fn from_spec(statement: CsvStatement) -> Mt940Statement {
        Mt940Statement {
            account_number: statement.account_number,
            currency: statement.currency,
            opening_balance: statement.opening_balance,
            opening_date: statement.opening_date,
            opening_indicator: statement.opening_indicator,
            closing_balance: statement.closing_balance,
            closing_date: statement.closing_date,
            closing_indicator: statement.closing_indicator,
            transactions: statement.transactions,
        }
    }
}

impl From<CsvStatement> for Camt053Statement {
    /// The same statement, field for field.
    fn from(statement: CsvStatement) -> (r: Camt053Statement) {
        Camt053Statement {
            account_number: statement.account_number,
            currency: statement.currency,
            opening_balance: statement.opening_balance,
            opening_date: statement.opening_date,
            opening_indicator: statement.opening_indicator,
            closing_balance: statement.closing_balance,
            closing_date: statement.closing_date,
            closing_indicator: statement.closing_indicator,
            transactions: statement.transactions,
        }
    }
}

impl FromSpecImpl<CsvStatement> for Camt053Statement {
    open spec fn obeys_from_spec() -> bool {
        true
    }

    open spec fn from_spec(statement: CsvStatement) -> Camt053Statement {
        Camt053Statement {
            account_number: statement.account_number,
            currency: statement.currency,
            opening_balance: statement.opening_balance,
            opening_date: statement.opening_date,
            opening_indicator: statement.opening_indicator,
            closing_balance: statement.closing_balance,
            closing_date: statement.closing_date,
            closing_indicator: statement.closing_indicator,
            transactions: statement.transactions,
        }
    }
}

} // verus!
