//! A statement of a CAMT.053 document as a statement of the other formats.

use crate::camt053_statement::Camt053Statement;
use crate::csv_statement::CsvStatement;
use crate::mt940_statement::Mt940Statement;
use vstd::prelude::*;
use vstd::std_specs::convert::FromSpecImpl;

verus! {

impl From<Camt053Statement> for Mt940Statement {
    /// The same statement, field for field.
    fn from(statement: Camt053Statement) -> (r: Mt940Statement) {
        Mt940Statement {
            account_number: statement.account_number,
            currency: statement.currency,
            opening_balance: statement.opening_balance,
            opening_date: statement.opening_date,
            opening_indicator: statement.opening_indicator,
            closing_balance: statement.closing_balance,
            closing_date: statement.closing_date,
            closing_indicator: statement.closing_indicator,
            transactions: statement.transactions,
        }
    }
}

impl FromSpecImpl<Camt053Statement> for Mt940Statement {
    open spec fn obeys_from_spec() -> bool {
        true
    }

    open spec fn from_spec(statement: Camt053Statement) -> Mt940Statement {
        Mt940Statement {
            account_number: statement.account_number,
            currency: statement.currency,
            opening_balance: statement.opening_balance,
            opening_date: statement.opening_date,
            opening_indicator: statement.opening_indicator,
            closing_balance: statement.closing_balance,
            closing_date: statement.closing_date,
            closing_indicator: statement.closing_indicator,
            transactions: statement.transactions,
        }
    }
}

impl From<Camt053Statement> for CsvStatement {
    /// The same statement, field for field.
    fn from(statement: Camt053Statement) -> (r: CsvStatement) {
        CsvStatement {
            account_number: statement.account_number,
            currency: statement.currency,
            opening_balance: statement.opening_balance,
            opening_date: statement.opening_date,
            opening_indicator: statement.opening_indicator,
            closing_balance: statement.closing_balance,
            closing_date: statement.closing_date,
            closing_indicator: statement.closing_indicator,
            transactions: statement.transactions,
        }
    }
}

impl FromSpecImpl<Camt053Statement> for CsvStatement {
    open spec fn obeys_from_spec() -> bool {
        true
    }

    open spec fn from_spec(statement: Camt053Statement) -> CsvStatement {
        CsvStatement {
            account_number: statement.account_number,
            currency: statement.currency,
            opening_balance: statement.opening_balance,
            opening_date: statement.opening_date,
            opening_indicator: statement.opening_indicator,
            closing_balance: statement.closing_balance,
            closing_date: statement.closing_date,
            closing_indicator: statement.closing_indicator,
            transactions: statement.transactions,
        }
    }
}

} // verus!
