//! The layout of named columns: a header and the record of the statement,
//! then a header and the records of the transactions.

use super::heuristic::csv_error;
use super::records::cells;
use super::CsvStatement;
use crate::amount::{amount_text, numeral_value, read_numeral, write_amount, Amount};
use crate::date::{date_of_text, parse_date, Timestamp, TimestampView};
use crate::error::{outcome, ErrorView, ParseError};
use crate::model::{
    transactions_view, BalanceType, StatementView, Transaction, TransactionType, TransactionView,
};
use crate::text::{chars_of, same_text, string_of, texts};
use vstd::prelude::*;

verus! {

/// The names of the columns of the record of the statement.
pub open spec fn statement_header() -> Seq<Seq<char>> {
    seq![
        "account_number"@,
        "currency"@,
        "opening_balance"@,
        "opening_date"@,
        "opening_indicator"@,
        "closing_balance"@,
        "closing_date"@,
        "closing_indicator"@,
    ]
}

/// The names of the columns of the records of the transactions.
pub open spec fn transaction_header() -> Seq<Seq<char>> {
    seq![
        "booking_date"@,
        "value_date"@,
        "amount"@,
        "transaction_type"@,
        "description"@,
        "reference"@,
        "counterparty_name"@,
        "counterparty_account"@,
    ]
}

/// The records are in the layout of named columns: the first is the
/// header of the statement.
pub open spec fn is_simple(rows: Seq<Seq<Seq<char>>>) -> bool {
    rows.len() > 0 && rows[0] == statement_header()
}

/// The word for a balance indicator.
pub open spec fn balance_word(indicator: BalanceType) -> Seq<char> {
    match indicator {
        BalanceType::Credit => "Credit"@,
        BalanceType::Debit => "Debit"@,
    }
}

/// The word for the direction of a transaction.
pub open spec fn transaction_word(direction: TransactionType) -> Seq<char> {
    match direction {
        TransactionType::Credit => "Credit"@,
        TransactionType::Debit => "Debit"@,
    }
}

/// The text of an optional field: empty where there is none.
pub open spec fn optional_text(o: Option<Seq<char>>) -> Seq<char> {
    match o {
        Some(t) => t,
        None => Seq::empty(),
    }
}

/// What a field states of an optional text: none where it is empty.
pub open spec fn optional_of(field: Seq<char>) -> Option<Seq<char>> {
    if field.len() == 0 {
        None
    } else {
        Some(field)
    }
}

/// The record of the statement.
pub open spec fn statement_row(s: StatementView) -> Seq<Seq<char>> {
    seq![
        s.account_number,
        s.currency,
        amount_text(s.opening_balance, '.'),
        s.opening_date.iso_day(),
        balance_word(s.opening_indicator),
        amount_text(s.closing_balance, '.'),
        s.closing_date.iso_day(),
        balance_word(s.closing_indicator),
    ]
}

/// The record of a transaction.
pub open spec fn transaction_row(t: TransactionView) -> Seq<Seq<char>> {
    seq![
        t.booking_date.iso_day(),
        optional_text(t.value_date),
        amount_text(t.amount, '.'),
        transaction_word(t.transaction_type),
        t.description,
        optional_text(t.reference),
        optional_text(t.counterparty_name),
        optional_text(t.counterparty_account),
    ]
}

/// The records of the transactions, in order.
pub open spec fn transaction_rows(ts: Seq<TransactionView>) -> Seq<Seq<Seq<char>>> {
    ts.map_values(|t: TransactionView| transaction_row(t))
}

/// The records of the layout of named columns that state a statement.
pub open spec fn statement_rows(s: StatementView) -> Seq<Seq<Seq<char>>> {
    seq![statement_header(), statement_row(s), transaction_header()] + transaction_rows(
        s.transactions,
    )
}

/// The error that a value of a field cannot be read.
pub open spec fn invalid_value(field: Seq<char>, value: Seq<char>) -> ErrorView {
    ErrorView::InvalidFieldValue { field, value }
}

/// The amount that a field states: a numeral without a minus sign.
pub open spec fn amount_of(field: Seq<char>) -> Option<nat> {
    match numeral_value(field) {
        Some(v) => if v.negative {
            None
        } else {
            Some(v.magnitude.minor_units as nat)
        },
        None => None,
    }
}

/// The balance indicator that a field states.
pub open spec fn balance_indicator_of(field: Seq<char>) -> Option<BalanceType> {
    if field == "Credit"@ {
        Some(BalanceType::Credit)
    } else if field == "Debit"@ {
        Some(BalanceType::Debit)
    } else {
        None
    }
}

/// The direction that a field states.
pub open spec fn transaction_type_of(field: Seq<char>) -> Option<TransactionType> {
    if field == "Credit"@ {
        Some(TransactionType::Credit)
    } else if field == "Debit"@ {
        Some(TransactionType::Debit)
    } else {
        None
    }
}

/// What the three fields of a balance state: amount, day and indicator.
/// A field that cannot be read is an error with the name of its column.
pub open spec fn balance_of(record: Seq<Seq<char>>, at: int, names: Seq<Seq<char>>) -> Result<
    (nat, TimestampView, BalanceType),
    ErrorView,
> {
    if amount_of(record[at]) is None {
        Err(invalid_value(names[at], record[at]))
    } else if date_of_text(record[at + 1]) is Err {
        Err(invalid_value(names[at + 1], record[at + 1]))
    } else if balance_indicator_of(record[at + 2]) is None {
        Err(invalid_value(names[at + 2], record[at + 2]))
    } else {
        Ok(
            (
                amount_of(record[at])->0,
                date_of_text(record[at + 1])->Ok_0,
                balance_indicator_of(record[at + 2])->0,
            ),
        )
    }
}

/// The transaction that a record states, if it has eight fields with a
/// booking date, an amount and a direction that can be read.
pub open spec fn transaction_of_record(record: Seq<Seq<char>>) -> Option<TransactionView> {
    if record.len() == 8 && date_of_text(record[0]) is Ok && amount_of(record[2]) is Some
        && transaction_type_of(record[3]) is Some {
        Some(
            TransactionView {
                booking_date: date_of_text(record[0])->Ok_0,
                value_date: optional_of(record[1]),
                amount: amount_of(record[2])->0,
                transaction_type: transaction_type_of(record[3])->0,
                description: record[4],
                reference: optional_of(record[5]),
                counterparty_name: optional_of(record[6]),
                counterparty_account: optional_of(record[7]),
            },
        )
    } else {
        None
    }
}

/// The transactions of the records from `i` on, in order; a record that
/// states none is passed over.
pub open spec fn transactions_from(rows: Seq<Seq<Seq<char>>>, i: int) -> Seq<TransactionView>
    decreases rows.len() - i,
{
    if i < 0 || i >= rows.len() {
        Seq::empty()
    } else {
        match transaction_of_record(rows[i]) {
            Some(t) => seq![t] + transactions_from(rows, i + 1),
            None => transactions_from(rows, i + 1),
        }
    }
}

/// The statement that the records of the layout of named columns state.
/// It needs the record of the statement with its eight fields and the
/// header of the transactions.
pub open spec fn statement_of_rows(rows: Seq<Seq<Seq<char>>>) -> Result<StatementView, ErrorView> {
    if rows.len() < 3 {
        Err(csv_error("CSV too short - missing required sections"@))
    } else if rows[1].len() != 8 {
        Err(csv_error("Statement record needs eight fields"@))
    } else if rows[2] != transaction_header() {
        Err(csv_error("Transaction header not found"@))
    } else {
        match balance_of(rows[1], 2, statement_header()) {
            Err(e) => Err(e),
            Ok(opening) => match balance_of(rows[1], 5, statement_header()) {
                Err(e) => Err(e),
                Ok(closing) => Ok(
                    StatementView {
                        account_number: rows[1][0],
                        currency: rows[1][1],
                        opening_balance: opening.0,
                        opening_date: opening.1,
                        opening_indicator: opening.2,
                        closing_balance: closing.0,
                        closing_date: closing.1,
                        closing_indicator: closing.2,
                        transactions: transactions_from(rows, 3),
                    },
                ),
            },
        }
    }
}

/// The names of the columns of the record of the statement.
fn statement_names() -> (r: Vec<Vec<char>>)
    ensures
        texts(r@) == statement_header(),
{
    let mut r: Vec<Vec<char>> = Vec::new();
    r.push(chars_of("account_number"));
    r.push(chars_of("currency"));
    r.push(chars_of("opening_balance"));
    r.push(chars_of("opening_date"));
    r.push(chars_of("opening_indicator"));
    r.push(chars_of("closing_balance"));
    r.push(chars_of("closing_date"));
    r.push(chars_of("closing_indicator"));
    assert(texts(r@) =~= statement_header());
    r
}

/// The names of the columns of the records of the transactions.
fn transaction_names() -> (r: Vec<Vec<char>>)
    ensures
        texts(r@) == transaction_header(),
{
    let mut r: Vec<Vec<char>> = Vec::new();
    r.push(chars_of("booking_date"));
    r.push(chars_of("value_date"));
    r.push(chars_of("amount"));
    r.push(chars_of("transaction_type"));
    r.push(chars_of("description"));
    r.push(chars_of("reference"));
    r.push(chars_of("counterparty_name"));
    r.push(chars_of("counterparty_account"));
    assert(texts(r@) =~= transaction_header());
    r
}

/// Whether two records hold the same fields.
fn same_record(a: &Vec<Vec<char>>, b: &Vec<Vec<char>>) -> (r: bool)
    ensures
        r == (texts(a@) == texts(b@)),
{
    if a.len() != b.len() {
        assert(texts(a@).len() != texts(b@).len());
        return false;
    }
    let mut i: usize = 0;
    while i < a.len()
        invariant
            i <= a.len(),
            a.len() == b.len(),
            forall|k: int| 0 <= k < i ==> texts(a@)[k] == texts(b@)[k],
        decreases a.len() - i,
    {
        if !same_text(a[i].as_slice(), b[i].as_slice()) {
            assert(texts(a@)[i as int] != texts(b@)[i as int]);
            return false;
        }
        i += 1;
    }
    assert(texts(a@) =~= texts(b@));
    true
}

/// Whether the first record is the header of the statement.
pub fn has_simple_header(rows: &Vec<Vec<Vec<char>>>) -> (r: bool)
    ensures
        r == is_simple(cells(rows@)),
{
    if rows.len() == 0 {
        return false;
    }
    assert(cells(rows@)[0] == texts(rows@[0]@));
    same_record(&rows[0], &statement_names())
}

/// The amount that a field states.
fn read_amount(field: &Vec<char>) -> (r: Option<Amount>)
    ensures
        match r {
            Some(a) => amount_of(field@) == Some(a.minor_units as nat),
            None => amount_of(field@) is None,
        },
{
    match read_numeral(field.as_slice()) {
        Some(v) => if v.negative {
            None
        } else {
            Some(v.magnitude)
        },
        None => None,
    }
}

/// Whether a field is the word for a credit or not the word for a debit.
fn read_word(field: &Vec<char>) -> (r: Option<bool>)
    ensures
        match r {
            Some(credit) => if credit {
                field@ == "Credit"@
            } else {
                field@ != "Credit"@ && field@ == "Debit"@
            },
            None => field@ != "Credit"@ && field@ != "Debit"@,
        },
{
    if same_text(field.as_slice(), chars_of("Credit").as_slice()) {
        Some(true)
    } else if same_text(field.as_slice(), chars_of("Debit").as_slice()) {
        Some(false)
    } else {
        None
    }
}

/// The error that the value of a field cannot be read.
fn invalid(name: &Vec<char>, value: &Vec<char>) -> (e: ParseError)
    ensures
        e@ == invalid_value(name@, value@),
{
    ParseError::InvalidFieldValue {
        field: string_of(name.as_slice()),
        value: string_of(value.as_slice()),
    }
}

/// What the three fields of a balance state.
fn read_balance(record: &Vec<Vec<char>>, at: usize) -> (r: Result<
    (Amount, Timestamp, BalanceType),
    ParseError,
>)
    requires
        record.len() == 8,
        at + 2 < 8,
    ensures
        match r {
            Ok(b) => balance_of(texts(record@), at as int, statement_header()) == Ok::<
                (nat, TimestampView, BalanceType),
                ErrorView,
            >((b.0.minor_units as nat, b.1@, b.2)),
            Err(e) => balance_of(texts(record@), at as int, statement_header()) == Err::<
                (nat, TimestampView, BalanceType),
                ErrorView,
            >(e@),
        },
{
    let names = statement_names();
    assert(names.len() == 8) by {
        assert(texts(names@).len() == 8);
    }
    assert(forall|k: int| 0 <= k < 8 ==> texts(record@)[k] == record@[k]@);
    assert(forall|k: int| 0 <= k < 8 ==> texts(names@)[k] == names@[k]@);
    let amount = match read_amount(&record[at]) {
        Some(a) => a,
        None => {
            return Err(invalid(&names[at], &record[at]));
        },
    };
    let date = match parse_date(string_of(record[at + 1].as_slice()).as_str()) {
        Ok(d) => d,
        Err(_) => {
            return Err(invalid(&names[at + 1], &record[at + 1]));
        },
    };
    let indicator = match read_word(&record[at + 2]) {
        Some(true) => BalanceType::Credit,
        Some(false) => BalanceType::Debit,
        None => {
            return Err(invalid(&names[at + 2], &record[at + 2]));
        },
    };
    Ok((amount, date, indicator))
}

/// What a field states of an optional text.
fn read_optional(field: &Vec<char>) -> (r: Option<String>)
    ensures
        crate::model::text_of(r) == optional_of(field@),
{
    if field.len() == 0 {
        None
    } else {
        Some(string_of(field.as_slice()))
    }
}

/// The transaction that a record states, if it states one.
fn read_transaction(record: &Vec<Vec<char>>) -> (r: Option<Transaction>)
    ensures
        match r {
            Some(t) => transaction_of_record(texts(record@)) == Some(t@),
            None => transaction_of_record(texts(record@)) is None,
        },
{
    if record.len() != 8 {
        return None;
    }
    assert(forall|k: int| 0 <= k < 8 ==> texts(record@)[k] == record@[k]@);
    let booking_date = match parse_date(string_of(record[0].as_slice()).as_str()) {
        Ok(d) => d,
        Err(_) => {
            return None;
        },
    };
    let amount = match read_amount(&record[2]) {
        Some(a) => a,
        None => {
            return None;
        },
    };
    let transaction_type = match read_word(&record[3]) {
        Some(true) => TransactionType::Credit,
        Some(false) => TransactionType::Debit,
        None => {
            return None;
        },
    };
    Some(
        Transaction {
            booking_date,
            value_date: read_optional(&record[1]),
            amount,
            transaction_type,
            description: string_of(record[4].as_slice()),
            reference: read_optional(&record[5]),
            counterparty_name: read_optional(&record[6]),
            counterparty_account: read_optional(&record[7]),
        },
    )
}

/// The statement that the records of the layout of named columns state.
pub fn decode_rows(rows: &Vec<Vec<Vec<char>>>) -> (r: Result<CsvStatement, ParseError>)
    ensures
        outcome(r) == statement_of_rows(cells(rows@)),
{
    let ghost all = cells(rows@);
    if rows.len() < 3 {
        return Err(ParseError::CsvError("CSV too short - missing required sections".to_owned()));
    }
    assert(all[1] == texts(rows@[1]@));
    assert(all[2] == texts(rows@[2]@));
    if rows[1].len() != 8 {
        return Err(ParseError::CsvError("Statement record needs eight fields".to_owned()));
    }
    if !same_record(&rows[2], &transaction_names()) {
        return Err(ParseError::CsvError("Transaction header not found".to_owned()));
    }
    let opening = match read_balance(&rows[1], 2) {
        Ok(b) => b,
        Err(e) => {
            return Err(e);
        },
    };
    let closing = match read_balance(&rows[1], 5) {
        Ok(b) => b,
        Err(e) => {
            return Err(e);
        },
    };
    let mut transactions: Vec<Transaction> = Vec::new();
    let mut i: usize = 3;
    assert(transactions_view(transactions@) =~= Seq::<TransactionView>::empty());
    while i < rows.len()
        invariant
            3 <= i <= rows.len(),
            all == cells(rows@),
            transactions_from(all, 3) == transactions_view(transactions@) + transactions_from(
                all,
                i as int,
            ),
        decreases rows.len() - i,
    {
        let ghost before = transactions_view(transactions@);
        assert(all[i as int] == texts(rows@[i as int]@));
        match read_transaction(&rows[i]) {
            Some(t) => {
                transactions.push(t);
                assert(transactions_view(transactions@) =~= before + seq![t@]);
                assert(transactions_from(all, 3) =~= transactions_view(transactions@)
                    + transactions_from(all, i + 1));
            },
            None => {},
        }
        i += 1;
    }
    assert(transactions_from(all, i as int) =~= Seq::<TransactionView>::empty());
    assert(transactions_view(transactions@) + Seq::<TransactionView>::empty()
        =~= transactions_view(transactions@));
    assert(all[1][0] == rows@[1]@[0]@);
    assert(all[1][1] == rows@[1]@[1]@);
    Ok(
        CsvStatement {
            account_number: string_of(rows[1][0].as_slice()),
            currency: string_of(rows[1][1].as_slice()),
            opening_balance: opening.0,
            opening_date: opening.1,
            opening_indicator: opening.2,
            closing_balance: closing.0,
            closing_date: closing.1,
            closing_indicator: closing.2,
            transactions,
        },
    )
}

/// The text of an optional field.
fn write_optional(o: &Option<String>) -> (r: Vec<char>)
    ensures
        r@ == optional_text(crate::model::text_of(*o)),
{
    match o {
        Some(t) => chars_of(t.as_str()),
        None => Vec::new(),
    }
}

/// The word for a credit or for a debit.
fn word(credit: bool) -> (r: Vec<char>)
    ensures
        r@ == if credit {
            "Credit"@
        } else {
            "Debit"@
        },
{
    if credit {
        chars_of("Credit")
    } else {
        chars_of("Debit")
    }
}

/// The record of a transaction.
fn write_transaction(t: &Transaction) -> (r: Vec<Vec<char>>)
    ensures
        texts(r@) == transaction_row(t@),
{
    let mut r: Vec<Vec<char>> = Vec::new();
    r.push(chars_of(t.booking_date.iso_date().as_str()));
    r.push(write_optional(&t.value_date));
    r.push(write_amount(t.amount, '.'));
    r.push(
        word(
            match t.transaction_type {
                TransactionType::Credit => true,
                TransactionType::Debit => false,
            },
        ),
    );
    r.push(chars_of(t.description.as_str()));
    r.push(write_optional(&t.reference));
    r.push(write_optional(&t.counterparty_name));
    r.push(write_optional(&t.counterparty_account));
    assert(texts(r@) =~= transaction_row(t@));
    r
}

/// The records of the layout of named columns that state `statement`.
pub fn rows_of(statement: &CsvStatement) -> (r: Vec<Vec<Vec<char>>>)
    ensures
        cells(r@) == statement_rows(statement@),
{
    let ghost s = statement@;
    let mut rows: Vec<Vec<Vec<char>>> = Vec::new();
    rows.push(statement_names());
    let mut row: Vec<Vec<char>> = Vec::new();
    row.push(chars_of(statement.account_number.as_str()));
    row.push(chars_of(statement.currency.as_str()));
    row.push(write_amount(statement.opening_balance, '.'));
    row.push(chars_of(statement.opening_date.iso_date().as_str()));
    row.push(
        word(
            match statement.opening_indicator {
                BalanceType::Credit => true,
                BalanceType::Debit => false,
            },
        ),
    );
    row.push(write_amount(statement.closing_balance, '.'));
    row.push(chars_of(statement.closing_date.iso_date().as_str()));
    row.push(
        word(
            match statement.closing_indicator {
                BalanceType::Credit => true,
                BalanceType::Debit => false,
            },
        ),
    );
    assert(texts(row@) =~= statement_row(s));
    rows.push(row);
    rows.push(transaction_names());
    let ghost head = seq![statement_header(), statement_row(s), transaction_header()];
    assert(cells(rows@) =~= head);
    let ghost ts = s.transactions;
    let mut i: usize = 0;
    assert(transaction_rows(ts.take(0)) =~= Seq::<Seq<Seq<char>>>::empty());
    assert(head + Seq::<Seq<Seq<char>>>::empty() =~= head);
    while i < statement.transactions.len()
        invariant
            i <= statement.transactions.len(),
            ts == transactions_view(statement.transactions@),
            cells(rows@) == head + transaction_rows(ts.take(i as int)),
        decreases statement.transactions.len() - i,
    {
        let ghost before = cells(rows@);
        rows.push(write_transaction(&statement.transactions[i]));
        i += 1;
        assert(cells(rows@) =~= before.push(transaction_row(ts[i - 1])));
        assert(transaction_rows(ts.take(i as int)) =~= transaction_rows(ts.take(i - 1)).push(
            transaction_row(ts[i - 1]),
        ));
    }
    assert(ts.take(i as int) =~= ts);
    rows
}

} // verus!
