//! The records of the positional layout that state a statement.

use super::constants::{
    BALANCE_SHEET_MARKER, BANK_NAME_FULL, BANK_NAME_SBERBUSINESS, COLUMN_ACCOUNT, COLUMN_BANK,
    COLUMN_CREDIT_AMOUNT, COLUMN_DEBIT_AMOUNT, COLUMN_DOCUMENT_NUMBER, COLUMN_PAYMENT_PURPOSE,
    COLUMN_TRANSACTION_DATE, COLUMN_VO, CREDIT_AMOUNT_COLUMN_INDEX, DATE_COLUMN_INDEX,
    DEBIT_AMOUNT_COLUMN_INDEX, DESCRIPTION_COLUMN_INDEX, FOOTER_CLOSING_BALANCE,
    FOOTER_OPENING_BALANCE, FOOTER_OPERATION_COUNT, LABEL_CREDIT, LABEL_DEBIT, NEGATIVE_SIGN,
    OUTPUT_ROW_COLUMNS, POSITIVE_SIGN, REFERENCE_COLUMN_INDEX, STATEMENT_TITLE,
};
use super::records::cells;
use super::CsvStatement;
use crate::amount::{amount_text, write_amount, Amount};
use crate::date::{Timestamp, TimestampView};
use crate::model::{
    transactions_view, BalanceType, StatementView, Transaction, TransactionType, TransactionView,
};
use crate::text::{append_text, chars_of, decimal_digits, digits_of, texts};
use vstd::prelude::*;

verus! {

/// A record of `n` empty fields.
pub open spec fn blank_row(n: nat) -> Seq<Seq<char>> {
    Seq::new(n, |i: int| Seq::<char>::empty())
}

/// The eight records of the header block: the bank, the title with the
/// account number in the twelfth field, the currency, and the headers of
/// the columns.
pub open spec fn header_rows(account: Seq<char>, currency: Seq<char>) -> Seq<Seq<Seq<char>>> {
    seq![
        blank_row(2).update(1, BANK_NAME_SBERBUSINESS@),
        blank_row(2).update(1, BANK_NAME_FULL@),
        blank_row(2),
        blank_row(12).update(1, STATEMENT_TITLE@).update(11, account),
        blank_row(3).update(2, currency),
        blank_row(1),
        blank_row(21).update(1, COLUMN_TRANSACTION_DATE@).update(4, COLUMN_ACCOUNT@).update(
            9,
            COLUMN_DEBIT_AMOUNT@,
        ).update(13, COLUMN_CREDIT_AMOUNT@).update(14, COLUMN_DOCUMENT_NUMBER@).update(
            16,
            COLUMN_VO@,
        ).update(17, COLUMN_BANK@).update(20, COLUMN_PAYMENT_PURPOSE@),
        blank_row(9).update(4, LABEL_DEBIT@).update(8, LABEL_CREDIT@),
    ]
}

/// The field that holds the amount of a transaction: that of the debit
/// side or that of the credit side.
pub open spec fn amount_column(direction: TransactionType) -> int {
    match direction {
        TransactionType::Debit => DEBIT_AMOUNT_COLUMN_INDEX as int,
        TransactionType::Credit => CREDIT_AMOUNT_COLUMN_INDEX as int,
    }
}

/// The record of a transaction: its day as `DD.MM.YYYY`, its amount with a
/// comma on its side, its reference where it has one, and its description.
pub open spec fn transaction_row(t: TransactionView) -> Seq<Seq<char>> {
    let dated = blank_row(OUTPUT_ROW_COLUMNS as nat).update(
        DATE_COLUMN_INDEX as int,
        t.booking_date.dotted_day(),
    ).update(amount_column(t.transaction_type), amount_text(t.amount, ','));
    let referred = match t.reference {
        Some(r) => dated.update(REFERENCE_COLUMN_INDEX as int, r),
        None => dated,
    };
    referred.update(DESCRIPTION_COLUMN_INDEX as int, t.description)
}

/// The records of the transactions, in order.
pub open spec fn transaction_rows(ts: Seq<TransactionView>) -> Seq<Seq<Seq<char>>> {
    ts.map_values(|t: TransactionView| transaction_row(t))
}

/// The number of transactions in a direction.
pub open spec fn count_of(ts: Seq<TransactionView>, direction: TransactionType) -> nat
    decreases ts.len(),
{
    if ts.len() == 0 {
        0
    } else {
        count_of(ts.drop_last(), direction) + if ts.last().transaction_type == direction {
            1nat
        } else {
            0nat
        }
    }
}

/// The sign before a balance.
pub open spec fn sign_text(indicator: BalanceType) -> Seq<char> {
    match indicator {
        BalanceType::Credit => POSITIVE_SIGN@,
        BalanceType::Debit => NEGATIVE_SIGN@,
    }
}

/// The record of a balance: its label, its amount with its sign in the
/// seventh field, its day in the nineteenth.
pub open spec fn balance_row(
    label: Seq<char>,
    amount: nat,
    indicator: BalanceType,
    date: TimestampView,
) -> Seq<Seq<char>> {
    blank_row(19).update(1, label).update(6, sign_text(indicator) + amount_text(amount, ',')).update(
        18,
        date.dotted_day(),
    )
}

/// The five records of the footer: an empty one, the marker, the counts
/// of debits and credits, and both balances.
pub open spec fn footer_rows(s: StatementView) -> Seq<Seq<Seq<char>>> {
    seq![
        blank_row(1),
        blank_row(2).update(1, BALANCE_SHEET_MARKER@),
        blank_row(10).update(1, FOOTER_OPERATION_COUNT@).update(
            6,
            decimal_digits(count_of(s.transactions, TransactionType::Debit)),
        ).update(9, decimal_digits(count_of(s.transactions, TransactionType::Credit))),
        balance_row(
            FOOTER_OPENING_BALANCE@,
            s.opening_balance,
            s.opening_indicator,
            s.opening_date,
        ),
        balance_row(
            FOOTER_CLOSING_BALANCE@,
            s.closing_balance,
            s.closing_indicator,
            s.closing_date,
        ),
    ]
}

/// The records of the positional layout that state a statement.
pub open spec fn statement_rows(s: StatementView) -> Seq<Seq<Seq<char>>> {
    header_rows(s.account_number, s.currency) + transaction_rows(s.transactions) + footer_rows(s)
}

/// A record of `n` empty fields.
fn blank(n: usize) -> (r: Vec<Vec<char>>)
    ensures
        texts(r@) == blank_row(n as nat),
{
    let mut r: Vec<Vec<char>> = Vec::new();
    let mut i: usize = 0;
    while i < n
        invariant
            i <= n,
            r.len() == i,
            forall|k: int| 0 <= k < i ==> (#[trigger] r@[k])@ == Seq::<char>::empty(),
        decreases n - i,
    {
        r.push(Vec::new());
        i += 1;
    }
    assert(texts(r@) =~= blank_row(n as nat));
    r
}

/// Puts a text in a field of a record.
fn put(row: &mut Vec<Vec<char>>, i: usize, text: Vec<char>)
    requires
        i < old(row).len(),
    ensures
        texts(final(row)@) == texts(old(row)@).update(i as int, text@),
        final(row).len() == old(row).len(),
{
    row[i] = text;
    assert(texts(row@) =~= texts(old(row)@).update(i as int, text@));
}

/// A record of `n` fields with what the pairs say put in.
fn row_with(n: usize, first: usize, text: &str) -> (r: Vec<Vec<char>>)
    requires
        first < n,
    ensures
        texts(r@) == blank_row(n as nat).update(first as int, text@),
        r.len() == n,
{
    let mut r = blank(n);
    assert(r.len() == n) by {
        assert(texts(r@).len() == n);
    }
    put(&mut r, first, chars_of(text));
    r
}

/// The records of the header block.
pub fn write_header(account_number: &str, currency: &str) -> (r: Vec<Vec<Vec<char>>>)
    ensures
        cells(r@) == header_rows(account_number@, currency@),
{
    let mut rows: Vec<Vec<Vec<char>>> = Vec::new();
    rows.push(row_with(2, 1, BANK_NAME_SBERBUSINESS));
    rows.push(row_with(2, 1, BANK_NAME_FULL));
    rows.push(blank(2));
    let mut title = row_with(12, 1, STATEMENT_TITLE);
    put(&mut title, 11, chars_of(account_number));
    rows.push(title);
    rows.push(row_with(3, 2, currency));
    rows.push(blank(1));
    let mut columns = row_with(21, 1, COLUMN_TRANSACTION_DATE);
    put(&mut columns, 4, chars_of(COLUMN_ACCOUNT));
    put(&mut columns, 9, chars_of(COLUMN_DEBIT_AMOUNT));
    put(&mut columns, 13, chars_of(COLUMN_CREDIT_AMOUNT));
    put(&mut columns, 14, chars_of(COLUMN_DOCUMENT_NUMBER));
    put(&mut columns, 16, chars_of(COLUMN_VO));
    put(&mut columns, 17, chars_of(COLUMN_BANK));
    put(&mut columns, 20, chars_of(COLUMN_PAYMENT_PURPOSE));
    rows.push(columns);
    let mut sides = row_with(9, 4, LABEL_DEBIT);
    put(&mut sides, 8, chars_of(LABEL_CREDIT));
    rows.push(sides);
    assert(cells(rows@) =~= header_rows(account_number@, currency@));
    rows
}

/// The record of a transaction.
fn write_transaction(t: &Transaction) -> (r: Vec<Vec<char>>)
    ensures
        texts(r@) == transaction_row(t@),
{
    let mut row = blank(OUTPUT_ROW_COLUMNS);
    assert(row.len() == OUTPUT_ROW_COLUMNS) by {
        assert(texts(row@).len() == OUTPUT_ROW_COLUMNS);
    }
    put(&mut row, DATE_COLUMN_INDEX, chars_of(t.booking_date.dotted_date().as_str()));
    match t.transaction_type {
        TransactionType::Debit => {
            put(&mut row, DEBIT_AMOUNT_COLUMN_INDEX, write_amount(t.amount, ','));
        },
        TransactionType::Credit => {
            put(&mut row, CREDIT_AMOUNT_COLUMN_INDEX, write_amount(t.amount, ','));
        },
    }
    match &t.reference {
        Some(reference) => {
            put(&mut row, REFERENCE_COLUMN_INDEX, chars_of(reference.as_str()));
        },
        None => {},
    }
    put(&mut row, DESCRIPTION_COLUMN_INDEX, chars_of(t.description.as_str()));
    row
}

/// The records of the transactions.
pub fn write_transactions(transactions: &Vec<Transaction>) -> (r: Vec<Vec<Vec<char>>>)
    ensures
        cells(r@) == transaction_rows(transactions_view(transactions@)),
{
    let ghost ts = transactions_view(transactions@);
    let mut rows: Vec<Vec<Vec<char>>> = Vec::new();
    let mut i: usize = 0;
    assert(cells(rows@) =~= transaction_rows(ts.take(0)));
    while i < transactions.len()
        invariant
            i <= transactions.len(),
            ts == transactions_view(transactions@),
            cells(rows@) == transaction_rows(ts.take(i as int)),
        decreases transactions.len() - i,
    {
        let ghost before = cells(rows@);
        let row = write_transaction(&transactions[i]);
        rows.push(row);
        i += 1;
        assert(cells(rows@) =~= before.push(transaction_row(transactions@[i - 1]@)));
        assert(transaction_rows(ts.take(i as int)) =~= transaction_rows(ts.take(i - 1)).push(
            transaction_row(ts[i - 1]),
        ));
    }
    assert(ts.take(i as int) =~= ts);
    rows
}

/// The number of transactions in a direction.
fn count(transactions: &Vec<Transaction>, direction: TransactionType) -> (n: usize)
    ensures
        n == count_of(transactions_view(transactions@), direction),
{
    let ghost ts = transactions_view(transactions@);
    let mut n: usize = 0;
    let mut i: usize = 0;
    assert(ts.take(0) =~= Seq::<TransactionView>::empty());
    while i < transactions.len()
        invariant
            i <= transactions.len(),
            ts == transactions_view(transactions@),
            n == count_of(ts.take(i as int), direction),
            n <= i,
        decreases transactions.len() - i,
    {
        if transactions[i].transaction_type == direction {
            n += 1;
        }
        i += 1;
        assert(ts.take(i as int).drop_last() =~= ts.take(i - 1));
        assert(ts.take(i as int).last() == transactions@[i - 1]@);
    }
    assert(ts.take(i as int) =~= ts);
    n
}

/// The record of a balance.
fn write_balance(label: &str, amount: Amount, indicator: BalanceType, date: &Timestamp) -> (r: Vec<
    Vec<char>,
>)
    ensures
        texts(r@) == balance_row(label@, amount.minor_units as nat, indicator, date@),
{
    let mut row = row_with(19, 1, label);
    let mut signed = chars_of(
        match indicator {
            BalanceType::Credit => POSITIVE_SIGN,
            BalanceType::Debit => NEGATIVE_SIGN,
        },
    );
    append_text(&mut signed, write_amount(amount, ',').as_slice());
    put(&mut row, 6, signed);
    put(&mut row, 18, chars_of(date.dotted_date().as_str()));
    row
}

/// The records of the footer.
pub fn write_footer(statement: &CsvStatement) -> (r: Vec<Vec<Vec<char>>>)
    ensures
        cells(r@) == footer_rows(statement@),
{
    let mut rows: Vec<Vec<Vec<char>>> = Vec::new();
    rows.push(blank(1));
    rows.push(row_with(2, 1, BALANCE_SHEET_MARKER));
    let mut counts = row_with(10, 1, FOOTER_OPERATION_COUNT);
    put(&mut counts, 6, digits_of(count(&statement.transactions, TransactionType::Debit) as u64));
    put(&mut counts, 9, digits_of(count(&statement.transactions, TransactionType::Credit) as u64));
    rows.push(counts);
    rows.push(
        write_balance(
            FOOTER_OPENING_BALANCE,
            statement.opening_balance,
            statement.opening_indicator,
            &statement.opening_date,
        ),
    );
    rows.push(
        write_balance(
            FOOTER_CLOSING_BALANCE,
            statement.closing_balance,
            statement.closing_indicator,
            &statement.closing_date,
        ),
    );
    assert(cells(rows@) =~= footer_rows(statement@));
    rows
}

/// The records of the positional layout that state `statement`.
pub fn rows_of(statement: &CsvStatement) -> (r: Vec<Vec<Vec<char>>>)
    ensures
        cells(r@) == statement_rows(statement@),
{
    let mut rows = write_header(statement.account_number.as_str(), statement.currency.as_str());
    let mut transactions = write_transactions(&statement.transactions);
    let mut footer = write_footer(statement);
    let ghost a = cells(rows@);
    let ghost b = cells(transactions@);
    let ghost c = cells(footer@);
    rows.append(&mut transactions);
    rows.append(&mut footer);
    assert(cells(rows@) =~= a + b + c);
    rows
}

} // verus!
