//! The positional layout: a header block, transaction records found by
//! marker texts, and a footer with the balances.

use super::constants::{
    ACCOUNT_NUMBER_LENGTH, BALANCE_SHEET_MARKER, CODE_DOLLAR, CODE_EURO, CREDIT_AMOUNT_COLUMN_INDEX,
    CURRENCY_EUR, CURRENCY_LINE_INDEX, CURRENCY_RUB, CURRENCY_USD, DATE_COLUMN_INDEX,
    DEBIT_AMOUNT_COLUMN_INDEX, DESCRIPTION_SEARCH_START_INDEX, ERROR_ACCOUNT_NOT_FOUND,
    ERROR_DATE_NOT_FOUND, ERROR_EMPTY_DATE_FIELD, ERROR_MISSING_ACCOUNT,
    ERROR_CLOSING_BALANCE_NOT_FOUND, ERROR_CSV_TOO_SHORT, ERROR_NO_TRANSACTION_AMOUNT,
    ERROR_OPENING_BALANCE_NOT_FOUND, ERROR_TRANSACTION_SECTION_NOT_FOUND,
    CLOSING_BALANCE_LABEL, MAX_ACCOUNT_SEARCH_LINES, MAX_BALANCE_SEARCH_OFFSET, MIN_CSV_LINES,
    OPENING_BALANCE_LABEL,
    MAX_VALID_YEAR, MIN_DATE_STRING_LENGTH, MIN_LINES_FOR_ACCOUNT, MIN_VALID_YEAR,
    REFERENCE_COLUMN_INDEX, RUSSIAN_DOLLAR, RUSSIAN_EURO, RUSSIAN_RUBLE_FULL,
    RUSSIAN_RUBLE_SHORT, RUSSIAN_YEAR_SUFFIX, TRANSACTION_DATE_HEADER,
    TRANSACTION_HEADER_SKIP_LINES,
};
use super::records::cells;
use crate::amount::{numeral_value, read_numeral, Amount, SignedAmount};
use crate::date::{date_of_text, midnight, parse_date, Timestamp, TimestampView};
use crate::error::{outcome, prefixed, ErrorView, ParseError};
use crate::model::{
    transactions_view, BalanceType, StatementView, Transaction, TransactionType, TransactionView,
};
use crate::text::{
    all_digits, char_is_digit, chars_of, contains, digits_value, includes, is_digit, lowercase,
    only_digits, remove_char, replace_char, replaced, slice_of, string_of, texts, to_lowercase,
    trim, trimmed, value_of_digits, without,
};
use vstd::prelude::*;

verus! {

/// The error of this format with the given text.
pub open spec fn csv_error(message: Seq<char>) -> ErrorView {
    ErrorView::CsvError(message)
}

/// The first position at or after `from` whose item meets `pred`, or the
/// length of `s`.
pub open spec fn first_where<A>(s: Seq<A>, pred: spec_fn(A) -> bool, from: int) -> int
    decreases s.len() - from,
{
    if from < 0 || from >= s.len() {
        s.len() as int
    } else if pred(s[from]) {
        from
    } else {
        first_where(s, pred, from + 1)
    }
}

/// A field holds a marker text, whatever the case of its letters.
pub open spec fn field_has(field: Seq<char>, marker: Seq<char>) -> bool {
    contains(lowercase(field), marker)
}

/// A record holds a marker text in one of its fields.
pub open spec fn record_has(record: Seq<Seq<char>>, marker: Seq<char>) -> bool {
    first_where(record, |f: Seq<char>| field_has(f, marker), 0) < record.len()
}

/// A field holds an account number: twenty digits, with white space
/// around them or none.
pub open spec fn is_account_field(field: Seq<char>) -> bool {
    trimmed(field).len() == ACCOUNT_NUMBER_LENGTH && all_digits(trimmed(field))
}

/// A record holds an account number in one of its fields.
pub open spec fn has_account(record: Seq<Seq<char>>) -> bool {
    first_where(record, |f: Seq<char>| is_account_field(f), 0) < record.len()
}

/// The records in which the account number is looked for.
pub open spec fn account_rows(rows: Seq<Seq<Seq<char>>>) -> Seq<Seq<Seq<char>>> {
    if rows.len() < MAX_ACCOUNT_SEARCH_LINES {
        rows
    } else {
        rows.take(MAX_ACCOUNT_SEARCH_LINES as int)
    }
}

/// The account number of a statement: the first field of twenty digits
/// in the first ten records.
pub open spec fn account_of(rows: Seq<Seq<Seq<char>>>) -> Result<Seq<char>, ErrorView> {
    if rows.len() <= MIN_LINES_FOR_ACCOUNT {
        Err(csv_error(ERROR_MISSING_ACCOUNT@))
    } else {
        let searched = account_rows(rows);
        let r = first_where(searched, |r: Seq<Seq<char>>| has_account(r), 0);
        if 0 <= r < searched.len() {
            let record = searched[r];
            Ok(trimmed(record[first_where(record, |f: Seq<char>| is_account_field(f), 0)]))
        } else {
            Err(csv_error(ERROR_ACCOUNT_NOT_FOUND@))
        }
    }
}

/// The words of a field, for the search of a currency: trimmed and in
/// lower case.
pub open spec fn currency_words(field: Seq<char>) -> Seq<char> {
    lowercase(trimmed(field))
}

/// A field names the rouble.
pub open spec fn names_rouble(field: Seq<char>) -> bool {
    contains(currency_words(field), RUSSIAN_RUBLE_FULL@) || contains(
        currency_words(field),
        RUSSIAN_RUBLE_SHORT@,
    )
}

/// A field names the dollar.
pub open spec fn names_dollar(field: Seq<char>) -> bool {
    contains(currency_words(field), RUSSIAN_DOLLAR@) || contains(
        currency_words(field),
        CODE_DOLLAR@,
    )
}

/// A field names the euro.
pub open spec fn names_euro(field: Seq<char>) -> bool {
    contains(currency_words(field), RUSSIAN_EURO@) || contains(currency_words(field), CODE_EURO@)
}

/// A field names a currency.
pub open spec fn names_currency(field: Seq<char>) -> bool {
    names_rouble(field) || names_dollar(field) || names_euro(field)
}

/// The currency of a statement: the one that the first field of the
/// currency record names that names one, the rouble first, then the
/// dollar, then the euro; the rouble where no field names one.
pub open spec fn currency_of(rows: Seq<Seq<Seq<char>>>) -> Seq<char> {
    if rows.len() <= CURRENCY_LINE_INDEX {
        CURRENCY_RUB@
    } else {
        let record = rows[CURRENCY_LINE_INDEX as int];
        let i = first_where(record, |f: Seq<char>| names_currency(f), 0);
        if 0 <= i < record.len() {
            if names_rouble(record[i]) {
                CURRENCY_RUB@
            } else if names_dollar(record[i]) {
                CURRENCY_USD@
            } else {
                CURRENCY_EUR@
            }
        } else {
            CURRENCY_RUB@
        }
    }
}

/// The record of the header of the transactions: the first that holds
/// its marker; the number of records where none does.
pub open spec fn header_row(rows: Seq<Seq<Seq<char>>>) -> int {
    first_where(rows, |r: Seq<Seq<char>>| record_has(r, TRANSACTION_DATE_HEADER@), 0)
}

/// The record at which the transactions start.
pub open spec fn transactions_start(rows: Seq<Seq<Seq<char>>>) -> int {
    header_row(rows) + TRANSACTION_HEADER_SKIP_LINES
}

/// The record at which the footer starts: the first at or behind the
/// start of the transactions that holds the marker of the footer; the
/// number of records where none does.
pub open spec fn footer_start(rows: Seq<Seq<Seq<char>>>) -> int {
    first_where(
        rows,
        |r: Seq<Seq<char>>| record_has(r, BALANCE_SHEET_MARKER@),
        transactions_start(rows),
    )
}

/// Whether a field holds a marker text.
pub fn field_holds(field: &Vec<char>, marker: &str) -> (r: bool)
    ensures
        r == field_has(field@, marker@),
{
    let lower = to_lowercase(string_of(field.as_slice()).as_str());
    includes(chars_of(lower.as_str()).as_slice(), chars_of(marker).as_slice())
}

/// Whether a record holds a marker text in one of its fields.
pub fn record_holds(record: &Vec<Vec<char>>, marker: &str) -> (r: bool)
    ensures
        r == record_has(texts(record@), marker@),
{
    let ghost fields = texts(record@);
    let ghost pred = |f: Seq<char>| field_has(f, marker@);
    let mut i: usize = 0;
    while i < record.len()
        invariant
            i <= record.len(),
            fields == texts(record@),
            pred == (|f: Seq<char>| field_has(f, marker@)),
            first_where(fields, pred, 0) == first_where(fields, pred, i as int),
        decreases record.len() - i,
    {
        assert(fields[i as int] == record@[i as int]@);
        if field_holds(&record[i], marker) {
            assert(pred(fields[i as int]));
            return true;
        }
        assert(!pred(fields[i as int]));
        i += 1;
    }
    false
}

/// The first record at or after `from` that holds a marker text, or the
/// number of records.
pub fn find_record(rows: &Vec<Vec<Vec<char>>>, marker: &str, from: usize) -> (r: usize)
    ensures
        r == first_where(
            cells(rows@),
            |r: Seq<Seq<char>>| record_has(r, marker@),
            from as int,
        ),
        r <= rows.len(),
{
    let ghost all = cells(rows@);
    let ghost pred = |r: Seq<Seq<char>>| record_has(r, marker@);
    if from >= rows.len() {
        return rows.len();
    }
    let mut i: usize = from;
    while i < rows.len()
        invariant
            from <= i <= rows.len(),
            all == cells(rows@),
            pred == (|r: Seq<Seq<char>>| record_has(r, marker@)),
            first_where(all, pred, from as int) == first_where(all, pred, i as int),
        decreases rows.len() - i,
    {
        assert(all[i as int] == texts(rows@[i as int]@));
        if record_holds(&rows[i], marker) {
            assert(pred(all[i as int]));
            return i;
        }
        assert(!pred(all[i as int]));
        i += 1;
    }
    rows.len()
}

/// The position of the first field of a record that holds an account
/// number, or the number of its fields.
fn account_field(record: &Vec<Vec<char>>) -> (r: usize)
    ensures
        r == first_where(texts(record@), |f: Seq<char>| is_account_field(f), 0),
        r <= record.len(),
{
    let ghost fields = texts(record@);
    let ghost pred = |f: Seq<char>| is_account_field(f);
    let mut i: usize = 0;
    while i < record.len()
        invariant
            i <= record.len(),
            fields == texts(record@),
            pred == (|f: Seq<char>| is_account_field(f)),
            first_where(fields, pred, 0) == first_where(fields, pred, i as int),
        decreases record.len() - i,
    {
        assert(fields[i as int] == record@[i as int]@);
        let t = trim(record[i].as_slice());
        if t.len() == ACCOUNT_NUMBER_LENGTH && only_digits(t.as_slice()) {
            assert(pred(fields[i as int]));
            return i;
        }
        assert(!pred(fields[i as int]));
        i += 1;
    }
    record.len()
}

/// The account number of a statement.
pub fn extract_account_number(rows: &Vec<Vec<Vec<char>>>) -> (r: Result<Vec<char>, ParseError>)
    ensures
        match r {
            Ok(a) => account_of(cells(rows@)) == Ok::<Seq<char>, ErrorView>(a@),
            Err(e) => account_of(cells(rows@)) == Err::<Seq<char>, ErrorView>(e@),
        },
{
    if rows.len() <= MIN_LINES_FOR_ACCOUNT {
        return Err(ParseError::CsvError(ERROR_MISSING_ACCOUNT.to_owned()));
    }
    let ghost searched = account_rows(cells(rows@));
    let ghost pred = |r: Seq<Seq<char>>| has_account(r);
    let limit: usize = if rows.len() < MAX_ACCOUNT_SEARCH_LINES {
        rows.len()
    } else {
        MAX_ACCOUNT_SEARCH_LINES
    };
    let mut i: usize = 0;
    while i < limit
        invariant
            i <= limit <= rows.len(),
            rows.len() > MIN_LINES_FOR_ACCOUNT,
            limit == searched.len(),
            searched == account_rows(cells(rows@)),
            pred == (|r: Seq<Seq<char>>| has_account(r)),
            first_where(searched, pred, 0) == first_where(searched, pred, i as int),
        decreases limit - i,
    {
        assert(searched[i as int] == texts(rows@[i as int]@));
        let j = account_field(&rows[i]);
        if j < rows[i].len() {
            assert(pred(searched[i as int]));
            assert(searched[i as int][j as int] == rows@[i as int]@[j as int]@);
            let found = trim(rows[i][j].as_slice());
            return Ok(found);
        }
        assert(!pred(searched[i as int]));
        i += 1;
    }
    Err(ParseError::CsvError(ERROR_ACCOUNT_NOT_FOUND.to_owned()))
}

/// The currency of a statement.
pub fn extract_currency(rows: &Vec<Vec<Vec<char>>>) -> (r: String)
    ensures
        r@ == currency_of(cells(rows@)),
{
    if rows.len() <= CURRENCY_LINE_INDEX {
        return CURRENCY_RUB.to_owned();
    }
    let record = &rows[CURRENCY_LINE_INDEX];
    let ghost fields = texts(record@);
    assert(fields == cells(rows@)[CURRENCY_LINE_INDEX as int]);
    let ghost pred = |f: Seq<char>| names_currency(f);
    let mut i: usize = 0;
    while i < record.len()
        invariant
            i <= record.len(),
            fields == texts(record@),
            rows.len() > CURRENCY_LINE_INDEX,
            fields == cells(rows@)[CURRENCY_LINE_INDEX as int],
            pred == (|f: Seq<char>| names_currency(f)),
            first_where(fields, pred, 0) == first_where(fields, pred, i as int),
        decreases record.len() - i,
    {
        assert(fields[i as int] == record@[i as int]@);
        let words = to_lowercase(string_of(trim(record[i].as_slice()).as_slice()).as_str());
        let w = chars_of(words.as_str());
        if includes(w.as_slice(), chars_of(RUSSIAN_RUBLE_FULL).as_slice()) || includes(
            w.as_slice(),
            chars_of(RUSSIAN_RUBLE_SHORT).as_slice(),
        ) {
            assert(pred(fields[i as int]));
            return CURRENCY_RUB.to_owned();
        }
        if includes(w.as_slice(), chars_of(RUSSIAN_DOLLAR).as_slice()) || includes(
            w.as_slice(),
            chars_of(CODE_DOLLAR).as_slice(),
        ) {
            assert(pred(fields[i as int]));
            return CURRENCY_USD.to_owned();
        }
        if includes(w.as_slice(), chars_of(RUSSIAN_EURO).as_slice()) || includes(
            w.as_slice(),
            chars_of(CODE_EURO).as_slice(),
        ) {
            assert(pred(fields[i as int]));
            return CURRENCY_EUR.to_owned();
        }
        assert(!pred(fields[i as int]));
        i += 1;
    }
    CURRENCY_RUB.to_owned()
}

/// The field of a record at a position, without the white space around
/// it; empty where the record has no such field.
pub open spec fn cell(record: Seq<Seq<char>>, i: int) -> Seq<char> {
    if 0 <= i < record.len() {
        trimmed(record[i])
    } else {
        Seq::empty()
    }
}

/// A numeral as this format reads it: commas stand for points, and blanks
/// are dropped.
pub open spec fn plain_numeral(s: Seq<char>) -> Seq<char> {
    without(replaced(trimmed(s), ',', '.'), ' ')
}

/// The amount that a text states, with its sign. An empty text states
/// nothing.
pub open spec fn signed_amount_of(s: Seq<char>) -> Result<SignedAmount, ErrorView> {
    if trimmed(s).len() == 0 {
        Ok(SignedAmount { negative: false, magnitude: Amount { minor_units: 0 } })
    } else {
        match numeral_value(plain_numeral(s)) {
            Some(v) => Ok(v),
            None => Err(csv_error("Invalid amount: "@ + s)),
        }
    }
}

/// The timestamp that a text states.
pub open spec fn csv_date_of(s: Seq<char>) -> Result<TimestampView, ErrorView> {
    match date_of_text(s) {
        Ok(d) => Ok(d),
        Err(_) => Err(csv_error("Invalid date: "@ + s)),
    }
}

/// The amount is above nothing.
pub open spec fn is_positive(v: SignedAmount) -> bool {
    !v.negative && v.magnitude.minor_units > 0
}

/// The description of a transaction record: the first field from the
/// start of the search on that is not blank.
pub open spec fn description_of(record: Seq<Seq<char>>) -> Seq<char> {
    cell(
        record,
        first_where(
            record,
            |f: Seq<char>| trimmed(f).len() > 0,
            DESCRIPTION_SEARCH_START_INDEX as int,
        ),
    )
}

/// The transaction with the amount and the direction given, and the
/// reference and the description of a record.
pub open spec fn transaction_with(
    record: Seq<Seq<char>>,
    date: TimestampView,
    amount: nat,
    direction: TransactionType,
) -> TransactionView {
    TransactionView {
        booking_date: date,
        value_date: None,
        amount,
        transaction_type: direction,
        description: description_of(record),
        reference: if cell(record, REFERENCE_COLUMN_INDEX as int).len() > 0 {
            Some(cell(record, REFERENCE_COLUMN_INDEX as int))
        } else {
            None
        },
        counterparty_name: None,
        counterparty_account: None,
    }
}

/// The transaction that a record states. It needs a date and an amount
/// above nothing; the amount of the debit side comes before that of the
/// credit side.
pub open spec fn transaction_of_record(record: Seq<Seq<char>>) -> Result<TransactionView, ErrorView> {
    let date_text = cell(record, DATE_COLUMN_INDEX as int);
    if date_text.len() == 0 {
        Err(csv_error(ERROR_EMPTY_DATE_FIELD@))
    } else {
        match csv_date_of(date_text) {
            Err(e) => Err(e),
            Ok(date) => match signed_amount_of(cell(record, DEBIT_AMOUNT_COLUMN_INDEX as int)) {
                Err(e) => Err(e),
                Ok(debit) => match signed_amount_of(
                    cell(record, CREDIT_AMOUNT_COLUMN_INDEX as int),
                ) {
                    Err(e) => Err(e),
                    Ok(credit) => if is_positive(debit) {
                        Ok(
                            transaction_with(
                                record,
                                date,
                                debit.magnitude.minor_units as nat,
                                TransactionType::Debit,
                            ),
                        )
                    } else if is_positive(credit) {
                        Ok(
                            transaction_with(
                                record,
                                date,
                                credit.magnitude.minor_units as nat,
                                TransactionType::Credit,
                            ),
                        )
                    } else {
                        Err(csv_error(ERROR_NO_TRANSACTION_AMOUNT@))
                    },
                },
            },
        }
    }
}

/// Every field of the record is blank.
pub open spec fn is_blank_record(record: Seq<Seq<char>>) -> bool {
    first_where(record, |f: Seq<char>| trimmed(f).len() > 0, 0) >= record.len()
}

/// The transactions of the records from `i` up to `end`, in order. A
/// blank record states none, and neither does one that cannot be read.
pub open spec fn transactions_between(rows: Seq<Seq<Seq<char>>>, i: int, end: int) -> Seq<
    TransactionView,
>
    decreases end - i,
{
    if i < 0 || i >= end || i >= rows.len() {
        Seq::empty()
    } else if !is_blank_record(rows[i]) && transaction_of_record(rows[i]) is Ok {
        seq![transaction_of_record(rows[i])->Ok_0] + transactions_between(rows, i + 1, end)
    } else {
        transactions_between(rows, i + 1, end)
    }
}

/// The field of a record at a position, without the white space around it.
fn cell_of(record: &Vec<Vec<char>>, i: usize) -> (r: Vec<char>)
    ensures
        r@ == cell(texts(record@), i as int),
{
    if i < record.len() {
        assert(texts(record@)[i as int] == record@[i as int]@);
        trim(record[i].as_slice())
    } else {
        Vec::new()
    }
}

/// The amount that `v` states, with its sign.
pub fn read_signed_amount(v: &[char]) -> (r: Result<SignedAmount, ParseError>)
    ensures
        match r {
            Ok(a) => signed_amount_of(v@) == Ok::<SignedAmount, ErrorView>(a),
            Err(e) => signed_amount_of(v@) == Err::<SignedAmount, ErrorView>(e@),
        },
{
    let t = trim(v);
    if t.len() == 0 {
        return Ok(SignedAmount { negative: false, magnitude: Amount { minor_units: 0 } });
    }
    let plain = remove_char(replace_char(t.as_slice(), ',', '.').as_slice(), ' ');
    match read_numeral(plain.as_slice()) {
        Some(value) => Ok(value),
        None => Err(ParseError::CsvError(prefixed("Invalid amount: ", v))),
    }
}

/// The timestamp that `v` states.
pub fn read_date(v: &[char]) -> (r: Result<Timestamp, ParseError>)
    ensures
        outcome(r) == csv_date_of(v@),
{
    match parse_date(string_of(v).as_str()) {
        Ok(d) => Ok(d),
        Err(_) => Err(ParseError::CsvError(prefixed("Invalid date: ", v))),
    }
}

/// The position of the first field at or after `from` that is not blank,
/// or the number of fields.
fn first_filled(record: &Vec<Vec<char>>, from: usize) -> (r: usize)
    ensures
        r == first_where(texts(record@), |f: Seq<char>| trimmed(f).len() > 0, from as int),
        r <= record.len(),
{
    let ghost fields = texts(record@);
    let ghost pred = |f: Seq<char>| trimmed(f).len() > 0;
    if from >= record.len() {
        return record.len();
    }
    let mut i: usize = from;
    while i < record.len()
        invariant
            from <= i <= record.len(),
            fields == texts(record@),
            pred == (|f: Seq<char>| trimmed(f).len() > 0),
            first_where(fields, pred, from as int) == first_where(fields, pred, i as int),
        decreases record.len() - i,
    {
        assert(fields[i as int] == record@[i as int]@);
        if trim(record[i].as_slice()).len() > 0 {
            assert(pred(fields[i as int]));
            return i;
        }
        assert(!pred(fields[i as int]));
        i += 1;
    }
    record.len()
}

/// The transaction that a record states.
pub fn parse_transaction_record(record: &Vec<Vec<char>>) -> (r: Result<Transaction, ParseError>)
    ensures
        outcome(r) == transaction_of_record(texts(record@)),
{
    let date_text = cell_of(record, DATE_COLUMN_INDEX);
    if date_text.len() == 0 {
        return Err(ParseError::CsvError(ERROR_EMPTY_DATE_FIELD.to_owned()));
    }
    let booking_date = match read_date(date_text.as_slice()) {
        Ok(d) => d,
        Err(e) => {
            return Err(e);
        },
    };
    let debit = match read_signed_amount(cell_of(record, DEBIT_AMOUNT_COLUMN_INDEX).as_slice()) {
        Ok(a) => a,
        Err(e) => {
            return Err(e);
        },
    };
    let credit = match read_signed_amount(cell_of(record, CREDIT_AMOUNT_COLUMN_INDEX).as_slice()) {
        Ok(a) => a,
        Err(e) => {
            return Err(e);
        },
    };
    let (amount, transaction_type) = if !debit.negative && debit.magnitude.minor_units > 0 {
        (debit.magnitude, TransactionType::Debit)
    } else if !credit.negative && credit.magnitude.minor_units > 0 {
        (credit.magnitude, TransactionType::Credit)
    } else {
        return Err(ParseError::CsvError(ERROR_NO_TRANSACTION_AMOUNT.to_owned()));
    };
    let reference_text = cell_of(record, REFERENCE_COLUMN_INDEX);
    let reference = if reference_text.len() > 0 {
        Some(string_of(reference_text.as_slice()))
    } else {
        None
    };
    let description = cell_of(record, first_filled(record, DESCRIPTION_SEARCH_START_INDEX));
    Ok(
        Transaction {
            booking_date,
            value_date: None,
            amount,
            transaction_type,
            description: string_of(description.as_slice()),
            reference,
            counterparty_name: None,
            counterparty_account: None,
        },
    )
}

/// The transactions of the records from `start` up to `end`.
pub fn parse_transactions(rows: &Vec<Vec<Vec<char>>>, start: usize, end: usize) -> (r: Vec<
    Transaction,
>)
    ensures
        transactions_view(r@) == transactions_between(cells(rows@), start as int, end as int),
{
    let ghost all = cells(rows@);
    let mut out: Vec<Transaction> = Vec::new();
    assert(transactions_view(out@) =~= Seq::<TransactionView>::empty());
    if start >= end || start >= rows.len() {
        return out;
    }
    let mut i: usize = start;
    while i < end && i < rows.len()
        invariant
            start <= i,
            all == cells(rows@),
            transactions_between(all, start as int, end as int) == transactions_view(out@)
                + transactions_between(all, i as int, end as int),
        decreases rows.len() - i,
    {
        let ghost before = transactions_view(out@);
        assert(all[i as int] == texts(rows@[i as int]@));
        if first_filled(&rows[i], 0) < rows[i].len() {
            match parse_transaction_record(&rows[i]) {
                Ok(t) => {
                    out.push(t);
                    assert(transactions_view(out@) =~= before + seq![t@]);
                    assert(transactions_between(all, start as int, end as int)
                        =~= transactions_view(out@) + transactions_between(all, i + 1, end as int));
                },
                Err(_) => {},
            }
        }
        i += 1;
    }
    assert(transactions_between(all, i as int, end as int) =~= Seq::<TransactionView>::empty());
    assert(transactions_view(out@) + Seq::<TransactionView>::empty() =~= transactions_view(out@));
    out
}

/// The first position from `from` up to `limit` that meets `pred`, or
/// `limit`.
pub open spec fn first_index(limit: int, pred: spec_fn(int) -> bool, from: int) -> int
    decreases limit - from,
{
    if from < 0 || from >= limit {
        limit
    } else if pred(from) {
        from
    } else {
        first_index(limit, pred, from + 1)
    }
}

/// A field states an amount that is not nothing.
pub open spec fn is_amount_field(field: Seq<char>) -> bool {
    signed_amount_of(field) is Ok && signed_amount_of(field)->Ok_0.magnitude.minor_units > 0
}

/// The end of the fields behind position `i` in which an amount is
/// looked for.
pub open spec fn window_end(record: Seq<Seq<char>>, i: int) -> int {
    if i + MAX_BALANCE_SEARCH_OFFSET < record.len() {
        i + MAX_BALANCE_SEARCH_OFFSET
    } else {
        record.len() as int
    }
}

/// The position of the first amount that is not nothing behind position
/// `i`, or the end of the search.
pub open spec fn amount_index(record: Seq<Seq<char>>, i: int) -> int {
    first_index(window_end(record, i), |j: int| is_amount_field(record[j]), i + 1)
}

/// The field at position `i` holds the label, and an amount stands behind
/// it.
pub open spec fn is_label_with_amount(record: Seq<Seq<char>>, label: Seq<char>, i: int) -> bool {
    field_has(record[i], label) && amount_index(record, i) < window_end(record, i)
}

/// The position of the first field that holds the label with an amount
/// behind it, or the number of fields.
pub open spec fn label_index(record: Seq<Seq<char>>, label: Seq<char>) -> int {
    first_index(record.len() as int, |i: int| is_label_with_amount(record, label, i), 0)
}

/// The record states the balance with the given label.
pub open spec fn states_balance(record: Seq<Seq<char>>, label: Seq<char>) -> bool {
    label_index(record, label) < record.len()
}

/// The position of the last digit of a text, or -1.
pub open spec fn last_digit(t: Seq<char>) -> int
    decreases t.len(),
{
    if t.len() == 0 {
        -1
    } else if is_digit(t.last()) {
        t.len() - 1
    } else {
        last_digit(t.drop_last())
    }
}

/// The four characters of a text that end with its last digit.
pub open spec fn year_digits(t: Seq<char>) -> Seq<char> {
    t.subrange(last_digit(t) - 3, last_digit(t) + 1)
}

/// The year that a field with a date in words states: the mark of a year
/// stands in it, it is longer than ten bytes, and the four characters that
/// end with its last digit are a year of this century.
pub open spec fn year_in(field: Seq<char>) -> Option<int> {
    let t = trimmed(field);
    if contains(lowercase(t), RUSSIAN_YEAR_SUFFIX@) && vstd::utf8::encode_utf8(t).len()
        > MIN_DATE_STRING_LENGTH && last_digit(t) >= 3 && all_digits(year_digits(t))
        && MIN_VALID_YEAR <= digits_value(year_digits(t)) <= MAX_VALID_YEAR {
        Some(digits_value(year_digits(t)) as int)
    } else {
        None
    }
}

/// The year that a record states: that of its last field that states one.
pub open spec fn year_of_record(record: Seq<Seq<char>>) -> Option<int>
    decreases record.len(),
{
    if record.len() == 0 {
        None
    } else if year_in(record.last()) is Some {
        year_in(record.last())
    } else {
        year_of_record(record.drop_last())
    }
}

/// What a balance record states.
pub struct FooterBalance {
    pub amount: nat,
    pub date: TimestampView,
    pub indicator: BalanceType,
}

/// The balance with the given label: that of the first record from the
/// footer on that states it. Its amount is the first behind the label that
/// is not nothing; a minus sign makes it a debit. Its day is the first of
/// January of the year that the record states.
pub open spec fn balance_of(
    rows: Seq<Seq<Seq<char>>>,
    label: Seq<char>,
    footer: int,
    missing: Seq<char>,
) -> Result<FooterBalance, ErrorView> {
    let r = first_where(rows, |r: Seq<Seq<char>>| states_balance(r, label), footer);
    if 0 <= r < rows.len() {
        let record = rows[r];
        let v = signed_amount_of(record[amount_index(record, label_index(record, label))])->Ok_0;
        match year_of_record(record) {
            None => Err(csv_error(ERROR_DATE_NOT_FOUND@)),
            Some(year) => Ok(
                FooterBalance {
                    amount: v.magnitude.minor_units as nat,
                    date: midnight(year, 1, 1),
                    indicator: if v.negative {
                        BalanceType::Debit
                    } else {
                        BalanceType::Credit
                    },
                },
            ),
        }
    } else {
        Err(csv_error(missing))
    }
}

/// The position of the first amount that is not nothing behind position
/// `i`, with that amount; or the end of the search.
fn find_amount(record: &Vec<Vec<char>>, i: usize) -> (r: (usize, SignedAmount))
    requires
        i < record.len(),
    ensures
        r.0 == amount_index(texts(record@), i as int),
        r.0 <= window_end(texts(record@), i as int),
        r.0 < window_end(texts(record@), i as int) ==> signed_amount_of(
            texts(record@)[r.0 as int],
        ) == Ok::<SignedAmount, ErrorView>(r.1),
{
    let ghost fields = texts(record@);
    let ghost pred = |j: int| is_amount_field(fields[j]);
    let end: usize = if record.len() - i > MAX_BALANCE_SEARCH_OFFSET {
        i + MAX_BALANCE_SEARCH_OFFSET
    } else {
        record.len()
    };
    let nothing = SignedAmount { negative: false, magnitude: Amount { minor_units: 0 } };
    let mut j: usize = i + 1;
    if j >= end {
        return (end, nothing);
    }
    while j < end
        invariant
            i < j <= end <= record.len(),
            end == window_end(fields, i as int),
            fields == texts(record@),
            pred == (|j: int| is_amount_field(fields[j])),
            first_index(end as int, pred, i + 1) == first_index(end as int, pred, j as int),
        decreases end - j,
    {
        assert(fields[j as int] == record@[j as int]@);
        match read_signed_amount(record[j].as_slice()) {
            Ok(amount) => {
                if amount.magnitude.minor_units > 0 {
                    assert(pred(j as int));
                    return (j, amount);
                }
            },
            Err(_) => {},
        }
        assert(!pred(j as int));
        j += 1;
    }
    (end, nothing)
}

/// The balance that a record states under a label: the position of the
/// label, and the amount behind it.
fn find_balance(record: &Vec<Vec<char>>, label: &str) -> (r: Option<(usize, SignedAmount)>)
    ensures
        match r {
            Some(found) => {
                &&& found.0 == label_index(texts(record@), label@)
                &&& found.0 < record.len()
                &&& signed_amount_of(
                    texts(record@)[amount_index(texts(record@), found.0 as int)],
                ) == Ok::<SignedAmount, ErrorView>(found.1)
            },
            None => !states_balance(texts(record@), label@),
        },
{
    let ghost fields = texts(record@);
    let ghost pred = |i: int| is_label_with_amount(fields, label@, i);
    let mut i: usize = 0;
    while i < record.len()
        invariant
            i <= record.len(),
            fields == texts(record@),
            pred == (|i: int| is_label_with_amount(fields, label@, i)),
            first_index(record.len() as int, pred, 0) == first_index(
                record.len() as int,
                pred,
                i as int,
            ),
        decreases record.len() - i,
    {
        assert(fields[i as int] == record@[i as int]@);
        if field_holds(&record[i], label) {
            let (j, amount) = find_amount(record, i);
            let end: usize = if record.len() - i > MAX_BALANCE_SEARCH_OFFSET {
                i + MAX_BALANCE_SEARCH_OFFSET
            } else {
                record.len()
            };
            if j < end {
                assert(pred(i as int));
                return Some((i, amount));
            }
        }
        assert(!pred(i as int));
        i += 1;
    }
    None
}

proof fn lemma_last_digit_bounds(t: Seq<char>)
    ensures
        -1 <= last_digit(t) < t.len(),
    decreases t.len(),
{
    if t.len() > 0 && !is_digit(t.last()) {
        lemma_last_digit_bounds(t.drop_last());
    }
}

/// The position of the last digit of `t`, if it has one.
fn find_last_digit(t: &Vec<char>) -> (r: Option<usize>)
    ensures
        match r {
            Some(p) => p == last_digit(t@) && p < t.len(),
            None => last_digit(t@) == -1,
        },
{
    let mut n: usize = t.len();
    assert(t@.take(n as int) =~= t@);
    while n > 0
        invariant
            n <= t.len(),
            last_digit(t@) == last_digit(t@.take(n as int)),
        decreases n,
    {
        assert(t@.take(n as int).last() == t@[n - 1]);
        assert(t@.take(n as int).drop_last() =~= t@.take(n - 1));
        if char_is_digit(t[n - 1]) {
            return Some(n - 1);
        }
        n -= 1;
    }
    None
}

/// The year that a field with a date in words states.
fn read_year(field: &Vec<char>) -> (r: Option<u32>)
    ensures
        match r {
            Some(y) => year_in(field@) == Some(y as int) && MIN_VALID_YEAR <= y <= MAX_VALID_YEAR,
            None => year_in(field@) is None,
        },
{
    let t = trim(field.as_slice());
    let text = string_of(t.as_slice());
    let lower = to_lowercase(text.as_str());
    if !includes(chars_of(lower.as_str()).as_slice(), chars_of(RUSSIAN_YEAR_SUFFIX).as_slice()) {
        return None;
    }
    if text.as_str().as_bytes().len() <= MIN_DATE_STRING_LENGTH {
        return None;
    }
    let p = match find_last_digit(&t) {
        Some(p) => p,
        None => {
            return None;
        },
    };
    if p < 3 {
        return None;
    }
    let digits = slice_of(t.as_slice(), p - 3, p + 1);
    if !only_digits(digits.as_slice()) {
        return None;
    }
    match value_of_digits(digits.as_slice()) {
        Some(y) => {
            if y >= MIN_VALID_YEAR as u64 && y <= MAX_VALID_YEAR as u64 {
                Some(y as u32)
            } else {
                None
            }
        },
        None => None,
    }
}

/// The year that a record states.
fn read_record_year(record: &Vec<Vec<char>>) -> (r: Option<u32>)
    ensures
        match r {
            Some(y) => year_of_record(texts(record@)) == Some(y as int) && MIN_VALID_YEAR <= y
                <= MAX_VALID_YEAR,
            None => year_of_record(texts(record@)) is None,
        },
{
    let ghost fields = texts(record@);
    let mut n: usize = record.len();
    assert(fields.take(n as int) =~= fields);
    while n > 0
        invariant
            n <= record.len(),
            fields == texts(record@),
            year_of_record(fields) == year_of_record(fields.take(n as int)),
        decreases n,
    {
        assert(fields.take(n as int).last() == record@[n - 1]@);
        assert(fields.take(n as int).drop_last() =~= fields.take(n - 1));
        match read_year(&record[n - 1]) {
            Some(y) => {
                return Some(y);
            },
            None => {},
        }
        n -= 1;
    }
    None
}

/// The balance with the given label.
pub fn extract_balance(rows: &Vec<Vec<Vec<char>>>, label: &str, footer: usize, missing: &str) -> (r:
    Result<(Amount, Timestamp, BalanceType), ParseError>)
    ensures
        match r {
            Ok(b) => balance_of(cells(rows@), label@, footer as int, missing@) == Ok::<
                FooterBalance,
                ErrorView,
            >(FooterBalance { amount: b.0.minor_units as nat, date: b.1@, indicator: b.2 }),
            Err(e) => balance_of(cells(rows@), label@, footer as int, missing@) == Err::<
                FooterBalance,
                ErrorView,
            >(e@),
        },
{
    let ghost all = cells(rows@);
    let ghost pred = |r: Seq<Seq<char>>| states_balance(r, label@);
    if footer >= rows.len() {
        return Err(ParseError::CsvError(missing.to_owned()));
    }
    let mut k: usize = footer;
    while k < rows.len()
        invariant
            footer <= k <= rows.len(),
            all == cells(rows@),
            pred == (|r: Seq<Seq<char>>| states_balance(r, label@)),
            first_where(all, pred, footer as int) == first_where(all, pred, k as int),
        decreases rows.len() - k,
    {
        assert(all[k as int] == texts(rows@[k as int]@));
        match find_balance(&rows[k], label) {
            Some(found) => {
                assert(pred(all[k as int]));
                let value = found.1;
                let year = match read_record_year(&rows[k]) {
                    Some(y) => y,
                    None => {
                        return Err(ParseError::CsvError(ERROR_DATE_NOT_FOUND.to_owned()));
                    },
                };
                let date = match Timestamp::from_ymd(year as i32, 1, 1) {
                    Some(d) => d,
                    None => {
                        return Err(ParseError::CsvError(ERROR_DATE_NOT_FOUND.to_owned()));
                    },
                };
                let indicator = if value.negative {
                    BalanceType::Debit
                } else {
                    BalanceType::Credit
                };
                return Ok((value.magnitude, date, indicator));
            },
            None => {
                assert(!pred(all[k as int]));
            },
        }
        k += 1;
    }
    Err(ParseError::CsvError(missing.to_owned()))
}

/// The statement that the records of the positional layout state. It
/// needs twelve records, an account number, the header of the transactions
/// and both balances.
pub open spec fn statement_of_rows(rows: Seq<Seq<Seq<char>>>) -> Result<StatementView, ErrorView> {
    if rows.len() < MIN_CSV_LINES {
        Err(csv_error(ERROR_CSV_TOO_SHORT@))
    } else {
        match account_of(rows) {
            Err(e) => Err(e),
            Ok(account) => if header_row(rows) >= rows.len() {
                Err(csv_error(ERROR_TRANSACTION_SECTION_NOT_FOUND@))
            } else {
                match balance_of(
                    rows,
                    OPENING_BALANCE_LABEL@,
                    footer_start(rows),
                    ERROR_OPENING_BALANCE_NOT_FOUND@,
                ) {
                    Err(e) => Err(e),
                    Ok(opening) => match balance_of(
                        rows,
                        CLOSING_BALANCE_LABEL@,
                        footer_start(rows),
                        ERROR_CLOSING_BALANCE_NOT_FOUND@,
                    ) {
                        Err(e) => Err(e),
                        Ok(closing) => Ok(
                            StatementView {
                                account_number: account,
                                currency: currency_of(rows),
                                opening_balance: opening.amount,
                                opening_date: opening.date,
                                opening_indicator: opening.indicator,
                                closing_balance: closing.amount,
                                closing_date: closing.date,
                                closing_indicator: closing.indicator,
                                transactions: transactions_between(
                                    rows,
                                    transactions_start(rows),
                                    footer_start(rows),
                                ),
                            },
                        ),
                    },
                }
            },
        }
    }
}

/// The statement that the records of the positional layout state.
pub fn decode_rows(rows: &Vec<Vec<Vec<char>>>) -> (r: Result<super::CsvStatement, ParseError>)
    ensures
        outcome(r) == statement_of_rows(cells(rows@)),
{
    if rows.len() < MIN_CSV_LINES {
        return Err(ParseError::CsvError(ERROR_CSV_TOO_SHORT.to_owned()));
    }
    let account = match extract_account_number(rows) {
        Ok(a) => a,
        Err(e) => {
            return Err(e);
        },
    };
    let currency = extract_currency(rows);
    let header = find_record(rows, TRANSACTION_DATE_HEADER, 0);
    if header >= rows.len() {
        return Err(ParseError::CsvError(ERROR_TRANSACTION_SECTION_NOT_FOUND.to_owned()));
    }
    let footer;
    let transactions;
    if rows.len() - header <= TRANSACTION_HEADER_SKIP_LINES {
        footer = rows.len();
        transactions = Vec::new();
        assert(transactions_view(transactions@) =~= Seq::<TransactionView>::empty());
    } else {
        let start = header + TRANSACTION_HEADER_SKIP_LINES;
        footer = find_record(rows, BALANCE_SHEET_MARKER, start);
        transactions = parse_transactions(rows, start, footer);
    }
    let opening = match extract_balance(
        rows,
        OPENING_BALANCE_LABEL,
        footer,
        ERROR_OPENING_BALANCE_NOT_FOUND,
    ) {
        Ok(b) => b,
        Err(e) => {
            return Err(e);
        },
    };
    let closing = match extract_balance(
        rows,
        CLOSING_BALANCE_LABEL,
        footer,
        ERROR_CLOSING_BALANCE_NOT_FOUND,
    ) {
        Ok(b) => b,
        Err(e) => {
            return Err(e);
        },
    };
    Ok(
        super::CsvStatement {
            account_number: string_of(account.as_slice()),
            currency,
            opening_balance: opening.0,
            opening_date: opening.1,
            opening_indicator: opening.2,
            closing_balance: closing.0,
            closing_date: closing.1,
            closing_indicator: closing.2,
            transactions,
        },
    )
}

} // verus!
