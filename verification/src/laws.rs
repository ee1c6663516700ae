//! What holds of the formats together.

use crate::amount::{amount_text, lemma_amount_text_reads_back};
use crate::camt053_statement::elements::ElementName;
use crate::camt053_statement::parser::{statement_of_events, ParserView};
use crate::camt053_statement::scratch::{BalanceScratchView, EntryScratchView};
use crate::camt053_statement::round_trip::{
    fold, is_document_statement, lemma_events_round_trip, lemma_other_balance_changes_nothing,
    lemma_partial_entry_changes_nothing, lemma_statement_is_built_from_fold,
};
use crate::camt053_statement::writer::wrapped;
use crate::camt053_statement::xml::{are_writable, XmlEventView};
use crate::camt053_statement::writer::statement_events;
use crate::camt053_statement::Camt053Statement;
use crate::csv_statement::simple;
use crate::csv_statement::CsvStatement;
use crate::date::lemma_day_reads_back;
use crate::error::ErrorView;
use crate::model::{StatementView, TransactionType, TransactionView};
use crate::mt940_statement::{
    amount_of, amount_run, balance_of_line, balance_text, is_amount_char, reference_text,
    transaction_letter, transaction_of_line, BalanceView, Mt940Statement,
};
use crate::text::{
    decimal_digits, digit_char, digit_value, is_digit, is_space, lemma_decimal_digits, replaced,
    trimmed, two_digits, without,
};
use crate::date::TimestampView;
use crate::model::BalanceType;
use crate::mt940_round_trip::{is_message_statement, statement_as_read};
use vstd::prelude::*;
use vstd::std_specs::convert::FromSpec;

verus! {

/// A statement turned into a statement of another format has the same
/// value, and turned back it is the statement that it was.
pub proof fn lemma_conversion_is_identity(m: Mt940Statement, c: Camt053Statement, s: CsvStatement)
    ensures
        Camt053Statement::from_spec(m)@ == m@,
        CsvStatement::from_spec(m)@ == m@,
        Mt940Statement::from_spec(c)@ == c@,
        CsvStatement::from_spec(c)@ == c@,
        Mt940Statement::from_spec(s)@ == s@,
        Camt053Statement::from_spec(s)@ == s@,
        Mt940Statement::from_spec(Camt053Statement::from_spec(m)) == m,
        Mt940Statement::from_spec(CsvStatement::from_spec(m)) == m,
        Camt053Statement::from_spec(Mt940Statement::from_spec(c)) == c,
        Camt053Statement::from_spec(CsvStatement::from_spec(c)) == c,
        CsvStatement::from_spec(Mt940Statement::from_spec(s)) == s,
        CsvStatement::from_spec(Camt053Statement::from_spec(s)) == s,
{
}

/// No format reads a statement from an empty stream of bytes.
pub proof fn lemma_empty_input_is_rejected()
    ensures
        crate::csv_statement::statement_of_bytes(Seq::empty()) is Err,
        crate::mt940_statement::statement_of_bytes(Seq::empty()) is Err,
        crate::camt053_statement::statement_of_bytes(Seq::empty()) is Err,
{
    let none = Seq::<u8>::empty();
    assert(vstd::utf8::valid_utf8(none));
    assert(vstd::utf8::decode_utf8(none) =~= Seq::<char>::empty());
    assert(crate::text::trimmed(Seq::<char>::empty()) =~= Seq::<char>::empty());
}

/// Every amount of a statement is a magnitude.
pub open spec fn amounts_are_magnitudes(s: StatementView) -> bool {
    &&& s.opening_balance >= 0
    &&& s.closing_balance >= 0
    &&& forall|i: int| 0 <= i < s.transactions.len() ==> (#[trigger] s.transactions[i]).amount >= 0
}

/// Whatever signs the source wrote, the amounts of a statement that was
/// read are magnitudes: the direction of each is told by its indicator
/// alone.
pub proof fn lemma_amounts_are_not_negative(input: Seq<u8>)
    ensures
        crate::csv_statement::statement_of_bytes(input) matches Ok(s) ==> amounts_are_magnitudes(s),
        crate::mt940_statement::statement_of_bytes(input) matches Ok(s) ==> amounts_are_magnitudes(
            s,
        ),
        crate::camt053_statement::statement_of_bytes(input) matches Ok(s)
            ==> amounts_are_magnitudes(s),
{
}

/// An optional text that is there is not empty.
pub open spec fn is_filled(o: Option<Seq<char>>) -> bool {
    o is Some ==> o->0.len() > 0
}

/// A transaction that the layout of named columns can carry: its amount
/// fits, and none of its optional texts is empty.
pub open spec fn is_plain_transaction(t: TransactionView) -> bool {
    &&& t.amount <= u64::MAX
    &&& t.booking_date.wf()
    &&& is_filled(t.value_date)
    &&& is_filled(t.reference)
    &&& is_filled(t.counterparty_name)
    &&& is_filled(t.counterparty_account)
}

/// A statement that the layout of named columns can carry.
pub open spec fn is_plain_statement(s: StatementView) -> bool {
    &&& s.opening_balance <= u64::MAX
    &&& s.closing_balance <= u64::MAX
    &&& s.opening_date.wf()
    &&& s.closing_date.wf()
    &&& forall|i: int|
        0 <= i < s.transactions.len() ==> is_plain_transaction(#[trigger] s.transactions[i])
}

proof fn lemma_words_differ()
    ensures
        "Credit"@ != "Debit"@,
{
    reveal_strlit("Credit");
    reveal_strlit("Debit");
    assert("Credit"@.len() != "Debit"@.len());
}

proof fn lemma_plain_transaction_reads_back(t: TransactionView)
    requires
        is_plain_transaction(t),
    ensures
        simple::transaction_of_record(simple::transaction_row(t)) == Some(t.by_day()),
{
    lemma_amount_text_reads_back(t.amount);
    lemma_day_reads_back(t.booking_date);
    lemma_words_differ();
}

proof fn lemma_plain_transactions_read_back(s: StatementView, k: int)
    requires
        is_plain_statement(s),
        0 <= k <= s.transactions.len(),
    ensures
        simple::transactions_from(simple::statement_rows(s), 3 + k) == s.by_day().transactions.skip(k),
    decreases s.transactions.len() - k,
{
    let rows = simple::statement_rows(s);
    let by_day = s.by_day().transactions;
    if k == s.transactions.len() {
        assert(by_day.skip(k) =~= Seq::<TransactionView>::empty());
    } else {
        lemma_plain_transactions_read_back(s, k + 1);
        assert(rows[3 + k] == simple::transaction_row(s.transactions[k]));
        lemma_plain_transaction_reads_back(s.transactions[k]);
        assert(by_day.skip(k) =~= seq![by_day[k]] + by_day.skip(k + 1));
    }
}

/// The records of named columns that state a statement are read back as
/// that statement, with its dates cut to the day.
pub proof fn lemma_named_columns_round_trip(s: StatementView)
    requires
        is_plain_statement(s),
    ensures
        simple::is_simple(simple::statement_rows(s)),
        crate::csv_statement::statement_of_records(simple::statement_rows(s)) == Ok::<
            StatementView,
            ErrorView,
        >(s.by_day()),
{
    let rows = simple::statement_rows(s);
    lemma_amount_text_reads_back(s.opening_balance);
    lemma_amount_text_reads_back(s.closing_balance);
    lemma_day_reads_back(s.opening_date);
    lemma_day_reads_back(s.closing_date);
    lemma_words_differ();
    lemma_plain_transactions_read_back(s, 0);
    assert(s.by_day().transactions.skip(0) =~= s.by_day().transactions);
    assert(rows[0] == simple::statement_header());
    assert(rows[1] == simple::statement_row(s));
    assert(rows[2] == simple::transaction_header());
}

/// The events that state a statement as a CAMT.053 document are read back
/// as that statement, with its dates cut to the day. This holds of the
/// events; what the XML library makes of them in between is not part of it.
pub proof fn lemma_document_round_trip(s: StatementView)
    requires
        is_document_statement(s),
    ensures
        statement_of_events(statement_events(s)) == Ok::<StatementView, ErrorView>(s.by_day()),
{
    lemma_events_round_trip(s);
}

/// A balance of a type other than `OPBD` and `CLBD`, or without a type,
/// is read and dropped: when its element ends, nothing of the statement has
/// changed, and nothing is left of the balance.
pub proof fn lemma_other_balances_are_dropped(state: ParserView)
    requires
        state.path.len() > 0,
        state.path.last() == ElementName::Balance,
        state.balance_scratch.balance_type matches Some(code) ==> crate::text::ascii_lowercase(code)
            != "opbd"@ && crate::text::ascii_lowercase(code) != "clbd"@,
    ensures
        state.ended() == (ParserView {
            path: state.path.drop_last(),
            balance_scratch: BalanceScratchView::empty(),
            ..state
        }),
        state.ended().built() == (ParserView { path: state.path.drop_last(), ..state }).built(),
{
}

/// The reference of a transaction is the identifier of the transaction
/// where the entry has one, whatever the reference of the entry is.
pub proof fn lemma_transaction_id_comes_first(entry: EntryScratchView)
    requires
        entry.tx_id is Some,
        entry.transaction() is Some,
    ensures
        entry.transaction()->0.reference == entry.tx_id,
{
}

/// An entry without an amount, an indicator or a booking date makes no
/// transaction: when its element ends, the transactions read before it are
/// as they were, and nothing is left of the entry.
pub proof fn lemma_partial_entry_is_left_out(state: ParserView)
    requires
        state.path.len() > 0,
        state.path.last() == ElementName::Entry,
        state.entry_scratch matches Some(entry) && (entry.amount is None || entry.indicator is None
            || entry.booking_date is None),
    ensures
        state.ended() == (ParserView {
            path: state.path.drop_last(),
            entry_scratch: None,
            ..state
        }),
{
}

/// The other party of a transaction is the debtor of a credit and the
/// creditor of a debit, whatever else was read; the party of the other side
/// is taken only where that one was not read.
pub proof fn lemma_other_party_by_direction(entry: EntryScratchView)
    requires
        entry.transaction() is Some,
    ensures
        ({
            let t = entry.transaction()->0;
            &&& t.transaction_type == TransactionType::Credit ==> {
                &&& entry.debtor_name is Some ==> t.counterparty_name == entry.debtor_name
                &&& entry.debtor_name is None ==> t.counterparty_name == entry.creditor_name
                &&& entry.debtor_account is Some ==> t.counterparty_account
                    == entry.debtor_account
                &&& entry.debtor_account is None ==> t.counterparty_account
                    == entry.creditor_account
            }
            &&& t.transaction_type == TransactionType::Debit ==> {
                &&& entry.creditor_name is Some ==> t.counterparty_name == entry.creditor_name
                &&& entry.creditor_name is None ==> t.counterparty_name == entry.debtor_name
                &&& entry.creditor_account is Some ==> t.counterparty_account
                    == entry.creditor_account
                &&& entry.creditor_account is None ==> t.counterparty_account
                    == entry.debtor_account
            }
        }),
{
}

/// The reference of the creditor is the description of a transaction only
/// where no narrative was read, whether it came before the narrative or
/// behind it.
pub proof fn lemma_creditor_reference_is_a_fallback(
    entry: EntryScratchView,
    reference: Seq<char>,
    text: Seq<char>,
)
    ensures
        entry.with_fallback_description(reference).with_description(text) == entry.with_description(
            text,
        ).with_fallback_description(reference),
        crate::text::trimmed(entry.description).len() > 0 ==> entry.with_fallback_description(
            reference,
        ).narrative() == crate::text::trimmed(entry.description),
        entry.description.len() == 0 && entry.creditor_reference is None
            ==> entry.with_fallback_description(reference).narrative() == crate::text::trimmed(
            reference,
        ),
        entry.description.len() == 0 && entry.creditor_reference is None ==> entry.narrative().len()
            == 0,
{
    if entry.description.len() == 0 {
        assert(crate::text::trimmed(entry.description) =~= Seq::<char>::empty());
    }
}

/// Over a whole document: an entry whose element closes without an amount,
/// an indicator or a booking date is read as if it were not there. What
/// stands before it and behind it is read as it would be without it, so the
/// entries that are whole give their transactions and no error arises from
/// the one that is not.
pub proof fn lemma_partial_entry_over_a_document(
    before: Seq<XmlEventView>,
    inner: Seq<XmlEventView>,
    after: Seq<XmlEventView>,
    state: ParserView,
    read: EntryScratchView,
)
    requires
        fold(ParserView::initial(), before) == Ok::<ParserView, ErrorView>(state),
        state.entry_scratch is None,
        fold(
            ParserView {
                path: state.path.push(ElementName::Entry),
                entry_scratch: Some(EntryScratchView::empty()),
                ..state
            },
            inner,
        ) == Ok::<ParserView, ErrorView>(
            ParserView {
                path: state.path.push(ElementName::Entry),
                entry_scratch: Some(read),
                ..state
            },
        ),
        read.amount is None || read.indicator is None || read.booking_date is None,
    ensures
        fold(ParserView::initial(), before + wrapped(ElementName::Entry, inner) + after) == fold(
            ParserView::initial(),
            before + after,
        ),
{
    lemma_partial_entry_changes_nothing(ParserView::initial(), before, inner, after, state, read);
}

/// Over a whole document: a balance whose element closes with a type other
/// than `OPBD` and `CLBD`, or with none, is read as if it were not there.
pub proof fn lemma_other_balance_over_a_document(
    before: Seq<XmlEventView>,
    inner: Seq<XmlEventView>,
    after: Seq<XmlEventView>,
    state: ParserView,
    read: BalanceScratchView,
)
    requires
        fold(ParserView::initial(), before) == Ok::<ParserView, ErrorView>(state),
        state.balance_scratch == BalanceScratchView::empty(),
        fold(ParserView { path: state.path.push(ElementName::Balance), ..state }, inner) == Ok::<
            ParserView,
            ErrorView,
        >(
            ParserView {
                path: state.path.push(ElementName::Balance),
                balance_scratch: read,
                ..state
            },
        ),
        read.balance_type matches Some(code) ==> crate::text::ascii_lowercase(code) != "opbd"@
            && crate::text::ascii_lowercase(code) != "clbd"@,
    ensures
        fold(ParserView::initial(), before + wrapped(ElementName::Balance, inner) + after) == fold(
            ParserView::initial(),
            before + after,
        ),
{
    lemma_other_balance_changes_nothing(ParserView::initial(), before, inner, after, state, read);
}

/// The statement of a sequence of declarations, tags and texts is built
/// from the state after all of them: what the two laws above say of the
/// state, they say of the statement.
pub proof fn lemma_statement_of_a_document(events: Seq<XmlEventView>)
    requires
        are_writable(events),
    ensures
        statement_of_events(events) == match fold(ParserView::initial(), events) {
            Err(e) => Err::<StatementView, ErrorView>(e),
            Ok(state) => state.built(),
        },
{
    lemma_statement_is_built_from_fold(events);
}

/// A day that two digits of a year tell: one of the years 1950 to 2049.
pub open spec fn is_message_day(d: TimestampView) -> bool {
    d.wf() && 1950 <= d.year <= 2049
}

pub(crate) proof fn lemma_digit(d: nat)
    requires
        d < 10,
    ensures
        is_digit(digit_char(d)),
        digit_value(digit_char(d)) == d,
        !is_space(digit_char(d)),
        is_amount_char(digit_char(d)),
        digit_char(d) != ',',
        digit_char(d) != '.',
        digit_char(d) != ' ',
{
}

pub(crate) proof fn lemma_without_absent(s: Seq<char>, c: char)
    requires
        forall|i: int| 0 <= i < s.len() ==> s[i] != c,
    ensures
        without(s, c) == s,
    decreases s.len(),
{
    if s.len() > 0 {
        lemma_without_absent(s.drop_last(), c);
        assert(s.drop_last().push(s.last()) =~= s);
    }
}

/// An amount written with a comma is read as the amount that it was.
pub(crate) proof fn lemma_comma_amount_is_read(n: nat)
    requires
        n <= u64::MAX,
    ensures
        amount_of(amount_text(n, ',')) == Ok::<nat, ErrorView>(n),
        amount_text(n, ',').len() >= 4,
        is_digit(amount_text(n, ',')[0]),
        is_digit(amount_text(n, ',').last()),
        forall|i: int|
            0 <= i < amount_text(n, ',').len() ==> is_amount_char(
                #[trigger] amount_text(n, ',')[i],
            ),
{
    let whole = decimal_digits(n / 100);
    let cents = two_digits(n % 100);
    let s = amount_text(n, ',');
    let p = amount_text(n, '.');
    lemma_decimal_digits(n / 100);
    lemma_digit((n % 100) / 10);
    lemma_digit((n % 100) % 10);
    lemma_amount_text_reads_back(n);
    assert(s[0] == whole[0]);
    assert(is_digit(whole[0]));
    assert(s.last() == cents[1]);
    assert forall|i: int| 0 <= i < s.len() implies is_amount_char(#[trigger] s[i]) && p[i] != ' '
        && p[i] == (if s[i] == ',' {
        '.'
    } else {
        s[i]
    }) by {
        if i < whole.len() {
            assert(s[i] == whole[i] && p[i] == whole[i]);
            assert(is_digit(whole[i]));
        } else if i == whole.len() {
        } else {
            assert(s[i] == cents[i - whole.len() - 1] && p[i] == cents[i - whole.len() - 1]);
        }
    }
    assert(trimmed(s) == s);
    assert(replaced(s, ',', '.') =~= p);
    lemma_without_absent(p, ' ');
    assert(p.last() == cents[1]);
}

pub(crate) proof fn lemma_compact_day(d: TimestampView)
    requires
        is_message_day(d),
    ensures
        crate::mt940_statement::yymmdd_date(d.compact_day()) == Ok::<TimestampView, ErrorView>(
            d.at_midnight(),
        ),
        d.compact_day().len() == 6,
        is_digit(d.compact_day()[0]),
        crate::text::all_digits(d.compact_day()),
{
    let s = d.compact_day();
    let yy = (d.year % 100) as nat;
    lemma_digit(yy / 10);
    lemma_digit(yy % 10);
    lemma_digit((d.month as nat) / 10);
    lemma_digit((d.month as nat) % 10);
    lemma_digit((d.day as nat) / 10);
    lemma_digit((d.day as nat) % 10);
    assert(s[0] == digit_char(yy / 10));
    assert(s[1] == digit_char(yy % 10));
    assert(s[2] == digit_char((d.month as nat) / 10));
    assert(s[3] == digit_char((d.month as nat) % 10));
    assert(s[4] == digit_char((d.day as nat) / 10));
    assert(s[5] == digit_char((d.day as nat) % 10));
    assert(crate::text::all_digits(s));
}

/// The line of a balance that the encoder writes is read as that balance,
/// with its day at midnight UTC.
pub proof fn lemma_balance_line_round_trip(
    indicator: BalanceType,
    date: TimestampView,
    currency: Seq<char>,
    amount: nat,
)
    requires
        is_message_day(date),
        currency.len() == 3,
        amount <= u64::MAX,
    ensures
        balance_of_line(balance_text(indicator, date, currency, amount)) == Ok::<
            BalanceView,
            ErrorView,
        >(BalanceView { amount, date: date.at_midnight(), indicator, currency }),
{
    let day = date.compact_day();
    let numeral = amount_text(amount, ',');
    let line = balance_text(indicator, date, currency, amount);
    let t = line.drop_last();
    lemma_compact_day(date);
    lemma_comma_amount_is_read(amount);
    assert(line.last() == '\n');
    assert(t.last() == numeral.last());
    assert(t[0] == crate::mt940_statement::balance_letter(indicator));
    assert(crate::text::skip_spaces(line) == line);
    assert(crate::text::drop_trailing_spaces(t) == t);
    assert(trimmed(line) == t);
    assert(t.subrange(1, 7) =~= day);
    assert(t.subrange(7, 10) =~= currency);
    assert(t.skip(10) =~= numeral);
}

pub(crate) proof fn lemma_amount_run(s: Seq<char>, k: int)
    requires
        0 <= k <= s.len(),
        forall|i: int| 0 <= i < k ==> is_amount_char(#[trigger] s[i]),
        k < s.len() ==> !is_amount_char(s[k]),
    ensures
        amount_run(s) == k,
    decreases k,
{
    if k > 0 {
        let rest = s.drop_first();
        assert forall|i: int| 0 <= i < k - 1 implies is_amount_char(#[trigger] rest[i]) by {
            assert(rest[i] == s[i + 1]);
        }
        if k < s.len() {
            assert(rest[k - 1] == s[k]);
        }
        lemma_amount_run(rest, k - 1);
    }
}

/// The line of a transaction that the encoder writes.
pub open spec fn transaction_line(t: TransactionView) -> Seq<char> {
    t.booking_date.compact_day() + seq![transaction_letter(t.transaction_type)] + amount_text(
        t.amount,
        ',',
    ) + "NTRF"@ + reference_text(t.reference)
}

/// The line of a transaction that the encoder writes is read, with the
/// description beside it, as that transaction: its day at midnight UTC,
/// its reference behind the type code that the encoder puts before it,
/// and without what a message does not carry.
pub proof fn lemma_transaction_line_round_trip(t: TransactionView)
    requires
        is_message_day(t.booking_date),
        t.amount <= u64::MAX,
        reference_text(t.reference).len() > 0 ==> !is_space(reference_text(t.reference).last()),
    ensures
        transaction_of_line(transaction_line(t), t.description) == Ok::<
            TransactionView,
            ErrorView,
        >(
            TransactionView {
                booking_date: t.booking_date.at_midnight(),
                value_date: None,
                reference: Some("NTRF"@ + reference_text(t.reference)),
                counterparty_name: None,
                counterparty_account: None,
                ..t
            },
        ),
{
    reveal_strlit("NTRF");
    let day = t.booking_date.compact_day();
    let numeral = amount_text(t.amount, ',');
    let tail = "NTRF"@ + reference_text(t.reference);
    let line = transaction_line(t);
    lemma_compact_day(t.booking_date);
    lemma_comma_amount_is_read(t.amount);
    assert(line =~= day + seq![transaction_letter(t.transaction_type)] + numeral + tail);
    assert(line[0] == day[0]);
    assert(line.last() == tail.last());
    assert(!is_space(tail.last())) by {
        if reference_text(t.reference).len() == 0 {
            assert(tail =~= "NTRF"@);
        }
    }
    assert(trimmed(line) == line);
    assert(line.take(6) =~= day);
    let rest = line.skip(6);
    assert(rest[0] == transaction_letter(t.transaction_type));
    assert(!is_digit(rest.take(4)[0]));
    assert(crate::mt940_statement::after_dates(line) == rest);
    let marked = rest.drop_first();
    assert(marked =~= numeral + tail);
    assert forall|i: int| 0 <= i < numeral.len() implies is_amount_char(#[trigger] marked[i]) by {
        assert(marked[i] == numeral[i]);
    }
    assert(marked[numeral.len() as int] == 'N');
    lemma_amount_run(marked, numeral.len() as int);
    assert(marked.take(numeral.len() as int) =~= numeral);
    assert(marked.skip(numeral.len() as int) =~= tail);
    assert(tail[0] == 'N');
    assert(trimmed(tail) == tail);
}

/// A message that the encoder writes of a statement is read back as that
/// statement: with its dates at midnight UTC, each reference behind the
/// type code that the encoder writes before it, and without what a message
/// does not carry (value dates and the other party). This holds of every
/// statement whose texts have no line feed or closing brace and no white
/// space at either end, whose currency has three characters, and whose
/// days lie in the years 1950 to 2049.
pub proof fn lemma_message_round_trip(s: StatementView)
    requires
        is_message_statement(s),
    ensures
        crate::mt940_statement::statement_of_text(crate::mt940_statement::message_text(s)) == Ok::<
            StatementView,
            ErrorView,
        >(statement_as_read(s)),
        crate::mt940_statement::statement_of_bytes(
            vstd::utf8::encode_utf8(crate::mt940_statement::message_text(s)),
        ) == Ok::<StatementView, ErrorView>(statement_as_read(s)),
{
    crate::mt940_round_trip::lemma_message_round_trip(s);
}

} // verus!
