//! The events that the encoder makes of a statement are read back as that
//! statement.

use super::elements::ElementName;
use super::parser::{
    details, ends_with, run, slot_of, statement_of_events, step, ParserView, TextSlot,
};
use super::scratch::{BalanceScratchView, EntryScratchView};
use super::tags::lemma_element_is_read;
use super::values::{amount_of, balance_indicator_of, transaction_type_of, xml_date_of};
use super::writer::{
    account_events, amount_events, balance_events, balance_word, balances_events, body_events,
    close_tag, entries_events, entry_events, leaf, open_tag, open_tag_with, parties_events,
    party_account_events, party_name_events, reference_events, remittance_events,
    lemma_events_are_writable, statement_events, transaction_word, value_date_events, wrapped,
};
use super::xml::{are_writable, is_writable, XmlEventView};
use crate::amount::{amount_text, lemma_amount_text_reads_back};
use crate::date::{lemma_day_reads_back, TimestampView};
use crate::error::ErrorView;
use crate::model::{BalanceType, StatementView, TransactionType, TransactionView};
use crate::text::{
    ascii_lowercase, decimal_digits, digit_char, is_digit, is_space,
    lemma_decimal_digits, replaced, trimmed, two_digits,
};
use vstd::prelude::*;

verus! {

/// The state after all of the events, none of which ends the document.
pub open spec fn fold(state: ParserView, events: Seq<XmlEventView>) -> Result<ParserView, ErrorView>
    decreases events.len(),
{
    if events.len() == 0 {
        Ok(state)
    } else {
        match step(state, events[0]) {
            Err(e) => Err(e),
            Ok(next) => fold(next, events.drop_first()),
        }
    }
}

/// Reading two sequences of events one after the other is reading the
/// second from where the first ended.
pub proof fn lemma_fold_concat(state: ParserView, a: Seq<XmlEventView>, b: Seq<XmlEventView>)
    ensures
        fold(state, a + b) == match fold(state, a) {
            Err(e) => Err::<ParserView, ErrorView>(e),
            Ok(mid) => fold(mid, b),
        },
    decreases a.len(),
{
    if a.len() == 0 {
        assert(a + b =~= b);
    } else {
        assert((a + b)[0] == a[0]);
        assert((a + b).drop_first() =~= a.drop_first() + b);
        match step(state, a[0]) {
            Err(e) => {},
            Ok(next) => {
                lemma_fold_concat(next, a.drop_first(), b);
            },
        }
    }
}

/// Where no event ends the document, the state at the end is that after
/// all events.
pub proof fn lemma_run_is_fold(state: ParserView, events: Seq<XmlEventView>, i: int)
    requires
        are_writable(events),
        0 <= i <= events.len(),
    ensures
        run(state, events, i) == fold(state, events.skip(i)),
    decreases events.len() - i,
{
    if i < events.len() {
        assert(is_writable(events[i]));
        assert(events.skip(i)[0] == events[i]);
        assert(events.skip(i).drop_first() =~= events.skip(i + 1));
        match step(state, events[i]) {
            Err(e) => {},
            Ok(next) => {
                lemma_run_is_fold(next, events, i + 1);
            },
        }
    }
}

/// A path ends with a suffix where their last elements are the same and
/// the rest of the path ends with the rest of the suffix.
pub proof fn lemma_ends_with_push(
    path: Seq<ElementName>,
    x: ElementName,
    suffix: Seq<ElementName>,
    y: ElementName,
)
    ensures
        ends_with(path.push(x), suffix.push(y)) == (x == y && ends_with(path, suffix)),
{
    let p = path.push(x);
    let s = suffix.push(y);
    if s.len() <= p.len() {
        let from = p.len() - s.len();
        if ends_with(p, s) {
            assert(p.skip(from)[s.len() - 1] == s[s.len() - 1]);
            assert(path.skip(from) =~= suffix) by {
                assert forall|k: int| 0 <= k < suffix.len() implies path.skip(from)[k]
                    == suffix[k] by {
                    assert(p.skip(from)[k] == s[k]);
                }
            }
        }
        if x == y && ends_with(path, suffix) {
            assert(p.skip(from) =~= s) by {
                assert forall|k: int| 0 <= k < s.len() implies p.skip(from)[k] == s[k] by {
                    if k < suffix.len() {
                        assert(path.skip(from)[k] == suffix[k]);
                    }
                }
            }
        }
    }
}

/// Every path ends with the empty suffix.
pub proof fn lemma_ends_with_nothing(path: Seq<ElementName>)
    ensures
        ends_with(path, Seq::empty()),
{
    assert(path.skip(path.len() as int) =~= Seq::<ElementName>::empty());
}

/// The suffixes that tell the places apart, each built element by element.
proof fn lemma_suffixes()
    ensures
        seq![ElementName::Acct, ElementName::Id, ElementName::Iban] == Seq::<ElementName>::empty().push(ElementName::Acct).push(ElementName::Id).push(ElementName::Iban),
        seq![ElementName::Acct, ElementName::Id, ElementName::Other, ElementName::Id] == Seq::<ElementName>::empty().push(ElementName::Acct).push(ElementName::Id).push(ElementName::Other).push(ElementName::Id),
        seq![ElementName::Acct, ElementName::Currency] == Seq::<ElementName>::empty().push(ElementName::Acct).push(ElementName::Currency),
        seq![ElementName::Balance, ElementName::BalanceType, ElementName::CodeOrProprietary, ElementName::Code] == Seq::<ElementName>::empty().push(ElementName::Balance).push(ElementName::BalanceType).push(ElementName::CodeOrProprietary).push(ElementName::Code),
        seq![ElementName::Balance, ElementName::Amount] == Seq::<ElementName>::empty().push(ElementName::Balance).push(ElementName::Amount),
        seq![ElementName::Balance, ElementName::CreditDebit] == Seq::<ElementName>::empty().push(ElementName::Balance).push(ElementName::CreditDebit),
        seq![ElementName::Balance, ElementName::Date, ElementName::Date] == Seq::<ElementName>::empty().push(ElementName::Balance).push(ElementName::Date).push(ElementName::Date),
        seq![ElementName::Entry, ElementName::Amount] == Seq::<ElementName>::empty().push(ElementName::Entry).push(ElementName::Amount),
        seq![ElementName::Entry, ElementName::CreditDebit] == Seq::<ElementName>::empty().push(ElementName::Entry).push(ElementName::CreditDebit),
        seq![ElementName::Entry, ElementName::BookingDate, ElementName::Date] == Seq::<ElementName>::empty().push(ElementName::Entry).push(ElementName::BookingDate).push(ElementName::Date),
        seq![ElementName::Entry, ElementName::ValueDate, ElementName::Date] == Seq::<ElementName>::empty().push(ElementName::Entry).push(ElementName::ValueDate).push(ElementName::Date),
        seq![ElementName::Entry, ElementName::EntryRef] == Seq::<ElementName>::empty().push(ElementName::Entry).push(ElementName::EntryRef),
        seq![ElementName::Entry, ElementName::EntryDetails, ElementName::TransactionDetails] == Seq::<ElementName>::empty().push(ElementName::Entry).push(ElementName::EntryDetails).push(ElementName::TransactionDetails),
        seq![ElementName::Entry, ElementName::AdditionalInfo] == Seq::<ElementName>::empty().push(ElementName::Entry).push(ElementName::AdditionalInfo),
{
}

/// The places of the paths that the encoder writes text in, below any
/// path of open elements.
pub proof fn lemma_slots(p: Seq<ElementName>)
    ensures
        slot_of(p.push(ElementName::Acct).push(ElementName::Id).push(ElementName::Iban))
            == TextSlot::AccountId,
        slot_of(p.push(ElementName::Acct).push(ElementName::Currency)) == TextSlot::AccountCurrency,
        slot_of(
            p.push(ElementName::Balance).push(ElementName::BalanceType).push(
                ElementName::CodeOrProprietary,
            ).push(ElementName::Code),
        ) == TextSlot::BalanceCode,
        slot_of(p.push(ElementName::Balance).push(ElementName::Amount)) == TextSlot::BalanceAmount,
        slot_of(p.push(ElementName::Balance).push(ElementName::CreditDebit))
            == TextSlot::BalanceIndicator,
        slot_of(p.push(ElementName::Balance).push(ElementName::Date).push(ElementName::Date))
            == TextSlot::BalanceDate,
        slot_of(p.push(ElementName::Entry).push(ElementName::EntryRef))
            == TextSlot::EntryReference,
        slot_of(p.push(ElementName::Entry).push(ElementName::Amount)) == TextSlot::EntryAmount,
        slot_of(p.push(ElementName::Entry).push(ElementName::CreditDebit))
            == TextSlot::EntryIndicator,
        slot_of(p.push(ElementName::Entry).push(ElementName::BookingDate).push(ElementName::Date))
            == TextSlot::EntryBookingDate,
        slot_of(p.push(ElementName::Entry).push(ElementName::ValueDate).push(ElementName::Date))
            == TextSlot::EntryValueDate,
{
    assert forall|q: Seq<ElementName>, x: ElementName, s: Seq<ElementName>, y: ElementName|
        #[trigger] ends_with(q.push(x), s.push(y)) == (x == y && ends_with(q, s)) by {
        lemma_ends_with_push(q, x, s, y);
    }
    assert forall|q: Seq<ElementName>| #[trigger] ends_with(q, Seq::empty()) by {
        lemma_ends_with_nothing(q);
    }
    lemma_suffixes();
}

/// The places of the paths that the encoder writes text in, below the
/// details of a transaction.
pub proof fn lemma_detail_slots(p: Seq<ElementName>)
    ensures
        slot_of(
            (p + details()).push(ElementName::References).push(ElementName::TransactionId),
        ) == TextSlot::TransactionId,
        slot_of(
            (p + details()).push(ElementName::RelatedParties).push(ElementName::Debtor).push(
                ElementName::Name,
            ),
        ) == TextSlot::DebtorName,
        slot_of(
            (p + details()).push(ElementName::RelatedParties).push(ElementName::Creditor).push(
                ElementName::Name,
            ),
        ) == TextSlot::CreditorName,
        slot_of(
            (p + details()).push(ElementName::RelatedParties).push(
                ElementName::DebtorAccount,
            ).push(ElementName::Id).push(ElementName::Iban),
        ) == TextSlot::DebtorAccount,
        slot_of(
            (p + details()).push(ElementName::RelatedParties).push(
                ElementName::CreditorAccount,
            ).push(ElementName::Id).push(ElementName::Iban),
        ) == TextSlot::CreditorAccount,
        slot_of(
            (p + details()).push(ElementName::RemittanceInfo).push(
                ElementName::UnstructuredRemittance,
            ),
        ) == TextSlot::Remittance,
{
    assert forall|q: Seq<ElementName>, x: ElementName, s: Seq<ElementName>, y: ElementName|
        #[trigger] ends_with(q.push(x), s.push(y)) == (x == y && ends_with(q, s)) by {
        lemma_ends_with_push(q, x, s, y);
    }
    assert forall|q: Seq<ElementName>| #[trigger] ends_with(q, Seq::empty()) by {
        lemma_ends_with_nothing(q);
    }
    lemma_suffixes();
    assert(p + details() =~= p.push(ElementName::Entry).push(ElementName::EntryDetails).push(
        ElementName::TransactionDetails,
    ));
}

/// A text that begins and ends with a character that is no white space;
/// trimming leaves it as it is.
pub open spec fn is_clean(t: Seq<char>) -> bool {
    t.len() > 0 && !is_space(t[0]) && !is_space(t.last())
}

/// An optional text that is there is clean.
pub open spec fn is_clean_if_there(o: Option<Seq<char>>) -> bool {
    o is Some ==> is_clean(o->0)
}

proof fn lemma_clean_is_trimmed(t: Seq<char>)
    requires
        is_clean(t),
    ensures
        trimmed(t) == t,
        trimmed(t).len() > 0,
{
}

proof fn lemma_digit_chars(d: nat)
    requires
        d < 10,
    ensures
        is_digit(digit_char(d)),
        !is_space(digit_char(d)),
        digit_char(d) != ',',
{
}

proof fn lemma_amount_text_is_clean(n: nat)
    ensures
        is_clean(amount_text(n, '.')),
        replaced(amount_text(n, '.'), ',', '.') == amount_text(n, '.'),
{
    let whole = decimal_digits(n / 100);
    let cents = two_digits(n % 100);
    let s = amount_text(n, '.');
    lemma_decimal_digits(n / 100);
    lemma_digit_chars((n % 100) / 10);
    lemma_digit_chars((n % 100) % 10);
    assert(s[0] == whole[0]);
    assert(is_digit(whole[0]));
    assert(s.last() == cents[1]);
    assert forall|i: int| 0 <= i < s.len() implies s[i] != ',' by {
        if i < whole.len() {
            assert(s[i] == whole[i]);
            assert(is_digit(whole[i]));
        } else if i == whole.len() {
            assert(s[i] == '.');
        } else {
            assert(s[i] == cents[i - whole.len() - 1]);
        }
    }
    assert(replaced(s, ',', '.') =~= s);
}

/// The amount that the encoder writes is read as the amount that it was.
proof fn lemma_amount_is_read(n: nat)
    requires
        n <= u64::MAX,
    ensures
        is_clean(amount_text(n, '.')),
        amount_of(amount_text(n, '.')) == Ok::<nat, ErrorView>(n),
{
    lemma_amount_text_is_clean(n);
    lemma_clean_is_trimmed(amount_text(n, '.'));
    lemma_amount_text_reads_back(n);
}

/// The day that the encoder writes is read as that day at midnight UTC.
proof fn lemma_day_is_read(d: TimestampView)
    requires
        d.wf(),
    ensures
        is_clean(d.iso_day()),
        xml_date_of(d.iso_day()) == Ok::<TimestampView, ErrorView>(d.at_midnight()),
{
    let s = d.iso_day();
    lemma_day_reads_back(d);
    lemma_digit_chars((((d.year as nat) / 100) / 10) as nat);
    lemma_digit_chars(((d.day as nat) % 10) as nat);
    assert(s[0] == digit_char((((d.year as nat) / 100) / 10) as nat));
    assert(s.last() == digit_char(((d.day as nat) % 10) as nat));
    lemma_clean_is_trimmed(s);
}

/// The number of an entry is a clean text.
proof fn lemma_number_is_clean(n: nat)
    ensures
        is_clean(decimal_digits(n)),
{
    lemma_decimal_digits(n);
    let s = decimal_digits(n);
    assert(is_digit(s[0]));
    assert(is_digit(s[s.len() - 1]));
}

/// The words of the indicators are read as the indicators.
proof fn lemma_words_are_read()
    ensures
        is_clean("CRDT"@),
        is_clean("DBIT"@),
        balance_indicator_of("CRDT"@) == Ok::<BalanceType, ErrorView>(BalanceType::Credit),
        balance_indicator_of("DBIT"@) == Ok::<BalanceType, ErrorView>(BalanceType::Debit),
        transaction_type_of("CRDT"@) == Ok::<TransactionType, ErrorView>(TransactionType::Credit),
        transaction_type_of("DBIT"@) == Ok::<TransactionType, ErrorView>(TransactionType::Debit),
{
    reveal_strlit("CRDT");
    reveal_strlit("DBIT");
    reveal_strlit("crdt");
    reveal_strlit("dbit");
    lemma_clean_is_trimmed("CRDT"@);
    lemma_clean_is_trimmed("DBIT"@);
    assert(ascii_lowercase("CRDT"@) =~= "crdt"@);
    assert(ascii_lowercase("DBIT"@) =~= "dbit"@);
    assert("dbit"@[0] != "crdt"@[0]);
}

/// The codes of the balances are told apart.
proof fn lemma_codes_are_read()
    ensures
        is_clean("OPBD"@),
        is_clean("CLBD"@),
        ascii_lowercase("OPBD"@) == "opbd"@,
        ascii_lowercase("CLBD"@) == "clbd"@,
        "clbd"@ != "opbd"@,
{
    reveal_strlit("OPBD");
    reveal_strlit("CLBD");
    reveal_strlit("opbd");
    reveal_strlit("clbd");
    assert(ascii_lowercase("OPBD"@) =~= "opbd"@);
    assert(ascii_lowercase("CLBD"@) =~= "clbd"@);
    assert("clbd"@[0] != "opbd"@[0]);
}

/// A state with another path of open elements.
pub open spec fn at(st: ParserView, path: Seq<ElementName>) -> ParserView {
    ParserView { path, ..st }
}

/// An element that opens and closes without more ado.
pub open spec fn is_plain_element(e: ElementName) -> bool {
    e != ElementName::Other && e != ElementName::Balance && e != ElementName::Entry && e
        != ElementName::Amount
}

/// Reading `b` behind `a` is reading `b` from where `a` ended.
proof fn lemma_then(st: ParserView, a: Seq<XmlEventView>, mid: ParserView, b: Seq<XmlEventView>)
    requires
        fold(st, a) == Ok::<ParserView, ErrorView>(mid),
    ensures
        fold(st, a + b) == fold(mid, b),
{
    lemma_fold_concat(st, a, b);
}

proof fn lemma_fold_one(st: ParserView, event: XmlEventView)
    ensures
        fold(st, seq![event]) == step(st, event),
{
    let s = seq![event];
    assert(s.drop_first() =~= Seq::<XmlEventView>::empty());
    match step(st, event) {
        Ok(next) => {
            assert(fold(next, s.drop_first()) == Ok::<ParserView, ErrorView>(next));
        },
        Err(_) => {},
    }
}

proof fn lemma_step_open(st: ParserView, e: ElementName)
    requires
        is_plain_element(e),
    ensures
        step(st, open_tag(e)) == Ok::<ParserView, ErrorView>(at(st, st.path.push(e))),
{
    lemma_element_is_read(e);
}

proof fn lemma_step_close(st: ParserView, e: ElementName, x: ElementName)
    requires
        st.path.len() > 0,
        st.path.last() == x,
        x != ElementName::Balance,
        x != ElementName::Entry,
    ensures
        step(st, close_tag(e)) == Ok::<ParserView, ErrorView>(at(st, st.path.drop_last())),
{
}

proof fn lemma_step_text(st: ParserView, text: Seq<char>)
    requires
        is_clean(text),
    ensures
        step(st, XmlEventView::Text(text)) == Ok::<ParserView, ErrorView>(
            st.placed(slot_of(st.path), text),
        ),
{
    lemma_clean_is_trimmed(text);
}

/// A plain element with a clean text in it puts the text in the place
/// of its path.
proof fn lemma_leaf(st: ParserView, e: ElementName, text: Seq<char>)
    requires
        is_plain_element(e),
        is_clean(text),
    ensures
        fold(st, leaf(e, text)) == Ok::<ParserView, ErrorView>(
            st.placed(slot_of(st.path.push(e)), text),
        ),
{
    let l = leaf(e, text);
    let s1 = at(st, st.path.push(e));
    let s2 = s1.placed(slot_of(s1.path), text);
    lemma_step_open(st, e);
    lemma_step_text(s1, text);
    assert(s2.path == s1.path);
    lemma_step_close(s2, e, e);
    assert(s1.path.drop_last() =~= st.path);
    assert(at(s2, st.path) == st.placed(slot_of(st.path.push(e)), text));
    assert(l =~= seq![open_tag(e)] + seq![XmlEventView::Text(text)] + seq![close_tag(e)]);
    lemma_fold_one(st, open_tag(e));
    lemma_fold_one(s1, XmlEventView::Text(text));
    lemma_fold_one(s2, close_tag(e));
    lemma_then(st, seq![open_tag(e)], s1, seq![XmlEventView::Text(text)]);
    lemma_then(
        st,
        seq![open_tag(e)] + seq![XmlEventView::Text(text)],
        s2,
        seq![close_tag(e)],
    );
}

/// An amount behind a currency that is known puts its text in the place
/// of its path.
proof fn lemma_amount_leaf(st: ParserView, currency: Seq<char>, amount: nat)
    requires
        st.currency is Some,
        amount <= u64::MAX,
    ensures
        fold(st, amount_events(currency, amount)) == Ok::<ParserView, ErrorView>(
            st.placed(slot_of(st.path.push(ElementName::Amount)), amount_text(amount, '.')),
        ),
{
    let e = ElementName::Amount;
    let text = amount_text(amount, '.');
    let open = open_tag_with(e, "Ccy"@, currency);
    let l = amount_events(currency, amount);
    let s1 = at(st, st.path.push(e));
    let s2 = s1.placed(slot_of(s1.path), text);
    lemma_amount_is_read(amount);
    lemma_element_is_read(e);
    assert(step(st, open) == Ok::<ParserView, ErrorView>(s1));
    lemma_step_text(s1, text);
    assert(s2.path == s1.path);
    lemma_step_close(s2, e, e);
    assert(s1.path.drop_last() =~= st.path);
    assert(at(s2, st.path) == st.placed(slot_of(st.path.push(e)), text));
    assert(l =~= seq![open] + seq![XmlEventView::Text(text)] + seq![close_tag(e)]);
    lemma_fold_one(st, open);
    lemma_fold_one(s1, XmlEventView::Text(text));
    lemma_fold_one(s2, close_tag(e));
    lemma_then(st, seq![open], s1, seq![XmlEventView::Text(text)]);
    lemma_then(st, seq![open] + seq![XmlEventView::Text(text)], s2, seq![close_tag(e)]);
}

/// A plain element around events that leave the path as they found it
/// leaves the path as it found it.
proof fn lemma_wrapped(st: ParserView, e: ElementName, inner: Seq<XmlEventView>, mid: ParserView)
    requires
        is_plain_element(e),
        fold(at(st, st.path.push(e)), inner) == Ok::<ParserView, ErrorView>(mid),
        mid.path == st.path.push(e),
    ensures
        fold(st, wrapped(e, inner)) == Ok::<ParserView, ErrorView>(at(mid, st.path)),
{
    let s1 = at(st, st.path.push(e));
    lemma_step_open(st, e);
    lemma_fold_one(st, open_tag(e));
    lemma_then(st, seq![open_tag(e)], s1, inner);
    lemma_step_close(mid, e, e);
    assert(mid.path.drop_last() =~= st.path);
    lemma_fold_one(mid, close_tag(e));
    lemma_then(st, seq![open_tag(e)] + inner, mid, seq![close_tag(e)]);
}

/// A plain element with a leaf in it.
proof fn lemma_wrapped_leaf(st: ParserView, outer: ElementName, e: ElementName, text: Seq<char>)
    requires
        is_plain_element(outer),
        is_plain_element(e),
        is_clean(text),
    ensures
        fold(st, wrapped(outer, leaf(e, text))) == Ok::<ParserView, ErrorView>(
            st.placed(slot_of(st.path.push(outer).push(e)), text),
        ),
{
    let s1 = at(st, st.path.push(outer));
    lemma_leaf(s1, e, text);
    let mid = s1.placed(slot_of(s1.path.push(e)), text);
    assert(mid.path == s1.path);
    lemma_wrapped(st, outer, leaf(e, text), mid);
    assert(at(mid, st.path) == st.placed(slot_of(st.path.push(outer).push(e)), text));
}

/// The account of the statement is read where none was read before.
proof fn lemma_account(st: ParserView, account: Seq<char>, currency: Seq<char>)
    requires
        st.account_number is None,
        st.currency is None,
        is_clean(account),
        is_clean(currency),
    ensures
        fold(st, account_events(account, currency)) == Ok::<ParserView, ErrorView>(
            ParserView { account_number: Some(account), currency: Some(currency), ..st },
        ),
{
    let p = st.path;
    let s1 = at(st, p.push(ElementName::Acct));
    let first = wrapped(ElementName::Id, leaf(ElementName::Iban, account));
    let second = leaf(ElementName::Currency, currency);
    lemma_slots(p);
    lemma_clean_is_trimmed(currency);
    lemma_wrapped_leaf(s1, ElementName::Id, ElementName::Iban, account);
    let s2 = ParserView { account_number: Some(account), ..s1 };
    assert(fold(s1, first) == Ok::<ParserView, ErrorView>(s2));
    lemma_leaf(s2, ElementName::Currency, currency);
    let s3 = ParserView { currency: Some(currency), ..s2 };
    assert(fold(s2, second) == Ok::<ParserView, ErrorView>(s3));
    lemma_then(s1, first, s2, second);
    lemma_wrapped(st, ElementName::Acct, first + second, s3);
}

/// The code of a balance.
pub open spec fn balance_code(opening: bool) -> Seq<char> {
    if opening {
        "OPBD"@
    } else {
        "CLBD"@
    }
}

/// The state with a balance taken.
pub open spec fn with_balance(
    st: ParserView,
    opening: bool,
    amount: nat,
    indicator: BalanceType,
    date: TimestampView,
) -> ParserView {
    if opening {
        ParserView {
            opening_balance: Some(amount),
            opening_indicator: Some(indicator),
            opening_date: Some(date.at_midnight()),
            balance_scratch: BalanceScratchView::empty(),
            ..st
        }
    } else {
        ParserView {
            closing_balance: Some(amount),
            closing_indicator: Some(indicator),
            closing_date: Some(date.at_midnight()),
            balance_scratch: BalanceScratchView::empty(),
            ..st
        }
    }
}

/// A balance is read as it was written.
proof fn lemma_balance(
    st: ParserView,
    opening: bool,
    currency: Seq<char>,
    amount: nat,
    indicator: BalanceType,
    date: TimestampView,
)
    requires
        st.currency is Some,
        amount <= u64::MAX,
        date.wf(),
    ensures
        fold(st, balance_events(balance_code(opening), currency, amount, indicator, date)) == Ok::<
            ParserView,
            ErrorView,
        >(with_balance(st, opening, amount, indicator, date)),
{
    let p = st.path;
    let e = ElementName::Balance;
    let code = balance_code(opening);
    let word = balance_word(indicator);
    let a = wrapped(
        ElementName::BalanceType,
        wrapped(ElementName::CodeOrProprietary, leaf(ElementName::Code, code)),
    );
    let b = amount_events(currency, amount);
    let c = leaf(ElementName::CreditDebit, word);
    let d = wrapped(ElementName::Date, leaf(ElementName::Date, date.iso_day()));
    lemma_slots(p);
    lemma_codes_are_read();
    lemma_words_are_read();
    lemma_amount_is_read(amount);
    lemma_day_is_read(date);
    lemma_element_is_read(e);
    let s1 = ParserView { path: p.push(e), balance_scratch: BalanceScratchView::empty(), ..st };
    assert(step(st, open_tag(e)) == Ok::<ParserView, ErrorView>(s1));
    // the type code
    let s1t = at(s1, s1.path.push(ElementName::BalanceType));
    lemma_wrapped_leaf(s1t, ElementName::CodeOrProprietary, ElementName::Code, code);
    let s2t = ParserView {
        balance_scratch: BalanceScratchView { balance_type: Some(code), ..s1.balance_scratch },
        ..s1t
    };
    assert(fold(
        s1t,
        wrapped(ElementName::CodeOrProprietary, leaf(ElementName::Code, code)),
    ) == Ok::<ParserView, ErrorView>(s2t));
    lemma_wrapped(
        s1,
        ElementName::BalanceType,
        wrapped(ElementName::CodeOrProprietary, leaf(ElementName::Code, code)),
        s2t,
    );
    let s2 = at(s2t, s1.path);
    assert(fold(s1, a) == Ok::<ParserView, ErrorView>(s2));
    // the amount
    lemma_amount_leaf(s2, currency, amount);
    let s3 = ParserView {
        balance_scratch: BalanceScratchView {
            amount: Some(amount_text(amount, '.')),
            ..s2.balance_scratch
        },
        ..s2
    };
    assert(fold(s2, b) == Ok::<ParserView, ErrorView>(s3));
    // the indicator
    lemma_leaf(s3, ElementName::CreditDebit, word);
    let s4 = ParserView {
        balance_scratch: BalanceScratchView { indicator: Some(word), ..s3.balance_scratch },
        ..s3
    };
    assert(fold(s3, c) == Ok::<ParserView, ErrorView>(s4));
    // the day
    lemma_wrapped_leaf(s4, ElementName::Date, ElementName::Date, date.iso_day());
    let s5 = ParserView {
        balance_scratch: BalanceScratchView { date: Some(date.iso_day()), ..s4.balance_scratch },
        ..s4
    };
    assert(fold(s4, d) == Ok::<ParserView, ErrorView>(s5));
    lemma_then(s1, a, s2, b);
    lemma_then(s1, a + b, s3, c);
    lemma_then(s1, a + b + c, s4, d);
    let inner = a + b + c + d;
    assert(fold(s1, inner) == Ok::<ParserView, ErrorView>(s5));
    // the end of the balance
    assert(s5.path.last() == e);
    assert(s5.path.drop_last() =~= p);
    let closed = at(s5, p);
    assert(step(s5, close_tag(e)) == Ok::<ParserView, ErrorView>(closed.balance_closed()));
    assert(closed.balance_closed() == with_balance(st, opening, amount, indicator, date));
    lemma_fold_one(st, open_tag(e));
    lemma_fold_one(s5, close_tag(e));
    lemma_then(st, seq![open_tag(e)], s1, inner);
    lemma_then(st, seq![open_tag(e)] + inner, s5, seq![close_tag(e)]);
}

/// A transaction that a document can carry and give back: its amount
/// fits, it has a reference, and its texts are clean; its description may
/// be empty.
pub open spec fn is_document_transaction(t: TransactionView) -> bool {
    &&& t.amount <= u64::MAX
    &&& t.booking_date.wf()
    &&& is_clean_if_there(t.value_date)
    &&& t.reference is Some
    &&& is_clean(t.reference->0)
    &&& is_clean_if_there(t.counterparty_name)
    &&& is_clean_if_there(t.counterparty_account)
    &&& (t.description.len() == 0 || is_clean(t.description))
}

/// A statement that a document can carry and give back.
pub open spec fn is_document_statement(s: StatementView) -> bool {
    &&& is_clean(s.account_number)
    &&& is_clean(s.currency)
    &&& s.opening_balance <= u64::MAX
    &&& s.closing_balance <= u64::MAX
    &&& s.opening_date.wf()
    &&& s.closing_date.wf()
    &&& forall|i: int|
        0 <= i < s.transactions.len() ==> is_document_transaction(#[trigger] s.transactions[i])
}

/// A state with an entry open.
pub open spec fn with_entry(st: ParserView, e: EntryScratchView) -> ParserView {
    ParserView { entry_scratch: Some(e), ..st }
}

/// What is read of an entry before its details.
pub open spec fn head_scratch(t: TransactionView, number: nat) -> EntryScratchView {
    EntryScratchView {
        amount: Some(amount_text(t.amount, '.')),
        indicator: Some(transaction_word(t.transaction_type)),
        booking_date: Some(t.booking_date.iso_day()),
        value_date: t.value_date,
        ntry_ref: Some(decimal_digits(number)),
        ..EntryScratchView::empty()
    }
}

/// An entry with the name of the other party of a transaction in the
/// given direction.
pub open spec fn with_name(
    e: EntryScratchView,
    direction: TransactionType,
    name: Option<Seq<char>>,
) -> EntryScratchView {
    match direction {
        TransactionType::Credit => EntryScratchView { debtor_name: name, ..e },
        TransactionType::Debit => EntryScratchView { creditor_name: name, ..e },
    }
}

/// An entry with the account of the other party of a transaction in the
/// given direction.
pub open spec fn with_account(
    e: EntryScratchView,
    direction: TransactionType,
    account: Option<Seq<char>>,
) -> EntryScratchView {
    match direction {
        TransactionType::Credit => EntryScratchView { debtor_account: account, ..e },
        TransactionType::Debit => EntryScratchView { creditor_account: account, ..e },
    }
}

/// An entry with the parties of a transaction.
pub open spec fn with_parties(e: EntryScratchView, t: TransactionView) -> EntryScratchView {
    with_account(
        with_name(e, t.transaction_type, t.counterparty_name),
        t.transaction_type,
        t.counterparty_account,
    )
}

/// No party has been read of the entry.
pub open spec fn has_no_party(e: EntryScratchView) -> bool {
    e.debtor_name is None && e.creditor_name is None && e.debtor_account is None
        && e.creditor_account is None
}

/// What is read of an entry at its end.
pub open spec fn full_scratch(t: TransactionView, number: nat) -> EntryScratchView {
    EntryScratchView {
        description: t.description,
        ..with_parties(EntryScratchView { tx_id: t.reference, ..head_scratch(t, number) }, t)
    }
}

/// The events of an entry before its details.
pub open spec fn head_events(t: TransactionView, number: nat, currency: Seq<char>) -> Seq<
    XmlEventView,
> {
    leaf(ElementName::EntryRef, decimal_digits(number)) + amount_events(currency, t.amount) + leaf(
        ElementName::CreditDebit,
        transaction_word(t.transaction_type),
    ) + wrapped(ElementName::BookingDate, leaf(ElementName::Date, t.booking_date.iso_day()))
        + value_date_events(t.value_date)
}

/// The events of the details of an entry.
pub open spec fn details_events(t: TransactionView) -> Seq<XmlEventView> {
    wrapped(
        ElementName::EntryDetails,
        wrapped(
            ElementName::TransactionDetails,
            reference_events(t.reference) + parties_events(t) + remittance_events(t.description),
        ),
    )
}

proof fn lemma_head(st: ParserView, t: TransactionView, number: nat, currency: Seq<char>)
    requires
        st.currency is Some,
        st.path.len() > 0,
        st.path.last() == ElementName::Entry,
        st.entry_scratch == Some(EntryScratchView::empty()),
        is_document_transaction(t),
    ensures
        fold(st, head_events(t, number, currency)) == Ok::<ParserView, ErrorView>(
            with_entry(st, head_scratch(t, number)),
        ),
{
    let p = st.path.drop_last();
    assert(st.path =~= p.push(ElementName::Entry));
    lemma_slots(p);
    lemma_words_are_read();
    lemma_number_is_clean(number);
    lemma_amount_is_read(t.amount);
    lemma_day_is_read(t.booking_date);
    let e0 = EntryScratchView::empty();
    let a = leaf(ElementName::EntryRef, decimal_digits(number));
    let b = amount_events(currency, t.amount);
    let c = leaf(ElementName::CreditDebit, transaction_word(t.transaction_type));
    let d = wrapped(ElementName::BookingDate, leaf(ElementName::Date, t.booking_date.iso_day()));
    let v = value_date_events(t.value_date);
    let e1 = EntryScratchView { ntry_ref: Some(decimal_digits(number)), ..e0 };
    let e2 = EntryScratchView { amount: Some(amount_text(t.amount, '.')), ..e1 };
    let e3 = EntryScratchView { indicator: Some(transaction_word(t.transaction_type)), ..e2 };
    let e4 = EntryScratchView { booking_date: Some(t.booking_date.iso_day()), ..e3 };
    let e5 = EntryScratchView { value_date: t.value_date, ..e4 };
    lemma_leaf(st, ElementName::EntryRef, decimal_digits(number));
    assert(fold(st, a) == Ok::<ParserView, ErrorView>(with_entry(st, e1)));
    lemma_amount_leaf(with_entry(st, e1), currency, t.amount);
    assert(fold(with_entry(st, e1), b) == Ok::<ParserView, ErrorView>(with_entry(st, e2)));
    lemma_leaf(
        with_entry(st, e2),
        ElementName::CreditDebit,
        transaction_word(t.transaction_type),
    );
    assert(fold(with_entry(st, e2), c) == Ok::<ParserView, ErrorView>(with_entry(st, e3)));
    lemma_wrapped_leaf(
        with_entry(st, e3),
        ElementName::BookingDate,
        ElementName::Date,
        t.booking_date.iso_day(),
    );
    assert(fold(with_entry(st, e3), d) == Ok::<ParserView, ErrorView>(with_entry(st, e4)));
    match t.value_date {
        Some(text) => {
            lemma_wrapped_leaf(
                with_entry(st, e4),
                ElementName::ValueDate,
                ElementName::Date,
                text,
            );
        },
        None => {},
    }
    assert(fold(with_entry(st, e4), v) == Ok::<ParserView, ErrorView>(with_entry(st, e5)));
    assert(e5 == head_scratch(t, number));
    lemma_then(st, a, with_entry(st, e1), b);
    lemma_then(st, a + b, with_entry(st, e2), c);
    lemma_then(st, a + b + c, with_entry(st, e3), d);
    lemma_then(st, a + b + c + d, with_entry(st, e4), v);
}

proof fn lemma_parties(st: ParserView, t: TransactionView, e: EntryScratchView)
    requires
        st.path.len() >= 3,
        st.path.subrange(st.path.len() - 3, st.path.len() as int) == details(),
        st.entry_scratch == Some(e),
        has_no_party(e),
        is_document_transaction(t),
    ensures
        fold(st, parties_events(t)) == Ok::<ParserView, ErrorView>(
            with_entry(st, with_parties(e, t)),
        ),
{
    let p = st.path.take(st.path.len() - 3);
    assert(st.path =~= p + details());
    lemma_detail_slots(p);
    if t.counterparty_name is Some || t.counterparty_account is Some {
        let outer = ElementName::RelatedParties;
        let s1 = at(st, st.path.push(outer));
        let names = party_name_events(t.transaction_type, t.counterparty_name);
        let accounts = party_account_events(t.transaction_type, t.counterparty_account);
        let e1 = with_name(e, t.transaction_type, t.counterparty_name);
        let e2 = with_account(e1, t.transaction_type, t.counterparty_account);
        match t.counterparty_name {
            Some(name) => {
                match t.transaction_type {
                    TransactionType::Credit => {
                        lemma_wrapped_leaf(s1, ElementName::Debtor, ElementName::Name, name);
                    },
                    TransactionType::Debit => {
                        lemma_wrapped_leaf(s1, ElementName::Creditor, ElementName::Name, name);
                    },
                }
            },
            None => {},
        }
        assert(fold(s1, names) == Ok::<ParserView, ErrorView>(with_entry(s1, e1)));
        let s2 = with_entry(s1, e1);
        match t.counterparty_account {
            Some(account) => {
                let inner = wrapped(ElementName::Id, leaf(ElementName::Iban, account));
                match t.transaction_type {
                    TransactionType::Credit => {
                        let o = ElementName::DebtorAccount;
                        let s2o = at(s2, s2.path.push(o));
                        lemma_wrapped_leaf(s2o, ElementName::Id, ElementName::Iban, account);
                        lemma_wrapped(s2, o, inner, with_entry(s2o, e2));
                    },
                    TransactionType::Debit => {
                        let o = ElementName::CreditorAccount;
                        let s2o = at(s2, s2.path.push(o));
                        lemma_wrapped_leaf(s2o, ElementName::Id, ElementName::Iban, account);
                        lemma_wrapped(s2, o, inner, with_entry(s2o, e2));
                    },
                }
            },
            None => {},
        }
        assert(fold(s2, accounts) == Ok::<ParserView, ErrorView>(with_entry(s1, e2)));
        lemma_then(s1, names, s2, accounts);
        lemma_wrapped(st, outer, names + accounts, with_entry(s1, e2));
    }
}

proof fn lemma_details(st: ParserView, t: TransactionView, e: EntryScratchView)
    requires
        st.path.len() > 0,
        st.path.last() == ElementName::Entry,
        st.entry_scratch == Some(e),
        has_no_party(e),
        e.description.len() == 0,
        is_document_transaction(t),
    ensures
        fold(st, details_events(t)) == Ok::<ParserView, ErrorView>(
            with_entry(
                st,
                EntryScratchView {
                    description: t.description,
                    ..with_parties(EntryScratchView { tx_id: t.reference, ..e }, t)
                },
            ),
        ),
{
    let p = st.path.drop_last();
    assert(st.path =~= p.push(ElementName::Entry));
    let s1 = at(st, st.path.push(ElementName::EntryDetails));
    let s2 = at(s1, s1.path.push(ElementName::TransactionDetails));
    assert(s2.path =~= p + details());
    assert(s2.path.subrange(s2.path.len() - 3, s2.path.len() as int) =~= details());
    lemma_detail_slots(p);
    let r = reference_events(t.reference);
    let pt = parties_events(t);
    let rm = remittance_events(t.description);
    let e1 = EntryScratchView { tx_id: t.reference, ..e };
    let e2 = with_parties(e1, t);
    let e3 = EntryScratchView { description: t.description, ..e2 };
    lemma_wrapped_leaf(s2, ElementName::References, ElementName::TransactionId, t.reference->0);
    assert(fold(s2, r) == Ok::<ParserView, ErrorView>(with_entry(s2, e1)));
    lemma_parties(with_entry(s2, e1), t, e1);
    assert(fold(with_entry(s2, e1), pt) == Ok::<ParserView, ErrorView>(with_entry(s2, e2)));
    if t.description.len() > 0 {
        lemma_wrapped_leaf(
            with_entry(s2, e2),
            ElementName::RemittanceInfo,
            ElementName::UnstructuredRemittance,
            t.description,
        );
    } else {
        assert(t.description =~= e.description);
    }
    assert(fold(with_entry(s2, e2), rm) == Ok::<ParserView, ErrorView>(with_entry(s2, e3)));
    lemma_then(s2, r, with_entry(s2, e1), pt);
    lemma_then(s2, r + pt, with_entry(s2, e2), rm);
    lemma_wrapped(s1, ElementName::TransactionDetails, r + pt + rm, with_entry(s2, e3));
    lemma_wrapped(
        st,
        ElementName::EntryDetails,
        wrapped(ElementName::TransactionDetails, r + pt + rm),
        with_entry(s1, e3),
    );
}

/// What was read of an entry makes the transaction that was written,
/// with its day alone.
proof fn lemma_full_scratch(t: TransactionView, number: nat)
    requires
        is_document_transaction(t),
    ensures
        full_scratch(t, number).transaction() == Some(t.by_day()),
{
    lemma_words_are_read();
    lemma_amount_is_read(t.amount);
    lemma_day_is_read(t.booking_date);
    if t.description.len() > 0 {
        lemma_clean_is_trimmed(t.description);
    } else {
        assert(trimmed(t.description) =~= Seq::<char>::empty());
        assert(t.description =~= Seq::<char>::empty());
    }
    assert(full_scratch(t, number).narrative() == t.description);
}

/// An entry is read as it was written, with its day alone.
proof fn lemma_entry(st: ParserView, t: TransactionView, number: nat, currency: Seq<char>)
    requires
        st.currency is Some,
        st.entry_scratch is None,
        is_document_transaction(t),
    ensures
        fold(st, entry_events(t, number, currency)) == Ok::<ParserView, ErrorView>(
            ParserView { transactions: st.transactions.push(t.by_day()), ..st },
        ),
{
    let p = st.path;
    let e = ElementName::Entry;
    lemma_element_is_read(e);
    let s1 = ParserView {
        path: p.push(e),
        entry_scratch: Some(EntryScratchView::empty()),
        ..st
    };
    assert(step(st, open_tag(e)) == Ok::<ParserView, ErrorView>(s1));
    let head = head_events(t, number, currency);
    let tail = details_events(t);
    lemma_head(s1, t, number, currency);
    let s2 = with_entry(s1, head_scratch(t, number));
    lemma_details(s2, t, head_scratch(t, number));
    let s3 = with_entry(s1, full_scratch(t, number));
    assert(fold(s2, tail) == Ok::<ParserView, ErrorView>(s3));
    lemma_then(s1, head, s2, tail);
    lemma_full_scratch(t, number);
    assert(s3.path.last() == e);
    assert(s3.path.drop_last() =~= p);
    let closed = at(s3, p);
    assert(step(s3, close_tag(e)) == Ok::<ParserView, ErrorView>(closed.entry_closed()));
    assert(closed.entry_closed() == ParserView {
        transactions: st.transactions.push(t.by_day()),
        ..st
    });
    lemma_fold_one(st, open_tag(e));
    lemma_fold_one(s3, close_tag(e));
    lemma_then(st, seq![open_tag(e)], s1, head + tail);
    lemma_then(st, seq![open_tag(e)] + (head + tail), s3, seq![close_tag(e)]);
    assert(entry_events(t, number, currency) =~= seq![open_tag(e)] + (head + tail) + seq![
        close_tag(e),
    ]);
}

/// The transactions of a list, each with its day alone.
pub open spec fn by_day(ts: Seq<TransactionView>) -> Seq<TransactionView> {
    ts.map_values(|t: TransactionView| t.by_day())
}

/// The entries are read as they were written, in order.
proof fn lemma_entries(st: ParserView, ts: Seq<TransactionView>, currency: Seq<char>)
    requires
        st.currency is Some,
        st.entry_scratch is None,
        forall|i: int| 0 <= i < ts.len() ==> is_document_transaction(#[trigger] ts[i]),
    ensures
        fold(st, entries_events(ts, currency)) == Ok::<ParserView, ErrorView>(
            ParserView { transactions: st.transactions + by_day(ts), ..st },
        ),
    decreases ts.len(),
{
    if ts.len() == 0 {
        assert(st.transactions + by_day(ts) =~= st.transactions);
    } else {
        let front = ts.drop_last();
        lemma_entries(st, front, currency);
        let mid = ParserView { transactions: st.transactions + by_day(front), ..st };
        lemma_entry(mid, ts.last(), ts.len(), currency);
        lemma_then(
            st,
            entries_events(front, currency),
            mid,
            entry_events(ts.last(), ts.len(), currency),
        );
        assert(mid.transactions.push(ts.last().by_day()) =~= st.transactions + by_day(ts));
    }
}

/// The events that the encoder makes of a statement are read back as
/// that statement, with its dates cut to the day.
pub(crate) proof fn lemma_events_round_trip(s: StatementView)
    requires
        is_document_statement(s),
    ensures
        statement_of_events(statement_events(s)) == Ok::<StatementView, ErrorView>(s.by_day()),
{
    let events = statement_events(s);
    let st0 = ParserView::initial();
    assert(run(st0, events, 0) == fold(st0, events)) by {
        lemma_events_are_writable(s);
        lemma_run_is_fold(st0, events, 0);
        assert(events.skip(0) =~= events);
    }
    let document = ElementName::Document;
    let open = open_tag_with(document, "xmlns"@, "urn:iso:std:iso:20022:tech:xsd:camt.053.001.02"@);
    // the declaration and the root
    lemma_element_is_read(document);
    let st1 = at(st0, st0.path.push(document));
    assert(step(st0, XmlEventView::Declaration) == Ok::<ParserView, ErrorView>(st0));
    assert(step(st0, open) == Ok::<ParserView, ErrorView>(st1));
    lemma_fold_one(st0, XmlEventView::Declaration);
    lemma_fold_one(st0, open);
    lemma_then(st0, seq![XmlEventView::Declaration], st0, seq![open]);
    let head = seq![XmlEventView::Declaration, open];
    assert(head =~= seq![XmlEventView::Declaration] + seq![open]);
    assert(fold(st0, head) == Ok::<ParserView, ErrorView>(st1));
    // the statement
    let st2 = at(st1, st1.path.push(ElementName::BkToCstmrStmt));
    let st3 = at(st2, st2.path.push(ElementName::Stmt));
    let account = account_events(s.account_number, s.currency);
    let opening = balance_events(
        "OPBD"@,
        s.currency,
        s.opening_balance,
        s.opening_indicator,
        s.opening_date,
    );
    let closing = balance_events(
        "CLBD"@,
        s.currency,
        s.closing_balance,
        s.closing_indicator,
        s.closing_date,
    );
    let entries = entries_events(s.transactions, s.currency);
    lemma_account(st3, s.account_number, s.currency);
    let st4 = ParserView {
        account_number: Some(s.account_number),
        currency: Some(s.currency),
        ..st3
    };
    lemma_balance(
        st4,
        true,
        s.currency,
        s.opening_balance,
        s.opening_indicator,
        s.opening_date,
    );
    let st5 = with_balance(st4, true, s.opening_balance, s.opening_indicator, s.opening_date);
    lemma_balance(
        st5,
        false,
        s.currency,
        s.closing_balance,
        s.closing_indicator,
        s.closing_date,
    );
    let st6 = with_balance(st5, false, s.closing_balance, s.closing_indicator, s.closing_date);
    lemma_then(st4, opening, st5, closing);
    assert(fold(st4, balances_events(s)) == Ok::<ParserView, ErrorView>(st6));
    lemma_entries(st6, s.transactions, s.currency);
    let st7 = ParserView { transactions: st6.transactions + by_day(s.transactions), ..st6 };
    lemma_then(st3, account, st4, balances_events(s));
    lemma_then(st3, account + balances_events(s), st6, entries);
    let inner = account + balances_events(s) + entries;
    assert(fold(st3, inner) == Ok::<ParserView, ErrorView>(st7));
    lemma_wrapped(st2, ElementName::Stmt, inner, st7);
    let st8 = at(st7, st2.path);
    lemma_wrapped(st1, ElementName::BkToCstmrStmt, wrapped(ElementName::Stmt, inner), st8);
    let st9 = at(st8, st1.path);
    assert(fold(st1, body_events(s)) == Ok::<ParserView, ErrorView>(st9));
    // the end of the root
    lemma_step_close(st9, document, document);
    let st10 = at(st9, st9.path.drop_last());
    lemma_fold_one(st9, close_tag(document));
    lemma_then(st0, head, st1, body_events(s));
    lemma_then(st0, head + body_events(s), st9, seq![close_tag(document)]);
    assert(fold(st0, events) == Ok::<ParserView, ErrorView>(st10));
    assert(st10.transactions =~= by_day(s.transactions));
    assert(st10.built() == Ok::<StatementView, ErrorView>(s.by_day()));
}

/// An entry that closes without an amount, an indicator or a booking date
/// leaves no trace: the document is read as if the entry were not in it,
/// whatever stands before and behind it.
pub(crate) proof fn lemma_partial_entry_changes_nothing(
    start: ParserView,
    before: Seq<XmlEventView>,
    inner: Seq<XmlEventView>,
    after: Seq<XmlEventView>,
    st: ParserView,
    read: EntryScratchView,
)
    requires
        fold(start, before) == Ok::<ParserView, ErrorView>(st),
        st.entry_scratch is None,
        fold(
            ParserView {
                path: st.path.push(ElementName::Entry),
                entry_scratch: Some(EntryScratchView::empty()),
                ..st
            },
            inner,
        ) == Ok::<ParserView, ErrorView>(
            ParserView { path: st.path.push(ElementName::Entry), entry_scratch: Some(read), ..st },
        ),
        read.amount is None || read.indicator is None || read.booking_date is None,
    ensures
        fold(start, before + wrapped(ElementName::Entry, inner) + after) == fold(
            start,
            before + after,
        ),
{
    let e = ElementName::Entry;
    let opened = ParserView {
        path: st.path.push(e),
        entry_scratch: Some(EntryScratchView::empty()),
        ..st
    };
    let filled = ParserView { path: st.path.push(e), entry_scratch: Some(read), ..st };
    lemma_element_is_read(e);
    assert(step(st, open_tag(e)) == Ok::<ParserView, ErrorView>(opened));
    assert(filled.path.drop_last() =~= st.path);
    assert(step(filled, close_tag(e)) == Ok::<ParserView, ErrorView>(st));
    lemma_fold_one(st, open_tag(e));
    lemma_fold_one(filled, close_tag(e));
    lemma_then(st, seq![open_tag(e)], opened, inner);
    lemma_then(st, seq![open_tag(e)] + inner, filled, seq![close_tag(e)]);
    let entry = wrapped(e, inner);
    assert(fold(st, entry) == Ok::<ParserView, ErrorView>(st));
    lemma_then(start, before, st, entry);
    lemma_then(start, before + entry, st, after);
    lemma_then(start, before, st, after);
}

/// A balance that closes with a type other than `OPBD` and `CLBD`, or
/// with none, leaves no trace: the document is read as if the balance were
/// not in it, whatever stands before and behind it.
pub(crate) proof fn lemma_other_balance_changes_nothing(
    start: ParserView,
    before: Seq<XmlEventView>,
    inner: Seq<XmlEventView>,
    after: Seq<XmlEventView>,
    st: ParserView,
    read: BalanceScratchView,
)
    requires
        fold(start, before) == Ok::<ParserView, ErrorView>(st),
        st.balance_scratch == BalanceScratchView::empty(),
        fold(ParserView { path: st.path.push(ElementName::Balance), ..st }, inner) == Ok::<
            ParserView,
            ErrorView,
        >(ParserView { path: st.path.push(ElementName::Balance), balance_scratch: read, ..st }),
        read.balance_type matches Some(code) ==> ascii_lowercase(code) != "opbd"@
            && ascii_lowercase(code) != "clbd"@,
    ensures
        fold(start, before + wrapped(ElementName::Balance, inner) + after) == fold(
            start,
            before + after,
        ),
{
    let e = ElementName::Balance;
    let opened = ParserView { path: st.path.push(e), ..st };
    let filled = ParserView { path: st.path.push(e), balance_scratch: read, ..st };
    lemma_element_is_read(e);
    assert(step(st, open_tag(e)) == Ok::<ParserView, ErrorView>(opened));
    assert(filled.path.drop_last() =~= st.path);
    assert(step(filled, close_tag(e)) == Ok::<ParserView, ErrorView>(st));
    lemma_fold_one(st, open_tag(e));
    lemma_fold_one(filled, close_tag(e));
    lemma_then(st, seq![open_tag(e)], opened, inner);
    lemma_then(st, seq![open_tag(e)] + inner, filled, seq![close_tag(e)]);
    let balance = wrapped(e, inner);
    assert(fold(st, balance) == Ok::<ParserView, ErrorView>(st));
    lemma_then(start, before, st, balance);
    lemma_then(start, before + balance, st, after);
    lemma_then(start, before, st, after);
}

/// Where no event ends the document before its last, the statement of the
/// events is built from the state after all of them.
pub(crate) proof fn lemma_statement_is_built_from_fold(events: Seq<XmlEventView>)
    requires
        are_writable(events),
    ensures
        statement_of_events(events) == match fold(ParserView::initial(), events) {
            Err(e) => Err::<StatementView, ErrorView>(e),
            Ok(state) => state.built(),
        },
{
    lemma_run_is_fold(ParserView::initial(), events, 0);
    assert(events.skip(0) =~= events);
}

} // verus!
