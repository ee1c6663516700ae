//! The events that state a statement as a document.

use super::elements::ElementName;
use super::xml::{
    are_writable, attributes_view, events_view, is_writable, pair_of, render, xml_document,
    XmlAttribute, XmlAttributeView, XmlEvent, XmlEventView,
};
use super::Camt053Statement;
use crate::amount::{amount_text, write_amount, Amount};
use crate::date::{Timestamp, TimestampView};
use crate::error::ParseError;
use crate::model::{
    transactions_view, BalanceType, StatementView, Transaction, TransactionType, TransactionView,
};
use crate::text::{decimal_digits, digits_of, string_of};
use vstd::prelude::*;
use vstd::string::StrSliceExecFns;

verus! {

/// The start tag of an element, without attributes.
pub open spec fn open_tag(element: ElementName) -> XmlEventView {
    XmlEventView::Start {
        name: vstd::utf8::encode_utf8(element.tag_text()),
        attributes: Seq::empty(),
    }
}

/// The start tag of an element with one attribute.
pub open spec fn open_tag_with(element: ElementName, key: Seq<char>, value: Seq<char>) -> XmlEventView {
    XmlEventView::Start {
        name: vstd::utf8::encode_utf8(element.tag_text()),
        attributes: seq![pair_of(key, value)],
    }
}

/// The end tag of an element.
pub open spec fn close_tag(element: ElementName) -> XmlEventView {
    XmlEventView::End { name: vstd::utf8::encode_utf8(element.tag_text()) }
}

/// An element that holds a text and nothing else.
pub open spec fn leaf(element: ElementName, text: Seq<char>) -> Seq<XmlEventView> {
    seq![open_tag(element), XmlEventView::Text(text), close_tag(element)]
}

/// An element that holds one other element.
pub open spec fn wrapped(element: ElementName, inner: Seq<XmlEventView>) -> Seq<XmlEventView> {
    seq![open_tag(element)] + inner + seq![close_tag(element)]
}

/// The word for a balance indicator.
pub open spec fn balance_word(indicator: BalanceType) -> Seq<char> {
    match indicator {
        BalanceType::Credit => "CRDT"@,
        BalanceType::Debit => "DBIT"@,
    }
}

/// The word for the direction of a transaction.
pub open spec fn transaction_word(direction: TransactionType) -> Seq<char> {
    match direction {
        TransactionType::Credit => "CRDT"@,
        TransactionType::Debit => "DBIT"@,
    }
}

/// An amount with its currency as an attribute, with two places behind
/// the point.
pub open spec fn amount_events(currency: Seq<char>, amount: nat) -> Seq<XmlEventView> {
    seq![
        open_tag_with(ElementName::Amount, "Ccy"@, currency),
        XmlEventView::Text(amount_text(amount, '.')),
        close_tag(ElementName::Amount),
    ]
}

/// The account of the statement: its identification and its currency.
pub open spec fn account_events(account: Seq<char>, currency: Seq<char>) -> Seq<XmlEventView> {
    wrapped(
        ElementName::Acct,
        wrapped(ElementName::Id, leaf(ElementName::Iban, account)) + leaf(
            ElementName::Currency,
            currency,
        ),
    )
}

/// A balance: its type code, amount, indicator and day.
pub open spec fn balance_events(
    code: Seq<char>,
    currency: Seq<char>,
    amount: nat,
    indicator: BalanceType,
    date: TimestampView,
) -> Seq<XmlEventView> {
    wrapped(
        ElementName::Balance,
        wrapped(
            ElementName::BalanceType,
            wrapped(ElementName::CodeOrProprietary, leaf(ElementName::Code, code)),
        ) + amount_events(currency, amount) + leaf(ElementName::CreditDebit, balance_word(indicator))
            + wrapped(ElementName::Date, leaf(ElementName::Date, date.iso_day())),
    )
}

/// The value date of an entry, where it has one.
pub open spec fn value_date_events(value_date: Option<Seq<char>>) -> Seq<XmlEventView> {
    match value_date {
        Some(v) => wrapped(ElementName::ValueDate, leaf(ElementName::Date, v)),
        None => Seq::empty(),
    }
}

/// The references of a transaction, where it has one.
pub open spec fn reference_events(reference: Option<Seq<char>>) -> Seq<XmlEventView> {
    match reference {
        Some(r) => wrapped(ElementName::References, leaf(ElementName::TransactionId, r)),
        None => Seq::empty(),
    }
}

/// The element of the other party: the debtor of a credit, the creditor of
/// a debit.
pub open spec fn party_element(direction: TransactionType) -> ElementName {
    match direction {
        TransactionType::Credit => ElementName::Debtor,
        TransactionType::Debit => ElementName::Creditor,
    }
}

/// The element of the account of the other party.
pub open spec fn party_account_element(direction: TransactionType) -> ElementName {
    match direction {
        TransactionType::Credit => ElementName::DebtorAccount,
        TransactionType::Debit => ElementName::CreditorAccount,
    }
}

/// The name of the other party, where there is one.
pub open spec fn party_name_events(direction: TransactionType, name: Option<Seq<char>>) -> Seq<
    XmlEventView,
> {
    match name {
        Some(n) => wrapped(party_element(direction), leaf(ElementName::Name, n)),
        None => Seq::empty(),
    }
}

/// The account of the other party, where there is one.
pub open spec fn party_account_events(
    direction: TransactionType,
    account: Option<Seq<char>>,
) -> Seq<XmlEventView> {
    match account {
        Some(a) => wrapped(
            party_account_element(direction),
            wrapped(ElementName::Id, leaf(ElementName::Iban, a)),
        ),
        None => Seq::empty(),
    }
}

/// The parties of a transaction, where the name or the account of the
/// other party is known.
pub open spec fn parties_events(t: TransactionView) -> Seq<XmlEventView> {
    if t.counterparty_name is Some || t.counterparty_account is Some {
        wrapped(
            ElementName::RelatedParties,
            party_name_events(t.transaction_type, t.counterparty_name) + party_account_events(
                t.transaction_type,
                t.counterparty_account,
            ),
        )
    } else {
        Seq::empty()
    }
}

/// The remittance information of a transaction, where it has a narrative.
pub open spec fn remittance_events(description: Seq<char>) -> Seq<XmlEventView> {
    if description.len() > 0 {
        wrapped(
            ElementName::RemittanceInfo,
            leaf(ElementName::UnstructuredRemittance, description),
        )
    } else {
        Seq::empty()
    }
}

/// One entry: its number in the statement as reference, amount, indicator,
/// booking date, value date, and the details of its transaction. What the
/// transaction does not have is left out, not written empty.
pub open spec fn entry_events(t: TransactionView, number: nat, currency: Seq<char>) -> Seq<
    XmlEventView,
> {
    wrapped(
        ElementName::Entry,
        leaf(ElementName::EntryRef, decimal_digits(number)) + amount_events(currency, t.amount)
            + leaf(ElementName::CreditDebit, transaction_word(t.transaction_type)) + wrapped(
            ElementName::BookingDate,
            leaf(ElementName::Date, t.booking_date.iso_day()),
        ) + value_date_events(t.value_date) + wrapped(
            ElementName::EntryDetails,
            wrapped(
                ElementName::TransactionDetails,
                reference_events(t.reference) + parties_events(t) + remittance_events(
                    t.description,
                ),
            ),
        ),
    )
}

/// The entries of a statement, numbered from 1.
pub open spec fn entries_events(ts: Seq<TransactionView>, currency: Seq<char>) -> Seq<XmlEventView>
    decreases ts.len(),
{
    if ts.len() == 0 {
        Seq::empty()
    } else {
        entries_events(ts.drop_last(), currency) + entry_events(ts.last(), ts.len(), currency)
    }
}

/// The balances of a statement: the opening balance, then the closing one.
pub open spec fn balances_events(s: StatementView) -> Seq<XmlEventView> {
    balance_events(
        "OPBD"@,
        s.currency,
        s.opening_balance,
        s.opening_indicator,
        s.opening_date,
    ) + balance_events(
        "CLBD"@,
        s.currency,
        s.closing_balance,
        s.closing_indicator,
        s.closing_date,
    )
}

/// The statement element with all that it holds.
pub open spec fn body_events(s: StatementView) -> Seq<XmlEventView> {
    wrapped(
        ElementName::BkToCstmrStmt,
        wrapped(
            ElementName::Stmt,
            account_events(s.account_number, s.currency) + balances_events(s) + entries_events(
                s.transactions,
                s.currency,
            ),
        ),
    )
}

/// The events of the document that states a statement: the declaration,
/// then the root element in the namespace of the format, with the statement
/// in it.
pub open spec fn statement_events(s: StatementView) -> Seq<XmlEventView> {
    seq![
        XmlEventView::Declaration,
        open_tag_with(
            ElementName::Document,
            "xmlns"@,
            "urn:iso:std:iso:20022:tech:xsd:camt.053.001.02"@,
        ),
    ] + body_events(s) + seq![close_tag(ElementName::Document)]
}

/// Every event of the sequence can be written.
#[verifier::opaque]
pub open spec fn can_be_written(events: Seq<XmlEventView>) -> bool {
    are_writable(events)
}

proof fn lemma_tags_are_writable(e: ElementName)
    ensures
        is_writable(open_tag(e)),
        is_writable(close_tag(e)),
{
    vstd::utf8::encode_utf8_valid_utf8(e.tag_text());
}

proof fn lemma_tag_with_is_writable(e: ElementName, key: Seq<char>, value: Seq<char>)
    ensures
        is_writable(open_tag_with(e, key, value)),
{
    vstd::utf8::encode_utf8_valid_utf8(e.tag_text());
    vstd::utf8::encode_utf8_valid_utf8(key);
    vstd::utf8::encode_utf8_valid_utf8(value);
}

proof fn lemma_written_concat(a: Seq<XmlEventView>, b: Seq<XmlEventView>)
    requires
        can_be_written(a),
        can_be_written(b),
    ensures
        can_be_written(a + b),
{
    reveal(can_be_written);
    assert forall|i: int| 0 <= i < (a + b).len() implies is_writable(#[trigger] (a + b)[i]) by {
        if i < a.len() {
            assert((a + b)[i] == a[i]);
        } else {
            assert((a + b)[i] == b[i - a.len()]);
        }
    }
}

proof fn lemma_written_leaf(e: ElementName, text: Seq<char>)
    ensures
        can_be_written(leaf(e, text)),
{
    reveal(can_be_written);
    lemma_tags_are_writable(e);
}

proof fn lemma_written_one(event: XmlEventView)
    requires
        is_writable(event),
    ensures
        can_be_written(seq![event]),
{
    reveal(can_be_written);
}

proof fn lemma_written_nothing()
    ensures
        can_be_written(Seq::<XmlEventView>::empty()),
{
    reveal(can_be_written);
}

proof fn lemma_written_amount(currency: Seq<char>, amount: nat)
    ensures
        can_be_written(amount_events(currency, amount)),
{
    reveal(can_be_written);
    lemma_tags_are_writable(ElementName::Amount);
    lemma_tag_with_is_writable(ElementName::Amount, "Ccy"@, currency);
}

proof fn lemma_written_wrapped(e: ElementName, inner: Seq<XmlEventView>)
    requires
        can_be_written(inner),
    ensures
        can_be_written(wrapped(e, inner)),
{
    lemma_tags_are_writable(e);
    lemma_written_one(open_tag(e));
    lemma_written_one(close_tag(e));
    lemma_written_concat(seq![open_tag(e)], inner);
    lemma_written_concat(seq![open_tag(e)] + inner, seq![close_tag(e)]);
}

proof fn lemma_written_wrapped_leaf(outer: ElementName, e: ElementName, text: Seq<char>)
    ensures
        can_be_written(wrapped(outer, leaf(e, text))),
{
    lemma_written_leaf(e, text);
    lemma_written_wrapped(outer, leaf(e, text));
}

proof fn lemma_written_balance(
    code: Seq<char>,
    currency: Seq<char>,
    amount: nat,
    indicator: BalanceType,
    date: TimestampView,
)
    ensures
        can_be_written(balance_events(code, currency, amount, indicator, date)),
{
    let inner = wrapped(ElementName::CodeOrProprietary, leaf(ElementName::Code, code));
    let a = wrapped(ElementName::BalanceType, inner);
    let b = amount_events(currency, amount);
    let c = leaf(ElementName::CreditDebit, balance_word(indicator));
    let d = wrapped(ElementName::Date, leaf(ElementName::Date, date.iso_day()));
    lemma_written_wrapped_leaf(ElementName::CodeOrProprietary, ElementName::Code, code);
    lemma_written_wrapped(ElementName::BalanceType, inner);
    lemma_written_amount(currency, amount);
    lemma_written_leaf(ElementName::CreditDebit, balance_word(indicator));
    lemma_written_wrapped_leaf(ElementName::Date, ElementName::Date, date.iso_day());
    lemma_written_concat(a, b);
    lemma_written_concat(a + b, c);
    lemma_written_concat(a + b + c, d);
    lemma_written_wrapped(ElementName::Balance, a + b + c + d);
}

proof fn lemma_written_entry(t: TransactionView, number: nat, currency: Seq<char>)
    ensures
        can_be_written(entry_events(t, number, currency)),
{
    lemma_written_nothing();
    lemma_written_leaf(ElementName::EntryRef, decimal_digits(number));
    lemma_written_amount(currency, t.amount);
    lemma_written_leaf(ElementName::CreditDebit, transaction_word(t.transaction_type));
    let a = leaf(ElementName::EntryRef, decimal_digits(number));
    let b = amount_events(currency, t.amount);
    let c = leaf(ElementName::CreditDebit, transaction_word(t.transaction_type));
    let d = wrapped(ElementName::BookingDate, leaf(ElementName::Date, t.booking_date.iso_day()));
    let v = value_date_events(t.value_date);
    lemma_written_wrapped_leaf(ElementName::BookingDate, ElementName::Date, t.booking_date.iso_day());
    match t.value_date {
        Some(text) => {
            lemma_written_wrapped_leaf(ElementName::ValueDate, ElementName::Date, text);
        },
        None => {},
    }
    let r = reference_events(t.reference);
    match t.reference {
        Some(text) => {
            lemma_written_wrapped_leaf(ElementName::References, ElementName::TransactionId, text);
        },
        None => {},
    }
    let names = party_name_events(t.transaction_type, t.counterparty_name);
    match t.counterparty_name {
        Some(text) => {
            lemma_written_wrapped_leaf(
                party_element(t.transaction_type),
                ElementName::Name,
                text,
            );
        },
        None => {},
    }
    let accounts = party_account_events(t.transaction_type, t.counterparty_account);
    match t.counterparty_account {
        Some(text) => {
            lemma_written_wrapped_leaf(ElementName::Id, ElementName::Iban, text);
            lemma_written_wrapped(
                party_account_element(t.transaction_type),
                wrapped(ElementName::Id, leaf(ElementName::Iban, text)),
            );
        },
        None => {},
    }
    let pt = parties_events(t);
    lemma_written_concat(names, accounts);
    if t.counterparty_name is Some || t.counterparty_account is Some {
        lemma_written_wrapped(ElementName::RelatedParties, names + accounts);
    }
    let rm = remittance_events(t.description);
    if t.description.len() > 0 {
        lemma_written_wrapped_leaf(
            ElementName::RemittanceInfo,
            ElementName::UnstructuredRemittance,
            t.description,
        );
    }
    lemma_written_concat(r, pt);
    lemma_written_concat(r + pt, rm);
    lemma_written_wrapped(ElementName::TransactionDetails, r + pt + rm);
    let det = wrapped(
        ElementName::EntryDetails,
        wrapped(ElementName::TransactionDetails, r + pt + rm),
    );
    lemma_written_wrapped(
        ElementName::EntryDetails,
        wrapped(ElementName::TransactionDetails, r + pt + rm),
    );
    lemma_written_concat(a, b);
    lemma_written_concat(a + b, c);
    lemma_written_concat(a + b + c, d);
    lemma_written_concat(a + b + c + d, v);
    lemma_written_concat(a + b + c + d + v, det);
    lemma_written_wrapped(ElementName::Entry, a + b + c + d + v + det);
}

proof fn lemma_written_entries(ts: Seq<TransactionView>, currency: Seq<char>)
    ensures
        can_be_written(entries_events(ts, currency)),
    decreases ts.len(),
{
    lemma_written_nothing();
    if ts.len() > 0 {
        lemma_written_entries(ts.drop_last(), currency);
        lemma_written_entry(ts.last(), ts.len(), currency);
        lemma_written_concat(
            entries_events(ts.drop_last(), currency),
            entry_events(ts.last(), ts.len(), currency),
        );
    }
}

/// Every event that the encoder makes can be written.
pub proof fn lemma_events_are_writable(s: StatementView)
    ensures
        are_writable(statement_events(s)),
{
    let first = wrapped(ElementName::Id, leaf(ElementName::Iban, s.account_number));
    let second = leaf(ElementName::Currency, s.currency);
    lemma_written_wrapped_leaf(ElementName::Id, ElementName::Iban, s.account_number);
    lemma_written_leaf(ElementName::Currency, s.currency);
    lemma_written_concat(first, second);
    lemma_written_wrapped(ElementName::Acct, first + second);
    let account = account_events(s.account_number, s.currency);
    let opening = balance_events(
        "OPBD"@,
        s.currency,
        s.opening_balance,
        s.opening_indicator,
        s.opening_date,
    );
    let closing = balance_events(
        "CLBD"@,
        s.currency,
        s.closing_balance,
        s.closing_indicator,
        s.closing_date,
    );
    lemma_written_balance(
        "OPBD"@,
        s.currency,
        s.opening_balance,
        s.opening_indicator,
        s.opening_date,
    );
    lemma_written_balance(
        "CLBD"@,
        s.currency,
        s.closing_balance,
        s.closing_indicator,
        s.closing_date,
    );
    lemma_written_concat(opening, closing);
    let entries = entries_events(s.transactions, s.currency);
    lemma_written_entries(s.transactions, s.currency);
    lemma_written_concat(account, balances_events(s));
    lemma_written_concat(account + balances_events(s), entries);
    let inner = account + balances_events(s) + entries;
    lemma_written_wrapped(ElementName::Stmt, inner);
    lemma_written_wrapped(ElementName::BkToCstmrStmt, wrapped(ElementName::Stmt, inner));
    let head = seq![
        XmlEventView::Declaration,
        open_tag_with(
            ElementName::Document,
            "xmlns"@,
            "urn:iso:std:iso:20022:tech:xsd:camt.053.001.02"@,
        ),
    ];
    lemma_tags_are_writable(ElementName::Document);
    lemma_tag_with_is_writable(
        ElementName::Document,
        "xmlns"@,
        "urn:iso:std:iso:20022:tech:xsd:camt.053.001.02"@,
    );
    lemma_written_one(XmlEventView::Declaration);
    lemma_written_one(
        open_tag_with(
            ElementName::Document,
            "xmlns"@,
            "urn:iso:std:iso:20022:tech:xsd:camt.053.001.02"@,
        ),
    );
    lemma_written_concat(
        seq![XmlEventView::Declaration],
        seq![
            open_tag_with(
                ElementName::Document,
                "xmlns"@,
                "urn:iso:std:iso:20022:tech:xsd:camt.053.001.02"@,
            ),
        ],
    );
    assert(head =~= seq![XmlEventView::Declaration] + seq![
        open_tag_with(
            ElementName::Document,
            "xmlns"@,
            "urn:iso:std:iso:20022:tech:xsd:camt.053.001.02"@,
        ),
    ]);
    lemma_written_one(close_tag(ElementName::Document));
    lemma_written_concat(head, body_events(s));
    lemma_written_concat(head + body_events(s), seq![close_tag(ElementName::Document)]);
    reveal(can_be_written);
}

/// Appends the events of `part` to `out`.
fn append_events(out: &mut Vec<XmlEvent>, part: Vec<XmlEvent>)
    ensures
        events_view(final(out)@) == events_view(old(out)@) + events_view(part@),
{
    let mut rest = part;
    out.append(&mut rest);
    assert(events_view(out@) =~= events_view(old(out)@) + events_view(part@));
}

/// The start tag of an element, without attributes.
fn start_of(element: ElementName) -> (e: XmlEvent)
    ensures
        e@ == open_tag(element),
{
    let e = XmlEvent::Start { name: element.tag().as_bytes_vec(), attributes: Vec::new() };
    assert(attributes_view(Seq::<XmlAttribute>::empty()) =~= Seq::<XmlAttributeView>::empty());
    e
}

/// The start tag of an element with one attribute.
fn start_with(element: ElementName, key: &str, value: &str) -> (e: XmlEvent)
    ensures
        e@ == open_tag_with(element, key@, value@),
{
    let mut attributes: Vec<XmlAttribute> = Vec::new();
    attributes.push(XmlAttribute::Pair { key: key.as_bytes_vec(), value: value.as_bytes_vec() });
    assert(attributes_view(attributes@) =~= seq![pair_of(key@, value@)]);
    XmlEvent::Start { name: element.tag().as_bytes_vec(), attributes }
}

/// The end tag of an element.
fn end_of(element: ElementName) -> (e: XmlEvent)
    ensures
        e@ == close_tag(element),
{
    XmlEvent::End { name: element.tag().as_bytes_vec() }
}

/// An element that holds a text and nothing else.
fn leaf_of(element: ElementName, text: &str) -> (r: Vec<XmlEvent>)
    ensures
        events_view(r@) == leaf(element, text@),
{
    let mut r: Vec<XmlEvent> = Vec::new();
    r.push(start_of(element));
    r.push(XmlEvent::Text(text.to_owned()));
    r.push(end_of(element));
    assert(events_view(r@) =~= leaf(element, text@));
    r
}

/// An element that holds the events of `inner`.
fn wrap(element: ElementName, inner: Vec<XmlEvent>) -> (r: Vec<XmlEvent>)
    ensures
        events_view(r@) == wrapped(element, events_view(inner@)),
{
    let mut r: Vec<XmlEvent> = Vec::new();
    r.push(start_of(element));
    assert(events_view(r@) =~= seq![open_tag(element)]);
    append_events(&mut r, inner);
    let ghost before = events_view(r@);
    r.push(end_of(element));
    assert(events_view(r@) =~= before + seq![close_tag(element)]);
    r
}

/// An amount with its currency as an attribute.
fn amount_of(currency: &str, amount: Amount) -> (r: Vec<XmlEvent>)
    ensures
        events_view(r@) == amount_events(currency@, amount.minor_units as nat),
{
    let mut r: Vec<XmlEvent> = Vec::new();
    r.push(start_with(ElementName::Amount, "Ccy", currency));
    r.push(XmlEvent::Text(string_of(write_amount(amount, '.').as_slice())));
    r.push(end_of(ElementName::Amount));
    assert(events_view(r@) =~= amount_events(currency@, amount.minor_units as nat));
    r
}

/// The events of a statement, made from the statement that it holds.
pub struct CamtWriter<'a> {
    statement: &'a Camt053Statement,
}

impl<'a> CamtWriter<'a> {
    /// A writer for `statement`.
    pub fn new(statement: &'a Camt053Statement) -> (r: Self)
        ensures
            r.statement_view() == statement@,
    {
        CamtWriter { statement }
    }

    /// The statement that the writer holds.
    pub closed spec fn statement_view(&self) -> StatementView {
        self.statement@
    }

    /// The document that states the statement. Every statement has one.
    pub fn write(self) -> (r: Result<Vec<u8>, ParseError>)
        ensures
            r matches Ok(bytes) && bytes@ == xml_document(statement_events(self.statement_view())),
    {
        let events = self.events();
        proof {
            lemma_events_are_writable(self.statement_view());
        }
        render(&events)
    }

    /// The events of the document that states the statement.
    pub fn events(&self) -> (r: Vec<XmlEvent>)
        ensures
            events_view(r@) == statement_events(self.statement_view()),
    {
        let mut out: Vec<XmlEvent> = Vec::new();
        out.push(XmlEvent::Declaration);
        out.push(
            start_with(
                ElementName::Document,
                "xmlns",
                "urn:iso:std:iso:20022:tech:xsd:camt.053.001.02",
            ),
        );
        assert(events_view(out@) =~= seq![
            XmlEventView::Declaration,
            open_tag_with(
                ElementName::Document,
                "xmlns"@,
                "urn:iso:std:iso:20022:tech:xsd:camt.053.001.02"@,
            ),
        ]);
        append_events(&mut out, self.write_statement());
        let ghost before = events_view(out@);
        out.push(end_of(ElementName::Document));
        assert(events_view(out@) =~= before + seq![close_tag(ElementName::Document)]);
        out
    }

    /// The statement element with all that it holds.
    fn write_statement(&self) -> (r: Vec<XmlEvent>)
        ensures
            events_view(r@) == body_events(self.statement_view()),
    {
        let mut inner = self.write_account();
        append_events(&mut inner, self.write_balances());
        append_events(&mut inner, self.write_entries());
        wrap(ElementName::BkToCstmrStmt, wrap(ElementName::Stmt, inner))
    }

    /// The account of the statement.
    fn write_account(&self) -> (r: Vec<XmlEvent>)
        ensures
            events_view(r@) == account_events(
                self.statement_view().account_number,
                self.statement_view().currency,
            ),
    {
        let mut inner = wrap(
            ElementName::Id,
            leaf_of(ElementName::Iban, self.statement.account_number.as_str()),
        );
        append_events(&mut inner, leaf_of(ElementName::Currency, self.statement.currency.as_str()));
        wrap(ElementName::Acct, inner)
    }

    /// The opening balance and the closing balance.
    fn write_balances(&self) -> (r: Vec<XmlEvent>)
        ensures
            events_view(r@) == balances_events(self.statement_view()),
    {
        let mut r = self.write_balance(
            "OPBD",
            self.statement.opening_balance,
            self.statement.opening_indicator,
            &self.statement.opening_date,
        );
        append_events(
            &mut r,
            self.write_balance(
                "CLBD",
                self.statement.closing_balance,
                self.statement.closing_indicator,
                &self.statement.closing_date,
            ),
        );
        r
    }

    /// One balance.
    fn write_balance(
        &self,
        balance_type: &str,
        amount: Amount,
        indicator: BalanceType,
        date: &Timestamp,
    ) -> (r: Vec<XmlEvent>)
        ensures
            events_view(r@) == balance_events(
                balance_type@,
                self.statement_view().currency,
                amount.minor_units as nat,
                indicator,
                date@,
            ),
    {
        let mut inner = wrap(
            ElementName::BalanceType,
            wrap(ElementName::CodeOrProprietary, leaf_of(ElementName::Code, balance_type)),
        );
        append_events(&mut inner, amount_of(self.statement.currency.as_str(), amount));
        let word = match indicator {
            BalanceType::Credit => "CRDT",
            BalanceType::Debit => "DBIT",
        };
        append_events(&mut inner, leaf_of(ElementName::CreditDebit, word));
        append_events(
            &mut inner,
            wrap(ElementName::Date, leaf_of(ElementName::Date, date.iso_date().as_str())),
        );
        wrap(ElementName::Balance, inner)
    }

    /// The entries of the statement, numbered from 1.
    fn write_entries(&self) -> (r: Vec<XmlEvent>)
        ensures
            events_view(r@) == entries_events(
                self.statement_view().transactions,
                self.statement_view().currency,
            ),
    {
        let ghost ts = transactions_view(self.statement.transactions@);
        let ghost currency = self.statement.currency@;
        let mut out: Vec<XmlEvent> = Vec::new();
        let mut i: usize = 0;
        assert(ts.take(0) =~= Seq::<TransactionView>::empty());
        assert(events_view(out@) =~= Seq::<XmlEventView>::empty());
        while i < self.statement.transactions.len()
            invariant
                i <= self.statement.transactions.len(),
                ts == transactions_view(self.statement.transactions@),
                currency == self.statement.currency@,
                events_view(out@) == entries_events(ts.take(i as int), currency),
            decreases self.statement.transactions.len() - i,
        {
            let entry = self.write_entry(&self.statement.transactions[i], i + 1);
            append_events(&mut out, entry);
            i += 1;
            proof {
                assert(ts.take(i as int).drop_last() =~= ts.take(i - 1));
                assert(ts.take(i as int).last() == self.statement.transactions@[i - 1]@);
            }
        }
        assert(ts.take(i as int) =~= ts);
        out
    }

    /// The parties of a transaction.
    fn write_parties(transaction: &Transaction) -> (r: Vec<XmlEvent>)
        ensures
            events_view(r@) == parties_events(transaction@),
    {
        let mut inner: Vec<XmlEvent> = Vec::new();
        assert(events_view(inner@) =~= Seq::<XmlEventView>::empty());
        if transaction.counterparty_name.is_none() && transaction.counterparty_account.is_none() {
            return inner;
        }
        let party = match transaction.transaction_type {
            TransactionType::Credit => ElementName::Debtor,
            TransactionType::Debit => ElementName::Creditor,
        };
        let account = match transaction.transaction_type {
            TransactionType::Credit => ElementName::DebtorAccount,
            TransactionType::Debit => ElementName::CreditorAccount,
        };
        match &transaction.counterparty_name {
            Some(name) => {
                append_events(&mut inner, wrap(party, leaf_of(ElementName::Name, name.as_str())));
            },
            None => {},
        }
        assert(events_view(inner@) =~= party_name_events(
            transaction@.transaction_type,
            transaction@.counterparty_name,
        ));
        let ghost named = events_view(inner@);
        match &transaction.counterparty_account {
            Some(number) => {
                append_events(
                    &mut inner,
                    wrap(
                        account,
                        wrap(ElementName::Id, leaf_of(ElementName::Iban, number.as_str())),
                    ),
                );
            },
            None => {
                assert(named + Seq::<XmlEventView>::empty() =~= named);
            },
        }
        wrap(ElementName::RelatedParties, inner)
    }

    /// One entry with its number in the statement.
    fn write_entry(&self, transaction: &Transaction, entry_ref: usize) -> (r: Vec<XmlEvent>)
        ensures
            events_view(r@) == entry_events(
                transaction@,
                entry_ref as nat,
                self.statement_view().currency,
            ),
    {
        let number = string_of(digits_of(entry_ref as u64).as_slice());
        let mut inner = leaf_of(ElementName::EntryRef, number.as_str());
        append_events(&mut inner, amount_of(self.statement.currency.as_str(), transaction.amount));
        let word = match transaction.transaction_type {
            TransactionType::Credit => "CRDT",
            TransactionType::Debit => "DBIT",
        };
        append_events(&mut inner, leaf_of(ElementName::CreditDebit, word));
        append_events(
            &mut inner,
            wrap(
                ElementName::BookingDate,
                leaf_of(ElementName::Date, transaction.booking_date.iso_date().as_str()),
            ),
        );
        let ghost dated = events_view(inner@);
        match &transaction.value_date {
            Some(value_date) => {
                append_events(
                    &mut inner,
                    wrap(ElementName::ValueDate, leaf_of(ElementName::Date, value_date.as_str())),
                );
            },
            None => {
                assert(dated + Seq::<XmlEventView>::empty() =~= dated);
            },
        }
        let mut details: Vec<XmlEvent> = Vec::new();
        assert(events_view(details@) =~= Seq::<XmlEventView>::empty());
        match &transaction.reference {
            Some(reference) => {
                append_events(
                    &mut details,
                    wrap(
                        ElementName::References,
                        leaf_of(ElementName::TransactionId, reference.as_str()),
                    ),
                );
            },
            None => {},
        }
        assert(events_view(details@) =~= reference_events(transaction@.reference));
        append_events(&mut details, Self::write_parties(transaction));
        let ghost partied = events_view(details@);
        if !transaction.description.as_str().is_empty() {
            append_events(
                &mut details,
                wrap(
                    ElementName::RemittanceInfo,
                    leaf_of(ElementName::UnstructuredRemittance, transaction.description.as_str()),
                ),
            );
        } else {
            assert(partied + Seq::<XmlEventView>::empty() =~= partied);
        }
        append_events(
            &mut inner,
            wrap(ElementName::EntryDetails, wrap(ElementName::TransactionDetails, details)),
        );
        wrap(ElementName::Entry, inner)
    }
}

} // verus!
