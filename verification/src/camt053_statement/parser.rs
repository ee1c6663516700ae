//! The state machine that reads a statement from the events of a document.

use super::elements::{element_of_bytes, same_name, ElementName};
use super::scratch::{BalanceScratch, BalanceScratchView, EntryScratch, EntryScratchView};
use super::values::{
    amount_of, balance_indicator_of, parse_amount, parse_balance_indicator, parse_xml_date,
    xml_date_of,
};
use super::xml::{events_view, XmlAttribute, XmlAttributeView, XmlEvent, XmlEventView};
use super::Camt053Statement;
use crate::amount::Amount;
use crate::date::{Timestamp, TimestampView};
use crate::error::{ErrorView, ParseError};
use crate::model::{
    text_of, transactions_view, BalanceType, StatementView, Transaction, TransactionView,
};
use crate::text::{
    ascii_lowercase, chars_of, same_text, string_of, to_ascii_lowercase, trim, trimmed, utf8_text,
};
use vstd::prelude::*;

verus! {

/// The place in a statement that a piece of text belongs to, by the path
/// of open elements that it stands in.
#[derive(Debug, Clone, Copy, PartialEq, Eq, Structural)]
pub enum TextSlot {
    /// The identification of the account of the statement.
    AccountId,
    /// The currency of the account of the statement.
    AccountCurrency,
    /// The type code of a balance.
    BalanceCode,
    /// The amount of a balance.
    BalanceAmount,
    /// The indicator of a balance.
    BalanceIndicator,
    /// The date of a balance.
    BalanceDate,
    /// The amount of an entry.
    EntryAmount,
    /// The indicator of an entry.
    EntryIndicator,
    /// The booking date of an entry.
    EntryBookingDate,
    /// The value date of an entry.
    EntryValueDate,
    /// The reference of an entry.
    EntryReference,
    /// The identifier of a transaction.
    TransactionId,
    /// Remittance information as free text.
    Remittance,
    /// The reference that the creditor gave.
    CreditorReference,
    /// The name of the debtor.
    DebtorName,
    /// The name of the creditor.
    CreditorName,
    /// The account of the debtor.
    DebtorAccount,
    /// The account of the creditor.
    CreditorAccount,
    /// Additional information on an entry.
    AdditionalInfo,
    /// No place: the text is passed over.
    Nowhere,
}

/// `path` ends with the elements of `suffix`, in order.
pub open spec fn ends_with(path: Seq<ElementName>, suffix: Seq<ElementName>) -> bool {
    suffix.len() <= path.len() && path.skip(path.len() - suffix.len()) == suffix
}

/// The elements down to the details of a transaction.
pub open spec fn details() -> Seq<ElementName> {
    seq![ElementName::Entry, ElementName::EntryDetails, ElementName::TransactionDetails]
}

/// The elements down to the parties of a transaction.
pub open spec fn parties() -> Seq<ElementName> {
    details().push(ElementName::RelatedParties)
}

/// The place that a path of open elements states. The nearest ancestors
/// decide, not the whole path; where two places fit, the one named first
/// here is taken.
pub open spec fn slot_of(path: Seq<ElementName>) -> TextSlot {
    if ends_with(path, seq![ElementName::Acct, ElementName::Id, ElementName::Iban]) || ends_with(
        path,
        seq![ElementName::Acct, ElementName::Id, ElementName::Other, ElementName::Id],
    ) {
        TextSlot::AccountId
    } else if ends_with(path, seq![ElementName::Acct, ElementName::Currency]) {
        TextSlot::AccountCurrency
    } else if ends_with(
        path,
        seq![
            ElementName::Balance,
            ElementName::BalanceType,
            ElementName::CodeOrProprietary,
            ElementName::Code,
        ],
    ) {
        TextSlot::BalanceCode
    } else if ends_with(path, seq![ElementName::Balance, ElementName::Amount]) {
        TextSlot::BalanceAmount
    } else if ends_with(path, seq![ElementName::Balance, ElementName::CreditDebit]) {
        TextSlot::BalanceIndicator
    } else if ends_with(path, seq![ElementName::Balance, ElementName::Date, ElementName::Date]) {
        TextSlot::BalanceDate
    } else if ends_with(path, seq![ElementName::Entry, ElementName::Amount]) {
        TextSlot::EntryAmount
    } else if ends_with(path, seq![ElementName::Entry, ElementName::CreditDebit]) {
        TextSlot::EntryIndicator
    } else if ends_with(
        path,
        seq![ElementName::Entry, ElementName::BookingDate, ElementName::Date],
    ) {
        TextSlot::EntryBookingDate
    } else if ends_with(path, seq![ElementName::Entry, ElementName::ValueDate, ElementName::Date]) {
        TextSlot::EntryValueDate
    } else if ends_with(path, seq![ElementName::Entry, ElementName::EntryRef]) {
        TextSlot::EntryReference
    } else if ends_with(
        path,
        details().push(ElementName::References).push(ElementName::TransactionId),
    ) {
        TextSlot::TransactionId
    } else if ends_with(
        path,
        details().push(ElementName::RemittanceInfo).push(ElementName::UnstructuredRemittance),
    ) {
        TextSlot::Remittance
    } else if ends_with(
        path,
        details().push(ElementName::RemittanceInfo).push(ElementName::StructuredRemittance).push(
            ElementName::CreditorReferenceInfo,
        ).push(ElementName::ReferenceValue),
    ) {
        TextSlot::CreditorReference
    } else if ends_with(path, parties().push(ElementName::Debtor).push(ElementName::Name)) {
        TextSlot::DebtorName
    } else if ends_with(path, parties().push(ElementName::Creditor).push(ElementName::Name)) {
        TextSlot::CreditorName
    } else if ends_with(
        path,
        parties().push(ElementName::DebtorAccount).push(ElementName::Id).push(ElementName::Iban),
    ) || ends_with(
        path,
        parties().push(ElementName::DebtorAccount).push(ElementName::Id).push(
            ElementName::Other,
        ).push(ElementName::Id),
    ) {
        TextSlot::DebtorAccount
    } else if ends_with(
        path,
        parties().push(ElementName::CreditorAccount).push(ElementName::Id).push(ElementName::Iban),
    ) || ends_with(
        path,
        parties().push(ElementName::CreditorAccount).push(ElementName::Id).push(
            ElementName::Other,
        ).push(ElementName::Id),
    ) {
        TextSlot::CreditorAccount
    } else if ends_with(path, seq![ElementName::Entry, ElementName::AdditionalInfo]) {
        TextSlot::AdditionalInfo
    } else {
        TextSlot::Nowhere
    }
}

/// Whether `path` ends with the elements of `suffix`.
pub fn path_ends_with(path: &Vec<ElementName>, suffix: &Vec<ElementName>) -> (r: bool)
    ensures
        r == ends_with(path@, suffix@),
{
    if path.len() < suffix.len() {
        return false;
    }
    let offset = path.len() - suffix.len();
    let mut i: usize = 0;
    while i < suffix.len()
        invariant
            i <= suffix.len(),
            offset == path.len() - suffix.len(),
            forall|k: int| 0 <= k < i ==> path@[offset + k] == suffix@[k],
        decreases suffix.len() - i,
    {
        if path[offset + i] != suffix[i] {
            assert(path@.skip(offset as int)[i as int] == path@[offset + i]);
            return false;
        }
        i += 1;
    }
    assert(path@.skip(offset as int) =~= suffix@);
    true
}

/// The elements down to the details of a transaction, and then `tail`.
fn below_details(tail: Vec<ElementName>) -> (r: Vec<ElementName>)
    ensures
        r@ == details() + tail@,
{
    let mut r = vec![ElementName::Entry, ElementName::EntryDetails, ElementName::TransactionDetails];
    let mut rest = tail;
    r.append(&mut rest);
    r
}

/// The elements down to the parties of a transaction, and then `tail`.
fn below_parties(tail: Vec<ElementName>) -> (r: Vec<ElementName>)
    ensures
        r@ == parties() + tail@,
{
    let mut r = vec![
        ElementName::Entry,
        ElementName::EntryDetails,
        ElementName::TransactionDetails,
        ElementName::RelatedParties,
    ];
    let mut rest = tail;
    r.append(&mut rest);
    assert(r@ =~= parties() + tail@) by {
        assert(parties() =~= seq![
            ElementName::Entry,
            ElementName::EntryDetails,
            ElementName::TransactionDetails,
            ElementName::RelatedParties,
        ]);
    }
    r
}

/// The place that the path of open elements states.
pub fn slot(path: &Vec<ElementName>) -> (r: TextSlot)
    ensures
        r == slot_of(path@),
{
    if path_ends_with(path, &vec![ElementName::Acct, ElementName::Id, ElementName::Iban])
        || path_ends_with(
        path,
        &vec![ElementName::Acct, ElementName::Id, ElementName::Other, ElementName::Id],
    ) {
        return TextSlot::AccountId;
    }
    if path_ends_with(path, &vec![ElementName::Acct, ElementName::Currency]) {
        return TextSlot::AccountCurrency;
    }
    if path_ends_with(
        path,
        &vec![
            ElementName::Balance,
            ElementName::BalanceType,
            ElementName::CodeOrProprietary,
            ElementName::Code,
        ],
    ) {
        return TextSlot::BalanceCode;
    }
    if path_ends_with(path, &vec![ElementName::Balance, ElementName::Amount]) {
        return TextSlot::BalanceAmount;
    }
    if path_ends_with(path, &vec![ElementName::Balance, ElementName::CreditDebit]) {
        return TextSlot::BalanceIndicator;
    }
    if path_ends_with(path, &vec![ElementName::Balance, ElementName::Date, ElementName::Date]) {
        return TextSlot::BalanceDate;
    }
    if path_ends_with(path, &vec![ElementName::Entry, ElementName::Amount]) {
        return TextSlot::EntryAmount;
    }
    if path_ends_with(path, &vec![ElementName::Entry, ElementName::CreditDebit]) {
        return TextSlot::EntryIndicator;
    }
    if path_ends_with(path, &vec![ElementName::Entry, ElementName::BookingDate, ElementName::Date]) {
        return TextSlot::EntryBookingDate;
    }
    if path_ends_with(path, &vec![ElementName::Entry, ElementName::ValueDate, ElementName::Date]) {
        return TextSlot::EntryValueDate;
    }
    if path_ends_with(path, &vec![ElementName::Entry, ElementName::EntryRef]) {
        return TextSlot::EntryReference;
    }
    let transaction_id = below_details(vec![ElementName::References, ElementName::TransactionId]);
    assert(transaction_id@ =~= details().push(ElementName::References).push(
        ElementName::TransactionId,
    ));
    if path_ends_with(path, &transaction_id) {
        return TextSlot::TransactionId;
    }
    let remittance = below_details(
        vec![ElementName::RemittanceInfo, ElementName::UnstructuredRemittance],
    );
    assert(remittance@ =~= details().push(ElementName::RemittanceInfo).push(
        ElementName::UnstructuredRemittance,
    ));
    if path_ends_with(path, &remittance) {
        return TextSlot::Remittance;
    }
    let creditor_reference = below_details(
        vec![
            ElementName::RemittanceInfo,
            ElementName::StructuredRemittance,
            ElementName::CreditorReferenceInfo,
            ElementName::ReferenceValue,
        ],
    );
    assert(creditor_reference@ =~= details().push(ElementName::RemittanceInfo).push(
        ElementName::StructuredRemittance,
    ).push(ElementName::CreditorReferenceInfo).push(ElementName::ReferenceValue));
    if path_ends_with(path, &creditor_reference) {
        return TextSlot::CreditorReference;
    }
    let debtor_name = below_parties(vec![ElementName::Debtor, ElementName::Name]);
    assert(debtor_name@ =~= parties().push(ElementName::Debtor).push(ElementName::Name));
    if path_ends_with(path, &debtor_name) {
        return TextSlot::DebtorName;
    }
    let creditor_name = below_parties(vec![ElementName::Creditor, ElementName::Name]);
    assert(creditor_name@ =~= parties().push(ElementName::Creditor).push(ElementName::Name));
    if path_ends_with(path, &creditor_name) {
        return TextSlot::CreditorName;
    }
    let debtor_iban = below_parties(
        vec![ElementName::DebtorAccount, ElementName::Id, ElementName::Iban],
    );
    assert(debtor_iban@ =~= parties().push(ElementName::DebtorAccount).push(ElementName::Id).push(
        ElementName::Iban,
    ));
    let debtor_other = below_parties(
        vec![ElementName::DebtorAccount, ElementName::Id, ElementName::Other, ElementName::Id],
    );
    assert(debtor_other@ =~= parties().push(ElementName::DebtorAccount).push(ElementName::Id).push(
        ElementName::Other,
    ).push(ElementName::Id));
    if path_ends_with(path, &debtor_iban) || path_ends_with(path, &debtor_other) {
        return TextSlot::DebtorAccount;
    }
    let creditor_iban = below_parties(
        vec![ElementName::CreditorAccount, ElementName::Id, ElementName::Iban],
    );
    assert(creditor_iban@ =~= parties().push(ElementName::CreditorAccount).push(
        ElementName::Id,
    ).push(ElementName::Iban));
    let creditor_other = below_parties(
        vec![ElementName::CreditorAccount, ElementName::Id, ElementName::Other, ElementName::Id],
    );
    assert(creditor_other@ =~= parties().push(ElementName::CreditorAccount).push(
        ElementName::Id,
    ).push(ElementName::Other).push(ElementName::Id));
    if path_ends_with(path, &creditor_iban) || path_ends_with(path, &creditor_other) {
        return TextSlot::CreditorAccount;
    }
    if path_ends_with(path, &vec![ElementName::Entry, ElementName::AdditionalInfo]) {
        return TextSlot::AdditionalInfo;
    }
    TextSlot::Nowhere
}

/// The state of reading a document: what has been read of the statement,
/// what is being read of a balance and of an entry, and the path of the
/// elements that are open.
#[derive(Debug)]
pub struct CamtParser {
    /// The account, once read.
    pub account_number: Option<String>,
    /// The currency, once read.
    pub currency: Option<String>,
    /// The opening balance, once read.
    pub opening_balance: Option<Amount>,
    /// The day of the opening balance, once read.
    pub opening_date: Option<Timestamp>,
    /// The indicator of the opening balance, once read.
    pub opening_indicator: Option<BalanceType>,
    /// The closing balance, once read.
    pub closing_balance: Option<Amount>,
    /// The day of the closing balance, once read.
    pub closing_date: Option<Timestamp>,
    /// The indicator of the closing balance, once read.
    pub closing_indicator: Option<BalanceType>,
    /// The transactions of the entries that have closed.
    pub transactions: Vec<Transaction>,
    /// What has been read of the balance that is open.
    pub balance_scratch: BalanceScratch,
    /// What has been read of the entry that is open, if one is.
    pub entry_scratch: Option<EntryScratch>,
    /// The elements that are open, the outermost first.
    pub path: Vec<ElementName>,
}

/// A `CamtParser` as a mathematical value.
pub struct ParserView {
    pub account_number: Option<Seq<char>>,
    pub currency: Option<Seq<char>>,
    pub opening_balance: Option<nat>,
    pub opening_date: Option<TimestampView>,
    pub opening_indicator: Option<BalanceType>,
    pub closing_balance: Option<nat>,
    pub closing_date: Option<TimestampView>,
    pub closing_indicator: Option<BalanceType>,
    pub transactions: Seq<TransactionView>,
    pub balance_scratch: BalanceScratchView,
    pub entry_scratch: Option<EntryScratchView>,
    pub path: Seq<ElementName>,
}

/// The value of an optional amount.
pub open spec fn amount_view(o: Option<Amount>) -> Option<nat> {
    match o {
        Some(a) => Some(a.minor_units as nat),
        None => None,
    }
}

/// The value of an optional timestamp.
pub open spec fn date_view(o: Option<Timestamp>) -> Option<TimestampView> {
    match o {
        Some(t) => Some(t@),
        None => None,
    }
}

/// The value of an optional entry.
pub open spec fn entry_view(o: Option<EntryScratch>) -> Option<EntryScratchView> {
    match o {
        Some(e) => Some(e@),
        None => None,
    }
}

impl View for CamtParser {
    type V = ParserView;

    open spec fn view(&self) -> ParserView {
        ParserView {
            account_number: text_of(self.account_number),
            currency: text_of(self.currency),
            opening_balance: amount_view(self.opening_balance),
            opening_date: date_view(self.opening_date),
            opening_indicator: self.opening_indicator,
            closing_balance: amount_view(self.closing_balance),
            closing_date: date_view(self.closing_date),
            closing_indicator: self.closing_indicator,
            transactions: transactions_view(self.transactions@),
            balance_scratch: self.balance_scratch@,
            entry_scratch: entry_view(self.entry_scratch),
            path: self.path@,
        }
    }
}

/// The error of this format with the given text.
pub open spec fn camt_error(message: Seq<char>) -> ErrorView {
    ErrorView::Camt053Error(message)
}

/// The currency that the attributes of an amount state: the value of the
/// first attribute named `Ccy`, whatever the case, if it is not blank. An
/// attribute before it that is none is an error.
pub open spec fn currency_in(attributes: Seq<XmlAttributeView>) -> Result<
    Option<Seq<char>>,
    ErrorView,
>
    decreases attributes.len(),
{
    if attributes.len() == 0 {
        Ok(None)
    } else {
        match attributes[0] {
            XmlAttributeView::Malformed(m) => Err(camt_error("XML attribute error: "@ + m)),
            XmlAttributeView::Pair { key, value } => if !vstd::utf8::valid_utf8(key) {
                Err(camt_error("Invalid attribute key encoding"@))
            } else if same_name(vstd::utf8::decode_utf8(key), "ccy"@) {
                if !vstd::utf8::valid_utf8(value) {
                    Err(camt_error("Invalid currency encoding"@))
                } else if trimmed(vstd::utf8::decode_utf8(value)).len() > 0 {
                    Ok(Some(vstd::utf8::decode_utf8(value)))
                } else {
                    Ok(None)
                }
            } else {
                currency_in(attributes.drop_first())
            },
        }
    }
}

/// An entry with a piece of text put in its place.
pub open spec fn entry_with(e: EntryScratchView, slot: TextSlot, text: Seq<char>) -> EntryScratchView {
    match slot {
        TextSlot::EntryAmount => EntryScratchView { amount: Some(text), ..e },
        TextSlot::EntryIndicator => EntryScratchView { indicator: Some(text), ..e },
        TextSlot::EntryBookingDate => EntryScratchView { booking_date: Some(text), ..e },
        TextSlot::EntryValueDate => EntryScratchView { value_date: Some(text), ..e },
        TextSlot::EntryReference => EntryScratchView { ntry_ref: Some(text), ..e },
        TextSlot::TransactionId => EntryScratchView { tx_id: Some(text), ..e },
        TextSlot::Remittance => e.with_description(text),
        TextSlot::CreditorReference => e.with_fallback_description(text),
        TextSlot::DebtorName => EntryScratchView { debtor_name: Some(text), ..e },
        TextSlot::CreditorName => EntryScratchView { creditor_name: Some(text), ..e },
        TextSlot::DebtorAccount => EntryScratchView { debtor_account: Some(text), ..e },
        TextSlot::CreditorAccount => EntryScratchView { creditor_account: Some(text), ..e },
        TextSlot::AdditionalInfo => e.with_description(text),
        _ => e,
    }
}

/// A balance with a piece of text put in its place.
pub open spec fn balance_with(b: BalanceScratchView, slot: TextSlot, text: Seq<char>) -> BalanceScratchView {
    match slot {
        TextSlot::BalanceCode => BalanceScratchView { balance_type: Some(text), ..b },
        TextSlot::BalanceAmount => BalanceScratchView { amount: Some(text), ..b },
        TextSlot::BalanceIndicator => BalanceScratchView { indicator: Some(text), ..b },
        TextSlot::BalanceDate => BalanceScratchView { date: Some(text), ..b },
        _ => b,
    }
}

impl ParserView {
    /// The state before anything is read.
    pub open spec fn initial() -> ParserView {
        ParserView {
            account_number: None,
            currency: None,
            opening_balance: None,
            opening_date: None,
            opening_indicator: None,
            closing_balance: None,
            closing_date: None,
            closing_indicator: None,
            transactions: Seq::empty(),
            balance_scratch: BalanceScratchView::empty(),
            entry_scratch: None,
            path: Seq::empty(),
        }
    }

    /// The state with the currency that the attributes of an amount state,
    /// where none was read before.
    pub open spec fn with_currency_from(self, attributes: Seq<XmlAttributeView>) -> Result<
        ParserView,
        ErrorView,
    > {
        if self.currency is Some {
            Ok(self)
        } else {
            match currency_in(attributes) {
                Err(e) => Err(e),
                Ok(Some(c)) => Ok(ParserView { currency: Some(c), ..self }),
                Ok(None) => Ok(self),
            }
        }
    }

    /// The state after a start tag. The element joins the path; a balance
    /// starts from nothing, an entry too, and an amount may state the
    /// currency.
    pub open spec fn started(self, name: Seq<u8>, attributes: Seq<XmlAttributeView>) -> Result<
        ParserView,
        ErrorView,
    > {
        match element_of_bytes(name) {
            Err(e) => Err(e),
            Ok(element) => {
                let opened = ParserView { path: self.path.push(element), ..self };
                match element {
                    ElementName::Balance => Ok(
                        ParserView { balance_scratch: BalanceScratchView::empty(), ..opened },
                    ),
                    ElementName::Entry => Ok(
                        ParserView { entry_scratch: Some(EntryScratchView::empty()), ..opened },
                    ),
                    ElementName::Amount => opened.with_currency_from(attributes),
                    _ => Ok(opened),
                }
            },
        }
    }

    /// The state with what can be read of the open balance taken as the
    /// opening balance.
    pub open spec fn with_opening(self) -> ParserView {
        let b = self.balance_scratch;
        ParserView {
            opening_balance: if b.amount is Some && amount_of(b.amount->0) is Ok {
                Some(amount_of(b.amount->0)->Ok_0)
            } else {
                self.opening_balance
            },
            opening_indicator: if b.indicator is Some && balance_indicator_of(b.indicator->0)
                is Ok {
                Some(balance_indicator_of(b.indicator->0)->Ok_0)
            } else {
                self.opening_indicator
            },
            opening_date: if b.date is Some && xml_date_of(b.date->0) is Ok {
                Some(xml_date_of(b.date->0)->Ok_0)
            } else {
                self.opening_date
            },
            ..self
        }
    }

    /// The state with what can be read of the open balance taken as the
    /// closing balance.
    pub open spec fn with_closing(self) -> ParserView {
        let b = self.balance_scratch;
        ParserView {
            closing_balance: if b.amount is Some && amount_of(b.amount->0) is Ok {
                Some(amount_of(b.amount->0)->Ok_0)
            } else {
                self.closing_balance
            },
            closing_indicator: if b.indicator is Some && balance_indicator_of(b.indicator->0)
                is Ok {
                Some(balance_indicator_of(b.indicator->0)->Ok_0)
            } else {
                self.closing_indicator
            },
            closing_date: if b.date is Some && xml_date_of(b.date->0) is Ok {
                Some(xml_date_of(b.date->0)->Ok_0)
            } else {
                self.closing_date
            },
            ..self
        }
    }

    /// The state after a balance has closed. A balance of type `OPBD` is
    /// the opening balance, one of type `CLBD` the closing balance; any
    /// other is dropped.
    pub open spec fn balance_closed(self) -> ParserView {
        let code = self.balance_scratch.balance_type;
        let taken = if code is Some && ascii_lowercase(code->0) == "opbd"@ {
            self.with_opening()
        } else if code is Some && ascii_lowercase(code->0) == "clbd"@ {
            self.with_closing()
        } else {
            self
        };
        ParserView { balance_scratch: BalanceScratchView::empty(), ..taken }
    }

    /// The state after an entry has closed: with its transaction, if it
    /// makes one.
    pub open spec fn entry_closed(self) -> ParserView {
        match self.entry_scratch {
            Some(e) => match e.transaction() {
                Some(t) => ParserView {
                    transactions: self.transactions.push(t),
                    entry_scratch: None,
                    ..self
                },
                None => ParserView { entry_scratch: None, ..self },
            },
            None => self,
        }
    }

    /// The state after an end tag: the innermost element leaves the path.
    pub open spec fn ended(self) -> ParserView {
        if self.path.len() == 0 {
            self
        } else {
            let closed = ParserView { path: self.path.drop_last(), ..self };
            match self.path.last() {
                ElementName::Balance => closed.balance_closed(),
                ElementName::Entry => closed.entry_closed(),
                _ => closed,
            }
        }
    }

    /// The state with a piece of text put in a place. The account is taken
    /// where none or an empty one was read, the currency where none was read
    /// and the text is not blank; a text for an entry is dropped where no
    /// entry is open.
    pub open spec fn placed(self, slot: TextSlot, text: Seq<char>) -> ParserView {
        match slot {
            TextSlot::AccountId => if self.account_number is None || self.account_number->0.len()
                == 0 {
                ParserView { account_number: Some(text), ..self }
            } else {
                self
            },
            TextSlot::AccountCurrency => if self.currency is None && trimmed(text).len() > 0 {
                ParserView { currency: Some(text), ..self }
            } else {
                self
            },
            TextSlot::BalanceCode | TextSlot::BalanceAmount | TextSlot::BalanceIndicator
            | TextSlot::BalanceDate => ParserView {
                balance_scratch: balance_with(self.balance_scratch, slot, text),
                ..self
            },
            TextSlot::Nowhere => self,
            _ => match self.entry_scratch {
                Some(e) => ParserView { entry_scratch: Some(entry_with(e, slot, text)), ..self },
                None => self,
            },
        }
    }

    /// The state after a piece of text.
    pub open spec fn texted(self, text: Seq<char>) -> ParserView {
        self.placed(slot_of(self.path), text)
    }

    /// The statement that the state makes at the end of the document. It
    /// needs the account, the currency, and the day and the indicator of both
    /// balances; a balance whose amount was not read is zero.
    pub open spec fn built(self) -> Result<StatementView, ErrorView> {
        if self.account_number is None {
            Err(ErrorView::MissingField("account_number"@))
        } else if self.currency is None {
            Err(ErrorView::MissingField("currency"@))
        } else if self.opening_date is None {
            Err(ErrorView::MissingField("opening_date"@))
        } else if self.opening_indicator is None {
            Err(ErrorView::MissingField("opening_indicator"@))
        } else if self.closing_date is None {
            Err(ErrorView::MissingField("closing_date"@))
        } else if self.closing_indicator is None {
            Err(ErrorView::MissingField("closing_indicator"@))
        } else {
            Ok(
                StatementView {
                    account_number: self.account_number->0,
                    currency: self.currency->0,
                    opening_balance: match self.opening_balance {
                        Some(a) => a,
                        None => 0,
                    },
                    opening_date: self.opening_date->0,
                    opening_indicator: self.opening_indicator->0,
                    closing_balance: match self.closing_balance {
                        Some(a) => a,
                        None => 0,
                    },
                    closing_date: self.closing_date->0,
                    closing_indicator: self.closing_indicator->0,
                    transactions: self.transactions,
                },
            )
        }
    }
}

/// The currency that the attributes of an amount state.
fn find_currency(attributes: &Vec<XmlAttribute>) -> (r: Result<Option<String>, ParseError>)
    ensures
        match r {
            Ok(c) => currency_in(super::xml::attributes_view(attributes@)) == Ok::<
                Option<Seq<char>>,
                ErrorView,
            >(text_of(c)),
            Err(e) => currency_in(super::xml::attributes_view(attributes@)) == Err::<
                Option<Seq<char>>,
                ErrorView,
            >(e@),
        },
{
    let ghost all = super::xml::attributes_view(attributes@);
    let word = to_ascii_lowercase(chars_of("ccy").as_slice());
    let mut i: usize = 0;
    assert(all.skip(0) =~= all);
    while i < attributes.len()
        invariant
            i <= attributes.len(),
            all == super::xml::attributes_view(attributes@),
            word@ == ascii_lowercase("ccy"@),
            currency_in(all) == currency_in(all.skip(i as int)),
        decreases attributes.len() - i,
    {
        assert(all.skip(i as int)[0] == attributes@[i as int]@);
        assert(all.skip(i as int).drop_first() =~= all.skip(i + 1));
        match &attributes[i] {
            XmlAttribute::Malformed(m) => {
                return Err(
                    ParseError::Camt053Error(
                        crate::error::prefixed("XML attribute error: ", chars_of(m).as_slice()),
                    ),
                );
            },
            XmlAttribute::Pair { key, value } => {
                let name = match utf8_text(key.as_slice()) {
                    Some(t) => chars_of(t),
                    None => {
                        return Err(
                            ParseError::Camt053Error("Invalid attribute key encoding".to_owned()),
                        );
                    },
                };
                let lower = to_ascii_lowercase(name.as_slice());
                if same_text(lower.as_slice(), word.as_slice()) {
                    let text = match utf8_text(value.as_slice()) {
                        Some(t) => t,
                        None => {
                            return Err(
                                ParseError::Camt053Error("Invalid currency encoding".to_owned()),
                            );
                        },
                    };
                    if trim(chars_of(text).as_slice()).len() > 0 {
                        return Ok(Some(text.to_owned()));
                    }
                    return Ok(None);
                }
            },
        }
        i += 1;
    }
    Ok(None)
}

/// Puts a piece of text in its place in an entry.
fn place_in_entry(e: &mut EntryScratch, slot: TextSlot, text: &str)
    ensures
        final(e)@ == entry_with(old(e)@, slot, text@),
{
    match slot {
        TextSlot::EntryAmount => {
            e.amount = Some(text.to_owned());
        },
        TextSlot::EntryIndicator => {
            e.indicator = Some(text.to_owned());
        },
        TextSlot::EntryBookingDate => {
            e.booking_date = Some(text.to_owned());
        },
        TextSlot::EntryValueDate => {
            e.value_date = Some(text.to_owned());
        },
        TextSlot::EntryReference => {
            e.ntry_ref = Some(text.to_owned());
        },
        TextSlot::TransactionId => {
            e.tx_id = Some(text.to_owned());
        },
        TextSlot::Remittance => {
            e.push_description(text);
        },
        TextSlot::CreditorReference => {
            e.set_description_if_empty(text);
        },
        TextSlot::DebtorName => {
            e.debtor_name = Some(text.to_owned());
        },
        TextSlot::CreditorName => {
            e.creditor_name = Some(text.to_owned());
        },
        TextSlot::DebtorAccount => {
            e.debtor_account = Some(text.to_owned());
        },
        TextSlot::CreditorAccount => {
            e.creditor_account = Some(text.to_owned());
        },
        TextSlot::AdditionalInfo => {
            e.push_description(text);
        },
        _ => {},
    }
}

impl Default for CamtParser {
    fn default() -> (r: Self)
        ensures
            r@ == ParserView::initial(),
    {
        let r = CamtParser {
            account_number: None,
            currency: None,
            opening_balance: None,
            opening_date: None,
            opening_indicator: None,
            closing_balance: None,
            closing_date: None,
            closing_indicator: None,
            transactions: Vec::new(),
            balance_scratch: BalanceScratch::default(),
            entry_scratch: None,
            path: Vec::new(),
        };
        assert(transactions_view(r.transactions@) =~= Seq::<TransactionView>::empty());
        r
    }
}

impl CamtParser {
    /// Takes a start tag with its qualified name and its attributes.
    pub fn handle_start(&mut self, name: &[u8], attributes: &Vec<XmlAttribute>) -> (r: Result<
        (),
        ParseError,
    >)
        ensures
            match r {
                Ok(_) => old(self)@.started(name@, super::xml::attributes_view(attributes@)) == Ok::<
                    ParserView,
                    ErrorView,
                >(final(self)@),
                Err(e) => old(self)@.started(name@, super::xml::attributes_view(attributes@))
                    == Err::<ParserView, ErrorView>(e@),
            },
    {
        let element = match ElementName::from_name_bytes(name) {
            Ok(e) => e,
            Err(e) => {
                return Err(e);
            },
        };
        self.path.push(element);
        match element {
            ElementName::Balance => {
                self.balance_scratch.clear();
            },
            ElementName::Entry => {
                self.entry_scratch = Some(EntryScratch::default());
            },
            ElementName::Amount => {
                if self.currency.is_none() {
                    match find_currency(attributes) {
                        Ok(Some(c)) => {
                            self.currency = Some(c);
                        },
                        Ok(None) => {},
                        Err(e) => {
                            return Err(e);
                        },
                    }
                }
            },
            _ => {},
        }
        Ok(())
    }

    /// Takes what can be read of the open balance as the opening balance
    /// or as the closing balance.
    fn apply_balance(&mut self, opening: bool)
        ensures
            final(self)@ == if opening {
                old(self)@.with_opening()
            } else {
                old(self)@.with_closing()
            },
    {
        let amount = match &self.balance_scratch.amount {
            Some(text) => match parse_amount(text.as_str()) {
                Ok(a) => Some(a),
                Err(_) => None,
            },
            None => None,
        };
        let indicator = match &self.balance_scratch.indicator {
            Some(text) => match parse_balance_indicator(text.as_str()) {
                Ok(b) => Some(b),
                Err(_) => None,
            },
            None => None,
        };
        let date = match &self.balance_scratch.date {
            Some(text) => match parse_xml_date(text.as_str()) {
                Ok(d) => Some(d),
                Err(_) => None,
            },
            None => None,
        };
        if opening {
            if amount.is_some() {
                self.opening_balance = amount;
            }
            if indicator.is_some() {
                self.opening_indicator = indicator;
            }
            if date.is_some() {
                self.opening_date = date;
            }
        } else {
            if amount.is_some() {
                self.closing_balance = amount;
            }
            if indicator.is_some() {
                self.closing_indicator = indicator;
            }
            if date.is_some() {
                self.closing_date = date;
            }
        }
    }

    /// Closes the open balance.
    fn finish_balance(&mut self)
        ensures
            final(self)@ == old(self)@.balance_closed(),
    {
        let mut opening = false;
        let mut closing = false;
        match &self.balance_scratch.balance_type {
            Some(code) => {
                let lower = to_ascii_lowercase(chars_of(code.as_str()).as_slice());
                opening = same_text(lower.as_slice(), chars_of("opbd").as_slice());
                closing = same_text(lower.as_slice(), chars_of("clbd").as_slice());
            },
            None => {},
        }
        if opening {
            self.apply_balance(true);
        } else if closing {
            self.apply_balance(false);
        }
        self.balance_scratch.clear();
    }

    /// Closes the open entry.
    fn finish_entry(&mut self)
        ensures
            final(self)@ == old(self)@.entry_closed(),
    {
        let mut taken: Option<EntryScratch> = None;
        core::mem::swap(&mut self.entry_scratch, &mut taken);
        match taken {
            Some(entry) => {
                match entry.finish() {
                    Ok(Some(t)) => {
                        let ghost before = transactions_view(self.transactions@);
                        self.transactions.push(t);
                        assert(transactions_view(self.transactions@) =~= before.push(t@));
                    },
                    _ => {},
                }
            },
            None => {},
        }
    }

    /// Takes an end tag.
    pub fn handle_end(&mut self) -> (r: Result<(), ParseError>)
        ensures
            r is Ok,
            final(self)@ == old(self)@.ended(),
    {
        match self.path.pop() {
            Some(ended) => {
                match ended {
                    ElementName::Balance => {
                        self.finish_balance();
                    },
                    ElementName::Entry => {
                        self.finish_entry();
                    },
                    _ => {},
                }
            },
            None => {},
        }
        Ok(())
    }

    /// Takes a piece of text and puts it where the path of open elements
    /// says.
    pub fn handle_text(&mut self, text: &str) -> (r: Result<(), ParseError>)
        ensures
            r is Ok,
            final(self)@ == old(self)@.texted(text@),
    {
        let place = slot(&self.path);
        match place {
            TextSlot::AccountId => {
                let empty = match &self.account_number {
                    Some(a) => a.as_str().is_empty(),
                    None => true,
                };
                if empty {
                    self.account_number = Some(text.to_owned());
                }
            },
            TextSlot::AccountCurrency => {
                if self.currency.is_none() && trim(chars_of(text).as_slice()).len() > 0 {
                    self.currency = Some(text.to_owned());
                }
            },
            TextSlot::BalanceCode => {
                self.balance_scratch.balance_type = Some(text.to_owned());
            },
            TextSlot::BalanceAmount => {
                self.balance_scratch.amount = Some(text.to_owned());
            },
            TextSlot::BalanceIndicator => {
                self.balance_scratch.indicator = Some(text.to_owned());
            },
            TextSlot::BalanceDate => {
                self.balance_scratch.date = Some(text.to_owned());
            },
            TextSlot::Nowhere => {},
            _ => {
                let mut taken: Option<EntryScratch> = None;
                core::mem::swap(&mut self.entry_scratch, &mut taken);
                match taken {
                    Some(mut entry) => {
                        place_in_entry(&mut entry, place, text);
                        self.entry_scratch = Some(entry);
                    },
                    None => {},
                }
            },
        }
        Ok(())
    }
}

/// The state after one event. Text and character data count without the
/// white space around them, and not at all where nothing is left of them.
pub open spec fn step(state: ParserView, event: XmlEventView) -> Result<ParserView, ErrorView> {
    match event {
        XmlEventView::Start { name, attributes } => state.started(name, attributes),
        XmlEventView::End { name } => Ok(state.ended()),
        XmlEventView::Text(t) => if trimmed(t).len() > 0 {
            Ok(state.texted(trimmed(t)))
        } else {
            Ok(state)
        },
        XmlEventView::CData(t) => if trimmed(t).len() > 0 {
            Ok(state.texted(trimmed(t)))
        } else {
            Ok(state)
        },
        XmlEventView::Failed(m) => Err(camt_error("XML parse error: "@ + m)),
        _ => Ok(state),
    }
}

/// The state after the events from position `i` on, up to the end of the
/// document.
pub open spec fn run(state: ParserView, events: Seq<XmlEventView>, i: int) -> Result<
    ParserView,
    ErrorView,
>
    decreases events.len() - i,
{
    if i < 0 || i >= events.len() || events[i] is Eof {
        Ok(state)
    } else {
        match step(state, events[i]) {
            Err(e) => Err(e),
            Ok(next) => run(next, events, i + 1),
        }
    }
}

/// The statement that the events of a document state.
pub open spec fn statement_of_events(events: Seq<XmlEventView>) -> Result<StatementView, ErrorView> {
    match run(ParserView::initial(), events, 0) {
        Err(e) => Err(e),
        Ok(state) => state.built(),
    }
}

impl CamtParser {
    /// The statement that was read.
    pub fn build_statement(self) -> (r: Result<Camt053Statement, ParseError>)
        ensures
            crate::error::outcome(r) == self@.built(),
    {
        let account_number = match self.account_number {
            Some(a) => a,
            None => {
                return Err(ParseError::MissingField("account_number".to_owned()));
            },
        };
        let currency = match self.currency {
            Some(c) => c,
            None => {
                return Err(ParseError::MissingField("currency".to_owned()));
            },
        };
        let opening_date = match self.opening_date {
            Some(d) => d,
            None => {
                return Err(ParseError::MissingField("opening_date".to_owned()));
            },
        };
        let opening_indicator = match self.opening_indicator {
            Some(i) => i,
            None => {
                return Err(ParseError::MissingField("opening_indicator".to_owned()));
            },
        };
        let closing_date = match self.closing_date {
            Some(d) => d,
            None => {
                return Err(ParseError::MissingField("closing_date".to_owned()));
            },
        };
        let closing_indicator = match self.closing_indicator {
            Some(i) => i,
            None => {
                return Err(ParseError::MissingField("closing_indicator".to_owned()));
            },
        };
        Ok(
            Camt053Statement {
                account_number,
                currency,
                opening_balance: match self.opening_balance {
                    Some(a) => a,
                    None => Amount { minor_units: 0 },
                },
                opening_date,
                opening_indicator,
                closing_balance: match self.closing_balance {
                    Some(a) => a,
                    None => Amount { minor_units: 0 },
                },
                closing_date,
                closing_indicator,
                transactions: self.transactions,
            },
        )
    }

    /// Takes a piece of text or of character data as it stands in the
    /// document.
    fn handle_raw_text(&mut self, text: &String)
        ensures
            final(self)@ == if trimmed(text@).len() > 0 {
                old(self)@.texted(trimmed(text@))
            } else {
                old(self)@
            },
    {
        let t = trim(chars_of(text.as_str()).as_slice());
        if t.len() > 0 {
            let s = string_of(t.as_slice());
            let _ = self.handle_text(s.as_str());
        }
    }
}

/// The statement that the events of a document state.
pub fn decode_events(events: &Vec<XmlEvent>) -> (r: Result<Camt053Statement, ParseError>)
    ensures
        crate::error::outcome(r) == statement_of_events(events_view(events@)),
{
    let ghost all = events_view(events@);
    let mut parser = CamtParser::default();
    let mut i: usize = 0;
    while i < events.len()
        invariant
            i <= events.len(),
            all == events_view(events@),
            run(ParserView::initial(), all, 0) == run(parser@, all, i as int),
        ensures
            run(ParserView::initial(), all, 0) == Ok::<ParserView, ErrorView>(parser@),
        decreases events.len() - i,
    {
        assert(all[i as int] == events@[i as int]@);
        match &events[i] {
            XmlEvent::Eof => {
                break;
            },
            XmlEvent::Start { name, attributes } => {
                match parser.handle_start(name.as_slice(), attributes) {
                    Ok(_) => {},
                    Err(e) => {
                        return Err(e);
                    },
                }
            },
            XmlEvent::End { name } => {
                let _ = parser.handle_end();
            },
            XmlEvent::Text(t) => {
                parser.handle_raw_text(t);
            },
            XmlEvent::CData(t) => {
                parser.handle_raw_text(t);
            },
            XmlEvent::Failed(m) => {
                return Err(
                    ParseError::Camt053Error(
                        crate::error::prefixed("XML parse error: ", chars_of(m.as_str()).as_slice()),
                    ),
                );
            },
            _ => {},
        }
        i += 1;
    }
    parser.build_statement()
}

} // verus!
