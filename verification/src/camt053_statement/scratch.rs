//! What has been read of a balance or an entry that is still open.

use super::values::{
    amount_of, parse_amount, parse_transaction_type, parse_xml_date, transaction_type_of,
    xml_date_of,
};
use crate::error::ParseError;
use crate::model::{text_of, Transaction, TransactionType, TransactionView};
use crate::text::{append_text, chars_of, string_of, trim, trimmed};
use vstd::prelude::*;

verus! {

/// The texts read of the balance that is open.
#[derive(Debug)]
pub struct BalanceScratch {
    /// The type code of the balance.
    pub balance_type: Option<String>,
    /// The amount.
    pub amount: Option<String>,
    /// The credit or debit indicator.
    pub indicator: Option<String>,
    /// The date.
    pub date: Option<String>,
}

/// A `BalanceScratch` as a mathematical value.
pub struct BalanceScratchView {
    pub balance_type: Option<Seq<char>>,
    pub amount: Option<Seq<char>>,
    pub indicator: Option<Seq<char>>,
    pub date: Option<Seq<char>>,
}

impl BalanceScratchView {
    /// The scratch with nothing read.
    pub open spec fn empty() -> BalanceScratchView {
        BalanceScratchView { balance_type: None, amount: None, indicator: None, date: None }
    }
}

impl View for BalanceScratch {
    type V = BalanceScratchView;

    open spec fn view(&self) -> BalanceScratchView {
        BalanceScratchView {
            balance_type: text_of(self.balance_type),
            amount: text_of(self.amount),
            indicator: text_of(self.indicator),
            date: text_of(self.date),
        }
    }
}

impl Default for BalanceScratch {
    fn default() -> (r: Self)
        ensures
            r@ == BalanceScratchView::empty(),
    {
        BalanceScratch { balance_type: None, amount: None, indicator: None, date: None }
    }
}

impl BalanceScratch {
    /// Forgets what was read.
    pub fn clear(&mut self)
        ensures
            final(self)@ == BalanceScratchView::empty(),
    {
        self.balance_type = None;
        self.amount = None;
        self.indicator = None;
        self.date = None;
    }
}

/// The texts read of the entry that is open.
#[derive(Debug)]
pub struct EntryScratch {
    /// The amount.
    pub amount: Option<String>,
    /// The credit or debit indicator.
    pub indicator: Option<String>,
    /// The booking date.
    pub booking_date: Option<String>,
    /// The value date.
    pub value_date: Option<String>,
    /// The reference of the entry.
    pub ntry_ref: Option<String>,
    /// The identifier of the transaction.
    pub tx_id: Option<String>,
    /// The narrative, as far as it was read.
    pub description: String,
    /// The reference that the creditor gave: the narrative to fall back on.
    pub creditor_reference: Option<String>,
    /// The name of the debtor.
    pub debtor_name: Option<String>,
    /// The name of the creditor.
    pub creditor_name: Option<String>,
    /// The account of the debtor.
    pub debtor_account: Option<String>,
    /// The account of the creditor.
    pub creditor_account: Option<String>,
}

/// An `EntryScratch` as a mathematical value.
pub struct EntryScratchView {
    pub amount: Option<Seq<char>>,
    pub indicator: Option<Seq<char>>,
    pub booking_date: Option<Seq<char>>,
    pub value_date: Option<Seq<char>>,
    pub ntry_ref: Option<Seq<char>>,
    pub tx_id: Option<Seq<char>>,
    pub description: Seq<char>,
    pub creditor_reference: Option<Seq<char>>,
    pub debtor_name: Option<Seq<char>>,
    pub creditor_name: Option<Seq<char>>,
    pub debtor_account: Option<Seq<char>>,
    pub creditor_account: Option<Seq<char>>,
}

/// The first of two optional texts that is there.
pub open spec fn first_of(preferred: Option<Seq<char>>, other: Option<Seq<char>>) -> Option<
    Seq<char>,
> {
    if preferred is Some {
        preferred
    } else {
        other
    }
}

impl EntryScratchView {
    /// The scratch with nothing read.
    pub open spec fn empty() -> EntryScratchView {
        EntryScratchView {
            amount: None,
            indicator: None,
            booking_date: None,
            value_date: None,
            ntry_ref: None,
            tx_id: None,
            description: Seq::empty(),
            creditor_reference: None,
            debtor_name: None,
            creditor_name: None,
            debtor_account: None,
            creditor_account: None,
        }
    }

    /// The scratch after one more piece of narrative: joined to what was
    /// there by a blank.
    pub open spec fn with_description(self, text: Seq<char>) -> EntryScratchView {
        EntryScratchView {
            description: if self.description.len() == 0 {
                text
            } else {
                self.description + seq![' '] + text
            },
            ..self
        }
    }

    /// The scratch with `text` as the narrative to fall back on, where it
    /// had none to fall back on yet.
    pub open spec fn with_fallback_description(self, text: Seq<char>) -> EntryScratchView {
        EntryScratchView {
            creditor_reference: if self.creditor_reference is None {
                Some(text)
            } else {
                self.creditor_reference
            },
            ..self
        }
    }

    /// The description of the transaction: the narrative that was read,
    /// trimmed; where nothing is left of it, the reference of the creditor.
    pub open spec fn narrative(self) -> Seq<char> {
        if trimmed(self.description).len() > 0 {
            trimmed(self.description)
        } else {
            match self.creditor_reference {
                Some(r) => trimmed(r),
                None => Seq::empty(),
            }
        }
    }

    /// The name of the other party: the debtor of a credit, the creditor
    /// of a debit; the other of the two where that one is not named.
    pub open spec fn party_name(self, direction: TransactionType) -> Option<Seq<char>> {
        match direction {
            TransactionType::Credit => first_of(self.debtor_name, self.creditor_name),
            TransactionType::Debit => first_of(self.creditor_name, self.debtor_name),
        }
    }

    /// The account of the other party, chosen as the name is.
    pub open spec fn party_account(self, direction: TransactionType) -> Option<Seq<char>> {
        match direction {
            TransactionType::Credit => first_of(self.debtor_account, self.creditor_account),
            TransactionType::Debit => first_of(self.creditor_account, self.debtor_account),
        }
    }

    /// The transaction that the entry makes when it closes. It takes an
    /// amount, an indicator and a booking date that can be read; an entry
    /// without one of them makes none. The identifier of the transaction
    /// comes before the reference of the entry, and the direction decides
    /// which party is the other one.
    pub open spec fn transaction(self) -> Option<TransactionView> {
        if self.amount is Some && amount_of(self.amount->0) is Ok && self.indicator is Some
            && transaction_type_of(self.indicator->0) is Ok && self.booking_date is Some
            && xml_date_of(self.booking_date->0) is Ok {
            Some(
                TransactionView {
                    booking_date: xml_date_of(self.booking_date->0)->Ok_0,
                    value_date: self.value_date,
                    amount: amount_of(self.amount->0)->Ok_0,
                    transaction_type: transaction_type_of(self.indicator->0)->Ok_0,
                    description: self.narrative(),
                    reference: if self.tx_id is Some {
                        self.tx_id
                    } else {
                        self.ntry_ref
                    },
                    counterparty_name: self.party_name(
                        transaction_type_of(self.indicator->0)->Ok_0,
                    ),
                    counterparty_account: self.party_account(
                        transaction_type_of(self.indicator->0)->Ok_0,
                    ),
                },
            )
        } else {
            None
        }
    }
}

impl View for EntryScratch {
    type V = EntryScratchView;

    open spec fn view(&self) -> EntryScratchView {
        EntryScratchView {
            amount: text_of(self.amount),
            indicator: text_of(self.indicator),
            booking_date: text_of(self.booking_date),
            value_date: text_of(self.value_date),
            ntry_ref: text_of(self.ntry_ref),
            tx_id: text_of(self.tx_id),
            description: self.description@,
            creditor_reference: text_of(self.creditor_reference),
            debtor_name: text_of(self.debtor_name),
            creditor_name: text_of(self.creditor_name),
            debtor_account: text_of(self.debtor_account),
            creditor_account: text_of(self.creditor_account),
        }
    }
}

impl Default for EntryScratch {
    fn default() -> (r: Self)
        ensures
            r@ == EntryScratchView::empty(),
    {
        EntryScratch {
            amount: None,
            indicator: None,
            booking_date: None,
            value_date: None,
            ntry_ref: None,
            tx_id: None,
            description: String::new(),
            creditor_reference: None,
            debtor_name: None,
            creditor_name: None,
            debtor_account: None,
            creditor_account: None,
        }
    }
}

/// The first of two optional texts that is there.
fn first_text(preferred: Option<String>, other: Option<String>) -> (r: Option<String>)
    ensures
        text_of(r) == first_of(text_of(preferred), text_of(other)),
{
    match preferred {
        Some(t) => Some(t),
        None => other,
    }
}

impl EntryScratch {
    /// Adds a piece of narrative, joined to what is there by a blank.
    pub fn push_description(&mut self, text: &str)
        ensures
            final(self)@ == old(self)@.with_description(text@),
    {
        let mut d = chars_of(self.description.as_str());
        if d.len() > 0 {
            d.push(' ');
        }
        append_text(&mut d, chars_of(text).as_slice());
        proof {
            if old(self).description@.len() == 0 {
                assert(d@ =~= text@);
            } else {
                assert(d@ =~= old(self).description@ + seq![' '] + text@);
            }
        }
        self.description = string_of(d.as_slice());
    }

    /// Takes `text` as the narrative to fall back on, where there is none
    /// to fall back on yet. It becomes the description only where the entry
    /// closes without a narrative of its own.
    pub fn set_description_if_empty(&mut self, text: &str)
        ensures
            final(self)@ == old(self)@.with_fallback_description(text@),
    {
        if self.creditor_reference.is_none() {
            self.creditor_reference = Some(text.to_owned());
        }
    }

    /// The transaction that the entry makes, if it makes one.
    pub fn finish(self) -> (r: Result<Option<Transaction>, ParseError>)
        ensures
            r matches Ok(made) && match made {
                Some(t) => self@.transaction() == Some(t@),
                None => self@.transaction() is None,
            },
    {
        let amount = match &self.amount {
            Some(text) => match parse_amount(text.as_str()) {
                Ok(a) => a,
                Err(_) => {
                    return Ok(None);
                },
            },
            None => {
                return Ok(None);
            },
        };
        let transaction_type = match &self.indicator {
            Some(text) => match parse_transaction_type(text.as_str()) {
                Ok(t) => t,
                Err(_) => {
                    return Ok(None);
                },
            },
            None => {
                return Ok(None);
            },
        };
        let booking_date = match &self.booking_date {
            Some(text) => match parse_xml_date(text.as_str()) {
                Ok(d) => d,
                Err(_) => {
                    return Ok(None);
                },
            },
            None => {
                return Ok(None);
            },
        };
        let mut narrative = trim(chars_of(self.description.as_str()).as_slice());
        if narrative.len() == 0 {
            match &self.creditor_reference {
                Some(r) => {
                    narrative = trim(chars_of(r.as_str()).as_slice());
                },
                None => {
                    assert(narrative@ =~= Seq::<char>::empty());
                },
            }
        }
        assert(narrative@ == self@.narrative());
        let description = string_of(narrative.as_slice());
        let reference = match self.tx_id {
            Some(id) => Some(id),
            None => self.ntry_ref,
        };
        let counterparty_name = match transaction_type {
            TransactionType::Credit => first_text(self.debtor_name, self.creditor_name),
            TransactionType::Debit => first_text(self.creditor_name, self.debtor_name),
        };
        let counterparty_account = match transaction_type {
            TransactionType::Credit => first_text(self.debtor_account, self.creditor_account),
            TransactionType::Debit => first_text(self.creditor_account, self.debtor_account),
        };
        Ok(
            Some(
                Transaction {
                    booking_date,
                    value_date: self.value_date,
                    amount,
                    transaction_type,
                    description,
                    reference,
                    counterparty_name,
                    counterparty_account,
                },
            ),
        )
    }
}

} // verus!
