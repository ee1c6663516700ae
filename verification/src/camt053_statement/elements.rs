//! The element names of a CAMT.053 document.

use crate::error::{ErrorView, ParseError};
use crate::text::{
    ascii_lowercase, chars_of, position, position_from, same_text, slice_of, to_ascii_lowercase,
    utf8_text,
};
use vstd::prelude::*;

verus! {

/// An element of a CAMT.053 document that the decoder knows, or `Other`.
#[derive(Debug, Clone, Copy, PartialEq, Eq, Structural)]
pub enum ElementName {
    /// `Document`: the root of the document.
    Document,
    /// `BkToCstmrStmt`: the bank-to-customer statement message.
    BkToCstmrStmt,
    /// `Stmt`: one statement.
    Stmt,
    /// `Acct`: the account of the statement, or of a party.
    Acct,
    /// `Id`: an identification.
    Id,
    /// `IBAN`: an IBAN.
    Iban,
    /// `Ccy`: a currency code.
    Currency,
    /// `Bal`: a balance.
    Balance,
    /// `Tp`: the type of a balance.
    BalanceType,
    /// `CdOrPrtry`: a code or a proprietary type.
    CodeOrProprietary,
    /// `Cd`: a code.
    Code,
    /// `Amt`: an amount, with its currency as an attribute.
    Amount,
    /// `CdtDbtInd`: the credit or debit indicator.
    CreditDebit,
    /// `Dt`: a date.
    Date,
    /// `Ntry`: one entry of the statement.
    Entry,
    /// `NtryRef`: the reference of an entry.
    EntryRef,
    /// `BookgDt`: the booking date of an entry.
    BookingDate,
    /// `ValDt`: the value date of an entry.
    ValueDate,
    /// `NtryDtls`: the details of an entry.
    EntryDetails,
    /// `TxDtls`: the details of one transaction.
    TransactionDetails,
    /// `Refs`: the references of a transaction.
    References,
    /// `TxId`: the identifier of a transaction.
    TransactionId,
    /// `RmtInf`: the remittance information.
    RemittanceInfo,
    /// `Ustrd`: remittance information as free text.
    UnstructuredRemittance,
    /// `Strd`: remittance information in parts.
    StructuredRemittance,
    /// `CdtrRefInf`: the reference that the creditor gave.
    CreditorReferenceInfo,
    /// `Ref`: the value of a reference.
    ReferenceValue,
    /// `RltdPties`: the parties of a transaction.
    RelatedParties,
    /// `Dbtr`: the party that pays.
    Debtor,
    /// `Cdtr`: the party that is paid.
    Creditor,
    /// `DbtrAcct`: the account of the debtor.
    DebtorAccount,
    /// `CdtrAcct`: the account of the creditor.
    CreditorAccount,
    /// `Nm`: a name.
    Name,
    /// `AddtlTxInf`: additional information on a transaction.
    AdditionalInfo,
    /// Any other element.
    Other,
}

/// The number of elements that the decoder knows.
pub const KNOWN_ELEMENTS: usize = 34;

/// What follows the last colon of a qualified name; the whole name where it
/// has no colon.
pub open spec fn local_name(name: Seq<char>) -> Seq<char>
    decreases name.len(),
{
    let p = position(name, ':');
    if p < 0 || p >= name.len() {
        name
    } else {
        local_name(name.skip(p + 1))
    }
}

/// The two names are the same but for the case of their ASCII letters.
pub open spec fn same_name(a: Seq<char>, b: Seq<char>) -> bool {
    ascii_lowercase(a) == ascii_lowercase(b)
}

/// The known element at a position of the table; `Other` beyond it.
pub open spec fn known_element(i: int) -> ElementName {
    if i == 0 {
        ElementName::Document
    } else if i == 1 {
        ElementName::BkToCstmrStmt
    } else if i == 2 {
        ElementName::Stmt
    } else if i == 3 {
        ElementName::Acct
    } else if i == 4 {
        ElementName::Id
    } else if i == 5 {
        ElementName::Iban
    } else if i == 6 {
        ElementName::Currency
    } else if i == 7 {
        ElementName::Balance
    } else if i == 8 {
        ElementName::BalanceType
    } else if i == 9 {
        ElementName::CodeOrProprietary
    } else if i == 10 {
        ElementName::Code
    } else if i == 11 {
        ElementName::Amount
    } else if i == 12 {
        ElementName::CreditDebit
    } else if i == 13 {
        ElementName::Date
    } else if i == 14 {
        ElementName::Entry
    } else if i == 15 {
        ElementName::EntryRef
    } else if i == 16 {
        ElementName::BookingDate
    } else if i == 17 {
        ElementName::ValueDate
    } else if i == 18 {
        ElementName::EntryDetails
    } else if i == 19 {
        ElementName::TransactionDetails
    } else if i == 20 {
        ElementName::References
    } else if i == 21 {
        ElementName::TransactionId
    } else if i == 22 {
        ElementName::RemittanceInfo
    } else if i == 23 {
        ElementName::UnstructuredRemittance
    } else if i == 24 {
        ElementName::StructuredRemittance
    } else if i == 25 {
        ElementName::CreditorReferenceInfo
    } else if i == 26 {
        ElementName::ReferenceValue
    } else if i == 27 {
        ElementName::RelatedParties
    } else if i == 28 {
        ElementName::Debtor
    } else if i == 29 {
        ElementName::Creditor
    } else if i == 30 {
        ElementName::DebtorAccount
    } else if i == 31 {
        ElementName::CreditorAccount
    } else if i == 32 {
        ElementName::Name
    } else if i == 33 {
        ElementName::AdditionalInfo
    } else {
        ElementName::Other
    }
}

/// The first known element from position `i` on that is named `name` but
/// for case; `Other` where there is none.
pub open spec fn element_from(name: Seq<char>, i: int) -> ElementName
    decreases KNOWN_ELEMENTS - i,
{
    if i < 0 || i >= KNOWN_ELEMENTS {
        ElementName::Other
    } else if same_name(name, known_element(i).tag_text()) {
        known_element(i)
    } else {
        element_from(name, i + 1)
    }
}

/// The element that a local name stands for.
pub open spec fn element_named(name: Seq<char>) -> ElementName {
    element_from(name, 0)
}

/// The element that the bytes of a qualified name stand for. Bytes that
/// are no UTF-8 stand for none.
pub open spec fn element_of_bytes(raw: Seq<u8>) -> Result<ElementName, ErrorView> {
    if vstd::utf8::valid_utf8(raw) {
        Ok(element_named(local_name(vstd::utf8::decode_utf8(raw))))
    } else {
        Err(ErrorView::Camt053Error("Invalid XML tag name encoding"@))
    }
}

impl ElementName {
    /// The tag of the element as a document writes it; empty for `Other`.
    pub open spec fn tag_text(self) -> Seq<char> {
        match self {
            ElementName::Document => "Document"@,
            ElementName::BkToCstmrStmt => "BkToCstmrStmt"@,
            ElementName::Stmt => "Stmt"@,
            ElementName::Acct => "Acct"@,
            ElementName::Id => "Id"@,
            ElementName::Iban => "IBAN"@,
            ElementName::Currency => "Ccy"@,
            ElementName::Balance => "Bal"@,
            ElementName::BalanceType => "Tp"@,
            ElementName::CodeOrProprietary => "CdOrPrtry"@,
            ElementName::Code => "Cd"@,
            ElementName::Amount => "Amt"@,
            ElementName::CreditDebit => "CdtDbtInd"@,
            ElementName::Date => "Dt"@,
            ElementName::Entry => "Ntry"@,
            ElementName::EntryRef => "NtryRef"@,
            ElementName::BookingDate => "BookgDt"@,
            ElementName::ValueDate => "ValDt"@,
            ElementName::EntryDetails => "NtryDtls"@,
            ElementName::TransactionDetails => "TxDtls"@,
            ElementName::References => "Refs"@,
            ElementName::TransactionId => "TxId"@,
            ElementName::RemittanceInfo => "RmtInf"@,
            ElementName::UnstructuredRemittance => "Ustrd"@,
            ElementName::StructuredRemittance => "Strd"@,
            ElementName::CreditorReferenceInfo => "CdtrRefInf"@,
            ElementName::ReferenceValue => "Ref"@,
            ElementName::RelatedParties => "RltdPties"@,
            ElementName::Debtor => "Dbtr"@,
            ElementName::Creditor => "Cdtr"@,
            ElementName::DebtorAccount => "DbtrAcct"@,
            ElementName::CreditorAccount => "CdtrAcct"@,
            ElementName::Name => "Nm"@,
            ElementName::AdditionalInfo => "AddtlTxInf"@,
            ElementName::Other => ""@,
        }
    }

    /// The tag of the element as a document writes it; empty for `Other`.
    pub fn tag(&self) -> (r: &'static str)
        ensures
            r@ == self.tag_text(),
    {
        match self {
            ElementName::Document => "Document",
            ElementName::BkToCstmrStmt => "BkToCstmrStmt",
            ElementName::Stmt => "Stmt",
            ElementName::Acct => "Acct",
            ElementName::Id => "Id",
            ElementName::Iban => "IBAN",
            ElementName::Currency => "Ccy",
            ElementName::Balance => "Bal",
            ElementName::BalanceType => "Tp",
            ElementName::CodeOrProprietary => "CdOrPrtry",
            ElementName::Code => "Cd",
            ElementName::Amount => "Amt",
            ElementName::CreditDebit => "CdtDbtInd",
            ElementName::Date => "Dt",
            ElementName::Entry => "Ntry",
            ElementName::EntryRef => "NtryRef",
            ElementName::BookingDate => "BookgDt",
            ElementName::ValueDate => "ValDt",
            ElementName::EntryDetails => "NtryDtls",
            ElementName::TransactionDetails => "TxDtls",
            ElementName::References => "Refs",
            ElementName::TransactionId => "TxId",
            ElementName::RemittanceInfo => "RmtInf",
            ElementName::UnstructuredRemittance => "Ustrd",
            ElementName::StructuredRemittance => "Strd",
            ElementName::CreditorReferenceInfo => "CdtrRefInf",
            ElementName::ReferenceValue => "Ref",
            ElementName::RelatedParties => "RltdPties",
            ElementName::Debtor => "Dbtr",
            ElementName::Creditor => "Cdtr",
            ElementName::DebtorAccount => "DbtrAcct",
            ElementName::CreditorAccount => "CdtrAcct",
            ElementName::Name => "Nm",
            ElementName::AdditionalInfo => "AddtlTxInf",
            ElementName::Other => "",
        }
    }

    /// The known element at position `i` of the table.
    pub fn known(i: usize) -> (r: ElementName)
        ensures
            r == known_element(i as int),
    {
        if i == 0 {
            ElementName::Document
        } else if i == 1 {
            ElementName::BkToCstmrStmt
        } else if i == 2 {
            ElementName::Stmt
        } else if i == 3 {
            ElementName::Acct
        } else if i == 4 {
            ElementName::Id
        } else if i == 5 {
            ElementName::Iban
        } else if i == 6 {
            ElementName::Currency
        } else if i == 7 {
            ElementName::Balance
        } else if i == 8 {
            ElementName::BalanceType
        } else if i == 9 {
            ElementName::CodeOrProprietary
        } else if i == 10 {
            ElementName::Code
        } else if i == 11 {
            ElementName::Amount
        } else if i == 12 {
            ElementName::CreditDebit
        } else if i == 13 {
            ElementName::Date
        } else if i == 14 {
            ElementName::Entry
        } else if i == 15 {
            ElementName::EntryRef
        } else if i == 16 {
            ElementName::BookingDate
        } else if i == 17 {
            ElementName::ValueDate
        } else if i == 18 {
            ElementName::EntryDetails
        } else if i == 19 {
            ElementName::TransactionDetails
        } else if i == 20 {
            ElementName::References
        } else if i == 21 {
            ElementName::TransactionId
        } else if i == 22 {
            ElementName::RemittanceInfo
        } else if i == 23 {
            ElementName::UnstructuredRemittance
        } else if i == 24 {
            ElementName::StructuredRemittance
        } else if i == 25 {
            ElementName::CreditorReferenceInfo
        } else if i == 26 {
            ElementName::ReferenceValue
        } else if i == 27 {
            ElementName::RelatedParties
        } else if i == 28 {
            ElementName::Debtor
        } else if i == 29 {
            ElementName::Creditor
        } else if i == 30 {
            ElementName::DebtorAccount
        } else if i == 31 {
            ElementName::CreditorAccount
        } else if i == 32 {
            ElementName::Name
        } else if i == 33 {
            ElementName::AdditionalInfo
        } else {
            ElementName::Other
        }
    }

    /// The element that a local name stands for.
    pub fn from_name(name: &[char]) -> (r: ElementName)
        ensures
            r == element_named(name@),
    {
        let lower = to_ascii_lowercase(name);
        let mut i: usize = 0;
        while i < KNOWN_ELEMENTS
            invariant
                i <= KNOWN_ELEMENTS,
                lower@ == ascii_lowercase(name@),
                element_named(name@) == element_from(name@, i as int),
            decreases KNOWN_ELEMENTS - i,
        {
            let candidate = ElementName::known(i);
            let tag = to_ascii_lowercase(chars_of(candidate.tag()).as_slice());
            if same_text(lower.as_slice(), tag.as_slice()) {
                return candidate;
            }
            i += 1;
        }
        ElementName::Other
    }

    /// The element that the bytes of a qualified name stand for.
    pub fn from_name_bytes(raw: &[u8]) -> (r: Result<ElementName, ParseError>)
        ensures
            match r {
                Ok(e) => element_of_bytes(raw@) == Ok::<ElementName, ErrorView>(e),
                Err(e) => element_of_bytes(raw@) == Err::<ElementName, ErrorView>(e@),
            },
    {
        let name = match utf8_text(raw) {
            Some(t) => chars_of(t),
            None => {
                return Err(ParseError::Camt053Error("Invalid XML tag name encoding".to_owned()));
            },
        };
        let mut start: usize = 0;
        assert(name@.skip(0) =~= name@);
        loop
            invariant
                start <= name.len(),
                local_name(name@) == local_name(name@.skip(start as int)),
            ensures
                start <= name.len(),
                local_name(name@) == name@.skip(start as int),
            decreases name.len() - start,
        {
            let colon = position_from(name.as_slice(), ':', start);
            if colon >= name.len() {
                assert(local_name(name@.skip(start as int)) == name@.skip(start as int));
                break;
            }
            assert(name@.skip(start as int).skip(colon - start + 1) =~= name@.skip(colon + 1));
            start = colon + 1;
        }
        let local = slice_of(name.as_slice(), start, name.len());
        assert(local@ =~= name@.skip(start as int));
        Ok(ElementName::from_name(local.as_slice()))
    }
}

} // verus!
