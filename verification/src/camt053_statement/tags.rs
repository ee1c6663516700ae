//! Every tag that the encoder writes is read as the element that it
//! stands for.

use super::elements::{
    element_from, element_of_bytes, known_element, local_name, same_name,
    ElementName, KNOWN_ELEMENTS,
};
use crate::error::ErrorView;
use crate::text::{ascii_lower, ascii_lowercase, position};
use vstd::prelude::*;

verus! {

/// What tells the tags apart: the length of a name, and its first, second
/// and last character in lower case.
pub open spec fn name_key(name: Seq<char>) -> (nat, char, char, char) {
    (name.len(), ascii_lower(name[0]), ascii_lower(name[1]), ascii_lower(name.last()))
}

/// The key of the tag at a position of the table.
pub open spec fn known_key(i: int) -> (nat, char, char, char) {
    if i == 0 {
        (8nat, 'd', 'o', 't')
    } else if i == 1 {
        (13nat, 'b', 'k', 't')
    } else if i == 2 {
        (4nat, 's', 't', 't')
    } else if i == 3 {
        (4nat, 'a', 'c', 't')
    } else if i == 4 {
        (2nat, 'i', 'd', 'd')
    } else if i == 5 {
        (4nat, 'i', 'b', 'n')
    } else if i == 6 {
        (3nat, 'c', 'c', 'y')
    } else if i == 7 {
        (3nat, 'b', 'a', 'l')
    } else if i == 8 {
        (2nat, 't', 'p', 'p')
    } else if i == 9 {
        (9nat, 'c', 'd', 'y')
    } else if i == 10 {
        (2nat, 'c', 'd', 'd')
    } else if i == 11 {
        (3nat, 'a', 'm', 't')
    } else if i == 12 {
        (9nat, 'c', 'd', 'd')
    } else if i == 13 {
        (2nat, 'd', 't', 't')
    } else if i == 14 {
        (4nat, 'n', 't', 'y')
    } else if i == 15 {
        (7nat, 'n', 't', 'f')
    } else if i == 16 {
        (7nat, 'b', 'o', 't')
    } else if i == 17 {
        (5nat, 'v', 'a', 't')
    } else if i == 18 {
        (8nat, 'n', 't', 's')
    } else if i == 19 {
        (6nat, 't', 'x', 's')
    } else if i == 20 {
        (4nat, 'r', 'e', 's')
    } else if i == 21 {
        (4nat, 't', 'x', 'd')
    } else if i == 22 {
        (6nat, 'r', 'm', 'f')
    } else if i == 23 {
        (5nat, 'u', 's', 'd')
    } else if i == 24 {
        (4nat, 's', 't', 'd')
    } else if i == 25 {
        (10nat, 'c', 'd', 'f')
    } else if i == 26 {
        (3nat, 'r', 'e', 'f')
    } else if i == 27 {
        (9nat, 'r', 'l', 's')
    } else if i == 28 {
        (4nat, 'd', 'b', 'r')
    } else if i == 29 {
        (4nat, 'c', 'd', 'r')
    } else if i == 30 {
        (8nat, 'd', 'b', 't')
    } else if i == 31 {
        (8nat, 'c', 'd', 't')
    } else if i == 32 {
        (2nat, 'n', 'm', 'm')
    } else if i == 33 {
        (10nat, 'a', 'd', 'f')
    } else {
        (0nat, ' ', ' ', ' ')
    }
}

/// The name is written with letters alone.
pub open spec fn is_word(name: Seq<char>) -> bool
    decreases name.len(),
{
    name.len() == 0 || ((('a' <= name[0] <= 'z') || ('A' <= name[0] <= 'Z')) && is_word(
        name.drop_first(),
    ))
}

proof fn lemma_same_name_same_key(a: Seq<char>, b: Seq<char>)
    requires
        same_name(a, b),
        a.len() >= 2,
    ensures
        name_key(a) == name_key(b),
{
    let la = ascii_lowercase(a);
    let lb = ascii_lowercase(b);
    assert(la.len() == a.len());
    assert(lb.len() == b.len());
    assert(la[0] == ascii_lower(a[0]));
    assert(lb[0] == ascii_lower(b[0]));
    assert(la[1] == ascii_lower(a[1]));
    assert(lb[1] == ascii_lower(b[1]));
    assert(la[a.len() - 1] == ascii_lower(a[a.len() - 1]));
    assert(lb[b.len() - 1] == ascii_lower(b[b.len() - 1]));
}

proof fn lemma_word_has_no_colon(name: Seq<char>)
    requires
        is_word(name),
    ensures
        position(name, ':') == name.len(),
        local_name(name) == name,
    decreases name.len(),
{
    if name.len() > 0 {
        lemma_word_has_no_colon(name.drop_first());
    }
}

/// The keys of the table are those of its tags, and its tags are words.
pub proof fn lemma_table(i: int)
    requires
        0 <= i < KNOWN_ELEMENTS,
    ensures
        name_key(known_element(i).tag_text()) == known_key(i),
        is_word(known_element(i).tag_text()),
        known_element(i).tag_text().len() >= 2,
{
    reveal_with_fuel(is_word, 14);
    if i == 0 {
        reveal_strlit("Document");
    } else if i == 1 {
        reveal_strlit("BkToCstmrStmt");
    } else if i == 2 {
        reveal_strlit("Stmt");
    } else if i == 3 {
        reveal_strlit("Acct");
    } else if i == 4 {
        reveal_strlit("Id");
    } else if i == 5 {
        reveal_strlit("IBAN");
    } else if i == 6 {
        reveal_strlit("Ccy");
    } else if i == 7 {
        reveal_strlit("Bal");
    } else if i == 8 {
        reveal_strlit("Tp");
    } else if i == 9 {
        reveal_strlit("CdOrPrtry");
    } else if i == 10 {
        reveal_strlit("Cd");
    } else if i == 11 {
        reveal_strlit("Amt");
    } else if i == 12 {
        reveal_strlit("CdtDbtInd");
    } else if i == 13 {
        reveal_strlit("Dt");
    } else if i == 14 {
        reveal_strlit("Ntry");
    } else if i == 15 {
        reveal_strlit("NtryRef");
    } else if i == 16 {
        reveal_strlit("BookgDt");
    } else if i == 17 {
        reveal_strlit("ValDt");
    } else if i == 18 {
        reveal_strlit("NtryDtls");
    } else if i == 19 {
        reveal_strlit("TxDtls");
    } else if i == 20 {
        reveal_strlit("Refs");
    } else if i == 21 {
        reveal_strlit("TxId");
    } else if i == 22 {
        reveal_strlit("RmtInf");
    } else if i == 23 {
        reveal_strlit("Ustrd");
    } else if i == 24 {
        reveal_strlit("Strd");
    } else if i == 25 {
        reveal_strlit("CdtrRefInf");
    } else if i == 26 {
        reveal_strlit("Ref");
    } else if i == 27 {
        reveal_strlit("RltdPties");
    } else if i == 28 {
        reveal_strlit("Dbtr");
    } else if i == 29 {
        reveal_strlit("Cdtr");
    } else if i == 30 {
        reveal_strlit("DbtrAcct");
    } else if i == 31 {
        reveal_strlit("CdtrAcct");
    } else if i == 32 {
        reveal_strlit("Nm");
    } else if i == 33 {
        reveal_strlit("AddtlTxInf");
    }
}

/// No two positions of the table have the same key.
pub proof fn lemma_keys_differ(i: int, j: int)
    requires
        0 <= i < j < KNOWN_ELEMENTS,
    ensures
        known_key(i) != known_key(j),
{
}

proof fn lemma_found_from(i: int, j: int)
    requires
        0 <= j <= i < KNOWN_ELEMENTS,
    ensures
        element_from(known_element(i).tag_text(), j) == known_element(i),
    decreases i - j,
{
    let tag = known_element(i).tag_text();
    if j < i {
        lemma_found_from(i, j + 1);
        lemma_table(i);
        lemma_table(j);
        lemma_keys_differ(j, i);
        if same_name(tag, known_element(j).tag_text()) {
            lemma_same_name_same_key(tag, known_element(j).tag_text());
        }
    }
}

/// The tag of a known element, as bytes, is read as that element.
pub proof fn lemma_tag_is_read(i: int)
    requires
        0 <= i < KNOWN_ELEMENTS,
    ensures
        element_of_bytes(vstd::utf8::encode_utf8(known_element(i).tag_text())) == Ok::<
            ElementName,
            ErrorView,
        >(known_element(i)),
{
    let tag = known_element(i).tag_text();
    vstd::utf8::encode_utf8_valid_utf8(tag);
    vstd::utf8::encode_utf8_decode_utf8(tag);
    lemma_table(i);
    lemma_word_has_no_colon(tag);
    lemma_found_from(i, 0);
}

/// The position of a known element in the table.
pub open spec fn index_of(element: ElementName) -> int {
    match element {
        ElementName::Document => 0,
        ElementName::BkToCstmrStmt => 1,
        ElementName::Stmt => 2,
        ElementName::Acct => 3,
        ElementName::Id => 4,
        ElementName::Iban => 5,
        ElementName::Currency => 6,
        ElementName::Balance => 7,
        ElementName::BalanceType => 8,
        ElementName::CodeOrProprietary => 9,
        ElementName::Code => 10,
        ElementName::Amount => 11,
        ElementName::CreditDebit => 12,
        ElementName::Date => 13,
        ElementName::Entry => 14,
        ElementName::EntryRef => 15,
        ElementName::BookingDate => 16,
        ElementName::ValueDate => 17,
        ElementName::EntryDetails => 18,
        ElementName::TransactionDetails => 19,
        ElementName::References => 20,
        ElementName::TransactionId => 21,
        ElementName::RemittanceInfo => 22,
        ElementName::UnstructuredRemittance => 23,
        ElementName::StructuredRemittance => 24,
        ElementName::CreditorReferenceInfo => 25,
        ElementName::ReferenceValue => 26,
        ElementName::RelatedParties => 27,
        ElementName::Debtor => 28,
        ElementName::Creditor => 29,
        ElementName::DebtorAccount => 30,
        ElementName::CreditorAccount => 31,
        ElementName::Name => 32,
        ElementName::AdditionalInfo => 33,
        ElementName::Other => -1,
    }
}

/// The tag of an element that is not `Other`, as bytes, is read as that
/// element.
pub proof fn lemma_element_is_read(element: ElementName)
    requires
        element != ElementName::Other,
    ensures
        element_of_bytes(vstd::utf8::encode_utf8(element.tag_text())) == Ok::<
            ElementName,
            ErrorView,
        >(element),
{
    assert(known_element(index_of(element)) == element);
    lemma_tag_is_read(index_of(element));
}

} // verus!
