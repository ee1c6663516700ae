//! The positions and the marker texts of the positional layout. They state
//! what the exports of one bank look like; nothing else defines them.

use vstd::prelude::*;

verus! {

/// The least number of records of a statement.
pub const MIN_CSV_LINES: usize = 12;

/// A statement with no more records than this has no account number.
pub const MIN_LINES_FOR_ACCOUNT: usize = 5;

/// The number of records at the start in which the account number is
/// looked for.
pub const MAX_ACCOUNT_SEARCH_LINES: usize = 10;

/// The number of digits of an account number.
pub const ACCOUNT_NUMBER_LENGTH: usize = 20;

/// The number of records from the header of the transactions to the first
/// transaction.
pub const TRANSACTION_HEADER_SKIP_LINES: usize = 2;

/// The field of a transaction record that holds the booking date.
pub const DATE_COLUMN_INDEX: usize = 1;

/// The field of a transaction record that holds the amount of a debit.
pub const DEBIT_AMOUNT_COLUMN_INDEX: usize = 9;

/// The field of a transaction record that holds the amount of a credit.
pub const CREDIT_AMOUNT_COLUMN_INDEX: usize = 13;

/// The field of a transaction record that holds the document number.
pub const REFERENCE_COLUMN_INDEX: usize = 14;

/// The first field of a transaction record in which the description is
/// looked for.
pub const DESCRIPTION_SEARCH_START_INDEX: usize = 18;

/// The field of a written transaction record that holds the description.
pub const DESCRIPTION_COLUMN_INDEX: usize = 20;

/// The number of fields of a written transaction record.
pub const OUTPUT_ROW_COLUMNS: usize = 21;

/// The number of fields behind the label of a balance, its own counted, in
/// which the amount is looked for.
pub const MAX_BALANCE_SEARCH_OFFSET: usize = 15;

/// The least number of bytes of a field that states a date in words.
pub const MIN_DATE_STRING_LENGTH: usize = 10;

/// The first year that a date in words may state.
pub const MIN_VALID_YEAR: u32 = 2000;

/// The last year that a date in words may state.
pub const MAX_VALID_YEAR: u32 = 2100;

/// The record that states the currency.
pub const CURRENCY_LINE_INDEX: usize = 8;

/// The code of the rouble.
pub const CURRENCY_RUB: &'static str = "RUB";

/// The code of the dollar.
pub const CURRENCY_USD: &'static str = "USD";

/// The code of the euro.
pub const CURRENCY_EUR: &'static str = "EUR";

/// The rouble in words.
pub const RUSSIAN_RUBLE_FULL: &'static str = "российский рубль";

/// The rouble in one word.
pub const RUSSIAN_RUBLE_SHORT: &'static str = "рубль";

/// The dollar in words.
pub const RUSSIAN_DOLLAR: &'static str = "доллар";

/// The euro in words.
pub const RUSSIAN_EURO: &'static str = "евро";

/// The dollar as a code in lower case.
pub const CODE_DOLLAR: &'static str = "usd";

/// The euro as a code in lower case.
pub const CODE_EURO: &'static str = "eur";

/// The marker of the header of the transactions, in lower case.
pub const TRANSACTION_DATE_HEADER: &'static str = "дата проводки";

/// The marker of the footer, in lower case.
pub const BALANCE_SHEET_MARKER: &'static str = "б/с";

/// The label of the opening balance, in lower case.
pub const OPENING_BALANCE_LABEL: &'static str = "входящий остаток";

/// The label of the closing balance, in lower case.
pub const CLOSING_BALANCE_LABEL: &'static str = "исходящий остаток";

/// The mark of a year in a date in words.
pub const RUSSIAN_YEAR_SUFFIX: &'static str = "г.";

/// The name of the bank's service, written at the top.
pub const BANK_NAME_SBERBUSINESS: &'static str = "СберБизнес";

/// The name of the bank, written at the top.
pub const BANK_NAME_FULL: &'static str = "ПАО СБЕРБАНК";

/// The title of the statement.
pub const STATEMENT_TITLE: &'static str = "ВЫПИСКА ОПЕРАЦИЙ ПО ЛИЦЕВОМУ СЧЕТУ";

/// The header of the column of booking dates.
pub const COLUMN_TRANSACTION_DATE: &'static str = "Дата проводки";

/// The header of the column of accounts.
pub const COLUMN_ACCOUNT: &'static str = "Счет";

/// The header of the column of debits.
pub const COLUMN_DEBIT_AMOUNT: &'static str = "Сумма по дебету";

/// The header of the column of credits.
pub const COLUMN_CREDIT_AMOUNT: &'static str = "Сумма по кредиту";

/// The header of the column of document numbers.
pub const COLUMN_DOCUMENT_NUMBER: &'static str = "№ документа";

/// The header of the column of operation codes.
pub const COLUMN_VO: &'static str = "ВО";

/// The header of the column of banks.
pub const COLUMN_BANK: &'static str = "Банк";

/// The header of the column of descriptions.
pub const COLUMN_PAYMENT_PURPOSE: &'static str = "Назначение платежа";

/// The second header of the debit side.
pub const LABEL_DEBIT: &'static str = "Дебет";

/// The second header of the credit side.
pub const LABEL_CREDIT: &'static str = "Кредит";

/// The label of the counts of operations in the footer.
pub const FOOTER_OPERATION_COUNT: &'static str = "Количество операций";

/// The label of the opening balance in the footer.
pub const FOOTER_OPENING_BALANCE: &'static str = "Входящий остаток";

/// The label of the closing balance in the footer.
pub const FOOTER_CLOSING_BALANCE: &'static str = "Исходящий остаток";

/// The sign before a balance in debit.
pub const NEGATIVE_SIGN: &'static str = "-";

/// The sign before a balance in credit: none.
pub const POSITIVE_SIGN: &'static str = "";

/// The text of the error of an empty input.
pub const ERROR_EMPTY_INPUT: &'static str = "Empty input";

/// The text of the error of a statement of too few records.
pub const ERROR_CSV_TOO_SHORT: &'static str = "CSV too short - missing required sections";

/// The text of the error of a header too short for an account number.
pub const ERROR_MISSING_ACCOUNT: &'static str = "Missing account number in header";

/// The text of the error of a header without an account number.
pub const ERROR_ACCOUNT_NOT_FOUND: &'static str = "Account number not found in header";

/// The text of the error of a statement without the header of the
/// transactions.
pub const ERROR_TRANSACTION_SECTION_NOT_FOUND: &'static str =
    "Transaction section not found (missing 'Дата проводки')";

/// The text of the error of a transaction without a date.
pub const ERROR_EMPTY_DATE_FIELD: &'static str = "Empty date field";

/// The text of the error of a transaction without an amount.
pub const ERROR_NO_TRANSACTION_AMOUNT: &'static str = "Transaction has no amount";

/// The text of the error of a footer without an opening balance.
pub const ERROR_OPENING_BALANCE_NOT_FOUND: &'static str = "Opening balance not found";

/// The text of the error of a footer without a closing balance.
pub const ERROR_CLOSING_BALANCE_NOT_FOUND: &'static str = "Closing balance not found";

/// The text of the error of a balance without a date.
pub const ERROR_DATE_NOT_FOUND: &'static str = "Date not found";

} // verus!
