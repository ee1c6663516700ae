//! SWIFT MT940 messages.

use crate::amount::{amount_text, numeral_value, read_numeral, write_amount, Amount};
use crate::date::{is_calendar_day, midnight, Timestamp, TimestampView};
use crate::error::{outcome, ErrorView, ParseError};
use crate::model::{
    transactions_view, BalanceType, StatementView, Transaction, TransactionType, TransactionView,
};
use crate::text::{
    all_digits, append_text, chars_of, find, find_in, four_digits, is_digit,
    lines_of, only_digits, position, position_from, remove_char, replace_char, replaced,
    same_text, slice_of, split_lines, string_of, texts, trim, trimmed, two_digits,
    two_digits_of, without,
};
use vstd::prelude::*;

verus! {

/// A statement as an MT940 message carries it.
#[derive(Debug, PartialEq)]
pub struct Mt940Statement {
    /// The account that the statement is about.
    pub account_number: String,
    /// The currency of every amount, as a three-letter code.
    pub currency: String,
    /// The balance before the first transaction.
    pub opening_balance: Amount,
    /// The day of the opening balance.
    pub opening_date: Timestamp,
    /// Whether the opening balance is in credit or in debit.
    pub opening_indicator: BalanceType,
    /// The balance after the last transaction.
    pub closing_balance: Amount,
    /// The day of the closing balance.
    pub closing_date: Timestamp,
    /// Whether the closing balance is in credit or in debit.
    pub closing_indicator: BalanceType,
    /// The transactions, in the order of the message.
    pub transactions: Vec<Transaction>,
}

impl Clone for Mt940Statement {
    fn clone(&self) -> (r: Self)
        ensures
            r@ == self@,
    {
        Mt940Statement {
            account_number: self.account_number.clone(),
            currency: self.currency.clone(),
            opening_balance: self.opening_balance,
            opening_date: self.opening_date,
            opening_indicator: self.opening_indicator,
            closing_balance: self.closing_balance,
            closing_date: self.closing_date,
            closing_indicator: self.closing_indicator,
            transactions: crate::model::copy_transactions(&self.transactions),
        }
    }
}

impl View for Mt940Statement {
    type V = StatementView;

    open spec fn view(&self) -> StatementView {
        StatementView {
            account_number: self.account_number@,
            currency: self.currency@,
            opening_balance: self.opening_balance.minor_units as nat,
            opening_date: self.opening_date@,
            opening_indicator: self.opening_indicator,
            closing_balance: self.closing_balance.minor_units as nat,
            closing_date: self.closing_date@,
            closing_indicator: self.closing_indicator,
            transactions: transactions_view(self.transactions@),
        }
    }
}

/// The error of this format with the given text.
pub open spec fn mt940_error(message: Seq<char>) -> ErrorView {
    ErrorView::Mt940Error(message)
}

/// The payload of a message: what stands between `{4:` and the next `-}`,
/// or the next `}` where there is no `-}`. A message without `{4:` is all
/// payload.
pub open spec fn block4_of(content: Seq<char>) -> Result<Seq<char>, ErrorView> {
    match find(content, "{4:"@) {
        Some(start) => {
            let after = content.skip(start + 3);
            match find(after, "-}"@) {
                Some(end) => Ok(after.take(end)),
                None => match find(after, "}"@) {
                    Some(end) => Ok(after.take(end)),
                    None => Err(mt940_error("Block 4 not properly closed"@)),
                },
            }
        },
        None => Ok(content),
    }
}

/// The line begins, after white space, with a colon.
pub open spec fn opens_tag(line: Seq<char>) -> bool {
    trimmed(line).len() > 0 && trimmed(line)[0] == ':'
}

/// What follows the first colon of a line that begins with one.
pub open spec fn after_colon(line: Seq<char>) -> Seq<char> {
    trimmed(line).drop_first()
}

/// The line states a tag: a colon, a name, a second colon.
pub open spec fn is_tag_line(line: Seq<char>) -> bool {
    opens_tag(line) && position(after_colon(line), ':') < after_colon(line).len()
}

/// The name of the tag that a tag line states.
pub open spec fn tag_name(line: Seq<char>) -> Seq<char> {
    after_colon(line).take(position(after_colon(line), ':'))
}

/// What a tag line holds behind the tag.
pub open spec fn tag_head(line: Seq<char>) -> Seq<char> {
    after_colon(line).skip(position(after_colon(line), ':') + 1)
}

/// The number of lines at the start of `lines` that open no tag.
pub open spec fn continuation_count(lines: Seq<Seq<char>>) -> nat
    decreases lines.len(),
{
    if lines.len() == 0 || opens_tag(lines[0]) {
        0
    } else {
        1 + continuation_count(lines.drop_first())
    }
}

/// `value` with each of `lines` appended behind a line feed.
pub open spec fn continued(value: Seq<char>, lines: Seq<Seq<char>>) -> Seq<char>
    decreases lines.len(),
{
    if lines.len() == 0 {
        value
    } else {
        continued(value + seq!['\n'] + lines[0], lines.drop_first())
    }
}

/// The tags of a payload with their values, in order. A tag line starts a
/// tag; the lines after it that open no tag continue its value. Lines before
/// the first tag, and lines that begin with a colon and state no tag, are
/// passed over.
pub open spec fn tags_of(lines: Seq<Seq<char>>) -> Seq<(Seq<char>, Seq<char>)>
    decreases lines.len(),
{
    if lines.len() == 0 {
        Seq::empty()
    } else if is_tag_line(lines[0]) {
        let rest = lines.drop_first();
        let n = continuation_count(rest);
        if n > rest.len() {
            Seq::empty()
        } else {
            seq![(tag_name(lines[0]), continued(tag_head(lines[0]), rest.take(n as int)))]
                + tags_of(rest.skip(n as int))
        }
    } else {
        tags_of(lines.drop_first())
    }
}

/// The tags that a list of pairs of texts holds.
pub open spec fn tags_view(v: Seq<(Vec<char>, Vec<char>)>) -> Seq<(Seq<char>, Seq<char>)> {
    v.map_values(|t: (Vec<char>, Vec<char>)| (t.0@, t.1@))
}

proof fn lemma_continuation_count_bound(lines: Seq<Seq<char>>)
    ensures
        continuation_count(lines) <= lines.len(),
    decreases lines.len(),
{
    if lines.len() == 0 || opens_tag(lines[0]) {
    } else {
        lemma_continuation_count_bound(lines.drop_first());
    }
}

/// The payload of `content`.
pub fn block4(content: &[char]) -> (r: Result<Vec<char>, ParseError>)
    ensures
        outcome(r) == block4_of(content@),
{
    let open = chars_of("{4:");
    proof {
        reveal_strlit("{4:");
    }
    match find_in(content, open.as_slice(), 0) {
        Some(start) => {
            let after = slice_of(content, start + 3, content.len());
            assert(after@ =~= content@.skip(start + 3));
            match find_in(after.as_slice(), chars_of("-}").as_slice(), 0) {
                Some(end) => {
                    let r = slice_of(after.as_slice(), 0, end);
                    assert(r@ =~= after@.take(end as int));
                    Ok(r)
                },
                None => match find_in(after.as_slice(), chars_of("}").as_slice(), 0) {
                    Some(end) => {
                        let r = slice_of(after.as_slice(), 0, end);
                        assert(r@ =~= after@.take(end as int));
                        Ok(r)
                    },
                    None => Err(ParseError::Mt940Error("Block 4 not properly closed".to_owned())),
                },
            }
        },
        None => {
            let r = slice_of(content, 0, content.len());
            assert(r@ =~= content@);
            Ok(r)
        },
    }
}

/// Whether the line begins, after white space, with a colon.
fn line_opens_tag(line: &[char]) -> (r: bool)
    ensures
        r == opens_tag(line@),
{
    let t = trim(line);
    t.len() > 0 && t[0] == ':'
}

/// The tags of the lines of a payload.
pub fn parse_tags(lines: &Vec<Vec<char>>) -> (tags: Vec<(Vec<char>, Vec<char>)>)
    ensures
        tags_view(tags@) == tags_of(texts(lines@)),
{
    let ghost all = texts(lines@);
    let mut tags: Vec<(Vec<char>, Vec<char>)> = Vec::new();
    let mut i: usize = 0;
    assert(all.skip(0) =~= all);
    assert(tags_view(tags@) =~= Seq::<(Seq<char>, Seq<char>)>::empty());
    while i < lines.len()
        invariant
            i <= lines.len(),
            all == texts(lines@),
            tags_of(all) == tags_view(tags@) + tags_of(all.skip(i as int)),
        decreases lines.len() - i,
    {
        let ghost here = all.skip(i as int);
        assert(here[0] == lines@[i as int]@);
        assert(here.drop_first() =~= all.skip(i + 1));
        let t = trim(lines[i].as_slice());
        let mut found = false;
        if t.len() > 0 && t[0] == ':' {
            let stripped = slice_of(t.as_slice(), 1, t.len());
            assert(stripped@ =~= after_colon(here[0]));
            let colon = position_from(stripped.as_slice(), ':', 0);
            assert(stripped@.skip(0) =~= stripped@);
            if colon < stripped.len() {
                found = true;
                let name = slice_of(stripped.as_slice(), 0, colon);
                let mut value = slice_of(stripped.as_slice(), colon + 1, stripped.len());
                assert(name@ =~= tag_name(here[0]));
                assert(value@ =~= tag_head(here[0]));
                let ghost rest = all.skip(i + 1);
                let ghost before = tags_view(tags@);
                let ghost head = value@;
                let mut j: usize = i + 1;
                proof {
                    lemma_continuation_count_bound(rest);
                    assert(rest.take(0) =~= Seq::<Seq<char>>::empty());
                    assert(rest.skip(0) =~= rest);
                }
                while j < lines.len() && !line_opens_tag(lines[j].as_slice())
                    invariant
                        i < j <= lines.len(),
                        all == texts(lines@),
                        rest == all.skip(i + 1),
                        continuation_count(rest) == (j - i - 1) + continuation_count(
                            rest.skip(j - i - 1),
                        ),
                        continued(head, rest.take(continuation_count(rest) as int)) == continued(
                            value@,
                            rest.subrange(j - i - 1, continuation_count(rest) as int),
                        ),
                        continuation_count(rest) <= rest.len(),
                    decreases lines.len() - j,
                {
                    let ghost earlier = value@;
                    proof {
                        let k = j - i - 1;
                        let n = continuation_count(rest) as int;
                        assert(rest.skip(k)[0] == lines@[j as int]@);
                        assert(rest.skip(k).drop_first() =~= rest.skip(k + 1));
                        assert(continuation_count(rest.skip(k)) >= 1);
                        let sub = rest.subrange(k, n);
                        assert(sub[0] == lines@[j as int]@);
                        assert(sub.drop_first() =~= rest.subrange(k + 1, n));
                    }
                    value.push('\n');
                    append_text(&mut value, lines[j].as_slice());
                    assert(value@ =~= earlier + seq!['\n'] + lines@[j as int]@);
                    j += 1;
                }
                proof {
                    let k = j - i - 1;
                    let n = continuation_count(rest) as int;
                    if j < lines.len() {
                        assert(rest.skip(k)[0] == lines@[j as int]@);
                    }
                    assert(continuation_count(rest.skip(k)) == 0);
                    assert(n == k);
                    assert(rest.subrange(k, n) =~= Seq::<Seq<char>>::empty());
                    assert(rest.skip(n) =~= all.skip(j as int));
                }
                tags.push((name, value));
                assert(tags_view(tags@) =~= before + seq![
                    (
                        tag_name(here[0]),
                        continued(tag_head(here[0]), rest.take(continuation_count(rest) as int)),
                    ),
                ]);
                i = j;
            }
        }
        if !found {
            assert(!is_tag_line(here[0]));
            i += 1;
        }
    }
    assert(tags_of(all.skip(i as int)) =~= Seq::<(Seq<char>, Seq<char>)>::empty());
    tags
}

/// The number that two digits denote.
pub open spec fn pair_value(tens: char, ones: char) -> nat {
    crate::text::digit_value(tens) * 10 + crate::text::digit_value(ones)
}

/// The year that two digits stand for: 2000 to 2049 for 00 to 49, 1950 to
/// 1999 for 50 to 99.
pub open spec fn century_year(yy: nat) -> int {
    if yy <= 49 {
        2000 + yy as int
    } else {
        1900 + yy as int
    }
}

/// The day that six digits `YYMMDD` state.
pub open spec fn yymmdd_date(s: Seq<char>) -> Result<TimestampView, ErrorView> {
    if s.len() != 6 || !all_digits(s) {
        Err(mt940_error("Expected YYMMDD date, found '"@ + s + "'"@))
    } else {
        let year = century_year(pair_value(s[0], s[1]));
        let month = pair_value(s[2], s[3]) as int;
        let day = pair_value(s[4], s[5]) as int;
        if is_calendar_day(year, month, day) {
            Ok(midnight(year, month, day))
        } else {
            Err(
                mt940_error(
                    "Invalid calendar date derived from '"@ + s + "': "@ + four_digits(year as nat)
                        + "-"@ + two_digits(month as nat) + "-"@ + two_digits(day as nat),
                ),
            )
        }
    }
}

/// A numeral as this format reads it: commas stand for points, blanks are
/// dropped, and a point at the end is followed by two zeros.
pub open spec fn normal_numeral(s: Seq<char>) -> Seq<char> {
    let n = without(replaced(trimmed(s), ',', '.'), ' ');
    if n.len() > 0 && n.last() == '.' {
        n + "00"@
    } else {
        n
    }
}

/// The amount that a numeral of this format states, in hundredths. An empty
/// numeral states nothing; a sign before the numeral is passed over.
pub open spec fn amount_of(s: Seq<char>) -> Result<nat, ErrorView> {
    if trimmed(s).len() == 0 {
        Ok(0)
    } else {
        match numeral_value(normal_numeral(s)) {
            Some(v) => Ok(v.magnitude.minor_units as nat),
            None => Err(mt940_error("Invalid amount: "@ + s)),
        }
    }
}

/// What a balance line states.
pub struct BalanceView {
    pub amount: nat,
    pub date: TimestampView,
    pub indicator: BalanceType,
    pub currency: Seq<char>,
}

/// What a balance line states: `C` or `D`, six digits of a day, three
/// characters of a currency, an amount.
pub open spec fn balance_of_line(line: Seq<char>) -> Result<BalanceView, ErrorView> {
    let t = trimmed(line);
    if t.len() == 0 {
        Err(mt940_error("Empty balance line"@))
    } else if t[0] != 'C' && t[0] != 'D' {
        Err(mt940_error("Invalid balance indicator"@))
    } else if t.len() < 7 {
        Err(mt940_error("Balance line too short"@))
    } else {
        match yymmdd_date(t.subrange(1, 7)) {
            Err(e) => Err(e),
            Ok(date) => if t.len() < 10 {
                Err(mt940_error("Missing currency in balance"@))
            } else {
                match amount_of(t.skip(10)) {
                    Err(e) => Err(e),
                    Ok(amount) => Ok(
                        BalanceView {
                            amount,
                            date,
                            indicator: if t[0] == 'C' {
                                BalanceType::Credit
                            } else {
                                BalanceType::Debit
                            },
                            currency: t.subrange(7, 10),
                        },
                    ),
                }
            },
        }
    }
}

/// A character that an amount is written with.
pub open spec fn is_amount_char(c: char) -> bool {
    is_digit(c) || c == ',' || c == '.'
}

/// The length of the longest start of `s` that is written with amount
/// characters alone.
pub open spec fn amount_run(s: Seq<char>) -> nat
    decreases s.len(),
{
    if s.len() == 0 || !is_amount_char(s[0]) {
        0
    } else {
        1 + amount_run(s.drop_first())
    }
}

/// What stands behind the day of a transaction line, without the four
/// digits of a second day where they are there.
pub open spec fn after_dates(t: Seq<char>) -> Seq<char> {
    let rest = t.skip(6);
    if rest.len() >= 4 && all_digits(rest.take(4)) {
        rest.skip(4)
    } else {
        rest
    }
}

/// What a transaction line states, with the description that came with it:
/// six digits of a day, four more of a second day or none, `C` or `D`, an
/// amount as far as amount characters go, and the rest as the reference.
pub open spec fn transaction_of_line(line: Seq<char>, description: Seq<char>) -> Result<
    TransactionView,
    ErrorView,
> {
    let t = trimmed(line);
    if t.len() == 0 {
        Err(mt940_error("Empty transaction line"@))
    } else if t.len() < 6 {
        Err(mt940_error("Transaction line too short"@))
    } else {
        match yymmdd_date(t.take(6)) {
            Err(e) => Err(e),
            Ok(date) => {
                let marked = after_dates(t);
                if marked.len() == 0 {
                    Err(mt940_error("Missing transaction indicator"@))
                } else if marked[0] != 'C' && marked[0] != 'D' {
                    Err(mt940_error("Invalid transaction indicator"@))
                } else {
                    let rest = marked.drop_first();
                    let end = amount_run(rest) as int;
                    if end == 0 {
                        Err(mt940_error("Missing amount in transaction"@))
                    } else {
                        match amount_of(rest.take(end)) {
                            Err(e) => Err(e),
                            Ok(amount) => Ok(
                                TransactionView {
                                    booking_date: date,
                                    value_date: None,
                                    amount,
                                    transaction_type: if marked[0] == 'C' {
                                        TransactionType::Credit
                                    } else {
                                        TransactionType::Debit
                                    },
                                    description,
                                    reference: if end < rest.len() {
                                        Some(trimmed(rest.skip(end)))
                                    } else {
                                        None
                                    },
                                    counterparty_name: None,
                                    counterparty_account: None,
                                },
                            ),
                        }
                    }
                }
            },
        }
    }
}

/// The value of a digit character.
fn digit_number(c: char) -> (d: u32)
    requires
        is_digit(c),
    ensures
        d == crate::text::digit_value(c),
        d < 10,
{
    c as u32 - 48u32
}

/// The amount that the numeral `v` states.
fn read_amount(v: &[char]) -> (r: Result<Amount, ParseError>)
    ensures
        match r {
            Ok(a) => amount_of(v@) == Ok::<nat, ErrorView>(a.minor_units as nat),
            Err(e) => amount_of(v@) == Err::<nat, ErrorView>(e@),
        },
{
    let t = trim(v);
    if t.len() == 0 {
        return Ok(Amount { minor_units: 0 });
    }
    let pointed = replace_char(t.as_slice(), ',', '.');
    let mut normal = remove_char(pointed.as_slice(), ' ');
    if normal.len() > 0 && normal[normal.len() - 1] == '.' {
        append_text(&mut normal, chars_of("00").as_slice());
    }
    assert(normal@ == normal_numeral(v@));
    match read_numeral(normal.as_slice()) {
        Some(value) => Ok(value.magnitude),
        None => Err(ParseError::Mt940Error(crate::error::prefixed("Invalid amount: ", v))),
    }
}

/// The day that the six digits `v` state.
fn read_yymmdd(v: &[char]) -> (r: Result<Timestamp, ParseError>)
    ensures
        outcome(r) == yymmdd_date(v@),
{
    if v.len() != 6 || !only_digits(v) {
        let mut m = chars_of("Expected YYMMDD date, found '");
        append_text(&mut m, v);
        append_text(&mut m, chars_of("'").as_slice());
        return Err(ParseError::Mt940Error(string_of(m.as_slice())));
    }
    assert(forall|i: int| 0 <= i < 6 ==> is_digit(#[trigger] v@[i]));
    let yy: u32 = digit_number(v[0]) * 10 + digit_number(v[1]);
    let month: u32 = digit_number(v[2]) * 10 + digit_number(v[3]);
    let day: u32 = digit_number(v[4]) * 10 + digit_number(v[5]);
    let year: i32 = if yy <= 49 {
        (2000 + yy) as i32
    } else {
        (1900 + yy) as i32
    };
    assert(year == century_year(pair_value(v@[0], v@[1])));
    match Timestamp::from_ymd(year, month, day) {
        Some(t) => Ok(t),
        None => {
            let mut m = chars_of("Invalid calendar date derived from '");
            append_text(&mut m, v);
            append_text(&mut m, chars_of("': ").as_slice());
            append_text(&mut m, two_digits_of((year / 100) as u8).as_slice());
            append_text(&mut m, two_digits_of((year % 100) as u8).as_slice());
            append_text(&mut m, chars_of("-").as_slice());
            append_text(&mut m, two_digits_of(month as u8).as_slice());
            append_text(&mut m, chars_of("-").as_slice());
            append_text(&mut m, two_digits_of(day as u8).as_slice());
            let text = string_of(m.as_slice());
            assert(text@ =~= "Invalid calendar date derived from '"@ + v@ + "': "@ + four_digits(
                year as nat,
            ) + "-"@ + two_digits(month as nat) + "-"@ + two_digits(day as nat));
            Err(ParseError::Mt940Error(text))
        },
    }
}

/// What the balance line `v` states.
fn read_balance_line(v: &[char]) -> (r: Result<(Amount, Timestamp, BalanceType, String), ParseError>)
    ensures
        match r {
            Ok(b) => balance_of_line(v@) == Ok::<BalanceView, ErrorView>(
                BalanceView {
                    amount: b.0.minor_units as nat,
                    date: b.1@,
                    indicator: b.2,
                    currency: b.3@,
                },
            ),
            Err(e) => balance_of_line(v@) == Err::<BalanceView, ErrorView>(e@),
        },
{
    let t = trim(v);
    if t.len() == 0 {
        return Err(ParseError::Mt940Error("Empty balance line".to_owned()));
    }
    let indicator = if t[0] == 'C' {
        BalanceType::Credit
    } else if t[0] == 'D' {
        BalanceType::Debit
    } else {
        return Err(ParseError::Mt940Error("Invalid balance indicator".to_owned()));
    };
    if t.len() < 7 {
        return Err(ParseError::Mt940Error("Balance line too short".to_owned()));
    }
    let date = match read_yymmdd(slice_of(t.as_slice(), 1, 7).as_slice()) {
        Ok(d) => d,
        Err(e) => {
            return Err(e);
        },
    };
    if t.len() < 10 {
        return Err(ParseError::Mt940Error("Missing currency in balance".to_owned()));
    }
    let currency = string_of(slice_of(t.as_slice(), 7, 10).as_slice());
    let tail = slice_of(t.as_slice(), 10, t.len());
    assert(tail@ =~= t@.skip(10));
    match read_amount(tail.as_slice()) {
        Ok(amount) => Ok((amount, date, indicator, currency)),
        Err(e) => Err(e),
    }
}

proof fn lemma_amount_run_step(s: Seq<char>, k: int)
    requires
        0 <= k < s.len(),
        is_amount_char(s[k]),
    ensures
        amount_run(s.skip(k)) == 1 + amount_run(s.skip(k + 1)),
{
    assert(s.skip(k).drop_first() =~= s.skip(k + 1));
}

/// The length of the longest start of `v` written with amount characters.
fn amount_length(v: &[char]) -> (n: usize)
    ensures
        n == amount_run(v@),
        n <= v.len(),
{
    let mut k: usize = 0;
    assert(v@.skip(0) =~= v@);
    while k < v.len() && (crate::text::char_is_digit(v[k]) || v[k] == ',' || v[k] == '.')
        invariant
            k <= v.len(),
            amount_run(v@) == k + amount_run(v@.skip(k as int)),
        decreases v.len() - k,
    {
        proof {
            lemma_amount_run_step(v@, k as int);
        }
        k += 1;
    }
    k
}

/// What the transaction line `v` states, with its description.
fn read_transaction_line(v: &[char], description: &[char]) -> (r: Result<Transaction, ParseError>)
    ensures
        outcome(r) == transaction_of_line(v@, description@),
{
    let t = trim(v);
    if t.len() == 0 {
        return Err(ParseError::Mt940Error("Empty transaction line".to_owned()));
    }
    if t.len() < 6 {
        return Err(ParseError::Mt940Error("Transaction line too short".to_owned()));
    }
    let head = slice_of(t.as_slice(), 0, 6);
    assert(head@ =~= t@.take(6));
    let booking_date = match read_yymmdd(head.as_slice()) {
        Ok(d) => d,
        Err(e) => {
            return Err(e);
        },
    };
    let mut start: usize = 6;
    let ghost rest0 = t@.skip(6);
    if t.len() >= 10 {
        let second = slice_of(t.as_slice(), 6, 10);
        assert(second@ =~= rest0.take(4));
        if only_digits(second.as_slice()) {
            start = 10;
        }
    }
    let marked = slice_of(t.as_slice(), start, t.len());
    proof {
        if start == 10 {
            assert(marked@ =~= rest0.skip(4));
        } else {
            assert(marked@ =~= rest0);
        }
        assert(marked@ == after_dates(t@));
    }
    if marked.len() == 0 {
        return Err(ParseError::Mt940Error("Missing transaction indicator".to_owned()));
    }
    let transaction_type = if marked[0] == 'C' {
        TransactionType::Credit
    } else if marked[0] == 'D' {
        TransactionType::Debit
    } else {
        return Err(ParseError::Mt940Error("Invalid transaction indicator".to_owned()));
    };
    let rest = slice_of(marked.as_slice(), 1, marked.len());
    assert(rest@ =~= marked@.drop_first());
    let end = amount_length(rest.as_slice());
    if end == 0 {
        return Err(ParseError::Mt940Error("Missing amount in transaction".to_owned()));
    }
    let numeral = slice_of(rest.as_slice(), 0, end);
    assert(numeral@ =~= rest@.take(end as int));
    let amount = match read_amount(numeral.as_slice()) {
        Ok(a) => a,
        Err(e) => {
            return Err(e);
        },
    };
    let reference = if end < rest.len() {
        let tail = slice_of(rest.as_slice(), end, rest.len());
        assert(tail@ =~= rest@.skip(end as int));
        Some(string_of(trim(tail.as_slice()).as_slice()))
    } else {
        None
    };
    Ok(
        Transaction {
            booking_date,
            value_date: None,
            amount,
            transaction_type,
            description: string_of(description),
            reference,
            counterparty_name: None,
            counterparty_account: None,
        },
    )
}

/// The value of the first tag named `a` or `b`.
pub open spec fn first_tag(tags: Seq<(Seq<char>, Seq<char>)>, a: Seq<char>, b: Seq<char>) -> Option<
    Seq<char>,
>
    decreases tags.len(),
{
    if tags.len() == 0 {
        None
    } else if tags[0].0 == a || tags[0].0 == b {
        Some(tags[0].1)
    } else {
        first_tag(tags.drop_first(), a, b)
    }
}

/// The description that belongs to the tag at position `i`: the value of
/// the tag behind it, if that one is named `86`.
pub open spec fn description_at(tags: Seq<(Seq<char>, Seq<char>)>, i: int) -> Seq<char> {
    if i + 1 < tags.len() && tags[i + 1].0 == "86"@ {
        trimmed(tags[i + 1].1)
    } else {
        Seq::empty()
    }
}

/// The transactions that the tags from position `i` on state, in order. Each
/// tag named `61` is a transaction line; one that cannot be read is left out.
pub open spec fn transactions_from(tags: Seq<(Seq<char>, Seq<char>)>, i: int) -> Seq<TransactionView>
    decreases tags.len() - i,
{
    if i < 0 || i >= tags.len() {
        Seq::empty()
    } else if tags[i].0 == "61"@ {
        match transaction_of_line(tags[i].1, description_at(tags, i)) {
            Ok(t) => seq![t] + transactions_from(tags, i + 1),
            Err(_) => transactions_from(tags, i + 1),
        }
    } else {
        transactions_from(tags, i + 1)
    }
}

/// The statement that a list of tags states. It needs the account in tag
/// `25`, the opening balance in `60F` or `60M` and the closing balance in
/// `62F` or `62M`; the currency is that of the opening balance.
pub open spec fn statement_of_tags(tags: Seq<(Seq<char>, Seq<char>)>) -> Result<
    StatementView,
    ErrorView,
> {
    match first_tag(tags, "25"@, "25"@) {
        None => Err(mt940_error("Missing :25: account tag"@)),
        Some(account) => match first_tag(tags, "60F"@, "60M"@) {
            None => Err(mt940_error("Missing :60F: or :60M: tag"@)),
            Some(opening_line) => match balance_of_line(opening_line) {
                Err(e) => Err(e),
                Ok(opening) => match first_tag(tags, "62F"@, "62M"@) {
                    None => Err(mt940_error("Missing :62F: or :62M: tag"@)),
                    Some(closing_line) => match balance_of_line(closing_line) {
                        Err(e) => Err(e),
                        Ok(closing) => Ok(
                            StatementView {
                                account_number: trimmed(account),
                                currency: opening.currency,
                                opening_balance: opening.amount,
                                opening_date: opening.date,
                                opening_indicator: opening.indicator,
                                closing_balance: closing.amount,
                                closing_date: closing.date,
                                closing_indicator: closing.indicator,
                                transactions: transactions_from(tags, 0),
                            },
                        ),
                    },
                },
            },
        },
    }
}

/// The statement that the text of a message states.
pub open spec fn statement_of_text(content: Seq<char>) -> Result<StatementView, ErrorView> {
    if trimmed(content).len() == 0 {
        Err(mt940_error("Empty input"@))
    } else {
        match block4_of(content) {
            Err(e) => Err(e),
            Ok(payload) => statement_of_tags(tags_of(lines_of(payload))),
        }
    }
}

/// The statement that the bytes of a message state.
pub open spec fn statement_of_bytes(input: Seq<u8>) -> Result<StatementView, ErrorView> {
    match crate::error::text_of_bytes(input) {
        Err(e) => Err(e),
        Ok(content) => statement_of_text(content),
    }
}

/// The letter that stands for a balance indicator.
pub open spec fn balance_letter(indicator: BalanceType) -> char {
    match indicator {
        BalanceType::Credit => 'C',
        BalanceType::Debit => 'D',
    }
}

/// The letter that stands for the direction of a transaction.
pub open spec fn transaction_letter(direction: TransactionType) -> char {
    match direction {
        TransactionType::Credit => 'C',
        TransactionType::Debit => 'D',
    }
}

/// The line of a balance behind its tag.
pub open spec fn balance_text(
    indicator: BalanceType,
    date: TimestampView,
    currency: Seq<char>,
    amount: nat,
) -> Seq<char> {
    seq![balance_letter(indicator)] + date.compact_day() + currency + amount_text(amount, ',')
        + seq!['\n']
}

/// The text of an optional reference.
pub open spec fn reference_text(reference: Option<Seq<char>>) -> Seq<char> {
    match reference {
        Some(r) => r,
        None => Seq::empty(),
    }
}

/// The two lines of a transaction: tag `61` and tag `86`.
pub open spec fn transaction_text(t: TransactionView) -> Seq<char> {
    ":61:"@ + t.booking_date.compact_day() + seq![transaction_letter(t.transaction_type)]
        + amount_text(t.amount, ',') + "NTRF"@ + reference_text(t.reference) + seq!['\n'] + ":86:"@
        + t.description + seq!['\n']
}

/// The lines of all transactions, in order.
pub open spec fn transactions_text(ts: Seq<TransactionView>) -> Seq<char>
    decreases ts.len(),
{
    if ts.len() == 0 {
        Seq::empty()
    } else {
        transactions_text(ts.drop_last()) + transaction_text(ts.last())
    }
}

/// The message that states a statement, in an envelope of its own making.
pub open spec fn message_text(s: StatementView) -> Seq<char> {
    "{1:F01BANKXXXXXX0000000000}{2:I940BANKXXXXXXN}{4:\n"@ + ":20:STATEMENT\n"@ + ":25:"@
        + s.account_number + seq!['\n'] + ":28C:1/1\n"@ + ":60F:"@ + balance_text(
        s.opening_indicator,
        s.opening_date,
        s.currency,
        s.opening_balance,
    ) + transactions_text(s.transactions) + ":62F:"@ + balance_text(
        s.closing_indicator,
        s.closing_date,
        s.currency,
        s.closing_balance,
    ) + "-}\n"@
}

/// The value of the first tag named `a` or `b`.
fn find_tag<'a>(tags: &'a Vec<(Vec<char>, Vec<char>)>, a: &str, b: &str) -> (r: Option<&'a Vec<char>>)
    ensures
        match r {
            Some(v) => first_tag(tags_view(tags@), a@, b@) == Some(v@),
            None => first_tag(tags_view(tags@), a@, b@) is None,
        },
{
    let name_a = chars_of(a);
    let name_b = chars_of(b);
    let ghost all = tags_view(tags@);
    let mut i: usize = 0;
    assert(all.skip(0) =~= all);
    while i < tags.len()
        invariant
            i <= tags.len(),
            all == tags_view(tags@),
            name_a@ == a@,
            name_b@ == b@,
            first_tag(all, a@, b@) == first_tag(all.skip(i as int), a@, b@),
        decreases tags.len() - i,
    {
        assert(all.skip(i as int)[0] == (tags@[i as int].0@, tags@[i as int].1@));
        assert(all.skip(i as int).drop_first() =~= all.skip(i + 1));
        if same_text(tags[i].0.as_slice(), name_a.as_slice()) || same_text(
            tags[i].0.as_slice(),
            name_b.as_slice(),
        ) {
            return Some(&tags[i].1);
        }
        i += 1;
    }
    None
}

/// The transactions that the tags state.
fn read_transactions(tags: &Vec<(Vec<char>, Vec<char>)>) -> (r: Vec<Transaction>)
    ensures
        transactions_view(r@) == transactions_from(tags_view(tags@), 0),
{
    let ghost all = tags_view(tags@);
    let line_name = chars_of("61");
    let text_name = chars_of("86");
    let mut out: Vec<Transaction> = Vec::new();
    let mut i: usize = 0;
    assert(transactions_view(out@) =~= Seq::<TransactionView>::empty());
    while i < tags.len()
        invariant
            i <= tags.len(),
            all == tags_view(tags@),
            line_name@ == "61"@,
            text_name@ == "86"@,
            transactions_from(all, 0) == transactions_view(out@) + transactions_from(all, i as int),
        decreases tags.len() - i,
    {
        let ghost before = transactions_view(out@);
        assert(all[i as int] == (tags@[i as int].0@, tags@[i as int].1@));
        if same_text(tags[i].0.as_slice(), line_name.as_slice()) {
            let description = if i + 1 < tags.len() && same_text(
                tags[i + 1].0.as_slice(),
                text_name.as_slice(),
            ) {
                trim(tags[i + 1].1.as_slice())
            } else {
                Vec::new()
            };
            proof {
                if i + 1 < tags.len() {
                    assert(all[i + 1] == (tags@[i + 1].0@, tags@[i + 1].1@));
                }
                assert(description@ =~= description_at(all, i as int));
            }
            match read_transaction_line(tags[i].1.as_slice(), description.as_slice()) {
                Ok(t) => {
                    out.push(t);
                    assert(transactions_view(out@) =~= before + seq![t@]);
                    assert(transactions_from(all, 0) =~= transactions_view(out@)
                        + transactions_from(all, i + 1));
                },
                Err(_) => {},
            }
        }
        i += 1;
    }
    assert(transactions_from(all, i as int) =~= Seq::<TransactionView>::empty());
    assert(transactions_view(out@) + Seq::<TransactionView>::empty() =~= transactions_view(out@));
    out
}

/// The statement that the tags state.
fn read_statement(tags: &Vec<(Vec<char>, Vec<char>)>) -> (r: Result<Mt940Statement, ParseError>)
    ensures
        outcome(r) == statement_of_tags(tags_view(tags@)),
{
    let account = match find_tag(tags, "25", "25") {
        Some(v) => trim(v.as_slice()),
        None => {
            return Err(ParseError::Mt940Error("Missing :25: account tag".to_owned()));
        },
    };
    let opening = match find_tag(tags, "60F", "60M") {
        Some(line) => match read_balance_line(line.as_slice()) {
            Ok(b) => b,
            Err(e) => {
                return Err(e);
            },
        },
        None => {
            return Err(ParseError::Mt940Error("Missing :60F: or :60M: tag".to_owned()));
        },
    };
    let closing = match find_tag(tags, "62F", "62M") {
        Some(line) => match read_balance_line(line.as_slice()) {
            Ok(b) => b,
            Err(e) => {
                return Err(e);
            },
        },
        None => {
            return Err(ParseError::Mt940Error("Missing :62F: or :62M: tag".to_owned()));
        },
    };
    let transactions = read_transactions(tags);
    Ok(
        Mt940Statement {
            account_number: string_of(account.as_slice()),
            currency: opening.3,
            opening_balance: opening.0,
            opening_date: opening.1,
            opening_indicator: opening.2,
            closing_balance: closing.0,
            closing_date: closing.1,
            closing_indicator: closing.2,
            transactions,
        },
    )
}

/// Appends the line of a balance behind its tag.
fn write_balance(
    out: &mut Vec<char>,
    indicator: BalanceType,
    date: &Timestamp,
    currency: &String,
    amount: Amount,
)
    ensures
        final(out)@ == old(out)@ + balance_text(
            indicator,
            date@,
            currency@,
            amount.minor_units as nat,
        ),
{
    let mut line: Vec<char> = Vec::new();
    line.push(
        match indicator {
            BalanceType::Credit => 'C',
            BalanceType::Debit => 'D',
        },
    );
    assert(line@ =~= seq![balance_letter(indicator)]);
    append_text(&mut line, chars_of(date.compact_date().as_str()).as_slice());
    append_text(&mut line, chars_of(currency.as_str()).as_slice());
    append_text(&mut line, write_amount(amount, ',').as_slice());
    line.push('\n');
    append_text(out, line.as_slice());
}

/// The two lines of a transaction.
fn write_transaction(t: &Transaction) -> (r: Vec<char>)
    ensures
        r@ == transaction_text(t@),
{
    let mut line = chars_of(":61:");
    append_text(&mut line, chars_of(t.booking_date.compact_date().as_str()).as_slice());
    line.push(
        match t.transaction_type {
            TransactionType::Credit => 'C',
            TransactionType::Debit => 'D',
        },
    );
    append_text(&mut line, write_amount(t.amount, ',').as_slice());
    append_text(&mut line, chars_of("NTRF").as_slice());
    match &t.reference {
        Some(r) => {
            append_text(&mut line, chars_of(r.as_str()).as_slice());
        },
        None => {
            assert(line@ + Seq::<char>::empty() =~= line@);
        },
    }
    line.push('\n');
    append_text(&mut line, chars_of(":86:").as_slice());
    append_text(&mut line, chars_of(t.description.as_str()).as_slice());
    line.push('\n');
    line
}

impl Mt940Statement {
    /// Decodes the message in `input`.
    pub fn from_read(input: &[u8]) -> (r: Result<Mt940Statement, ParseError>)
        ensures
            outcome(r) == statement_of_bytes(input@),
    {
        let text = match crate::error::read_text(input) {
            Ok(t) => t,
            Err(e) => {
                return Err(e);
            },
        };
        let content = chars_of(text);
        if trim(content.as_slice()).len() == 0 {
            return Err(ParseError::Mt940Error("Empty input".to_owned()));
        }
        let payload = match block4(content.as_slice()) {
            Ok(p) => p,
            Err(e) => {
                return Err(e);
            },
        };
        let lines = split_lines(payload.as_slice());
        let tags = parse_tags(&lines);
        read_statement(&tags)
    }

    /// Encodes the statement as a message.
    pub fn write_to(&self) -> (r: String)
        ensures
            r@ == message_text(self@),
    {
        let mut out = chars_of("{1:F01BANKXXXXXX0000000000}{2:I940BANKXXXXXXN}{4:\n");
        append_text(&mut out, chars_of(":20:STATEMENT\n").as_slice());
        append_text(&mut out, chars_of(":25:").as_slice());
        append_text(&mut out, chars_of(self.account_number.as_str()).as_slice());
        out.push('\n');
        append_text(&mut out, chars_of(":28C:1/1\n").as_slice());
        append_text(&mut out, chars_of(":60F:").as_slice());
        write_balance(
            &mut out,
            self.opening_indicator,
            &self.opening_date,
            &self.currency,
            self.opening_balance,
        );
        let ghost head = out@;
        let ghost ts = transactions_view(self.transactions@);
        let mut i: usize = 0;
        assert(ts.take(0) =~= Seq::<TransactionView>::empty());
        assert(head + Seq::<char>::empty() =~= head);
        while i < self.transactions.len()
            invariant
                i <= self.transactions.len(),
                ts == transactions_view(self.transactions@),
                out@ == head + transactions_text(ts.take(i as int)),
            decreases self.transactions.len() - i,
        {
            let line = write_transaction(&self.transactions[i]);
            append_text(&mut out, line.as_slice());
            i += 1;
            proof {
                assert(ts.take(i as int).drop_last() =~= ts.take(i - 1));
                assert(ts.take(i as int).last() == self.transactions@[i - 1]@);
                assert(out@ =~= head + transactions_text(ts.take(i as int)));
            }
        }
        assert(ts.take(i as int) =~= ts);
        append_text(&mut out, chars_of(":62F:").as_slice());
        write_balance(
            &mut out,
            self.closing_indicator,
            &self.closing_date,
            &self.currency,
            self.closing_balance,
        );
        append_text(&mut out, chars_of("-}\n").as_slice());
        string_of(out.as_slice())
    }

    /// The payload of a message.
    pub fn extract_block4(content: &str) -> (r: Result<String, ParseError>)
        ensures
            outcome(r) == block4_of(content@),
    {
        match block4(chars_of(content).as_slice()) {
            Ok(p) => Ok(string_of(p.as_slice())),
            Err(e) => Err(e),
        }
    }

    /// The day that six digits `YYMMDD` state.
    pub fn parse_yymmdd_date(date_str: &str) -> (r: Result<Timestamp, ParseError>)
        ensures
            outcome(r) == yymmdd_date(date_str@),
    {
        read_yymmdd(chars_of(date_str).as_slice())
    }

    /// The amount that a numeral states.
    pub fn parse_amount(amount_str: &str) -> (r: Result<Amount, ParseError>)
        ensures
            match r {
                Ok(a) => amount_of(amount_str@) == Ok::<nat, ErrorView>(a.minor_units as nat),
                Err(e) => amount_of(amount_str@) == Err::<nat, ErrorView>(e@),
            },
    {
        read_amount(chars_of(amount_str).as_slice())
    }

    /// What a balance line states: amount, day, indicator and currency.
    pub fn parse_balance_line(line: &str) -> (r: Result<
        (Amount, Timestamp, BalanceType, String),
        ParseError,
    >)
        ensures
            match r {
                Ok(b) => balance_of_line(line@) == Ok::<BalanceView, ErrorView>(
                    BalanceView {
                        amount: b.0.minor_units as nat,
                        date: b.1@,
                        indicator: b.2,
                        currency: b.3@,
                    },
                ),
                Err(e) => balance_of_line(line@) == Err::<BalanceView, ErrorView>(e@),
            },
    {
        read_balance_line(chars_of(line).as_slice())
    }

    /// What a transaction line states, with the description that came with it.
    pub fn parse_transaction_line(line: &str, description: &str) -> (r: Result<
        Transaction,
        ParseError,
    >)
        ensures
            outcome(r) == transaction_of_line(line@, description@),
    {
        read_transaction_line(chars_of(line).as_slice(), chars_of(description).as_slice())
    }
}

} // verus!
