//! A message that the encoder writes is read back.

use crate::amount::amount_text;
use crate::date::TimestampView;
use crate::error::ErrorView;
use crate::laws::{
    is_message_day, lemma_comma_amount_is_read, lemma_compact_day,
    lemma_transaction_line_round_trip, transaction_line,
};
use crate::model::{BalanceType, StatementView, TransactionView};
use crate::mt940_statement::{
    balance_letter, balance_of_line, balance_text, block4_of, continuation_count, continued,
    description_at, first_tag, is_amount_char, is_tag_line, message_text, reference_text,
    statement_of_bytes, statement_of_tags, statement_of_text, tag_head, tag_name, tags_of,
    transaction_letter, transaction_of_line, transaction_text, transactions_from,
    transactions_text, BalanceView,
};
use crate::text::{
    drop_trailing_spaces, find_from, is_digit, is_space, lemma_position, lines_of, occurs_at,
    position, skip_spaces, strip_cr, trimmed,
};
use vstd::prelude::*;

verus! {

/// No character of `s` is `c`.
pub open spec fn free_of(s: Seq<char>, c: char) -> bool {
    forall|i: int| 0 <= i < s.len() ==> s[i] != c
}

/// No character of `s` is `c`, character by character.
pub open spec fn lacks(s: Seq<char>, c: char) -> bool
    decreases s.len(),
{
    s.len() == 0 || (s[0] != c && lacks(s.drop_first(), c))
}

pub(crate) proof fn lemma_lacks(s: Seq<char>, c: char)
    requires
        lacks(s, c),
    ensures
        free_of(s, c),
    decreases s.len(),
{
    if s.len() > 0 {
        lemma_lacks(s.drop_first(), c);
        assert forall|i: int| 0 <= i < s.len() implies s[i] != c by {
            if i > 0 {
                assert(s[i] == s.drop_first()[i - 1]);
            }
        }
    }
}

pub(crate) proof fn lemma_free_of_concat(a: Seq<char>, b: Seq<char>, c: char)
    requires
        free_of(a, c),
        free_of(b, c),
    ensures
        free_of(a + b, c),
{
    assert forall|i: int| 0 <= i < (a + b).len() implies (a + b)[i] != c by {
        if i < a.len() {
            assert((a + b)[i] == a[i]);
        } else {
            assert((a + b)[i] == b[i - a.len()]);
        }
    }
}

/// The text of lines, each with a line feed behind it.
pub open spec fn text_of_lines(lines: Seq<Seq<char>>) -> Seq<char>
    decreases lines.len(),
{
    if lines.len() == 0 {
        Seq::empty()
    } else {
        text_of_lines(lines.drop_last()) + lines.last() + seq!['\n']
    }
}

pub(crate) proof fn lemma_text_concat(a: Seq<Seq<char>>, b: Seq<Seq<char>>)
    ensures
        text_of_lines(a + b) == text_of_lines(a) + text_of_lines(b),
    decreases b.len(),
{
    if b.len() == 0 {
        assert(a + b =~= a);
        assert(text_of_lines(a) + text_of_lines(b) =~= text_of_lines(a));
    } else {
        lemma_text_concat(a, b.drop_last());
        assert((a + b).drop_last() =~= a + b.drop_last());
        assert((a + b).last() == b.last());
        assert(text_of_lines(a + b) =~= text_of_lines(a) + text_of_lines(b));
    }
}

/// A line that a text of lines gives back: without a line feed in it and
/// without a carriage return at its end.
pub open spec fn is_line(l: Seq<char>) -> bool {
    free_of(l, '\n') && (l.len() > 0 ==> l.last() != '\r')
}

proof fn lemma_position_at(s: Seq<char>, c: char, k: int)
    requires
        0 <= k <= s.len(),
        forall|i: int| 0 <= i < k ==> s[i] != c,
        k < s.len() ==> s[k] == c,
    ensures
        position(s, c) == k,
{
    lemma_position(s, c);
}

proof fn lemma_lines_concat(a: Seq<char>, b: Seq<char>)
    requires
        a.len() > 0 ==> a.last() == '\n',
    ensures
        lines_of(a + b) == lines_of(a) + lines_of(b),
    decreases a.len(),
{
    if a.len() == 0 {
        assert(a + b =~= b);
        assert(lines_of(a) + lines_of(b) =~= lines_of(b));
    } else {
        let n = position(a, '\n');
        lemma_position(a, '\n');
        assert(n < a.len()) by {
            if n >= a.len() {
                assert(a[a.len() - 1] != '\n');
            }
        }
        assert(position(a + b, '\n') == n) by {
            assert forall|i: int| 0 <= i < n implies (a + b)[i] != '\n' by {
                assert((a + b)[i] == a[i]);
            }
            assert((a + b)[n] == a[n]);
            lemma_position_at(a + b, '\n', n);
        }
        assert((a + b).take(n) =~= a.take(n));
        assert((a + b).skip(n + 1) =~= a.skip(n + 1) + b);
        let rest = a.skip(n + 1);
        if rest.len() > 0 {
            assert(rest.last() == a.last());
        }
        lemma_lines_concat(rest, b);
        assert(lines_of(a + b) =~= lines_of(a) + lines_of(b));
    }
}

/// The lines of a text of lines are those lines.
pub(crate) proof fn lemma_lines_of_text(lines: Seq<Seq<char>>)
    requires
        forall|i: int| 0 <= i < lines.len() ==> is_line(#[trigger] lines[i]),
    ensures
        lines_of(text_of_lines(lines)) == lines,
        text_of_lines(lines).len() > 0 ==> text_of_lines(lines).last() == '\n',
    decreases lines.len(),
{
    if lines.len() == 0 {
    } else {
        let front = lines.drop_last();
        let last = lines.last();
        lemma_lines_of_text(front);
        let one = last + seq!['\n'];
        assert(text_of_lines(lines) =~= text_of_lines(front) + one);
        lemma_lines_concat(text_of_lines(front), one);
        assert(is_line(last));
        assert(position(one, '\n') == last.len()) by {
            assert forall|i: int| 0 <= i < last.len() implies one[i] != '\n' by {
                assert(one[i] == last[i]);
            }
            lemma_position_at(one, '\n', last.len() as int);
        }
        assert(one.take(last.len() as int) =~= last);
        assert(one.skip(last.len() as int + 1) =~= Seq::<char>::empty());
        assert(strip_cr(last) == last);
        assert(lines_of(one.skip(last.len() as int + 1)) =~= Seq::<Seq<char>>::empty());
        assert(lines_of(one) =~= seq![last]);
        assert(front + seq![last] =~= lines);
    }
}

/// The first place where a text stands is the place before which it
/// stands nowhere.
pub(crate) proof fn lemma_find_at(s: Seq<char>, needle: Seq<char>, k: int, from: int)
    requires
        0 <= from <= k,
        occurs_at(s, needle, k),
        forall|i: int| from <= i < k ==> !occurs_at(s, needle, i),
    ensures
        find_from(s, needle, from) == Some(k),
    decreases k - from,
{
    if from < k {
        lemma_find_at(s, needle, k, from + 1);
    }
}

/// The tag that a tag line states, with what stands behind it.
pub open spec fn tag_of_line(line: Seq<char>) -> (Seq<char>, Seq<char>) {
    (tag_name(line), tag_head(line))
}

/// Lines that all state a tag give their tags, one for one.
pub(crate) proof fn lemma_tags_of_tag_lines(lines: Seq<Seq<char>>)
    requires
        forall|i: int| 0 <= i < lines.len() ==> is_tag_line(#[trigger] lines[i]),
    ensures
        tags_of(lines) == lines.map_values(|l: Seq<char>| tag_of_line(l)),
    decreases lines.len(),
{
    let tags = lines.map_values(|l: Seq<char>| tag_of_line(l));
    if lines.len() == 0 {
        assert(tags =~= Seq::<(Seq<char>, Seq<char>)>::empty());
    } else {
        let rest = lines.drop_first();
        assert(is_tag_line(lines[0]));
        assert forall|i: int| 0 <= i < rest.len() implies is_tag_line(#[trigger] rest[i]) by {
            assert(rest[i] == lines[i + 1]);
        }
        lemma_tags_of_tag_lines(rest);
        if rest.len() > 0 {
            assert(is_tag_line(rest[0]));
        }
        assert(continuation_count(rest) == 0);
        assert(rest.take(0) =~= Seq::<Seq<char>>::empty());
        assert(rest.skip(0) =~= rest);
        assert(continued(tag_head(lines[0]), rest.take(0)) == tag_head(lines[0]));
        assert(tags =~= seq![tag_of_line(lines[0])] + rest.map_values(
            |l: Seq<char>| tag_of_line(l),
        ));
    }
}

/// A line made of a colon, a name without a colon, a colon and a value
/// that does not end in white space states the name as its tag and the
/// value behind it.
pub(crate) proof fn lemma_tag_line(name: Seq<char>, value: Seq<char>)
    requires
        free_of(name, ':'),
        value.len() > 0 ==> !is_space(value.last()),
    ensures
        is_tag_line(seq![':'] + name + seq![':'] + value),
        tag_of_line(seq![':'] + name + seq![':'] + value) == (name, value),
        (seq![':'] + name + seq![':'] + value)[0] == ':',
{
    let line = seq![':'] + name + seq![':'] + value;
    assert(line[0] == ':');
    assert(line.last() == (if value.len() > 0 {
        value.last()
    } else {
        ':'
    }));
    assert(trimmed(line) == line);
    let behind = line.drop_first();
    assert(behind =~= name + seq![':'] + value);
    assert(position(behind, ':') == name.len()) by {
        assert forall|i: int| 0 <= i < name.len() implies behind[i] != ':' by {
            assert(behind[i] == name[i]);
        }
        assert(behind[name.len() as int] == ':');
        lemma_position_at(behind, ':', name.len() as int);
    }
    assert(behind.take(name.len() as int) =~= name);
    assert(behind.skip(name.len() as int + 1) =~= value);
}

/// Tags of other names before the first of the names looked for do not
/// count.
pub(crate) proof fn lemma_first_tag_behind(
    before: Seq<(Seq<char>, Seq<char>)>,
    rest: Seq<(Seq<char>, Seq<char>)>,
    a: Seq<char>,
    b: Seq<char>,
)
    requires
        forall|i: int| 0 <= i < before.len() ==> (#[trigger] before[i]).0 != a && before[i].0 != b,
    ensures
        first_tag(before + rest, a, b) == first_tag(rest, a, b),
    decreases before.len(),
{
    if before.len() == 0 {
        assert(before + rest =~= rest);
    } else {
        assert((before + rest)[0] == before[0]);
        assert((before + rest).drop_first() =~= before.drop_first() + rest);
        assert forall|i: int| 0 <= i < before.drop_first().len() implies (
        #[trigger] before.drop_first()[i]).0 != a && before.drop_first()[i].0 != b by {
            assert(before.drop_first()[i] == before[i + 1]);
        }
        lemma_first_tag_behind(before.drop_first(), rest, a, b);
    }
}

/// The line of a tag with its value.
pub open spec fn line_of(name: Seq<char>, value: Seq<char>) -> Seq<char> {
    seq![':'] + name + seq![':'] + value
}

/// What stands behind the tag of a balance.
pub open spec fn balance_line(
    indicator: BalanceType,
    date: TimestampView,
    currency: Seq<char>,
    amount: nat,
) -> Seq<char> {
    seq![balance_letter(indicator)] + date.compact_day() + currency + amount_text(amount, ',')
}

/// The lines of the transactions of a message: for each its line and its
/// description.
pub open spec fn transaction_lines(ts: Seq<TransactionView>) -> Seq<Seq<char>>
    decreases ts.len(),
{
    if ts.len() == 0 {
        Seq::empty()
    } else {
        transaction_lines(ts.drop_last()) + seq![
            line_of("61"@, transaction_line(ts.last())),
            line_of("86"@, ts.last().description),
        ]
    }
}

/// The lines of a message before its transactions.
pub open spec fn head_lines(s: StatementView) -> Seq<Seq<char>> {
    seq![
        line_of("20"@, "STATEMENT"@),
        line_of("25"@, s.account_number),
        line_of("28C"@, "1/1"@),
        line_of(
            "60F"@,
            balance_line(s.opening_indicator, s.opening_date, s.currency, s.opening_balance),
        ),
    ]
}

/// The line of the closing balance.
pub open spec fn closing_line(s: StatementView) -> Seq<char> {
    line_of(
        "62F"@,
        balance_line(s.closing_indicator, s.closing_date, s.currency, s.closing_balance),
    )
}

/// The lines of the payload of a message.
pub open spec fn message_lines(s: StatementView) -> Seq<Seq<char>> {
    head_lines(s) + transaction_lines(s.transactions) + seq![closing_line(s)]
}

proof fn lemma_tag_literals()
    ensures
        ":20:STATEMENT\n"@ == line_of("20"@, "STATEMENT"@) + seq!['\n'],
        ":25:"@ == line_of("25"@, Seq::empty()),
        ":28C:1/1\n"@ == line_of("28C"@, "1/1"@) + seq!['\n'],
        ":60F:"@ == line_of("60F"@, Seq::empty()),
        ":61:"@ == line_of("61"@, Seq::empty()),
        ":86:"@ == line_of("86"@, Seq::empty()),
        ":62F:"@ == line_of("62F"@, Seq::empty()),
{
    reveal_strlit(":20:STATEMENT\n");
    reveal_strlit("20");
    reveal_strlit("STATEMENT");
    reveal_strlit(":25:");
    reveal_strlit("25");
    reveal_strlit(":28C:1/1\n");
    reveal_strlit("28C");
    reveal_strlit("1/1");
    reveal_strlit(":60F:");
    reveal_strlit("60F");
    reveal_strlit(":61:");
    reveal_strlit("61");
    reveal_strlit(":86:");
    reveal_strlit("86");
    reveal_strlit(":62F:");
    reveal_strlit("62F");
    assert(":20:STATEMENT\n"@ =~= line_of("20"@, "STATEMENT"@) + seq!['\n']);
    assert(":25:"@ =~= line_of("25"@, Seq::empty()));
    assert(":28C:1/1\n"@ =~= line_of("28C"@, "1/1"@) + seq!['\n']);
    assert(":60F:"@ =~= line_of("60F"@, Seq::empty()));
    assert(":61:"@ =~= line_of("61"@, Seq::empty()));
    assert(":86:"@ =~= line_of("86"@, Seq::empty()));
    assert(":62F:"@ =~= line_of("62F"@, Seq::empty()));
}

proof fn lemma_text_of_one(a: Seq<char>)
    ensures
        text_of_lines(seq![a]) == a + seq!['\n'],
{
    let one = seq![a];
    assert(one.drop_last() =~= Seq::<Seq<char>>::empty());
    assert(text_of_lines(one.drop_last()) =~= Seq::<char>::empty());
    assert(one.last() == a);
    assert(text_of_lines(one) =~= a + seq!['\n']);
}

proof fn lemma_text_of_two(a: Seq<char>, b: Seq<char>)
    ensures
        text_of_lines(seq![a, b]) == a + seq!['\n'] + b + seq!['\n'],
{
    let two = seq![a, b];
    lemma_text_of_one(a);
    assert(two.drop_last() =~= seq![a]);
    assert(two.last() == b);
}

proof fn lemma_transactions_text(ts: Seq<TransactionView>)
    ensures
        transactions_text(ts) == text_of_lines(transaction_lines(ts)),
    decreases ts.len(),
{
    if ts.len() > 0 {
        let t = ts.last();
        let first = line_of("61"@, transaction_line(t));
        let second = line_of("86"@, t.description);
        lemma_transactions_text(ts.drop_last());
        lemma_tag_literals();
        lemma_text_concat(transaction_lines(ts.drop_last()), seq![first, second]);
        lemma_text_of_two(first, second);
        assert(transaction_text(t) =~= first + seq!['\n'] + second + seq!['\n']);
    }
}

/// The text of the lines of a message before its transactions.
pub open spec fn head_text(s: StatementView) -> Seq<char> {
    ":20:STATEMENT\n"@ + ":25:"@ + s.account_number + seq!['\n'] + ":28C:1/1\n"@ + ":60F:"@
        + balance_text(s.opening_indicator, s.opening_date, s.currency, s.opening_balance)
}

/// The text of the line of the closing balance.
pub open spec fn closing_text(s: StatementView) -> Seq<char> {
    ":62F:"@ + balance_text(s.closing_indicator, s.closing_date, s.currency, s.closing_balance)
}

proof fn lemma_head_text(s: StatementView)
    ensures
        text_of_lines(head_lines(s)) == head_text(s),
{
    let open = balance_line(s.opening_indicator, s.opening_date, s.currency, s.opening_balance);
    let l1 = line_of("20"@, "STATEMENT"@);
    let l2 = line_of("25"@, s.account_number);
    let l3 = line_of("28C"@, "1/1"@);
    let l4 = line_of("60F"@, open);
    lemma_tag_literals();
    lemma_text_of_two(l1, l2);
    lemma_text_of_two(l3, l4);
    assert(head_lines(s) =~= seq![l1, l2] + seq![l3, l4]);
    lemma_text_concat(seq![l1, l2], seq![l3, l4]);
    let first = l1 + seq!['\n'] + l2 + seq!['\n'];
    let second = l3 + seq!['\n'] + l4 + seq!['\n'];
    assert(text_of_lines(head_lines(s)) == first + second);
    assert(first =~= ":20:STATEMENT\n"@ + ":25:"@ + s.account_number + seq!['\n']);
    assert(second =~= ":28C:1/1\n"@ + ":60F:"@ + balance_text(
        s.opening_indicator,
        s.opening_date,
        s.currency,
        s.opening_balance,
    ));
    assert(first + second =~= head_text(s));
}

proof fn lemma_closing_text(s: StatementView)
    ensures
        text_of_lines(seq![closing_line(s)]) == closing_text(s),
{
    lemma_tag_literals();
    lemma_text_of_one(closing_line(s));
    assert(closing_line(s) + seq!['\n'] =~= closing_text(s));
}

/// The text of a message is its envelope around the text of its lines.
pub(crate) proof fn lemma_message_text(s: StatementView)
    ensures
        message_text(s) == "{1:F01BANKXXXXXX0000000000}{2:I940BANKXXXXXXN}{4:\n"@ + text_of_lines(
            message_lines(s),
        ) + "-}\n"@,
{
    lemma_head_text(s);
    lemma_closing_text(s);
    lemma_transactions_text(s.transactions);
    lemma_text_concat(head_lines(s), transaction_lines(s.transactions));
    lemma_text_concat(head_lines(s) + transaction_lines(s.transactions), seq![closing_line(s)]);
    let envelope = "{1:F01BANKXXXXXX0000000000}{2:I940BANKXXXXXXN}{4:\n"@;
    let body = head_text(s) + transactions_text(s.transactions) + closing_text(s);
    assert(text_of_lines(message_lines(s)) == body);
    assert(message_text(s) =~= envelope + body + "-}\n"@);
}

/// A text that a line of a message can hold: without a line feed and
/// without a closing brace.
pub open spec fn is_plain(f: Seq<char>) -> bool {
    free_of(f, '\n') && free_of(f, '}')
}

/// A text of which trimming leaves all: it neither begins nor ends with
/// white space.
pub open spec fn is_trim(f: Seq<char>) -> bool {
    f.len() > 0 ==> !is_space(f[0]) && !is_space(f.last())
}

/// A transaction that a message can carry and give back.
pub open spec fn is_message_transaction(t: TransactionView) -> bool {
    &&& is_message_day(t.booking_date)
    &&& t.amount <= u64::MAX
    &&& is_plain(reference_text(t.reference))
    &&& reference_text(t.reference).len() > 0 ==> !is_space(reference_text(t.reference).last())
    &&& is_plain(t.description)
    &&& is_trim(t.description)
}

/// A statement that a message can carry and give back.
pub open spec fn is_message_statement(s: StatementView) -> bool {
    &&& is_plain(s.account_number)
    &&& is_trim(s.account_number)
    &&& s.currency.len() == 3
    &&& is_plain(s.currency)
    &&& is_message_day(s.opening_date)
    &&& is_message_day(s.closing_date)
    &&& s.opening_balance <= u64::MAX
    &&& s.closing_balance <= u64::MAX
    &&& forall|i: int|
        0 <= i < s.transactions.len() ==> is_message_transaction(#[trigger] s.transactions[i])
}

/// A line of a message as the decoder needs it: a line of its own, without
/// a closing brace, that states a tag.
pub open spec fn is_good_line(l: Seq<char>) -> bool {
    is_line(l) && free_of(l, '}') && is_tag_line(l)
}

/// A name of a tag: without a colon, a line feed or a closing brace.
pub open spec fn is_name(name: Seq<char>) -> bool {
    free_of(name, ':') && is_plain(name)
}

proof fn lemma_names()
    ensures
        is_name("20"@),
        is_name("25"@),
        is_name("28C"@),
        is_name("60F"@),
        is_name("61"@),
        is_name("86"@),
        is_name("62F"@),
        is_plain("STATEMENT"@),
        is_plain("1/1"@),
        is_plain("NTRF"@),
        !is_space("STATEMENT"@.last()),
        !is_space("1/1"@.last()),
{
    reveal_strlit("20");
    reveal_strlit("25");
    reveal_strlit("28C");
    reveal_strlit("60F");
    reveal_strlit("61");
    reveal_strlit("86");
    reveal_strlit("62F");
    reveal_strlit("STATEMENT");
    reveal_strlit("1/1");
    reveal_strlit("NTRF");
    reveal_with_fuel(lacks, 11);
    lemma_lacks("20"@, ':');
    lemma_lacks("20"@, '\n');
    lemma_lacks("20"@, '}');
    lemma_lacks("25"@, ':');
    lemma_lacks("25"@, '\n');
    lemma_lacks("25"@, '}');
    lemma_lacks("28C"@, ':');
    lemma_lacks("28C"@, '\n');
    lemma_lacks("28C"@, '}');
    lemma_lacks("60F"@, ':');
    lemma_lacks("60F"@, '\n');
    lemma_lacks("60F"@, '}');
    lemma_lacks("61"@, ':');
    lemma_lacks("61"@, '\n');
    lemma_lacks("61"@, '}');
    lemma_lacks("86"@, ':');
    lemma_lacks("86"@, '\n');
    lemma_lacks("86"@, '}');
    lemma_lacks("62F"@, ':');
    lemma_lacks("62F"@, '\n');
    lemma_lacks("62F"@, '}');
    lemma_lacks("STATEMENT"@, '\n');
    lemma_lacks("STATEMENT"@, '}');
    lemma_lacks("1/1"@, '\n');
    lemma_lacks("1/1"@, '}');
    lemma_lacks("NTRF"@, '\n');
    lemma_lacks("NTRF"@, '}');
}

/// The line of a name with a plain value that does not end in white
/// space is a good line and states the name with the value.
proof fn lemma_good_line(name: Seq<char>, value: Seq<char>)
    requires
        is_name(name),
        is_plain(value),
        value.len() > 0 ==> !is_space(value.last()),
    ensures
        is_good_line(line_of(name, value)),
        tag_of_line(line_of(name, value)) == (name, value),
{
    let line = line_of(name, value);
    lemma_tag_line(name, value);
    let colon = seq![':'];
    assert(free_of(colon, '\n') && free_of(colon, '}'));
    lemma_free_of_concat(colon, name, '\n');
    lemma_free_of_concat(colon + name, colon, '\n');
    lemma_free_of_concat(colon + name + colon, value, '\n');
    lemma_free_of_concat(colon, name, '}');
    lemma_free_of_concat(colon + name, colon, '}');
    lemma_free_of_concat(colon + name + colon, value, '}');
    assert(line.last() == (if value.len() > 0 {
        value.last()
    } else {
        ':'
    }));
}

proof fn lemma_digits_are_plain(s: Seq<char>)
    requires
        forall|i: int| 0 <= i < s.len() ==> is_amount_char(#[trigger] s[i]),
    ensures
        is_plain(s),
{
}

/// What stands behind the tag of a balance is plain and ends in a digit.
proof fn lemma_balance_line_is_plain(
    indicator: BalanceType,
    date: TimestampView,
    currency: Seq<char>,
    amount: nat,
)
    requires
        is_message_day(date),
        is_plain(currency),
        amount <= u64::MAX,
    ensures
        is_plain(balance_line(indicator, date, currency, amount)),
        !is_space(balance_line(indicator, date, currency, amount).last()),
{
    let letter = seq![balance_letter(indicator)];
    let day = date.compact_day();
    let numeral = amount_text(amount, ',');
    lemma_compact_day(date);
    lemma_comma_amount_is_read(amount);
    assert(is_plain(letter));
    assert(is_plain(day)) by {
        assert forall|i: int| 0 <= i < day.len() implies is_amount_char(#[trigger] day[i]) by {
            assert(is_digit(day[i]));
        }
        lemma_digits_are_plain(day);
    }
    lemma_digits_are_plain(numeral);
    lemma_free_of_concat(letter, day, '\n');
    lemma_free_of_concat(letter + day, currency, '\n');
    lemma_free_of_concat(letter + day + currency, numeral, '\n');
    lemma_free_of_concat(letter, day, '}');
    lemma_free_of_concat(letter + day, currency, '}');
    lemma_free_of_concat(letter + day + currency, numeral, '}');
    assert(balance_line(indicator, date, currency, amount).last() == numeral.last());
}

/// The line of a transaction is plain and does not end in white space.
proof fn lemma_transaction_line_is_plain(t: TransactionView)
    requires
        is_message_transaction(t),
    ensures
        is_plain(transaction_line(t)),
        !is_space(transaction_line(t).last()),
{
    reveal_strlit("NTRF");
    let day = t.booking_date.compact_day();
    let letter = seq![transaction_letter(t.transaction_type)];
    let numeral = amount_text(t.amount, ',');
    let reference = reference_text(t.reference);
    lemma_names();
    lemma_compact_day(t.booking_date);
    lemma_comma_amount_is_read(t.amount);
    assert(is_plain(letter));
    assert(is_plain(day)) by {
        assert forall|i: int| 0 <= i < day.len() implies is_amount_char(#[trigger] day[i]) by {
            assert(is_digit(day[i]));
        }
        lemma_digits_are_plain(day);
    }
    lemma_digits_are_plain(numeral);
    lemma_free_of_concat(day, letter, '\n');
    lemma_free_of_concat(day + letter, numeral, '\n');
    lemma_free_of_concat(day + letter + numeral, "NTRF"@, '\n');
    lemma_free_of_concat(day + letter + numeral + "NTRF"@, reference, '\n');
    lemma_free_of_concat(day, letter, '}');
    lemma_free_of_concat(day + letter, numeral, '}');
    lemma_free_of_concat(day + letter + numeral, "NTRF"@, '}');
    lemma_free_of_concat(day + letter + numeral + "NTRF"@, reference, '}');
    let line = transaction_line(t);
    assert(line.last() == (if reference.len() > 0 {
        reference.last()
    } else {
        'F'
    }));
}

/// The tags of the transactions of a message.
pub open spec fn transaction_tags(ts: Seq<TransactionView>) -> Seq<(Seq<char>, Seq<char>)>
    decreases ts.len(),
{
    if ts.len() == 0 {
        Seq::empty()
    } else {
        transaction_tags(ts.drop_last()) + seq![
            ("61"@, transaction_line(ts.last())),
            ("86"@, ts.last().description),
        ]
    }
}

/// The tags of a message before its transactions.
pub open spec fn head_tags(s: StatementView) -> Seq<(Seq<char>, Seq<char>)> {
    seq![
        ("20"@, "STATEMENT"@),
        ("25"@, s.account_number),
        ("28C"@, "1/1"@),
        (
            "60F"@,
            balance_line(s.opening_indicator, s.opening_date, s.currency, s.opening_balance),
        ),
    ]
}

/// The tag of the closing balance.
pub open spec fn closing_tag(s: StatementView) -> (Seq<char>, Seq<char>) {
    ("62F"@, balance_line(s.closing_indicator, s.closing_date, s.currency, s.closing_balance))
}

/// The tags of a message.
pub open spec fn message_tags(s: StatementView) -> Seq<(Seq<char>, Seq<char>)> {
    head_tags(s) + transaction_tags(s.transactions) + seq![closing_tag(s)]
}

/// A transaction as a message gives it back: its day at midnight UTC, its
/// reference behind the type code that the encoder writes before it, and
/// without what a message does not carry.
pub open spec fn as_read(t: TransactionView) -> TransactionView {
    TransactionView {
        booking_date: t.booking_date.at_midnight(),
        value_date: None,
        reference: Some("NTRF"@ + reference_text(t.reference)),
        counterparty_name: None,
        counterparty_account: None,
        ..t
    }
}

/// A statement as a message gives it back.
pub open spec fn statement_as_read(s: StatementView) -> StatementView {
    StatementView {
        opening_date: s.opening_date.at_midnight(),
        closing_date: s.closing_date.at_midnight(),
        transactions: s.transactions.map_values(|t: TransactionView| as_read(t)),
        ..s
    }
}

proof fn lemma_transaction_lines(ts: Seq<TransactionView>)
    requires
        forall|i: int| 0 <= i < ts.len() ==> is_message_transaction(#[trigger] ts[i]),
    ensures
        forall|i: int|
            0 <= i < transaction_lines(ts).len() ==> is_good_line(
                #[trigger] transaction_lines(ts)[i],
            ),
        transaction_lines(ts).map_values(|l: Seq<char>| tag_of_line(l)) == transaction_tags(ts),
        transaction_tags(ts).len() == 2 * ts.len(),
        forall|k: int|
            0 <= k < ts.len() ==> #[trigger] transaction_tags(ts)[2 * k] == (
                "61"@,
                transaction_line(ts[k]),
            ) && transaction_tags(ts)[2 * k + 1] == ("86"@, ts[k].description),
    decreases ts.len(),
{
    let lines = transaction_lines(ts);
    let tags = transaction_tags(ts);
    if ts.len() == 0 {
        assert(lines.map_values(|l: Seq<char>| tag_of_line(l)) =~= tags);
    } else {
        let front = ts.drop_last();
        let t = ts.last();
        assert forall|i: int| 0 <= i < front.len() implies is_message_transaction(
            #[trigger] front[i],
        ) by {
            assert(front[i] == ts[i]);
        }
        lemma_transaction_lines(front);
        lemma_names();
        lemma_transaction_line_is_plain(t);
        lemma_good_line("61"@, transaction_line(t));
        lemma_good_line("86"@, t.description);
        let first = line_of("61"@, transaction_line(t));
        let second = line_of("86"@, t.description);
        assert forall|i: int| 0 <= i < lines.len() implies is_good_line(#[trigger] lines[i]) by {
            if i < transaction_lines(front).len() {
                assert(lines[i] == transaction_lines(front)[i]);
            } else if i == transaction_lines(front).len() {
                assert(lines[i] == first);
            } else {
                assert(lines[i] == second);
            }
        }
        assert(lines.map_values(|l: Seq<char>| tag_of_line(l)) =~= transaction_lines(
            front,
        ).map_values(|l: Seq<char>| tag_of_line(l)) + seq![
            tag_of_line(first),
            tag_of_line(second),
        ]);
        assert forall|k: int| 0 <= k < ts.len() implies #[trigger] tags[2 * k] == (
            "61"@,
            transaction_line(ts[k]),
        ) && tags[2 * k + 1] == ("86"@, ts[k].description) by {
            if k < front.len() {
                assert(tags[2 * k] == transaction_tags(front)[2 * k]);
                assert(tags[2 * k + 1] == transaction_tags(front)[2 * k + 1]);
                assert(front[k] == ts[k]);
            }
        }
    }
}

/// The lines of a message are good lines, and their tags are the tags of
/// the message.
proof fn lemma_message_lines(s: StatementView)
    requires
        is_message_statement(s),
    ensures
        forall|i: int|
            0 <= i < message_lines(s).len() ==> is_good_line(#[trigger] message_lines(s)[i]),
        message_lines(s).map_values(|l: Seq<char>| tag_of_line(l)) == message_tags(s),
{
    let lines = message_lines(s);
    let open = balance_line(s.opening_indicator, s.opening_date, s.currency, s.opening_balance);
    let close = balance_line(s.closing_indicator, s.closing_date, s.currency, s.closing_balance);
    lemma_names();
    lemma_balance_line_is_plain(s.opening_indicator, s.opening_date, s.currency, s.opening_balance);
    lemma_balance_line_is_plain(s.closing_indicator, s.closing_date, s.currency, s.closing_balance);
    lemma_good_line("20"@, "STATEMENT"@);
    lemma_good_line("25"@, s.account_number);
    lemma_good_line("28C"@, "1/1"@);
    lemma_good_line("60F"@, open);
    lemma_good_line("62F"@, close);
    lemma_transaction_lines(s.transactions);
    let head = head_lines(s);
    let middle = transaction_lines(s.transactions);
    assert forall|i: int| 0 <= i < lines.len() implies is_good_line(#[trigger] lines[i]) by {
        if i < 4 {
            assert(lines[i] == head[i]);
        } else if i < 4 + middle.len() {
            assert(lines[i] == middle[i - 4]);
        } else {
            assert(lines[i] == closing_line(s));
        }
    }
    assert(head.map_values(|l: Seq<char>| tag_of_line(l)) =~= head_tags(s));
    assert(lines.map_values(|l: Seq<char>| tag_of_line(l)) =~= head.map_values(
        |l: Seq<char>| tag_of_line(l),
    ) + middle.map_values(|l: Seq<char>| tag_of_line(l)) + seq![tag_of_line(closing_line(s))]);
}

proof fn lemma_names_differ()
    ensures
        "20"@ != "25"@,
        "20"@ != "60F"@ && "20"@ != "60M"@ && "20"@ != "62F"@ && "20"@ != "62M"@ && "20"@ != "61"@,
        "25"@ != "60F"@ && "25"@ != "60M"@ && "25"@ != "62F"@ && "25"@ != "62M"@ && "25"@ != "61"@,
        "28C"@ != "60F"@ && "28C"@ != "60M"@ && "28C"@ != "62F"@ && "28C"@ != "62M"@ && "28C"@
            != "61"@,
        "60F"@ != "62F"@ && "60F"@ != "62M"@ && "60F"@ != "61"@,
        "61"@ != "62F"@ && "61"@ != "62M"@,
        "86"@ != "62F"@ && "86"@ != "62M"@ && "86"@ != "61"@,
        "62F"@ != "61"@,
{
    reveal_strlit("20");
    reveal_strlit("25");
    reveal_strlit("28C");
    reveal_strlit("60F");
    reveal_strlit("60M");
    reveal_strlit("61");
    reveal_strlit("86");
    reveal_strlit("62F");
    reveal_strlit("62M");
    assert("20"@[1] != "25"@[1]);
    assert("20"@[0] != "61"@[0]);
    assert("25"@[0] != "61"@[0]);
    assert("86"@[0] != "61"@[0]);
    assert("28C"@[0] != "60F"@[0] && "28C"@[0] != "62F"@[0]);
    assert("28C"@[0] != "60M"@[0] && "28C"@[0] != "62M"@[0]);
    assert("60F"@[1] != "62F"@[1] && "60F"@[1] != "62M"@[1]);
    assert("20"@.len() != "60F"@.len() && "20"@.len() != "60M"@.len());
    assert("20"@.len() != "62F"@.len() && "20"@.len() != "62M"@.len());
    assert("28C"@.len() != "61"@.len() && "60F"@.len() != "61"@.len());
    assert("62F"@.len() != "61"@.len() && "62M"@.len() != "61"@.len());
}

/// What stands behind the tag of a balance is read as that balance.
proof fn lemma_balance_value_is_read(
    indicator: BalanceType,
    date: TimestampView,
    currency: Seq<char>,
    amount: nat,
)
    requires
        is_message_day(date),
        currency.len() == 3,
        amount <= u64::MAX,
    ensures
        balance_of_line(balance_line(indicator, date, currency, amount)) == Ok::<
            BalanceView,
            ErrorView,
        >(BalanceView { amount, date: date.at_midnight(), indicator, currency }),
{
    let day = date.compact_day();
    let numeral = amount_text(amount, ',');
    let t = balance_line(indicator, date, currency, amount);
    lemma_compact_day(date);
    lemma_comma_amount_is_read(amount);
    assert(t.last() == numeral.last());
    assert(t[0] == balance_letter(indicator));
    assert(trimmed(t) == t);
    assert(t.subrange(1, 7) =~= day);
    assert(t.subrange(7, 10) =~= currency);
    assert(t.skip(10) =~= numeral);
}

/// A transaction line and the description behind it are read as the
/// transaction that they were written of.
proof fn lemma_transaction_of_tags(tags: Seq<(Seq<char>, Seq<char>)>, i: int, t: TransactionView)
    requires
        0 <= i,
        i + 1 < tags.len(),
        tags[i] == ("61"@, transaction_line(t)),
        tags[i + 1] == ("86"@, t.description),
        is_message_transaction(t),
    ensures
        transactions_from(tags, i) == seq![as_read(t)] + transactions_from(tags, i + 2),
{
    lemma_names_differ();
    lemma_transaction_line_round_trip(t);
    assert(trimmed(t.description) == t.description) by {
        if t.description.len() == 0 {
            assert(trimmed(t.description) =~= t.description);
        }
    }
    assert(description_at(tags, i) == t.description);
    assert(transaction_of_line(transaction_line(t), t.description) == Ok::<
        TransactionView,
        ErrorView,
    >(as_read(t)));
    assert(transactions_from(tags, i + 1) == transactions_from(tags, i + 2));
}

/// Where the tags of the `k`-th transaction stand among the tags of a
/// message, and what stands behind the last of them.
proof fn lemma_tag_places(s: StatementView, k: int)
    requires
        is_message_statement(s),
        0 <= k <= s.transactions.len(),
    ensures
        message_tags(s).len() == 5 + 2 * s.transactions.len(),
        k < s.transactions.len() ==> message_tags(s)[4 + 2 * k] == (
            "61"@,
            transaction_line(s.transactions[k]),
        ) && message_tags(s)[4 + 2 * k + 1] == ("86"@, s.transactions[k].description),
        k == s.transactions.len() ==> message_tags(s)[4 + 2 * k] == closing_tag(s),
{
    let middle = transaction_tags(s.transactions);
    lemma_transaction_lines(s.transactions);
    if k < s.transactions.len() {
        assert(middle[2 * k] == ("61"@, transaction_line(s.transactions[k])));
        assert(message_tags(s)[4 + 2 * k] == middle[2 * k]);
        assert(message_tags(s)[4 + 2 * k + 1] == middle[2 * k + 1]);
    }
}

/// The transactions of the tags of a message from the `k`-th on.
proof fn lemma_transactions_of_tags(s: StatementView, k: int)
    requires
        is_message_statement(s),
        0 <= k <= s.transactions.len(),
    ensures
        transactions_from(message_tags(s), 4 + 2 * k) == statement_as_read(s).transactions.skip(k),
    decreases s.transactions.len() - k,
{
    let ts = s.transactions;
    let n = ts.len() as int;
    let tags = message_tags(s);
    let read = statement_as_read(s).transactions;
    lemma_tag_places(s, k);
    if k == n {
        assert(closing_tag(s).0 != "61"@) by {
            lemma_names_differ();
        }
        assert(transactions_from(tags, 4 + 2 * n + 1) =~= Seq::<TransactionView>::empty());
        assert(transactions_from(tags, 4 + 2 * n) =~= Seq::<TransactionView>::empty());
        assert(read.skip(k) =~= Seq::<TransactionView>::empty());
    } else {
        let t = ts[k];
        lemma_transactions_of_tags(s, k + 1);
        assert(is_message_transaction(t));
        lemma_transaction_of_tags(tags, 4 + 2 * k, t);
        assert(read[k] == as_read(t));
        assert(read.skip(k) =~= seq![as_read(t)] + read.skip(k + 1));
    }
}

proof fn lemma_account_tag(s: StatementView)
    ensures
        first_tag(message_tags(s), "25"@, "25"@) == Some(s.account_number),
{
    let tags = message_tags(s);
    let head = head_tags(s);
    let middle = transaction_tags(s.transactions);
    lemma_names_differ();
    let behind = head.skip(1) + middle + seq![closing_tag(s)];
    assert(tags =~= head.take(1) + behind);
    assert(head.take(1)[0] == head[0]);
    lemma_first_tag_behind(head.take(1), behind, "25"@, "25"@);
    assert(behind[0] == head[1]);
}

proof fn lemma_opening_tag(s: StatementView)
    ensures
        first_tag(message_tags(s), "60F"@, "60M"@) == Some(
            balance_line(s.opening_indicator, s.opening_date, s.currency, s.opening_balance),
        ),
{
    let tags = message_tags(s);
    let head = head_tags(s);
    let middle = transaction_tags(s.transactions);
    lemma_names_differ();
    let before = head.take(3);
    let behind = head.skip(3) + middle + seq![closing_tag(s)];
    assert(tags =~= before + behind);
    assert(before[0] == head[0] && before[1] == head[1] && before[2] == head[2]);
    lemma_first_tag_behind(before, behind, "60F"@, "60M"@);
    assert(behind[0] == head[3]);
}

proof fn lemma_closing_tag(s: StatementView)
    requires
        is_message_statement(s),
    ensures
        first_tag(message_tags(s), "62F"@, "62M"@) == Some(
            balance_line(s.closing_indicator, s.closing_date, s.currency, s.closing_balance),
        ),
{
    let head = head_tags(s);
    let middle = transaction_tags(s.transactions);
    lemma_names_differ();
    lemma_transaction_lines(s.transactions);
    let before = head + middle;
    assert forall|i: int| 0 <= i < before.len() implies (#[trigger] before[i]).0 != "62F"@
        && before[i].0 != "62M"@ by {
        if i < 4 {
            assert(before[i] == head[i]);
        } else {
            let j = i - 4;
            assert(before[i] == middle[j]);
            let k = j / 2;
            assert(0 <= k < s.transactions.len());
            if j % 2 == 0 {
                assert(j == 2 * k);
                assert(middle[2 * k] == ("61"@, transaction_line(s.transactions[k])));
            } else {
                assert(j == 2 * k + 1);
                assert(middle[2 * k] == ("61"@, transaction_line(s.transactions[k])));
                assert(middle[2 * k + 1] == ("86"@, s.transactions[k].description));
            }
        }
    }
    lemma_first_tag_behind(before, seq![closing_tag(s)], "62F"@, "62M"@);
}

proof fn lemma_all_transactions_of_tags(s: StatementView)
    requires
        is_message_statement(s),
    ensures
        transactions_from(message_tags(s), 0) == statement_as_read(s).transactions,
{
    let tags = message_tags(s);
    let head = head_tags(s);
    lemma_names_differ();
    lemma_transactions_of_tags(s, 0);
    assert(tags.len() >= 5);
    assert(tags[0] == head[0] && tags[1] == head[1] && tags[2] == head[2] && tags[3] == head[3]);
    assert(transactions_from(tags, 3) == transactions_from(tags, 4));
    assert(transactions_from(tags, 2) == transactions_from(tags, 3));
    assert(transactions_from(tags, 1) == transactions_from(tags, 2));
    assert(transactions_from(tags, 0) == transactions_from(tags, 1));
    assert(statement_as_read(s).transactions.skip(0) =~= statement_as_read(s).transactions);
}

/// The tags of a message state the statement of the message.
proof fn lemma_statement_of_message_tags(s: StatementView)
    requires
        is_message_statement(s),
    ensures
        statement_of_tags(message_tags(s)) == Ok::<StatementView, ErrorView>(statement_as_read(s)),
{
    lemma_account_tag(s);
    lemma_opening_tag(s);
    lemma_closing_tag(s);
    lemma_all_transactions_of_tags(s);
    lemma_balance_value_is_read(s.opening_indicator, s.opening_date, s.currency, s.opening_balance);
    lemma_balance_value_is_read(s.closing_indicator, s.closing_date, s.currency, s.closing_balance);
    assert(trimmed(s.account_number) == s.account_number) by {
        if s.account_number.len() == 0 {
            assert(trimmed(s.account_number) =~= s.account_number);
        }
    }
}

/// Before position `k`, `a` is nowhere followed by `b`, place by place.
pub open spec fn pair_free(s: Seq<char>, a: char, b: char, k: int) -> bool
    decreases k,
{
    k <= 0 || (!(s[k - 1] == a && s[k] == b) && pair_free(s, a, b, k - 1))
}

proof fn lemma_pair_free(s: Seq<char>, a: char, b: char, k: int)
    requires
        pair_free(s, a, b, k),
    ensures
        forall|i: int| 0 <= i < k ==> !(#[trigger] s[i] == a && s[i + 1] == b),
    decreases k,
{
    if k > 0 {
        lemma_pair_free(s, a, b, k - 1);
    }
}

proof fn lemma_envelope()
    ensures
        "{1:F01BANKXXXXXX0000000000}{2:I940BANKXXXXXXN}{4:\n"@.len() == 50,
        "{1:F01BANKXXXXXX0000000000}{2:I940BANKXXXXXXN}{4:\n"@[0] == '{',
        "{1:F01BANKXXXXXX0000000000}{2:I940BANKXXXXXXN}{4:\n"@[46] == '{',
        "{1:F01BANKXXXXXX0000000000}{2:I940BANKXXXXXXN}{4:\n"@[47] == '4',
        "{1:F01BANKXXXXXX0000000000}{2:I940BANKXXXXXXN}{4:\n"@[48] == ':',
        "{1:F01BANKXXXXXX0000000000}{2:I940BANKXXXXXXN}{4:\n"@[49] == '\n',
        forall|i: int|
            0 <= i < 46 ==> !(#[trigger] "{1:F01BANKXXXXXX0000000000}{2:I940BANKXXXXXXN}{4:\n"@[i] == '{'
                && "{1:F01BANKXXXXXX0000000000}{2:I940BANKXXXXXXN}{4:\n"@[i + 1] == '4'),
{
    reveal_strlit("{1:F01BANKXXXXXX0000000000}{2:I940BANKXXXXXXN}{4:\n");
    let e = "{1:F01BANKXXXXXX0000000000}{2:I940BANKXXXXXXN}{4:\n"@;
    assert(pair_free(e, '{', '4', 46)) by {
        reveal_with_fuel(pair_free, 48);
    }
    lemma_pair_free(e, '{', '4', 46);
}

proof fn lemma_starts_solid(s: Seq<char>)
    requires
        s.len() > 0,
        !is_space(s[0]),
    ensures
        drop_trailing_spaces(s).len() > 0,
        trimmed(s).len() > 0,
    decreases s.len(),
{
    if is_space(s.last()) {
        assert(s.len() >= 2);
        assert(s.drop_last()[0] == s[0]);
        lemma_starts_solid(s.drop_last());
    }
    assert(skip_spaces(s) == s);
}

proof fn lemma_text_is_free(lines: Seq<Seq<char>>, c: char)
    requires
        c != '\n',
        forall|i: int| 0 <= i < lines.len() ==> free_of(#[trigger] lines[i], c),
    ensures
        free_of(text_of_lines(lines), c),
    decreases lines.len(),
{
    if lines.len() > 0 {
        let front = lines.drop_last();
        assert forall|i: int| 0 <= i < front.len() implies free_of(#[trigger] front[i], c) by {
            assert(front[i] == lines[i]);
        }
        lemma_text_is_free(front, c);
        assert(free_of(lines.last(), c));
        lemma_free_of_concat(text_of_lines(front), lines.last(), c);
        assert(free_of(seq!['\n'], c));
        lemma_free_of_concat(text_of_lines(front) + lines.last(), seq!['\n'], c);
    }
}

/// The payload of a message is a line feed and the text of its lines.
proof fn lemma_payload(s: StatementView)
    requires
        is_message_statement(s),
    ensures
        trimmed(message_text(s)).len() > 0,
        block4_of(message_text(s)) == Ok::<Seq<char>, ErrorView>(
            seq!['\n'] + text_of_lines(message_lines(s)),
        ),
{
    reveal_strlit("{4:");
    reveal_strlit("-}");
    reveal_strlit("-}\n");
    let envelope = "{1:F01BANKXXXXXX0000000000}{2:I940BANKXXXXXXN}{4:\n"@;
    let text = text_of_lines(message_lines(s));
    let message = message_text(s);
    lemma_envelope();
    lemma_message_text(s);
    lemma_message_lines(s);
    assert(message == envelope + text + "-}\n"@);
    assert(message[0] == envelope[0]);
    lemma_starts_solid(message);
    // the start of the payload
    assert forall|i: int| 0 <= i < 46 implies !occurs_at(message, "{4:"@, i) by {
        if occurs_at(message, "{4:"@, i) {
            let part = message.subrange(i, i + 3);
            assert(part[0] == message[i] && part[1] == message[i + 1]);
            assert(message[i] == envelope[i] && message[i + 1] == envelope[i + 1]);
        }
    }
    assert(occurs_at(message, "{4:"@, 46)) by {
        assert(message[46] == envelope[46] && message[47] == envelope[47] && message[48]
            == envelope[48]);
        assert(message.subrange(46, 49) =~= "{4:"@);
    }
    lemma_find_at(message, "{4:"@, 46, 0);
    // the end of the payload
    let after = message.skip(49);
    let payload = seq!['\n'] + text;
    assert(after =~= payload + "-}\n"@) by {
        assert(message[49] == envelope[49]);
    }
    assert forall|i: int| 0 <= i < message_lines(s).len() implies free_of(
        #[trigger] message_lines(s)[i],
        '}',
    ) by {
        assert(is_good_line(message_lines(s)[i]));
    }
    lemma_text_is_free(message_lines(s), '}');
    let end = payload.len() as int;
    assert forall|i: int| 0 <= i < end implies !occurs_at(after, "-}"@, i) by {
        if occurs_at(after, "-}"@, i) {
            let part = after.subrange(i, i + 2);
            assert(part[1] == after[i + 1]);
            if i + 1 < end {
                assert(after[i + 1] == text[i]);
            } else {
                assert(after[i + 1] == '-');
            }
        }
    }
    assert(occurs_at(after, "-}"@, end)) by {
        assert(after.subrange(end, end + 2) =~= "-}"@);
    }
    lemma_find_at(after, "-}"@, end, 0);
    assert(after.take(end) =~= payload);
}

/// A message that the encoder writes is read back, as a text and as bytes.
pub(crate) proof fn lemma_message_round_trip(s: StatementView)
    requires
        is_message_statement(s),
    ensures
        statement_of_text(message_text(s)) == Ok::<StatementView, ErrorView>(statement_as_read(s)),
        statement_of_bytes(vstd::utf8::encode_utf8(message_text(s))) == Ok::<
            StatementView,
            ErrorView,
        >(statement_as_read(s)),
{
    let lines = message_lines(s);
    let text = text_of_lines(lines);
    lemma_payload(s);
    lemma_message_lines(s);
    assert forall|i: int| 0 <= i < lines.len() implies is_line(#[trigger] lines[i])
        && is_tag_line(lines[i]) by {
        assert(is_good_line(lines[i]));
    }
    lemma_lines_of_text(lines);
    let feed = seq!['\n'];
    lemma_lines_concat(feed, text);
    assert(lines_of(feed) =~= seq![Seq::<char>::empty()]) by {
        assert(position(feed, '\n') == 0);
        assert(feed.take(0) =~= Seq::<char>::empty());
        assert(feed.skip(1) =~= Seq::<char>::empty());
        assert(lines_of(feed.skip(1)) =~= Seq::<Seq<char>>::empty());
    }
    let all = seq![Seq::<char>::empty()] + lines;
    assert(lines_of(feed + text) == all);
    assert(tags_of(all) == tags_of(lines)) by {
        assert(all[0] == Seq::<char>::empty());
        assert(trimmed(Seq::<char>::empty()) =~= Seq::<char>::empty());
        assert(!is_tag_line(all[0]));
        assert(all.drop_first() =~= lines);
    }
    lemma_tags_of_tag_lines(lines);
    lemma_statement_of_message_tags(s);
    vstd::utf8::encode_utf8_valid_utf8(message_text(s));
    vstd::utf8::encode_utf8_decode_utf8(message_text(s));
}

} // verus!
