//! Delimited text: decimal numbers, fields joined by commas, and lines.

use vstd::prelude::*;

verus! {

/// The character that writes the digit `d`.
pub open spec fn digit_char(d: int) -> char
    recommends
        0 <= d < 10,
{
    if d == 0 {
        '0'
    } else if d == 1 {
        '1'
    } else if d == 2 {
        '2'
    } else if d == 3 {
        '3'
    } else if d == 4 {
        '4'
    } else if d == 5 {
        '5'
    } else if d == 6 {
        '6'
    } else if d == 7 {
        '7'
    } else if d == 8 {
        '8'
    } else {
        '9'
    }
}

/// The decimal numeral of `n`: most significant digit first, no sign, no
/// padding, and a single `0` for zero.
pub open spec fn decimal(n: nat) -> Seq<char>
    decreases n,
{
    if n < 10 {
        seq![digit_char(n as int)]
    } else {
        decimal(n / 10).push(digit_char((n % 10) as int))
    }
}

/// A field that can stand in a line as it is: it holds neither the
/// separator nor a line break.
pub open spec fn plain(field: Seq<char>) -> bool {
    forall|i: int| 0 <= i < field.len() ==> field[i] != ',' && field[i] != '\n'
}

/// The texts of a list of strings.
pub open spec fn views(fields: Seq<String>) -> Seq<Seq<char>> {
    Seq::new(fields.len(), |i: int| fields[i]@)
}

/// The fields in order with one comma between neighbours.
pub open spec fn joined(fields: Seq<Seq<char>>) -> Seq<char>
    decreases fields.len(),
{
    if fields.len() == 0 {
        Seq::empty()
    } else if fields.len() == 1 {
        fields[0]
    } else {
        joined(fields.drop_last()).push(',') + fields.last()
    }
}

/// One line of the table: the joined fields and a line feed.
pub open spec fn line(fields: Seq<Seq<char>>) -> Seq<char> {
    joined(fields).push('\n')
}

/// The fields that the commas of `text` separate. A text without a comma
/// is one field, and so is the empty text.
pub open spec fn split(text: Seq<char>) -> Seq<Seq<char>>
    decreases text.len(),
{
    if text.len() == 0 {
        seq![Seq::empty()]
    } else if text.last() == ',' {
        split(text.drop_last()).push(Seq::empty())
    } else {
        let front = split(text.drop_last());
        front.drop_last().push(front.last().push(text.last()))
    }
}

/// How many line feeds `text` holds.
pub open spec fn line_feeds(text: Seq<char>) -> nat
    decreases text.len(),
{
    if text.len() == 0 {
        0
    } else if text.last() == '\n' {
        line_feeds(text.drop_last()) + 1
    } else {
        line_feeds(text.drop_last())
    }
}

/// The one-character string that writes the digit `d`.
fn digit_str(d: u32) -> (text: &'static str)
    requires
        d < 10,
    ensures
        text@ == seq![digit_char(d as int)],
{
    proof {
        reveal_strlit("0");
        reveal_strlit("1");
        reveal_strlit("2");
        reveal_strlit("3");
        reveal_strlit("4");
        reveal_strlit("5");
        reveal_strlit("6");
        reveal_strlit("7");
        reveal_strlit("8");
        reveal_strlit("9");
    }
    let text = if d == 0 {
        "0"
    } else if d == 1 {
        "1"
    } else if d == 2 {
        "2"
    } else if d == 3 {
        "3"
    } else if d == 4 {
        "4"
    } else if d == 5 {
        "5"
    } else if d == 6 {
        "6"
    } else if d == 7 {
        "7"
    } else if d == 8 {
        "8"
    } else {
        "9"
    };
    assert(text@ =~= seq![digit_char(d as int)]);
    text
}

/// Appends the decimal numeral of `n` to `text`.
pub fn push_decimal(text: &mut String, n: u32)
    ensures
        final(text)@ == old(text)@ + decimal(n as nat),
    decreases n,
{
    if n >= 10 {
        push_decimal(text, n / 10);
    }
    text.append(digit_str(n % 10));
    assert(final(text)@ =~= old(text)@ + decimal(n as nat));
}

/// The decimal numeral of `n`.
pub fn decimal_text(n: u32) -> (text: String)
    ensures
        text@ == decimal(n as nat),
{
    let mut text = String::new();
    push_decimal(&mut text, n);
    assert(text@ =~= decimal(n as nat));
    text
}

/// Tells whether `text` holds neither a comma nor a line feed.
pub fn is_plain(text: &str) -> (answer: bool)
    ensures
        answer == plain(text@),
{
    let n: usize = text.unicode_len();
    let mut i: usize = 0;
    while i < n
        invariant
            i <= n,
            n == text@.len(),
            forall|j: int| 0 <= j < i ==> text@[j] != ',' && text@[j] != '\n',
        decreases n - i,
    {
        let c = text.get_char(i);
        if c == ',' || c == '\n' {
            return false;
        }
        i = i + 1;
    }
    true
}

/// Joins `fields` with commas and ends the line.
pub fn join_line(fields: &Vec<String>) -> (text: String)
    ensures
        text@ == line(views(fields@)),
{
    let ghost all = views(fields@);
    let mut text = String::new();
    let mut i: usize = 0;
    while i < fields.len()
        invariant
            i <= fields@.len(),
            all == views(fields@),
            text@ == joined(all.take(i as int)),
        decreases fields@.len() - i,
    {
        proof {
            reveal_strlit(",");
            assert(all.take(i + 1).drop_last() =~= all.take(i as int));
            assert(all.take(i + 1).last() == fields@[i as int]@);
        }
        if i > 0 {
            text.append(",");
        }
        text.append(fields[i].as_str());
        i = i + 1;
        assert(text@ =~= joined(all.take(i as int)));
    }
    proof {
        reveal_strlit("\n");
        assert(all.take(i as int) =~= all);
    }
    text.append("\n");
    assert(text@ =~= line(all));
    text
}

/// No digit is a comma or a line feed, so a decimal numeral is a plain
/// field, and it is never empty.
pub proof fn lemma_decimal_plain(n: nat)
    ensures
        plain(decimal(n)),
        decimal(n).len() >= 1,
    decreases n,
{
    if n >= 10 {
        lemma_decimal_plain(n / 10);
    }
}

/// Appending a field without commas to a text lengthens the text's last
/// field and adds none.
pub proof fn lemma_split_append_plain(text: Seq<char>, field: Seq<char>)
    requires
        plain(field),
    ensures
        split(text).len() >= 1,
        split(text + field) == split(text).drop_last().push(split(text).last() + field),
    decreases field.len(),
{
    lemma_split_nonempty(text);
    if field.len() == 0 {
        assert(text + field =~= text);
        assert(split(text).last() + field =~= split(text).last());
        assert(split(text).drop_last().push(split(text).last()) =~= split(text));
    } else {
        let shorter = field.drop_last();
        assert(plain(shorter));
        lemma_split_append_plain(text, shorter);
        assert((text + field).drop_last() =~= text + shorter);
        assert((text + field).last() == field.last());
        assert(field.last() != ',');
        assert((split(text).last() + shorter).push(field.last()) =~= split(text).last() + field);
        assert(split(text + field) =~= split(text).drop_last().push(split(text).last() + field));
    }
}

/// Every text splits into at least one field.
pub proof fn lemma_split_nonempty(text: Seq<char>)
    ensures
        split(text).len() >= 1,
    decreases text.len(),
{
    if text.len() > 0 {
        lemma_split_nonempty(text.drop_last());
    }
}

/// Splitting undoes joining: a non-empty list of fields without commas,
/// joined and split again, is the same list, so the joined text has exactly
/// as many comma-separated fields as were joined.
pub proof fn lemma_split_joined(fields: Seq<Seq<char>>)
    requires
        fields.len() >= 1,
        forall|i: int| 0 <= i < fields.len() ==> plain(#[trigger] fields[i]),
    ensures
        split(joined(fields)) == fields,
    decreases fields.len(),
{
    if fields.len() == 1 {
        let empty = Seq::<char>::empty();
        lemma_split_append_plain(empty, fields[0]);
        assert(empty + fields[0] =~= fields[0]);
        assert(split(empty) =~= seq![empty]);
        assert(split(joined(fields)) =~= fields);
    } else {
        let front = fields.drop_last();
        lemma_split_joined(front);
        let stem = joined(front).push(',');
        assert(stem.drop_last() =~= joined(front));
        assert(split(stem) == front.push(Seq::<char>::empty()));
        lemma_split_append_plain(stem, fields.last());
        assert(Seq::<char>::empty() + fields.last() =~= fields.last());
        assert(front.push(Seq::<char>::empty()).drop_last() =~= front);
        assert(front.push(fields.last()) =~= fields);
    }
}

/// Appending a text adds its line feeds to the count.
pub proof fn lemma_line_feeds_concat(a: Seq<char>, b: Seq<char>)
    ensures
        line_feeds(a + b) == line_feeds(a) + line_feeds(b),
    decreases b.len(),
{
    if b.len() == 0 {
        assert(a + b =~= a);
    } else {
        lemma_line_feeds_concat(a, b.drop_last());
        assert((a + b).drop_last() =~= a + b.drop_last());
    }
}

/// A plain field holds no line feed.
pub proof fn lemma_line_feeds_plain(field: Seq<char>)
    requires
        plain(field),
    ensures
        line_feeds(field) == 0,
    decreases field.len(),
{
    if field.len() > 0 {
        assert(plain(field.drop_last()));
        lemma_line_feeds_plain(field.drop_last());
    }
}

/// A line of plain fields holds exactly one line feed, its last character.
pub proof fn lemma_line_is_one_line(fields: Seq<Seq<char>>)
    requires
        forall|i: int| 0 <= i < fields.len() ==> plain(#[trigger] fields[i]),
    ensures
        line_feeds(line(fields)) == 1,
        line(fields).last() == '\n',
        line_feeds(joined(fields)) == 0,
    decreases fields.len(),
{
    if fields.len() == 0 {
    } else if fields.len() == 1 {
        lemma_line_feeds_plain(fields[0]);
    } else {
        let front = fields.drop_last();
        lemma_line_is_one_line(front);
        lemma_line_feeds_plain(fields.last());
        let stem = joined(front).push(',');
        assert(stem.drop_last() =~= joined(front));
        assert(stem.last() == ',');
        assert(line_feeds(stem) == line_feeds(joined(front)));
        lemma_line_feeds_concat(stem, fields.last());
        assert(joined(fields) == stem + fields.last());
    }
    assert(line_feeds(joined(fields)) == 0);
    assert(line(fields).drop_last() =~= joined(fields));
    assert(line(fields).last() == '\n');
}

} // verus!
