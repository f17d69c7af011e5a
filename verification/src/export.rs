//! The tabular export: which value stands in which column, and the text of
//! the table.
//!
//! A derived value is a gain, or a gain less the feed-forward gain of its
//! axis, multiplied by a fixed scale. The library says which bit patterns
//! enter each column and in what order; the caller evaluates them in
//! single-precision arithmetic, writes each result as text, and hands the
//! texts back to be laid out.

use crate::record::LogData;
use crate::text::{
    decimal, is_plain, join_line, joined, lemma_decimal_plain, lemma_line_feeds_concat,
    lemma_line_is_one_line, lemma_split_joined, line, line_feeds, plain, push_decimal, split,
    views,
};
use vstd::prelude::*;

verus! {

/// Bit pattern of the single-precision scale, four thousandths, by which
/// every raw gain is multiplied.
pub const SCALE_BITS: u32 = 0x3B83_126F;

/// Number of derived values in a row: seven for each of the three axes.
pub const VALUE_COLUMNS: usize = 21;

/// Number of columns in the table: the two counters and the derived values.
pub const COLUMNS: usize = 23;

/// What a derived column is computed from. Every operand is the bit
/// pattern of a single-precision number.
#[derive(Clone, Copy, Debug, PartialEq, Eq, Structural)]
pub enum Term {
    /// The raw gain times the scale.
    Scaled { raw: u32 },
    /// The raw gain less the feed-forward gain, times the scale.
    ScaledLessFeedForward { raw: u32, feed_forward: u32 },
}

/// The seven derived columns of one axis: the four gains scaled, then P, I
/// and D less feed-forward. Feed-forward has no such counterpart.
pub open spec fn axis_terms(p: u32, i: u32, d: u32, ff: u32) -> Seq<Term> {
    seq![
        Term::Scaled { raw: p },
        Term::Scaled { raw: i },
        Term::Scaled { raw: d },
        Term::Scaled { raw: ff },
        Term::ScaledLessFeedForward { raw: p, feed_forward: ff },
        Term::ScaledLessFeedForward { raw: i, feed_forward: ff },
        Term::ScaledLessFeedForward { raw: d, feed_forward: ff },
    ]
}

/// The derived columns of a record: roll, then pitch, then yaw.
pub open spec fn record_terms(record: LogData) -> Seq<Term> {
    axis_terms(record.p_roll, record.i_roll, record.d_roll, record.ff_roll) + axis_terms(
        record.p_pitch,
        record.i_pitch,
        record.d_pitch,
        record.ff_pitch,
    ) + axis_terms(record.p_yaw, record.i_yaw, record.d_yaw, record.ff_yaw)
}

/// The names of the columns, in table order.
pub open spec fn column_names() -> Seq<Seq<char>> {
    seq![
        "LoopIteration"@,
        "Time"@,
        "P_Roll"@,
        "I_Roll"@,
        "D_Roll"@,
        "FF_Roll"@,
        "P_Roll_NoFF"@,
        "I_Roll_NoFF"@,
        "D_Roll_NoFF"@,
        "P_Pitch"@,
        "I_Pitch"@,
        "D_Pitch"@,
        "FF_Pitch"@,
        "P_Pitch_NoFF"@,
        "I_Pitch_NoFF"@,
        "D_Pitch_NoFF"@,
        "P_Yaw"@,
        "I_Yaw"@,
        "D_Yaw"@,
        "FF_Yaw"@,
        "P_Yaw_NoFF"@,
        "I_Yaw_NoFF"@,
        "D_Yaw_NoFF"@,
    ]
}

fn push_axis_terms(terms: &mut Vec<Term>, p: u32, i: u32, d: u32, ff: u32)
    ensures
        final(terms)@ == old(terms)@ + axis_terms(p, i, d, ff),
{
    terms.push(Term::Scaled { raw: p });
    terms.push(Term::Scaled { raw: i });
    terms.push(Term::Scaled { raw: d });
    terms.push(Term::Scaled { raw: ff });
    terms.push(Term::ScaledLessFeedForward { raw: p, feed_forward: ff });
    terms.push(Term::ScaledLessFeedForward { raw: i, feed_forward: ff });
    terms.push(Term::ScaledLessFeedForward { raw: d, feed_forward: ff });
    assert(final(terms)@ =~= old(terms)@ + axis_terms(p, i, d, ff));
}

/// The operands of the 21 derived columns of `record`, in table order.
pub fn derived_terms(record: &LogData) -> (terms: Vec<Term>)
    ensures
        terms@ == record_terms(*record),
        terms@.len() == VALUE_COLUMNS,
{
    let mut terms: Vec<Term> = Vec::new();
    push_axis_terms(&mut terms, record.p_roll, record.i_roll, record.d_roll, record.ff_roll);
    push_axis_terms(&mut terms, record.p_pitch, record.i_pitch, record.d_pitch, record.ff_pitch);
    push_axis_terms(&mut terms, record.p_yaw, record.i_yaw, record.d_yaw, record.ff_yaw);
    assert(terms@ =~= record_terms(*record));
    terms
}

/// One row of the table before it is laid out: the two counters of a
/// record and the texts of its derived values.
#[derive(Clone, Debug)]
pub struct DerivedRow {
    pub loop_iteration: u32,
    pub time: u32,
    pub values: Vec<String>,
}

/// A row could not be laid out: it does not hold 21 values, or one of them
/// holds a comma or a line feed.
#[derive(Clone, Copy, Debug, PartialEq, Eq, Structural)]
pub struct MalformedRow {
    /// Index of the first such row.
    pub row: usize,
}

impl DerivedRow {
    /// A row that can be laid out holds 21 values, each a plain field.
    pub open spec fn well_formed(&self) -> bool {
        &&& self.values@.len() == VALUE_COLUMNS
        &&& forall|i: int| 0 <= i < self.values@.len() ==> plain(#[trigger] self.values@[i]@)
    }

    /// The fields of the row's line: the two counters as decimal numerals,
    /// then the values.
    pub open spec fn fields(&self) -> Seq<Seq<char>> {
        seq![decimal(self.loop_iteration as nat), decimal(self.time as nat)] + views(self.values@)
    }

    /// Pairs the counters of `record` with the texts of its derived values.
    pub fn new(record: &LogData, values: Vec<String>) -> (row: DerivedRow)
        ensures
            row.loop_iteration == record.loop_iteration,
            row.time == record.time,
            row.values == values,
    {
        DerivedRow { loop_iteration: record.loop_iteration, time: record.time, values }
    }

    /// Tells whether the row can be laid out.
    pub fn is_well_formed(&self) -> (answer: bool)
        ensures
            answer == self.well_formed(),
    {
        if self.values.len() != VALUE_COLUMNS {
            return false;
        }
        let mut i: usize = 0;
        while i < self.values.len()
            invariant
                i <= self.values@.len(),
                forall|j: int| 0 <= j < i ==> plain(#[trigger] self.values@[j]@),
            decreases self.values@.len() - i,
        {
            if !is_plain(self.values[i].as_str()) {
                return false;
            }
            i = i + 1;
        }
        true
    }
}

/// The table that holds `rows`: the header line, then one line for each
/// row, in order.
pub open spec fn document(rows: Seq<DerivedRow>) -> Seq<char>
    decreases rows.len(),
{
    if rows.len() == 0 {
        line(column_names())
    } else {
        document(rows.drop_last()) + line(rows.last().fields())
    }
}

/// The header line: the 23 column names.
pub fn header_line() -> (text: String)
    ensures
        text@ == line(column_names()),
{
    let mut names: Vec<String> = Vec::new();
    names.push(String::from_str("LoopIteration"));
    names.push(String::from_str("Time"));
    names.push(String::from_str("P_Roll"));
    names.push(String::from_str("I_Roll"));
    names.push(String::from_str("D_Roll"));
    names.push(String::from_str("FF_Roll"));
    names.push(String::from_str("P_Roll_NoFF"));
    names.push(String::from_str("I_Roll_NoFF"));
    names.push(String::from_str("D_Roll_NoFF"));
    names.push(String::from_str("P_Pitch"));
    names.push(String::from_str("I_Pitch"));
    names.push(String::from_str("D_Pitch"));
    names.push(String::from_str("FF_Pitch"));
    names.push(String::from_str("P_Pitch_NoFF"));
    names.push(String::from_str("I_Pitch_NoFF"));
    names.push(String::from_str("D_Pitch_NoFF"));
    names.push(String::from_str("P_Yaw"));
    names.push(String::from_str("I_Yaw"));
    names.push(String::from_str("D_Yaw"));
    names.push(String::from_str("FF_Yaw"));
    names.push(String::from_str("P_Yaw_NoFF"));
    names.push(String::from_str("I_Yaw_NoFF"));
    names.push(String::from_str("D_Yaw_NoFF"));
    assert(views(names@) =~= column_names());
    join_line(&names)
}

/// Appends the line of `row` to `text`.
fn push_data_line(text: &mut String, row: &DerivedRow)
    ensures
        final(text)@ == old(text)@ + line(row.fields()),
{
    let ghost all = row.fields();
    let ghost before = text@;
    push_decimal(text, row.loop_iteration);
    proof {
        reveal_strlit(",");
        reveal_strlit("\n");
    }
    text.append(",");
    push_decimal(text, row.time);
    assert(text@ =~= before + joined(all.take(2))) by {
        assert(all.take(2).drop_last() =~= all.take(1));
        assert(joined(all.take(1)) == all[0]);
    }
    let mut i: usize = 0;
    while i < row.values.len()
        invariant
            i <= row.values@.len(),
            all == row.fields(),
            text@ == before + joined(all.take(2 + i)),
        decreases row.values@.len() - i,
    {
        proof {
            reveal_strlit(",");
            assert(all.take(2 + i + 1).drop_last() =~= all.take(2 + i));
            assert(all.take(2 + i + 1).last() == row.values@[i as int]@);
        }
        text.append(",");
        text.append(row.values[i].as_str());
        i = i + 1;
        assert(text@ =~= before + joined(all.take(2 + i)));
    }
    proof {
        reveal_strlit("\n");
        assert(all.take(2 + i) =~= all);
    }
    text.append("\n");
    assert(text@ =~= before + line(all));
}

/// Lays out one row as a line of the table, if the row is well formed.
pub fn data_line(row: &DerivedRow) -> (text: Option<String>)
    ensures
        text.is_some() <==> row.well_formed(),
        text.is_some() ==> text.unwrap()@ == line(row.fields()),
{
    if !row.is_well_formed() {
        return None;
    }
    let mut text = String::new();
    push_data_line(&mut text, row);
    assert(text@ =~= line(row.fields()));
    Some(text)
}

/// Lays out the whole table: the header line and one line for each row, in
/// order. Fails at the first row that is not well formed, and then names it.
pub fn csv_text(rows: &[DerivedRow]) -> (text: Result<String, MalformedRow>)
    ensures
        text.is_ok() <==> forall|i: int| 0 <= i < rows@.len() ==> (#[trigger] rows@[i]).well_formed(),
        text.is_ok() ==> text.unwrap()@ == document(rows@),
        text.is_err() ==> {
            let first = text.unwrap_err().row as int;
            &&& 0 <= first < rows@.len()
            &&& !rows@[first].well_formed()
            &&& forall|i: int| 0 <= i < first ==> (#[trigger] rows@[i]).well_formed()
        },
{
    let mut text = header_line();
    let mut i: usize = 0;
    assert(rows@.take(0).len() == 0);
    while i < rows.len()
        invariant
            i <= rows@.len(),
            forall|j: int| 0 <= j < i ==> (#[trigger] rows@[j]).well_formed(),
            text@ == document(rows@.take(i as int)),
        decreases rows@.len() - i,
    {
        if !rows[i].is_well_formed() {
            return Err(MalformedRow { row: i });
        }
        proof {
            assert(rows@.take(i + 1).drop_last() =~= rows@.take(i as int));
            assert(rows@.take(i + 1).last() == rows@[i as int]);
        }
        push_data_line(&mut text, &rows[i]);
        i = i + 1;
    }
    assert(rows@.take(i as int) =~= rows@);
    Ok(text)
}

/// The name of the table written for the input whose base name is `stem`.
pub fn csv_file_name(stem: &str) -> (name: String)
    ensures
        name@ == stem@ + ".csv"@,
{
    let mut name = String::from_str(stem);
    name.append(".csv");
    name
}

/// No column name holds a comma or a line feed.
pub proof fn lemma_column_names_plain()
    ensures
        column_names().len() == COLUMNS,
        forall|i: int| 0 <= i < column_names().len() ==> plain(#[trigger] column_names()[i]),
{
    reveal_strlit(",");
    assert forall|i: int| 0 <= i < column_names().len() implies plain(
        #[trigger] column_names()[i],
    ) by {
        reveal_strlit("LoopIteration");
        reveal_strlit("Time");
        reveal_strlit("P_Roll");
        reveal_strlit("I_Roll");
        reveal_strlit("D_Roll");
        reveal_strlit("FF_Roll");
        reveal_strlit("P_Roll_NoFF");
        reveal_strlit("I_Roll_NoFF");
        reveal_strlit("D_Roll_NoFF");
        reveal_strlit("P_Pitch");
        reveal_strlit("I_Pitch");
        reveal_strlit("D_Pitch");
        reveal_strlit("FF_Pitch");
        reveal_strlit("P_Pitch_NoFF");
        reveal_strlit("I_Pitch_NoFF");
        reveal_strlit("D_Pitch_NoFF");
        reveal_strlit("P_Yaw");
        reveal_strlit("I_Yaw");
        reveal_strlit("D_Yaw");
        reveal_strlit("FF_Yaw");
        reveal_strlit("P_Yaw_NoFF");
        reveal_strlit("I_Yaw_NoFF");
        reveal_strlit("D_Yaw_NoFF");
    }
}

/// The header line is one line of exactly 23 comma-separated fields, the
/// column names in order.
pub proof fn lemma_header_fields()
    ensures
        split(joined(column_names())) == column_names(),
        column_names().len() == COLUMNS,
        line_feeds(line(column_names())) == 1,
{
    lemma_column_names_plain();
    lemma_split_joined(column_names());
    lemma_line_is_one_line(column_names());
}

/// The fields of a well-formed row are plain, and there are as many of
/// them as there are column names.
pub proof fn lemma_row_fields_plain(row: DerivedRow)
    requires
        row.well_formed(),
    ensures
        row.fields().len() == COLUMNS,
        row.fields().len() == column_names().len(),
        forall|i: int| 0 <= i < row.fields().len() ==> plain(#[trigger] row.fields()[i]),
{
    lemma_decimal_plain(row.loop_iteration as nat);
    lemma_decimal_plain(row.time as nat);
    assert forall|i: int| 0 <= i < row.fields().len() implies plain(#[trigger] row.fields()[i]) by {
        if i >= 2 {
            assert(row.fields()[i] == row.values@[i - 2]@);
        }
    }
}

/// Every data line is one line of exactly 23 comma-separated fields, one
/// under each column name: the two counters, then the row's values in
/// order.
pub proof fn lemma_row_fields(row: DerivedRow)
    requires
        row.well_formed(),
    ensures
        split(joined(row.fields())) == row.fields(),
        split(joined(row.fields())).len() == column_names().len(),
        line_feeds(line(row.fields())) == 1,
{
    lemma_row_fields_plain(row);
    lemma_split_joined(row.fields());
    lemma_line_is_one_line(row.fields());
}

/// A table of well-formed rows has one line for the header and one for
/// each row: with no rows it is the header alone.
pub proof fn lemma_document_lines(rows: Seq<DerivedRow>)
    requires
        forall|i: int| 0 <= i < rows.len() ==> (#[trigger] rows[i]).well_formed(),
    ensures
        line_feeds(document(rows)) == rows.len() + 1,
        rows.len() == 0 ==> document(rows) == line(column_names()),
    decreases rows.len(),
{
    if rows.len() == 0 {
        lemma_header_fields();
    } else {
        let front = rows.drop_last();
        lemma_document_lines(front);
        lemma_row_fields(rows.last());
        lemma_line_feeds_concat(document(front), line(rows.last().fields()));
    }
}

} // verus!
