//! Tables in text: one row to a line, the fields of a row parted by white
//! space, and every row with the same number of fields.

use vstd::prelude::*;
use vstd::std_specs::iter::IteratorSpec;

verus! {

/// `String::push` puts one character at the end of the string.
pub assume_specification[ String::push ](text: &mut String, character: char)
    ensures
        final(text)@ == old(text)@.push(character),
;

/// `character` is white space: one of the code points to which Unicode
/// gives the property White_Space.
pub open spec fn is_white_space(character: char) -> bool {
    let code = character as u32;
    ||| 0x09 <= code <= 0x0D
    ||| code == 0x20
    ||| code == 0x85
    ||| code == 0xA0
    ||| code == 0x1680
    ||| 0x2000 <= code <= 0x200A
    ||| code == 0x2028
    ||| code == 0x2029
    ||| code == 0x202F
    ||| code == 0x205F
    ||| code == 0x3000
}

/// How many characters stand in front of the first white space of `text`.
pub open spec fn word_len(text: Seq<char>) -> nat
    decreases text.len(),
{
    if text.len() == 0 || is_white_space(text[0]) {
        0
    } else {
        1 + word_len(text.drop_first())
    }
}

/// A word is no longer than the text that it starts.
pub proof fn word_len_is_bounded(text: Seq<char>)
    ensures
        word_len(text) <= text.len(),
    decreases text.len(),
{
    if text.len() > 0 && !is_white_space(text[0]) {
        word_len_is_bounded(text.drop_first());
    }
}

/// The fields of a row: its longest runs of characters other than white
/// space, from left to right.
pub open spec fn fields_of(row: Seq<char>) -> Seq<Seq<char>>
    decreases row.len(),
{
    if row.len() == 0 {
        Seq::empty()
    } else if is_white_space(row[0]) {
        fields_of(row.drop_first())
    } else {
        proof {
            word_len_is_bounded(row);
        }
        seq![row.take(word_len(row) as int)] + fields_of(row.skip(word_len(row) as int))
    }
}

/// How many characters stand in front of the first line feed of `text`.
pub open spec fn line_len(text: Seq<char>) -> nat
    decreases text.len(),
{
    if text.len() == 0 || text[0] == '\n' {
        0
    } else {
        1 + line_len(text.drop_first())
    }
}

/// A line is no longer than the text that it starts.
pub proof fn line_len_is_bounded(text: Seq<char>)
    ensures
        line_len(text) <= text.len(),
    decreases text.len(),
{
    if text.len() > 0 && text[0] != '\n' {
        line_len_is_bounded(text.drop_first());
    }
}

/// `line` without the carriage return at its end, if it has one there.
pub open spec fn without_return(line: Seq<char>) -> Seq<char> {
    if line.len() > 0 && line.last() == '\r' {
        line.drop_last()
    } else {
        line
    }
}

/// The lines of `text`. A line ends with a line feed, or with a carriage
/// return and a line feed, which are not part of it; the last line may end
/// with the text.
pub open spec fn lines_of(text: Seq<char>) -> Seq<Seq<char>>
    decreases text.len(),
{
    if text.len() == 0 {
        Seq::empty()
    } else if line_len(text) >= text.len() {
        seq![text]
    } else {
        proof {
            line_len_is_bounded(text);
        }
        seq![without_return(text.take(line_len(text) as int))] + lines_of(
            text.skip(line_len(text) as int + 1),
        )
    }
}

/// The rows of the table `text`, each with its fields.
pub open spec fn rows_of(text: Seq<char>) -> Seq<Seq<Seq<char>>> {
    lines_of(text).map_values(|line: Seq<char>| fields_of(line))
}

/// A row that has another number of fields than its table, as contracts
/// speak of it.
pub struct MisfitRow {
    pub line_number: int,
    pub expected: int,
    pub found: int,
    pub row: Seq<char>,
}

/// A row that has another number of fields than its table.
#[derive(Clone, Debug, PartialEq, Eq)]
pub struct Misfit {
    /// The number of the line that holds the row, counted from 1.
    pub line_number: usize,
    /// How many fields each row shall have.
    pub expected: usize,
    /// How many fields the row has.
    pub found: usize,
    /// The line as it stands in the text.
    pub row: String,
}

impl View for Misfit {
    type V = MisfitRow;

    open spec fn view(&self) -> MisfitRow {
        MisfitRow {
            line_number: self.line_number as int,
            expected: self.expected as int,
            found: self.found as int,
            row: self.row@,
        }
    }
}

/// Every one of `rows` has `column_count` fields.
pub open spec fn fits(rows: Seq<Seq<Seq<char>>>, column_count: int) -> bool {
    forall|i: int| 0 <= i < rows.len() ==> (#[trigger] rows[i]).len() == column_count
}

/// The first line of `text` whose row does not have `column_count` fields,
/// if `at` is where it stands.
pub open spec fn first_misfit(text: Seq<char>, column_count: int, at: int) -> MisfitRow
    recommends
        0 <= at < lines_of(text).len(),
{
    MisfitRow {
        line_number: at + 1,
        expected: column_count,
        found: fields_of(lines_of(text)[at]).len() as int,
        row: lines_of(text)[at],
    }
}

/// What decoding the table `text` gives: its rows where each has
/// `column_count` fields, else the first row that has not.
pub open spec fn decoded(
    text: Seq<char>,
    column_count: int,
    outcome: Result<Seq<Seq<Seq<char>>>, MisfitRow>,
) -> bool {
    match outcome {
        Ok(rows) => fits(rows_of(text), column_count) && rows == rows_of(text),
        Err(misfit) => exists|at: int|
            0 <= at < lines_of(text).len() && fits(rows_of(text).take(at), column_count)
                && fields_of(lines_of(text)[at]).len() != column_count && misfit == #[trigger] first_misfit(
                text,
                column_count,
                at,
            ),
    }
}

/// A word ends where the first white space stands, or with the text.
proof fn word_ends_at(text: Seq<char>, end: int)
    requires
        0 <= end <= text.len(),
        forall|k: int| 0 <= k < end ==> !is_white_space(#[trigger] text[k]),
        end < text.len() ==> is_white_space(text[end]),
    ensures
        word_len(text) == end,
    decreases text.len(),
{
    if end > 0 {
        assert(!is_white_space(text[0]));
        let rest = text.drop_first();
        assert forall|k: int| 0 <= k < end - 1 implies !is_white_space(#[trigger] rest[k]) by {
            assert(rest[k] == text[k + 1]);
        }
        word_ends_at(rest, end - 1);
    }
}

/// A line ends where the first line feed stands, or with the text.
proof fn line_ends_at(text: Seq<char>, end: int)
    requires
        0 <= end <= text.len(),
        forall|k: int| 0 <= k < end ==> #[trigger] text[k] != '\n',
        end < text.len() ==> text[end] == '\n',
    ensures
        line_len(text) == end,
    decreases text.len(),
{
    if end > 0 {
        assert(text[0] != '\n');
        let rest = text.drop_first();
        assert forall|k: int| 0 <= k < end - 1 implies #[trigger] rest[k] != '\n' by {
            assert(rest[k] == text[k + 1]);
        }
        line_ends_at(rest, end - 1);
    }
}

/// Tells whether `character` is white space.
pub fn white_space(character: char) -> (white: bool)
    ensures
        white == is_white_space(character),
{
    let code = character as u32;
    (0x09 <= code && code <= 0x0D) || code == 0x20 || code == 0x85 || code == 0xA0 || code == 0x1680
        || (0x2000 <= code && code <= 0x200A) || code == 0x2028 || code == 0x2029 || code == 0x202F
        || code == 0x205F || code == 0x3000
}

/// The characters of `text`.
fn characters(text: &str) -> (chars: Vec<char>)
    ensures
        chars@ == text@,
{
    let mut chars: Vec<char> = Vec::new();
    for character in rest: text.chars()
        invariant
            chars@ == rest.seq().take(rest.index() as int),
            rest.seq() == text@,
    {
        chars.push(character);
    }
    chars
}

/// The characters of `chars` from `from` up to `to`, as a string.
fn string_of(chars: &Vec<char>, from: usize, to: usize) -> (text: String)
    requires
        from <= to <= chars@.len(),
    ensures
        text@ == chars@.subrange(from as int, to as int),
{
    let mut text = String::new();
    let mut at = from;
    while at < to
        invariant
            from <= at <= to,
            to <= chars@.len(),
            text@ == chars@.subrange(from as int, at as int),
        decreases to - at,
    {
        text.push(chars[at]);
        at += 1;
        assert(text@ =~= chars@.subrange(from as int, at as int));
    }
    assert(text@ =~= chars@.subrange(from as int, to as int));
    text
}

/// The fields of the row `row`.
fn fields_of_characters(row: &Vec<char>) -> (fields: Vec<String>)
    ensures
        fields.deep_view() == fields_of(row@),
{
    let mut fields: Vec<String> = Vec::new();
    let mut at: usize = 0;
    assert(row@.skip(0) =~= row@);
    assert(fields.deep_view() + fields_of(row@) =~= fields_of(row@));
    while at < row.len()
        invariant
            at <= row@.len(),
            fields_of(row@) == fields.deep_view() + fields_of(row@.skip(at as int)),
        decreases row@.len() - at,
    {
        let ghost rest = row@.skip(at as int);
        assert(rest[0] == row@[at as int]);
        if white_space(row[at]) {
            assert(rest.drop_first() =~= row@.skip(at + 1));
            at += 1;
        } else {
            let start = at;
            while at < row.len() && !white_space(row[at])
                invariant
                    start <= at <= row@.len(),
                    forall|k: int| start <= k < at ==> !is_white_space(#[trigger] row@[k]),
                decreases row@.len() - at,
            {
                at += 1;
            }
            let field = string_of(row, start, at);
            proof {
                assert forall|k: int| 0 <= k < at - start implies !is_white_space(
                    #[trigger] rest[k],
                ) by {
                    assert(rest[k] == row@[start + k]);
                }
                word_ends_at(rest, at - start);
                assert(rest.take(at - start) =~= row@.subrange(start as int, at as int));
                assert(rest.skip(at - start) =~= row@.skip(at as int));
            }
            let ghost before = fields.deep_view();
            fields.push(field);
            assert(fields.deep_view() =~= before.push(field@));
            assert(fields.deep_view() + fields_of(row@.skip(at as int)) =~= before + (seq![
                field@,
            ] + fields_of(row@.skip(at as int))));
        }
    }
    assert(fields.deep_view() + Seq::<Seq<char>>::empty() =~= fields.deep_view());
    fields
}

/// The lines of `text`, each as its characters.
fn lines_of_characters(text: &Vec<char>) -> (lines: Vec<Vec<char>>)
    ensures
        lines.deep_view() == lines_of(text@),
{
    let mut lines: Vec<Vec<char>> = Vec::new();
    let mut at: usize = 0;
    assert(text@.skip(0) =~= text@);
    assert(lines.deep_view() + lines_of(text@) =~= lines_of(text@));
    while at < text.len()
        invariant
            at <= text@.len(),
            lines_of(text@) == lines.deep_view() + lines_of(text@.skip(at as int)),
        decreases text@.len() - at,
    {
        let ghost rest = text@.skip(at as int);
        let start = at;
        while at < text.len() && text[at] != '\n'
            invariant
                start <= at <= text@.len(),
                forall|k: int| start <= k < at ==> #[trigger] text@[k] != '\n',
            decreases text@.len() - at,
        {
            at += 1;
        }
        proof {
            assert forall|k: int| 0 <= k < at - start implies #[trigger] rest[k] != '\n' by {
                assert(rest[k] == text@[start + k]);
            }
            if at < text@.len() {
                assert(rest[at - start] == text@[at as int]);
            }
            line_ends_at(rest, at - start);
        }
        let ghost before = lines.deep_view();
        if at == text.len() {
            let mut line: Vec<char> = Vec::new();
            let mut k = start;
            while k < at
                invariant
                    start <= k <= at,
                    at <= text@.len(),
                    line@ == text@.subrange(start as int, k as int),
                decreases at - k,
            {
                line.push(text[k]);
                k += 1;
                assert(line@ =~= text@.subrange(start as int, k as int));
            }
            assert(line.deep_view() =~= rest);
            lines.push(line);
            assert(lines.deep_view() =~= before.push(rest));
            assert(text@.skip(at as int) =~= Seq::<char>::empty());
            assert(lines.deep_view() + lines_of(text@.skip(at as int)) =~= before + seq![rest]);
        } else {
            let end = if at > start && text[at - 1] == '\r' {
                at - 1
            } else {
                at
            };
            let mut line: Vec<char> = Vec::new();
            let mut k = start;
            while k < end
                invariant
                    start <= k <= end,
                    end <= text@.len(),
                    line@ == text@.subrange(start as int, k as int),
                decreases end - k,
            {
                line.push(text[k]);
                k += 1;
                assert(line@ =~= text@.subrange(start as int, k as int));
            }
            proof {
                let whole = rest.take(at - start);
                assert(whole =~= text@.subrange(start as int, at as int));
                if at > start {
                    assert(whole.last() == text@[at - 1]);
                }
                assert(line.deep_view() =~= without_return(whole));
                assert(rest.skip(at - start + 1) =~= text@.skip(at + 1));
            }
            let ghost added = line.deep_view();
            lines.push(line);
            at += 1;
            assert(lines.deep_view() =~= before.push(added));
            assert(lines.deep_view() + lines_of(text@.skip(at as int)) =~= before + (seq![added]
                + lines_of(text@.skip(at as int))));
        }
    }
    assert(text@.skip(at as int) =~= Seq::<char>::empty());
    assert(lines.deep_view() + Seq::<Seq<char>>::empty() =~= lines.deep_view());
    lines
}

/// Decodes the table `text`, of which each row shall have `column_count`
/// fields. Gives the rows, or the first row with another number of fields.
pub fn decode(text: &str, column_count: usize) -> (outcome: Result<Vec<Vec<String>>, Misfit>)
    ensures
        decoded(
            text@,
            column_count as int,
            match outcome {
                Ok(rows) => Ok(rows.deep_view()),
                Err(misfit) => Err(misfit@),
            },
        ),
{
    let chars = characters(text);
    let lines = lines_of_characters(&chars);
    let mut rows: Vec<Vec<String>> = Vec::new();
    let mut at: usize = 0;
    assert(rows.deep_view() =~= rows_of(text@).take(0));
    while at < lines.len()
        invariant
            at <= lines.len(),
            lines.deep_view() == lines_of(text@),
            rows.deep_view() == rows_of(text@).take(at as int),
            fits(rows_of(text@).take(at as int), column_count as int),
        decreases lines.len() - at,
    {
        let line = &lines[at];
        assert(line.deep_view() =~= line@);
        assert(lines.deep_view()[at as int] == line@);
        let fields = fields_of_characters(line);
        if fields.len() != column_count {
            let row = string_of(line, 0, line.len());
            assert(row@ =~= line@);
            let misfit = Misfit { line_number: at + 1, expected: column_count, found: fields.len(), row };
            assert(misfit@ == first_misfit(text@, column_count as int, at as int));
            return Err(misfit);
        }
        let ghost before = rows.deep_view();
        let ghost added = fields.deep_view();
        rows.push(fields);
        at += 1;
        assert(rows.deep_view() =~= before.push(added));
        assert(rows.deep_view() =~= rows_of(text@).take(at as int));
        assert(rows_of(text@).take(at as int)[at - 1] == added);
    }
    assert(rows_of(text@).take(at as int) =~= rows_of(text@));
    Ok(rows)
}

} // verus!
