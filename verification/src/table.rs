//! Tables: what stands in a row, and the lines that rows become.

use crate::scalar::Scalar;
use crate::text::{count_text, decimal, signed_decimal, signed_text};
use vstd::prelude::*;

verus! {

/// How a number is written: with a fixed number of decimal places, or with an exponent.
#[derive(Debug, Clone, Copy, PartialEq, Eq, Structural)]
pub enum NumberFormat {
    Fixed6,
    Fixed12,
    Fixed17,
    Scientific17,
}

/// What stands in one column of a row.
#[derive(Debug)]
pub enum Cell {
    Text { text: String },
    Count { count: usize },
    Signed { number: i64 },
    Flag { flag: bool },
    Number { value: Scalar, format: NumberFormat },
}

/// What stands in one column of a row, as a value.
pub enum CellModel {
    Text { text: Seq<char> },
    Count { count: nat },
    Signed { number: int },
    Flag { flag: bool },
    Number { value: Scalar, format: NumberFormat },
}

impl View for Cell {
    type V = CellModel;

    open spec fn view(&self) -> CellModel {
        match self {
            Cell::Text { text } => CellModel::Text { text: text@ },
            Cell::Count { count } => CellModel::Count { count: *count as nat },
            Cell::Signed { number } => CellModel::Signed { number: *number as int },
            Cell::Flag { flag } => CellModel::Flag { flag: *flag },
            Cell::Number { value, format } => CellModel::Number { value: *value, format: *format },
        }
    }
}

/// A row as values.
pub open spec fn cell_views(cells: Seq<Cell>) -> Seq<CellModel> {
    cells.map_values(|cell: Cell| cell@)
}

/// The names of columns as texts.
pub open spec fn column_views(columns: Seq<&str>) -> Seq<Seq<char>> {
    columns.map_values(|column: &str| column@)
}

/// A cell with a text.
pub fn text_cell(text: &str) -> (cell: Cell)
    ensures
        cell@ == (CellModel::Text { text: text@ }),
{
    Cell::Text { text: String::from_str(text) }
}

/// A cell with a count.
pub fn count_cell(count: usize) -> (cell: Cell)
    ensures
        cell@ == (CellModel::Count { count: count as nat }),
{
    Cell::Count { count }
}

/// A cell with a signed number.
pub fn signed_cell(number: i64) -> (cell: Cell)
    ensures
        cell@ == (CellModel::Signed { number: number as int }),
{
    Cell::Signed { number }
}

/// A cell with a truth value.
pub fn flag_cell(flag: bool) -> (cell: Cell)
    ensures
        cell@ == (CellModel::Flag { flag }),
{
    Cell::Flag { flag }
}

/// A cell with a number, to be written in the given format.
pub fn number_cell(value: Scalar, format: NumberFormat) -> (cell: Cell)
    ensures
        cell@ == (CellModel::Number { value, format }),
{
    Cell::Number { value, format }
}

/// Texts with commas between them.
pub open spec fn comma_separated(parts: Seq<Seq<char>>) -> Seq<char>
    decreases parts.len(),
{
    if parts.len() == 0 {
        Seq::empty()
    } else if parts.len() == 1 {
        parts[0]
    } else {
        comma_separated(parts.drop_last()) + ","@ + parts.last()
    }
}

/// The text of a cell, where `number` is the text of the number that it may hold.
pub open spec fn cell_text(cell: CellModel, number: Seq<char>) -> Seq<char> {
    match cell {
        CellModel::Text { text } => text,
        CellModel::Count { count } => decimal(count),
        CellModel::Signed { number } => signed_decimal(number),
        CellModel::Flag { flag } => if flag {
            "true"@
        } else {
            "false"@
        },
        CellModel::Number { value, format } => number,
    }
}

/// The texts of the cells of a row.
pub open spec fn cell_texts(cells: Seq<CellModel>, numbers: Seq<String>) -> Seq<Seq<char>> {
    Seq::new(cells.len(), |i: int| cell_text(cells[i], numbers[i]@))
}

fn append_cell(line: &mut String, cell: &Cell, number: &String)
    ensures
        final(line)@ == old(line)@ + cell_text(cell@, number@),
{
    match cell {
        Cell::Text { text } => {
            line.append(text.as_str());
        },
        Cell::Count { count } => {
            line.append(count_text(*count).as_str());
        },
        Cell::Signed { number } => {
            line.append(signed_text(*number).as_str());
        },
        Cell::Flag { flag } => {
            if *flag {
                line.append("true");
            } else {
                line.append("false");
            }
        },
        Cell::Number { value, format } => {
            line.append(number.as_str());
        },
    }
}

proof fn lemma_comma_next(parts: Seq<Seq<char>>, count: int)
    requires
        1 <= count < parts.len(),
    ensures
        comma_separated(parts.take(count + 1)) == comma_separated(parts.take(count)) + ","@
            + parts[count],
{
    assert(parts.take(count + 1).drop_last() =~= parts.take(count));
}

/// Writes a row as a line. `numbers` holds, for every cell that is a number, its text at the place
/// of the cell.
pub fn csv_line(cells: &Vec<Cell>, numbers: &Vec<String>) -> (line: String)
    requires
        numbers.len() == cells.len(),
    ensures
        line@ == comma_separated(cell_texts(cell_views(cells@), numbers@)),
{
    let ghost parts = cell_texts(cell_views(cells@), numbers@);
    let mut line = String::new();
    let mut index: usize = 0;
    assert(line@ =~= comma_separated(parts.take(0)));
    while index < cells.len()
        invariant
            numbers.len() == cells.len(),
            index <= cells.len(),
            parts == cell_texts(cell_views(cells@), numbers@),
            line@ == comma_separated(parts.take(index as int)),
        decreases cells.len() - index,
    {
        if index > 0 {
            line.append(",");
        }
        append_cell(&mut line, &cells[index], &numbers[index]);
        proof {
            assert(parts[index as int] == cell_text(
                cells@[index as int]@,
                numbers@[index as int]@,
            ));
            if index > 0 {
                lemma_comma_next(parts, index as int);
            } else {
                assert(parts.take(1).len() == 1);
                assert(line@ =~= parts[0]);
            }
        }
        index = index + 1;
    }
    assert(parts.take(index as int) =~= parts);
    line
}

/// Writes the names of columns as a line.
pub fn csv_header(columns: &Vec<&'static str>) -> (line: String)
    ensures
        line@ == comma_separated(column_views(columns@)),
{
    let ghost parts = column_views(columns@);
    let mut line = String::new();
    let mut index: usize = 0;
    assert(line@ =~= comma_separated(parts.take(0)));
    while index < columns.len()
        invariant
            index <= columns.len(),
            parts == column_views(columns@),
            line@ == comma_separated(parts.take(index as int)),
        decreases columns.len() - index,
    {
        if index > 0 {
            line.append(",");
        }
        let column: &'static str = columns[index];
        line.append(column);
        proof {
            assert(parts[index as int] == column@);
            if index > 0 {
                lemma_comma_next(parts, index as int);
            } else {
                assert(parts.take(1).len() == 1);
                assert(line@ =~= parts[0]);
            }
        }
        index = index + 1;
    }
    assert(parts.take(index as int) =~= parts);
    line
}

/// Whether a text holds no comma.
pub open spec fn without_comma(text: Seq<char>) -> bool {
    forall|i: int| 0 <= i < text.len() ==> #[trigger] text[i] != ','
}

/// Whether no text of a list holds a comma.
pub open spec fn all_without_comma(parts: Seq<Seq<char>>) -> bool {
    forall|p: int| 0 <= p < parts.len() ==> without_comma(#[trigger] parts[p])
}

/// A line of a table tells its cells apart: two lists of texts without commas that give the same
/// line are the same list.
pub proof fn lemma_line_tells_cells(left: Seq<Seq<char>>, right: Seq<Seq<char>>)
    requires
        left.len() > 0,
        right.len() > 0,
        all_without_comma(left),
        all_without_comma(right),
        comma_separated(left) == comma_separated(right),
    ensures
        left == right,
    decreases left.len(),
{
    reveal_strlit(",");
    let line = comma_separated(left);
    if left.len() > 1 {
        let head = comma_separated(left.drop_last());
        assert(line[head.len() as int] == ',');
        if right.len() == 1 {
            assert(without_comma(right[0]));
            assert(right[0][head.len() as int] != ',');
        }
    }
    if right.len() > 1 {
        let head = comma_separated(right.drop_last());
        assert(line[head.len() as int] == ',');
        if left.len() == 1 {
            assert(without_comma(left[0]));
            assert(left[0][head.len() as int] != ',');
        }
    }
    if left.len() > 1 && right.len() > 1 {
        let (a, b) = (comma_separated(left.drop_last()), comma_separated(right.drop_last()));
        let (x, y) = (left.last(), right.last());
        assert(without_comma(left[left.len() - 1]) && without_comma(right[right.len() - 1]));
        assert(line == a + ","@ + x && line == b + ","@ + y);
        assert(line[a.len() as int] == ',' && line[b.len() as int] == ',');
        let (before_x, before_y) = (a + ","@, b + ","@);
        assert(before_x.len() == a.len() + 1 && before_y.len() == b.len() + 1);
        assert(without_comma(x) && without_comma(y));
        if a.len() < b.len() {
            assert(b.len() < line.len());
            assert((before_x + x)[b.len() as int] == x[b.len() - before_x.len()]);
            assert(x[b.len() - before_x.len()] != ',');
        } else if b.len() < a.len() {
            assert(a.len() < line.len());
            assert((before_y + y)[a.len() as int] == y[a.len() - before_y.len()]);
            assert(y[a.len() - before_y.len()] != ',');
        }
        assert(a.len() == b.len());
        assert(a =~= line.take(a.len() as int) && b =~= line.take(b.len() as int));
        assert(x =~= line.skip(a.len() as int + 1) && y =~= line.skip(b.len() as int + 1));
        assert forall|p: int| 0 <= p < left.drop_last().len() implies without_comma(
            #[trigger] left.drop_last()[p],
        ) by {
            assert(left[p] == left.drop_last()[p]);
        }
        assert forall|p: int| 0 <= p < right.drop_last().len() implies without_comma(
            #[trigger] right.drop_last()[p],
        ) by {
            assert(right[p] == right.drop_last()[p]);
        }
        lemma_line_tells_cells(left.drop_last(), right.drop_last());
        assert(left =~= left.drop_last().push(x));
        assert(right =~= right.drop_last().push(y));
    } else {
        assert(left =~= seq![line]);
        assert(right =~= seq![line]);
    }
}

} // verus!
