//! Rows and the frame of a `tabular` environment.

use vstd::prelude::*;
use vstd::string::StringExecFns;
use crate::cell::{classification, classify, render, rendering, CellView};
use crate::exponent::ExponentError;

verus! {

/// The length of the column-format specifier for `columns` columns.
pub open spec fn layout_len(columns: nat, bordered: bool) -> nat {
    if bordered && columns > 0 {
        (2 * columns - 1) as nat
    } else {
        columns
    }
}

/// The column-format specifier for `columns` centred columns: one `c` for
/// each column and, where `bordered` is set, a `|` between each two
/// neighbours, none before the first column and none after the last.
pub open spec fn layout(columns: nat, bordered: bool) -> Seq<char> {
    Seq::new(
        layout_len(columns, bordered),
        |i: int|
            if bordered && i % 2 == 1 {
                '|'
            } else {
                'c'
            },
    )
}

/// The column-format specifier for `column_count` centred columns, with
/// rules between them where `bordered` is set.
pub fn compute_layout(column_count: usize, bordered: bool) -> (out: String)
    ensures
        out@ == layout(column_count as nat, bordered),
{
    let mut out = String::new();
    let mut column: usize = 0;
    while column < column_count
        invariant
            column <= column_count,
            out@ == layout(column as nat, bordered),
        decreases column_count - column,
    {
        if bordered && column > 0 {
            out.push('|');
        }
        out.push('c');
        column += 1;
    }
    out
}

/// The texts of `cells` in order, with `separator` between each two
/// neighbours.
pub open spec fn joined(cells: Seq<Seq<char>>, separator: char) -> Seq<char>
    decreases cells.len(),
{
    if cells.len() == 0 {
        Seq::empty()
    } else if cells.len() == 1 {
        cells[0]
    } else {
        joined(cells.drop_last(), separator).push(separator) + cells.last()
    }
}

/// One row of the table body: the cells joined by `&`, then ` \\`.
pub open spec fn row_line(cells: Seq<Seq<char>>) -> Seq<char> {
    joined(cells, '&') + " \\\\"@
}

/// The row of column titles: the cells joined by `&`, then ` \\ \hline`.
pub open spec fn header_line(cells: Seq<Seq<char>>) -> Seq<char> {
    joined(cells, '&') + " \\\\ \\hline"@
}

/// Appends the cells to `out`, with `&` between each two neighbours.
fn push_joined(out: &mut String, cells: &Vec<String>)
    ensures
        final(out)@ == old(out)@ + joined(cells.deep_view(), '&'),
{
    let ghost texts = cells.deep_view();
    let mut i: usize = 0;
    while i < cells.len()
        invariant
            i <= cells.len(),
            texts == cells.deep_view(),
            out@ == old(out)@ + joined(texts.take(i as int), '&'),
        decreases cells.len() - i,
    {
        if i > 0 {
            out.push('&');
        }
        out.append(cells[i].as_str());
        assert(texts.take(i + 1).drop_last() == texts.take(i as int));
        i += 1;
    }
    assert(texts.take(cells.len() as int) == texts);
}

/// One row of the table body from cells that are typeset already.
pub fn render_row(cells: &Vec<String>) -> (out: String)
    ensures
        out@ == row_line(cells.deep_view()),
{
    let mut out = String::new();
    push_joined(&mut out, cells);
    out.append(" \\\\");
    out
}

/// The row of column titles. The titles stand as they are.
pub fn render_header_row(cells: &Vec<String>) -> (out: String)
    ensures
        out@ == header_line(cells.deep_view()),
{
    let mut out = String::new();
    push_joined(&mut out, cells);
    out.append(" \\\\ \\hline");
    out
}

/// The text that a cell is typeset as, where the cell can be classified.
pub open spec fn typeset(cell: Seq<char>) -> Seq<char>
    recommends
        classification(cell) is Ok,
{
    rendering(classification(cell).unwrap())
}

/// Whether every cell of the row can be classified.
pub open spec fn all_typeset(cells: Seq<Seq<char>>) -> bool {
    forall|column: int| 0 <= column < cells.len() ==> classification(#[trigger] cells[column]) is Ok
}

/// Whether `column` is the first cell of the row that cannot be classified.
pub open spec fn is_first_failure(cells: Seq<Seq<char>>, column: int) -> bool {
    &&& 0 <= column < cells.len()
    &&& classification(cells[column]) is Err
    &&& all_typeset(cells.take(column))
}

/// The cells of a row, each as it is typeset.
pub open spec fn typeset_cells(cells: Seq<Seq<char>>) -> Seq<Seq<char>>
    recommends
        all_typeset(cells),
{
    Seq::new(cells.len(), |column: int| typeset(cells[column]))
}

/// The cell of a row that could not be typeset, and why.
#[derive(Clone, Copy, Debug, PartialEq, Eq)]
pub struct CellError {
    /// The position of the cell in its row, counted from zero.
    pub column: usize,
    /// Why the cell's exponent has no canonical form.
    pub error: ExponentError,
}

/// Appends `line` to `lines`.
pub fn push_line(lines: &mut Vec<String>, line: String)
    ensures
        final(lines).deep_view() == old(lines).deep_view().push(line@),
{
    lines.push(line);
}

/// Classifies and typesets each cell of a row.
///
/// The row is typeset as a whole or not at all: where a cell cannot be
/// classified, the first such cell is reported.
pub fn render_cells(cells: &Vec<String>) -> (out: Result<Vec<String>, CellError>)
    ensures
        match out {
            Ok(rendered) => {
                &&& all_typeset(cells.deep_view())
                &&& rendered.deep_view() == typeset_cells(cells.deep_view())
            },
            Err(failure) => {
                &&& is_first_failure(cells.deep_view(), failure.column as int)
                &&& classification(cells[failure.column as int]@) == Err::<
                    CellView,
                    ExponentError,
                >(failure.error)
            },
        },
{
    let ghost texts = cells.deep_view();
    let mut rendered: Vec<String> = Vec::new();
    let mut column: usize = 0;
    while column < cells.len()
        invariant
            column <= cells.len(),
            texts == cells.deep_view(),
            all_typeset(texts.take(column as int)),
            rendered.deep_view() == typeset_cells(texts.take(column as int)),
        decreases cells.len() - column,
    {
        match classify(cells[column].as_str()) {
            Ok(cell) => {
                push_line(&mut rendered, render(&cell));
            },
            Err(error) => {
                return Err(CellError { column, error });
            },
        }
        proof {
            let before = texts.take(column as int);
            let after = texts.take(column + 1);
            assert forall|j: int| 0 <= j < after.len() implies classification(
                #[trigger] after[j],
            ) is Ok by {
                if j < column {
                    assert(after[j] == before[j]);
                }
            }
        }
        column += 1;
    }
    assert(texts.take(cells.len() as int) == texts);
    Ok(rendered)
}

/// One row of the table body from the cells as they were read.
pub fn render_data_row(cells: &Vec<String>) -> (out: Result<String, CellError>)
    ensures
        match out {
            Ok(line) => {
                &&& all_typeset(cells.deep_view())
                &&& line@ == row_line(typeset_cells(cells.deep_view()))
            },
            Err(failure) => {
                &&& is_first_failure(cells.deep_view(), failure.column as int)
                &&& classification(cells[failure.column as int]@) == Err::<
                    CellView,
                    ExponentError,
                >(failure.error)
            },
        },
{
    match render_cells(cells) {
        Ok(rendered) => Ok(render_row(&rendered)),
        Err(failure) => Err(failure),
    }
}

/// What stands around the rows of a table.
#[derive(Clone, Debug, PartialEq, Eq)]
pub struct TableOptions {
    /// The caption.
    pub title: String,
    /// The label for cross-references, which is written after `tab:`.
    pub label: String,
    /// Whether a rule is drawn between each two columns.
    pub bordered: bool,
}

impl Default for TableOptions {
    /// The caption `タイトル`, the label `XXX`, and no rules between columns.
    fn default() -> (options: TableOptions)
        ensures
            options.title@ == "タイトル"@,
            options.label@ == "XXX"@,
            !options.bordered,
    {
        TableOptions {
            title: String::from_str("タイトル"),
            label: String::from_str("XXX"),
            bordered: false,
        }
    }
}

/// The lines that open a table of `columns` columns.
pub open spec fn opening_lines(
    title: Seq<char>,
    label: Seq<char>,
    columns: nat,
    bordered: bool,
) -> Seq<Seq<char>> {
    seq![
        "\\begin{table}[!hb]"@,
        "\\begin{center}"@,
        "\\caption{"@ + title + "}"@,
        "\\label{tab:"@ + label + "}"@,
        "\\begin{tabular}{"@ + layout(columns, bordered) + "} \\hline"@,
    ]
}

/// The lines that close a table.
pub open spec fn closing_lines() -> Seq<Seq<char>> {
    seq!["\\hline"@, "\\end{tabular}"@, "\\end{center}"@, "\\end{table}"@]
}

/// The lines of the table body, one for each row.
pub open spec fn body_lines(rows: Seq<Seq<Seq<char>>>) -> Seq<Seq<char>> {
    Seq::new(rows.len(), |row: int| row_line(typeset_cells(rows[row])))
}

/// The lines of a whole table: the opening, the row of column titles as
/// they are, the rows of the body with their cells typeset, and the closing.
pub open spec fn table_lines(
    title: Seq<char>,
    label: Seq<char>,
    bordered: bool,
    header: Seq<Seq<char>>,
    rows: Seq<Seq<Seq<char>>>,
) -> Seq<Seq<char>> {
    opening_lines(title, label, header.len(), bordered).push(header_line(header)) + body_lines(
        rows,
    ) + closing_lines()
}

/// A table has one line for each row of its body, six lines before them
/// and four after them.
pub proof fn lemma_table_line_count(
    title: Seq<char>,
    label: Seq<char>,
    bordered: bool,
    header: Seq<Seq<char>>,
    rows: Seq<Seq<Seq<char>>>,
)
    ensures
        table_lines(title, label, bordered, header, rows).len() == rows.len() + 10,
        forall|row: int|
            0 <= row < rows.len() ==> table_lines(title, label, bordered, header, rows)[row + 6]
                == row_line(typeset_cells(#[trigger] rows[row])),
{
}

/// The lines that open a table with the given column titles, the row of
/// titles included.
pub fn table_opening(options: &TableOptions, header: &Vec<String>) -> (lines: Vec<String>)
    ensures
        lines.deep_view() == opening_lines(
            options.title@,
            options.label@,
            header.len() as nat,
            options.bordered,
        ).push(header_line(header.deep_view())),
{
    let mut lines: Vec<String> = Vec::new();
    push_line(&mut lines, String::from_str("\\begin{table}[!hb]"));
    push_line(&mut lines, String::from_str("\\begin{center}"));
    let mut caption = String::from_str("\\caption{");
    caption.append(options.title.as_str());
    caption.append("}");
    push_line(&mut lines, caption);
    let mut label = String::from_str("\\label{tab:");
    label.append(options.label.as_str());
    label.append("}");
    push_line(&mut lines, label);
    let mut tabular = String::from_str("\\begin{tabular}{");
    tabular.append(compute_layout(header.len(), options.bordered).as_str());
    tabular.append("} \\hline");
    push_line(&mut lines, tabular);
    push_line(&mut lines, render_header_row(header));
    lines
}

/// Appends the lines that close a table.
pub fn push_closing(lines: &mut Vec<String>)
    ensures
        final(lines).deep_view() == old(lines).deep_view() + closing_lines(),
{
    push_line(lines, String::from_str("\\hline"));
    push_line(lines, String::from_str("\\end{tabular}"));
    push_line(lines, String::from_str("\\end{center}"));
    push_line(lines, String::from_str("\\end{table}"));
}

/// The cell of a table that could not be typeset, and why.
#[derive(Clone, Copy, Debug, PartialEq, Eq)]
pub struct TableError {
    /// The position of the row in the table body, counted from zero.
    pub row: usize,
    /// The position of the cell in its row, counted from zero.
    pub column: usize,
    /// Why the cell's exponent has no canonical form.
    pub error: ExponentError,
}

/// Whether `row` is the first row with a cell that cannot be classified.
pub open spec fn is_first_failing_row(rows: Seq<Seq<Seq<char>>>, row: int) -> bool {
    &&& 0 <= row < rows.len()
    &&& !all_typeset(rows[row])
    &&& forall|earlier: int| 0 <= earlier < row ==> all_typeset(#[trigger] rows[earlier])
}

/// The lines of a whole table.
///
/// The table is typeset as a whole or not at all: where a cell of the body
/// cannot be classified, the first such cell of the first such row is
/// reported.
pub fn render_table(options: &TableOptions, header: &Vec<String>, rows: &Vec<Vec<String>>) -> (out:
    Result<Vec<String>, TableError>)
    ensures
        match out {
            Ok(lines) => {
                &&& forall|row: int|
                    0 <= row < rows.len() ==> all_typeset(#[trigger] rows.deep_view()[row])
                &&& lines.deep_view() == table_lines(
                    options.title@,
                    options.label@,
                    options.bordered,
                    header.deep_view(),
                    rows.deep_view(),
                )
            },
            Err(failure) => {
                &&& is_first_failing_row(rows.deep_view(), failure.row as int)
                &&& is_first_failure(rows.deep_view()[failure.row as int], failure.column as int)
                &&& classification(rows[failure.row as int][failure.column as int]@) == Err::<
                    CellView,
                    ExponentError,
                >(failure.error)
            },
        },
{
    let ghost body = rows.deep_view();
    let mut lines = table_opening(options, header);
    let ghost opening = lines.deep_view();
    let mut row: usize = 0;
    while row < rows.len()
        invariant
            row <= rows.len(),
            body == rows.deep_view(),
            forall|earlier: int| 0 <= earlier < row ==> all_typeset(#[trigger] body[earlier]),
            lines.deep_view() == opening + body_lines(body.take(row as int)),
        decreases rows.len() - row,
    {
        match render_data_row(&rows[row]) {
            Ok(line) => {
                push_line(&mut lines, line);
            },
            Err(failure) => {
                return Err(TableError { row, column: failure.column, error: failure.error });
            },
        }
        row += 1;
    }
    push_closing(&mut lines);
    Ok(lines)
}

} // verus!
