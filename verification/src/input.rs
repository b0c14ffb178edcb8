//! Tables from comma-separated text.

use vstd::prelude::*;
use crate::cell::{classification, CellView};
use crate::exponent::ExponentError;
use crate::table::{
    all_typeset, body_lines, header_line, is_first_failure, opening_lines, push_closing,
    push_line, render_data_row, table_lines, table_opening, TableOptions,
};

verus! {

/// The error of the `csv` crate. Nothing is known of a value of it.
#[verifier::external_type_specification]
#[verifier::external_body]
pub struct ExCsvError(csv::Error);

/// The first record that the `csv` crate reads from `input`, with its default
/// settings: the fields as text, or `None` where it reports an error.
pub uninterp spec fn csv_header(input: Seq<u8>) -> Option<Seq<Seq<char>>>;

/// The records that the `csv` crate reads from `input` after the first one,
/// with its default settings: for each of them the fields as text, or `None`
/// where it reports an error for that record.
pub uninterp spec fn csv_records(input: Seq<u8>) -> Seq<Option<Seq<Seq<char>>>>;

/// The fields of a record that was read, `None` for one that was not.
pub open spec fn record_view<E>(record: Result<Vec<String>, E>) -> Option<Seq<Seq<char>>> {
    match record {
        Ok(fields) => Some(fields.deep_view()),
        Err(_) => None,
    }
}

/// The records of a document, each as `record_view` shows it.
pub open spec fn records_view<E>(records: Seq<Result<Vec<String>, E>>) -> Seq<
    Option<Seq<Seq<char>>>,
> {
    Seq::new(records.len(), |i: int| record_view(records[i]))
}

/// Calls `csv::Reader::headers` on a reader that `csv::Reader::from_reader`
/// has made over `input`, and copies the fields of the record that comes
/// back. The call reads the first record of `input`. All that is claimed is
/// that the outcome depends on `input` alone, under the name `csv_header`.
#[verifier::external_body]
fn read_header(input: &[u8]) -> (header: Result<Vec<String>, csv::Error>)
    ensures
        record_view(header) == csv_header(input@),
{
    let mut reader = csv::Reader::from_reader(input);
    let record = reader.headers()?;
    Ok(record.iter().map(String::from).collect())
}

/// Calls `csv::Reader::into_records` on a reader that
/// `csv::Reader::from_reader` has made over `input`, and copies what the
/// iterator yields until it ends: for each record after the first one its
/// fields, or the error that the crate reports for it. All that is claimed
/// is that the outcome depends on `input` alone, under the name
/// `csv_records`.
#[verifier::external_body]
fn read_records(input: &[u8]) -> (records: Vec<Result<Vec<String>, csv::Error>>)
    ensures
        records_view(records@) == csv_records(input@),
{
    csv::Reader::from_reader(input)
        .into_records()
        .map(|record| record.map(|fields| fields.iter().map(String::from).collect()))
        .collect()
}

/// The records that were read, in order.
pub open spec fn readable(records: Seq<Option<Seq<Seq<char>>>>) -> Seq<Seq<Seq<char>>>
    decreases records.len(),
{
    if records.len() == 0 {
        Seq::empty()
    } else {
        match records.last() {
            Some(fields) => readable(records.drop_last()).push(fields),
            None => readable(records.drop_last()),
        }
    }
}

/// The positions of the records that were not read, in order.
pub open spec fn unreadable(records: Seq<Option<Seq<Seq<char>>>>) -> Seq<int>
    decreases records.len(),
{
    if records.len() == 0 {
        Seq::empty()
    } else {
        match records.last() {
            Some(_) => unreadable(records.drop_last()),
            None => unreadable(records.drop_last()).push(records.len() - 1),
        }
    }
}

/// Every record is accounted for: it was read, or its position is among
/// those of the records that were not, and these positions are in range.
pub proof fn lemma_records_accounted_for(records: Seq<Option<Seq<Seq<char>>>>)
    ensures
        readable(records).len() + unreadable(records).len() == records.len(),
        forall|k: int|
            0 <= k < unreadable(records).len() ==> {
                &&& 0 <= #[trigger] unreadable(records)[k] < records.len()
                &&& records[unreadable(records)[k]] is None
            },
    decreases records.len(),
{
    if records.len() > 0 {
        let earlier = records.drop_last();
        lemma_records_accounted_for(earlier);
        assert forall|k: int| 0 <= k < unreadable(records).len() implies {
            &&& 0 <= #[trigger] unreadable(records)[k] < records.len()
            &&& records[unreadable(records)[k]] is None
        } by {
            if k < unreadable(earlier).len() {
                assert(unreadable(records)[k] == unreadable(earlier)[k]);
            }
        }
    }
}

/// Whether the record at `position` was read and holds a cell that cannot
/// be classified.
pub open spec fn record_fails(records: Seq<Option<Seq<Seq<char>>>>, position: int) -> bool {
    &&& 0 <= position < records.len()
    &&& records[position] matches Some(fields)
    &&& !all_typeset(fields)
}

/// Whether `position` is the first record that fails.
pub open spec fn is_first_failing_record(
    records: Seq<Option<Seq<Seq<char>>>>,
    position: int,
) -> bool {
    &&& record_fails(records, position)
    &&& forall|earlier: int| 0 <= earlier < position ==> !record_fails(records, earlier)
}

/// A table that was made from a document.
#[derive(Clone, Debug, PartialEq, Eq)]
pub struct Conversion {
    /// The lines of the table.
    pub lines: Vec<String>,
    /// The positions of the records that could not be read and were left
    /// out, counted from zero after the row of column titles.
    pub skipped: Vec<usize>,
}

/// Why no table was made from a document.
#[derive(Clone, Copy, Debug, PartialEq, Eq)]
pub enum ConvertError {
    /// The row of column titles could not be read.
    Header,
    /// A cell of the body could not be typeset.
    Cell {
        /// The position of the record, counted from zero after the row of
        /// column titles.
        record: usize,
        /// The position of the cell in its record, counted from zero.
        column: usize,
        /// Why the cell's exponent has no canonical form.
        error: ExponentError,
    },
}

/// Whether `out` is what a document comes to.
///
/// Without a row of column titles there is no table. A record that could
/// not be read is left out, and its position is noted. A cell that cannot be
/// classified fails the whole table, and the first such cell of the first
/// such record is reported. In every other case the table has the titles as
/// they are and one row for each record that was read.
pub open spec fn is_conversion(
    out: Result<Conversion, ConvertError>,
    options: TableOptions,
    header: Option<Seq<Seq<char>>>,
    records: Seq<Option<Seq<Seq<char>>>>,
) -> bool {
    match header {
        None => out == Err::<Conversion, ConvertError>(ConvertError::Header),
        Some(titles) => match out {
            Ok(conversion) => {
                &&& forall|position: int| !record_fails(records, position)
                &&& conversion.lines.deep_view() == table_lines(
                    options.title@,
                    options.label@,
                    options.bordered,
                    titles,
                    readable(records),
                )
                &&& conversion.skipped@.map_values(|position: usize| position as int)
                    == unreadable(records)
            },
            Err(ConvertError::Cell { record, column, error }) => {
                &&& is_first_failing_record(records, record as int)
                &&& is_first_failure(records[record as int].unwrap(), column as int)
                &&& classification(records[record as int].unwrap()[column as int]) == Err::<
                    CellView,
                    ExponentError,
                >(error)
            },
            Err(ConvertError::Header) => false,
        },
    }
}

/// The table for a document whose records have been read already.
///
/// `header` is the outcome of reading the row of column titles, and
/// `records` holds the outcome of reading each record after it.
pub fn assemble<E>(
    options: &TableOptions,
    header: &Result<Vec<String>, E>,
    records: &Vec<Result<Vec<String>, E>>,
) -> (out: Result<Conversion, ConvertError>)
    ensures
        is_conversion(out, *options, record_view(*header), records_view(records@)),
{
    let ghost document = records_view(records@);
    let titles = match header {
        Ok(titles) => titles,
        Err(_) => {
            return Err(ConvertError::Header);
        },
    };
    let mut lines = table_opening(options, titles);
    let ghost opening = lines.deep_view();
    let mut skipped: Vec<usize> = Vec::new();
    let mut position: usize = 0;
    while position < records.len()
        invariant
            position <= records.len(),
            document == records_view(records@),
            record_view(*header) == Some(titles.deep_view()),
            opening == opening_lines(
                options.title@,
                options.label@,
                titles.len() as nat,
                options.bordered,
            ).push(header_line(titles.deep_view())),
            forall|earlier: int| 0 <= earlier < position ==> !record_fails(document, earlier),
            lines.deep_view() == opening + body_lines(readable(document.take(position as int))),
            skipped@.map_values(|p: usize| p as int) == unreadable(document.take(position as int)),
        decreases records.len() - position,
    {
        assert(document.take(position + 1).drop_last() == document.take(position as int));
        match &records[position] {
            Ok(fields) => {
                match render_data_row(fields) {
                    Ok(line) => {
                        push_line(&mut lines, line);
                    },
                    Err(failure) => {
                        return Err(
                            ConvertError::Cell {
                                record: position,
                                column: failure.column,
                                error: failure.error,
                            },
                        );
                    },
                }
            },
            Err(_) => {
                skipped.push(position);
            },
        }
        position += 1;
    }
    assert(document.take(records.len() as int) == document);
    push_closing(&mut lines);
    Ok(Conversion { lines, skipped })
}

/// The table for a document of comma-separated text.
///
/// The text is read by the `csv` crate with its default settings. The first
/// record of `input` holds the column titles, and each record after it is a
/// row of the body. What becomes of them is what `assemble` makes of the
/// outcomes of reading: a record that the crate cannot read, such as one
/// that is not UTF-8 or has not as many fields as the first, is left out.
pub fn convert(options: &TableOptions, input: &[u8]) -> (out: Result<Conversion, ConvertError>)
    ensures
        is_conversion(out, *options, csv_header(input@), csv_records(input@)),
{
    let header = read_header(input);
    let records = read_records(input);
    assemble(options, &header, &records)
}

} // verus!
