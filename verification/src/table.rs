//! Tables as delimited text: rows of text fields in, rows of text fields out.

use vstd::prelude::*;
use crate::error::LabelError;

verus! {

/// The delimiter of a table whose user names no other: a comma.
pub const DEFAULT_DELIMITER: u8 = 0x2c;

/// The error type of the `csv` crate, carried through and never looked into.
#[verifier::external_type_specification]
#[verifier::external_body]
pub struct ExCsvError(csv::Error);

/// Whether every row has as many fields as the first one.
pub open spec fn uniform(rows: Seq<Seq<Seq<char>>>) -> bool {
    forall|i: int| 0 <= i < rows.len() ==> (#[trigger] rows[i]).len() == rows[0].len()
}

/// The rows that the `csv` reader finds in `data` when fields are separated
/// by `delimiter` and no row is set apart as a header, or `None` where it
/// reports an error.
pub uninterp spec fn csv_rows(data: Seq<u8>, delimiter: u8) -> Option<Seq<Seq<Seq<char>>>>;

/// The text that the `csv` writer produces for `rows` when fields are
/// separated by `delimiter`.
pub uninterp spec fn csv_text(rows: Seq<Seq<Seq<char>>>, delimiter: u8) -> Seq<u8>;

/// Runs `csv::Reader::records` over `data`, with the delimiter set by
/// `csv::ReaderBuilder::delimiter` and the first row read as a record
/// (`has_headers(false)`). Trusted: the rows are `csv_rows` of the input,
/// and, since the reader is not flexible, rows that it accepts all have the
/// same number of fields.
#[verifier::external_body]
fn read_rows(data: &[u8], delimiter: u8) -> (rows: Result<Vec<Vec<String>>, csv::Error>)
    ensures
        match rows {
            Ok(r) => csv_rows(data@, delimiter) == Some(r.deep_view()) && uniform(r.deep_view()),
            Err(_) => csv_rows(data@, delimiter) is None,
        },
{
    let mut reader =
        csv::ReaderBuilder::new().delimiter(delimiter).has_headers(false).from_reader(data);
    let mut rows = Vec::new();
    for record in reader.records() {
        rows.push(record?.iter().map(|field| field.to_string()).collect());
    }
    Ok(rows)
}

/// Runs `csv::Writer::write_record` on each row in turn, into memory, with
/// the delimiter set by `csv::WriterBuilder::delimiter`. Trusted: the writer
/// is not flexible, so it fails exactly when a row differs from the first in
/// its number of fields; what it writes is `csv_text` of the rows.
#[verifier::external_body]
fn write_rows(rows: &Vec<Vec<String>>, delimiter: u8) -> (text: Result<Vec<u8>, csv::Error>)
    ensures
        text is Ok <==> uniform(rows.deep_view()),
        text matches Ok(bytes) ==> bytes@ == csv_text(rows.deep_view(), delimiter),
{
    let mut writer = csv::WriterBuilder::new().delimiter(delimiter).from_writer(Vec::new());
    for row in rows.iter() {
        writer.write_record(row.iter())?;
    }
    writer.into_inner().map_err(|e| csv::Error::from(e.into_error()))
}

/// What `parse_table` returns, given what the reader found.
pub open spec fn parsed(found: Option<Seq<Seq<Seq<char>>>>) -> Result<
    Seq<Seq<Seq<char>>>,
    LabelError,
> {
    match found {
        Some(rows) => Ok(rows),
        None => Err(LabelError::Format),
    }
}

/// Splits delimited text into rows of fields. Every row of the text is a
/// row of the result, the first one too. Fails with `Format` where the text
/// is not a table: a row with another number of fields than the first, or a
/// field that is not UTF-8.
pub fn parse_table(data: &[u8], delimiter: u8) -> (table: Result<Vec<Vec<String>>, LabelError>)
    ensures
        match parsed(csv_rows(data@, delimiter)) {
            Ok(rows) => table matches Ok(t) && t.deep_view() == rows && uniform(rows),
            Err(e) => table == Err::<Vec<Vec<String>>, LabelError>(e),
        },
{
    match read_rows(data, delimiter) {
        Ok(rows) => Ok(rows),
        Err(_) => Err(LabelError::Format),
    }
}

/// Writes rows of fields as delimited text. Fails with `Format` exactly
/// when a row differs from the first in its number of fields.
pub fn encode_table(rows: &Vec<Vec<String>>, delimiter: u8) -> (text: Result<Vec<u8>, LabelError>)
    ensures
        match text {
            Ok(bytes) => uniform(rows.deep_view()) && bytes@ == csv_text(
                rows.deep_view(),
                delimiter,
            ),
            Err(e) => !uniform(rows.deep_view()) && e == LabelError::Format,
        },
{
    match write_rows(rows, delimiter) {
        Ok(bytes) => Ok(bytes),
        Err(_) => Err(LabelError::Format),
    }
}

} // verus!
