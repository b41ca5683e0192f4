//! Writing rows as comma-separated text.
//!
//! The text is produced by the `csv` crate, into memory. This module states
//! what the crate's writer is relied on for, and proves the rest from that.

use crate::merge::{merged, merge_sheets};
use crate::rows::{
    lemma_normalized_len, lemma_normalized_widths, normalize_rows, normalized,
};
use crate::sheet::SheetData;
use vstd::prelude::*;

verus! {

/// A `csv::Writer` with the default configuration that writes into a byte
/// vector. What it holds is known only through `written_records`.
#[verifier::external_body]
pub struct RecordWriter {
    inner: csv::Writer<Vec<u8>>,
}

/// `csv::Error`, of which nothing is read here.
#[verifier::external_type_specification]
#[verifier::external_body]
pub struct ExError(csv::Error);

/// The records that have been written to `writer`, oldest first.
pub uninterp spec fn written_records(writer: RecordWriter) -> Seq<Seq<Seq<char>>>;

/// The bytes that a `csv::Writer` with the default configuration hands to
/// its sink once exactly `records` have been written to it, in this order.
pub uninterp spec fn csv_text(records: Seq<Seq<Seq<char>>>) -> Seq<u8>;

/// `csv::Writer::from_writer`, on an empty byte vector: a writer with the
/// default configuration to which nothing has been written.
#[verifier::external_body]
fn new_writer() -> (writer: RecordWriter)
    ensures
        written_records(writer) == Seq::<Seq<Seq<char>>>::empty(),
{
    RecordWriter { inner: csv::Writer::from_writer(Vec::new()) }
}

/// `csv::Writer::write_record`. The writer is not flexible: it fails on a
/// record that has another number of fields than the first record written,
/// and on nothing else, since its sink is a byte vector. On success the
/// record has been added to what is written. On failure the writer is
/// dropped, for part of the record may have reached its buffer.
#[verifier::external_body]
fn write_record(writer: RecordWriter, record: &Vec<String>) -> (r: Result<
    RecordWriter,
    csv::Error,
>)
    ensures
        r is Ok <==> (written_records(writer).len() == 0 || written_records(writer)[0].len()
            == record.deep_view().len()),
        r matches Ok(after) ==> written_records(after) == written_records(writer).push(
            record.deep_view(),
        ),
{
    let mut writer = writer;
    match writer.inner.write_record(record) {
        Ok(()) => Ok(writer),
        Err(error) => Err(error),
    }
}

/// `csv::Writer::into_inner`: flushes the writer's buffer and gives the sink
/// back. With a byte vector as the sink this does not fail. Nothing written
/// gives no bytes.
#[verifier::external_body]
fn into_bytes(writer: RecordWriter) -> (r: Result<Vec<u8>, csv::Error>)
    ensures
        r is Ok,
        r matches Ok(bytes) ==> bytes@ == csv_text(written_records(writer)),
        r matches Ok(bytes) ==> (written_records(writer).len() == 0 ==> bytes@.len() == 0),
{
    match writer.inner.into_inner() {
        Ok(bytes) => Ok(bytes),
        Err(error) => Err(csv::Error::from(error.into_error())),
    }
}

/// Why rows could not be written.
#[derive(Debug, Clone, Copy, PartialEq, Eq)]
pub enum WriteError {
    /// The record at index `record` has `len` fields, where the first record
    /// has `expected_len`.
    UnequalLengths { record: usize, expected_len: usize, len: usize },
}

/// Whether all rows have the width of the first.
pub open spec fn same_widths(rows: Seq<Seq<Seq<char>>>) -> bool {
    forall|i: int| 0 <= i < rows.len() ==> (#[trigger] rows[i]).len() == rows[0].len()
}

/// Whether row `i` is the first whose width differs from that of row 0.
pub open spec fn is_first_mismatch(rows: Seq<Seq<Seq<char>>>, i: int) -> bool {
    &&& 0 < i < rows.len()
    &&& rows[i].len() != rows[0].len()
    &&& same_widths(rows.take(i))
}

/// The normal form of any rows has rows of one width.
pub proof fn lemma_normalized_same_widths(rows: Seq<Seq<Seq<char>>>, trim_cells: bool)
    ensures
        same_widths(normalized(rows, trim_cells)),
{
    lemma_normalized_widths(rows, trim_cells);
}

/// Writes `rows` as comma-separated text, one record for each row, and
/// returns the bytes. Fails at the first row that is not as wide as row 0.
pub fn write_rows(rows: &Vec<Vec<String>>) -> (r: Result<Vec<u8>, WriteError>)
    ensures
        match r {
            Ok(bytes) => same_widths(rows.deep_view()) && bytes@ == csv_text(rows.deep_view()),
            Err(WriteError::UnequalLengths { record, expected_len, len }) => {
                &&& is_first_mismatch(rows.deep_view(), record as int)
                &&& expected_len == rows.deep_view()[0].len()
                &&& len == rows.deep_view()[record as int].len()
            },
        },
        rows.len() == 0 ==> (r matches Ok(bytes) && bytes@.len() == 0),
{
    let ghost grid = rows.deep_view();
    let mut writer = new_writer();
    let mut i: usize = 0;
    while i < rows.len()
        invariant
            i <= rows.len(),
            grid == rows.deep_view(),
            written_records(writer) == grid.take(i as int),
            same_widths(grid.take(i as int)),
        decreases rows.len() - i,
    {
        assert(i > 0 ==> grid.take(i as int)[0] == grid[0]);
        match write_record(writer, &rows[i]) {
            Ok(after) => {
                writer = after;
                assert(grid.take(i + 1) =~= grid.take(i as int).push(grid[i as int]));
                assert forall|k: int| 0 <= k < i + 1 implies (#[trigger] grid.take(i + 1)[k]).len()
                    == grid.take(i + 1)[0].len() by {
                    assert(k < i ==> grid.take(i as int)[k] == grid.take(i + 1)[k]);
                }
            },
            Err(_) => {
                return Err(
                    WriteError::UnequalLengths {
                        record: i,
                        expected_len: rows[0].len(),
                        len: rows[i].len(),
                    },
                );
            },
        }
        i = i + 1;
    }
    assert(grid.take(rows.len() as int) =~= grid);
    match into_bytes(writer) {
        Ok(bytes) => Ok(bytes),
        Err(_) => vstd::pervasive::unreached(),
    }
}

/// The comma-separated text of one sheet: the rows of `data` in normal form,
/// cells trimmed, one record for each.
pub fn csv_writer(data: &Vec<Vec<String>>) -> (bytes: Vec<u8>)
    ensures
        bytes@ == csv_text(normalized(data.deep_view(), true)),
        normalized(data.deep_view(), true).len() == 0 ==> bytes@.len() == 0,
{
    let rows = normalize_rows(data, true);
    proof {
        lemma_normalized_same_widths(data.deep_view(), true);
    }
    match write_rows(&rows) {
        Ok(bytes) => bytes,
        Err(_) => vstd::pervasive::unreached(),
    }
}

/// The comma-separated text of several sheets in one: the rows of the sheets
/// merged in the order given, then brought into normal form over the whole,
/// cells as they are, one record for each.
pub fn csv_write_all(all_data: &Vec<SheetData>, first_line_only_once: bool) -> (bytes: Vec<u8>)
    ensures
        bytes@ == csv_text(
            normalized(merged(all_data.deep_view(), first_line_only_once), false),
        ),
        merged(all_data.deep_view(), first_line_only_once).len() == 0 ==> bytes@.len() == 0,
{
    let data_merged = merge_sheets(all_data, first_line_only_once);
    let rows = normalize_rows(&data_merged, false);
    proof {
        lemma_normalized_same_widths(data_merged.deep_view(), false);
        lemma_normalized_len(data_merged.deep_view(), false);
    }
    match write_rows(&rows) {
        Ok(bytes) => bytes,
        Err(_) => vstd::pervasive::unreached(),
    }
}

} // verus!
