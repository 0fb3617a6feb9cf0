//! The tabular encoding of a batch: tab-delimited UTF-8 text, one header row
//! of column names and one row per record.

use vstd::prelude::*;
use vstd::utf8::encode_utf8;
use crate::error::ExtractError;
use crate::pipeline::{batch_view, lemma_extract_widths, spec_extract, RawDocumentView};
use crate::record::{Record, RecordView};
use crate::schema::{fields_view, texts_view, Schema, SchemaView};

verus! {

/// `csv::Error`, the error of the `csv` crate. Nothing is read of it: any
/// such error ends the encoding.
#[verifier::external_type_specification]
#[verifier::external_body]
pub struct ExCsvError(csv::Error);

/// Whether a cell must be quoted: it holds the delimiter, a quote, or a
/// carriage return or line feed.
pub open spec fn needs_quotes(cell: Seq<char>) -> bool {
    cell.contains('\t') || cell.contains('"') || cell.contains('\r') || cell.contains('\n')
}

/// `cell` with every quote character doubled.
pub open spec fn double_quotes(cell: Seq<char>) -> Seq<char>
    decreases cell.len(),
{
    if cell.len() == 0 {
        Seq::empty()
    } else if cell.first() == '"' {
        seq!['"', '"'] + double_quotes(cell.drop_first())
    } else {
        seq![cell.first()] + double_quotes(cell.drop_first())
    }
}

/// A cell as it is written: as it stands, or, where it must be quoted,
/// between quotes with its own quotes doubled.
pub open spec fn cell_text(cell: Seq<char>) -> Seq<char> {
    if needs_quotes(cell) {
        seq!['"'] + double_quotes(cell) + seq!['"']
    } else {
        cell
    }
}

/// The written cells of a row, separated by tabs.
pub open spec fn join_cells(cells: Seq<Seq<char>>) -> Seq<char>
    decreases cells.len(),
{
    if cells.len() == 0 {
        Seq::empty()
    } else if cells.len() == 1 {
        cell_text(cells[0])
    } else {
        cell_text(cells.first()) + seq!['\t'] + join_cells(cells.drop_first())
    }
}

/// A row as it is written: its cells separated by tabs, then a line feed. A
/// row that would otherwise be blank, having no cell or a single empty one,
/// is written as a pair of quotes.
pub open spec fn row_text(cells: Seq<Seq<char>>) -> Seq<char> {
    let body = join_cells(cells);
    if body.len() == 0 {
        seq!['"', '"', '\n']
    } else {
        body + seq!['\n']
    }
}

/// The cell of a value: its text, or the empty cell where it is absent.
pub open spec fn cell_of(value: Option<Seq<char>>) -> Seq<char> {
    match value {
        Some(text) => text,
        None => Seq::empty(),
    }
}

/// The cells of a record, in column order.
pub open spec fn cells_of(record: RecordView) -> Seq<Seq<char>> {
    Seq::new(record.len(), |i: int| cell_of(record[i]))
}

/// The rows of a batch as they are written, in batch order.
pub open spec fn rows_text(batch: Seq<RecordView>) -> Seq<char>
    decreases batch.len(),
{
    if batch.len() == 0 {
        Seq::empty()
    } else {
        rows_text(batch.drop_last()) + row_text(cells_of(batch.last()))
    }
}

/// The whole table: the header row of column names, then the rows of the
/// batch.
pub open spec fn table_text(schema: SchemaView, batch: Seq<RecordView>) -> Seq<char> {
    row_text(schema.names()) + rows_text(batch)
}

/// The UTF-8 encoding of a text made of two parts is the encoding of the
/// first followed by the encoding of the second.
pub proof fn lemma_encode_utf8_concat(a: Seq<char>, b: Seq<char>)
    ensures
        encode_utf8(a + b) == encode_utf8(a) + encode_utf8(b),
    decreases a.len(),
{
    if a.len() == 0 {
        assert(a + b =~= b);
        assert(encode_utf8(a) + encode_utf8(b) =~= encode_utf8(b));
    } else {
        assert((a + b).drop_first() =~= a.drop_first() + b);
        lemma_encode_utf8_concat(a.drop_first(), b);
        assert(encode_utf8(a + b) =~= encode_utf8(a) + encode_utf8(b));
    }
}

/// The table of an empty batch is the header row alone.
pub proof fn lemma_empty_batch_is_header(schema: SchemaView)
    ensures
        table_text(schema, Seq::empty()) == row_text(schema.names()),
{
    assert(row_text(schema.names()) + Seq::<char>::empty() =~= row_text(schema.names()));
}

/// Every row of an extracted batch has as many cells as the header row: one
/// per column of the schema, absent values included.
pub proof fn lemma_rows_as_wide_as_header(schema: SchemaView, docs: Seq<RawDocumentView>)
    ensures
        forall|i: int|
            0 <= i < spec_extract(schema, docs).len() ==> cells_of(
                #[trigger] spec_extract(schema, docs)[i],
            ).len() == schema.names().len(),
{
    lemma_extract_widths(schema, docs);
}

/// The delimiter between the cells of a row: the tab, `'\t'`.
pub const DELIMITER: u8 = 0x09;

/// Writes one row with `csv::Writer::write_record` into an empty byte
/// vector and hands the bytes back with `csv::Writer::into_inner`. The writer
/// is configured with the given delimiter and otherwise as
/// `csv::WriterBuilder::new` leaves it: `"` as quote, doubled when inside a
/// cell, quoting only where necessary, `\n` as terminator.
///
/// The contract speaks of the tab as delimiter only. It claims that the call
/// succeeds and that the bytes are the UTF-8 encoding of `row_text` of the
/// cells. Success is owed because the writer is new and its sink is a byte
/// vector in memory: the writer's only own error, a record with another
/// number of fields than the first, cannot come on its first record, and
/// writing to and flushing a byte vector do not fail.
#[verifier::external_body]
fn csv_row(cells: &Vec<String>, delimiter: u8) -> (r: Result<Vec<u8>, csv::Error>)
    requires
        delimiter == DELIMITER,
    ensures
        r is Ok,
        r->Ok_0@ == encode_utf8(row_text(texts_view(cells@))),
{
    let mut writer = csv::WriterBuilder::new().delimiter(delimiter).from_writer(Vec::new());
    writer.write_record(cells)?;
    match writer.into_inner() {
        Ok(bytes) => Ok(bytes),
        Err(e) => Err(csv::Error::from(e.into_error())),
    }
}

/// Appends a written row to the output, or reports that it could not be
/// written: on `Ok` the row's bytes are added at the end of `out`, on `Err`
/// the output is left as it was and the error is `Io`.
pub fn append_row(out: &mut Vec<u8>, row: Result<Vec<u8>, csv::Error>) -> (r: Result<
    (),
    ExtractError,
>)
    ensures
        match row {
            Ok(bytes) => r is Ok && final(out)@ == old(out)@ + bytes@,
            Err(_) => r == Err::<(), ExtractError>(ExtractError::Io) && final(out)@ == old(out)@,
        },
{
    match row {
        Ok(bytes) => {
            let mut bytes = bytes;
            out.append(&mut bytes);
            Ok(())
        },
        Err(_) => Err(ExtractError::Io),
    }
}

/// The column names of a schema, copied, in schema order.
pub fn header_cells(schema: &Schema) -> (cells: Vec<String>)
    ensures
        texts_view(cells@) == schema@.names(),
{
    let fields = schema.fields();
    let mut cells: Vec<String> = Vec::new();
    let mut i: usize = 0;
    while i < fields.len()
        invariant
            i <= fields.len(),
            cells.len() == i,
            fields_view(fields@) == schema@.fields,
            forall|j: int| 0 <= j < i ==> (#[trigger] cells@[j])@ == schema@.fields[j].name,
        decreases fields.len() - i,
    {
        assert(fields_view(fields@)[i as int] == fields@[i as int]@);
        cells.push(fields[i].name.clone());
        i += 1;
    }
    assert(texts_view(cells@) =~= schema@.names());
    cells
}

/// The cells of a record, copied: the text of each value, the empty string
/// for an absent one.
pub fn record_cells(record: &Record) -> (cells: Vec<String>)
    ensures
        texts_view(cells@) == cells_of(record@),
{
    let mut cells: Vec<String> = Vec::new();
    let mut i: usize = 0;
    while i < record.values.len()
        invariant
            i <= record.values.len(),
            cells.len() == i,
            forall|j: int| 0 <= j < i ==> (#[trigger] cells@[j])@ == cell_of(record@[j]),
        decreases record.values.len() - i,
    {
        let cell = match &record.values[i] {
            Some(text) => text.clone(),
            None => String::new(),
        };
        cells.push(cell);
        i += 1;
    }
    assert(texts_view(cells@) =~= cells_of(record@));
    cells
}

/// Encodes a batch as a table: one header row of the schema's column names,
/// then one row per record, in batch order.
///
/// Cells are separated by tabs and rows end in a line feed. A cell that holds
/// a tab, a quote, a carriage return or a line feed is written between quotes
/// with its quotes doubled. An absent value is written as an empty cell, and
/// a record is written with as many cells as it has values. The result is
/// UTF-8 text.
///
/// The table is encoded in memory, and that always succeeds: the result is
/// `Ok` for every batch and every schema. Writing the bytes to their
/// destination, which can fail, is left to the caller.
pub fn encode(batch: &Vec<Record>, schema: &Schema) -> (r: Result<Vec<u8>, ExtractError>)
    ensures
        r is Ok,
        r->Ok_0@ == encode_utf8(table_text(schema@, batch_view(batch@))),
{
    let ghost all = batch_view(batch@);
    let mut out: Vec<u8> = Vec::new();
    let header = header_cells(schema);
    let header_row = csv_row(&header, DELIMITER);
    match append_row(&mut out, header_row) {
        Ok(()) => {},
        Err(e) => {
            return Err(e);
        },
    }
    proof {
        assert(all.take(0) =~= Seq::<RecordView>::empty());
        assert(row_text(schema@.names()) + rows_text(all.take(0)) =~= row_text(schema@.names()));
    }
    let mut i: usize = 0;
    while i < batch.len()
        invariant
            i <= batch.len(),
            all == batch_view(batch@),
            out@ == encode_utf8(row_text(schema@.names()) + rows_text(all.take(i as int))),
        decreases batch.len() - i,
    {
        let cells = record_cells(&batch[i]);
        let ghost so_far = row_text(schema@.names()) + rows_text(all.take(i as int));
        let ghost row = row_text(cells_of(batch@[i as int]@));
        let written = csv_row(&cells, DELIMITER);
        match append_row(&mut out, written) {
            Ok(()) => {},
            Err(e) => {
                return Err(e);
            },
        }
        proof {
            assert(all.take(i as int + 1).drop_last() =~= all.take(i as int));
            assert(all.take(i as int + 1).last() == batch@[i as int]@);
            lemma_encode_utf8_concat(so_far, row);
            assert(so_far + row =~= row_text(schema@.names()) + rows_text(all.take(i as int + 1)));
        }
        i += 1;
    }
    proof {
        assert(all.take(batch.len() as int) =~= all);
    }
    Ok(out)
}

} // verus!
