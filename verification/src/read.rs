//! Reading a table back: what the cells of an encoded table are, and that
//! they are the cells that were written.

use vstd::prelude::*;
use crate::encode::{
    cell_text, cells_of, double_quotes, join_cells, needs_quotes, row_text, rows_text, table_text,
};
use crate::pipeline::{lemma_extract_len, lemma_extract_widths, spec_extract, RawDocumentView};
use crate::record::RecordView;
use crate::schema::SchemaView;

verus! {

/// The cells of a row, as plain text.
pub type RowView = Seq<Seq<char>>;

/// Reads a quoted cell whose opening quote has been read: a doubled quote
/// stands for one quote, a single one ends the cell. Gives the cell and the
/// text after its closing quote.
pub open spec fn read_quoted(text: Seq<char>) -> (Seq<char>, Seq<char>)
    decreases text.len(),
{
    if text.len() == 0 {
        (Seq::empty(), text)
    } else if text[0] != '"' {
        let r = read_quoted(text.skip(1));
        (seq![text[0]] + r.0, r.1)
    } else if text.len() >= 2 && text[1] == '"' {
        let r = read_quoted(text.skip(2));
        (seq!['"'] + r.0, r.1)
    } else {
        (Seq::empty(), text.skip(1))
    }
}

/// Reads an unquoted cell: all up to the next tab or line feed. Gives the
/// cell and the text from that tab or line feed on.
pub open spec fn read_plain(text: Seq<char>) -> (Seq<char>, Seq<char>)
    decreases text.len(),
{
    if text.len() == 0 || text[0] == '\t' || text[0] == '\n' {
        (Seq::empty(), text)
    } else {
        let r = read_plain(text.skip(1));
        (seq![text[0]] + r.0, r.1)
    }
}

/// Reads one cell, quoted where the text starts with a quote. Gives the cell
/// and the text after it.
pub open spec fn read_cell(text: Seq<char>) -> (Seq<char>, Seq<char>) {
    if text.len() > 0 && text[0] == '"' {
        read_quoted(text.skip(1))
    } else {
        read_plain(text)
    }
}

/// Reads one row: cells separated by tabs, up to and including the line
/// feed that ends the row. Gives the cells and the text after the row.
pub open spec fn read_row(text: Seq<char>) -> (RowView, Seq<char>)
    decreases text.len(),
{
    let r = read_cell(text);
    let cell = r.0;
    let rest = r.1;
    if 0 < rest.len() <= text.len() && rest[0] == '\t' {
        let more = read_row(rest.skip(1));
        (seq![cell] + more.0, more.1)
    } else if rest.len() > 0 && rest[0] == '\n' {
        (seq![cell], rest.skip(1))
    } else {
        (seq![cell], rest)
    }
}

/// Reads a table: its rows, in order, each as its cells.
pub open spec fn read_table(text: Seq<char>) -> Seq<RowView>
    decreases text.len(),
{
    if text.len() == 0 {
        Seq::empty()
    } else {
        let r = read_row(text);
        if r.1.len() < text.len() {
            seq![r.0] + read_table(r.1)
        } else {
            seq![r.0]
        }
    }
}

/// The cells of the records of a batch, in batch order.
pub open spec fn rows_cells(batch: Seq<RecordView>) -> Seq<RowView> {
    Seq::new(batch.len(), |i: int| cells_of(batch[i]))
}

/// A character that a text does not hold is not held by the text without
/// its first character either.
proof fn lemma_rest_holds_no_more(s: Seq<char>, c: char)
    requires
        s.len() > 0,
        !s.contains(c),
    ensures
        !s.drop_first().contains(c),
        s.first() != c,
{
    let rest = s.drop_first();
    if rest.contains(c) {
        let i = choose|i: int| 0 <= i < rest.len() && rest[i] == c;
        assert(s[i + 1] == c);
    }
    assert(s.contains(s[0]));
}

/// A cell that needs no quotes, written as it stands before a tab or a line
/// feed, is read back as itself.
pub proof fn lemma_read_plain(cell: Seq<char>, tail: Seq<char>)
    requires
        !needs_quotes(cell),
        tail.len() > 0,
        tail[0] == '\t' || tail[0] == '\n',
    ensures
        read_plain(cell + tail) == (cell, tail),
    decreases cell.len(),
{
    let text = cell + tail;
    if cell.len() == 0 {
        assert(text =~= tail);
    } else {
        lemma_rest_holds_no_more(cell, '\t');
        lemma_rest_holds_no_more(cell, '\n');
        lemma_rest_holds_no_more(cell, '"');
        lemma_rest_holds_no_more(cell, '\r');
        assert(text[0] == cell[0]);
        assert(text.skip(1) =~= cell.drop_first() + tail);
        lemma_read_plain(cell.drop_first(), tail);
        assert(seq![cell[0]] + cell.drop_first() =~= cell);
    }
}

/// A cell written with its quotes doubled and a closing quote after it is
/// read back as itself, whatever it holds, where no quote follows the
/// closing one.
pub proof fn lemma_read_quoted(cell: Seq<char>, tail: Seq<char>)
    requires
        tail.len() > 0,
        tail[0] != '"',
    ensures
        read_quoted(double_quotes(cell) + seq!['"'] + tail) == (cell, tail),
    decreases cell.len(),
{
    let text = double_quotes(cell) + seq!['"'] + tail;
    if cell.len() == 0 {
        assert(text =~= seq!['"'] + tail);
        assert(text[0] == '"');
        assert(text[1] == tail[0]);
        assert(text.skip(1) =~= tail);
    } else {
        let rest = cell.drop_first();
        let rest_text = double_quotes(rest) + seq!['"'] + tail;
        lemma_read_quoted(rest, tail);
        assert(seq![cell[0]] + rest =~= cell);
        if cell.first() == '"' {
            assert(text =~= seq!['"', '"'] + rest_text);
            assert(text[0] == '"' && text[1] == '"');
            assert(text.skip(2) =~= rest_text);
        } else {
            assert(text =~= seq![cell.first()] + rest_text);
            assert(text[0] == cell.first());
            assert(text.skip(1) =~= rest_text);
        }
    }
}

/// A written cell before a tab or a line feed is read back as itself.
pub proof fn lemma_read_cell(cell: Seq<char>, tail: Seq<char>)
    requires
        tail.len() > 0,
        tail[0] == '\t' || tail[0] == '\n',
    ensures
        read_cell(cell_text(cell) + tail) == (cell, tail),
{
    let text = cell_text(cell) + tail;
    if needs_quotes(cell) {
        assert(text =~= seq!['"'] + (double_quotes(cell) + seq!['"'] + tail));
        assert(text[0] == '"');
        assert(text.skip(1) =~= double_quotes(cell) + seq!['"'] + tail);
        lemma_read_quoted(cell, tail);
    } else {
        if cell.len() > 0 {
            lemma_rest_holds_no_more(cell, '"');
            assert(text[0] == cell[0]);
        } else {
            assert(text =~= tail);
        }
        lemma_read_plain(cell, tail);
    }
}

/// The written cells of a row are no text at all only where the row has no
/// cell, or a single empty one.
pub proof fn lemma_join_empty(cells: Seq<Seq<char>>)
    ensures
        join_cells(cells).len() == 0 <==> (cells.len() == 0 || (cells.len() == 1
            && cells[0].len() == 0)),
{
}

/// The cells of a row, written and followed by a line feed, are read back as
/// themselves, and the text after the line feed is left.
proof fn lemma_read_joined(cells: Seq<Seq<char>>, tail: Seq<char>)
    requires
        cells.len() >= 1,
    ensures
        read_row(join_cells(cells) + seq!['\n'] + tail) == (cells, tail),
    decreases cells.len(),
{
    let text = join_cells(cells) + seq!['\n'] + tail;
    let first = cells.first();
    if cells.len() == 1 {
        let after = seq!['\n'] + tail;
        assert(text =~= cell_text(first) + after);
        lemma_read_cell(first, after);
        assert(after.skip(1) =~= tail);
        assert(seq![first] =~= cells);
    } else {
        let others = cells.drop_first();
        let others_text = join_cells(others) + seq!['\n'] + tail;
        let after = seq!['\t'] + others_text;
        assert(text =~= cell_text(first) + after);
        lemma_read_cell(first, after);
        assert(after.skip(1) =~= others_text);
        lemma_read_joined(others, tail);
        assert(seq![first] + others =~= cells);
    }
}

/// A written row is read back as its cells, and the text after the row is
/// left, where the row has at least one cell.
pub proof fn lemma_read_row(cells: Seq<Seq<char>>, tail: Seq<char>)
    requires
        cells.len() >= 1,
    ensures
        read_row(row_text(cells) + tail) == (cells, tail),
        row_text(cells).len() > 0,
{
    let text = row_text(cells) + tail;
    lemma_join_empty(cells);
    if join_cells(cells).len() == 0 {
        let empty = Seq::<char>::empty();
        assert(cells[0] =~= empty);
        assert(cells =~= seq![empty]);
        assert(text =~= seq!['"', '"', '\n'] + tail);
        assert(text[0] == '"' && text[1] == '"' && text[2] == '\n');
        let inner = text.skip(1);
        assert(inner[0] == '"' && inner[1] == '\n');
        assert(read_quoted(inner) == (empty, inner.skip(1)));
        assert(inner.skip(1).skip(1) =~= tail);
    } else {
        assert(text =~= join_cells(cells) + seq!['\n'] + tail);
        lemma_read_joined(cells, tail);
    }
}

/// The rows of a batch are the row of its first record followed by the rows
/// of the others.
pub proof fn lemma_rows_text_first(batch: Seq<RecordView>)
    requires
        batch.len() > 0,
    ensures
        rows_text(batch) == row_text(cells_of(batch.first())) + rows_text(batch.drop_first()),
    decreases batch.len(),
{
    if batch.len() == 1 {
        assert(batch.drop_last() =~= Seq::<RecordView>::empty());
        assert(batch.drop_first() =~= Seq::<RecordView>::empty());
        assert(rows_text(batch) =~= row_text(cells_of(batch.first())) + rows_text(
            batch.drop_first(),
        ));
    } else {
        let front = batch.drop_last();
        lemma_rows_text_first(front);
        assert(front.first() == batch.first());
        assert(front.drop_first() =~= batch.drop_first().drop_last());
        assert(batch.drop_first().last() == batch.last());
        assert(rows_text(batch) =~= row_text(cells_of(batch.first())) + rows_text(
            batch.drop_first(),
        ));
    }
}

/// The written rows of a batch are read back as the cells of its records, in
/// batch order, where every record has at least one value.
pub proof fn lemma_read_rows(batch: Seq<RecordView>)
    requires
        forall|i: int| 0 <= i < batch.len() ==> (#[trigger] batch[i]).len() >= 1,
    ensures
        read_table(rows_text(batch)) == rows_cells(batch),
    decreases batch.len(),
{
    if batch.len() == 0 {
        assert(read_table(rows_text(batch)) =~= rows_cells(batch));
    } else {
        let others = batch.drop_first();
        lemma_rows_text_first(batch);
        assert(batch.first() == batch[0]);
        lemma_read_row(cells_of(batch.first()), rows_text(others));
        assert forall|i: int| 0 <= i < others.len() implies (#[trigger] others[i]).len() >= 1 by {
            assert(others[i] == batch[i + 1]);
        }
        lemma_read_rows(others);
        assert(seq![cells_of(batch.first())] + rows_cells(others) =~= rows_cells(batch));
    }
}

/// An encoded table is read back as it was written: the first row holds the
/// column names in schema order, and after it comes one row per record, in
/// batch order, with the record's cells, an empty cell for each absent value.
/// This holds where the schema has a column and every record a value, as a
/// row without cells is written like a row of one empty cell.
pub proof fn lemma_table_reads_back(schema: SchemaView, batch: Seq<RecordView>)
    requires
        schema.fields.len() >= 1,
        forall|i: int| 0 <= i < batch.len() ==> (#[trigger] batch[i]).len() >= 1,
    ensures
        read_table(table_text(schema, batch)) == seq![schema.names()] + rows_cells(batch),
        read_table(table_text(schema, batch)).len() == 1 + batch.len(),
{
    lemma_read_row(schema.names(), rows_text(batch));
    lemma_read_rows(batch);
}

/// The table of an extracted batch is read back as a header row of the
/// column names and one row per document that had a message, every row with
/// one cell per column of the schema.
pub proof fn lemma_extracted_table_reads_back(schema: SchemaView, docs: Seq<RawDocumentView>)
    requires
        schema.well_formed(),
    ensures
        read_table(table_text(schema, spec_extract(schema, docs))) == seq![schema.names()]
            + rows_cells(spec_extract(schema, docs)),
        read_table(table_text(schema, spec_extract(schema, docs))).len() <= 1 + docs.len(),
        forall|i: int|
            0 <= i < read_table(table_text(schema, spec_extract(schema, docs))).len()
                ==> (#[trigger] read_table(table_text(schema, spec_extract(schema, docs)))[i]).len()
                == schema.fields.len(),
{
    let batch = spec_extract(schema, docs);
    let rows = read_table(table_text(schema, batch));
    lemma_extract_widths(schema, docs);
    lemma_extract_len(schema, docs);
    lemma_table_reads_back(schema, batch);
    assert forall|i: int| 0 <= i < rows.len() implies (#[trigger] rows[i]).len()
        == schema.fields.len() by {
        if i > 0 {
            assert(rows[i] == rows_cells(batch)[i - 1]);
            assert(rows_cells(batch)[i - 1] == cells_of(batch[i - 1]));
        }
    }
}

} // verus!
