//! CSV files: a record with the names of the columns, and a record for each row.
use vstd::prelude::*;

use crate::ColumnMeta;
use crate::json::{cell, cell_of, column_names, json_tree, names_of, trees, Json};
use crate::save::chunks::{chunk_views, flat, lemma_flat_push};
use crate::save::columns::{
    cell_text, law_cell_texts, law_different_cells_have_different_texts, stringify_cell,
};
use crate::text::{signed_decimal, texts};

verus! {

/// The bytes that the `csv` crate writes for the fields of one record.
pub uninterp spec fn csv_fields(fields: Seq<Seq<char>>) -> Seq<u8>;

/// One record: its fields and a line feed.
pub open spec fn csv_record(fields: Seq<Seq<char>>) -> Seq<u8> {
    csv_fields(fields).push(0x0a)
}

/// `csv::Writer::write_record` into memory, with the default delimiter, quotes and line ends: the
/// bytes of the fields, which depend on nothing else, and a line feed. A first record written into
/// memory does not fail.
#[verifier::external_body]
fn write_record(fields: &Vec<String>) -> (r: Vec<u8>)
    ensures
        r@ == csv_fields(texts(fields@)).push(0x0a),
{
    let mut writer = csv::WriterBuilder::new().has_headers(false).from_writer(Vec::new());
    let _ = writer.write_record(fields);
    writer.into_inner().unwrap_or_default()
}

/// The fields of a row: the text of the cell of each column.
pub open spec fn row_fields(names: Seq<Seq<char>>, row: Json) -> Seq<Seq<char>> {
    Seq::new(
        names.len(),
        |i: int| cell_text(cell_of(row, names[i])),
    )
}

/// The records of some rows.
pub open spec fn csv_rows(names: Seq<Seq<char>>, rows: Seq<Json>) -> Seq<u8>
    decreases rows.len(),
{
    if rows.len() == 0 {
        seq![]
    } else {
        csv_rows(names, rows.drop_last()) + csv_record(row_fields(names, rows.last()))
    }
}

/// The record with the names of the columns, unless it has been written.
pub open spec fn csv_header(names: Seq<Seq<char>>, written: bool) -> Seq<u8> {
    if written {
        seq![]
    } else {
        csv_record(names)
    }
}

/// A whole file.
pub open spec fn csv_document(names: Seq<Seq<char>>, rows: Seq<Json>) -> Seq<u8> {
    csv_record(names) + csv_rows(names, rows)
}

/// The pieces of a file for some rows: a record for each, after the names of the columns unless
/// they have been written.
pub open spec fn csv_chunks(names: Seq<Seq<char>>, rows: Seq<Json>, written: bool) -> Seq<Seq<u8>>
    decreases rows.len(),
{
    if rows.len() > 0 {
        csv_chunks(names, rows.drop_last(), written).push(
            csv_record(row_fields(names, rows.last())),
        )
    } else if written {
        seq![]
    } else {
        seq![csv_record(names)]
    }
}

/// The pieces make up the names of the columns, if they are due, and the records of the rows.
pub proof fn lemma_csv_chunks(names: Seq<Seq<char>>, rows: Seq<Json>, written: bool)
    ensures
        flat(csv_chunks(names, rows, written)) == csv_header(names, written) + csv_rows(names, rows),
        csv_chunks(names, rows, written).len() == rows.len() + (if written {
            0int
        } else {
            1
        }),
    decreases rows.len(),
{
    let header = csv_header(names, written);
    if rows.len() > 0 {
        let before = csv_chunks(names, rows.drop_last(), written);
        let record = csv_record(row_fields(names, rows.last()));
        lemma_csv_chunks(names, rows.drop_last(), written);
        lemma_flat_push(before, record);
        assert(header + csv_rows(names, rows.drop_last()) + record =~= header + csv_rows(
            names,
            rows,
        ));
    } else {
        if !written {
            lemma_flat_push(seq![], csv_record(names));
            assert(Seq::<Seq<u8>>::empty().push(csv_record(names)) =~= seq![csv_record(names)]);
            assert(flat(seq![]) + csv_record(names) =~= csv_record(names));
        }
        assert(header + csv_rows(names, rows) =~= header);
    }
}

/// The record of a row.
fn row_record(columns: &[ColumnMeta], row: &serde_json::Value) -> (r: Vec<u8>)
    ensures
        r@ == csv_record(
            row_fields(column_names(columns@), json_tree(*row)),
        ),
{
    let ghost tree = json_tree(*row);
    let ghost names = column_names(columns@);
    let mut fields: Vec<String> = Vec::new();
    let mut i: usize = 0;
    while i < columns.len()
        invariant
            i <= columns.len(),
            tree == json_tree(*row),
            names == column_names(columns@),
            fields@.len() == i,
            forall|j: int|
                0 <= j < i ==> (#[trigger] fields@[j])@ == row_fields(names, tree)[j],
        decreases columns.len() - i,
    {
        fields.push(stringify_cell(cell(row, columns[i].name.as_str())));
        i = i + 1;
    }
    assert(texts(fields@) =~= row_fields(names, tree));
    write_record(&fields)
}

/// Writes rows as CSV: the names of the columns come before the first row.
pub struct CsvStreamingWriter {
    pub headers_written: bool,
}

impl CsvStreamingWriter {
    /// What to write for some rows, after the names of the columns if they have not been written:
    /// one piece for each record.
    pub fn write_batch(&self, columns: &[ColumnMeta], rows: &[serde_json::Value]) -> (r: Vec<
        Vec<u8>,
    >)
        ensures
            chunk_views(r@) == csv_chunks(
                column_names(columns@),
                trees(rows@),
                self.headers_written,
            ),
    {
        let ghost names = column_names(columns@);
        let ghost contents = trees(rows@);
        let mut r: Vec<Vec<u8>> = self.finish(columns);
        let mut i: usize = 0;
        assert(contents.take(0) =~= seq![]);
        while i < rows.len()
            invariant
                i <= rows.len(),
                names == column_names(columns@),
                contents == trees(rows@),
                chunk_views(r@) == csv_chunks(
                    names,
                    contents.take(i as int),
                    self.headers_written,
                ),
            decreases rows.len() - i,
        {
            let record: Vec<u8> = row_record(columns, &rows[i]);
            let ghost before = r@;
            r.push(record);
            proof {
                assert(contents.take(i + 1).drop_last() =~= contents.take(i as int));
                assert(contents.take(i + 1).last() == json_tree(rows@[i as int]));
                assert(chunk_views(r@) =~= chunk_views(before).push(record@));
            }
            i = i + 1;
        }
        assert(contents.take(contents.len() as int) =~= contents);
        r
    }

    /// What to write at the end: the names of the columns if they have not been written.
    pub fn finish(&self, columns: &[ColumnMeta]) -> (r: Vec<Vec<u8>>)
        ensures
            chunk_views(r@) == csv_chunks(column_names(columns@), seq![], self.headers_written),
    {
        let mut r: Vec<Vec<u8>> = Vec::new();
        if !self.headers_written {
            r.push(write_record(&names_of(columns)));
        }
        assert(chunk_views(r@) =~= csv_chunks(column_names(columns@), seq![], self.headers_written));
        r
    }

    /// Takes note that `done` pieces have been written: the first one holds the names of the
    /// columns, if they were due.
    pub fn advance(&mut self, done: usize)
        ensures
            final(self).headers_written == (old(self).headers_written || done > 0),
    {
        if done > 0 {
            self.headers_written = true;
        }
    }
}

/// It makes no difference in which batches the rows come.
pub proof fn law_csv_batches_join(
    names: Seq<Seq<char>>,
    first: Seq<Json>,
    second: Seq<Json>,
)
    ensures
        csv_rows(names, first + second) == csv_rows(names, first) + csv_rows(names, second),
    decreases second.len(),
{
    if second.len() == 0 {
        assert(first + second =~= first);
        assert(csv_rows(names, first) + csv_rows(names, second) =~= csv_rows(names, first));
    } else {
        law_csv_batches_join(names, first, second.drop_last());
        assert((first + second).drop_last() =~= first + second.drop_last());
        assert(csv_rows(names, first + second) =~= csv_rows(names, first) + csv_rows(
            names,
            second,
        ));
    }
}

/// Appending rows to a file gives the file that all the rows make: the names of the columns come
/// once.
pub proof fn law_csv_append_continues(
    names: Seq<Seq<char>>,
    first: Seq<Json>,
    second: Seq<Json>,
)
    ensures
        csv_document(names, first) + (csv_header(names, true) + csv_rows(names, second))
            == csv_document(names, first + second),
{
    law_csv_batches_join(names, first, second);
    assert(csv_document(names, first) + (csv_header(names, true) + csv_rows(names, second))
        =~= csv_document(names, first + second));
}

/// A row has a field for each column. The field of a cell that holds a text is that text, character
/// by character; that of an integer is its digits; a missing cell and a null have an empty field.
pub proof fn law_fields_hold_the_cells(
    names: Seq<Seq<char>>,
    row: Json,
    i: int,
    text: Seq<char>,
    n: int,
)
    requires
        0 <= i < names.len(),
    ensures
        row_fields(names, row).len() == names.len(),
        cell_of(row, names[i]) == Some(Json::Text(text)) ==> row_fields(names, row)[i] == text,
        cell_of(row, names[i]) == Some(Json::Float(text)) ==> row_fields(names, row)[i] == text,
        cell_of(row, names[i]) == Some(Json::Integer(n)) ==> row_fields(names, row)[i]
            == signed_decimal(n),
        cell_of(row, names[i]) == Some(Json::Bool(true)) ==> row_fields(names, row)[i]
            == seq!['t', 'r', 'u', 'e'],
        cell_of(row, names[i]) == Some(Json::Bool(false)) ==> row_fields(names, row)[i]
            == seq!['f', 'a', 'l', 's', 'e'],
        cell_of(row, names[i]) is None || cell_of(row, names[i]) == Some(Json::Null) ==> row_fields(
            names,
            row,
        )[i].len() == 0,
{
    law_cell_texts(text, n);
}

/// Two rows whose cells in a column hold different texts, or different integers, have different
/// fields there.
pub proof fn law_different_rows_have_different_fields(
    names: Seq<Seq<char>>,
    left: Json,
    right: Json,
    i: int,
)
    requires
        0 <= i < names.len(),
        cell_of(left, names[i]) != cell_of(right, names[i]),
        (cell_of(left, names[i]) is Some && cell_of(left, names[i])->0 is Text && cell_of(
            right,
            names[i],
        ) is Some && cell_of(right, names[i])->0 is Text) || (cell_of(left, names[i]) is Some
            && cell_of(left, names[i])->0 is Integer && cell_of(right, names[i]) is Some && cell_of(
            right,
            names[i],
        )->0 is Integer),
    ensures
        row_fields(names, left)[i] != row_fields(names, right)[i],
{
    match (cell_of(left, names[i])->0, cell_of(right, names[i])->0) {
        (Json::Text(one), Json::Text(other)) => {
            law_different_cells_have_different_texts(one, other, 0, 0);
        },
        (Json::Integer(one), Json::Integer(other)) => {
            law_different_cells_have_different_texts(seq![], seq![], one, other);
        },
        _ => {},
    }
}

/// A file begins with the record of the names, also where there are no rows; the record of a row
/// is its fields and a line feed.
pub proof fn law_records_of_a_file(names: Seq<Seq<char>>, rows: Seq<Json>, row: Json)
    ensures
        csv_document(names, seq![]) == csv_fields(names) + seq![0x0au8],
        csv_rows(names, seq![]).len() == 0,
        csv_rows(names, seq![row]) == csv_fields(row_fields(names, row)) + seq![0x0au8],
        csv_document(names, rows + seq![row]) == csv_document(names, rows) + csv_fields(
            row_fields(names, row),
        ) + seq![0x0au8],
        csv_header(names, false) == csv_fields(names) + seq![0x0au8],
        csv_header(names, true).len() == 0,
{
    let fields = csv_fields(row_fields(names, row));
    assert(csv_fields(names).push(0x0a) =~= csv_fields(names) + seq![0x0au8]);
    assert(fields.push(0x0a) =~= fields + seq![0x0au8]);
    assert(csv_document(names, seq![]) =~= csv_fields(names) + seq![0x0au8]);
    assert(seq![row].drop_last() =~= seq![]);
    assert(csv_rows(names, seq![row].drop_last()) =~= seq![]);
    assert(csv_rows(names, seq![row]) =~= fields + seq![0x0au8]);
    law_csv_batches_join(names, rows, seq![row]);
    assert(csv_document(names, rows + seq![row]) =~= csv_document(names, rows) + fields
        + seq![0x0au8]);
}

/// The pieces of some rows are the record of each, in their order, after that of the names where
/// they are due.
pub proof fn law_pieces_are_the_records(names: Seq<Seq<char>>, rows: Seq<Json>, i: int)
    requires
        0 <= i < rows.len(),
    ensures
        csv_chunks(names, rows, true).len() == rows.len(),
        csv_chunks(names, rows, false).len() == rows.len() + 1,
        csv_chunks(names, rows, true)[i] == csv_fields(row_fields(names, rows[i])) + seq![0x0au8],
        csv_chunks(names, rows, false)[i + 1] == csv_fields(row_fields(names, rows[i]))
            + seq![0x0au8],
        csv_chunks(names, rows, false)[0] == csv_fields(names) + seq![0x0au8],
        csv_chunks(names, seq![], true).len() == 0,
        csv_chunks(names, seq![], false) == seq![csv_fields(names) + seq![0x0au8]],
    decreases rows.len(),
{
    lemma_csv_chunks(names, rows, true);
    lemma_csv_chunks(names, rows, false);
    lemma_csv_chunks(names, rows.drop_last(), true);
    lemma_csv_chunks(names, rows.drop_last(), false);
    assert(csv_fields(names).push(0x0a) =~= csv_fields(names) + seq![0x0au8]);
    let fields = csv_fields(row_fields(names, rows[i]));
    assert(fields.push(0x0a) =~= fields + seq![0x0au8]);
    if i < rows.len() - 1 {
        law_pieces_are_the_records(names, rows.drop_last(), i);
    } else if rows.len() > 1 {
        law_pieces_are_the_records(names, rows.drop_last(), 0);
    } else {
        assert(rows.drop_last() =~= seq![]);
    }
}

} // verus!
