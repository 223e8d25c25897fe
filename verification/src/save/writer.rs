//! Saving a query result: how a file is opened, what is written to it while the rows come in, and
//! what at the end.
use vstd::prelude::*;
use vstd::string::*;

use crate::error::{state_error, DbNativeResult, Error};
use crate::json::{column_names, trees, Json};
use crate::save::chunks::{chunk_views, flat, lemma_flat_push};
use crate::save::columnar::{
    columnar_step, lemma_schema_has_the_types, settled_types, types_of, ColumnarStep,
    ColumnarStreamingWriter, ColumnarView,
};
use crate::save::columns::{
    build_record_batch, column_array, column_type, column_types, record_of, InferredColumnType,
    RecordColumns,
};
use crate::save::csv::{
    csv_chunks, csv_document, csv_header, csv_rows, law_csv_append_continues,
    law_csv_batches_join, lemma_csv_chunks, CsvStreamingWriter,
};
use crate::save::excel::{
    batch_view, end_view, result_plan, save_excel, BatchView, ExcelBatch, ExcelPlan,
    ExcelStreamingWriter,
};
use crate::save::format::{
    format_named, mode_named, unsupported_format, unsupported_mode, SaveFormat, SaveMode,
};
use crate::save::json_array::{
    all_blank, append_state, first_solid, inspect_json_array_for_append, is_json, json_chunks,
    json_document, json_items, last_solid, law_any_array_can_be_appended_to,
    law_json_append_continues, law_json_batches_join, lemma_json_chunks, JsonStreamingWriter,
};
use crate::stream::{clone_columns, joined};
use crate::text::{optional_str, same_text};
use crate::{column_views, ColumnMeta, QueryResult};

verus! {

/// What has been saved: where, in which format, and how many rows.
pub struct SaveResult {
    pub path: String,
    pub file_type: String,
    pub row_count: i64,
}

/// How to open a file.
pub enum OpenAction {
    /// Create the file, or empty it, and write the prefix.
    Create { prefix: Vec<u8> },
    /// Write at the end of the file, which is created if it is not there.
    Append,
    /// Keep the first bytes of the file, which is created if it is not there, drop the others, and
    /// write the prefix.
    Resume { keep: u64, prefix: Vec<u8> },
    /// Begin a workbook in memory.
    Workbook,
}

/// How a file is opened.
pub enum OpenView {
    Create { prefix: Seq<u8> },
    Append,
    Resume { keep: int, prefix: Seq<u8> },
    Workbook,
}

impl View for OpenAction {
    type V = OpenView;

    open spec fn view(&self) -> OpenView {
        match *self {
            OpenAction::Create { prefix } => OpenView::Create { prefix: prefix@ },
            OpenAction::Append => OpenView::Append,
            OpenAction::Resume { keep, prefix } => OpenView::Resume {
                keep: keep as int,
                prefix: prefix@,
            },
            OpenAction::Workbook => OpenView::Workbook,
        }
    }
}

/// What a file that is being written has got so far, for each kind of file.
pub enum StreamingSaveWriterInner {
    Csv(CsvStreamingWriter),
    Excel(ExcelStreamingWriter),
    Json(JsonStreamingWriter),
    Columnar(ColumnarStreamingWriter),
}

/// What a file that is being written has got so far.
pub enum InnerView {
    Csv { headers_written: bool },
    Excel { next_row_index: int, headers_written: bool },
    Json { wrote_any_row: bool },
    Columnar { types: Option<Seq<InferredColumnType>> },
}

impl View for StreamingSaveWriterInner {
    type V = InnerView;

    open spec fn view(&self) -> InnerView {
        match *self {
            StreamingSaveWriterInner::Csv(writer) => InnerView::Csv {
                headers_written: writer.headers_written,
            },
            StreamingSaveWriterInner::Excel(writer) => InnerView::Excel {
                next_row_index: writer.next_row_index as int,
                headers_written: writer.headers_written,
            },
            StreamingSaveWriterInner::Json(writer) => InnerView::Json {
                wrote_any_row: writer.wrote_any_row,
            },
            StreamingSaveWriterInner::Columnar(writer) => InnerView::Columnar {
                types: writer.types(),
            },
        }
    }
}

/// Why a file cannot be appended to.
pub open spec fn append_refusal(label: Seq<char>) -> Seq<char> {
    "Append mode is not supported for "@ + label
        + " exports. Please use overwrite, or choose csv/json when appending to an existing file."@
}

/// Refuses to append to a file that has anything in it.
pub fn ensure_existing_append_target_supported(
    target_len: u64,
    mode: SaveMode,
    format_label: &str,
) -> (r: DbNativeResult<()>)
    ensures
        match r {
            Ok(()) => mode != SaveMode::Append || target_len == 0,
            Err(error) => mode == SaveMode::Append && target_len > 0 && error.reason@
                == append_refusal(format_label@),
        },
{
    if mode != SaveMode::Append || target_len == 0 {
        return Ok(());
    }
    let mut reason: String = "Append mode is not supported for ".to_owned();
    reason.append(format_label);
    reason.append(
        " exports. Please use overwrite, or choose csv/json when appending to an existing file.",
    );
    Err(Error { reason })
}

/// How a file is opened and what it has got then, where `target_len` is its length, zero if it is
/// not there, and `contents` what it holds; or why it cannot be opened.
pub open spec fn opening(
    format: SaveFormat,
    mode: SaveMode,
    target_len: int,
    contents: Seq<u8>,
) -> Result<(InnerView, OpenView), Seq<char>> {
    let refused = mode == SaveMode::Append && target_len > 0;
    match format {
        SaveFormat::Csv => Ok(
            (
                InnerView::Csv { headers_written: refused },
                match mode {
                    SaveMode::Overwrite => OpenView::Create { prefix: seq![] },
                    SaveMode::Append => OpenView::Append,
                },
            ),
        ),
        SaveFormat::Excel => if refused {
            Err(append_refusal("excel/xlsx"@))
        } else {
            Ok(
                (
                    InnerView::Excel { next_row_index: 1, headers_written: false },
                    OpenView::Workbook,
                ),
            )
        },
        SaveFormat::Json => match mode {
            SaveMode::Overwrite => Ok(
                (
                    InnerView::Json { wrote_any_row: false },
                    OpenView::Create { prefix: seq![0x5bu8] },
                ),
            ),
            SaveMode::Append => if target_len == 0 {
                Ok(
                    (
                        InnerView::Json { wrote_any_row: false },
                        OpenView::Resume { keep: 0, prefix: seq![0x5bu8] },
                    ),
                )
            } else {
                match append_state(contents) {
                    Ok((position, has_rows)) => Ok(
                        (
                            InnerView::Json { wrote_any_row: has_rows },
                            OpenView::Resume { keep: position, prefix: seq![] },
                        ),
                    ),
                    Err(text) => Err(text),
                }
            },
        },
        SaveFormat::Orc => if refused {
            Err(append_refusal("orc"@))
        } else {
            Ok((InnerView::Columnar { types: None }, OpenView::Create { prefix: seq![] }))
        },
        SaveFormat::Parquet => if refused {
            Err(append_refusal("parquet"@))
        } else {
            Ok((InnerView::Columnar { types: None }, OpenView::Create { prefix: seq![] }))
        },
    }
}

/// The format and the mode that a request names.
pub fn parse_request(file_type: &str, mode: Option<&str>) -> (r: DbNativeResult<
    (SaveFormat, SaveMode),
>)
    ensures
        match r {
            Ok((format, parsed)) => format_named(file_type@) == Some(format)
                && mode_named(optional_str(mode)) == Some(parsed),
            Err(error) => if format_named(file_type@) is None {
                error.reason@ == unsupported_format(file_type@)
            } else {
                mode_named(optional_str(mode)) is None
                    && error.reason@ == unsupported_mode(
                    optional_str(mode)->0,
                )
            },
        },
{
    match SaveFormat::parse(file_type) {
        Ok(format) => match SaveMode::parse(mode) {
            Ok(parsed) => Ok((format, parsed)),
            Err(error) => Err(error),
        },
        Err(error) => Err(error),
    }
}

/// Whether what a file holds has to be known before it is opened: to append to a JSON array.
pub fn needs_contents(format: SaveFormat, mode: SaveMode) -> (r: bool)
    ensures
        r == (format == SaveFormat::Json && mode == SaveMode::Append),
{
    match (format, mode) {
        (SaveFormat::Json, SaveMode::Append) => true,
        _ => false,
    }
}

/// The columns of a file: those that are known, or else those that are given.
pub open spec fn settled_columns(
    known: Option<Seq<ColumnMeta>>,
    given: Seq<ColumnMeta>,
) -> Seq<ColumnMeta> {
    match known {
        Some(columns) => columns,
        None => given,
    }
}

/// Whether the given columns are those of the file; a batch may come without columns once they
/// are known.
pub open spec fn columns_agree(known: Option<Seq<ColumnMeta>>, given: Seq<ColumnMeta>) -> bool {
    match known {
        Some(columns) => given.len() == 0 || column_views(columns) == column_views(
            given,
        ),
        None => true,
    }
}

/// What to do with a file for some rows, or at the end.
pub enum SaveStep<'a> {
    /// Write the pieces.
    Bytes(Vec<Vec<u8>>),
    /// Write the cells into the worksheet.
    Cells(ExcelBatch<'a>),
    /// Begin the columnar file if there is a schema, and add the batch if there is one.
    Columns(ColumnarStep<'a>),
}

/// What is done with a file for some rows, or at the end.
pub enum StepView {
    Bytes(Seq<Seq<u8>>),
    Cells(BatchView),
    Columns(ColumnarView),
}

impl<'a> View for SaveStep<'a> {
    type V = StepView;

    open spec fn view(&self) -> StepView {
        match *self {
            SaveStep::Bytes(chunks) => StepView::Bytes(chunk_views(chunks@)),
            SaveStep::Cells(batch) => StepView::Cells(batch@),
            SaveStep::Columns(step) => StepView::Columns(step@),
        }
    }
}

impl StepView {
    /// The number of parts of a step: they are done one after the other.
    pub open spec fn parts(self) -> nat {
        match self {
            StepView::Bytes(chunks) => chunks.len(),
            StepView::Cells(batch) => batch.plan.writes.len(),
            StepView::Columns(step) => step.parts(),
        }
    }

    /// Whether a step ends in an error, since a worksheet has no room.
    pub open spec fn fails(self) -> bool {
        match self {
            StepView::Cells(batch) => batch.plan.error is Some,
            _ => false,
        }
    }

    /// Whether a step has been done as a whole.
    pub open spec fn completed(self, done: nat) -> bool {
        done == self.parts() && !self.fails()
    }

    /// The bytes that a step writes, to a file that is written as bytes.
    pub open spec fn bytes(self) -> Seq<u8> {
        match self {
            StepView::Bytes(chunks) => flat(chunks),
            _ => seq![],
        }
    }
}

impl<'a> SaveStep<'a> {
    /// The number of parts of the step: they are done one after the other.
    pub fn parts(&self) -> (r: usize)
        ensures
            r == self@.parts(),
    {
        match self {
            SaveStep::Bytes(chunks) => chunks.len(),
            SaveStep::Cells(batch) => batch.plan.writes.len(),
            SaveStep::Columns(step) => step.parts(),
        }
    }

    /// Whether the step ends in an error, since a worksheet has no room.
    pub fn fails(&self) -> (r: bool)
        ensures
            r == self@.fails(),
    {
        match self {
            SaveStep::Cells(batch) => batch.plan.error.is_some(),
            _ => false,
        }
    }
}

/// What to do with a file for some rows, and how many rows they are.
pub struct SaveBatch<'a> {
    pub step: SaveStep<'a>,
    pub row_count: usize,
}

impl InnerView {
    /// What is done for some rows.
    pub open spec fn batch_step(self, columns: Seq<ColumnMeta>, rows: Seq<Json>) -> StepView {
        let names = column_names(columns);
        match self {
            InnerView::Csv { headers_written } => StepView::Bytes(
                csv_chunks(names, rows, headers_written),
            ),
            InnerView::Json { wrote_any_row } => StepView::Bytes(json_chunks(rows, wrote_any_row)),
            InnerView::Excel { next_row_index, headers_written } => StepView::Cells(
                batch_view(names, rows, next_row_index, headers_written),
            ),
            InnerView::Columnar { types } => StepView::Columns(columnar_step(types, columns, rows)),
        }
    }

    /// What is done at the end.
    pub open spec fn end_step(self, columns: Seq<ColumnMeta>) -> StepView {
        let names = column_names(columns);
        match self {
            InnerView::Csv { headers_written } => StepView::Bytes(
                csv_chunks(names, seq![], headers_written),
            ),
            InnerView::Json { wrote_any_row } => StepView::Bytes(seq![seq![0x5du8]]),
            InnerView::Excel { next_row_index, headers_written } => StepView::Cells(
                end_view(names, next_row_index, headers_written),
            ),
            InnerView::Columnar { types } => StepView::Columns(
                columnar_step(types, columns, seq![]),
            ),
        }
    }

    /// What a file has got once `done` parts of a step have been done. The names of the columns
    /// and the items of an array count as soon as they are written; a worksheet moves on when a
    /// batch has been written as a whole.
    pub open spec fn advanced(self, step: StepView, done: nat) -> InnerView {
        match (self, step) {
            (InnerView::Csv { headers_written }, StepView::Bytes(_)) => InnerView::Csv {
                headers_written: headers_written || done > 0,
            },
            (InnerView::Json { wrote_any_row }, StepView::Bytes(_)) => InnerView::Json {
                wrote_any_row: wrote_any_row || done > 0,
            },
            (InnerView::Excel { .. }, StepView::Cells(batch)) => if step.completed(done) {
                InnerView::Excel { next_row_index: batch.next_row_index, headers_written: true }
            } else {
                self
            },
            (InnerView::Columnar { .. }, StepView::Columns(part)) => if part.schema is Some && done
                > 0 {
                InnerView::Columnar { types: Some(types_of(part.schema->0)) }
            } else {
                self
            },
            _ => self,
        }
    }

    /// What a file has got once what is due for some rows has been done as far as it goes.
    pub open spec fn after_batch(self, columns: Seq<ColumnMeta>, rows: Seq<Json>) -> InnerView {
        let step = self.batch_step(columns, rows);
        self.advanced(step, step.parts())
    }
}

/// Whether two lists of columns have the same names and types.
pub fn same_columns(left: &[ColumnMeta], right: &[ColumnMeta]) -> (r: bool)
    ensures
        r == (column_views(left@) == column_views(right@)),
{
    if left.len() != right.len() {
        assert(column_views(left@).len() != column_views(right@).len());
        return false;
    }
    let mut i: usize = 0;
    while i < left.len()
        invariant
            i <= left.len(),
            left.len() == right.len(),
            forall|j: int| 0 <= j < i ==> (#[trigger] left@[j])@ == right@[j]@,
        decreases left.len() - i,
    {
        let same: bool = same_text(left[i].name.as_str(), right[i].name.as_str()) && same_text(
            left[i].data_type.as_str(),
            right[i].data_type.as_str(),
        );
        if !same {
            proof {
                if column_views(left@) == column_views(right@) {
                    assert(column_views(left@)[i as int] == left@[i as int]@);
                    assert(column_views(right@)[i as int] == right@[i as int]@);
                }
            }
            return false;
        }
        i = i + 1;
    }
    assert(column_views(left@) =~= column_views(right@));
    true
}

/// Saves a query result while its rows come in.
pub struct StreamingSaveWriter {
    pub path: String,
    pub format: SaveFormat,
    pub row_count: i64,
    pub columns: Option<Vec<ColumnMeta>>,
    pub inner: StreamingSaveWriterInner,
}

/// The state of a `StreamingSaveWriter`: where the file is, its format, how many rows have been
/// written, the columns once they are known, and what the file has got so far.
pub struct WriterView {
    pub path: Seq<char>,
    pub format: SaveFormat,
    pub row_count: int,
    pub columns: Option<Seq<ColumnMeta>>,
    pub inner: InnerView,
}

impl View for StreamingSaveWriter {
    type V = WriterView;

    open spec fn view(&self) -> WriterView {
        WriterView {
            path: self.path@,
            format: self.format,
            row_count: self.row_count as int,
            columns: match self.columns {
                Some(found) => Some(found@),
                None => None,
            },
            inner: self.inner@,
        }
    }
}

impl WriterView {
    /// A writer that has written nothing.
    pub open spec fn start(path: Seq<char>, format: SaveFormat, inner: InnerView) -> WriterView {
        WriterView { path, format, row_count: 0, columns: None, inner }
    }

    /// After a batch with the given columns has come in.
    pub open spec fn with_columns(self, columns: Seq<ColumnMeta>) -> WriterView {
        WriterView { columns: Some(settled_columns(self.columns, columns)), ..self }
    }

    /// After `done` parts of what is due for a batch have been done. Its rows count when all of it
    /// has been.
    pub open spec fn advanced(self, step: StepView, row_count: int, done: nat) -> WriterView {
        WriterView {
            inner: self.inner.advanced(step, done),
            row_count: if step.completed(done) {
                self.row_count + row_count
            } else {
                self.row_count
            },
            ..self
        }
    }

    /// What is done for a batch.
    pub open spec fn step_for(self, columns: Seq<ColumnMeta>, rows: Seq<Json>) -> StepView {
        self.inner.batch_step(settled_columns(self.columns, columns), rows)
    }

    /// Whether a batch is accepted and there is room for it.
    pub open spec fn takes(self, columns: Seq<ColumnMeta>, rows: Seq<Json>) -> bool {
        columns_agree(self.columns, columns) && !self.step_for(columns, rows).fails()
    }

    /// After a batch has been written as a whole.
    pub open spec fn after(self, columns: Seq<ColumnMeta>, rows: Seq<Json>) -> WriterView {
        let step = self.step_for(columns, rows);
        self.with_columns(columns).advanced(step, rows.len() as int, step.parts())
    }
}

impl StreamingSaveWriter {
    /// The writer of a file, and how to open that; `target_len` is the length of the file, zero if
    /// it is not there. What the file holds is read only to append to a JSON array.
    pub fn new(
        file_type: &str,
        path: &str,
        mode: Option<&str>,
        target_len: u64,
        contents: &[u8],
    ) -> (r: DbNativeResult<(StreamingSaveWriter, OpenAction)>)
        requires
            format_named(file_type@) == Some(SaveFormat::Json) && mode_named(optional_str(mode))
                == Some(SaveMode::Append) ==> contents@.len() == target_len,
        ensures
            match (format_named(file_type@), mode_named(optional_str(mode))) {
                (None, _) => r matches Err(error) && error.reason@ == unsupported_format(
                    file_type@,
                ),
                (Some(_), None) => r matches Err(error) && error.reason@ == unsupported_mode(
                    optional_str(mode)->0,
                ),
                (Some(format), Some(parsed)) => match opening(
                    format,
                    parsed,
                    target_len as int,
                    contents@,
                ) {
                    Ok((inner, action)) => r matches Ok(opened) && opened.0@ == WriterView::start(
                        path@,
                        format,
                        inner,
                    ) && opened.1@ == action,
                    Err(text) => r matches Err(error) && error.reason@ == text,
                },
            },
    {
        let (format, mode) = match parse_request(file_type, mode) {
            Ok(request) => request,
            Err(error) => {
                return Err(error);
            },
        };
        match open_inner(format, mode, target_len, contents) {
            Ok((inner, action)) => {
                let writer = StreamingSaveWriter {
                    path: path.to_owned(),
                    format,
                    row_count: 0,
                    columns: None,
                    inner,
                };
                Ok((writer, action))
            },
            Err(error) => Err(error),
        }
    }

    /// Takes the columns of a batch: the first ones are kept, later ones have to be the same.
    fn ensure_columns(&mut self, columns: &[ColumnMeta]) -> (r: DbNativeResult<()>)
        ensures
            match r {
                Ok(()) => columns_agree(old(self)@.columns, columns@) && final(self)@ == old(
                    self,
                )@.with_columns(columns@),
                Err(error) => !columns_agree(old(self)@.columns, columns@) && error.reason@
                    == "Streaming save received inconsistent column metadata"@ && *final(self)
                    == *old(self),
            },
    {
        match &self.columns {
            Some(existing) => {
                if columns.len() == 0 || same_columns(existing.as_slice(), columns) {
                    return Ok(());
                }
                return Err(state_error("Streaming save received inconsistent column metadata"));
            },
            None => {},
        }
        self.columns = Some(clone_columns(columns));
        Ok(())
    }

    /// What to do with the file for some rows. How far that was done is told by `advance`: until
    /// then only the columns are settled.
    pub fn write_batch<'a>(&mut self, columns: &[ColumnMeta], rows: &'a [serde_json::Value]) -> (r:
        DbNativeResult<SaveBatch<'a>>)
        ensures
            match r {
                Ok(batch) => {
                    &&& columns_agree(old(self)@.columns, columns@)
                    &&& batch.step@ == old(self)@.step_for(columns@, trees(rows@))
                    &&& batch.row_count == rows@.len()
                    &&& final(self)@ == old(self)@.with_columns(columns@)
                    &&& old(self)@.inner is Json ==> forall|i: int|
                        0 <= i < rows@.len() ==> is_json(#[trigger] trees(rows@)[i])
                },
                Err(error) => {
                    &&& !columns_agree(old(self)@.columns, columns@)
                    &&& error.reason@ == "Streaming save received inconsistent column metadata"@
                    &&& *final(self) == *old(self)
                },
            },
    {
        if let Err(error) = self.ensure_columns(columns) {
            return Err(error);
        }
        let settled: Vec<ColumnMeta> = match &self.columns {
            Some(known) => clone_columns(known.as_slice()),
            None => clone_columns(columns),
        };
        let step = match &self.inner {
            StreamingSaveWriterInner::Csv(writer) => SaveStep::Bytes(
                writer.write_batch(settled.as_slice(), rows),
            ),
            StreamingSaveWriterInner::Excel(writer) => SaveStep::Cells(
                writer.write_batch(settled.as_slice(), rows),
            ),
            StreamingSaveWriterInner::Json(writer) => SaveStep::Bytes(writer.write_batch(rows)),
            StreamingSaveWriterInner::Columnar(writer) => SaveStep::Columns(
                writer.write_batch(settled.as_slice(), rows),
            ),
        };
        Ok(SaveBatch { step, row_count: rows.len() })
    }

    /// Takes note that `done` parts of what was due for a batch have been done: all of them, or
    /// those before the one that failed.
    pub fn advance<'a>(&mut self, batch: &SaveBatch<'a>, done: usize)
        requires
            batch.step@.completed(done as nat) ==> 0 <= old(self).row_count
                && old(self).row_count + batch.row_count <= i64::MAX,
        ensures
            final(self)@ == old(self)@.advanced(
                batch.step@,
                batch.row_count as int,
                done as nat,
            ),
    {
        match (&mut self.inner, &batch.step) {
            (StreamingSaveWriterInner::Csv(writer), SaveStep::Bytes(_)) => writer.advance(done),
            (StreamingSaveWriterInner::Json(writer), SaveStep::Bytes(_)) => writer.advance(done),
            (StreamingSaveWriterInner::Excel(writer), SaveStep::Cells(cells)) => writer.advance(
                cells,
                done,
            ),
            (StreamingSaveWriterInner::Columnar(writer), SaveStep::Columns(step)) => writer.advance(
                step,
                done,
            ),
            _ => {},
        }
        if done == batch.step.parts() && !batch.step.fails() {
            self.row_count = self.row_count + batch.row_count as i64;
        }
    }

    /// What to do with the file at the end, and what has been saved then.
    pub fn finish<'a>(self) -> (r: (SaveStep<'a>, SaveResult))
        ensures
            r.0@ == self@.inner.end_step(settled_columns(self@.columns, seq![])),
            r.1.path@ == self@.path,
            r.1.file_type@ == self@.format.name(),
            r.1.row_count == self@.row_count,
    {
        let columns: Vec<ColumnMeta> = match &self.columns {
            Some(known) => clone_columns(known.as_slice()),
            None => Vec::new(),
        };
        let step = match &self.inner {
            StreamingSaveWriterInner::Csv(writer) => SaveStep::Bytes(
                writer.finish(columns.as_slice()),
            ),
            StreamingSaveWriterInner::Excel(writer) => SaveStep::Cells(
                writer.finish(columns.as_slice()),
            ),
            StreamingSaveWriterInner::Json(writer) => SaveStep::Bytes(writer.finish()),
            StreamingSaveWriterInner::Columnar(writer) => SaveStep::Columns(
                writer.finish(columns.as_slice()),
            ),
        };
        let result = SaveResult {
            path: self.path,
            file_type: self.format.as_str().to_owned(),
            row_count: self.row_count,
        };
        (step, result)
    }
}

/// What a file has got when it is opened, and how to open it.
fn open_inner(format: SaveFormat, mode: SaveMode, target_len: u64, contents: &[u8]) -> (r:
    DbNativeResult<(StreamingSaveWriterInner, OpenAction)>)
    requires
        format == SaveFormat::Json && mode == SaveMode::Append ==> contents@.len() == target_len,
    ensures
        match opening(format, mode, target_len as int, contents@) {
            Ok((inner, action)) => r matches Ok(opened) && opened.0@ == inner && opened.1@ == action,
            Err(text) => r matches Err(error) && error.reason@ == text,
        },
{
    match format {
        SaveFormat::Csv => Ok(open_csv_streaming_writer(mode, target_len)),
        SaveFormat::Excel => match ensure_existing_append_target_supported(
            target_len,
            mode,
            "excel/xlsx",
        ) {
            Ok(()) => Ok(
                (
                    StreamingSaveWriterInner::Excel(ExcelStreamingWriter::new()),
                    OpenAction::Workbook,
                ),
            ),
            Err(error) => Err(error),
        },
        SaveFormat::Json => open_json_streaming_writer(mode, target_len, contents),
        SaveFormat::Orc => match ensure_existing_append_target_supported(target_len, mode, "orc") {
            Ok(()) => Ok(open_columnar()),
            Err(error) => Err(error),
        },
        SaveFormat::Parquet => match ensure_existing_append_target_supported(
            target_len,
            mode,
            "parquet",
        ) {
            Ok(()) => Ok(open_columnar()),
            Err(error) => Err(error),
        },
    }
}

fn open_csv_streaming_writer(mode: SaveMode, target_len: u64) -> (r: (
    StreamingSaveWriterInner,
    OpenAction,
))
    ensures
        opening(SaveFormat::Csv, mode, target_len as int, seq![]) == Ok::<
            (InnerView, OpenView),
            Seq<char>,
        >((r.0@, r.1@)),
{
    match mode {
        SaveMode::Overwrite => {
            let prefix: Vec<u8> = Vec::new();
            assert(prefix@ =~= seq![]);
            (
                StreamingSaveWriterInner::Csv(CsvStreamingWriter { headers_written: false }),
                OpenAction::Create { prefix },
            )
        },
        SaveMode::Append => (
            StreamingSaveWriterInner::Csv(CsvStreamingWriter { headers_written: target_len > 0 }),
            OpenAction::Append,
        ),
    }
}

fn open_json_streaming_writer(mode: SaveMode, target_len: u64, contents: &[u8]) -> (r:
    DbNativeResult<(StreamingSaveWriterInner, OpenAction)>)
    requires
        mode == SaveMode::Append ==> contents@.len() == target_len,
    ensures
        match opening(SaveFormat::Json, mode, target_len as int, contents@) {
            Ok((inner, action)) => r matches Ok(opened) && opened.0@ == inner && opened.1@ == action,
            Err(text) => r matches Err(error) && error.reason@ == text,
        },
{
    let mut prefix: Vec<u8> = Vec::new();
    match mode {
        SaveMode::Overwrite => {
            prefix.push(0x5b);
            assert(prefix@ =~= seq![0x5bu8]);
            Ok(
                (
                    StreamingSaveWriterInner::Json(JsonStreamingWriter { wrote_any_row: false }),
                    OpenAction::Create { prefix },
                ),
            )
        },
        SaveMode::Append => {
            if target_len == 0 {
                prefix.push(0x5b);
                assert(prefix@ =~= seq![0x5bu8]);
                return Ok(
                    (
                        StreamingSaveWriterInner::Json(
                            JsonStreamingWriter { wrote_any_row: false },
                        ),
                        OpenAction::Resume { keep: 0, prefix },
                    ),
                );
            }
            match inspect_json_array_for_append(contents) {
                Ok(state) => {
                    assert(prefix@ =~= seq![]);
                    Ok(
                        (
                            StreamingSaveWriterInner::Json(
                                JsonStreamingWriter { wrote_any_row: state.has_rows },
                            ),
                            OpenAction::Resume { keep: state.closing_bracket_pos, prefix },
                        ),
                    )
                },
                Err(error) => Err(error),
            }
        },
    }
}

fn open_columnar() -> (r: (StreamingSaveWriterInner, OpenAction))
    ensures
        r.0@ == (InnerView::Columnar { types: None }),
        r.1@ == (OpenView::Create { prefix: seq![] }),
{
    let prefix: Vec<u8> = Vec::new();
    assert(prefix@ =~= seq![]);
    (
        StreamingSaveWriterInner::Columnar(ColumnarStreamingWriter::new()),
        OpenAction::Create { prefix },
    )
}

/// The bytes that `serde_json::to_vec_pretty` gives of an array of values.
pub uninterp spec fn pretty_json_bytes(rows: Seq<Json>) -> Seq<u8>;

/// `serde_json::to_vec_pretty`: the rows as one JSON array, indented. The bytes are a function of
/// what the rows hold. Writing values does not fail.
#[verifier::external_body]
fn to_pretty_bytes(rows: &Vec<serde_json::Value>) -> (r: Vec<u8>)
    ensures
        r@ == pretty_json_bytes(trees(rows@)),
{
    serde_json::to_vec_pretty(rows).unwrap_or_default()
}

/// What to write for a whole result.
pub enum SaveOutput<'a> {
    /// A file of these pieces.
    Bytes(Vec<Vec<u8>>),
    /// A workbook with a worksheet of these cells.
    Cells(ExcelPlan<'a>),
    /// A columnar file of these columns.
    Columns(RecordColumns<'a>),
}

/// Whether an output is what is due for a whole result.
pub open spec fn output_due<'a>(
    output: SaveOutput<'a>,
    format: SaveFormat,
    columns: Seq<ColumnMeta>,
    rows: Seq<Json>,
) -> bool {
    let names = column_names(columns);
    match (format, output) {
        (SaveFormat::Csv, SaveOutput::Bytes(chunks)) => flat(chunk_views(chunks@)) == csv_document(
            names,
            rows,
        ),
        (SaveFormat::Json, SaveOutput::Bytes(chunks)) => flat(chunk_views(chunks@))
            == pretty_json_bytes(rows),
        (SaveFormat::Excel, SaveOutput::Cells(plan)) => plan@ == result_plan(
            names,
            rows,
        ),
        (SaveFormat::Orc | SaveFormat::Parquet, SaveOutput::Columns(record)) => {
            record@ == record_of(columns, rows, column_types(columns, rows))
        },
        _ => false,
    }
}

/// What to write for a whole result, and what has been saved then.
pub fn save_query_result<'a>(query_result: &'a QueryResult, file_type: &str, path: &str) -> (r:
    DbNativeResult<(SaveOutput<'a>, SaveResult)>)
    requires
        query_result.rows@.len() <= i64::MAX,
    ensures
        match format_named(file_type@) {
            Some(format) => r matches Ok(saved) && output_due(
                saved.0,
                format,
                query_result.columns@,
                trees(query_result.rows@),
            ) && saved.1.path@ == path@ && saved.1.file_type@ == format.name() && saved.1.row_count
                == query_result.rows@.len(),
            None => r matches Err(error) && error.reason@
                == unsupported_format(file_type@),
        },
{
    let format = match SaveFormat::parse(file_type) {
        Ok(format) => format,
        Err(error) => {
            return Err(error);
        },
    };
    let output = match format {
        SaveFormat::Csv => {
            let writer = CsvStreamingWriter { headers_written: false };
            let chunks = writer.write_batch(
                query_result.columns.as_slice(),
                query_result.rows.as_slice(),
            );
            proof {
                lemma_csv_chunks(
                    column_names(query_result.columns@),
                    trees(query_result.rows@),
                    false,
                );
            }
            SaveOutput::Bytes(chunks)
        },
        SaveFormat::Excel => SaveOutput::Cells(save_excel(query_result)),
        SaveFormat::Json => {
            let mut chunks: Vec<Vec<u8>> = Vec::new();
            let bytes: Vec<u8> = to_pretty_bytes(&query_result.rows);
            chunks.push(bytes);
            proof {
                assert(chunk_views(chunks@) =~= Seq::<Seq<u8>>::empty().push(bytes@));
                lemma_flat_push(Seq::<Seq<u8>>::empty(), bytes@);
                assert(flat(seq![]) + bytes@ =~= bytes@);
            }
            SaveOutput::Bytes(chunks)
        },
        SaveFormat::Orc => SaveOutput::Columns(build_record_batch(query_result)),
        SaveFormat::Parquet => SaveOutput::Columns(build_record_batch(query_result)),
    };
    let result = SaveResult {
        path: path.to_owned(),
        file_type: format.as_str().to_owned(),
        row_count: query_result.rows.len() as i64,
    };
    Ok((output, result))
}

/// A batch that has been written as a whole is what the file has got: the names of the columns are
/// written, a worksheet goes on after its rows, an array has items if there were rows, and the
/// types of a columnar file are settled.
pub proof fn law_written_batch_moves_on(
    inner: InnerView,
    columns: Seq<ColumnMeta>,
    rows: Seq<Json>,
)
    requires
        !inner.batch_step(columns, rows).fails(),
    ensures
        inner.after_batch(columns, rows) == (match inner {
            InnerView::Csv { .. } => InnerView::Csv { headers_written: true },
            InnerView::Excel { next_row_index, .. } => InnerView::Excel {
                next_row_index: next_row_index + rows.len(),
                headers_written: true,
            },
            InnerView::Json { wrote_any_row } => InnerView::Json {
                wrote_any_row: wrote_any_row || rows.len() > 0,
            },
            InnerView::Columnar { types } => InnerView::Columnar {
                types: Some(settled_types(types, columns, rows)),
            },
        }),
{
    match inner {
        InnerView::Csv { headers_written } => {
            lemma_csv_chunks(column_names(columns), rows, headers_written);
        },
        InnerView::Json { wrote_any_row } => {
            lemma_json_chunks(rows, wrote_any_row);
        },
        InnerView::Columnar { types } => {
            lemma_schema_has_the_types(columns, column_types(columns, rows));
        },
        _ => {},
    }
}

/// A batch that has not been written as a whole counts no rows, and a worksheet stays as it was.
/// Where nothing of it has been written, the file stays as it was in any format.
pub proof fn law_unfinished_batch_does_not_count(
    state: WriterView,
    columns: Seq<ColumnMeta>,
    rows: Seq<Json>,
    done: nat,
)
    requires
        !state.step_for(columns, rows).completed(done),
    ensures
        ({
            let after = state.with_columns(columns).advanced(
                state.step_for(columns, rows),
                rows.len() as int,
                done,
            );
            &&& after.row_count == state.row_count
            &&& state.inner is Excel ==> after.inner == state.inner
            &&& done == 0 ==> after.inner == state.inner
        }),
{
}

/// The columns of the first batch are those of the file, even if it has none. A later batch with
/// other columns is refused; one without columns takes those of the file. The columns stay, and
/// the rows of a batch that was written as a whole are added to the count.
pub proof fn law_later_batches_keep_the_columns(
    state: WriterView,
    first: Seq<ColumnMeta>,
    columns: Seq<ColumnMeta>,
    rows: Seq<Json>,
)
    requires
        state.columns == Some(first),
    ensures
        columns_agree(state.columns, columns) <==> columns.len() == 0 || column_views(columns)
            == column_views(first),
        state.step_for(columns, rows) == state.inner.batch_step(first, rows),
        state.with_columns(columns) == state,
        state.after(columns, rows).columns == Some(first),
        state.after(columns, rows).row_count == state.row_count + (if state.step_for(
            columns,
            rows,
        ).fails() {
            0
        } else {
            rows.len() as int
        }),
        (WriterView { columns: None, ..state }).with_columns(first) == state,
{
}

/// A batch as it comes in.
pub struct GivenBatch {
    pub columns: Seq<ColumnMeta>,
    pub rows: Seq<Json>,
}

/// A writer after some batches, each of which has been written as a whole.
pub open spec fn after_all(state: WriterView, batches: Seq<GivenBatch>) -> WriterView
    decreases batches.len(),
{
    if batches.len() == 0 {
        state
    } else {
        let batch = batches.first();
        after_all(state.after(batch.columns, batch.rows), batches.drop_first())
    }
}

/// Whether each of some batches is accepted in its turn and there is room for it.
pub open spec fn takes_all(state: WriterView, batches: Seq<GivenBatch>) -> bool
    decreases batches.len(),
{
    batches.len() > 0 ==> {
        let batch = batches.first();
        &&& state.takes(batch.columns, batch.rows)
        &&& takes_all(state.after(batch.columns, batch.rows), batches.drop_first())
    }
}

/// The number of rows of some batches.
pub open spec fn total_rows(batches: Seq<GivenBatch>) -> nat
    decreases batches.len(),
{
    if batches.len() == 0 {
        0
    } else {
        batches.first().rows.len() + total_rows(batches.drop_first())
    }
}

proof fn lemma_rows_add_up(state: WriterView, batches: Seq<GivenBatch>)
    requires
        takes_all(state, batches),
    ensures
        after_all(state, batches).row_count == state.row_count + total_rows(batches),
        after_all(state, batches).path == state.path,
        after_all(state, batches).format == state.format,
    decreases batches.len(),
{
    if batches.len() > 0 {
        let batch = batches.first();
        lemma_rows_add_up(state.after(batch.columns, batch.rows), batches.drop_first());
    }
}

/// What has been saved in the end: the file that was asked for, in the format that was asked for,
/// and the rows of all the batches, none if there were none. Rows that were in the file before do
/// not count.
pub proof fn law_saved_rows_are_counted(
    path: Seq<char>,
    format: SaveFormat,
    mode: SaveMode,
    target_len: int,
    contents: Seq<u8>,
    batches: Seq<GivenBatch>,
)
    requires
        opening(format, mode, target_len, contents) matches Ok((inner, action)) && takes_all(
            WriterView::start(path, format, inner),
            batches,
        ),
    ensures
        opening(format, mode, target_len, contents) matches Ok((inner, action)) && {
            let end = after_all(WriterView::start(path, format, inner), batches);
            &&& end.path == path
            &&& end.format == format
            &&& end.row_count == total_rows(batches)
        },
{
    match opening(format, mode, target_len, contents) {
        Ok((inner, action)) => {
            lemma_rows_add_up(WriterView::start(path, format, inner), batches);
        },
        Err(_) => {},
    }
}

/// The bytes that are written while the rows of some batches come in, and at the end.
pub open spec fn run_bytes(
    inner: InnerView,
    columns: Seq<ColumnMeta>,
    batches: Seq<Seq<Json>>,
) -> Seq<u8>
    decreases batches.len(),
{
    if batches.len() == 0 {
        inner.end_step(columns).bytes()
    } else {
        inner.batch_step(columns, batches.first()).bytes() + run_bytes(
            inner.after_batch(columns, batches.first()),
            columns,
            batches.drop_first(),
        )
    }
}

/// What a file in a format that is written as bytes holds.
pub open spec fn document(
    format: SaveFormat,
    names: Seq<Seq<char>>,
    rows: Seq<Json>,
) -> Seq<u8> {
    match format {
        SaveFormat::Csv => csv_document(names, rows),
        SaveFormat::Json => json_document(rows),
        _ => seq![],
    }
}

/// What is left of a file, with what is written when it is opened.
pub open spec fn opened_bytes(action: OpenView, contents: Seq<u8>) -> Seq<u8> {
    match action {
        OpenView::Create { prefix } => prefix,
        OpenView::Append => contents,
        OpenView::Resume { keep, prefix } => contents.take(keep) + prefix,
        OpenView::Workbook => seq![],
    }
}

proof fn lemma_csv_run(
    headers_written: bool,
    columns: Seq<ColumnMeta>,
    batches: Seq<Seq<Json>>,
)
    ensures
        ({
            let names = column_names(columns);
            run_bytes(InnerView::Csv { headers_written }, columns, batches)
                == csv_header(names, headers_written)
                + csv_rows(names, joined(batches))
        }),
    decreases batches.len(),
{
    let names = column_names(columns);
    let header = csv_header(names, headers_written);
    let inner = InnerView::Csv { headers_written };
    if batches.len() == 0 {
        lemma_csv_chunks(names, seq![], headers_written);
        assert(header + csv_rows(names, seq![]) =~= header);
    } else {
        let rest = batches.drop_first();
        lemma_csv_chunks(names, batches.first(), headers_written);
        law_written_batch_moves_on(inner, columns, batches.first());
        lemma_csv_run(true, columns, rest);
        law_csv_batches_join(names, batches.first(), joined(rest));
        assert(run_bytes(inner, columns, batches) =~= header + csv_rows(
            names,
            joined(batches),
        ));
    }
}

proof fn lemma_json_run(
    wrote_any_row: bool,
    columns: Seq<ColumnMeta>,
    batches: Seq<Seq<Json>>,
)
    ensures
        run_bytes(InnerView::Json { wrote_any_row }, columns, batches)
            == json_items(joined(batches), wrote_any_row) + seq![0x5du8],
    decreases batches.len(),
{
    let inner = InnerView::Json { wrote_any_row };
    if batches.len() == 0 {
        lemma_flat_push(Seq::<Seq<u8>>::empty(), seq![0x5du8]);
        assert(Seq::<Seq<u8>>::empty().push(seq![0x5du8]) =~= seq![seq![0x5du8]]);
        assert(flat(seq![]) + seq![0x5du8] =~= seq![0x5du8]);
        assert(json_items(seq![], wrote_any_row) + seq![0x5du8]
            =~= seq![0x5du8]);
    } else {
        let rest = batches.drop_first();
        let wrote = wrote_any_row || batches.first().len() > 0;
        lemma_json_chunks(batches.first(), wrote_any_row);
        law_written_batch_moves_on(inner, columns, batches.first());
        lemma_json_run(wrote, columns, rest);
        law_json_batches_join(batches.first(), joined(rest), wrote_any_row);
        assert(run_bytes(inner, columns, batches) =~= json_items(
            joined(batches),
            wrote_any_row,
        ) + seq![0x5du8]);
    }
}

/// A CSV or JSON file that is overwritten holds the rows of all the batches, whatever it held
/// before.
pub proof fn law_saved_file_holds_the_rows(
    format: SaveFormat,
    columns: Seq<ColumnMeta>,
    batches: Seq<Seq<Json>>,
    target_len: int,
    contents: Seq<u8>,
)
    requires
        format == SaveFormat::Csv || format == SaveFormat::Json,
    ensures
        opening(format, SaveMode::Overwrite, target_len, contents) matches Ok((inner, action))
            && opened_bytes(action, contents) + run_bytes(inner, columns, batches) == document(
            format,
            column_names(columns),
            joined(batches),
        ),
{
    lemma_csv_run(false, columns, batches);
    lemma_json_run(false, columns, batches);
    let names = column_names(columns);
    match opening(format, SaveMode::Overwrite, target_len, contents) {
        Ok((inner, action)) => {
            assert(opened_bytes(action, contents) + run_bytes(inner, columns, batches) =~= document(
                format,
                names,
                joined(batches),
            ));
        },
        Err(_) => {},
    }
}

/// A CSV or JSON file that is not there, or is empty, can be appended to: it then holds the rows
/// of all the batches.
pub proof fn law_append_begins_an_empty_file(
    format: SaveFormat,
    columns: Seq<ColumnMeta>,
    batches: Seq<Seq<Json>>,
)
    requires
        format == SaveFormat::Csv || format == SaveFormat::Json,
    ensures
        opening(format, SaveMode::Append, 0, seq![]) matches Ok((inner, action)) && opened_bytes(
            action,
            seq![],
        ) + run_bytes(inner, columns, batches) == document(
            format,
            column_names(columns),
            joined(batches),
        ),
{
    lemma_csv_run(false, columns, batches);
    lemma_json_run(false, columns, batches);
    let names = column_names(columns);
    match opening(format, SaveMode::Append, 0, seq![]) {
        Ok((inner, action)) => {
            assert(opened_bytes(action, seq![]) + run_bytes(inner, columns, batches) =~= document(
                format,
                names,
                joined(batches),
            ));
        },
        Err(_) => {},
    }
}

/// A CSV or JSON file that was saved can be appended to: it then holds the rows from before and
/// those of all the batches, as if they had been saved at once.
pub proof fn law_append_continues_a_saved_file(
    format: SaveFormat,
    columns: Seq<ColumnMeta>,
    first: Seq<Json>,
    batches: Seq<Seq<Json>>,
)
    requires
        format == SaveFormat::Csv || format == SaveFormat::Json,
        format == SaveFormat::Json ==> forall|i: int|
            0 <= i < first.len() ==> is_json(#[trigger] first[i]),
    ensures
        ({
            let names = column_names(columns);
            let contents = document(format, names, first);
            opening(format, SaveMode::Append, contents.len() as int, contents) matches Ok(
                (inner, action),
            ) && opened_bytes(action, contents) + run_bytes(inner, columns, batches) == document(
                format,
                names,
                first + joined(batches),
            )
        }),
{
    let names = column_names(columns);
    let contents = document(format, names, first);
    lemma_csv_run(true, columns, batches);
    lemma_json_run(first.len() > 0, columns, batches);
    law_csv_append_continues(names, first, joined(batches));
    if format == SaveFormat::Json {
        law_json_append_continues(first, joined(batches));
    }
    match opening(format, SaveMode::Append, contents.len() as int, contents) {
        Ok((inner, action)) => {
            assert(opened_bytes(action, contents) + run_bytes(inner, columns, batches) =~= document(
                format,
                names,
                first + joined(batches),
            ));
        },
        Err(_) => {},
    }
}

/// A JSON array in a file that something else has written can be appended to as well: what stands
/// before its closing bracket stays, the rows of all the batches follow, after a comma if there
/// are items before them, and the array is closed again.
pub proof fn law_append_continues_any_array(
    columns: Seq<ColumnMeta>,
    contents: Seq<u8>,
    batches: Seq<Seq<Json>>,
)
    requires
        append_state(contents) is Ok,
    ensures
        append_state(contents) matches Ok((position, has_rows)) && opening(
            SaveFormat::Json,
            SaveMode::Append,
            contents.len() as int,
            contents,
        ) matches Ok((inner, action)) && opened_bytes(action, contents) + run_bytes(
            inner,
            columns,
            batches,
        ) == contents.take(position) + json_items(joined(batches), has_rows) + seq![0x5du8],
{
    match append_state(contents) {
        Ok((position, has_rows)) => {
            lemma_json_run(has_rows, columns, batches);
            assert(contents.len() > 0) by {
                if contents.len() == 0 {
                    assert(first_solid(contents) is None);
                }
            }
            let kept = contents.take(position);
            let items = json_items(joined(batches), has_rows);
            assert(kept + Seq::<u8>::empty() + (items + seq![0x5du8]) =~= kept + items
                + seq![0x5du8]);
        },
        Err(_) => {},
    }
}

/// The layout of an array makes no difference to what is appended: with white space around it and
/// within it, its items stay as they stand, and the rows of all the batches come after them.
pub proof fn law_append_keeps_the_layout_of_an_array(
    columns: Seq<ColumnMeta>,
    lead: Seq<u8>,
    body: Seq<u8>,
    trail: Seq<u8>,
    batches: Seq<Seq<Json>>,
)
    requires
        all_blank(lead),
        all_blank(trail),
        last_solid(body) matches Some(i) ==> body[i] != 0x5b,
    ensures
        ({
            let contents = lead + seq![0x5bu8] + body + seq![0x5du8] + trail;
            opening(SaveFormat::Json, SaveMode::Append, contents.len() as int, contents) matches Ok(
                (inner, action),
            ) && opened_bytes(action, contents) + run_bytes(inner, columns, batches) == lead
                + seq![0x5bu8] + body + json_items(joined(batches), last_solid(body) is Some)
                + seq![0x5du8]
        }),
{
    let contents = lead + seq![0x5bu8] + body + seq![0x5du8] + trail;
    law_any_array_can_be_appended_to(lead, body, trail);
    law_append_continues_any_array(columns, contents, batches);
    let position = (lead.len() + 1 + body.len()) as int;
    assert(contents.take(position) =~= lead + seq![0x5bu8] + body);
}

/// A file in another format that has anything in it cannot be appended to; it can be overwritten.
pub proof fn law_append_is_refused_for_other_formats(
    format: SaveFormat,
    target_len: int,
    contents: Seq<u8>,
)
    requires
        format != SaveFormat::Csv,
        format != SaveFormat::Json,
        target_len > 0,
    ensures
        opening(format, SaveMode::Append, target_len, contents) == Err::<
            (InnerView, OpenView),
            Seq<char>,
        >(
            append_refusal(
                if format == SaveFormat::Excel {
                    "excel/xlsx"@
                } else {
                    format.name()
                },
            ),
        ),
        opening(format, SaveMode::Overwrite, target_len, contents) is Ok,
{
}

/// A CSV file that is overwritten is created and gets the names; one that is appended to is written
/// at its end, and gets the names exactly where it is empty.
pub proof fn law_opening_of_csv_files(target_len: int, contents: Seq<u8>)
    requires
        target_len >= 0,
    ensures
        opening(SaveFormat::Csv, SaveMode::Overwrite, target_len, contents) == Ok::<
            (InnerView, OpenView),
            Seq<char>,
        >((InnerView::Csv { headers_written: false }, OpenView::Create { prefix: seq![] })),
        opening(SaveFormat::Csv, SaveMode::Append, target_len, contents) == Ok::<
            (InnerView, OpenView),
            Seq<char>,
        >((InnerView::Csv { headers_written: target_len > 0 }, OpenView::Append)),
{
}

/// A JSON file that is overwritten is created with an opening bracket, and one that is empty gets
/// it when it is appended to. An array is cut off before its closing bracket, which has items where
/// the array has; anything else is refused for the reason that it is no array.
pub proof fn law_opening_of_json_files(target_len: int, contents: Seq<u8>)
    requires
        target_len >= 0,
    ensures
        opening(SaveFormat::Json, SaveMode::Overwrite, target_len, contents) == Ok::<
            (InnerView, OpenView),
            Seq<char>,
        >(
            (
                InnerView::Json { wrote_any_row: false },
                OpenView::Create { prefix: seq!['[' as u8] },
            ),
        ),
        target_len == 0 ==> opening(SaveFormat::Json, SaveMode::Append, target_len, contents)
            == Ok::<(InnerView, OpenView), Seq<char>>(
            (
                InnerView::Json { wrote_any_row: false },
                OpenView::Resume { keep: 0, prefix: seq!['[' as u8] },
            ),
        ),
        target_len > 0 && append_state(contents) is Ok ==> opening(
            SaveFormat::Json,
            SaveMode::Append,
            target_len,
            contents,
        ) == Ok::<(InnerView, OpenView), Seq<char>>(
            (
                InnerView::Json { wrote_any_row: append_state(contents)->Ok_0.1 },
                OpenView::Resume { keep: append_state(contents)->Ok_0.0, prefix: seq![] },
            ),
        ),
        target_len > 0 && append_state(contents) is Err ==> opening(
            SaveFormat::Json,
            SaveMode::Append,
            target_len,
            contents,
        ) == Err::<(InnerView, OpenView), Seq<char>>(append_state(contents)->Err_0),
{
}

/// A worksheet begins after its first row, which is for the names, and a columnar file without any
/// types; both are made anew, also in place of an empty file that is appended to.
pub proof fn law_opening_of_other_files(mode: SaveMode, target_len: int, contents: Seq<u8>)
    requires
        mode == SaveMode::Overwrite || target_len == 0,
    ensures
        opening(SaveFormat::Excel, mode, target_len, contents) == Ok::<
            (InnerView, OpenView),
            Seq<char>,
        >((InnerView::Excel { next_row_index: 1, headers_written: false }, OpenView::Workbook)),
        opening(SaveFormat::Orc, mode, target_len, contents) == Ok::<
            (InnerView, OpenView),
            Seq<char>,
        >((InnerView::Columnar { types: None }, OpenView::Create { prefix: seq![] })),
        opening(SaveFormat::Parquet, mode, target_len, contents) == Ok::<
            (InnerView, OpenView),
            Seq<char>,
        >((InnerView::Columnar { types: None }, OpenView::Create { prefix: seq![] })),
{
}

/// A refusal to append names the format.
pub proof fn law_refusal_names_the_format(label: Seq<char>)
    ensures
        append_refusal(label) == "Append mode is not supported for "@ + (label
            + " exports. Please use overwrite, or choose csv/json when appending to an existing file."@),
{
    assert(append_refusal(label) =~= "Append mode is not supported for "@ + (label
        + " exports. Please use overwrite, or choose csv/json when appending to an existing file."@));
}

/// What is done for some rows: a piece for each record or item, the cells of the worksheet from its
/// next row on, or the columns of the types that are settled.
pub proof fn law_step_of_a_batch(
    columns: Seq<ColumnMeta>,
    rows: Seq<Json>,
    flag: bool,
    next: int,
    types: Option<Seq<InferredColumnType>>,
)
    ensures
        (InnerView::Csv { headers_written: flag }).batch_step(columns, rows) == StepView::Bytes(
            csv_chunks(column_names(columns), rows, flag),
        ),
        (InnerView::Json { wrote_any_row: flag }).batch_step(columns, rows) == StepView::Bytes(
            json_chunks(rows, flag),
        ),
        (InnerView::Excel { next_row_index: next, headers_written: flag }).batch_step(columns, rows)
            == StepView::Cells(batch_view(column_names(columns), rows, next, flag)),
        (InnerView::Columnar { types }).batch_step(columns, rows) == StepView::Columns(
            columnar_step(types, columns, rows),
        ),
{
}

/// What is done at the end is what is done for no rows, but for an array, which is closed, and a
/// worksheet without columns, which gets nothing.
pub proof fn law_step_at_the_end(
    columns: Seq<ColumnMeta>,
    flag: bool,
    next: int,
    types: Option<Seq<InferredColumnType>>,
)
    ensures
        (InnerView::Csv { headers_written: flag }).end_step(columns) == (InnerView::Csv {
            headers_written: flag,
        }).batch_step(columns, seq![]),
        (InnerView::Json { wrote_any_row: flag }).end_step(columns) == StepView::Bytes(
            seq![seq![']' as u8]],
        ),
        !flag && columns.len() > 0 ==> (InnerView::Excel {
            next_row_index: next,
            headers_written: flag,
        }).end_step(columns) == (InnerView::Excel {
            next_row_index: next,
            headers_written: flag,
        }).batch_step(columns, seq![]),
        flag || columns.len() == 0 ==> (InnerView::Excel {
            next_row_index: next,
            headers_written: flag,
        }).end_step(columns).parts() == 0 && !(InnerView::Excel {
            next_row_index: next,
            headers_written: flag,
        }).end_step(columns).fails(),
        (InnerView::Columnar { types }).end_step(columns) == (InnerView::Columnar {
            types,
        }).batch_step(columns, seq![]),
{
    assert(column_names(columns).len() == columns.len());
}

/// How far a step has been done counts: the first piece is the names of a CSV file or an item of an
/// array, the first part of a columnar file that is begun is its schema, and a worksheet moves on
/// only when all of its cells have been written and there was room.
pub proof fn law_parts_that_are_done_count(
    flag: bool,
    next: int,
    types: Option<Seq<InferredColumnType>>,
    chunks: Seq<Seq<u8>>,
    cells: BatchView,
    step: ColumnarView,
    done: nat,
)
    ensures
        (InnerView::Csv { headers_written: flag }).advanced(StepView::Bytes(chunks), done) == (
        InnerView::Csv { headers_written: flag || done > 0 }),
        (InnerView::Json { wrote_any_row: flag }).advanced(StepView::Bytes(chunks), done) == (
        InnerView::Json { wrote_any_row: flag || done > 0 }),
        (InnerView::Excel { next_row_index: next, headers_written: flag }).advanced(
            StepView::Cells(cells),
            done,
        ) == (if cells.plan.error is None && done == cells.plan.writes.len() {
            InnerView::Excel { next_row_index: cells.next_row_index, headers_written: true }
        } else {
            InnerView::Excel { next_row_index: next, headers_written: flag }
        }),
        (InnerView::Columnar { types }).advanced(StepView::Columns(step), done) == (
        match step.schema {
            Some(fields) => if done > 0 {
                InnerView::Columnar { types: Some(types_of(fields)) }
            } else {
                InnerView::Columnar { types }
            },
            None => InnerView::Columnar { types },
        }),
{
}

/// A step has as many parts as it has pieces, cells, or things to do with a columnar file; it fails
/// exactly where a worksheet has no room, and it has been done as a whole where all of its parts
/// have been and it does not fail.
pub proof fn law_parts_of_a_save_step(
    chunks: Seq<Seq<u8>>,
    cells: BatchView,
    columnar: ColumnarView,
    step: StepView,
    done: nat,
)
    ensures
        StepView::Bytes(chunks).parts() == chunks.len(),
        StepView::Cells(cells).parts() == cells.plan.writes.len(),
        StepView::Columns(columnar).parts() == columnar.parts(),
        !StepView::Bytes(chunks).fails(),
        StepView::Cells(cells).fails() <==> cells.plan.error is Some,
        !StepView::Columns(columnar).fails(),
        step.completed(done) <==> done == step.parts() && !step.fails(),
        StepView::Bytes(chunks).bytes() == flat(chunks),
{
}

/// A writer begins with no rows and no columns. The first columns that come are kept, whatever
/// comes later, and nothing else changes; any columns are accepted while none are known.
pub proof fn law_first_columns_are_kept(
    state: WriterView,
    path: Seq<char>,
    format: SaveFormat,
    inner: InnerView,
    first: Seq<ColumnMeta>,
    second: Seq<ColumnMeta>,
)
    ensures
        WriterView::start(path, format, inner).path == path,
        WriterView::start(path, format, inner).format == format,
        WriterView::start(path, format, inner).row_count == 0,
        WriterView::start(path, format, inner).columns is None,
        WriterView::start(path, format, inner).inner == inner,
        WriterView::start(path, format, inner).with_columns(first).with_columns(second).columns
            == Some(first),
        state.with_columns(first).path == state.path,
        state.with_columns(first).format == state.format,
        state.with_columns(first).row_count == state.row_count,
        state.with_columns(first).inner == state.inner,
        settled_columns(None, first) == first,
        settled_columns(Some(first), second) == first,
        columns_agree(None, first),
        columns_agree(Some(first), seq![]),
        columns_agree(Some(first), first),
{
}

/// Columns agree with those of a file exactly where there are none, or as many with the same names
/// and types in the same order.
pub proof fn law_columns_agree_by_name_and_type(first: Seq<ColumnMeta>, given: Seq<ColumnMeta>)
    ensures
        columns_agree(Some(first), given) <==> given.len() == 0 || (given.len() == first.len() && (
        forall|i: int|
            0 <= i < given.len() ==> (#[trigger] given[i]).name@ == first[i].name@
                && given[i].data_type@ == first[i].data_type@)),
{
    let left = column_views(first);
    let right = column_views(given);
    assert(left.len() == first.len() && right.len() == given.len());
    if left == right {
        assert forall|i: int| 0 <= i < given.len() implies (#[trigger] given[i]).name@
            == first[i].name@ && given[i].data_type@ == first[i].data_type@ by {
            assert(left[i] == right[i]);
        }
    }
    if given.len() == first.len() && (forall|i: int|
        0 <= i < given.len() ==> (#[trigger] given[i]).name@ == first[i].name@
            && given[i].data_type@ == first[i].data_type@) {
        assert forall|i: int| 0 <= i < left.len() implies left[i] == right[i] by {
            assert(given[i].name@ == first[i].name@);
        }
        assert(left =~= right);
    }
}

/// The rows of a batch are counted exactly where all of it has been done and there was room; where
/// the file is, its format and its columns stay.
pub proof fn law_rows_count_when_done(
    state: WriterView,
    step: StepView,
    row_count: int,
    done: nat,
)
    ensures
        state.advanced(step, row_count, done).row_count == (if done == step.parts() && !step.fails() {
            state.row_count + row_count
        } else {
            state.row_count
        }),
        state.advanced(step, row_count, done).path == state.path,
        state.advanced(step, row_count, done).format == state.format,
        state.advanced(step, row_count, done).columns == state.columns,
        state.advanced(step, row_count, done).inner == state.inner.advanced(step, done),
{
}

/// A CSV file of a whole result is the record of the names and one of each row, a JSON file the
/// indented array of the rows, a workbook the plan of the result, and a columnar file an array for
/// each column, of the type of its values.
pub proof fn law_output_of_a_result<'a>(
    columns: Seq<ColumnMeta>,
    rows: Seq<Json>,
    chunks: Vec<Vec<u8>>,
    plan: ExcelPlan<'a>,
    record: RecordColumns<'a>,
    i: int,
)
    requires
        0 <= i < columns.len(),
    ensures
        output_due(SaveOutput::Bytes(chunks), SaveFormat::Csv, columns, rows) <==> flat(
            chunk_views(chunks@),
        ) == csv_document(column_names(columns), rows),
        output_due(SaveOutput::Bytes(chunks), SaveFormat::Json, columns, rows) <==> flat(
            chunk_views(chunks@),
        ) == pretty_json_bytes(rows),
        output_due(SaveOutput::Cells(plan), SaveFormat::Excel, columns, rows) <==> plan@
            == result_plan(column_names(columns), rows),
        output_due(SaveOutput::Columns(record), SaveFormat::Orc, columns, rows) <==> output_due(
            SaveOutput::Columns(record),
            SaveFormat::Parquet,
            columns,
            rows,
        ),
        output_due(SaveOutput::Columns(record), SaveFormat::Orc, columns, rows) ==> {
            &&& record@.schema.len() == columns.len()
            &&& record@.arrays.len() == columns.len()
            &&& record@.schema[i].name == columns[i].name@
            &&& record@.schema[i].data_type == column_type(rows, columns[i].name@)
            &&& record@.schema[i].nullable
            &&& record@.arrays[i] == column_array(
                rows,
                columns[i].name@,
                column_type(rows, columns[i].name@),
            )
        },
        !output_due(SaveOutput::Cells(plan), SaveFormat::Csv, columns, rows),
        !output_due(SaveOutput::Columns(record), SaveFormat::Csv, columns, rows),
        !output_due(SaveOutput::Cells(plan), SaveFormat::Json, columns, rows),
        !output_due(SaveOutput::Columns(record), SaveFormat::Json, columns, rows),
        !output_due(SaveOutput::Bytes(chunks), SaveFormat::Excel, columns, rows),
        !output_due(SaveOutput::Columns(record), SaveFormat::Excel, columns, rows),
        !output_due(SaveOutput::Bytes(chunks), SaveFormat::Orc, columns, rows),
        !output_due(SaveOutput::Cells(plan), SaveFormat::Orc, columns, rows),
{
}

/// What is seen of a writer and of how a file is opened is what their fields hold.
pub proof fn law_writer_is_seen_as_it_is(writer: StreamingSaveWriter, action: OpenAction)
    ensures
        writer@.path == writer.path@,
        writer@.format == writer.format,
        writer@.row_count == writer.row_count,
        writer@.columns is Some <==> writer.columns is Some,
        writer.columns matches Some(columns) ==> writer@.columns == Some(columns@),
        match writer.inner {
            StreamingSaveWriterInner::Csv(inner) => writer@.inner == (InnerView::Csv {
                headers_written: inner.headers_written,
            }),
            StreamingSaveWriterInner::Excel(inner) => writer@.inner == (InnerView::Excel {
                next_row_index: inner.next_row_index as int,
                headers_written: inner.headers_written,
            }),
            StreamingSaveWriterInner::Json(inner) => writer@.inner == (InnerView::Json {
                wrote_any_row: inner.wrote_any_row,
            }),
            StreamingSaveWriterInner::Columnar(inner) => writer@.inner == (InnerView::Columnar {
                types: inner.types(),
            }),
        },
        match action {
            OpenAction::Create { prefix } => action@ == (OpenView::Create { prefix: prefix@ }),
            OpenAction::Append => action@ == OpenView::Append,
            OpenAction::Resume { keep, prefix } => action@ == (OpenView::Resume {
                keep: keep as int,
                prefix: prefix@,
            }),
            OpenAction::Workbook => action@ == OpenView::Workbook,
        },
{
}

/// What is seen of a step is what it holds.
pub proof fn law_save_step_is_seen_as_it_is<'a>(
    chunks: Vec<Vec<u8>>,
    cells: ExcelBatch<'a>,
    step: ColumnarStep<'a>,
)
    ensures
        SaveStep::Bytes(chunks)@ == StepView::Bytes(chunk_views(chunks@)),
        SaveStep::Cells(cells)@ == StepView::Cells(cells@),
        SaveStep::Columns(step)@ == StepView::Columns(step@),
{
}

} // verus!
