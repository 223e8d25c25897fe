//! Excel files: which cells of a worksheet to write. The names of the columns stand in the first
//! row, each row of the result in a row of its own after that.
use vstd::prelude::*;

use crate::error::{state_error, Error};
use crate::json::{
    cell, cell_of, column_names, compact_json, inspect, json_text, json_tree, to_json, trees, Json,
    JsonRef,
};
use crate::save::columns::tree_of;
use crate::{ColumnMeta, QueryResult};

verus! {

/// What to write into a cell. A number is left in its JSON value.
pub enum ExcelContent<'a> {
    Flag(bool),
    Number(&'a serde_json::Value),
    Text(String),
}

/// What to write into a cell of a worksheet.
pub struct ExcelWrite<'a> {
    pub row: u32,
    pub column: u16,
    pub content: ExcelContent<'a>,
}

/// What to write into a worksheet, and the error to report after that, if there is one.
pub struct ExcelPlan<'a> {
    pub writes: Vec<ExcelWrite<'a>>,
    pub error: Option<Error>,
}

/// What to write into a worksheet for a batch, and the row after it.
pub struct ExcelBatch<'a> {
    pub plan: ExcelPlan<'a>,
    pub next_row_index: u32,
}

/// What is written into a cell.
pub enum ContentView {
    Flag(bool),
    Number(Json),
    Text(Seq<char>),
}

/// What is written into which cell of a worksheet.
pub struct WriteView {
    pub row: int,
    pub column: int,
    pub content: ContentView,
}

impl<'a> View for ExcelContent<'a> {
    type V = ContentView;

    open spec fn view(&self) -> ContentView {
        match *self {
            ExcelContent::Flag(flag) => ContentView::Flag(flag),
            ExcelContent::Number(number) => ContentView::Number(json_tree(*number)),
            ExcelContent::Text(text) => ContentView::Text(text@),
        }
    }
}

impl<'a> View for ExcelWrite<'a> {
    type V = WriteView;

    open spec fn view(&self) -> WriteView {
        WriteView { row: self.row as int, column: self.column as int, content: self.content@ }
    }
}

/// What is written by each of some writes.
pub open spec fn write_views<'a>(writes: Seq<ExcelWrite<'a>>) -> Seq<WriteView> {
    writes.map_values(|write: ExcelWrite<'a>| write@)
}

/// The number of columns that a column index of 16 bits can tell apart.
pub open spec fn column_room() -> nat {
    0x1_0000
}

/// What is written for a cell: nothing for one that is missing or null; an array or an object is
/// written as its JSON text.
pub open spec fn content_of(cell: Option<Json>) -> Option<ContentView> {
    match cell {
        None | Some(Json::Null) => None,
        Some(Json::Bool(flag)) => Some(ContentView::Flag(flag)),
        Some(Json::Integer(i)) => Some(
            ContentView::Number(Json::Integer(i)),
        ),
        Some(Json::Float(text)) => Some(
            ContentView::Number(Json::Float(text)),
        ),
        Some(Json::Text(text)) => Some(ContentView::Text(text)),
        Some(tree) => Some(ContentView::Text(json_text(tree))),
    }
}

/// The names of the first `n` columns in the first row.
pub open spec fn header_writes(names: Seq<Seq<char>>, n: nat) -> Seq<WriteView> {
    Seq::new(n, |i: int| WriteView { row: 0, column: i, content: ContentView::Text(names[i]) })
}

/// The cells of the first `n` columns of a row.
pub open spec fn row_writes(
    names: Seq<Seq<char>>,
    row: Json,
    row_index: int,
    n: nat,
) -> Seq<WriteView>
    decreases n,
{
    if n == 0 {
        seq![]
    } else {
        let before = row_writes(names, row, row_index, (n - 1) as nat);
        match content_of(cell_of(row, names[n - 1])) {
            Some(content) => before.push(WriteView { row: row_index, column: n - 1, content }),
            None => before,
        }
    }
}

/// The cells of some rows, the first of which stands at `first_row`.
pub open spec fn rows_writes(
    names: Seq<Seq<char>>,
    rows: Seq<Json>,
    first_row: int,
) -> Seq<WriteView>
    decreases rows.len(),
{
    if rows.len() == 0 {
        seq![]
    } else {
        rows_writes(names, rows.drop_last(), first_row) + row_writes(
            names,
            rows.last(),
            first_row + rows.len() - 1,
            names.len(),
        )
    }
}

/// What is written for a batch: the cells, and the error that ends it early, if one does.
pub struct PlanView {
    pub writes: Seq<WriteView>,
    pub error: Option<Seq<char>>,
}

impl<'a> View for ExcelPlan<'a> {
    type V = PlanView;

    open spec fn view(&self) -> PlanView {
        PlanView {
            writes: write_views(self.writes@),
            error: match self.error {
                Some(error) => Some(error.reason@),
                None => None,
            },
        }
    }
}

/// What is written for a batch, and the row after it.
pub struct BatchView {
    pub plan: PlanView,
    pub next_row_index: int,
}

impl<'a> View for ExcelBatch<'a> {
    type V = BatchView;

    open spec fn view(&self) -> BatchView {
        BatchView { plan: self.plan@, next_row_index: self.next_row_index as int }
    }
}

/// The cells with the names of the columns, unless they have been written.
pub open spec fn due_header(names: Seq<Seq<char>>, headers_written: bool) -> Seq<WriteView> {
    if headers_written {
        seq![]
    } else {
        header_writes(names, names.len())
    }
}

/// What is written for a batch whose first row stands at `next`. A worksheet has room for no more
/// columns than `column_room`, and its rows are numbered by 32 bits; the error comes once what
/// there is room for has been written.
pub open spec fn batch_plan(
    names: Seq<Seq<char>>,
    rows: Seq<Json>,
    next: int,
    headers_written: bool,
) -> PlanView {
    if names.len() > column_room() && !headers_written {
        PlanView {
            writes: header_writes(names, column_room()),
            error: Some("Excel column count exceeds worksheet limits"@),
        }
    } else if names.len() > column_room() && rows.len() > 0 {
        PlanView {
            writes: row_writes(names, rows[0], next, column_room()),
            error: Some("Excel column count exceeds worksheet limits"@),
        }
    } else if next + rows.len() > u32::MAX {
        PlanView {
            writes: due_header(names, headers_written) + rows_writes(
                names,
                rows.take(u32::MAX - next + 1),
                next,
            ),
            error: Some("Excel row count exceeds worksheet limits"@),
        }
    } else {
        PlanView {
            writes: due_header(names, headers_written) + rows_writes(names, rows, next),
            error: None,
        }
    }
}

/// What is written for a batch, and the row after it: where there is an error the next row stays.
pub open spec fn batch_view(
    names: Seq<Seq<char>>,
    rows: Seq<Json>,
    next: int,
    headers_written: bool,
) -> BatchView {
    let plan = batch_plan(names, rows, next, headers_written);
    BatchView {
        plan,
        next_row_index: if plan.error is Some {
            next
        } else {
            next + rows.len()
        },
    }
}

/// What is written at the end: the names of the columns if they have not been written and there
/// are any.
pub open spec fn end_view(names: Seq<Seq<char>>, next: int, headers_written: bool) -> BatchView {
    if !headers_written && names.len() > 0 {
        batch_view(names, seq![], next, false)
    } else {
        BatchView { plan: PlanView { writes: seq![], error: None }, next_row_index: next }
    }
}

/// What to write for a cell.
fn cell_content<'a>(value: Option<&'a serde_json::Value>) -> (r: Option<ExcelContent<'a>>)
    ensures
        match r {
            Some(content) => content_of(tree_of(value)) == Some(content@),
            None => content_of(tree_of(value)) is None,
        },
{
    match value {
        None => None,
        Some(value) => match inspect(value) {
            JsonRef::Null => None,
            JsonRef::Bool(flag) => Some(ExcelContent::Flag(flag)),
            JsonRef::Number => Some(ExcelContent::Number(value)),
            JsonRef::Text(text) => Some(ExcelContent::Text(text.to_owned())),
            JsonRef::Array | JsonRef::Object(_) => Some(ExcelContent::Text(to_json(value))),
        },
    }
}

/// Adds the names of the columns; whether there was room for all of them.
fn push_header<'a>(writes: &mut Vec<ExcelWrite<'a>>, columns: &[ColumnMeta]) -> (r: bool)
    ensures
        r == (columns@.len() <= column_room()),
        write_views(final(writes)@) == write_views(old(writes)@) + header_writes(
            column_names(columns@),
            if columns@.len() <= column_room() {
                columns@.len()
            } else {
                column_room()
            },
        ),
{
    let ghost names = column_names(columns@);
    let mut i: usize = 0;
    assert(write_views(writes@) =~= write_views(old(writes)@) + header_writes(names, 0));
    while i < columns.len()
        invariant
            i <= columns.len(),
            i <= column_room(),
            names == column_names(columns@),
            write_views(writes@) == write_views(old(writes)@) + header_writes(names, i as nat),
        decreases columns.len() - i,
    {
        if i > 0xffff {
            return false;
        }
        let write = ExcelWrite {
            row: 0,
            column: i as u16,
            content: ExcelContent::Text(columns[i].name.clone()),
        };
        let ghost before = writes@;
        writes.push(write);
        proof {
            assert(write_views(writes@) =~= write_views(before).push(write@));
            assert(header_writes(names, (i + 1) as nat) =~= header_writes(names, i as nat).push(
                write@,
            ));
            assert(write_views(writes@) =~= write_views(old(writes)@) + header_writes(
                names,
                (i + 1) as nat,
            ));
        }
        i = i + 1;
    }
    true
}

/// Adds the cells of a row; whether there was room for all of its columns.
fn push_row<'a>(
    writes: &mut Vec<ExcelWrite<'a>>,
    columns: &[ColumnMeta],
    row: &'a serde_json::Value,
    row_index: u32,
) -> (r: bool)
    ensures
        r == (columns@.len() <= column_room()),
        write_views(final(writes)@) == write_views(old(writes)@) + row_writes(
            column_names(columns@),
            json_tree(*row),
            row_index as int,
            if columns@.len() <= column_room() {
                columns@.len()
            } else {
                column_room()
            },
        ),
{
    let ghost names = column_names(columns@);
    let ghost tree = json_tree(*row);
    let mut i: usize = 0;
    assert(write_views(writes@) =~= write_views(old(writes)@) + row_writes(
        names,
        tree,
        row_index as int,
        0,
    ));
    while i < columns.len()
        invariant
            i <= columns.len(),
            i <= column_room(),
            names == column_names(columns@),
            tree == json_tree(*row),
            write_views(writes@) == write_views(old(writes)@) + row_writes(
                names,
                tree,
                row_index as int,
                i as nat,
            ),
        decreases columns.len() - i,
    {
        if i > 0xffff {
            return false;
        }
        let ghost before = writes@;
        if let Some(content) = cell_content(cell(row, columns[i].name.as_str())) {
            let write = ExcelWrite { row: row_index, column: i as u16, content };
            writes.push(write);
            assert(write_views(writes@) =~= write_views(before).push(write@));
        }
        assert(write_views(writes@) =~= write_views(old(writes)@) + row_writes(
            names,
            tree,
            row_index as int,
            (i + 1) as nat,
        ));
        i = i + 1;
    }
    true
}

/// Writes rows into a worksheet.
pub struct ExcelStreamingWriter {
    pub next_row_index: u32,
    pub headers_written: bool,
}

impl ExcelStreamingWriter {
    /// Before the first row.
    pub fn new() -> (r: Self)
        ensures
            r.next_row_index == 1,
            !r.headers_written,
    {
        ExcelStreamingWriter { next_row_index: 1, headers_written: false }
    }

    /// What to write for some rows, after the names of the columns if they have not been written.
    pub fn write_batch<'a>(&self, columns: &[ColumnMeta], rows: &'a [serde_json::Value]) -> (r:
        ExcelBatch<'a>)
        ensures
            r@ == batch_view(
                column_names(columns@),
                trees(rows@),
                self.next_row_index as int,
                self.headers_written,
            ),
    {
        let ghost names = column_names(columns@);
        let ghost contents = trees(rows@);
        let mut writes: Vec<ExcelWrite<'a>> = Vec::new();
        assert(write_views(writes@) =~= seq![]);
        if !self.headers_written {
            if !push_header(&mut writes, columns) {
                assert(write_views(writes@) =~= header_writes(names, column_room()));
                return ExcelBatch {
                    plan: ExcelPlan { writes, error: Some(state_error("Excel column count exceeds worksheet limits")) },
                    next_row_index: self.next_row_index,
                };
            }
        }
        let ghost header = due_header(names, self.headers_written);
        assert(write_views(writes@) =~= header);
        let first: u32 = self.next_row_index;
        let mut next: u32 = first;
        let mut i: usize = 0;
        assert(contents.take(0) =~= seq![]);
        assert(write_views(writes@) =~= header + rows_writes(names, contents.take(0), first as int));
        while i < rows.len()
            invariant
                i <= rows.len(),
                names == column_names(columns@),
                contents == trees(rows@),
                header == due_header(names, self.headers_written),
                first == self.next_row_index,
                next == first + i,
                !self.headers_written ==> names.len() <= column_room(),
                i > 0 ==> names.len() <= column_room(),
                write_views(writes@) == header + rows_writes(
                    names,
                    contents.take(i as int),
                    first as int,
                ),
            decreases rows.len() - i,
        {
            let ghost before = write_views(writes@);
            let fits: bool = push_row(&mut writes, columns, &rows[i], next);
            if !fits {
                proof {
                    assert(i == 0);
                    assert(before =~= seq![]);
                    assert(write_views(writes@) =~= row_writes(
                        names,
                        contents[0],
                        first as int,
                        column_room(),
                    ));
                }
                return ExcelBatch {
                    plan: ExcelPlan { writes, error: Some(state_error("Excel column count exceeds worksheet limits")) },
                    next_row_index: self.next_row_index,
                };
            }
            proof {
                assert(contents.take(i + 1).drop_last() =~= contents.take(i as int));
                assert(contents.take(i + 1).last() == json_tree(rows@[i as int]));
                assert(write_views(writes@) =~= header + rows_writes(
                    names,
                    contents.take(i + 1),
                    first as int,
                ));
            }
            match next.checked_add(1) {
                Some(following) => {
                    next = following;
                },
                None => {
                    assert(i + 1 == u32::MAX - first + 1);
                    return ExcelBatch {
                        plan: ExcelPlan { writes, error: Some(state_error("Excel row count exceeds worksheet limits")) },
                        next_row_index: self.next_row_index,
                    };
                },
            }
            i = i + 1;
        }
        assert(contents.take(contents.len() as int) =~= contents);
        ExcelBatch { plan: ExcelPlan { writes, error: None }, next_row_index: next }
    }

    /// What to write at the end: the names of the columns if they have not been written and there
    /// are any.
    pub fn finish<'a>(&self, columns: &[ColumnMeta]) -> (r: ExcelBatch<'a>)
        ensures
            r@ == end_view(
                column_names(columns@),
                self.next_row_index as int,
                self.headers_written,
            ),
    {
        if !self.headers_written && columns.len() > 0 {
            let rows: &'a [serde_json::Value] = &[];
            assert(trees(rows@) =~= seq![]);
            self.write_batch(columns, rows)
        } else {
            let plan = ExcelPlan { writes: Vec::new(), error: None };
            assert(plan@.writes =~= seq![]);
            ExcelBatch { plan, next_row_index: self.next_row_index }
        }
    }

    /// Takes note that `done` cells of a batch have been written. The writer moves on once all of
    /// them have been, and there was room for the batch; until then it stays as it is.
    pub fn advance<'a>(&mut self, batch: &ExcelBatch<'a>, done: usize)
        ensures
            if batch@.plan.error is None && done == batch@.plan.writes.len() {
                final(self).headers_written && final(self).next_row_index == batch@.next_row_index
            } else {
                *final(self) == *old(self)
            },
    {
        if batch.plan.error.is_none() && done == batch.plan.writes.len() {
            self.headers_written = true;
            self.next_row_index = batch.next_row_index;
        }
    }
}

/// What is written for a whole result.
pub open spec fn result_plan(names: Seq<Seq<char>>, rows: Seq<Json>) -> PlanView {
    if names.len() > column_room() {
        PlanView {
            writes: header_writes(names, column_room()),
            error: Some("Excel column count exceeds worksheet limits"@),
        }
    } else if rows.len() > u32::MAX {
        PlanView {
            writes: header_writes(names, names.len()) + rows_writes(
                names,
                rows.take(u32::MAX as int),
                1,
            ),
            error: Some("Excel row count exceeds worksheet limits"@),
        }
    } else {
        PlanView {
            writes: header_writes(names, names.len()) + rows_writes(names, rows, 1),
            error: None,
        }
    }
}

/// What to write for a whole result.
pub fn save_excel<'a>(query_result: &'a QueryResult) -> (r: ExcelPlan<'a>)
    ensures
        r@ == result_plan(
            column_names(query_result.columns@),
            trees(query_result.rows@),
        ),
{
    let columns: &[ColumnMeta] = query_result.columns.as_slice();
    let rows: &'a [serde_json::Value] = query_result.rows.as_slice();
    let ghost names = column_names(columns@);
    let ghost contents = trees(rows@);
    let mut writes: Vec<ExcelWrite<'a>> = Vec::new();
    assert(write_views(writes@) =~= seq![]);
    if !push_header(&mut writes, columns) {
        assert(write_views(writes@) =~= header_writes(names, column_room()));
        return ExcelPlan {
            writes,
            error: Some(state_error("Excel column count exceeds worksheet limits")),
        };
    }
    let ghost header = header_writes(names, names.len());
    let mut i: usize = 0;
    assert(contents.take(0) =~= seq![]);
    assert(write_views(writes@) =~= header + rows_writes(names, contents.take(0), 1));
    while i < rows.len()
        invariant
            i <= rows.len(),
            i <= u32::MAX,
            columns@ == query_result.columns@,
            rows@ == query_result.rows@,
            header == header_writes(names, names.len()),
            names == column_names(columns@),
            contents == trees(rows@),
            names.len() <= column_room(),
            write_views(writes@) == header + rows_writes(names, contents.take(i as int), 1),
        decreases rows.len() - i,
    {
        if i >= u32::MAX as usize {
            return ExcelPlan {
                writes,
                error: Some(state_error("Excel row count exceeds worksheet limits")),
            };
        }
        push_row(&mut writes, columns, &rows[i], i as u32 + 1);
        proof {
            assert(contents.take(i + 1).drop_last() =~= contents.take(i as int));
            assert(contents.take(i + 1).last() == json_tree(rows@[i as int]));
            assert(write_views(writes@) =~= header + rows_writes(names, contents.take(i + 1), 1));
        }
        i = i + 1;
    }
    assert(contents.take(contents.len() as int) =~= contents);
    ExcelPlan { writes, error: None }
}

/// Whether a cell comes before another one, row by row.
pub open spec fn comes_before(left: WriteView, right: WriteView) -> bool {
    left.row < right.row || (left.row == right.row && left.column < right.column)
}

/// Whether cells are written row by row, and none twice.
pub open spec fn in_order(writes: Seq<WriteView>) -> bool {
    forall|i: int, j: int|
        0 <= i < j < writes.len() ==> comes_before(#[trigger] writes[i], #[trigger] writes[j])
}

/// Whether each cell stands in one of the rows from `first` to before `end`.
pub open spec fn within_rows(writes: Seq<WriteView>, first: int, end: int) -> bool {
    forall|i: int| 0 <= i < writes.len() ==> first <= (#[trigger] writes[i]).row < end
}

proof fn lemma_row_in_order(
    names: Seq<Seq<char>>,
    row: Json,
    row_index: int,
    n: nat,
)
    ensures
        in_order(row_writes(names, row, row_index, n)),
        within_rows(row_writes(names, row, row_index, n), row_index, row_index + 1),
        forall|i: int|
            0 <= i < row_writes(names, row, row_index, n).len() ==> (#[trigger] row_writes(
                names,
                row,
                row_index,
                n,
            )[i]).column < n,
    decreases n,
{
    if n > 0 {
        lemma_row_in_order(names, row, row_index, (n - 1) as nat);
    }
}

proof fn lemma_join_in_order(left: Seq<WriteView>, right: Seq<WriteView>, a: int, b: int, c: int)
    requires
        in_order(left),
        in_order(right),
        within_rows(left, a, b),
        within_rows(right, b, c),
        a <= b <= c,
    ensures
        in_order(left + right),
        within_rows(left + right, a, c),
{
    let both = left + right;
    assert forall|i: int, j: int| 0 <= i < j < both.len() implies comes_before(
        #[trigger] both[i],
        #[trigger] both[j],
    ) by {
        if j < left.len() {
            assert(comes_before(left[i], left[j]));
        } else if i >= left.len() {
            assert(comes_before(right[i - left.len()], right[j - left.len()]));
        } else {
            assert(left[i].row < b);
            assert(right[j - left.len()].row >= b);
        }
    }
}

proof fn lemma_rows_in_order(names: Seq<Seq<char>>, rows: Seq<Json>, first_row: int)
    ensures
        in_order(rows_writes(names, rows, first_row)),
        within_rows(rows_writes(names, rows, first_row), first_row, first_row + rows.len()),
    decreases rows.len(),
{
    if rows.len() > 0 {
        let last_row = first_row + rows.len() - 1;
        lemma_rows_in_order(names, rows.drop_last(), first_row);
        lemma_row_in_order(names, rows.last(), last_row, names.len());
        lemma_join_in_order(
            rows_writes(names, rows.drop_last(), first_row),
            row_writes(names, rows.last(), last_row, names.len()),
            first_row,
            last_row,
            last_row + 1,
        );
    }
}

/// The cells of a batch are written row by row and none twice. They stand in the rows of the
/// batch, or in the first row where the names of the columns are due; so those of a later batch
/// come after them.
pub proof fn law_cells_come_in_order(
    names: Seq<Seq<char>>,
    rows: Seq<Json>,
    next: int,
    headers_written: bool,
)
    requires
        1 <= next <= u32::MAX,
    ensures
        in_order(batch_plan(names, rows, next, headers_written).writes),
        within_rows(
            batch_plan(names, rows, next, headers_written).writes,
            if headers_written {
                next
            } else {
                0
            },
            next + rows.len(),
        ),
{
    let header = due_header(names, headers_written);
    let start: int = if headers_written {
        next
    } else {
        0
    };
    assert(in_order(header) && within_rows(header, start, next));
    if names.len() > column_room() && headers_written && rows.len() > 0 {
        lemma_row_in_order(names, rows[0], next, column_room());
    } else if next + rows.len() > u32::MAX {
        let some = rows.take(u32::MAX - next + 1);
        lemma_rows_in_order(names, some, next);
        lemma_join_in_order(
            header,
            rows_writes(names, some, next),
            start,
            next,
            next + some.len(),
        );
    } else {
        lemma_rows_in_order(names, rows, next);
        lemma_join_in_order(
            header,
            rows_writes(names, rows, next),
            start,
            next,
            next + rows.len(),
        );
    }
}

proof fn lemma_row_writes_cell(
    names: Seq<Seq<char>>,
    row: Json,
    row_index: int,
    n: nat,
    k: int,
    content: ContentView,
)
    requires
        0 <= k < n,
        content_of(cell_of(row, names[k])) == Some(content),
    ensures
        row_writes(names, row, row_index, n).contains(
            WriteView { row: row_index, column: k, content },
        ),
    decreases n,
{
    let write = WriteView { row: row_index, column: k, content };
    let writes = row_writes(names, row, row_index, n);
    let before = row_writes(names, row, row_index, (n - 1) as nat);
    if k == n - 1 {
        assert(writes[writes.len() - 1] == write);
    } else {
        lemma_row_writes_cell(names, row, row_index, (n - 1) as nat, k, content);
        let at = choose|at: int| 0 <= at < before.len() && before[at] == write;
        assert(writes[at] == write);
    }
}

proof fn lemma_rows_write_cell(
    names: Seq<Seq<char>>,
    rows: Seq<Json>,
    first_row: int,
    i: int,
    k: int,
    content: ContentView,
)
    requires
        0 <= i < rows.len(),
        0 <= k < names.len(),
        content_of(cell_of(rows[i], names[k])) == Some(content),
    ensures
        rows_writes(names, rows, first_row).contains(
            WriteView { row: first_row + i, column: k, content },
        ),
    decreases rows.len(),
{
    let write = WriteView { row: first_row + i, column: k, content };
    let writes = rows_writes(names, rows, first_row);
    let before = rows_writes(names, rows.drop_last(), first_row);
    let last = row_writes(names, rows.last(), first_row + rows.len() - 1, names.len());
    if i == rows.len() - 1 {
        lemma_row_writes_cell(names, rows.last(), first_row + i, names.len(), k, content);
        let at = choose|at: int| 0 <= at < last.len() && last[at] == write;
        assert(writes[before.len() + at] == write);
    } else {
        lemma_rows_write_cell(names, rows.drop_last(), first_row, i, k, content);
        let at = choose|at: int| 0 <= at < before.len() && before[at] == write;
        assert(writes[at] == write);
    }
}

/// Where there is room, every cell that is not null is written, at the row and the column where it
/// belongs.
pub proof fn law_every_cell_is_written(
    names: Seq<Seq<char>>,
    rows: Seq<Json>,
    next: int,
    headers_written: bool,
    i: int,
    k: int,
    content: ContentView,
)
    requires
        names.len() <= column_room(),
        next + rows.len() <= u32::MAX,
        0 <= i < rows.len(),
        0 <= k < names.len(),
        content_of(cell_of(rows[i], names[k])) == Some(content),
    ensures
        batch_plan(names, rows, next, headers_written).writes.contains(
            WriteView { row: next + i, column: k, content },
        ),
{
    let write = WriteView { row: next + i, column: k, content };
    let header = due_header(names, headers_written);
    let rest = rows_writes(names, rows, next);
    lemma_rows_write_cell(names, rows, next, i, k, content);
    let at = choose|at: int| 0 <= at < rest.len() && rest[at] == write;
    assert((header + rest)[header.len() + at] == write);
}

/// A truth value is written as one, a number as that number, a text as that text, an array and an
/// object as their JSON text; nothing is written for a null or where a cell is missing.
pub proof fn law_contents_of_cells(
    flag: bool,
    n: int,
    text: Seq<char>,
    items: Seq<Json>,
    entries: Map<Seq<char>, Json>,
)
    ensures
        content_of(Some(Json::Bool(flag))) == Some(ContentView::Flag(flag)),
        content_of(Some(Json::Integer(n))) == Some(ContentView::Number(Json::Integer(n))),
        content_of(Some(Json::Float(text))) == Some(ContentView::Number(Json::Float(text))),
        content_of(Some(Json::Text(text))) == Some(ContentView::Text(text)),
        content_of(Some(Json::Array(items))) == Some(
            ContentView::Text(compact_json(Json::Array(items))),
        ),
        content_of(Some(Json::Object(entries))) == Some(
            ContentView::Text(compact_json(Json::Object(entries))),
        ),
        content_of(Some(Json::Null)) is None,
        content_of(None) is None,
{
}

/// The names of the columns stand in the first row, each in its column.
pub proof fn law_names_stand_in_the_first_row(names: Seq<Seq<char>>, n: nat, i: int)
    requires
        0 <= i < n <= names.len(),
    ensures
        header_writes(names, n).len() == n,
        header_writes(names, n)[i] == (WriteView {
            row: 0,
            column: i,
            content: ContentView::Text(names[i]),
        }),
        due_header(names, false) == header_writes(names, names.len()),
        due_header(names, true).len() == 0,
        column_room() == 65536,
{
}

/// What is seen of a plan is what each of its writes does, in their order, and its error.
pub proof fn law_plan_is_seen_as_it_is<'a>(batch: ExcelBatch<'a>, i: int)
    ensures
        batch@.next_row_index == batch.next_row_index,
        batch@.plan.error is Some <==> batch.plan.error is Some,
        batch.plan.error is Some ==> batch@.plan.error->0 == batch.plan.error->0.reason@,
        batch@.plan.writes.len() == batch.plan.writes@.len(),
        0 <= i < batch.plan.writes@.len() ==> ({
            let seen = batch@.plan.writes[i];
            let write = batch.plan.writes@[i];
            &&& seen.row == write.row
            &&& seen.column == write.column
            &&& match write.content {
                ExcelContent::Flag(flag) => seen.content == ContentView::Flag(flag),
                ExcelContent::Number(number) => seen.content == ContentView::Number(
                    json_tree(*number),
                ),
                ExcelContent::Text(text) => seen.content == ContentView::Text(text@),
            }
        }),
{
}

/// Whether a write puts the cell of some row of a batch where it belongs.
pub open spec fn writes_a_cell(
    names: Seq<Seq<char>>,
    rows: Seq<Json>,
    first_row: int,
    write: WriteView,
) -> bool {
    let i = write.row - first_row;
    let k = write.column;
    0 <= i < rows.len() && 0 <= k < names.len() && content_of(cell_of(rows[i], names[k])) == Some(
        write.content,
    )
}

proof fn lemma_row_writes_its_cells(
    names: Seq<Seq<char>>,
    row: Json,
    row_index: int,
    n: nat,
    at: int,
)
    requires
        n <= names.len(),
        0 <= at < row_writes(names, row, row_index, n).len(),
    ensures
        ({
            let write = row_writes(names, row, row_index, n)[at];
            &&& write.row == row_index
            &&& 0 <= write.column < n
            &&& content_of(cell_of(row, names[write.column])) == Some(write.content)
        }),
    decreases n,
{
    let before = row_writes(names, row, row_index, (n - 1) as nat);
    if at < before.len() {
        lemma_row_writes_its_cells(names, row, row_index, (n - 1) as nat, at);
    }
}

proof fn lemma_rows_write_their_cells(
    names: Seq<Seq<char>>,
    rows: Seq<Json>,
    first_row: int,
    at: int,
)
    requires
        0 <= at < rows_writes(names, rows, first_row).len(),
    ensures
        writes_a_cell(names, rows, first_row, rows_writes(names, rows, first_row)[at]),
    decreases rows.len(),
{
    let before = rows_writes(names, rows.drop_last(), first_row);
    let last_row = first_row + rows.len() - 1;
    if at < before.len() {
        lemma_rows_write_their_cells(names, rows.drop_last(), first_row, at);
    } else {
        lemma_row_writes_its_cells(names, rows.last(), last_row, names.len(), at - before.len());
    }
}

/// Nothing but what belongs there is written: every write of a batch puts the cell of one of its
/// rows where it belongs, or, where the names are due, a name into the first row.
pub proof fn law_only_cells_are_written(
    names: Seq<Seq<char>>,
    rows: Seq<Json>,
    next: int,
    headers_written: bool,
    at: int,
)
    requires
        0 <= next <= u32::MAX,
        0 <= at < batch_plan(names, rows, next, headers_written).writes.len(),
    ensures
        ({
            let write = batch_plan(names, rows, next, headers_written).writes[at];
            ||| writes_a_cell(names, rows, next, write)
            ||| !headers_written && write.row == 0 && 0 <= write.column < names.len()
                && write.content == ContentView::Text(names[write.column])
        }),
{
    let header = due_header(names, headers_written);
    if names.len() > column_room() && !headers_written {
    } else if names.len() > column_room() && rows.len() > 0 {
        lemma_row_writes_its_cells(names, rows[0], next, column_room(), at);
    } else if next + rows.len() > u32::MAX {
        let some = rows.take(u32::MAX - next + 1);
        if at >= header.len() {
            lemma_rows_write_their_cells(names, some, next, at - header.len());
        }
    } else if at >= header.len() {
        lemma_rows_write_their_cells(names, rows, next, at - header.len());
    }
}

/// A batch has an error exactly where a worksheet has no room for its columns, which are numbered
/// by 16 bits, or for its rows, which are numbered by 32 bits. A batch without an error moves on by
/// its rows, one with an error stays where it was.
pub proof fn law_room_of_a_worksheet(
    names: Seq<Seq<char>>,
    rows: Seq<Json>,
    next: int,
    headers_written: bool,
)
    requires
        0 <= next <= 0xffff_ffff,
    ensures
        batch_view(names, rows, next, headers_written).plan == batch_plan(
            names,
            rows,
            next,
            headers_written,
        ),
        names.len() > 65536 && (!headers_written || rows.len() > 0) ==> batch_view(
            names,
            rows,
            next,
            headers_written,
        ).plan.error == Some("Excel column count exceeds worksheet limits"@),
        !(names.len() > 65536 && (!headers_written || rows.len() > 0)) && next + rows.len()
            > 0xffff_ffff ==> batch_view(names, rows, next, headers_written).plan.error == Some(
            "Excel row count exceeds worksheet limits"@,
        ),
        !(names.len() > 65536 && (!headers_written || rows.len() > 0)) && next + rows.len()
            <= 0xffff_ffff ==> batch_view(names, rows, next, headers_written).plan.error is None,
        batch_view(names, rows, next, headers_written).plan.error is None ==> batch_view(
            names,
            rows,
            next,
            headers_written,
        ).next_row_index == next + rows.len(),
        batch_view(names, rows, next, headers_written).plan.error is Some ==> batch_view(
            names,
            rows,
            next,
            headers_written,
        ).next_row_index == next,
{
}

/// What there is room for is written before the error comes: the names of the first columns, the
/// cells of the first columns of the first row where the names have been written, or the rows up to
/// the last one that can be numbered, after the names where they are due.
pub proof fn law_what_has_room_is_written(
    names: Seq<Seq<char>>,
    rows: Seq<Json>,
    next: int,
    headers_written: bool,
    k: int,
    i: int,
    content: ContentView,
)
    requires
        0 <= next <= 0xffff_ffff,
        0 <= k < 65536,
        k < names.len(),
    ensures
        !headers_written ==> batch_plan(names, rows, next, headers_written).writes.contains(
            WriteView { row: 0, column: k, content: ContentView::Text(names[k]) },
        ),
        headers_written && names.len() > 65536 && rows.len() > 0 && content_of(
            cell_of(rows[0], names[k]),
        ) == Some(content) ==> batch_plan(names, rows, next, headers_written).writes.contains(
            WriteView { row: next, column: k, content },
        ),
        names.len() <= 65536 && 0 <= i < rows.len() && next + i <= 0xffff_ffff && content_of(
            cell_of(rows[i], names[k]),
        ) == Some(content) ==> batch_plan(names, rows, next, headers_written).writes.contains(
            WriteView { row: next + i, column: k, content },
        ),
{
    let plan = batch_plan(names, rows, next, headers_written);
    if !headers_written {
        assert(plan.writes[k] == (WriteView {
            row: 0,
            column: k,
            content: ContentView::Text(names[k]),
        }));
    }
    if headers_written && names.len() > 65536 && rows.len() > 0 && content_of(
        cell_of(rows[0], names[k]),
    ) == Some(content) {
        lemma_row_writes_cell(names, rows[0], next, column_room(), k, content);
    }
    if names.len() <= 65536 && 0 <= i < rows.len() && next + i <= 0xffff_ffff && content_of(
        cell_of(rows[i], names[k]),
    ) == Some(content) {
        let write = WriteView { row: next + i, column: k, content };
        let some = if next + rows.len() > u32::MAX {
            rows.take(u32::MAX - next + 1)
        } else {
            rows
        };
        let header = due_header(names, headers_written);
        let rest = rows_writes(names, some, next);
        assert(some[i] == rows[i]);
        lemma_rows_write_cell(names, some, next, i, k, content);
        let at = choose|at: int| 0 <= at < rest.len() && rest[at] == write;
        assert((header + rest)[header.len() + at] == write);
    }
}

/// At the end the names are written where they have not been, which is the batch of no rows; where
/// they have been, or there are none, nothing is written and the worksheet stays.
pub proof fn law_end_of_a_worksheet(names: Seq<Seq<char>>, next: int, headers_written: bool)
    requires
        0 <= next <= 0xffff_ffff,
    ensures
        headers_written || names.len() == 0 ==> end_view(
            names,
            next,
            headers_written,
        ).plan.writes.len() == 0 && end_view(names, next, headers_written).plan.error is None,
        !headers_written && 0 < names.len() <= 65536 ==> end_view(
            names,
            next,
            headers_written,
        ).plan.writes == header_writes(names, names.len()) && end_view(
            names,
            next,
            headers_written,
        ).plan.error is None,
        !headers_written && names.len() > 65536 ==> end_view(
            names,
            next,
            headers_written,
        ).plan.error == Some("Excel column count exceeds worksheet limits"@),
        end_view(names, next, headers_written).next_row_index == next,
{
    assert(header_writes(names, names.len()) + rows_writes(names, seq![], next) =~= header_writes(
        names,
        names.len(),
    ));
}

/// A whole result is written as one batch from the first row after the names on, as long as the
/// number of its rows is below 2^32 - 1; it has room for one row more.
pub proof fn law_result_is_one_batch(names: Seq<Seq<char>>, rows: Seq<Json>)
    ensures
        rows.len() < 0xffff_ffff || names.len() > 65536 ==> result_plan(names, rows) == batch_plan(
            names,
            rows,
            1,
            false,
        ),
        result_plan(names, rows).error == (if names.len() > 65536 {
            Some("Excel column count exceeds worksheet limits"@)
        } else if rows.len() > 0xffff_ffff {
            Some("Excel row count exceeds worksheet limits"@)
        } else {
            None
        }),
{
}

/// Every cell of a result that has room is written where it belongs, below the names.
pub proof fn law_result_holds_every_cell(
    names: Seq<Seq<char>>,
    rows: Seq<Json>,
    i: int,
    k: int,
    content: ContentView,
)
    requires
        names.len() <= 65536,
        0 <= i < rows.len(),
        i < 0xffff_ffff,
        0 <= k < names.len(),
    ensures
        content_of(cell_of(rows[i], names[k])) == Some(content) ==> result_plan(
            names,
            rows,
        ).writes.contains(WriteView { row: 1 + i, column: k, content }),
        result_plan(names, rows).writes[k] == (WriteView {
            row: 0,
            column: k,
            content: ContentView::Text(names[k]),
        }),
{
    let header = header_writes(names, names.len());
    let some = if rows.len() > u32::MAX {
        rows.take(u32::MAX as int)
    } else {
        rows
    };
    let rest = rows_writes(names, some, 1);
    assert(some[i] == rows[i]);
    assert((header + rest)[k] == header[k]);
    if content_of(cell_of(rows[i], names[k])) == Some(content) {
        let write = WriteView { row: 1 + i, column: k, content };
        lemma_rows_write_cell(names, some, 1, i, k, content);
        let at = choose|at: int| 0 <= at < rest.len() && rest[at] == write;
        assert((header + rest)[header.len() + at] == write);
    }
}

/// Nothing else is written for a result.
pub proof fn law_result_holds_only_its_cells(names: Seq<Seq<char>>, rows: Seq<Json>, at: int)
    requires
        0 <= at < result_plan(names, rows).writes.len(),
    ensures
        ({
            let write = result_plan(names, rows).writes[at];
            ||| writes_a_cell(names, rows, 1, write)
            ||| write.row == 0 && 0 <= write.column < names.len() && write.content
                == ContentView::Text(names[write.column])
        }),
{
    let header = header_writes(names, names.len());
    if names.len() > column_room() {
    } else if at >= header.len() {
        let some = if rows.len() > u32::MAX {
            rows.take(u32::MAX as int)
        } else {
            rows
        };
        lemma_rows_write_their_cells(names, some, 1, at - header.len());
    }
}

} // verus!
