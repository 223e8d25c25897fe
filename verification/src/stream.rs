//! Query results in batches: rows are collected until a batch is full, and no more rows are
//! asked for than the limit allows.
use vstd::prelude::*;

use crate::json::{json_tree, trees, Json};
use crate::{column_views, ColumnMeta, ColumnView, QueryBatch, QueryResult};

verus! {

/// A batch of rows: its columns, and what its rows hold.
pub struct BatchView {
    pub columns: Seq<ColumnView>,
    pub rows: Seq<Json>,
}

impl View for QueryBatch {
    type V = BatchView;

    open spec fn view(&self) -> BatchView {
        BatchView {
            columns: column_views(self.columns@),
            rows: trees(self.rows@),
        }
    }
}

/// A batch that may be there.
pub open spec fn optional_batch(batch: Option<QueryBatch>) -> Option<BatchView> {
    match batch {
        Some(value) => Some(value@),
        None => None,
    }
}

/// Collects the rows of a query into batches.
pub struct RowBatcher {
    batch_size: usize,
    limit: usize,
    columns: Option<Vec<ColumnMeta>>,
    rows: Vec<serde_json::Value>,
    emitted: bool,
    sent_rows: usize,
}

/// The state of a `RowBatcher`: the size of a batch, the largest number of rows, the columns once
/// they are known, the rows of the batch that is being filled, whether a batch has been handed
/// out, and how many rows have come in.
pub struct BatcherView {
    pub batch_size: nat,
    pub limit: nat,
    pub columns: Option<Seq<ColumnView>>,
    pub rows: Seq<Json>,
    pub emitted: bool,
    pub sent_rows: nat,
}

impl View for RowBatcher {
    type V = BatcherView;

    closed spec fn view(&self) -> BatcherView {
        BatcherView {
            batch_size: self.batch_size as nat,
            limit: self.limit as nat,
            columns: match self.columns {
                Some(columns) => Some(column_views(columns@)),
                None => None,
            },
            rows: trees(self.rows@),
            emitted: self.emitted,
            sent_rows: self.sent_rows as nat,
        }
    }
}

impl BatcherView {
    /// Before the first row.
    pub open spec fn start(batch_size: nat, limit: nat) -> BatcherView {
        BatcherView {
            batch_size,
            limit,
            columns: None,
            rows: seq![],
            emitted: false,
            sent_rows: 0,
        }
    }

    /// Whether another row is to be asked for.
    pub open spec fn wants_row(self) -> bool {
        self.sent_rows < self.limit
    }

    /// The columns, none as long as they are not known.
    pub open spec fn known_columns(self) -> Seq<ColumnView> {
        match self.columns {
            Some(columns) => columns,
            None => seq![],
        }
    }

    /// The columns become known.
    pub open spec fn with_columns(self, columns: Seq<ColumnView>) -> BatcherView {
        BatcherView { columns: Some(columns), ..self }
    }

    /// Whether one more row fills the batch.
    pub open spec fn fills(self) -> bool {
        self.rows.len() + 1 >= self.batch_size
    }

    /// After one more row: a batch that is full is handed out and a new one begun.
    pub open spec fn pushed(self, row: Json) -> BatcherView {
        BatcherView {
            rows: if self.fills() {
                seq![]
            } else {
                self.rows.push(row)
            },
            emitted: self.emitted || self.fills(),
            sent_rows: self.sent_rows + 1,
            ..self
        }
    }

    /// The batch that is handed out on one more row, if that fills it.
    pub open spec fn batch_of(self, row: Json) -> Option<BatchView> {
        if self.fills() {
            Some(BatchView { columns: self.known_columns(), rows: self.rows.push(row) })
        } else {
            None
        }
    }

    /// The batch that is handed out at the end: the rows that are left, or no rows at all where
    /// only the columns have to be told.
    pub open spec fn last_batch(self) -> Option<BatchView> {
        if self.rows.len() > 0 || (!self.emitted && self.known_columns().len() > 0) {
            Some(BatchView { columns: self.known_columns(), rows: self.rows })
        } else {
            None
        }
    }

    /// The batches that are handed out while the given rows come in, without what is left at their
    /// end: those that have been sent even if reading fails then.
    pub open spec fn handed_out(self, rows: Seq<Json>) -> Seq<BatchView>
        decreases rows.len(),
    {
        if rows.len() == 0 || !self.wants_row() {
            seq![]
        } else {
            let rest = self.pushed(rows.first()).handed_out(rows.drop_first());
            match self.batch_of(rows.first()) {
                Some(batch) => seq![batch] + rest,
                None => rest,
            }
        }
    }

    /// The batches that are handed out while the given rows come in, and at their end. Rows after
    /// the limit are not asked for.
    pub open spec fn batches(self, rows: Seq<Json>) -> Seq<BatchView>
        decreases rows.len(),
    {
        if rows.len() == 0 || !self.wants_row() {
            match self.last_batch() {
                Some(batch) => seq![batch],
                None => seq![],
            }
        } else {
            let rest = self.pushed(rows.first()).batches(rows.drop_first());
            match self.batch_of(rows.first()) {
                Some(batch) => seq![batch] + rest,
                None => rest,
            }
        }
    }
}

impl RowBatcher {
    /// Before the first row.
    pub fn new(batch_size: usize, limit: usize) -> (r: Self)
        ensures
            r@ == BatcherView::start(batch_size as nat, limit as nat),
    {
        let r = RowBatcher {
            batch_size,
            limit,
            columns: None,
            rows: Vec::new(),
            emitted: false,
            sent_rows: 0,
        };
        assert(r@.rows =~= seq![]);
        r
    }

    /// Whether another row is to be asked for.
    pub fn wants_row(&self) -> (r: bool)
        ensures
            r == self@.wants_row(),
    {
        self.sent_rows < self.limit
    }

    /// Whether the columns are known.
    pub fn has_columns(&self) -> (r: bool)
        ensures
            r == (self@.columns is Some),
    {
        self.columns.is_some()
    }

    /// The columns become known.
    pub fn set_columns(&mut self, columns: Vec<ColumnMeta>)
        ensures
            final(self)@ == old(self)@.with_columns(column_views(columns@)),
    {
        self.columns = Some(columns);
    }

    fn columns_now(&self) -> (r: Vec<ColumnMeta>)
        ensures
            column_views(r@) == self@.known_columns(),
    {
        match &self.columns {
            Some(columns) => clone_columns(columns.as_slice()),
            None => {
                let none: Vec<ColumnMeta> = Vec::new();
                assert(column_views(none@) =~= seq![]);
                none
            },
        }
    }

    /// Takes one more row; hands out the batch if it is full.
    pub fn push(&mut self, row: serde_json::Value) -> (r: Option<QueryBatch>)
        requires
            old(self)@.wants_row(),
        ensures
            final(self)@ == old(self)@.pushed(json_tree(row)),
            optional_batch(r) == old(self)@.batch_of(json_tree(row)),
    {
        self.rows.push(row);
        self.sent_rows = self.sent_rows + 1;
        proof {
            assert(trees(self.rows@) =~= old(self)@.rows.push(
                json_tree(row),
            ));
        }
        if self.rows.len() >= self.batch_size {
            let columns = self.columns_now();
            let mut rows: Vec<serde_json::Value> = Vec::new();
            std::mem::swap(&mut rows, &mut self.rows);
            self.emitted = true;
            assert(self@.rows =~= seq![]);
            Some(QueryBatch { columns, rows })
        } else {
            None
        }
    }

    /// Hands out what is left at the end.
    pub fn finish(self) -> (r: Option<QueryBatch>)
        ensures
            optional_batch(r) == self@.last_batch(),
    {
        let columns = self.columns_now();
        if self.rows.len() > 0 || (!self.emitted && columns.len() > 0) {
            Some(QueryBatch { columns, rows: self.rows })
        } else {
            None
        }
    }
}

/// The same columns once more.
pub fn clone_columns(columns: &[ColumnMeta]) -> (r: Vec<ColumnMeta>)
    ensures
        r@ == columns@,
{
    let mut r: Vec<ColumnMeta> = Vec::new();
    let mut i: usize = 0;
    while i < columns.len()
        invariant
            i <= columns.len(),
            r@ == columns@.take(i as int),
        decreases columns.len() - i,
    {
        r.push(columns[i].clone());
        i = i + 1;
    }
    r
}

/// The rows of some batches, one after the other.
pub open spec fn joined(batches: Seq<Seq<Json>>) -> Seq<Json>
    decreases batches.len(),
{
    if batches.len() == 0 {
        seq![]
    } else {
        batches.first() + joined(batches.drop_first())
    }
}

/// The rows of some batches, without their columns, one after the other.
pub open spec fn all_rows(batches: Seq<BatchView>) -> Seq<Json> {
    joined(batches.map_values(|batch: BatchView| batch.rows))
}

/// No batches hold no rows, and the rows of a first batch come first.
pub proof fn lemma_all_rows(batch: BatchView, rest: Seq<BatchView>)
    ensures
        all_rows(seq![]) == Seq::<Json>::empty(),
        all_rows(seq![batch] + rest) == batch.rows + all_rows(rest),
        all_rows(seq![batch]) == batch.rows,
{
    let rows = |batch: BatchView| batch.rows;
    let both = seq![batch] + rest;
    assert(both.map_values(rows).drop_first() =~= rest.map_values(rows));
    assert(seq![batch].map_values(rows).drop_first() =~= seq![]);
    assert(Seq::<BatchView>::empty().map_values(rows) =~= seq![]);
    assert(joined(seq![]) =~= seq![]);
    assert(batch.rows + Seq::<Json>::empty() =~= batch.rows);
}

/// The smaller of two numbers.
pub open spec fn smaller(a: nat, b: nat) -> nat {
    if a < b {
        a
    } else {
        b
    }
}

/// The batches of a query hold its rows in their order, each once, up to the limit.
pub proof fn law_batches_hold_the_rows(state: BatcherView, rows: Seq<Json>)
    requires
        state.sent_rows <= state.limit,
    ensures
        all_rows(state.batches(rows)) == state.rows + rows.take(
            smaller(rows.len(), (state.limit - state.sent_rows) as nat) as int,
        ),
    decreases rows.len(),
{
    if rows.len() == 0 || !state.wants_row() {
        assert(rows.take(0) =~= seq![]);
        match state.last_batch() {
            Some(batch) => {
                lemma_all_rows(batch, seq![]);
            },
            None => {
                lemma_all_rows(BatchView { columns: seq![], rows: seq![] }, seq![]);
                assert(state.rows =~= seq![]);
            },
        }
        assert(state.rows + rows.take(0) =~= state.rows);
    } else {
        let next = state.pushed(rows.first());
        law_batches_hold_the_rows(next, rows.drop_first());
        let rest = next.batches(rows.drop_first());
        let n = smaller(rows.len(), (state.limit - state.sent_rows) as nat) as int;
        assert(rows.take(n) =~= seq![rows.first()] + rows.drop_first().take(n - 1));
        match state.batch_of(rows.first()) {
            Some(batch) => {
                lemma_all_rows(batch, rest);
            },
            None => {},
        }
        assert(all_rows(state.batches(rows)) =~= state.rows + rows.take(n));
    }
}

/// Every batch but the last one is full, none holds more rows than a batch has room for, and all
/// of them carry the columns that were known at the start.
pub proof fn law_batches_are_full(state: BatcherView, rows: Seq<Json>, i: int)
    requires
        state.rows.len() < state.batch_size,
        0 <= i < state.batches(rows).len(),
    ensures
        state.batches(rows)[i].rows.len() <= state.batch_size,
        i < state.batches(rows).len() - 1 ==> state.batches(rows)[i].rows.len()
            == state.batch_size,
        state.batches(rows)[i].columns == state.known_columns(),
    decreases rows.len(),
{
    if rows.len() > 0 && state.wants_row() {
        let next = state.pushed(rows.first());
        let rest = next.batches(rows.drop_first());
        assert(next.known_columns() == state.known_columns());
        match state.batch_of(rows.first()) {
            Some(batch) => {
                if i > 0 {
                    assert(state.batches(rows)[i] == rest[i - 1]);
                    law_batches_are_full(next, rows.drop_first(), i - 1);
                }
            },
            None => {
                law_batches_are_full(next, rows.drop_first(), i);
            },
        }
    }
}

/// One more batch makes one more quotient.
pub proof fn lemma_one_more_batch(count: nat, batch_size: nat)
    requires
        batch_size > 0,
    ensures
        (count + batch_size) / batch_size == count / batch_size + 1,
        (count / batch_size + 1) * batch_size == count / batch_size * batch_size + batch_size,
        count / batch_size * batch_size <= count,
{
    let q = count / batch_size;
    assert((count + batch_size) / batch_size == q + 1 && q * batch_size <= count)
        by (nonlinear_arith)
        requires
            batch_size > 0,
            q == count / batch_size,
    ;
    assert((q + 1) * batch_size == q * batch_size + batch_size) by (nonlinear_arith);
}

/// Where reading fails after some rows, all the full batches of these rows have been handed out:
/// as many as the batch size goes into the number of rows, each of them full, with the first rows
/// in their order. What is handed out at the end comes after them.
pub proof fn law_full_batches_are_handed_out(state: BatcherView, rows: Seq<Json>)
    requires
        state.rows.len() < state.batch_size,
        state.sent_rows <= state.limit,
    ensures
        ({
            let read = state.rows + rows.take(
                smaller(rows.len(), (state.limit - state.sent_rows) as nat) as int,
            );
            let out = state.handed_out(rows);
            &&& out.len() == read.len() / state.batch_size
            &&& all_rows(out) == read.take((out.len() * state.batch_size) as int)
            &&& forall|i: int|
                0 <= i < out.len() ==> (#[trigger] out[i]).rows.len() == state.batch_size
                    && out[i].columns == state.known_columns()
            &&& out.is_prefix_of(state.batches(rows))
        }),
    decreases rows.len(),
{
    let n = smaller(rows.len(), (state.limit - state.sent_rows) as nat) as int;
    let read = state.rows + rows.take(n);
    let out = state.handed_out(rows);
    let size = state.batch_size;
    if rows.len() == 0 || !state.wants_row() {
        assert(read =~= state.rows);
        assert(read.len() / size == 0) by (nonlinear_arith)
            requires
                read.len() < size,
        ;
        assert(out.len() * size == 0) by (nonlinear_arith)
            requires
                out.len() == 0,
        ;
        lemma_all_rows(BatchView { columns: seq![], rows: seq![] }, seq![]);
        assert(all_rows(out) =~= read.take(0));
    } else {
        let next = state.pushed(rows.first());
        let rest = next.handed_out(rows.drop_first());
        assert(rows.take(n) =~= seq![rows.first()] + rows.drop_first().take(n - 1));
        law_full_batches_are_handed_out(next, rows.drop_first());
        let later = next.rows + rows.drop_first().take(n - 1);
        assert(next.known_columns() == state.known_columns());
        match state.batch_of(rows.first()) {
            Some(batch) => {
                assert(read =~= batch.rows + later);
                lemma_one_more_batch(later.len(), size);
                lemma_all_rows(batch, rest);
                assert(all_rows(out) =~= read.take((out.len() * size) as int));
                assert forall|i: int| 0 <= i < out.len() implies (#[trigger] out[i]).rows.len()
                    == size && out[i].columns == state.known_columns() by {
                    if i > 0 {
                        assert(out[i] == rest[i - 1]);
                    }
                }
            },
            None => {
                assert(read =~= later);
            },
        }
    }
}

/// Someone who reads the batches learns the columns even if there are no rows: once the columns
/// are known and there are any, at least one batch is handed out.
pub proof fn law_columns_are_told(state: BatcherView, rows: Seq<Json>)
    requires
        state.known_columns().len() > 0,
        !state.emitted,
    ensures
        state.batches(rows).len() > 0,
    decreases rows.len(),
{
    if rows.len() > 0 && state.wants_row() && !state.fills() {
        law_columns_are_told(state.pushed(rows.first()), rows.drop_first());
    }
}

/// Collects the rows of a query up to a limit.
pub struct RowCollector {
    limit: usize,
    rows: Vec<serde_json::Value>,
}

impl RowCollector {
    /// The largest number of rows.
    pub closed spec fn limit(&self) -> nat {
        self.limit as nat
    }

    /// What the rows so far hold.
    pub closed spec fn rows(&self) -> Seq<Json> {
        trees(self.rows@)
    }

    /// No rows yet.
    pub fn new(limit: usize) -> (r: Self)
        ensures
            r.limit() == limit,
            r.rows() == Seq::<Json>::empty(),
    {
        RowCollector { limit, rows: Vec::new() }
    }

    /// Whether another row is to be asked for.
    pub fn wants_row(&self) -> (r: bool)
        ensures
            r == (self.rows().len() < self.limit()),
    {
        self.rows.len() < self.limit
    }

    /// Takes one more row.
    pub fn push(&mut self, row: serde_json::Value)
        requires
            old(self).rows().len() < old(self).limit(),
        ensures
            final(self).limit() == old(self).limit(),
            final(self).rows() == old(self).rows().push(json_tree(row)),
            forall|rest: Seq<Json>|
                #[trigger] collected(final(self).limit(), final(self).rows(), rest) == collected(
                    old(self).limit(),
                    old(self).rows(),
                    seq![json_tree(row)] + rest,
                ),
    {
        self.rows.push(row);
        assert(self.rows() =~= old(self).rows().push(json_tree(row)));
        assert forall|rest: Seq<Json>|
            #[trigger] collected(self.limit(), self.rows(), rest) == collected(
                old(self).limit(),
                old(self).rows(),
                seq![json_tree(row)] + rest,
            ) by {
            let all = seq![json_tree(row)] + rest;
            assert(all.first() == json_tree(row));
            assert(all.drop_first() =~= rest);
        }
    }

    /// The rows, with the columns and the time that the query took.
    pub fn finish(self, columns: Vec<ColumnMeta>, elapsed_ms: u128) -> (r: QueryResult)
        ensures
            r.columns == columns,
            trees(r.rows@) == self.rows(),
            r.execution_time_ms == elapsed_ms as i64,
    {
        query_result(columns, self.rows, elapsed_ms)
    }
}

/// The rows of a collector that has `so_far`, once the given rows have come: no row is asked for
/// once there are as many as the limit allows.
pub open spec fn collected(limit: nat, so_far: Seq<Json>, rows: Seq<Json>) -> Seq<Json>
    decreases rows.len(),
{
    if rows.len() == 0 || so_far.len() >= limit {
        so_far
    } else {
        collected(limit, so_far.push(rows.first()), rows.drop_first())
    }
}

proof fn lemma_collected(limit: nat, so_far: Seq<Json>, rows: Seq<Json>)
    requires
        so_far.len() <= limit,
    ensures
        collected(limit, so_far, rows) == so_far + rows.take(
            smaller(rows.len(), (limit - so_far.len()) as nat) as int,
        ),
    decreases rows.len(),
{
    let n = smaller(rows.len(), (limit - so_far.len()) as nat) as int;
    if rows.len() == 0 || so_far.len() >= limit {
        assert(so_far + rows.take(n) =~= so_far);
    } else {
        lemma_collected(limit, so_far.push(rows.first()), rows.drop_first());
        assert(so_far.push(rows.first()) + rows.drop_first().take(n - 1) =~= so_far + rows.take(n));
    }
}

/// A query collects its first rows, up to the limit.
pub proof fn law_query_collects_the_first_rows(limit: nat, rows: Seq<Json>)
    ensures
        collected(limit, seq![], rows) == rows.take(smaller(rows.len(), limit) as int),
{
    lemma_collected(limit, seq![], rows);
    let first = rows.take(smaller(rows.len(), limit) as int);
    assert(Seq::<Json>::empty() + first =~= first);
}

/// The rows that a query collects under a limit are the first of those under a larger one.
pub proof fn law_smaller_limit_gives_a_prefix(limit: nat, larger: nat, rows: Seq<Json>)
    requires
        limit <= larger,
    ensures
        collected(limit, seq![], rows).is_prefix_of(collected(larger, seq![], rows)),
{
    law_query_collects_the_first_rows(limit, rows);
    law_query_collects_the_first_rows(larger, rows);
}

/// The time of a query in milliseconds, of which the lower 64 bits are kept.
pub open spec fn kept_milliseconds(elapsed_ms: u128) -> i64 {
    elapsed_ms as i64
}

/// A query result; of the time in milliseconds the lower 64 bits are kept.
pub fn query_result(
    columns: Vec<ColumnMeta>,
    rows: Vec<serde_json::Value>,
    elapsed_ms: u128,
) -> (r: QueryResult)
    ensures
        r.columns == columns,
        r.rows == rows,
        r.execution_time_ms == elapsed_ms as i64,
        r.execution_time_ms == kept_milliseconds(elapsed_ms),
{
    QueryResult { columns, rows, execution_time_ms: elapsed_ms as i64 }
}

/// Collects the rows of a query that is saved to a file: full batches while rows come in, and
/// what is left at the end, even if that is nothing.
pub struct SaveBatcher {
    batch_size: usize,
    rows: Vec<serde_json::Value>,
}

impl SaveBatcher {
    /// The number of rows that make a batch full.
    pub closed spec fn batch_size(&self) -> nat {
        self.batch_size as nat
    }

    /// What the rows of the batch that is being filled hold.
    pub closed spec fn rows(&self) -> Seq<Json> {
        trees(self.rows@)
    }

    /// No rows yet.
    pub fn new(batch_size: usize) -> (r: Self)
        ensures
            r.batch_size() == batch_size,
            r.rows() == Seq::<Json>::empty(),
    {
        SaveBatcher { batch_size, rows: Vec::new() }
    }

    /// Takes one more row; hands out the batch if it is full.
    pub fn push(&mut self, row: serde_json::Value) -> (r: Option<Vec<serde_json::Value>>)
        ensures
            final(self).batch_size() == old(self).batch_size(),
            match r {
                Some(rows) => {
                    &&& old(self).rows().len() + 1 >= old(self).batch_size()
                    &&& trees(rows@) == old(self).rows().push(
                        json_tree(row),
                    )
                    &&& final(self).rows() == Seq::<Json>::empty()
                },
                None => {
                    &&& old(self).rows().len() + 1 < old(self).batch_size()
                    &&& final(self).rows() == old(self).rows().push(json_tree(row))
                },
            },
            forall|rest: Seq<Json>|
                save_batches(
                    old(self).batch_size(),
                    old(self).rows(),
                    seq![json_tree(row)] + rest,
                ) == (match r {
                    Some(rows) => seq![trees(rows@)],
                    None => seq![],
                }) + #[trigger] save_batches(final(self).batch_size(), final(self).rows(), rest),
    {
        proof {
            assert forall|size: nat, pending: Seq<Json>, rest: Seq<Json>|
                #[trigger] save_batches(size, pending, seq![json_tree(row)] + rest) == (
                if pending.len() + 1 >= size {
                    seq![pending.push(json_tree(row))] + save_batches(size, seq![], rest)
                } else {
                    save_batches(size, pending.push(json_tree(row)), rest)
                }) by {
                let all = seq![json_tree(row)] + rest;
                assert(all.first() == json_tree(row));
                assert(all.drop_first() =~= rest);
            }
            assert(forall|more: Seq<Seq<Json>>| Seq::<Seq<Json>>::empty() + more == more) by {
                assert forall|more: Seq<Seq<Json>>| Seq::<Seq<Json>>::empty() + more == more by {
                    assert(Seq::<Seq<Json>>::empty() + more =~= more);
                }
            }
        }
        self.rows.push(row);
        assert(self.rows() =~= old(self).rows().push(json_tree(row)));
        if self.rows.len() >= self.batch_size {
            let mut rows: Vec<serde_json::Value> = Vec::new();
            std::mem::swap(&mut rows, &mut self.rows);
            assert(self.rows() =~= Seq::<Json>::empty());
            Some(rows)
        } else {
            None
        }
    }

    /// What is left at the end.
    pub fn finish(self) -> (r: Vec<serde_json::Value>)
        ensures
            trees(r@) == self.rows(),
    {
        self.rows
    }
}

/// The batches that a `SaveBatcher` hands out while the given rows come in, and at their end, where
/// `pending` are the rows of the batch that is being filled.
pub open spec fn save_batches(
    batch_size: nat,
    pending: Seq<Json>,
    rows: Seq<Json>,
) -> Seq<Seq<Json>>
    decreases rows.len(),
{
    if rows.len() == 0 {
        seq![pending]
    } else {
        let filled = pending.push(rows.first());
        if filled.len() >= batch_size {
            seq![filled] + save_batches(batch_size, seq![], rows.drop_first())
        } else {
            save_batches(batch_size, filled, rows.drop_first())
        }
    }
}

/// The batches of a query that is saved hold all of its rows in their order.
pub proof fn law_saved_batches_hold_the_rows(
    batch_size: nat,
    pending: Seq<Json>,
    rows: Seq<Json>,
)
    ensures
        joined(save_batches(batch_size, pending, rows)) == pending + rows,
    decreases rows.len(),
{
    let batches = save_batches(batch_size, pending, rows);
    if rows.len() == 0 {
        assert(batches.drop_first() =~= seq![]);
        assert(joined(batches.drop_first()) =~= seq![]);
        assert(joined(batches) =~= pending + rows);
    } else {
        let filled = pending.push(rows.first());
        let rest = rows.drop_first();
        assert(filled + rest =~= pending + rows);
        if filled.len() >= batch_size {
            let more = save_batches(batch_size, seq![], rest);
            law_saved_batches_hold_the_rows(batch_size, seq![], rest);
            assert((seq![filled] + more).drop_first() =~= more);
            assert(joined(batches) =~= filled + rest);
        } else {
            law_saved_batches_hold_the_rows(batch_size, filled, rest);
        }
    }
}

/// What is seen of a batch are its columns and what its rows hold, in their order.
pub proof fn law_batch_is_seen_as_it_is(batch: QueryBatch, i: int)
    ensures
        optional_batch(None) is None,
        optional_batch(Some(batch)) matches Some(seen) && seen.columns.len() == batch.columns@.len()
            && seen.rows.len() == batch.rows@.len() && (0 <= i < batch.columns@.len()
            ==> seen.columns[i].name == batch.columns@[i].name@ && seen.columns[i].data_type
            == batch.columns@[i].data_type@) && (0 <= i < batch.rows@.len() ==> seen.rows[i]
            == json_tree(batch.rows@[i])),
{
}

/// At the start there are no rows and no columns; rows are asked for while fewer have come than
/// the limit allows, and none where it allows none.
pub proof fn law_rows_are_asked_for_up_to_the_limit(state: BatcherView, batch_size: nat, limit: nat)
    ensures
        BatcherView::start(batch_size, limit).rows.len() == 0,
        BatcherView::start(batch_size, limit).sent_rows == 0,
        BatcherView::start(batch_size, limit).columns is None,
        !BatcherView::start(batch_size, limit).emitted,
        BatcherView::start(batch_size, limit).batch_size == batch_size,
        BatcherView::start(batch_size, limit).limit == limit,
        BatcherView::start(batch_size, limit).wants_row() <==> limit > 0,
        state.wants_row() <==> state.sent_rows < state.limit,
{
}

/// Columns that become known are the columns from then on, and change nothing else.
pub proof fn law_columns_become_known(state: BatcherView, columns: Seq<ColumnView>)
    ensures
        state.with_columns(columns).known_columns() == columns,
        state.with_columns(columns).columns == Some(columns),
        state.with_columns(columns).rows == state.rows,
        state.with_columns(columns).sent_rows == state.sent_rows,
        state.with_columns(columns).emitted == state.emitted,
        state.with_columns(columns).batch_size == state.batch_size,
        state.with_columns(columns).limit == state.limit,
        state.columns is None ==> state.known_columns().len() == 0,
{
}

/// One more row is counted. Where it fills the batch, the rows before it and the row itself are
/// handed out with the columns, and a new batch is begun; where it does not, it waits after the
/// rows before it and nothing is handed out.
pub proof fn law_row_is_kept_or_handed_out(state: BatcherView, row: Json)
    ensures
        state.pushed(row).sent_rows == state.sent_rows + 1,
        state.pushed(row).columns == state.columns,
        state.pushed(row).batch_size == state.batch_size,
        state.pushed(row).limit == state.limit,
        state.rows.len() + 1 >= state.batch_size ==> state.batch_of(row) == Some(
            BatchView { columns: state.known_columns(), rows: state.rows + seq![row] },
        ) && state.pushed(row).rows.len() == 0 && state.pushed(row).emitted,
        state.rows.len() + 1 < state.batch_size ==> state.batch_of(row) is None && state.pushed(
            row,
        ).rows == state.rows + seq![row] && state.pushed(row).emitted == state.emitted,
{
    assert(state.rows.push(row) =~= state.rows + seq![row]);
}

/// At the end the rows that wait are handed out with the columns. Where none wait, a batch without
/// rows tells the columns, if there are any and no batch has told them.
pub proof fn law_what_is_left_at_the_end(state: BatcherView)
    ensures
        state.rows.len() > 0 ==> state.last_batch() == Some(
            BatchView { columns: state.known_columns(), rows: state.rows },
        ),
        state.rows.len() == 0 && !state.emitted && state.known_columns().len() > 0
            ==> state.last_batch() == Some(
            BatchView { columns: state.known_columns(), rows: seq![] },
        ),
        state.rows.len() == 0 && (state.emitted || state.known_columns().len() == 0)
            ==> state.last_batch() is None,
{
    if state.rows.len() == 0 {
        assert(state.rows =~= seq![]);
    }
}

/// A batch without rows comes alone: it only tells the columns of a query that has no rows.
pub proof fn law_empty_batch_comes_alone(state: BatcherView, rows: Seq<Json>, i: int)
    requires
        0 <= i < state.batches(rows).len(),
        state.batches(rows)[i].rows.len() == 0,
    ensures
        state.batches(rows).len() == 1,
        !state.emitted,
        state.rows.len() == 0,
        rows.len() == 0 || !state.wants_row(),
    decreases rows.len(),
{
    if rows.len() > 0 && state.wants_row() {
        let next = state.pushed(rows.first());
        let rest = next.batches(rows.drop_first());
        match state.batch_of(rows.first()) {
            Some(batch) => {
                assert(batch.rows.len() > 0);
                if i > 0 {
                    assert(state.batches(rows)[i] == rest[i - 1]);
                    law_empty_batch_comes_alone(next, rows.drop_first(), i - 1);
                }
            },
            None => {
                law_empty_batch_comes_alone(next, rows.drop_first(), i);
            },
        }
    }
}

/// Of the batches that are saved every one but the last is full, and the last one, which always
/// comes, has room left.
pub proof fn law_saved_batches_are_full(
    batch_size: nat,
    pending: Seq<Json>,
    rows: Seq<Json>,
    i: int,
)
    requires
        pending.len() < batch_size,
    ensures
        save_batches(batch_size, pending, rows).len() > 0,
        0 <= i < save_batches(batch_size, pending, rows).len() - 1 ==> save_batches(
            batch_size,
            pending,
            rows,
        )[i].len() == batch_size,
        save_batches(batch_size, pending, rows).last().len() < batch_size,
    decreases rows.len(),
{
    if rows.len() > 0 {
        let filled = pending.push(rows.first());
        let rest = rows.drop_first();
        if filled.len() >= batch_size {
            let more = save_batches(batch_size, seq![], rest);
            law_saved_batches_are_full(batch_size, seq![], rest, i - 1);
            if 0 < i < more.len() {
                assert((seq![filled] + more)[i] == more[i - 1]);
            }
            assert((seq![filled] + more).last() == more.last());
        } else {
            law_saved_batches_are_full(batch_size, filled, rest, i);
        }
    }
}

/// A time that has room is kept as it is, and one that has none differs from what is kept by a
/// multiple of 2^64.
pub proof fn law_time_is_kept(elapsed_ms: u128)
    ensures
        elapsed_ms <= 0x7fff_ffff_ffff_ffff ==> kept_milliseconds(elapsed_ms) == elapsed_ms,
        elapsed_ms % 0x1_0000_0000_0000_0000 == (if kept_milliseconds(elapsed_ms) >= 0 {
            kept_milliseconds(elapsed_ms) as int
        } else {
            kept_milliseconds(elapsed_ms) + 0x1_0000_0000_0000_0000
        }),
{
    assert(elapsed_ms % 0x1_0000_0000_0000_0000 == (if elapsed_ms as i64 >= 0 {
        elapsed_ms as i64 as u128
    } else {
        (elapsed_ms as i64 + 0x1_0000_0000_0000_0000) as u128
    })) by (bit_vector);
}

} // verus!
