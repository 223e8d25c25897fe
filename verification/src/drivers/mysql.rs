//! MySQL, and the databases that speak its protocol: how to reach a server, and its values as
//! JSON.
use vstd::prelude::*;
use vstd::string::*;

use crate::error::{DbNativeResult, Error};
use crate::hex::{encode_hex, hex_text};
use crate::json::{
    bool_value, cell_of, column_names, f64_to_json, float_json, json_tree,
    law_row_gives_back_its_values, law_row_has_no_other_cells, null_value, row_entries, row_object,
    signed_value, text_value, trees, unsigned_value, FloatCell, Json,
};
use crate::stream::{
    clone_columns, collected, optional_batch, query_result, BatcherView, RowBatcher,
};
use crate::{column_views, ColumnMeta, QueryBatch, QueryResult};

verus! {

/// A database that speaks the MySQL protocol.
#[derive(Clone, Copy, Debug)]
pub enum MySqlFlavor {
    MySql,
    Doris,
    StarRocks,
}

impl MySqlFlavor {
    /// The name of the database.
    pub open spec fn name(self) -> Seq<char> {
        match self {
            MySqlFlavor::MySql => "MySQL"@,
            MySqlFlavor::Doris => "Doris"@,
            MySqlFlavor::StarRocks => "StarRocks"@,
        }
    }

    /// The name of the database.
    pub fn label(self) -> (r: &'static str)
        ensures
            r@ == self.name(),
    {
        match self {
            MySqlFlavor::MySql => "MySQL",
            MySqlFlavor::Doris => "Doris",
            MySqlFlavor::StarRocks => "StarRocks",
        }
    }
}

/// What a pool of connections is told before it connects.
pub struct MySqlSettings {
    pub host: String,
    pub port: u16,
    pub database: String,
    pub username: String,
    pub password: String,
    pub charset: String,
    pub max_connections: u32,
}

impl MySqlSettings {
    /// The settings for a server: text in UTF-8, and at most five connections.
    pub fn new(
        host: String,
        port: u16,
        database: String,
        username: String,
        password: String,
    ) -> (r: Self)
        ensures
            r.host == host,
            r.port == port,
            r.database == database,
            r.username == username,
            r.password == password,
            r.charset@ == "utf8mb4"@,
            r.max_connections == 5,
    {
        MySqlSettings {
            host,
            port,
            database,
            username,
            password,
            charset: "utf8mb4".to_owned(),
            max_connections: 5,
        }
    }
}

/// A pool of connections until it is closed.
pub struct MySqlProtocolDriver<P> {
    pub pool: Option<P>,
    pub flavor: MySqlFlavor,
}

impl<P> MySqlProtocolDriver<P> {
    /// A driver for the given database.
    pub fn new(flavor: MySqlFlavor, pool: P) -> (r: Self)
        ensures
            r.pool == Some(pool),
            r.flavor == flavor,
    {
        MySqlProtocolDriver { pool: Some(pool), flavor }
    }

    /// The pool, unless it is closed.
    pub fn pool(&self) -> (r: DbNativeResult<&P>)
        ensures
            match r {
                Ok(pool) => self.pool == Some(*pool),
                Err(error) => self.pool is None && error.reason@ == self.flavor.name()
                    + " connection is already closed"@,
            },
    {
        match &self.pool {
            Some(pool) => Ok(pool),
            None => {
                let mut reason: String = self.flavor.label().to_owned();
                reason.append(" connection is already closed");
                Err(Error { reason })
            },
        }
    }

    /// Gives up the pool, which the caller then closes; `None` where that has been done before.
    pub fn close(&mut self) -> (r: Option<P>)
        ensures
            r == old(self).pool,
            final(self).pool is None,
            final(self).flavor == old(self).flavor,
    {
        let mut pool: Option<P> = None;
        std::mem::swap(&mut pool, &mut self.pool);
        pool
    }
}

/// A value of a MySQL column: what it reads as, for each type as which it can be read. Decimal
/// numbers, dates and times are given by their text.
pub struct MySqlCell {
    pub is_null: bool,
    pub as_i8: Option<i8>,
    pub as_i16: Option<i16>,
    pub as_i32: Option<i32>,
    pub as_i64: Option<i64>,
    pub as_u8: Option<u8>,
    pub as_u16: Option<u16>,
    pub as_u32: Option<u32>,
    pub as_u64: Option<u64>,
    pub as_bool: Option<bool>,
    pub as_float: Option<FloatCell>,
    pub as_decimal: Option<String>,
    pub as_big_decimal: Option<String>,
    pub as_json: Option<serde_json::Value>,
    pub as_text: Option<String>,
    pub as_bytes: Option<Vec<u8>>,
    pub as_date: Option<String>,
    pub as_time: Option<String>,
    pub as_date_time: Option<String>,
    pub as_utc: Option<String>,
    pub as_uuid: Option<String>,
    pub type_label: String,
}

/// What a value is in JSON: what it reads as under the first type that fits it, integers before
/// truth values, those before other numbers, documents before text, text before bytes, and bytes
/// before dates and times.
pub open spec fn mysql_json(cell: MySqlCell) -> Json {
    if cell.is_null {
        Json::Null
    } else if cell.as_i8 is Some {
        Json::Integer(cell.as_i8->0 as int)
    } else if cell.as_i16 is Some {
        Json::Integer(cell.as_i16->0 as int)
    } else if cell.as_i32 is Some {
        Json::Integer(cell.as_i32->0 as int)
    } else if cell.as_i64 is Some {
        Json::Integer(cell.as_i64->0 as int)
    } else if cell.as_u8 is Some {
        Json::Integer(cell.as_u8->0 as int)
    } else if cell.as_u16 is Some {
        Json::Integer(cell.as_u16->0 as int)
    } else if cell.as_u32 is Some {
        Json::Integer(cell.as_u32->0 as int)
    } else if cell.as_u64 is Some {
        Json::Integer(cell.as_u64->0 as int)
    } else if cell.as_bool is Some {
        Json::Bool(cell.as_bool->0)
    } else if cell.as_float is Some {
        float_json(cell.as_float->0)
    } else if cell.as_decimal is Some {
        Json::Text(cell.as_decimal->0@)
    } else if cell.as_big_decimal is Some {
        Json::Text(cell.as_big_decimal->0@)
    } else if cell.as_json is Some {
        json_tree(cell.as_json->0)
    } else if cell.as_text is Some {
        Json::Text(cell.as_text->0@)
    } else if cell.as_bytes is Some {
        Json::Text("0x"@ + hex_text(cell.as_bytes->0@))
    } else if cell.as_date is Some {
        Json::Text(cell.as_date->0@)
    } else if cell.as_time is Some {
        Json::Text(cell.as_time->0@)
    } else if cell.as_date_time is Some {
        Json::Text(cell.as_date_time->0@)
    } else if cell.as_utc is Some {
        Json::Text(cell.as_utc->0@)
    } else if cell.as_uuid is Some {
        Json::Text(cell.as_uuid->0@)
    } else {
        Json::Text("<unsupported:"@ + cell.type_label@ + ">"@)
    }
}

/// A value in JSON: what it reads as under the first type that fits it.
pub fn value_from_cell(cell: MySqlCell) -> (r: serde_json::Value)
    ensures
        json_tree(r) == mysql_json(cell),
{
    if cell.is_null {
        return null_value();
    }
    if let Some(value) = cell.as_i8 {
        return signed_value(value as i64);
    }
    if let Some(value) = cell.as_i16 {
        return signed_value(value as i64);
    }
    if let Some(value) = cell.as_i32 {
        return signed_value(value as i64);
    }
    if let Some(value) = cell.as_i64 {
        return signed_value(value);
    }
    if let Some(value) = cell.as_u8 {
        return unsigned_value(value as u64);
    }
    if let Some(value) = cell.as_u16 {
        return unsigned_value(value as u64);
    }
    if let Some(value) = cell.as_u32 {
        return unsigned_value(value as u64);
    }
    if let Some(value) = cell.as_u64 {
        return unsigned_value(value);
    }
    if let Some(value) = cell.as_bool {
        return bool_value(value);
    }
    if let Some(value) = cell.as_float {
        return f64_to_json(value);
    }
    if let Some(value) = cell.as_decimal {
        return text_value(value);
    }
    if let Some(value) = cell.as_big_decimal {
        return text_value(value);
    }
    if let Some(value) = cell.as_json {
        return value;
    }
    if let Some(value) = cell.as_text {
        return text_value(value);
    }
    if let Some(value) = cell.as_bytes {
        let mut text: String = "0x".to_owned();
        text.append(encode_hex(value.as_slice()).as_str());
        return text_value(text);
    }
    if let Some(value) = cell.as_date {
        return text_value(value);
    }
    if let Some(value) = cell.as_time {
        return text_value(value);
    }
    if let Some(value) = cell.as_date_time {
        return text_value(value);
    }
    if let Some(value) = cell.as_utc {
        return text_value(value);
    }
    if let Some(value) = cell.as_uuid {
        return text_value(value);
    }
    let mut text: String = "<unsupported:".to_owned();
    text.append(cell.type_label.as_str());
    text.append(">");
    text_value(text)
}

/// A row of a MySQL query: its columns, and a value for each of them.
pub struct MySqlRow {
    pub columns: Vec<ColumnMeta>,
    pub cells: Vec<MySqlCell>,
}

/// What the values of a row are in JSON.
pub open spec fn cells_json(cells: Seq<MySqlCell>) -> Seq<Json> {
    cells.map_values(|cell: MySqlCell| mysql_json(cell))
}

/// What a row is in JSON.
pub open spec fn row_json(row: MySqlRow) -> Json {
    Json::Object(
        row_entries(column_names(row.columns@), cells_json(row.cells@)),
    )
}

/// A row in JSON: an object with a value for each column.
pub fn row_to_json(row: MySqlRow) -> (r: serde_json::Value)
    requires
        row.columns@.len() == row.cells@.len(),
    ensures
        json_tree(r) == row_json(row),
{
    let mut contents: Vec<serde_json::Value> = Vec::new();
    let MySqlRow { columns, cells } = row;
    for cell in it: cells.into_iter()
        invariant
            it.seq() == cells@,
            contents@.len() == it.index(),
            forall|j: int|
                0 <= j < it.index() ==> json_tree(#[trigger] contents@[j])
                    == mysql_json(cells@[j]),
    {
        contents.push(value_from_cell(cell));
    }
    assert(trees(contents@) =~= cells_json(cells@));
    row_object(columns.as_slice(), contents)
}

/// The columns of some rows: those of the first row, none where there are no rows.
pub open spec fn columns_of_rows(rows: Seq<MySqlRow>) -> Seq<ColumnMeta> {
    if rows.len() > 0 {
        rows[0].columns@
    } else {
        seq![]
    }
}

/// The columns of some rows: those of the first row, none where there are no rows.
pub fn columns_from_rows(rows: &[MySqlRow]) -> (r: Vec<ColumnMeta>)
    ensures
        r@ == columns_of_rows(rows@),
{
    if rows.len() > 0 {
        clone_columns(rows[0].columns.as_slice())
    } else {
        Vec::new()
    }
}

/// The columns of a query: as the server describes them, or else those of the rows.
pub open spec fn columns_of_query(
    described: Option<Seq<ColumnMeta>>,
    rows: Seq<MySqlRow>,
) -> Seq<ColumnMeta> {
    match described {
        Some(columns) => columns,
        None => columns_of_rows(rows),
    }
}

/// The columns of a query: as the server describes them, or else those of the rows.
pub fn query_columns(described: Option<Vec<ColumnMeta>>, rows: &[MySqlRow]) -> (r: Vec<ColumnMeta>)
    ensures
        r@ == (match described {
            Some(columns) => columns@,
            None => columns_of_rows(rows@),
        }),
{
    match described {
        Some(columns) => columns,
        None => columns_from_rows(rows),
    }
}

/// Whether each row has a value for each of its columns.
pub open spec fn rows_complete(rows: Seq<MySqlRow>) -> bool {
    forall|i: int| 0 <= i < rows.len() ==> (#[trigger] rows[i]).columns@.len() == rows[i].cells@.len()
}

/// The result of a query whose rows have all been read.
fn collected_result(
    described: Option<Vec<ColumnMeta>>,
    rows: Vec<MySqlRow>,
    elapsed_ms: u128,
) -> (r: QueryResult)
    requires
        rows_complete(rows@),
    ensures
        r.columns@ == (match described {
            Some(columns) => columns@,
            None => columns_of_rows(rows@),
        }),
        trees(r.rows@) == rows@.map_values(|row: MySqlRow| row_json(row)),
        r.execution_time_ms == elapsed_ms as i64,
{
    let columns = query_columns(described, rows.as_slice());
    let mut contents: Vec<serde_json::Value> = Vec::new();
    for row in it: rows.into_iter()
        invariant
            it.seq() == rows@,
            rows_complete(rows@),
            contents@.len() == it.index(),
            forall|j: int|
                0 <= j < it.index() ==> json_tree(#[trigger] contents@[j]) == row_json(
                    rows@[j],
                ),
    {
        contents.push(row_to_json(row));
    }
    assert(trees(contents@) =~= rows@.map_values(|row: MySqlRow| row_json(row)));
    query_result(columns, contents, elapsed_ms)
}

/// Collects the rows of a query up to a limit.
pub struct MySqlCollector {
    limit: usize,
    described: Option<Vec<ColumnMeta>>,
    rows: Vec<MySqlRow>,
}

impl MySqlCollector {
    #[verifier::type_invariant]
    spec fn holds_complete_rows(self) -> bool {
        rows_complete(self.rows@)
    }

    /// The largest number of rows.
    pub closed spec fn limit(&self) -> nat {
        self.limit as nat
    }

    /// The columns as the server describes them, if it does.
    pub closed spec fn described(&self) -> Option<Seq<ColumnMeta>> {
        match self.described {
            Some(columns) => Some(columns@),
            None => None,
        }
    }

    /// The rows so far as they came.
    pub closed spec fn source(&self) -> Seq<MySqlRow> {
        self.rows@
    }

    /// What the rows so far are in JSON.
    pub open spec fn rows(&self) -> Seq<Json> {
        self.source().map_values(|row: MySqlRow| row_json(row))
    }

    /// No rows yet.
    pub fn new(limit: usize, described: Option<Vec<ColumnMeta>>) -> (r: MySqlCollector)
        ensures
            r.limit() == limit,
            r.described() == (match described {
                Some(columns) => Some(columns@),
                None => None,
            }),
            r.source() == Seq::<MySqlRow>::empty(),
            r.rows() == Seq::<Json>::empty(),
    {
        MySqlCollector { limit, described, rows: Vec::new() }
    }

    /// Whether another row is to be asked for.
    pub fn wants_row(&self) -> (r: bool)
        ensures
            r == (self.rows().len() < self.limit()),
    {
        self.rows.len() < self.limit
    }

    /// Takes one more row.
    pub fn push(&mut self, row: MySqlRow)
        requires
            old(self).rows().len() < old(self).limit(),
            row.columns@.len() == row.cells@.len(),
        ensures
            final(self).limit() == old(self).limit(),
            final(self).described() == old(self).described(),
            final(self).source() == old(self).source().push(row),
            final(self).rows() == old(self).rows().push(row_json(row)),
            forall|rest: Seq<Json>|
                #[trigger] collected(final(self).limit(), final(self).rows(), rest) == collected(
                    old(self).limit(),
                    old(self).rows(),
                    seq![row_json(row)] + rest,
                ),
    {
        proof {
            use_type_invariant(&*self);
        }
        let mut rows: Vec<MySqlRow> = Vec::new();
        std::mem::swap(&mut rows, &mut self.rows);
        rows.push(row);
        self.rows = rows;
        assert(self.rows() =~= old(self).rows().push(row_json(row)));
        assert forall|rest: Seq<Json>|
            #[trigger] collected(self.limit(), self.rows(), rest) == collected(
                old(self).limit(),
                old(self).rows(),
                seq![row_json(row)] + rest,
            ) by {
            let all = seq![row_json(row)] + rest;
            assert(all.first() == row_json(row));
            assert(all.drop_first() =~= rest);
        }
    }

    /// The rows, with the columns and the time that the query took. The columns are those that the
    /// server describes, or else those of the first row.
    pub fn finish(self, elapsed_ms: u128) -> (r: QueryResult)
        ensures
            r.columns@ == (match self.described() {
                Some(columns) => columns,
                None => columns_of_rows(self.source()),
            }),
            r.columns@ == columns_of_query(self.described(), self.source()),
            trees(r.rows@) == self.rows(),
            r.execution_time_ms == elapsed_ms as i64,
    {
        proof {
            use_type_invariant(&self);
        }
        collected_result(self.described, self.rows, elapsed_ms)
    }
}

/// Hands out the rows of a query in batches.
pub struct MySqlStream {
    batcher: RowBatcher,
}

impl View for MySqlStream {
    type V = BatcherView;

    closed spec fn view(&self) -> BatcherView {
        self.batcher@
    }
}

/// The rows that are being collected, once the columns are known: where the server did not
/// describe them, they are those of the row.
pub open spec fn with_columns_of(
    state: BatcherView,
    row: MySqlRow,
) -> BatcherView {
    match state.columns {
        Some(_) => state,
        None => state.with_columns(column_views(row.columns@)),
    }
}

impl MySqlStream {
    /// Before the first row.
    pub fn new(batch_size: usize, limit: usize, described: Option<Vec<ColumnMeta>>) -> (r: Self)
        ensures
            r@ == (match described {
                Some(columns) => BatcherView::start(
                    batch_size as nat,
                    limit as nat,
                ).with_columns(column_views(columns@)),
                None => BatcherView::start(batch_size as nat, limit as nat),
            }),
    {
        let mut batcher = RowBatcher::new(batch_size, limit);
        if let Some(columns) = described {
            batcher.set_columns(columns);
        }
        MySqlStream { batcher }
    }

    /// Whether another row is to be asked for.
    pub fn wants_row(&self) -> (r: bool)
        ensures
            r == self@.wants_row(),
    {
        self.batcher.wants_row()
    }

    /// Takes one more row; hands out the batch if it is full.
    pub fn push(&mut self, row: MySqlRow) -> (r: Option<QueryBatch>)
        requires
            old(self)@.wants_row(),
            row.columns@.len() == row.cells@.len(),
        ensures
            final(self)@ == with_columns_of(old(self)@, row).pushed(row_json(row)),
            optional_batch(r) == with_columns_of(old(self)@, row).batch_of(
                row_json(row),
            ),
    {
        if !self.batcher.has_columns() {
            self.batcher.set_columns(clone_columns(row.columns.as_slice()));
        }
        self.batcher.push(row_to_json(row))
    }

    /// Hands out what is left at the end.
    pub fn finish(self) -> (r: Option<QueryBatch>)
        ensures
            optional_batch(r) == self@.last_batch(),
    {
        self.batcher.finish()
    }
}

/// Whether every integer type under which a value reads, reads it as `n`.
pub open spec fn reads_as(cell: MySqlCell, n: int) -> bool {
    &&& cell.as_i8 is Some ==> cell.as_i8->0 == n
    &&& cell.as_i16 is Some ==> cell.as_i16->0 == n
    &&& cell.as_i32 is Some ==> cell.as_i32->0 == n
    &&& cell.as_i64 is Some ==> cell.as_i64->0 == n
    &&& cell.as_u8 is Some ==> cell.as_u8->0 == n
    &&& cell.as_u16 is Some ==> cell.as_u16->0 == n
    &&& cell.as_u32 is Some ==> cell.as_u32->0 == n
    &&& cell.as_u64 is Some ==> cell.as_u64->0 == n
}

/// Whether a value reads under some integer type.
pub open spec fn reads_as_integer(cell: MySqlCell) -> bool {
    cell.as_i8 is Some || cell.as_i16 is Some || cell.as_i32 is Some || cell.as_i64 is Some
        || cell.as_u8 is Some || cell.as_u16 is Some || cell.as_u32 is Some || cell.as_u64 is Some
}

/// A value that is not null and reads as the integer `n` under every integer type that fits it is
/// the integer `n` in JSON, whatever else it reads as.
pub proof fn law_integers_keep_their_value(cell: MySqlCell, n: int)
    requires
        !cell.is_null,
        reads_as_integer(cell),
        reads_as(cell, n),
    ensures
        mysql_json(cell) == Json::Integer(n),
{
}

/// What a value reads as under the narrowest integer type with a sign that fits it goes before
/// every other reading, and types with a sign go before those without.
pub proof fn law_first_integer_counts(cell: MySqlCell)
    requires
        !cell.is_null,
    ensures
        cell.as_i8 matches Some(n) ==> mysql_json(cell) == Json::Integer(n as int),
        cell.as_i8 is None ==> (cell.as_i16 matches Some(n) ==> mysql_json(cell) == Json::Integer(
            n as int,
        )),
        cell.as_i8 is None && cell.as_i16 is None ==> (cell.as_i32 matches Some(n) ==> mysql_json(
            cell,
        ) == Json::Integer(n as int)),
        cell.as_i8 is None && cell.as_i16 is None && cell.as_i32 is None ==> (
        cell.as_i64 matches Some(n) ==> mysql_json(cell) == Json::Integer(n as int)),
        cell.as_i8 is None && cell.as_i16 is None && cell.as_i32 is None && cell.as_i64 is None
            ==> (cell.as_u8 matches Some(n) ==> mysql_json(cell) == Json::Integer(n as int))
            && (cell.as_u8 is None ==> (cell.as_u16 matches Some(n) ==> mysql_json(cell)
            == Json::Integer(n as int))) && (cell.as_u8 is None && cell.as_u16 is None ==> (
        cell.as_u32 matches Some(n) ==> mysql_json(cell) == Json::Integer(n as int))) && (
        cell.as_u8 is None && cell.as_u16 is None && cell.as_u32 is None ==> (
        cell.as_u64 matches Some(n) ==> mysql_json(cell) == Json::Integer(n as int))),
{
}

/// A value that is null is null in JSON, whatever it reads as.
pub proof fn law_null_is_null(cell: MySqlCell)
    requires
        cell.is_null,
    ensures
        mysql_json(cell) == Json::Null,
{
}

/// A value that reads under no integer type is the truth value that it reads as, or else the
/// number or the digits that it reads as.
pub proof fn law_truth_values_and_numbers_are_kept(cell: MySqlCell)
    requires
        !cell.is_null,
        !reads_as_integer(cell),
    ensures
        cell.as_bool matches Some(flag) ==> mysql_json(cell) == Json::Bool(flag),
        cell.as_bool is None ==> (cell.as_float matches Some(float) ==> mysql_json(cell) == (
        match float.number {
            Some(number) => json_tree(number),
            None => Json::Text(float.text@),
        })),
        cell.as_bool is None && cell.as_float is None ==> (cell.as_decimal matches Some(digits)
            ==> mysql_json(cell) == Json::Text(digits@)),
        cell.as_bool is None && cell.as_float is None && cell.as_decimal is None ==> (
        cell.as_big_decimal matches Some(digits) ==> mysql_json(cell) == Json::Text(digits@)),
{
}

/// Whether a value reads as a number or a truth value.
pub open spec fn reads_as_number(cell: MySqlCell) -> bool {
    reads_as_integer(cell) || cell.as_bool is Some || cell.as_float is Some || cell.as_decimal
        is Some || cell.as_big_decimal is Some
}

/// A value that reads as no number and no truth value is the document that it reads as, or else the
/// text, or else the bytes in hexadecimal digits after `0x`.
pub proof fn law_documents_texts_and_bytes_are_kept(cell: MySqlCell)
    requires
        !cell.is_null,
        !reads_as_number(cell),
    ensures
        cell.as_json matches Some(document) ==> mysql_json(cell) == json_tree(document),
        cell.as_json is None ==> (cell.as_text matches Some(text) ==> mysql_json(cell)
            == Json::Text(text@)),
        cell.as_json is None && cell.as_text is None ==> (cell.as_bytes matches Some(bytes)
            ==> mysql_json(cell) == Json::Text(seq!['0', 'x'] + hex_text(bytes@))),
{
    reveal_strlit("0x");
    assert("0x"@ =~= seq!['0', 'x']);
}

/// A value that reads as none of these is the date, the time, the point in time or the identifier
/// that it reads as; where it reads as nothing at all, its type is told.
pub proof fn law_dates_and_times_are_kept(cell: MySqlCell)
    requires
        !cell.is_null,
        !reads_as_number(cell),
        cell.as_json is None,
        cell.as_text is None,
        cell.as_bytes is None,
    ensures
        cell.as_date matches Some(date) ==> mysql_json(cell) == Json::Text(date@),
        cell.as_date is None ==> (cell.as_time matches Some(time) ==> mysql_json(cell)
            == Json::Text(time@)),
        cell.as_date is None && cell.as_time is None ==> (cell.as_date_time matches Some(time)
            ==> mysql_json(cell) == Json::Text(time@)),
        cell.as_date is None && cell.as_time is None && cell.as_date_time is None ==> (
        cell.as_utc matches Some(time) ==> mysql_json(cell) == Json::Text(time@)),
        cell.as_date is None && cell.as_time is None && cell.as_date_time is None && cell.as_utc
            is None ==> (cell.as_uuid matches Some(id) ==> mysql_json(cell) == Json::Text(id@)),
        cell.as_date is None && cell.as_time is None && cell.as_date_time is None && cell.as_utc
            is None && cell.as_uuid is None ==> mysql_json(cell) == Json::Text(
            "<unsupported:"@ + cell.type_label@ + ">"@,
        ),
{
}

/// The cell of a row under the name of a column is the value of that column in JSON, where no later
/// column has the same name, and there are no other cells.
pub proof fn law_row_holds_its_values(row: MySqlRow, i: int, name: Seq<char>)
    requires
        row.columns@.len() == row.cells@.len(),
        0 <= i < row.columns@.len(),
    ensures
        (forall|j: int|
            i < j < row.columns@.len() ==> (#[trigger] row.columns@[j]).name@
                != row.columns@[i].name@) ==> cell_of(row_json(row), row.columns@[i].name@) == Some(
            mysql_json(row.cells@[i]),
        ),
        (forall|j: int| 0 <= j < row.columns@.len() ==> (#[trigger] row.columns@[j]).name@ != name)
            ==> cell_of(row_json(row), name) is None,
{
    let columns = row.columns@;
    let names = column_names(columns);
    let values = cells_json(row.cells@);
    if forall|j: int| i < j < columns.len() ==> (#[trigger] columns[j]).name@ != columns[i].name@ {
        assert forall|j: int| i < j < names.len() implies names[j] != names[i] by {
            assert(columns[j].name@ != columns[i].name@);
        }
        law_row_gives_back_its_values(names, values, i);
    }
    if forall|j: int| 0 <= j < columns.len() ==> (#[trigger] columns[j]).name@ != name {
        assert(!names.contains(name)) by {
            if names.contains(name) {
                let j = choose|j: int| 0 <= j < names.len() && names[j] == name;
                assert(columns[j].name@ == name);
            }
        }
        law_row_has_no_other_cells(names, values, name);
    }
}

/// The columns of some rows are those of the first row; no rows have none.
pub proof fn law_first_row_has_the_columns(first: MySqlRow, rest: Seq<MySqlRow>)
    ensures
        columns_of_rows(seq![first] + rest) == first.columns@,
        columns_of_rows(seq![]).len() == 0,
{
}

/// Columns that the server described stay; where it described none, those of the row are taken, and
/// nothing else changes.
pub proof fn law_described_columns_stay(state: BatcherView, row: MySqlRow)
    ensures
        state.columns is Some ==> with_columns_of(state, row) == state,
        state.columns is None ==> with_columns_of(state, row).columns == Some(
            column_views(row.columns@),
        ),
        with_columns_of(state, row).rows == state.rows,
        with_columns_of(state, row).batch_size == state.batch_size,
        with_columns_of(state, row).limit == state.limit,
        with_columns_of(state, row).emitted == state.emitted,
        with_columns_of(state, row).sent_rows == state.sent_rows,
{
}

/// The rows of a query are complete exactly where each has a value for each of its columns.
pub proof fn law_complete_rows(rows: Seq<MySqlRow>, i: int)
    requires
        0 <= i < rows.len(),
    ensures
        rows_complete(rows) ==> rows[i].columns@.len() == rows[i].cells@.len(),
        rows[i].columns@.len() != rows[i].cells@.len() ==> !rows_complete(rows),
        rows_complete(seq![]),
{
}

/// Each database has its own name.
pub proof fn law_names_of_databases()
    ensures
        MySqlFlavor::MySql.name() == "MySQL"@,
        MySqlFlavor::Doris.name() == "Doris"@,
        MySqlFlavor::StarRocks.name() == "StarRocks"@,
{
}

/// The columns that the server describes are those of the query; where it describes none, those of
/// the first row are.
pub proof fn law_columns_of_a_query(
    described: Seq<ColumnMeta>,
    first: MySqlRow,
    rest: Seq<MySqlRow>,
)
    ensures
        columns_of_query(Some(described), seq![first] + rest) == described,
        columns_of_query(Some(described), seq![]) == described,
        columns_of_query(None, seq![first] + rest) == first.columns@,
        columns_of_query(None, seq![]).len() == 0,
{
}

/// The rows that are collected are those that came, in their order, each in JSON.
pub proof fn law_collected_rows(collector: MySqlCollector, i: int)
    ensures
        collector.rows().len() == collector.source().len(),
        0 <= i < collector.source().len() ==> collector.rows()[i] == row_json(
            collector.source()[i],
        ),
{
}

} // verus!
