//! Query results of SQL databases as JSON rows: reading them from drivers in batches, and saving
//! them as CSV, Excel, JSON, ORC or Parquet files.
pub mod drivers;
pub mod error;
pub mod hex;
pub mod json;
pub mod save;
pub mod session;
pub mod stream;
pub mod text;

use vstd::prelude::*;

verus! {

/// The number of rows that a query collects when no limit is given.
pub const DEFAULT_QUERY_LIMIT: u32 = 1000;

/// The number of rows in a batch when no size is given.
pub const DEFAULT_STREAM_BATCH_SIZE: u32 = 200;

/// The largest number of rows that a query collects: the limit that is given, or else the usual one.
pub open spec fn query_limit(limit: Option<u32>) -> nat {
    match limit {
        Some(value) => value as nat,
        None => DEFAULT_QUERY_LIMIT as nat,
    }
}

/// The number of rows in a batch: what is asked for, but at least one, or else the usual number.
pub open spec fn stream_batch_size(batch_size: Option<u32>) -> nat {
    match batch_size {
        Some(value) => if value == 0 {
            1
        } else {
            value as nat
        },
        None => DEFAULT_STREAM_BATCH_SIZE as nat,
    }
}

/// The largest number of rows that a query collects.
pub fn resolve_query_limit(limit: Option<u32>) -> (r: usize)
    ensures
        r == query_limit(limit),
        r == (match limit {
            Some(value) => value,
            None => DEFAULT_QUERY_LIMIT,
        }),
{
    match limit {
        Some(value) => value as usize,
        None => DEFAULT_QUERY_LIMIT as usize,
    }
}

/// The number of rows in a batch: what is asked for, but at least one.
pub fn resolve_stream_batch_size(batch_size: Option<u32>) -> (r: usize)
    ensures
        r == stream_batch_size(batch_size),
        r == (match batch_size {
            Some(0) => 1,
            Some(value) => value,
            None => DEFAULT_STREAM_BATCH_SIZE,
        }),
{
    let size: u32 = match batch_size {
        Some(value) => value,
        None => DEFAULT_STREAM_BATCH_SIZE,
    };
    if size == 0 {
        1
    } else {
        size as usize
    }
}

/// Name and type of a column of a query result.
#[derive(Debug)]
pub struct ColumnMeta {
    pub name: String,
    pub data_type: String,
}

/// Name and type of a column, as text.
pub struct ColumnView {
    pub name: Seq<char>,
    pub data_type: Seq<char>,
}

impl View for ColumnMeta {
    type V = ColumnView;

    open spec fn view(&self) -> ColumnView {
        ColumnView { name: self.name@, data_type: self.data_type@ }
    }
}

impl Clone for ColumnMeta {
    fn clone(&self) -> (r: Self)
        ensures
            r == *self,
    {
        ColumnMeta { name: self.name.clone(), data_type: self.data_type.clone() }
    }
}

/// Names and types of some columns.
pub open spec fn column_views(columns: Seq<ColumnMeta>) -> Seq<ColumnView> {
    columns.map_values(|column: ColumnMeta| column@)
}

/// Some rows of a query result, with its columns.
pub struct QueryBatch {
    pub columns: Vec<ColumnMeta>,
    pub rows: Vec<serde_json::Value>,
}

/// A query result, with the time that the query took.
pub struct QueryResult {
    pub columns: Vec<ColumnMeta>,
    pub rows: Vec<serde_json::Value>,
    pub execution_time_ms: i64,
}

/// What is seen of a column is its name and its type, in the order of the columns.
pub proof fn law_columns_are_seen_as_they_are(columns: Seq<ColumnMeta>, i: int)
    requires
        0 <= i < columns.len(),
    ensures
        column_views(columns).len() == columns.len(),
        column_views(columns)[i].name == columns[i].name@,
        column_views(columns)[i].data_type == columns[i].data_type@,
{
}

/// A limit that is given counts, also if it is zero; without one a query collects a thousand rows.
pub proof fn law_limit_that_is_given_counts(limit: u32)
    ensures
        query_limit(Some(limit)) == limit,
        query_limit(None) == 1000,
{
}

/// A batch has as many rows as are asked for, but at least one; two hundred where nothing is asked
/// for.
pub proof fn law_batch_has_at_least_one_row(batch_size: Option<u32>)
    ensures
        stream_batch_size(batch_size) >= 1,
        batch_size matches Some(size) ==> (size >= 1 ==> stream_batch_size(batch_size) == size) && (
        size == 0 ==> stream_batch_size(batch_size) == 1),
        batch_size is None ==> stream_batch_size(batch_size) == 200,
{
}

} // verus!
