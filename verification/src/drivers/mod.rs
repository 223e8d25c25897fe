//! What the drivers of the databases decide: connection settings, values as JSON, batches of rows.
pub mod clickhouse;
pub mod duckdb;
pub mod mysql;
