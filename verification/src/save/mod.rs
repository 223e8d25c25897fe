//! Query results as files: CSV, Excel, JSON, ORC and Parquet.
pub mod chunks;
pub mod columnar;
pub mod columns;
pub mod csv;
pub mod excel;
pub mod format;
pub mod json_array;
pub mod writer;
