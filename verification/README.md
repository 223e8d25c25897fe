# db_native

Query results of SQL databases as JSON rows, for a Node.js addon: they are read from ClickHouse,
DuckDB, MySQL, Doris and StarRocks in batches, and saved as CSV, Excel, JSON, ORC or Parquet files.

The library under `src/` decides everything that can be decided without a connection or a file, and
its contracts are proved by Verus:

- `drivers/`: connection settings, values of each database as JSON, answers read line by line,
- `stream`: rows collected into batches, and limits,
- `save/`: file formats and modes, what to write for each batch and at the end, column types,
- `session`: the record of the views of a session,
- `json`, `text`, `hex`, `error`: what the others are made of.

The calls into `serde_json` stand in `json`, `drivers/clickhouse`, `save/json_array` and
`save/writer`, those into `csv` in `save/csv`, and those into `chrono` and `uuid` in `session`. What
is believed of these calls is said above each of them.

`app/` is the addon: it connects, opens files, runs threads, and does what the library says.
Floating-point numbers pass through the library inside JSON values and are read in `app/` only.
