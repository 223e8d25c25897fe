use db_native::drivers::clickhouse::{
    build_columns, normalize_clickhouse_url, parse_string_array, parse_value_array, values_to_row,
    ClickHouseDriver, ClickHouseResponseParser, ClickHouseSettings, ClickHouseStream,
};
use db_native::error::Error;
use serde_json::Value;

fn reason<T>(outcome: Result<T, Error>) -> String {
    match outcome {
        Ok(_) => panic!("expected an error"),
        Err(error) => error.reason,
    }
}

fn strings(items: &[&str]) -> Vec<String> {
    items.iter().map(|item| item.to_string()).collect()
}

#[test]
fn parser_builds_rows_with_limit() {
    let mut parser = ClickHouseResponseParser::new(2);

    parser
        .ingest_line(r#"["id","name","score"]"#)
        .expect("column names should parse");
    parser
        .ingest_line(r#"["UInt64","String","Float64"]"#)
        .expect("column types should parse");
    parser
        .ingest_line(r#"[1,"alice",98.5]"#)
        .expect("first row should parse");
    parser
        .ingest_line(r#"[2,"bob",87.0]"#)
        .expect("second row should parse");
    parser
        .ingest_line(r#"[3,"carol",91.2]"#)
        .expect("extra row should be ignored after limit");

    let (columns, rows) = parser.finish().expect("parser should finish");

    assert_eq!(columns.len(), 3);
    assert_eq!(rows.len(), 2);
    assert_eq!(rows[0]["name"], "alice");
    assert_eq!(rows[1]["score"], 87.0);
}

#[test]
fn parser_supports_empty_result_set() {
    let mut parser = ClickHouseResponseParser::new(1000);
    parser
        .ingest_line(r#"["id","name"]"#)
        .expect("column names should parse");
    parser
        .ingest_line(r#"["UInt64","String"]"#)
        .expect("column types should parse");

    let (columns, rows) = parser.finish().expect("parser should finish");

    assert_eq!(columns.len(), 2);
    assert!(rows.is_empty());
}

#[test]
fn normalizes_plain_host_to_http_url() {
    assert_eq!(
        normalize_clickhouse_url("localhost", 8123),
        "http://localhost:8123",
    );
    assert_eq!(
        normalize_clickhouse_url("https://demo.clickhouse.cloud:8443/", 8123),
        "https://demo.clickhouse.cloud:8443",
    );
}

#[test]
fn url_of_an_ipv6_address_gets_brackets() {
    assert_eq!(normalize_clickhouse_url("::1", 8123), "http://[::1]:8123");
    assert_eq!(normalize_clickhouse_url("[::1]", 8123), "http://[::1]:8123");
    assert_eq!(normalize_clickhouse_url("host:9000", 1), "http://[host:9000]:1");
    assert_eq!(normalize_clickhouse_url("[::1", 5), "http://[::1:5");
    assert_eq!(normalize_clickhouse_url("::1]", 5), "http://::1]:5");
}

#[test]
fn url_drops_white_space_and_trailing_slashes() {
    assert_eq!(normalize_clickhouse_url("  db.local// \n", 80), "http://db.local:80");
    assert_eq!(normalize_clickhouse_url("", 65535), "http://:65535");
    assert_eq!(normalize_clickhouse_url("http://a/", 1), "http://a");
    assert_eq!(normalize_clickhouse_url("/ /", 1), "http:/// :1");
}

#[test]
fn settings_name_a_database_only_where_one_is_given() {
    let settings = ClickHouseSettings::new(
        "localhost",
        8123,
        "  main ",
        "user".to_string(),
        "secret".to_string(),
    );
    assert_eq!(settings.url, "http://localhost:8123");
    assert_eq!(settings.user, "user");
    assert_eq!(settings.password, "secret");
    assert_eq!(settings.database.as_deref(), Some("main"));
    assert!(settings.wait_end_of_query);

    let settings =
        ClickHouseSettings::new("localhost", 8123, " \t", String::new(), String::new());
    assert!(settings.database.is_none());
}

#[test]
fn closed_connection_is_reported() {
    let mut driver = ClickHouseDriver::new(7u8);
    assert_eq!(*driver.client().expect("open"), 7);
    driver.close();
    assert_eq!(reason(driver.client()), "ClickHouse connection is already closed");
    driver.close();
    assert!(driver.client().is_err());
}

#[test]
fn arrays_are_read_from_lines() {
    assert_eq!(
        parse_string_array(r#"["a","b\nc"]"#, "column names").expect("strings"),
        strings(&["a", "b\nc"]),
    );
    assert_eq!(
        parse_value_array(r#"[1,null,"x",[true]]"#).expect("values").len(),
        4,
    );
}

#[test]
fn unreadable_lines_are_reported() {
    assert_eq!(
        reason(parse_string_array("[1]", "column names")),
        "Failed to parse ClickHouse column names JSON array: invalid type: integer `1`, expected a string at line 1 column 2",
    );
    let expected = serde_json::from_str::<Vec<Value>>("nope").unwrap_err();
    assert_eq!(
        reason(parse_value_array("nope")),
        format!("Failed to parse ClickHouse row JSON array: {expected}"),
    );

    let mut parser = ClickHouseResponseParser::new(10);
    assert!(reason(parser.ingest_line("{}"))
        .starts_with("Failed to parse ClickHouse column names JSON array: "));
    parser.ingest_line(r#"["a"]"#).expect("names");
    assert!(reason(parser.ingest_line("3"))
        .starts_with("Failed to parse ClickHouse column types JSON array: "));
    parser.ingest_line(r#"["T"]"#).expect("types");
    assert!(reason(parser.ingest_line("[1"))
        .starts_with("Failed to parse ClickHouse row JSON array: "));
    parser.ingest_line("[5]").expect("row");
    let (_, rows) = parser.finish().expect("finish");
    assert_eq!(rows.len(), 1);
}

#[test]
fn header_lines_have_to_go_together() {
    let mut parser = ClickHouseResponseParser::new(10);
    parser.ingest_line(r#"["a","b"]"#).expect("names");
    assert_eq!(
        reason(parser.ingest_line(r#"["T"]"#)),
        "ClickHouse response has 2 column names but 1 column types",
    );
    assert_eq!(
        reason(parser.finish()),
        "Incomplete ClickHouse response header while parsing query result",
    );
    assert_eq!(
        reason(build_columns(&strings(&["a"]), &strings(&["S", "T"]))),
        "ClickHouse response has 1 column names but 2 column types",
    );
    let columns = build_columns(&strings(&["a"]), &strings(&["T"])).expect("columns");
    assert_eq!(columns[0].name, "a");
    assert_eq!(columns[0].data_type, "T");
}

#[test]
fn rows_have_to_go_with_the_header() {
    assert_eq!(
        reason(values_to_row(&strings(&["a"]), vec![])),
        "ClickHouse row has 0 values but header defines 1 columns",
    );
    let mut parser = ClickHouseResponseParser::new(10);
    parser.ingest_line(r#"["a","b"]"#).expect("names");
    parser.ingest_line(r#"["S","T"]"#).expect("types");
    assert_eq!(
        reason(parser.ingest_line("[1,2,3]")),
        "ClickHouse row has 3 values but header defines 2 columns",
    );
}

#[test]
fn last_value_wins_where_a_name_comes_twice() {
    let row = values_to_row(&strings(&["a", "b", "a"]), vec![
        Value::from(1),
        Value::from(2),
        Value::from(3),
    ])
    .expect("row");
    assert_eq!(row["a"], 3);
    assert_eq!(row["b"], 2);
    assert_eq!(row.as_object().map(|object| object.len()), Some(2));
}

#[test]
fn blank_lines_are_passed_over() {
    let mut parser = ClickHouseResponseParser::new(1);
    parser.ingest_line("  \t").expect("blank");
    parser.ingest_line("").expect("empty");
    let (columns, rows) = parser.finish().expect("nothing came");
    assert!(columns.is_empty());
    assert!(rows.is_empty());

    let mut parser = ClickHouseResponseParser::new(1);
    parser.ingest_line(" [\"a\"] \r").expect("names");
    parser.ingest_line("").expect("empty");
    assert!(!parser.is_complete_for_limit());
    parser.ingest_line("[\"T\"]").expect("types");
    assert!(!parser.is_complete_for_limit());
    parser.ingest_line("[0]").expect("row");
    assert!(parser.is_complete_for_limit());
}

#[test]
fn limit_of_zero_reads_the_header_only() {
    let mut parser = ClickHouseResponseParser::new(0);
    parser.ingest_line(r#"["a"]"#).expect("names");
    parser.ingest_line(r#"["T"]"#).expect("types");
    assert!(parser.is_complete_for_limit());
    parser.ingest_line("not even JSON").expect("ignored");
    let (columns, rows) = parser.finish().expect("finish");
    assert_eq!(columns.len(), 1);
    assert!(rows.is_empty());

    let stream = ClickHouseStream::new(5, 0);
    assert!(!stream.wants_line());
    assert!(stream.finish().is_none());
}

#[test]
fn stream_gives_the_rows_of_the_query() {
    let lines = [
        r#"["id","name"]"#,
        "",
        r#"["UInt64","String"]"#,
        r#"[1,"a"]"#,
        r#"[2,"b"]"#,
        r#"[3,"c"]"#,
        r#"[4,"d"]"#,
    ];
    for limit in 1..6 {
        for batch_size in 1..4 {
            let mut parser = ClickHouseResponseParser::new(limit);
            for line in lines {
                parser.ingest_line(line).expect("line");
            }
            let (_, expected) = parser.finish().expect("finish");

            let mut stream = ClickHouseStream::new(batch_size, limit);
            let mut sizes = Vec::new();
            let mut rows = Vec::new();
            for line in lines {
                if !stream.wants_line() {
                    continue;
                }
                if let Some(batch) = stream.ingest_line(line).expect("line") {
                    assert_eq!(batch.columns.len(), 2);
                    sizes.push(batch.rows.len());
                    rows.extend(batch.rows);
                }
            }
            assert!(sizes.iter().all(|size| *size == batch_size));
            if let Some(batch) = stream.finish() {
                assert!(batch.rows.len() < batch_size);
                rows.extend(batch.rows);
            }
            assert_eq!(rows, expected);
        }
    }
}

#[test]
fn stream_reports_the_errors_of_the_query() {
    let mut stream = ClickHouseStream::new(2, 9);
    assert!(reason(stream.ingest_line("7"))
        .starts_with("Failed to parse ClickHouse column names JSON array: "));
    assert!(stream.ingest_line(r#"["a"]"#).expect("names").is_none());
    assert_eq!(
        reason(stream.ingest_line("[]")),
        "ClickHouse response has 1 column names but 0 column types",
    );
    assert!(stream.ingest_line(r#"["T"]"#).expect("types").is_none());
    assert_eq!(
        reason(stream.ingest_line("[]")),
        "ClickHouse row has 0 values but header defines 1 columns",
    );
    let batch = stream.finish().expect("the columns are told");
    assert_eq!(batch.columns[0].data_type, "T");
    assert!(batch.rows.is_empty());
}

#[test]
fn full_batches_are_sent_before_an_error() {
    for rows in 0..7usize {
        for batch_size in 1..4usize {
            let mut stream = ClickHouseStream::new(batch_size, 100);
            assert!(stream.ingest_line(r#"["n"]"#).expect("names").is_none());
            assert!(stream.ingest_line(r#"["T"]"#).expect("types").is_none());
            let mut sent = Vec::new();
            for n in 0..rows {
                sent.extend(stream.ingest_line(&format!("[{n}]")).expect("row"));
            }
            assert!(stream.ingest_line("[1,2]").is_err());
            assert_eq!(sent.len(), rows / batch_size);
            for (index, batch) in sent.iter().enumerate() {
                assert_eq!(batch.columns[0].data_type, "T");
                assert_eq!(batch.rows.len(), batch_size);
                assert_eq!(batch.rows[0]["n"], index * batch_size);
            }
        }
    }
}
