use db_native::drivers::duckdb::{
    duck_value_to_json, escape_sql_literal, format_time64, format_timestamp, normalize_endpoint,
    row_to_json, runtime_settings, s3_settings_sql, statement_columns, DuckColumn, DuckDbDriver,
    DuckDbStream, DuckValue, TimeUnit,
};
use db_native::json::FloatCell;
use serde_json::{Number, Value};

fn float(value: f64) -> FloatCell {
    FloatCell {
        number: Number::from_f64(value).map(Value::Number),
        text: value.to_string(),
    }
}

fn columns(names: &[&str]) -> Vec<DuckColumn> {
    names
        .iter()
        .map(|name| DuckColumn {
            name: Some(name.to_string()),
            data_type: "Utf8".to_string(),
        })
        .collect()
}

#[test]
fn duckdb_streaming_query_batches_and_honors_limit() {
    let names = ["alice", "bob", "carol", "dave"];
    let mut stream = DuckDbStream::new(2, 3, statement_columns(columns(&["id", "name"])));
    let mut batches = Vec::new();

    for (index, name) in names.iter().enumerate() {
        if !stream.wants_row() {
            break;
        }
        let values = vec![
            DuckValue::Int(index as i32 + 1),
            DuckValue::Text(name.to_string()),
        ];
        batches.extend(stream.push(values));
    }
    batches.extend(stream.finish());

    assert_eq!(batches.len(), 2, "expected two emitted batches");
    assert_eq!(batches[0].rows.len(), 2, "first batch should be full");
    assert_eq!(batches[1].rows.len(), 1, "second batch should honor limit");

    let first_row = batches[0].rows[0]
        .as_object()
        .expect("first batch row should be an object");
    let last_row = batches[1].rows[0]
        .as_object()
        .expect("last batch row should be an object");

    assert_eq!(
        first_row.get("id").and_then(|value| value.as_i64()),
        Some(1)
    );
    assert_eq!(
        first_row.get("name").and_then(|value| value.as_str()),
        Some("alice")
    );
    assert_eq!(last_row.get("id").and_then(|value| value.as_i64()), Some(3));
    assert_eq!(
        last_row.get("name").and_then(|value| value.as_str()),
        Some("carol")
    );
}

#[test]
fn stream_without_rows_tells_the_columns_once() {
    let stream = DuckDbStream::new(2, 3, statement_columns(columns(&["id"])));
    let batch = stream.finish().expect("one batch");
    assert_eq!(batch.columns.len(), 1);
    assert!(batch.rows.is_empty());

    let mut stream = DuckDbStream::new(1, 3, statement_columns(columns(&["id"])));
    assert!(stream.push(vec![DuckValue::Null]).is_some());
    assert!(stream.finish().is_none());

    let stream = DuckDbStream::new(2, 3, vec![]);
    assert!(stream.finish().is_none());
}

#[test]
fn columns_without_a_name_are_named_after_their_index() {
    let found = statement_columns(vec![
        DuckColumn {
            name: Some("id".to_string()),
            data_type: "Int32".to_string(),
        },
        DuckColumn {
            name: None,
            data_type: "Utf8".to_string(),
        },
    ]);
    assert_eq!(found[0].name, "id");
    assert_eq!(found[0].data_type, "Int32");
    assert_eq!(found[1].name, "column_1");
    assert_eq!(found[1].data_type, "Utf8");
}

#[test]
fn endpoint_loses_its_scheme() {
    assert_eq!(normalize_endpoint("http://minio:9000"), ("minio:9000", false));
    assert_eq!(normalize_endpoint("https://s3.local"), ("s3.local", true));
    assert_eq!(normalize_endpoint("s3.local"), ("s3.local", true));
    assert_eq!(normalize_endpoint("HTTP://x"), ("HTTP://x", true));
    assert_eq!(normalize_endpoint("http:/"), ("http:/", true));
    assert_eq!(normalize_endpoint(""), ("", true));
    assert_eq!(normalize_endpoint("http://https://x"), ("https://x", false));
}

#[test]
fn quotes_are_doubled_in_literals() {
    assert_eq!(escape_sql_literal("it's"), "it''s");
    assert_eq!(escape_sql_literal("''"), "''''");
    assert_eq!(escape_sql_literal("plain \u{e9}"), "plain \u{e9}");
    assert_eq!(escape_sql_literal(""), "");
}

#[test]
fn s3_settings_are_one_batch_of_statements() {
    assert_eq!(
        s3_settings_sql(" http://minio:9000 ", "key'id", " secret "),
        "SET s3_endpoint = 'minio:9000';SET s3_access_key_id = 'key''id';SET s3_secret_access_key = 'secret';SET s3_url_style = 'path';SET s3_use_ssl = false;",
    );
    assert!(s3_settings_sql("s3.local", "a", "b").ends_with("SET s3_use_ssl = true;"));
}

#[test]
fn runtime_settings_follow_the_environment() {
    let settings = runtime_settings(None, None);
    assert!(settings.statements.is_empty());
    assert!(settings.error.is_none());

    let settings = runtime_settings(Some(" 2GB' "), Some(" +4 "));
    assert_eq!(
        settings.statements,
        vec!["SET memory_limit = '2GB''';", "SET threads = 4;"],
    );
    assert!(settings.error.is_none());

    let settings = runtime_settings(Some(" "), Some("\t"));
    assert!(settings.statements.is_empty());
    assert!(settings.error.is_none());

    let settings = runtime_settings(None, Some("18446744073709551615"));
    assert_eq!(settings.statements, vec!["SET threads = 18446744073709551615;"]);
}

#[test]
fn bad_number_of_threads_is_reported_after_the_limit_is_set() {
    let settings = runtime_settings(Some("1GB"), Some("many"));
    assert_eq!(settings.statements, vec!["SET memory_limit = '1GB';"]);
    assert_eq!(
        settings.error.expect("error").reason,
        "Invalid DUCKDB_THREADS value: invalid digit found in string",
    );
    let settings = runtime_settings(None, Some("18446744073709551616"));
    assert_eq!(
        settings.error.expect("error").reason,
        "Invalid DUCKDB_THREADS value: number too large to fit in target type",
    );
    assert!(runtime_settings(None, Some("-1")).error.is_some());
    assert!(runtime_settings(None, Some("+")).error.is_some());
}

#[test]
fn times_are_texts() {
    assert_eq!(
        format_timestamp(TimeUnit::Microsecond, -5),
        "timestamp(Microsecond, -5)",
    );
    assert_eq!(format_timestamp(TimeUnit::Second, 0), "timestamp(Second, 0)");
    assert_eq!(
        format_timestamp(TimeUnit::Millisecond, i64::MIN),
        "timestamp(Millisecond, -9223372036854775808)",
    );
    assert_eq!(
        format_time64(TimeUnit::Nanosecond, 1234),
        "time64(Nanosecond, 1234)",
    );
}

#[test]
fn simple_values_in_json() {
    let json = duck_value_to_json;
    assert_eq!(json(DuckValue::Null), Value::Null);
    assert_eq!(json(DuckValue::Boolean(true)), Value::Bool(true));
    assert_eq!(json(DuckValue::TinyInt(-8)), Value::from(-8));
    assert_eq!(json(DuckValue::SmallInt(-300)), Value::from(-300));
    assert_eq!(json(DuckValue::Int(70000)), Value::from(70000));
    assert_eq!(json(DuckValue::BigInt(i64::MIN)), Value::from(i64::MIN));
    assert_eq!(json(DuckValue::UTinyInt(255)), Value::from(255));
    assert_eq!(json(DuckValue::USmallInt(65535)), Value::from(65535));
    assert_eq!(json(DuckValue::UInt(u32::MAX)), Value::from(u32::MAX));
    assert_eq!(json(DuckValue::UBigInt(u64::MAX)), Value::from(u64::MAX));
    assert_eq!(
        json(DuckValue::HugeInt(i128::MIN)),
        Value::from("-170141183460469231731687303715884105728"),
    );
    assert_eq!(json(DuckValue::Decimal("1.50".to_string())), Value::from("1.50"));
    assert_eq!(json(DuckValue::Text("t".to_string())), Value::from("t"));
    assert_eq!(json(DuckValue::Enum("e".to_string())), Value::from("e"));
    assert_eq!(json(DuckValue::Blob(vec![0, 0xab, 0xff])), Value::from("0x00abff"));
    assert_eq!(json(DuckValue::Blob(vec![])), Value::from("0x"));
    assert_eq!(json(DuckValue::Date32(-3)), Value::from("date32:-3"));
    assert_eq!(
        json(DuckValue::Timestamp(TimeUnit::Second, 9)),
        Value::from("timestamp(Second, 9)"),
    );
    assert_eq!(
        json(DuckValue::Time64(TimeUnit::Microsecond, 7)),
        Value::from("time64(Microsecond, 7)"),
    );
}

#[test]
fn floats_in_json() {
    assert_eq!(duck_value_to_json(DuckValue::Double(float(1.5))), Value::from(1.5));
    assert_eq!(duck_value_to_json(DuckValue::Float(float(-0.25))), Value::from(-0.25));
    assert_eq!(duck_value_to_json(DuckValue::Double(float(f64::NAN))), Value::from("NaN"));
    assert_eq!(
        duck_value_to_json(DuckValue::Float(float(f64::NEG_INFINITY))),
        Value::from("-inf"),
    );
}

#[test]
fn nested_values_in_json() {
    let interval = duck_value_to_json(DuckValue::Interval {
        months: 1,
        days: -2,
        nanos: 3,
    });
    assert_eq!(interval.to_string(), r#"{"days":-2,"months":1,"nanos":3}"#);

    let list = duck_value_to_json(DuckValue::List(vec![
        DuckValue::Int(1),
        DuckValue::Array(vec![DuckValue::Null, DuckValue::Boolean(false)]),
    ]));
    assert_eq!(list.to_string(), "[1,[null,false]]");

    let record = duck_value_to_json(DuckValue::Struct(vec![
        ("b".to_string(), DuckValue::Int(1)),
        ("a".to_string(), DuckValue::Text("x".to_string())),
        ("b".to_string(), DuckValue::Int(2)),
    ]));
    assert_eq!(record.to_string(), r#"{"a":"x","b":2}"#);

    let map = duck_value_to_json(DuckValue::Entries(vec![(
        DuckValue::Text("k".to_string()),
        DuckValue::Union(Box::new(DuckValue::Int(5))),
    )]));
    assert_eq!(map.to_string(), r#"[{"key":"k","value":5}]"#);
}

#[test]
fn null_comes_from_null_alone() {
    let union = |value: DuckValue| DuckValue::Union(Box::new(value));
    assert_eq!(duck_value_to_json(union(union(DuckValue::Null))), Value::Null);
    for value in [
        DuckValue::Double(float(f64::NAN)),
        union(DuckValue::Float(float(f64::INFINITY))),
        DuckValue::Double(float(0.0)),
        DuckValue::Text(String::new()),
        DuckValue::List(vec![]),
        DuckValue::Struct(vec![]),
        DuckValue::Entries(vec![]),
        DuckValue::Blob(vec![]),
        union(DuckValue::Boolean(false)),
    ] {
        assert!(!duck_value_to_json(value).is_null());
    }
}

#[test]
fn row_has_a_value_for_each_column() {
    let columns = statement_columns(columns(&["id", "name"]));
    let row = row_to_json(&columns, vec![DuckValue::Int(1), DuckValue::Text("x".to_string())]);
    assert_eq!(row.to_string(), r#"{"id":1,"name":"x"}"#);
}

#[test]
fn closed_duckdb_connection_is_reported() {
    let mut driver = DuckDbDriver::new("connection");
    assert_eq!(*driver.connection().expect("open"), "connection");
    driver.close();
    match driver.connection() {
        Ok(_) => panic!("closed"),
        Err(error) => assert_eq!(error.reason, "DuckDB connection is already closed"),
    }
}
