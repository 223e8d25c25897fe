use db_native::drivers::mysql::{
    columns_from_rows, query_columns, row_to_json, value_from_cell, MySqlCell,
    MySqlCollector, MySqlFlavor, MySqlProtocolDriver, MySqlRow, MySqlSettings, MySqlStream,
};
use db_native::json::FloatCell;
use db_native::ColumnMeta;
use serde_json::{Number, Value};

fn cell() -> MySqlCell {
    MySqlCell {
        is_null: false,
        as_i8: None,
        as_i16: None,
        as_i32: None,
        as_i64: None,
        as_u8: None,
        as_u16: None,
        as_u32: None,
        as_u64: None,
        as_bool: None,
        as_float: None,
        as_decimal: None,
        as_big_decimal: None,
        as_json: None,
        as_text: None,
        as_bytes: None,
        as_date: None,
        as_time: None,
        as_date_time: None,
        as_utc: None,
        as_uuid: None,
        type_label: "GEOMETRY".to_string(),
    }
}

fn text_cell(text: &str) -> MySqlCell {
    MySqlCell {
        as_text: Some(text.to_string()),
        ..cell()
    }
}

fn column(name: &str) -> ColumnMeta {
    ColumnMeta {
        name: name.to_string(),
        data_type: "VARCHAR".to_string(),
    }
}

fn row(text: &str) -> MySqlRow {
    MySqlRow {
        columns: vec![column("name")],
        cells: vec![text_cell(text)],
    }
}

#[test]
fn value_is_read_as_the_first_type_that_fits() {
    let text = |value: &str| Some(value.to_string());
    let mut steps: Vec<(MySqlCell, Value)> = Vec::new();
    steps.push((cell(), Value::from("<unsupported:GEOMETRY>")));
    steps.push((MySqlCell { as_uuid: text("uuid"), ..cell() }, Value::from("uuid")));
    steps.push((MySqlCell { as_utc: text("utc"), as_uuid: text("u"), ..cell() }, Value::from("utc")));
    steps.push((
        MySqlCell { as_date_time: text("dt"), as_utc: text("utc"), ..cell() },
        Value::from("dt"),
    ));
    steps.push((
        MySqlCell { as_time: text("t"), as_date_time: text("dt"), ..cell() },
        Value::from("t"),
    ));
    steps.push((
        MySqlCell { as_date: text("d"), as_time: text("t"), ..cell() },
        Value::from("d"),
    ));
    steps.push((
        MySqlCell { as_bytes: Some(vec![1, 0xfe]), as_date: text("d"), ..cell() },
        Value::from("0x01fe"),
    ));
    steps.push((
        MySqlCell { as_text: text("s"), as_bytes: Some(vec![1]), ..cell() },
        Value::from("s"),
    ));
    steps.push((
        MySqlCell { as_json: Some(Value::Array(vec![])), as_text: text("[]"), ..cell() },
        Value::Array(vec![]),
    ));
    steps.push((
        MySqlCell { as_big_decimal: text("1.0"), as_json: Some(Value::from(1)), ..cell() },
        Value::from("1.0"),
    ));
    steps.push((
        MySqlCell { as_decimal: text("1.00"), as_big_decimal: text("1.0"), ..cell() },
        Value::from("1.00"),
    ));
    steps.push((
        MySqlCell {
            as_float: Some(FloatCell {
                number: Number::from_f64(2.5).map(Value::Number),
                text: "2.5".to_string(),
            }),
            as_decimal: text("2.50"),
            ..cell()
        },
        Value::from(2.5),
    ));
    steps.push((
        MySqlCell {
            as_float: Some(FloatCell { number: None, text: "inf".to_string() }),
            ..cell()
        },
        Value::from("inf"),
    ));
    steps.push((
        MySqlCell { as_bool: Some(true), as_decimal: text("1"), ..cell() },
        Value::Bool(true),
    ));
    steps.push((
        MySqlCell { as_u64: Some(u64::MAX), as_bool: Some(true), ..cell() },
        Value::from(u64::MAX),
    ));
    steps.push((
        MySqlCell { as_u32: Some(32), as_u64: Some(64), ..cell() },
        Value::from(32),
    ));
    steps.push((
        MySqlCell { as_u16: Some(16), as_u32: Some(32), ..cell() },
        Value::from(16),
    ));
    steps.push((MySqlCell { as_u8: Some(8), as_u16: Some(16), ..cell() }, Value::from(8)));
    steps.push((MySqlCell { as_i64: Some(-64), as_u8: Some(8), ..cell() }, Value::from(-64)));
    steps.push((
        MySqlCell { as_i32: Some(-32), as_i64: Some(-64), ..cell() },
        Value::from(-32),
    ));
    steps.push((
        MySqlCell { as_i16: Some(-16), as_i32: Some(-32), ..cell() },
        Value::from(-16),
    ));
    steps.push((MySqlCell { as_i8: Some(-8), as_i16: Some(-16), ..cell() }, Value::from(-8)));
    steps.push((MySqlCell { is_null: true, as_i8: Some(1), ..cell() }, Value::Null));

    for (cell, expected) in steps {
        assert_eq!(value_from_cell(cell), expected);
    }
}

#[test]
fn mysql_row_in_json() {
    let row = MySqlRow {
        columns: vec![column("b"), column("a")],
        cells: vec![text_cell("x"), MySqlCell { is_null: true, ..cell() }],
    };
    assert_eq!(row_to_json(row).to_string(), r#"{"a":null,"b":"x"}"#);
}

#[test]
fn columns_come_from_the_server_or_the_first_row() {
    assert!(columns_from_rows(&[]).is_empty());
    assert_eq!(columns_from_rows(&[row("x")])[0].name, "name");
    assert_eq!(query_columns(Some(vec![column("told")]), &[row("x")])[0].name, "told");
    assert_eq!(query_columns(None, &[row("x")])[0].name, "name");

    let mut collector = MySqlCollector::new(9, None);
    collector.push(row("x"));
    collector.push(row("y"));
    let result = collector.finish(12);
    assert_eq!(result.columns.len(), 1);
    assert_eq!(result.columns[0].name, "name");
    assert_eq!(result.rows[1]["name"], "y");
    assert_eq!(result.execution_time_ms, 12);

    let result = MySqlCollector::new(9, Some(vec![column("told")])).finish(0);
    assert_eq!(result.columns[0].name, "told");
    assert!(result.rows.is_empty());
    assert!(MySqlCollector::new(9, None).finish(0).columns.is_empty());
}

#[test]
fn mysql_query_stops_at_the_limit() {
    for limit in 0..5usize {
        let mut collector = MySqlCollector::new(limit, None);
        for name in ["a", "b", "c"] {
            if collector.wants_row() {
                collector.push(row(name));
            }
        }
        assert_eq!(collector.wants_row(), limit > 3);
        let names: Vec<String> = collector
            .finish(0)
            .rows
            .iter()
            .map(|row| row["name"].as_str().expect("text").to_string())
            .collect();
        assert_eq!(names, ["a", "b", "c"][..limit.min(3)]);
    }
}

#[test]
fn mysql_rows_come_in_batches() {
    let mut stream = MySqlStream::new(2, 10, None);
    assert!(stream.wants_row());
    assert!(stream.push(row("a")).is_none());
    let batch = stream.push(row("b")).expect("full");
    assert_eq!(batch.columns[0].name, "name");
    assert_eq!(batch.rows.len(), 2);
    assert!(stream.finish().is_none());

    let stream = MySqlStream::new(2, 10, Some(vec![column("told")]));
    let batch = stream.finish().expect("columns");
    assert_eq!(batch.columns[0].name, "told");

    let stream = MySqlStream::new(2, 10, None);
    assert!(stream.finish().is_none());

    let mut stream = MySqlStream::new(1, 1, Some(vec![column("told")]));
    let batch = stream.push(row("a")).expect("full");
    assert_eq!(batch.columns[0].name, "told");
    assert!(!stream.wants_row());
}

#[test]
fn closed_pool_is_reported_by_the_name_of_the_database() {
    for (flavor, label) in [
        (MySqlFlavor::MySql, "MySQL"),
        (MySqlFlavor::Doris, "Doris"),
        (MySqlFlavor::StarRocks, "StarRocks"),
    ] {
        let mut driver = MySqlProtocolDriver::new(flavor, 3);
        assert_eq!(driver.pool().ok(), Some(&3));
        assert_eq!(driver.close(), Some(3));
        assert_eq!(driver.close(), None);
        match driver.pool() {
            Ok(_) => panic!("closed"),
            Err(error) => assert_eq!(
                error.reason,
                format!("{label} connection is already closed"),
            ),
        }
    }
}

#[test]
fn mysql_settings() {
    let text = |value: &str| value.to_string();
    let settings = MySqlSettings::new(text("h"), 3306, text("d"), text("u"), text("p"));
    assert_eq!(settings.host, "h");
    assert_eq!(settings.port, 3306);
    assert_eq!(settings.database, "d");
    assert_eq!(settings.username, "u");
    assert_eq!(settings.password, "p");
    assert_eq!(settings.charset, "utf8mb4");
    assert_eq!(settings.max_connections, 5);
}
