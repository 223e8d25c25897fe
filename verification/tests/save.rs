use db_native::error::Error;
use db_native::json::cell;
use db_native::save::columnar::ColumnarStreamingWriter;
use db_native::save::columns::{
    build_array, build_record_batch, build_schema, infer_column_type, infer_column_types,
    stringify_cell, ColumnArray, InferredColumnType,
};
use db_native::save::csv::CsvStreamingWriter;
use db_native::save::excel::{save_excel, ExcelContent, ExcelPlan, ExcelStreamingWriter};
use db_native::save::format::{SaveFormat, SaveMode};
use db_native::save::json_array::{
    find_first_non_whitespace_byte, find_last_non_whitespace_byte, inspect_json_array_for_append,
    JsonStreamingWriter,
};
use db_native::save::writer::{
    ensure_existing_append_target_supported, needs_contents, parse_request, same_columns,
    save_query_result, OpenAction, SaveOutput, SaveStep, StreamingSaveWriter,
};
use db_native::{ColumnMeta, QueryResult};
use serde_json::Value;

fn reason<T>(outcome: Result<T, Error>) -> String {
    match outcome {
        Ok(_) => panic!("expected an error"),
        Err(error) => error.reason,
    }
}

fn columns(names: &[&str]) -> Vec<ColumnMeta> {
    names
        .iter()
        .map(|name| ColumnMeta {
            name: name.to_string(),
            data_type: "T".to_string(),
        })
        .collect()
}

fn rows(texts: &[&str]) -> Vec<Value> {
    texts
        .iter()
        .map(|text| serde_json::from_str(text).expect("row"))
        .collect()
}

fn bytes(step: &SaveStep) -> Vec<u8> {
    match step {
        SaveStep::Bytes(chunks) => chunks.concat(),
        _ => panic!("expected bytes"),
    }
}

/// Saves rows to a file that is held in memory.
fn save(
    file: &mut Vec<u8>,
    file_type: &str,
    mode: Option<&str>,
    names: &[&str],
    batches: &[Vec<Value>],
) -> i64 {
    let (mut writer, action) =
        StreamingSaveWriter::new(file_type, "out", mode, file.len() as u64, file)
            .expect("file should open");
    match action {
        OpenAction::Create { prefix } => *file = prefix,
        OpenAction::Append => {}
        OpenAction::Resume { keep, prefix } => {
            file.truncate(keep as usize);
            file.extend(prefix);
        }
        OpenAction::Workbook => panic!("expected a file of bytes"),
    }
    for batch in batches {
        let batch = writer
            .write_batch(&columns(names), batch)
            .expect("batch should be written");
        file.extend(bytes(&batch.step));
        writer.advance(&batch, batch.step.parts());
    }
    let (step, result) = writer.finish();
    file.extend(bytes(&step));
    assert_eq!(result.path, "out");
    assert_eq!(result.file_type, file_type);
    result.row_count
}

fn cells(plan: &ExcelPlan) -> Vec<(u32, u16, String)> {
    plan.writes
        .iter()
        .map(|write| {
            let content = match &write.content {
                ExcelContent::Flag(flag) => format!("flag {flag}"),
                ExcelContent::Number(number) => format!("number {number}"),
                ExcelContent::Text(text) => format!("text {text}"),
            };
            (write.row, write.column, content)
        })
        .collect()
}

#[test]
fn duckdb_save_append_supports_csv_and_json() {
    let mut csv: Vec<u8> = Vec::new();
    let mut json: Vec<u8> = Vec::new();
    let alice = rows(&[r#"{"id":1,"name":"alice"}"#]);
    let bob = rows(&[r#"{"id":2,"name":"bob"}"#]);

    save(&mut csv, "csv", Some("overwrite"), &["id", "name"], &[alice.clone()]);
    save(&mut csv, "csv", Some("append"), &["id", "name"], &[bob.clone()]);
    save(&mut json, "json", Some("overwrite"), &["id", "name"], &[alice]);
    save(&mut json, "json", Some("append"), &["id", "name"], &[bob]);

    let csv = String::from_utf8(csv).expect("csv file should be readable");
    assert_eq!(csv.lines().filter(|line| *line == "id,name").count(), 1);
    assert!(csv.contains("1,alice"));
    assert!(csv.contains("2,bob"));

    let json = String::from_utf8(json).expect("json file should be readable");
    let rows: Vec<Value> =
        serde_json::from_str(&json).expect("json export should be valid JSON");
    assert_eq!(rows.len(), 2);
}

#[test]
fn duckdb_save_append_rejects_existing_parquet() {
    let error = match StreamingSaveWriter::new("parquet", "out", Some("append"), 4, b"PAR1") {
        Ok(_) => panic!("parquet append should fail"),
        Err(error) => error,
    };

    assert!(
        error
            .reason
            .contains("Append mode is not supported for parquet exports"),
        "unexpected error: {error:?}",
    );
}

#[test]
fn formats_have_names() {
    for (name, format, written) in [
        ("csv", SaveFormat::Csv, "csv"),
        (" Excel", SaveFormat::Excel, "excel"),
        ("XLSX\n", SaveFormat::Excel, "excel"),
        ("Json", SaveFormat::Json, "json"),
        ("orc", SaveFormat::Orc, "orc"),
        ("PARQUET", SaveFormat::Parquet, "parquet"),
    ] {
        let found = SaveFormat::parse(name).expect("format");
        assert_eq!(found, format);
        assert_eq!(found.as_str(), written);
    }
    assert_eq!(
        reason(SaveFormat::parse(" TXT ")),
        "Unsupported save file type: txt, please use csv, excel, json, orc, or parquet",
    );
}

#[test]
fn modes_have_names() {
    assert_eq!(SaveMode::parse(None).expect("mode"), SaveMode::Overwrite);
    assert_eq!(SaveMode::parse(Some(" ")).expect("mode"), SaveMode::Overwrite);
    assert_eq!(SaveMode::parse(Some("OverWrite")).expect("mode"), SaveMode::Overwrite);
    assert_eq!(SaveMode::parse(Some(" append")).expect("mode"), SaveMode::Append);
    assert_eq!(
        reason(SaveMode::parse(Some("Merge"))),
        "Unsupported save mode: merge, please use overwrite or append",
    );
    assert_eq!(
        parse_request("json", Some("append")).expect("request"),
        (SaveFormat::Json, SaveMode::Append),
    );
    assert!(reason(parse_request("x", Some("y"))).contains("file type: x"));
    assert!(reason(parse_request("csv", Some("y"))).contains("mode: y"));
    assert!(needs_contents(SaveFormat::Json, SaveMode::Append));
    assert!(!needs_contents(SaveFormat::Json, SaveMode::Overwrite));
    assert!(!needs_contents(SaveFormat::Csv, SaveMode::Append));
}

#[test]
fn append_is_refused_where_a_file_cannot_be_continued() {
    for (file_type, label) in [("xlsx", "excel/xlsx"), ("orc", "orc"), ("parquet", "parquet")] {
        let text = format!(
            "Append mode is not supported for {label} exports. Please use overwrite, or choose csv/json when appending to an existing file."
        );
        assert_eq!(
            reason(StreamingSaveWriter::new(file_type, "p", Some("append"), 1, &[])),
            text,
        );
        assert_eq!(
            reason(ensure_existing_append_target_supported(9, SaveMode::Append, label)),
            text,
        );
        assert!(StreamingSaveWriter::new(file_type, "p", Some("append"), 0, &[]).is_ok());
        assert!(StreamingSaveWriter::new(file_type, "p", None, 1, &[]).is_ok());
    }
    assert!(ensure_existing_append_target_supported(9, SaveMode::Overwrite, "orc").is_ok());
    assert!(reason(StreamingSaveWriter::new("doc", "p", None, 0, &[])).contains("doc"));
    assert!(reason(StreamingSaveWriter::new("csv", "p", Some("up"), 0, &[])).contains("up"));
}

#[test]
fn files_are_opened_by_format_and_mode() {
    let action = |file_type: &str, mode: &str, contents: &[u8]| {
        let (writer, action) = StreamingSaveWriter::new(
            file_type,
            "p",
            Some(mode),
            contents.len() as u64,
            contents,
        )
        .expect("open");
        assert_eq!(writer.row_count, 0);
        assert!(writer.columns.is_none());
        action
    };
    assert!(matches!(action("csv", "overwrite", b"x"), OpenAction::Create { prefix } if prefix.is_empty()));
    assert!(matches!(action("csv", "append", b"x"), OpenAction::Append));
    assert!(matches!(action("json", "overwrite", b"x"), OpenAction::Create { prefix } if prefix == b"["));
    assert!(matches!(action("json", "append", b""), OpenAction::Resume { keep: 0, prefix } if prefix == b"["));
    assert!(matches!(action("json", "append", b"[ ] \n"), OpenAction::Resume { keep: 2, prefix } if prefix.is_empty()));
    assert!(matches!(action("excel", "overwrite", b"x"), OpenAction::Workbook));
    assert!(matches!(action("orc", "overwrite", b"x"), OpenAction::Create { prefix } if prefix.is_empty()));
    assert!(matches!(action("parquet", "append", b""), OpenAction::Create { prefix } if prefix.is_empty()));
}

#[test]
fn csv_is_the_same_in_any_batches() {
    let all = rows(&[
        r#"{"a":1,"b":"x,y"}"#,
        r#"{"a":null,"b":"say \"hi\""}"#,
        r#"{"b":[1,2]}"#,
        "7",
    ]);
    let expected =
        "a,b\n1,\"x,y\"\n,\"say \"\"hi\"\"\"\n,\"[1,2]\"\n,\n";
    for split in 0..=all.len() {
        let mut file: Vec<u8> = b"old".to_vec();
        let batches = [all[..split].to_vec(), all[split..].to_vec()];
        assert_eq!(save(&mut file, "csv", None, &["a", "b"], &batches), 4);
        assert_eq!(String::from_utf8(file).expect("text"), expected);

        let mut file: Vec<u8> = Vec::new();
        save(&mut file, "csv", None, &["a", "b"], &batches[..1]);
        save(&mut file, "csv", Some("append"), &["a", "b"], &batches[1..]);
        assert_eq!(String::from_utf8(file).expect("text"), expected);
    }
}

#[test]
fn csv_without_rows_has_the_names_of_the_columns() {
    let mut file: Vec<u8> = Vec::new();
    save(&mut file, "csv", Some("append"), &["a", "b"], &[vec![]]);
    assert_eq!(file, b"a,b\n");
    let mut file: Vec<u8> = Vec::new();
    save(&mut file, "csv", None, &[], &[]);
    assert_eq!(file, b"\"\"\n");

    let mut writer = CsvStreamingWriter { headers_written: false };
    let batch = rows(&[r#"{"n":true}"#]);
    assert_eq!(writer.finish(&columns(&["n"])), vec![b"n\n".to_vec()]);
    assert_eq!(
        writer.write_batch(&columns(&["n"]), &batch),
        vec![b"n\n".to_vec(), b"true\n".to_vec()],
    );
    writer.advance(0);
    assert!(!writer.headers_written);
    writer.advance(1);
    assert!(writer.headers_written);
    assert!(writer.finish(&columns(&["n"])).is_empty());
    assert_eq!(writer.write_batch(&columns(&["n"]), &batch), vec![b"true\n".to_vec()]);
}

#[test]
fn json_is_the_same_in_any_batches() {
    let all = rows(&[r#"{"b":1,"a":"x"}"#, "{}", "1.5", "-7", "null", r#""t""#, "[2]", "false"]);
    let expected = r#"[{"a":"x","b":1},{},1.5,-7,null,"t",[2],false]"#;
    for split in 0..=all.len() {
        let mut file: Vec<u8> = b"old".to_vec();
        let batches = [all[..split].to_vec(), all[split..].to_vec()];
        assert_eq!(save(&mut file, "json", None, &[], &batches), 8);
        assert_eq!(String::from_utf8(file).expect("text"), expected);

        let mut file: Vec<u8> = Vec::new();
        save(&mut file, "json", Some("append"), &[], &batches[..1]);
        save(&mut file, "json", Some("append"), &[], &batches[1..]);
        assert_eq!(String::from_utf8(file).expect("text"), expected);
    }
    let mut writer = JsonStreamingWriter { wrote_any_row: false };
    assert_eq!(
        writer.write_batch(&rows(&["1", "1e300", "5e-324"])),
        vec![b"1".to_vec(), b",1e+300".to_vec(), b",5e-324".to_vec()],
    );
    writer.advance(0);
    assert!(!writer.wrote_any_row);
    writer.advance(1);
    assert!(writer.wrote_any_row);
    assert_eq!(writer.write_batch(&rows(&["1"])), vec![b",1".to_vec()]);
    assert_eq!(writer.finish(), vec![b"]".to_vec()]);
}

#[test]
fn indented_json_can_be_appended_to() {
    let result = QueryResult {
        columns: columns(&["a"]),
        rows: rows(&[r#"{"a":1}"#]),
        execution_time_ms: 0,
    };
    let (output, saved) = save_query_result(&result, "JSON", "p").expect("save");
    assert_eq!(saved.file_type, "json");
    let mut file = match output {
        SaveOutput::Bytes(chunks) => chunks.concat(),
        _ => panic!("expected bytes"),
    };
    assert_eq!(file, b"[\n  {\n    \"a\": 1\n  }\n]");
    save(&mut file, "json", Some("append"), &["a"], &[rows(&[r#"{"a":2}"#])]);
    assert_eq!(file, b"[\n  {\n    \"a\": 1\n  }\n,{\"a\":2}]");
    let found: Vec<Value> = serde_json::from_slice(&file).expect("valid JSON");
    assert_eq!(found.len(), 2);
}

#[test]
fn array_in_any_layout_is_continued() {
    for (before, after) in [
        ("[]", r#"[{"a":2},3]"#),
        (" [ ]\n\n", r#" [ {"a":2},3]"#),
        ("\t[1 , [2] ] ", r#"[1 , [2] ,{"a":2},3]"#),
        ("[\"x\"]\r\n", r#"["x",{"a":2},3]"#),
    ] {
        let mut file = before.as_bytes().to_vec();
        let batches = [rows(&[r#"{"a":2}"#]), vec![], rows(&["3"])];
        assert_eq!(save(&mut file, "json", Some("append"), &["a"], &batches), 2);
        let file = String::from_utf8(file).expect("text");
        assert_eq!(file.trim_start_matches('\t'), after);
        assert!(serde_json::from_str::<Vec<Value>>(&file).is_ok());
    }
}

#[test]
fn array_is_found_by_its_brackets() {
    let state = inspect_json_array_for_append(b" [1, 2 ]\n\t").expect("array");
    assert_eq!(state.closing_bracket_pos, 7);
    assert!(state.has_rows);
    let state = inspect_json_array_for_append(b"[ \x0c ]").expect("array");
    assert_eq!(state.closing_bracket_pos, 4);
    assert!(!state.has_rows);
    for refused in ["{}", "[1", "1]", "[", "\x0b[]", "[]x"] {
        assert_eq!(
            reason(inspect_json_array_for_append(refused.as_bytes())),
            "Append mode for JSON requires an existing JSON array file.",
        );
    }
    for empty in ["", " \r\n"] {
        assert_eq!(
            reason(inspect_json_array_for_append(empty.as_bytes())),
            "Cannot append to an empty JSON file. Use overwrite mode or recreate the file.",
        );
    }
    assert_eq!(
        reason(StreamingSaveWriter::new("json", "p", Some("append"), 2, b"{}")),
        "Append mode for JSON requires an existing JSON array file.",
    );
}

#[test]
fn solid_bytes_are_found() {
    assert_eq!(find_first_non_whitespace_byte(b" \tx y"), Some((2, b'x')));
    assert_eq!(find_first_non_whitespace_byte(b" \n"), None);
    assert_eq!(find_last_non_whitespace_byte(b"ab \n", 4), Some((1, b'b')));
    assert_eq!(find_last_non_whitespace_byte(b"ab \n", 1), Some((0, b'a')));
    assert_eq!(find_last_non_whitespace_byte(b"ab", 0), None);
    for byte in 0..=255u8 {
        let found = find_first_non_whitespace_byte(&[byte]);
        assert_eq!(found.is_none(), byte.is_ascii_whitespace(), "{byte}");
    }
}

#[test]
fn cells_are_texts() {
    let row = &rows(&[
        r#"{"t":true,"f":false,"i":-3,"u":18446744073709551615,"x":1e2,"s":"a\"b","n":null,"l":[1,"x"],"o":{"k":null}}"#,
    ])[0];
    let text = |name: &str| stringify_cell(cell(row, name));
    assert_eq!(text("t"), "true");
    assert_eq!(text("f"), "false");
    assert_eq!(text("i"), "-3");
    assert_eq!(text("u"), "18446744073709551615");
    assert_eq!(text("x"), "100.0");
    assert_eq!(text("s"), "a\"b");
    assert_eq!(text("n"), "");
    assert_eq!(text("l"), r#"[1,"x"]"#);
    assert_eq!(text("o"), r#"{"k":null}"#);
    assert_eq!(text("missing"), "");
    assert!(cell(&Value::from(1), "t").is_none());
}

#[test]
fn column_types_are_inferred() {
    for (values, expected) in [
        (vec!["null"], "Utf8"),
        (vec!["true", "null", "false"], "Bool"),
        (vec!["1", "-9223372036854775808"], "Int64"),
        (vec!["9223372036854775807"], "Int64"),
        (vec!["9223372036854775808"], "Utf8"),
        (vec!["1", "9223372036854775808"], "Float64"),
        (vec!["9223372036854775808", "1"], "Utf8"),
        (vec!["1", "1.5"], "Float64"),
        (vec!["1.5", "1"], "Float64"),
        (vec!["1.5", "9223372036854775808"], "Float64"),
        (vec!["true", "1"], "Utf8"),
        (vec!["1", "true"], "Utf8"),
        (vec!["\"s\""], "Utf8"),
        (vec!["[]"], "Utf8"),
        (vec!["1", "{}"], "Utf8"),
        (vec!["1.5", "\"x\""], "Utf8"),
        (vec![], "Utf8"),
    ] {
        let all: Vec<Value> = values
            .iter()
            .map(|value| serde_json::from_str(&format!("{{\"c\":{value}}}")).expect("row"))
            .collect();
        assert_eq!(
            format!("{:?}", infer_column_type(&all, "c")),
            expected,
            "{values:?}",
        );
    }
    let types = infer_column_types(&columns(&["a", "b"]), &rows(&[r#"{"a":1,"b":true}"#, "3"]));
    assert_eq!(format!("{types:?}"), "[Int64, Bool]");
}

#[test]
fn columns_become_arrays() {
    let all = rows(&[r#"{"c":1}"#, r#"{"c":2.5}"#, r#"{"c":true}"#, r#"{"c":null}"#, r#"{"c":"s"}"#, "{}", r#"{"c":[0]}"#]);
    match build_array(&all, "c", InferredColumnType::Bool) {
        ColumnArray::Bool(items) => {
            assert_eq!(items, vec![None, None, Some(true), None, None, None, None]);
        }
        _ => panic!("expected truth values"),
    }
    match build_array(&all, "c", InferredColumnType::Int64) {
        ColumnArray::Int64(items) => {
            assert_eq!(items, vec![Some(1), None, None, None, None, None, None]);
        }
        _ => panic!("expected integers"),
    }
    match build_array(&all, "c", InferredColumnType::Float64) {
        ColumnArray::Float64(items) => {
            let numbers: Vec<Option<f64>> = items
                .iter()
                .map(|item| item.and_then(|number| number.as_f64()))
                .collect();
            assert_eq!(numbers, vec![Some(1.0), Some(2.5), None, None, None, None, None]);
        }
        _ => panic!("expected numbers"),
    }
    match build_array(&all, "c", InferredColumnType::Utf8) {
        ColumnArray::Utf8(items) => {
            let texts: Vec<Option<&str>> = items.iter().map(|item| item.as_deref()).collect();
            assert_eq!(
                texts,
                vec![Some("1"), Some("2.5"), Some("true"), None, Some("s"), None, Some("[0]")],
            );
        }
        _ => panic!("expected texts"),
    }
}

#[test]
fn result_becomes_typed_columns() {
    let result = QueryResult {
        columns: columns(&["id", "name"]),
        rows: rows(&[r#"{"id":1,"name":"x"}"#, r#"{"id":2}"#]),
        execution_time_ms: 0,
    };
    let record = build_record_batch(&result);
    assert_eq!(record.schema.len(), 2);
    assert_eq!(record.schema[0].name, "id");
    assert!(record.schema[0].nullable);
    assert!(matches!(record.schema[0].data_type, InferredColumnType::Int64));
    assert!(matches!(record.schema[1].data_type, InferredColumnType::Utf8));
    assert!(matches!(&record.arrays[0], ColumnArray::Int64(items) if items[1] == Some(2)));
    assert!(matches!(&record.arrays[1], ColumnArray::Utf8(items) if items[1].is_none()));
    let schema = build_schema(&result.columns, &[InferredColumnType::Bool]);
    assert_eq!(schema.len(), 1);

    for file_type in ["orc", "parquet"] {
        let (output, saved) = save_query_result(&result, file_type, "dir/x").expect("save");
        assert!(matches!(output, SaveOutput::Columns(record) if record.arrays.len() == 2));
        assert_eq!(saved.path, "dir/x");
        assert_eq!(saved.file_type, file_type);
        assert_eq!(saved.row_count, 2);
    }
    let (output, _) = save_query_result(&result, "csv", "x").expect("save");
    assert!(matches!(output, SaveOutput::Bytes(chunks) if chunks.concat() == b"id,name\n1,x\n2,\n"));
    assert!(reason(save_query_result(&result, "txt", "x")).contains("txt"));
}

#[test]
fn first_batch_settles_the_types_of_a_columnar_file() {
    let names = columns(&["n"]);
    let mut writer = ColumnarStreamingWriter::new();
    let first = rows(&[r#"{"n":1}"#]);
    let step = writer.write_batch(&names, &first);
    let schema = step.schema.as_ref().expect("the file is begun");
    assert!(matches!(schema[0].data_type, InferredColumnType::Int64));
    assert!(step.batch.is_some());
    assert_eq!(step.parts(), 2);
    writer.advance(&step, 0);
    assert!(writer.write_batch(&names, &first).schema.is_some());
    writer.advance(&step, 1);

    let second = rows(&[r#"{"n":"text"}"#]);
    let step = writer.write_batch(&names, &second);
    assert!(step.schema.is_none());
    assert_eq!(step.parts(), 1);
    let batch = step.batch.expect("rows");
    assert!(matches!(&batch.arrays[0], ColumnArray::Int64(items) if items[0].is_none()));

    let step = writer.write_batch(&names, &[]);
    assert!(step.schema.is_none() && step.batch.is_none());
    let step = writer.finish(&names);
    assert!(step.schema.is_none() && step.batch.is_none());

    let writer = ColumnarStreamingWriter::new();
    let step = writer.finish(&names);
    assert!(matches!(step.schema.expect("begun")[0].data_type, InferredColumnType::Utf8));
    assert!(step.batch.is_none());
}

#[test]
fn columnar_batches_go_through_the_writer() {
    let (mut writer, _) =
        StreamingSaveWriter::new("parquet", "p", None, 0, &[]).expect("open");
    let batch = rows(&[r#"{"n":1}"#]);
    let step = writer.write_batch(&columns(&["n"]), &batch).expect("batch");
    match &step.step {
        SaveStep::Columns(step) => assert!(step.schema.is_some() && step.batch.is_some()),
        _ => panic!("expected columns"),
    }
    writer.advance(&step, 1);
    assert_eq!(writer.row_count, 0);
    writer.advance(&step, 2);
    let (step, result) = writer.finish();
    assert!(matches!(step, SaveStep::Columns(step) if step.schema.is_none()));
    assert_eq!(result.row_count, 1);
    assert_eq!(result.file_type, "parquet");
}

#[test]
fn worksheet_cells_have_their_places() {
    let names = columns(&["a", "b"]);
    let first = rows(&[
        r#"{"a":1.5,"b":"x"}"#,
        r#"{"a":null,"b":true}"#,
        "[]",
    ]);
    let second = rows(&[r#"{"b":{"k":[1]},"a":7}"#]);
    let mut writer = ExcelStreamingWriter::new();
    let batch = writer.write_batch(&names, &first);
    assert!(batch.plan.error.is_none());
    assert_eq!(
        cells(&batch.plan),
        vec![
            (0, 0, "text a".to_string()),
            (0, 1, "text b".to_string()),
            (1, 0, "number 1.5".to_string()),
            (1, 1, "text x".to_string()),
            (2, 1, "flag true".to_string()),
        ],
    );
    writer.advance(&batch, 4);
    assert_eq!(writer.next_row_index, 1);
    assert!(!writer.headers_written);
    writer.advance(&batch, 5);
    assert_eq!(writer.next_row_index, 4);
    assert!(writer.headers_written);
    let batch = writer.write_batch(&names, &second);
    assert_eq!(
        cells(&batch.plan),
        vec![
            (4, 0, "number 7".to_string()),
            (4, 1, r#"text {"k":[1]}"#.to_string()),
        ],
    );
    assert!(writer.finish(&names).plan.writes.is_empty());

    let writer = ExcelStreamingWriter::new();
    assert_eq!(writer.finish(&names).plan.writes.len(), 2);
    let writer = ExcelStreamingWriter::new();
    assert!(writer.finish(&[]).plan.writes.is_empty());
    assert!(!writer.headers_written);
}

#[test]
fn whole_result_becomes_a_worksheet() {
    let result = QueryResult {
        columns: columns(&["a"]),
        rows: rows(&[r#"{"a":1}"#, r#"{"a":"z"}"#]),
        execution_time_ms: 0,
    };
    let plan = save_excel(&result);
    assert!(plan.error.is_none());
    assert_eq!(
        cells(&plan),
        vec![
            (0, 0, "text a".to_string()),
            (1, 0, "number 1".to_string()),
            (2, 0, "text z".to_string()),
        ],
    );
    let (output, _) = save_query_result(&result, "xlsx", "p").expect("save");
    assert!(matches!(output, SaveOutput::Cells(plan) if plan.writes.len() == 3));
}

#[test]
fn worksheet_has_room_for_so_many_columns() {
    let names: Vec<String> = (0..65537).map(|index| format!("c{index}")).collect();
    let names: Vec<&str> = names.iter().map(|name| name.as_str()).collect();
    let all = columns(&names);
    let mut writer = ExcelStreamingWriter::new();
    let written = writer.write_batch(&all, &[]);
    assert_eq!(written.plan.writes.len(), 65536);
    writer.advance(&written, 65536);
    assert_eq!(
        written.plan.error.expect("error").reason,
        "Excel column count exceeds worksheet limits",
    );
    assert!(!writer.headers_written);

    let batch = vec![Value::Object(
        [("c0".to_string(), Value::from(1)), ("c65536".to_string(), Value::from(2))]
            .into_iter()
            .collect(),
    )];
    let mut writer = ExcelStreamingWriter {
        next_row_index: 5,
        headers_written: true,
    };
    let written = writer.write_batch(&all, &batch);
    assert_eq!(cells(&written.plan), vec![(5, 0, "number 1".to_string())]);
    assert!(written.plan.error.is_some());
    writer.advance(&written, 1);
    assert_eq!(writer.next_row_index, 5);

    let written = ExcelStreamingWriter::new().write_batch(&all[..65536], &[]);
    assert!(written.plan.error.is_none());

    let result = QueryResult {
        columns: all,
        rows: vec![],
        execution_time_ms: 0,
    };
    assert_eq!(
        save_excel(&result).error.expect("error").reason,
        "Excel column count exceeds worksheet limits",
    );
}

#[test]
fn worksheet_has_room_for_so_many_rows() {
    let batch = rows(&[r#"{"a":1}"#, r#"{"a":2}"#, r#"{"a":3}"#]);
    let mut writer = ExcelStreamingWriter {
        next_row_index: u32::MAX - 1,
        headers_written: true,
    };
    let written = writer.write_batch(&columns(&["a"]), &batch);
    writer.advance(&written, 2);
    assert_eq!(
        cells(&written.plan),
        vec![
            (u32::MAX - 1, 0, "number 1".to_string()),
            (u32::MAX, 0, "number 2".to_string()),
        ],
    );
    assert_eq!(
        written.plan.error.expect("error").reason,
        "Excel row count exceeds worksheet limits",
    );
    assert_eq!(writer.next_row_index, u32::MAX - 1);
    let written = writer.write_batch(&columns(&["a"]), &batch[..1]);
    assert!(written.plan.error.is_none());
    writer.advance(&written, 1);
    assert_eq!(writer.next_row_index, u32::MAX);
}

#[test]
fn rows_without_room_do_not_count() {
    let (mut writer, _) = StreamingSaveWriter::new("excel", "p", None, 0, &[]).expect("open");
    let names: Vec<String> = (0..65537).map(|index| format!("c{index}")).collect();
    let names: Vec<&str> = names.iter().map(|name| name.as_str()).collect();
    let batch = rows(&["{}"]);
    let written = writer.write_batch(&columns(&names), &batch).expect("batch");
    assert!(written.step.fails());
    writer.advance(&written, written.step.parts());
    assert_eq!(writer.row_count, 0);

    let (mut writer, _) = StreamingSaveWriter::new("excel", "p", None, 0, &[]).expect("open");
    let written = writer.write_batch(&columns(&["a"]), &batch).expect("batch");
    assert!(matches!(&written.step, SaveStep::Cells(cells) if cells.plan.writes.len() == 1));
    assert_eq!(written.row_count, 1);
    writer.advance(&written, 0);
    assert_eq!(writer.row_count, 0);
    writer.advance(&written, 1);
    assert_eq!(writer.row_count, 1);
    let (step, result) = writer.finish();
    assert!(matches!(step, SaveStep::Cells(cells) if cells.plan.writes.is_empty()));
    assert_eq!(result.row_count, 1);
    assert_eq!(result.file_type, "excel");
}

#[test]
fn columns_of_a_file_stay_the_same() {
    let (mut writer, _) = StreamingSaveWriter::new("csv", "p", None, 0, &[]).expect("open");
    let first = rows(&[r#"{"a":1}"#]);
    let batch = writer.write_batch(&columns(&["a"]), &first).expect("first");
    writer.advance(&batch, 2);
    let second = rows(&[r#"{"a":2}"#]);
    let batch = writer.write_batch(&[], &second).expect("no columns");
    assert_eq!(bytes(&batch.step), b"2\n");
    writer.advance(&batch, 1);
    assert_eq!(
        reason(writer.write_batch(&columns(&["b"]), &rows(&[r#"{"a":3}"#]))),
        "Streaming save received inconsistent column metadata",
    );
    assert_eq!(writer.row_count, 2);

    let (mut writer, _) = StreamingSaveWriter::new("json", "p", None, 0, &[]).expect("open");
    writer.write_batch(&[], &rows(&["{}"])).expect("first");
    assert!(writer.write_batch(&columns(&["b"]), &[]).is_err());
}

#[test]
fn unfinished_batch_does_not_count() {
    let (mut writer, _) = StreamingSaveWriter::new("csv", "p", None, 0, &[]).expect("open");
    let batch = rows(&[r#"{"a":1}"#, r#"{"a":2}"#]);
    let written = writer.write_batch(&columns(&["a"]), &batch).expect("batch");
    assert_eq!(written.step.parts(), 3);
    assert_eq!(writer.row_count, 0);
    writer.advance(&written, 2);
    assert_eq!(writer.row_count, 0);
    let again = writer.write_batch(&columns(&["a"]), &batch).expect("batch");
    assert_eq!(bytes(&again.step), b"1\n2\n");
    writer.advance(&again, 2);
    assert_eq!(writer.row_count, 2);
}

#[test]
fn columns_are_compared_by_name_and_type() {
    let left = columns(&["a", "b"]);
    let mut right = columns(&["a", "b"]);
    assert!(same_columns(&left, &right));
    assert!(same_columns(&[], &[]));
    assert!(!same_columns(&left, &right[..1]));
    right[1].data_type = "U".to_string();
    assert!(!same_columns(&left, &right));
    assert!(!same_columns(&left, &columns(&["a", "c"])));
}
