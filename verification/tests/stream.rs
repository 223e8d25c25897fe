use db_native::stream::{query_result, RowBatcher, RowCollector, SaveBatcher};
use db_native::{resolve_query_limit, resolve_stream_batch_size, ColumnMeta};
use serde_json::Value;

fn column(name: &str) -> ColumnMeta {
    ColumnMeta {
        name: name.to_string(),
        data_type: "T".to_string(),
    }
}

#[test]
fn limits_have_defaults() {
    assert_eq!(resolve_query_limit(None), 1000);
    assert_eq!(resolve_query_limit(Some(0)), 0);
    assert_eq!(resolve_query_limit(Some(7)), 7);
    assert_eq!(resolve_stream_batch_size(None), 200);
    assert_eq!(resolve_stream_batch_size(Some(0)), 1);
    assert_eq!(resolve_stream_batch_size(Some(50)), 50);
}

#[test]
fn batches_hold_the_rows_in_order() {
    for limit in 0..8usize {
        for batch_size in 1..5usize {
            let mut batcher = RowBatcher::new(batch_size, limit);
            assert!(!batcher.has_columns());
            batcher.set_columns(vec![column("n")]);
            assert!(batcher.has_columns());
            let mut rows: Vec<Value> = Vec::new();
            let mut batches = 0;
            for n in 0..6 {
                if !batcher.wants_row() {
                    break;
                }
                if let Some(batch) = batcher.push(Value::from(n)) {
                    assert_eq!(batch.rows.len(), batch_size);
                    assert_eq!(batch.columns[0].name, "n");
                    batches += 1;
                    rows.extend(batch.rows);
                }
            }
            if let Some(batch) = batcher.finish() {
                batches += 1;
                rows.extend(batch.rows);
            }
            let expected: Vec<Value> = (0..limit.min(6)).map(Value::from).collect();
            assert_eq!(rows, expected);
            assert!(batches > 0);
        }
    }
}

#[test]
fn collector_stops_at_the_limit() {
    let mut collector = RowCollector::new(2);
    while collector.wants_row() {
        collector.push(Value::from(1));
    }
    let result = collector.finish(vec![column("n")], 5);
    assert_eq!(result.rows.len(), 2);
    assert_eq!(result.columns.len(), 1);
    assert_eq!(result.execution_time_ms, 5);
    assert!(!RowCollector::new(0).wants_row());
}

#[test]
fn smaller_limit_gives_the_first_rows() {
    let collect = |limit: usize| {
        let mut collector = RowCollector::new(limit);
        for n in 0..4 {
            if collector.wants_row() {
                collector.push(Value::from(n));
            }
        }
        collector.finish(vec![], 0).rows
    };
    let all = collect(usize::MAX);
    assert_eq!(all.len(), 4);
    for limit in 0..6usize {
        assert_eq!(collect(limit), all[..limit.min(4)]);
    }
}

#[test]
fn time_keeps_its_lower_bits() {
    assert_eq!(query_result(vec![], vec![], (1u128 << 64) + 3).execution_time_ms, 3);
    assert_eq!(query_result(vec![], vec![], u64::MAX as u128).execution_time_ms, -1);
}

#[test]
fn saved_batches_end_with_what_is_left() {
    let mut batcher = SaveBatcher::new(2);
    assert!(batcher.push(Value::from(1)).is_none());
    assert_eq!(batcher.push(Value::from(2)).map(|rows| rows.len()), Some(2));
    assert!(batcher.push(Value::from(3)).is_none());
    assert_eq!(batcher.finish(), vec![Value::from(3)]);

    let mut batcher = SaveBatcher::new(1);
    assert!(batcher.push(Value::from(1)).is_some());
    assert!(batcher.finish().is_empty());
}
