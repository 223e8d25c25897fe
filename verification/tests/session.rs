use db_native::error::state_error;
use db_native::session::{require_home, resolve_view_name, SessionDocument, SessionState};
use db_native::QueryResult;
use serde_json::Value;

fn state() -> SessionState {
    SessionState::new(
        SessionDocument::starting("id-1".to_string(), "t0".to_string()),
        "/tmp/session.json".to_string(),
    )
}

fn result(rows: usize) -> QueryResult {
    QueryResult {
        columns: vec![],
        rows: vec![Value::from(42); rows],
        execution_time_ms: 0,
    }
}

#[test]
fn new_session_has_a_fresh_identifier() {
    let first = SessionDocument::new();
    let second = SessionDocument::new();
    assert_ne!(first.session_id, second.session_id);
    assert_eq!(first.session_id.len(), 36);
    assert_eq!(first.session_id.as_bytes()[14], b'4');
    for (index, c) in first.session_id.chars().enumerate() {
        if [8, 13, 18, 23].contains(&index) {
            assert_eq!(c, '-');
        } else {
            assert!(c.is_ascii_digit() || ('a'..='f').contains(&c));
        }
    }
    assert_eq!(first.created_at, first.updated_at);
    assert!(first.views.is_empty());
    assert!(first.created_at.ends_with('Z'));
    let pattern = "dddd-dd-ddTdd:dd:dd.dddZ";
    assert_eq!(first.created_at.len(), pattern.len());
    for (c, expected) in first.created_at.chars().zip(pattern.chars()) {
        assert!(if expected == 'd' { c.is_ascii_digit() } else { c == expected });
    }
}

#[test]
fn session_tells_where_it_is_kept() {
    let info = state().info();
    assert_eq!(info.session_id, "id-1");
    assert_eq!(info.path, "/tmp/session.json");
}

#[test]
fn session_records_views_of_queries() {
    let mut state = state();
    state.record_query(Some("step_1".to_string()), "SELECT 42 AS answer", &Ok(result(1)));
    state.record_query(
        Some("step_error".to_string()),
        "SELECT * FROM definitely_missing_table",
        &Err(state_error("no such table")),
    );

    let views = &state.document.views;
    assert_eq!(state.document.session_id, "id-1");
    assert_eq!(views.len(), 2);
    assert_eq!(views[0].view_name, "step_1");
    assert_eq!(views[0].operation, "query");
    assert_eq!(views[0].sql, "SELECT 42 AS answer");
    assert_eq!(views[0].row_count, Some(1));
    assert_eq!(views[0].status, "success");
    assert_eq!(views[0].error, None);
    assert_eq!(views[1].view_name, "step_error");
    assert_eq!(views[1].row_count, None);
    assert_eq!(views[1].status, "error");
    assert_eq!(views[1].error.as_deref(), Some("no such table"));
    assert_eq!(views[1].created_at, state.document.updated_at);
    assert_eq!(state.document.created_at, "t0");
}

#[test]
fn views_without_a_name_are_numbered() {
    let mut state = state();
    let names = [None, Some("  "), Some(" mine "), None, Some("")];
    for name in names {
        state.record(
            name.map(str::to_string),
            "save",
            "SELECT 1",
            None,
            "success",
            None,
            "t1".to_string(),
        );
    }
    let found: Vec<&str> = state
        .document
        .views
        .iter()
        .map(|view| view.view_name.as_str())
        .collect();
    assert_eq!(found, vec!["view_1", "view_2", "mine", "view_3", "view_4"]);
    assert_eq!(state.next_view_index, 5);
    assert_eq!(state.document.updated_at, "t1");
    assert_eq!(resolve_view_name(&mut state, None), "view_5");
    assert_eq!(resolve_view_name(&mut state, Some("\u{a0}x\u{3000}".to_string())), "x");
    assert_eq!(state.next_view_index, 6);
}

#[test]
fn successes_and_errors_are_recorded_now() {
    let mut state = state();
    state.record_success(None, "save", "SELECT 1", Some(3));
    state.record_error(None, "save", "SELECT 2", "boom".to_string());
    let views = &state.document.views;
    assert_eq!(views[0].row_count, Some(3));
    assert_eq!(views[0].status, "success");
    assert!(views[0].created_at.ends_with('Z'));
    assert_eq!(views[1].error.as_deref(), Some("boom"));
    assert_eq!(views[1].status, "error");
    assert_eq!(state.document.updated_at, views[1].created_at);
}

#[test]
fn home_directory_has_to_be_known() {
    assert_eq!(require_home(Some("/root"), false).ok(), Some("/root"));
    for (home, empty) in [(None, false), (None, true), (Some(""), true)] {
        match require_home(home, empty) {
            Ok(_) => panic!("no home"),
            Err(error) => assert_eq!(
                error.reason,
                "Unable to resolve home directory for db-native session",
            ),
        }
    }
}

#[test]
fn named_view_needs_no_number() {
    let mut state = state();
    state.next_view_index = u64::MAX;
    assert_eq!(resolve_view_name(&mut state, Some(" mine ".to_string())), "mine");
    state.record_query(Some("last".to_string()), "SELECT 1", &Ok(result(2)));
    assert_eq!(state.next_view_index, u64::MAX);
    assert_eq!(state.document.views[0].view_name, "last");
    assert_eq!(state.document.views[0].row_count, Some(2));
}
