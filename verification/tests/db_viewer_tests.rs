use giglog_devtools::api_messages::{Key, KeyEvent, Modifiers};
use giglog_devtools::cell_edit::{
    days_in_month, format_temporal_value, next_temporal_part, prev_temporal_part,
    temporal_mode_for, DateTimePicker, PickerOutcome, TemporalMode, TemporalPart,
};
use giglog_devtools::cell_input::{parse_i64_chars, parse_input_value, IntParseError, ParsedInput};
use giglog_devtools::db_app::{
    compute_column_widths, current_cell_value, ActivePage, DbViewer, GridRow, TextEntryTarget,
};
use giglog_devtools::db_form::next_enum_value;
use giglog_devtools::db_grid::SaveOutcome;
use giglog_devtools::db_keys::{page_as_str, page_from_str, DbEffect, ReloadReason};
use giglog_devtools::db_sql::{ColumnInfo, QueryOutput, TableInfo};
use giglog_devtools::db_view::{
    format_error_for_status, pad_to_width, render_query_output, sanitize_grid_text,
    value_to_display, CellValue,
};

fn column(name: &str, data_type: &str, udt: &str, nullable: bool) -> ColumnInfo {
    ColumnInfo {
        name: name.to_string(),
        data_type: data_type.to_string(),
        udt_name: udt.to_string(),
        is_nullable: nullable,
        enum_options: vec![],
    }
}

fn enum_column(name: &str, options: &[&str]) -> ColumnInfo {
    ColumnInfo {
        name: name.to_string(),
        data_type: "USER-DEFINED".to_string(),
        udt_name: "mood".to_string(),
        is_nullable: false,
        enum_options: options.iter().map(|o| o.to_string()).collect(),
    }
}

fn key(code: Key) -> KeyEvent {
    KeyEvent { code, modifiers: Modifiers { shift: false, control: false, alt: false } }
}

fn ctrl(c: char) -> KeyEvent {
    KeyEvent { code: Key::Char(c), modifiers: Modifiers { shift: false, control: true, alt: false } }
}

fn chars(s: &str) -> Vec<char> {
    s.chars().collect()
}

fn text(v: &CellValue) -> String {
    value_to_display(v)
}

fn users_table() -> TableInfo {
    TableInfo {
        schema: "public".to_string(),
        name: "users".to_string(),
        columns: vec![
            column("id", "integer", "int4", false),
            column("name", "text", "text", false),
            column("active", "boolean", "bool", true),
            enum_column("mood", &["happy", "sad"]),
        ],
    }
}

fn row(ctid: &str, id: &str, name: &str, active: bool, mood: &str) -> GridRow {
    GridRow {
        ctid: ctid.to_string(),
        values: vec![
            ("active".to_string(), CellValue::Bool(active)),
            ("id".to_string(), CellValue::Number(id.to_string())),
            ("mood".to_string(), CellValue::Text(mood.to_string())),
            ("name".to_string(), CellValue::Text(name.to_string())),
        ],
    }
}

fn loaded_viewer() -> DbViewer {
    let mut v = DbViewer::new(
        vec![users_table()],
        Some("public.users".to_string()),
        Some("grid".to_string()),
        None,
    );
    let rows = vec![row("(0,1)", "1", "alice", true, "happy"), row("(0,2)", "2", "bob", false, "sad")];
    assert!(v.rows_loaded(ReloadReason::Initial, Ok(rows)).is_ok());
    v
}

fn value_of(parsed: Result<ParsedInput, Vec<String>>) -> CellValue {
    match parsed {
        Ok(ParsedInput::Value(v)) => v,
        other => panic!("expected a value, got {:?}", other),
    }
}

#[test]
fn integer_input_is_parsed_like_i64() {
    let c = column("age", "integer", "int4", false);
    assert_eq!(text(&value_of(parse_input_value("  42 ", &c))), "42");
    assert_eq!(text(&value_of(parse_input_value("-7", &c))), "-7");
    assert_eq!(text(&value_of(parse_input_value("+5", &c))), "5");
    assert_eq!(
        parse_input_value("12a", &c).unwrap_err(),
        vec!["expected integer for age".to_string(), "invalid digit found in string".to_string()]
    );
    assert_eq!(
        parse_input_value("99999999999999999999", &c).unwrap_err()[1],
        "number too large to fit in target type"
    );
}

#[test]
fn i64_parse_edges() {
    assert_eq!(parse_i64_chars(&chars("-9223372036854775808")), Ok(i64::MIN));
    assert_eq!(parse_i64_chars(&chars("9223372036854775807")), Ok(i64::MAX));
    assert_eq!(parse_i64_chars(&chars("9223372036854775808")), Err(IntParseError::PosOverflow));
    assert_eq!(parse_i64_chars(&chars("-9223372036854775809")), Err(IntParseError::NegOverflow));
    assert_eq!(parse_i64_chars(&chars("-")), Err(IntParseError::InvalidDigit));
    assert_eq!(parse_i64_chars(&chars("")), Err(IntParseError::Empty));
    assert_eq!(parse_i64_chars(&chars("99999999999999999999x")), Err(IntParseError::PosOverflow));
    assert_eq!(parse_i64_chars(&chars("1x99999999999999999999")), Err(IntParseError::InvalidDigit));
    for s in ["0", "17", "-3", "+12", "x", "1 2", "-0"] {
        let expected = s.parse::<i64>().ok();
        assert_eq!(parse_i64_chars(&chars(s)).ok(), expected, "{s}");
    }
}

#[test]
fn null_and_empty_input_follow_nullability() {
    let nullable = column("note", "text", "text", true);
    let required = column("age", "integer", "int4", false);
    assert!(matches!(value_of(parse_input_value("NuLl", &nullable)), CellValue::Null));
    assert!(matches!(value_of(parse_input_value("   ", &nullable)), CellValue::Null));
    assert_eq!(parse_input_value("null", &required).unwrap_err(), vec!["age is not nullable".to_string()]);
    assert_eq!(text(&value_of(parse_input_value("", &required))), "");
}

#[test]
fn enum_boolean_decimal_and_text_input() {
    let mood = enum_column("mood", &["happy", "sad"]);
    assert_eq!(text(&value_of(parse_input_value(" sad ", &mood))), "sad");
    assert_eq!(
        parse_input_value("angry", &mood).unwrap_err(),
        vec!["invalid enum value for mood. allowed: happy, sad".to_string()]
    );
    let flag = column("active", "boolean", "bool", false);
    assert!(matches!(value_of(parse_input_value("true", &flag)), CellValue::Bool(true)));
    assert_eq!(
        parse_input_value("yes", &flag).unwrap_err(),
        vec![
            "expected boolean for active".to_string(),
            "provided string was not `true` or `false`".to_string()
        ]
    );
    let price = column("price", "numeric", "numeric", false);
    match parse_input_value("1.50", &price) {
        Ok(ParsedInput::Decimal(t)) => assert_eq!(t, "1.50"),
        other => panic!("unexpected {:?}", other),
    }
    let note = column("note", "text", "text", false);
    assert_eq!(text(&value_of(parse_input_value(" hi there ", &note))), "hi there");
}

#[test]
fn uuid_and_json_input_go_through_their_parsers() {
    let id = column("id", "uuid", "uuid", false);
    assert_eq!(
        text(&value_of(parse_input_value("550E8400-E29B-41D4-A716-446655440000", &id))),
        "550e8400-e29b-41d4-a716-446655440000"
    );
    let err = parse_input_value("nope", &id).unwrap_err();
    assert_eq!(err[0], "expected UUID for id");
    assert_eq!(err.len(), 2);
    let data = column("data", "jsonb", "jsonb", false);
    assert_eq!(text(&value_of(parse_input_value("{\"a\": 1}", &data))), "{\"a\":1}");
    assert!(matches!(value_of(parse_input_value("3", &data)), CellValue::Number(_)));
    assert_eq!(parse_input_value("[1", &data).unwrap_err()[0], "invalid JSON for data");
}

#[test]
fn error_lines_show_outer_and_root_messages() {
    assert_eq!(format_error_for_status(&vec![]), "unexpected error");
    assert_eq!(format_error_for_status(&vec!["same".to_string()]), "same");
    assert_eq!(
        format_error_for_status(&vec!["outer".to_string(), "mid".to_string(), "inner".to_string()]),
        "outer (inner)"
    );
    assert_eq!(
        format_error_for_status(&vec![
            "update failed".to_string(),
            "ERROR: invalid input syntax for type uuid: \"x\"".to_string()
        ]),
        "invalid UUID value"
    );
}

#[test]
fn grid_text_is_sanitized_and_padded() {
    assert_eq!(sanitize_grid_text(&chars("a\nb\tc\r")), chars("a\\nb\\tc\\r"));
    assert_eq!(pad_to_width(&chars("ab"), 4), chars("ab  "));
    assert_eq!(pad_to_width(&chars("abcdef"), 4), chars("abcdef"));
    assert_eq!(value_to_display(&CellValue::Null), "NULL");
    assert_eq!(value_to_display(&CellValue::Bool(false)), "false");
    assert_eq!(value_to_display(&CellValue::Json("[1,2]".to_string())), "[1,2]");
}

#[test]
fn query_output_lines() {
    assert_eq!(
        render_query_output(&QueryOutput::Command { rows_affected: 3 }),
        vec!["rows affected: 3".to_string()]
    );
    assert_eq!(
        render_query_output(&QueryOutput::Rows { columns: vec![], rows: vec![], row_count: 0 }),
        vec!["(0 rows)".to_string()]
    );
    let rows: Vec<Vec<String>> = (0..7).map(|i| vec![i.to_string(), format!("n{i}")]).collect();
    let lines = render_query_output(&QueryOutput::Rows {
        columns: vec!["id".to_string(), "name".to_string()],
        rows,
        row_count: 7,
    });
    assert_eq!(lines.len(), 7);
    assert_eq!(lines[0], "id | name");
    assert_eq!(lines[1], "0 | n0");
    assert_eq!(lines[5], "4 | n4");
    assert_eq!(lines[6], "... 7 total rows (showing 5)");
}

#[test]
fn viewer_opens_on_stored_table_and_page() {
    let v = DbViewer::new(vec![users_table()], Some("public.users".to_string()), Some("query".to_string()), None);
    assert_eq!(v.selected_table, 0);
    assert_eq!(v.active_page, ActivePage::Query);
    assert_eq!(v.query, "SELECT * FROM users;");
    let w = DbViewer::new(vec![users_table()], Some("other.table".to_string()), Some("bogus".to_string()), Some("SELECT 1".to_string()));
    assert_eq!(w.active_page, ActivePage::Tables);
    assert_eq!(w.query, "SELECT 1");
    assert_eq!(page_from_str("grid"), Some(ActivePage::Grid));
    assert_eq!(page_as_str(ActivePage::Tables), "tables");
    let v = loaded_viewer();
    assert_eq!(v.status, "Loaded db-viewer");
    assert_eq!(v.rows.len(), 2);
}

#[test]
fn editing_a_cell_and_saving_it() {
    let mut v = loaded_viewer();
    assert!(v.handle_key(key(Key::Char('l'))).is_empty());
    assert_eq!(v.selected_col, 1);
    v.handle_key(key(Key::Enter));
    let entry = v.text_entry.clone().expect("text entry opens for a text column");
    assert_eq!(entry.buffer, "alice");
    assert!(matches!(entry.target, TextEntryTarget::GridCell { row_index: 0, .. }));
    v.handle_key(key(Key::Char('x')));
    v.handle_key(key(Key::Enter));
    assert!(v.text_entry.is_none());
    assert_eq!(v.status, "Edited name row 1 (Ctrl+S to save)");
    let shown = current_cell_value(&v, 0, &chars("name")).unwrap();
    assert_eq!(value_to_display(&shown), "alicex");
    let effects = v.handle_key(ctrl('s'));
    assert_eq!(effects.len(), 1);
    match &effects[0] {
        DbEffect::SaveRows(list) => {
            assert_eq!(list.len(), 1);
            assert_eq!(list[0].row_index, 0);
            assert_eq!(list[0].ctid, "(0,1)");
            assert_eq!(list[0].updates.len(), 1);
            assert_eq!(list[0].updates[0].0, "name");
        }
        other => panic!("unexpected {:?}", other),
    }
    let after = v.rows_saved(&vec![SaveOutcome { row_index: 0, error: None }]);
    assert_eq!(v.status, "Saved 1 row(s)");
    assert!(v.dirty_rows.is_empty());
    assert!(matches!(after[0], DbEffect::ReloadRows(ReloadReason::AfterSave(1))));
    assert_eq!(value_to_display(&current_cell_value(&v, 0, &chars("name")).unwrap()), "alicex");
}

#[test]
fn failed_save_keeps_the_edit_and_shows_an_error() {
    let mut v = loaded_viewer();
    v.set_dirty(1, "name".to_string(), CellValue::Text("carol".to_string()));
    let after = v.rows_saved(&vec![SaveOutcome {
        row_index: 1,
        error: Some(vec!["failed to update row".to_string(), "boom".to_string()]),
    }]);
    assert!(after.is_empty());
    assert_eq!(v.status, "Failed to save 1 row(s): row 2: failed to update row (boom)");
    assert_eq!(v.error_popup.as_deref(), Some("Failed to save 1 row(s): row 2: failed to update row (boom)"));
    assert_eq!(v.dirty_rows.len(), 1);
    let mut empty = loaded_viewer();
    empty.handle_key(ctrl('s'));
    assert_eq!(empty.status, "No pending edits");
}

#[test]
fn boolean_cell_opens_a_value_picker() {
    let mut v = loaded_viewer();
    v.handle_key(key(Key::Char('$')));
    assert_eq!(v.selected_col, 3);
    v.handle_key(key(Key::Char('h')));
    assert_eq!(v.selected_col, 2);
    v.handle_key(key(Key::Enter));
    let picker = v.value_picker.clone().expect("picker for a boolean column");
    let labels: Vec<String> = picker.options.iter().map(|o| o.label.clone()).collect();
    assert_eq!(labels, vec!["true", "false", "NULL"]);
    assert_eq!(picker.selected_index, 0);
    v.handle_key(key(Key::Char('j')));
    v.handle_key(key(Key::Enter));
    assert!(v.value_picker.is_none());
    assert_eq!(v.status, "Set active = false (Ctrl+S to save)");
    assert!(matches!(current_cell_value(&v, 0, &chars("active")), Some(CellValue::Bool(false))));
}

#[test]
fn deleting_the_selected_row() {
    let mut v = loaded_viewer();
    v.handle_key(key(Key::Char('d')));
    let confirm = v.confirm_delete.clone().expect("delete asks first");
    assert_eq!(confirm.description, "Delete 1 row?");
    let effects = v.handle_key(key(Key::Char('y')));
    match &effects[0] {
        DbEffect::DeleteRows(ids) => assert_eq!(ids, &vec!["(0,1)".to_string()]),
        other => panic!("unexpected {:?}", other),
    }
    let next = v.rows_deleted(Ok(1));
    assert_eq!(v.status, "Deleted 1 row(s)");
    assert!(matches!(next[0], DbEffect::ReloadRows(ReloadReason::AfterDelete)));
    let mut w = loaded_viewer();
    w.handle_key(KeyEvent { code: Key::Char('A'), modifiers: Modifiers { shift: true, control: false, alt: false } });
    assert_eq!(w.status, "Selected all 2 loaded rows");
    w.handle_key(key(Key::Char('d')));
    assert_eq!(w.confirm_delete.clone().unwrap().description, "Delete 2 rows?");
    w.handle_key(key(Key::Esc));
    assert_eq!(w.status, "Delete cancelled");
}

#[test]
fn marking_rows_toggles() {
    let mut v = loaded_viewer();
    v.handle_key(key(Key::Char(' ')));
    assert_eq!(v.selected_rows, vec![0]);
    v.handle_key(key(Key::Char(' ')));
    assert!(v.selected_rows.is_empty());
}

#[test]
fn adding_a_row_through_the_form() {
    let mut v = loaded_viewer();
    v.handle_key(key(Key::Char('a')));
    assert!(v.add_form.is_some());
    v.handle_key(key(Key::Char('x')));
    assert_eq!(v.status, "Cleared id");
    v.handle_key(key(Key::Char('j')));
    v.handle_key(key(Key::Enter));
    assert!(v.text_entry.is_some());
    for c in "bob".chars() {
        v.handle_key(key(Key::Char(c)));
    }
    v.handle_key(key(Key::Enter));
    assert_eq!(v.status, "Updated add-row field");
    v.handle_key(key(Key::Char('j')));
    v.handle_key(key(Key::Char('j')));
    v.handle_key(key(Key::Enter));
    assert_eq!(v.status, "Set mood = happy");
    let effects = v.handle_key(ctrl('s'));
    match &effects[0] {
        DbEffect::InsertRow(values) => {
            let names: Vec<&str> = values.iter().map(|(n, _)| n.as_str()).collect();
            assert_eq!(names, vec!["mood", "name"]);
            assert_eq!(value_to_display(&values[1].1), "bob");
        }
        other => panic!("unexpected {:?}", other),
    }
    let next = v.row_inserted(Ok(()));
    assert!(v.add_form.is_none());
    assert_eq!(v.status, "Inserted row");
    assert!(matches!(next[0], DbEffect::ReloadRows(ReloadReason::AfterInsert)));
}

#[test]
fn enum_values_cycle() {
    let mood = enum_column("mood", &["happy", "sad", "meh"]);
    assert_eq!(next_enum_value(&mood, None), "happy");
    assert_eq!(next_enum_value(&mood, Some(CellValue::Text("sad".to_string()))), "meh");
    assert_eq!(next_enum_value(&mood, Some(CellValue::Text("meh".to_string()))), "happy");
    assert_eq!(next_enum_value(&mood, Some(CellValue::Bool(true))), "happy");
    assert_eq!(next_enum_value(&enum_column("x", &[]), None), "");
}

#[test]
fn gg_and_capital_g_move_between_first_and_last_row() {
    let mut v = loaded_viewer();
    v.handle_key(key(Key::Char('G')));
    assert_eq!(v.selected_row, 1);
    v.handle_key(key(Key::Char('g')));
    assert!(v.pending_g);
    v.handle_key(key(Key::Char('g')));
    assert_eq!(v.selected_row, 0);
    assert!(!v.pending_g);
}

#[test]
fn column_widths_cover_headers_and_cells() {
    let v = loaded_viewer();
    let widths = compute_column_widths(&v, &users_table());
    assert_eq!(widths, vec![2, 5, 6, 5]);
}

#[test]
fn page_keys_and_queries() {
    let mut v = loaded_viewer();
    let effects = v.handle_key(key(Key::Char('3')));
    assert_eq!(v.active_page, ActivePage::Query);
    match &effects[0] {
        DbEffect::PersistState { selected_table, active_page } => {
            assert_eq!(selected_table.as_deref(), Some("public.users"));
            assert_eq!(active_page, "query");
        }
        other => panic!("unexpected {:?}", other),
    }
    let run = v.handle_key(key(Key::Char('r')));
    assert!(matches!(&run[0], DbEffect::RunQuery(q) if q == "SELECT * FROM users;"));
    v.query_finished(Ok((QueryOutput::Command { rows_affected: 2 }, 12)));
    assert_eq!(v.status, "Query executed in 12ms");
    assert_eq!(v.query_result_lines, vec!["rows affected: 2".to_string()]);
    v.query_finished(Err(vec!["syntax error".to_string(), "near FROM".to_string()]));
    assert_eq!(v.query_result_lines, vec!["Error: syntax error".to_string()]);
    assert_eq!(v.status, "Query failed");
    v.handle_key(key(Key::Enter));
    assert!(v.error_popup.is_none());
    assert!(matches!(v.handle_key(key(Key::Char('q')))[0], DbEffect::Close));
}

#[test]
fn datetime_picker_reads_and_writes_values() {
    let ts = column("created_at", "timestamp with time zone", "timestamptz", true);
    assert_eq!(temporal_mode_for(&ts), Some(TemporalMode::DateTime));
    let now = (2020, 1, 1, 0, 0, 0);
    let mut p = DateTimePicker::for_column(0, &ts, now, Some(CellValue::Text("2024-02-29 10:20:30".to_string())))
        .expect("picker for a timestamp");
    assert_eq!(format_temporal_value(&p), "2024-02-29 10:20:30");
    assert_eq!(p.selected_part, TemporalPart::Day);
    assert_eq!(p.on_key(key(Key::Down)), PickerOutcome::Continue);
    assert_eq!(p.day, 1);
    p.on_key(key(Key::Char('h')));
    p.on_key(key(Key::Char('h')));
    assert_eq!(p.selected_part, TemporalPart::Year);
    p.on_key(key(Key::Char('j')));
    assert_eq!(p.year, 2025);
    assert_eq!(p.on_key(key(Key::Enter)), PickerOutcome::Commit(Some("2025-02-01 10:20:30".to_string())));
    p.on_key(key(Key::Char('x')));
    assert_eq!(p.on_key(key(Key::Enter)), PickerOutcome::Commit(None));
    let rfc = DateTimePicker::for_column(0, &ts, now, Some(CellValue::Text("2021-06-30T23:59:58+02:00".to_string()))).unwrap();
    assert_eq!(format_temporal_value(&rfc), "2021-06-30 23:59:58");
    let unreadable = DateTimePicker::for_column(0, &ts, now, Some(CellValue::Text("soon".to_string()))).unwrap();
    assert_eq!(format_temporal_value(&unreadable), "2020-01-01 00:00:00");
    let t = column("at", "time without time zone", "time", false);
    let tp = DateTimePicker::for_column(0, &t, now, Some(CellValue::Text("07:05".to_string()))).unwrap();
    assert_eq!(format_temporal_value(&tp), "07:05:00");
    assert_eq!(next_temporal_part(TemporalMode::Time, TemporalPart::Second), TemporalPart::Hour);
    assert_eq!(prev_temporal_part(TemporalMode::Date, TemporalPart::Year), TemporalPart::Day);
}

#[test]
fn calendar_months() {
    assert_eq!(days_in_month(2023, 2), 28);
    assert_eq!(days_in_month(2024, 2), 29);
    assert_eq!(days_in_month(1900, 2), 28);
    assert_eq!(days_in_month(2000, 2), 29);
    assert_eq!(days_in_month(2024, 4), 30);
    assert_eq!(days_in_month(2024, 13), 30);
}
