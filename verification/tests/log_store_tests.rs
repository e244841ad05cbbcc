use giglog_devtools::dev_tui::{
    apply_tui_event, handle_key_event, log_line_prefix, AppState, KeyCode, KeyPress, TuiEvent,
};
use giglog_devtools::log_store::{LogEntry, LogStore, Service};

#[test]
fn clear_filtered_removes_only_selected_service() {
    let mut store = LogStore::new();
    store.push(LogEntry { service: Service::Api, line: "api 1".to_string() });
    store.push(LogEntry { service: Service::Web, line: "web 1".to_string() });
    store.push(LogEntry { service: Service::Api, line: "api 2".to_string() });
    store.push(LogEntry { service: Service::Docs, line: "docs 1".to_string() });

    store.clear_filtered(Some(Service::Api));

    let remaining = store.filtered(None);
    assert_eq!(remaining.len(), 2);
    assert_eq!(remaining[0].service, Service::Web);
    assert_eq!(remaining[0].line, "web 1");
    assert_eq!(remaining[1].service, Service::Docs);
    assert_eq!(remaining[1].line, "docs 1");
}

#[test]
fn clear_filtered_none_removes_all_entries() {
    let mut store = LogStore::new();
    store.push(LogEntry { service: Service::Api, line: "api".to_string() });
    store.push(LogEntry { service: Service::Web, line: "web".to_string() });

    store.clear_filtered(None);

    assert!(store.filtered(None).is_empty());
}

#[test]
fn clear_filtered_is_no_op_when_service_not_present() {
    let mut store = LogStore::new();
    store.push(LogEntry { service: Service::Web, line: "web".to_string() });
    store.push(LogEntry { service: Service::Docs, line: "docs".to_string() });

    store.clear_filtered(Some(Service::Api));

    let remaining = store.filtered(None);
    assert_eq!(remaining.len(), 2);
    assert_eq!(remaining[0].service, Service::Web);
    assert_eq!(remaining[0].line, "web");
    assert_eq!(remaining[1].service, Service::Docs);
    assert_eq!(remaining[1].line, "docs");
}

#[test]
fn filtered_shows_only_the_selected_service() {
    let mut store = LogStore::new();
    store.push(LogEntry { service: Service::Api, line: "a".to_string() });
    store.push(LogEntry { service: Service::Web, line: "w".to_string() });
    store.push(LogEntry { service: Service::Api, line: "b".to_string() });
    let api = store.filtered(Some(Service::Api));
    assert_eq!(api.len(), 2);
    assert_eq!(api[0].line, "a");
    assert_eq!(api[1].line, "b");
    store.clear();
    assert!(store.filtered(None).is_empty());
}

#[test]
fn service_labels() {
    assert_eq!(Service::Api.label(), "API");
    assert_eq!(Service::Web.label(), "WEB");
    assert_eq!(Service::Common.label(), "COMMON");
    assert_eq!(Service::DevTools.label(), "DEV-TOOLS");
    assert_eq!(Service::Docs.label(), "DOCS");
    assert_eq!(Service::System.label(), "SYSTEM");
}

fn rendered_text(entry: LogEntry) -> String {
    format!("{}{}", log_line_prefix(entry.service), entry.line)
}

#[test]
fn aligns_service_pipe_column_for_all_labels() {
    let samples = [
        LogEntry { service: Service::Api, line: "api log".to_string() },
        LogEntry { service: Service::Web, line: "web log".to_string() },
        LogEntry { service: Service::Docs, line: "docs log".to_string() },
        LogEntry { service: Service::System, line: "system log".to_string() },
        LogEntry { service: Service::DevTools, line: "dev-tools log".to_string() },
    ];

    let pipe_columns: Vec<usize> = samples
        .into_iter()
        .map(rendered_text)
        .map(|line| line.find('|').expect("line should include pipe separator"))
        .collect();

    let expected_column = pipe_columns[0];
    assert!(
        pipe_columns.iter().all(|column| *column == expected_column),
        "pipe columns should match: {pipe_columns:?}"
    );
}

#[test]
fn log_line_prefix_pads_to_widest_label() {
    assert_eq!(log_line_prefix(Service::Api), " [API]      | ");
    assert_eq!(log_line_prefix(Service::DevTools), " [DEV-TOOLS]| ");
}

fn sample_entry() -> LogEntry {
    LogEntry { service: Service::Api, line: "sample".to_string() }
}

fn key(c: char) -> KeyPress {
    KeyPress { code: KeyCode::Char(c), control: false }
}

#[test]
fn clear_logs_clears_store_when_auto_clear_enabled() {
    let mut log_store = LogStore::new();
    log_store.push(sample_entry());

    let mut state = AppState::new();
    state.follow = false;
    state.scroll_offset = 7;
    state.auto_clear = true;

    apply_tui_event(&mut log_store, &mut state, TuiEvent::ClearLogs);

    assert!(log_store.filtered(None).is_empty());
    assert_eq!(state.scroll_offset, 0);
    assert!(state.follow);
}

#[test]
fn clear_logs_is_noop_when_auto_clear_disabled() {
    let mut log_store = LogStore::new();
    log_store.push(sample_entry());

    let mut state = AppState::new();
    state.follow = false;
    state.scroll_offset = 7;
    state.auto_clear = false;

    apply_tui_event(&mut log_store, &mut state, TuiEvent::ClearLogs);

    assert_eq!(log_store.filtered(None).len(), 1);
    assert_eq!(state.scroll_offset, 7);
    assert!(!state.follow);
}

#[test]
fn x_key_toggles_auto_clear() {
    let mut log_store = LogStore::new();
    let mut state = AppState::new();
    assert!(state.auto_clear);

    let should_quit = handle_key_event(&mut log_store, &mut state, key('x'), 0, 1);

    assert!(!should_quit);
    assert!(!state.auto_clear);
}

#[test]
fn keys_scroll_within_range_and_gg_jumps_to_top() {
    let mut log_store = LogStore::new();
    let mut state = AppState::new();
    assert!(!handle_key_event(&mut log_store, &mut state, key('j'), 5, 2));
    assert_eq!(state.scroll_offset, 5);
    assert!(!state.follow);
    assert!(!handle_key_event(&mut log_store, &mut state, key('k'), 5, 2));
    assert_eq!(state.scroll_offset, 4);
    assert!(!handle_key_event(&mut log_store, &mut state, KeyPress { code: KeyCode::Char('d'), control: true }, 5, 2));
    assert_eq!(state.scroll_offset, 5);
    assert!(!handle_key_event(&mut log_store, &mut state, key('g'), 5, 2));
    assert!(!handle_key_event(&mut log_store, &mut state, key('g'), 5, 2));
    assert_eq!(state.scroll_offset, 0);
    assert!(handle_key_event(&mut log_store, &mut state, key('q'), 5, 2));
    assert!(handle_key_event(&mut log_store, &mut state, KeyPress { code: KeyCode::Char('c'), control: true }, 5, 2));
}

#[test]
fn c_key_clears_filtered_logs_and_digits_select_filters() {
    let mut log_store = LogStore::new();
    log_store.push(LogEntry { service: Service::Api, line: "a".to_string() });
    log_store.push(LogEntry { service: Service::Web, line: "w".to_string() });
    let mut state = AppState::new();
    handle_key_event(&mut log_store, &mut state, key('1'), 0, 1);
    assert_eq!(state.filter, Some(Service::Api));
    handle_key_event(&mut log_store, &mut state, key('c'), 0, 1);
    assert_eq!(log_store.filtered(None).len(), 1);
    assert_eq!(log_store.filtered(None)[0].service, Service::Web);
    handle_key_event(&mut log_store, &mut state, key('a'), 0, 1);
    assert_eq!(state.filter, None);
}

#[test]
fn service_events_set_badges() {
    let mut log_store = LogStore::new();
    let mut state = AppState::new();
    apply_tui_event(&mut log_store, &mut state, TuiEvent::ServiceStarted(Service::Web));
    assert!(state.services_running[1]);
    apply_tui_event(&mut log_store, &mut state, TuiEvent::ServiceExited(Service::Web));
    assert!(!state.services_running[1]);
    apply_tui_event(&mut log_store, &mut state, TuiEvent::Log(sample_entry()));
    assert_eq!(log_store.filtered(None).len(), 1);
}
