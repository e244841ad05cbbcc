use giglog_devtools::api_messages::{AppMsg, InputMode, Key, KeyEvent, Modifiers, Msg};
use giglog_devtools::collection::{HttpMethod, Route};
use giglog_devtools::global_listener::InputEvent;
use giglog_devtools::input_keys::{
    input_event_action, radio_event_action, Binding, InputAction, InputBindings, InputCommand,
    RadioAction, RadioBindings,
};
use giglog_devtools::route_editor::{
    editor_group, group_choice_index, group_choices, headers_text, method_for_index, method_index,
    parse_header_input, sync_draft_from_inputs, EditorInputs,
};
use giglog_devtools::route_list_state::{RouteListState, SelectedItem};
use giglog_devtools::route_preview::{
    interleave_with_blank_lines, placeholder_preview_lines, route_body_status_line,
    route_preview_content, route_preview_for_group, route_summary_lines, truncate_preview_lines,
    visible_route_count,
};

fn strings(items: &[&str]) -> Vec<String> {
    items.iter().map(|s| s.to_string()).collect()
}

fn key(code: Key) -> InputEvent {
    InputEvent::Keyboard(KeyEvent { code, modifiers: Modifiers { shift: false, control: false, alt: false } })
}

fn key_with(code: Key, shift: bool, control: bool) -> InputEvent {
    InputEvent::Keyboard(KeyEvent { code, modifiers: Modifiers { shift, control, alt: false } })
}

fn route(group: &str, name: &str, method: HttpMethod) -> Route {
    Route {
        group: group.to_string(),
        scope_id: format!("route_{name}"),
        name: name.to_string(),
        method,
        url: format!("https://example.com/{name}"),
        headers: vec![],
        body: None,
    }
}

// --- input fields and radio selectors ---------------------------------------

#[test]
fn input_field_tab_keys_emit_in_any_mode() {
    for mode in [InputMode::Normal, InputMode::Insert] {
        assert_eq!(input_event_action(&key(Key::Tab), mode), InputAction::Emit(Binding::Tab));
        assert_eq!(input_event_action(&key(Key::BackTab), mode), InputAction::Emit(Binding::BackTab));
        assert_eq!(
            input_event_action(&key_with(Key::Char('s'), false, true), mode),
            InputAction::Emit(Binding::CtrlS)
        );
    }
}

#[test]
fn input_field_insert_mode_edits_text() {
    let m = InputMode::Insert;
    assert_eq!(input_event_action(&key(Key::Char('h')), m), InputAction::Perform(InputCommand::Type('h')));
    assert_eq!(
        input_event_action(&key_with(Key::Char('X'), true, false), m),
        InputAction::Perform(InputCommand::Type('X'))
    );
    assert_eq!(input_event_action(&key_with(Key::Char('x'), false, true), m), InputAction::Ignore);
    assert_eq!(input_event_action(&key(Key::Backspace), m), InputAction::Perform(InputCommand::DeleteBefore));
    assert_eq!(input_event_action(&key(Key::Delete), m), InputAction::Perform(InputCommand::DeleteAt));
    assert_eq!(input_event_action(&key(Key::Left), m), InputAction::Perform(InputCommand::MoveLeft));
    assert_eq!(input_event_action(&key(Key::Right), m), InputAction::Perform(InputCommand::MoveRight));
    assert_eq!(input_event_action(&key(Key::Enter), m), InputAction::Emit(Binding::InsertEnter));
    assert_eq!(input_event_action(&key(Key::Up), m), InputAction::Ignore);
}

#[test]
fn input_field_normal_mode_only_moves() {
    let m = InputMode::Normal;
    assert_eq!(input_event_action(&key(Key::Char('h')), m), InputAction::Perform(InputCommand::MoveLeft));
    assert_eq!(input_event_action(&key(Key::Char('l')), m), InputAction::Perform(InputCommand::MoveRight));
    assert_eq!(input_event_action(&key(Key::Left), m), InputAction::Perform(InputCommand::MoveLeft));
    assert_eq!(input_event_action(&key(Key::Char('x')), m), InputAction::Ignore);
    assert_eq!(input_event_action(&key(Key::Enter), m), InputAction::Ignore);
    assert_eq!(input_event_action(&key(Key::Backspace), m), InputAction::Ignore);
    assert_eq!(input_event_action(&InputEvent::WindowResize(10, 10), m), InputAction::Ignore);
}

#[test]
fn radio_moves_only_in_insert_mode() {
    assert_eq!(radio_event_action(&key(Key::Left), InputMode::Insert), RadioAction::SelectPrevious);
    assert_eq!(radio_event_action(&key(Key::Char('l')), InputMode::Insert), RadioAction::SelectNext);
    assert_eq!(radio_event_action(&key(Key::Left), InputMode::Normal), RadioAction::Ignore);
    assert_eq!(radio_event_action(&key(Key::Tab), InputMode::Normal), RadioAction::Emit(Binding::Tab));
    assert_eq!(radio_event_action(&key(Key::Enter), InputMode::Insert), RadioAction::Ignore);
}

#[test]
fn bindings_hand_out_their_messages() {
    let b = InputBindings::tab_cycle(Msg::App(AppMsg::ScrollDown), Msg::App(AppMsg::ScrollUp));
    assert_eq!(b.message(Binding::Tab), &Some(Msg::App(AppMsg::ScrollDown)));
    assert_eq!(b.message(Binding::BackTab), &Some(Msg::App(AppMsg::ScrollUp)));
    assert_eq!(b.message(Binding::CtrlS), &None);
    assert_eq!(b.message(Binding::InsertEnter), &None);
    let r = RadioBindings::tab_cycle(Msg::App(AppMsg::Close), Msg::App(AppMsg::PageUp));
    assert_eq!(r.message(Binding::Tab), &Some(Msg::App(AppMsg::Close)));
    assert_eq!(r.message(Binding::InsertEnter), &None);
}

// --- route preview pane --------------------------------------------------------

#[test]
fn blank_lines_are_interleaved_up_to_the_cap() {
    let lines = strings(&["a", "b", "c"]);
    assert_eq!(interleave_with_blank_lines(&lines, 10), strings(&["a", "", "b", "", "c"]));
    assert_eq!(interleave_with_blank_lines(&lines, 4), strings(&["a", "", "b", ""]));
    assert!(interleave_with_blank_lines(&lines, 0).is_empty());
    assert!(interleave_with_blank_lines(&Vec::new(), 3).is_empty());
}

#[test]
fn preview_lines_are_truncated_with_a_marker() {
    let lines = strings(&["1", "2", "3", "4"]);
    assert_eq!(truncate_preview_lines(&lines, 3), strings(&["1", "2", "... +2 more"]));
    assert_eq!(truncate_preview_lines(&lines, 1), strings(&["1"]));
    assert_eq!(truncate_preview_lines(&lines, 4), lines);
    assert!(truncate_preview_lines(&lines, 0).is_empty());
}

#[test]
fn placeholder_needs_a_line() {
    assert_eq!(placeholder_preview_lines("none", 2), strings(&["none"]));
    assert!(placeholder_preview_lines("none", 0).is_empty());
}

#[test]
fn visible_route_count_fits_entries_and_marker() {
    assert_eq!(visible_route_count(5, 9), 2);
    assert_eq!(visible_route_count(3, 9), 3);
    assert_eq!(visible_route_count(3, 7), 1);
    assert_eq!(visible_route_count(3, 2), 0);
}

#[test]
fn group_preview_lists_what_fits() {
    let routes = vec![
        route("api", "a", HttpMethod::Get),
        route("general", "x", HttpMethod::Delete),
        route(" api ", "b", HttpMethod::Post),
        route("api", "c", HttpMethod::Put),
    ];
    assert_eq!(
        route_preview_for_group(&routes, "api", 9),
        strings(&["Group: api", "", "Routes: 3", "", "GET    a", "", "POST   b", "", "PUT    c"])
    );
    assert_eq!(
        route_preview_for_group(&routes, "api", 7),
        strings(&["Group: api", "", "Routes: 3", "", "GET    a", "", "... +2 more"])
    );
    assert_eq!(
        route_preview_for_group(&routes, "  ", 20),
        strings(&["Group: general", "", "Routes: 1", "", "DELETE x"])
    );
    assert_eq!(
        route_preview_for_group(&routes, "empty", 20),
        strings(&["Group: empty", "", "Routes: 0", "", "No routes in this group."])
    );
}

#[test]
fn summary_and_body_status_describe_a_route() {
    let mut r = route("  api  ", "login", HttpMethod::Post);
    r.headers = strings(&["A: 1", "B: 2"]);
    assert_eq!(
        route_summary_lines(&r),
        strings(&["POST   login", "Group: api", "URL: https://example.com/login", "Headers: 2"])
    );
    assert_eq!(route_body_status_line(&r), "Body: Empty");
    r.body = Some("  ".to_string());
    assert_eq!(route_body_status_line(&r), "Body: Empty");
    r.body = Some(" é ".to_string());
    assert_eq!(route_body_status_line(&r), "Body: Set (3 chars)");
    r.headers = vec![];
    assert_eq!(route_summary_lines(&r)[3], "Headers: none");
}

#[test]
fn preview_content_follows_the_selection() {
    let routes = vec![route("api", "a", HttpMethod::Get)];
    let (title, lines) = route_preview_content(&Vec::new(), &None, 5);
    assert_eq!(title, "Preview");
    assert_eq!(lines, strings(&["No routes. Press 'n' to create one."]));
    let (title, lines) = route_preview_content(&routes, &None, 3);
    assert_eq!(title, "Group Preview");
    assert_eq!(lines, strings(&["Group: api", "", "Routes: 1"]));
    let selected = Some(SelectedItem::Group { name: " api ".to_string() });
    let (title, _) = route_preview_content(&routes, &selected, 3);
    assert_eq!(title, "Group Preview");
    let mut state = RouteListState::default();
    let mut gone = route("missing", "z", HttpMethod::Get);
    gone.group = "missing".to_string();
    state.select_route(&vec![gone], 0, false);
    let (title, lines) = route_preview_content(&routes, &state.selected, 3);
    assert_eq!(title, "Route Preview");
    assert_eq!(lines, strings(&["Selected route is no longer available."]));
}

// --- route editor -------------------------------------------------------------------

#[test]
fn method_selector_positions() {
    assert_eq!(method_index(HttpMethod::Get), 0);
    assert_eq!(method_index(HttpMethod::Delete), 4);
    assert_eq!(method_for_index(2), HttpMethod::Put);
    assert_eq!(method_for_index(9), HttpMethod::Get);
    for m in [HttpMethod::Get, HttpMethod::Post, HttpMethod::Put, HttpMethod::Patch, HttpMethod::Delete] {
        assert_eq!(method_for_index(method_index(m)), m);
    }
}

#[test]
fn group_selector_choices_and_position() {
    let names = strings(&["a", "b"]);
    assert_eq!(group_choices(&names), strings(&["a", "b", "New Group..."]));
    assert_eq!(group_choice_index(&names, "b"), 1);
    assert_eq!(group_choice_index(&names, "z"), 0);
    assert_eq!(editor_group(&names, Some(0), "ignored"), "a");
    assert_eq!(editor_group(&names, Some(2), "  "), "general");
    assert_eq!(editor_group(&names, Some(2), "new"), "new");
    assert_eq!(editor_group(&names, None, "new"), "general");
}

#[test]
fn headers_field_round_trip() {
    let headers = strings(&["A: 1", "B: 2"]);
    let text = headers_text(&headers);
    assert_eq!(text, "A: 1, B: 2");
    assert_eq!(parse_header_input(&text), headers);
    assert_eq!(parse_header_input(" A: 1 , ,B: 2,"), headers);
    assert!(parse_header_input("").is_empty());
}

#[test]
fn draft_is_read_back_from_the_fields() {
    let mut draft = route("old", "old", HttpMethod::Get);
    draft.body = Some("{}".to_string());
    let inputs = EditorInputs {
        name: "new name".to_string(),
        group_index: Some(1),
        new_group: String::new(),
        method_index: Some(3),
        url: "https://x".to_string(),
        headers: "X: 1, Y: 2".to_string(),
    };
    sync_draft_from_inputs(&mut draft, &strings(&["a", "b"]), &inputs);
    assert_eq!(draft.name, "new name");
    assert_eq!(draft.group, "b");
    assert_eq!(draft.method, HttpMethod::Patch);
    assert_eq!(draft.url, "https://x");
    assert_eq!(draft.headers, strings(&["X: 1", "Y: 2"]));
    assert_eq!(draft.body, Some("{}".to_string()));
    assert_eq!(draft.scope_id, "route_old");
}

#[test]
fn selecting_a_route_expands_its_group_once() {
    let routes = vec![route("", "a", HttpMethod::Get), route("api", "b", HttpMethod::Post)];
    let mut state = RouteListState::default();
    state.select_route(&routes, 0, true);
    assert_eq!(state.expanded_groups, strings(&["general"]));
    state.select_route(&routes, 0, true);
    assert_eq!(state.expanded_groups, strings(&["general"]));
    state.select_route(&routes, 1, false);
    assert_eq!(state.expanded_groups, strings(&["general"]));
    match &state.selected {
        Some(SelectedItem::Route(sel)) => {
            assert_eq!(sel.group, "api");
            assert_eq!(sel.name, "b");
            assert_eq!(sel.method, "POST");
        }
        other => panic!("unexpected selection {other:?}"),
    }
    let before = state.clone();
    state.select_route(&routes, 7, true);
    assert_eq!(state, before);
}
