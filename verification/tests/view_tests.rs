use giglog_devtools::api_messages::{ActiveView, AppMsg, Key, KeyEvent, Modifiers, Msg, RouteEditorMsg};
use giglog_devtools::api_messages::VariableManagerMsg;
use giglog_devtools::var_table::VariableTableState;
use giglog_devtools::body_preview::{build, highlight_json_line, token_style, BodyPreviewFormat, PreviewColor, TokenKind};
use giglog_devtools::executor::CurlResponse;
use giglog_devtools::global_listener::{GlobalListener, MouseButton, MouseEvent, MouseEventKind};
use giglog_devtools::response_view::{
    build_text_lines, build_wrapped_text_lines, status_text, status_tone, DetailsKeys,
    ScrollCommand, StatusTone,
};

fn line_text(tokens: &[giglog_devtools::body_preview::Token]) -> String {
    tokens.iter().map(|t| t.text.as_str()).collect::<String>()
}

#[test]
fn valid_json_is_pretty_printed_and_highlighted() {
    let preview = build("{\"name\":\"Gig Log\",\"active\":true}");

    assert_eq!(preview.format, BodyPreviewFormat::Json);
    assert_eq!(line_text(&preview.lines[0]), "{");
    assert_eq!(line_text(&preview.lines[1]), "  \"active\": true,");
    assert_eq!(line_text(&preview.lines[2]), "  \"name\": \"Gig Log\"");
    assert_eq!(line_text(&preview.lines[3]), "}");

    let key_span = preview.lines[1]
        .iter()
        .find(|span| span.text == "\"active\"")
        .expect("key span should be present");
    assert_eq!(key_span.kind, TokenKind::Key);

    let bool_span = preview.lines[1]
        .iter()
        .find(|span| span.text == "true")
        .expect("boolean span should be present");
    assert_eq!(bool_span.kind, TokenKind::Boolean);
}

#[test]
fn invalid_json_falls_back_to_plain_text() {
    let preview = build("{\"name\":\"Gig Log\"");

    assert_eq!(preview.format, BodyPreviewFormat::Text);
    assert_eq!(preview.lines.len(), 1);
    assert_eq!(line_text(&preview.lines[0]), "{\"name\":\"Gig Log\"");
}

#[test]
fn empty_body_has_no_preview_lines() {
    let preview = build("  \n  ");

    assert_eq!(preview.format, BodyPreviewFormat::Text);
    assert!(preview.lines.is_empty());
}

#[test]
fn json_line_tokens_cover_the_line() {
    let line: Vec<char> = "  \"k\" : -1.5e3, null, false, [\"a\\\"b\"] xyz".chars().collect();
    let tokens = highlight_json_line(&line);
    assert_eq!(line_text(&tokens), line.iter().collect::<String>());
    let kinds: Vec<TokenKind> = tokens.iter().map(|t| t.kind).collect();
    assert_eq!(kinds[0], TokenKind::Whitespace);
    assert_eq!(kinds[1], TokenKind::Key);
    assert!(tokens.iter().any(|t| t.text == "-1.5e3" && t.kind == TokenKind::Number));
    assert!(tokens.iter().any(|t| t.text == "null" && t.kind == TokenKind::Null));
    assert!(tokens.iter().any(|t| t.text == "false" && t.kind == TokenKind::Boolean));
    assert!(tokens.iter().any(|t| t.text == "\"a\\\"b\"" && t.kind == TokenKind::Str));
    assert!(tokens.iter().any(|t| t.text == "xyz" && t.kind == TokenKind::Plain));
}

fn sample_response(status_code: u16) -> CurlResponse {
    CurlResponse {
        status_code,
        headers: vec![
            "content-type: application/json".to_string(),
            "x-request-id: abc-123".to_string(),
        ],
        body: "{\"message\":\"not found\"}".to_string(),
    }
}

#[test]
fn status_text_includes_reason_phrase() {
    assert_eq!(status_text(404), "HTTP 404 Not Found");
}

#[test]
fn status_text_falls_back_for_unknown_codes() {
    assert_eq!(status_text(799), "HTTP 799 Unknown Status");
}

#[test]
fn status_tones_follow_code_classes() {
    assert_eq!(status_tone(204), StatusTone::Success);
    assert_eq!(status_tone(302), StatusTone::Redirect);
    assert_eq!(status_tone(404), StatusTone::ClientError);
    assert_eq!(status_tone(503), StatusTone::ServerError);
    assert_eq!(status_tone(99), StatusTone::Other);
}

#[test]
fn text_lines_are_ordered_status_headers_body() {
    let response = sample_response(404);
    let lines = build_text_lines(&response);

    assert_eq!(lines.first().map(|line| line.as_str()), Some("HTTP 404 Not Found"));
    assert_eq!(lines.get(2).map(|line| line.as_str()), Some("Headers"));
    assert_eq!(lines.get(5).map(|line| line.as_str()), Some(""));
    assert_eq!(lines.get(6).map(|line| line.as_str()), Some("Body"));
    assert!(lines.iter().any(|line| line == "  content-type: application/json"));
    assert!(lines.iter().any(|line| line.contains("\"message\": \"not found\"")));
}

#[test]
fn wrapped_lines_respect_width() {
    let response = CurlResponse {
        status_code: 200,
        headers: vec!["x-very-long-header-name: abcdefghijklmnop".to_string()],
        body: "{\"veryLongKey\":\"veryLongValue\"}".to_string(),
    };

    let wrapped = build_wrapped_text_lines(&response, 12);
    assert!(wrapped.iter().all(|line| line.chars().count() <= 12));

    let wrapped_concat: String = wrapped.concat();
    let unwrapped_concat: String = build_text_lines(&response).concat();
    assert_eq!(wrapped_concat, unwrapped_concat);
}

#[test]
fn empty_headers_and_body_show_placeholders() {
    let response = CurlResponse { status_code: 204, headers: vec![], body: String::new() };
    let lines = build_text_lines(&response);
    assert_eq!(
        lines,
        vec![
            "HTTP 204 No Content".to_string(),
            String::new(),
            "Headers".to_string(),
            "  (none)".to_string(),
            String::new(),
            "Body".to_string(),
            "  (empty)".to_string(),
        ]
    );
}

fn plain(c: char) -> KeyEvent {
    KeyEvent { code: Key::Char(c), modifiers: Modifiers { shift: false, control: false, alt: false } }
}

#[test]
fn gg_jumps_to_top() {
    let mut keys = DetailsKeys::new();
    assert_eq!(keys.on_key(KeyEvent { code: Key::Down, modifiers: Modifiers { shift: false, control: false, alt: false } }), Some(ScrollCommand::Down(1)));
    assert_eq!(keys.on_key(plain('g')), None);
    assert_eq!(keys.on_key(plain('g')), Some(ScrollCommand::Begin));
}

#[test]
fn uppercase_g_jumps_to_bottom() {
    let mut keys = DetailsKeys::new();
    let shifted_g = KeyEvent { code: Key::Char('G'), modifiers: Modifiers { shift: true, control: false, alt: false } };
    assert_eq!(keys.on_key(shifted_g), Some(ScrollCommand::End));
    assert_eq!(
        keys.on_key(KeyEvent { code: Key::End, modifiers: Modifiers { shift: false, control: false, alt: false } }),
        Some(ScrollCommand::End)
    );
    assert_eq!(
        keys.on_key(KeyEvent { code: Key::PageDown, modifiers: Modifiers { shift: false, control: false, alt: false } }),
        Some(ScrollCommand::Down(8))
    );
}

fn key_event(code: Key, shift: bool, control: bool) -> KeyEvent {
    KeyEvent { code, modifiers: Modifiers { shift, control, alt: false } }
}

#[test]
fn maps_h_to_navigate_back() {
    let mut listener = GlobalListener::new();
    let msg = listener.map_normal_key(key_event(Key::Char('H'), true, false));
    assert_eq!(msg, Some(Msg::App(AppMsg::NavigateBack)));
}

#[test]
fn maps_l_to_navigate_forward() {
    let mut listener = GlobalListener::new();
    let msg = listener.map_normal_key(key_event(Key::Char('L'), true, false));
    assert_eq!(msg, Some(Msg::App(AppMsg::NavigateForward)));
}

#[test]
fn esc_does_not_navigate_in_normal_mode() {
    let mut listener = GlobalListener::new();
    let msg = listener.map_normal_key(key_event(Key::Esc, false, false));
    assert_eq!(msg, None);
}

#[test]
fn esc_exits_insert_mode() {
    let msg = GlobalListener::map_insert_key(key_event(Key::Esc, false, false));
    assert_eq!(msg, Some(Msg::App(AppMsg::EnterNormalMode)));
}

#[test]
fn global_shortcuts_map_to_messages() {
    let mut listener = GlobalListener::new();
    assert_eq!(listener.map_normal_key(key_event(Key::Char('s'), false, true)), Some(Msg::RouteEditor(RouteEditorMsg::Save)));
    assert_eq!(listener.map_normal_key(key_event(Key::Char('s'), false, false)), Some(Msg::App(AppMsg::ToggleSecretVisibility)));
    assert_eq!(listener.map_normal_key(key_event(Key::Char('v'), false, false)), Some(Msg::App(AppMsg::SwitchView(ActiveView::VariableManager))));
    assert_eq!(listener.map_normal_key(key_event(Key::Char('V'), true, false)), Some(Msg::App(AppMsg::OpenScopedVariables)));
    assert_eq!(listener.map_normal_key(key_event(Key::Char('g'), false, false)), None);
    assert_eq!(listener.map_normal_key(key_event(Key::Char('g'), false, false)), Some(Msg::App(AppMsg::ScrollToTop)));
    assert_eq!(listener.map_normal_key(key_event(Key::Char('G'), true, false)), Some(Msg::App(AppMsg::ScrollToBottom)));
}

#[test]
fn touch_drags_scroll_by_at_most_three_rows() {
    let mut listener = GlobalListener::new();
    assert_eq!(listener.map_mouse(MouseEvent { kind: MouseEventKind::Down(MouseButton::Left), row: 20 }), None);
    assert_eq!(listener.map_mouse(MouseEvent { kind: MouseEventKind::Drag(MouseButton::Left), row: 10 }), Some(Msg::App(AppMsg::ScrollBy(3))));
    assert_eq!(listener.map_mouse(MouseEvent { kind: MouseEventKind::Drag(MouseButton::Left), row: 11 }), Some(Msg::App(AppMsg::ScrollBy(-1))));
    assert_eq!(listener.map_mouse(MouseEvent { kind: MouseEventKind::Drag(MouseButton::Left), row: 11 }), None);
    assert_eq!(listener.map_mouse(MouseEvent { kind: MouseEventKind::ScrollUp, row: 0 }), Some(Msg::App(AppMsg::ScrollBy(-1))));
    assert_eq!(listener.touch_drag_row, None);
}

#[test]
fn json_preview_tokens_have_their_colours() {
    let p = build("{\"name\":\"Gig Log\",\"active\":true}");
    assert_eq!(p.format, BodyPreviewFormat::Json);
    let key = p.lines[1].iter().find(|t| t.text == "\"active\"").expect("key token");
    let key_style = token_style(key.kind);
    assert_eq!(key_style.color, PreviewColor::Cyan);
    assert!(key_style.bold);
    let flag = p.lines[1].iter().find(|t| t.text == "true").expect("boolean token");
    assert_eq!(token_style(flag.kind).color, PreviewColor::Magenta);
    assert_eq!(token_style(TokenKind::Str).color, PreviewColor::Green);
    assert_eq!(token_style(TokenKind::Number).color, PreviewColor::Yellow);
    assert!(token_style(TokenKind::Null).italic);
    assert_eq!(token_style(TokenKind::Punctuation).color, PreviewColor::DarkGray);
    assert_eq!(token_style(TokenKind::Plain).color, PreviewColor::Default);
}

#[test]
fn variable_table_keys_follow_the_list_bindings() {
    let none = Modifiers { shift: false, control: false, alt: false };
    let shift = Modifiers { shift: true, control: false, alt: false };
    let key = |code: Key, modifiers: Modifiers| KeyEvent { code, modifiers };
    let mut t = VariableTableState::new(vec!["A".to_string(), "B".to_string(), "C".to_string()]);
    assert_eq!(
        t.on_key(key(Key::Char('G'), shift)),
        Some(Msg::VariableManager(VariableManagerMsg::SelectionChanged("C".to_string())))
    );
    assert_eq!(t.on_key(key(Key::Down, none)), Some(Msg::VariableManager(VariableManagerMsg::SelectionChanged("C".to_string()))));
    assert_eq!(t.on_key(key(Key::Char('g'), none)), None);
    assert_eq!(
        t.on_key(key(Key::Char('g'), none)),
        Some(Msg::VariableManager(VariableManagerMsg::SelectionChanged("A".to_string())))
    );
    assert_eq!(t.on_key(key(Key::Char('e'), none)), Some(Msg::VariableManager(VariableManagerMsg::Edit("A".to_string()))));
    assert_eq!(t.on_key(key(Key::Enter, none)), None);
    assert_eq!(t.on_key(key(Key::Char('d'), shift)), None);
    assert_eq!(t.on_key(key(Key::Char('a'), none)), Some(Msg::VariableManager(VariableManagerMsg::Add)));
    let mut empty = VariableTableState::new(vec![]);
    assert_eq!(empty.on_key(key(Key::Char('d'), none)), None);
    assert_eq!(empty.on_key(key(Key::End, none)), None);
    assert_eq!(empty.selected, 0);
}
