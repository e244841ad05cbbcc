use giglog_devtools::api_app::{ApiEffect, ApiTester, Readings};
use giglog_devtools::api_messages::{
    ActiveView, AppMsg, Id, InputMode, LayoutMode, Msg, RequestPreviewMsg, ResponseViewerMsg,
    ResponseViewerResult, RouteEditorMsg, RouteListMsg, VariableManagerMsg,
};
use giglog_devtools::api_screens::VariableContext;
use giglog_devtools::collection::{Collection, HttpMethod, Route};
use giglog_devtools::executor::CurlResponse;
use giglog_devtools::route_editor::EditorInputs;
use giglog_devtools::route_list_state::RouteListState;
use giglog_devtools::variables::{VariableMode, Variables};

fn strings(items: &[&str]) -> Vec<String> {
    items.iter().map(|s| s.to_string()).collect()
}

fn route(group: &str, name: &str, scope: &str) -> Route {
    Route {
        group: group.to_string(),
        scope_id: scope.to_string(),
        name: name.to_string(),
        method: HttpMethod::Get,
        url: format!("https://{{{{HOST}}}}/{name}"),
        headers: vec![],
        body: None,
    }
}

fn editor(name: &str, group_index: Option<usize>, new_group: &str, method: Option<usize>, url: &str, headers: &str) -> EditorInputs {
    EditorInputs {
        name: name.to_string(),
        group_index,
        new_group: new_group.to_string(),
        method_index: method,
        url: url.to_string(),
        headers: headers.to_string(),
    }
}

fn readings() -> Readings {
    Readings {
        editor: editor("", None, "", None, "https://{{HOST}}/a", ""),
        focus: None,
        variable_key: String::new(),
        variable_value: String::new(),
        variable_mode: VariableMode::Placeholder,
        preview_max_offset: 3,
        keymap_max_offset: 5,
    }
}

fn tester(routes: Vec<Route>) -> ApiTester {
    let mut vars = Variables::new();
    vars.add_with_mode("HOST".to_string(), "example".to_string(), VariableMode::Placeholder);
    vars.add_with_mode("TOKEN".to_string(), "secret-token".to_string(), VariableMode::Hidden);
    ApiTester::new(Collection { routes }, vars, RouteListState::default(), 120, 40)
}

fn send(t: &mut ApiTester, msg: Msg, r: &Readings) -> Vec<ApiEffect> {
    t.update(msg, r).expect("message handled")
}

#[test]
fn a_session_starts_on_the_route_list() {
    let t = tester(vec![route("api", "a", "route_a")]);
    assert_eq!(t.screens.active_view, ActiveView::RouteList);
    assert_eq!(t.screens.input_mode, InputMode::Normal);
    assert_eq!(t.history.entries.len(), 1);
    assert_eq!(t.history.index, 0);
    assert_eq!(t.layout_mode, LayoutMode::Wide);
}

#[test]
fn running_a_route_previews_it() {
    let mut t = tester(vec![route("api", "a", "route_a")]);
    let e = send(&mut t, Msg::RouteList(RouteListMsg::RunRoute(0)), &readings());
    assert_eq!(e, vec![ApiEffect::PersistRouteListState]);
    assert_eq!(t.screens.active_view, ActiveView::RequestPreview);
    assert_eq!(t.screens.selected_route, Some(0));
    let preview = t.screens.preview.as_ref().expect("preview");
    assert_eq!(preview.display_url, "https://example/a");
    assert_eq!(t.screens.list_state.expanded_groups, strings(&["api"]));
    assert_eq!(t.history.entries.len(), 2);
    assert_eq!(t.history.index, 1);

    let e = send(&mut t, Msg::RouteList(RouteListMsg::RunRoute(5)), &readings());
    assert!(e.is_empty());
}

#[test]
fn history_goes_back_and_forward() {
    let mut t = tester(vec![route("api", "a", "route_a")]);
    send(&mut t, Msg::RouteList(RouteListMsg::RunRoute(0)), &readings());
    let e = send(&mut t, Msg::App(AppMsg::NavigateBack), &readings());
    assert_eq!(e, vec![ApiEffect::RefreshRouteList, ApiEffect::Focus(Id::RouteList)]);
    assert_eq!(t.screens.active_view, ActiveView::RouteList);
    assert_eq!(t.history.index, 0);
    let e = send(&mut t, Msg::App(AppMsg::NavigateBack), &readings());
    assert!(e.is_empty());
    let mut r = readings();
    r.focus = Some(Id::RouteList);
    let e = send(&mut t, Msg::App(AppMsg::NavigateForward), &r);
    assert!(e.is_empty());
    assert_eq!(t.screens.active_view, ActiveView::RequestPreview);
    assert_eq!(t.history.index, 1);
    assert_eq!(t.history.entries[0].focus, Some(Id::RouteList));
}

#[test]
fn keymap_help_opens_scrolls_and_closes() {
    let mut t = tester(vec![]);
    let mut r = readings();
    r.focus = Some(Id::RouteList);
    let e = send(&mut t, Msg::App(AppMsg::ToggleKeymapHelp), &r);
    assert_eq!(e, vec![ApiEffect::Focus(Id::GlobalListener), ApiEffect::LockSubscriptions]);
    assert_eq!(t.screens.active_view, ActiveView::KeymapHelp);
    send(&mut t, Msg::App(AppMsg::ScrollDown), &r);
    assert_eq!(t.keymap_help.scroll_offset, 1);
    send(&mut t, Msg::App(AppMsg::ScrollToBottom), &r);
    assert_eq!(t.keymap_help.scroll_offset, 5);
    send(&mut t, Msg::App(AppMsg::PageUp), &r);
    assert_eq!(t.keymap_help.scroll_offset, 0);
    let e = send(&mut t, Msg::RouteList(RouteListMsg::NewRoute), &r);
    assert!(e.is_empty());
    let e = send(&mut t, Msg::App(AppMsg::ToggleKeymapHelp), &r);
    assert_eq!(e, vec![ApiEffect::UnlockSubscriptions, ApiEffect::FocusIfMounted(Id::RouteList)]);
    assert_eq!(t.screens.active_view, ActiveView::RouteList);
    assert_eq!(t.history.entries.len(), 1);
}

#[test]
fn editing_and_saving_a_route() {
    let mut t = tester(vec![route("api", "a", "route_a")]);
    let e = send(&mut t, Msg::RouteList(RouteListMsg::EditRoute(0)), &readings());
    assert_eq!(e, vec![ApiEffect::PersistRouteListState, ApiEffect::MountEditor]);
    assert_eq!(t.screens.active_view, ActiveView::RouteEditor);
    assert_eq!(t.screens.editing_route, Some(0));
    let mut r = readings();
    r.editor = editor("renamed", Some(0), "", Some(1), "https://x", "A: 1, B: 2");
    let e = send(&mut t, Msg::RouteEditor(RouteEditorMsg::Save), &r);
    assert_eq!(
        e,
        vec![ApiEffect::SaveCollection, ApiEffect::PersistRouteListState, ApiEffect::RefreshRouteList]
    );
    let saved = &t.collection.routes[0];
    assert_eq!(saved.name, "renamed");
    assert_eq!(saved.group, "api");
    assert_eq!(saved.method, HttpMethod::Post);
    assert_eq!(saved.headers, strings(&["A: 1", "B: 2"]));
    assert_eq!(saved.scope_id, "route_a");
    assert_eq!(t.screens.active_view, ActiveView::RouteList);
    assert!(t.screens.draft.is_none());
    assert_eq!(t.screens.editing_route, None);
}

#[test]
fn a_new_route_gets_a_fresh_scope_and_its_group() {
    let mut t = tester(vec![route("api", "a", "route_a")]);
    let e = send(&mut t, Msg::RouteList(RouteListMsg::NewRoute), &readings());
    assert_eq!(e, vec![ApiEffect::MountEditor]);
    let draft = t.screens.draft.as_ref().expect("draft");
    assert_eq!(draft.group, "general");
    assert!(draft.scope_id.starts_with("route_"));
    assert_ne!(draft.scope_id, "route_a");
    let mut r = readings();
    r.editor = editor("n", Some(1), " fresh ", None, "https://n", "");
    send(&mut t, Msg::RouteEditor(RouteEditorMsg::Save), &r);
    assert_eq!(t.collection.routes.len(), 2);
    assert_eq!(t.collection.routes[1].group, "fresh");
    assert_eq!(t.collection.routes[1].method, HttpMethod::Get);
}

#[test]
fn saving_over_a_vanished_route_fails() {
    let mut t = tester(vec![route("api", "a", "route_a")]);
    send(&mut t, Msg::RouteList(RouteListMsg::EditRoute(0)), &readings());
    t.screens.editing_route = Some(7);
    let err = t.update(Msg::RouteEditor(RouteEditorMsg::Save), &readings()).unwrap_err();
    assert_eq!(err, "route index out of bounds: 7");
    assert_eq!(t.collection.routes.len(), 1);
}

#[test]
fn deleting_a_route_drops_its_scope_and_selects_a_neighbour() {
    let mut t = tester(vec![route("api", "a", "route_a"), route("api", "b", "route_b")]);
    t.variables.scoped_add_with_mode("route_b", "K".to_string(), "v".to_string(), VariableMode::Placeholder);
    let e = send(&mut t, Msg::RouteList(RouteListMsg::DeleteRoute(1)), &readings());
    assert_eq!(
        e,
        vec![
            ApiEffect::SaveCollection,
            ApiEffect::SaveVariables,
            ApiEffect::PersistRouteListState,
            ApiEffect::RefreshRouteList,
        ]
    );
    assert_eq!(t.collection.routes.len(), 1);
    assert!(t.variables.scope_ids().is_empty());
    assert!(t.screens.list_state.selected.is_some());
}

#[test]
fn the_variable_manager_lists_loads_saves_and_deletes() {
    let mut t = tester(vec![]);
    let e = send(&mut t, Msg::App(AppMsg::SwitchView(ActiveView::VariableManager)), &readings());
    assert_eq!(e.len(), 4);
    assert_eq!(e[1], ApiEffect::MountVariableInputs("HOST".to_string(), "example".to_string(), VariableMode::Placeholder));
    assert_eq!(e[2], ApiEffect::Focus(Id::VariableTable));
    assert_eq!(e[3], ApiEffect::SyncVariableInputMode);
    match &e[0] {
        ApiEffect::MountVariableManager(rows) => {
            assert_eq!(rows.len(), 2);
            assert_eq!(rows[0].0, "HOST");
            assert_eq!(rows[1].3, "global");
        }
        other => panic!("unexpected effect {other:?}"),
    }
    assert_eq!(t.screens.active_view, ActiveView::VariableManager);
    assert_eq!(t.screens.editing_variable, Some("HOST".to_string()));

    let mut r = readings();
    r.variable_key = " NEW ".to_string();
    r.variable_value = "v".to_string();
    r.variable_mode = VariableMode::Hidden;
    let e = send(&mut t, Msg::VariableManager(VariableManagerMsg::Save), &r);
    assert_eq!(e[0], ApiEffect::SaveVariables);
    assert!(t.variables.get("HOST").is_none());
    assert_eq!(t.variables.get("NEW"), Some(&"v".to_string()));
    assert_eq!(t.variables.mode("NEW"), Some(VariableMode::Hidden));

    let e = send(&mut t, Msg::VariableManager(VariableManagerMsg::Delete("NEW".to_string())), &r);
    assert_eq!(e[0], ApiEffect::SaveVariables);
    assert!(t.variables.get("NEW").is_none());

    r.variable_key = "   ".to_string();
    let e = send(&mut t, Msg::VariableManager(VariableManagerMsg::Save), &r);
    assert!(e.is_empty());
}

#[test]
fn scoped_variables_open_from_the_editor() {
    let mut t = tester(vec![route("api", "a", "route_a")]);
    send(&mut t, Msg::RouteList(RouteListMsg::EditRoute(0)), &readings());
    let e = send(&mut t, Msg::App(AppMsg::OpenScopedVariables), &readings());
    match &t.screens.context {
        VariableContext::Scoped { scope_id } => assert_eq!(scope_id, "route_a"),
        VariableContext::Global => panic!("expected the route's scope"),
    }
    match &e[0] {
        ApiEffect::MountVariableManager(rows) => {
            assert_eq!(
                rows,
                &vec![("HOST".to_string(), "example".to_string(), VariableMode::Placeholder, "global".to_string())]
            );
        }
        other => panic!("unexpected effect {other:?}"),
    }
    assert_eq!(t.screens.active_view, ActiveView::VariableManager);
}

#[test]
fn run_outcomes_are_shown_with_secrets_masked() {
    let mut t = tester(vec![route("api", "a", "route_a")]);
    let response = CurlResponse { status_code: 200, headers: vec![], body: "ok".to_string() };
    let e = send(&mut t, Msg::ResponseViewer(ResponseViewerMsg::RouteExecuted(0, response.clone())), &readings());
    assert_eq!(e, vec![ApiEffect::MountResponseViewer]);
    assert_eq!(t.screens.active_view, ActiveView::ResponseViewer);
    assert_eq!(t.screens.response, Some(ResponseViewerResult::Success(response)));
    send(
        &mut t,
        Msg::ResponseViewer(ResponseViewerMsg::RouteExecutionFailed(0, "bad secret-token".to_string())),
        &readings(),
    );
    assert_eq!(t.screens.response, Some(ResponseViewerResult::Error("bad hidden".to_string())));
}

#[test]
fn the_preview_scrolls_and_takes_an_edited_body() {
    let mut t = tester(vec![route("api", "a", "route_a")]);
    let r = readings();
    send(&mut t, Msg::RouteList(RouteListMsg::RunRoute(0)), &r);
    send(&mut t, Msg::App(AppMsg::ScrollDown), &r);
    assert_eq!(t.screens.preview_scroll, 1);
    send(&mut t, Msg::App(AppMsg::ScrollToBottom), &r);
    assert_eq!(t.screens.preview_scroll, 3);
    send(&mut t, Msg::App(AppMsg::PageUp), &r);
    assert_eq!(t.screens.preview_scroll, 0);
    send(&mut t, Msg::RouteEditor(RouteEditorMsg::BodyEditorResult(Some("x secret-token".to_string()))), &r);
    let preview = t.screens.preview.as_ref().expect("preview");
    assert_eq!(preview.execution_body, Some("x secret-token".to_string()));
    assert_eq!(preview.display_body, Some("x hidden".to_string()));
    assert_eq!(t.body_editor_initial_content(), Some("x secret-token".to_string()));
    let e = send(&mut t, Msg::RequestPreview(RequestPreviewMsg::Execute), &r);
    assert_eq!(e, vec![ApiEffect::ExecutePreviewRequest]);
    let e = send(&mut t, Msg::App(AppMsg::OpenBodyEditor), &r);
    assert_eq!(e, vec![ApiEffect::OpenBodyEditor]);
}

#[test]
fn resizing_and_modes() {
    let mut t = tester(vec![]);
    send(&mut t, Msg::App(AppMsg::TerminalResize(100, 30)), &readings());
    assert_eq!(t.terminal_width, 100);
    assert_eq!(t.terminal_height, 28);
    assert_eq!(t.layout_mode, LayoutMode::Medium);
    let e = send(&mut t, Msg::App(AppMsg::EnterInsertMode), &readings());
    assert!(e.is_empty());
    assert_eq!(t.screens.input_mode, InputMode::Insert);
    let e = send(&mut t, Msg::App(AppMsg::ToggleKeymapHelp), &readings());
    assert!(e.is_empty());
    let e = send(&mut t, Msg::App(AppMsg::Close), &readings());
    assert_eq!(e, vec![ApiEffect::Close]);
}
