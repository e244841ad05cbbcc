use giglog_devtools::api_messages::{Key, KeyEvent, Modifiers, RouteListMsg};
use giglog_devtools::collection::{HttpMethod, Route};
use giglog_devtools::route_list::RouteList;
use giglog_devtools::route_list_state::{RouteListState, RouteSelection, SelectedItem};

fn route(group: &str, name: &str) -> Route {
    Route {
        group: group.to_string(),
        scope_id: format!("scope-{group}-{name}"),
        name: name.to_string(),
        method: HttpMethod::Get,
        url: "https://example.com".to_string(),
        headers: vec![],
        body: None,
    }
}

fn none() -> Modifiers {
    Modifiers { shift: false, control: false, alt: false }
}

fn shift() -> Modifiers {
    Modifiers { shift: true, control: false, alt: false }
}

fn key(code: Key, modifiers: Modifiers) -> KeyEvent {
    KeyEvent { code, modifiers }
}

fn selected_row_index(list: &RouteList) -> usize {
    list.selected_row_index()
}

fn new_list(routes: &[Route]) -> RouteList {
    RouteList::new(&routes.to_vec(), &RouteListState::default())
}

#[test]
fn navigation_moves_between_group_headers_when_collapsed() {
    let routes = vec![route("group-a", "first"), route("group-b", "second")];
    let mut list = new_list(&routes);

    assert_eq!(selected_row_index(&list), 0);
    assert_eq!(list.selected_group_index(), Some(0));
    assert_eq!(list.selected_route_index(), None);

    list.on_keyboard(key(Key::Down, none()));
    assert_eq!(selected_row_index(&list), 2);
    assert_eq!(list.selected_group_index(), Some(1));
    assert_eq!(list.selected_route_index(), None);

    list.on_keyboard(key(Key::Char('k'), none()));
    assert_eq!(selected_row_index(&list), 0);
    assert_eq!(list.selected_group_index(), Some(0));
    assert_eq!(list.selected_route_index(), None);

    list.on_keyboard(key(Key::End, none()));
    assert_eq!(selected_row_index(&list), 2);
    assert_eq!(list.selected_group_index(), Some(1));
    assert_eq!(list.selected_route_index(), None);

    list.on_keyboard(key(Key::Home, none()));
    assert_eq!(selected_row_index(&list), 0);
    assert_eq!(list.selected_group_index(), Some(0));
    assert_eq!(list.selected_route_index(), None);
}

#[test]
fn enter_toggles_group_visibility_and_runs_selected_route() {
    let routes = vec![route("group-a", "first"), route("group-a", "second"), route("group-b", "third")];
    let mut list = new_list(&routes);

    assert!(!list.group_list()[0].expanded);
    assert_eq!(selected_row_index(&list), 0);

    assert!(matches!(
        list.on_keyboard(key(Key::Enter, none())),
        Some(RouteListMsg::StateChanged(_))
    ));
    assert!(list.group_list()[0].expanded);
    assert_eq!(selected_row_index(&list), 0);
    assert_eq!(list.selected_route_index(), None);

    list.on_keyboard(key(Key::Down, none()));
    assert_eq!(list.selected_route_index(), Some(0));

    assert_eq!(list.on_keyboard(key(Key::Enter, none())), Some(RouteListMsg::RunRoute(0)));

    list.on_keyboard(key(Key::Up, none()));
    assert_eq!(selected_row_index(&list), 0);

    assert!(matches!(
        list.on_keyboard(key(Key::Enter, none())),
        Some(RouteListMsg::StateChanged(_))
    ));
    assert!(!list.group_list()[0].expanded);
    assert_eq!(selected_row_index(&list), 0);
}

#[test]
fn route_actions_only_apply_to_route_rows() {
    let routes = vec![route("group-a", "first")];
    let mut list = new_list(&routes);

    assert_eq!(list.on_keyboard(key(Key::Char('e'), none())), None);
    assert_eq!(list.on_keyboard(key(Key::Char('d'), none())), None);

    list.on_keyboard(key(Key::Enter, none()));
    list.on_keyboard(key(Key::Down, none()));
    assert_eq!(list.selected_route_index(), Some(0));

    assert_eq!(list.on_keyboard(key(Key::Char('e'), none())), Some(RouteListMsg::EditRoute(0)));
    assert_eq!(list.on_keyboard(key(Key::Char('d'), none())), Some(RouteListMsg::DeleteRoute(0)));
}

#[test]
fn navigation_wraps_between_first_and_last_selectable_rows() {
    let routes = vec![route("group-a", "first"), route("group-b", "second")];
    let mut list = new_list(&routes);

    assert_eq!(selected_row_index(&list), 0);
    list.on_keyboard(key(Key::Down, none()));
    assert_eq!(selected_row_index(&list), 2);
    list.on_keyboard(key(Key::Down, none()));
    assert_eq!(selected_row_index(&list), 0);
    list.on_keyboard(key(Key::Up, none()));
    assert_eq!(selected_row_index(&list), 2);
}

#[test]
fn vim_style_gg_and_g_jump_to_top_and_bottom() {
    let routes = vec![route("group-a", "first"), route("group-b", "second")];
    let mut list = new_list(&routes);

    list.on_keyboard(key(Key::Down, none()));
    assert_eq!(selected_row_index(&list), 2);
    list.on_keyboard(key(Key::Char('g'), none()));
    assert_eq!(selected_row_index(&list), 2);
    list.on_keyboard(key(Key::Char('g'), none()));
    assert_eq!(selected_row_index(&list), 0);
    list.on_keyboard(key(Key::Char('G'), none()));
    assert_eq!(selected_row_index(&list), 2);
}

#[test]
fn tab_and_backtab_cycle_between_group_headers() {
    let routes = vec![route("group-a", "first"), route("group-b", "second")];
    let mut list = new_list(&routes);

    assert_eq!(selected_row_index(&list), 0);
    assert_eq!(list.selected_group_index(), Some(0));

    list.on_keyboard(key(Key::Tab, none()));
    assert_eq!(selected_row_index(&list), 2);
    assert_eq!(list.selected_group_index(), Some(1));

    list.on_keyboard(key(Key::Tab, none()));
    assert_eq!(selected_row_index(&list), 0);
    assert_eq!(list.selected_group_index(), Some(0));

    list.on_keyboard(key(Key::BackTab, shift()));
    assert_eq!(selected_row_index(&list), 2);
    assert_eq!(list.selected_group_index(), Some(1));

    list.on_keyboard(key(Key::Tab, shift()));
    assert_eq!(selected_row_index(&list), 0);
    assert_eq!(list.selected_group_index(), Some(0));
}

#[test]
fn tab_and_backtab_jump_to_group_headers_from_route_rows() {
    let routes = vec![route("group-a", "first"), route("group-a", "second"), route("group-b", "third")];
    let mut list = new_list(&routes);

    list.on_keyboard(key(Key::Enter, none()));
    list.on_keyboard(key(Key::Down, none()));
    assert_eq!(list.selected_route_index(), Some(0));

    list.on_keyboard(key(Key::Tab, none()));
    assert_eq!(selected_row_index(&list), 4);
    assert_eq!(list.selected_group_index(), Some(1));

    list.on_keyboard(key(Key::BackTab, shift()));
    assert_eq!(selected_row_index(&list), 0);
    assert_eq!(list.selected_group_index(), Some(0));
}

#[test]
fn restores_expanded_groups_and_selected_route_from_state() {
    let routes = vec![route("group-a", "first"), route("group-b", "second")];
    let state = RouteListState {
        expanded_groups: vec!["group-a".to_string()],
        selected: Some(SelectedItem::Route(RouteSelection {
            group: "group-a".to_string(),
            name: "first".to_string(),
            method: "GET".to_string(),
            url: "https://example.com".to_string(),
        })),
    };

    let list = RouteList::new(&routes, &state);

    assert!(list.group_list()[0].expanded);
    assert!(!list.group_list()[1].expanded);
    assert_eq!(list.selected_route_index(), Some(0));
}

#[test]
fn falls_back_to_group_when_selected_route_is_missing() {
    let routes = vec![route("group-a", "first"), route("group-b", "second")];
    let state = RouteListState {
        expanded_groups: vec![],
        selected: Some(SelectedItem::Route(RouteSelection {
            group: "group-b".to_string(),
            name: "missing".to_string(),
            method: "GET".to_string(),
            url: "https://example.com/missing".to_string(),
        })),
    };

    let list = RouteList::new(&routes, &state);

    assert_eq!(list.selected_group_index(), Some(1));
    assert_eq!(list.selected_route_index(), None);
}

#[test]
fn empty_route_list_has_no_selectable_rows() {
    let mut list = new_list(&[]);

    assert_eq!(selected_row_index(&list), 0);
    assert_eq!(list.selected_route_index(), None);

    list.on_keyboard(key(Key::Down, none()));
    assert_eq!(selected_row_index(&list), 0);
    assert_eq!(list.selected_route_index(), None);

    list.on_keyboard(key(Key::End, none()));
    assert_eq!(selected_row_index(&list), 0);
    assert_eq!(list.selected_route_index(), None);

    list.on_keyboard(key(Key::Tab, none()));
    assert_eq!(selected_row_index(&list), 0);
    assert_eq!(list.selected_route_index(), None);

    list.on_keyboard(key(Key::BackTab, shift()));
    assert_eq!(selected_row_index(&list), 0);
    assert_eq!(list.selected_route_index(), None);

    list.on_keyboard(key(Key::Tab, shift()));
    assert_eq!(selected_row_index(&list), 0);
    assert_eq!(list.selected_route_index(), None);
}

#[test]
fn state_changes_report_the_remembered_state() {
    let routes = vec![route("group-a", "first"), route("", "second")];
    let mut list = new_list(&routes);
    let msg = list.on_keyboard(key(Key::Enter, none()));
    match msg {
        Some(RouteListMsg::StateChanged(state)) => {
            assert_eq!(state.expanded_groups, vec!["group-a".to_string()]);
            assert_eq!(state.selected, Some(SelectedItem::Group { name: "group-a".to_string() }));
        }
        other => panic!("unexpected message: {other:?}"),
    }
    let msg = list.on_keyboard(key(Key::Down, none()));
    match msg {
        Some(RouteListMsg::StateChanged(state)) => {
            assert_eq!(
                state.selected,
                Some(SelectedItem::Route(RouteSelection {
                    group: "group-a".to_string(),
                    name: "first".to_string(),
                    method: "GET".to_string(),
                    url: "https://example.com".to_string(),
                }))
            );
        }
        other => panic!("unexpected message: {other:?}"),
    }
    assert_eq!(list.on_keyboard(key(Key::Char('n'), none())), Some(RouteListMsg::NewRoute));
    list.on_keyboard(key(Key::End, none()));
    assert_eq!(list.selected_group_index(), Some(1));
    assert_eq!(list.group_list()[1].name, "general");
}

#[test]
fn normalized_state_trims_sorts_and_uppercases() {
    let state = RouteListState {
        expanded_groups: vec![" b ".to_string(), "a".to_string(), "".to_string(), "b".to_string()],
        selected: Some(SelectedItem::Route(RouteSelection {
            group: " g ".to_string(),
            name: " n ".to_string(),
            method: " get ".to_string(),
            url: " u ".to_string(),
        })),
    };
    let n = state.normalized();
    assert_eq!(n.expanded_groups, vec!["a".to_string(), "b".to_string()]);
    assert_eq!(
        n.selected,
        Some(SelectedItem::Route(RouteSelection {
            group: "g".to_string(),
            name: "n".to_string(),
            method: "GET".to_string(),
            url: "u".to_string(),
        }))
    );
}

#[test]
fn selection_from_route_uses_default_group_for_blank_group() {
    let r = route("  ", "name");
    let s = RouteSelection::from_route(&r);
    assert_eq!(s.group, "general");
    assert_eq!(s.method, "GET");
}

#[test]
fn shift_tab_wraps_to_the_last_group_header() {
    let routes = vec![route("group-a", "first"), route("group-b", "second"), route("group-c", "third")];
    let mut list = new_list(&routes);
    let msg = list.on_keyboard(key(Key::Tab, shift()));
    assert_eq!(
        msg,
        Some(RouteListMsg::StateChanged(RouteListState {
            expanded_groups: vec![],
            selected: Some(SelectedItem::Group { name: "group-c".to_string() }),
        }))
    );
    assert_eq!(selected_row_index(&list), 4);
}

#[test]
fn empty_list_keeps_the_hint_row_selected() {
    let mut list = new_list(&[]);
    for code in [Key::Down, Key::Up, Key::End, Key::Home, Key::Enter, Key::Char('e'), Key::Char('d')] {
        let msg = list.on_keyboard(key(code, none()));
        assert!(!matches!(
            msg,
            Some(RouteListMsg::RunRoute(_)) | Some(RouteListMsg::EditRoute(_)) | Some(RouteListMsg::DeleteRoute(_))
        ));
        assert_eq!(selected_row_index(&list), 0);
        assert_eq!(list.selected_route_index(), None);
    }
}
