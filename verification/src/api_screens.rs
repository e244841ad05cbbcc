//! What the API tester's screens hold, as a value that navigation history
//! keeps copies of: the active view and input mode, the route list's
//! expansion and selection, the route being edited, the request preview,
//! the last response and the variable manager's context.

use vstd::prelude::*;
use crate::api_messages::{ActiveView, Id, InputMode, ResponseViewerResult};
use crate::collection::{opt_string_view, strings_view, copy_strings, Route, RouteView};
use crate::executor::{CurlResponse, ResponseView};
use crate::nav_history::{NavHistory, MAX_NAVIGATION_HISTORY};
use crate::preview_state::RequestPreview;
use crate::route_list_state::{RouteListState, RouteSelection, SelectedItem};

verus! {

/// Which variables the variable manager shows.
#[derive(Debug)]
pub enum VariableContext {
    /// The global variables.
    Global,
    /// The variables of a route's scope.
    Scoped { scope_id: String },
}

/// The state of the API tester's screens.
#[derive(Debug)]
pub struct Screens {
    pub active_view: ActiveView,
    pub input_mode: InputMode,
    /// Expanded groups and selection of the route list.
    pub list_state: RouteListState,
    /// The route last run or shown.
    pub selected_route: Option<usize>,
    /// The index of the route being edited; `None` for a new one.
    pub editing_route: Option<usize>,
    /// The route being edited.
    pub draft: Option<Route>,
    pub editor_scroll: usize,
    pub preview: Option<RequestPreview>,
    pub preview_scroll: usize,
    pub response: Option<ResponseViewerResult>,
    pub secrets_visible: bool,
    /// The variable whose fields are being edited.
    pub editing_variable: Option<String>,
    pub context: VariableContext,
    /// The component that had the focus.
    pub focus: Option<Id>,
}

/// The abstract content of a request preview.
pub struct PreviewView {
    pub route_index: usize,
    pub route_scope_id: Seq<char>,
    pub route_name: Seq<char>,
    pub method: crate::collection::HttpMethod,
    pub display_url: Seq<char>,
    pub execution_url: Seq<char>,
    pub display_headers: Seq<Seq<char>>,
    pub execution_headers: Seq<Seq<char>>,
    pub display_body: Option<Seq<char>>,
    pub execution_body: Option<Seq<char>>,
}

/// The abstract content of what the response viewer shows.
pub enum ResultView {
    Success(ResponseView),
    Error(Seq<char>),
}

/// The abstract content of a route list selection.
pub enum SelectionView {
    Route { group: Seq<char>, name: Seq<char>, method: Seq<char>, url: Seq<char> },
    Group { name: Seq<char> },
}

pub open spec fn selection_view(s: SelectedItem) -> SelectionView {
    match s {
        SelectedItem::Route(sel) => SelectionView::Route {
            group: sel.group@,
            name: sel.name@,
            method: sel.method@,
            url: sel.url@,
        },
        SelectedItem::Group { name } => SelectionView::Group { name: name@ },
    }
}

pub open spec fn opt_selection_view(s: Option<SelectedItem>) -> Option<SelectionView> {
    match s {
        Some(x) => Some(selection_view(x)),
        None => None,
    }
}

/// The abstract content of the screens.
pub struct ScreensView {
    pub active_view: ActiveView,
    pub input_mode: InputMode,
    pub expanded_groups: Seq<Seq<char>>,
    pub list_selection: Option<SelectionView>,
    pub selected_route: Option<usize>,
    pub editing_route: Option<usize>,
    pub draft: Option<RouteView>,
    pub editor_scroll: usize,
    pub preview: Option<PreviewView>,
    pub preview_scroll: usize,
    pub response: Option<ResultView>,
    pub secrets_visible: bool,
    pub editing_variable: Option<Seq<char>>,
    /// The scope shown; `None` for the global variables.
    pub scope: Option<Seq<char>>,
    pub focus: Option<Id>,
}

pub open spec fn preview_view(p: RequestPreview) -> PreviewView {
    PreviewView {
        route_index: p.route_index,
        route_scope_id: p.route_scope_id@,
        route_name: p.route_name@,
        method: p.method,
        display_url: p.display_url@,
        execution_url: p.execution_url@,
        display_headers: strings_view(p.display_headers@),
        execution_headers: strings_view(p.execution_headers@),
        display_body: opt_string_view(p.display_body),
        execution_body: opt_string_view(p.execution_body),
    }
}

pub open spec fn result_view(r: ResponseViewerResult) -> ResultView {
    match r {
        ResponseViewerResult::Success(c) => ResultView::Success(c@),
        ResponseViewerResult::Error(e) => ResultView::Error(e@),
    }
}

pub open spec fn context_scope(c: VariableContext) -> Option<Seq<char>> {
    match c {
        VariableContext::Global => None,
        VariableContext::Scoped { scope_id } => Some(scope_id@),
    }
}

impl View for Screens {
    type V = ScreensView;

    open spec fn view(&self) -> ScreensView {
        ScreensView {
            active_view: self.active_view,
            input_mode: self.input_mode,
            expanded_groups: strings_view(self.list_state.expanded_groups@),
            list_selection: opt_selection_view(self.list_state.selected),
            selected_route: self.selected_route,
            editing_route: self.editing_route,
            draft: match self.draft {
                Some(r) => Some(r@),
                None => None,
            },
            editor_scroll: self.editor_scroll,
            preview: match self.preview {
                Some(p) => Some(preview_view(p)),
                None => None,
            },
            preview_scroll: self.preview_scroll,
            response: match self.response {
                Some(r) => Some(result_view(r)),
                None => None,
            },
            secrets_visible: self.secrets_visible,
            editing_variable: opt_string_view(self.editing_variable),
            scope: context_scope(self.context),
            focus: self.focus,
        }
    }
}

/// The snapshots of a history, by content.
pub open spec fn snapshots_view(h: Seq<Screens>) -> Seq<ScreensView> {
    h.map_values(|s: Screens| s@)
}

// ---------------------------------------------------------------------------
// Copies
// ---------------------------------------------------------------------------

fn copy_opt_string(o: &Option<String>) -> (r: Option<String>)
    ensures
        r == *o,
{
    match o {
        Some(s) => Some(s.clone()),
        None => None,
    }
}

/// A copy of a selection.
pub fn copy_selected_item(s: &SelectedItem) -> (r: SelectedItem)
    ensures
        r == *s,
{
    match s {
        SelectedItem::Route(sel) => SelectedItem::Route(
            RouteSelection {
                group: sel.group.clone(),
                name: sel.name.clone(),
                method: sel.method.clone(),
                url: sel.url.clone(),
            },
        ),
        SelectedItem::Group { name } => SelectedItem::Group { name: name.clone() },
    }
}

/// A copy of the route list's state.
pub fn copy_list_state(s: &RouteListState) -> (r: RouteListState)
    ensures
        strings_view(r.expanded_groups@) == strings_view(s.expanded_groups@),
        r.selected == s.selected,
{
    RouteListState {
        expanded_groups: copy_strings(&s.expanded_groups),
        selected: match &s.selected {
            Some(item) => Some(copy_selected_item(item)),
            None => None,
        },
    }
}

/// A copy of a request preview.
pub fn copy_preview(p: &RequestPreview) -> (r: RequestPreview)
    ensures
        preview_view(r) == preview_view(*p),
{
    RequestPreview {
        route_index: p.route_index,
        route_scope_id: p.route_scope_id.clone(),
        route_name: p.route_name.clone(),
        method: p.method,
        display_url: p.display_url.clone(),
        execution_url: p.execution_url.clone(),
        display_headers: copy_strings(&p.display_headers),
        execution_headers: copy_strings(&p.execution_headers),
        display_body: copy_opt_string(&p.display_body),
        execution_body: copy_opt_string(&p.execution_body),
    }
}

/// A copy of a response.
pub fn copy_response(c: &CurlResponse) -> (r: CurlResponse)
    ensures
        r@ == c@,
{
    CurlResponse { status_code: c.status_code, headers: copy_strings(&c.headers), body: c.body.clone() }
}

/// A copy of a variable context.
pub fn copy_context(c: &VariableContext) -> (r: VariableContext)
    ensures
        context_scope(r) == context_scope(*c),
{
    match c {
        VariableContext::Global => VariableContext::Global,
        VariableContext::Scoped { scope_id } => VariableContext::Scoped { scope_id: scope_id.clone() },
    }
}

impl Screens {
    /// The screens a new session starts with: the route list, in normal
    /// mode, with the stored route list state and nothing else.
    pub fn initial(list_state: RouteListState) -> (r: Screens)
        ensures
            r.active_view == ActiveView::RouteList,
            r.input_mode == InputMode::Normal,
            r.list_state == list_state,
            r.selected_route is None,
            r.editing_route is None,
            r.draft is None,
            r.editor_scroll == 0,
            r.preview is None,
            r.preview_scroll == 0,
            r.response is None,
            !r.secrets_visible,
            r.editing_variable is None,
            r.context is Global,
            r.focus is None,
            r@ == Screens::initial_view(list_state),
    {
        Screens {
            active_view: ActiveView::RouteList,
            input_mode: InputMode::Normal,
            list_state,
            selected_route: None,
            editing_route: None,
            draft: None,
            editor_scroll: 0,
            preview: None,
            preview_scroll: 0,
            response: None,
            secrets_visible: false,
            editing_variable: None,
            context: VariableContext::Global,
            focus: None,
        }
    }

    /// The content of the screens a session starts with.
    pub open spec fn initial_view(list_state: RouteListState) -> ScreensView {
        ScreensView {
            active_view: ActiveView::RouteList,
            input_mode: InputMode::Normal,
            expanded_groups: strings_view(list_state.expanded_groups@),
            list_selection: opt_selection_view(list_state.selected),
            selected_route: None,
            editing_route: None,
            draft: None,
            editor_scroll: 0,
            preview: None,
            preview_scroll: 0,
            response: None,
            secrets_visible: false,
            editing_variable: None,
            scope: None,
            focus: None,
        }
    }

    /// A copy of the screens, with the same content.
    pub fn duplicate(&self) -> (r: Screens)
        ensures
            r@ == self@,
    {
        let draft = match &self.draft {
            Some(route) => Some(route.duplicate()),
            None => None,
        };
        let preview = match &self.preview {
            Some(p) => Some(copy_preview(p)),
            None => None,
        };
        let response = match &self.response {
            Some(ResponseViewerResult::Success(c)) => Some(ResponseViewerResult::Success(copy_response(c))),
            Some(ResponseViewerResult::Error(e)) => Some(ResponseViewerResult::Error(e.clone())),
            None => None,
        };
        let r = Screens {
            active_view: self.active_view,
            input_mode: self.input_mode,
            list_state: copy_list_state(&self.list_state),
            selected_route: self.selected_route,
            editing_route: self.editing_route,
            draft,
            editor_scroll: self.editor_scroll,
            preview,
            preview_scroll: self.preview_scroll,
            response,
            secrets_visible: self.secrets_visible,
            editing_variable: copy_opt_string(&self.editing_variable),
            context: copy_context(&self.context),
            focus: self.focus,
        };
        proof {
            assert(r@.draft == self@.draft);
            assert(r@.preview == self@.preview);
            assert(r@.response == self@.response);
        }
        r
    }
}

// ---------------------------------------------------------------------------
// History of screens
// ---------------------------------------------------------------------------

/// The history after visiting `s` from position `index`, by content.
pub open spec fn pushed_view(entries: Seq<ScreensView>, index: usize, s: ScreensView) -> Seq<ScreensView> {
    NavHistory::<ScreensView>::pushed(entries, index, s)
}

proof fn lemma_pushed_view(entries: Seq<Screens>, index: usize, s: Screens)
    ensures
        snapshots_view(NavHistory::<Screens>::pushed(entries, index, s)) == pushed_view(
            snapshots_view(entries),
            index,
            s@,
        ),
{
    let kept = if index + 1 < entries.len() {
        entries.take(index + 1)
    } else {
        entries
    };
    let all = kept.push(s);
    let kv = if index + 1 < entries.len() {
        snapshots_view(entries).take(index + 1)
    } else {
        snapshots_view(entries)
    };
    assert(snapshots_view(kept) =~= kv);
    assert(snapshots_view(all) =~= kv.push(s@));
    if all.len() > MAX_NAVIGATION_HISTORY {
        assert(snapshots_view(all.skip(all.len() - MAX_NAVIGATION_HISTORY)) =~= kv.push(s@).skip(
            all.len() - MAX_NAVIGATION_HISTORY,
        ));
    }
}

/// Records a visit to the current screens.
pub fn push_screens(h: &mut NavHistory<Screens>, s: &Screens)
    requires
        old(h).wf(),
    ensures
        final(h).wf(),
        snapshots_view(final(h).entries@) == pushed_view(snapshots_view(old(h).entries@), old(h).index, s@),
        final(h).index == final(h).entries@.len() - 1,
{
    let ghost before = h.entries@;
    let ghost index = h.index;
    let copy = s.duplicate();
    h.push(copy);
    proof {
        lemma_pushed_view(before, index, copy);
    }
}

/// Overwrites the current snapshot with the current screens.
pub fn replace_current_screens(h: &mut NavHistory<Screens>, s: &Screens)
    requires
        old(h).wf(),
    ensures
        final(h).wf(),
        final(h).index == old(h).index,
        snapshots_view(final(h).entries@) == (if old(h).entries@.len() == 0 {
            snapshots_view(old(h).entries@)
        } else {
            snapshots_view(old(h).entries@).update(old(h).index as int, s@)
        }),
{
    let copy = s.duplicate();
    h.replace_current(copy);
    proof {
        if old(h).entries@.len() > 0 {
            assert(snapshots_view(h.entries@) =~= snapshots_view(old(h).entries@).update(
                old(h).index as int,
                s@,
            ));
        }
    }
}

/// A copy of the snapshot at the current position.
pub fn current_snapshot(h: &NavHistory<Screens>) -> (r: Screens)
    requires
        h.wf(),
        h.entries@.len() > 0,
    ensures
        r@ == h.entries@[h.index as int]@,
{
    h.entries[h.index].duplicate()
}

} // verus!
