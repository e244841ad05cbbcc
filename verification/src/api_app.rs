//! The API tester's decisions: what each message does to the routes, the
//! variables, the screens and the navigation history, and which work it
//! hands to the interface (mounting components, moving the focus, saving).

use vstd::prelude::*;
use crate::api_messages::{
    ActiveView, AppMsg, Id, InputMode, LayoutMode, Msg, RequestPreviewMsg, ResponseViewerMsg,
    ResponseViewerResult, RouteEditorMsg, RouteListMsg, VariableManagerMsg,
};
use crate::api_screens::{
    current_snapshot, opt_selection_view, PreviewView, ResultView, SelectionView,
    context_scope, pushed_view, push_screens, replace_current_screens, snapshots_view, Screens,
    ScreensView, VariableContext,
};
use crate::collection::{
    default_group_text, fresh_scope_id, group_set, index_error_message, method_label,
    scope_id_used, stored_route, strictly_sorted, strings_view, Collection, HttpMethod, Route, RouteView,
};
use crate::preview_state::{build_request_preview_state, resolved, resolved_body, RequestPreview};
use crate::route_list_state::selection_group;
use crate::help_view::{offset_moved, page_rows, page_step, scroll_offset_by, KeymapHelpState};
use crate::nav_history::{history_view, is_history_view, NavHistory};
use crate::route_list_state::RouteListState;
use crate::route_editor::{
    chosen_group, draft_after_sync, editor_group, header_inputs, method_at, method_for_index, parse_header_input,
    sync_draft_from_inputs, EditorInputs,
};
use crate::text::{lemma_lex_asymmetric, lex_lt, trim};
use crate::body_preview::{build, json_pretty, preview_lines_view, preview_of};
use crate::editor_layout::{
    editor_content_viewport_height, editor_sections, ensure_editor_section_visible, footer_height,
    layout_for, layout_mode_for_width, offset_showing, paged, scroll_editor_by, scroll_editor_page,
    scrolled_by, sections_of, EditorSection, EditorSectionKind,
};
use crate::var_table::{
    lists_rows, rows_view, scoped_route_used_global_keys, used_global_keys, variable_rows,
    variable_table_entries, variable_value_mode_for_key, RowEntry,
};
use crate::variables::{apply_masks, is_mask_order, resolve, substitute_spec, VarEntry, VariableMode, Variables, VariablesView};

verus! {

// ---------------------------------------------------------------------------
// Group names
// ---------------------------------------------------------------------------

/// Two strictly increasing lists of the same names are the same list.
pub proof fn lemma_sorted_names_unique(a: Seq<Seq<char>>, b: Seq<Seq<char>>)
    requires
        strictly_sorted(a),
        strictly_sorted(b),
        a.to_set() == b.to_set(),
    ensures
        a == b,
    decreases a.len(),
{
    if a.len() == 0 {
        if b.len() > 0 {
            assert(b.to_set().contains(b[0]));
        }
        assert(a =~= b);
    } else if b.len() == 0 {
        assert(a.to_set().contains(a[0]));
    } else {
        assert(a.to_set().contains(a[0]));
        assert(b.to_set().contains(b[0]));
        let j = choose|j: int| 0 <= j < b.len() && b[j] == a[0];
        let k = choose|k: int| 0 <= k < a.len() && a[k] == b[0];
        if a[0] != b[0] {
            assert(j > 0 && k > 0);
            assert(lex_lt(b[0], b[j]));
            assert(lex_lt(a[0], a[k]));
            lemma_lex_asymmetric(a[0], b[0]);
        }
        let a2 = a.drop_first();
        let b2 = b.drop_first();
        assert forall|x: Seq<char>| #[trigger] a2.to_set().contains(x) == b2.to_set().contains(x) by {
            if a2.to_set().contains(x) {
                let i = choose|i: int| 0 <= i < a2.len() && a2[i] == x;
                assert(a[i + 1] == x);
                assert(lex_lt(a[0], a[i + 1]));
                crate::text::lemma_lex_irreflexive(x);
                assert(b.to_set().contains(x));
                let m = choose|m: int| 0 <= m < b.len() && b[m] == x;
                assert(m != 0);
                assert(b2[m - 1] == x);
            }
            if b2.to_set().contains(x) {
                let i = choose|i: int| 0 <= i < b2.len() && b2[i] == x;
                assert(b[i + 1] == x);
                assert(lex_lt(b[0], b[i + 1]));
                crate::text::lemma_lex_irreflexive(x);
                assert(a.to_set().contains(x));
                let m = choose|m: int| 0 <= m < a.len() && a[m] == x;
                assert(m != 0);
                assert(a2[m - 1] == x);
            }
        }
        assert(a2.to_set() =~= b2.to_set());
        lemma_sorted_names_unique(a2, b2);
        assert(a.len() == b.len());
        assert forall|i: int| 0 <= i < a.len() implies a[i] == b[i] by {
            if i > 0 {
                assert(a[i] == a2[i - 1]);
                assert(b[i] == b2[i - 1]);
            }
        }
        assert(a =~= b);
    }
}

/// The group names of the routes, in order, without repeats.
pub open spec fn names_of(routes: Seq<Route>) -> Seq<Seq<char>> {
    choose|s: Seq<Seq<char>>| strictly_sorted(s) && s.to_set() == group_set(routes)
}

/// The list of group names is the one [`names_of`] describes.
pub fn sorted_group_names(c: &Collection) -> (r: Vec<String>)
    ensures
        strings_view(r@) == names_of(c.routes@),
{
    let r = c.group_names();
    proof {
        let s = strings_view(r@);
        assert(strictly_sorted(s) && s.to_set() == group_set(c.routes@));
        let t = names_of(c.routes@);
        lemma_sorted_names_unique(s, t);
    }
    r
}

// ---------------------------------------------------------------------------
// The model
// ---------------------------------------------------------------------------

/// What the interface reads from its components before a message is
/// handled.
#[derive(Debug, Clone)]
pub struct Readings {
    /// The route editor's fields.
    pub editor: EditorInputs,
    /// The focused component.
    pub focus: Option<Id>,
    /// The variable manager's key field.
    pub variable_key: String,
    /// The variable manager's value field.
    pub variable_value: String,
    /// The variable manager's mode selector.
    pub variable_mode: VariableMode,
    /// The largest scroll offset of the request preview as laid out now.
    pub preview_max_offset: usize,
    /// The largest scroll offset of the keymap help page as laid out now.
    pub keymap_max_offset: usize,
}

/// Work the interface does for the model, in order.
#[derive(Debug, PartialEq)]
pub enum ApiEffect {
    Close,
    OpenBodyEditor,
    ExecutePreviewRequest,
    SaveCollection,
    SaveVariables,
    PersistRouteListState,
    RefreshRouteList,
    /// Mounts the editor's fields from the route being edited.
    MountEditor,
    /// Mounts the variable table with these rows.
    MountVariableManager(Vec<(String, String, VariableMode, String)>),
    /// Mounts the variable fields with a key, a value and a mode.
    MountVariableInputs(String, String, VariableMode),
    MountResponseViewer,
    Focus(Id),
    /// Focuses a component if it is mounted.
    FocusIfMounted(Id),
    SyncEditorInputMode,
    SyncVariableInputMode,
    SyncVariableValueVisibility,
    /// Hands every key to the global listener.
    LockSubscriptions,
    UnlockSubscriptions,
}

/// The abstract content of an effect.
pub enum EffectView {
    Close,
    OpenBodyEditor,
    ExecutePreviewRequest,
    SaveCollection,
    SaveVariables,
    PersistRouteListState,
    RefreshRouteList,
    MountEditor,
    MountVariableManager(Seq<(Seq<char>, RowEntry)>),
    MountVariableInputs(Seq<char>, Seq<char>, VariableMode),
    MountResponseViewer,
    Focus(Id),
    FocusIfMounted(Id),
    SyncEditorInputMode,
    SyncVariableInputMode,
    SyncVariableValueVisibility,
    LockSubscriptions,
    UnlockSubscriptions,
}

impl View for ApiEffect {
    type V = EffectView;

    open spec fn view(&self) -> EffectView {
        match self {
            ApiEffect::Close => EffectView::Close,
            ApiEffect::OpenBodyEditor => EffectView::OpenBodyEditor,
            ApiEffect::ExecutePreviewRequest => EffectView::ExecutePreviewRequest,
            ApiEffect::SaveCollection => EffectView::SaveCollection,
            ApiEffect::SaveVariables => EffectView::SaveVariables,
            ApiEffect::PersistRouteListState => EffectView::PersistRouteListState,
            ApiEffect::RefreshRouteList => EffectView::RefreshRouteList,
            ApiEffect::MountEditor => EffectView::MountEditor,
            ApiEffect::MountVariableManager(rows) => EffectView::MountVariableManager(rows_view(rows@)),
            ApiEffect::MountVariableInputs(k, v, m) => EffectView::MountVariableInputs(k@, v@, *m),
            ApiEffect::MountResponseViewer => EffectView::MountResponseViewer,
            ApiEffect::Focus(id) => EffectView::Focus(*id),
            ApiEffect::FocusIfMounted(id) => EffectView::FocusIfMounted(*id),
            ApiEffect::SyncEditorInputMode => EffectView::SyncEditorInputMode,
            ApiEffect::SyncVariableInputMode => EffectView::SyncVariableInputMode,
            ApiEffect::SyncVariableValueVisibility => EffectView::SyncVariableValueVisibility,
            ApiEffect::LockSubscriptions => EffectView::LockSubscriptions,
            ApiEffect::UnlockSubscriptions => EffectView::UnlockSubscriptions,
        }
    }
}

/// The effects of a list, by content.
pub open spec fn effects_view(e: Seq<ApiEffect>) -> Seq<EffectView> {
    e.map_values(|x: ApiEffect| x@)
}

/// The API tester: its routes and variables, its screens, the keymap help
/// page, the navigation history and the terminal's size.
pub struct ApiTester {
    pub collection: Collection,
    pub variables: Variables,
    pub screens: Screens,
    pub keymap_help: KeymapHelpState,
    /// The component focused when the keymap help page was opened.
    pub help_focus: Option<Id>,
    pub history: NavHistory<Screens>,
    pub layout_mode: LayoutMode,
    pub terminal_width: u16,
    pub terminal_height: u16,
}

/// The abstract content of the API tester.
pub struct TesterView {
    pub routes: Seq<Route>,
    pub vars: VariablesView,
    pub screens: ScreensView,
    pub help: KeymapHelpState,
    pub help_focus: Option<Id>,
    pub history: Seq<ScreensView>,
    pub index: usize,
    pub layout: LayoutMode,
    pub width: u16,
    pub height: u16,
}

impl View for ApiTester {
    type V = TesterView;

    open spec fn view(&self) -> TesterView {
        TesterView {
            routes: self.collection.routes@,
            vars: self.variables@,
            screens: self.screens@,
            help: self.keymap_help,
            help_focus: self.help_focus,
            history: snapshots_view(self.history.entries@),
            index: self.history.index,
            layout: self.layout_mode,
            width: self.terminal_width,
            height: self.terminal_height,
        }
    }
}

impl ApiTester {
    /// The variables are well formed and the history within its bounds.
    pub open spec fn wf(&self) -> bool {
        &&& self.variables.wf()
        &&& self.history.wf()
    }
}

// ---------------------------------------------------------------------------
// Capturing the screens and switching views
// ---------------------------------------------------------------------------

/// A focus worth restoring: any but the global listener's.
pub open spec fn kept_focus(f: Option<Id>) -> Option<Id> {
    match f {
        Some(id) => if id == Id::GlobalListener {
            None
        } else {
            Some(id)
        },
        None => None,
    }
}

/// The screens with the route being edited read back from the editor's
/// fields, when the editor is showing one.
pub open spec fn synced(s: ScreensView, routes: Seq<Route>, r: Readings) -> ScreensView {
    if s.active_view == ActiveView::RouteEditor {
        match s.draft {
            Some(d) => ScreensView { draft: Some(draft_after_sync(d, names_of(routes), r.editor)), ..s },
            None => s,
        }
    } else {
        s
    }
}

/// The screens as a snapshot records them: synced, with the focus.
pub open spec fn captured(s: ScreensView, routes: Seq<Route>, r: Readings) -> ScreensView {
    ScreensView { focus: kept_focus(r.focus), ..synced(s, routes, r) }
}

/// The tester after switching to `view`: the current snapshot is updated
/// and a new one recorded, for the views that history keeps.
pub open spec fn switch_to(v: TesterView, r: Readings, view: ActiveView) -> TesterView {
    if view == v.screens.active_view {
        v
    } else {
        let replace = history_view(v.screens.active_view) && v.history.len() > 0;
        let s1 = if replace {
            captured(v.screens, v.routes, r)
        } else {
            v.screens
        };
        let h1 = if replace {
            v.history.update(v.index as int, s1)
        } else {
            v.history
        };
        let s2 = ScreensView { active_view: view, ..s1 };
        if history_view(view) {
            let s3 = captured(s2, v.routes, r);
            let h2 = pushed_view(h1, v.index, s3);
            TesterView { screens: s3, history: h2, index: (h2.len() - 1) as usize, ..v }
        } else {
            TesterView { screens: s2, history: h1, ..v }
        }
    }
}

impl ApiTester {
    /// Records the editor's fields and the focus in the current screens.
    fn capture(&mut self, r: &Readings)
        requires
            old(self).wf(),
        ensures
            final(self).wf(),
            final(self)@ == (TesterView { screens: captured(old(self)@.screens, old(self)@.routes, *r), ..old(self)@ }),
    {
        if self.screens.active_view == ActiveView::RouteEditor {
            let names = sorted_group_names(&self.collection);
            match &mut self.screens.draft {
                Some(d) => {
                    sync_draft_from_inputs(d, &names, &r.editor);
                },
                None => {},
            }
        }
        self.screens.focus = match r.focus {
            Some(id) => if id == Id::GlobalListener {
                None
            } else {
                Some(id)
            },
            None => None,
        };
        proof {
            assert(self@.screens =~= captured(old(self)@.screens, old(self)@.routes, *r));
        }
    }

    /// Switches to `view`, recording it in the history.
    fn switch_view(&mut self, view: ActiveView, r: &Readings)
        requires
            old(self).wf(),
        ensures
            final(self).wf(),
            final(self)@ == switch_to(old(self)@, *r, view),
    {
        if view == self.screens.active_view {
            return;
        }
        let ghost v = self@;
        if is_history_view(self.screens.active_view) && self.history.entries.len() > 0 {
            self.capture(r);
            replace_current_screens(&mut self.history, &self.screens);
        }
        let ghost s1 = self@.screens;
        let ghost h1 = self@.history;
        self.screens.active_view = view;
        proof {
            assert(self@.screens == (ScreensView { active_view: view, ..s1 }));
        }
        if is_history_view(view) {
            self.capture(r);
            push_screens(&mut self.history, &self.screens);
        }
        proof {
            assert(self@ =~= switch_to(v, *r, view));
        }
    }
}

// ---------------------------------------------------------------------------
// The variable manager
// ---------------------------------------------------------------------------

/// The global variables the route being edited uses, from the editor's
/// URL and headers fields and the route's body; none without a route.
pub open spec fn used_by_draft(s: ScreensView, vars: VariablesView, r: Readings) -> Set<Seq<char>> {
    match s.draft {
        Some(d) => used_global_keys(vars, r.editor.url@, r.editor.headers@, d.body),
        None => Set::empty(),
    }
}

/// The tester and the work after mounting the variable manager with
/// `rows`: the first row's variable is loaded into the fields when it
/// resolves, empty fields are mounted when there are no rows.
pub open spec fn after_mount(v: TesterView, rows: Seq<(Seq<char>, RowEntry)>) -> (TesterView, Seq<EffectView>) {
    let head = EffectView::MountVariableManager(rows);
    let tail = seq![EffectView::Focus(Id::VariableTable), EffectView::SyncVariableInputMode];
    let cleared = TesterView { screens: ScreensView { editing_variable: None, ..v.screens }, ..v };
    if rows.len() > 0 {
        let k = rows[0].0;
        match resolve(v.vars, k, v.screens.scope) {
            Some(en) => (
                TesterView { screens: ScreensView { editing_variable: Some(k), ..v.screens }, ..v },
                seq![head, EffectView::MountVariableInputs(k, en.0, en.1)] + tail,
            ),
            None => (cleared, seq![head] + tail),
        }
    } else {
        (
            cleared,
            seq![head, EffectView::MountVariableInputs(Seq::empty(), Seq::empty(), VariableMode::Placeholder)]
                + tail,
        )
    }
}

/// Mounting the variable manager takes `v` to `n` with the work `e`: its
/// rows are those of the scope shown and of the globals the route being
/// edited uses.
pub open spec fn mounts_manager(v: TesterView, r: Readings, n: TesterView, e: Seq<EffectView>) -> bool {
    &&& e.len() > 0
    &&& e[0] matches EffectView::MountVariableManager(rows)
    &&& lists_rows(rows, variable_rows(v.vars, v.screens.scope, used_by_draft(v.screens, v.vars, r)))
    &&& (n, e) == after_mount(v, rows)
}

fn push_effect(e: &mut Vec<ApiEffect>, x: ApiEffect)
    ensures
        effects_view(final(e)@) == effects_view(old(e)@).push(x@),
{
    let ghost before = e@;
    e.push(x);
    proof {
        assert(effects_view(e@) =~= effects_view(before).push(x@));
    }
}

impl ApiTester {
    fn scope_of(&self) -> (r: Option<&str>)
        ensures
            crate::variables::str_scope_view(r) == self.screens@.scope,
    {
        match &self.screens.context {
            VariableContext::Global => None,
            VariableContext::Scoped { scope_id } => Some(scope_id.as_str()),
        }
    }

    /// Mounts the variable manager.
    fn mount_variable_manager(&mut self, r: &Readings, e: &mut Vec<ApiEffect>)
        requires
            old(self).wf(),
        ensures
            final(self).wf(),
            mounts_manager(old(self)@, *r, final(self)@, effects_view(final(e)@).skip(old(e)@.len() as int)),
            effects_view(final(e)@).take(old(e)@.len() as int) == effects_view(old(e)@),
            final(e)@.len() > old(e)@.len(),
    {
        let ghost v = self@;
        let ghost e0 = effects_view(e@);
        let used = match &self.screens.draft {
            Some(d) => scoped_route_used_global_keys(
                &self.variables,
                r.editor.url.as_str(),
                r.editor.headers.as_str(),
                match &d.body {
                    Some(b) => Some(b.as_str()),
                    None => None,
                },
            ),
            None => Vec::new(),
        };
        proof {
            assert(strings_view(used@).to_set() == used_by_draft(v.screens, v.vars, *r)) by {
                if v.screens.draft is None {
                    assert(strings_view(used@).to_set() =~= Set::<Seq<char>>::empty());
                }
            }
        }
        let rows = variable_table_entries(&self.variables, self.scope_of(), &used);
        let ghost rv = rows_view(rows@);
        let first: Option<String> = if rows.len() > 0 {
            Some(rows[0].0.clone())
        } else {
            None
        };
        let loaded = match &first {
            Some(k) => variable_value_mode_for_key(&self.variables, self.scope_of(), k.as_str()),
            None => None,
        };
        push_effect(e, ApiEffect::MountVariableManager(rows));
        match first {
            Some(k) => {
                match loaded {
                    Some((value, mode)) => {
                        self.screens.editing_variable = Some(k.clone());
                        push_effect(e, ApiEffect::MountVariableInputs(k, value, mode));
                    },
                    None => {
                        self.screens.editing_variable = None;
                    },
                }
            },
            None => {
                self.screens.editing_variable = None;
                push_effect(e, ApiEffect::MountVariableInputs(String::new(), String::new(), VariableMode::Placeholder));
            },
        }
        push_effect(e, ApiEffect::Focus(Id::VariableTable));
        push_effect(e, ApiEffect::SyncVariableInputMode);
        proof {
            let added = effects_view(e@).skip(e0.len() as int);
            assert(effects_view(e@).take(e0.len() as int) =~= e0);
            assert(added[0] == EffectView::MountVariableManager(rv));
            let (n2, e2) = after_mount(v, rv);
            assert(added =~= e2);
            assert(self@ =~= n2);
        }
    }

    /// Loads a variable into the fields when it resolves.
    fn load_variable_into_inputs(&mut self, key: &str, e: &mut Vec<ApiEffect>)
        requires
            old(self).wf(),
        ensures
            final(self).wf(),
            match resolve(old(self)@.vars, key@, old(self)@.screens.scope) {
                Some(en) => final(self)@ == (TesterView {
                    screens: ScreensView { editing_variable: Some(key@), ..old(self)@.screens },
                    ..old(self)@
                }) && effects_view(final(e)@) == effects_view(old(e)@).push(
                    EffectView::MountVariableInputs(key@, en.0, en.1),
                ),
                None => final(self)@ == old(self)@ && final(e)@ == old(e)@,
            },
    {
        match variable_value_mode_for_key(&self.variables, self.scope_of(), key) {
            Some((value, mode)) => {
                let k = crate::text::string_from_chars(crate::text::to_chars(key).as_slice());
                self.screens.editing_variable = Some(k);
                let k2 = crate::text::string_from_chars(crate::text::to_chars(key).as_slice());
                push_effect(e, ApiEffect::MountVariableInputs(k2, value, mode));
                proof {
                    assert(self@ =~= (TesterView {
                        screens: ScreensView { editing_variable: Some(key@), ..old(self)@.screens },
                        ..old(self)@
                    }));
                }
            },
            None => {},
        }
    }
}

// ---------------------------------------------------------------------------
// Pieces of the state after a message
// ---------------------------------------------------------------------------

pub open spec fn with_screens(v: TesterView, s: ScreensView) -> TesterView {
    TesterView { screens: s, ..v }
}

/// The tester after the terminal was resized: two rows are kept for the
/// status bar.
pub open spec fn resized(v: TesterView, w: u16, h: u16) -> TesterView {
    TesterView {
        width: w,
        height: if h >= 2 {
            (h - 2) as u16
        } else {
            0
        },
        layout: layout_for(w),
        ..v
    }
}

/// The keymap help page opened over the current view.
pub open spec fn help_shown(v: TesterView, r: Readings) -> TesterView {
    TesterView {
        screens: ScreensView { active_view: ActiveView::KeymapHelp, ..v.screens },
        help: KeymapHelpState { return_view: Some(v.screens.active_view), scroll_offset: 0 },
        help_focus: kept_focus(r.focus),
        ..v
    }
}

/// The keymap help page closed: back to the view it was opened from (the
/// route list when unknown), the focus it had restored.
pub open spec fn help_hidden(v: TesterView) -> (TesterView, Seq<EffectView>) {
    let showing = v.screens.active_view == ActiveView::KeymapHelp;
    let back = if showing {
        match v.help.return_view {
            Some(x) => x,
            None => ActiveView::RouteList,
        }
    } else {
        v.screens.active_view
    };
    (
        TesterView {
            screens: ScreensView { active_view: back, ..v.screens },
            help: KeymapHelpState {
                return_view: if showing {
                    None
                } else {
                    v.help.return_view
                },
                scroll_offset: 0,
            },
            help_focus: None,
            ..v
        },
        seq![EffectView::UnlockSubscriptions] + match v.help_focus {
            Some(f) => seq![EffectView::FocusIfMounted(f)],
            None => Seq::empty(),
        },
    )
}

/// The keymap help page scrolled by `delta` rows.
pub open spec fn help_scrolled(v: TesterView, delta: int, max: usize) -> TesterView {
    TesterView {
        help: KeymapHelpState {
            scroll_offset: offset_moved(v.help.scroll_offset as int, delta, max as int) as usize,
            ..v.help
        },
        ..v
    }
}

/// What a message does while the keymap help page shows.
pub open spec fn help_update(v: TesterView, msg: Msg, r: Readings) -> (TesterView, Seq<EffectView>) {
    match msg {
        Msg::App(AppMsg::Close) => (v, seq![EffectView::Close]),
        Msg::App(AppMsg::TerminalResize(w, h)) => (resized(v, w, h), Seq::empty()),
        Msg::App(AppMsg::ToggleKeymapHelp) => help_hidden(v),
        Msg::App(AppMsg::ScrollUp) => (help_scrolled(v, -1, r.keymap_max_offset), Seq::empty()),
        Msg::App(AppMsg::ScrollDown) => (help_scrolled(v, 1, r.keymap_max_offset), Seq::empty()),
        Msg::App(AppMsg::ScrollBy(d)) => (help_scrolled(v, d as int, r.keymap_max_offset), Seq::empty()),
        Msg::App(AppMsg::PageUp) => (help_scrolled(v, -page_rows(v.height), r.keymap_max_offset), Seq::empty()),
        Msg::App(AppMsg::PageDown) => (help_scrolled(v, page_rows(v.height), r.keymap_max_offset), Seq::empty()),
        Msg::App(AppMsg::ScrollToTop) => (
            TesterView { help: KeymapHelpState { scroll_offset: 0, ..v.help }, ..v },
            Seq::empty(),
        ),
        Msg::App(AppMsg::ScrollToBottom) => (
            TesterView { help: KeymapHelpState { scroll_offset: r.keymap_max_offset, ..v.help }, ..v },
            Seq::empty(),
        ),
        _ => (v, Seq::empty()),
    }
}

// ---------------------------------------------------------------------------
// Editor and preview scrolling
// ---------------------------------------------------------------------------

/// Whether the group selector is past the listed groups, on `New Group...`.
pub open spec fn new_group_shown(v: TesterView, r: Readings) -> bool {
    match r.editor.group_index {
        Some(i) => i >= names_of(v.routes).len(),
        None => false,
    }
}

/// The lines of the body preview of the route being edited, when it has
/// some.
pub open spec fn draft_preview_lines(v: TesterView) -> Option<nat> {
    match v.screens.draft {
        Some(d) => match d.body {
            Some(b) => {
                let t = substitute_spec(v.vars, b, Some(d.scope_id), true);
                let n = preview_of(t, json_pretty(trim(t))).0.len();
                if n > 0 {
                    Some(n)
                } else {
                    None
                }
            },
            None => None,
        },
        None => None,
    }
}

/// The editor's sections as they are laid out now.
pub open spec fn current_sections(v: TesterView, r: Readings) -> Seq<EditorSection> {
    sections_of(new_group_shown(v, r), draft_preview_lines(v))
}

/// The rows the editor's sections have.
pub open spec fn editor_rows(v: TesterView) -> int {
    v.height - footer_height(v.height)
}

pub open spec fn with_editor_scroll(v: TesterView, o: int) -> TesterView {
    with_screens(v, ScreensView { editor_scroll: o as usize, ..v.screens })
}

pub open spec fn with_preview_scroll(v: TesterView, o: int) -> TesterView {
    with_screens(v, ScreensView { preview_scroll: o as usize, ..v.screens })
}

/// The editor's section of a component.
pub open spec fn section_for(id: Id) -> Option<EditorSectionKind> {
    match id {
        Id::EditorName => Some(EditorSectionKind::Name),
        Id::EditorGroup => Some(EditorSectionKind::Group),
        Id::EditorNewGroup => Some(EditorSectionKind::NewGroup),
        Id::EditorMethod => Some(EditorSectionKind::Method),
        Id::EditorUrl => Some(EditorSectionKind::Url),
        Id::EditorHeaders => Some(EditorSectionKind::Headers),
        _ => None,
    }
}

/// The editor scrolled to show a section; unchanged outside the editor.
pub open spec fn editor_showing(v: TesterView, r: Readings, k: EditorSectionKind) -> TesterView {
    if v.screens.active_view == ActiveView::RouteEditor {
        with_editor_scroll(v, offset_showing(v.screens.editor_scroll as int, current_sections(v, r), k, editor_rows(v)))
    } else {
        v
    }
}

/// A scroll by `delta` rows of the editor or of the request preview.
pub open spec fn scrolled(v: TesterView, r: Readings, delta: int) -> TesterView {
    match v.screens.active_view {
        ActiveView::RouteEditor => with_editor_scroll(
            v,
            scrolled_by(v.screens.editor_scroll as int, delta, current_sections(v, r).len() as int),
        ),
        ActiveView::RequestPreview => with_preview_scroll(
            v,
            offset_moved(v.screens.preview_scroll as int, delta, r.preview_max_offset as int),
        ),
        _ => v,
    }
}

/// A page scroll down (`direction` 1) or up (-1).
pub open spec fn page_scrolled(v: TesterView, r: Readings, direction: int) -> TesterView {
    match v.screens.active_view {
        ActiveView::RouteEditor => with_editor_scroll(
            v,
            paged(v.screens.editor_scroll as int, direction, current_sections(v, r), editor_rows(v)),
        ),
        ActiveView::RequestPreview => with_preview_scroll(
            v,
            offset_moved(v.screens.preview_scroll as int, direction * page_rows(v.height), r.preview_max_offset as int),
        ),
        _ => v,
    }
}

impl ApiTester {
    fn editor_sections_now(&self, r: &Readings) -> (s: Vec<EditorSection>)
        requires
            self.wf(),
        ensures
            s@ == current_sections(self@, *r),
    {
        let names = sorted_group_names(&self.collection);
        let show = match r.editor.group_index {
            Some(i) => i >= names.len(),
            None => false,
        };
        let lines: Option<usize> = match &self.screens.draft {
            Some(d) => match &d.body {
                Some(b) => {
                    let t = self.variables.substitute_for_preview_with_scope(b.as_str(), Some(d.scope_id.as_str()));
                    let p = build(t.as_str());
                    proof {
                        assert(preview_lines_view(p.lines@).len() == p.lines@.len());
                    }
                    if p.lines.len() > 0 {
                        Some(p.lines.len())
                    } else {
                        None
                    }
                },
                None => None,
            },
            None => None,
        };
        editor_sections(show, lines)
    }

    /// Scrolls the editor or the request preview by `delta` rows.
    fn scroll_by(&mut self, delta: isize, r: &Readings)
        requires
            old(self).wf(),
            r.preview_max_offset <= isize::MAX,
        ensures
            final(self).wf(),
            final(self)@ == scrolled(old(self)@, *r, delta as int),
    {
        match self.screens.active_view {
            ActiveView::RouteEditor => {
                let sections = self.editor_sections_now(r);
                self.screens.editor_scroll = scroll_editor_by(self.screens.editor_scroll, delta, sections.len());
            },
            ActiveView::RequestPreview => {
                self.screens.preview_scroll = scroll_offset_by(self.screens.preview_scroll, delta, r.preview_max_offset);
            },
            _ => {},
        }
        proof {
            assert(self@ =~= scrolled(old(self)@, *r, delta as int));
        }
    }

    /// Scrolls the editor or the request preview by a page.
    fn scroll_page(&mut self, direction: isize, r: &Readings)
        requires
            old(self).wf(),
            r.preview_max_offset <= isize::MAX,
            direction == 1 || direction == -1,
        ensures
            final(self).wf(),
            final(self)@ == page_scrolled(old(self)@, *r, direction as int),
    {
        match self.screens.active_view {
            ActiveView::RouteEditor => {
                let sections = self.editor_sections_now(r);
                let rows = editor_content_viewport_height(self.terminal_height);
                self.screens.editor_scroll = scroll_editor_page(self.screens.editor_scroll, direction, &sections, rows);
            },
            ActiveView::RequestPreview => {
                let step = page_step(self.terminal_height);
                let delta: isize = if direction == 1 {
                    step
                } else {
                    -step
                };
                proof {
                    let pr = page_rows(self.terminal_height);
                    if direction == 1 {
                        assert(delta as int == direction as int * pr) by (nonlinear_arith)
                            requires
                                direction == 1,
                                delta as int == pr,
                        ;
                    } else {
                        assert(delta as int == direction as int * pr) by (nonlinear_arith)
                            requires
                                direction == -1,
                                delta as int == -pr,
                        ;
                    }
                }
                self.screens.preview_scroll = scroll_offset_by(self.screens.preview_scroll, delta, r.preview_max_offset);
            },
            _ => {},
        }
        proof {
            assert(self@ =~= page_scrolled(old(self)@, *r, direction as int));
        }
    }

    /// Scrolls the editor so that a section shows.
    fn show_section(&mut self, k: EditorSectionKind, r: &Readings)
        requires
            old(self).wf(),
        ensures
            final(self).wf(),
            final(self)@ == editor_showing(old(self)@, *r, k),
    {
        if self.screens.active_view == ActiveView::RouteEditor {
            let sections = self.editor_sections_now(r);
            let rows = editor_content_viewport_height(self.terminal_height);
            self.screens.editor_scroll = ensure_editor_section_visible(self.screens.editor_scroll, &sections, k, rows);
            proof {
                assert(self@ =~= editor_showing(old(self)@, *r, k));
            }
        }
    }

    /// Handles a message while the keymap help page shows.
    fn help_message(&mut self, msg: Msg, r: &Readings) -> (e: Vec<ApiEffect>)
        requires
            old(self).wf(),
            r.keymap_max_offset <= isize::MAX,
        ensures
            final(self).wf(),
            (final(self)@, effects_view(e@)) == help_update(old(self)@, msg, *r),
    {
        let mut e: Vec<ApiEffect> = Vec::new();
        let ghost v = self@;
        match msg {
            Msg::App(AppMsg::Close) => {
                push_effect(&mut e, ApiEffect::Close);
            },
            Msg::App(AppMsg::TerminalResize(w, h)) => {
                self.resize(w, h);
            },
            Msg::App(AppMsg::ToggleKeymapHelp) => {
                self.hide_help(&mut e);
            },
            Msg::App(AppMsg::ScrollUp) => {
                self.keymap_help.scroll_offset = scroll_offset_by(self.keymap_help.scroll_offset, -1, r.keymap_max_offset);
            },
            Msg::App(AppMsg::ScrollDown) => {
                self.keymap_help.scroll_offset = scroll_offset_by(self.keymap_help.scroll_offset, 1, r.keymap_max_offset);
            },
            Msg::App(AppMsg::ScrollBy(d)) => {
                self.keymap_help.scroll_offset = scroll_offset_by(self.keymap_help.scroll_offset, d, r.keymap_max_offset);
            },
            Msg::App(AppMsg::PageUp) => {
                let step = page_step(self.terminal_height);
                self.keymap_help.scroll_offset = scroll_offset_by(self.keymap_help.scroll_offset, -step, r.keymap_max_offset);
            },
            Msg::App(AppMsg::PageDown) => {
                let step = page_step(self.terminal_height);
                self.keymap_help.scroll_offset = scroll_offset_by(self.keymap_help.scroll_offset, step, r.keymap_max_offset);
            },
            Msg::App(AppMsg::ScrollToTop) => {
                self.keymap_help.scroll_offset = 0;
            },
            Msg::App(AppMsg::ScrollToBottom) => {
                self.keymap_help.scroll_offset = r.keymap_max_offset;
            },
            _ => {},
        }
        proof {
            let (n, ee) = help_update(v, msg, *r);
            assert(self@ =~= n);
            assert(effects_view(e@) =~= ee);
        }
        e
    }

    /// Records the terminal's new size.
    fn resize(&mut self, w: u16, h: u16)
        ensures
            final(self)@ == resized(old(self)@, w, h),
            final(self).wf() == old(self).wf(),
    {
        self.terminal_width = w;
        self.terminal_height = if h >= 2 {
            h - 2
        } else {
            0
        };
        self.layout_mode = layout_mode_for_width(w);
    }

    /// Closes the keymap help page.
    fn hide_help(&mut self, e: &mut Vec<ApiEffect>)
        requires
            old(self).wf(),
        ensures
            final(self).wf(),
            final(self)@ == help_hidden(old(self)@).0,
            effects_view(final(e)@) == effects_view(old(e)@) + help_hidden(old(self)@).1,
    {
        let ghost v = self@;
        let ghost e0 = effects_view(e@);
        let back = self.keymap_help.close(self.screens.active_view);
        self.screens.active_view = back;
        push_effect(e, ApiEffect::UnlockSubscriptions);
        match self.help_focus {
            Some(f) => {
                push_effect(e, ApiEffect::FocusIfMounted(f));
            },
            None => {},
        }
        self.help_focus = None;
        proof {
            assert(self@ =~= help_hidden(v).0);
            assert(effects_view(e@) =~= e0 + help_hidden(v).1);
        }
    }
}

// ---------------------------------------------------------------------------
// Specifications of the other messages
// ---------------------------------------------------------------------------

/// The focus restored after navigating, when the snapshot had one.
pub open spec fn focus_tail(f: Option<Id>) -> Seq<EffectView> {
    match f {
        Some(id) => seq![EffectView::FocusIfMounted(id)],
        None => Seq::empty(),
    }
}

/// Restoring the variable manager: mounted anew, then the variable the
/// snapshot was editing loaded again and kept as the one being edited.
pub open spec fn restored_manager(b: TesterView, rows: Seq<(Seq<char>, RowEntry)>) -> (TesterView, Seq<EffectView>) {
    let (m, e1) = after_mount(b, rows);
    let (m2, e2) = match b.screens.editing_variable {
        Some(k) => (
            with_screens(m, ScreensView { editing_variable: Some(k), ..m.screens }),
            match resolve(m.vars, k, m.screens.scope) {
                Some(en) => e1.push(EffectView::MountVariableInputs(k, en.0, en.1)),
                None => e1,
            },
        ),
        None => (m, e1),
    };
    (m2, e2.push(EffectView::SyncVariableInputMode) + focus_tail(b.screens.focus))
}

/// The work of restoring the screens of `b`, which becomes `n`.
pub open spec fn restores(b: TesterView, r: Readings, n: TesterView, e: Seq<EffectView>) -> bool {
    let tail = focus_tail(b.screens.focus);
    match b.screens.active_view {
        ActiveView::RouteList => n == b && e == seq![EffectView::RefreshRouteList, EffectView::Focus(Id::RouteList)]
            + tail,
        ActiveView::RouteEditor => n == b && e == (if b.screens.draft is Some {
            seq![EffectView::MountEditor]
        } else {
            Seq::empty()
        }) + seq![EffectView::SyncEditorInputMode] + tail,
        ActiveView::ResponseViewer => n == b && e == seq![EffectView::MountResponseViewer] + tail,
        ActiveView::VariableManager => {
            &&& e.len() > 0
            &&& e[0] matches EffectView::MountVariableManager(rows)
            &&& lists_rows(rows, variable_rows(b.vars, b.screens.scope, used_by_draft(b.screens, b.vars, r)))
            &&& (n, e) == restored_manager(b, rows)
        },
        _ => n == b && e == tail,
    }
}

/// Going back (or forward) in the history: the current snapshot is
/// updated, and the previous (or next) one restored.
pub open spec fn navigate_post(v: TesterView, r: Readings, back: bool, n: TesterView, e: Seq<EffectView>) -> bool {
    let len = v.history.len();
    let can = if back {
        len > 0 && v.index > 0
    } else {
        len > 0 && v.index + 1 < len
    };
    if !can {
        n == v && e.len() == 0
    } else {
        let keep = history_view(v.screens.active_view);
        let s1 = if keep {
            captured(v.screens, v.routes, r)
        } else {
            v.screens
        };
        let h1 = if keep {
            v.history.update(v.index as int, s1)
        } else {
            v.history
        };
        let idx: usize = if back {
            (v.index - 1) as usize
        } else {
            (v.index + 1) as usize
        };
        restores(TesterView { screens: h1[idx as int], history: h1, index: idx, ..v }, r, n, e)
    }
}

/// Opening the variable manager on a scope (`None` for the globals).
pub open spec fn manager_opened(v: TesterView, r: Readings, scope: Option<Seq<char>>, n: TesterView, e: Seq<EffectView>) -> bool {
    let b = with_screens(
        v,
        ScreensView { input_mode: InputMode::Normal, editing_variable: None, scope, ..v.screens },
    );
    &&& e.len() > 0
    &&& e[0] matches EffectView::MountVariableManager(rows)
    &&& lists_rows(rows, variable_rows(b.vars, scope, used_by_draft(b.screens, b.vars, r)))
    &&& e == after_mount(b, rows).1
    &&& n == switch_to(after_mount(b, rows).0, r, ActiveView::VariableManager)
}

/// The route list with route `i` selected, its group expanded when asked.
pub open spec fn route_selected(s: ScreensView, routes: Seq<Route>, i: int, expand: bool) -> ScreensView {
    let rv = routes[i]@;
    let g = selection_group(rv.group);
    ScreensView {
        expanded_groups: if expand && !s.expanded_groups.contains(g) {
            s.expanded_groups.push(g)
        } else {
            s.expanded_groups
        },
        list_selection: Some(
            SelectionView::Route { group: g, name: rv.name, method: method_label(rv.method), url: rv.url },
        ),
        ..s
    }
}

/// The request preview of a route: its templates resolved in its scope,
/// hidden values masked for display.
pub open spec fn preview_for(index: usize, r: RouteView, v: VariablesView) -> PreviewView {
    PreviewView {
        route_index: index,
        route_scope_id: r.scope_id,
        route_name: r.name,
        method: r.method,
        display_url: resolved(v, r.scope_id, r.url, true),
        execution_url: resolved(v, r.scope_id, r.url, false),
        display_headers: r.headers.map_values(|h: Seq<char>| resolved(v, r.scope_id, h, true)),
        execution_headers: r.headers.map_values(|h: Seq<char>| resolved(v, r.scope_id, h, false)),
        display_body: resolved_body(v, r.scope_id, r.body, true),
        execution_body: resolved_body(v, r.scope_id, r.body, false),
    }
}

/// `t` is `text` with the hidden values visible in `scope` masked.
pub open spec fn masked(v: VariablesView, scope: Option<Seq<char>>, text: Seq<char>, t: Seq<char>) -> bool {
    exists|h: Seq<(Seq<char>, Seq<char>)>| is_mask_order(v, scope, h) && t == apply_masks(text, h)
}

/// The variables after deleting `key` from the scope shown (`None` for
/// the globals); an emptied scope is dropped.
pub open spec fn var_deleted(v: VariablesView, scope: Option<Seq<char>>, key: Seq<char>) -> VariablesView {
    match scope {
        None => VariablesView { global: v.global.remove(key), ..v },
        Some(sc) => VariablesView {
            scoped: if v.scoped.contains_key(sc) {
                if v.scoped[sc].remove(key) == Map::<Seq<char>, VarEntry>::empty() {
                    v.scoped.remove(sc)
                } else {
                    v.scoped.insert(sc, v.scoped[sc].remove(key))
                }
            } else {
                v.scoped
            },
            ..v
        },
    }
}

/// The variables after storing `key` in the scope shown.
pub open spec fn var_added(v: VariablesView, scope: Option<Seq<char>>, key: Seq<char>, en: VarEntry) -> VariablesView {
    match scope {
        None => VariablesView { global: v.global.insert(key, en), ..v },
        Some(sc) => VariablesView {
            scoped: v.scoped.insert(sc, Variables::scope_map(v, sc).insert(key, en)),
            ..v
        },
    }
}

/// Loading a variable into the fields when it resolves.
pub open spec fn loaded(v: TesterView, key: Seq<char>) -> (TesterView, Seq<EffectView>) {
    match resolve(v.vars, key, v.screens.scope) {
        Some(en) => (
            with_screens(v, ScreensView { editing_variable: Some(key), ..v.screens }),
            seq![EffectView::MountVariableInputs(key, en.0, en.1)],
        ),
        None => (v, Seq::empty()),
    }
}

/// The route the editor's fields describe, with a scope id.
pub open spec fn edited_route(v: TesterView, r: Readings, scope: Seq<char>) -> RouteView {
    RouteView {
        group: chosen_group(names_of(v.routes), r.editor.group_index, r.editor.new_group@),
        scope_id: scope,
        name: r.editor.name@,
        method: method_at(
            match r.editor.method_index {
                Some(i) => i as nat,
                None => 0,
            },
        ),
        url: r.editor.url@,
        headers: header_inputs(r.editor.headers@),
        body: match v.screens.draft {
            Some(d) => d.body,
            None => None,
        },
    }
}

/// `routes2` is what storing `route` at `index` (or appending it, for
/// `None`) makes of `routes`.
pub open spec fn stored_into(routes: Seq<Route>, index: Option<usize>, route: RouteView, routes2: Seq<Route>) -> bool {
    match index {
        Some(i) => {
            &&& i < routes.len()
            &&& routes2.len() == routes.len()
            &&& forall|k: int| 0 <= k < routes.len() && k != i ==> #[trigger] routes2[k] == routes[k]
            &&& routes2[i as int]@ == stored_route(route, routes2[i as int]@.scope_id)
            &&& trim(route.scope_id).len() == 0 ==> fresh_scope_id(routes, routes2[i as int]@.scope_id)
        },
        None => {
            &&& routes2.len() == routes.len() + 1
            &&& routes2.take(routes.len() as int) == routes
            &&& routes2.last()@ == stored_route(route, routes2.last()@.scope_id)
            &&& trim(route.scope_id).len() == 0 ==> fresh_scope_id(routes, routes2.last()@.scope_id)
        },
    }
}

/// After saving the editor into `routes2`: the route selected, back to the
/// route list, and the editor cleared.
pub open spec fn after_editor_save(v: TesterView, r: Readings, routes2: Seq<Route>) -> TesterView {
    let idx: int = match v.screens.editing_route {
        Some(i) => i as int,
        None => routes2.len() - 1,
    };
    let s1 = ScreensView { input_mode: InputMode::Normal, ..route_selected(v.screens, routes2, idx, true) };
    let m = switch_to(TesterView { routes: routes2, screens: s1, ..v }, r, ActiveView::RouteList);
    with_screens(m, ScreensView { editing_route: None, draft: None, editor_scroll: 0, ..m.screens })
}

/// Saving the route editor with the route's scope `sc`.
pub open spec fn saved_with_scope(v: TesterView, r: Readings, n: TesterView, res: Result<Seq<EffectView>, Seq<char>>, sc: Seq<char>) -> bool {
    &&& (match v.screens.draft {
        Some(d) => sc == d.scope_id,
        None => fresh_scope_id(v.routes, sc),
    })
    &&& (match v.screens.editing_route {
        Some(i) if i >= v.routes.len() => n == v && res == Err::<Seq<EffectView>, Seq<char>>(
            index_error_message(i as nat),
        ),
        _ => {
            &&& stored_into(v.routes, v.screens.editing_route, edited_route(v, r, sc), n.routes)
            &&& n == after_editor_save(v, r, n.routes)
            &&& res == Ok::<Seq<EffectView>, Seq<char>>(
                seq![EffectView::SaveCollection, EffectView::PersistRouteListState, EffectView::RefreshRouteList],
            )
        },
    })
}

/// What saving the route editor does: the route the fields describe, in
/// the scope of the route being edited (a fresh one for a new route), is
/// stored in place of the edited route or appended, and selected; the
/// editor closes on the route list.
pub open spec fn editor_saved(v: TesterView, r: Readings, n: TesterView, res: Result<Seq<EffectView>, Seq<char>>) -> bool {
    if v.screens.active_view != ActiveView::RouteEditor {
        n == v && res == Ok::<Seq<EffectView>, Seq<char>>(Seq::empty())
    } else {
        exists|sc: Seq<char>| #[trigger] saved_with_scope(v, r, n, res, sc)
    }
}

// ---------------------------------------------------------------------------
// Per-message results
// ---------------------------------------------------------------------------

/// Running route `i` from the route list: it is selected and previewed.
pub open spec fn run_route_post(v: TesterView, r: Readings, i: usize) -> (TesterView, Seq<EffectView>) {
    if v.screens.active_view != ActiveView::RouteList || i >= v.routes.len() {
        (v, Seq::empty())
    } else {
        let s1 = route_selected(v.screens, v.routes, i as int, true);
        let s2 = ScreensView {
            selected_route: Some(i),
            preview: Some(preview_for(i, v.routes[i as int]@, v.vars)),
            input_mode: InputMode::Normal,
            preview_scroll: 0,
            ..s1
        };
        (switch_to(with_screens(v, s2), r, ActiveView::RequestPreview), seq![EffectView::PersistRouteListState])
    }
}

/// A route ran: its response is shown.
pub open spec fn executed_post(v: TesterView, r: Readings, i: usize, resp: ResultView) -> (TesterView, Seq<EffectView>) {
    let s = ScreensView {
        selected_route: Some(i),
        response: Some(resp),
        input_mode: InputMode::Normal,
        ..v.screens
    };
    (switch_to(with_screens(v, s), r, ActiveView::ResponseViewer), seq![EffectView::MountResponseViewer])
}

/// The scope of route `i`, when there is one.
pub open spec fn route_scope(v: TesterView, i: usize) -> Option<Seq<char>> {
    if i < v.routes.len() {
        Some(v.routes[i as int].scope_id@)
    } else {
        None
    }
}

/// Editing route `i`: it is selected and copied into the editor.
pub open spec fn edit_route_post(v: TesterView, r: Readings, i: usize) -> (TesterView, Seq<EffectView>) {
    if v.screens.active_view != ActiveView::RouteList || i >= v.routes.len() {
        (v, Seq::empty())
    } else {
        let s1 = route_selected(v.screens, v.routes, i as int, true);
        let s2 = ScreensView {
            editing_route: Some(i),
            draft: Some(v.routes[i as int]@),
            input_mode: InputMode::Normal,
            editor_scroll: 0,
            ..s1
        };
        (
            switch_to(with_screens(v, s2), r, ActiveView::RouteEditor),
            seq![EffectView::PersistRouteListState, EffectView::MountEditor],
        )
    }
}

/// A new, empty route in the default group with a fresh scope.
pub open spec fn new_route_post(v: TesterView, r: Readings, n: TesterView, e: Seq<EffectView>) -> bool {
    if v.screens.active_view != ActiveView::RouteList {
        n == v && e.len() == 0
    } else {
        exists|sc: Seq<char>| {
            &&& fresh_scope_id(v.routes, sc)
            &&& n == switch_to(
                with_screens(
                    v,
                    ScreensView {
                        editing_route: None,
                        draft: Some(
                            RouteView {
                                group: default_group_text(),
                                scope_id: sc,
                                name: Seq::empty(),
                                method: HttpMethod::Get,
                                url: Seq::empty(),
                                headers: Seq::empty(),
                                body: None,
                            },
                        ),
                        input_mode: InputMode::Normal,
                        editor_scroll: 0,
                        ..v.screens
                    },
                ),
                r,
                ActiveView::RouteEditor,
            )
            &&& e == seq![EffectView::MountEditor]
        }
    }
}

/// Deleting route `i` and its scope's variables; the route now at its
/// place (or the last one) is selected.
pub open spec fn delete_route_post(v: TesterView, i: usize) -> (TesterView, Seq<EffectView>) {
    if v.screens.active_view != ActiveView::RouteList || i >= v.routes.len() {
        (v, Seq::empty())
    } else {
        let routes2 = v.routes.remove(i as int);
        let vars2 = VariablesView { scoped: v.vars.scoped.remove(v.routes[i as int].scope_id@), ..v.vars };
        let s = if routes2.len() == 0 {
            ScreensView { list_selection: None, ..v.screens }
        } else {
            route_selected(
                v.screens,
                routes2,
                if i < routes2.len() {
                    i as int
                } else {
                    routes2.len() - 1
                },
                true,
            )
        };
        (
            TesterView { routes: routes2, vars: vars2, screens: s, ..v },
            seq![
                EffectView::SaveCollection,
                EffectView::SaveVariables,
                EffectView::PersistRouteListState,
                EffectView::RefreshRouteList,
            ],
        )
    }
}

/// A failed run: the error, hidden values masked, is shown.
pub open spec fn failed_post(v: TesterView, r: Readings, i: usize, err: Seq<char>, n: TesterView, e: Seq<EffectView>) -> bool {
    exists|t: Seq<char>| masked(v.vars, route_scope(v, i), err, t) && (n, e) == executed_post(v, r, i, ResultView::Error(t))
}

/// The input mode changed, and the fields follow it.
pub open spec fn mode_post(v: TesterView, r: Readings, insert: bool) -> (TesterView, Seq<EffectView>) {
    let b = with_screens(
        v,
        ScreensView {
            input_mode: if insert {
                InputMode::Insert
            } else {
                InputMode::Normal
            },
            ..v.screens
        },
    );
    match v.screens.active_view {
        ActiveView::RouteEditor => (
            if insert {
                match r.focus {
                    Some(f) => match section_for(f) {
                        Some(k) => editor_showing(b, r, k),
                        None => b,
                    },
                    None => b,
                }
            } else {
                b
            },
            seq![EffectView::SyncEditorInputMode],
        ),
        ActiveView::VariableManager => (b, seq![EffectView::SyncVariableInputMode]),
        _ => (b, Seq::empty()),
    }
}

/// Focusing an editor field; the new group field is skipped unless the
/// group selector is on `New Group...`.
pub open spec fn focus_field_post(v: TesterView, r: Readings, id: Id) -> (TesterView, Seq<EffectView>) {
    let target = if id == Id::EditorNewGroup && !new_group_shown(v, r) {
        if r.focus == Some(Id::EditorMethod) {
            Id::EditorGroup
        } else {
            Id::EditorMethod
        }
    } else {
        id
    };
    (
        if v.screens.input_mode == InputMode::Insert {
            match section_for(target) {
                Some(k) => editor_showing(v, r, k),
                None => v,
            }
        } else {
            v
        },
        seq![EffectView::Focus(target)],
    )
}

/// Scrolling to the top.
pub open spec fn scroll_top_post(v: TesterView) -> TesterView {
    match v.screens.active_view {
        ActiveView::RouteEditor => with_editor_scroll(v, 0),
        ActiveView::RequestPreview => with_preview_scroll(v, 0),
        _ => v,
    }
}

/// Scrolling to the bottom: the last editor section, or the preview's
/// largest offset.
pub open spec fn scroll_bottom_post(v: TesterView, r: Readings) -> TesterView {
    match v.screens.active_view {
        ActiveView::RouteEditor => with_editor_scroll(
            v,
            if current_sections(v, r).len() > 0 {
                current_sections(v, r).len() - 1
            } else {
                0
            },
        ),
        ActiveView::RequestPreview => with_preview_scroll(v, r.preview_max_offset as int),
        _ => v,
    }
}

/// Storing the variable fields: a renamed variable's old name is dropped.
pub open spec fn var_saved(v: TesterView, r: Readings, n: TesterView, e: Seq<EffectView>) -> bool {
    let key = trim(r.variable_key@);
    if v.screens.active_view != ActiveView::VariableManager || key.len() == 0 {
        n == v && e.len() == 0
    } else {
        let scope = v.screens.scope;
        let vars1 = match v.screens.editing_variable {
            Some(o) => if o != key {
                var_deleted(v.vars, scope, o)
            } else {
                v.vars
            },
            None => v.vars,
        };
        let vars2 = var_added(vars1, scope, key, (r.variable_value@, r.variable_mode));
        let b = TesterView {
            vars: vars2,
            screens: ScreensView { input_mode: InputMode::Normal, editing_variable: None, ..v.screens },
            ..v
        };
        e.len() > 0 && e[0] == EffectView::SaveVariables && mounts_manager(b, r, n, e.skip(1))
    }
}

/// Deleting a variable of the scope shown.
pub open spec fn var_deleted_post(v: TesterView, r: Readings, key: Seq<char>, n: TesterView, e: Seq<EffectView>) -> bool {
    if v.screens.active_view != ActiveView::VariableManager {
        n == v && e.len() == 0
    } else {
        let b = TesterView {
            vars: var_deleted(v.vars, v.screens.scope, key),
            screens: ScreensView {
                editing_variable: if v.screens.editing_variable == Some(key) {
                    None
                } else {
                    v.screens.editing_variable
                },
                ..v.screens
            },
            ..v
        };
        e.len() > 0 && e[0] == EffectView::SaveVariables && mounts_manager(b, r, n, e.skip(1))
    }
}

/// The body the external editor returned: the editor's route takes it, or
/// the preview sends it (masked for display).
pub open spec fn body_result_post(v: TesterView, body: Option<Seq<char>>, n: TesterView) -> bool {
    match v.screens.active_view {
        ActiveView::RouteEditor => n == match v.screens.draft {
            Some(d) => with_screens(v, ScreensView { draft: Some(RouteView { body, ..d }), ..v.screens }),
            None => v,
        },
        ActiveView::RequestPreview => match v.screens.preview {
            Some(p) => exists|shown: Option<Seq<char>>| {
                &&& (match body {
                    Some(b) => shown matches Some(t) && masked(v.vars, Some(p.route_scope_id), b, t),
                    None => shown is None,
                })
                &&& n == with_screens(
                    v,
                    ScreensView {
                        preview: Some(PreviewView { execution_body: body, display_body: shown, ..p }),
                        ..v.screens
                    },
                )
            },
            None => n == v,
        },
        _ => n == v,
    }
}

pub open spec fn ok(e: Seq<EffectView>) -> Result<Seq<EffectView>, Seq<char>> {
    Ok(e)
}

/// What a message does outside the keymap help page.
pub open spec fn normal_post(v: TesterView, msg: Msg, r: Readings, n: TesterView, res: Result<Seq<EffectView>, Seq<char>>) -> bool {
    match msg {
        Msg::App(AppMsg::Close) => n == v && res == ok(seq![EffectView::Close]),
        Msg::App(AppMsg::NavigateBack) => res is Ok && navigate_post(v, r, true, n, res->Ok_0),
        Msg::App(AppMsg::NavigateForward) => res is Ok && navigate_post(v, r, false, n, res->Ok_0),
        Msg::App(AppMsg::SwitchView(view)) => if view == ActiveView::VariableManager {
            res is Ok && manager_opened(
                v,
                r,
                if v.screens.active_view == ActiveView::RouteEditor {
                    match v.screens.draft {
                        Some(d) => Some(d.scope_id),
                        None => None,
                    }
                } else {
                    None
                },
                n,
                res->Ok_0,
            )
        } else {
            n == switch_to(v, r, view) && res == ok(Seq::empty())
        },
        Msg::RouteList(RouteListMsg::RunRoute(i)) => (n, res) == (run_route_post(v, r, i).0, ok(run_route_post(v, r, i).1)),
        Msg::ResponseViewer(ResponseViewerMsg::RouteExecuted(i, resp)) => (n, res) == (
            executed_post(v, r, i, ResultView::Success(resp@)).0,
            ok(executed_post(v, r, i, ResultView::Success(resp@)).1),
        ),
        Msg::ResponseViewer(ResponseViewerMsg::RouteExecutionFailed(i, err)) => res is Ok && failed_post(v, r, i, err@, n, res->Ok_0),
        Msg::RouteList(RouteListMsg::EditRoute(i)) => (n, res) == (edit_route_post(v, r, i).0, ok(edit_route_post(v, r, i).1)),
        Msg::RouteList(RouteListMsg::NewRoute) => res is Ok && new_route_post(v, r, n, res->Ok_0),
        Msg::RouteList(RouteListMsg::DeleteRoute(i)) => (n, res) == (delete_route_post(v, i).0, ok(delete_route_post(v, i).1)),
        Msg::RouteList(RouteListMsg::StateChanged(state)) => n == with_screens(
            v,
            ScreensView {
                expanded_groups: strings_view(state.expanded_groups@),
                list_selection: opt_selection_view(state.selected),
                ..v.screens
            },
        ) && res == ok(seq![EffectView::PersistRouteListState]),
        Msg::App(AppMsg::OpenScopedVariables) => if v.screens.active_view == ActiveView::RouteEditor
            && v.screens.draft is Some {
            res is Ok && manager_opened(v, r, Some(v.screens.draft->Some_0.scope_id), n, res->Ok_0)
        } else {
            n == v && res == ok(Seq::empty())
        },
        Msg::App(AppMsg::ToggleSecretVisibility) => if v.screens.active_view == ActiveView::VariableManager {
            n == with_screens(v, ScreensView { secrets_visible: !v.screens.secrets_visible, ..v.screens })
                && res == ok(seq![EffectView::SyncVariableValueVisibility])
        } else {
            n == v && res == ok(Seq::empty())
        },
        Msg::VariableManager(VariableManagerMsg::ModeChanged(_)) => n == v && res == ok(
            if v.screens.active_view == ActiveView::VariableManager {
                seq![EffectView::SyncVariableValueVisibility]
            } else {
                Seq::empty()
            },
        ),
        Msg::App(AppMsg::ToggleKeymapHelp) => if v.screens.input_mode == InputMode::Normal {
            n == help_shown(v, r) && res == ok(seq![EffectView::Focus(Id::GlobalListener), EffectView::LockSubscriptions])
        } else {
            n == v && res == ok(Seq::empty())
        },
        Msg::VariableManager(VariableManagerMsg::Add) => if v.screens.active_view == ActiveView::VariableManager {
            n == with_screens(v, ScreensView { input_mode: InputMode::Normal, editing_variable: None, ..v.screens })
                && res == ok(
                seq![
                    EffectView::MountVariableInputs(Seq::empty(), Seq::empty(), VariableMode::Placeholder),
                    EffectView::Focus(Id::VariableKeyInput),
                ],
            )
        } else {
            n == v && res == ok(Seq::empty())
        },
        Msg::VariableManager(VariableManagerMsg::SelectionChanged(key)) => if v.screens.active_view
            == ActiveView::VariableManager {
            n == loaded(v, key@).0 && res == ok(loaded(v, key@).1.push(EffectView::Focus(Id::VariableTable)))
        } else {
            n == v && res == ok(Seq::empty())
        },
        Msg::VariableManager(VariableManagerMsg::Edit(key)) => if v.screens.active_view == ActiveView::VariableManager {
            let b = with_screens(v, ScreensView { input_mode: InputMode::Normal, ..v.screens });
            n == loaded(b, key@).0 && res == ok(loaded(b, key@).1.push(EffectView::Focus(Id::VariableKeyInput)))
        } else {
            n == v && res == ok(Seq::empty())
        },
        Msg::VariableManager(VariableManagerMsg::Save) => res is Ok && var_saved(v, r, n, res->Ok_0),
        Msg::VariableManager(VariableManagerMsg::Delete(key)) => res is Ok && var_deleted_post(v, r, key@, n, res->Ok_0),
        Msg::App(AppMsg::TerminalResize(w, h)) => n == resized(v, w, h) && res == ok(Seq::empty()),
        Msg::App(AppMsg::EnterInsertMode) => (n, res) == (mode_post(v, r, true).0, ok(mode_post(v, r, true).1)),
        Msg::App(AppMsg::EnterNormalMode) => (n, res) == (mode_post(v, r, false).0, ok(mode_post(v, r, false).1)),
        Msg::RouteEditor(RouteEditorMsg::FocusField(id)) => (n, res) == (
            focus_field_post(v, r, id).0,
            ok(focus_field_post(v, r, id).1),
        ),
        Msg::App(AppMsg::ScrollUp) => n == scrolled(v, r, -1) && res == ok(Seq::empty()),
        Msg::App(AppMsg::ScrollDown) => n == scrolled(v, r, 1) && res == ok(Seq::empty()),
        Msg::App(AppMsg::ScrollBy(d)) => n == scrolled(v, r, d as int) && res == ok(Seq::empty()),
        Msg::App(AppMsg::PageUp) => n == page_scrolled(v, r, -1) && res == ok(Seq::empty()),
        Msg::App(AppMsg::PageDown) => n == page_scrolled(v, r, 1) && res == ok(Seq::empty()),
        Msg::App(AppMsg::ScrollToTop) => n == scroll_top_post(v) && res == ok(Seq::empty()),
        Msg::App(AppMsg::ScrollToBottom) => n == scroll_bottom_post(v, r) && res == ok(Seq::empty()),
        Msg::RouteEditor(RouteEditorMsg::NewGroupEntered) => n == editor_showing(v, r, EditorSectionKind::Method)
            && res == ok(seq![EffectView::Focus(Id::EditorMethod)]),
        Msg::RouteEditor(RouteEditorMsg::Save) => editor_saved(v, r, n, res),
        Msg::App(AppMsg::OpenBodyEditor) => n == v && res == ok(
            if v.screens.active_view == ActiveView::RouteEditor || v.screens.active_view
                == ActiveView::RequestPreview {
                seq![EffectView::OpenBodyEditor]
            } else {
                Seq::empty()
            },
        ),
        Msg::RouteEditor(RouteEditorMsg::BodyEditorResult(body)) => body_result_post(
            v,
            match body {
                Some(b) => Some(b@),
                None => None,
            },
            n,
        ) && res == ok(Seq::empty()),
        Msg::RequestPreview(RequestPreviewMsg::Execute) => n == v && res == ok(
            if v.screens.active_view == ActiveView::RequestPreview && v.screens.preview is Some {
                seq![EffectView::ExecutePreviewRequest]
            } else {
                Seq::empty()
            },
        ),
        Msg::RouteEditor(RouteEditorMsg::MethodChanged(_)) => n == v && res == ok(Seq::empty()),
        Msg::RouteEditor(RouteEditorMsg::GroupSelected(_)) => n == v && res == ok(Seq::empty()),
    }
}

/// What a message does: on the keymap help page only closing, resizing,
/// scrolling and closing the page count; elsewhere see [`normal_post`].
pub open spec fn update_post(v: TesterView, msg: Msg, r: Readings, n: TesterView, res: Result<Seq<EffectView>, Seq<char>>) -> bool {
    if v.screens.active_view == ActiveView::KeymapHelp {
        (n, res) == (help_update(v, msg, r).0, ok(help_update(v, msg, r).1))
    } else {
        normal_post(v, msg, r, n, res)
    }
}

// ---------------------------------------------------------------------------
// Handlers of the messages
// ---------------------------------------------------------------------------

fn copy_str(s: &String) -> (r: String)
    ensures
        r@ == s@,
{
    s.clone()
}

impl ApiTester {
    fn run_route(&mut self, i: usize, r: &Readings) -> (e: Vec<ApiEffect>)
        requires
            old(self).wf(),
        ensures
            final(self).wf(),
            (final(self)@, effects_view(e@)) == run_route_post(old(self)@, *r, i),
    {
        let mut e: Vec<ApiEffect> = Vec::new();
        if self.screens.active_view != ActiveView::RouteList || i >= self.collection.routes.len() {
            proof {
                assert(effects_view(e@) =~= Seq::<EffectView>::empty());
            }
            return e;
        }
        let ghost v = self@;
        self.screens.selected_route = Some(i);
        self.select_route(i, true);
        push_effect(&mut e, ApiEffect::PersistRouteListState);
        let p = build_request_preview_state(&self.variables, &self.collection.routes, i);
        proof {
            lemma_preview_view(p->Some_0, i, self.collection.routes@[i as int]@, self.variables@);
        }
        self.screens.preview = p;
        self.screens.input_mode = InputMode::Normal;
        self.screens.preview_scroll = 0;
        proof {
            let s1 = route_selected(v.screens, v.routes, i as int, true);
            assert(self@ =~= with_screens(
                v,
                ScreensView {
                    selected_route: Some(i),
                    preview: Some(preview_for(i, v.routes[i as int]@, v.vars)),
                    input_mode: InputMode::Normal,
                    preview_scroll: 0,
                    ..s1
                },
            ));
        }
        self.switch_view(ActiveView::RequestPreview, r);
        proof {
            assert(effects_view(e@) =~= seq![EffectView::PersistRouteListState]);
        }
        e
    }

    fn show_response(&mut self, i: usize, resp: ResponseViewerResult, r: &Readings) -> (e: Vec<ApiEffect>)
        requires
            old(self).wf(),
        ensures
            final(self).wf(),
            (final(self)@, effects_view(e@)) == executed_post(old(self)@, *r, i, crate::api_screens::result_view(resp)),
    {
        let mut e: Vec<ApiEffect> = Vec::new();
        self.screens.selected_route = Some(i);
        self.screens.response = Some(resp);
        self.screens.input_mode = InputMode::Normal;
        push_effect(&mut e, ApiEffect::MountResponseViewer);
        proof {
            assert(self@ =~= with_screens(
                old(self)@,
                ScreensView {
                    selected_route: Some(i),
                    response: Some(crate::api_screens::result_view(resp)),
                    input_mode: InputMode::Normal,
                    ..old(self)@.screens
                },
            ));
            assert(effects_view(e@) =~= seq![EffectView::MountResponseViewer]);
        }
        self.switch_view(ActiveView::ResponseViewer, r);
        e
    }

    fn edit_route(&mut self, i: usize, r: &Readings) -> (e: Vec<ApiEffect>)
        requires
            old(self).wf(),
        ensures
            final(self).wf(),
            (final(self)@, effects_view(e@)) == edit_route_post(old(self)@, *r, i),
    {
        let mut e: Vec<ApiEffect> = Vec::new();
        if self.screens.active_view != ActiveView::RouteList || i >= self.collection.routes.len() {
            proof {
                assert(effects_view(e@) =~= Seq::<EffectView>::empty());
            }
            return e;
        }
        let ghost v = self@;
        let route = self.collection.routes[i].duplicate();
        self.select_route(i, true);
        push_effect(&mut e, ApiEffect::PersistRouteListState);
        self.screens.editing_route = Some(i);
        self.screens.draft = Some(route);
        self.screens.input_mode = InputMode::Normal;
        self.screens.editor_scroll = 0;
        push_effect(&mut e, ApiEffect::MountEditor);
        proof {
            let s1 = route_selected(v.screens, v.routes, i as int, true);
            assert(self@ =~= with_screens(
                v,
                ScreensView {
                    editing_route: Some(i),
                    draft: Some(v.routes[i as int]@),
                    input_mode: InputMode::Normal,
                    editor_scroll: 0,
                    ..s1
                },
            ));
            assert(effects_view(e@) =~= seq![EffectView::PersistRouteListState, EffectView::MountEditor]);
        }
        self.switch_view(ActiveView::RouteEditor, r);
        e
    }

    fn new_route(&mut self, r: &Readings) -> (e: Vec<ApiEffect>)
        requires
            old(self).wf(),
        ensures
            final(self).wf(),
            new_route_post(old(self)@, *r, final(self)@, effects_view(e@)),
    {
        let mut e: Vec<ApiEffect> = Vec::new();
        if self.screens.active_view != ActiveView::RouteList {
            proof {
                assert(effects_view(e@) =~= Seq::<EffectView>::empty());
            }
            return e;
        }
        let ghost v = self@;
        let scope = self.collection.new_scope_id();
        let route = Route {
            group: crate::collection::default_route_group(),
            scope_id: scope,
            name: String::new(),
            method: HttpMethod::Get,
            url: String::new(),
            headers: Vec::new(),
            body: None,
        };
        proof {
            assert(route@.headers =~= Seq::<Seq<char>>::empty());
        }
        self.screens.editing_route = None;
        self.screens.draft = Some(route);
        self.screens.input_mode = InputMode::Normal;
        self.screens.editor_scroll = 0;
        push_effect(&mut e, ApiEffect::MountEditor);
        let ghost b = self@;
        self.switch_view(ActiveView::RouteEditor, r);
        proof {
            let sc = route@.scope_id;
            assert(b =~= with_screens(
                v,
                ScreensView {
                    editing_route: None,
                    draft: Some(
                        RouteView {
                            group: default_group_text(),
                            scope_id: sc,
                            name: Seq::empty(),
                            method: HttpMethod::Get,
                            url: Seq::empty(),
                            headers: Seq::empty(),
                            body: None,
                        },
                    ),
                    input_mode: InputMode::Normal,
                    editor_scroll: 0,
                    ..v.screens
                },
            ));
            assert(effects_view(e@) =~= seq![EffectView::MountEditor]);
        }
        e
    }

    fn delete_route(&mut self, i: usize) -> (e: Vec<ApiEffect>)
        requires
            old(self).wf(),
        ensures
            final(self).wf(),
            (final(self)@, effects_view(e@)) == delete_route_post(old(self)@, i),
    {
        let mut e: Vec<ApiEffect> = Vec::new();
        if self.screens.active_view != ActiveView::RouteList || i >= self.collection.routes.len() {
            proof {
                assert(effects_view(e@) =~= Seq::<EffectView>::empty());
            }
            return e;
        }
        let ghost v = self@;
        let scope = copy_str(&self.collection.routes[i].scope_id);
        let _ = self.collection.delete_route(i);
        push_effect(&mut e, ApiEffect::SaveCollection);
        self.variables.delete_scope(scope.as_str());
        push_effect(&mut e, ApiEffect::SaveVariables);
        let len = self.collection.routes.len();
        if len == 0 {
            self.screens.list_state.selected = None;
        } else {
            let next = if i < len {
                i
            } else {
                len - 1
            };
            self.select_route(next, true);
        }
        push_effect(&mut e, ApiEffect::PersistRouteListState);
        push_effect(&mut e, ApiEffect::RefreshRouteList);
        proof {
            let (n2, e2) = delete_route_post(v, i);
            assert(self@.vars =~= n2.vars);
            assert(self@ =~= n2);
            assert(effects_view(e@) =~= e2);
        }
        e
    }
}

impl ApiTester {
    /// Deletes a variable from the scope shown.
    fn delete_variable(&mut self, key: &str)
        requires
            old(self).wf(),
        ensures
            final(self).wf(),
            final(self)@ == (TesterView { vars: var_deleted(old(self)@.vars, old(self)@.screens.scope, key@), ..old(self)@ }),
    {
        match &self.screens.context {
            VariableContext::Scoped { scope_id } => {
                let sc = copy_str(scope_id);
                self.variables.scoped_delete(sc.as_str(), key);
            },
            VariableContext::Global => {
                self.variables.delete(key);
            },
        }
        proof {
            assert(self@.vars =~= var_deleted(old(self)@.vars, old(self)@.screens.scope, key@));
        }
    }

    fn save_variable(&mut self, r: &Readings) -> (e: Vec<ApiEffect>)
        requires
            old(self).wf(),
        ensures
            final(self).wf(),
            var_saved(old(self)@, *r, final(self)@, effects_view(e@)),
    {
        let mut e: Vec<ApiEffect> = Vec::new();
        let key = crate::text::trim_string(r.variable_key.as_str());
        if self.screens.active_view != ActiveView::VariableManager || key.unicode_len() == 0 {
            proof {
                assert(effects_view(e@) =~= Seq::<EffectView>::empty());
            }
            return e;
        }
        let ghost v = self@;
        let previous = match &self.screens.editing_variable {
            Some(o) => Some(copy_str(o)),
            None => None,
        };
        self.screens.editing_variable = None;
        match previous {
            Some(o) => {
                let same = crate::text::chars_equal(&crate::text::string_chars(&o), &crate::text::string_chars(&key));
                if !same {
                    self.delete_variable(o.as_str());
                }
            },
            None => {},
        }
        let value = copy_str(&r.variable_value);
        match &self.screens.context {
            VariableContext::Scoped { scope_id } => {
                let sc = copy_str(scope_id);
                self.variables.scoped_add_with_mode(sc.as_str(), key, value, r.variable_mode);
            },
            VariableContext::Global => {
                self.variables.add_with_mode(key, value, r.variable_mode);
            },
        }
        push_effect(&mut e, ApiEffect::SaveVariables);
        self.screens.input_mode = InputMode::Normal;
        self.screens.editing_variable = None;
        let ghost b = self@;
        proof {
            let k = trim(r.variable_key@);
            let scope = v.screens.scope;
            let vars1 = match v.screens.editing_variable {
                Some(o) => if o != k {
                    var_deleted(v.vars, scope, o)
                } else {
                    v.vars
                },
                None => v.vars,
            };
            assert(b.vars =~= var_added(vars1, scope, k, (r.variable_value@, r.variable_mode)));
            assert(b =~= (TesterView {
                vars: var_added(vars1, scope, k, (r.variable_value@, r.variable_mode)),
                screens: ScreensView { input_mode: InputMode::Normal, editing_variable: None, ..v.screens },
                ..v
            }));
        }
        let ghost e1 = effects_view(e@);
        proof {
            assert(e1 =~= seq![EffectView::SaveVariables]);
        }
        self.mount_variable_manager(r, &mut e);
        proof {
            let ev = effects_view(e@);
            assert(ev.skip(1).len() > 0);
            assert(ev.len() > 1);
            assert(ev.take(1) == e1);
            assert(ev[0] == ev.take(1)[0]);
            assert(ev[0] == EffectView::SaveVariables);
        }
        e
    }

    fn remove_variable(&mut self, key: String, r: &Readings) -> (e: Vec<ApiEffect>)
        requires
            old(self).wf(),
        ensures
            final(self).wf(),
            var_deleted_post(old(self)@, *r, key@, final(self)@, effects_view(e@)),
    {
        let mut e: Vec<ApiEffect> = Vec::new();
        if self.screens.active_view != ActiveView::VariableManager {
            proof {
                assert(effects_view(e@) =~= Seq::<EffectView>::empty());
            }
            return e;
        }
        let ghost v = self@;
        self.delete_variable(key.as_str());
        push_effect(&mut e, ApiEffect::SaveVariables);
        let clear = match &self.screens.editing_variable {
            Some(o) => crate::text::chars_equal(&crate::text::string_chars(o), &crate::text::string_chars(&key)),
            None => false,
        };
        if clear {
            self.screens.editing_variable = None;
        }
        proof {
            assert(self@ =~= (TesterView {
                vars: var_deleted(v.vars, v.screens.scope, key@),
                screens: ScreensView {
                    editing_variable: if v.screens.editing_variable == Some(key@) {
                        None
                    } else {
                        v.screens.editing_variable
                    },
                    ..v.screens
                },
                ..v
            }));
        }
        let ghost e1 = effects_view(e@);
        proof {
            assert(e1 =~= seq![EffectView::SaveVariables]);
        }
        self.mount_variable_manager(r, &mut e);
        proof {
            let ev = effects_view(e@);
            assert(ev.skip(1).len() > 0);
            assert(ev.len() > 1);
            assert(ev.take(1) == e1);
            assert(ev[0] == ev.take(1)[0]);
            assert(ev[0] == EffectView::SaveVariables);
        }
        e
    }

    fn set_mode(&mut self, insert: bool, r: &Readings) -> (e: Vec<ApiEffect>)
        requires
            old(self).wf(),
        ensures
            final(self).wf(),
            (final(self)@, effects_view(e@)) == mode_post(old(self)@, *r, insert),
    {
        let mut e: Vec<ApiEffect> = Vec::new();
        self.screens.input_mode = if insert {
            InputMode::Insert
        } else {
            InputMode::Normal
        };
        match self.screens.active_view {
            ActiveView::RouteEditor => {
                if insert {
                    match r.focus {
                        Some(f) => match section_kind_for(f) {
                            Some(k) => {
                                self.show_section(k, r);
                            },
                            None => {},
                        },
                        None => {},
                    }
                }
                push_effect(&mut e, ApiEffect::SyncEditorInputMode);
            },
            ActiveView::VariableManager => {
                push_effect(&mut e, ApiEffect::SyncVariableInputMode);
            },
            _ => {},
        }
        proof {
            let (n2, e2) = mode_post(old(self)@, *r, insert);
            assert(self@ =~= n2);
            assert(effects_view(e@) =~= e2);
        }
        e
    }

    fn focus_field(&mut self, id: Id, r: &Readings) -> (e: Vec<ApiEffect>)
        requires
            old(self).wf(),
        ensures
            final(self).wf(),
            (final(self)@, effects_view(e@)) == focus_field_post(old(self)@, *r, id),
    {
        let mut e: Vec<ApiEffect> = Vec::new();
        let names = sorted_group_names(&self.collection);
        let shown = match r.editor.group_index {
            Some(i) => i >= names.len(),
            None => false,
        };
        let target = if id == Id::EditorNewGroup && !shown {
            if r.focus == Some(Id::EditorMethod) {
                Id::EditorGroup
            } else {
                Id::EditorMethod
            }
        } else {
            id
        };
        push_effect(&mut e, ApiEffect::Focus(target));
        if self.screens.input_mode == InputMode::Insert {
            match section_kind_for(target) {
                Some(k) => {
                    self.show_section(k, r);
                },
                None => {},
            }
        }
        proof {
            assert(effects_view(e@) =~= seq![EffectView::Focus(target)]);
        }
        e
    }
}

/// The editor's section of a component.
pub fn section_kind_for(id: Id) -> (r: Option<EditorSectionKind>)
    ensures
        r == section_for(id),
{
    match id {
        Id::EditorName => Some(EditorSectionKind::Name),
        Id::EditorGroup => Some(EditorSectionKind::Group),
        Id::EditorNewGroup => Some(EditorSectionKind::NewGroup),
        Id::EditorMethod => Some(EditorSectionKind::Method),
        Id::EditorUrl => Some(EditorSectionKind::Url),
        Id::EditorHeaders => Some(EditorSectionKind::Headers),
        _ => None,
    }
}

/// The result of a message, by content.
pub open spec fn result_view(res: Result<Vec<ApiEffect>, String>) -> Result<Seq<EffectView>, Seq<char>> {
    match res {
        Ok(e) => Ok(effects_view(e@)),
        Err(m) => Err(m@),
    }
}

impl ApiTester {
    fn save_editor(&mut self, r: &Readings) -> (res: Result<Vec<ApiEffect>, String>)
        requires
            old(self).wf(),
        ensures
            final(self).wf(),
            editor_saved(old(self)@, *r, final(self)@, result_view(res)),
    {
        let mut e: Vec<ApiEffect> = Vec::new();
        if self.screens.active_view != ActiveView::RouteEditor {
            proof {
                assert(effects_view(e@) =~= Seq::<EffectView>::empty());
            }
            return Ok(e);
        }
        let ghost v = self@;
        let names = sorted_group_names(&self.collection);
        let group = editor_group(&names, r.editor.group_index, r.editor.new_group.as_str());
        let method = match r.editor.method_index {
            Some(i) => method_for_index(i),
            None => method_for_index(0),
        };
        let headers = parse_header_input(r.editor.headers.as_str());
        let body = match &self.screens.draft {
            Some(d) => crate::collection::copy_opt_string(&d.body),
            None => None,
        };
        let scope = match &self.screens.draft {
            Some(d) => copy_str(&d.scope_id),
            None => self.collection.new_scope_id(),
        };
        let route = Route {
            group,
            scope_id: scope,
            name: copy_str(&r.editor.name),
            method,
            url: copy_str(&r.editor.url),
            headers,
            body,
        };
        let ghost sc = route@.scope_id;
        proof {
            assert(route@ == edited_route(v, *r, sc));
        }
        let idx = match self.screens.editing_route {
            Some(i) => {
                match self.collection.update_route(i, route) {
                    Ok(()) => i,
                    Err(m) => {
                        proof {
                            assert(self@ == v);
                            assert(saved_with_scope(v, *r, self@, Err(m@), sc));
                        }
                        return Err(m);
                    },
                }
            },
            None => {
                self.collection.add_route(route);
                self.collection.routes.len() - 1
            },
        };
        let ghost routes2 = self.collection.routes@;
        proof {
            assert(stored_into(v.routes, v.screens.editing_route, edited_route(v, *r, sc), routes2));
        }
        self.select_route(idx, true);
        push_effect(&mut e, ApiEffect::SaveCollection);
        push_effect(&mut e, ApiEffect::PersistRouteListState);
        self.screens.input_mode = InputMode::Normal;
        proof {
            let s1 = ScreensView { input_mode: InputMode::Normal, ..route_selected(v.screens, routes2, idx as int, true) };
            assert(self@ =~= (TesterView { routes: routes2, screens: s1, ..v }));
        }
        self.switch_view(ActiveView::RouteList, r);
        self.screens.editing_route = None;
        self.screens.draft = None;
        self.screens.editor_scroll = 0;
        push_effect(&mut e, ApiEffect::RefreshRouteList);
        proof {
            assert(self@ =~= after_editor_save(v, *r, routes2));
            assert(effects_view(e@) =~= seq![
                EffectView::SaveCollection,
                EffectView::PersistRouteListState,
                EffectView::RefreshRouteList,
            ]);
            assert(saved_with_scope(v, *r, self@, Ok(effects_view(e@)), sc));
        }
        Ok(e)
    }

    fn body_result(&mut self, body: Option<String>)
        requires
            old(self).wf(),
        ensures
            final(self).wf(),
            body_result_post(
                old(self)@,
                match body {
                    Some(b) => Some(b@),
                    None => None,
                },
                final(self)@,
            ),
    {
        let ghost v = self@;
        let ghost bv = crate::collection::opt_string_view(body);
        match self.screens.active_view {
            ActiveView::RouteEditor => {
                match &mut self.screens.draft {
                    Some(d) => {
                        d.body = body;
                    },
                    None => {},
                }
                proof {
                    match v.screens.draft {
                        Some(d) => {
                            assert(self@ =~= with_screens(v, ScreensView { draft: Some(RouteView { body: bv, ..d }), ..v.screens }));
                        },
                        None => {},
                    }
                }
            },
            ActiveView::RequestPreview => {
                let shown = match &self.screens.preview {
                    Some(p) => match &body {
                        Some(b) => Some(self.variables.redact_hidden_values_with_scope(b.as_str(), Some(p.route_scope_id.as_str()))),
                        None => None,
                    },
                    None => None,
                };
                let ghost sv = crate::collection::opt_string_view(shown);
                match &mut self.screens.preview {
                    Some(p) => {
                        p.execution_body = body;
                        p.display_body = shown;
                    },
                    None => {},
                }
                proof {
                    match v.screens.preview {
                        Some(p) => {
                            assert(self@ =~= with_screens(
                                v,
                                ScreensView {
                                    preview: Some(PreviewView { execution_body: bv, display_body: sv, ..p }),
                                    ..v.screens
                                },
                            ));
                        },
                        None => {},
                    }
                }
            },
            _ => {},
        }
    }
}

// ---------------------------------------------------------------------------
// Navigation handlers
// ---------------------------------------------------------------------------

proof fn lemma_preview_view(p: RequestPreview, index: usize, r: RouteView, v: VariablesView)
    requires
        crate::preview_state::preview_matches(p, index, r, v),
    ensures
        crate::api_screens::preview_view(p) == preview_for(index, r, v),
{
    assert(crate::api_screens::preview_view(p) =~= preview_for(index, r, v));
}

impl ApiTester {
    /// Restores the screens after the history moved.
    fn restore(&mut self, r: &Readings, e: &mut Vec<ApiEffect>)
        requires
            old(self).wf(),
            old(e)@.len() == 0,
        ensures
            final(self).wf(),
            restores(old(self)@, *r, final(self)@, effects_view(final(e)@)),
    {
        let ghost b = self@;
        let focus = self.screens.focus;
        match self.screens.active_view {
            ActiveView::RouteList => {
                push_effect(e, ApiEffect::RefreshRouteList);
                push_effect(e, ApiEffect::Focus(Id::RouteList));
            },
            ActiveView::RouteEditor => {
                if self.screens.draft.is_some() {
                    push_effect(e, ApiEffect::MountEditor);
                }
                push_effect(e, ApiEffect::SyncEditorInputMode);
            },
            ActiveView::ResponseViewer => {
                push_effect(e, ApiEffect::MountResponseViewer);
            },
            ActiveView::VariableManager => {
                let editing = match &self.screens.editing_variable {
                    Some(k) => Some(k.clone()),
                    None => None,
                };
                self.mount_variable_manager(r, e);
                let ghost m = self@;
                let ghost e1 = effects_view(e@);
                match editing {
                    Some(k) => {
                        self.load_variable_into_inputs(k.as_str(), e);
                        self.screens.editing_variable = Some(k);
                    },
                    None => {},
                }
                push_effect(e, ApiEffect::SyncVariableInputMode);
                proof {
                    assert(effects_view(e@).take(0) =~= Seq::<EffectView>::empty());
                    assert(e1.skip(0) =~= e1);
                }
            },
            _ => {},
        }
        match focus {
            Some(f) => {
                push_effect(e, ApiEffect::FocusIfMounted(f));
            },
            None => {},
        }
        proof {
            let ev = effects_view(e@);
            match b.screens.active_view {
                ActiveView::VariableManager => {
                    let rows = ev[0]->MountVariableManager_0;
                    let (n2, e2) = restored_manager(b, rows);
                    assert(self@ =~= n2);
                    assert(ev =~= e2);
                },
                ActiveView::RouteList => {
                    assert(ev =~= seq![EffectView::RefreshRouteList, EffectView::Focus(Id::RouteList)] + focus_tail(b.screens.focus));
                },
                ActiveView::RouteEditor => {
                    assert(ev =~= (if b.screens.draft is Some {
                        seq![EffectView::MountEditor]
                    } else {
                        Seq::empty()
                    }) + seq![EffectView::SyncEditorInputMode] + focus_tail(b.screens.focus));
                },
                ActiveView::ResponseViewer => {
                    assert(ev =~= seq![EffectView::MountResponseViewer] + focus_tail(b.screens.focus));
                },
                _ => {
                    assert(ev =~= focus_tail(b.screens.focus));
                },
            }
        }
    }

    /// Goes back (or forward) in the history.
    fn navigate(&mut self, back: bool, r: &Readings) -> (e: Vec<ApiEffect>)
        requires
            old(self).wf(),
        ensures
            final(self).wf(),
            navigate_post(old(self)@, *r, back, final(self)@, effects_view(e@)),
    {
        let mut e: Vec<ApiEffect> = Vec::new();
        let len = self.history.entries.len();
        let can = if back {
            len > 0 && self.history.index > 0
        } else {
            len > 0 && self.history.index + 1 < len
        };
        if !can {
            proof {
                assert(effects_view(e@) =~= Seq::<EffectView>::empty());
            }
            return e;
        }
        let ghost v = self@;
        if is_history_view(self.screens.active_view) {
            self.capture(r);
            replace_current_screens(&mut self.history, &self.screens);
        }
        proof {
            assert(snapshots_view(self.history.entries@).len() == self.history.entries@.len());
            assert(snapshots_view(old(self).history.entries@).len() == old(self).history.entries@.len());
            assert(self.history.entries@.len() == len);
        }
        if back {
            self.history.index = self.history.index - 1;
        } else {
            self.history.index = self.history.index + 1;
        }
        let snap = current_snapshot(&self.history);
        self.screens = snap;
        proof {
            let keep = history_view(v.screens.active_view);
            let s1 = if keep {
                captured(v.screens, v.routes, *r)
            } else {
                v.screens
            };
            let h1 = if keep {
                v.history.update(v.index as int, s1)
            } else {
                v.history
            };
            assert(self@.history == h1);
            assert(self@ =~= (TesterView { screens: h1[self.history.index as int], history: h1, index: self.history.index, ..v }));
        }
        self.restore(r, &mut e);
        e
    }

    /// Opens the variable manager on the globals or on a scope.
    fn open_manager(&mut self, scope: Option<String>, r: &Readings) -> (e: Vec<ApiEffect>)
        requires
            old(self).wf(),
        ensures
            final(self).wf(),
            manager_opened(old(self)@, *r, crate::collection::opt_string_view(scope), final(self)@, effects_view(e@)),
    {
        let mut e: Vec<ApiEffect> = Vec::new();
        self.screens.input_mode = InputMode::Normal;
        self.screens.editing_variable = None;
        self.screens.context = match scope {
            Some(sc) => VariableContext::Scoped { scope_id: sc },
            None => VariableContext::Global,
        };
        self.mount_variable_manager(r, &mut e);
        proof {
            assert(effects_view(e@).skip(0) =~= effects_view(e@));
        }
        self.switch_view(ActiveView::VariableManager, r);
        e
    }

    /// Selects route `i` in the route list.
    fn select_route(&mut self, i: usize, expand: bool)
        requires
            i < old(self).collection.routes@.len(),
        ensures
            final(self)@ == with_screens(old(self)@, route_selected(old(self)@.screens, old(self)@.routes, i as int, expand)),
            final(self).wf() == old(self).wf(),
    {
        self.screens.list_state.select_route(&self.collection.routes, i, expand);
        proof {
            assert(self@ =~= with_screens(old(self)@, route_selected(old(self)@.screens, old(self)@.routes, i as int, expand)));
        }
    }
}

// ---------------------------------------------------------------------------
// The dispatcher
// ---------------------------------------------------------------------------

fn none_effects() -> (e: Vec<ApiEffect>)
    ensures
        effects_view(e@) == Seq::<EffectView>::empty(),
{
    let e: Vec<ApiEffect> = Vec::new();
    proof {
        assert(effects_view(e@) =~= Seq::<EffectView>::empty());
    }
    e
}

fn one_effect(x: ApiEffect) -> (e: Vec<ApiEffect>)
    ensures
        effects_view(e@) == seq![x@],
{
    let mut e: Vec<ApiEffect> = Vec::new();
    push_effect(&mut e, x);
    proof {
        assert(effects_view(e@) =~= seq![x@]);
    }
    e
}

impl ApiTester {
    /// Handles a message; returns the work for the interface, or the error
    /// that stopped it.
    pub fn update(&mut self, msg: Msg, r: &Readings) -> (res: Result<Vec<ApiEffect>, String>)
        requires
            old(self).wf(),
            r.keymap_max_offset <= isize::MAX,
            r.preview_max_offset <= isize::MAX,
        ensures
            final(self).wf(),
            update_post(old(self)@, msg, *r, final(self)@, result_view(res)),
    {
        if self.screens.active_view == ActiveView::KeymapHelp {
            return Ok(self.help_message(msg, r));
        }
        match msg {
            Msg::App(m) => self.app_message(m, r),
            Msg::RouteList(m) => self.route_list_message(m, r),
            Msg::ResponseViewer(m) => self.response_message(m, r),
            Msg::VariableManager(m) => self.variable_message(m, r),
            Msg::RouteEditor(m) => self.editor_message(m, r),
            Msg::RequestPreview(m) => self.preview_message(m, r),
        }
    }

    #[verifier::rlimit(40)]
    fn app_message(&mut self, m: AppMsg, r: &Readings) -> (res: Result<Vec<ApiEffect>, String>)
        requires
            old(self).wf(),
            old(self).screens.active_view != ActiveView::KeymapHelp,
            r.keymap_max_offset <= isize::MAX,
            r.preview_max_offset <= isize::MAX,
        ensures
            final(self).wf(),
            normal_post(old(self)@, Msg::App(m), *r, final(self)@, result_view(res)),
    {
        let ghost v = self@;
        match m {
            AppMsg::Close => Ok(one_effect(ApiEffect::Close)),
            AppMsg::NavigateBack => Ok(self.navigate(true, r)),
            AppMsg::NavigateForward => Ok(self.navigate(false, r)),
            AppMsg::SwitchView(view) => {
                if view == ActiveView::VariableManager {
                    let scope = if self.screens.active_view == ActiveView::RouteEditor {
                        match &self.screens.draft {
                            Some(d) => Some(copy_str(&d.scope_id)),
                            None => None,
                        }
                    } else {
                        None
                    };
                    Ok(self.open_manager(scope, r))
                } else {
                    self.switch_view(view, r);
                    Ok(none_effects())
                }
            },
            AppMsg::OpenScopedVariables => {
                if self.screens.active_view != ActiveView::RouteEditor {
                    return Ok(none_effects());
                }
                let scope = match &self.screens.draft {
                    Some(d) => copy_str(&d.scope_id),
                    None => {
                        return Ok(none_effects());
                    },
                };
                Ok(self.open_manager(Some(scope), r))
            },
            AppMsg::ToggleSecretVisibility => {
                if self.screens.active_view == ActiveView::VariableManager {
                    self.screens.secrets_visible = !self.screens.secrets_visible;
                    Ok(one_effect(ApiEffect::SyncVariableValueVisibility))
                } else {
                    Ok(none_effects())
                }
            },
            AppMsg::ToggleKeymapHelp => {
                if self.screens.input_mode == InputMode::Normal {
                    let ghost before = self@;
                    let view = self.keymap_help.open(self.screens.active_view);
                    self.screens.active_view = view;
                    self.help_focus = match r.focus {
                        Some(id) => if id == Id::GlobalListener {
                            None
                        } else {
                            Some(id)
                        },
                        None => None,
                    };
                    let mut e = one_effect(ApiEffect::Focus(Id::GlobalListener));
                    push_effect(&mut e, ApiEffect::LockSubscriptions);
                    proof {
                        assert(self@ =~= help_shown(v, *r));
                        assert(effects_view(e@) =~= seq![EffectView::Focus(Id::GlobalListener), EffectView::LockSubscriptions]);
                    }
                    Ok(e)
                } else {
                    Ok(none_effects())
                }
            },
            AppMsg::TerminalResize(w, h) => {
                self.resize(w, h);
                Ok(none_effects())
            },
            AppMsg::EnterInsertMode => Ok(self.set_mode(true, r)),
            AppMsg::EnterNormalMode => Ok(self.set_mode(false, r)),
            AppMsg::ScrollUp => {
                self.scroll_by(-1, r);
                Ok(none_effects())
            },
            AppMsg::ScrollDown => {
                self.scroll_by(1, r);
                Ok(none_effects())
            },
            AppMsg::ScrollBy(d) => {
                self.scroll_by(d, r);
                Ok(none_effects())
            },
            AppMsg::PageUp => {
                self.scroll_page(-1, r);
                Ok(none_effects())
            },
            AppMsg::PageDown => {
                self.scroll_page(1, r);
                Ok(none_effects())
            },
            AppMsg::ScrollToTop => {
                match self.screens.active_view {
                    ActiveView::RouteEditor => {
                        self.screens.editor_scroll = 0;
                    },
                    ActiveView::RequestPreview => {
                        self.screens.preview_scroll = 0;
                    },
                    _ => {},
                }
                proof {
                    assert(self@ =~= scroll_top_post(v));
                }
                Ok(none_effects())
            },
            AppMsg::ScrollToBottom => {
                match self.screens.active_view {
                    ActiveView::RouteEditor => {
                        let sections = self.editor_sections_now(r);
                        self.screens.editor_scroll = if sections.len() > 0 {
                            sections.len() - 1
                        } else {
                            0
                        };
                    },
                    ActiveView::RequestPreview => {
                        self.screens.preview_scroll = r.preview_max_offset;
                    },
                    _ => {},
                }
                proof {
                    assert(self@ =~= scroll_bottom_post(v, *r));
                }
                Ok(none_effects())
            },
            AppMsg::OpenBodyEditor => {
                if self.screens.active_view == ActiveView::RouteEditor || self.screens.active_view
                    == ActiveView::RequestPreview {
                    Ok(one_effect(ApiEffect::OpenBodyEditor))
                } else {
                    Ok(none_effects())
                }
            },
        }
    }

    #[verifier::rlimit(40)]
    fn route_list_message(&mut self, m: RouteListMsg, r: &Readings) -> (res: Result<Vec<ApiEffect>, String>)
        requires
            old(self).wf(),
            old(self).screens.active_view != ActiveView::KeymapHelp,
            r.keymap_max_offset <= isize::MAX,
            r.preview_max_offset <= isize::MAX,
        ensures
            final(self).wf(),
            normal_post(old(self)@, Msg::RouteList(m), *r, final(self)@, result_view(res)),
    {
        let ghost v = self@;
        match m {
            RouteListMsg::RunRoute(i) => Ok(self.run_route(i, r)),
            RouteListMsg::EditRoute(i) => Ok(self.edit_route(i, r)),
            RouteListMsg::NewRoute => Ok(self.new_route(r)),
            RouteListMsg::DeleteRoute(i) => Ok(self.delete_route(i)),
            RouteListMsg::StateChanged(state) => {
                self.screens.list_state = state;
                proof {
                    assert(self@ =~= with_screens(
                        v,
                        ScreensView {
                            expanded_groups: strings_view(self.screens.list_state.expanded_groups@),
                            list_selection: opt_selection_view(self.screens.list_state.selected),
                            ..v.screens
                        },
                    ));
                }
                Ok(one_effect(ApiEffect::PersistRouteListState))
            },
        }
    }

    #[verifier::rlimit(40)]
    fn response_message(&mut self, m: ResponseViewerMsg, r: &Readings) -> (res: Result<Vec<ApiEffect>, String>)
        requires
            old(self).wf(),
            old(self).screens.active_view != ActiveView::KeymapHelp,
            r.keymap_max_offset <= isize::MAX,
            r.preview_max_offset <= isize::MAX,
        ensures
            final(self).wf(),
            normal_post(old(self)@, Msg::ResponseViewer(m), *r, final(self)@, result_view(res)),
    {
        let ghost v = self@;
        match m {
            ResponseViewerMsg::RouteExecuted(i, resp) => {
                Ok(self.show_response(i, ResponseViewerResult::Success(resp), r))
            },
            ResponseViewerMsg::RouteExecutionFailed(i, err) => {
                let scope = if i < self.collection.routes.len() {
                    Some(copy_str(&self.collection.routes[i].scope_id))
                } else {
                    None
                };
                let shown = match &scope {
                    Some(sc) => self.variables.redact_hidden_values_with_scope(err.as_str(), Some(sc.as_str())),
                    None => self.variables.redact_hidden_values_with_scope(err.as_str(), None),
                };
                let ghost t = shown@;
                let e = self.show_response(i, ResponseViewerResult::Error(shown), r);
                proof {
                    assert(masked(v.vars, route_scope(v, i), err@, t));
                }
                Ok(e)
            },
        }
    }

    #[verifier::rlimit(40)]
    fn variable_message(&mut self, m: VariableManagerMsg, r: &Readings) -> (res: Result<Vec<ApiEffect>, String>)
        requires
            old(self).wf(),
            old(self).screens.active_view != ActiveView::KeymapHelp,
            r.keymap_max_offset <= isize::MAX,
            r.preview_max_offset <= isize::MAX,
        ensures
            final(self).wf(),
            normal_post(old(self)@, Msg::VariableManager(m), *r, final(self)@, result_view(res)),
    {
        let ghost v = self@;
        match m {
            VariableManagerMsg::ModeChanged(_) => {
                if self.screens.active_view == ActiveView::VariableManager {
                    Ok(one_effect(ApiEffect::SyncVariableValueVisibility))
                } else {
                    Ok(none_effects())
                }
            },
            VariableManagerMsg::Add => {
                if self.screens.active_view != ActiveView::VariableManager {
                    return Ok(none_effects());
                }
                self.screens.input_mode = InputMode::Normal;
                self.screens.editing_variable = None;
                let mut e = one_effect(ApiEffect::MountVariableInputs(String::new(), String::new(), VariableMode::Placeholder));
                push_effect(&mut e, ApiEffect::Focus(Id::VariableKeyInput));
                proof {
                    assert(self@ =~= with_screens(v, ScreensView { input_mode: InputMode::Normal, editing_variable: None, ..v.screens }));
                    assert(effects_view(e@) =~= seq![
                        EffectView::MountVariableInputs(Seq::empty(), Seq::empty(), VariableMode::Placeholder),
                        EffectView::Focus(Id::VariableKeyInput),
                    ]);
                }
                Ok(e)
            },
            VariableManagerMsg::SelectionChanged(key) => {
                if self.screens.active_view != ActiveView::VariableManager {
                    return Ok(none_effects());
                }
                let mut e = none_effects();
                self.load_variable_into_inputs(key.as_str(), &mut e);
                push_effect(&mut e, ApiEffect::Focus(Id::VariableTable));
                proof {
                    assert(self@ == loaded(v, key@).0);
                    assert(effects_view(e@) =~= loaded(v, key@).1.push(EffectView::Focus(Id::VariableTable)));
                }
                Ok(e)
            },
            VariableManagerMsg::Edit(key) => {
                if self.screens.active_view != ActiveView::VariableManager {
                    return Ok(none_effects());
                }
                self.screens.input_mode = InputMode::Normal;
                let ghost b = self@;
                let mut e = none_effects();
                self.load_variable_into_inputs(key.as_str(), &mut e);
                push_effect(&mut e, ApiEffect::Focus(Id::VariableKeyInput));
                proof {
                    assert(b == with_screens(v, ScreensView { input_mode: InputMode::Normal, ..v.screens }));
                    assert(self@ == loaded(b, key@).0);
                    assert(effects_view(e@) =~= loaded(b, key@).1.push(EffectView::Focus(Id::VariableKeyInput)));
                }
                Ok(e)
            },
            VariableManagerMsg::Save => Ok(self.save_variable(r)),
            VariableManagerMsg::Delete(key) => Ok(self.remove_variable(key, r)),
        }
    }

    #[verifier::rlimit(40)]
    fn editor_message(&mut self, m: RouteEditorMsg, r: &Readings) -> (res: Result<Vec<ApiEffect>, String>)
        requires
            old(self).wf(),
            old(self).screens.active_view != ActiveView::KeymapHelp,
            r.keymap_max_offset <= isize::MAX,
            r.preview_max_offset <= isize::MAX,
        ensures
            final(self).wf(),
            normal_post(old(self)@, Msg::RouteEditor(m), *r, final(self)@, result_view(res)),
    {
        let ghost v = self@;
        match m {
            RouteEditorMsg::FocusField(id) => Ok(self.focus_field(id, r)),
            RouteEditorMsg::NewGroupEntered => {
                let e = one_effect(ApiEffect::Focus(Id::EditorMethod));
                self.show_section(EditorSectionKind::Method, r);
                Ok(e)
            },
            RouteEditorMsg::Save => self.save_editor(r),
            RouteEditorMsg::BodyEditorResult(body) => {
                self.body_result(body);
                Ok(none_effects())
            },
            RouteEditorMsg::MethodChanged(_) => Ok(none_effects()),
            RouteEditorMsg::GroupSelected(_) => Ok(none_effects()),

        }
    }

    #[verifier::rlimit(40)]
    fn preview_message(&mut self, m: RequestPreviewMsg, r: &Readings) -> (res: Result<Vec<ApiEffect>, String>)
        requires
            old(self).wf(),
            old(self).screens.active_view != ActiveView::KeymapHelp,
            r.keymap_max_offset <= isize::MAX,
            r.preview_max_offset <= isize::MAX,
        ensures
            final(self).wf(),
            normal_post(old(self)@, Msg::RequestPreview(m), *r, final(self)@, result_view(res)),
    {
        let ghost v = self@;
        match m {
            RequestPreviewMsg::Execute => {
                if self.screens.active_view == ActiveView::RequestPreview && self.screens.preview.is_some() {
                    Ok(one_effect(ApiEffect::ExecutePreviewRequest))
                } else {
                    Ok(none_effects())
                }
            },
        }
    }
}

impl ApiTester {
    /// A session over stored routes, variables and route list state: the
    /// route list shows, in normal mode, and is the first history entry.
    pub fn new(collection: Collection, variables: Variables, list_state: RouteListState, width: u16, height: u16) -> (t: ApiTester)
        requires
            variables.wf(),
        ensures
            t.wf(),
            t.collection == collection,
            t.variables == variables,
            t.screens@ == Screens::initial_view(list_state),
            t.history.index == 0,
            snapshots_view(t.history.entries@) == seq![Screens::initial_view(list_state)],
            t.keymap_help == (KeymapHelpState { return_view: None, scroll_offset: 0 }),
            t.help_focus is None,
            t.terminal_width == width,
            t.terminal_height == height,
            t.layout_mode == layout_for(width),
    {
        let screens = Screens::initial(list_state);
        let mut history: NavHistory<Screens> = NavHistory::new();
        push_screens(&mut history, &screens);
        proof {
            assert(snapshots_view(history.entries@) =~= seq![screens@]);
        }
        ApiTester {
            collection,
            variables,
            screens,
            keymap_help: KeymapHelpState { return_view: None, scroll_offset: 0 },
            help_focus: None,
            history,
            layout_mode: layout_mode_for_width(width),
            terminal_width: width,
            terminal_height: height,
        }
    }

    /// The body the external editor starts from: the edited route's, or
    /// the one the preview would send.
    pub fn body_editor_initial_content(&self) -> (r: Option<String>)
        ensures
            crate::collection::opt_string_view(r) == match self.screens.active_view {
                ActiveView::RouteEditor => match self@.screens.draft {
                    Some(d) => d.body,
                    None => None,
                },
                ActiveView::RequestPreview => match self@.screens.preview {
                    Some(p) => p.execution_body,
                    None => None,
                },
                _ => None,
            },
    {
        match self.screens.active_view {
            ActiveView::RouteEditor => match &self.screens.draft {
                Some(d) => crate::collection::copy_opt_string(&d.body),
                None => None,
            },
            ActiveView::RequestPreview => match &self.screens.preview {
                Some(p) => crate::collection::copy_opt_string(&p.execution_body),
                None => None,
            },
            _ => None,
        }
    }
}

/// Opening the keymap help page and closing it again returns to the view
/// it was opened from, with the focus it had.
pub proof fn law_keymap_help_round_trip(v: TesterView, r: Readings)
    requires
        v.screens.active_view != ActiveView::KeymapHelp,
        v.screens.input_mode == InputMode::Normal,
    ensures
        ({
            let shown = help_shown(v, r);
            let (hidden, e) = help_hidden(shown);
            &&& hidden.screens == v.screens
            &&& hidden.help.return_view is None
            &&& e == seq![EffectView::UnlockSubscriptions] + focus_tail(kept_focus(r.focus))
        }),
{
    let shown = help_shown(v, r);
    let (hidden, e) = help_hidden(shown);
    assert(hidden.screens =~= v.screens);
}

/// Restoring screens keeps the routes, the variables and the history,
/// and, outside the variable manager, restores the screens exactly.
proof fn lemma_restores_frame(b: TesterView, r: Readings, n: TesterView, e: Seq<EffectView>)
    requires
        restores(b, r, n, e),
    ensures
        n.routes == b.routes,
        n.vars == b.vars,
        n.history == b.history,
        n.index == b.index,
        b.screens.active_view != ActiveView::VariableManager ==> n == b,
        n.screens.active_view == b.screens.active_view,
{
    if b.screens.active_view == ActiveView::VariableManager {
        let rows = e[0]->MountVariableManager_0;
        let (m, e1) = after_mount(b, rows);
        assert(m.history == b.history && m.index == b.index && m.routes == b.routes && m.vars == b.vars);
        assert(m.screens.active_view == b.screens.active_view);
    }
}

/// Going back and then forward again, with the same readings, returns to
/// the position left and to the screens as they were when it was left
/// (the variable manager, which is mounted anew, aside).
pub proof fn law_back_then_forward_restores(
    v: TesterView,
    r: Readings,
    n1: TesterView,
    e1: Seq<EffectView>,
    n2: TesterView,
    e2: Seq<EffectView>,
)
    requires
        v.index > 0,
        v.index < v.history.len(),
        v.screens.active_view != ActiveView::KeymapHelp,
        v.screens.active_view != ActiveView::VariableManager,
        navigate_post(v, r, true, n1, e1),
        navigate_post(n1, r, false, n2, e2),
    ensures
        n2.index == v.index,
        n2.screens == captured(v.screens, v.routes, r),
        n2.routes == v.routes,
        n2.vars == v.vars,
{
    let s1 = captured(v.screens, v.routes, r);
    let h1 = v.history.update(v.index as int, s1);
    let b1 = TesterView { screens: h1[v.index - 1], history: h1, index: (v.index - 1) as usize, ..v };
    lemma_restores_frame(b1, r, n1, e1);
    assert(n1.history == h1);
    assert(n1.index == v.index - 1);
    assert(n1.index + 1 < n1.history.len());
    let keep = history_view(n1.screens.active_view);
    let s2 = if keep {
        captured(n1.screens, n1.routes, r)
    } else {
        n1.screens
    };
    let h2 = if keep {
        h1.update(n1.index as int, s2)
    } else {
        h1
    };
    assert(h2[v.index as int] == s1);
    let b2 = TesterView { screens: h2[v.index as int], history: h2, index: v.index, ..n1 };
    assert(s1.active_view == v.screens.active_view);
    lemma_restores_frame(b2, r, n2, e2);
}

} // verus!
