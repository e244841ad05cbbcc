//! Identifiers, views, modes and messages of the API tester's interface,
//! and the key events its components receive.

use vstd::prelude::*;
use crate::executor::CurlResponse;
use crate::route_list_state::RouteListState;
use crate::variables::VariableMode;

verus! {

/// Mounted components of the API tester.
#[derive(Debug, Clone, Copy, PartialEq, Eq, Structural, Hash)]
pub enum Id {
    GlobalListener,
    RouteList,
    EditorName,
    EditorMethod,
    EditorUrl,
    EditorHeaders,
    ResponseDetails,
    VariableTable,
    VariableKeyInput,
    VariableValueInput,
    VariableMode,
    EditorGroup,
    EditorNewGroup,
}

/// The screen shown.
#[derive(Debug, Clone, Copy, PartialEq, Eq, Structural)]
pub enum ActiveView {
    RouteList,
    RouteEditor,
    RequestPreview,
    ResponseViewer,
    VariableManager,
    KeymapHelp,
}

/// Application-wide requests.
#[derive(Debug, Clone, Copy, PartialEq, Eq, Structural)]
pub enum AppMsg {
    Close,
    SwitchView(ActiveView),
    NavigateBack,
    NavigateForward,
    OpenBodyEditor,
    ToggleSecretVisibility,
    OpenScopedVariables,
    TerminalResize(u16, u16),
    EnterInsertMode,
    EnterNormalMode,
    ScrollUp,
    ScrollDown,
    PageUp,
    PageDown,
    ScrollBy(isize),
    ScrollToTop,
    ScrollToBottom,
    ToggleKeymapHelp,
}

/// Requests of the route list.
#[derive(Debug, Clone, PartialEq, Eq)]
pub enum RouteListMsg {
    RunRoute(usize),
    EditRoute(usize),
    NewRoute,
    DeleteRoute(usize),
    StateChanged(RouteListState),
}

/// Requests of the route editor.
#[derive(Debug, Clone, PartialEq, Eq)]
pub enum RouteEditorMsg {
    Save,
    FocusField(Id),
    MethodChanged(usize),
    GroupSelected(usize),
    NewGroupEntered,
    BodyEditorResult(Option<String>),
}

/// Requests of the request preview.
#[derive(Debug, Clone, Copy, PartialEq, Eq, Structural)]
pub enum RequestPreviewMsg {
    Execute,
}

/// Outcomes reported to the response viewer.
#[derive(Debug, Clone, PartialEq, Eq)]
pub enum ResponseViewerMsg {
    RouteExecuted(usize, CurlResponse),
    RouteExecutionFailed(usize, String),
}

/// What the response viewer shows.
#[derive(Debug, Clone, PartialEq, Eq)]
pub enum ResponseViewerResult {
    Success(CurlResponse),
    Error(String),
}

/// Requests of the variable manager.
#[derive(Debug, Clone, PartialEq, Eq)]
pub enum VariableManagerMsg {
    Add,
    SelectionChanged(String),
    ModeChanged(VariableMode),
    Edit(String),
    Save,
    Delete(String),
}

/// Every message of the interface.
#[derive(Debug, Clone, PartialEq, Eq)]
pub enum Msg {
    App(AppMsg),
    RouteList(RouteListMsg),
    RouteEditor(RouteEditorMsg),
    RequestPreview(RequestPreviewMsg),
    ResponseViewer(ResponseViewerMsg),
    VariableManager(VariableManagerMsg),
}

/// Work the application loop carries out after an update.
#[derive(Debug, Clone, Copy, PartialEq, Eq, Structural)]
pub enum AppEffect {
    Close,
    OpenBodyEditor,
    ExecutePreviewRequest,
}

/// Layout chosen by terminal width.
#[derive(Debug, Clone, Copy, PartialEq, Eq, Structural)]
pub enum LayoutMode {
    Wide,
    Medium,
    Narrow,
}

/// Whether keys go to commands or to a text input.
#[derive(Debug, Clone, Copy, PartialEq, Eq, Structural)]
pub enum InputMode {
    Normal,
    Insert,
}

// ---------------------------------------------------------------------------
// Key events
// ---------------------------------------------------------------------------

/// A key.
#[derive(Debug, Clone, Copy, PartialEq, Eq, Structural)]
pub enum Key {
    Char(char),
    Tab,
    BackTab,
    Up,
    Down,
    Left,
    Right,
    PageUp,
    PageDown,
    Home,
    End,
    Enter,
    Esc,
    Backspace,
    Delete,
    Other,
}

/// The modifiers held with a key.
#[derive(Debug, Clone, Copy, PartialEq, Eq, Structural)]
pub struct Modifiers {
    pub shift: bool,
    pub control: bool,
    pub alt: bool,
}

/// A key press.
#[derive(Debug, Clone, Copy, PartialEq, Eq, Structural)]
pub struct KeyEvent {
    pub code: Key,
    pub modifiers: Modifiers,
}

/// No modifier held.
pub open spec fn no_modifiers(m: Modifiers) -> bool {
    !m.shift && !m.control && !m.alt
}

/// Shift and nothing else held.
pub open spec fn shift_only(m: Modifiers) -> bool {
    m.shift && !m.control && !m.alt
}

/// Control and nothing else held.
pub open spec fn control_only(m: Modifiers) -> bool {
    !m.shift && m.control && !m.alt
}

/// `g` with no modifier.
pub open spec fn plain_g(k: KeyEvent) -> bool {
    k.code == Key::Char('g') && no_modifiers(k.modifiers)
}

/// `G` (with or without Shift reported), or `g` with Shift.
pub open spec fn jump_to_end(k: KeyEvent) -> bool {
    (k.code == Key::Char('G') && (no_modifiers(k.modifiers) || shift_only(k.modifiers))) || (k.code
        == Key::Char('g') && shift_only(k.modifiers))
}

impl Modifiers {
    /// No modifier held.
    pub fn none() -> (m: Modifiers)
        ensures
            no_modifiers(m),
    {
        Modifiers { shift: false, control: false, alt: false }
    }
}

/// Whether a key is a plain `g`, the first half of `gg`.
pub fn is_plain_g(key: &KeyEvent) -> (b: bool)
    ensures
        b == plain_g(*key),
{
    key.code == Key::Char('g') && !key.modifiers.shift && !key.modifiers.control
        && !key.modifiers.alt
}

/// Whether a key jumps to the end.
pub fn is_jump_to_end(key: &KeyEvent) -> (b: bool)
    ensures
        b == jump_to_end(*key),
{
    let none = !key.modifiers.shift && !key.modifiers.control && !key.modifiers.alt;
    let shift = key.modifiers.shift && !key.modifiers.control && !key.modifiers.alt;
    (key.code == Key::Char('G') && (none || shift)) || (key.code == Key::Char('g') && shift)
}

} // verus!
