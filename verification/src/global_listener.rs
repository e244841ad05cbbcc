//! The API tester's global shortcuts: keys, mouse scrolling and touch drags
//! turned into application messages, depending on the input mode.

use vstd::prelude::*;
use crate::api_messages::{
    is_jump_to_end, is_plain_g, jump_to_end, plain_g, ActiveView, AppMsg, InputMode, Key, KeyEvent,
    Msg, RequestPreviewMsg, RouteEditorMsg, control_only, no_modifiers,
};

verus! {

/// A mouse button.
#[derive(Debug, Clone, Copy, PartialEq, Eq, Structural)]
pub enum MouseButton {
    Left,
    Right,
    Middle,
}

/// What the mouse did.
#[derive(Debug, Clone, Copy, PartialEq, Eq, Structural)]
pub enum MouseEventKind {
    Down(MouseButton),
    Up(MouseButton),
    Drag(MouseButton),
    Moved,
    ScrollDown,
    ScrollUp,
    ScrollLeft,
    ScrollRight,
}

/// A mouse event and the row it happened on.
#[derive(Debug, Clone, Copy, PartialEq, Eq, Structural)]
pub struct MouseEvent {
    pub kind: MouseEventKind,
    pub row: u16,
}

/// An input event.
#[derive(Debug, Clone, Copy, PartialEq, Eq, Structural)]
pub enum InputEvent {
    Keyboard(KeyEvent),
    Mouse(MouseEvent),
    WindowResize(u16, u16),
    Other,
}

/// Largest scroll step one drag movement makes.
pub const MAX_DRAG_STEP: isize = 3;

/// Listens for the shortcuts that apply everywhere.
#[derive(Debug, Clone, Copy, PartialEq, Eq, Structural)]
pub struct GlobalListener {
    /// Current input mode.
    pub input_mode: InputMode,
    /// Row of the last touch drag position, while a drag is under way.
    pub touch_drag_row: Option<u16>,
    /// A first `g` of `gg` was pressed.
    pub pending_g: bool,
}

/// The message of a key in normal mode once `gg` has been dealt with.
pub open spec fn normal_key_msg(k: KeyEvent) -> Option<Msg> {
    if jump_to_end(k) {
        Some(Msg::App(AppMsg::ScrollToBottom))
    } else {
        match k.code {
            Key::Char(c) => if c == 'q' {
                Some(Msg::App(AppMsg::Close))
            } else if c == '?' {
                Some(Msg::App(AppMsg::ToggleKeymapHelp))
            } else if c == 'H' {
                Some(Msg::App(AppMsg::NavigateBack))
            } else if c == 'L' {
                Some(Msg::App(AppMsg::NavigateForward))
            } else if c == 'h' && k.modifiers.shift {
                Some(Msg::App(AppMsg::NavigateBack))
            } else if c == 'l' && k.modifiers.shift {
                Some(Msg::App(AppMsg::NavigateForward))
            } else if (c == 'v' || c == 'V') && k.modifiers.shift {
                Some(Msg::App(AppMsg::OpenScopedVariables))
            } else if c == 'v' {
                Some(Msg::App(AppMsg::SwitchView(ActiveView::VariableManager)))
            } else if c == 'i' {
                Some(Msg::App(AppMsg::EnterInsertMode))
            } else if c == 's' && control_only(k.modifiers) {
                Some(Msg::RouteEditor(RouteEditorMsg::Save))
            } else if c == 's' && no_modifiers(k.modifiers) {
                Some(Msg::App(AppMsg::ToggleSecretVisibility))
            } else if c == 'b' {
                Some(Msg::App(AppMsg::OpenBodyEditor))
            } else if c == 'r' {
                Some(Msg::RequestPreview(RequestPreviewMsg::Execute))
            } else if c == 'k' {
                Some(Msg::App(AppMsg::ScrollUp))
            } else if c == 'j' {
                Some(Msg::App(AppMsg::ScrollDown))
            } else {
                None
            },
            Key::Up => Some(Msg::App(AppMsg::ScrollUp)),
            Key::Down => Some(Msg::App(AppMsg::ScrollDown)),
            Key::PageUp => Some(Msg::App(AppMsg::PageUp)),
            Key::PageDown => Some(Msg::App(AppMsg::PageDown)),
            _ => None,
        }
    }
}

/// What a key does in normal mode: the message and whether a `g` is left
/// pending.
pub open spec fn normal_key_outcome(pending_g: bool, k: KeyEvent) -> (Option<Msg>, bool) {
    if pending_g && plain_g(k) {
        (Some(Msg::App(AppMsg::ScrollToTop)), false)
    } else if plain_g(k) {
        (None, true)
    } else {
        (normal_key_msg(k), false)
    }
}

/// The message of a key in insert mode: only Escape, back to normal mode.
pub open spec fn insert_key_msg(k: KeyEvent) -> Option<Msg> {
    if k.code == Key::Esc {
        Some(Msg::App(AppMsg::EnterNormalMode))
    } else {
        None
    }
}

/// `v` limited to `[-MAX_DRAG_STEP, MAX_DRAG_STEP]`.
pub open spec fn clamp_step(v: int) -> int {
    if v < -MAX_DRAG_STEP {
        -MAX_DRAG_STEP as int
    } else if v > MAX_DRAG_STEP {
        MAX_DRAG_STEP as int
    } else {
        v
    }
}

/// What a mouse event does: the message and the drag row kept afterwards.
pub open spec fn mouse_outcome(drag: Option<u16>, m: MouseEvent) -> (Option<Msg>, Option<u16>) {
    match m.kind {
        MouseEventKind::ScrollUp => (Some(Msg::App(AppMsg::ScrollBy(-1isize))), None),
        MouseEventKind::ScrollDown => (Some(Msg::App(AppMsg::ScrollBy(1isize))), None),
        MouseEventKind::Down(MouseButton::Left) => (None, Some(m.row)),
        MouseEventKind::Drag(MouseButton::Left) => match drag {
            None => (None, Some(m.row)),
            Some(last) => if last == m.row {
                (None, Some(m.row))
            } else {
                (
                    Some(Msg::App(AppMsg::ScrollBy(clamp_step(last - m.row) as isize))),
                    Some(m.row),
                )
            },
        },
        MouseEventKind::Up(MouseButton::Left) => (None, None),
        MouseEventKind::Down(_) | MouseEventKind::Up(_) => (None, None),
        _ => (None, drag),
    }
}

fn normal_key_message(key: &KeyEvent) -> (r: Option<Msg>)
    ensures
        r == normal_key_msg(*key),
{
    if is_jump_to_end(key) {
        return Some(Msg::App(AppMsg::ScrollToBottom));
    }
    let none = !key.modifiers.shift && !key.modifiers.control && !key.modifiers.alt;
    let control = !key.modifiers.shift && key.modifiers.control && !key.modifiers.alt;
    match key.code {
        Key::Char(c) => {
            if c == 'q' {
                Some(Msg::App(AppMsg::Close))
            } else if c == '?' {
                Some(Msg::App(AppMsg::ToggleKeymapHelp))
            } else if c == 'H' {
                Some(Msg::App(AppMsg::NavigateBack))
            } else if c == 'L' {
                Some(Msg::App(AppMsg::NavigateForward))
            } else if c == 'h' && key.modifiers.shift {
                Some(Msg::App(AppMsg::NavigateBack))
            } else if c == 'l' && key.modifiers.shift {
                Some(Msg::App(AppMsg::NavigateForward))
            } else if (c == 'v' || c == 'V') && key.modifiers.shift {
                Some(Msg::App(AppMsg::OpenScopedVariables))
            } else if c == 'v' {
                Some(Msg::App(AppMsg::SwitchView(ActiveView::VariableManager)))
            } else if c == 'i' {
                Some(Msg::App(AppMsg::EnterInsertMode))
            } else if c == 's' && control {
                Some(Msg::RouteEditor(RouteEditorMsg::Save))
            } else if c == 's' && none {
                Some(Msg::App(AppMsg::ToggleSecretVisibility))
            } else if c == 'b' {
                Some(Msg::App(AppMsg::OpenBodyEditor))
            } else if c == 'r' {
                Some(Msg::RequestPreview(RequestPreviewMsg::Execute))
            } else if c == 'k' {
                Some(Msg::App(AppMsg::ScrollUp))
            } else if c == 'j' {
                Some(Msg::App(AppMsg::ScrollDown))
            } else {
                None
            }
        },
        Key::Up => Some(Msg::App(AppMsg::ScrollUp)),
        Key::Down => Some(Msg::App(AppMsg::ScrollDown)),
        Key::PageUp => Some(Msg::App(AppMsg::PageUp)),
        Key::PageDown => Some(Msg::App(AppMsg::PageDown)),
        _ => None,
    }
}

impl GlobalListener {
    /// A listener in normal mode with nothing pending.
    pub fn new() -> (l: GlobalListener)
        ensures
            l.input_mode == InputMode::Normal,
            l.touch_drag_row is None,
            !l.pending_g,
    {
        GlobalListener { input_mode: InputMode::Normal, touch_drag_row: None, pending_g: false }
    }

    /// Switches between normal and insert mode.
    pub fn set_insert_mode(&mut self, insert: bool)
        ensures
            final(self).input_mode == if insert {
                InputMode::Insert
            } else {
                InputMode::Normal
            },
            final(self).touch_drag_row == old(self).touch_drag_row,
            final(self).pending_g == old(self).pending_g,
    {
        self.input_mode = if insert {
            InputMode::Insert
        } else {
            InputMode::Normal
        };
    }

    /// The message of a key in normal mode; `gg` scrolls to the top.
    pub fn map_normal_key(&mut self, key: KeyEvent) -> (r: Option<Msg>)
        ensures
            (r, final(self).pending_g) == normal_key_outcome(old(self).pending_g, key),
            final(self).input_mode == old(self).input_mode,
            final(self).touch_drag_row == old(self).touch_drag_row,
    {
        if self.pending_g {
            self.pending_g = false;
            if is_plain_g(&key) {
                return Some(Msg::App(AppMsg::ScrollToTop));
            }
        }
        if is_plain_g(&key) {
            self.pending_g = true;
            return None;
        }
        normal_key_message(&key)
    }

    /// The message of a key in insert mode.
    pub fn map_insert_key(key: KeyEvent) -> (r: Option<Msg>)
        ensures
            r == insert_key_msg(key),
    {
        match key.code {
            Key::Esc => Some(Msg::App(AppMsg::EnterNormalMode)),
            _ => None,
        }
    }

    /// The message of a mouse event: wheel scrolls one row, a left-button
    /// drag scrolls by the rows moved (at most three per event).
    pub fn map_mouse(&mut self, mouse: MouseEvent) -> (r: Option<Msg>)
        ensures
            (r, final(self).touch_drag_row) == mouse_outcome(old(self).touch_drag_row, mouse),
            !final(self).pending_g,
            final(self).input_mode == old(self).input_mode,
    {
        self.pending_g = false;
        match mouse.kind {
            MouseEventKind::ScrollUp => {
                self.touch_drag_row = None;
                Some(Msg::App(AppMsg::ScrollBy(-1)))
            },
            MouseEventKind::ScrollDown => {
                self.touch_drag_row = None;
                Some(Msg::App(AppMsg::ScrollBy(1)))
            },
            MouseEventKind::Down(MouseButton::Left) => {
                self.touch_drag_row = Some(mouse.row);
                None
            },
            MouseEventKind::Drag(MouseButton::Left) => {
                match self.touch_drag_row {
                    None => {
                        self.touch_drag_row = Some(mouse.row);
                        None
                    },
                    Some(last_row) => {
                        self.touch_drag_row = Some(mouse.row);
                        let delta: isize = last_row as isize - mouse.row as isize;
                        if delta == 0 {
                            return None;
                        }
                        let step: isize = if delta < -MAX_DRAG_STEP {
                            -MAX_DRAG_STEP
                        } else if delta > MAX_DRAG_STEP {
                            MAX_DRAG_STEP
                        } else {
                            delta
                        };
                        Some(Msg::App(AppMsg::ScrollBy(step)))
                    },
                }
            },
            MouseEventKind::Up(MouseButton::Left) => {
                self.touch_drag_row = None;
                None
            },
            MouseEventKind::Down(_) | MouseEventKind::Up(_) => {
                self.touch_drag_row = None;
                None
            },
            _ => None,
        }
    }

    /// The message of an input event.
    pub fn on(&mut self, ev: InputEvent) -> (r: Option<Msg>)
        ensures
            match ev {
                InputEvent::Keyboard(k) => match old(self).input_mode {
                    InputMode::Normal => (r, final(self).pending_g) == normal_key_outcome(
                        old(self).pending_g,
                        k,
                    ),
                    InputMode::Insert => r == insert_key_msg(k) && *final(self) == *old(self),
                },
                InputEvent::Mouse(m) => (r, final(self).touch_drag_row) == mouse_outcome(
                    old(self).touch_drag_row,
                    m,
                ) && !final(self).pending_g,
                InputEvent::WindowResize(w, h) => r == Some(Msg::App(AppMsg::TerminalResize(w, h)))
                    && *final(self) == *old(self),
                InputEvent::Other => r is None && *final(self) == *old(self),
            },
    {
        match ev {
            InputEvent::Keyboard(key) => match self.input_mode {
                InputMode::Normal => self.map_normal_key(key),
                InputMode::Insert => GlobalListener::map_insert_key(key),
            },
            InputEvent::Mouse(mouse) => self.map_mouse(mouse),
            InputEvent::WindowResize(w, h) => Some(Msg::App(AppMsg::TerminalResize(w, h))),
            InputEvent::Other => None,
        }
    }
}

/// A touch drag never scrolls more than three rows at once.
pub proof fn law_drag_step_is_bounded(drag: Option<u16>, m: MouseEvent)
    ensures
        mouse_outcome(drag, m).0 matches Some(Msg::App(AppMsg::ScrollBy(n))) ==> -3 <= n <= 3,
{
}

} // verus!
