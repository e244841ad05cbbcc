//! Key handling of the API tester's single-line inputs and tab-style radio
//! selectors: which bound message a key emits, or which editing or
//! selection command it performs, depending on the input mode.

use vstd::prelude::*;
use crate::api_messages::{control_only, no_modifiers, shift_only, InputMode, Key, KeyEvent, Msg};
use crate::global_listener::InputEvent;

verus! {

/// A key that emits a configured message.
#[derive(Debug, Clone, Copy, PartialEq, Eq, Structural)]
pub enum Binding {
    /// Tab.
    Tab,
    /// Reverse tab.
    BackTab,
    /// Control-s.
    CtrlS,
    /// Enter, in insert mode.
    InsertEnter,
}

/// An editing command for a text input.
#[derive(Debug, Clone, Copy, PartialEq, Eq, Structural)]
pub enum InputCommand {
    /// Moves the cursor one character left.
    MoveLeft,
    /// Moves the cursor one character right.
    MoveRight,
    /// Types a character at the cursor.
    Type(char),
    /// Deletes the character before the cursor.
    DeleteBefore,
    /// Deletes the character at the cursor.
    DeleteAt,
}

/// What a text input does with an event.
#[derive(Debug, Clone, Copy, PartialEq, Eq, Structural)]
pub enum InputAction {
    /// Emits the message bound to a key.
    Emit(Binding),
    /// Performs an editing command and emits nothing.
    Perform(InputCommand),
    /// Does nothing.
    Ignore,
}

/// What a radio selector does with an event.
#[derive(Debug, Clone, Copy, PartialEq, Eq, Structural)]
pub enum RadioAction {
    /// Emits the message bound to a key.
    Emit(Binding),
    /// Selects the previous choice and reports the new selection.
    SelectPrevious,
    /// Selects the next choice and reports the new selection.
    SelectNext,
    /// Does nothing.
    Ignore,
}

/// Messages a text input emits for its bound keys.
#[derive(Debug, Clone)]
pub struct InputBindings {
    pub on_tab: Option<Msg>,
    pub on_backtab: Option<Msg>,
    pub on_ctrl_s: Option<Msg>,
    pub on_insert_enter: Option<Msg>,
}

/// Messages a radio selector emits for its bound keys.
#[derive(Debug, Clone)]
pub struct RadioBindings {
    pub on_tab: Option<Msg>,
    pub on_backtab: Option<Msg>,
    pub on_ctrl_s: Option<Msg>,
}

/// Whether a key event is one of the two tab keys or control-s, which emit
/// whatever the mode.
pub open spec fn bound_key(k: KeyEvent) -> Option<Binding> {
    if k.code == Key::Tab {
        Some(Binding::Tab)
    } else if k.code == Key::BackTab {
        Some(Binding::BackTab)
    } else if k.code == Key::Char('s') && control_only(k.modifiers) {
        Some(Binding::CtrlS)
    } else {
        None
    }
}

/// A key that moves left: plain `h` or the left arrow.
pub open spec fn left_key(k: KeyEvent) -> bool {
    (k.code == Key::Char('h') && no_modifiers(k.modifiers)) || k.code == Key::Left
}

/// A key that moves right: plain `l` or the right arrow.
pub open spec fn right_key(k: KeyEvent) -> bool {
    (k.code == Key::Char('l') && no_modifiers(k.modifiers)) || k.code == Key::Right
}

/// What a text input does with a key event: the tab keys and control-s
/// emit their messages; in insert mode Enter emits its message, characters
/// typed plainly or with shift are inserted, Backspace and Delete delete
/// and the arrows move; in normal mode `h`/`l` and the arrows move.
pub open spec fn input_action(ev: InputEvent, mode: InputMode) -> InputAction {
    match ev {
        InputEvent::Keyboard(k) => match bound_key(k) {
            Some(b) => InputAction::Emit(b),
            None => if mode == InputMode::Insert {
                match k.code {
                    Key::Enter => InputAction::Emit(Binding::InsertEnter),
                    Key::Char(c) => if no_modifiers(k.modifiers) || shift_only(k.modifiers) {
                        InputAction::Perform(InputCommand::Type(c))
                    } else {
                        InputAction::Ignore
                    },
                    Key::Backspace => InputAction::Perform(InputCommand::DeleteBefore),
                    Key::Delete => InputAction::Perform(InputCommand::DeleteAt),
                    Key::Left => InputAction::Perform(InputCommand::MoveLeft),
                    Key::Right => InputAction::Perform(InputCommand::MoveRight),
                    _ => InputAction::Ignore,
                }
            } else if left_key(k) {
                InputAction::Perform(InputCommand::MoveLeft)
            } else if right_key(k) {
                InputAction::Perform(InputCommand::MoveRight)
            } else {
                InputAction::Ignore
            },
        },
        _ => InputAction::Ignore,
    }
}

/// What a radio selector does with a key event: the tab keys and control-s
/// emit their messages; in insert mode `h`/`l` and the arrows change the
/// selection; anything else is ignored.
pub open spec fn radio_action(ev: InputEvent, mode: InputMode) -> RadioAction {
    match ev {
        InputEvent::Keyboard(k) => match bound_key(k) {
            Some(b) => RadioAction::Emit(b),
            None => if mode == InputMode::Insert && left_key(k) {
                RadioAction::SelectPrevious
            } else if mode == InputMode::Insert && right_key(k) {
                RadioAction::SelectNext
            } else {
                RadioAction::Ignore
            },
        },
        _ => RadioAction::Ignore,
    }
}

fn bound_key_exec(k: &KeyEvent) -> (r: Option<Binding>)
    ensures
        r == bound_key(*k),
{
    match k.code {
        Key::Tab => Some(Binding::Tab),
        Key::BackTab => Some(Binding::BackTab),
        Key::Char(c) => {
            if c == 's' && !k.modifiers.shift && k.modifiers.control && !k.modifiers.alt {
                Some(Binding::CtrlS)
            } else {
                None
            }
        },
        _ => None,
    }
}

fn is_left_key(k: &KeyEvent) -> (b: bool)
    ensures
        b == left_key(*k),
{
    match k.code {
        Key::Left => true,
        Key::Char(c) => c == 'h' && !k.modifiers.shift && !k.modifiers.control && !k.modifiers.alt,
        _ => false,
    }
}

fn is_right_key(k: &KeyEvent) -> (b: bool)
    ensures
        b == right_key(*k),
{
    match k.code {
        Key::Right => true,
        Key::Char(c) => c == 'l' && !k.modifiers.shift && !k.modifiers.control && !k.modifiers.alt,
        _ => false,
    }
}

impl InputBindings {
    /// Bindings that emit `on_tab` and `on_backtab` for the tab keys and
    /// nothing else.
    pub fn tab_cycle(on_tab: Msg, on_backtab: Msg) -> (r: InputBindings)
        ensures
            r.on_tab == Some(on_tab),
            r.on_backtab == Some(on_backtab),
            r.on_ctrl_s is None,
            r.on_insert_enter is None,
    {
        InputBindings { on_tab: Some(on_tab), on_backtab: Some(on_backtab), on_ctrl_s: None, on_insert_enter: None }
    }

    /// The message bound to a key.
    pub fn message(&self, which: Binding) -> (r: &Option<Msg>)
        ensures
            *r == match which {
                Binding::Tab => self.on_tab,
                Binding::BackTab => self.on_backtab,
                Binding::CtrlS => self.on_ctrl_s,
                Binding::InsertEnter => self.on_insert_enter,
            },
    {
        match which {
            Binding::Tab => &self.on_tab,
            Binding::BackTab => &self.on_backtab,
            Binding::CtrlS => &self.on_ctrl_s,
            Binding::InsertEnter => &self.on_insert_enter,
        }
    }
}

impl RadioBindings {
    /// Bindings that emit `on_tab` and `on_backtab` for the tab keys and
    /// nothing else.
    pub fn tab_cycle(on_tab: Msg, on_backtab: Msg) -> (r: RadioBindings)
        ensures
            r.on_tab == Some(on_tab),
            r.on_backtab == Some(on_backtab),
            r.on_ctrl_s is None,
    {
        RadioBindings { on_tab: Some(on_tab), on_backtab: Some(on_backtab), on_ctrl_s: None }
    }

    /// The message bound to a key; a radio binds nothing to Enter.
    pub fn message(&self, which: Binding) -> (r: &Option<Msg>)
        ensures
            *r == match which {
                Binding::Tab => self.on_tab,
                Binding::BackTab => self.on_backtab,
                Binding::CtrlS => self.on_ctrl_s,
                Binding::InsertEnter => None,
            },
    {
        match which {
            Binding::Tab => &self.on_tab,
            Binding::BackTab => &self.on_backtab,
            Binding::CtrlS => &self.on_ctrl_s,
            Binding::InsertEnter => &None,
        }
    }
}

/// What a text input in `mode` does with `ev`.
pub fn input_event_action(ev: &InputEvent, mode: InputMode) -> (r: InputAction)
    ensures
        r == input_action(*ev, mode),
{
    let k = match ev {
        InputEvent::Keyboard(k) => k,
        _ => {
            return InputAction::Ignore;
        },
    };
    match bound_key_exec(k) {
        Some(b) => {
            return InputAction::Emit(b);
        },
        None => {},
    }
    match mode {
        InputMode::Insert => match k.code {
            Key::Enter => InputAction::Emit(Binding::InsertEnter),
            Key::Char(c) => {
                let m = k.modifiers;
                if !m.control && !m.alt {
                    InputAction::Perform(InputCommand::Type(c))
                } else {
                    InputAction::Ignore
                }
            },
            Key::Backspace => InputAction::Perform(InputCommand::DeleteBefore),
            Key::Delete => InputAction::Perform(InputCommand::DeleteAt),
            Key::Left => InputAction::Perform(InputCommand::MoveLeft),
            Key::Right => InputAction::Perform(InputCommand::MoveRight),
            _ => InputAction::Ignore,
        },
        InputMode::Normal => {
            if is_left_key(k) {
                InputAction::Perform(InputCommand::MoveLeft)
            } else if is_right_key(k) {
                InputAction::Perform(InputCommand::MoveRight)
            } else {
                InputAction::Ignore
            }
        },
    }
}

/// What a radio selector in `mode` does with `ev`.
pub fn radio_event_action(ev: &InputEvent, mode: InputMode) -> (r: RadioAction)
    ensures
        r == radio_action(*ev, mode),
{
    let k = match ev {
        InputEvent::Keyboard(k) => k,
        _ => {
            return RadioAction::Ignore;
        },
    };
    match bound_key_exec(k) {
        Some(b) => RadioAction::Emit(b),
        None => {
            let insert = mode == InputMode::Insert;
            if insert && is_left_key(k) {
                RadioAction::SelectPrevious
            } else if insert && is_right_key(k) {
                RadioAction::SelectNext
            } else {
                RadioAction::Ignore
            }
        },
    }
}

/// In normal mode a text input never changes its text: it only moves the
/// cursor or emits a message bound to a tab key or control-s.
pub proof fn law_normal_mode_never_edits(ev: InputEvent)
    ensures
        match input_action(ev, InputMode::Normal) {
            InputAction::Perform(c) => c == InputCommand::MoveLeft || c == InputCommand::MoveRight,
            InputAction::Emit(b) => b != Binding::InsertEnter,
            InputAction::Ignore => true,
        },
{
}

/// A radio selector only changes its selection in insert mode.
pub proof fn law_radio_selects_only_in_insert_mode(ev: InputEvent)
    ensures
        radio_action(ev, InputMode::Normal) != RadioAction::SelectPrevious,
        radio_action(ev, InputMode::Normal) != RadioAction::SelectNext,
{
}

} // verus!
