//! State of the orchestrator's terminal view: the service filter, scrolling,
//! status badges and the automatic clearing of logs, with the transitions
//! that key presses and orchestrator events make.

use vstd::prelude::*;
use crate::log_store::{
    kept_after_clear, service_label, service_slot, LogEntry, LogStore, Service,
};
use crate::text::push_str;

verus! {

/// Width of the longest service label, `DEV-TOOLS`; shorter labels are
/// padded to it so the separators of all log lines line up.
pub const SERVICE_LABEL_ALIGN_WIDTH: usize = 9;

/// Size of the log viewport in the last drawn frame.
#[derive(Debug, Clone, Copy, Default)]
pub struct ViewMetrics {
    /// Visible log rows.
    pub viewport_height: usize,
    /// Largest scroll offset for the drawn content.
    pub max_offset: usize,
}

/// Interactive state of the terminal view.
#[derive(Debug, Clone, Copy)]
pub struct AppState {
    /// Service whose logs are shown, or `None` for all.
    pub filter: Option<Service>,
    /// Current scroll offset.
    pub scroll_offset: usize,
    /// Whether the view follows the newest lines.
    pub follow: bool,
    /// A first `g` of `gg` was pressed.
    pub pending_g: bool,
    /// Running badges: API, web, common, dev-tools, docs, system.
    pub services_running: [bool; 6],
    /// Whether orchestrator batches clear the logs.
    pub auto_clear: bool,
}

impl AppState {
    /// The state of a fresh session: all services shown, following the
    /// newest lines, no service running, automatic clearing on.
    pub fn new() -> (s: AppState)
        ensures
            s.filter is None,
            s.scroll_offset == 0,
            s.follow,
            !s.pending_g,
            forall|i: int| 0 <= i < 6 ==> !#[trigger] s.services_running@[i],
            s.auto_clear,
    {
        AppState {
            filter: None,
            scroll_offset: 0,
            follow: true,
            pending_g: false,
            services_running: [false, false, false, false, false, false],
            auto_clear: true,
        }
    }
}

/// The prefix of a rendered log line: ` [LABEL]`, padding up to the widest
/// label, then `| `.
pub open spec fn log_line_prefix_text(s: Service) -> Seq<char> {
    seq![' ', '['] + service_label(s) + seq![']'] + Seq::new(
        (SERVICE_LABEL_ALIGN_WIDTH - service_label(s).len()) as nat,
        |i: int| ' ',
    ) + seq!['|', ' ']
}

/// Builds the prefix of a rendered log line for a service.
pub fn log_line_prefix(service: Service) -> (r: String)
    ensures
        r@ == log_line_prefix_text(service),
        r@.len() == SERVICE_LABEL_ALIGN_WIDTH + 5,
        r@[SERVICE_LABEL_ALIGN_WIDTH + 3] == '|',
{
    let label = service.label();
    let mut v: Vec<char> = Vec::new();
    push_str(&mut v, " [");
    push_str(&mut v, label);
    push_str(&mut v, "]");
    proof {
        reveal_strlit(" [");
        reveal_strlit("]");
    }
    let n = label.unicode_len();
    let ghost before = v@;
    let mut k = n;
    while k < SERVICE_LABEL_ALIGN_WIDTH
        invariant
            n <= k <= SERVICE_LABEL_ALIGN_WIDTH,
            n == service_label(service).len(),
            v@ == before + Seq::new((k - n) as nat, |i: int| ' '),
        decreases SERVICE_LABEL_ALIGN_WIDTH - k,
    {
        v.push(' ');
        proof {
            assert(v@ =~= before + Seq::new((k + 1 - n) as nat, |i: int| ' '));
        }
        k += 1;
    }
    push_str(&mut v, "| ");
    proof {
        reveal_strlit("| ");
        assert(v@ =~= log_line_prefix_text(service));
    }
    crate::text::string_from_chars(v.as_slice())
}

// ---------------------------------------------------------------------------
// Keys
// ---------------------------------------------------------------------------

/// The key of a key press, as far as the view tells keys apart.
#[derive(Debug, Clone, Copy, PartialEq, Eq, Structural)]
pub enum KeyCode {
    /// A character key.
    Char(char),
    /// The up arrow.
    Up,
    /// The down arrow.
    Down,
    /// Any other key.
    Other,
}

/// A key press: the key, and whether Control was the only modifier held.
#[derive(Debug, Clone, Copy, PartialEq, Eq, Structural)]
pub struct KeyPress {
    /// The key.
    pub code: KeyCode,
    /// Control and no other modifier was held.
    pub control: bool,
}

/// What a key press does: the next state, whether the view quits, and
/// whether the logs of the current filter are cleared.
pub struct KeyOutcome {
    pub state: AppState,
    pub quit: bool,
    pub clear: bool,
}

/// `s` with the given filter, scrolled to the top and following new lines.
pub open spec fn with_filter(s: AppState, f: Option<Service>) -> AppState {
    AppState { filter: f, scroll_offset: 0, follow: true, ..s }
}

/// The scroll offset a manual scroll starts from: the bottom when following.
pub open spec fn scroll_base(s: AppState, max_offset: int) -> int {
    if s.follow {
        max_offset
    } else {
        s.scroll_offset as int
    }
}

/// `s` scrolled manually to `offset`, no longer following.
pub open spec fn scrolled(s: AppState, offset: int) -> AppState {
    AppState { follow: false, scroll_offset: offset as usize, ..s }
}

/// The smaller of two integers.
pub open spec fn min_int(a: int, b: int) -> int {
    if a <= b {
        a
    } else {
        b
    }
}

/// The larger of two integers.
pub open spec fn max_int(a: int, b: int) -> int {
    if a >= b {
        a
    } else {
        b
    }
}

/// What a key does once a pending `g` has been dealt with.
pub open spec fn key_action(s: AppState, k: KeyPress, max_offset: int, page_jump: int) -> KeyOutcome {
    let plain = KeyOutcome { state: s, quit: false, clear: false };
    match k.code {
        KeyCode::Char(c) => if c == 'q' || (c == 'c' && k.control) {
            KeyOutcome { state: s, quit: true, clear: false }
        } else if c == 'c' {
            KeyOutcome {
                state: AppState { scroll_offset: 0, follow: true, ..s },
                quit: false,
                clear: true,
            }
        } else if c == '1' {
            KeyOutcome { state: with_filter(s, Some(Service::Api)), ..plain }
        } else if c == '2' {
            KeyOutcome { state: with_filter(s, Some(Service::Web)), ..plain }
        } else if c == '3' {
            KeyOutcome { state: with_filter(s, Some(Service::Common)), ..plain }
        } else if c == '4' {
            KeyOutcome { state: with_filter(s, Some(Service::DevTools)), ..plain }
        } else if c == '5' {
            KeyOutcome { state: with_filter(s, Some(Service::Docs)), ..plain }
        } else if c == '6' {
            KeyOutcome { state: with_filter(s, Some(Service::System)), ..plain }
        } else if c == 'x' {
            KeyOutcome { state: AppState { auto_clear: !s.auto_clear, ..s }, ..plain }
        } else if c == 'a' {
            KeyOutcome { state: with_filter(s, None), ..plain }
        } else if c == 'j' {
            KeyOutcome {
                state: scrolled(s, min_int(scroll_base(s, max_offset) + 1, max_offset)),
                ..plain
            }
        } else if c == 'k' {
            KeyOutcome { state: scrolled(s, max_int(scroll_base(s, max_offset) - 1, 0)), ..plain }
        } else if c == 'd' && k.control {
            KeyOutcome {
                state: scrolled(s, min_int(scroll_base(s, max_offset) + page_jump, max_offset)),
                ..plain
            }
        } else if c == 'u' && k.control {
            KeyOutcome {
                state: scrolled(s, max_int(scroll_base(s, max_offset) - page_jump, 0)),
                ..plain
            }
        } else if c == 'g' {
            KeyOutcome { state: AppState { pending_g: true, ..s }, ..plain }
        } else if c == 'G' {
            KeyOutcome { state: AppState { follow: true, ..s }, ..plain }
        } else {
            plain
        },
        KeyCode::Down => KeyOutcome {
            state: scrolled(s, min_int(scroll_base(s, max_offset) + 1, max_offset)),
            ..plain
        },
        KeyCode::Up => KeyOutcome { state: scrolled(s, max_int(scroll_base(s, max_offset) - 1, 0)), ..plain },
        KeyCode::Other => plain,
    }
}

/// What a key press does: a `g` after a pending `g` jumps to the top;
/// otherwise the pending `g` is dropped and the key acts as usual.
pub open spec fn key_outcome(s: AppState, k: KeyPress, max_offset: int, page_jump: int) -> KeyOutcome {
    if s.pending_g && k.code == KeyCode::Char('g') {
        KeyOutcome {
            state: AppState { pending_g: false, follow: false, scroll_offset: 0, ..s },
            quit: false,
            clear: false,
        }
    } else {
        key_action(AppState { pending_g: false, ..s }, k, max_offset, page_jump)
    }
}

fn scroll_start(state: &AppState, max_offset: usize) -> (r: usize)
    ensures
        r == scroll_base(*state, max_offset as int),
{
    if state.follow {
        max_offset
    } else {
        state.scroll_offset
    }
}

fn scroll_down_by(state: &mut AppState, amount: usize, max_offset: usize)
    ensures
        *final(state) == scrolled(
            *old(state),
            min_int(scroll_base(*old(state), max_offset as int) + amount, max_offset as int),
        ),
{
    let base = scroll_start(state, max_offset);
    let next = if base >= max_offset || amount >= max_offset - base {
        max_offset
    } else {
        base + amount
    };
    state.follow = false;
    state.scroll_offset = next;
}

fn scroll_up_by(state: &mut AppState, amount: usize, max_offset: usize)
    ensures
        *final(state) == scrolled(
            *old(state),
            max_int(scroll_base(*old(state), max_offset as int) - amount, 0),
        ),
{
    let base = scroll_start(state, max_offset);
    let next = if base >= amount {
        base - amount
    } else {
        0
    };
    state.follow = false;
    state.scroll_offset = next;
}

fn select_filter(state: &mut AppState, filter: Option<Service>)
    ensures
        *final(state) == with_filter(*old(state), filter),
{
    state.filter = filter;
    state.scroll_offset = 0;
    state.follow = true;
}

/// Applies a key press to the view. Returns whether the view quits; `c`
/// clears the logs of the current filter.
pub fn handle_key_event(
    log_store: &mut LogStore,
    state: &mut AppState,
    key: KeyPress,
    max_offset: usize,
    page_jump: usize,
) -> (quit: bool)
    ensures
        ({
            let o = key_outcome(*old(state), key, max_offset as int, page_jump as int);
            &&& *final(state) == o.state
            &&& quit == o.quit
            &&& final(log_store)@ == if o.clear {
                kept_after_clear(old(log_store)@, old(state).filter)
            } else {
                old(log_store)@
            }
        }),
{
    if state.pending_g {
        state.pending_g = false;
        if key.code == KeyCode::Char('g') {
            state.follow = false;
            state.scroll_offset = 0;
            return false;
        }
    }
    match key.code {
        KeyCode::Char(c) => {
            if c == 'q' || (c == 'c' && key.control) {
                true
            } else if c == 'c' {
                log_store.clear_filtered(state.filter);
                state.scroll_offset = 0;
                state.follow = true;
                false
            } else if c == '1' {
                select_filter(state, Some(Service::Api));
                false
            } else if c == '2' {
                select_filter(state, Some(Service::Web));
                false
            } else if c == '3' {
                select_filter(state, Some(Service::Common));
                false
            } else if c == '4' {
                select_filter(state, Some(Service::DevTools));
                false
            } else if c == '5' {
                select_filter(state, Some(Service::Docs));
                false
            } else if c == '6' {
                select_filter(state, Some(Service::System));
                false
            } else if c == 'x' {
                state.auto_clear = !state.auto_clear;
                false
            } else if c == 'a' {
                select_filter(state, None);
                false
            } else if c == 'j' {
                scroll_down_by(state, 1, max_offset);
                false
            } else if c == 'k' {
                scroll_up_by(state, 1, max_offset);
                false
            } else if c == 'd' && key.control {
                scroll_down_by(state, page_jump, max_offset);
                false
            } else if c == 'u' && key.control {
                scroll_up_by(state, page_jump, max_offset);
                false
            } else if c == 'g' {
                state.pending_g = true;
                false
            } else if c == 'G' {
                state.follow = true;
                false
            } else {
                false
            }
        },
        KeyCode::Down => {
            scroll_down_by(state, 1, max_offset);
            false
        },
        KeyCode::Up => {
            scroll_up_by(state, 1, max_offset);
            false
        },
        KeyCode::Other => false,
    }
}

// ---------------------------------------------------------------------------
// Orchestrator events
// ---------------------------------------------------------------------------

/// Events the orchestrator sends to the view.
pub enum TuiEvent {
    /// A new log line.
    Log(LogEntry),
    /// A batch of work starts: clear the logs if automatic clearing is on.
    ClearLogs,
    /// A service started.
    ServiceStarted(Service),
    /// A service exited.
    ServiceExited(Service),
}

/// Applies an orchestrator event to the store and the view state.
pub fn apply_tui_event(log_store: &mut LogStore, state: &mut AppState, event: TuiEvent)
    ensures
        match event {
            TuiEvent::Log(entry) => final(log_store)@ == old(log_store)@.push(entry) && *final(state)
                == *old(state),
            TuiEvent::ClearLogs => if old(state).auto_clear {
                final(log_store)@ == Seq::<LogEntry>::empty() && *final(state) == AppState {
                    scroll_offset: 0,
                    follow: true,
                    ..*old(state)
                }
            } else {
                final(log_store)@ == old(log_store)@ && *final(state) == *old(state)
            },
            TuiEvent::ServiceStarted(svc) => final(log_store)@ == old(log_store)@
                && final(state).services_running@ == old(state).services_running@.update(
                service_slot(svc),
                true,
            ) && *final(state) == AppState {
                services_running: final(state).services_running,
                ..*old(state)
            },
            TuiEvent::ServiceExited(svc) => final(log_store)@ == old(log_store)@
                && final(state).services_running@ == old(state).services_running@.update(
                service_slot(svc),
                false,
            ) && *final(state) == AppState {
                services_running: final(state).services_running,
                ..*old(state)
            },
        },
{
    match event {
        TuiEvent::Log(entry) => {
            log_store.push(entry);
        },
        TuiEvent::ClearLogs => {
            if state.auto_clear {
                log_store.clear();
                state.scroll_offset = 0;
                state.follow = true;
            }
        },
        TuiEvent::ServiceStarted(service) => {
            let i = service.slot();
            state.services_running[i] = true;
        },
        TuiEvent::ServiceExited(service) => {
            let i = service.slot();
            state.services_running[i] = false;
        },
    }
}

// ---------------------------------------------------------------------------
// Laws
// ---------------------------------------------------------------------------

/// Keys keep the scroll offset within the scrollable range: starting from
/// an offset no larger than `max_offset`, no key press leaves it larger.
pub proof fn law_scroll_stays_in_range(s: AppState, k: KeyPress, max_offset: usize, page_jump: usize)
    requires
        s.scroll_offset <= max_offset,
    ensures
        key_outcome(s, k, max_offset as int, page_jump as int).state.scroll_offset <= max_offset,
{
}

/// `x` pressed twice leaves automatic clearing as it was.
pub proof fn law_auto_clear_toggle_twice(s: AppState, max_offset: usize, page_jump: usize)
    requires
        !s.pending_g,
    ensures
        ({
            let x = KeyPress { code: KeyCode::Char('x'), control: false };
            let once = key_outcome(s, x, max_offset as int, page_jump as int).state;
            key_outcome(once, x, max_offset as int, page_jump as int).state == s
        }),
{
}

/// `g` then `g` jumps to the top and stops following.
pub proof fn law_gg_jumps_to_top(s: AppState, max_offset: usize, page_jump: usize)
    requires
        !s.pending_g,
    ensures
        ({
            let g = KeyPress { code: KeyCode::Char('g'), control: false };
            let first = key_outcome(s, g, max_offset as int, page_jump as int);
            let second = key_outcome(first.state, g, max_offset as int, page_jump as int);
            &&& !first.quit && !second.quit
            &&& second.state.scroll_offset == 0
            &&& !second.state.follow
            &&& !second.state.pending_g
        }),
{
}

} // verus!
