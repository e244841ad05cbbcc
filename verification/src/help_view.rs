//! The API tester's keymap help page and the scrolling of wrapped text
//! pages.

use vstd::prelude::*;
use crate::api_messages::ActiveView;
use crate::collection::strings_view;
use crate::text::{string_from_chars, to_chars};

verus! {

// ---------------------------------------------------------------------------
// Keymaps
// ---------------------------------------------------------------------------

/// The heading of a view's keymaps.
pub open spec fn keymap_title(view: ActiveView) -> Seq<char> {
    match view {
        ActiveView::RouteList => "Route List"@,
        ActiveView::RouteEditor => "Route Editor"@,
        ActiveView::RequestPreview => "Request Preview"@,
        ActiveView::ResponseViewer => "Response Viewer"@,
        ActiveView::VariableManager => "Variable Manager"@,
        ActiveView::KeymapHelp => "Keymaps"@,
    }
}

/// The shortcuts of a view.
pub open spec fn keymap_lines(view: ActiveView) -> Seq<Seq<char>> {
    match view {
        ActiveView::RouteList => seq![
            "j/k or Up/Down: Move selection"@,
            "Enter: Expand group or open request preview"@,
            "Tab/Shift+Tab: Jump between groups"@,
            "gg/G or Home/End: Jump top/bottom"@,
            "e: Edit route | n: New route | d: Delete route"@,
            "v: Open global variables"@,
        ],
        ActiveView::RouteEditor => seq![
            "i: Enter insert mode"@,
            "Ctrl+S: Save route"@,
            "Esc: Return to normal mode (insert only)"@,
            "Tab/Shift+Tab: Focus next/previous field"@,
            "b: Edit request body"@,
            "v: Global vars | V: Route-scoped vars"@,
            "j/k or Up/Down/PgUp/PgDn: Scroll"@,
            "gg/G: Jump top/bottom"@,
        ],
        ActiveView::RequestPreview => seq![
            "r: Execute request"@,
            "b: Edit request body"@,
            "j/k or Up/Down/PgUp/PgDn: Scroll"@,
            "gg/G: Jump top/bottom"@,
        ],
        ActiveView::ResponseViewer => seq![
            "j/k or Up/Down: Scroll"@,
            "PgUp/PgDn: Page scroll"@,
            "gg/G or Home/End: Jump top/bottom"@,
        ],
        ActiveView::VariableManager => seq![
            "a: Add variable | e: Edit variable | d: Delete variable"@,
            "i: Enter insert mode"@,
            "Ctrl+S: Save variable"@,
            "Esc: Return to normal mode (insert only)"@,
            "Tab/Shift+Tab: Focus next/previous field"@,
            "s: Toggle hidden values"@,
            "j/k or Up/Down: Move selection"@,
            "gg/G or Home/End: Jump top/bottom"@,
        ],
        ActiveView::KeymapHelp => seq!["Press ? to return."@],
    }
}

fn strings_of(items: &[&str]) -> (r: Vec<String>)
    ensures
        strings_view(r@) == items@.map_values(|s: &str| s@),
{
    let mut out: Vec<String> = Vec::new();
    let mut i: usize = 0;
    while i < items.len()
        invariant
            i <= items@.len(),
            strings_view(out@) == items@.take(i as int).map_values(|s: &str| s@),
        decreases items.len() - i,
    {
        let ghost before = out@;
        out.push(string_from_chars(to_chars(items[i]).as_slice()));
        proof {
            assert(strings_view(out@) =~= strings_view(before).push(items@[i as int]@));
            assert(items@.take(i + 1).map_values(|s: &str| s@) =~= items@.take(i as int).map_values(
                |s: &str| s@,
            ).push(items@[i as int]@));
        }
        i += 1;
    }
    proof {
        assert(items@.take(i as int) =~= items@);
    }
    out
}

/// The heading and shortcuts of a view.
pub fn view_keymap_entries(view: ActiveView) -> (r: (String, Vec<String>))
    ensures
        r.0@ == keymap_title(view),
        strings_view(r.1@) == keymap_lines(view),
{
    let (title, items): (&str, Vec<&str>) = match view {
        ActiveView::RouteList => (
            "Route List",
            vec![
                "j/k or Up/Down: Move selection",
                "Enter: Expand group or open request preview",
                "Tab/Shift+Tab: Jump between groups",
                "gg/G or Home/End: Jump top/bottom",
                "e: Edit route | n: New route | d: Delete route",
                "v: Open global variables",
            ],
        ),
        ActiveView::RouteEditor => (
            "Route Editor",
            vec![
                "i: Enter insert mode",
                "Ctrl+S: Save route",
                "Esc: Return to normal mode (insert only)",
                "Tab/Shift+Tab: Focus next/previous field",
                "b: Edit request body",
                "v: Global vars | V: Route-scoped vars",
                "j/k or Up/Down/PgUp/PgDn: Scroll",
                "gg/G: Jump top/bottom",
            ],
        ),
        ActiveView::RequestPreview => (
            "Request Preview",
            vec![
                "r: Execute request",
                "b: Edit request body",
                "j/k or Up/Down/PgUp/PgDn: Scroll",
                "gg/G: Jump top/bottom",
            ],
        ),
        ActiveView::ResponseViewer => (
            "Response Viewer",
            vec!["j/k or Up/Down: Scroll", "PgUp/PgDn: Page scroll", "gg/G or Home/End: Jump top/bottom"],
        ),
        ActiveView::VariableManager => (
            "Variable Manager",
            vec![
                "a: Add variable | e: Edit variable | d: Delete variable",
                "i: Enter insert mode",
                "Ctrl+S: Save variable",
                "Esc: Return to normal mode (insert only)",
                "Tab/Shift+Tab: Focus next/previous field",
                "s: Toggle hidden values",
                "j/k or Up/Down: Move selection",
                "gg/G or Home/End: Jump top/bottom",
            ],
        ),
        ActiveView::KeymapHelp => ("Keymaps", vec!["Press ? to return."]),
    };
    let lines = strings_of(items.as_slice());
    proof {
        assert(items@.map_values(|s: &str| s@) =~= keymap_lines(view));
    }
    (string_from_chars(to_chars(title).as_slice()), lines)
}

/// The global shortcuts that open the help page.
pub open spec fn global_help_lines() -> Seq<Seq<char>> {
    seq![
        "Global"@,
        "q: Quit"@,
        "?: Open/close keymap helper"@,
        "H/L: Back/forward in navigation history"@,
        "j/k or Up/Down: Scroll helper"@,
        "PgUp/PgDn or gg/G: Page/top/bottom"@,
        ""@,
    ]
}

/// The help page for a view: the global shortcuts, then the view's heading
/// and shortcuts. Headings are the first line and the line after the
/// blank one.
pub open spec fn help_lines(view: ActiveView) -> Seq<Seq<char>> {
    global_help_lines() + seq![keymap_title(view)] + keymap_lines(view)
}

/// The help page for a view.
pub fn keymap_help_lines(view: ActiveView) -> (r: Vec<String>)
    ensures
        strings_view(r@) == help_lines(view),
{
    let globals: Vec<&str> = vec![
            "Global",
            "q: Quit",
            "?: Open/close keymap helper",
            "H/L: Back/forward in navigation history",
            "j/k or Up/Down: Scroll helper",
            "PgUp/PgDn or gg/G: Page/top/bottom",
            "",
        ];
    let mut lines = strings_of(globals.as_slice());
    proof {
        assert(globals@.map_values(|s: &str| s@) =~= global_help_lines());
    }
    let (title, entries) = view_keymap_entries(view);
    let ghost before = lines@;
    lines.push(title);
    let mut i: usize = 0;
    proof {
        assert(strings_view(lines@) =~= global_help_lines() + seq![keymap_title(view)]);
    }
    while i < entries.len()
        invariant
            i <= entries@.len(),
            strings_view(entries@) == keymap_lines(view),
            strings_view(lines@) == global_help_lines() + seq![keymap_title(view)] + keymap_lines(
                view,
            ).take(i as int),
        decreases entries.len() - i,
    {
        let ghost b = lines@;
        lines.push(string_from_chars(crate::text::string_chars(&entries[i]).as_slice()));
        proof {
            assert(strings_view(lines@) =~= strings_view(b).push(entries@[i as int]@));
            assert(keymap_lines(view).take(i + 1) =~= keymap_lines(view).take(i as int).push(
                entries@[i as int]@,
            ));
        }
        i += 1;
    }
    proof {
        assert(keymap_lines(view).take(i as int) =~= keymap_lines(view));
    }
    lines
}

/// The view whose shortcuts the help page shows: the one it was opened
/// from, else the active one (the route list for the help page itself).
pub open spec fn help_target(return_view: Option<ActiveView>, active: ActiveView) -> ActiveView {
    match return_view {
        Some(v) => v,
        None => if active == ActiveView::KeymapHelp {
            ActiveView::RouteList
        } else {
            active
        },
    }
}

/// The view whose shortcuts the help page shows.
pub fn keymap_help_target_view(return_view: Option<ActiveView>, active: ActiveView) -> (r: ActiveView)
    ensures
        r == help_target(return_view, active),
{
    match return_view {
        Some(v) => v,
        None => if active == ActiveView::KeymapHelp {
            ActiveView::RouteList
        } else {
            active
        },
    }
}

/// Where the help page was opened from and how far it is scrolled.
#[derive(Debug, Clone, Copy, PartialEq, Eq, Structural)]
pub struct KeymapHelpState {
    pub return_view: Option<ActiveView>,
    pub scroll_offset: usize,
}

impl KeymapHelpState {
    /// Opens the help page over `active`; returns the new active view.
    pub fn open(&mut self, active: ActiveView) -> (r: ActiveView)
        ensures
            active == ActiveView::KeymapHelp ==> r == active && *final(self) == *old(self),
            active != ActiveView::KeymapHelp ==> r == ActiveView::KeymapHelp && *final(self)
                == (KeymapHelpState { return_view: Some(active), scroll_offset: 0 }),
    {
        if active == ActiveView::KeymapHelp {
            return active;
        }
        self.return_view = Some(active);
        self.scroll_offset = 0;
        ActiveView::KeymapHelp
    }

    /// Closes the help page; returns the new active view: the view it was
    /// opened from (the route list when unknown), or `active` when the help
    /// page is not showing.
    pub fn close(&mut self, active: ActiveView) -> (r: ActiveView)
        ensures
            r == (if active == ActiveView::KeymapHelp {
                match old(self).return_view {
                    Some(v) => v,
                    None => ActiveView::RouteList,
                }
            } else {
                active
            }),
            final(self).scroll_offset == 0,
            final(self).return_view == (if active == ActiveView::KeymapHelp {
                None
            } else {
                old(self).return_view
            }),
    {
        self.scroll_offset = 0;
        if active == ActiveView::KeymapHelp {
            let r = match self.return_view {
                Some(v) => v,
                None => ActiveView::RouteList,
            };
            self.return_view = None;
            return r;
        }
        active
    }
}

/// Opening the help page and closing it again returns to the view it was
/// opened from.
pub proof fn law_help_returns_to_its_view(active: ActiveView, state: KeymapHelpState)
    requires
        active != ActiveView::KeymapHelp,
    ensures
        ({
            let opened = KeymapHelpState { return_view: Some(active), scroll_offset: 0 };
            (match opened.return_view {
                Some(v) => v,
                None => ActiveView::RouteList,
            }) == active
        }),
{
}

// ---------------------------------------------------------------------------
// Scrolling wrapped pages
// ---------------------------------------------------------------------------

/// The number of rows `ratatui::widgets::Paragraph::line_count` gives for
/// these lines wrapped (without trimming) at a width.
pub uninterp spec fn wrapped_rows(lines: Seq<Seq<char>>, width: u16) -> nat;

/// Counts the rows the lines take when wrapped at `width`, with
/// `ratatui::widgets::Paragraph::line_count` on a paragraph that wraps
/// without trimming. The result is named [`wrapped_rows`].
#[verifier::external_body]
fn paragraph_line_count(lines: &Vec<String>, width: u16) -> (r: usize)
    ensures
        r as nat == wrapped_rows(strings_view(lines@), width),
{
    let text: Vec<ratatui::text::Line> = lines.iter().map(|l| ratatui::text::Line::from(l.as_str())).collect();
    ratatui::widgets::Paragraph::new(text).wrap(ratatui::widgets::Wrap { trim: false }).line_count(width)
}

/// Rows in all, rows shown, and the largest scroll offset of a page of
/// `rows` rows in a `height`-row area; all zero for an empty area.
pub open spec fn page_metrics(rows: nat, width: u16, height: u16) -> (int, int, int) {
    if width == 0 || height == 0 {
        (0, 0, 0)
    } else {
        (rows as int, height as int, if rows > height {
            rows - height
        } else {
            0
        })
    }
}

/// The metrics of a page of wrapped lines, the rows taken from `rows`.
pub fn metrics_for_rows(rows: usize, width: u16, height: u16) -> (r: (usize, usize, usize))
    ensures
        (r.0 as int, r.1 as int, r.2 as int) == page_metrics(rows as nat, width, height),
{
    if width == 0 || height == 0 {
        return (0, 0, 0);
    }
    let h = height as usize;
    (rows, h, if rows > h {
        rows - h
    } else {
        0
    })
}

/// The metrics of the request preview's wrapped lines in an area.
pub fn request_preview_scroll_metrics(lines: &Vec<String>, width: u16, height: u16) -> (r: (
    usize,
    usize,
    usize,
))
    ensures
        width == 0 || height == 0 ==> r == (0usize, 0usize, 0usize),
        width > 0 && height > 0 ==> (r.0 as int, r.1 as int, r.2 as int) == page_metrics(
            wrapped_rows(strings_view(lines@), width),
            width,
            height,
        ),
{
    if width == 0 || height == 0 {
        return (0, 0, 0);
    }
    let rows = paragraph_line_count(lines, width);
    metrics_for_rows(rows, width, height)
}

/// The metrics of the keymap help's wrapped lines in an area.
pub fn keymap_scroll_metrics(lines: &Vec<String>, width: u16, height: u16) -> (r: (usize, usize, usize))
    ensures
        width == 0 || height == 0 ==> r == (0usize, 0usize, 0usize),
        width > 0 && height > 0 ==> (r.0 as int, r.1 as int, r.2 as int) == page_metrics(
            wrapped_rows(strings_view(lines@), width),
            width,
            height,
        ),
{
    request_preview_scroll_metrics(lines, width, height)
}

/// A scroll offset moved by `delta` rows within `0..=max_offset`.
pub open spec fn offset_moved(offset: int, delta: int, max_offset: int) -> int {
    let n = offset + delta;
    if n < 0 {
        0
    } else if n > max_offset {
        max_offset
    } else {
        n
    }
}

/// A scroll offset moved by `delta` rows.
pub fn scroll_offset_by(offset: usize, delta: isize, max_offset: usize) -> (r: usize)
    requires
        max_offset <= isize::MAX,
    ensures
        r as int == offset_moved(offset as int, delta as int, max_offset as int),
{
    let n: i128 = offset as i128 + delta as i128;
    if n < 0 {
        0
    } else if n > max_offset as i128 {
        max_offset
    } else {
        n as usize
    }
}

/// The rows a page scroll moves on a screen: four fewer than its height,
/// at least one.
pub open spec fn page_rows(height: u16) -> int {
    if height > 5 {
        height - 4
    } else {
        1
    }
}

/// The rows a page scroll moves on a screen.
pub fn page_step(terminal_height: u16) -> (r: isize)
    ensures
        r as int == page_rows(terminal_height),
{
    if terminal_height > 5 {
        (terminal_height - 4) as isize
    } else {
        1
    }
}

} // verus!
