//! Layout of the route editor: its sections and their heights, which of
//! them fit on screen, and scrolling by sections.

use vstd::prelude::*;
use crate::api_messages::{InputMode, LayoutMode};
use crate::text::{string_from_chars, to_chars};

verus! {

/// A section of the route editor.
#[derive(Debug, Clone, Copy, PartialEq, Eq, Structural)]
pub enum EditorSectionKind {
    Name,
    Group,
    NewGroup,
    Method,
    Url,
    Headers,
    BodyStatus,
    BodyPreview,
}

/// A section and its height in rows.
#[derive(Debug, Clone, Copy, PartialEq, Eq, Structural)]
pub struct EditorSection {
    pub kind: EditorSectionKind,
    pub height: u16,
}

/// Rows of the body status section.
pub const BODY_STATUS_HEIGHT: u16 = 3;
/// Rows the body preview adds around its lines.
pub const BODY_PREVIEW_CHROME_HEIGHT: u16 = 4;
/// Rows of the editor footer at most.
pub const EDITOR_FOOTER_MAX_HEIGHT: u16 = 1;
/// Width from which the route list shows a preview beside it.
pub const ROUTE_PREVIEW_MIN_WIDTH: u16 = 110;

/// `a + b` saturating at `u16::MAX`.
pub open spec fn sat16(a: int, b: int) -> int {
    if a + b > u16::MAX {
        u16::MAX as int
    } else {
        a + b
    }
}

/// The sections of the editor: name, group, the new-group input when it
/// is selected, method, URL, headers, body status, and the body preview
/// (its lines, at least one, plus its frame) when there is one.
pub open spec fn sections_of(show_new_group: bool, preview_lines: Option<nat>) -> Seq<EditorSection> {
    let head = seq![
        EditorSection { kind: EditorSectionKind::Name, height: 3 },
        EditorSection { kind: EditorSectionKind::Group, height: 3 },
    ];
    let group = if show_new_group {
        seq![EditorSection { kind: EditorSectionKind::NewGroup, height: 3 }]
    } else {
        Seq::empty()
    };
    let rest = seq![
        EditorSection { kind: EditorSectionKind::Method, height: 3 },
        EditorSection { kind: EditorSectionKind::Url, height: 3 },
        EditorSection { kind: EditorSectionKind::Headers, height: 3 },
        EditorSection { kind: EditorSectionKind::BodyStatus, height: BODY_STATUS_HEIGHT },
    ];
    let preview = match preview_lines {
        Some(n) => {
            let lines = if n < 1 {
                1
            } else if n > u16::MAX {
                u16::MAX as int
            } else {
                n as int
            };
            seq![
                EditorSection {
                    kind: EditorSectionKind::BodyPreview,
                    height: sat16(lines, BODY_PREVIEW_CHROME_HEIGHT as int) as u16,
                },
            ]
        },
        None => Seq::empty(),
    };
    head + group + rest + preview
}

/// The sections of the editor.
pub fn editor_sections(show_new_group: bool, preview_lines: Option<usize>) -> (r: Vec<EditorSection>)
    ensures
        r@ == sections_of(
            show_new_group,
            match preview_lines {
                Some(n) => Some(n as nat),
                None => None,
            },
        ),
{
    let mut s: Vec<EditorSection> = Vec::new();
    s.push(EditorSection { kind: EditorSectionKind::Name, height: 3 });
    s.push(EditorSection { kind: EditorSectionKind::Group, height: 3 });
    if show_new_group {
        s.push(EditorSection { kind: EditorSectionKind::NewGroup, height: 3 });
    }
    s.push(EditorSection { kind: EditorSectionKind::Method, height: 3 });
    s.push(EditorSection { kind: EditorSectionKind::Url, height: 3 });
    s.push(EditorSection { kind: EditorSectionKind::Headers, height: 3 });
    s.push(EditorSection { kind: EditorSectionKind::BodyStatus, height: BODY_STATUS_HEIGHT });
    match preview_lines {
        Some(n) => {
            let lines: u16 = if n < 1 {
                1
            } else if n > 65535 {
                65535
            } else {
                n as u16
            };
            let height: u16 = if lines > u16::MAX - BODY_PREVIEW_CHROME_HEIGHT {
                u16::MAX
            } else {
                lines + BODY_PREVIEW_CHROME_HEIGHT
            };
            s.push(EditorSection { kind: EditorSectionKind::BodyPreview, height });
        },
        None => {},
    }
    proof {
        assert(s@ =~= sections_of(
            show_new_group,
            match preview_lines {
                Some(n) => Some(n as nat),
                None => None,
            },
        ));
    }
    s
}

/// The end (exclusive) of the run of sections from `i` that fits in
/// `avail` rows, `used` rows being taken already.
pub open spec fn fit_end(s: Seq<EditorSection>, i: int, used: int, avail: int) -> int
    decreases s.len() - i,
{
    if i >= s.len() || i < 0 {
        s.len() as int
    } else {
        let nu = sat16(used, s[i].height as int);
        if nu > avail {
            i
        } else {
            fit_end(s, i + 1, nu, avail)
        }
    }
}

/// The sections shown from `start`: `(start, end)` with `start` kept within
/// the sections; `(0, 0)` with no sections or no room.
pub open spec fn visible_range(s: Seq<EditorSection>, start: int, avail: int) -> (int, int) {
    if s.len() == 0 || avail == 0 {
        (0, 0)
    } else {
        let st = if start < s.len() - 1 {
            start
        } else {
            s.len() - 1
        };
        (st, fit_end(s, st, 0, avail))
    }
}

proof fn lemma_fit_end_bounds(s: Seq<EditorSection>, i: int, used: int, avail: int)
    requires
        0 <= i <= s.len(),
    ensures
        i <= fit_end(s, i, used, avail) <= s.len(),
    decreases s.len() - i,
{
    if i < s.len() {
        let nu = sat16(used, s[i].height as int);
        if nu <= avail {
            lemma_fit_end_bounds(s, i + 1, nu, avail);
        }
    }
}

/// The sections shown from `start`.
pub fn editor_visible_range(sections: &Vec<EditorSection>, start: usize, available_height: u16) -> (r: (
    usize,
    usize,
))
    ensures
        (r.0 as int, r.1 as int) == visible_range(sections@, start as int, available_height as int),
        r.0 <= r.1 <= sections@.len(),
{
    if sections.len() == 0 || available_height == 0 {
        return (0, 0);
    }
    let st = if start < sections.len() - 1 {
        start
    } else {
        sections.len() - 1
    };
    let mut end = st;
    let mut used: u16 = 0;
    let mut go = true;
    proof {
        lemma_fit_end_bounds(sections@, st as int, 0, available_height as int);
    }
    while go && end < sections.len()
        invariant
            st <= end <= sections@.len(),
            go ==> fit_end(sections@, st as int, 0, available_height as int) == fit_end(
                sections@,
                end as int,
                used as int,
                available_height as int,
            ),
            !go ==> fit_end(sections@, st as int, 0, available_height as int) == end,
        decreases sections.len() - end, if go { 1int } else { 0int },
    {
        let h = sections[end].height;
        let nu: u16 = if used > u16::MAX - h {
            u16::MAX
        } else {
            used + h
        };
        if nu > available_height {
            go = false;
        } else {
            used = nu;
            end += 1;
        }
    }
    (st, end)
}

/// The first of the sections before `a` that can be added in front while
/// all still fit, `used` rows being taken by the sections from `a`.
pub open spec fn back_extend(s: Seq<EditorSection>, a: int, used: int, avail: int) -> int
    decreases a,
{
    if a <= 0 || a > s.len() {
        0
    } else {
        let nu = sat16(used, s[a - 1].height as int);
        if nu > avail {
            a
        } else {
            back_extend(s, a - 1, nu, avail)
        }
    }
}

/// Rows taken by the sections `[a, b)`, saturating.
pub open spec fn rows_of(s: Seq<EditorSection>, a: int, b: int) -> int
    decreases b - a,
{
    if b <= a {
        0
    } else {
        sat16(rows_of(s, a, b - 1), s[b - 1].height as int)
    }
}

fn extend_back(sections: &Vec<EditorSection>, a: usize, used: u16, available_height: u16) -> (r: usize)
    requires
        a <= sections@.len(),
    ensures
        r as int == back_extend(sections@, a as int, used as int, available_height as int),
        r <= a,
{
    let mut start = a;
    let mut u = used;
    let mut go = true;
    while go && start > 0
        invariant
            start <= a <= sections@.len(),
            go ==> back_extend(sections@, a as int, used as int, available_height as int) == back_extend(
                sections@,
                start as int,
                u as int,
                available_height as int,
            ),
            !go ==> back_extend(sections@, a as int, used as int, available_height as int) == start,
        decreases start, if go { 1int } else { 0int },
    {
        let h = sections[start - 1].height;
        let nu: u16 = if u > u16::MAX - h {
            u16::MAX
        } else {
            u + h
        };
        if nu > available_height {
            go = false;
        } else {
            u = nu;
            start -= 1;
        }
    }
    start
}

/// Where the editor starts so that no room is left empty below the last
/// section: the start moves up while earlier sections still fit.
pub open spec fn aligned_start(s: Seq<EditorSection>, start: int, avail: int) -> int {
    if s.len() == 0 || avail == 0 {
        0
    } else {
        let (a, end) = visible_range(s, start, avail);
        if end < s.len() {
            a
        } else {
            back_extend(s, a, rows_of(s, a, end), avail)
        }
    }
}

/// Where the editor starts so that no room is left empty below the last
/// section.
pub fn editor_aligned_start(sections: &Vec<EditorSection>, start: usize, available_height: u16) -> (r:
    usize)
    ensures
        r as int == aligned_start(sections@, start as int, available_height as int),
{
    if sections.len() == 0 || available_height == 0 {
        return 0;
    }
    let (a, end) = editor_visible_range(sections, start, available_height);
    if end < sections.len() {
        return a;
    }
    let mut used: u16 = 0;
    let mut i: usize = a;
    while i < end
        invariant
            a <= i <= end <= sections@.len(),
            used as int == rows_of(sections@, a as int, i as int),
        decreases end - i,
    {
        let h = sections[i].height;
        used = if used > u16::MAX - h {
            u16::MAX
        } else {
            used + h
        };
        i += 1;
    }
    extend_back(sections, a, used, available_height)
}

/// Rows of all sections.
pub open spec fn total_height(s: Seq<EditorSection>) -> int
    decreases s.len(),
{
    if s.len() == 0 {
        0
    } else {
        total_height(s.drop_last()) + s.last().height
    }
}

proof fn lemma_total_prefix(s: Seq<EditorSection>, i: int)
    requires
        0 <= i <= s.len(),
    ensures
        total_height(s.take(i)) <= total_height(s),
    decreases s.len() - i,
{
    if i < s.len() {
        assert(s.take(i + 1).drop_last() =~= s.take(i));
        lemma_total_prefix(s, i + 1);
    } else {
        assert(s.take(i) =~= s);
    }
}

/// Rows of all sections.
pub fn editor_total_height(sections: &Vec<EditorSection>) -> (r: usize)
    requires
        total_height(sections@) <= usize::MAX,
    ensures
        r as int == total_height(sections@),
{
    let mut total: usize = 0;
    let mut i: usize = 0;
    while i < sections.len()
        invariant
            i <= sections@.len(),
            total_height(sections@) <= usize::MAX,
            total as int == total_height(sections@.take(i as int)),
        decreases sections.len() - i,
    {
        proof {
            assert(sections@.take(i + 1).drop_last() =~= sections@.take(i as int));
            lemma_total_prefix(sections@, i + 1);
        }
        total = total + sections[i].height as usize;
        i += 1;
    }
    proof {
        assert(sections@.take(i as int) =~= sections@);
    }
    total
}

/// Rows of the editor footer for a screen height.
pub open spec fn footer_height(h: u16) -> u16 {
    if h == 0 {
        0
    } else if h < EDITOR_FOOTER_MAX_HEIGHT + 1 {
        1
    } else {
        EDITOR_FOOTER_MAX_HEIGHT
    }
}

/// Rows of the editor footer for a screen height.
pub fn editor_footer_height_for_height(height: u16) -> (r: u16)
    ensures
        r == footer_height(height),
{
    if height == 0 {
        0
    } else if height < EDITOR_FOOTER_MAX_HEIGHT + 1 {
        1
    } else {
        EDITOR_FOOTER_MAX_HEIGHT
    }
}

/// Rows left for the editor's sections.
pub fn editor_content_viewport_height(height: u16) -> (r: u16)
    ensures
        r == height - footer_height(height),
        r < u16::MAX,
{
    height - editor_footer_height_for_height(height)
}

/// The scroll offset kept within the sections.
pub open spec fn clamped_offset(offset: int, count: int) -> int {
    if count == 0 {
        0
    } else if offset < count - 1 {
        offset
    } else {
        count - 1
    }
}

/// The scroll offset kept within the sections.
pub fn clamp_editor_scroll_offset(offset: usize, count: usize) -> (r: usize)
    ensures
        r as int == clamped_offset(offset as int, count as int),
{
    if count == 0 {
        0
    } else if offset < count - 1 {
        offset
    } else {
        count - 1
    }
}

/// The offset moved by `delta` sections, kept within the sections.
pub open spec fn scrolled_by(offset: int, delta: int, count: int) -> int {
    if count == 0 {
        0
    } else {
        let n = offset + delta;
        if n < 0 {
            0
        } else if n > count - 1 {
            count - 1
        } else {
            n
        }
    }
}

fn scroll_wide(offset: usize, delta: i128, count: usize) -> (r: usize)
    ensures
        r as int == scrolled_by(offset as int, delta as int, count as int),
{
    if count == 0 {
        return 0;
    }
    if delta >= 0 {
        if delta > count as i128 {
            return count - 1;
        }
    } else if delta < -(offset as i128) {
        return 0;
    }
    let n: i128 = offset as i128 + delta;
    if n > (count - 1) as i128 {
        count - 1
    } else {
        n as usize
    }
}

/// The offset moved by `delta` sections.
pub fn scroll_editor_by(offset: usize, delta: isize, count: usize) -> (r: usize)
    ensures
        r as int == scrolled_by(offset as int, delta as int, count as int),
{
    scroll_wide(offset, delta as i128, count)
}

/// A page down (`direction` 1) or up (-1): by the sections shown, less
/// one, at least one.
pub open spec fn paged(offset: int, direction: int, s: Seq<EditorSection>, avail: int) -> int {
    if s.len() == 0 {
        0
    } else {
        let o = clamped_offset(offset, s.len() as int);
        if avail == 0 {
            o
        } else {
            let (start, end) = visible_range(s, o, avail);
            let shown = end - start;
            let step = if shown - 1 > 1 {
                shown - 1
            } else {
                1
            };
            scrolled_by(o, direction * step, s.len() as int)
        }
    }
}

/// A page down or up.
pub fn scroll_editor_page(offset: usize, direction: isize, sections: &Vec<EditorSection>, available_height: u16) -> (r:
    usize)
    ensures
        r as int == paged(offset as int, direction as int, sections@, available_height as int),
{
    if sections.len() == 0 {
        return 0;
    }
    let o = clamp_editor_scroll_offset(offset, sections.len());
    if available_height == 0 {
        return o;
    }
    let (start, end) = editor_visible_range(sections, o, available_height);
    let shown = end - start;
    let step: usize = if shown > 2 {
        shown - 1
    } else {
        1
    };
    proof {
        assert(-0x7fff_ffff_ffff_ffff_8000_0000_0000_0000 <= direction as int * step as int
            <= 0x7fff_ffff_ffff_ffff_8000_0000_0000_0000) by (nonlinear_arith)
            requires
                -0x8000_0000_0000_0000 <= direction <= 0x7fff_ffff_ffff_ffff,
                0 <= step <= 0xffff_ffff_ffff_ffff,
        {
        }
    }
    let delta: i128 = direction as i128 * step as i128;
    scroll_wide(o, delta, sections.len())
}

/// The index of the first section of kind `k`, or -1.
pub open spec fn section_index(s: Seq<EditorSection>, k: EditorSectionKind) -> int
    decreases s.len(),
{
    if s.len() == 0 {
        -1
    } else if s.last().kind == k && section_index(s.drop_last(), k) < 0 {
        s.len() - 1
    } else {
        section_index(s.drop_last(), k)
    }
}

/// The offset that shows the section of kind `k`: kept when it is shown
/// already, moved up to it when it is above, moved down so that it is the
/// last one shown when it is below; unchanged (within the sections) when
/// there is no such section.
pub open spec fn offset_showing(offset: int, s: Seq<EditorSection>, k: EditorSectionKind, avail: int) -> int {
    if s.len() == 0 {
        0
    } else {
        let o = clamped_offset(offset, s.len() as int);
        let t = section_index(s, k);
        if t < 0 {
            o
        } else if avail == 0 {
            t
        } else {
            let (start, end) = visible_range(s, o, avail);
            if t < start {
                t
            } else if t >= end {
                back_extend(s, t, s[t].height as int, avail)
            } else {
                o
            }
        }
    }
}

fn find_section(sections: &Vec<EditorSection>, kind: EditorSectionKind) -> (r: Option<usize>)
    ensures
        match r {
            Some(i) => i as int == section_index(sections@, kind) && i < sections@.len(),
            None => section_index(sections@, kind) < 0,
        },
{
    let mut i: usize = 0;
    while i < sections.len()
        invariant
            i <= sections@.len(),
            section_index(sections@.take(i as int), kind) < 0,
        decreases sections.len() - i,
    {
        proof {
            assert(sections@.take(i + 1).drop_last() =~= sections@.take(i as int));
        }
        if sections[i].kind == kind {
            proof {
                assert(section_index(sections@.take(i + 1), kind) == i);
                lemma_section_index_prefix(sections@, i + 1, kind);
            }
            return Some(i);
        }
        i += 1;
    }
    proof {
        assert(sections@.take(i as int) =~= sections@);
    }
    None
}

proof fn lemma_section_index_prefix(s: Seq<EditorSection>, n: int, k: EditorSectionKind)
    requires
        0 <= n <= s.len(),
        section_index(s.take(n), k) >= 0,
    ensures
        section_index(s, k) == section_index(s.take(n), k),
    decreases s.len() - n,
{
    if n < s.len() {
        assert(s.take(n + 1).drop_last() =~= s.take(n));
        lemma_section_index_prefix(s, n + 1, k);
    } else {
        assert(s.take(n) =~= s);
    }
}

/// The offset that shows the section of kind `kind`.
pub fn ensure_editor_section_visible(
    offset: usize,
    sections: &Vec<EditorSection>,
    kind: EditorSectionKind,
    available_height: u16,
) -> (r: usize)
    ensures
        r as int == offset_showing(offset as int, sections@, kind, available_height as int),
{
    if sections.len() == 0 {
        return 0;
    }
    let o = clamp_editor_scroll_offset(offset, sections.len());
    let t = match find_section(sections, kind) {
        Some(t) => t,
        None => {
            return o;
        },
    };
    if available_height == 0 {
        return t;
    }
    let (start, end) = editor_visible_range(sections, o, available_height);
    if t < start {
        return t;
    }
    if t >= end {
        return extend_back(sections, t, sections[t].height, available_height);
    }
    o
}

/// The footer text: the input mode, and the directions in which the
/// editor can scroll.
pub open spec fn mode_text(mode: InputMode, up: bool, down: bool) -> Seq<char> {
    let label = match mode {
        InputMode::Normal => "-- NORMAL --"@,
        InputMode::Insert => "-- INSERT --"@,
    };
    if up && down {
        label + " | scroll: up/down"@
    } else if up {
        label + " | scroll: up"@
    } else if down {
        label + " | scroll: down"@
    } else {
        label
    }
}

/// The footer text.
pub fn editor_mode_text(mode: InputMode, can_scroll_up: bool, can_scroll_down: bool) -> (r: String)
    ensures
        r@ == mode_text(mode, can_scroll_up, can_scroll_down),
{
    let mut out = match mode {
        InputMode::Normal => to_chars("-- NORMAL --"),
        InputMode::Insert => to_chars("-- INSERT --"),
    };
    if can_scroll_up && can_scroll_down {
        crate::text::push_str(&mut out, " | scroll: up/down");
    } else if can_scroll_up {
        crate::text::push_str(&mut out, " | scroll: up");
    } else if can_scroll_down {
        crate::text::push_str(&mut out, " | scroll: down");
    }
    string_from_chars(out.as_slice())
}

/// The layout for a screen width: wide from 110 columns, medium from 80,
/// narrow below.
pub open spec fn layout_for(width: u16) -> LayoutMode {
    if width >= ROUTE_PREVIEW_MIN_WIDTH {
        LayoutMode::Wide
    } else if width >= 80 {
        LayoutMode::Medium
    } else {
        LayoutMode::Narrow
    }
}

/// The layout for a screen width.
pub fn layout_mode_for_width(width: u16) -> (r: LayoutMode)
    ensures
        r == layout_for(width),
{
    if width >= ROUTE_PREVIEW_MIN_WIDTH {
        LayoutMode::Wide
    } else if width >= 80 {
        LayoutMode::Medium
    } else {
        LayoutMode::Narrow
    }
}

// ---------------------------------------------------------------------------
// Laws
// ---------------------------------------------------------------------------

proof fn lemma_fit_end_fits(s: Seq<EditorSection>, a: int, i: int, used: int, avail: int)
    requires
        0 <= a <= i <= s.len(),
        used == rows_of(s, a, i),
        used <= avail,
    ensures
        rows_of(s, a, fit_end(s, i, used, avail)) <= avail,
        fit_end(s, i, used, avail) < s.len() ==> rows_of(s, a, fit_end(s, i, used, avail) + 1) > avail,
    decreases s.len() - i,
{
    if i < s.len() {
        let nu = sat16(used, s[i].height as int);
        assert(rows_of(s, a, i + 1) == nu);
        if nu <= avail {
            lemma_fit_end_fits(s, a, i + 1, nu, avail);
        }
    }
}

/// The sections shown fit in the rows available, and the next section
/// would not.
pub proof fn law_visible_sections_fit(s: Seq<EditorSection>, start: int, avail: int)
    requires
        s.len() > 0,
        0 < avail,
        0 <= start,
    ensures
        ({
            let (a, e) = visible_range(s, start, avail);
            &&& rows_of(s, a, e) <= avail
            &&& (e < s.len() ==> rows_of(s, a, e + 1) > avail)
        }),
{
    let (a, e) = visible_range(s, start, avail);
    assert(rows_of(s, a, a) == 0);
    lemma_fit_end_fits(s, a, a, 0, avail);
}

/// Scrolling by any amount keeps the offset on a section.
pub proof fn law_scroll_stays_on_a_section(offset: int, delta: int, count: int)
    requires
        count > 0,
    ensures
        0 <= scrolled_by(offset, delta, count) < count,
{
}

} // verus!
