//! The database viewer as a state machine: the tables and loaded rows,
//! the cursor and scrolling of the grid, pending edits, the open dialogs,
//! and what each key does. The database, files and the external editor
//! stay with the caller, which performs the requested [`DbEffect`]s and
//! reports their outcome back.

use vstd::prelude::*;
use crate::api_messages::{Key, KeyEvent};
use crate::cell_edit::DateTimePicker;
use crate::collection::strings_view;
use crate::db_sql::{ColumnInfo, TableInfo};
use crate::db_view::{
    display_text, pad_to_width, sanitize_grid_text, sanitized, value_to_display, CellValue,
    CellView,
};
use crate::table::{sorted_table, table_find, table_map};
use crate::text::{push_all, push_str, string_chars, string_from_chars, to_chars};

verus! {

// ---------------------------------------------------------------------------
// The model
// ---------------------------------------------------------------------------

/// The page the viewer shows.
#[derive(Debug, Clone, Copy, PartialEq, Eq, Structural)]
pub enum ActivePage {
    Tables,
    Grid,
    Query,
}

/// A loaded row: its physical row id and its values by column name.
#[derive(Debug, Clone)]
pub struct GridRow {
    /// The row's `ctid`.
    pub ctid: String,
    /// Values by column name, in name order.
    pub values: Vec<(String, CellValue)>,
}

/// Pending edits of one loaded row.
#[derive(Debug, Clone)]
pub struct DirtyRow {
    /// Index of the row among the loaded rows.
    pub row_index: usize,
    /// New values by column name, in name order.
    pub updates: Vec<(String, CellValue)>,
}

/// What a text entry edits.
#[derive(Debug, Clone)]
pub enum TextEntryTarget {
    /// The query text.
    Query,
    /// A grid cell.
    GridCell { row_index: usize, column_name: String, column: ColumnInfo },
    /// A field of the add-row form.
    AddField { column_name: String, column: ColumnInfo },
}

/// An open text entry.
#[derive(Debug, Clone)]
pub struct TextEntry {
    pub target: TextEntryTarget,
    pub buffer: String,
}

/// A delete waiting for confirmation.
#[derive(Debug, Clone)]
pub struct DeleteConfirmation {
    /// Row ids to delete.
    pub ctids: Vec<String>,
    /// The question shown.
    pub description: String,
}

/// The add-row form: the selected field and the values entered so far.
#[derive(Debug, Clone)]
pub struct AddForm {
    pub selected_field: usize,
    /// One entry per column, by name; `None` when nothing was entered.
    pub values: Vec<(String, Option<CellValue>)>,
}

/// One choice of a value picker.
#[derive(Debug, Clone)]
pub struct PickerOption {
    pub label: String,
    pub value: CellValue,
}

/// An open value picker for an enum or boolean cell.
#[derive(Debug, Clone)]
pub struct ValuePicker {
    pub row_index: usize,
    pub column_name: String,
    pub column_type: String,
    pub options: Vec<PickerOption>,
    pub selected_index: usize,
}

/// The whole state of the viewer.
#[derive(Debug, Clone)]
pub struct DbViewer {
    pub tables: Vec<TableInfo>,
    pub selected_table: usize,
    pub rows: Vec<GridRow>,
    pub selected_row: usize,
    pub selected_col: usize,
    /// Marked rows, strictly increasing.
    pub selected_rows: Vec<usize>,
    /// Pending edits, strictly increasing by row.
    pub dirty_rows: Vec<DirtyRow>,
    pub active_page: ActivePage,
    pub query: String,
    pub query_result_lines: Vec<String>,
    pub status: String,
    pub error_popup: Option<String>,
    pub help_visible: bool,
    pub text_entry: Option<TextEntry>,
    /// A committed entry waiting for its decimal text to be read.
    pub pending_entry: Option<TextEntry>,
    pub datetime_picker: Option<DateTimePicker>,
    pub value_picker: Option<ValuePicker>,
    pub confirm_delete: Option<DeleteConfirmation>,
    pub add_form: Option<AddForm>,
    pub terminal_width: u16,
    pub terminal_height: u16,
    pub grid_h_scroll: usize,
    pub grid_v_scroll: usize,
    pub pending_g: bool,
}

/// Values by column name, as a map of value views.
pub open spec fn cell_map(t: Seq<(String, CellValue)>) -> Map<Seq<char>, CellView> {
    table_map(t).map_values(|c: CellValue| c@)
}

/// Row indexes strictly increase.
pub open spec fn increasing(s: Seq<usize>) -> bool {
    forall|i: int, j: int| 0 <= i < j < s.len() ==> s[i] < s[j]
}

/// The rows of the dirty list, in order.
pub open spec fn dirty_indexes(d: Seq<DirtyRow>) -> Seq<usize> {
    d.map_values(|r: DirtyRow| r.row_index)
}

/// The pending edits as a map from row index to edited values.
pub open spec fn dirty_view(d: Seq<DirtyRow>) -> Map<int, Map<Seq<char>, CellView>> {
    Map::new(
        |r: int| exists|i: int| 0 <= i < d.len() && #[trigger] d[i].row_index == r,
        |r: int| cell_map(d[choose|i: int| 0 <= i < d.len() && #[trigger] d[i].row_index == r].updates@),
    )
}

/// The internal invariant of the viewer.
pub open spec fn viewer_wf(v: DbViewer) -> bool {
    &&& forall|i: int| 0 <= i < v.rows@.len() ==> sorted_table(#[trigger] v.rows@[i].values@)
    &&& increasing(dirty_indexes(v.dirty_rows@))
    &&& forall|i: int| 0 <= i < v.dirty_rows@.len() ==> sorted_table(#[trigger] v.dirty_rows@[i].updates@)
    &&& increasing(v.selected_rows@)
    &&& match v.add_form {
        Some(f) => sorted_table(f.values@),
        None => true,
    }
    &&& match v.datetime_picker {
        Some(p) => crate::cell_edit::valid_fields(p),
        None => true,
    }
}

/// The value a cell shows: a pending edit, else the loaded value.
pub open spec fn current_value(v: DbViewer, row: int, col: Seq<char>) -> Option<CellView> {
    let dv = dirty_view(v.dirty_rows@);
    if dv.contains_key(row) && dv[row].contains_key(col) {
        Some(dv[row][col])
    } else if 0 <= row < v.rows@.len() && cell_map(v.rows@[row].values@).contains_key(col) {
        Some(cell_map(v.rows@[row].values@)[col])
    } else {
        None
    }
}

/// The selected table, if the index is in range.
pub open spec fn selected_table_of(v: DbViewer) -> Option<TableInfo> {
    if v.selected_table < v.tables@.len() {
        Some(v.tables@[v.selected_table as int])
    } else {
        None
    }
}

proof fn lemma_dirty_at(d: Seq<DirtyRow>, i: int)
    requires
        increasing(dirty_indexes(d)),
        0 <= i < d.len(),
    ensures
        dirty_view(d).contains_key(d[i].row_index as int),
        dirty_view(d)[d[i].row_index as int] == cell_map(d[i].updates@),
{
    let r = d[i].row_index as int;
    assert(dirty_indexes(d)[i] == d[i].row_index);
    assert(exists|k: int| 0 <= k < d.len() && #[trigger] d[k].row_index == r);
    let j = choose|k: int| 0 <= k < d.len() && #[trigger] d[k].row_index == r;
    assert(dirty_indexes(d)[j] == d[j].row_index);
    if j < i {
        assert(dirty_indexes(d)[j] < dirty_indexes(d)[i]);
    } else if j > i {
        assert(dirty_indexes(d)[i] < dirty_indexes(d)[j]);
    }
}

proof fn lemma_dirty_absent(d: Seq<DirtyRow>, r: int)
    requires
        forall|i: int| 0 <= i < d.len() ==> #[trigger] d[i].row_index != r,
    ensures
        !dirty_view(d).contains_key(r),
{
}

/// Where the pending edits of `row` are, if any.
fn dirty_position(d: &Vec<DirtyRow>, row: usize) -> (r: Option<usize>)
    requires
        increasing(dirty_indexes(d@)),
    ensures
        match r {
            Some(i) => i < d@.len() && d@[i as int].row_index == row && dirty_view(d@).contains_key(
                row as int,
            ) && dirty_view(d@)[row as int] == cell_map(d@[i as int].updates@),
            None => !dirty_view(d@).contains_key(row as int),
        },
{
    let mut i: usize = 0;
    while i < d.len()
        invariant
            i <= d@.len(),
            increasing(dirty_indexes(d@)),
            forall|k: int| 0 <= k < i ==> #[trigger] d@[k].row_index != row,
        decreases d.len() - i,
    {
        if d[i].row_index == row {
            proof {
                lemma_dirty_at(d@, i as int);
            }
            return Some(i);
        }
        i += 1;
    }
    None
}

/// The value a cell shows.
pub fn current_cell_value(v: &DbViewer, row: usize, col: &Vec<char>) -> (r: Option<CellValue>)
    requires
        viewer_wf(*v),
    ensures
        match r {
            Some(c) => current_value(*v, row as int, col@) == Some(c@),
            None => current_value(*v, row as int, col@) is None,
        },
{
    match dirty_position(&v.dirty_rows, row) {
        Some(i) => {
            proof {
                assert(sorted_table(v.dirty_rows@[i as int].updates@));
            }
            match table_find(&v.dirty_rows[i].updates, col) {
                Some(k) => {
                    return Some(crate::db_view::copy_cell(&v.dirty_rows[i].updates[k].1));
                },
                None => {},
            }
        },
        None => {},
    }
    if row < v.rows.len() {
        proof {
            assert(sorted_table(v.rows@[row as int].values@));
        }
        match table_find(&v.rows[row].values, col) {
            Some(k) => Some(crate::db_view::copy_cell(&v.rows[row].values[k].1)),
            None => None,
        }
    } else {
        None
    }
}

// ---------------------------------------------------------------------------
// Grid geometry
// ---------------------------------------------------------------------------

/// `a + b`, saturating at `usize::MAX`.
pub open spec fn sat_add(a: int, b: int) -> int {
    if a + b > usize::MAX {
        usize::MAX as int
    } else {
        a + b
    }
}

/// `a - b`, saturating at zero.
pub open spec fn sat_sub(a: int, b: int) -> int {
    if a < b {
        0
    } else {
        a - b
    }
}

fn add_sat(a: usize, b: usize) -> (r: usize)
    ensures
        r == sat_add(a as int, b as int),
{
    if a > usize::MAX - b {
        usize::MAX
    } else {
        a + b
    }
}

fn sub_sat(a: usize, b: usize) -> (r: usize)
    ensures
        r == sat_sub(a as int, b as int),
{
    if a < b {
        0
    } else {
        a - b
    }
}

/// The shown width of the text of a cell: that of `NULL` when it has no
/// value.
pub open spec fn cell_width(v: DbViewer, row: int, col: Seq<char>) -> int {
    let text = match current_value(v, row, col) {
        Some(c) => display_text(c),
        None => "NULL"@,
    };
    sanitized(text).len() as int
}

/// The widest cell of a column among the first `n` rows (0 for none).
pub open spec fn widest_cell(v: DbViewer, col: Seq<char>, n: int) -> int
    decreases n,
{
    if n <= 0 {
        0
    } else {
        let w = cell_width(v, n - 1, col);
        let rest = widest_cell(v, col, n - 1);
        if w > rest {
            w
        } else {
            rest
        }
    }
}

/// The width of a grid column: its name or its widest cell, at least 1.
pub open spec fn column_width(v: DbViewer, c: ColumnInfo) -> int {
    let m = widest_cell(v, c.name@, v.rows@.len() as int);
    let w = if (c.name@.len() as int) > m {
        c.name@.len() as int
    } else {
        m
    };
    if w > 1 {
        w
    } else {
        1
    }
}

fn cell_text_width(v: &DbViewer, row: usize, col: &Vec<char>) -> (w: usize)
    requires
        viewer_wf(*v),
    ensures
        w == cell_width(*v, row as int, col@),
{
    let text: Vec<char> = match current_cell_value(v, row, col) {
        Some(c) => string_chars(&value_to_display(&c)),
        None => to_chars("NULL"),
    };
    sanitize_grid_text(&text).len()
}

/// The width of each column of a table in the grid.
pub fn compute_column_widths(v: &DbViewer, table: &TableInfo) -> (r: Vec<usize>)
    requires
        viewer_wf(*v),
    ensures
        r@.len() == table.columns@.len(),
        forall|i: int| 0 <= i < r@.len() ==> r@[i] == column_width(*v, #[trigger] table.columns@[i]),
{
    let mut out: Vec<usize> = Vec::new();
    let mut i: usize = 0;
    while i < table.columns.len()
        invariant
            i <= table.columns@.len(),
            viewer_wf(*v),
            out@.len() == i,
            forall|k: int| 0 <= k < i ==> out@[k] == column_width(*v, #[trigger] table.columns@[k]),
        decreases table.columns.len() - i,
    {
        let name = string_chars(&table.columns[i].name);
        let mut widest: usize = 0;
        let mut r: usize = 0;
        while r < v.rows.len()
            invariant
                r <= v.rows@.len(),
                viewer_wf(*v),
                widest == widest_cell(*v, name@, r as int),
            decreases v.rows.len() - r,
        {
            let w = cell_text_width(v, r, &name);
            if w > widest {
                widest = w;
            }
            r += 1;
        }
        let mut w = if name.len() > widest {
            name.len()
        } else {
            widest
        };
        if w < 1 {
            w = 1;
        }
        out.push(w);
        i += 1;
    }
    out
}

/// The character spans `(start, end)` of the grid columns for the given
/// widths, the first starting at `first`, columns three characters apart.
pub open spec fn column_spans(widths: Seq<usize>, first: int) -> Seq<(int, int)>
    decreases widths.len(),
{
    if widths.len() == 0 {
        Seq::empty()
    } else {
        let end = sat_add(first, sat_sub(widths[0] as int, 1));
        seq![(first, end)] + column_spans(widths.drop_first(), sat_add(end, 4))
    }
}

/// The spans of the grid columns of a table, as used to keep the cursor
/// in view.
pub fn compute_column_ranges(v: &DbViewer, table: &TableInfo) -> (r: Vec<(usize, usize)>)
    requires
        viewer_wf(*v),
    ensures
        r@.map_values(|p: (usize, usize)| (p.0 as int, p.1 as int)) == column_spans(
            compute_widths_spec(*v, *table),
            6,
        ),
{
    let widths = compute_column_widths(v, table);
    proof {
        assert(widths@ =~= compute_widths_spec(*v, *table));
    }
    let mut out: Vec<(usize, usize)> = Vec::new();
    let mut cursor: usize = 6;
    let mut i: usize = 0;
    proof {
        assert(widths@.skip(0) =~= widths@);
        assert(out@.map_values(|p: (usize, usize)| (p.0 as int, p.1 as int)) =~= Seq::<(int, int)>::empty());
        assert(Seq::<(int, int)>::empty() + column_spans(widths@, 6) =~= column_spans(widths@, 6));
    }
    while i < widths.len()
        invariant
            i <= widths@.len(),
            column_spans(widths@, 6) == out@.map_values(|p: (usize, usize)| (p.0 as int, p.1 as int))
                + column_spans(widths@.skip(i as int), cursor as int),
        decreases widths.len() - i,
    {
        let start = cursor;
        let end = add_sat(start, sub_sat(widths[i], 1));
        cursor = add_sat(end, 4);
        let ghost before = out@;
        out.push((start, end));
        proof {
            let rest = widths@.skip(i as int);
            assert(rest[0] == widths@[i as int]);
            assert(rest.drop_first() =~= widths@.skip(i + 1));
            assert(out@.map_values(|p: (usize, usize)| (p.0 as int, p.1 as int)) =~= before.map_values(
                |p: (usize, usize)| (p.0 as int, p.1 as int),
            ).push((start as int, end as int)));
        }
        i += 1;
    }
    proof {
        assert(widths@.skip(i as int) =~= Seq::<usize>::empty());
    }
    out
}

/// The column widths of a table as a sequence.
pub open spec fn compute_widths_spec(v: DbViewer, t: TableInfo) -> Seq<usize> {
    Seq::new(t.columns@.len(), |i: int| column_width(v, t.columns@[i]) as usize)
}

/// The grid area estimated from the terminal size: four columns and five
/// rows less, at least one of each.
pub open spec fn viewport_of(w: u16, h: u16) -> (int, int) {
    let vw = sat_sub(w as int, 4);
    let vh = sat_sub(h as int, 5);
    (if vw > 1 {
        vw
    } else {
        1
    }, if vh > 1 {
        vh
    } else {
        1
    })
}

/// The grid area estimated from the terminal size.
pub fn estimated_grid_viewport(v: &DbViewer) -> (r: (usize, usize))
    ensures
        (r.0 as int, r.1 as int) == viewport_of(v.terminal_width, v.terminal_height),
{
    let w: usize = if v.terminal_width < 4 {
        0
    } else {
        (v.terminal_width - 4) as usize
    };
    let h: usize = if v.terminal_height < 5 {
        0
    } else {
        (v.terminal_height - 5) as usize
    };
    (if w > 1 {
        w
    } else {
        1
    }, if h > 1 {
        h
    } else {
        1
    })
}

/// The scroll offsets after bringing the selected cell into view: the
/// horizontal offset moves left to the column's start or right so that
/// its end is visible (to 0 when the column has no span), and the
/// vertical offset likewise for the selected row.
pub open spec fn scrolled_into_view(
    h: int,
    vs: int,
    spans: Seq<(int, int)>,
    col: int,
    row: int,
    width: int,
    height: int,
) -> (int, int) {
    let nh = if 0 <= col < spans.len() {
        let (start, end) = spans[col];
        if h > start {
            start
        } else if sat_add(end, 1) > sat_add(h, width) {
            sat_sub(sat_add(end, 1), width)
        } else {
            h
        }
    } else {
        0
    };
    let nv = if vs > row {
        row
    } else if sat_add(row, 1) > sat_add(vs, height) {
        sat_sub(sat_add(row, 1), height)
    } else {
        vs
    };
    (nh, nv)
}

/// Brings the selected cell into view.
pub fn ensure_selected_cell_visible(
    v: &mut DbViewer,
    column_ranges: &Vec<(usize, usize)>,
    viewport_width: usize,
    viewport_height: usize,
)
    ensures
        (final(v).grid_h_scroll as int, final(v).grid_v_scroll as int) == scrolled_into_view(
            old(v).grid_h_scroll as int,
            old(v).grid_v_scroll as int,
            column_ranges@.map_values(|p: (usize, usize)| (p.0 as int, p.1 as int)),
            old(v).selected_col as int,
            old(v).selected_row as int,
            viewport_width as int,
            viewport_height as int,
        ),
        *final(v) == (DbViewer {
            grid_h_scroll: final(v).grid_h_scroll,
            grid_v_scroll: final(v).grid_v_scroll,
            ..*old(v)
        }),
{
    if v.selected_col < column_ranges.len() {
        let (start, end) = column_ranges[v.selected_col];
        if v.grid_h_scroll > start {
            v.grid_h_scroll = start;
        } else {
            let viewport_end = add_sat(v.grid_h_scroll, viewport_width);
            let e1 = add_sat(end, 1);
            if e1 > viewport_end {
                v.grid_h_scroll = sub_sat(e1, viewport_width);
            }
        }
    } else {
        v.grid_h_scroll = 0;
    }
    if v.grid_v_scroll > v.selected_row {
        v.grid_v_scroll = v.selected_row;
    } else {
        let viewport_end = add_sat(v.grid_v_scroll, viewport_height);
        let r1 = add_sat(v.selected_row, 1);
        if r1 > viewport_end {
            v.grid_v_scroll = sub_sat(r1, viewport_height);
        }
    }
}

// ---------------------------------------------------------------------------
// Pending edits and marked rows
// ---------------------------------------------------------------------------

proof fn lemma_dirty_replace(d: Seq<DirtyRow>, p: int, x: DirtyRow)
    requires
        increasing(dirty_indexes(d)),
        0 <= p < d.len(),
        x.row_index == d[p].row_index,
    ensures
        increasing(dirty_indexes(d.update(p, x))),
        dirty_view(d.update(p, x)) == dirty_view(d).insert(x.row_index as int, cell_map(x.updates@)),
{
    let n = d.update(p, x);
    assert(dirty_indexes(n) =~= dirty_indexes(d));
    let a = dirty_view(n);
    let b = dirty_view(d).insert(x.row_index as int, cell_map(x.updates@));
    assert forall|r: int| #[trigger] a.contains_key(r) == b.contains_key(r) && (a.contains_key(r) ==> a[r] == b[r]) by {
        if r == x.row_index as int {
            lemma_dirty_at(n, p);
        } else {
            if a.contains_key(r) {
                let i = choose|i: int| 0 <= i < n.len() && #[trigger] n[i].row_index == r;
                lemma_dirty_at(n, i);
                lemma_dirty_at(d, i);
            }
            if dirty_view(d).contains_key(r) {
                let i = choose|i: int| 0 <= i < d.len() && #[trigger] d[i].row_index == r;
                lemma_dirty_at(n, i);
                lemma_dirty_at(d, i);
            }
        }
    }
    assert(a =~= b);
}

proof fn lemma_dirty_insert(d: Seq<DirtyRow>, p: int, x: DirtyRow)
    requires
        increasing(dirty_indexes(d)),
        0 <= p <= d.len(),
        forall|i: int| 0 <= i < p ==> #[trigger] d[i].row_index < x.row_index,
        forall|i: int| p <= i < d.len() ==> #[trigger] d[i].row_index > x.row_index,
    ensures
        increasing(dirty_indexes(d.insert(p, x))),
        dirty_view(d.insert(p, x)) == dirty_view(d).insert(x.row_index as int, cell_map(x.updates@)),
{
    let n = d.insert(p, x);
    assert forall|i: int, j: int| 0 <= i < j < n.len() implies dirty_indexes(n)[i] < dirty_indexes(n)[j] by {
        assert(dirty_indexes(n)[i] == n[i].row_index);
        assert(dirty_indexes(n)[j] == n[j].row_index);
        if i < p && j < p {
            assert(dirty_indexes(d)[i] < dirty_indexes(d)[j]);
        } else if i > p && j > p {
            assert(dirty_indexes(d)[i - 1] < dirty_indexes(d)[j - 1]);
        }
    }
    let a = dirty_view(n);
    let b = dirty_view(d).insert(x.row_index as int, cell_map(x.updates@));
    assert forall|r: int| #[trigger] a.contains_key(r) == b.contains_key(r) && (a.contains_key(r) ==> a[r] == b[r]) by {
        if r == x.row_index as int {
            lemma_dirty_at(n, p);
        } else {
            if a.contains_key(r) {
                let i = choose|i: int| 0 <= i < n.len() && #[trigger] n[i].row_index == r;
                lemma_dirty_at(n, i);
                if i < p {
                    lemma_dirty_at(d, i);
                } else {
                    assert(i != p);
                    lemma_dirty_at(d, i - 1);
                }
            }
            if dirty_view(d).contains_key(r) {
                let i = choose|i: int| 0 <= i < d.len() && #[trigger] d[i].row_index == r;
                lemma_dirty_at(d, i);
                if i < p {
                    lemma_dirty_at(n, i);
                } else {
                    assert(n[i + 1] == d[i]);
                    lemma_dirty_at(n, i + 1);
                }
            }
        }
    }
    assert(a =~= b);
}

proof fn lemma_dirty_remove(d: Seq<DirtyRow>, p: int)
    requires
        increasing(dirty_indexes(d)),
        0 <= p < d.len(),
    ensures
        increasing(dirty_indexes(d.remove(p))),
        dirty_view(d.remove(p)) == dirty_view(d).remove(d[p].row_index as int),
{
    let n = d.remove(p);
    let row = d[p].row_index as int;
    assert forall|i: int, j: int| 0 <= i < j < n.len() implies dirty_indexes(n)[i] < dirty_indexes(n)[j] by {
        assert(dirty_indexes(n)[i] == n[i].row_index);
        assert(dirty_indexes(n)[j] == n[j].row_index);
        let i2 = if i < p { i } else { i + 1 };
        let j2 = if j < p { j } else { j + 1 };
        assert(dirty_indexes(d)[i2] < dirty_indexes(d)[j2]);
    }
    let a = dirty_view(n);
    let b = dirty_view(d).remove(row);
    assert forall|r: int| #[trigger] a.contains_key(r) == b.contains_key(r) && (a.contains_key(r) ==> a[r] == b[r]) by {
        if a.contains_key(r) {
            let i = choose|i: int| 0 <= i < n.len() && #[trigger] n[i].row_index == r;
            lemma_dirty_at(n, i);
            let i2 = if i < p { i } else { i + 1 };
            assert(n[i] == d[i2]);
            lemma_dirty_at(d, i2);
            assert(dirty_indexes(d)[i2] == d[i2].row_index);
            assert(dirty_indexes(d)[p] == d[p].row_index);
        }
        if b.contains_key(r) {
            let i = choose|i: int| 0 <= i < d.len() && #[trigger] d[i].row_index == r;
            lemma_dirty_at(d, i);
            assert(i != p);
            let i2 = if i < p { i } else { i - 1 };
            assert(n[i2] == d[i]);
            lemma_dirty_at(n, i2);
        }
    }
    assert(a =~= b);
}

/// The pending edits of a row, empty when there are none.
pub open spec fn dirty_of(v: DbViewer, row: int) -> Map<Seq<char>, CellView> {
    let dv = dirty_view(v.dirty_rows@);
    if dv.contains_key(row) {
        dv[row]
    } else {
        Map::empty()
    }
}

impl DbViewer {
    /// Records a pending edit of a cell.
    pub fn set_dirty(&mut self, row: usize, col: String, value: CellValue)
        requires
            viewer_wf(*old(self)),
        ensures
            viewer_wf(*final(self)),
            dirty_view(final(self).dirty_rows@) == dirty_view(old(self).dirty_rows@).insert(
                row as int,
                dirty_of(*old(self), row as int).insert(col@, value@),
            ),
            *final(self) == (DbViewer { dirty_rows: final(self).dirty_rows, ..*old(self) }),
    {
        let ghost d = self.dirty_rows@;
        let mut p: usize = 0;
        while p < self.dirty_rows.len() && self.dirty_rows[p].row_index < row
            invariant
                p <= self.dirty_rows@.len(),
                self.dirty_rows@ == d,
                increasing(dirty_indexes(d)),
                forall|i: int| 0 <= i < p ==> #[trigger] d[i].row_index < row,
            decreases self.dirty_rows.len() - p,
        {
            p += 1;
        }
        proof {
            assert forall|i: int| p < i < d.len() implies #[trigger] d[i].row_index > d[p as int].row_index by {
                assert(dirty_indexes(d)[p as int] < dirty_indexes(d)[i]);
            }
        }
        if p < self.dirty_rows.len() && self.dirty_rows[p].row_index == row {
            let mut dr = self.dirty_rows.remove(p);
            proof {
                assert(sorted_table(d[p as int].updates@));
                lemma_dirty_at(d, p as int);
            }
            crate::table::table_insert(&mut dr.updates, col, value);
            self.dirty_rows.insert(p, dr);
            proof {
                assert(self.dirty_rows@ =~= d.update(p as int, dr));
                lemma_dirty_replace(d, p as int, dr);
                assert(cell_map(dr.updates@) =~= dirty_of(*old(self), row as int).insert(col@, value@));
                assert forall|i: int| 0 <= i < self.dirty_rows@.len() implies sorted_table(
                    #[trigger] self.dirty_rows@[i].updates@,
                ) by {
                    if i != p {
                        assert(self.dirty_rows@[i] == d[i]);
                    }
                }
            }
        } else {
            let mut ups: Vec<(String, CellValue)> = Vec::new();
            proof {
                assert(sorted_table(ups@));
                lemma_dirty_absent_when_between(d, p as int, row);
            }
            crate::table::table_insert(&mut ups, col, value);
            let dr = DirtyRow { row_index: row, updates: ups };
            self.dirty_rows.insert(p, dr);
            proof {
                assert(self.dirty_rows@ =~= d.insert(p as int, dr));
                assert forall|i: int| p <= i < d.len() implies #[trigger] d[i].row_index > row by {
                    if i > p {
                        assert(d[i].row_index > d[p as int].row_index);
                    }
                }
                lemma_dirty_insert(d, p as int, dr);
                assert(table_map(Seq::<(String, CellValue)>::empty()) =~= Map::empty());
                assert(cell_map(dr.updates@) =~= Map::<Seq<char>, CellView>::empty().insert(col@, value@));
                assert(cell_map(dr.updates@) =~= dirty_of(*old(self), row as int).insert(col@, value@));
                assert forall|i: int| 0 <= i < self.dirty_rows@.len() implies sorted_table(
                    #[trigger] self.dirty_rows@[i].updates@,
                ) by {
                    if i < p {
                        assert(self.dirty_rows@[i] == d[i]);
                    } else if i > p {
                        assert(self.dirty_rows@[i] == d[i - 1]);
                    }
                }
            }
        }
    }
}

proof fn lemma_dirty_absent_when_between(d: Seq<DirtyRow>, p: int, row: usize)
    requires
        increasing(dirty_indexes(d)),
        0 <= p <= d.len(),
        forall|i: int| 0 <= i < p ==> #[trigger] d[i].row_index < row,
        p < d.len() ==> d[p].row_index >= row,
        !(p < d.len() && d[p].row_index == row),
    ensures
        !dirty_view(d).contains_key(row as int),
{
    assert forall|i: int| 0 <= i < d.len() implies #[trigger] d[i].row_index != row by {
        if i > p {
            assert(dirty_indexes(d)[p] < dirty_indexes(d)[i]);
        }
    }
}

/// Where the pending edits of `row` are, if any.
pub fn dirty_position_pub(d: &Vec<DirtyRow>, row: usize) -> (r: Option<usize>)
    requires
        increasing(dirty_indexes(d@)),
    ensures
        match r {
            Some(i) => i < d@.len() && d@[i as int].row_index == row && dirty_view(d@).contains_key(
                row as int,
            ) && dirty_view(d@)[row as int] == cell_map(d@[i as int].updates@),
            None => !dirty_view(d@).contains_key(row as int),
        },
{
    dirty_position(d, row)
}

/// Removing an entry of the pending edits removes its row from their map.
pub proof fn lemma_dirty_remove_pub(d: Seq<DirtyRow>, p: int)
    requires
        increasing(dirty_indexes(d)),
        0 <= p < d.len(),
    ensures
        increasing(dirty_indexes(d.remove(p))),
        dirty_view(d.remove(p)) == dirty_view(d).remove(d[p].row_index as int),
{
    lemma_dirty_remove(d, p);
}

// ---------------------------------------------------------------------------
// Laws
// ---------------------------------------------------------------------------

/// A cell shows the value last written to it: after a pending edit of
/// `col` in `row` is recorded, the cell's value is the edited one.
pub proof fn law_edited_cell_shows_edit(v: DbViewer, n: DbViewer, row: usize, col: Seq<char>, value: CellView)
    requires
        dirty_view(n.dirty_rows@) == dirty_view(v.dirty_rows@).insert(
            row as int,
            dirty_of(v, row as int).insert(col, value),
        ),
    ensures
        current_value(n, row as int, col) == Some(value),
{
}

/// A pending edit of one cell leaves every other cell showing what it
/// showed before.
pub proof fn law_edit_leaves_other_cells(
    v: DbViewer,
    n: DbViewer,
    row: usize,
    col: Seq<char>,
    value: CellView,
    other_row: int,
    other_col: Seq<char>,
)
    requires
        dirty_view(n.dirty_rows@) == dirty_view(v.dirty_rows@).insert(
            row as int,
            dirty_of(v, row as int).insert(col, value),
        ),
        n.rows == v.rows,
        other_row != row || other_col != col,
    ensures
        current_value(n, other_row, other_col) == current_value(v, other_row, other_col),
{
}

} // verus!
