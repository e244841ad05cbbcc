//! Keys on the pages of the database viewer, and the dispatch of a key to
//! whatever dialog or page is showing.

use vstd::prelude::*;
use crate::api_messages::{no_modifiers, shift_only, plain_g, Key, KeyEvent};
use crate::cell_edit::{cell_opt_view, mode_of, opened_now, valid_fields, DateTimePicker};
use crate::collection::strings_view;
use crate::db_app::{
    current_cell_value, current_value, increasing, selected_table_of, viewer_wf, ActivePage, AddForm,
    DbViewer, TextEntry, TextEntryTarget,
};
use crate::db_edit::{
    datetime_picker_post, delete_confirm_post, delete_request_post, first_with_value,
    open_value_picker, options_view, picker_choices, value_picker_post,
};
use crate::db_form::{add_form_post, copy_column, form_map, same_column, text_entry_post};
use crate::db_grid::{followed, save_request_post};
use crate::db_keys::{effects_view, persist_view, page_named, DbEffect, EffectView, ReloadReason};
use crate::db_sql::TableInfo;
use crate::db_view::{display_text, value_to_display, CellValue, CellView};
use crate::table::{sorted_table, table_insert, table_map};
use crate::text::{string_chars, string_from_chars, to_chars};

verus! {

// ---------------------------------------------------------------------------
// Editing the selected cell
// ---------------------------------------------------------------------------

/// Enter on a cell: a date/time picker for a date, time or timestamp
/// column, opened at the current time with the cell's value read in; a
/// value picker for an enum or boolean column; otherwise a text entry
/// holding the cell's text.
pub open spec fn cell_edit_post(v: DbViewer, n: DbViewer) -> bool {
    match selected_table_of(v) {
        None => n == v,
        Some(t) => if v.selected_col < t.columns@.len() {
            let c = t.columns@[v.selected_col as int];
            let row = v.selected_row;
            let cur = current_value(v, row as int, c.name@);
            if mode_of(c) is Some {
                &&& n.datetime_picker matches Some(p) && valid_fields(p) && p.column_name@ == c.name@
                    && p.column_type@ == c.data_type@ && opened_now(p, row, c, cur)
                &&& n == (DbViewer { datetime_picker: n.datetime_picker, ..v })
            } else if picker_choices(c).len() > 0 {
                let shown = match cur {
                    Some(x) => x,
                    None => CellView::Null,
                };
                &&& n.value_picker matches Some(p) && p.row_index == row && p.column_name@ == c.name@
                    && p.column_type@ == c.data_type@ && options_view(p.options@) == picker_choices(c)
                    && p.selected_index as int == (if first_with_value(picker_choices(c), shown) >= 0 {
                    first_with_value(picker_choices(c), shown)
                } else {
                    0
                })
                &&& n == (DbViewer { value_picker: n.value_picker, ..v })
            } else {
                &&& n.text_entry matches Some(e) && e.target matches TextEntryTarget::GridCell {
                    row_index,
                    column_name,
                    column,
                } && row_index == row && column_name@ == c.name@ && same_column(column, c)
                    && e.buffer@ == match cur {
                    Some(x) => display_text(x),
                    None => Seq::<char>::empty(),
                }
                &&& n == (DbViewer { text_entry: n.text_entry, ..v })
            }
        } else {
            n == v
        },
    }
}

impl DbViewer {
    /// Opens the editor the selected cell calls for.
    pub fn begin_cell_edit(&mut self)
        requires
            viewer_wf(*old(self)),
        ensures
            viewer_wf(*final(self)),
            cell_edit_post(*old(self), *final(self)),
    {
        if self.selected_table >= self.tables.len() {
            return;
        }
        if self.selected_col >= self.tables[self.selected_table].columns.len() {
            return;
        }
        let st = self.selected_table;
        let sc = self.selected_col;
        let row = self.selected_row;
        let name = string_chars(&self.tables[st].columns[sc].name);
        let current = current_cell_value(self, row, &name);
        let ghost cur = cell_opt_view(current);
        if crate::cell_edit::temporal_mode_for(&self.tables[st].columns[sc]).is_some() {
            let p = DateTimePicker::open_now(row, &self.tables[st].columns[sc], current);
            self.datetime_picker = p;
            return;
        }
        let shown = match &current {
            Some(x) => crate::db_view::copy_cell(x),
            None => CellValue::Null,
        };
        let picker = open_value_picker(row, &self.tables[st].columns[sc], &shown);
        if picker.is_some() {
            self.value_picker = picker;
            return;
        }
        let buffer = match &current {
            Some(x) => value_to_display(x),
            None => string_from_chars(Vec::<char>::new().as_slice()),
        };
        let column_name = string_from_chars(name.as_slice());
        let column = copy_column(&self.tables[st].columns[sc]);
        self.text_entry = Some(
            TextEntry { target: TextEntryTarget::GridCell { row_index: row, column_name, column }, buffer },
        );
    }
}

// ---------------------------------------------------------------------------
// The add-row form
// ---------------------------------------------------------------------------

/// The form's fields: one per column of the table, each without a value.
pub open spec fn empty_form_map(t: TableInfo) -> Map<Seq<char>, Option<CellView>> {
    Map::new(
        |k: Seq<char>| exists|i: int| 0 <= i < t.columns@.len() && #[trigger] t.columns@[i].name@ == k,
        |k: Seq<char>| None,
    )
}

/// An empty add-row form for a table.
pub fn empty_add_form(table: &TableInfo) -> (f: AddForm)
    ensures
        f.selected_field == 0,
        sorted_table(f.values@),
        form_map(f.values@) == empty_form_map(*table),
{
    let mut values: Vec<(String, Option<CellValue>)> = Vec::new();
    let mut i: usize = 0;
    proof {
        assert(form_map(values@) =~= Map::<Seq<char>, Option<CellView>>::empty());
    }
    while i < table.columns.len()
        invariant
            i <= table.columns@.len(),
            sorted_table(values@),
            form_map(values@) == Map::new(
                |k: Seq<char>| exists|j: int| 0 <= j < i && #[trigger] table.columns@[j].name@ == k,
                |k: Seq<char>| None::<CellView>,
            ),
        decreases table.columns.len() - i,
    {
        let ghost before = form_map(values@);
        let name = string_from_chars(string_chars(&table.columns[i].name).as_slice());
        table_insert(&mut values, name, None);
        proof {
            let target = Map::new(
                |k: Seq<char>| exists|j: int| 0 <= j < i + 1 && #[trigger] table.columns@[j].name@ == k,
                |k: Seq<char>| None::<CellView>,
            );
            assert(form_map(values@) =~= before.insert(table.columns@[i as int].name@, None));
            assert forall|k: Seq<char>| #[trigger] target.contains_key(k) == before.insert(
                table.columns@[i as int].name@,
                None,
            ).contains_key(k) by {
                if k == table.columns@[i as int].name@ {
                    assert(table.columns@[i as int].name@ == k);
                } else if target.contains_key(k) {
                    let j = choose|j: int| 0 <= j < i + 1 && #[trigger] table.columns@[j].name@ == k;
                    assert(j < i);
                    assert(before.contains_key(k));
                } else if before.contains_key(k) {
                    let j = choose|j: int| 0 <= j < i && #[trigger] table.columns@[j].name@ == k;
                    assert(target.contains_key(k));
                }
            }
            assert(form_map(values@) =~= target);
        }
        i += 1;
    }
    AddForm { selected_field: 0, values }
}

// ---------------------------------------------------------------------------
// The grid
// ---------------------------------------------------------------------------

/// A key that moves the grid cursor.
pub open spec fn is_move_key(key: KeyEvent) -> bool {
    let none = no_modifiers(key.modifiers);
    ||| (key.code == Key::Char('j') && none) || key.code == Key::Down
    ||| (key.code == Key::Char('k') && none) || key.code == Key::Up
    ||| (key.code == Key::Char('h') && none) || key.code == Key::Left
    ||| (key.code == Key::Char('l') && none) || key.code == Key::Right
    ||| key.code == Key::Char('0') && none
    ||| key.code == Key::Char('$')
    ||| key.code == Key::Char('G') || key.code == Key::End
}

/// The cursor after a moving key: `j`/Down and `k`/Up one row,
/// `h`/Left and `l`/Right one column (within the rows and columns), `0`
/// the first column, `$` the last, `G`/End the last row; the moved cursor
/// is scrolled into view, nothing changes when there is nowhere to go.
pub open spec fn grid_move_post(w: DbViewer, t: TableInfo, key: KeyEvent, n: DbViewer) -> bool {
    let none = no_modifiers(key.modifiers);
    let nrows = w.rows@.len() as int;
    let ncols = t.columns@.len() as int;
    let row = w.selected_row as int;
    let col = w.selected_col as int;
    if (key.code == Key::Char('j') && none) || key.code == Key::Down {
        n == (if nrows > 0 {
            followed(DbViewer {
                selected_row: (if row + 1 < nrows - 1 {
                    row + 1
                } else {
                    nrows - 1
                }) as usize,
                ..w
            })
        } else {
            w
        })
    } else if (key.code == Key::Char('k') && none) || key.code == Key::Up {
        n == followed(DbViewer {
            selected_row: (if row > 0 {
                row - 1
            } else {
                0
            }) as usize,
            ..w
        })
    } else if (key.code == Key::Char('h') && none) || key.code == Key::Left {
        n == followed(DbViewer {
            selected_col: (if col > 0 {
                col - 1
            } else {
                0
            }) as usize,
            ..w
        })
    } else if (key.code == Key::Char('l') && none) || key.code == Key::Right {
        n == (if ncols > 0 {
            followed(DbViewer {
                selected_col: (if col + 1 < ncols - 1 {
                    col + 1
                } else {
                    ncols - 1
                }) as usize,
                ..w
            })
        } else {
            w
        })
    } else if key.code == Key::Char('0') && none {
        n == followed(DbViewer { selected_col: 0, ..w })
    } else if key.code == Key::Char('$') {
        n == (if ncols > 0 {
            followed(DbViewer { selected_col: (ncols - 1) as usize, ..w })
        } else {
            w
        })
    } else {
        n == (if nrows > 0 {
            followed(DbViewer { selected_row: (nrows - 1) as usize, ..w })
        } else {
            w
        })
    }
}

/// A grid key that does not move the cursor: Space marks or unmarks the
/// row, Shift+A marks all rows, Shift+C or `C` clears the marks, `d` asks
/// to delete, `a` opens the add-row form, Ctrl+S saves, `r` runs the query,
/// `e` edits it outside, Enter or `i` edits the cell.
pub open spec fn grid_other_post(w: DbViewer, t: TableInfo, key: KeyEvent, n: DbViewer, e: Seq<EffectView>) -> bool {
    let none = no_modifiers(key.modifiers);
    let shift = shift_only(key.modifiers);
    let control = key.modifiers.control && !key.modifiers.shift && !key.modifiers.alt;
    if key.code == Key::Char(' ') && none {
        &&& e.len() == 0
        &&& increasing(n.selected_rows@)
        &&& n.selected_rows@.to_set() == (if w.selected_rows@.contains(w.selected_row) {
            w.selected_rows@.to_set().remove(w.selected_row)
        } else {
            w.selected_rows@.to_set().insert(w.selected_row)
        })
        &&& n == (DbViewer { selected_rows: n.selected_rows, ..w })
    } else if (key.code == Key::Char('A') || key.code == Key::Char('a')) && shift {
        &&& e.len() == 0
        &&& n.selected_rows@ == Seq::new(w.rows@.len(), |i: int| i as usize)
        &&& n.status@ == "Selected all "@ + crate::text::decimal(w.rows@.len()) + " loaded rows"@
        &&& n == (DbViewer { selected_rows: n.selected_rows, status: n.status, ..w })
    } else if (key.code == Key::Char('c') && shift) || (key.code == Key::Char('C') && none) {
        &&& e.len() == 0
        &&& n.selected_rows@.len() == 0
        &&& n.status@ == "Cleared row selection"@
        &&& n == (DbViewer { selected_rows: n.selected_rows, status: n.status, ..w })
    } else if key.code == Key::Char('d') && none {
        e.len() == 0 && delete_request_post(w, n)
    } else if key.code == Key::Char('a') && none {
        &&& e.len() == 0
        &&& n.add_form matches Some(f) && f.selected_field == 0 && sorted_table(f.values@) && form_map(
            f.values@,
        ) == empty_form_map(t)
        &&& n == (DbViewer { add_form: n.add_form, ..w })
    } else if key.code == Key::Char('s') && control {
        save_request_post(w, n, e)
    } else if key.code == Key::Char('r') && none {
        n == w && e == seq![EffectView::RunQuery(w.query@)]
    } else if key.code == Key::Char('e') && none {
        n == w && e == seq![EffectView::OpenQueryEditor(w.query@)]
    } else if (key.code == Key::Enter || key.code == Key::Char('i')) && none {
        e.len() == 0 && cell_edit_post(w, n)
    } else {
        e.len() == 0 && n == w
    }
}

/// A grid key other than a pending `gg`, once the pending `g` was dropped.
pub open spec fn grid_action_post(w: DbViewer, t: TableInfo, key: KeyEvent, n: DbViewer, e: Seq<EffectView>) -> bool {
    if is_move_key(key) {
        e.len() == 0 && grid_move_post(w, t, key, n)
    } else {
        grid_other_post(w, t, key, n, e)
    }
}

/// A key on the grid: `gg` jumps to the first row; a first `g` waits for
/// the second; any other key drops a waiting `g` and acts.
pub open spec fn grid_post(v: DbViewer, key: KeyEvent, n: DbViewer, e: Seq<EffectView>) -> bool {
    match selected_table_of(v) {
        None => n == v && e.len() == 0,
        Some(t) => if v.pending_g && plain_g(key) {
            e.len() == 0 && n == followed(DbViewer { pending_g: false, selected_row: 0, ..v })
        } else if plain_g(key) {
            e.len() == 0 && n == (DbViewer { pending_g: true, ..v })
        } else {
            grid_action_post(DbViewer { pending_g: false, ..v }, t, key, n, e)
        },
    }
}

fn one_effect(x: DbEffect) -> (r: Vec<DbEffect>)
    ensures
        effects_view(r@) == seq![x@],
{
    let r = vec![x];
    proof {
        assert(effects_view(r@) =~= seq![r@[0]@]);
    }
    r
}

impl DbViewer {
    /// Handles a key on the grid.
    pub fn grid_key(&mut self, key: KeyEvent) -> (r: Vec<DbEffect>)
        requires
            viewer_wf(*old(self)),
        ensures
            viewer_wf(*final(self)),
            grid_post(*old(self), key, *final(self), effects_view(r@)),
    {
        if self.selected_table >= self.tables.len() {
            return Vec::new();
        }
        let none = !key.modifiers.shift && !key.modifiers.control && !key.modifiers.alt;
        let is_g = key.code == Key::Char('g') && none;
        if self.pending_g {
            self.pending_g = false;
            if is_g {
                self.selected_row = 0;
                self.follow_selected_cell();
                return Vec::new();
            }
        }
        if is_g {
            self.pending_g = true;
            return Vec::new();
        }
        self.pending_g = false;
        if (key.code == Key::Char('j') && none) || key.code == Key::Down || (key.code == Key::Char('k')
            && none) || key.code == Key::Up || (key.code == Key::Char('h') && none) || key.code
            == Key::Left || (key.code == Key::Char('l') && none) || key.code == Key::Right || (key.code
            == Key::Char('0') && none) || key.code == Key::Char('$') || key.code == Key::Char('G')
            || key.code == Key::End {
            self.grid_move(key);
            return Vec::new();
        }
        self.grid_other(key)
    }

    fn grid_move(&mut self, key: KeyEvent)
        requires
            viewer_wf(*old(self)),
            is_move_key(key),
            selected_table_of(*old(self)) is Some,
        ensures
            viewer_wf(*final(self)),
            grid_move_post(*old(self), selected_table_of(*old(self))->Some_0, key, *final(self)),
    {
        let none = !key.modifiers.shift && !key.modifiers.control && !key.modifiers.alt;
        let nrows = self.rows.len();
        let ncols = self.tables[self.selected_table].columns.len();
        if (key.code == Key::Char('j') && none) || key.code == Key::Down {
            if nrows > 0 {
                let last = nrows - 1;
                self.selected_row = if self.selected_row < last && self.selected_row + 1 < last {
                    self.selected_row + 1
                } else {
                    last
                };
                self.follow_selected_cell();
            }
            return;
        }
        if (key.code == Key::Char('k') && none) || key.code == Key::Up {
            if self.selected_row > 0 {
                self.selected_row = self.selected_row - 1;
            }
            self.follow_selected_cell();
            return;
        }
        if (key.code == Key::Char('h') && none) || key.code == Key::Left {
            if self.selected_col > 0 {
                self.selected_col = self.selected_col - 1;
            }
            self.follow_selected_cell();
            return;
        }
        if (key.code == Key::Char('l') && none) || key.code == Key::Right {
            if ncols > 0 {
                let last = ncols - 1;
                self.selected_col = if self.selected_col < last && self.selected_col + 1 < last {
                    self.selected_col + 1
                } else {
                    last
                };
                self.follow_selected_cell();
            }
            return;
        }
        if key.code == Key::Char('0') && none {
            self.selected_col = 0;
            self.follow_selected_cell();
            return;
        }
        if key.code == Key::Char('$') {
            if ncols > 0 {
                self.selected_col = ncols - 1;
                self.follow_selected_cell();
            }
            return;
        }
        if nrows > 0 {
            self.selected_row = nrows - 1;
            self.follow_selected_cell();
        }
    }

    fn grid_other(&mut self, key: KeyEvent) -> (r: Vec<DbEffect>)
        requires
            viewer_wf(*old(self)),
            !is_move_key(key),
            selected_table_of(*old(self)) is Some,
        ensures
            viewer_wf(*final(self)),
            grid_other_post(*old(self), selected_table_of(*old(self))->Some_0, key, *final(self), effects_view(r@)),
    {
        let none = !key.modifiers.shift && !key.modifiers.control && !key.modifiers.alt;
        let shift = key.modifiers.shift && !key.modifiers.control && !key.modifiers.alt;
        let control = key.modifiers.control && !key.modifiers.shift && !key.modifiers.alt;
        if key.code == Key::Char(' ') && none {
            self.toggle_selected_row();
            return Vec::new();
        }
        if (key.code == Key::Char('A') || key.code == Key::Char('a')) && shift {
            self.select_all_rows();
            let mut m: Vec<char> = Vec::new();
            crate::text::push_str(&mut m, "Selected all ");
            crate::text::push_decimal(&mut m, self.selected_rows.len() as u64);
            crate::text::push_str(&mut m, " loaded rows");
            self.status = string_from_chars(m.as_slice());
            return Vec::new();
        }
        if (key.code == Key::Char('c') && shift) || (key.code == Key::Char('C') && none) {
            self.selected_rows = Vec::new();
            self.status = string_from_chars(to_chars("Cleared row selection").as_slice());
            return Vec::new();
        }
        if key.code == Key::Char('d') && none {
            self.start_delete_confirmation();
            return Vec::new();
        }
        if key.code == Key::Char('a') && none {
            let f = empty_add_form(&self.tables[self.selected_table]);
            self.add_form = Some(f);
            return Vec::new();
        }
        if key.code == Key::Char('s') && control {
            return self.save_dirty_rows();
        }
        if key.code == Key::Char('r') && none {
            return one_effect(DbEffect::RunQuery(string_from_chars(string_chars(&self.query).as_slice())));
        }
        if key.code == Key::Char('e') && none {
            return one_effect(
                DbEffect::OpenQueryEditor(string_from_chars(string_chars(&self.query).as_slice())),
            );
        }
        if (key.code == Key::Enter || key.code == Key::Char('i')) && none {
            self.begin_cell_edit();
            return Vec::new();
        }
        Vec::new()
    }
}

// ---------------------------------------------------------------------------
// The table list and the query page
// ---------------------------------------------------------------------------

/// A key on the table list: `j`/Down and `k`/Up choose another table,
/// which is stored and whose rows are loaded; Enter or Right opens the
/// grid.
pub open spec fn tables_post(v: DbViewer, key: KeyEvent, n: DbViewer, e: Seq<EffectView>) -> bool {
    let none = no_modifiers(key.modifiers);
    let len = v.tables@.len() as int;
    let sel = v.selected_table as int;
    if (key.code == Key::Char('j') && none) || key.code == Key::Down {
        if len > 0 {
            let m = DbViewer {
                selected_table: (if sel + 1 < len - 1 {
                    sel + 1
                } else {
                    len - 1
                }) as usize,
                ..v
            };
            n == m && e == seq![persist_view(m), EffectView::ReloadRows(ReloadReason::Refresh)]
        } else {
            n == v && e.len() == 0
        }
    } else if (key.code == Key::Char('k') && none) || key.code == Key::Up {
        if sel > 0 {
            let m = DbViewer { selected_table: (sel - 1) as usize, ..v };
            n == m && e == seq![persist_view(m), EffectView::ReloadRows(ReloadReason::Refresh)]
        } else {
            n == v && e.len() == 0
        }
    } else if key.code == Key::Enter || key.code == Key::Right {
        n == (DbViewer { active_page: ActivePage::Grid, pending_g: false, ..v }) && e == seq![
            persist_view(n),
        ]
    } else {
        n == v && e.len() == 0
    }
}

/// A key on the query page: `r` or Ctrl+S runs the query, `e` edits it
/// outside, `i` edits it in place.
pub open spec fn query_post(v: DbViewer, key: KeyEvent, n: DbViewer, e: Seq<EffectView>) -> bool {
    let none = no_modifiers(key.modifiers);
    let control = key.modifiers.control && !key.modifiers.shift && !key.modifiers.alt;
    if (key.code == Key::Char('r') && none) || (key.code == Key::Char('s') && control) {
        n == v && e == seq![EffectView::RunQuery(v.query@)]
    } else if key.code == Key::Char('e') && none {
        n == v && e == seq![EffectView::OpenQueryEditor(v.query@)]
    } else if key.code == Key::Char('i') && none {
        &&& e.len() == 0
        &&& n.text_entry matches Some(t) && t.target is Query && t.buffer@ == v.query@
        &&& n == (DbViewer { text_entry: n.text_entry, ..v })
    } else {
        n == v && e.len() == 0
    }
}

fn two_effects(x: DbEffect, y: DbEffect) -> (r: Vec<DbEffect>)
    ensures
        effects_view(r@) == seq![x@, y@],
{
    let r = vec![x, y];
    proof {
        assert(effects_view(r@) =~= seq![r@[0]@, r@[1]@]);
    }
    r
}

impl DbViewer {
    /// Handles a key on the table list.
    pub fn tables_key(&mut self, key: KeyEvent) -> (r: Vec<DbEffect>)
        ensures
            tables_post(*old(self), key, *final(self), effects_view(r@)),
    {
        let none = !key.modifiers.shift && !key.modifiers.control && !key.modifiers.alt;
        if (key.code == Key::Char('j') && none) || key.code == Key::Down {
            if self.tables.len() > 0 {
                let last = self.tables.len() - 1;
                self.selected_table = if self.selected_table < last && self.selected_table + 1 < last {
                    self.selected_table + 1
                } else {
                    last
                };
                let p = self.persist_effect();
                return two_effects(p, DbEffect::ReloadRows(ReloadReason::Refresh));
            }
            return Vec::new();
        }
        if (key.code == Key::Char('k') && none) || key.code == Key::Up {
            if self.selected_table > 0 {
                self.selected_table = self.selected_table - 1;
                let p = self.persist_effect();
                return two_effects(p, DbEffect::ReloadRows(ReloadReason::Refresh));
            }
            return Vec::new();
        }
        if key.code == Key::Enter || key.code == Key::Right {
            let p = self.set_active_page(ActivePage::Grid);
            return one_effect(p);
        }
        Vec::new()
    }

    /// Handles a key on the query page.
    pub fn query_key(&mut self, key: KeyEvent) -> (r: Vec<DbEffect>)
        ensures
            query_post(*old(self), key, *final(self), effects_view(r@)),
    {
        let none = !key.modifiers.shift && !key.modifiers.control && !key.modifiers.alt;
        let control = key.modifiers.control && !key.modifiers.shift && !key.modifiers.alt;
        if (key.code == Key::Char('r') && none) || (key.code == Key::Char('s') && control) {
            return one_effect(DbEffect::RunQuery(string_from_chars(string_chars(&self.query).as_slice())));
        }
        if key.code == Key::Char('e') && none {
            return one_effect(
                DbEffect::OpenQueryEditor(string_from_chars(string_chars(&self.query).as_slice())),
            );
        }
        if key.code == Key::Char('i') && none {
            let buffer = string_from_chars(string_chars(&self.query).as_slice());
            self.text_entry = Some(TextEntry { target: TextEntryTarget::Query, buffer });
        }
        Vec::new()
    }
}

// ---------------------------------------------------------------------------
// Dispatch
// ---------------------------------------------------------------------------

/// What a key does: an error popup, the help, a waiting delete, a picker,
/// a text entry or the add-row form takes it first, in that order; then
/// `q` closes, `?` shows the help, `1`, `2` and `3` switch to the table
/// list, the grid and the query page; otherwise the page handles it.
pub open spec fn key_post(v: DbViewer, key: KeyEvent, n: DbViewer, e: Seq<EffectView>) -> bool {
    if v.error_popup is Some {
        e.len() == 0 && n == (if key.code == Key::Esc || key.code == Key::Enter {
            DbViewer { error_popup: None, ..v }
        } else {
            v
        })
    } else if v.help_visible {
        e.len() == 0 && n == (if key.code == Key::Esc || key.code == Key::Char('?') {
            DbViewer { help_visible: false, ..v }
        } else {
            v
        })
    } else if v.confirm_delete is Some {
        delete_confirm_post(v, key, n, e)
    } else if v.datetime_picker is Some {
        e.len() == 0 && datetime_picker_post(v, key, n)
    } else if v.value_picker is Some {
        e.len() == 0 && value_picker_post(v, key, n)
    } else if v.text_entry is Some {
        text_entry_post(v, key, n, e)
    } else if v.add_form is Some {
        add_form_post(v, key, n, e)
    } else if key.code == Key::Char('q') {
        n == v && e == seq![EffectView::Close]
    } else if key.code == Key::Char('?') {
        n == (DbViewer { help_visible: true, ..v }) && e.len() == 0
    } else if key.code == Key::Char('1') || key.code == Key::Char('2') || key.code == Key::Char('3') {
        let page = if key.code == Key::Char('1') {
            ActivePage::Tables
        } else if key.code == Key::Char('2') {
            ActivePage::Grid
        } else {
            ActivePage::Query
        };
        n == (DbViewer { active_page: page, pending_g: false, ..v }) && e == seq![persist_view(n)]
    } else {
        match v.active_page {
            ActivePage::Tables => tables_post(v, key, n, e),
            ActivePage::Grid => grid_post(v, key, n, e),
            ActivePage::Query => query_post(v, key, n, e),
        }
    }
}

impl DbViewer {
    /// Handles a key; returns the work the caller is to do, in order.
    pub fn handle_key(&mut self, key: KeyEvent) -> (r: Vec<DbEffect>)
        requires
            viewer_wf(*old(self)),
        ensures
            viewer_wf(*final(self)),
            key_post(*old(self), key, *final(self), effects_view(r@)),
    {
        if self.error_popup.is_some() {
            if key.code == Key::Esc || key.code == Key::Enter {
                self.error_popup = None;
            }
            return Vec::new();
        }
        if self.help_visible {
            if key.code == Key::Esc || key.code == Key::Char('?') {
                self.help_visible = false;
            }
            return Vec::new();
        }
        if self.confirm_delete.is_some() {
            return self.delete_confirm_key(key);
        }
        if self.datetime_picker.is_some() {
            self.datetime_picker_key(key);
            return Vec::new();
        }
        if self.value_picker.is_some() {
            self.value_picker_key(key);
            return Vec::new();
        }
        if self.text_entry.is_some() {
            return self.text_entry_key(key);
        }
        if self.add_form.is_some() {
            return self.add_form_key(key);
        }
        if key.code == Key::Char('q') {
            return one_effect(DbEffect::Close);
        }
        if key.code == Key::Char('?') {
            self.help_visible = true;
            return Vec::new();
        }
        if key.code == Key::Char('1') {
            let p = self.set_active_page(ActivePage::Tables);
            return one_effect(p);
        }
        if key.code == Key::Char('2') {
            let p = self.set_active_page(ActivePage::Grid);
            return one_effect(p);
        }
        if key.code == Key::Char('3') {
            let p = self.set_active_page(ActivePage::Query);
            return one_effect(p);
        }
        match self.active_page {
            ActivePage::Tables => self.tables_key(key),
            ActivePage::Grid => self.grid_key(key),
            ActivePage::Query => self.query_key(key),
        }
    }
}

// ---------------------------------------------------------------------------
// Opening the viewer
// ---------------------------------------------------------------------------

/// The index of the table stored as `schema.name`, or 0.
pub open spec fn stored_table_index(tables: Seq<TableInfo>, stored: Option<Seq<char>>) -> int {
    match stored {
        Some(k) => if exists|i: int| 0 <= i < tables.len() && #[trigger] crate::db_keys::table_key(tables[i]) == k {
            choose|i: int|
                0 <= i < tables.len() && crate::db_keys::table_key(tables[i]) == k && forall|j: int|
                    0 <= j < i ==> #[trigger] crate::db_keys::table_key(tables[j]) != k
        } else {
            0
        },
        None => 0,
    }
}

fn find_table(tables: &Vec<TableInfo>, name: &Vec<char>) -> (r: Option<usize>)
    ensures
        match r {
            Some(i) => i as int == stored_table_index(tables@, Some(name@)),
            None => stored_table_index(tables@, Some(name@)) == 0,
        },
{
    let mut i: usize = 0;
    while i < tables.len()
        invariant
            i <= tables@.len(),
            forall|j: int| 0 <= j < i ==> #[trigger] crate::db_keys::table_key(tables@[j]) != name@,
        decreases tables.len() - i,
    {
        let k = crate::db_keys::table_key_string(&tables[i]);
        if crate::text::chars_equal(&string_chars(&k), name) {
            proof {
                assert(crate::db_keys::table_key(tables@[i as int]) == name@);
                let w = choose|w: int|
                    0 <= w < tables@.len() && crate::db_keys::table_key(tables@[w]) == name@ && forall|j: int|
                        0 <= j < w ==> #[trigger] crate::db_keys::table_key(tables@[j]) != name@;
                assert(0 <= i < tables@.len() && crate::db_keys::table_key(tables@[i as int]) == name@
                    && forall|j: int| 0 <= j < i ==> #[trigger] crate::db_keys::table_key(tables@[j]) != name@);
                if w < i {
                    assert(crate::db_keys::table_key(tables@[w]) != name@);
                } else if w > i {
                    assert(crate::db_keys::table_key(tables@[i as int]) != name@);
                }
            }
            return Some(i);
        }
        i += 1;
    }
    None
}

impl DbViewer {
    /// The viewer over the given tables, with the stored table and page
    /// (`tables` when none is stored or the name is unknown) and the
    /// stored query (`SELECT * FROM users;` when none); its rows are to be
    /// loaded next, with [`ReloadReason::Initial`].
    pub fn new(
        tables: Vec<TableInfo>,
        stored_table: Option<String>,
        stored_page: Option<String>,
        stored_query: Option<String>,
    ) -> (v: DbViewer)
        ensures
            viewer_wf(v),
            v.tables@ == tables@,
            v.selected_table as int == stored_table_index(
                tables@,
                match stored_table {
                    Some(s) => Some(s@),
                    None => None,
                },
            ),
            v.active_page == match stored_page {
                Some(p) => match page_named(p@) {
                    Some(page) => page,
                    None => ActivePage::Tables,
                },
                None => ActivePage::Tables,
            },
            v.query@ == match stored_query {
                Some(q) => q@,
                None => "SELECT * FROM users;"@,
            },
            v.query_result_lines@.map_values(|s: String| s@) == seq![
                "Run a query with 'r'. Edit query with 'e'."@,
            ],
            v.status@.len() == 0,
            v.rows@.len() == 0,
            v.selected_row == 0 && v.selected_col == 0,
            v.selected_rows@.len() == 0 && v.dirty_rows@.len() == 0,
            v.error_popup is None && !v.help_visible && v.text_entry is None && v.pending_entry is None,
            v.datetime_picker is None && v.value_picker is None && v.confirm_delete is None
                && v.add_form is None,
            v.terminal_width == 120 && v.terminal_height == 40,
            v.grid_h_scroll == 0 && v.grid_v_scroll == 0 && !v.pending_g,
    {
        let selected: usize = match &stored_table {
            Some(name) => match find_table(&tables, &string_chars(name)) {
                Some(i) => i,
                None => 0,
            },
            None => 0,
        };
        let page = match &stored_page {
            Some(p) => match crate::db_keys::page_from_str(p.as_str()) {
                Some(page) => page,
                None => ActivePage::Tables,
            },
            None => ActivePage::Tables,
        };
        let query = match stored_query {
            Some(q) => q,
            None => string_from_chars(to_chars("SELECT * FROM users;").as_slice()),
        };
        let lines = vec![
            string_from_chars(to_chars("Run a query with 'r'. Edit query with 'e'.").as_slice()),
        ];
        proof {
            assert(lines@.map_values(|s: String| s@) =~= seq![
                "Run a query with 'r'. Edit query with 'e'."@,
            ]);
        }
        DbViewer {
            tables,
            selected_table: selected,
            rows: Vec::new(),
            selected_row: 0,
            selected_col: 0,
            selected_rows: Vec::new(),
            dirty_rows: Vec::new(),
            active_page: page,
            query,
            query_result_lines: lines,
            status: string_from_chars(Vec::<char>::new().as_slice()),
            error_popup: None,
            help_visible: false,
            text_entry: None,
            pending_entry: None,
            datetime_picker: None,
            value_picker: None,
            confirm_delete: None,
            add_form: None,
            terminal_width: 120,
            terminal_height: 40,
            grid_h_scroll: 0,
            grid_v_scroll: 0,
            pending_g: false,
        }
    }
}

} // verus!
