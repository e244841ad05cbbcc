//! The database viewer's pages: the table list, the grid and the query
//! page, saving pending edits, and the dispatch of a key to whatever is
//! open.

use vstd::prelude::*;
use crate::api_messages::{control_only, no_modifiers, shift_only, plain_g, Key, KeyEvent};
use crate::cell_edit::{mode_of, valid_fields, DateTimePicker};
use crate::collection::strings_view;
use crate::db_app::{
    cell_map, column_spans, compute_column_ranges, compute_widths_spec, current_cell_value,
    current_value, dirty_indexes, dirty_of, dirty_view, ensure_selected_cell_visible,
    estimated_grid_viewport, increasing, scrolled_into_view, selected_table_of, viewer_wf,
    viewport_of, ActivePage, AddForm, DbViewer, DirtyRow, GridRow, TextEntry, TextEntryTarget,
};
use crate::db_edit::{delete_request_post, open_value_picker, options_view, picker_choices};
use crate::db_form::{copy_column, form_map, same_column};
use crate::db_keys::{
    effects_view, pairs_view, persist_view, with_error, with_status, DbEffect, EffectView,
    ReloadReason, RowUpdate,
};
use crate::db_sql::TableInfo;
use crate::db_view::{copy_cell, display_text, error_line, format_error_for_status, value_to_display, CellValue, CellView};
use crate::table::{sorted_table, table_insert, table_map};
use crate::text::{decimal, push_all, push_decimal, push_str, string_chars, string_from_chars, to_chars};

verus! {

// ---------------------------------------------------------------------------
// Following the cursor
// ---------------------------------------------------------------------------

/// The viewer with the selected cell scrolled into view.
pub open spec fn followed(v: DbViewer) -> DbViewer {
    match selected_table_of(v) {
        None => v,
        Some(t) => {
            let (w, h) = viewport_of(v.terminal_width, v.terminal_height);
            let (nh, nv) = scrolled_into_view(
                v.grid_h_scroll as int,
                v.grid_v_scroll as int,
                column_spans(compute_widths_spec(v, t), 6),
                v.selected_col as int,
                v.selected_row as int,
                w,
                h,
            );
            DbViewer { grid_h_scroll: nh as usize, grid_v_scroll: nv as usize, ..v }
        },
    }
}

impl DbViewer {
    /// Scrolls the selected cell into view.
    pub fn follow_selected_cell(&mut self)
        requires
            viewer_wf(*old(self)),
        ensures
            *final(self) == followed(*old(self)),
    {
        if self.selected_table >= self.tables.len() {
            return;
        }
        let ranges = compute_column_ranges(self, &self.tables[self.selected_table]);
        let (w, h) = estimated_grid_viewport(self);
        ensure_selected_cell_visible(self, &ranges, w, h);
    }

    /// Shows another page and asks to store the choice.
    pub fn set_active_page(&mut self, page: ActivePage) -> (r: DbEffect)
        ensures
            *final(self) == (DbViewer { active_page: page, pending_g: false, ..*old(self) }),
            r@ == persist_view(*final(self)),
    {
        self.active_page = page;
        self.pending_g = false;
        self.persist_effect()
    }
}

// ---------------------------------------------------------------------------
// Marked rows
// ---------------------------------------------------------------------------

impl DbViewer {
    /// Marks the selected row, or unmarks it when it is marked.
    pub fn toggle_selected_row(&mut self)
        requires
            increasing(old(self).selected_rows@),
        ensures
            increasing(final(self).selected_rows@),
            final(self).selected_rows@.to_set() == (if old(self).selected_rows@.contains(
                old(self).selected_row,
            ) {
                old(self).selected_rows@.to_set().remove(old(self).selected_row)
            } else {
                old(self).selected_rows@.to_set().insert(old(self).selected_row)
            }),
            *final(self) == (DbViewer { selected_rows: final(self).selected_rows, ..*old(self) }),
    {
        let row = self.selected_row;
        let ghost s = self.selected_rows@;
        let mut p: usize = 0;
        while p < self.selected_rows.len() && self.selected_rows[p] < row
            invariant
                p <= s.len(),
                self.selected_rows@ == s,
                increasing(s),
                forall|i: int| 0 <= i < p ==> s[i] < row,
            decreases self.selected_rows.len() - p,
        {
            p += 1;
        }
        if p < self.selected_rows.len() && self.selected_rows[p] == row {
            self.selected_rows.remove(p);
            proof {
                let n = s.remove(p as int);
                assert(self.selected_rows@ =~= n);
                assert(s.contains(row));
                assert forall|x: usize| #[trigger] n.to_set().contains(x) == s.to_set().remove(row).contains(x) by {
                    if n.contains(x) {
                        let i = choose|i: int| 0 <= i < n.len() && n[i] == x;
                        if i < p {
                            assert(s[i] == x);
                            assert(s[i] < s[p as int]);
                        } else {
                            assert(s[i + 1] == x);
                            assert(s[p as int] < s[i + 1]);
                        }
                    }
                    if s.contains(x) && x != row {
                        let i = choose|i: int| 0 <= i < s.len() && s[i] == x;
                        if i < p {
                            assert(n[i] == x);
                        } else {
                            assert(i != p);
                            assert(n[i - 1] == x);
                        }
                    }
                }
                assert(n.to_set() =~= s.to_set().remove(row));
            }
        } else {
            self.selected_rows.insert(p, row);
            proof {
                let n = s.insert(p as int, row);
                assert(self.selected_rows@ =~= n);
                assert forall|i: int| p <= i < s.len() implies #[trigger] s[i] > row by {
                    if i > p {
                        assert(s[p as int] < s[i]);
                    }
                }
                assert(!s.contains(row)) by {
                    if s.contains(row) {
                        let i = choose|i: int| 0 <= i < s.len() && s[i] == row;
                        assert(s[i] != row);
                    }
                }
                assert forall|i: int, j: int| 0 <= i < j < n.len() implies n[i] < n[j] by {
                    if j < p {
                        assert(s[i] < s[j]);
                    } else if i > p {
                        assert(s[i - 1] < s[j - 1]);
                    }
                }
                assert forall|x: usize| #[trigger] n.to_set().contains(x) == s.to_set().insert(row).contains(x) by {
                    if n.contains(x) {
                        let i = choose|i: int| 0 <= i < n.len() && n[i] == x;
                        if i < p {
                            assert(s[i] == x);
                        } else if i > p {
                            assert(s[i - 1] == x);
                        }
                    }
                    if s.contains(x) {
                        let i = choose|i: int| 0 <= i < s.len() && s[i] == x;
                        if i < p {
                            assert(n[i] == x);
                        } else {
                            assert(n[i + 1] == x);
                        }
                    }
                    if x == row {
                        assert(n[p as int] == row);
                    }
                }
                assert(n.to_set() =~= s.to_set().insert(row));
            }
        }
    }

    /// Marks every loaded row.
    pub fn select_all_rows(&mut self)
        ensures
            final(self).selected_rows@ == Seq::new(old(self).rows@.len(), |i: int| i as usize),
            increasing(final(self).selected_rows@),
            *final(self) == (DbViewer { selected_rows: final(self).selected_rows, ..*old(self) }),
    {
        let mut all: Vec<usize> = Vec::new();
        let mut i: usize = 0;
        while i < self.rows.len()
            invariant
                i <= self.rows@.len(),
                all@ == Seq::new(i as nat, |k: int| k as usize),
            decreases self.rows.len() - i,
        {
            all.push(i);
            proof {
                assert(all@ =~= Seq::new((i + 1) as nat, |k: int| k as usize));
            }
            i += 1;
        }
        self.selected_rows = all;
    }
}

// ---------------------------------------------------------------------------
// Saving pending edits
// ---------------------------------------------------------------------------

/// The edits to save: each row with pending edits that is loaded, in row
/// order, with its id.
pub open spec fn save_list(v: DbViewer, k: int) -> Seq<(usize, Seq<char>, Seq<(Seq<char>, CellView)>)>
    decreases k,
{
    if k <= 0 {
        Seq::empty()
    } else {
        let rest = save_list(v, k - 1);
        let d = v.dirty_rows@[k - 1];
        if d.row_index < v.rows@.len() {
            rest.push((d.row_index, v.rows@[d.row_index as int].ctid@, pairs_view(d.updates@)))
        } else {
            rest
        }
    }
}

/// Ctrl+S on the grid: nothing pending, or a request to write each loaded
/// row's pending edits.
pub open spec fn save_request_post(v: DbViewer, n: DbViewer, eff: Seq<EffectView>) -> bool {
    if v.dirty_rows@.len() == 0 {
        eff.len() == 0 && with_status(v, "No pending edits"@, n)
    } else {
        n == v && eff == seq![EffectView::SaveRows(save_list(v, v.dirty_rows@.len() as int))]
    }
}

impl DbViewer {
    /// Asks to write the pending edits.
    pub fn save_dirty_rows(&mut self) -> (r: Vec<DbEffect>)
        ensures
            save_request_post(*old(self), *final(self), effects_view(r@)),
    {
        if self.dirty_rows.len() == 0 {
            self.status = string_from_chars(to_chars("No pending edits").as_slice());
            return Vec::new();
        }
        let mut list: Vec<RowUpdate> = Vec::new();
        let mut i: usize = 0;
        while i < self.dirty_rows.len()
            invariant
                i <= self.dirty_rows@.len(),
                list@.map_values(|x: RowUpdate| (x.row_index, x.ctid@, pairs_view(x.updates@)))
                    == save_list(*self, i as int),
            decreases self.dirty_rows.len() - i,
        {
            let d = &self.dirty_rows[i];
            if d.row_index < self.rows.len() {
                let mut ups: Vec<(String, CellValue)> = Vec::new();
                let mut k: usize = 0;
                while k < d.updates.len()
                    invariant
                        k <= d.updates@.len(),
                        pairs_view(ups@) == pairs_view(d.updates@).take(k as int),
                    decreases d.updates.len() - k,
                {
                    let ghost before = ups@;
                    ups.push(
                        (
                            string_from_chars(string_chars(&d.updates[k].0).as_slice()),
                            copy_cell(&d.updates[k].1),
                        ),
                    );
                    proof {
                        assert(pairs_view(ups@) =~= pairs_view(before).push(
                            (d.updates@[k as int].0@, d.updates@[k as int].1@),
                        ));
                        assert(pairs_view(d.updates@).take(k + 1) =~= pairs_view(d.updates@).take(
                            k as int,
                        ).push((d.updates@[k as int].0@, d.updates@[k as int].1@)));
                    }
                    k += 1;
                }
                proof {
                    assert(pairs_view(d.updates@).take(k as int) =~= pairs_view(d.updates@));
                }
                let ghost before = list@;
                list.push(
                    RowUpdate {
                        row_index: d.row_index,
                        ctid: string_from_chars(string_chars(&self.rows[d.row_index].ctid).as_slice()),
                        updates: ups,
                    },
                );
                proof {
                    assert(list@.map_values(
                        |x: RowUpdate| (x.row_index, x.ctid@, pairs_view(x.updates@)),
                    ) =~= before.map_values(
                        |x: RowUpdate| (x.row_index, x.ctid@, pairs_view(x.updates@)),
                    ).push(
                        (d.row_index, self.rows@[d.row_index as int].ctid@, pairs_view(d.updates@)),
                    ));
                }
            }
            i += 1;
        }
        let r = vec![DbEffect::SaveRows(list)];
        proof {
            assert(effects_view(r@) =~= seq![r@[0]@]);
        }
        r
    }
}

/// The outcome of writing one row: `None` when it was written, else the
/// error chain.
#[derive(Debug, Clone)]
pub struct SaveOutcome {
    pub row_index: usize,
    pub error: Option<Vec<String>>,
}

/// Rows written, rows failed, and the first failure's line, over the
/// first `k` outcomes.
pub open spec fn save_tally(o: Seq<SaveOutcome>, k: int) -> (nat, nat, Option<Seq<char>>)
    decreases k,
{
    if k <= 0 {
        (0, 0, None)
    } else {
        let (s, f, e) = save_tally(o, k - 1);
        match o[k - 1].error {
            None => (s + 1, f, e),
            Some(chain) => (
                s,
                f + 1,
                if e is None {
                    Some(
                        "row "@ + decimal((o[k - 1].row_index + 1) as nat) + ": "@ + error_line(
                            strings_view(chain@),
                        ),
                    )
                } else {
                    e
                },
            ),
        }
    }
}

/// The line that reports a save.
pub open spec fn save_line(saved: nat, failed: nat, first: Option<Seq<char>>) -> Seq<char> {
    let reason = match first {
        Some(e) => e,
        None => "unknown error"@,
    };
    if saved == 0 && failed == 0 {
        "No rows were updated"@
    } else if failed == 0 {
        "Saved "@ + decimal(saved) + " row(s)"@
    } else if saved == 0 {
        "Failed to save "@ + decimal(failed) + " row(s): "@ + reason
    } else {
        "Saved "@ + decimal(saved) + " row(s), failed "@ + decimal(failed) + ": "@ + reason
    }
}

/// The rows after the first `k` outcomes: those written show their
/// pending edits over their loaded values, the others are unchanged.
pub open spec fn rows_match(v: DbViewer, rows: Seq<GridRow>, o: Seq<SaveOutcome>, k: int) -> bool {
    &&& rows.len() == v.rows@.len()
    &&& forall|i: int|
        #![trigger rows[i]]
        0 <= i < v.rows@.len() ==> rows[i].ctid@ == v.rows@[i].ctid@ && cell_map(
            rows[i].values@,
        ) == (if written(o.take(k), i) {
            cell_map(v.rows@[i].values@).union_prefer_right(dirty_of(v, i))
        } else {
            cell_map(v.rows@[i].values@)
        })
}

/// A row written without error among the outcomes.
pub open spec fn written(o: Seq<SaveOutcome>, row: int) -> bool {
    exists|i: int| 0 <= i < o.len() && #[trigger] o[i].row_index == row && o[i].error is None
}

/// The outcome of a save: written rows leave the pending edits and show
/// their new values; a report in the status line, as an error when a row
/// failed; rows are loaded again when all were written.
pub open spec fn saved_post(v: DbViewer, o: Seq<SaveOutcome>, n: DbViewer, eff: Seq<EffectView>) -> bool {
    let (s, f, e) = save_tally(o, o.len() as int);
    let line = save_line(s, f, e);
    &&& dirty_view(n.dirty_rows@) == dirty_view(v.dirty_rows@).restrict(
        dirty_view(v.dirty_rows@).dom().filter(|r: int| !written(o, r)),
    )
    &&& rows_match(v, n.rows@, o, o.len() as int)
    &&& (if f > 0 {
        with_error(DbViewer { rows: n.rows, dirty_rows: n.dirty_rows, ..v }, line, n)
    } else {
        with_status(DbViewer { rows: n.rows, dirty_rows: n.dirty_rows, ..v }, line, n)
    })
    &&& eff == (if f == 0 && s > 0 {
        seq![EffectView::ReloadRows(ReloadReason::AfterSave(s as usize))]
    } else {
        Seq::empty()
    })
}

proof fn lemma_written_step(o: Seq<SaveOutcome>, k: int)
    requires
        0 <= k < o.len(),
        o[k].error is None,
    ensures
        forall|r: int| #[trigger] written(o.take(k + 1), r) == (written(o.take(k), r) || r == o[k].row_index),
{
    assert forall|r: int| #[trigger] written(o.take(k + 1), r) == (written(o.take(k), r) || r == o[k].row_index) by {
        if written(o.take(k + 1), r) && r != o[k].row_index {
            let i = choose|i: int| 0 <= i < o.take(k + 1).len() && #[trigger] o.take(k + 1)[i].row_index == r && o.take(k + 1)[i].error is None;
            assert(i != k);
            assert(o.take(k)[i] == o.take(k + 1)[i]);
        }
        if written(o.take(k), r) {
            let i = choose|i: int| 0 <= i < o.take(k).len() && #[trigger] o.take(k)[i].row_index == r && o.take(k)[i].error is None;
            assert(o.take(k + 1)[i] == o.take(k)[i]);
        }
        if r == o[k].row_index {
            assert(o.take(k + 1)[k] == o[k]);
        }
    }
}

fn apply_updates(row: &mut GridRow, updates: &Vec<(String, CellValue)>)
    requires
        sorted_table(old(row).values@),
        sorted_table(updates@),
    ensures
        sorted_table(final(row).values@),
        final(row).ctid == old(row).ctid,
        cell_map(final(row).values@) == cell_map(old(row).values@).union_prefer_right(cell_map(updates@)),
{
    let ghost start = cell_map(row.values@);
    let mut k: usize = 0;
    proof {
        assert(table_map(updates@.take(0)) =~= Map::empty());
        assert(start =~= start.union_prefer_right(cell_map(updates@.take(0))));
    }
    while k < updates.len()
        invariant
            k <= updates@.len(),
            sorted_table(row.values@),
            sorted_table(updates@),
            row.ctid == old(row).ctid,
            start == cell_map(old(row).values@),
            cell_map(row.values@) == start.union_prefer_right(cell_map(updates@.take(k as int))),
        decreases updates.len() - k,
    {
        let ghost before = cell_map(row.values@);
        let key = string_from_chars(string_chars(&updates[k].0).as_slice());
        let val = copy_cell(&updates[k].1);
        let ghost vv = val@;
        table_insert(&mut row.values, key, val);
        proof {
            crate::table::lemma_table_map_prefix(updates@, k as int);
            assert(cell_map(row.values@) =~= before.insert(updates@[k as int].0@, vv));
            assert(cell_map(updates@.take(k + 1)) =~= cell_map(updates@.take(k as int)).insert(
                updates@[k as int].0@,
                updates@[k as int].1@,
            ));
            assert(cell_map(row.values@) =~= start.union_prefer_right(cell_map(updates@.take(k + 1))));
        }
        k += 1;
    }
    proof {
        assert(updates@.take(updates@.len() as int) =~= updates@);
    }
}

impl DbViewer {
    fn write_back(&mut self, row: usize, updates: &Vec<(String, CellValue)>)
        requires
            viewer_wf(*old(self)),
            sorted_table(updates@),
        ensures
            viewer_wf(*final(self)),
            final(self).rows@.len() == old(self).rows@.len(),
            forall|i: int|
                0 <= i < old(self).rows@.len() ==> final(self).rows@[i].ctid == old(self).rows@[i].ctid
                    && cell_map(#[trigger] final(self).rows@[i].values@) == (if i == row {
                    cell_map(old(self).rows@[i].values@).union_prefer_right(cell_map(updates@))
                } else {
                    cell_map(old(self).rows@[i].values@)
                }),
            *final(self) == (DbViewer { rows: final(self).rows, ..*old(self) }),
    {
        if row < self.rows.len() {
            let ghost r0 = self.rows@;
            let mut g = self.rows.remove(row);
            proof {
                assert(sorted_table(r0[row as int].values@));
            }
            apply_updates(&mut g, updates);
            self.rows.insert(row, g);
            proof {
                assert(self.rows@ =~= r0.update(row as int, g));
                assert forall|i: int| 0 <= i < self.rows@.len() implies sorted_table(
                    #[trigger] self.rows@[i].values@,
                ) by {
                    if i != row {
                        assert(self.rows@[i] == r0[i]);
                    }
                }
            }
        }
    }

    fn finish_save(&mut self, saved: usize, failed: usize, first: Option<Vec<char>>) -> (r: Vec<
        DbEffect,
    >)
        ensures
            ({
                let line = save_line(
                    saved as nat,
                    failed as nat,
                    match first {
                        Some(t) => Some(t@),
                        None => None,
                    },
                );
                if failed > 0 {
                    with_error(*old(self), line, *final(self))
                } else {
                    with_status(*old(self), line, *final(self))
                }
            }),
            effects_view(r@) == (if failed == 0 && saved > 0 {
                seq![EffectView::ReloadRows(ReloadReason::AfterSave(saved))]
            } else {
                Seq::empty()
            }),
    {
        let mut line: Vec<char> = Vec::new();
        if saved == 0 && failed == 0 {
            push_str(&mut line, "No rows were updated");
        } else if failed == 0 {
            push_str(&mut line, "Saved ");
            push_decimal(&mut line, saved as u64);
            push_str(&mut line, " row(s)");
        } else {
            let reason: Vec<char> = match first {
                Some(t) => t,
                None => to_chars("unknown error"),
            };
            if saved == 0 {
                push_str(&mut line, "Failed to save ");
                push_decimal(&mut line, failed as u64);
                push_str(&mut line, " row(s): ");
            } else {
                push_str(&mut line, "Saved ");
                push_decimal(&mut line, saved as u64);
                push_str(&mut line, " row(s), failed ");
                push_decimal(&mut line, failed as u64);
                push_str(&mut line, ": ");
            }
            push_all(&mut line, &reason);
        }
        if failed > 0 {
            self.status = string_from_chars(line.as_slice());
            self.error_popup = Some(string_from_chars(line.as_slice()));
        } else {
            self.status = string_from_chars(line.as_slice());
        }
        if failed == 0 && saved > 0 {
            let r = vec![DbEffect::ReloadRows(ReloadReason::AfterSave(saved))];
            proof {
                assert(effects_view(r@) =~= seq![EffectView::ReloadRows(ReloadReason::AfterSave(saved))]);
            }
            r
        } else {
            let r: Vec<DbEffect> = Vec::new();
            proof {
                assert(effects_view(r@) =~= Seq::<EffectView>::empty());
            }
            r
        }
    }

    /// Takes the outcome of writing the pending edits, one outcome per row
    /// in the order they were requested.
    pub fn rows_saved(&mut self, outcomes: &Vec<SaveOutcome>) -> (r: Vec<DbEffect>)
        requires
            viewer_wf(*old(self)),
        ensures
            viewer_wf(*final(self)),
            saved_post(*old(self), outcomes@, *final(self), effects_view(r@)),
    {
        let ghost v = *self;
        let ghost o = outcomes@;
        let mut saved: usize = 0;
        let mut failed: usize = 0;
        let mut first: Option<Vec<char>> = None;
        let mut k: usize = 0;
        proof {
            assert(dirty_view(v.dirty_rows@) =~= dirty_view(v.dirty_rows@).restrict(
                dirty_view(v.dirty_rows@).dom().filter(|r: int| !written(o.take(0), r)),
            ));
            assert forall|i: int| 0 <= i < v.rows@.len() implies !written(o.take(0), i) by {}
            assert(rows_match(v, self.rows@, o, 0));
        }
        while k < outcomes.len()
            invariant
                k <= o.len(),
                o == outcomes@,
                viewer_wf(*self),
                saved as nat == save_tally(o, k as int).0,
                failed as nat == save_tally(o, k as int).1,
                saved + failed == k,
                match first {
                    Some(t) => save_tally(o, k as int).2 == Some(t@),
                    None => save_tally(o, k as int).2 is None,
                },
                dirty_view(self.dirty_rows@) == dirty_view(v.dirty_rows@).restrict(
                    dirty_view(v.dirty_rows@).dom().filter(|r: int| !written(o.take(k as int), r)),
                ),
                rows_match(v, self.rows@, o, k as int),
                *self == (DbViewer { rows: self.rows, dirty_rows: self.dirty_rows, ..v }),
            decreases outcomes.len() - k,
        {
            let out = &outcomes[k];
            let row = out.row_index;
            let ghost self0 = *self;
            proof {
                assert(o.take(k + 1).drop_last() =~= o.take(k as int));
                assert(rows_match(v, self0.rows@, o, k as int));
            }
            match &out.error {
                None => {
                    saved = saved + 1;
                    let pos = crate::db_app::dirty_position_pub(&self.dirty_rows, row);
                    proof {
                        lemma_written_step(o, k as int);
                    }
                    match pos {
                        Some(p) => {
                            let d = self.dirty_rows.remove(p);
                            proof {
                                crate::db_app::lemma_dirty_remove_pub(self0.dirty_rows@, p as int);
                                assert(self.dirty_rows@ =~= self0.dirty_rows@.remove(p as int));
                                assert(dirty_view(self0.dirty_rows@).contains_key(row as int));
                                assert(!written(o.take(k as int), row as int));
                                assert(cell_map(d.updates@) == dirty_of(v, row as int));
                                assert(sorted_table(self0.dirty_rows@[p as int].updates@));
                                assert forall|i: int| 0 <= i < self.dirty_rows@.len() implies sorted_table(
                                    #[trigger] self.dirty_rows@[i].updates@,
                                ) by {
                                    let j = if i < p { i } else { i + 1 };
                                    assert(self.dirty_rows@[i] == self0.dirty_rows@[j]);
                                }
                            }
                            let ghost self1 = *self;
                            self.write_back(row, &d.updates);
                            proof {
                                assert(rows_match(v, self.rows@, o, k + 1)) by {
                                    assert forall|i: int|
                                        0 <= i < v.rows@.len() implies #[trigger] self.rows@[i].ctid@ == v.rows@[i].ctid@ && cell_map(
                                            self.rows@[i].values@,
                                        ) == (if written(o.take(k + 1), i) {
                                            cell_map(v.rows@[i].values@).union_prefer_right(dirty_of(v, i))
                                        } else {
                                            cell_map(v.rows@[i].values@)
                                        }) by {
                                        assert(self1.rows@ == self0.rows@);
                                        assert(self1.rows@[i] == self0.rows@[i]);
                                        assert(cell_map(self.rows@[i].values@) == (if i == row {
                                            cell_map(self1.rows@[i].values@).union_prefer_right(cell_map(d.updates@))
                                        } else {
                                            cell_map(self1.rows@[i].values@)
                                        }));
                                        assert(cell_map(self0.rows@[i].values@) == (if written(o.take(k as int), i) {
                                            cell_map(v.rows@[i].values@).union_prefer_right(dirty_of(v, i))
                                        } else {
                                            cell_map(v.rows@[i].values@)
                                        }));
                                        assert(written(o.take(k + 1), i) == (written(o.take(k as int), i) || i == row));
                                    }
                                }
                            }
                        },
                        None => {
                            proof {
                                assert(!dirty_view(self0.dirty_rows@).contains_key(row as int));
                                if !written(o.take(k as int), row as int) {
                                    assert(!dirty_view(v.dirty_rows@).contains_key(row as int));
                                    assert(dirty_of(v, row as int) =~= Map::empty());
                                }
                                assert(rows_match(v, self.rows@, o, k + 1)) by {
                                    assert forall|i: int|
                                        0 <= i < v.rows@.len() implies #[trigger] self.rows@[i].ctid@ == v.rows@[i].ctid@ && cell_map(
                                            self.rows@[i].values@,
                                        ) == (if written(o.take(k + 1), i) {
                                            cell_map(v.rows@[i].values@).union_prefer_right(dirty_of(v, i))
                                        } else {
                                            cell_map(v.rows@[i].values@)
                                        }) by {
                                        assert(cell_map(self0.rows@[i].values@) == (if written(o.take(k as int), i) {
                                            cell_map(v.rows@[i].values@).union_prefer_right(dirty_of(v, i))
                                        } else {
                                            cell_map(v.rows@[i].values@)
                                        }));
                                        assert(written(o.take(k + 1), i) == (written(o.take(k as int), i) || i == row));
                                        if i == row && !written(o.take(k as int), i) {
                                            assert(cell_map(v.rows@[i].values@).union_prefer_right(dirty_of(v, i))
                                                =~= cell_map(v.rows@[i].values@));
                                        }
                                    }
                                }
                            }
                        },
                    }
                    proof {
                        assert(dirty_view(self.dirty_rows@) =~= dirty_view(v.dirty_rows@).restrict(
                            dirty_view(v.dirty_rows@).dom().filter(|r: int| !written(o.take(k + 1), r)),
                        ));
                    }
                },
                Some(chain) => {
                    failed = failed + 1;
                    if first.is_none() {
                        let mut m: Vec<char> = Vec::new();
                        push_str(&mut m, "row ");
                        crate::text::push_decimal_wide(&mut m, row as u128 + 1);
                        push_str(&mut m, ": ");
                        push_all(&mut m, &string_chars(&format_error_for_status(chain)));
                        first = Some(m);
                    }
                    proof {
                        assert forall|r: int| #[trigger] written(o.take(k + 1), r) == written(o.take(k as int), r) by {
                            if written(o.take(k + 1), r) {
                                let i = choose|i: int| 0 <= i < o.take(k + 1).len() && #[trigger] o.take(k + 1)[i].row_index == r && o.take(k + 1)[i].error is None;
                                assert(i != k);
                                assert(o.take(k as int)[i] == o.take(k + 1)[i]);
                            }
                            if written(o.take(k as int), r) {
                                let i = choose|i: int| 0 <= i < o.take(k as int).len() && #[trigger] o.take(k as int)[i].row_index == r && o.take(k as int)[i].error is None;
                                assert(o.take(k + 1)[i] == o.take(k as int)[i]);
                            }
                        }
                        assert(dirty_view(v.dirty_rows@).dom().filter(|r: int| !written(o.take(k + 1), r))
                            =~= dirty_view(v.dirty_rows@).dom().filter(|r: int| !written(o.take(k as int), r)));
                        assert(rows_match(v, self.rows@, o, k + 1)) by {
                            assert forall|i: int|
                            0 <= i < v.rows@.len() implies self.rows@[i].ctid@ == v.rows@[i].ctid@ && cell_map(
                                #[trigger] self.rows@[i].values@,
                            ) == (if written(o.take(k + 1), i) {
                                cell_map(v.rows@[i].values@).union_prefer_right(dirty_of(v, i))
                            } else {
                                cell_map(v.rows@[i].values@)
                            }) by {
                            assert(self.rows@[i] == self0.rows@[i]);
                            assert(cell_map(self0.rows@[i].values@) == (if written(o.take(k as int), i) {
                                cell_map(v.rows@[i].values@).union_prefer_right(dirty_of(v, i))
                            } else {
                                cell_map(v.rows@[i].values@)
                            }));
                            assert(written(o.take(k + 1), i) == (written(o.take(k as int), i)));
                        }
                        }
                    }
                },
            }
            k += 1;
        }
        proof {
            assert(o.take(o.len() as int) =~= o);
            assert(rows_match(v, self.rows@, o, o.len() as int));
        }
        let ghost first_view: Option<Seq<char>> = match &first {
            Some(t) => Some(t@),
            None => None,
        };
        let ghost mid = *self;
        let r = self.finish_save(saved, failed, first);
        proof {
            assert(first_view == save_tally(o, o.len() as int).2);
            assert(mid == (DbViewer { rows: mid.rows, dirty_rows: mid.dirty_rows, ..v }));
        }
        r
    }
}

// ---------------------------------------------------------------------------
// Laws
// ---------------------------------------------------------------------------

/// Marking a row and marking it again leaves the marks as they were.
pub proof fn law_toggle_twice_restores(marks: Set<usize>, row: usize)
    ensures
        ({
            let once = if marks.contains(row) {
                marks.remove(row)
            } else {
                marks.insert(row)
            };
            let twice = if once.contains(row) {
                once.remove(row)
            } else {
                once.insert(row)
            };
            twice == marks
        }),
{
    let once = if marks.contains(row) {
        marks.remove(row)
    } else {
        marks.insert(row)
    };
    let twice = if once.contains(row) {
        once.remove(row)
    } else {
        once.insert(row)
    };
    assert(twice =~= marks);
}

/// When every row with pending edits is written without error, no edit
/// stays pending.
pub proof fn law_full_save_clears_edits(v: DbViewer, o: Seq<SaveOutcome>, n: DbViewer, eff: Seq<EffectView>)
    requires
        saved_post(v, o, n, eff),
        forall|r: int| #[trigger] dirty_view(v.dirty_rows@).contains_key(r) ==> written(o, r),
    ensures
        dirty_view(n.dirty_rows@) == Map::<int, Map<Seq<char>, CellView>>::empty(),
{
    assert(dirty_view(v.dirty_rows@).dom().filter(|r: int| !written(o, r)) =~= Set::<int>::empty());
    assert(dirty_view(n.dirty_rows@) =~= Map::<int, Map<Seq<char>, CellView>>::empty());
}

} // verus!
