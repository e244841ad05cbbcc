//! Editing in the database viewer: the value and date/time pickers, text
//! entry, the add-row form, marking and deleting rows.

use vstd::prelude::*;
use crate::api_messages::{no_modifiers, Key, KeyEvent};
use crate::cell_edit::{boolean_column, is_boolean_column, temporal_text, valid_fields, PickerOutcome};
use crate::collection::strings_view;
use crate::db_app::{
    current_cell_value, current_value, dirty_of, dirty_view, increasing, selected_table_of,
    viewer_wf, DbViewer, DeleteConfirmation, PickerOption, ValuePicker,
};
use crate::db_keys::{effects_view, with_error, with_status, DbEffect, EffectView, ReloadReason};
use crate::db_sql::ColumnInfo;
use crate::db_view::{cells_equal, copy_cell, error_line, format_error_for_status, CellValue, CellView};
use crate::text::{decimal, push_all, push_decimal, push_str, string_chars, string_from_chars, to_chars};

verus! {

// ---------------------------------------------------------------------------
// The value picker
// ---------------------------------------------------------------------------

/// The choices offered for a cell: the labels of an enum column, or `true`
/// and `false` for a boolean column, followed by `NULL` when the column
/// accepts it; none for other columns.
pub open spec fn picker_choices(c: ColumnInfo) -> Seq<(Seq<char>, CellView)> {
    let null_choice = if c.is_nullable {
        seq![("NULL"@, CellView::Null)]
    } else {
        Seq::empty()
    };
    if c.enum_options@.len() > 0 {
        Seq::new(
            c.enum_options@.len(),
            |i: int| (c.enum_options@[i]@, CellView::Text(c.enum_options@[i]@)),
        ) + null_choice
    } else if boolean_column(c) {
        seq![("true"@, CellView::Bool(true)), ("false"@, CellView::Bool(false))] + null_choice
    } else {
        Seq::empty()
    }
}

/// The choices of a picker as views.
pub open spec fn options_view(o: Seq<PickerOption>) -> Seq<(Seq<char>, CellView)> {
    o.map_values(|p: PickerOption| (p.label@, p.value@))
}

/// The index of the first choice whose value is `v`, or -1.
pub open spec fn first_with_value(o: Seq<(Seq<char>, CellView)>, v: CellView) -> int
    decreases o.len(),
{
    if o.len() == 0 {
        -1
    } else if o[0].1 == v {
        0
    } else {
        let r = first_with_value(o.drop_first(), v);
        if r < 0 {
            -1
        } else {
            r + 1
        }
    }
}

fn push_option(out: &mut Vec<PickerOption>, label: &str, value: CellValue)
    ensures
        options_view(final(out)@) == options_view(old(out)@).push((label@, value@)),
{
    let ghost before = out@;
    out.push(PickerOption { label: string_from_chars(to_chars(label).as_slice()), value });
    proof {
        assert(options_view(out@) =~= options_view(before).push((label@, value@)));
    }
}

/// The choices offered for a cell.
pub fn picker_options(column: &ColumnInfo) -> (r: Vec<PickerOption>)
    ensures
        options_view(r@) == picker_choices(*column),
{
    let mut out: Vec<PickerOption> = Vec::new();
    if column.enum_options.len() > 0 {
        let mut i: usize = 0;
        while i < column.enum_options.len()
            invariant
                i <= column.enum_options@.len(),
                options_view(out@) == Seq::new(
                    i as nat,
                    |k: int| (column.enum_options@[k]@, CellView::Text(column.enum_options@[k]@)),
                ),
            decreases column.enum_options.len() - i,
        {
            let t = string_chars(&column.enum_options[i]);
            let ghost before = out@;
            out.push(
                PickerOption {
                    label: string_from_chars(t.as_slice()),
                    value: CellValue::Text(string_from_chars(t.as_slice())),
                },
            );
            proof {
                assert(options_view(out@) =~= options_view(before).push(
                    (column.enum_options@[i as int]@, CellView::Text(column.enum_options@[i as int]@)),
                ));
                assert(options_view(out@) =~= Seq::new(
                    (i + 1) as nat,
                    |k: int| (column.enum_options@[k]@, CellView::Text(column.enum_options@[k]@)),
                ));
            }
            i += 1;
        }
    } else if is_boolean_column(column) {
        push_option(&mut out, "true", CellValue::Bool(true));
        push_option(&mut out, "false", CellValue::Bool(false));
        proof {
            reveal_strlit("true");
            reveal_strlit("false");
        }
    }
    if out.len() > 0 && column.is_nullable {
        push_option(&mut out, "NULL", CellValue::Null);
    }
    proof {
        assert(options_view(out@) =~= picker_choices(*column));
    }
    out
}

fn first_option_with(options: &Vec<PickerOption>, v: &CellValue) -> (r: usize)
    ensures
        r as int == (if first_with_value(options_view(options@), v@) >= 0 {
            first_with_value(options_view(options@), v@)
        } else {
            0
        }),
{
    let ghost o = options_view(options@);
    let mut i: usize = 0;
    while i < options.len()
        invariant
            i <= options@.len(),
            o == options_view(options@),
            forall|k: int| 0 <= k < i ==> #[trigger] o[k].1 != v@,
        decreases options.len() - i,
    {
        if cells_equal(&options[i].value, v) {
            proof {
                lemma_first_with_value(o, v@, i as int);
            }
            return i;
        }
        i += 1;
    }
    proof {
        lemma_first_with_value_none(o, v@);
    }
    0
}

proof fn lemma_first_with_value(o: Seq<(Seq<char>, CellView)>, v: CellView, i: int)
    requires
        0 <= i < o.len(),
        o[i].1 == v,
        forall|k: int| 0 <= k < i ==> #[trigger] o[k].1 != v,
    ensures
        first_with_value(o, v) == i,
    decreases i,
{
    if i > 0 {
        let t = o.drop_first();
        assert forall|k: int| 0 <= k < i - 1 implies #[trigger] t[k].1 != v by {
            assert(t[k] == o[k + 1]);
        }
        lemma_first_with_value(t, v, i - 1);
    }
}

proof fn lemma_first_with_value_none(o: Seq<(Seq<char>, CellView)>, v: CellView)
    requires
        forall|k: int| 0 <= k < o.len() ==> #[trigger] o[k].1 != v,
    ensures
        first_with_value(o, v) == -1,
    decreases o.len(),
{
    if o.len() > 0 {
        let t = o.drop_first();
        assert forall|k: int| 0 <= k < t.len() implies #[trigger] t[k].1 != v by {
            assert(t[k] == o[k + 1]);
        }
        lemma_first_with_value_none(t, v);
    }
}

/// The picker for a cell of an enum or boolean column, with the choice
/// holding the current value selected (the first choice when none does).
pub fn open_value_picker(row_index: usize, column: &ColumnInfo, current: &CellValue) -> (r: Option<
    ValuePicker,
>)
    ensures
        picker_choices(*column).len() == 0 <==> r is None,
        r matches Some(p) ==> {
            &&& p.row_index == row_index
            &&& p.column_name@ == column.name@
            &&& p.column_type@ == column.data_type@
            &&& options_view(p.options@) == picker_choices(*column)
            &&& p.selected_index as int == (if first_with_value(picker_choices(*column), current@) >= 0 {
                first_with_value(picker_choices(*column), current@)
            } else {
                0
            })
        },
{
    let options = picker_options(column);
    if options.len() == 0 {
        return None;
    }
    let selected_index = first_option_with(&options, current);
    Some(
        ValuePicker {
            row_index,
            column_name: string_from_chars(string_chars(&column.name).as_slice()),
            column_type: string_from_chars(string_chars(&column.data_type).as_slice()),
            options,
            selected_index,
        },
    )
}

/// `j`/Down and `k`/Up move the choice within the list; Enter or `i`
/// (without modifiers) sets the cell to the chosen value; Escape closes the
/// picker.
pub open spec fn value_picker_post(v: DbViewer, key: KeyEvent, n: DbViewer) -> bool {
    let p = v.value_picker->Some_0;
    let none = no_modifiers(key.modifiers);
    let len = p.options@.len() as int;
    if key.code == Key::Esc {
        with_status(DbViewer { value_picker: None, ..v }, "Selection cancelled"@, n)
    } else if (key.code == Key::Char('j') && none) || key.code == Key::Down {
        let idx = if len == 0 {
            p.selected_index as int
        } else if p.selected_index + 1 < len - 1 {
            p.selected_index + 1
        } else {
            len - 1
        };
        n == (DbViewer { value_picker: Some(ValuePicker { selected_index: idx as usize, ..p }), ..v })
    } else if (key.code == Key::Char('k') && none) || key.code == Key::Up {
        let idx = if p.selected_index > 0 {
            p.selected_index - 1
        } else {
            0
        };
        n == (DbViewer { value_picker: Some(ValuePicker { selected_index: idx as usize, ..p }), ..v })
    } else if (key.code == Key::Enter || key.code == Key::Char('i')) && none {
        if p.selected_index < len {
            let o = p.options@[p.selected_index as int];
            &&& dirty_view(n.dirty_rows@) == dirty_view(v.dirty_rows@).insert(
                p.row_index as int,
                dirty_of(v, p.row_index as int).insert(p.column_name@, o.value@),
            )
            &&& n.status@ == "Set "@ + p.column_name@ + " = "@ + o.label@ + " (Ctrl+S to save)"@
            &&& n == (DbViewer {
                value_picker: None,
                dirty_rows: n.dirty_rows,
                status: n.status,
                ..v
            })
        } else {
            n == (DbViewer { value_picker: None, ..v })
        }
    } else {
        n == v
    }
}

impl DbViewer {
    /// Handles a key while the value picker is open.
    pub fn value_picker_key(&mut self, key: KeyEvent)
        requires
            viewer_wf(*old(self)),
            old(self).value_picker is Some,
        ensures
            viewer_wf(*final(self)),
            value_picker_post(*old(self), key, *final(self)),
    {
        let none = !key.modifiers.shift && !key.modifiers.control && !key.modifiers.alt;
        if key.code == Key::Esc {
            self.value_picker = None;
            self.status = string_from_chars(to_chars("Selection cancelled").as_slice());
            return;
        }
        if (key.code == Key::Char('j') && none) || key.code == Key::Down {
            let mut p = self.value_picker.take().unwrap();
            if p.options.len() > 0 {
                let last = p.options.len() - 1;
                p.selected_index = if p.selected_index < last && p.selected_index + 1 < last {
                    p.selected_index + 1
                } else {
                    last
                };
            }
            self.value_picker = Some(p);
            return;
        }
        if (key.code == Key::Char('k') && none) || key.code == Key::Up {
            let mut p = self.value_picker.take().unwrap();
            if p.selected_index > 0 {
                p.selected_index = p.selected_index - 1;
            }
            self.value_picker = Some(p);
            return;
        }
        if (key.code == Key::Enter || key.code == Key::Char('i')) && none {
            let p = self.value_picker.take().unwrap();
            if p.selected_index < p.options.len() {
                let o = &p.options[p.selected_index];
                let mut m: Vec<char> = Vec::new();
                push_str(&mut m, "Set ");
                push_all(&mut m, &string_chars(&p.column_name));
                push_str(&mut m, " = ");
                push_all(&mut m, &string_chars(&o.label));
                push_str(&mut m, " (Ctrl+S to save)");
                let col = string_from_chars(string_chars(&p.column_name).as_slice());
                self.set_dirty(p.row_index, col, copy_cell(&o.value));
                self.status = string_from_chars(m.as_slice());
            }
        }
    }
}

// ---------------------------------------------------------------------------
// The date/time picker
// ---------------------------------------------------------------------------

/// A key in the date/time picker: the picker handles it; a commit writes
/// the picker's text, or NULL, to the cell; a cancel closes it.
pub open spec fn datetime_picker_post(v: DbViewer, key: KeyEvent, n: DbViewer) -> bool {
    let p = v.datetime_picker->Some_0;
    if key.code == Key::Esc {
        with_status(DbViewer { datetime_picker: None, ..v }, "Date/time edit cancelled"@, n)
    } else if crate::cell_edit::commits(key) {
        let value = if p.is_null {
            CellView::Null
        } else {
            CellView::Text(temporal_text(p))
        };
        &&& dirty_view(n.dirty_rows@) == dirty_view(v.dirty_rows@).insert(
            p.row_index as int,
            dirty_of(v, p.row_index as int).insert(p.column_name@, value),
        )
        &&& n.status@ == "Set "@ + p.column_name@ + " (Ctrl+S to save)"@
        &&& n == (DbViewer { datetime_picker: None, dirty_rows: n.dirty_rows, status: n.status, ..v })
    } else {
        n == (DbViewer {
            datetime_picker: Some(crate::cell_edit::picker_step(p, key).0),
            ..v
        })
    }
}

impl DbViewer {
    /// Handles a key while the date/time picker is open.
    pub fn datetime_picker_key(&mut self, key: KeyEvent)
        requires
            viewer_wf(*old(self)),
            old(self).datetime_picker is Some,
        ensures
            viewer_wf(*final(self)),
            datetime_picker_post(*old(self), key, *final(self)),
    {
        let mut p = self.datetime_picker.take().unwrap();
        let ghost p0 = p;
        let outcome = p.on_key(key);
        match outcome {
            PickerOutcome::Cancel => {
                self.status = string_from_chars(to_chars("Date/time edit cancelled").as_slice());
            },
            PickerOutcome::Continue => {
                self.datetime_picker = Some(p);
            },
            PickerOutcome::Commit(text) => {
                let value = match text {
                    Some(t) => CellValue::Text(t),
                    None => CellValue::Null,
                };
                let mut m: Vec<char> = Vec::new();
                push_str(&mut m, "Set ");
                push_all(&mut m, &string_chars(&p.column_name));
                push_str(&mut m, " (Ctrl+S to save)");
                let col = string_from_chars(string_chars(&p.column_name).as_slice());
                self.set_dirty(p.row_index, col, value);
                self.status = string_from_chars(m.as_slice());
            },
        }
    }
}

// ---------------------------------------------------------------------------
// Deleting rows
// ---------------------------------------------------------------------------

/// The rows a delete applies to: the marked rows, or the selected row when
/// none is marked.
pub open spec fn delete_indexes(v: DbViewer) -> Seq<usize> {
    if v.selected_rows@.len() == 0 {
        seq![v.selected_row]
    } else {
        v.selected_rows@
    }
}

/// The ids of the loaded rows among `idx`, in order.
pub open spec fn ctids_of(rows: Seq<crate::db_app::GridRow>, idx: Seq<usize>) -> Seq<Seq<char>>
    decreases idx.len(),
{
    if idx.len() == 0 {
        Seq::empty()
    } else {
        let rest = ctids_of(rows, idx.drop_last());
        let i = idx.last();
        if i < rows.len() {
            rest.push(rows[i as int].ctid@)
        } else {
            rest
        }
    }
}

/// Asking to delete: nothing to delete when no rows are loaded or none of
/// the chosen rows exists; otherwise a question for one row or for the
/// number of rows.
pub open spec fn delete_request_post(v: DbViewer, n: DbViewer) -> bool {
    let ids = ctids_of(v.rows@, delete_indexes(v));
    if v.rows@.len() == 0 {
        with_status(v, "No rows to delete"@, n)
    } else if ids.len() == 0 {
        with_status(v, "No rows selected for delete"@, n)
    } else {
        &&& n.confirm_delete matches Some(c) && strings_view(c.ctids@) == ids && c.description@ == (
        if ids.len() == 1 {
            "Delete 1 row?"@
        } else {
            "Delete "@ + decimal(ids.len()) + " rows?"@
        })
        &&& n == (DbViewer { confirm_delete: n.confirm_delete, ..v })
    }
}

impl DbViewer {
    /// Asks to delete the marked rows, or the selected one.
    pub fn start_delete_confirmation(&mut self)
        ensures
            delete_request_post(*old(self), *final(self)),
    {
        if self.rows.len() == 0 {
            self.status = string_from_chars(to_chars("No rows to delete").as_slice());
            return;
        }
        let indexes: Vec<usize> = if self.selected_rows.len() == 0 {
            vec![self.selected_row]
        } else {
            let mut c: Vec<usize> = Vec::new();
            let mut k: usize = 0;
            while k < self.selected_rows.len()
                invariant
                    k <= self.selected_rows@.len(),
                    c@ == self.selected_rows@.take(k as int),
                decreases self.selected_rows.len() - k,
            {
                c.push(self.selected_rows[k]);
                proof {
                    assert(c@ =~= self.selected_rows@.take(k + 1));
                }
                k += 1;
            }
            proof {
                assert(self.selected_rows@.take(k as int) =~= self.selected_rows@);
            }
            c
        };
        proof {
            assert(indexes@ =~= delete_indexes(*self));
        }
        let mut ctids: Vec<String> = Vec::new();
        let mut i: usize = 0;
        while i < indexes.len()
            invariant
                i <= indexes@.len(),
                strings_view(ctids@) == ctids_of(self.rows@, indexes@.take(i as int)),
            decreases indexes.len() - i,
        {
            let ix = indexes[i];
            proof {
                assert(indexes@.take(i + 1).drop_last() =~= indexes@.take(i as int));
            }
            if ix < self.rows.len() {
                let ghost before = ctids@;
                ctids.push(string_from_chars(string_chars(&self.rows[ix].ctid).as_slice()));
                proof {
                    assert(strings_view(ctids@) =~= strings_view(before).push(self.rows@[ix as int].ctid@));
                }
            }
            i += 1;
        }
        proof {
            assert(indexes@.take(indexes@.len() as int) =~= indexes@);
        }
        if ctids.len() == 0 {
            self.status = string_from_chars(to_chars("No rows selected for delete").as_slice());
            return;
        }
        let description = if ctids.len() == 1 {
            string_from_chars(to_chars("Delete 1 row?").as_slice())
        } else {
            let mut m: Vec<char> = Vec::new();
            push_str(&mut m, "Delete ");
            push_decimal(&mut m, ctids.len() as u64);
            push_str(&mut m, " rows?");
            string_from_chars(m.as_slice())
        };
        self.confirm_delete = Some(DeleteConfirmation { ctids, description });
    }
}

/// A key while a delete waits for confirmation: `y`/`Y` asks the caller to
/// delete the rows of the selected table, `n`/`N`/Escape cancels.
pub open spec fn delete_confirm_post(v: DbViewer, key: KeyEvent, n: DbViewer, e: Seq<EffectView>) -> bool {
    let c = v.confirm_delete->Some_0;
    if key.code == Key::Char('y') || key.code == Key::Char('Y') {
        &&& n == (DbViewer { confirm_delete: None, ..v })
        &&& e == (if selected_table_of(v) is Some {
            seq![EffectView::DeleteRows(strings_view(c.ctids@))]
        } else {
            Seq::empty()
        })
    } else if key.code == Key::Char('n') || key.code == Key::Char('N') || key.code == Key::Esc {
        e.len() == 0 && with_status(DbViewer { confirm_delete: None, ..v }, "Delete cancelled"@, n)
    } else {
        e.len() == 0 && n == v
    }
}

impl DbViewer {
    /// Handles a key while a delete waits for confirmation.
    pub fn delete_confirm_key(&mut self, key: KeyEvent) -> (r: Vec<DbEffect>)
        requires
            old(self).confirm_delete is Some,
        ensures
            delete_confirm_post(*old(self), key, *final(self), effects_view(r@)),
    {
        let mut r: Vec<DbEffect> = Vec::new();
        if key.code == Key::Char('y') || key.code == Key::Char('Y') {
            let c = self.confirm_delete.take().unwrap();
            if self.selected_table < self.tables.len() {
                r.push(DbEffect::DeleteRows(c.ctids));
            }
        } else if key.code == Key::Char('n') || key.code == Key::Char('N') || key.code == Key::Esc {
            self.confirm_delete = None;
            self.status = string_from_chars(to_chars("Delete cancelled").as_slice());
        }
        proof {
            if r@.len() == 1 {
                assert(effects_view(r@) =~= seq![r@[0]@]);
            } else {
                assert(effects_view(r@) =~= Seq::<EffectView>::empty());
            }
        }
        r
    }

    /// Takes the outcome of a delete: the count of deleted rows and a
    /// reload, or the error.
    pub fn rows_deleted(&mut self, result: Result<u64, Vec<String>>) -> (r: Vec<DbEffect>)
        ensures
            match result {
                Ok(count) => with_status(
                    *old(self),
                    "Deleted "@ + decimal(count as nat) + " row(s)"@,
                    *final(self),
                ) && effects_view(r@) == seq![EffectView::ReloadRows(ReloadReason::AfterDelete)],
                Err(chain) => with_error(
                    *old(self),
                    "Delete failed: "@ + error_line(strings_view(chain@)),
                    *final(self),
                ) && r@.len() == 0,
            },
    {
        match result {
            Ok(count) => {
                let mut m: Vec<char> = Vec::new();
                push_str(&mut m, "Deleted ");
                push_decimal(&mut m, count);
                push_str(&mut m, " row(s)");
                self.status = string_from_chars(m.as_slice());
                let r = vec![DbEffect::ReloadRows(ReloadReason::AfterDelete)];
                proof {
                    assert(effects_view(r@) =~= seq![EffectView::ReloadRows(ReloadReason::AfterDelete)]);
                }
                r
            },
            Err(chain) => {
                let mut m: Vec<char> = Vec::new();
                push_str(&mut m, "Delete failed: ");
                push_all(&mut m, &string_chars(&format_error_for_status(&chain)));
                self.status = string_from_chars(m.as_slice());
                self.error_popup = Some(string_from_chars(m.as_slice()));
                Vec::new()
            },
        }
    }
}

} // verus!
