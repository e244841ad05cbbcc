//! Typing in the database viewer: the text entry for the query, a cell or
//! an add-row field, the add-row form, and opening the editor a cell
//! calls for.

use vstd::prelude::*;
use crate::api_messages::{no_modifiers, Key, KeyEvent};
use crate::cell_edit::{mode_of, valid_fields, DateTimePicker};
use crate::cell_input::{input_result, input_result_view, parse_input_value, ParsedInput, ParsedView};
use crate::collection::strings_view;
use crate::db_app::{
    current_cell_value, current_value, dirty_of, dirty_view, selected_table_of, viewer_wf, AddForm,
    DbViewer, TextEntry, TextEntryTarget,
};
use crate::db_edit::{first_with_value, open_value_picker, picker_choices};
use crate::db_keys::{effects_view, with_error, with_status, DbEffect, EffectView, ReloadReason};
use crate::db_sql::{ColumnInfo, TableInfo};
use crate::db_view::{
    copy_cell, display_text, error_line, format_error_for_status, value_to_display, CellValue,
    CellView,
};
use crate::table::{sorted_table, table_find, table_insert, table_map};
use crate::text::{
    chars_equal, decimal, push_all, push_decimal, push_str, string_chars, string_from_chars, to_chars,
};

verus! {

// ---------------------------------------------------------------------------
// Committing typed text
// ---------------------------------------------------------------------------

/// The field values of an add-row form as a map.
pub open spec fn form_map(t: Seq<(String, Option<CellValue>)>) -> Map<Seq<char>, Option<CellView>> {
    table_map(t).map_values(
        |o: Option<CellValue>|
            match o {
                Some(c) => Some(c@),
                None => None,
            },
    )
}

/// The viewer after a typed value `v` was accepted for the entry's target.
pub open spec fn value_stored(v: DbViewer, t: TextEntryTarget, value: CellView, n: DbViewer) -> bool {
    match t {
        TextEntryTarget::Query => n == v,
        TextEntryTarget::GridCell { row_index, column_name, column } => {
            &&& dirty_view(n.dirty_rows@) == dirty_view(v.dirty_rows@).insert(
                row_index as int,
                dirty_of(v, row_index as int).insert(column_name@, value),
            )
            &&& n.status@ == "Edited "@ + column_name@ + " row "@ + decimal((row_index + 1) as nat)
                + " (Ctrl+S to save)"@
            &&& n == (DbViewer { dirty_rows: n.dirty_rows, status: n.status, ..v })
        },
        TextEntryTarget::AddField { column_name, column } => {
            &&& n.status@ == "Updated add-row field"@
            &&& match v.add_form {
                Some(f) => n.add_form matches Some(g) && g.selected_field == f.selected_field
                    && sorted_table(g.values@) && form_map(g.values@) == form_map(f.values@).insert(
                    column_name@,
                    Some(value),
                ),
                None => n.add_form is None,
            }
            &&& n == (DbViewer { add_form: n.add_form, status: n.status, ..v })
        },
    }
}

/// The column an entry's text is checked against.
pub open spec fn entry_column(t: TextEntryTarget) -> ColumnInfo {
    match t {
        TextEntryTarget::GridCell { column, .. } => column,
        TextEntryTarget::AddField { column, .. } => column,
        TextEntryTarget::Query => arbitrary(),
    }
}

/// Committing an entry: the query text is taken as it is; other text is
/// checked against its column and stored, kept open with the error shown
/// when it is rejected, or handed to the caller to read as a decimal.
pub open spec fn commit_post(v: DbViewer, e: TextEntry, n: DbViewer, eff: Seq<EffectView>) -> bool {
    match e.target {
        TextEntryTarget::Query => {
            &&& n.query@ == e.buffer@
            &&& eff == seq![EffectView::SaveQuery(e.buffer@)]
            &&& with_status(DbViewer { query: n.query, ..v }, "Updated query"@, n)
        },
        _ => match input_result(e.buffer@, entry_column(e.target)) {
            Ok(ParsedView::Value(value)) => eff.len() == 0 && value_stored(v, e.target, value, n),
            Ok(ParsedView::Decimal(t)) => eff == seq![EffectView::ReadDecimal(t)] && n == (DbViewer {
                pending_entry: Some(e),
                ..v
            }),
            Err(chain) => eff.len() == 0 && with_error(
                DbViewer { text_entry: Some(e), ..v },
                error_line(chain),
                n,
            ),
        },
    }
}

impl DbViewer {
    fn store_value(&mut self, target: &TextEntryTarget, value: CellValue)
        requires
            viewer_wf(*old(self)),
            !(target is Query),
        ensures
            viewer_wf(*final(self)),
            value_stored(*old(self), *target, value@, *final(self)),
    {
        match target {
            TextEntryTarget::Query => {},
            TextEntryTarget::GridCell { row_index, column_name, column } => {
                let mut m: Vec<char> = Vec::new();
                push_str(&mut m, "Edited ");
                push_all(&mut m, &string_chars(column_name));
                push_str(&mut m, " row ");
                let shown: u128 = *row_index as u128 + 1;
                crate::text::push_decimal_wide(&mut m, shown);
                push_str(&mut m, " (Ctrl+S to save)");
                let col = string_from_chars(string_chars(column_name).as_slice());
                self.set_dirty(*row_index, col, value);
                self.status = string_from_chars(m.as_slice());
            },
            TextEntryTarget::AddField { column_name, column } => {
                if self.add_form.is_some() {
                    let mut f = self.add_form.take().unwrap();
                    let ghost f0 = f;
                    let col = string_from_chars(string_chars(column_name).as_slice());
                    let ghost vv = value@;
                    table_insert(&mut f.values, col, Some(value));
                    proof {
                        assert(form_map(f.values@) =~= form_map(f0.values@).insert(
                            column_name@,
                            Some(vv),
                        ));
                    }
                    self.add_form = Some(f);
                }
                self.status = string_from_chars(to_chars("Updated add-row field").as_slice());
            },
        }
    }

    /// Commits a text entry.
    pub fn commit_text_entry(&mut self, entry: TextEntry) -> (r: Vec<DbEffect>)
        requires
            viewer_wf(*old(self)),
        ensures
            viewer_wf(*final(self)),
            commit_post(*old(self), entry, *final(self), effects_view(r@)),
    {
        match &entry.target {
            TextEntryTarget::Query => {
                let saved = string_from_chars(string_chars(&entry.buffer).as_slice());
                self.query = entry.buffer;
                self.status = string_from_chars(to_chars("Updated query").as_slice());
                let r = vec![DbEffect::SaveQuery(saved)];
                proof {
                    assert(effects_view(r@) =~= seq![EffectView::SaveQuery(entry.buffer@)]);
                }
                return r;
            },
            _ => {},
        }
        let column = match &entry.target {
            TextEntryTarget::GridCell { column, .. } => column,
            TextEntryTarget::AddField { column, .. } => column,
            TextEntryTarget::Query => {
                return Vec::new();
            },
        };
        let parsed = parse_input_value(entry.buffer.as_str(), column);
        match parsed {
            Ok(ParsedInput::Value(value)) => {
                self.store_value(&entry.target, value);
                Vec::new()
            },
            Ok(ParsedInput::Decimal(t)) => {
                let r = vec![DbEffect::ReadDecimal(t)];
                self.pending_entry = Some(entry);
                proof {
                    assert(effects_view(r@) =~= seq![r@[0]@]);
                }
                r
            },
            Err(chain) => {
                let m = format_error_for_status(&chain);
                self.text_entry = Some(entry);
                self.status = string_from_chars(string_chars(&m).as_slice());
                self.error_popup = Some(m);
                Vec::new()
            },
        }
    }

    /// Takes the number read from a decimal entry: its JSON text, or the
    /// error chain of the failed read, which reopens the entry.
    pub fn decimal_read(&mut self, result: Result<String, Vec<String>>)
        requires
            viewer_wf(*old(self)),
        ensures
            viewer_wf(*final(self)),
            match old(self).pending_entry {
                None => *final(self) == *old(self),
                Some(e) => match result {
                    Ok(t) => (e.target is Query && *final(self) == (DbViewer { pending_entry: None, ..*old(self) }))
                        || (!(e.target is Query) && value_stored(
                        DbViewer { pending_entry: None, ..*old(self) },
                        e.target,
                        CellView::Number(t@),
                        *final(self),
                    )),
                    Err(chain) => with_error(
                        DbViewer { pending_entry: None, text_entry: Some(e), ..*old(self) },
                        error_line(strings_view(chain@)),
                        *final(self),
                    ),
                },
            },
    {
        if self.pending_entry.is_none() {
            return;
        }
        let e = self.pending_entry.take().unwrap();
        match result {
            Ok(t) => {
                match &e.target {
                    TextEntryTarget::Query => {},
                    _ => {
                        self.store_value(&e.target, CellValue::Number(t));
                    },
                }
            },
            Err(chain) => {
                let m = format_error_for_status(&chain);
                self.text_entry = Some(e);
                self.status = string_from_chars(string_chars(&m).as_slice());
                self.error_popup = Some(m);
            },
        }
    }
}

// ---------------------------------------------------------------------------
// The text entry
// ---------------------------------------------------------------------------

/// A key in the text entry: Escape cancels, Backspace removes the last
/// character, Enter commits, a character without Control is appended.
pub open spec fn text_entry_post(v: DbViewer, key: KeyEvent, n: DbViewer, eff: Seq<EffectView>) -> bool {
    let e = v.text_entry->Some_0;
    match key.code {
        Key::Esc => eff.len() == 0 && with_status(
            DbViewer { text_entry: None, ..v },
            "Edit cancelled"@,
            n,
        ),
        Key::Backspace => {
            &&& eff.len() == 0
            &&& n.text_entry matches Some(f) && f.target == e.target && f.buffer@ == (
            if e.buffer@.len() > 0 {
                e.buffer@.drop_last()
            } else {
                e.buffer@
            })
            &&& n == (DbViewer { text_entry: n.text_entry, ..v })
        },
        Key::Enter => commit_post(DbViewer { text_entry: None, ..v }, e, n, eff),
        Key::Char(c) => {
            &&& eff.len() == 0
            &&& if key.modifiers.control {
                n == v
            } else {
                &&& n.text_entry matches Some(f) && f.target == e.target && f.buffer@ == e.buffer@.push(c)
                &&& n == (DbViewer { text_entry: n.text_entry, ..v })
            }
        },
        _ => eff.len() == 0 && n == v,
    }
}

impl DbViewer {
    /// Handles a key while a text entry is open.
    pub fn text_entry_key(&mut self, key: KeyEvent) -> (r: Vec<DbEffect>)
        requires
            viewer_wf(*old(self)),
            old(self).text_entry is Some,
        ensures
            viewer_wf(*final(self)),
            text_entry_post(*old(self), key, *final(self), effects_view(r@)),
    {
        match key.code {
            Key::Esc => {
                self.text_entry = None;
                self.status = string_from_chars(to_chars("Edit cancelled").as_slice());
                Vec::new()
            },
            Key::Backspace => {
                let mut e = self.text_entry.take().unwrap();
                let mut b = string_chars(&e.buffer);
                if b.len() > 0 {
                    let _ = b.pop();
                }
                e.buffer = string_from_chars(b.as_slice());
                self.text_entry = Some(e);
                Vec::new()
            },
            Key::Enter => {
                let e = self.text_entry.take().unwrap();
                self.commit_text_entry(e)
            },
            Key::Char(c) => {
                if key.modifiers.control {
                    return Vec::new();
                }
                let mut e = self.text_entry.take().unwrap();
                let mut b = string_chars(&e.buffer);
                b.push(c);
                e.buffer = string_from_chars(b.as_slice());
                self.text_entry = Some(e);
                Vec::new()
            },
            _ => Vec::new(),
        }
    }
}

// ---------------------------------------------------------------------------
// The add-row form
// ---------------------------------------------------------------------------

/// The label after `current` among the labels of an enum column, wrapping
/// around; the first label when `current` is no label (or not text); empty
/// for a column without labels.
pub open spec fn next_label(c: ColumnInfo, current: Option<CellView>) -> Seq<char> {
    let opts = strings_view(c.enum_options@);
    if opts.len() == 0 {
        Seq::empty()
    } else {
        match current {
            Some(CellView::Text(s)) => if opts.contains(s) {
                opts[(opts.index_of_first(s)->Some_0 + 1) % (opts.len() as int)]
            } else {
                opts[0]
            },
            _ => opts[0],
        }
    }
}

fn text_of(c: &Option<CellValue>) -> (r: Option<Vec<char>>)
    ensures
        match r {
            Some(t) => c matches Some(v) && v@ == CellView::Text(t@),
            None => !(c matches Some(v) && v@ is Text),
        },
{
    match c {
        Some(CellValue::Text(s)) => Some(string_chars(s)),
        _ => None,
    }
}

/// The label after the current value of an enum column.
pub fn next_enum_value(column: &ColumnInfo, current: Option<CellValue>) -> (r: String)
    ensures
        r@ == next_label(
            *column,
            match current {
                Some(c) => Some(c@),
                None => None,
            },
        ),
{
    let ghost opts = strings_view(column.enum_options@);
    if column.enum_options.len() == 0 {
        return string_from_chars(Vec::<char>::new().as_slice());
    }
    let text = text_of(&current);
    if text.is_some() {
        let sc = text.unwrap();
        let mut i: usize = 0;
        while i < column.enum_options.len()
            invariant
                i <= column.enum_options@.len(),
                opts == strings_view(column.enum_options@),
                current matches Some(v) && v@ == CellView::Text(sc@),
                forall|k: int| 0 <= k < i ==> opts[k] != sc@,
            decreases column.enum_options.len() - i,
        {
            if chars_equal(&string_chars(&column.enum_options[i]), &sc) {
                proof {
                    assert(opts[i as int] == sc@);
                    assert(opts.contains(sc@));
                    let f = opts.index_of_first(sc@);
                    opts.index_of_first_ensures(sc@);
                    assert(f == Some(i as int)) by {
                        let j = f->Some_0;
                        if j < i {
                            assert(opts[j] != sc@);
                        } else if j > i {
                            assert(opts[i as int] == sc@);
                        }
                    }
                }
                let next = (i + 1) % column.enum_options.len();
                proof {
                    assert(opts.len() == column.enum_options@.len());
                    assert(opts.index_of_first(sc@)->Some_0 == i);
                    assert(next as int == (i + 1) % (opts.len() as int));
                    assert(opts[next as int] == column.enum_options@[next as int]@);
                }
                return string_from_chars(string_chars(&column.enum_options[next]).as_slice());
            }
            i += 1;
        }
        proof {
            assert(!opts.contains(sc@));
        }
    }
    string_from_chars(string_chars(&column.enum_options[0]).as_slice())
}

/// The entries of a form that hold a value, in name order.
pub open spec fn entered_values(t: Seq<(String, Option<CellValue>)>) -> Seq<(Seq<char>, CellView)>
    decreases t.len(),
{
    if t.len() == 0 {
        Seq::empty()
    } else {
        let rest = entered_values(t.drop_last());
        match t.last().1 {
            Some(c) => rest.push((t.last().0@, c@)),
            None => rest,
        }
    }
}

/// The current value of a form field.
pub open spec fn field_value(f: AddForm, name: Seq<char>) -> Option<CellView> {
    let m = form_map(f.values@);
    if m.contains_key(name) {
        m[name]
    } else {
        None
    }
}

/// A key in the add-row form of the selected table.
pub open spec fn add_form_post(v: DbViewer, key: KeyEvent, n: DbViewer, eff: Seq<EffectView>) -> bool {
    let f = v.add_form->Some_0;
    let none = no_modifiers(key.modifiers);
    match selected_table_of(v) {
        None => eff.len() == 0 && n == (DbViewer { add_form: None, ..v }),
        Some(t) => {
            let cols = t.columns@;
            let len = cols.len() as int;
            let sel = f.selected_field as int;
            if key.code == Key::Esc {
                eff.len() == 0 && with_status(DbViewer { add_form: None, ..v }, "Add row cancelled"@, n)
            } else if (key.code == Key::Char('j') && none) || key.code == Key::Down {
                eff.len() == 0 && n == (DbViewer {
                    add_form: Some(
                        AddForm {
                            selected_field: if len > 0 {
                                ((sel + 1) % len) as usize
                            } else {
                                f.selected_field
                            },
                            ..f
                        },
                    ),
                    ..v
                })
            } else if (key.code == Key::Char('k') && none) || key.code == Key::Up {
                eff.len() == 0 && n == (DbViewer {
                    add_form: Some(
                        AddForm {
                            selected_field: if len == 0 {
                                f.selected_field
                            } else if sel == 0 {
                                (len - 1) as usize
                            } else {
                                (sel - 1) as usize
                            },
                            ..f
                        },
                    ),
                    ..v
                })
            } else if key.code == Key::Char('x') && none {
                eff.len() == 0 && if 0 <= sel < len {
                    let c = cols[sel];
                    &&& n.add_form matches Some(g) && g.selected_field == f.selected_field && sorted_table(
                        g.values@,
                    ) && form_map(g.values@) == form_map(f.values@).insert(
                        c.name@,
                        if c.is_nullable {
                            Some(CellView::Null)
                        } else {
                            None
                        },
                    )
                    &&& n.status@ == (if c.is_nullable {
                        "Set "@ + c.name@ + " to NULL"@
                    } else {
                        "Cleared "@ + c.name@
                    })
                    &&& n == (DbViewer { add_form: n.add_form, status: n.status, ..v })
                } else {
                    n == v
                }
            } else if key.code == Key::Char('s') && key.modifiers.control && !key.modifiers.shift
                && !key.modifiers.alt {
                n == v && eff == seq![EffectView::InsertRow(entered_values(f.values@))]
            } else if (key.code == Key::Enter || key.code == Key::Char('i')) && none {
                eff.len() == 0 && if 0 <= sel < len {
                    let c = cols[sel];
                    if c.enum_options@.len() > 0 {
                        let next = next_label(c, field_value(f, c.name@));
                        &&& n.add_form matches Some(g) && g.selected_field == f.selected_field
                            && sorted_table(g.values@) && form_map(g.values@) == form_map(
                            f.values@,
                        ).insert(c.name@, Some(CellView::Text(next)))
                        &&& n.status@ == "Set "@ + c.name@ + " = "@ + next
                        &&& n == (DbViewer { add_form: n.add_form, status: n.status, ..v })
                    } else {
                        &&& n.text_entry matches Some(e) && e.target matches TextEntryTarget::AddField {
                            column_name,
                            column,
                        } && column_name@ == c.name@ && same_column(column, c) && e.buffer@ == match field_value(
                            f,
                            c.name@,
                        ) {
                            Some(x) => display_text(x),
                            None => Seq::<char>::empty(),
                        }
                        &&& n == (DbViewer { text_entry: n.text_entry, ..v })
                    }
                } else {
                    n == v
                }
            } else {
                eff.len() == 0 && n == v
            }
        },
    }
}

fn field_lookup(f: &AddForm, name: &Vec<char>) -> (r: Option<CellValue>)
    requires
        sorted_table(f.values@),
    ensures
        match r {
            Some(c) => field_value(*f, name@) == Some(c@),
            None => field_value(*f, name@) is None,
        },
{
    match table_find(&f.values, name) {
        Some(k) => match &f.values[k].1 {
            Some(c) => Some(copy_cell(c)),
            None => None,
        },
        None => None,
    }
}

/// Two columns with the same name, types, nullability and labels.
pub open spec fn same_column(a: ColumnInfo, b: ColumnInfo) -> bool {
    &&& a.name@ == b.name@
    &&& a.data_type@ == b.data_type@
    &&& a.udt_name@ == b.udt_name@
    &&& a.is_nullable == b.is_nullable
    &&& strings_view(a.enum_options@) == strings_view(b.enum_options@)
}

fn copy_string(s: &String) -> (r: String)
    ensures
        r@ == s@,
{
    string_from_chars(string_chars(s).as_slice())
}

/// A copy of a column.
pub fn copy_column(c: &ColumnInfo) -> (r: ColumnInfo)
    ensures
        same_column(r, *c),
{
    let mut opts: Vec<String> = Vec::new();
    let mut i: usize = 0;
    while i < c.enum_options.len()
        invariant
            i <= c.enum_options@.len(),
            strings_view(opts@) == strings_view(c.enum_options@).take(i as int),
        decreases c.enum_options.len() - i,
    {
        let ghost before = opts@;
        opts.push(copy_string(&c.enum_options[i]));
        proof {
            assert(strings_view(opts@) =~= strings_view(before).push(c.enum_options@[i as int]@));
            assert(strings_view(c.enum_options@).take(i + 1) =~= strings_view(c.enum_options@).take(
                i as int,
            ).push(c.enum_options@[i as int]@));
        }
        i += 1;
    }
    proof {
        assert(strings_view(c.enum_options@).take(i as int) =~= strings_view(c.enum_options@));
    }
    ColumnInfo {
        name: copy_string(&c.name),
        data_type: copy_string(&c.data_type),
        udt_name: copy_string(&c.udt_name),
        is_nullable: c.is_nullable,
        enum_options: opts,
    }
}

impl DbViewer {
    /// Handles a key while the add-row form is open.
    pub fn add_form_key(&mut self, key: KeyEvent) -> (r: Vec<DbEffect>)
        requires
            viewer_wf(*old(self)),
            old(self).add_form is Some,
        ensures
            viewer_wf(*final(self)),
            add_form_post(*old(self), key, *final(self), effects_view(r@)),
    {
        if self.selected_table >= self.tables.len() {
            self.add_form = None;
            return Vec::new();
        }
        let none = !key.modifiers.shift && !key.modifiers.control && !key.modifiers.alt;
        let len = self.tables[self.selected_table].columns.len();
        if key.code == Key::Esc {
            self.add_form = None;
            self.status = string_from_chars(to_chars("Add row cancelled").as_slice());
            return Vec::new();
        }
        if (key.code == Key::Char('j') && none) || key.code == Key::Down {
            if len > 0 {
                let mut f = self.add_form.take().unwrap();
                let ghost old_sel = f.selected_field as int;
                let m = f.selected_field % len;
                f.selected_field = (m + 1) % len;
                proof {
                    if len > 1 {
                        vstd::arithmetic::div_mod::lemma_add_mod_noop(old_sel, 1, len as int);
                        vstd::arithmetic::div_mod::lemma_add_mod_noop(m as int, 1, len as int);
                        vstd::arithmetic::div_mod::lemma_small_mod(1, len as nat);
                        vstd::arithmetic::div_mod::lemma_mod_twice(old_sel, len as int);
                    } else {
                        assert((m + 1) % 1 == 0 && (old_sel + 1) % 1 == 0) by (nonlinear_arith);
                    }
                    assert((m + 1) % (len as int) == (old_sel + 1) % (len as int));
                }
                self.add_form = Some(f);
            }
            return Vec::new();
        }
        if (key.code == Key::Char('k') && none) || key.code == Key::Up {
            if len > 0 {
                let mut f = self.add_form.take().unwrap();
                f.selected_field = if f.selected_field == 0 {
                    len - 1
                } else {
                    f.selected_field - 1
                };
                self.add_form = Some(f);
            }
            return Vec::new();
        }
        if key.code == Key::Char('x') && none {
            let sel = self.add_form.as_ref().unwrap().selected_field;
            if sel < len {
                let c = copy_column(&self.tables[self.selected_table].columns[sel]);
                let mut f = self.add_form.take().unwrap();
                let ghost f0 = f;
                let name = string_from_chars(string_chars(&c.name).as_slice());
                let mut m: Vec<char> = Vec::new();
                if c.is_nullable {
                    table_insert(&mut f.values, name, Some(CellValue::Null));
                    push_str(&mut m, "Set ");
                    push_all(&mut m, &string_chars(&c.name));
                    push_str(&mut m, " to NULL");
                } else {
                    table_insert(&mut f.values, name, None);
                    push_str(&mut m, "Cleared ");
                    push_all(&mut m, &string_chars(&c.name));
                }
                proof {
                    assert(form_map(f.values@) =~= form_map(f0.values@).insert(
                        c.name@,
                        if c.is_nullable {
                            Some(CellView::Null)
                        } else {
                            None
                        },
                    ));
                }
                self.add_form = Some(f);
                self.status = string_from_chars(m.as_slice());
            }
            return Vec::new();
        }
        if key.code == Key::Char('s') && key.modifiers.control && !key.modifiers.shift
            && !key.modifiers.alt {
            let f = self.add_form.as_ref().unwrap();
            let mut payload: Vec<(String, CellValue)> = Vec::new();
            let mut i: usize = 0;
            while i < f.values.len()
                invariant
                    i <= f.values@.len(),
                    crate::db_keys::pairs_view(payload@) == entered_values(f.values@.take(i as int)),
                decreases f.values.len() - i,
            {
                proof {
                    assert(f.values@.take(i + 1).drop_last() =~= f.values@.take(i as int));
                }
                match &f.values[i].1 {
                    Some(c) => {
                        let ghost before = payload@;
                        payload.push((string_from_chars(string_chars(&f.values[i].0).as_slice()), copy_cell(c)));
                        proof {
                            assert(crate::db_keys::pairs_view(payload@) =~= crate::db_keys::pairs_view(
                                before,
                            ).push((f.values@[i as int].0@, c@)));
                        }
                    },
                    None => {},
                }
                i += 1;
            }
            proof {
                assert(f.values@.take(f.values@.len() as int) =~= f.values@);
            }
            let r = vec![DbEffect::InsertRow(payload)];
            proof {
                assert(effects_view(r@) =~= seq![r@[0]@]);
            }
            return r;
        }
        if (key.code == Key::Enter || key.code == Key::Char('i')) && none {
            let sel = self.add_form.as_ref().unwrap().selected_field;
            if sel < len {
                let c = copy_column(&self.tables[self.selected_table].columns[sel]);
                let name = string_chars(&c.name);
                let current = field_lookup(self.add_form.as_ref().unwrap(), &name);
                if c.enum_options.len() > 0 {
                    let next = next_enum_value(&c, current);
                    let mut f = self.add_form.take().unwrap();
                    let ghost f0 = f;
                    let mut m: Vec<char> = Vec::new();
                    push_str(&mut m, "Set ");
                    push_all(&mut m, &name);
                    push_str(&mut m, " = ");
                    push_all(&mut m, &string_chars(&next));
                    let ghost nv = next@;
                    table_insert(&mut f.values, string_from_chars(name.as_slice()), Some(CellValue::Text(next)));
                    proof {
                        assert(form_map(f.values@) =~= form_map(f0.values@).insert(
                            c.name@,
                            Some(CellView::Text(nv)),
                        ));
                    }
                    self.add_form = Some(f);
                    self.status = string_from_chars(m.as_slice());
                } else {
                    let buffer = match &current {
                        Some(x) => value_to_display(x),
                        None => string_from_chars(Vec::<char>::new().as_slice()),
                    };
                    let column_name = string_from_chars(name.as_slice());
                    self.text_entry = Some(
                        TextEntry { target: TextEntryTarget::AddField { column_name, column: c }, buffer },
                    );
                }
            }
            return Vec::new();
        }
        Vec::new()
    }

    /// Takes the outcome of inserting a row: the form closes and rows are
    /// loaded again, or the error is shown.
    pub fn row_inserted(&mut self, result: Result<(), Vec<String>>) -> (r: Vec<DbEffect>)
        ensures
            match result {
                Ok(()) => with_status(DbViewer { add_form: None, ..*old(self) }, "Inserted row"@, *final(self))
                    && effects_view(r@) == seq![EffectView::ReloadRows(ReloadReason::AfterInsert)],
                Err(chain) => with_error(
                    *old(self),
                    "Insert failed: "@ + error_line(strings_view(chain@)),
                    *final(self),
                ) && r@.len() == 0,
            },
    {
        match result {
            Ok(()) => {
                self.add_form = None;
                self.status = string_from_chars(to_chars("Inserted row").as_slice());
                let r = vec![DbEffect::ReloadRows(ReloadReason::AfterInsert)];
                proof {
                    assert(effects_view(r@) =~= seq![EffectView::ReloadRows(ReloadReason::AfterInsert)]);
                }
                r
            },
            Err(chain) => {
                let mut m: Vec<char> = Vec::new();
                push_str(&mut m, "Insert failed: ");
                push_all(&mut m, &string_chars(&format_error_for_status(&chain)));
                self.status = string_from_chars(m.as_slice());
                self.error_popup = Some(string_from_chars(m.as_slice()));
                Vec::new()
            },
        }
    }
}

} // verus!
