//! What the database viewer does on a key or on the outcome of database
//! work: the requests it hands its caller, the dialogs, and the pending
//! edits.

use vstd::prelude::*;
use crate::collection::strings_view;
use crate::db_app::{
    current_value, cell_map, dirty_indexes, dirty_view, increasing, selected_table_of, viewer_wf,
    ActivePage, DbViewer, DirtyRow, GridRow, TextEntry,
};
use crate::db_sql::{QueryOutput, TableInfo};
use crate::db_view::{
    error_line, format_error_for_status, query_output_lines, render_query_output, CellValue,
    CellView,
};
use crate::table::{sorted_table, table_insert, table_map};
use crate::text::{decimal, push_all, push_decimal, push_str, string_chars, string_from_chars, to_chars};

verus! {

// ---------------------------------------------------------------------------
// Requests to the caller
// ---------------------------------------------------------------------------

/// Why rows are loaded again.
#[derive(Debug, Clone, Copy, PartialEq, Eq, Structural)]
pub enum ReloadReason {
    /// The first load.
    Initial,
    /// Another table was selected.
    Refresh,
    /// After rows were deleted.
    AfterDelete,
    /// After a row was inserted.
    AfterInsert,
    /// After this many rows were saved.
    AfterSave(usize),
}

/// The edits to write to one row.
#[derive(Debug, Clone)]
pub struct RowUpdate {
    pub row_index: usize,
    pub ctid: String,
    pub updates: Vec<(String, CellValue)>,
}

/// Work the viewer asks its caller to do.
#[derive(Debug, Clone)]
pub enum DbEffect {
    /// Leave the viewer.
    Close,
    /// Edit the query in the external editor, starting from this text.
    OpenQueryEditor(String),
    /// Store the selected table (`schema.name`) and the page.
    PersistState { selected_table: Option<String>, active_page: String },
    /// Store the query text.
    SaveQuery(String),
    /// Load the rows of the selected table.
    ReloadRows(ReloadReason),
    /// Delete the rows with these ids, then report with `rows_deleted`.
    DeleteRows(Vec<String>),
    /// Insert a row with these values, then report with `row_inserted`.
    InsertRow(Vec<(String, CellValue)>),
    /// Write these edits, then report with `rows_saved`.
    SaveRows(Vec<RowUpdate>),
    /// Run this query, then report with `query_finished`.
    RunQuery(String),
    /// Read this text as an `f64`, then report with `decimal_read`.
    ReadDecimal(String),
}

/// Name and value pairs as views.
pub open spec fn pairs_view(t: Seq<(String, CellValue)>) -> Seq<(Seq<char>, CellView)> {
    t.map_values(|p: (String, CellValue)| (p.0@, p.1@))
}

/// The mathematical form of a [`DbEffect`].
pub enum EffectView {
    Close,
    OpenQueryEditor(Seq<char>),
    PersistState(Option<Seq<char>>, Seq<char>),
    SaveQuery(Seq<char>),
    ReloadRows(ReloadReason),
    DeleteRows(Seq<Seq<char>>),
    InsertRow(Seq<(Seq<char>, CellView)>),
    SaveRows(Seq<(usize, Seq<char>, Seq<(Seq<char>, CellView)>)>),
    RunQuery(Seq<char>),
    ReadDecimal(Seq<char>),
}

impl View for DbEffect {
    type V = EffectView;

    open spec fn view(&self) -> EffectView {
        match self {
            DbEffect::Close => EffectView::Close,
            DbEffect::OpenQueryEditor(q) => EffectView::OpenQueryEditor(q@),
            DbEffect::PersistState { selected_table, active_page } => EffectView::PersistState(
                match selected_table {
                    Some(t) => Some(t@),
                    None => None,
                },
                active_page@,
            ),
            DbEffect::SaveQuery(q) => EffectView::SaveQuery(q@),
            DbEffect::ReloadRows(r) => EffectView::ReloadRows(*r),
            DbEffect::DeleteRows(c) => EffectView::DeleteRows(strings_view(c@)),
            DbEffect::InsertRow(p) => EffectView::InsertRow(pairs_view(p@)),
            DbEffect::SaveRows(u) => EffectView::SaveRows(
                u@.map_values(
                    |x: RowUpdate| (x.row_index, x.ctid@, pairs_view(x.updates@)),
                ),
            ),
            DbEffect::RunQuery(q) => EffectView::RunQuery(q@),
            DbEffect::ReadDecimal(t) => EffectView::ReadDecimal(t@),
        }
    }
}

/// The views of a list of effects.
pub open spec fn effects_view(e: Seq<DbEffect>) -> Seq<EffectView> {
    e.map_values(|x: DbEffect| x@)
}

/// The stored name of a page.
pub open spec fn page_name(p: ActivePage) -> Seq<char> {
    match p {
        ActivePage::Tables => "tables"@,
        ActivePage::Grid => "grid"@,
        ActivePage::Query => "query"@,
    }
}

/// The page a stored name stands for.
pub open spec fn page_named(s: Seq<char>) -> Option<ActivePage> {
    if s == "tables"@ {
        Some(ActivePage::Tables)
    } else if s == "grid"@ {
        Some(ActivePage::Grid)
    } else if s == "query"@ {
        Some(ActivePage::Query)
    } else {
        None
    }
}

/// The stored name of a page.
pub fn page_as_str(p: ActivePage) -> (r: String)
    ensures
        r@ == page_name(p),
{
    let t = match p {
        ActivePage::Tables => to_chars("tables"),
        ActivePage::Grid => to_chars("grid"),
        ActivePage::Query => to_chars("query"),
    };
    string_from_chars(t.as_slice())
}

/// The page a stored name stands for.
pub fn page_from_str(raw: &str) -> (r: Option<ActivePage>)
    ensures
        r == page_named(raw@),
{
    let v = to_chars(raw);
    if crate::text::chars_equal_str(&v, "tables") {
        Some(ActivePage::Tables)
    } else if crate::text::chars_equal_str(&v, "grid") {
        Some(ActivePage::Grid)
    } else if crate::text::chars_equal_str(&v, "query") {
        Some(ActivePage::Query)
    } else {
        None
    }
}

/// The name under which a table's selection is stored: `schema.name`.
pub open spec fn table_key(t: TableInfo) -> Seq<char> {
    t.schema@ + "."@ + t.name@
}

/// The request that stores the selection of a viewer.
pub open spec fn persist_view(v: DbViewer) -> EffectView {
    EffectView::PersistState(
        match selected_table_of(v) {
            Some(t) => Some(table_key(t)),
            None => None,
        },
        page_name(v.active_page),
    )
}

/// The name under which a table's selection is stored.
pub fn table_key_string(t: &TableInfo) -> (r: String)
    ensures
        r@ == table_key(*t),
{
    let mut out: Vec<char> = Vec::new();
    push_all(&mut out, &string_chars(&t.schema));
    push_str(&mut out, ".");
    push_all(&mut out, &string_chars(&t.name));
    string_from_chars(out.as_slice())
}

/// The viewer with `s` as its status line.
pub open spec fn with_status(v: DbViewer, s: Seq<char>, n: DbViewer) -> bool {
    n.status@ == s && n == (DbViewer { status: n.status, ..v })
}

/// The viewer showing the error `s` in its status line and in a popup.
pub open spec fn with_error(v: DbViewer, s: Seq<char>, n: DbViewer) -> bool {
    &&& n.status@ == s
    &&& n.error_popup matches Some(p) && p@ == s
    &&& n == (DbViewer { status: n.status, error_popup: n.error_popup, ..v })
}

impl DbViewer {
    fn set_status(&mut self, text: &Vec<char>)
        ensures
            with_status(*old(self), text@, *final(self)),
    {
        self.status = string_from_chars(text.as_slice());
    }

    fn show_error(&mut self, text: &Vec<char>)
        ensures
            with_error(*old(self), text@, *final(self)),
    {
        self.status = string_from_chars(text.as_slice());
        self.error_popup = Some(string_from_chars(text.as_slice()));
    }

    /// The request that stores the current selection.
    pub fn persist_effect(&self) -> (r: DbEffect)
        ensures
            r@ == persist_view(*self),
    {
        let selected = if self.selected_table < self.tables.len() {
            Some(table_key_string(&self.tables[self.selected_table]))
        } else {
            None
        };
        DbEffect::PersistState { selected_table: selected, active_page: page_as_str(self.active_page) }
    }

    /// Shows an error that reached the top of the viewer's loop.
    pub fn report_runtime_error(&mut self, chain: &Vec<String>)
        ensures
            with_error(*old(self), "Unhandled error: "@ + error_line(strings_view(chain@)), *final(self)),
    {
        let mut m: Vec<char> = Vec::new();
        push_str(&mut m, "Unhandled error: ");
        push_all(&mut m, &string_chars(&format_error_for_status(chain)));
        self.show_error(&m);
    }

    /// Records the new terminal size.
    pub fn terminal_resized(&mut self, width: u16, height: u16)
        ensures
            *final(self) == (DbViewer { terminal_width: width, terminal_height: height, ..*old(self) }),
    {
        self.terminal_width = width;
        self.terminal_height = height;
    }

    /// Takes a query edited outside the viewer.
    pub fn query_edited_externally(&mut self, query: String) -> (r: Vec<DbEffect>)
        ensures
            final(self).query@ == query@,
            final(self).status@ == "Updated query from external editor"@,
            *final(self) == (DbViewer { query: final(self).query, status: final(self).status, ..*old(self) }),
            effects_view(r@) == seq![EffectView::SaveQuery(query@)],
    {
        let saved = string_from_chars(string_chars(&query).as_slice());
        self.query = query;
        self.set_status(&to_chars("Updated query from external editor"));
        let r = vec![DbEffect::SaveQuery(saved)];
        proof {
            assert(effects_view(r@) =~= seq![EffectView::SaveQuery(final(self).query@)]);
        }
        r
    }
}

// ---------------------------------------------------------------------------
// Loading rows
// ---------------------------------------------------------------------------

/// The viewer after `rows` were loaded: the cursor kept within the rows
/// and columns, marks, edits, pickers, scrolling and a pending `g`
/// dropped.
pub open spec fn after_load(v: DbViewer, rows: Seq<GridRow>) -> DbViewer {
    let ncols = match selected_table_of(v) {
        Some(t) => t.columns@.len() as int,
        None => 0,
    };
    let last_row = if rows.len() > 0 {
        rows.len() - 1
    } else {
        0
    };
    let last_col = if ncols > 0 {
        ncols - 1
    } else {
        0
    };
    DbViewer {
        selected_row: if v.selected_row < last_row {
            v.selected_row
        } else {
            last_row as usize
        },
        selected_col: if v.selected_col < last_col {
            v.selected_col
        } else {
            last_col as usize
        },
        grid_h_scroll: 0,
        grid_v_scroll: 0,
        pending_g: false,
        datetime_picker: None,
        value_picker: None,
        ..v
    }
}

/// What a finished load leaves behind: the error for the caller when a
/// plain load failed; after a delete, insert or save, a failed reload is
/// shown as an error of its own.
pub open spec fn load_outcome(
    v: DbViewer,
    reason: ReloadReason,
    loaded: Result<Seq<GridRow>, Seq<Seq<char>>>,
    n: DbViewer,
    r: Result<(), Seq<Seq<char>>>,
) -> bool {
    match loaded {
        Ok(rows) => {
            &&& r is Ok
            &&& n.rows@ == rows
            &&& n.selected_rows@.len() == 0
            &&& n.dirty_rows@.len() == 0
            &&& (if reason == ReloadReason::Initial {
                n == (DbViewer {
                    rows: n.rows,
                    selected_rows: n.selected_rows,
                    dirty_rows: n.dirty_rows,
                    status: n.status,
                    ..after_load(v, rows)
                }) && n.status@ == "Loaded db-viewer"@
            } else {
                n == (DbViewer {
                    rows: n.rows,
                    selected_rows: n.selected_rows,
                    dirty_rows: n.dirty_rows,
                    ..after_load(v, rows)
                })
            })
        },
        Err(chain) => match reason {
            ReloadReason::Initial | ReloadReason::Refresh => r == Err::<(), Seq<Seq<char>>>(chain)
                && n == v,
            ReloadReason::AfterDelete => r is Ok && with_error(
                v,
                "Deleted row(s), but refresh failed: "@ + error_line(chain),
                n,
            ),
            ReloadReason::AfterInsert => r is Ok && with_error(
                v,
                "Inserted row, but refresh failed: "@ + error_line(chain),
                n,
            ),
            ReloadReason::AfterSave(saved) => r is Ok && with_error(
                v,
                "Saved "@ + decimal(saved as nat) + " row(s), but refresh failed: "@ + error_line(
                    chain,
                ),
                n,
            ),
        },
    }
}

/// The view of a load result.
pub open spec fn loaded_view(r: Result<Vec<GridRow>, Vec<String>>) -> Result<Seq<GridRow>, Seq<Seq<char>>> {
    match r {
        Ok(rows) => Ok(rows@),
        Err(chain) => Err(strings_view(chain@)),
    }
}

/// The view of a unit result.
pub open spec fn unit_view(r: Result<(), Vec<String>>) -> Result<(), Seq<Seq<char>>> {
    match r {
        Ok(()) => Ok(()),
        Err(chain) => Err(strings_view(chain@)),
    }
}

impl DbViewer {
    /// Takes the outcome of loading rows.
    pub fn rows_loaded(&mut self, reason: ReloadReason, loaded: Result<Vec<GridRow>, Vec<String>>) -> (r:
        Result<(), Vec<String>>)
        requires
            viewer_wf(*old(self)),
            loaded matches Ok(rows) ==> forall|i: int|
                0 <= i < rows@.len() ==> sorted_table(#[trigger] rows@[i].values@),
        ensures
            load_outcome(*old(self), reason, loaded_view(loaded), *final(self), unit_view(r)),
            viewer_wf(*final(self)),
    {
        match loaded {
            Ok(rows) => {
                let ncols: usize = if self.selected_table < self.tables.len() {
                    self.tables[self.selected_table].columns.len()
                } else {
                    0
                };
                let last_row: usize = if rows.len() > 0 {
                    rows.len() - 1
                } else {
                    0
                };
                let last_col: usize = if ncols > 0 {
                    ncols - 1
                } else {
                    0
                };
                if self.selected_row > last_row {
                    self.selected_row = last_row;
                }
                if self.selected_col > last_col {
                    self.selected_col = last_col;
                }
                self.rows = rows;
                self.selected_rows = Vec::new();
                self.dirty_rows = Vec::new();
                self.datetime_picker = None;
                self.value_picker = None;
                self.grid_h_scroll = 0;
                self.grid_v_scroll = 0;
                self.pending_g = false;
                if reason == ReloadReason::Initial {
                    self.set_status(&to_chars("Loaded db-viewer"));
                }
                Ok(())
            },
            Err(chain) => {
                let mut m: Vec<char> = Vec::new();
                match reason {
                    ReloadReason::Initial | ReloadReason::Refresh => {
                        return Err(chain);
                    },
                    ReloadReason::AfterDelete => {
                        push_str(&mut m, "Deleted row(s), but refresh failed: ");
                    },
                    ReloadReason::AfterInsert => {
                        push_str(&mut m, "Inserted row, but refresh failed: ");
                    },
                    ReloadReason::AfterSave(saved) => {
                        push_str(&mut m, "Saved ");
                        push_decimal(&mut m, saved as u64);
                        push_str(&mut m, " row(s), but refresh failed: ");
                    },
                }
                push_all(&mut m, &string_chars(&format_error_for_status(&chain)));
                self.show_error(&m);
                Ok(())
            },
        }
    }
}

// ---------------------------------------------------------------------------
// Queries
// ---------------------------------------------------------------------------

/// The view of a query result with its running time in milliseconds.
pub open spec fn query_result_view(r: Result<(QueryOutput, u64), Vec<String>>) -> Result<
    (QueryOutput, u64),
    Seq<Seq<char>>,
> {
    match r {
        Ok(p) => Ok(p),
        Err(chain) => Err(strings_view(chain@)),
    }
}

impl DbViewer {
    /// Takes the outcome of a query: its lines and the time it took, or
    /// the error's outermost message in the result and `Query failed` as
    /// an error.
    pub fn query_finished(&mut self, result: Result<(QueryOutput, u64), Vec<String>>)
        requires
            result matches Err(chain) ==> chain@.len() > 0,
        ensures
            match query_result_view(result) {
                Ok((output, ms)) => final(self).query_result_lines@.map_values(|s: String| s@)
                    == query_output_lines(output) && with_status(
                    DbViewer { query_result_lines: final(self).query_result_lines, ..*old(self) },
                    "Query executed in "@ + decimal(ms as nat) + "ms"@,
                    *final(self),
                ),
                Err(chain) => final(self).query_result_lines@.map_values(|s: String| s@) == seq![
                    "Error: "@ + chain[0],
                ] && with_error(
                    DbViewer { query_result_lines: final(self).query_result_lines, ..*old(self) },
                    "Query failed"@,
                    *final(self),
                ),
            },
    {
        match result {
            Ok((output, ms)) => {
                self.query_result_lines = render_query_output(&output);
                let mut m: Vec<char> = Vec::new();
                push_str(&mut m, "Query executed in ");
                push_decimal(&mut m, ms);
                push_str(&mut m, "ms");
                self.set_status(&m);
            },
            Err(chain) => {
                let mut line: Vec<char> = Vec::new();
                push_str(&mut line, "Error: ");
                push_all(&mut line, &string_chars(&chain[0]));
                let lines = vec![string_from_chars(line.as_slice())];
                proof {
                    assert(lines@.map_values(|s: String| s@) =~= seq![
                        "Error: "@ + strings_view(chain@)[0],
                    ]);
                }
                self.query_result_lines = lines;
                self.show_error(&to_chars("Query failed"));
            },
        }
    }
}

} // verus!
