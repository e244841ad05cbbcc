//! The database viewer's table model and the SQL text it sends: quoted
//! identifiers, row fetches, updates, inserts, deletes and ad-hoc queries.

use vstd::prelude::*;
use crate::collection::strings_view;
use crate::text::{
    ascii_lowercase, ascii_lowercase_chars, decimal, push_all, push_decimal, push_str, replace_all,
    replace_char_with, starts_with, starts_with_str, string_chars, string_from_chars, to_chars,
    trim, trim_chars, trim_end_char, trim_end_char_exec, trim_start, trim_start_chars,
};

verus! {

/// A table and its columns.
#[derive(Debug, Clone)]
pub struct TableInfo {
    /// Schema the table belongs to.
    pub schema: String,
    /// Table name.
    pub name: String,
    /// Columns in ordinal order.
    pub columns: Vec<ColumnInfo>,
}

/// A column of a table.
#[derive(Debug, Clone)]
pub struct ColumnInfo {
    /// Column name.
    pub name: String,
    /// SQL data type.
    pub data_type: String,
    /// Underlying type name.
    pub udt_name: String,
    /// Whether the column accepts NULL.
    pub is_nullable: bool,
    /// Labels of the enum type, empty when the column is not an enum.
    pub enum_options: Vec<String>,
}

impl ColumnInfo {
    /// Whether the column has an enum type.
    pub fn is_enum(&self) -> (b: bool)
        ensures
            b == (self.enum_options@.len() > 0),
    {
        self.enum_options.len() > 0
    }
}

/// What an ad-hoc query produced.
#[derive(Debug, Clone)]
pub enum QueryOutput {
    /// Rows, each cell rendered as text.
    Rows {
        /// Column names.
        columns: Vec<String>,
        /// Rendered rows.
        rows: Vec<Vec<String>>,
        /// Number of rows.
        row_count: usize,
    },
    /// A command and the number of rows it changed.
    Command {
        /// Rows affected.
        rows_affected: u64,
    },
}

/// An identifier quoted for SQL: double quotes around it, inner double
/// quotes doubled.
pub open spec fn quoted(raw: Seq<char>) -> Seq<char> {
    seq!['"'] + replace_all(raw, seq!['"'], seq!['"', '"']) + seq!['"']
}

fn push_quoted(out: &mut Vec<char>, raw: &Vec<char>)
    ensures
        final(out)@ == old(out)@ + quoted(raw@),
{
    out.push('"');
    let escaped = replace_char_with(raw, '"', "\"\"");
    push_all(out, &escaped);
    out.push('"');
    proof {
        reveal_strlit("\"\"");
        assert("\"\""@ =~= seq!['"', '"']);
        assert(final(out)@ =~= old(out)@ + quoted(raw@));
    }
}

/// Quotes an identifier for SQL.
pub fn quote_ident(raw: &str) -> (r: String)
    ensures
        r@ == quoted(raw@),
{
    let rv = to_chars(raw);
    let mut out: Vec<char> = Vec::new();
    push_quoted(&mut out, &rv);
    proof {
        assert(out@ =~= quoted(raw@));
    }
    string_from_chars(out.as_slice())
}

/// `"schema"."table"`.
pub open spec fn qualified(schema: Seq<char>, table: Seq<char>) -> Seq<char> {
    quoted(schema) + seq!['.'] + quoted(table)
}

fn push_qualified(out: &mut Vec<char>, schema: &String, table: &String)
    ensures
        final(out)@ == old(out)@ + qualified(schema@, table@),
{
    let s = string_chars(schema);
    let t = string_chars(table);
    push_quoted(out, &s);
    out.push('.');
    push_quoted(out, &t);
    proof {
        assert(final(out)@ =~= old(out)@ + qualified(schema@, table@));
    }
}

/// A schema-qualified, quoted table name.
pub fn qualified_table(schema: &str, table: &str) -> (r: String)
    ensures
        r@ == qualified(schema@, table@),
{
    let s = String::from_str(schema);
    let t = String::from_str(table);
    let mut out: Vec<char> = Vec::new();
    push_qualified(&mut out, &s, &t);
    proof {
        assert(out@ =~= qualified(schema@, table@));
    }
    string_from_chars(out.as_slice())
}

/// The query that fetches a table's rows with their physical row ids; the
/// row limit is bound as the first parameter.
pub open spec fn fetch_rows_query(schema: Seq<char>, table: Seq<char>) -> Seq<char> {
    "SELECT ctid::text AS ctid, to_jsonb(t) AS row_json FROM "@ + qualified(schema, table)
        + " AS t LIMIT $1"@
}

/// Builds the row fetch query of a table.
pub fn fetch_rows_sql(table: &TableInfo) -> (r: String)
    ensures
        r@ == fetch_rows_query(table.schema@, table.name@),
{
    let mut out: Vec<char> = Vec::new();
    push_str(&mut out, "SELECT ctid::text AS ctid, to_jsonb(t) AS row_json FROM ");
    push_qualified(&mut out, &table.schema, &table.name);
    push_str(&mut out, " AS t LIMIT $1");
    string_from_chars(out.as_slice())
}

/// `items` joined by `, `, each rendered by `f`.
pub open spec fn join_rendered(items: Seq<Seq<char>>, f: spec_fn(Seq<char>) -> Seq<char>) -> Seq<char>
    decreases items.len(),
{
    if items.len() == 0 {
        seq![]
    } else if items.len() == 1 {
        f(items[0])
    } else {
        join_rendered(items.drop_last(), f) + seq![',', ' '] + f(items.last())
    }
}

/// `"col" = r."col"`, one assignment of an update.
pub open spec fn set_item(c: Seq<char>) -> Seq<char> {
    quoted(c) + " = r."@ + quoted(c)
}

/// `r."col"`, one selected column of an insert.
pub open spec fn record_item(c: Seq<char>) -> Seq<char> {
    "r."@ + quoted(c)
}

/// How a column appears in a statement.
#[derive(Debug, Clone, Copy, PartialEq, Eq, Structural)]
pub enum ColumnForm {
    /// `"col"`
    Plain,
    /// `"col" = r."col"`
    Assignment,
    /// `r."col"`
    FromRecord,
}

/// The rendering of a column in a form.
pub open spec fn render_column(form: ColumnForm) -> spec_fn(Seq<char>) -> Seq<char> {
    match form {
        ColumnForm::Plain => |c: Seq<char>| quoted(c),
        ColumnForm::Assignment => |c: Seq<char>| set_item(c),
        ColumnForm::FromRecord => |c: Seq<char>| record_item(c),
    }
}

fn push_column_list(out: &mut Vec<char>, columns: &Vec<String>, form: ColumnForm)
    ensures
        final(out)@ == old(out)@ + join_rendered(strings_view(columns@), render_column(form)),
{
    let ghost start = out@;
    let ghost cv = strings_view(columns@);
    let ghost f = render_column(form);
    let mut i: usize = 0;
    proof {
        assert(start + join_rendered(cv.take(0), f) =~= start);
    }
    while i < columns.len()
        invariant
            i <= columns.len(),
            cv == strings_view(columns@),
            f == render_column(form),
            out@ == start + join_rendered(cv.take(i as int), f),
        decreases columns.len() - i,
    {
        let ghost before = out@;
        if i > 0 {
            push_str(out, ", ");
            proof {
                reveal_strlit(", ");
            }
        }
        let c = string_chars(&columns[i]);
        match form {
            ColumnForm::Plain => {
                push_quoted(out, &c);
            },
            ColumnForm::Assignment => {
                push_quoted(out, &c);
                push_str(out, " = r.");
                push_quoted(out, &c);
            },
            ColumnForm::FromRecord => {
                push_str(out, "r.");
                push_quoted(out, &c);
            },
        }
        proof {
            reveal_strlit(" = r.");
            reveal_strlit("r.");
            assert(cv.take(i + 1).drop_last() =~= cv.take(i as int));
            assert(cv.take(i + 1).last() == c@);
            if i == 0 {
                assert(cv.take(1).len() == 1);
                assert(out@ =~= start + join_rendered(cv.take(i + 1), f));
            } else {
                assert(out@ =~= start + join_rendered(cv.take(i + 1), f));
            }
        }
        i += 1;
    }
    proof {
        assert(cv.take(columns.len() as int) =~= cv);
    }
}

/// The update of one row, identified by its row id (second parameter),
/// taking the new values from a JSON record (first parameter).
pub open spec fn update_query(schema: Seq<char>, table: Seq<char>, columns: Seq<Seq<char>>) -> Seq<
    char,
> {
    let t = qualified(schema, table);
    "UPDATE "@ + t + " AS t SET "@ + join_rendered(columns, render_column(ColumnForm::Assignment))
        + " FROM jsonb_populate_record(NULL::"@ + t + ", $1::jsonb) AS r WHERE t.ctid = $2::tid"@
}

/// Builds the update of the given columns of one row; no statement when no
/// column changes.
pub fn update_row_sql(table: &TableInfo, columns: &Vec<String>) -> (r: Option<String>)
    ensures
        columns@.len() == 0 ==> r is None,
        columns@.len() > 0 ==> r is Some && r->0@ == update_query(
            table.schema@,
            table.name@,
            strings_view(columns@),
        ),
{
    if columns.len() == 0 {
        return None;
    }
    let mut out: Vec<char> = Vec::new();
    push_str(&mut out, "UPDATE ");
    push_qualified(&mut out, &table.schema, &table.name);
    push_str(&mut out, " AS t SET ");
    push_column_list(&mut out, columns, ColumnForm::Assignment);
    push_str(&mut out, " FROM jsonb_populate_record(NULL::");
    push_qualified(&mut out, &table.schema, &table.name);
    push_str(&mut out, ", $1::jsonb) AS r WHERE t.ctid = $2::tid");
    proof {
        assert(out@ =~= update_query(table.schema@, table.name@, strings_view(columns@)));
    }
    Some(string_from_chars(out.as_slice()))
}

/// The insert of one row: default values when no column is given, else the
/// given columns taken from a JSON record (first parameter).
pub open spec fn insert_query(schema: Seq<char>, table: Seq<char>, columns: Seq<Seq<char>>) -> Seq<
    char,
> {
    let t = qualified(schema, table);
    if columns.len() == 0 {
        "INSERT INTO "@ + t + " DEFAULT VALUES"@
    } else {
        "INSERT INTO "@ + t + " ("@ + join_rendered(columns, render_column(ColumnForm::Plain))
            + ") SELECT "@ + join_rendered(columns, render_column(ColumnForm::FromRecord))
            + " FROM jsonb_populate_record(NULL::"@ + t + ", $1::jsonb) AS r"@
    }
}

/// Builds the insert of one row.
pub fn insert_row_sql(table: &TableInfo, columns: &Vec<String>) -> (r: String)
    ensures
        r@ == insert_query(table.schema@, table.name@, strings_view(columns@)),
{
    let mut out: Vec<char> = Vec::new();
    push_str(&mut out, "INSERT INTO ");
    push_qualified(&mut out, &table.schema, &table.name);
    if columns.len() == 0 {
        push_str(&mut out, " DEFAULT VALUES");
    } else {
        push_str(&mut out, " (");
        push_column_list(&mut out, columns, ColumnForm::Plain);
        push_str(&mut out, ") SELECT ");
        push_column_list(&mut out, columns, ColumnForm::FromRecord);
        push_str(&mut out, " FROM jsonb_populate_record(NULL::");
        push_qualified(&mut out, &table.schema, &table.name);
        push_str(&mut out, ", $1::jsonb) AS r");
    }
    proof {
        assert(out@ =~= insert_query(table.schema@, table.name@, strings_view(columns@)));
    }
    string_from_chars(out.as_slice())
}

/// The delete of one row by its row id (first parameter).
pub open spec fn delete_query(schema: Seq<char>, table: Seq<char>) -> Seq<char> {
    "DELETE FROM "@ + qualified(schema, table) + " WHERE ctid = $1::tid"@
}

/// Builds the delete of one row.
pub fn delete_row_sql(table: &TableInfo) -> (r: String)
    ensures
        r@ == delete_query(table.schema@, table.name@),
{
    let mut out: Vec<char> = Vec::new();
    push_str(&mut out, "DELETE FROM ");
    push_qualified(&mut out, &table.schema, &table.name);
    push_str(&mut out, " WHERE ctid = $1::tid");
    string_from_chars(out.as_slice())
}

// ---------------------------------------------------------------------------
// Ad-hoc queries
// ---------------------------------------------------------------------------

/// A statement that yields rows: it starts, after leading whitespace and
/// ignoring ASCII case, with `select`, `values`, `table`, `show` or
/// `explain`.
pub open spec fn returns_rows(sql: Seq<char>) -> bool {
    let t = ascii_lowercase(trim_start(sql));
    starts_with(t, "select"@) || starts_with(t, "values"@) || starts_with(t, "table"@) || starts_with(
        t,
        "show"@,
    ) || starts_with(t, "explain"@)
}

/// Whether a statement yields rows.
pub fn query_returns_rows(sql: &str) -> (b: bool)
    ensures
        b == returns_rows(sql@),
{
    let s = to_chars(sql);
    let t0 = trim_start_chars(&s);
    let t = ascii_lowercase_chars(&t0);
    starts_with_str(&t, "select") || starts_with_str(&t, "values") || starts_with_str(&t, "table")
        || starts_with_str(&t, "show") || starts_with_str(&t, "explain")
}

/// A statement as it is run: trimmed, trailing semicolons dropped, trimmed
/// again.
pub open spec fn normalized_statement(sql: Seq<char>) -> Seq<char> {
    trim(trim_end_char(trim(sql), ';'))
}

/// The statement to run, or `query is empty` when nothing is left of it.
pub fn normalize_query(sql: &str) -> (r: Result<String, String>)
    ensures
        normalized_statement(sql@).len() == 0 ==> r is Err && r->Err_0@ == "query is empty"@,
        normalized_statement(sql@).len() > 0 ==> r is Ok && r->Ok_0@ == normalized_statement(sql@),
{
    let s = to_chars(sql);
    let a = trim_chars(&s);
    let b = trim_end_char_exec(&a, ';');
    let c = trim_chars(&b);
    if c.len() == 0 {
        Err(String::from_str("query is empty"))
    } else {
        Ok(string_from_chars(c.as_slice()))
    }
}

/// A row-returning statement wrapped to return at most `limit` rows.
pub open spec fn limited_query(normalized: Seq<char>, limit: nat) -> Seq<char> {
    "SELECT * FROM ("@ + normalized + ") AS q LIMIT "@ + decimal(limit)
}

/// Wraps a row-returning statement with a row limit.
pub fn limited_query_sql(normalized: &str, limit: usize) -> (r: String)
    ensures
        r@ == limited_query(normalized@, limit as nat),
{
    let mut out: Vec<char> = Vec::new();
    push_str(&mut out, "SELECT * FROM (");
    push_str(&mut out, normalized);
    push_str(&mut out, ") AS q LIMIT ");
    push_decimal(&mut out, limit as u64);
    proof {
        assert(out@ =~= limited_query(normalized@, limit as nat));
    }
    string_from_chars(out.as_slice())
}

} // verus!
