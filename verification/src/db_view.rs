//! What the database viewer shows: cell values as text, grid widths and
//! scrolling, query results, error lines, and the checking of typed input.

use vstd::prelude::*;
use crate::collection::strings_view;
use crate::db_sql::{ColumnInfo, QueryOutput};
use crate::text::{
    chars_equal, contains, contains_str, decimal, push_all, push_decimal, push_str,
    replace_all, replace_char_with, string_chars, string_from_chars, to_chars,
};

verus! {

// ---------------------------------------------------------------------------
// Cell values
// ---------------------------------------------------------------------------

/// A value of a row cell, as the viewer reads and writes it.
#[derive(Debug, Clone)]
pub enum CellValue {
    /// SQL NULL.
    Null,
    /// A boolean.
    Bool(bool),
    /// A number, by its JSON text.
    Number(String),
    /// A string.
    Text(String),
    /// An array or an object, by its compact JSON text.
    Json(String),
}

/// The mathematical form of a [`CellValue`].
pub enum CellView {
    Null,
    Bool(bool),
    Number(Seq<char>),
    Text(Seq<char>),
    Json(Seq<char>),
}

impl View for CellValue {
    type V = CellView;

    open spec fn view(&self) -> CellView {
        match self {
            CellValue::Null => CellView::Null,
            CellValue::Bool(b) => CellView::Bool(*b),
            CellValue::Number(t) => CellView::Number(t@),
            CellValue::Text(t) => CellView::Text(t@),
            CellValue::Json(t) => CellView::Json(t@),
        }
    }
}

/// Whether two cell values are the same value.
pub fn cells_equal(a: &CellValue, b: &CellValue) -> (r: bool)
    ensures
        r == (a@ == b@),
{
    match (a, b) {
        (CellValue::Null, CellValue::Null) => true,
        (CellValue::Bool(x), CellValue::Bool(y)) => *x == *y,
        (CellValue::Number(x), CellValue::Number(y)) => chars_equal(
            &string_chars(x),
            &string_chars(y),
        ),
        (CellValue::Text(x), CellValue::Text(y)) => chars_equal(&string_chars(x), &string_chars(y)),
        (CellValue::Json(x), CellValue::Json(y)) => chars_equal(&string_chars(x), &string_chars(y)),
        _ => false,
    }
}

/// A copy of a cell value.
pub fn copy_cell(c: &CellValue) -> (r: CellValue)
    ensures
        r@ == c@,
{
    match c {
        CellValue::Null => CellValue::Null,
        CellValue::Bool(b) => CellValue::Bool(*b),
        CellValue::Number(t) => CellValue::Number(string_from_chars(string_chars(t).as_slice())),
        CellValue::Text(t) => CellValue::Text(string_from_chars(string_chars(t).as_slice())),
        CellValue::Json(t) => CellValue::Json(string_from_chars(string_chars(t).as_slice())),
    }
}

/// The text the grid shows for a value: `NULL`, `true`/`false`, or the
/// value's own text.
pub open spec fn display_text(v: CellView) -> Seq<char> {
    match v {
        CellView::Null => "NULL"@,
        CellView::Bool(b) => if b {
            "true"@
        } else {
            "false"@
        },
        CellView::Number(t) => t,
        CellView::Text(t) => t,
        CellView::Json(t) => t,
    }
}

/// The text the grid shows for a value.
pub fn value_to_display(value: &CellValue) -> (r: String)
    ensures
        r@ == display_text(value@),
{
    match value {
        CellValue::Null => string_from_chars(to_chars("NULL").as_slice()),
        CellValue::Bool(b) => if *b {
            string_from_chars(to_chars("true").as_slice())
        } else {
            string_from_chars(to_chars("false").as_slice())
        },
        CellValue::Number(t) => string_from_chars(string_chars(t).as_slice()),
        CellValue::Text(t) => string_from_chars(string_chars(t).as_slice()),
        CellValue::Json(t) => string_from_chars(string_chars(t).as_slice()),
    }
}

// ---------------------------------------------------------------------------
// Grid text
// ---------------------------------------------------------------------------

/// Cell text on one grid line: newlines, carriage returns and tabs are
/// shown as `\n`, `\r` and `\t`.
pub open spec fn sanitized(s: Seq<char>) -> Seq<char> {
    replace_all(
        replace_all(replace_all(s, seq!['\n'], seq!['\\', 'n']), seq!['\r'], seq!['\\', 'r']),
        seq!['\t'],
        seq!['\\', 't'],
    )
}

/// Cell text on one grid line.
pub fn sanitize_grid_text(raw: &Vec<char>) -> (r: Vec<char>)
    ensures
        r@ == sanitized(raw@),
{
    let a = replace_char_with(raw, '\n', "\\n");
    let b = replace_char_with(&a, '\r', "\\r");
    let c = replace_char_with(&b, '\t', "\\t");
    proof {
        reveal_strlit("\\n");
        reveal_strlit("\\r");
        reveal_strlit("\\t");
        assert("\\n"@ =~= seq!['\\', 'n']);
        assert("\\r"@ =~= seq!['\\', 'r']);
        assert("\\t"@ =~= seq!['\\', 't']);
    }
    c
}

/// `s` followed by spaces up to `width` characters.
pub open spec fn padded_to(s: Seq<char>, width: nat) -> Seq<char> {
    if s.len() >= width {
        s
    } else {
        s + Seq::new((width - s.len()) as nat, |i: int| ' ')
    }
}

/// `raw` padded with spaces to `width` characters.
pub fn pad_to_width(raw: &Vec<char>, width: usize) -> (r: Vec<char>)
    ensures
        r@ == padded_to(raw@, width as nat),
{
    let mut out: Vec<char> = Vec::new();
    push_all(&mut out, raw);
    let mut k: usize = raw.len();
    while k < width
        invariant
            raw@.len() <= k,
            k <= width || raw@.len() >= width,
            raw@.len() >= width ==> k == raw@.len(),
            out@ == raw@ + Seq::new((k - raw@.len()) as nat, |i: int| ' '),
        decreases width - k,
    {
        out.push(' ');
        proof {
            assert(out@ =~= raw@ + Seq::new((k + 1 - raw@.len()) as nat, |i: int| ' '));
        }
        k += 1;
    }
    proof {
        if raw@.len() >= width {
            assert(k == raw@.len());
            assert(Seq::new((k - raw@.len()) as nat, |i: int| ' ').len() == 0);
            assert(out@ =~= raw@);
        }
    }
    out
}

// ---------------------------------------------------------------------------
// Errors and query results
// ---------------------------------------------------------------------------

/// The status line for an error given by its chain of messages, outermost
/// first: the outermost message, followed by the innermost cause in
/// parentheses when they differ. A rejected UUID reads `invalid UUID value`.
pub open spec fn error_line(chain: Seq<Seq<char>>) -> Seq<char> {
    let primary = if chain.len() > 0 {
        chain[0]
    } else {
        "unexpected error"@
    };
    let root = if chain.len() > 0 {
        chain.last()
    } else {
        primary
    };
    if contains(root, "invalid input syntax for type uuid"@) {
        "invalid UUID value"@
    } else if primary == root {
        primary
    } else {
        primary + " ("@ + root + ")"@
    }
}

/// The status line for an error given by its chain of messages.
pub fn format_error_for_status(chain: &Vec<String>) -> (r: String)
    ensures
        r@ == error_line(strings_view(chain@)),
{
    let ghost cv = strings_view(chain@);
    let primary: Vec<char> = if chain.len() > 0 {
        string_chars(&chain[0])
    } else {
        to_chars("unexpected error")
    };
    let root: Vec<char> = if chain.len() > 0 {
        string_chars(&chain[chain.len() - 1])
    } else {
        to_chars("unexpected error")
    };
    proof {
        if chain@.len() > 0 {
            assert(cv[0] == chain@[0]@);
            assert(cv.last() == chain@[chain@.len() - 1]@);
        }
    }
    if contains_str(&root, "invalid input syntax for type uuid") {
        return string_from_chars(to_chars("invalid UUID value").as_slice());
    }
    if chars_equal(&primary, &root) {
        return string_from_chars(primary.as_slice());
    }
    let mut out: Vec<char> = Vec::new();
    push_all(&mut out, &primary);
    push_str(&mut out, " (");
    push_all(&mut out, &root);
    push_str(&mut out, ")");
    string_from_chars(out.as_slice())
}

/// `items` joined by `sep`.
pub open spec fn joined(items: Seq<Seq<char>>, sep: Seq<char>) -> Seq<char>
    decreases items.len(),
{
    if items.len() == 0 {
        Seq::empty()
    } else if items.len() == 1 {
        items[0]
    } else {
        joined(items.drop_last(), sep) + sep + items.last()
    }
}

pub fn push_joined(out: &mut Vec<char>, items: &Vec<String>, sep: &str)
    ensures
        final(out)@ == old(out)@ + joined(strings_view(items@), sep@),
{
    let ghost start = out@;
    let ghost iv = strings_view(items@);
    let mut i: usize = 0;
    proof {
        assert(iv.take(0) =~= Seq::<Seq<char>>::empty());
        assert(out@ =~= start + joined(iv.take(0), sep@));
    }
    while i < items.len()
        invariant
            i <= items.len(),
            iv == strings_view(items@),
            out@ == start + joined(iv.take(i as int), sep@),
        decreases items.len() - i,
    {
        if i > 0 {
            push_str(out, sep);
        }
        let item = string_chars(&items[i]);
        push_all(out, &item);
        proof {
            let t = iv.take(i + 1);
            assert(t.drop_last() =~= iv.take(i as int));
            assert(t.last() == items@[i as int]@);
            if i == 0 {
                assert(joined(t, sep@) == t[0]);
                assert(out@ =~= start + joined(t, sep@));
            } else {
                assert(out@ =~= start + joined(t, sep@));
            }
        }
        i += 1;
    }
    proof {
        assert(iv.take(items@.len() as int) =~= iv);
    }
}

/// The lines shown for a query result: the number of changed rows for a
/// command; for rows, a header of the column names and at most the first
/// five rows, each joined by ` | `, and a note of the total when there are
/// more; `(0 rows)` when the result has no columns.
pub open spec fn query_output_lines(o: QueryOutput) -> Seq<Seq<char>> {
    match o {
        QueryOutput::Command { rows_affected } => seq!["rows affected: "@ + decimal(rows_affected as nat)],
        QueryOutput::Rows { columns, rows, row_count } => if columns@.len() == 0 {
            seq!["(0 rows)"@]
        } else {
            let shown = if rows@.len() > 5 {
                5
            } else {
                rows@.len() as int
            };
            let body = Seq::new(shown as nat, |i: int| joined(strings_view(rows@[i]@), " | "@));
            let head = seq![joined(strings_view(columns@), " | "@)] + body;
            if row_count > 5 {
                head.push("... "@ + decimal(row_count as nat) + " total rows (showing 5)"@)
            } else {
                head
            }
        },
    }
}

/// The lines shown for a query result.
pub fn render_query_output(output: &QueryOutput) -> (r: Vec<String>)
    ensures
        r@.map_values(|s: String| s@) == query_output_lines(*output),
{
    match output {
        QueryOutput::Command { rows_affected } => {
            let mut line: Vec<char> = Vec::new();
            push_str(&mut line, "rows affected: ");
            push_decimal(&mut line, *rows_affected);
            let mut r: Vec<String> = Vec::new();
            r.push(string_from_chars(line.as_slice()));
            proof {
                reveal_strlit("rows affected: ");
                assert(r@.map_values(|s: String| s@) =~= query_output_lines(*output));
            }
            r
        },
        QueryOutput::Rows { columns, rows, row_count } => {
            let mut r: Vec<String> = Vec::new();
            if columns.len() == 0 {
                r.push(string_from_chars(to_chars("(0 rows)").as_slice()));
                proof {
                    assert(r@.map_values(|s: String| s@) =~= query_output_lines(*output));
                }
                return r;
            }
            let mut head: Vec<char> = Vec::new();
            push_joined(&mut head, columns, " | ");
            r.push(string_from_chars(head.as_slice()));
            let shown: usize = if rows.len() > 5 {
                5
            } else {
                rows.len()
            };
            let ghost body = Seq::new(
                shown as nat,
                |i: int| joined(strings_view(rows@[i]@), " | "@),
            );
            let mut i: usize = 0;
            while i < shown
                invariant
                    i <= shown,
                    shown <= rows@.len(),
                    body == Seq::new(shown as nat, |i: int| joined(strings_view(rows@[i]@), " | "@)),
                    r@.map_values(|s: String| s@) == seq![joined(strings_view(columns@), " | "@)]
                        + body.take(i as int),
                decreases shown - i,
            {
                let mut line: Vec<char> = Vec::new();
                push_joined(&mut line, &rows[i], " | ");
                let ghost before = r@;
                r.push(string_from_chars(line.as_slice()));
                proof {
                    assert(body.take(i + 1) =~= body.take(i as int).push(body[i as int]));
                    assert(r@.map_values(|s: String| s@) =~= before.map_values(|s: String| s@).push(
                        line@,
                    ));
                }
                i += 1;
            }
            proof {
                assert(body.take(shown as int) =~= body);
            }
            if *row_count > 5 {
                let mut note: Vec<char> = Vec::new();
                push_str(&mut note, "... ");
                push_decimal(&mut note, *row_count as u64);
                push_str(&mut note, " total rows (showing 5)");
                let ghost before = r@;
                r.push(string_from_chars(note.as_slice()));
                proof {
                    assert(r@.map_values(|s: String| s@) =~= before.map_values(|s: String| s@).push(
                        note@,
                    ));
                }
            }
            proof {
                assert(r@.map_values(|s: String| s@) =~= query_output_lines(*output));
            }
            r
        },
    }
}

} // verus!
