//! The response panel of the API tester: the status line, the headers, the
//! highlighted body, wrapping of the styled rows to the panel width, and
//! the keys that scroll the panel.

use vstd::prelude::*;
use crate::api_messages::{is_jump_to_end, is_plain_g, jump_to_end, plain_g, Key, KeyEvent, no_modifiers};
use crate::body_preview::{build, preview_lines_view, preview_of, BodyPreview, TokenKind, json_pretty};
use crate::collection::strings_view;
use crate::executor::{CurlResponse, ResponseView};
use crate::text::{decimal, lines, lines_exec, push_all, push_decimal, push_str, split_once, split_once_exec, string_chars, string_from_chars, to_chars, trim};

verus! {

// ---------------------------------------------------------------------------
// Status line
// ---------------------------------------------------------------------------

/// The reason phrase the `http` crate gives a status code, if it is a valid
/// code (100 to 999) with a registered reason.
pub uninterp spec fn http_reason(code: u16) -> Option<Seq<char>>;

/// Calls `http::StatusCode::from_u16` and then `canonical_reason`. The
/// result is named [`http_reason`] of the code; `from_u16` accepts only
/// codes from 100 to 999, so other codes have no reason.
#[verifier::external_body]
fn canonical_reason(code: u16) -> (r: Option<&'static str>)
    ensures
        match r {
            Some(s) => http_reason(code) == Some(s@),
            None => http_reason(code) is None,
        },
        code < 100 || code > 999 ==> r is None,
{
    match http::StatusCode::from_u16(code) {
        Ok(status) => status.canonical_reason(),
        Err(_) => None,
    }
}

/// The status line for a code and its reason phrase.
pub open spec fn status_line(code: u16, reason: Option<Seq<char>>) -> Seq<char> {
    "HTTP "@ + decimal(code as nat) + " "@ + match reason {
        Some(r) => r,
        None => "Unknown Status"@,
    }
}

/// The status line given the reason phrase found for the code.
pub fn status_text_with_reason(code: u16, reason: Option<&str>) -> (r: String)
    ensures
        r@ == status_line(
            code,
            match reason {
                Some(s) => Some(s@),
                None => None,
            },
        ),
{
    let mut out: Vec<char> = Vec::new();
    push_str(&mut out, "HTTP ");
    push_decimal(&mut out, code as u64);
    push_str(&mut out, " ");
    match reason {
        Some(s) => push_str(&mut out, s),
        None => push_str(&mut out, "Unknown Status"),
    }
    string_from_chars(out.as_slice())
}

/// The status line of a code, e.g. `HTTP 404 Not Found`; codes without a
/// known reason read `Unknown Status`.
pub fn status_text(code: u16) -> (r: String)
    ensures
        r@ == status_line(code, http_reason(code)),
{
    status_text_with_reason(code, canonical_reason(code))
}

/// The class of a status code, which decides its colour.
#[derive(Debug, Clone, Copy, PartialEq, Eq, Structural)]
pub enum StatusTone {
    /// 200 to 299.
    Success,
    /// 300 to 399.
    Redirect,
    /// 400 to 499.
    ClientError,
    /// 500 to 599.
    ServerError,
    /// Anything else.
    Other,
}

/// The class of a code.
pub open spec fn tone_of(code: u16) -> StatusTone {
    if 200 <= code <= 299 {
        StatusTone::Success
    } else if 300 <= code <= 399 {
        StatusTone::Redirect
    } else if 400 <= code <= 499 {
        StatusTone::ClientError
    } else if 500 <= code <= 599 {
        StatusTone::ServerError
    } else {
        StatusTone::Other
    }
}

/// The class of a status code.
pub fn status_tone(code: u16) -> (t: StatusTone)
    ensures
        t == tone_of(code),
{
    if 200 <= code && code <= 299 {
        StatusTone::Success
    } else if 300 <= code && code <= 399 {
        StatusTone::Redirect
    } else if 400 <= code && code <= 499 {
        StatusTone::ClientError
    } else if 500 <= code && code <= 599 {
        StatusTone::ServerError
    } else {
        StatusTone::Other
    }
}

// ---------------------------------------------------------------------------
// Styled rows
// ---------------------------------------------------------------------------

/// The colour role of a piece of text.
#[derive(Debug, Clone, Copy, PartialEq, Eq, Structural)]
pub enum ChunkColor {
    /// The status line, coloured by class.
    Status(StatusTone),
    /// Section headings and header names.
    Heading,
    /// Placeholders such as `(none)`.
    Muted,
    /// Header values and header lines without a name.
    Value,
    /// Error text.
    Error,
    /// A highlighted body token.
    Token(TokenKind),
}

/// A piece of a row with its colour.
#[derive(Debug, Clone, PartialEq, Eq)]
pub struct StyledChunk {
    /// The text.
    pub text: String,
    /// The colour role, or none for the default colour.
    pub color: Option<ChunkColor>,
}

/// A chunk's text and colour.
pub type ChunkView = (Seq<char>, Option<ChunkColor>);

/// The texts and colours of a row.
pub open spec fn row_view(r: Seq<StyledChunk>) -> Seq<ChunkView> {
    r.map_values(|c: StyledChunk| (c.text@, c.color))
}

/// The texts and colours of rows.
pub open spec fn rows_view(rs: Seq<Vec<StyledChunk>>) -> Seq<Seq<ChunkView>> {
    rs.map_values(|r: Vec<StyledChunk>| row_view(r@))
}

/// The colour of a body token: kinds drawn in the default colour have none.
pub open spec fn token_color(k: TokenKind) -> Option<ChunkColor> {
    match k {
        TokenKind::Whitespace | TokenKind::Plain => None,
        _ => Some(ChunkColor::Token(k)),
    }
}

/// The row of a header line: `  name:` and the value when it has a colon,
/// else the whole line indented.
pub open spec fn header_row(h: Seq<char>) -> Seq<ChunkView> {
    match split_once(h, ':') {
        Some((k, v)) => seq![("  "@ + k + ":"@, Some(ChunkColor::Heading)), (v, Some(ChunkColor::Value))],
        None => seq![("  "@ + h, Some(ChunkColor::Value))],
    }
}

/// The rows of a highlighted body line.
pub open spec fn body_line_row(toks: Seq<(Seq<char>, TokenKind)>) -> Seq<ChunkView> {
    toks.map_values(|t: (Seq<char>, TokenKind)| (t.0, token_color(t.1)))
}

/// The rows of a response: status, blank, `Headers`, the header rows (or
/// `  (none)`), blank, `Body`, the body rows (or `  (empty)`).
pub open spec fn response_rows(
    resp: ResponseView,
    reason: Option<Seq<char>>,
    body: Seq<Seq<(Seq<char>, TokenKind)>>,
) -> Seq<Seq<ChunkView>> {
    seq![
        seq![(status_line(resp.status_code, reason), Some(ChunkColor::Status(tone_of(resp.status_code))))],
        seq![(Seq::<char>::empty(), None::<ChunkColor>)],
        seq![("Headers"@, Some(ChunkColor::Heading))],
    ] + (if resp.headers.len() == 0 {
        seq![seq![("  (none)"@, Some(ChunkColor::Muted))]]
    } else {
        resp.headers.map_values(|h: Seq<char>| header_row(h))
    }) + seq![
        seq![(Seq::<char>::empty(), None::<ChunkColor>)],
        seq![("Body"@, Some(ChunkColor::Heading))],
    ] + (if body.len() == 0 {
        seq![seq![("  (empty)"@, Some(ChunkColor::Muted))]]
    } else {
        body.map_values(|l: Seq<(Seq<char>, TokenKind)>| body_line_row(l))
    })
}

fn chunk(text: String, color: Option<ChunkColor>) -> (c: StyledChunk)
    ensures
        c.text@ == text@,
        c.color == color,
{
    StyledChunk { text, color }
}

fn single_row(text: String, color: Option<ChunkColor>) -> (r: Vec<StyledChunk>)
    ensures
        row_view(r@) == seq![(text@, color)],
{
    let mut r: Vec<StyledChunk> = Vec::new();
    r.push(chunk(text, color));
    proof {
        assert(row_view(r@) =~= seq![(text@, color)]);
    }
    r
}

fn literal(s: &str) -> (r: String)
    ensures
        r@ == s@,
{
    String::from_str(s)
}

fn header_row_exec(h: &String) -> (r: Vec<StyledChunk>)
    ensures
        row_view(r@) == header_row(h@),
{
    let hc = string_chars(h);
    match split_once_exec(&hc, ':') {
        Some((k, v)) => {
            let mut name: Vec<char> = Vec::new();
            push_str(&mut name, "  ");
            push_all(&mut name, &k);
            push_str(&mut name, ":");
            let mut r: Vec<StyledChunk> = Vec::new();
            r.push(chunk(string_from_chars(name.as_slice()), Some(ChunkColor::Heading)));
            r.push(chunk(string_from_chars(v.as_slice()), Some(ChunkColor::Value)));
            proof {
                assert(row_view(r@) =~= header_row(h@));
            }
            r
        },
        None => {
            let mut t: Vec<char> = Vec::new();
            push_str(&mut t, "  ");
            push_all(&mut t, &hc);
            let r = single_row(string_from_chars(t.as_slice()), Some(ChunkColor::Value));
            proof {
                assert(row_view(r@) =~= header_row(h@));
            }
            r
        },
    }
}

fn body_line_row_exec(toks: &Vec<crate::body_preview::Token>) -> (r: Vec<StyledChunk>)
    ensures
        row_view(r@) == body_line_row(crate::body_preview::tokens_view(toks@)),
{
    let mut r: Vec<StyledChunk> = Vec::new();
    let mut i: usize = 0;
    while i < toks.len()
        invariant
            i <= toks.len(),
            row_view(r@) == body_line_row(crate::body_preview::tokens_view(toks@)).take(i as int),
        decreases toks.len() - i,
    {
        let color = match toks[i].kind {
            TokenKind::Whitespace | TokenKind::Plain => None,
            k => Some(ChunkColor::Token(k)),
        };
        let ghost before = r@;
        let c = chunk(toks[i].text.clone(), color);
        let ghost cv = (c.text@, c.color);
        r.push(c);
        proof {
            let tv = crate::body_preview::tokens_view(toks@);
            assert(cv == (tv[i as int].0, token_color(tv[i as int].1)));
            assert(row_view(r@) =~= row_view(before).push(cv));
            assert(body_line_row(tv).take(i + 1) =~= body_line_row(tv).take(i as int).push(cv));
        }
        i += 1;
    }
    proof {
        assert(body_line_row(crate::body_preview::tokens_view(toks@)).take(toks.len() as int)
            =~= body_line_row(crate::body_preview::tokens_view(toks@)));
    }
    r
}

/// The styled rows of a response, given the reason phrase of its code and
/// its body preview.
pub fn styled_rows_with(response: &CurlResponse, reason: Option<&str>, body: &BodyPreview) -> (r: Vec<
    Vec<StyledChunk>,
>)
    ensures
        rows_view(r@) == response_rows(
            response@,
            match reason {
                Some(s) => Some(s@),
                None => None,
            },
            preview_lines_view(body.lines@),
        ),
{
    let ghost rs = match reason {
        Some(s) => Some(s@),
        None => None,
    };
    let ghost want = response_rows(response@, rs, preview_lines_view(body.lines@));
    let ghost part_a = seq![
        seq![(status_line(response.status_code, rs), Some(ChunkColor::Status(tone_of(response.status_code))))],
        seq![(Seq::<char>::empty(), None::<ChunkColor>)],
        seq![("Headers"@, Some(ChunkColor::Heading))],
    ];
    let ghost part_b = if response@.headers.len() == 0 {
        seq![seq![("  (none)"@, Some(ChunkColor::Muted))]]
    } else {
        response@.headers.map_values(|h: Seq<char>| header_row(h))
    };
    let ghost part_c = seq![
        seq![(Seq::<char>::empty(), None::<ChunkColor>)],
        seq![("Body"@, Some(ChunkColor::Heading))],
    ];
    let ghost part_d = if preview_lines_view(body.lines@).len() == 0 {
        seq![seq![("  (empty)"@, Some(ChunkColor::Muted))]]
    } else {
        preview_lines_view(body.lines@).map_values(|l: Seq<(Seq<char>, TokenKind)>| body_line_row(l))
    };
    proof {
        assert(want == part_a + part_b + part_c + part_d);
    }
    let mut rows: Vec<Vec<StyledChunk>> = Vec::new();
    rows.push(single_row(status_text_with_reason(response.status_code, reason), Some(ChunkColor::Status(status_tone(response.status_code)))));
    rows.push(single_row(String::new(), None));
    rows.push(single_row(literal("Headers"), Some(ChunkColor::Heading)));
    let ghost head = rows_view(rows@);
    proof {
        assert(head =~= part_a);
    }
    if response.headers.len() == 0 {
        rows.push(single_row(literal("  (none)"), Some(ChunkColor::Muted)));
        proof {
            assert(rows_view(rows@) =~= part_a + part_b);
        }
    } else {
        let mut i: usize = 0;
        while i < response.headers.len()
            invariant
                i <= response.headers.len(),
                rows_view(rows@) == head + strings_view(response.headers@).take(i as int).map_values(
                    |h: Seq<char>| header_row(h),
                ),
            decreases response.headers.len() - i,
        {
            let ghost before = rows_view(rows@);
            let hr = header_row_exec(&response.headers[i]);
            let ghost hv = row_view(hr@);
            rows.push(hr);
            proof {
                assert(rows_view(rows@) =~= before.push(hv));
                assert(strings_view(response.headers@).take(i + 1).map_values(|h: Seq<char>| header_row(h))
                    =~= strings_view(response.headers@).take(i as int).map_values(|h: Seq<char>| header_row(h)).push(
                    header_row(response.headers@[i as int]@),
                ));
            }
            i += 1;
        }
        proof {
            assert(strings_view(response.headers@).take(response.headers.len() as int) =~= strings_view(
                response.headers@,
            ));
            assert(rows_view(rows@) =~= part_a + part_b);
        }
    }
    let ghost ab = rows_view(rows@);
    rows.push(single_row(String::new(), None));
    rows.push(single_row(literal("Body"), Some(ChunkColor::Heading)));
    let ghost mid = rows_view(rows@);
    proof {
        assert(mid =~= ab + part_c);
    }
    if body.lines.len() == 0 {
        rows.push(single_row(literal("  (empty)"), Some(ChunkColor::Muted)));
        proof {
            assert(rows_view(rows@) =~= mid + part_d);
            assert(part_a + part_b + part_c + part_d =~= mid + part_d);
        }
    } else {
        let mut i: usize = 0;
        while i < body.lines.len()
            invariant
                i <= body.lines.len(),
                rows_view(rows@) == mid + preview_lines_view(body.lines@).take(i as int).map_values(
                    |l: Seq<(Seq<char>, TokenKind)>| body_line_row(l),
                ),
            decreases body.lines.len() - i,
        {
            let ghost before = rows_view(rows@);
            let br = body_line_row_exec(&body.lines[i]);
            let ghost bv = row_view(br@);
            rows.push(br);
            proof {
                assert(rows_view(rows@) =~= before.push(bv));
                assert(preview_lines_view(body.lines@).take(i + 1).map_values(
                    |l: Seq<(Seq<char>, TokenKind)>| body_line_row(l),
                ) =~= preview_lines_view(body.lines@).take(i as int).map_values(
                    |l: Seq<(Seq<char>, TokenKind)>| body_line_row(l),
                ).push(body_line_row(crate::body_preview::tokens_view(body.lines@[i as int]@))));
            }
            i += 1;
        }
        proof {
            assert(preview_lines_view(body.lines@).take(body.lines.len() as int) =~= preview_lines_view(
                body.lines@,
            ));
            assert(rows_view(rows@) =~= mid + part_d);
            assert(part_a + part_b + part_c + part_d =~= mid + part_d);
        }
    }
    rows
}

/// The styled rows of a response: status line, headers and body preview.
pub fn build_styled_rows(response: &CurlResponse) -> (r: Vec<Vec<StyledChunk>>)
    ensures
        rows_view(r@) == response_rows(
            response@,
            http_reason(response.status_code),
            preview_of(response.body@, json_pretty(trim(response.body@))).0,
        ),
{
    let reason = canonical_reason(response.status_code);
    let body = build(response.body.as_str());
    styled_rows_with(response, reason, &body)
}

/// The rows of an execution error: the heading, a blank row, then the
/// error's lines (or `(empty)`).
pub open spec fn error_rows(error: Seq<char>) -> Seq<Seq<ChunkView>> {
    seq![seq![("Execution Error"@, Some(ChunkColor::Error))], seq![(Seq::<char>::empty(), None::<ChunkColor>)]]
        + if error.len() == 0 {
        seq![seq![("(empty)"@, Some(ChunkColor::Muted))]]
    } else {
        lines(error).map_values(|l: Seq<char>| seq![(l, Some(ChunkColor::Error))])
    }
}

/// The styled rows of an execution error.
pub fn build_error_styled_rows(error: &str) -> (r: Vec<Vec<StyledChunk>>)
    ensures
        rows_view(r@) == error_rows(error@),
{
    let mut rows: Vec<Vec<StyledChunk>> = Vec::new();
    rows.push(single_row(literal("Execution Error"), Some(ChunkColor::Error)));
    rows.push(single_row(String::new(), None));
    let ghost head = rows_view(rows@);
    let e = to_chars(error);
    if e.len() == 0 {
        rows.push(single_row(literal("(empty)"), Some(ChunkColor::Muted)));
        proof {
            assert(rows_view(rows@) =~= error_rows(error@));
        }
        return rows;
    }
    let ls = lines_exec(&e);
    let ghost want = lines(error@).map_values(|l: Seq<char>| seq![(l, Some(ChunkColor::Error))]);
    let mut i: usize = 0;
    while i < ls.len()
        invariant
            i <= ls.len(),
            ls@.len() == lines(error@).len(),
            forall|k: int| 0 <= k < ls@.len() ==> #[trigger] ls@[k]@ == lines(error@)[k],
            want == lines(error@).map_values(|l: Seq<char>| seq![(l, Some(ChunkColor::Error))]),
            rows_view(rows@) == head + want.take(i as int),
        decreases ls.len() - i,
    {
        let ghost before = rows_view(rows@);
        let row = single_row(string_from_chars(ls[i].as_slice()), Some(ChunkColor::Error));
        let ghost rv = row_view(row@);
        rows.push(row);
        proof {
            assert(rows_view(rows@) =~= before.push(rv));
            assert(want.take(i + 1) =~= want.take(i as int).push(want[i as int]));
        }
        i += 1;
    }
    proof {
        assert(want.take(ls.len() as int) =~= want);
        assert(rows_view(rows@) =~= error_rows(error@));
    }
    rows
}

// ---------------------------------------------------------------------------
// Wrapping
// ---------------------------------------------------------------------------

/// The characters of a row, each with the index of the chunk it is in.
pub open spec fn row_cells(row: Seq<ChunkView>) -> Seq<(char, int)>
    decreases row.len(),
{
    if row.len() == 0 {
        seq![]
    } else {
        row_cells(row.drop_last()) + row.last().0.map_values(|c: char| (c, (row.len() - 1) as int))
    }
}

/// One more character placed: a new row every `width` characters (or when
/// there is no row yet), else
/// appended to the last piece of the last row when it comes from the same
/// chunk, or as a new piece.
pub open spec fn place_next(w: Seq<Seq<(Seq<char>, int)>>, m: int, c: char, k: int, width: int) -> Seq<
    Seq<(Seq<char>, int)>,
> {
    if m % width == 0 || w.len() == 0 {
        w.push(seq![(seq![c], k)])
    } else {
        let row = w.last();
        let row2 = if row.len() > 0 && row.last().1 == k {
            row.update(row.len() - 1, (row.last().0.push(c), k))
        } else {
            row.push((seq![c], k))
        };
        w.update(w.len() - 1, row2)
    }
}

/// The rows of pieces (text, chunk index) made by placing the characters in
/// order into rows of `width` characters.
pub open spec fn place_cells(cs: Seq<(char, int)>, width: int) -> Seq<Seq<(Seq<char>, int)>>
    decreases cs.len(),
{
    if cs.len() == 0 {
        seq![]
    } else {
        place_next(
            place_cells(cs.drop_last(), width),
            cs.len() - 1,
            cs.last().0,
            cs.last().1,
            width,
        )
    }
}

/// A row wrapped to `width` characters: pieces keep their chunk's colour,
/// an empty row stays one empty row, and width zero does not wrap.
pub open spec fn wrapped(row: Seq<ChunkView>, width: int) -> Seq<Seq<ChunkView>> {
    if width <= 0 {
        seq![row]
    } else if row_cells(row).len() == 0 {
        seq![seq![(Seq::<char>::empty(), None::<ChunkColor>)]]
    } else {
        place_cells(row_cells(row), width).map_values(
            |r: Seq<(Seq<char>, int)>| r.map_values(|p: (Seq<char>, int)| (p.0, row[p.1].1)),
        )
    }
}

proof fn lemma_row_cells_take(row: Seq<ChunkView>, k: int)
    requires
        0 <= k < row.len(),
    ensures
        row_cells(row.take(k + 1)) == row_cells(row.take(k)) + row[k].0.map_values(|c: char| (c, k)),
{
    assert(row.take(k + 1).drop_last() =~= row.take(k));
    assert(row.take(k + 1).last() == row[k]);
}

fn all_chunks_empty(row: &Vec<StyledChunk>) -> (b: bool)
    ensures
        b == (row_cells(row_view(row@)).len() == 0),
{
    let ghost rv = row_view(row@);
    let mut k: usize = 0;
    proof {
        assert(rv.take(0) =~= Seq::<ChunkView>::empty());
    }
    while k < row.len()
        invariant
            k <= row.len(),
            rv == row_view(row@),
            row_cells(rv.take(k as int)).len() == 0,
        decreases row.len() - k,
    {
        proof {
            lemma_row_cells_take(rv, k as int);
        }
        if row[k].text.as_str().unicode_len() > 0 {
            proof {
                lemma_row_cells_prefix_len(rv, k + 1);
            }
            return false;
        }
        k += 1;
    }
    proof {
        assert(rv.take(row.len() as int) =~= rv);
    }
    true
}

proof fn lemma_mod_next(m: int, w: int)
    requires
        m >= 0,
        w > 0,
    ensures
        (m + 1) % w == if m % w + 1 == w { 0 } else { m % w + 1 },
{
    assert((m + 1) % w == if m % w + 1 == w { 0 } else { m % w + 1 }) by (nonlinear_arith)
        requires
            m >= 0,
            w > 0,
    {
        let q = m / w;
        let r = m % w;
        assert(m == q * w + r);
        assert(0 <= r < w);
        if r + 1 == w {
            assert(m + 1 == (q + 1) * w + 0);
        } else {
            assert(m + 1 == q * w + (r + 1));
        }
    }
}

proof fn lemma_row_cells_prefix_len(row: Seq<ChunkView>, k: int)
    requires
        0 <= k <= row.len(),
    ensures
        row_cells(row.take(k)).len() <= row_cells(row).len(),
    decreases row.len() - k,
{
    if k < row.len() {
        lemma_row_cells_take(row, k);
        lemma_row_cells_prefix_len(row, k + 1);
    } else {
        assert(row.take(k) =~= row);
    }
}

proof fn lemma_row_cells_idx(row: Seq<ChunkView>)
    ensures
        forall|i: int| 0 <= i < row_cells(row).len() ==> 0 <= (#[trigger] row_cells(row)[i]).1 < row.len(),
    decreases row.len(),
{
    if row.len() > 0 {
        lemma_row_cells_idx(row.drop_last());
        let a = row_cells(row.drop_last());
        let b = row.last().0.map_values(|c: char| (c, (row.len() - 1) as int));
        assert forall|i: int| 0 <= i < row_cells(row).len() implies 0 <= (#[trigger] row_cells(row)[i]).1 < row.len() by {
            if i < a.len() {
                assert(row_cells(row)[i] == a[i]);
            } else {
                assert(row_cells(row)[i] == b[i - a.len()]);
            }
        }
    }
}

proof fn lemma_place_idx(cs: Seq<(char, int)>, width: int, bound: int)
    requires
        width > 0,
        forall|i: int| 0 <= i < cs.len() ==> 0 <= (#[trigger] cs[i]).1 < bound,
    ensures
        forall|a: int, b: int|
            0 <= a < place_cells(cs, width).len() && 0 <= b < place_cells(cs, width)[a].len() ==> 0
                <= #[trigger] place_cells(cs, width)[a][b].1 < bound,
    decreases cs.len(),
{
    if cs.len() > 0 {
        let prev = cs.drop_last();
        assert forall|i: int| 0 <= i < prev.len() implies 0 <= (#[trigger] prev[i]).1 < bound by {
            assert(prev[i] == cs[i]);
        }
        lemma_place_idx(prev, width, bound);
        let w = place_cells(prev, width);
        let k = cs.last().1;
        assert(0 <= k < bound) by {
            assert(cs.last() == cs[cs.len() - 1]);
        }
        let r = place_cells(cs, width);
        assert forall|a: int, b: int| 0 <= a < r.len() && 0 <= b < r[a].len() implies 0 <= #[trigger] r[a][b].1 < bound by {
            if (cs.len() - 1) % width == 0 || w.len() == 0 {
                if a < w.len() {
                    assert(r[a] == w[a]);
                }
            } else {
                if a != w.len() - 1 {
                    assert(r[a] == w[a]);
                } else {
                    let row = w.last();
                    if row.len() > 0 && row.last().1 == k {
                        if b != row.len() - 1 {
                            assert(r[a][b] == row[b]);
                        }
                    } else {
                        if b < row.len() {
                            assert(r[a][b] == row[b]);
                        }
                    }
                }
            }
        }
    }
}

/// Pieces of rows: texts as character vectors with chunk indexes.
pub open spec fn pieces_view(w: Seq<Vec<(Vec<char>, usize)>>) -> Seq<Seq<(Seq<char>, int)>> {
    w.map_values(|r: Vec<(Vec<char>, usize)>| r@.map_values(|p: (Vec<char>, usize)| (p.0@, p.1 as int)))
}

proof fn lemma_place_cells_nonempty(cs: Seq<(char, int)>, width: int)
    requires
        width > 0,
        cs.len() > 0,
    ensures
        place_cells(cs, width).len() > 0,
    decreases cs.len(),
{
    if cs.len() > 1 {
        lemma_place_cells_nonempty(cs.drop_last(), width);
    } else {
        assert(cs.drop_last().len() == 0);
        assert(place_cells(cs.drop_last(), width) == Seq::<Seq<(Seq<char>, int)>>::empty());
    }
}

fn place_one(w: &mut Vec<Vec<(Vec<char>, usize)>>, new_row: bool, c: char, k: usize, Ghost(m): Ghost<int>, width: usize)
    requires
        width > 0,
        new_row == (m % (width as int) == 0 || old(w)@.len() == 0),
    ensures
        pieces_view(final(w)@) == place_next(pieces_view(old(w)@), m, c, k as int, width as int),
        final(w)@.len() > 0,
{
    let ghost before = pieces_view(w@);
    if new_row {
        let mut t: Vec<char> = Vec::new();
        t.push(c);
        let mut row: Vec<(Vec<char>, usize)> = Vec::new();
        row.push((t, k));
        let ghost rv = row@.map_values(|p: (Vec<char>, usize)| (p.0@, p.1 as int));
        proof {
            assert(rv =~= seq![(seq![c], k as int)]);
        }
        w.push(row);
        proof {
            assert(pieces_view(w@) =~= before.push(rv));
        }
    } else {
        let mut row = w.pop().unwrap();
        let ghost old_row = row@.map_values(|p: (Vec<char>, usize)| (p.0@, p.1 as int));
        proof {
            assert(old_row == before.last());
        }
        if row.len() > 0 && row[row.len() - 1].1 == k {
            let (mut t, kk) = row.pop().unwrap();
            t.push(c);
            row.push((t, kk));
        } else {
            let mut t: Vec<char> = Vec::new();
            t.push(c);
            row.push((t, k));
        }
        let ghost new_row = row@.map_values(|p: (Vec<char>, usize)| (p.0@, p.1 as int));
        proof {
            if old_row.len() > 0 && old_row.last().1 == k {
                assert(new_row =~= old_row.update(
                    old_row.len() - 1,
                    (old_row.last().0.push(c), k as int),
                ));
            } else {
                assert(new_row =~= old_row.push((seq![c], k as int)));
            }
        }
        w.push(row);
        proof {
            assert(pieces_view(w@) =~= before.update(before.len() - 1, new_row));
        }
    }
}

/// Wraps a styled row to `width` characters per row.
pub fn wrap_row(row: &Vec<StyledChunk>, width: usize) -> (r: Vec<Vec<StyledChunk>>)
    ensures
        rows_view(r@) == wrapped(row_view(row@), width as int),
{
    let ghost rv = row_view(row@);
    if width == 0 {
        let mut copy: Vec<StyledChunk> = Vec::new();
        let mut i: usize = 0;
        while i < row.len()
            invariant
                i <= row.len(),
                rv == row_view(row@),
                row_view(copy@) == rv.take(i as int),
            decreases row.len() - i,
        {
            let c = chunk(row[i].text.clone(), row[i].color);
            let ghost cv = (c.text@, c.color);
            let ghost before = copy@;
            copy.push(c);
            proof {
                assert(cv == rv[i as int]);
                assert(row_view(copy@) =~= row_view(before).push(cv));
                assert(rv.take(i + 1) =~= rv.take(i as int).push(rv[i as int]));
            }
            i += 1;
        }
        let mut out: Vec<Vec<StyledChunk>> = Vec::new();
        out.push(copy);
        proof {
            assert(rv.take(row.len() as int) =~= rv);
            assert(rows_view(out@) =~= seq![rv]);
        }
        return out;
    }
    let total_empty = all_chunks_empty(row);
    if total_empty {
        let mut out: Vec<Vec<StyledChunk>> = Vec::new();
        out.push(single_row(String::new(), None));
        proof {
            assert(rows_view(out@) =~= wrapped(rv, width as int));
        }
        return out;
    }
    let mut placed: Vec<Vec<(Vec<char>, usize)>> = Vec::new();
    let ghost mut m: int = 0;
    let mut col: usize = 0;
    let mut k: usize = 0;
    proof {
        assert(rv.take(0) =~= Seq::<ChunkView>::empty());
    }
    while k < row.len()
        invariant
            k <= row.len(),
            width > 0,
            rv == row_view(row@),
            m == row_cells(rv.take(k as int)).len(),
            col < width,
            col == m % (width as int),
            m > 0 ==> placed@.len() > 0,
            pieces_view(placed@) == place_cells(row_cells(rv.take(k as int)), width as int),
        decreases row.len() - k,
    {
        let text = string_chars(&row[k].text);
        let ghost prefix = row_cells(rv.take(k as int));
        proof {
            lemma_row_cells_take(rv, k as int);
            lemma_row_cells_prefix_len(rv, k + 1);
            assert(rv[k as int].0 == text@);
        }
        let mut j: usize = 0;
        while j < text.len()
            invariant
                j <= text.len(),
                width > 0,
                k < row.len(),
                m == prefix.len() + j,
                col < width,
                col == m % (width as int),
                m > 0 ==> placed@.len() > 0,
                pieces_view(placed@) == place_cells(
                    prefix + text@.take(j as int).map_values(|c: char| (c, k as int)),
                    width as int,
                ),
            decreases text.len() - j,
        {
            let ghost cs = prefix + text@.take(j as int).map_values(|c: char| (c, k as int));
            let ghost cs2 = prefix + text@.take(j + 1).map_values(|c: char| (c, k as int));
            proof {
                assert(cs2.drop_last() =~= cs);
                assert(cs2.last() == (text@[j as int], k as int));
                assert(cs2.len() - 1 == m);
            }
            let new_row = col == 0 || placed.len() == 0;
            place_one(&mut placed, new_row, text[j], k, Ghost(m), width);
            proof {
                lemma_mod_next(m, width as int);
                m = m + 1;
            }
            col = if col + 1 == width {
                0
            } else {
                col + 1
            };
            j += 1;
        }
        proof {
            assert(text@.take(text@.len() as int) =~= text@);
            assert(prefix + text@.map_values(|c: char| (c, k as int)) == row_cells(rv.take(k + 1)));
        }
        k += 1;
    }
    proof {
        assert(rv.take(row.len() as int) =~= rv);
        lemma_row_cells_idx(rv);
        lemma_place_idx(row_cells(rv), width as int, rv.len() as int);
    }
    let mut out: Vec<Vec<StyledChunk>> = Vec::new();
    let ghost pv = pieces_view(placed@);
    let mut i: usize = 0;
    while i < placed.len()
        invariant
            i <= placed.len(),
            rv == row_view(row@),
            pv == pieces_view(placed@),
            pv == place_cells(row_cells(rv), width as int),
            forall|a: int, b: int|
                0 <= a < pv.len() && 0 <= b < pv[a].len() ==> 0 <= #[trigger] pv[a][b].1 < rv.len(),
            rows_view(out@) == pv.take(i as int).map_values(
                |r: Seq<(Seq<char>, int)>| r.map_values(|p: (Seq<char>, int)| (p.0, rv[p.1].1)),
            ),
        decreases placed.len() - i,
    {
        let mut r: Vec<StyledChunk> = Vec::new();
        let mut b: usize = 0;
        while b < placed[i].len()
            invariant
                i < placed.len(),
                b <= placed@[i as int]@.len(),
                rv == row_view(row@),
                pv == pieces_view(placed@),
                forall|a: int, bb: int|
                    0 <= a < pv.len() && 0 <= bb < pv[a].len() ==> 0 <= #[trigger] pv[a][bb].1 < rv.len(),
                row_view(r@) == pv[i as int].take(b as int).map_values(|p: (Seq<char>, int)| (p.0, rv[p.1].1)),
            decreases placed@[i as int]@.len() - b,
        {
            let ki = placed[i][b].1;
            proof {
                assert(pv[i as int][b as int].1 == ki as int);
            }
            let c = chunk(string_from_chars(placed[i][b].0.as_slice()), row[ki].color);
            let ghost cv = (c.text@, c.color);
            let ghost before = r@;
            r.push(c);
            proof {
                assert(cv == (pv[i as int][b as int].0, rv[ki as int].1));
                assert(row_view(r@) =~= row_view(before).push(cv));
                assert(pv[i as int].take(b + 1).map_values(|p: (Seq<char>, int)| (p.0, rv[p.1].1)) =~= pv[i as int].take(b as int).map_values(|p: (Seq<char>, int)| (p.0, rv[p.1].1)).push(cv));
            }
            b += 1;
        }
        let ghost rview = row_view(r@);
        proof {
            assert(pv[i as int].take(placed@[i as int]@.len() as int) =~= pv[i as int]);
        }
        let ghost before_out = out@;
        out.push(r);
        proof {
            assert(rows_view(out@) =~= rows_view(before_out).push(rview));
            assert(rows_view(out@) =~= pv.take(i + 1).map_values(
                |r: Seq<(Seq<char>, int)>| r.map_values(|p: (Seq<char>, int)| (p.0, rv[p.1].1)),
            ));
        }
        i += 1;
    }
    proof {
        assert(pv.take(placed.len() as int) =~= pv);
    }
    out
}


// ---------------------------------------------------------------------------
// Wrapping laws
// ---------------------------------------------------------------------------

/// The text of a row of pieces.
pub open spec fn pieces_text(r: Seq<(Seq<char>, int)>) -> Seq<char>
    decreases r.len(),
{
    if r.len() == 0 {
        seq![]
    } else {
        pieces_text(r.drop_last()) + r.last().0
    }
}

/// The text of all rows of pieces, one after the other.
pub open spec fn placed_text(w: Seq<Seq<(Seq<char>, int)>>) -> Seq<char>
    decreases w.len(),
{
    if w.len() == 0 {
        seq![]
    } else {
        placed_text(w.drop_last()) + pieces_text(w.last())
    }
}

/// The text of a styled row.
pub open spec fn row_text(r: Seq<ChunkView>) -> Seq<char>
    decreases r.len(),
{
    if r.len() == 0 {
        seq![]
    } else {
        row_text(r.drop_last()) + r.last().0
    }
}

/// The text of styled rows, one after the other.
pub open spec fn rows_text(rs: Seq<Seq<ChunkView>>) -> Seq<char>
    decreases rs.len(),
{
    if rs.len() == 0 {
        seq![]
    } else {
        rows_text(rs.drop_last()) + row_text(rs.last())
    }
}

proof fn lemma_mod_step(m: int, w: int)
    requires
        m >= 1,
        w > 0,
        m % w != 0,
    ensures
        (m - 1) % w == m % w - 1,
{
    assert((m - 1) % w == m % w - 1) by (nonlinear_arith)
        requires
            m >= 1,
            w > 0,
            m % w != 0,
    {
        let q = m / w;
        let r = m % w;
        assert(m == q * w + r);
        assert(m - 1 == q * w + (r - 1));
        assert(0 <= r - 1 < w);
    }
}

proof fn lemma_pieces_text_push_char(row: Seq<(Seq<char>, int)>, c: char, k: int)
    ensures
        row.len() > 0 && row.last().1 == k ==> pieces_text(
            row.update(row.len() - 1, (row.last().0.push(c), k)),
        ) == pieces_text(row).push(c),
        pieces_text(row.push((seq![c], k))) == pieces_text(row).push(c),
{
    assert(row.push((seq![c], k)).drop_last() =~= row);
    if row.len() > 0 {
        let u = row.update(row.len() - 1, (row.last().0.push(c), k));
        assert(u.drop_last() =~= row.drop_last());
        assert(pieces_text(row.drop_last()) + row.last().0.push(c) =~= (pieces_text(row.drop_last())
            + row.last().0).push(c));
    }
}

/// What placing characters keeps: the rows' text is the characters in
/// order, the last row is partly filled by the number of characters modulo
/// the width, and no row holds more than the width.
proof fn lemma_place_cells(cs: Seq<(char, int)>, width: int)
    requires
        width > 0,
    ensures
        placed_text(place_cells(cs, width)) == cs.map_values(|p: (char, int)| p.0),
        cs.len() > 0 ==> place_cells(cs, width).len() > 0 && pieces_text(
            place_cells(cs, width).last(),
        ).len() == (cs.len() - 1) % width + 1,
        forall|a: int|
            0 <= a < place_cells(cs, width).len() ==> pieces_text(#[trigger] place_cells(cs, width)[a]).len()
                <= width,
    decreases cs.len(),
{
    if cs.len() == 0 {
        assert(cs.map_values(|p: (char, int)| p.0) =~= Seq::<char>::empty());
    } else {
        let prev = cs.drop_last();
        lemma_place_cells(prev, width);
        let w = place_cells(prev, width);
        let m = prev.len() as int;
        let c = cs.last().0;
        let k = cs.last().1;
        let r = place_cells(cs, width);
        assert(cs.map_values(|p: (char, int)| p.0) =~= prev.map_values(|p: (char, int)| p.0).push(c));
        if m % width == 0 || w.len() == 0 {
            let nr = seq![(seq![c], k)];
            assert(r == w.push(nr));
            assert(r.drop_last() =~= w);
            assert(pieces_text(nr) =~= seq![c]) by {
                assert(nr.drop_last() =~= Seq::<(Seq<char>, int)>::empty());
                assert(pieces_text(nr.drop_last()) == Seq::<char>::empty());
                assert(nr.last().0 == seq![c]);
                assert(Seq::<char>::empty() + seq![c] =~= seq![c]);
            }
            if m == 0 {
                assert(0int % width == 0) by (nonlinear_arith)
                    requires
                        width > 0,
                ;
            } else {
                lemma_place_cells_nonempty(prev, width);
            }
            assert(m % width == 0);
            assert forall|a: int| 0 <= a < r.len() implies pieces_text(#[trigger] r[a]).len() <= width by {
                if a < w.len() {
                    assert(r[a] == w[a]);
                }
            }
        } else {
            lemma_mod_step(m, width);
            let row = w.last();
            let row2 = if row.len() > 0 && row.last().1 == k {
                row.update(row.len() - 1, (row.last().0.push(c), k))
            } else {
                row.push((seq![c], k))
            };
            lemma_pieces_text_push_char(row, c, k);
            assert(pieces_text(row2) == pieces_text(row).push(c));
            assert(r == w.update(w.len() - 1, row2));
            assert(r.drop_last() =~= w.drop_last());
            assert(r.last() == row2);
            assert(placed_text(r) == placed_text(w.drop_last()) + pieces_text(row2));
            assert(placed_text(w) == placed_text(w.drop_last()) + pieces_text(row));
            assert(placed_text(r) =~= placed_text(w).push(c));
            assert forall|a: int| 0 <= a < r.len() implies pieces_text(#[trigger] r[a]).len() <= width by {
                if a < w.len() - 1 {
                    assert(r[a] == w[a]);
                }
            }
        }
    }
}

proof fn lemma_row_cells_chars(row: Seq<ChunkView>)
    ensures
        row_cells(row).map_values(|p: (char, int)| p.0) == row_text(row),
    decreases row.len(),
{
    if row.len() > 0 {
        lemma_row_cells_chars(row.drop_last());
        let a = row_cells(row.drop_last());
        let b = row.last().0.map_values(|c: char| (c, (row.len() - 1) as int));
        assert(b.map_values(|p: (char, int)| p.0) =~= row.last().0);
        assert((a + b).map_values(|p: (char, int)| p.0) =~= a.map_values(|p: (char, int)| p.0) + b.map_values(
            |p: (char, int)| p.0,
        ));
    }
}

proof fn lemma_recolor_text(r: Seq<(Seq<char>, int)>, colors: spec_fn(int) -> Option<ChunkColor>)
    ensures
        row_text(r.map_values(|p: (Seq<char>, int)| (p.0, colors(p.1)))) == pieces_text(r),
    decreases r.len(),
{
    if r.len() > 0 {
        lemma_recolor_text(r.drop_last(), colors);
        assert(r.map_values(|p: (Seq<char>, int)| (p.0, colors(p.1))).drop_last() =~= r.drop_last().map_values(
            |p: (Seq<char>, int)| (p.0, colors(p.1)),
        ));
    }
}

/// Pieces recoloured by their chunk index.
pub open spec fn recolor(r: Seq<(Seq<char>, int)>, colors: spec_fn(int) -> Option<ChunkColor>) -> Seq<ChunkView> {
    r.map_values(|p: (Seq<char>, int)| (p.0, colors(p.1)))
}

proof fn lemma_recolor_rows(
    w: Seq<Seq<(Seq<char>, int)>>,
    colors: spec_fn(int) -> Option<ChunkColor>,
)
    ensures
        rows_text(w.map_values(|r: Seq<(Seq<char>, int)>| recolor(r, colors))) == placed_text(w),
        forall|a: int|
            0 <= a < w.len() ==> row_text(#[trigger] recolor(w[a], colors)) == pieces_text(w[a]),
    decreases w.len(),
{
    assert forall|a: int| 0 <= a < w.len() implies row_text(#[trigger] recolor(w[a], colors))
        == pieces_text(w[a]) by {
        lemma_recolor_text(w[a], colors);
    }
    if w.len() > 0 {
        lemma_recolor_rows(w.drop_last(), colors);
        lemma_recolor_text(w.last(), colors);
        assert(w.map_values(|r: Seq<(Seq<char>, int)>| recolor(r, colors)).drop_last() =~= w.drop_last().map_values(
            |r: Seq<(Seq<char>, int)>| recolor(r, colors),
        ));
    }
}

/// Wrapping keeps the text and respects the width: the wrapped rows, read
/// one after the other, give the row's text, and none of them is wider
/// than `width` characters.
pub proof fn law_wrapping_keeps_text_within_width(row: Seq<ChunkView>, width: int)
    requires
        width > 0,
    ensures
        rows_text(wrapped(row, width)) == row_text(row),
        forall|a: int| 0 <= a < wrapped(row, width).len() ==> row_text(#[trigger] wrapped(row, width)[a]).len() <= width,
{
    lemma_row_cells_chars(row);
    if row_cells(row).len() == 0 {
        let e = seq![(Seq::<char>::empty(), None::<ChunkColor>)];
        assert(row_text(e) =~= Seq::<char>::empty()) by {
            assert(e.drop_last() =~= Seq::<ChunkView>::empty());
            assert(row_text(e.drop_last()) == Seq::<char>::empty());
            assert(e.last().0 == Seq::<char>::empty());
        }
        assert(seq![e].drop_last() =~= Seq::<Seq<ChunkView>>::empty());
        assert(rows_text(seq![e].drop_last()) == Seq::<char>::empty());
        assert(seq![e].last() == e);
        assert(rows_text(seq![e]) =~= Seq::<char>::empty());
        assert(row_text(row) =~= Seq::<char>::empty());
    } else {
        let cs = row_cells(row);
        lemma_place_cells(cs, width);
        let colors = |i: int| row[i].1;
        let pl = place_cells(cs, width);
        lemma_recolor_rows(pl, colors);
        assert forall|a: int| 0 <= a < pl.len() implies #[trigger] wrapped(row, width)[a] == recolor(pl[a], colors) by {
            assert(wrapped(row, width)[a] =~= recolor(pl[a], colors));
        }
        assert(wrapped(row, width) =~= pl.map_values(|r: Seq<(Seq<char>, int)>| recolor(r, colors)));
        assert forall|a: int| 0 <= a < wrapped(row, width).len() implies row_text(
            #[trigger] wrapped(row, width)[a],
        ).len() <= width by {
            assert(wrapped(row, width)[a] == recolor(pl[a], colors));
        }
    }
}


/// Every row wrapped, the results one after the other.
pub open spec fn wrapped_all(rows: Seq<Seq<ChunkView>>, width: int) -> Seq<Seq<ChunkView>>
    decreases rows.len(),
{
    if rows.len() == 0 {
        seq![]
    } else {
        wrapped_all(rows.drop_last(), width) + wrapped(rows.last(), width)
    }
}

/// Wraps every row to `width` characters.
pub fn wrap_styled_rows(rows: &Vec<Vec<StyledChunk>>, width: usize) -> (r: Vec<Vec<StyledChunk>>)
    ensures
        rows_view(r@) == wrapped_all(rows_view(rows@), width as int),
{
    let ghost rv = rows_view(rows@);
    let mut out: Vec<Vec<StyledChunk>> = Vec::new();
    let mut i: usize = 0;
    while i < rows.len()
        invariant
            i <= rows.len(),
            rv == rows_view(rows@),
            rows_view(out@) == wrapped_all(rv.take(i as int), width as int),
        decreases rows.len() - i,
    {
        let mut w = wrap_row(&rows[i], width);
        let ghost before = rows_view(out@);
        let ghost wv = rows_view(w@);
        out.append(&mut w);
        proof {
            assert(rows_view(out@) =~= before + wv);
            assert(rv.take(i + 1).drop_last() =~= rv.take(i as int));
            assert(rv.take(i + 1).last() == row_view(rows@[i as int]@));
        }
        i += 1;
    }
    proof {
        assert(rv.take(rows.len() as int) =~= rv);
    }
    out
}

/// The text of a styled row.
pub fn row_text_string(row: &Vec<StyledChunk>) -> (r: String)
    ensures
        r@ == row_text(row_view(row@)),
{
    let ghost rv = row_view(row@);
    let mut out: Vec<char> = Vec::new();
    let mut i: usize = 0;
    while i < row.len()
        invariant
            i <= row.len(),
            rv == row_view(row@),
            out@ == row_text(rv.take(i as int)),
        decreases row.len() - i,
    {
        let t = string_chars(&row[i].text);
        push_all(&mut out, &t);
        proof {
            assert(rv.take(i + 1).drop_last() =~= rv.take(i as int));
            assert(rv.take(i + 1).last().0 == t@);
        }
        i += 1;
    }
    proof {
        assert(rv.take(row.len() as int) =~= rv);
    }
    string_from_chars(out.as_slice())
}

/// The text of each row.
pub open spec fn texts_of(rows: Seq<Seq<ChunkView>>) -> Seq<Seq<char>> {
    rows.map_values(|r: Seq<ChunkView>| row_text(r))
}

/// The text lines of a response wrapped to `wrap_width` characters (at
/// least one).
pub fn build_wrapped_text_lines(response: &CurlResponse, wrap_width: usize) -> (r: Vec<String>)
    ensures
        strings_view(r@) == texts_of(
            wrapped_all(
                response_rows(
                    response@,
                    http_reason(response.status_code),
                    preview_of(response.body@, json_pretty(trim(response.body@))).0,
                ),
                if wrap_width == 0 { 1 } else { wrap_width as int },
            ),
        ),
{
    let rows = build_styled_rows(response);
    let width = if wrap_width == 0 {
        1
    } else {
        wrap_width
    };
    let wrapped_rows = wrap_styled_rows(&rows, width);
    let mut out: Vec<String> = Vec::new();
    let mut i: usize = 0;
    while i < wrapped_rows.len()
        invariant
            i <= wrapped_rows.len(),
            strings_view(out@) == texts_of(rows_view(wrapped_rows@)).take(i as int),
        decreases wrapped_rows.len() - i,
    {
        let t = row_text_string(&wrapped_rows[i]);
        let ghost before = out@;
        let ghost tv = t@;
        out.push(t);
        proof {
            assert(tv == texts_of(rows_view(wrapped_rows@))[i as int]);
            assert(strings_view(out@) =~= strings_view(before).push(tv));
            assert(texts_of(rows_view(wrapped_rows@)).take(i + 1) =~= texts_of(rows_view(wrapped_rows@)).take(i as int).push(tv));
        }
        i += 1;
    }
    proof {
        assert(texts_of(rows_view(wrapped_rows@)).take(wrapped_rows.len() as int) =~= texts_of(
            rows_view(wrapped_rows@),
        ));
    }
    out
}

/// The text lines of a response, unwrapped.
pub fn build_text_lines(response: &CurlResponse) -> (r: Vec<String>)
    ensures
        strings_view(r@) == texts_of(
            wrapped_all(
                response_rows(
                    response@,
                    http_reason(response.status_code),
                    preview_of(response.body@, json_pretty(trim(response.body@))).0,
                ),
                usize::MAX as int,
            ),
        ),
{
    build_wrapped_text_lines(response, usize::MAX)
}

// ---------------------------------------------------------------------------
// Scrolling keys
// ---------------------------------------------------------------------------

/// Rows moved by Page Up and Page Down.
pub const PAGE_SCROLL_STEP: usize = 8;

/// A scrolling command for the response panel's list.
#[derive(Debug, Clone, Copy, PartialEq, Eq, Structural)]
pub enum ScrollCommand {
    /// Move the cursor down by this many rows.
    Down(usize),
    /// Move the cursor up by this many rows.
    Up(usize),
    /// Go to the first row.
    Begin,
    /// Go to the last row.
    End,
}

/// What a key does in the response panel: the command, and whether a `g`
/// is left pending.
pub open spec fn details_key(pending: bool, k: KeyEvent) -> (Option<ScrollCommand>, bool) {
    if pending && plain_g(k) {
        (Some(ScrollCommand::Begin), false)
    } else if plain_g(k) {
        (None, true)
    } else if jump_to_end(k) {
        (Some(ScrollCommand::End), false)
    } else if (k.code == Key::Char('j') && no_modifiers(k.modifiers)) || k.code == Key::Down {
        (Some(ScrollCommand::Down(1)), false)
    } else if (k.code == Key::Char('k') && no_modifiers(k.modifiers)) || k.code == Key::Up {
        (Some(ScrollCommand::Up(1)), false)
    } else if k.code == Key::PageDown {
        (Some(ScrollCommand::Down(PAGE_SCROLL_STEP)), false)
    } else if k.code == Key::PageUp {
        (Some(ScrollCommand::Up(PAGE_SCROLL_STEP)), false)
    } else if k.code == Key::Home {
        (Some(ScrollCommand::Begin), false)
    } else if k.code == Key::End {
        (Some(ScrollCommand::End), false)
    } else {
        (None, false)
    }
}

/// The response panel's key handling state.
#[derive(Debug, Clone, Copy, PartialEq, Eq, Structural)]
pub struct DetailsKeys {
    /// A first `g` of `gg` was pressed.
    pub pending_g: bool,
}

impl DetailsKeys {
    /// Nothing pending.
    pub fn new() -> (d: DetailsKeys)
        ensures
            !d.pending_g,
    {
        DetailsKeys { pending_g: false }
    }

    /// The scrolling command of a key; `gg` goes to the first row and `G`
    /// to the last.
    pub fn on_key(&mut self, key: KeyEvent) -> (r: Option<ScrollCommand>)
        ensures
            (r, final(self).pending_g) == details_key(old(self).pending_g, key),
    {
        let was_pending = self.pending_g;
        self.pending_g = false;
        if was_pending && is_plain_g(&key) {
            return Some(ScrollCommand::Begin);
        }
        if is_plain_g(&key) {
            self.pending_g = true;
            return None;
        }
        if is_jump_to_end(&key) {
            return Some(ScrollCommand::End);
        }
        let none = !key.modifiers.shift && !key.modifiers.control && !key.modifiers.alt;
        if (key.code == Key::Char('j') && none) || key.code == Key::Down {
            Some(ScrollCommand::Down(1))
        } else if (key.code == Key::Char('k') && none) || key.code == Key::Up {
            Some(ScrollCommand::Up(1))
        } else if key.code == Key::PageDown {
            Some(ScrollCommand::Down(PAGE_SCROLL_STEP))
        } else if key.code == Key::PageUp {
            Some(ScrollCommand::Up(PAGE_SCROLL_STEP))
        } else if key.code == Key::Home {
            Some(ScrollCommand::Begin)
        } else if key.code == Key::End {
            Some(ScrollCommand::End)
        } else {
            None
        }
    }
}


} // verus!
