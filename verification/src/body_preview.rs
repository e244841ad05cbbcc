//! Preview of a request or response body: JSON is pretty-printed and split
//! into highlighted tokens, anything else is shown line by line.

use vstd::prelude::*;
use crate::text::{
    char_is_whitespace, is_whitespace, lines, lines_exec, string_from_chars, to_chars, trim,
    trim_chars,
};

verus! {

/// How a body preview was made.
#[derive(Debug, Clone, Copy, PartialEq, Eq, Structural)]
pub enum BodyPreviewFormat {
    /// Pretty-printed JSON.
    Json,
    /// Plain text.
    Text,
}

/// What a token of a JSON line is, which decides its colour.
#[derive(Debug, Clone, Copy, PartialEq, Eq, Structural)]
pub enum TokenKind {
    /// A run of whitespace.
    Whitespace,
    /// A string followed by `:`.
    Key,
    /// Any other string.
    Str,
    /// A number.
    Number,
    /// `true` or `false`.
    Boolean,
    /// `null`.
    Null,
    /// One of `{ } [ ] : ,`.
    Punctuation,
    /// Anything else.
    Plain,
}

/// A piece of a previewed line.
#[derive(Debug, Clone, PartialEq, Eq)]
pub struct Token {
    /// The piece's text.
    pub text: String,
    /// Its kind.
    pub kind: TokenKind,
}

/// A body preview: its lines, each split into tokens.
#[derive(Debug, Clone)]
pub struct BodyPreview {
    /// Lines of the preview.
    pub lines: Vec<Vec<Token>>,
    /// How the preview was made.
    pub format: BodyPreviewFormat,
}

// ---------------------------------------------------------------------------
// Tokens of a line
// ---------------------------------------------------------------------------

/// JSON punctuation.
pub open spec fn is_punct(c: char) -> bool {
    c == '{' || c == '}' || c == '[' || c == ']' || c == ':' || c == ','
}

/// An ASCII digit.
pub open spec fn is_ascii_digit(c: char) -> bool {
    '0' <= c && c <= '9'
}

/// A character that may continue a number.
pub open spec fn is_number_char(c: char) -> bool {
    is_ascii_digit(c) || c == '.' || c == 'e' || c == 'E' || c == '+' || c == '-'
}

/// End of the run of whitespace starting at `i`.
pub open spec fn ws_end(s: Seq<char>, i: int) -> int
    decreases s.len() - i,
{
    if 0 <= i < s.len() && is_whitespace(s[i]) {
        ws_end(s, i + 1)
    } else {
        i
    }
}

/// End of the run of number characters starting at `i`.
pub open spec fn number_end(s: Seq<char>, i: int) -> int
    decreases s.len() - i,
{
    if 0 <= i < s.len() && is_number_char(s[i]) {
        number_end(s, i + 1)
    } else {
        i
    }
}

/// End of the run of characters that are neither whitespace nor
/// punctuation, starting at `i`.
pub open spec fn plain_end(s: Seq<char>, i: int) -> int
    decreases s.len() - i,
{
    if 0 <= i < s.len() && !is_whitespace(s[i]) && !is_punct(s[i]) {
        plain_end(s, i + 1)
    } else {
        i
    }
}

/// End of a string whose body is read from `i`: just after the first
/// unescaped quote, or the end of the line.
pub open spec fn string_end(s: Seq<char>, i: int, escaped: bool) -> int
    decreases s.len() - i,
{
    if i < 0 || i >= s.len() {
        if i < 0 {
            0
        } else {
            s.len() as int
        }
    } else if escaped {
        string_end(s, i + 1, false)
    } else if s[i] == '\\' {
        string_end(s, i + 1, true)
    } else if s[i] == '"' {
        i + 1
    } else {
        string_end(s, i + 1, false)
    }
}

/// `lit` occurs in `s` at `i`.
pub open spec fn literal_at(s: Seq<char>, i: int, lit: Seq<char>) -> bool {
    0 <= i && i + lit.len() <= s.len() && s.subrange(i, i + lit.len()) == lit
}

/// The end and kind of the token starting at `i` (for `i` inside `s`).
pub open spec fn token_at(s: Seq<char>, i: int) -> (int, TokenKind) {
    let c = s[i];
    if is_whitespace(c) {
        (ws_end(s, i), TokenKind::Whitespace)
    } else if c == '"' {
        let e = string_end(s, i + 1, false);
        let after = ws_end(s, e);
        (e, if after < s.len() && s[after] == ':' { TokenKind::Key } else { TokenKind::Str })
    } else if c == '-' || is_ascii_digit(c) {
        (number_end(s, i + 1), TokenKind::Number)
    } else if c == 't' && literal_at(s, i, "true"@) {
        (i + 4, TokenKind::Boolean)
    } else if c == 'f' && literal_at(s, i, "false"@) {
        (i + 5, TokenKind::Boolean)
    } else if c == 'n' && literal_at(s, i, "null"@) {
        (i + 4, TokenKind::Null)
    } else if is_punct(c) {
        (i + 1, TokenKind::Punctuation)
    } else {
        (plain_end(s, i), TokenKind::Plain)
    }
}

proof fn lemma_ws_end(s: Seq<char>, i: int)
    requires
        0 <= i <= s.len(),
    ensures
        i <= ws_end(s, i) <= s.len(),
        forall|k: int| i <= k < ws_end(s, i) ==> is_whitespace(#[trigger] s[k]),
        ws_end(s, i) < s.len() ==> !is_whitespace(s[ws_end(s, i)]),
    decreases s.len() - i,
{
    if i < s.len() && is_whitespace(s[i]) {
        lemma_ws_end(s, i + 1);
    }
}

proof fn lemma_number_end(s: Seq<char>, i: int)
    requires
        0 <= i <= s.len(),
    ensures
        i <= number_end(s, i) <= s.len(),
    decreases s.len() - i,
{
    if i < s.len() && is_number_char(s[i]) {
        lemma_number_end(s, i + 1);
    }
}

proof fn lemma_plain_end(s: Seq<char>, i: int)
    requires
        0 <= i <= s.len(),
    ensures
        i <= plain_end(s, i) <= s.len(),
    decreases s.len() - i,
{
    if i < s.len() && !is_whitespace(s[i]) && !is_punct(s[i]) {
        lemma_plain_end(s, i + 1);
    }
}

proof fn lemma_string_end(s: Seq<char>, i: int, escaped: bool)
    requires
        0 <= i <= s.len(),
    ensures
        i <= string_end(s, i, escaped) <= s.len(),
    decreases s.len() - i,
{
    if i < s.len() {
        if escaped || s[i] == '\\' || s[i] != '"' {
            lemma_string_end(s, i + 1, !escaped && s[i] == '\\');
        }
    }
}

/// A token always covers at least one character and stays inside the line.
pub proof fn lemma_token_at(s: Seq<char>, i: int)
    requires
        0 <= i < s.len(),
    ensures
        i < token_at(s, i).0 <= s.len(),
{
    let c = s[i];
    reveal_strlit("true");
    reveal_strlit("false");
    reveal_strlit("null");
    lemma_ws_end(s, i);
    lemma_string_end(s, i + 1, false);
    lemma_number_end(s, i + 1);
    lemma_plain_end(s, i);
    if !is_whitespace(c) && c != '"' && !(c == '-' || is_ascii_digit(c)) && !(c == 't'
        && literal_at(s, i, "true"@)) && !(c == 'f' && literal_at(s, i, "false"@)) && !(c == 'n'
        && literal_at(s, i, "null"@)) && !is_punct(c) {
        assert(plain_end(s, i) == plain_end(s, i + 1));
        lemma_plain_end(s, i + 1);
    }
}

/// The tokens of `s` from position `i` on, each as (start, end, kind).
pub open spec fn tokens_from(s: Seq<char>, i: int) -> Seq<(int, int, TokenKind)>
    decreases s.len() - i,
{
    if i < 0 || i >= s.len() {
        seq![]
    } else {
        let (e, k) = token_at(s, i);
        proof {
            lemma_token_at(s, i);
        }
        seq![(i, e, k)] + tokens_from(s, e)
    }
}

/// The tokens of a line, as texts with their kinds.
pub open spec fn line_tokens(s: Seq<char>) -> Seq<(Seq<char>, TokenKind)> {
    tokens_from(s, 0).map_values(|t: (int, int, TokenKind)| (s.subrange(t.0, t.1), t.2))
}

/// The texts and kinds of a list of tokens.
pub open spec fn tokens_view(v: Seq<Token>) -> Seq<(Seq<char>, TokenKind)> {
    v.map_values(|t: Token| (t.text@, t.kind))
}

/// The texts of a list of tokens, concatenated.
pub open spec fn joined_text(ts: Seq<(Seq<char>, TokenKind)>) -> Seq<char>
    decreases ts.len(),
{
    if ts.len() == 0 {
        seq![]
    } else {
        joined_text(ts.drop_last()) + ts.last().0
    }
}

fn ws_end_exec(s: &Vec<char>, i: usize) -> (e: usize)
    requires
        i <= s.len(),
    ensures
        e == ws_end(s@, i as int),
{
    let mut j = i;
    while j < s.len() && char_is_whitespace(s[j])
        invariant
            i <= j <= s.len(),
            ws_end(s@, i as int) == ws_end(s@, j as int),
        decreases s.len() - j,
    {
        j += 1;
    }
    j
}

fn number_end_exec(s: &Vec<char>, i: usize) -> (e: usize)
    requires
        i <= s.len(),
    ensures
        e == number_end(s@, i as int),
{
    let mut j = i;
    while j < s.len() && (('0' <= s[j] && s[j] <= '9') || s[j] == '.' || s[j] == 'e' || s[j] == 'E'
        || s[j] == '+' || s[j] == '-')
        invariant
            i <= j <= s.len(),
            number_end(s@, i as int) == number_end(s@, j as int),
        decreases s.len() - j,
    {
        j += 1;
    }
    j
}

fn punct_exec(c: char) -> (b: bool)
    ensures
        b == is_punct(c),
{
    c == '{' || c == '}' || c == '[' || c == ']' || c == ':' || c == ','
}

fn plain_end_exec(s: &Vec<char>, i: usize) -> (e: usize)
    requires
        i <= s.len(),
    ensures
        e == plain_end(s@, i as int),
{
    let mut j = i;
    while j < s.len() && !char_is_whitespace(s[j]) && !punct_exec(s[j])
        invariant
            i <= j <= s.len(),
            plain_end(s@, i as int) == plain_end(s@, j as int),
        decreases s.len() - j,
    {
        j += 1;
    }
    j
}

fn string_end_exec(s: &Vec<char>, i: usize) -> (e: usize)
    requires
        i <= s.len(),
    ensures
        e == string_end(s@, i as int, false),
{
    let mut j = i;
    let mut escaped = false;
    while j < s.len()
        invariant
            i <= j <= s.len(),
            string_end(s@, i as int, false) == string_end(s@, j as int, escaped),
        decreases s.len() - j,
    {
        if escaped {
            escaped = false;
        } else if s[j] == '\\' {
            escaped = true;
        } else if s[j] == '"' {
            return j + 1;
        }
        j += 1;
    }
    j
}

fn literal_at_exec(s: &Vec<char>, i: usize, lit: &str) -> (b: bool)
    requires
        i <= s.len(),
    ensures
        b == literal_at(s@, i as int, lit@),
{
    let l = to_chars(lit);
    crate::text::matches_at_exec(s, &l, i)
}

fn token_at_exec(s: &Vec<char>, i: usize) -> (r: (usize, TokenKind))
    requires
        i < s.len(),
    ensures
        (r.0 as int, r.1) == token_at(s@, i as int),
{
    proof {
        reveal_strlit("true");
        reveal_strlit("false");
        reveal_strlit("null");
        lemma_string_end(s@, i + 1, false);
    }
    let c = s[i];
    if char_is_whitespace(c) {
        (ws_end_exec(s, i), TokenKind::Whitespace)
    } else if c == '"' {
        let e = string_end_exec(s, i + 1);
        let after = ws_end_exec(s, e);
        let kind = if after < s.len() && s[after] == ':' {
            TokenKind::Key
        } else {
            TokenKind::Str
        };
        (e, kind)
    } else if c == '-' || ('0' <= c && c <= '9') {
        (number_end_exec(s, i + 1), TokenKind::Number)
    } else if c == 't' && literal_at_exec(s, i, "true") {
        (i + 4, TokenKind::Boolean)
    } else if c == 'f' && literal_at_exec(s, i, "false") {
        (i + 5, TokenKind::Boolean)
    } else if c == 'n' && literal_at_exec(s, i, "null") {
        (i + 4, TokenKind::Null)
    } else if punct_exec(c) {
        (i + 1, TokenKind::Punctuation)
    } else {
        (plain_end_exec(s, i), TokenKind::Plain)
    }
}

/// Splits one line of pretty-printed JSON into highlighted tokens.
pub fn highlight_json_line(line: &Vec<char>) -> (r: Vec<Token>)
    ensures
        tokens_view(r@) == line_tokens(line@),
{
    let ghost s = line@;
    let mut out: Vec<Token> = Vec::new();
    let mut i: usize = 0;
    proof {
        assert(tokens_from(s, 0) =~= tokens_from(s, 0));
    }
    while i < line.len()
        invariant
            i <= line.len(),
            s == line@,
            tokens_view(out@) + tokens_from(s, i as int).map_values(
                |t: (int, int, TokenKind)| (s.subrange(t.0, t.1), t.2),
            ) == line_tokens(s),
        decreases line.len() - i,
    {
        let (e, kind) = token_at_exec(line, i);
        proof {
            lemma_token_at(s, i as int);
        }
        let text = crate::text::slice_chars(line, i, e);
        let ghost before = out@;
        out.push(Token { text: string_from_chars(text.as_slice()), kind });
        proof {
            let f = |t: (int, int, TokenKind)| (s.subrange(t.0, t.1), t.2);
            let rest = tokens_from(s, i as int);
            assert(rest == seq![(i as int, e as int, kind)] + tokens_from(s, e as int));
            assert(rest.map_values(f) =~= seq![(s.subrange(i as int, e as int), kind)]
                + tokens_from(s, e as int).map_values(f));
            assert(tokens_view(out@) =~= tokens_view(before).push((text@, kind)));
            assert(tokens_view(out@) + tokens_from(s, e as int).map_values(f) =~= tokens_view(before)
                + rest.map_values(f));
        }
        i = e;
    }
    proof {
        assert(tokens_from(s, i as int) =~= Seq::<(int, int, TokenKind)>::empty());
        assert(tokens_view(out@) =~= line_tokens(s));
    }
    out
}

proof fn lemma_tokens_cover(s: Seq<char>, i: int)
    requires
        0 <= i <= s.len(),
    ensures
        joined_text(
            tokens_from(s, i).map_values(|t: (int, int, TokenKind)| (s.subrange(t.0, t.1), t.2)),
        ) == s.subrange(i, s.len() as int),
    decreases s.len() - i,
{
    let f = |t: (int, int, TokenKind)| (s.subrange(t.0, t.1), t.2);
    if i == s.len() {
        assert(tokens_from(s, i).map_values(f) =~= Seq::<(Seq<char>, TokenKind)>::empty());
        assert(s.subrange(i, s.len() as int) =~= Seq::<char>::empty());
    } else {
        lemma_token_at(s, i);
        let (e, k) = token_at(s, i);
        lemma_tokens_cover(s, e);
        let rest = tokens_from(s, e).map_values(f);
        let all = tokens_from(s, i).map_values(f);
        assert(all =~= seq![(s.subrange(i, e), k)] + rest);
        lemma_joined_text_prepend(s.subrange(i, e), k, rest);
        assert(s.subrange(i, e) + s.subrange(e, s.len() as int) =~= s.subrange(i, s.len() as int));
    }
}

proof fn lemma_joined_text_prepend(t: Seq<char>, k: TokenKind, rest: Seq<(Seq<char>, TokenKind)>)
    ensures
        joined_text(seq![(t, k)] + rest) == t + joined_text(rest),
    decreases rest.len(),
{
    let x = seq![(t, k)] + rest;
    if rest.len() == 0 {
        assert(x.len() == 1);
        assert(x.drop_last() =~= Seq::<(Seq<char>, TokenKind)>::empty());
        assert(x.last() == (t, k));
        assert(joined_text(x.drop_last()) == Seq::<char>::empty());
        assert(joined_text(x) == joined_text(x.drop_last()) + x.last().0);
        assert(Seq::<char>::empty() + t =~= t);
        assert(t + Seq::<char>::empty() =~= t);
    } else {
        lemma_joined_text_prepend(t, k, rest.drop_last());
        assert(x.drop_last() =~= seq![(t, k)] + rest.drop_last());
        assert(x.last() == rest.last());
        assert(t + joined_text(rest.drop_last()) + rest.last().0 =~= t + (joined_text(
            rest.drop_last(),
        ) + rest.last().0));
    }
}

/// Highlighting loses nothing: the token texts of a line, put together,
/// give the line back.
pub proof fn law_tokens_rebuild_line(line: Seq<char>)
    ensures
        joined_text(line_tokens(line)) == line,
{
    lemma_tokens_cover(line, 0);
    assert(line.subrange(0, line.len() as int) =~= line);
}

// ---------------------------------------------------------------------------
// Whole bodies
// ---------------------------------------------------------------------------

/// The pretty-printed form of a JSON text, or `None` when it does not
/// parse (`serde_json::from_str` into a `Value`, then
/// `serde_json::to_string_pretty`).
pub uninterp spec fn json_pretty(text: Seq<char>) -> Option<Seq<char>>;

/// Parses `text` as JSON with serde_json and pretty-prints it with
/// `serde_json::to_string_pretty`; `None` when either step fails. The
/// result is named [`json_pretty`] of the text.
#[verifier::external_body]
fn pretty_print_json(text: &str) -> (r: Option<String>)
    ensures
        match r {
            Some(p) => json_pretty(text@) == Some(p@),
            None => json_pretty(text@) is None,
        },
{
    match serde_json::from_str::<serde_json::Value>(text) {
        Ok(value) => serde_json::to_string_pretty(&value).ok(),
        Err(_) => None,
    }
}

/// The lines of a preview, each as its tokens.
pub open spec fn preview_lines_view(v: Seq<Vec<Token>>) -> Seq<Seq<(Seq<char>, TokenKind)>> {
    v.map_values(|l: Vec<Token>| tokens_view(l@))
}

/// Highlighted lines of a JSON text.
pub open spec fn json_preview(pretty: Seq<char>) -> Seq<Seq<(Seq<char>, TokenKind)>> {
    lines(pretty).map_values(|l: Seq<char>| line_tokens(l))
}

/// Plain lines of a text: each line one plain token.
pub open spec fn text_preview(body: Seq<char>) -> Seq<Seq<(Seq<char>, TokenKind)>> {
    lines(body).map_values(|l: Seq<char>| seq![(l, TokenKind::Plain)])
}

/// The preview of a body given what pretty-printing its trimmed text gave:
/// nothing for a blank body, highlighted JSON when it parsed, else the
/// body's plain lines.
pub open spec fn preview_of(body: Seq<char>, pretty: Option<Seq<char>>) -> (
    Seq<Seq<(Seq<char>, TokenKind)>>,
    BodyPreviewFormat,
) {
    if trim(body).len() == 0 {
        (seq![], BodyPreviewFormat::Text)
    } else {
        match pretty {
            Some(p) => (json_preview(p), BodyPreviewFormat::Json),
            None => (text_preview(body), BodyPreviewFormat::Text),
        }
    }
}

/// Builds the preview of a body from the pretty-printed form of its trimmed
/// text (`None` when it is not JSON).
pub fn preview_from_pretty(body: &str, pretty: Option<String>) -> (r: BodyPreview)
    ensures
        (preview_lines_view(r.lines@), r.format) == preview_of(
            body@,
            match pretty {
                Some(p) => Some(p@),
                None => None,
            },
        ),
{
    let b = to_chars(body);
    let t = trim_chars(&b);
    if t.len() == 0 {
        let r = BodyPreview { lines: Vec::new(), format: BodyPreviewFormat::Text };
        proof {
            assert(preview_lines_view(r.lines@) =~= Seq::<Seq<(Seq<char>, TokenKind)>>::empty());
        }
        return r;
    }
    match pretty {
        Some(p) => {
            let pc = crate::text::string_chars(&p);
            let ls = lines_exec(&pc);
            let mut out: Vec<Vec<Token>> = Vec::new();
            let mut i: usize = 0;
            while i < ls.len()
                invariant
                    i <= ls.len(),
                    ls@.len() == lines(p@).len(),
                    forall|k: int| 0 <= k < ls@.len() ==> #[trigger] ls@[k]@ == lines(p@)[k],
                    preview_lines_view(out@) == json_preview(p@).take(i as int),
                decreases ls.len() - i,
            {
                let toks = highlight_json_line(&ls[i]);
                let ghost before = out@;
                let ghost tv = tokens_view(toks@);
                out.push(toks);
                proof {
                    assert(tv == line_tokens(lines(p@)[i as int]));
                    assert(preview_lines_view(out@) =~= preview_lines_view(before).push(tv));
                    assert(json_preview(p@).take(i + 1) =~= json_preview(p@).take(i as int).push(
                        line_tokens(lines(p@)[i as int]),
                    ));
                }
                i += 1;
            }
            proof {
                assert(json_preview(p@).take(ls.len() as int) =~= json_preview(p@));
            }
            BodyPreview { lines: out, format: BodyPreviewFormat::Json }
        },
        None => {
            let ls = lines_exec(&b);
            let mut out: Vec<Vec<Token>> = Vec::new();
            let mut i: usize = 0;
            while i < ls.len()
                invariant
                    i <= ls.len(),
                    ls@.len() == lines(body@).len(),
                    forall|k: int| 0 <= k < ls@.len() ==> #[trigger] ls@[k]@ == lines(body@)[k],
                    preview_lines_view(out@) == text_preview(body@).take(i as int),
                decreases ls.len() - i,
            {
                let mut line: Vec<Token> = Vec::new();
                line.push(Token { text: string_from_chars(ls[i].as_slice()), kind: TokenKind::Plain });
                let ghost before = out@;
                let ghost tv = tokens_view(line@);
                proof {
                    assert(tv =~= seq![(ls@[i as int]@, TokenKind::Plain)]);
                }
                out.push(line);
                proof {
                    assert(preview_lines_view(out@) =~= preview_lines_view(before).push(tv));
                    assert(text_preview(body@).take(i + 1) =~= text_preview(body@).take(i as int).push(
                        seq![(lines(body@)[i as int], TokenKind::Plain)],
                    ));
                }
                i += 1;
            }
            proof {
                assert(text_preview(body@).take(ls.len() as int) =~= text_preview(body@));
            }
            BodyPreview { lines: out, format: BodyPreviewFormat::Text }
        },
    }
}

/// Builds the preview of a body: blank bodies have none, bodies whose
/// trimmed text is JSON are pretty-printed and highlighted, and anything
/// else is shown as plain lines.
pub fn build(body: &str) -> (r: BodyPreview)
    ensures
        (preview_lines_view(r.lines@), r.format) == preview_of(
            body@,
            json_pretty(trim(body@)),
        ),
{
    let b = to_chars(body);
    let t = trim_chars(&b);
    if t.len() == 0 {
        return preview_from_pretty(body, None);
    }
    let ts = string_from_chars(t.as_slice());
    let pretty = pretty_print_json(ts.as_str());
    preview_from_pretty(body, pretty)
}

// ---------------------------------------------------------------------------
// Styles
// ---------------------------------------------------------------------------

/// A foreground colour of the preview.
#[derive(Debug, Clone, Copy, PartialEq, Eq, Structural)]
pub enum PreviewColor {
    /// The terminal's own colour.
    Default,
    DarkGray,
    Cyan,
    Green,
    Yellow,
    Magenta,
}

/// How a token is drawn.
#[derive(Debug, Clone, Copy, PartialEq, Eq, Structural)]
pub struct TokenStyle {
    pub color: PreviewColor,
    pub bold: bool,
    pub italic: bool,
}

/// The style of each kind of token: keys bold cyan, strings green, numbers
/// yellow, booleans magenta, `null` italic dark gray, punctuation dark
/// gray, and whitespace and other text unstyled.
pub open spec fn style_of(k: TokenKind) -> TokenStyle {
    match k {
        TokenKind::Key => TokenStyle { color: PreviewColor::Cyan, bold: true, italic: false },
        TokenKind::Str => TokenStyle { color: PreviewColor::Green, bold: false, italic: false },
        TokenKind::Number => TokenStyle { color: PreviewColor::Yellow, bold: false, italic: false },
        TokenKind::Boolean => TokenStyle { color: PreviewColor::Magenta, bold: false, italic: false },
        TokenKind::Null => TokenStyle { color: PreviewColor::DarkGray, bold: false, italic: true },
        TokenKind::Punctuation => TokenStyle { color: PreviewColor::DarkGray, bold: false, italic: false },
        TokenKind::Whitespace | TokenKind::Plain => TokenStyle {
            color: PreviewColor::Default,
            bold: false,
            italic: false,
        },
    }
}

/// The style a token of kind `k` is drawn in.
pub fn token_style(k: TokenKind) -> (r: TokenStyle)
    ensures
        r == style_of(k),
{
    match k {
        TokenKind::Key => TokenStyle { color: PreviewColor::Cyan, bold: true, italic: false },
        TokenKind::Str => TokenStyle { color: PreviewColor::Green, bold: false, italic: false },
        TokenKind::Number => TokenStyle { color: PreviewColor::Yellow, bold: false, italic: false },
        TokenKind::Boolean => TokenStyle { color: PreviewColor::Magenta, bold: false, italic: false },
        TokenKind::Null => TokenStyle { color: PreviewColor::DarkGray, bold: false, italic: true },
        TokenKind::Punctuation => TokenStyle { color: PreviewColor::DarkGray, bold: false, italic: false },
        TokenKind::Whitespace | TokenKind::Plain => TokenStyle {
            color: PreviewColor::Default,
            bold: false,
            italic: false,
        },
    }
}

} // verus!
