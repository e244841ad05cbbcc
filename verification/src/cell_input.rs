//! Checking what a user typed into a grid cell or an add-row field against
//! the column's type.

use vstd::prelude::*;
use crate::collection::strings_view;
use crate::db_sql::ColumnInfo;
use crate::db_view::{joined, CellValue, CellView};
use crate::text::{
    all_digits, ascii_lowercase, ascii_lowercase_chars, chars_equal, chars_equal_str, contains,
    contains_str, decimal, digits_value, is_digit, push_all, push_decimal, push_str, string_chars,
    string_from_chars, to_chars, trim, trim_chars,
};

verus! {

// ---------------------------------------------------------------------------
// Integers and booleans as `str::parse` reads them
// ---------------------------------------------------------------------------

/// Why a text is not an `i64`.
#[derive(Debug, Clone, Copy, PartialEq, Eq, Structural)]
pub enum IntParseError {
    /// The text is empty.
    Empty,
    /// A character is not a digit, or there are no digits after the sign.
    InvalidDigit,
    /// The number is above `i64::MAX`.
    PosOverflow,
    /// The number is below `i64::MIN`.
    NegOverflow,
}

/// Length of the run of ASCII digits at the start of `d`.
pub open spec fn digit_run(d: Seq<char>) -> nat
    decreases d.len(),
{
    if d.len() == 0 || !is_digit(d[0]) {
        0
    } else {
        1 + digit_run(d.drop_first())
    }
}

/// `i64::from_str`: an optional sign, then decimal digits. Reading from the
/// left, a value out of range is reported before a later bad character.
pub open spec fn parse_i64(s: Seq<char>) -> Result<int, IntParseError> {
    if s.len() == 0 {
        Err(IntParseError::Empty)
    } else {
        let neg = s[0] == '-';
        let d = if s[0] == '-' || s[0] == '+' {
            s.drop_first()
        } else {
            s
        };
        if d.len() == 0 {
            Err(IntParseError::InvalidDigit)
        } else {
            let k = digit_run(d);
            let v = digits_value(d.take(k as int));
            if neg && v > 0x8000_0000_0000_0000 {
                Err(IntParseError::NegOverflow)
            } else if !neg && v > 0x7fff_ffff_ffff_ffff {
                Err(IntParseError::PosOverflow)
            } else if k < d.len() {
                Err(IntParseError::InvalidDigit)
            } else if neg {
                Ok(-v)
            } else {
                Ok(v as int)
            }
        }
    }
}

/// The message of an integer parse error.
pub open spec fn int_error_text(e: IntParseError) -> Seq<char> {
    match e {
        IntParseError::Empty => "cannot parse integer from empty string"@,
        IntParseError::InvalidDigit => "invalid digit found in string"@,
        IntParseError::PosOverflow => "number too large to fit in target type"@,
        IntParseError::NegOverflow => "number too small to fit in target type"@,
    }
}

proof fn lemma_digit_run_at(d: Seq<char>, i: int)
    requires
        0 <= i <= d.len(),
        forall|j: int| 0 <= j < i ==> #[trigger] is_digit(d[j]),
    ensures
        i == d.len() || !is_digit(d[i]) ==> digit_run(d) == i,
        i < d.len() && is_digit(d[i]) ==> digit_run(d) > i,
        digit_run(d) >= i,
    decreases i,
{
    if i > 0 {
        let t = d.drop_first();
        assert forall|j: int| 0 <= j < i - 1 implies #[trigger] is_digit(t[j]) by {
            assert(t[j] == d[j + 1]);
        }
        if i - 1 < t.len() {
            assert(t[i - 1] == d[i]);
        }
        lemma_digit_run_at(t, i - 1);
        assert(is_digit(d[0]));
    }
}

proof fn lemma_digit_run_bound(d: Seq<char>)
    ensures
        digit_run(d) <= d.len(),
        forall|j: int| 0 <= j < digit_run(d) ==> #[trigger] is_digit(d[j]),
    decreases d.len(),
{
    if d.len() > 0 && is_digit(d[0]) {
        let t = d.drop_first();
        lemma_digit_run_bound(t);
        assert forall|j: int| 0 <= j < digit_run(d) implies #[trigger] is_digit(d[j]) by {
            if j > 0 {
                assert(d[j] == t[j - 1]);
            }
        }
    }
}

proof fn lemma_prefix_value_grows(s: Seq<char>, a: int, b: int)
    requires
        0 <= a <= b <= s.len(),
        forall|i: int| 0 <= i < b ==> #[trigger] is_digit(s[i]),
    ensures
        digits_value(s.take(a)) <= digits_value(s.take(b)),
    decreases b - a,
{
    if a < b {
        lemma_prefix_value_grows(s, a, b - 1);
        assert(s.take(b).drop_last() =~= s.take(b - 1));
    }
}

/// Executable form of [`parse_i64`].
pub fn parse_i64_chars(s: &Vec<char>) -> (r: Result<i64, IntParseError>)
    ensures
        match r {
            Ok(n) => parse_i64(s@) == Ok::<int, IntParseError>(n as int),
            Err(e) => parse_i64(s@) == Err::<int, IntParseError>(e),
        },
{
    if s.len() == 0 {
        return Err(IntParseError::Empty);
    }
    let neg = s[0] == '-';
    let start: usize = if s[0] == '-' || s[0] == '+' {
        1
    } else {
        0
    };
    let ghost d = if s@[0] == '-' || s@[0] == '+' {
        s@.drop_first()
    } else {
        s@
    };
    proof {
        assert(d =~= s@.skip(start as int));
    }
    if start == s.len() {
        return Err(IntParseError::InvalidDigit);
    }
    let bound: u128 = if neg {
        0x8000_0000_0000_0000
    } else {
        0x7fff_ffff_ffff_ffff
    };
    let mut value: u128 = 0;
    let mut i: usize = start;
    proof {
        assert(d.take(0) =~= Seq::<char>::empty());
    }
    while i < s.len()
        invariant
            start <= i <= s.len(),
            start < s.len(),
            d == s@.skip(start as int),
            d == (if s@[0] == '-' || s@[0] == '+' { s@.drop_first() } else { s@ }),
            d.len() > 0,
            bound == (if neg { 0x8000_0000_0000_0000u128 } else { 0x7fff_ffff_ffff_ffffu128 }),
            neg == (s@[0] == '-'),
            value <= bound,
            value == digits_value(d.take(i - start)),
            forall|k: int| 0 <= k < i - start ==> #[trigger] is_digit(d[k]),
        decreases s.len() - i,
    {
        let c = s[i];
        let ghost j = i - start;
        proof {
            assert(d[j] == c);
            assert(d.take(j + 1).drop_last() =~= d.take(j));
        }
        if !((c as u32) >= 48 && (c as u32) <= 57) {
            proof {
                lemma_digit_run_at(d, j);
            }
            return Err(IntParseError::InvalidDigit);
        }
        value = value * 10 + ((c as u32) - 48) as u128;
        proof {
            assert(d.take(j + 1).last() == c);
            assert(value == digits_value(d.take(j + 1)));
            assert(forall|k: int| 0 <= k < j + 1 ==> #[trigger] is_digit(d[k]));
        }
        if value > bound {
            proof {
                lemma_digit_run_at(d, j + 1);
                lemma_digit_run_bound(d);
                lemma_prefix_value_grows(d, j + 1, digit_run(d) as int);
            }
            if neg {
                return Err(IntParseError::NegOverflow);
            } else {
                return Err(IntParseError::PosOverflow);
            }
        }
        i += 1;
    }
    proof {
        lemma_digit_run_at(d, d.len() as int);
        assert(d.take(d.len() as int) =~= d);
    }
    if neg {
        if value == 0x8000_0000_0000_0000 {
            Ok(i64::MIN)
        } else {
            let m = value as i64;
            Ok(-m)
        }
    } else {
        Ok(value as i64)
    }
}

/// The message of an integer parse error.
pub fn int_error_message(e: IntParseError) -> (r: String)
    ensures
        r@ == int_error_text(e),
{
    let t = match e {
        IntParseError::Empty => to_chars("cannot parse integer from empty string"),
        IntParseError::InvalidDigit => to_chars("invalid digit found in string"),
        IntParseError::PosOverflow => to_chars("number too large to fit in target type"),
        IntParseError::NegOverflow => to_chars("number too small to fit in target type"),
    };
    string_from_chars(t.as_slice())
}

/// Decimal text of a signed integer (`Display` for `i64`).
pub open spec fn signed_decimal(n: int) -> Seq<char> {
    if n < 0 {
        seq!['-'] + decimal((-n) as nat)
    } else {
        decimal(n as nat)
    }
}

fn push_signed(out: &mut Vec<char>, n: i64)
    ensures
        final(out)@ == old(out)@ + signed_decimal(n as int),
{
    if n < 0 {
        out.push('-');
        let m: u64 = if n == i64::MIN {
            0x8000_0000_0000_0000
        } else {
            (-n) as u64
        };
        push_decimal(out, m);
        proof {
            assert(final(out)@ =~= old(out)@ + signed_decimal(n as int));
        }
    } else {
        push_decimal(out, n as u64);
    }
}

/// The text `bool::from_str` rejects with.
pub open spec fn bool_error_text() -> Seq<char> {
    "provided string was not `true` or `false`"@
}

// ---------------------------------------------------------------------------
// Named results of outside parsers
// ---------------------------------------------------------------------------

/// What `sqlx::types::Uuid::parse_str` makes of a text: the UUID in its
/// lowercase hyphenated form, or the parser's error message.
pub uninterp spec fn uuid_parse_result(text: Seq<char>) -> Result<Seq<char>, Seq<char>>;

/// Parses a UUID with `sqlx::types::Uuid::parse_str` and renders it with
/// `to_string`; an error is rendered with `to_string`. The result is named
/// [`uuid_parse_result`] of the text.
#[verifier::external_body]
fn parse_uuid_text(text: &str) -> (r: Result<String, String>)
    ensures
        match r {
            Ok(u) => uuid_parse_result(text@) == Ok::<Seq<char>, Seq<char>>(u@),
            Err(e) => uuid_parse_result(text@) == Err::<Seq<char>, Seq<char>>(e@),
        },
{
    match sqlx::types::Uuid::parse_str(text) {
        Ok(u) => Ok(u.to_string()),
        Err(e) => Err(e.to_string()),
    }
}

/// What `serde_json::from_str` into a `serde_json::Value` makes of a text,
/// as a cell value (numbers, arrays and objects by their compact JSON
/// text), or the parser's error message.
pub uninterp spec fn json_cell_result(text: Seq<char>) -> Result<CellView, Seq<char>>;

/// Parses JSON with `serde_json::from_str` into a `serde_json::Value` and
/// converts it to a [`CellValue`]; an error is rendered with `to_string`.
/// The result is named [`json_cell_result`] of the text.
#[verifier::external_body]
fn parse_json_cell(text: &str) -> (r: Result<CellValue, String>)
    ensures
        match r {
            Ok(v) => json_cell_result(text@) == Ok::<CellView, Seq<char>>(v@),
            Err(e) => json_cell_result(text@) == Err::<CellView, Seq<char>>(e@),
        },
{
    match serde_json::from_str::<serde_json::Value>(text) {
        Ok(serde_json::Value::Null) => Ok(CellValue::Null),
        Ok(serde_json::Value::Bool(b)) => Ok(CellValue::Bool(b)),
        Ok(serde_json::Value::Number(n)) => Ok(CellValue::Number(n.to_string())),
        Ok(serde_json::Value::String(t)) => Ok(CellValue::Text(t)),
        Ok(other) => Ok(CellValue::Json(other.to_string())),
        Err(e) => Err(e.to_string()),
    }
}

// ---------------------------------------------------------------------------
// Typed input
// ---------------------------------------------------------------------------

/// What typed input becomes.
#[derive(Debug, Clone)]
pub enum ParsedInput {
    /// The value to store.
    Value(CellValue),
    /// Text for a floating-point column, which the caller reads as an `f64`.
    Decimal(String),
}

/// The mathematical form of a [`ParsedInput`].
pub enum ParsedView {
    Value(CellView),
    Decimal(Seq<char>),
}

impl View for ParsedInput {
    type V = ParsedView;

    open spec fn view(&self) -> ParsedView {
        match self {
            ParsedInput::Value(v) => ParsedView::Value(v@),
            ParsedInput::Decimal(t) => ParsedView::Decimal(t@),
        }
    }
}

/// A column of integers.
pub open spec fn integer_column(c: ColumnInfo) -> bool {
    let dt = ascii_lowercase(c.data_type@);
    let udt = ascii_lowercase(c.udt_name@);
    contains(dt, "integer"@) || udt == "int2"@ || udt == "int4"@ || udt == "int8"@
}

/// A column of floating-point or arbitrary-precision numbers.
pub open spec fn decimal_column(c: ColumnInfo) -> bool {
    let dt = ascii_lowercase(c.data_type@);
    let udt = ascii_lowercase(c.udt_name@);
    contains(dt, "numeric"@) || contains(dt, "double"@) || contains(dt, "real"@) || udt
        == "numeric"@ || udt == "float4"@ || udt == "float8"@
}

/// A column of JSON.
pub open spec fn json_column(c: ColumnInfo) -> bool {
    let dt = ascii_lowercase(c.data_type@);
    let udt = ascii_lowercase(c.udt_name@);
    dt == "json"@ || dt == "jsonb"@ || udt == "json"@ || udt == "jsonb"@
}

/// A column of UUIDs.
pub open spec fn uuid_column(c: ColumnInfo) -> bool {
    ascii_lowercase(c.data_type@) == "uuid"@ || ascii_lowercase(c.udt_name@) == "uuid"@
}

/// What typed input becomes for a column, or the chain of error messages
/// (outermost first). The input is trimmed; `null` in any letter case and
/// an empty input give NULL where the column accepts it (an empty input
/// otherwise gives an empty string); an enum column takes only its labels;
/// UUID, boolean, integer and JSON columns take what their parsers accept;
/// other text is stored as it is.
pub open spec fn input_result(raw: Seq<char>, c: ColumnInfo) -> Result<ParsedView, Seq<Seq<char>>> {
    let t = trim(raw);
    let name = c.name@;
    if ascii_lowercase(t) == "null"@ {
        if c.is_nullable {
            Ok(ParsedView::Value(CellView::Null))
        } else {
            Err(seq![name + " is not nullable"@])
        }
    } else if t.len() == 0 {
        if c.is_nullable {
            Ok(ParsedView::Value(CellView::Null))
        } else {
            Ok(ParsedView::Value(CellView::Text(Seq::empty())))
        }
    } else if c.enum_options@.len() > 0 {
        if strings_view(c.enum_options@).contains(t) {
            Ok(ParsedView::Value(CellView::Text(t)))
        } else {
            Err(
                seq![
                    "invalid enum value for "@ + name + ". allowed: "@ + joined(
                        strings_view(c.enum_options@),
                        ", "@,
                    ),
                ],
            )
        }
    } else if uuid_column(c) {
        match uuid_parse_result(t) {
            Ok(u) => Ok(ParsedView::Value(CellView::Text(u))),
            Err(e) => Err(seq!["expected UUID for "@ + name, e]),
        }
    } else if contains(ascii_lowercase(c.data_type@), "boolean"@) {
        if t == "true"@ {
            Ok(ParsedView::Value(CellView::Bool(true)))
        } else if t == "false"@ {
            Ok(ParsedView::Value(CellView::Bool(false)))
        } else {
            Err(seq!["expected boolean for "@ + name, bool_error_text()])
        }
    } else if integer_column(c) {
        match parse_i64(t) {
            Ok(n) => Ok(ParsedView::Value(CellView::Number(signed_decimal(n)))),
            Err(e) => Err(seq!["expected integer for "@ + name, int_error_text(e)]),
        }
    } else if decimal_column(c) {
        Ok(ParsedView::Decimal(t))
    } else if json_column(c) {
        match json_cell_result(t) {
            Ok(v) => Ok(ParsedView::Value(v)),
            Err(e) => Err(seq!["invalid JSON for "@ + name, e]),
        }
    } else {
        Ok(ParsedView::Value(CellView::Text(t)))
    }
}

/// The view of an input result.
pub open spec fn input_result_view(r: Result<ParsedInput, Vec<String>>) -> Result<ParsedView, Seq<Seq<char>>> {
    match r {
        Ok(p) => Ok(p@),
        Err(chain) => Err(strings_view(chain@)),
    }
}

fn message(parts: &Vec<char>) -> (r: Vec<String>)
    ensures
        strings_view(r@) == seq![parts@],
{
    let mut r: Vec<String> = Vec::new();
    r.push(string_from_chars(parts.as_slice()));
    proof {
        assert(strings_view(r@) =~= seq![parts@]);
    }
    r
}

fn two_messages(outer: &Vec<char>, inner: String) -> (r: Vec<String>)
    ensures
        strings_view(r@) == seq![outer@, inner@],
{
    let mut r: Vec<String> = Vec::new();
    r.push(string_from_chars(outer.as_slice()));
    r.push(inner);
    proof {
        assert(strings_view(r@) =~= seq![outer@, inner@]);
    }
    r
}

fn prefixed(prefix: &str, name: &Vec<char>) -> (r: Vec<char>)
    ensures
        r@ == prefix@ + name@,
{
    let mut out: Vec<char> = Vec::new();
    push_str(&mut out, prefix);
    push_all(&mut out, name);
    out
}

fn find_label(options: &Vec<String>, t: &Vec<char>) -> (b: bool)
    ensures
        b == strings_view(options@).contains(t@),
{
    let ghost ov = strings_view(options@);
    let mut i: usize = 0;
    while i < options.len()
        invariant
            i <= options.len(),
            ov == strings_view(options@),
            forall|k: int| 0 <= k < i ==> ov[k] != t@,
        decreases options.len() - i,
    {
        if chars_equal(&string_chars(&options[i]), t) {
            proof {
                assert(ov[i as int] == t@);
            }
            return true;
        }
        i += 1;
    }
    false
}

/// Checks typed input against a column.
pub fn parse_input_value(raw: &str, column: &ColumnInfo) -> (r: Result<ParsedInput, Vec<String>>)
    ensures
        input_result_view(r) == input_result(raw@, *column),
{
    let rv = to_chars(raw);
    let t = trim_chars(&rv);
    let name = string_chars(&column.name);
    let lower = ascii_lowercase_chars(&t);
    if chars_equal_str(&lower, "null") {
        if column.is_nullable {
            return Ok(ParsedInput::Value(CellValue::Null));
        }
        let mut m: Vec<char> = Vec::new();
        push_all(&mut m, &name);
        push_str(&mut m, " is not nullable");
        return Err(message(&m));
    }
    if t.len() == 0 {
        if column.is_nullable {
            return Ok(ParsedInput::Value(CellValue::Null));
        }
        let r = ParsedInput::Value(CellValue::Text(string_from_chars(t.as_slice())));
        proof {
            assert(t@ =~= Seq::<char>::empty());
        }
        return Ok(r);
    }
    if column.enum_options.len() > 0 {
        if find_label(&column.enum_options, &t) {
            return Ok(ParsedInput::Value(CellValue::Text(string_from_chars(t.as_slice()))));
        }
        let mut m = prefixed("invalid enum value for ", &name);
        push_str(&mut m, ". allowed: ");
        crate::db_view::push_joined(&mut m, &column.enum_options, ", ");
        return Err(message(&m));
    }
    let dt = ascii_lowercase_chars(&string_chars(&column.data_type));
    let udt = ascii_lowercase_chars(&string_chars(&column.udt_name));
    if chars_equal_str(&dt, "uuid") || chars_equal_str(&udt, "uuid") {
        let ts = string_from_chars(t.as_slice());
        return match parse_uuid_text(ts.as_str()) {
            Ok(u) => Ok(ParsedInput::Value(CellValue::Text(u))),
            Err(e) => Err(two_messages(&prefixed("expected UUID for ", &name), e)),
        };
    }
    if contains_str(&dt, "boolean") {
        if chars_equal_str(&t, "true") {
            return Ok(ParsedInput::Value(CellValue::Bool(true)));
        }
        if chars_equal_str(&t, "false") {
            return Ok(ParsedInput::Value(CellValue::Bool(false)));
        }
        let e = string_from_chars(to_chars("provided string was not `true` or `false`").as_slice());
        return Err(two_messages(&prefixed("expected boolean for ", &name), e));
    }
    if contains_str(&dt, "integer") || chars_equal_str(&udt, "int2") || chars_equal_str(&udt, "int4")
        || chars_equal_str(&udt, "int8") {
        return match parse_i64_chars(&t) {
            Ok(n) => {
                let mut out: Vec<char> = Vec::new();
                push_signed(&mut out, n);
                Ok(ParsedInput::Value(CellValue::Number(string_from_chars(out.as_slice()))))
            },
            Err(e) => Err(two_messages(&prefixed("expected integer for ", &name), int_error_message(e))),
        };
    }
    if contains_str(&dt, "numeric") || contains_str(&dt, "double") || contains_str(&dt, "real")
        || chars_equal_str(&udt, "numeric") || chars_equal_str(&udt, "float4") || chars_equal_str(
        &udt,
        "float8",
    ) {
        return Ok(ParsedInput::Decimal(string_from_chars(t.as_slice())));
    }
    if chars_equal_str(&dt, "json") || chars_equal_str(&dt, "jsonb") || chars_equal_str(&udt, "json")
        || chars_equal_str(&udt, "jsonb") {
        let ts = string_from_chars(t.as_slice());
        return match parse_json_cell(ts.as_str()) {
            Ok(v) => Ok(ParsedInput::Value(v)),
            Err(e) => Err(two_messages(&prefixed("invalid JSON for ", &name), e)),
        };
    }
    Ok(ParsedInput::Value(CellValue::Text(string_from_chars(t.as_slice()))))
}

} // verus!
