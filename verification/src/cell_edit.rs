//! Editing a cell in the database viewer: which editor a column gets, the
//! date/time picker with its calendar arithmetic, the value picker for enum
//! and boolean columns, and the checking of typed input.

use vstd::prelude::*;
use chrono::{Datelike, Timelike};
use crate::api_messages::{Key, KeyEvent, no_modifiers};
use crate::db_sql::ColumnInfo;
use crate::text::{
    all_digits, ascii_lowercase, ascii_lowercase_chars, chars_equal_str, contains, contains_str,
    decimal, digits_value, is_digit, push_decimal, push_str, starts_with, starts_with_str,
    string_chars, string_from_chars, to_chars, trim, trim_chars,
};

verus! {

// ---------------------------------------------------------------------------
// Column kinds
// ---------------------------------------------------------------------------

/// The lowercased data type and type name of a column.
pub open spec fn column_types(c: ColumnInfo) -> (Seq<char>, Seq<char>) {
    (ascii_lowercase(c.data_type@), ascii_lowercase(c.udt_name@))
}

/// A boolean column.
pub open spec fn boolean_column(c: ColumnInfo) -> bool {
    let (dt, udt) = column_types(c);
    contains(dt, "boolean"@) || udt == "bool"@
}

/// A timestamp column.
pub open spec fn datetime_column(c: ColumnInfo) -> bool {
    let (dt, udt) = column_types(c);
    contains(dt, "timestamp"@) || udt == "timestamp"@ || udt == "timestamptz"@
}

/// A date column.
pub open spec fn date_column(c: ColumnInfo) -> bool {
    let (dt, udt) = column_types(c);
    (dt == "date"@ || udt == "date"@) && !datetime_column(c)
}

/// A time column.
pub open spec fn time_column(c: ColumnInfo) -> bool {
    let (dt, udt) = column_types(c);
    (starts_with(dt, "time"@) || udt == "time"@ || udt == "timetz"@) && !datetime_column(c)
}

fn lower_types(c: &ColumnInfo) -> (r: (Vec<char>, Vec<char>))
    ensures
        (r.0@, r.1@) == column_types(*c),
{
    let dt = string_chars(&c.data_type);
    let udt = string_chars(&c.udt_name);
    (ascii_lowercase_chars(&dt), ascii_lowercase_chars(&udt))
}

/// Whether a column holds booleans.
pub fn is_boolean_column(column: &ColumnInfo) -> (b: bool)
    ensures
        b == boolean_column(*column),
{
    let (dt, udt) = lower_types(column);
    contains_str(&dt, "boolean") || chars_equal_str(&udt, "bool")
}

/// Whether a column holds timestamps.
pub fn is_datetime_column(column: &ColumnInfo) -> (b: bool)
    ensures
        b == datetime_column(*column),
{
    let (dt, udt) = lower_types(column);
    contains_str(&dt, "timestamp") || chars_equal_str(&udt, "timestamp") || chars_equal_str(
        &udt,
        "timestamptz",
    )
}

/// Whether a column holds dates.
pub fn is_date_column(column: &ColumnInfo) -> (b: bool)
    ensures
        b == date_column(*column),
{
    let (dt, udt) = lower_types(column);
    (chars_equal_str(&dt, "date") || chars_equal_str(&udt, "date")) && !is_datetime_column(column)
}

/// Whether a column holds times of day.
pub fn is_time_column(column: &ColumnInfo) -> (b: bool)
    ensures
        b == time_column(*column),
{
    let (dt, udt) = lower_types(column);
    (starts_with_str(&dt, "time") || chars_equal_str(&udt, "time") || chars_equal_str(
        &udt,
        "timetz",
    )) && !is_datetime_column(column)
}

// ---------------------------------------------------------------------------
// The date/time picker
// ---------------------------------------------------------------------------

/// What a date/time picker edits.
#[derive(Debug, Clone, Copy, PartialEq, Eq, Structural)]
pub enum TemporalMode {
    Date,
    Time,
    DateTime,
}

/// A field of a date or time.
#[derive(Debug, Clone, Copy, PartialEq, Eq, Structural)]
pub enum TemporalPart {
    Year,
    Month,
    Day,
    Hour,
    Minute,
    Second,
}

/// The picker mode of a column, if it is a date, time or timestamp column.
pub open spec fn mode_of(c: ColumnInfo) -> Option<TemporalMode> {
    if datetime_column(c) {
        Some(TemporalMode::DateTime)
    } else if date_column(c) {
        Some(TemporalMode::Date)
    } else if time_column(c) {
        Some(TemporalMode::Time)
    } else {
        None
    }
}

/// The picker mode of a column.
pub fn temporal_mode_for(column: &ColumnInfo) -> (r: Option<TemporalMode>)
    ensures
        r == mode_of(*column),
{
    if is_datetime_column(column) {
        Some(TemporalMode::DateTime)
    } else if is_date_column(column) {
        Some(TemporalMode::Date)
    } else if is_time_column(column) {
        Some(TemporalMode::Time)
    } else {
        None
    }
}

/// The fields a mode edits, in order.
pub open spec fn parts_of(mode: TemporalMode) -> Seq<TemporalPart> {
    match mode {
        TemporalMode::Date => seq![TemporalPart::Year, TemporalPart::Month, TemporalPart::Day],
        TemporalMode::Time => seq![TemporalPart::Hour, TemporalPart::Minute, TemporalPart::Second],
        TemporalMode::DateTime => seq![
            TemporalPart::Year,
            TemporalPart::Month,
            TemporalPart::Day,
            TemporalPart::Hour,
            TemporalPart::Minute,
            TemporalPart::Second,
        ],
    }
}

/// The field selected when a picker opens: the day, or the hour for times.
pub open spec fn initial_part(mode: TemporalMode) -> TemporalPart {
    match mode {
        TemporalMode::Time => TemporalPart::Hour,
        _ => TemporalPart::Day,
    }
}

/// The field after `p`, wrapping to the first; the first field when `p` is
/// not one of the mode's fields.
pub open spec fn next_part(mode: TemporalMode, p: TemporalPart) -> TemporalPart {
    let ps = parts_of(mode);
    let i = ps.index_of(p);
    if ps.contains(p) {
        ps[(i + 1) % (ps.len() as int)]
    } else {
        ps[0]
    }
}

/// The field before `p`, wrapping to the last; the first field when `p` is
/// not one of the mode's fields.
pub open spec fn prev_part(mode: TemporalMode, p: TemporalPart) -> TemporalPart {
    let ps = parts_of(mode);
    let i = ps.index_of(p);
    if ps.contains(p) {
        if i == 0 {
            ps[ps.len() - 1]
        } else {
            ps[i - 1]
        }
    } else {
        ps[0]
    }
}

fn parts_exec(mode: TemporalMode) -> (r: Vec<TemporalPart>)
    ensures
        r@ == parts_of(mode),
{
    let v = match mode {
        TemporalMode::Date => vec![TemporalPart::Year, TemporalPart::Month, TemporalPart::Day],
        TemporalMode::Time => vec![TemporalPart::Hour, TemporalPart::Minute, TemporalPart::Second],
        TemporalMode::DateTime => vec![
            TemporalPart::Year,
            TemporalPart::Month,
            TemporalPart::Day,
            TemporalPart::Hour,
            TemporalPart::Minute,
            TemporalPart::Second,
        ],
    };
    proof {
        assert(v@ =~= parts_of(mode));
    }
    v
}

proof fn lemma_index_of_unique(ps: Seq<TemporalPart>, i: int)
    requires
        ps.no_duplicates(),
        0 <= i < ps.len(),
    ensures
        ps.contains(ps[i]),
        ps.index_of(ps[i]) == i,
{
    let p = ps[i];
    assert(ps.contains(p));
    let j = ps.index_of(p);
    assert(0 <= j < ps.len() && ps[j] == p);
    if j != i {
        assert(ps[i] != ps[j]);
    }
}

fn part_position(ps: &Vec<TemporalPart>, p: TemporalPart) -> (r: Option<usize>)
    requires
        ps@.no_duplicates(),
    ensures
        match r {
            Some(i) => ps@.contains(p) && i as int == ps@.index_of(p) && i < ps@.len(),
            None => !ps@.contains(p),
        },
{
    let mut i: usize = 0;
    while i < ps.len()
        invariant
            i <= ps.len(),
            ps@.no_duplicates(),
            forall|k: int| 0 <= k < i ==> ps@[k] != p,
        decreases ps.len() - i,
    {
        if ps[i] == p {
            proof {
                lemma_index_of_unique(ps@, i as int);
            }
            return Some(i);
        }
        i += 1;
    }
    None
}

/// The field selected when a picker opens.
pub fn initial_temporal_part(mode: TemporalMode) -> (r: TemporalPart)
    ensures
        r == initial_part(mode),
{
    match mode {
        TemporalMode::Time => TemporalPart::Hour,
        _ => TemporalPart::Day,
    }
}

/// The next field, wrapping around.
pub fn next_temporal_part(mode: TemporalMode, current: TemporalPart) -> (r: TemporalPart)
    ensures
        r == next_part(mode, current),
{
    let ps = parts_exec(mode);
    match part_position(&ps, current) {
        Some(i) => ps[(i + 1) % ps.len()],
        None => ps[0],
    }
}

/// The previous field, wrapping around.
pub fn prev_temporal_part(mode: TemporalMode, current: TemporalPart) -> (r: TemporalPart)
    ensures
        r == prev_part(mode, current),
{
    let ps = parts_exec(mode);
    match part_position(&ps, current) {
        Some(i) => if i == 0 {
            ps[ps.len() - 1]
        } else {
            ps[i - 1]
        },
        None => ps[0],
    }
}

/// A leap year of the Gregorian calendar.
pub open spec fn leap_year(y: int) -> bool {
    (y % 4 == 0 && y % 100 != 0) || y % 400 == 0
}

/// The days of a month (30 for a month number outside 1 to 12).
pub open spec fn month_days(y: int, m: int) -> int {
    if m == 1 || m == 3 || m == 5 || m == 7 || m == 8 || m == 10 || m == 12 {
        31
    } else if m == 4 || m == 6 || m == 9 || m == 11 {
        30
    } else if m == 2 {
        if leap_year(y) {
            29
        } else {
            28
        }
    } else {
        30
    }
}

/// The days of a month.
pub fn days_in_month(year: i32, month: u32) -> (d: u32)
    ensures
        d == month_days(year as int, month as int),
        28 <= d <= 31,
{
    if month == 1 || month == 3 || month == 5 || month == 7 || month == 8 || month == 10 || month == 12 {
        31
    } else if month == 4 || month == 6 || month == 9 || month == 11 {
        30
    } else if month == 2 {
        let leap = (year % 4 == 0 && year % 100 != 0) || year % 400 == 0;
        if leap {
            29
        } else {
            28
        }
    } else {
        30
    }
}

/// An open date/time picker.
#[derive(Debug, Clone)]
pub struct DateTimePicker {
    /// Row of the edited cell.
    pub row_index: usize,
    /// Column of the edited cell.
    pub column_name: String,
    /// Data type of the column.
    pub column_type: String,
    /// What is edited.
    pub mode: TemporalMode,
    /// The selected field.
    pub selected_part: TemporalPart,
    pub year: i32,
    pub month: u32,
    pub day: u32,
    pub hour: u32,
    pub minute: u32,
    pub second: u32,
    /// The column accepts NULL.
    pub nullable: bool,
    /// The value is NULL.
    pub is_null: bool,
}

/// A valid date and time of day.
pub open spec fn valid_fields(p: DateTimePicker) -> bool {
    &&& 1 <= p.month <= 12
    &&& 1 <= p.day <= month_days(p.year as int, p.month as int)
    &&& p.hour < 24
    &&& p.minute < 60
    &&& p.second < 60
}

/// `v` reduced into `0..n` (`rem_euclid`).
pub open spec fn wrap(v: int, n: int) -> int {
    v % n
}

/// The picker after moving the selected field by `delta`: years change
/// freely (saturating), months, days, hours, minutes and seconds wrap
/// around within their range, and the day is kept within its month.
pub open spec fn adjusted(p: DateTimePicker, delta: int) -> DateTimePicker {
    match p.selected_part {
        TemporalPart::Year => {
            let y = if p.year + delta > i32::MAX {
                i32::MAX
            } else if p.year + delta < i32::MIN {
                i32::MIN
            } else {
                (p.year + delta) as i32
            };
            let d = month_days(y as int, p.month as int);
            DateTimePicker { year: y, day: if p.day <= d { p.day } else { d as u32 }, ..p }
        },
        TemporalPart::Month => {
            let m = (wrap(p.month - 1 + delta, 12) + 1) as u32;
            let d = month_days(p.year as int, m as int);
            DateTimePicker { month: m, day: if p.day <= d { p.day } else { d as u32 }, ..p }
        },
        TemporalPart::Day => {
            let d = month_days(p.year as int, p.month as int);
            DateTimePicker { day: (wrap(p.day - 1 + delta, d) + 1) as u32, ..p }
        },
        TemporalPart::Hour => DateTimePicker { hour: wrap(p.hour + delta, 24) as u32, ..p },
        TemporalPart::Minute => DateTimePicker { minute: wrap(p.minute + delta, 60) as u32, ..p },
        TemporalPart::Second => DateTimePicker { second: wrap(p.second + delta, 60) as u32, ..p },
    }
}

fn rem_euclid_i64(v: i64, n: i64) -> (r: i64)
    requires
        n > 0,
        v > i64::MIN,
    ensures
        r == wrap(v as int, n as int),
        0 <= r < n,
{
    if v >= 0 {
        v % n
    } else {
        let m: i64 = -v;
        let q: i64 = m % n;
        proof {
            vstd::arithmetic::div_mod::lemma_fundamental_div_mod(m as int, n as int);
        }
        let ghost k: int = (m as int) / (n as int);
        assert((-k) * n == -(n * k)) by (nonlinear_arith);
        assert((-k - 1) * n == -(n * k) - n) by (nonlinear_arith);
        if q == 0 {
            proof {
                vstd::arithmetic::div_mod::lemma_fundamental_div_mod_converse(
                    v as int,
                    n as int,
                    -((m as int) / (n as int)),
                    0,
                );
            }
            0
        } else {
            proof {
                vstd::arithmetic::div_mod::lemma_fundamental_div_mod_converse(
                    v as int,
                    n as int,
                    -((m as int) / (n as int)) - 1,
                    (n - q) as int,
                );
            }
            n - q
        }
    }
}

impl DateTimePicker {
    /// Moves the selected field by `delta`.
    pub fn adjust_temporal_part(&mut self, delta: i32)
        requires
            valid_fields(*old(self)),
            -1000 <= delta <= 1000,
        ensures
            *final(self) == adjusted(*old(self), delta as int),
            valid_fields(*final(self)),
    {
        match self.selected_part {
            TemporalPart::Year => {
                let sum: i64 = self.year as i64 + delta as i64;
                self.year = if sum > i32::MAX as i64 {
                    i32::MAX
                } else if sum < i32::MIN as i64 {
                    i32::MIN
                } else {
                    sum as i32
                };
                let d = days_in_month(self.year, self.month);
                if self.day > d {
                    self.day = d;
                }
            },
            TemporalPart::Month => {
                let m = rem_euclid_i64(self.month as i64 - 1 + delta as i64, 12) + 1;
                self.month = m as u32;
                let d = days_in_month(self.year, self.month);
                if self.day > d {
                    self.day = d;
                }
            },
            TemporalPart::Day => {
                let d = days_in_month(self.year, self.month);
                let v = rem_euclid_i64(self.day as i64 - 1 + delta as i64, d as i64) + 1;
                self.day = v as u32;
            },
            TemporalPart::Hour => {
                self.hour = rem_euclid_i64(self.hour as i64 + delta as i64, 24) as u32;
            },
            TemporalPart::Minute => {
                self.minute = rem_euclid_i64(self.minute as i64 + delta as i64, 60) as u32;
            },
            TemporalPart::Second => {
                self.second = rem_euclid_i64(self.second as i64 + delta as i64, 60) as u32;
            },
        }
    }
}

// ---------------------------------------------------------------------------
// Formatting
// ---------------------------------------------------------------------------

/// `n` zero-padded to `width` digits (`{:0width$}` for non-negative `n`).
pub open spec fn padded(n: nat, width: nat) -> Seq<char> {
    let d = decimal(n);
    if d.len() >= width {
        d
    } else {
        Seq::new((width - d.len()) as nat, |i: int| '0') + d
    }
}

/// A signed year zero-padded to four characters, the sign counted
/// (`{:04}`).
pub open spec fn padded_year(y: int) -> Seq<char> {
    if y >= 0 {
        padded(y as nat, 4)
    } else {
        seq!['-'] + padded((-y) as nat, 3)
    }
}

/// The value a picker writes: `YYYY-MM-DD`, `HH:MM:SS`, or both separated
/// by a space.
pub open spec fn temporal_text(p: DateTimePicker) -> Seq<char> {
    let date = padded_year(p.year as int) + seq!['-'] + padded(p.month as nat, 2) + seq!['-']
        + padded(p.day as nat, 2);
    let time = padded(p.hour as nat, 2) + seq![':'] + padded(p.minute as nat, 2) + seq![':']
        + padded(p.second as nat, 2);
    match p.mode {
        TemporalMode::Date => date,
        TemporalMode::Time => time,
        TemporalMode::DateTime => date + seq![' '] + time,
    }
}

fn push_padded(out: &mut Vec<char>, n: u64, width: usize)
    ensures
        final(out)@ == old(out)@ + padded(n as nat, width as nat),
{
    let mut digits: Vec<char> = Vec::new();
    push_decimal(&mut digits, n);
    proof {
        assert(digits@ =~= decimal(n as nat));
    }
    let ghost start = out@;
    if digits.len() < width {
        let mut k: usize = digits.len();
        while k < width
            invariant
                digits@.len() <= k <= width,
                out@ == start + Seq::new((k - digits@.len()) as nat, |i: int| '0'),
            decreases width - k,
        {
            out.push('0');
            proof {
                assert(out@ =~= start + Seq::new((k + 1 - digits@.len()) as nat, |i: int| '0'));
            }
            k += 1;
        }
    }
    crate::text::push_all(out, &digits);
    proof {
        if digits@.len() >= width {
            assert(out@ =~= start + digits@);
        } else {
            assert(out@ =~= start + (Seq::new((width - digits@.len()) as nat, |i: int| '0') + digits@));
        }
    }
}

fn push_year(out: &mut Vec<char>, y: i32)
    ensures
        final(out)@ == old(out)@ + padded_year(y as int),
{
    if y >= 0 {
        push_padded(out, y as u64, 4);
    } else {
        out.push('-');
        let magnitude: u64 = (-(y as i64)) as u64;
        push_padded(out, magnitude, 3);
        proof {
            assert(final(out)@ =~= old(out)@ + padded_year(y as int));
        }
    }
}

/// The value a picker writes.
#[verifier::rlimit(40)]
pub fn format_temporal_value(picker: &DateTimePicker) -> (r: String)
    ensures
        r@ == temporal_text(*picker),
{
    let mut out: Vec<char> = Vec::new();
    if picker.mode != TemporalMode::Time {
        push_year(&mut out, picker.year);
        out.push('-');
        push_padded(&mut out, picker.month as u64, 2);
        out.push('-');
        push_padded(&mut out, picker.day as u64, 2);
    }
    if picker.mode == TemporalMode::DateTime {
        out.push(' ');
    }
    if picker.mode != TemporalMode::Date {
        push_padded(&mut out, picker.hour as u64, 2);
        out.push(':');
        push_padded(&mut out, picker.minute as u64, 2);
        out.push(':');
        push_padded(&mut out, picker.second as u64, 2);
    }
    proof {
        assert(out@ =~= temporal_text(*picker));
    }
    string_from_chars(out.as_slice())
}

// ---------------------------------------------------------------------------
// Picker keys
// ---------------------------------------------------------------------------

/// What a key press in the picker leads to.
#[derive(Debug, Clone, PartialEq, Eq)]
pub enum PickerOutcome {
    /// The picker stays open.
    Continue,
    /// The edit is cancelled.
    Cancel,
    /// The cell is set to this text, or to NULL.
    Commit(Option<String>),
}

/// Right (Tab, `l`, Right arrow) and left (BackTab with Shift, `h`, Left
/// arrow) moves, up and down changes, `x` toggles NULL, Enter or `i`
/// commits, Escape cancels.
pub open spec fn picker_step(p: DateTimePicker, k: KeyEvent) -> (DateTimePicker, PickerOutcome) {
    let none = no_modifiers(k.modifiers);
    let shift_only = k.modifiers.shift && !k.modifiers.control && !k.modifiers.alt;
    if k.code == Key::Esc {
        (p, PickerOutcome::Cancel)
    } else if (k.code == Key::Tab && none) || (k.code == Key::Char('l') && none) || k.code == Key::Right {
        (DateTimePicker { selected_part: next_part(p.mode, p.selected_part), ..p }, PickerOutcome::Continue)
    } else if (k.code == Key::BackTab && shift_only) || (k.code == Key::Char('h') && none) || k.code == Key::Left {
        (DateTimePicker { selected_part: prev_part(p.mode, p.selected_part), ..p }, PickerOutcome::Continue)
    } else if (k.code == Key::Char('j') && none) || k.code == Key::Down {
        (DateTimePicker { is_null: false, ..adjusted(p, 1) }, PickerOutcome::Continue)
    } else if (k.code == Key::Char('k') && none) || k.code == Key::Up {
        (DateTimePicker { is_null: false, ..adjusted(p, -1) }, PickerOutcome::Continue)
    } else if k.code == Key::Char('x') && none {
        (DateTimePicker { is_null: if p.nullable { !p.is_null } else { p.is_null }, ..p }, PickerOutcome::Continue)
    } else {
        (p, PickerOutcome::Continue)
    }
}

/// Whether a key commits the picker's value.
pub open spec fn commits(k: KeyEvent) -> bool {
    (k.code == Key::Enter || k.code == Key::Char('i')) && no_modifiers(k.modifiers) && k.code != Key::Esc
}

impl DateTimePicker {
    /// Handles a key in the picker.
    pub fn on_key(&mut self, key: KeyEvent) -> (r: PickerOutcome)
        requires
            valid_fields(*old(self)),
        ensures
            valid_fields(*final(self)),
            commits(key) ==> *final(self) == *old(self) && (if old(self).is_null {
                r == PickerOutcome::Commit(None)
            } else {
                r matches PickerOutcome::Commit(Some(t)) && t@ == temporal_text(*old(self))
            }),
            !commits(key) ==> (*final(self), r) == picker_step(*old(self), key),
    {
        let none = !key.modifiers.shift && !key.modifiers.control && !key.modifiers.alt;
        let shift_only = key.modifiers.shift && !key.modifiers.control && !key.modifiers.alt;
        if key.code == Key::Esc {
            return PickerOutcome::Cancel;
        }
        if (key.code == Key::Tab && none) || (key.code == Key::Char('l') && none) || key.code == Key::Right {
            self.selected_part = next_temporal_part(self.mode, self.selected_part);
            return PickerOutcome::Continue;
        }
        if (key.code == Key::BackTab && shift_only) || (key.code == Key::Char('h') && none) || key.code
            == Key::Left {
            self.selected_part = prev_temporal_part(self.mode, self.selected_part);
            return PickerOutcome::Continue;
        }
        if (key.code == Key::Char('j') && none) || key.code == Key::Down {
            self.adjust_temporal_part(1);
            self.is_null = false;
            return PickerOutcome::Continue;
        }
        if (key.code == Key::Char('k') && none) || key.code == Key::Up {
            self.adjust_temporal_part(-1);
            self.is_null = false;
            return PickerOutcome::Continue;
        }
        if key.code == Key::Char('x') && none {
            if self.nullable {
                self.is_null = !self.is_null;
            }
            return PickerOutcome::Continue;
        }
        if (key.code == Key::Enter || key.code == Key::Char('i')) && none {
            if self.is_null {
                return PickerOutcome::Commit(None);
            }
            return PickerOutcome::Commit(Some(format_temporal_value(self)));
        }
        PickerOutcome::Continue
    }
}

// ---------------------------------------------------------------------------
// Reading a stored value and the current time
// ---------------------------------------------------------------------------

/// A valid calendar date.
pub open spec fn valid_date(y: int, m: int, d: int) -> bool {
    1 <= m <= 12 && 1 <= d <= month_days(y, m)
}

/// A valid time of day, seconds below 60.
pub open spec fn valid_time(h: int, mi: int, s: int) -> bool {
    0 <= h < 24 && 0 <= mi < 60 && 0 <= s < 60
}

/// What `chrono::NaiveDate::parse_from_str` makes of a text and a format:
/// year, month and day, or `None` when it does not parse.
pub uninterp spec fn parsed_date(text: Seq<char>, format: Seq<char>) -> Option<(int, int, int)>;

/// What `chrono::NaiveDateTime::parse_from_str` makes of a text and a
/// format: year, month, day, hour, minute and second.
pub uninterp spec fn parsed_datetime(text: Seq<char>, format: Seq<char>) -> Option<
    (int, int, int, int, int, int),
>;

/// What `chrono::NaiveTime::parse_from_str` makes of a text and a format:
/// hour, minute and second.
pub uninterp spec fn parsed_time(text: Seq<char>, format: Seq<char>) -> Option<(int, int, int)>;

/// What `chrono::DateTime::parse_from_rfc3339` makes of a text: the date and
/// time in the text's own offset.
pub uninterp spec fn parsed_rfc3339(text: Seq<char>) -> Option<(int, int, int, int, int, int)>;

/// Parses a date with `chrono::NaiveDate::parse_from_str`. The result is
/// named [`parsed_date`]; chrono documents the month as 1 to 12 and a
/// `NaiveDate` is always a valid calendar date.
#[verifier::external_body]
fn parse_naive_date(text: &str, format: &str) -> (r: Option<(i32, u32, u32)>)
    ensures
        match r {
            Some((y, m, d)) => parsed_date(text@, format@) == Some((y as int, m as int, d as int))
                && valid_date(y as int, m as int, d as int),
            None => parsed_date(text@, format@) is None,
        },
{
    match chrono::NaiveDate::parse_from_str(text, format) {
        Ok(v) => Some((v.year(), v.month(), v.day())),
        Err(_) => None,
    }
}

/// Parses a date and time with `chrono::NaiveDateTime::parse_from_str`.
/// The result is named [`parsed_datetime`]; the date is a valid calendar
/// date, hours are 0 to 23, minutes and seconds 0 to 59 (chrono keeps a
/// leap second in the nanoseconds).
#[verifier::external_body]
fn parse_naive_datetime(text: &str, format: &str) -> (r: Option<(i32, u32, u32, u32, u32, u32)>)
    ensures
        match r {
            Some((y, m, d, h, mi, sec)) => parsed_datetime(text@, format@) == Some(
                (y as int, m as int, d as int, h as int, mi as int, sec as int),
            ) && valid_date(y as int, m as int, d as int) && valid_time(
                h as int,
                mi as int,
                sec as int,
            ),
            None => parsed_datetime(text@, format@) is None,
        },
{
    match chrono::NaiveDateTime::parse_from_str(text, format) {
        Ok(v) => Some((v.year(), v.month(), v.day(), v.hour(), v.minute(), v.second())),
        Err(_) => None,
    }
}

/// Parses a time of day with `chrono::NaiveTime::parse_from_str`. The
/// result is named [`parsed_time`]; hours are 0 to 23, minutes and seconds
/// 0 to 59.
#[verifier::external_body]
fn parse_naive_time(text: &str, format: &str) -> (r: Option<(u32, u32, u32)>)
    ensures
        match r {
            Some((h, mi, sec)) => parsed_time(text@, format@) == Some((h as int, mi as int, sec as int))
                && valid_time(h as int, mi as int, sec as int),
            None => parsed_time(text@, format@) is None,
        },
{
    match chrono::NaiveTime::parse_from_str(text, format) {
        Ok(v) => Some((v.hour(), v.minute(), v.second())),
        Err(_) => None,
    }
}

/// Parses an RFC 3339 timestamp with `chrono::DateTime::parse_from_rfc3339`
/// and reads its fields in the timestamp's own offset. The result is named
/// [`parsed_rfc3339`]; the fields form a valid date and time.
#[verifier::external_body]
fn parse_rfc3339(text: &str) -> (r: Option<(i32, u32, u32, u32, u32, u32)>)
    ensures
        match r {
            Some((y, m, d, h, mi, sec)) => parsed_rfc3339(text@) == Some(
                (y as int, m as int, d as int, h as int, mi as int, sec as int),
            ) && valid_date(y as int, m as int, d as int) && valid_time(
                h as int,
                mi as int,
                sec as int,
            ),
            None => parsed_rfc3339(text@) is None,
        },
{
    match chrono::DateTime::parse_from_rfc3339(text) {
        Ok(v) => Some((v.year(), v.month(), v.day(), v.hour(), v.minute(), v.second())),
        Err(_) => None,
    }
}

/// The current time in UTC from `chrono::Utc::now`, as year, month, day,
/// hour, minute and second. What it returns depends on the clock; only
/// that the fields form a valid date and time is stated.
#[verifier::external_body]
fn utc_now_fields() -> (r: (i32, u32, u32, u32, u32, u32))
    ensures
        valid_date(r.0 as int, r.1 as int, r.2 as int),
        valid_time(r.3 as int, r.4 as int, r.5 as int),
{
    let now = chrono::Utc::now();
    (now.year(), now.month(), now.day(), now.hour(), now.minute(), now.second())
}

/// The picker with the date of `f`.
pub open spec fn with_date(p: DateTimePicker, y: int, m: int, d: int) -> DateTimePicker {
    DateTimePicker { year: y as i32, month: m as u32, day: d as u32, ..p }
}

/// The picker with the time of day `h:mi:s`.
pub open spec fn with_time(p: DateTimePicker, h: int, mi: int, s: int) -> DateTimePicker {
    DateTimePicker { hour: h as u32, minute: mi as u32, second: s as u32, ..p }
}

/// The picker after reading a stored value: a date as `YYYY-MM-DD` (or the
/// date of `YYYY-MM-DD HH:MM:SS`), a time as `HH:MM:SS` or `HH:MM`, a
/// timestamp as `YYYY-MM-DD HH:MM:SS`, `YYYY-MM-DDTHH:MM:SS` or RFC 3339;
/// unchanged when none of the forms fits.
pub open spec fn applied_text(p: DateTimePicker, raw: Seq<char>) -> DateTimePicker {
    let t = trim(raw);
    match p.mode {
        TemporalMode::Date => match parsed_date(t, "%Y-%m-%d"@) {
            Some((y, m, d)) => with_date(p, y, m, d),
            None => match parsed_datetime(t, "%Y-%m-%d %H:%M:%S"@) {
                Some((y, m, d, _h, _mi, _s)) => with_date(p, y, m, d),
                None => p,
            },
        },
        TemporalMode::Time => match parsed_time(t, "%H:%M:%S"@) {
            Some((h, mi, s)) => with_time(p, h, mi, s),
            None => match parsed_time(t, "%H:%M"@) {
                Some((h, mi, _s)) => with_time(p, h, mi, 0),
                None => p,
            },
        },
        TemporalMode::DateTime => match parsed_datetime(t, "%Y-%m-%d %H:%M:%S"@) {
            Some((y, m, d, h, mi, s)) => with_time(with_date(p, y, m, d), h, mi, s),
            None => match parsed_datetime(t, "%Y-%m-%dT%H:%M:%S"@) {
                Some((y, m, d, h, mi, s)) => with_time(with_date(p, y, m, d), h, mi, s),
                None => match parsed_rfc3339(t) {
                    Some((y, m, d, h, mi, s)) => with_time(with_date(p, y, m, d), h, mi, s),
                    None => p,
                },
            },
        },
    }
}

impl DateTimePicker {
    /// Reads a stored value into the picker.
    pub fn apply_temporal_string(&mut self, raw: &str)
        requires
            valid_fields(*old(self)),
        ensures
            *final(self) == applied_text(*old(self), raw@),
            valid_fields(*final(self)),
    {
        let t = string_from_chars(trim_chars(&to_chars(raw)).as_slice());
        let ts = t.as_str();
        match self.mode {
            TemporalMode::Date => {
                if let Some((y, m, d)) = parse_naive_date(ts, "%Y-%m-%d") {
                    self.year = y;
                    self.month = m;
                    self.day = d;
                    return;
                }
                if let Some((y, m, d, _h, _mi, _s)) = parse_naive_datetime(ts, "%Y-%m-%d %H:%M:%S") {
                    self.year = y;
                    self.month = m;
                    self.day = d;
                }
            },
            TemporalMode::Time => {
                if let Some((h, mi, s)) = parse_naive_time(ts, "%H:%M:%S") {
                    self.hour = h;
                    self.minute = mi;
                    self.second = s;
                    return;
                }
                if let Some((h, mi, _s)) = parse_naive_time(ts, "%H:%M") {
                    self.hour = h;
                    self.minute = mi;
                    self.second = 0;
                }
            },
            TemporalMode::DateTime => {
                let mut found = parse_naive_datetime(ts, "%Y-%m-%d %H:%M:%S");
                if found.is_none() {
                    found = parse_naive_datetime(ts, "%Y-%m-%dT%H:%M:%S");
                }
                if found.is_none() {
                    found = parse_rfc3339(ts);
                }
                if let Some((y, m, d, h, mi, s)) = found {
                    self.year = y;
                    self.month = m;
                    self.day = d;
                    self.hour = h;
                    self.minute = mi;
                    self.second = s;
                }
            },
        }
    }
}

/// A picker for a cell as it opens: the time `now`, the field given by
/// [`initial_part`], then the stored value read in (NULL sets the NULL
/// flag; a non-text value is read through its grid text).
pub open spec fn opened_picker(
    row: usize,
    c: ColumnInfo,
    mode: TemporalMode,
    now: (i32, u32, u32, u32, u32, u32),
    current: Option<crate::db_view::CellView>,
) -> DateTimePicker {
    let base = DateTimePicker {
        row_index: row,
        column_name: c.name,
        column_type: c.data_type,
        mode: mode,
        selected_part: initial_part(mode),
        year: now.0,
        month: now.1,
        day: now.2,
        hour: now.3,
        minute: now.4,
        second: now.5,
        nullable: c.is_nullable,
        is_null: false,
    };
    match current {
        None => base,
        Some(crate::db_view::CellView::Null) => DateTimePicker { is_null: true, ..base },
        Some(crate::db_view::CellView::Text(raw)) => applied_text(base, raw),
        Some(other) => applied_text(base, crate::db_view::display_text(other)),
    }
}

/// The view of an optional cell value.
pub open spec fn cell_opt_view(c: Option<crate::db_view::CellValue>) -> Option<crate::db_view::CellView> {
    match c {
        Some(v) => Some(v@),
        None => None,
    }
}

/// `p` is the picker for a cell opened at the time `now` (its texts taken
/// by their characters).
pub open spec fn opened_at(
    p: DateTimePicker,
    row: usize,
    c: ColumnInfo,
    current: Option<crate::db_view::CellView>,
    now: (i32, u32, u32, u32, u32, u32),
) -> bool {
    let q = opened_picker(row, c, mode_of(c)->Some_0, now, current);
    p == (DateTimePicker { column_name: p.column_name, column_type: p.column_type, ..q })
}

/// `p` is the picker for a cell opened at some valid date and time.
pub open spec fn opened_now(
    p: DateTimePicker,
    row: usize,
    c: ColumnInfo,
    current: Option<crate::db_view::CellView>,
) -> bool {
    exists|now: (i32, u32, u32, u32, u32, u32)|
        valid_date(now.0 as int, now.1 as int, now.2 as int) && valid_time(
            now.3 as int,
            now.4 as int,
            now.5 as int,
        ) && #[trigger] opened_at(p, row, c, current, now)
}

impl DateTimePicker {
    /// The picker for a cell of a date, time or timestamp column, opened at
    /// the time `now` with the cell's current value read in; `None` for
    /// another column.
    pub fn for_column(
        row_index: usize,
        column: &ColumnInfo,
        now: (i32, u32, u32, u32, u32, u32),
        current: Option<crate::db_view::CellValue>,
    ) -> (r: Option<DateTimePicker>)
        requires
            valid_date(now.0 as int, now.1 as int, now.2 as int),
            valid_time(now.3 as int, now.4 as int, now.5 as int),
        ensures
            match mode_of(*column) {
                None => r is None,
                Some(mode) => r matches Some(p) && valid_fields(p) && p.column_name@ == column.name@
                    && p.column_type@ == column.data_type@ && p == (DateTimePicker {
                    column_name: p.column_name,
                    column_type: p.column_type,
                    ..opened_picker(
                        row_index,
                        *column,
                        mode,
                        now,
                        match current {
                            Some(c) => Some(c@),
                            None => None,
                        },
                    )
                }),
            },
    {
        let mode = match temporal_mode_for(column) {
            Some(m) => m,
            None => {
                return None;
            },
        };
        let mut picker = DateTimePicker {
            row_index,
            column_name: string_from_chars(string_chars(&column.name).as_slice()),
            column_type: string_from_chars(string_chars(&column.data_type).as_slice()),
            mode,
            selected_part: initial_temporal_part(mode),
            year: now.0,
            month: now.1,
            day: now.2,
            hour: now.3,
            minute: now.4,
            second: now.5,
            nullable: column.is_nullable,
            is_null: false,
        };
        match current {
            None => {},
            Some(crate::db_view::CellValue::Null) => {
                picker.is_null = true;
            },
            Some(crate::db_view::CellValue::Text(raw)) => {
                picker.apply_temporal_string(raw.as_str());
            },
            Some(other) => {
                let shown = crate::db_view::value_to_display(&other);
                picker.apply_temporal_string(shown.as_str());
            },
        }
        let d = days_in_month(picker.year, picker.month);
        if picker.day > d {
            picker.day = d;
        }
        Some(picker)
    }

    /// The picker for a cell, opened at the current time.
    pub fn open_now(row_index: usize, column: &ColumnInfo, current: Option<crate::db_view::CellValue>) -> (r:
        Option<DateTimePicker>)
        ensures
            r is Some <==> mode_of(*column) is Some,
            r matches Some(p) ==> valid_fields(p) && p.column_name@ == column.name@
                && p.column_type@ == column.data_type@ && opened_now(
                p,
                row_index,
                *column,
                cell_opt_view(current),
            ),
    {
        let now = utc_now_fields();
        let ghost cv = cell_opt_view(current);
        let r = DateTimePicker::for_column(row_index, column, now, current);
        proof {
            if r is Some {
                assert(opened_at(r->Some_0, row_index, *column, cv, now));
            }
        }
        r
    }
}

// ---------------------------------------------------------------------------
// Laws
// ---------------------------------------------------------------------------

/// Moving to the next field and back returns to the same field, for every
/// field of the mode.
pub proof fn law_next_then_prev_part(mode: TemporalMode, p: TemporalPart)
    requires
        parts_of(mode).contains(p),
    ensures
        prev_part(mode, next_part(mode, p)) == p,
{
    let ps = parts_of(mode);
    assert(ps.no_duplicates());
    let i = choose|i: int| 0 <= i < ps.len() && ps[i] == p;
    lemma_index_of_unique(ps, i);
    let j = if i + 1 == ps.len() {
        0
    } else {
        i + 1
    };
    assert(j == (i + 1) % (ps.len() as int)) by {
        if i + 1 < ps.len() {
            vstd::arithmetic::div_mod::lemma_small_mod((i + 1) as nat, ps.len());
        } else {
            vstd::arithmetic::div_mod::lemma_mod_self_0(ps.len() as int);
        }
    }
    lemma_index_of_unique(ps, j);
}

/// Changing a field up and then down restores the picker, when the day was
/// not cut short by a shorter month or year in between.
pub proof fn law_up_then_down_restores(p: DateTimePicker)
    requires
        valid_fields(p),
        p.selected_part != TemporalPart::Year && p.selected_part != TemporalPart::Month,
    ensures
        adjusted(adjusted(p, 1), -1) == p,
{
    match p.selected_part {
        TemporalPart::Day => {
            let d = month_days(p.year as int, p.month as int);
            assert(wrap(wrap(p.day - 1 + 1, d) + 1 - 1 - 1, d) == p.day - 1) by (nonlinear_arith)
                requires
                    1 <= p.day <= d,
                    d >= 28,
            {
            }
        },
        TemporalPart::Hour => {
            assert(wrap(wrap(p.hour + 1, 24) - 1, 24) == p.hour) by (nonlinear_arith)
                requires
                    p.hour < 24,
            {
            }
        },
        TemporalPart::Minute => {
            assert(wrap(wrap(p.minute + 1, 60) - 1, 60) == p.minute) by (nonlinear_arith)
                requires
                    p.minute < 60,
            {
            }
        },
        TemporalPart::Second => {
            assert(wrap(wrap(p.second + 1, 60) - 1, 60) == p.second) by (nonlinear_arith)
                requires
                    p.second < 60,
            {
            }
        },
        _ => {},
    }
}

/// Moving the month keeps the date where it can: the month moves by
/// `delta` around the year, the year and the time stay, and the day is
/// kept when the new month has it, else it becomes the new month's last
/// day.
pub proof fn law_month_change_keeps_the_day(p: DateTimePicker, delta: int)
    requires
        valid_fields(p),
        p.selected_part == TemporalPart::Month,
    ensures
        ({
            let q = adjusted(p, delta);
            &&& 1 <= q.month <= 12
            &&& (q.month as int - p.month as int - delta) % 12 == 0
            &&& q.year == p.year
            &&& q.hour == p.hour && q.minute == p.minute && q.second == p.second
            &&& p.day <= month_days(q.year as int, q.month as int) ==> q.day == p.day
            &&& p.day > month_days(q.year as int, q.month as int) ==> q.day as int == month_days(
                q.year as int,
                q.month as int,
            )
        }),
{
    let m = p.month as int - 1 + delta;
    let w = m % 12;
    assert(0 <= w < 12);
    assert((w + 1 - p.month as int - delta) % 12 == 0) by (nonlinear_arith)
        requires
            w == m % 12,
            m == p.month as int - 1 + delta,
    {
    }
}

/// Moving the year keeps the date where it can: the month and time stay,
/// and the day is kept when that month has it in the new year (29
/// February becomes 28 February in a common year).
pub proof fn law_year_change_keeps_the_day(p: DateTimePicker, delta: int)
    requires
        valid_fields(p),
        p.selected_part == TemporalPart::Year,
        i32::MIN <= p.year + delta <= i32::MAX,
    ensures
        ({
            let q = adjusted(p, delta);
            &&& q.year == p.year + delta
            &&& q.month == p.month
            &&& q.hour == p.hour && q.minute == p.minute && q.second == p.second
            &&& p.day <= month_days(q.year as int, q.month as int) ==> q.day == p.day
            &&& p.day > month_days(q.year as int, q.month as int) ==> q.day as int == month_days(
                q.year as int,
                q.month as int,
            )
        }),
{
}

} // verus!
