//! Terminal colour handling for service output shown in the orchestrator:
//! the SGR style a line leaves active carries over to the following lines,
//! so every shown line renders with the colour it had in the terminal.

use vstd::prelude::*;
use crate::text::{push_all, string_chars, string_from_chars, trim, is_blank};

verus! {

/// The escape character that starts a control sequence.
pub open spec fn esc() -> char {
    '\u{1b}'
}

/// A control sequence ends with a character in `@`..=`~`.
pub open spec fn is_final_byte(c: char) -> bool {
    '@' <= c && c <= '~'
}

/// Position of the first final character of `s` at or after `k`.
pub open spec fn find_final(s: Seq<char>, k: int) -> Option<int>
    decreases s.len() - k,
{
    if k < 0 || k >= s.len() {
        None
    } else if is_final_byte(s[k]) {
        Some(k)
    } else {
        find_final(s, k + 1)
    }
}

/// `s` starts with `ESC [`.
pub open spec fn starts_with_csi(s: Seq<char>) -> bool {
    s.len() >= 2 && s[0] == esc() && s[1] == '['
}

/// The sequences that reset all styles: `ESC [ 0 m` and `ESC [ m`.
pub open spec fn is_reset_sequence(q: Seq<char>) -> bool {
    q == seq![esc(), '[', '0', 'm'] || q == seq![esc(), '[', 'm']
}

/// An SGR (style) sequence ends with `m`.
pub open spec fn is_sgr_sequence(q: Seq<char>) -> bool {
    q.len() > 0 && q.last() == 'm'
}

/// The active style after reading `line` from position `i` with style
/// `acc`: a reset clears it, another style sequence is appended to it.
pub open spec fn scan_styles(line: Seq<char>, i: int, acc: Seq<char>) -> Seq<char>
    decreases line.len() - i,
{
    if i < 0 || i + 1 >= line.len() {
        acc
    } else if line[i] != esc() || line[i + 1] != '[' {
        scan_styles(line, i + 1, acc)
    } else {
        match find_final(line, i + 2) {
            None => acc,
            Some(j) => {
                let q = line.subrange(i, j + 1);
                let next = if is_reset_sequence(q) {
                    Seq::<char>::empty()
                } else if is_sgr_sequence(q) {
                    acc + q
                } else {
                    acc
                };
                if i < j < line.len() {
                    scan_styles(line, j + 1, next)
                } else {
                    acc
                }
            },
        }
    }
}

/// The active style once `line` has been read: a line that starts with a
/// control sequence first drops the previous style.
pub open spec fn updated_prefix(line: Seq<char>, prefix: Seq<char>) -> Seq<char> {
    scan_styles(line, 0, if starts_with_csi(line) { Seq::empty() } else { prefix })
}

/// `s` without its `ESC [ ... final` control sequences.
pub open spec fn strip_ansi(s: Seq<char>) -> Seq<char>
    decreases s.len(),
{
    if s.len() == 0 {
        s
    } else if starts_with_csi(s) {
        match find_final(s, 2) {
            None => Seq::empty(),
            Some(j) => if 2 <= j < s.len() {
                strip_ansi(s.skip(j + 1))
            } else {
                Seq::empty()
            },
        }
    } else {
        seq![s[0]] + strip_ansi(s.drop_first())
    }
}

/// A line that holds an escape and nothing visible besides control
/// sequences and whitespace.
pub open spec fn is_control_only(line: Seq<char>) -> bool {
    line.contains(esc()) && trim(strip_ansi(line)).len() == 0
}

/// The shown form of `line` under the active style `prefix`: empty for a
/// control-only line; the line with the active style in front when a style
/// is active and the line does not start with its own control sequence.
pub open spec fn normalized_line(line: Seq<char>, prefix: Seq<char>) -> Seq<char> {
    if is_control_only(line) {
        Seq::empty()
    } else if line.len() == 0 {
        line
    } else if prefix.len() > 0 && !starts_with_csi(line) {
        prefix + line
    } else {
        line
    }
}

/// The active style after `line`: control-only lines and ordinary lines
/// update it, an empty line leaves it.
pub open spec fn prefix_after(line: Seq<char>, prefix: Seq<char>) -> Seq<char> {
    if is_control_only(line) {
        updated_prefix(line, prefix)
    } else if line.len() == 0 {
        prefix
    } else {
        updated_prefix(line, prefix)
    }
}

proof fn lemma_find_final_range(s: Seq<char>, k: int)
    requires
        k >= 0,
    ensures
        match find_final(s, k) {
            Some(j) => k <= j < s.len() && is_final_byte(s[j]) && forall|m: int|
                k <= m < j ==> !is_final_byte(#[trigger] s[m]),
            None => forall|m: int| k <= m < s.len() ==> !is_final_byte(#[trigger] s[m]),
        },
    decreases s.len() - k,
{
    if k >= 0 && k < s.len() && !is_final_byte(s[k]) {
        lemma_find_final_range(s, k + 1);
    }
}

fn find_final_exec(s: &Vec<char>, k: usize) -> (r: Option<usize>)
    ensures
        match r {
            Some(j) => find_final(s@, k as int) == Some(j as int),
            None => find_final(s@, k as int) is None,
        },
{
    let mut j = k;
    while j < s.len()
        invariant
            k <= j,
            find_final(s@, k as int) == find_final(s@, j as int),
        decreases s.len() - j,
    {
        if '@' <= s[j] && s[j] <= '~' {
            return Some(j);
        }
        j += 1;
    }
    None
}

fn starts_with_csi_exec(s: &Vec<char>) -> (b: bool)
    ensures
        b == starts_with_csi(s@),
{
    s.len() >= 2 && s[0] == '\u{1b}' && s[1] == '['
}

fn is_reset_exec(q: &Vec<char>) -> (b: bool)
    ensures
        b == is_reset_sequence(q@),
{
    let b = (q.len() == 4 && q[0] == '\u{1b}' && q[1] == '[' && q[2] == '0' && q[3] == 'm') || (
    q.len() == 3 && q[0] == '\u{1b}' && q[1] == '[' && q[2] == 'm');
    proof {
        if q@ == seq![esc(), '[', '0', 'm'] {
            assert(q@.len() == 4 && q@[0] == esc() && q@[1] == '[' && q@[2] == '0' && q@[3] == 'm');
        }
        if q@ == seq![esc(), '[', 'm'] {
            assert(q@.len() == 3 && q@[0] == esc() && q@[1] == '[' && q@[2] == 'm');
        }
        if q.len() == 4 && q[0] == '\u{1b}' && q[1] == '[' && q[2] == '0' && q[3] == 'm' {
            assert(q@ =~= seq![esc(), '[', '0', 'm']);
        }
        if q.len() == 3 && q[0] == '\u{1b}' && q[1] == '[' && q[2] == 'm' {
            assert(q@ =~= seq![esc(), '[', 'm']);
        }
    }
    b
}

/// Updates the active style with the control sequences of `line`.
pub fn update_active_ansi_prefix(line: &Vec<char>, prefix: &mut Vec<char>)
    ensures
        final(prefix)@ == updated_prefix(line@, old(prefix)@),
{
    if starts_with_csi_exec(line) {
        prefix.clear();
    }
    let ghost start = prefix@;
    let mut i: usize = 0;
    while i < line.len() && i + 1 < line.len()
        invariant
            i <= line.len(),
            updated_prefix(line@, old(prefix)@) == scan_styles(line@, i as int, prefix@),
        decreases line.len() - i,
    {
        if line[i] != '\u{1b}' || line[i + 1] != '[' {
            i += 1;
        } else {
            proof {
                lemma_find_final_range(line@, i + 2);
            }
            match find_final_exec(line, i + 2) {
                None => {
                    return;
                },
                Some(j) => {
                    let q = crate::text::slice_chars(line, i, j + 1);
                    if is_reset_exec(&q) {
                        prefix.clear();
                    } else if q[q.len() - 1] == 'm' {
                        push_all(prefix, &q);
                    }
                    i = j + 1;
                },
            }
        }
    }
}

/// Removes the `ESC [ ... final` control sequences of `line`.
pub fn strip_ansi_sequences(line: &Vec<char>) -> (r: Vec<char>)
    ensures
        r@ == strip_ansi(line@),
{
    let mut out: Vec<char> = Vec::new();
    let mut i: usize = 0;
    proof {
        assert(line@.skip(0) =~= line@);
    }
    while i < line.len()
        invariant
            i <= line.len(),
            strip_ansi(line@) == out@ + strip_ansi(line@.skip(i as int)),
        decreases line.len() - i,
    {
        let ghost rest = line@.skip(i as int);
        if i + 1 < line.len() && line[i] == '\u{1b}' && line[i + 1] == '[' {
            proof {
                lemma_find_final_range(line@, i + 2);
                lemma_find_final_range(rest, 2);
                assert(starts_with_csi(rest));
                // the searches in `line` and in `rest` agree
                match find_final(rest, 2) {
                    Some(j) => {
                        assert(is_final_byte(line@[i + j]));
                        assert forall|m: int| i + 2 <= m < i + j implies !is_final_byte(
                            #[trigger] line@[m],
                        ) by {
                            assert(rest[m - i] == line@[m]);
                        }
                    },
                    None => {
                        assert forall|m: int| i + 2 <= m < line@.len() implies !is_final_byte(
                            #[trigger] line@[m],
                        ) by {
                            assert(rest[m - i] == line@[m]);
                        }
                    },
                }
            }
            match find_final_exec(line, i + 2) {
                None => {
                    proof {
                        match find_final(rest, 2) {
                            Some(j) => {
                                assert(is_final_byte(line@[i + j]));
                            },
                            None => {},
                        }
                        assert(strip_ansi(rest) == Seq::<char>::empty());
                        assert(out@ + Seq::<char>::empty() =~= out@);
                    }
                    return out;
                },
                Some(j) => {
                    proof {
                        match find_final(rest, 2) {
                            Some(jj) => {
                                if jj < j - i {
                                    assert(is_final_byte(line@[i + jj]));
                                }
                                if jj > j - i {
                                    assert(rest[j - i] == line@[j as int]);
                                }
                            },
                            None => {
                                assert(rest[j - i] == line@[j as int]);
                            },
                        }
                        assert(rest.skip(j - i + 1) =~= line@.skip(j + 1));
                    }
                    i = j + 1;
                },
            }
        } else {
            proof {
                assert(!starts_with_csi(rest));
                assert(rest.drop_first() =~= line@.skip(i + 1));
                assert(out@.push(line@[i as int]) + strip_ansi(line@.skip(i + 1)) =~= out@ + (seq![
                    rest[0],
                ] + strip_ansi(rest.drop_first())));
            }
            out.push(line[i]);
            i += 1;
        }
    }
    proof {
        assert(line@.skip(i as int) =~= Seq::<char>::empty());
        assert(out@ + Seq::<char>::empty() =~= out@);
    }
    out
}

/// Whether a line holds only control sequences and whitespace.
pub fn is_ansi_control_only_line(line: &Vec<char>) -> (b: bool)
    ensures
        b == is_control_only(line@),
{
    let mut k: usize = 0;
    while k < line.len() && line[k] != '\u{1b}'
        invariant
            k <= line.len(),
            forall|m: int| 0 <= m < k ==> line@[m] != esc(),
        decreases line.len() - k,
    {
        k += 1;
    }
    if k == line.len() {
        return false;
    }
    proof {
        assert(line@[k as int] == esc());
    }
    let stripped = strip_ansi_sequences(line);
    is_blank(&stripped)
}

/// Prepares a service output line for display: the active style is put in
/// front of lines that continue it, control-only lines are shown empty, and
/// the active style is updated.
pub fn normalize_ansi_for_tui(line: String, active_ansi_prefix: &mut String) -> (r: Option<String>)
    ensures
        r is Some,
        r->0@ == normalized_line(line@, old(active_ansi_prefix)@),
        final(active_ansi_prefix)@ == prefix_after(line@, old(active_ansi_prefix)@),
{
    let lv = string_chars(&line);
    let mut prefix = string_chars(active_ansi_prefix);
    if is_ansi_control_only_line(&lv) {
        update_active_ansi_prefix(&lv, &mut prefix);
        *active_ansi_prefix = string_from_chars(prefix.as_slice());
        return Some(string_from_chars(Vec::<char>::new().as_slice()));
    }
    if lv.len() == 0 {
        return Some(line);
    }
    let prepend = prefix.len() > 0 && !starts_with_csi_exec(&lv);
    let mut out: Vec<char> = Vec::new();
    if prepend {
        push_all(&mut out, &prefix);
    }
    push_all(&mut out, &lv);
    update_active_ansi_prefix(&lv, &mut prefix);
    *active_ansi_prefix = string_from_chars(prefix.as_slice());
    proof {
        assert(Seq::<char>::empty() + lv@ =~= lv@);
    }
    Some(string_from_chars(out.as_slice()))
}

// ---------------------------------------------------------------------------
// Laws
// ---------------------------------------------------------------------------

proof fn lemma_scan_without_escape(line: Seq<char>, i: int, acc: Seq<char>)
    requires
        !line.contains(esc()),
    ensures
        scan_styles(line, i, acc) == acc,
    decreases line.len() - i,
{
    if i >= 0 && i + 1 < line.len() {
        assert(line[i] != esc());
        lemma_scan_without_escape(line, i + 1, acc);
    }
}

/// A line without escapes is shown after the active style, which it leaves
/// as it was: a colour carries over until a reset.
pub proof fn law_plain_line_continues_style(line: Seq<char>, prefix: Seq<char>)
    requires
        !line.contains(esc()),
        line.len() > 0,
    ensures
        normalized_line(line, prefix) == prefix + line,
        prefix_after(line, prefix) == prefix,
{
    lemma_scan_without_escape(line, 0, prefix);
    if prefix.len() == 0 {
        assert(prefix + line =~= line);
    }
    assert(!starts_with_csi(line)) by {
        if starts_with_csi(line) {
            assert(line[0] == esc());
        }
    }
}

/// A reset line (`ESC [ 0 m` or `ESC [ m`) is shown empty and clears the
/// active style.
pub proof fn law_reset_line_clears_style(line: Seq<char>, prefix: Seq<char>)
    requires
        is_reset_sequence(line),
    ensures
        normalized_line(line, prefix) == Seq::<char>::empty(),
        prefix_after(line, prefix) == Seq::<char>::empty(),
{
    assert(line[0] == esc());
    assert(line.contains(esc()));
    let j = line.len() - 1;
    assert(find_final(line, 2) == Some(j)) by {
        if line.len() == 4 {
            assert(!is_final_byte(line[2]));
            assert(find_final(line, 3) == Some(3int));
        }
    }
    assert(strip_ansi(line.skip(j + 1)) == Seq::<char>::empty()) by {
        assert(line.skip(j + 1) =~= Seq::<char>::empty());
    }
    assert(line.subrange(0, j + 1) =~= line);
    assert(scan_styles(line, j + 1, Seq::empty()) == Seq::<char>::empty());
}

} // verus!
