//! Character-sequence utilities shared by the rest of the library.
//!
//! Strings are modelled by their `Seq<char>` view. Executable helpers work on
//! `Vec<char>` buffers and convert at the public boundary.

use vstd::prelude::*;

verus! {

// ---------------------------------------------------------------------------
// Conversions
// ---------------------------------------------------------------------------

/// Copies the characters of `s` into a vector.
pub fn to_chars(s: &str) -> (v: Vec<char>)
    ensures
        v@ == s@,
{
    let mut v: Vec<char> = Vec::new();
    for c in it: s.chars()
        invariant
            v@ == it.seq().take(it.index() as int),
            it.seq() == s@,
    {
        v.push(c);
    }
    v
}

/// Builds a `String` holding exactly the given characters
/// (`String::from_iter` over the characters).
#[verifier::external_body]
pub fn string_from_chars(v: &[char]) -> (s: String)
    ensures
        s@ == v@,
{
    v.iter().collect()
}

/// Copies the characters of an owned string into a vector.
pub fn string_chars(s: &String) -> (v: Vec<char>)
    ensures
        v@ == s@,
{
    to_chars(s.as_str())
}

/// Appends `s[lo..hi]` to `out`.
pub fn push_range(out: &mut Vec<char>, s: &Vec<char>, lo: usize, hi: usize)
    requires
        lo <= hi <= s.len(),
    ensures
        final(out)@ == old(out)@ + s@.subrange(lo as int, hi as int),
{
    let ghost start = out@;
    let mut i = lo;
    while i < hi
        invariant
            lo <= i <= hi <= s.len(),
            out@ == start + s@.subrange(lo as int, i as int),
        decreases hi - i,
    {
        out.push(s[i]);
        proof {
            assert(s@.subrange(lo as int, i + 1) =~= s@.subrange(lo as int, i as int).push(s@[i as int]));
        }
        i += 1;
    }
}

/// Appends all of `s` to `out`.
pub fn push_all(out: &mut Vec<char>, s: &Vec<char>)
    ensures
        final(out)@ == old(out)@ + s@,
{
    push_range(out, s, 0, s.len());
    proof {
        assert(s@.subrange(0, s@.len() as int) =~= s@);
    }
}

/// Appends the characters of `s` to `out`.
pub fn push_str(out: &mut Vec<char>, s: &str)
    ensures
        final(out)@ == old(out)@ + s@,
{
    let v = to_chars(s);
    push_all(out, &v);
}

/// Returns a copy of `s[lo..hi]`.
pub fn slice_chars(s: &Vec<char>, lo: usize, hi: usize) -> (r: Vec<char>)
    requires
        lo <= hi <= s.len(),
    ensures
        r@ == s@.subrange(lo as int, hi as int),
{
    let mut r: Vec<char> = Vec::new();
    push_range(&mut r, s, lo, hi);
    proof {
        assert(Seq::<char>::empty() + s@.subrange(lo as int, hi as int) =~= s@.subrange(lo as int, hi as int));
    }
    r
}

/// Returns a copy of `s`.
pub fn copy_chars(s: &Vec<char>) -> (r: Vec<char>)
    ensures
        r@ == s@,
{
    let r = slice_chars(s, 0, s.len());
    proof {
        assert(s@.subrange(0, s@.len() as int) =~= s@);
    }
    r
}

/// Whether two character buffers hold the same characters.
pub fn chars_equal(a: &Vec<char>, b: &Vec<char>) -> (r: bool)
    ensures
        r == (a@ == b@),
{
    if a.len() != b.len() {
        return false;
    }
    let mut i: usize = 0;
    while i < a.len()
        invariant
            a.len() == b.len(),
            i <= a.len(),
            forall|k: int| 0 <= k < i ==> a@[k] == b@[k],
        decreases a.len() - i,
    {
        if a[i] != b[i] {
            return false;
        }
        i += 1;
    }
    proof {
        assert(a@ =~= b@);
    }
    true
}

/// Whether the characters of `a` are exactly those of the literal `b`.
pub fn chars_equal_str(a: &Vec<char>, b: &str) -> (r: bool)
    ensures
        r == (a@ == b@),
{
    let bv = to_chars(b);
    chars_equal(a, &bv)
}

// ---------------------------------------------------------------------------
// Whitespace and trimming
// ---------------------------------------------------------------------------

/// Unicode `White_Space`, the set that `char::is_whitespace` tests.
pub open spec fn is_whitespace(c: char) -> bool {
    let u = c as u32;
    (0x9 <= u && u <= 0xd) || u == 0x20 || u == 0x85 || u == 0xa0 || u == 0x1680 || (0x2000 <= u
        && u <= 0x200a) || u == 0x2028 || u == 0x2029 || u == 0x202f || u == 0x205f || u == 0x3000
}

/// Executable form of [`is_whitespace`].
pub fn char_is_whitespace(c: char) -> (b: bool)
    ensures
        b == is_whitespace(c),
{
    let u = c as u32;
    (0x9 <= u && u <= 0xd) || u == 0x20 || u == 0x85 || u == 0xa0 || u == 0x1680 || (0x2000 <= u
        && u <= 0x200a) || u == 0x2028 || u == 0x2029 || u == 0x202f || u == 0x205f || u == 0x3000
}

/// `s` without its leading whitespace.
pub open spec fn trim_start(s: Seq<char>) -> Seq<char>
    decreases s.len(),
{
    if s.len() > 0 && is_whitespace(s[0]) {
        trim_start(s.drop_first())
    } else {
        s
    }
}

/// `s` without its trailing whitespace.
pub open spec fn trim_end(s: Seq<char>) -> Seq<char>
    decreases s.len(),
{
    if s.len() > 0 && is_whitespace(s.last()) {
        trim_end(s.drop_last())
    } else {
        s
    }
}

/// `s` without leading and trailing whitespace (`str::trim`).
pub open spec fn trim(s: Seq<char>) -> Seq<char> {
    trim_end(trim_start(s))
}

/// Index of the first character of `s` that is not whitespace.
pub fn trim_start_index(s: &Vec<char>) -> (i: usize)
    ensures
        i <= s.len(),
        s@.skip(i as int) == trim_start(s@),
{
    let mut i: usize = 0;
    proof {
        assert(s@.skip(0) =~= s@);
    }
    while i < s.len() && char_is_whitespace(s[i])
        invariant
            i <= s.len(),
            trim_start(s@) == trim_start(s@.skip(i as int)),
        decreases s.len() - i,
    {
        proof {
            assert(s@.skip(i as int).drop_first() =~= s@.skip(i + 1));
        }
        i += 1;
    }
    i
}

/// End of `s[lo..]` once its trailing whitespace is removed.
pub fn trim_end_index(s: &Vec<char>, lo: usize) -> (j: usize)
    requires
        lo <= s.len(),
    ensures
        lo <= j <= s.len(),
        s@.subrange(lo as int, j as int) == trim_end(s@.subrange(lo as int, s@.len() as int)),
{
    let mut j = s.len();
    while j > lo && char_is_whitespace(s[j - 1])
        invariant
            lo <= j <= s.len(),
            trim_end(s@.subrange(lo as int, s@.len() as int)) == trim_end(
                s@.subrange(lo as int, j as int),
            ),
        decreases j,
    {
        proof {
            assert(s@.subrange(lo as int, j as int).drop_last() =~= s@.subrange(
                lo as int,
                j - 1,
            ));
        }
        j -= 1;
    }
    j
}

/// Bounds of the trimmed part of `s`.
pub fn trim_bounds(s: &Vec<char>) -> (r: (usize, usize))
    ensures
        r.0 <= r.1 <= s.len(),
        s@.subrange(r.0 as int, r.1 as int) == trim(s@),
{
    let i = trim_start_index(s);
    let j = trim_end_index(s, i);
    proof {
        assert(s@.skip(i as int) =~= s@.subrange(i as int, s@.len() as int));
    }
    (i, j)
}

/// A copy of `s` with leading and trailing whitespace removed.
pub fn trim_chars(s: &Vec<char>) -> (r: Vec<char>)
    ensures
        r@ == trim(s@),
{
    let (i, j) = trim_bounds(s);
    slice_chars(s, i, j)
}

/// A copy of `s` with leading whitespace removed.
pub fn trim_start_chars(s: &Vec<char>) -> (r: Vec<char>)
    ensures
        r@ == trim_start(s@),
{
    let i = trim_start_index(s);
    let r = slice_chars(s, i, s.len());
    proof {
        assert(s@.skip(i as int) =~= s@.subrange(i as int, s@.len() as int));
    }
    r
}

/// Whether `s` holds only whitespace (`s.trim().is_empty()`).
pub fn is_blank(s: &Vec<char>) -> (b: bool)
    ensures
        b == (trim(s@).len() == 0),
{
    let (i, j) = trim_bounds(s);
    i == j
}

/// Whether a string holds only whitespace.
pub fn str_is_blank(s: &str) -> (b: bool)
    ensures
        b == (trim(s@).len() == 0),
{
    let v = to_chars(s);
    is_blank(&v)
}

/// A trimmed copy of a string (`s.trim().to_string()`).
pub fn trim_string(s: &str) -> (r: String)
    ensures
        r@ == trim(s@),
{
    let v = to_chars(s);
    let t = trim_chars(&v);
    string_from_chars(t.as_slice())
}

// ---------------------------------------------------------------------------
// Searching
// ---------------------------------------------------------------------------

/// `pat` occurs in `s` at index `i`.
pub open spec fn matches_at(s: Seq<char>, pat: Seq<char>, i: int) -> bool {
    0 <= i && i + pat.len() <= s.len() && s.subrange(i, i + pat.len()) == pat
}

/// Index of the first occurrence of `pat` in `s` at or after `start`.
pub open spec fn find_from(s: Seq<char>, pat: Seq<char>, start: int) -> Option<int>
    decreases s.len() + 1 - start,
{
    if start < 0 || start > s.len() {
        None
    } else if matches_at(s, pat, start) {
        Some(start)
    } else {
        find_from(s, pat, start + 1)
    }
}

/// `s` starts with `pat`.
pub open spec fn starts_with(s: Seq<char>, pat: Seq<char>) -> bool {
    matches_at(s, pat, 0)
}

/// `s` ends with `pat`.
pub open spec fn ends_with(s: Seq<char>, pat: Seq<char>) -> bool {
    pat.len() <= s.len() && matches_at(s, pat, s.len() - pat.len())
}

/// `s` contains `pat`.
pub open spec fn contains(s: Seq<char>, pat: Seq<char>) -> bool {
    find_from(s, pat, 0) is Some
}

/// What [`find_from`] returns, stated by its properties.
pub proof fn lemma_find_from(s: Seq<char>, pat: Seq<char>, start: int)
    requires
        0 <= start,
    ensures
        match find_from(s, pat, start) {
            Some(i) => start <= i && i + pat.len() <= s.len() && matches_at(s, pat, i) && forall|
                j: int,
            |
                start <= j < i ==> !#[trigger] matches_at(s, pat, j),
            None => forall|j: int| start <= j ==> !#[trigger] matches_at(s, pat, j),
        },
    decreases s.len() + 1 - start,
{
    if start > s.len() {
    } else if matches_at(s, pat, start) {
    } else {
        lemma_find_from(s, pat, start + 1);
        assert forall|j: int| start <= j && (j < start + 1) implies !#[trigger] matches_at(
            s,
            pat,
            j,
        ) by {}
    }
}

/// A first occurrence characterised by its properties is what [`find_from`] returns.
pub proof fn lemma_find_from_unique(s: Seq<char>, pat: Seq<char>, start: int, i: int)
    requires
        0 <= start <= i,
        matches_at(s, pat, i),
        forall|j: int| start <= j < i ==> !#[trigger] matches_at(s, pat, j),
    ensures
        find_from(s, pat, start) == Some(i),
{
    lemma_find_from(s, pat, start);
    match find_from(s, pat, start) {
        Some(k) => {
            if k < i {
                assert(!matches_at(s, pat, k));
            } else if k > i {
                assert(!matches_at(s, pat, i));
            }
        },
        None => {
            assert(!matches_at(s, pat, i));
        },
    }
}

/// Whether `pat` occurs in `s` at index `i`.
pub fn matches_at_exec(s: &Vec<char>, pat: &Vec<char>, i: usize) -> (b: bool)
    ensures
        b == matches_at(s@, pat@, i as int),
{
    if i > s.len() || pat.len() > s.len() - i {
        return false;
    }
    let mut k: usize = 0;
    while k < pat.len()
        invariant
            i + pat.len() <= s.len(),
            k <= pat.len(),
            forall|m: int| 0 <= m < k ==> s@[i + m] == pat@[m],
        decreases pat.len() - k,
    {
        if s[i + k] != pat[k] {
            proof {
                assert(s@.subrange(i as int, i + pat.len())[k as int] != pat@[k as int]);
            }
            return false;
        }
        k += 1;
    }
    proof {
        assert(s@.subrange(i as int, i + pat.len()) =~= pat@);
    }
    true
}

/// Index of the first occurrence of `pat` in `s` at or after `start`.
pub fn find_from_exec(s: &Vec<char>, pat: &Vec<char>, start: usize) -> (r: Option<usize>)
    ensures
        match r {
            Some(i) => find_from(s@, pat@, start as int) == Some(i as int),
            None => find_from(s@, pat@, start as int) is None,
        },
{
    proof {
        lemma_find_from(s@, pat@, start as int);
    }
    if start > s.len() {
        return None;
    }
    let mut i = start;
    while i < s.len()
        invariant
            start <= i <= s.len(),
            forall|j: int| start <= j < i ==> !#[trigger] matches_at(s@, pat@, j),
        decreases s.len() - i,
    {
        if matches_at_exec(s, pat, i) {
            proof {
                lemma_find_from_unique(s@, pat@, start as int, i as int);
            }
            return Some(i);
        }
        i += 1;
    }
    if matches_at_exec(s, pat, i) {
        proof {
            lemma_find_from_unique(s@, pat@, start as int, i as int);
        }
        return Some(i);
    }
    proof {
        match find_from(s@, pat@, start as int) {
            Some(k) => {
                assert(!matches_at(s@, pat@, k));
            },
            None => {},
        }
    }
    None
}

/// Index of the first occurrence of `c` in `s` at or after `start`.
pub fn find_char_from(s: &Vec<char>, c: char, start: usize) -> (r: Option<usize>)
    ensures
        match r {
            Some(i) => find_from(s@, seq![c], start as int) == Some(i as int),
            None => find_from(s@, seq![c], start as int) is None,
        },
{
    let mut pat: Vec<char> = Vec::new();
    pat.push(c);
    proof {
        assert(pat@ =~= seq![c]);
    }
    find_from_exec(s, &pat, start)
}

/// Whether `s` starts with `pat`.
pub fn starts_with_exec(s: &Vec<char>, pat: &Vec<char>) -> (b: bool)
    ensures
        b == starts_with(s@, pat@),
{
    matches_at_exec(s, pat, 0)
}

/// Whether `s` starts with the literal `pat`.
pub fn starts_with_str(s: &Vec<char>, pat: &str) -> (b: bool)
    ensures
        b == starts_with(s@, pat@),
{
    let p = to_chars(pat);
    matches_at_exec(s, &p, 0)
}

/// Whether `s` ends with `pat`.
pub fn ends_with_exec(s: &Vec<char>, pat: &Vec<char>) -> (b: bool)
    ensures
        b == ends_with(s@, pat@),
{
    if pat.len() > s.len() {
        false
    } else {
        matches_at_exec(s, pat, s.len() - pat.len())
    }
}

/// Whether `s` ends with the literal `pat`.
pub fn ends_with_str(s: &Vec<char>, pat: &str) -> (b: bool)
    ensures
        b == ends_with(s@, pat@),
{
    let p = to_chars(pat);
    ends_with_exec(s, &p)
}

/// Whether `s` contains `pat`.
pub fn contains_exec(s: &Vec<char>, pat: &Vec<char>) -> (b: bool)
    ensures
        b == contains(s@, pat@),
{
    find_from_exec(s, pat, 0).is_some()
}

/// Whether `s` contains the literal `pat`.
pub fn contains_str(s: &Vec<char>, pat: &str) -> (b: bool)
    ensures
        b == contains(s@, pat@),
{
    let p = to_chars(pat);
    contains_exec(s, &p)
}

/// Whether `s` contains the character `c`.
pub fn contains_char(s: &Vec<char>, c: char) -> (b: bool)
    ensures
        b == contains(s@, seq![c]),
{
    find_char_from(s, c, 0).is_some()
}

// ---------------------------------------------------------------------------
// Splitting
// ---------------------------------------------------------------------------

/// `str::split_once(c)`: the parts before and after the first `c`.
pub open spec fn split_once(s: Seq<char>, c: char) -> Option<(Seq<char>, Seq<char>)> {
    match find_from(s, seq![c], 0) {
        Some(i) => Some((s.take(i), s.skip(i + 1))),
        None => None,
    }
}

/// Executable form of [`split_once`].
pub fn split_once_exec(s: &Vec<char>, c: char) -> (r: Option<(Vec<char>, Vec<char>)>)
    ensures
        match r {
            Some(p) => split_once(s@, c) == Some((p.0@, p.1@)),
            None => split_once(s@, c) is None,
        },
{
    proof {
        lemma_find_from(s@, seq![c], 0);
    }
    match find_char_from(s, c, 0) {
        Some(i) => {
            proof {
                assert(seq![c].len() == 1);
                assert(i + 1 <= s@.len());
            }
            let n = s.len();
            let before = slice_chars(s, 0, i);
            let after = slice_chars(s, i + 1, n);
            proof {
                assert(before@ =~= s@.take(i as int));
                assert(after@ =~= s@.skip(i + 1));
            }
            Some((before, after))
        },
        None => None,
    }
}

/// `str::split(c)`: every piece between occurrences of `c`, empty pieces
/// included.
pub open spec fn split_all(s: Seq<char>, c: char) -> Seq<Seq<char>>
    decreases s.len(),
{
    match find_from(s, seq![c], 0) {
        None => seq![s],
        Some(i) => {
            proof {
                lemma_find_from(s, seq![c], 0);
            }
            seq![s.take(i)] + split_all(s.skip(i + 1), c)
        },
    }
}

/// Executable form of [`split_all`].
pub fn split_all_exec(s: &Vec<char>, c: char) -> (r: Vec<Vec<char>>)
    ensures
        r@.map_values(|v: Vec<char>| v@) == split_all(s@, c),
{
    let mut out: Vec<Vec<char>> = Vec::new();
    let mut pos: usize = 0;
    proof {
        assert(s@.skip(0) =~= s@);
    }
    loop
        invariant
            pos <= s.len(),
            split_all(s@, c) == out@.map_values(|v: Vec<char>| v@) + split_all(s@.skip(pos as int), c),
        decreases s.len() - pos,
    {
        let ghost rest = s@.skip(pos as int);
        proof {
            lemma_find_from(s@, seq![c], pos as int);
            lemma_find_from(rest, seq![c], 0);
        }
        match find_char_from(s, c, pos) {
            Some(i) => {
                let piece = slice_chars(s, pos, i);
                proof {
                    assert forall|j: int| 0 <= j < i - pos implies !#[trigger] matches_at(
                        rest,
                        seq![c],
                        j,
                    ) by {
                        assert(rest.subrange(j, j + 1) =~= s@.subrange(pos + j, pos + j + 1));
                        assert(!matches_at(s@, seq![c], pos + j));
                    }
                    assert(rest.subrange(i - pos, i - pos + 1) =~= s@.subrange(i as int, i + 1));
                    lemma_find_from_unique(rest, seq![c], 0, i - pos);
                    assert(rest.take(i - pos) =~= piece@);
                    assert(rest.skip(i - pos + 1) =~= s@.skip(i + 1));
                }
                let ghost old_out = out@;
                out.push(piece);
                proof {
                    assert(out@.map_values(|v: Vec<char>| v@) =~= old_out.map_values(
                        |v: Vec<char>| v@,
                    ).push(piece@));
                    assert(old_out.map_values(|v: Vec<char>| v@) + split_all(rest, c) =~= out@.map_values(
                        |v: Vec<char>| v@,
                    ) + split_all(s@.skip(i + 1), c));
                }
                pos = i + 1;
            },
            None => {
                let piece = slice_chars(s, pos, s.len());
                proof {
                    assert forall|j: int| 0 <= j implies !#[trigger] matches_at(rest, seq![c], j) by {
                        if j + 1 <= rest.len() {
                            assert(rest.subrange(j, j + 1) =~= s@.subrange(pos + j, pos + j + 1));
                            assert(!matches_at(s@, seq![c], pos + j));
                        }
                    }
                    match find_from(rest, seq![c], 0) {
                        Some(k) => {
                            assert(!matches_at(rest, seq![c], k));
                        },
                        None => {},
                    }
                    assert(piece@ =~= rest);
                }
                let ghost old_out = out@;
                out.push(piece);
                proof {
                    assert(out@.map_values(|v: Vec<char>| v@) =~= old_out.map_values(
                        |v: Vec<char>| v@,
                    ).push(piece@));
                    assert(split_all(s@, c) =~= out@.map_values(|v: Vec<char>| v@));
                }
                return out;
            },
        }
    }
}

/// Index of the last occurrence of `pat` in `s` starting at or before `i`.
pub open spec fn find_last_at_or_before(s: Seq<char>, pat: Seq<char>, i: int) -> Option<int>
    decreases i + 1,
{
    if i < 0 {
        None
    } else if matches_at(s, pat, i) {
        Some(i)
    } else {
        find_last_at_or_before(s, pat, i - 1)
    }
}

/// Index of the last occurrence of `pat` in `s` (`str::rfind`).
pub open spec fn find_last(s: Seq<char>, pat: Seq<char>) -> Option<int> {
    find_last_at_or_before(s, pat, s.len() - pat.len())
}

/// `str::rsplit_once(pat)`: the parts before and after the last `pat`.
pub open spec fn rsplit_once(s: Seq<char>, pat: Seq<char>) -> Option<(Seq<char>, Seq<char>)> {
    match find_last(s, pat) {
        Some(i) => Some((s.take(i), s.skip(i + pat.len()))),
        None => None,
    }
}

proof fn lemma_find_last_range(s: Seq<char>, pat: Seq<char>, i: int)
    ensures
        match find_last_at_or_before(s, pat, i) {
            Some(k) => 0 <= k <= i && matches_at(s, pat, k),
            None => true,
        },
    decreases i + 1,
{
    if i >= 0 && !matches_at(s, pat, i) {
        lemma_find_last_range(s, pat, i - 1);
    }
}

/// Executable form of [`rsplit_once`].
pub fn rsplit_once_exec(s: &Vec<char>, pat: &Vec<char>) -> (r: Option<(Vec<char>, Vec<char>)>)
    ensures
        match r {
            Some(p) => rsplit_once(s@, pat@) == Some((p.0@, p.1@)),
            None => rsplit_once(s@, pat@) is None,
        },
{
    if pat.len() > s.len() {
        proof {
            assert(find_last(s@, pat@) is None);
        }
        return None;
    }
    let mut i: usize = s.len() - pat.len();
    loop
        invariant
            i + pat.len() <= s.len(),
            find_last(s@, pat@) == find_last_at_or_before(s@, pat@, i as int),
        decreases i,
    {
        if matches_at_exec(s, pat, i) {
            let n = s.len();
            let before = slice_chars(s, 0, i);
            let after = slice_chars(s, i + pat.len(), n);
            proof {
                assert(before@ =~= s@.take(i as int));
                assert(after@ =~= s@.skip(i + pat@.len()));
            }
            return Some((before, after));
        }
        if i == 0 {
            proof {
                assert(find_last_at_or_before(s@, pat@, -1) is None);
            }
            return None;
        }
        i -= 1;
    }
}

/// `s` with every trailing `c` removed (`str::trim_end_matches(c)`).
pub open spec fn trim_end_char(s: Seq<char>, c: char) -> Seq<char>
    decreases s.len(),
{
    if s.len() > 0 && s.last() == c {
        trim_end_char(s.drop_last(), c)
    } else {
        s
    }
}

/// Executable form of [`trim_end_char`].
pub fn trim_end_char_exec(s: &Vec<char>, c: char) -> (r: Vec<char>)
    ensures
        r@ == trim_end_char(s@, c),
{
    let mut j = s.len();
    proof {
        assert(s@.take(j as int) =~= s@);
    }
    while j > 0 && s[j - 1] == c
        invariant
            j <= s.len(),
            trim_end_char(s@, c) == trim_end_char(s@.take(j as int), c),
        decreases j,
    {
        proof {
            assert(s@.take(j as int).drop_last() =~= s@.take(j - 1));
        }
        j -= 1;
    }
    let r = slice_chars(s, 0, j);
    proof {
        assert(s@.take(s@.len() as int) =~= s@);
        assert(r@ =~= s@.take(j as int));
    }
    r
}

/// `line` with one trailing `'\r'` removed, if present.
pub open spec fn strip_cr(line: Seq<char>) -> Seq<char> {
    if line.len() > 0 && line.last() == '\r' {
        line.drop_last()
    } else {
        line
    }
}

/// `str::lines`: pieces between `'\n'` characters, each without a
/// trailing `'\r'`, and no empty piece after a final `'\n'`.
pub open spec fn lines(s: Seq<char>) -> Seq<Seq<char>>
    decreases s.len(),
{
    if s.len() == 0 {
        seq![]
    } else {
        match find_from(s, seq!['\n'], 0) {
            None => seq![s],
            Some(i) => {
                proof {
                    lemma_find_from(s, seq!['\n'], 0);
                }
                seq![strip_cr(s.take(i))] + lines(s.skip(i + 1))
            },
        }
    }
}

/// Executable form of [`lines`].
pub fn lines_exec(s: &Vec<char>) -> (r: Vec<Vec<char>>)
    ensures
        r@.len() == lines(s@).len(),
        forall|k: int| 0 <= k < r@.len() ==> #[trigger] r@[k]@ == lines(s@)[k],
{
    let mut out: Vec<Vec<char>> = Vec::new();
    let mut pos: usize = 0;
    proof {
        assert(s@.skip(0) =~= s@);
    }
    while pos < s.len()
        invariant
            pos <= s.len(),
            lines(s@) == out@.map_values(|v: Vec<char>| v@) + lines(s@.skip(pos as int)),
        decreases s.len() - pos,
    {
        let ghost rest = s@.skip(pos as int);
        proof {
            lemma_find_from(s@, seq!['\n'], pos as int);
            lemma_find_from(rest, seq!['\n'], 0);
        }
        match find_char_from(s, '\n', pos) {
            Some(i) => {
                let mut line = slice_chars(s, pos, i);
                if line.len() > 0 && line[line.len() - 1] == '\r' {
                    line.pop();
                }
                proof {
                    // the first newline of `rest` sits at `i - pos`
                    assert forall|j: int| 0 <= j < i - pos implies !#[trigger] matches_at(
                        rest,
                        seq!['\n'],
                        j,
                    ) by {
                        assert(rest.subrange(j, j + 1) =~= s@.subrange(pos + j, pos + j + 1));
                        assert(!matches_at(s@, seq!['\n'], pos + j));
                    }
                    assert(rest.subrange(i - pos, i - pos + 1) =~= s@.subrange(
                        i as int,
                        i + 1,
                    ));
                    lemma_find_from_unique(rest, seq!['\n'], 0, i - pos);
                    assert(rest.take(i - pos) =~= s@.subrange(pos as int, i as int));
                    assert(rest.skip(i - pos + 1) =~= s@.skip(i + 1));
                    assert(line@ == strip_cr(rest.take(i - pos)));
                }
                let ghost old_out = out@;
                out.push(line);
                proof {
                    assert(out@.map_values(|v: Vec<char>| v@) =~= old_out.map_values(
                        |v: Vec<char>| v@,
                    ).push(line@));
                    assert(lines(rest) == seq![strip_cr(rest.take(i - pos))] + lines(
                        rest.skip(i - pos + 1),
                    ));
                    assert(old_out.map_values(|v: Vec<char>| v@) + lines(rest) =~= out@.map_values(
                        |v: Vec<char>| v@,
                    ) + lines(s@.skip(i + 1)));
                }
                pos = i + 1;
            },
            None => {
                let line = slice_chars(s, pos, s.len());
                proof {
                    assert forall|j: int| 0 <= j implies !#[trigger] matches_at(
                        rest,
                        seq!['\n'],
                        j,
                    ) by {
                        if j + 1 <= rest.len() {
                            assert(rest.subrange(j, j + 1) =~= s@.subrange(pos + j, pos + j + 1));
                            assert(!matches_at(s@, seq!['\n'], pos + j));
                        }
                    }
                    match find_from(rest, seq!['\n'], 0) {
                        Some(k) => {
                            assert(!matches_at(rest, seq!['\n'], k));
                        },
                        None => {},
                    }
                    assert(line@ =~= rest);
                }
                let ghost old_out = out@;
                out.push(line);
                proof {
                    assert(out@.map_values(|v: Vec<char>| v@) =~= old_out.map_values(
                        |v: Vec<char>| v@,
                    ).push(line@));
                    assert(s@.skip(s@.len() as int) =~= Seq::<char>::empty());
                    assert(lines(s@.skip(s@.len() as int)) =~= Seq::<Seq<char>>::empty());
                    assert(old_out.map_values(|v: Vec<char>| v@) + lines(rest) =~= out@.map_values(
                        |v: Vec<char>| v@,
                    ) + lines(s@.skip(s@.len() as int)));
                }
                pos = s.len();
            },
        }
    }
    proof {
        assert(s@.skip(pos as int) =~= Seq::<char>::empty());
        assert(lines(s@.skip(pos as int)) =~= Seq::<Seq<char>>::empty());
        assert(lines(s@) =~= out@.map_values(|v: Vec<char>| v@));
        assert forall|k: int| 0 <= k < out@.len() implies #[trigger] out@[k]@ == lines(s@)[k] by {
            assert(out@.map_values(|v: Vec<char>| v@)[k] == out@[k]@);
        }
    }
    out
}

// ---------------------------------------------------------------------------
// Lexicographic order (the order of `String`'s `Ord`)
// ---------------------------------------------------------------------------

/// `a` sorts strictly before `b`, character by character. UTF-8 preserves
/// code point order, so this is the order of `String` comparison.
pub open spec fn lex_lt(a: Seq<char>, b: Seq<char>) -> bool
    decreases a.len(),
{
    if a.len() == 0 {
        b.len() > 0
    } else if b.len() == 0 {
        false
    } else if a[0] != b[0] {
        (a[0] as u32) < (b[0] as u32)
    } else {
        lex_lt(a.drop_first(), b.drop_first())
    }
}

/// No sequence sorts before itself.
pub proof fn lemma_lex_irreflexive(a: Seq<char>)
    ensures
        !lex_lt(a, a),
    decreases a.len(),
{
    if a.len() > 0 {
        lemma_lex_irreflexive(a.drop_first());
    }
}

/// The order is transitive.
pub proof fn lemma_lex_transitive(a: Seq<char>, b: Seq<char>, c: Seq<char>)
    requires
        lex_lt(a, b),
        lex_lt(b, c),
    ensures
        lex_lt(a, c),
    decreases a.len(),
{
    if a.len() > 0 && b.len() > 0 && c.len() > 0 {
        if a[0] == b[0] && b[0] == c[0] {
            lemma_lex_transitive(a.drop_first(), b.drop_first(), c.drop_first());
        }
    }
}

/// Any two sequences are equal or ordered one way.
pub proof fn lemma_lex_total(a: Seq<char>, b: Seq<char>)
    ensures
        a == b || lex_lt(a, b) || lex_lt(b, a),
    decreases a.len(),
{
    if a.len() == 0 && b.len() == 0 {
        assert(a =~= b);
    } else if a.len() > 0 && b.len() > 0 && a[0] == b[0] {
        lemma_lex_total(a.drop_first(), b.drop_first());
        if a.drop_first() == b.drop_first() {
            assert(a =~= seq![a[0]] + a.drop_first());
            assert(b =~= seq![b[0]] + b.drop_first());
        }
    } else if a.len() > 0 && b.len() > 0 {
        if (a[0] as u32) == (b[0] as u32) {
            vstd::utf8::char_u32_cast(a[0], a[0] as u32);
            vstd::utf8::char_u32_cast(b[0], b[0] as u32);
        }
    }
}

/// The order is asymmetric.
pub proof fn lemma_lex_asymmetric(a: Seq<char>, b: Seq<char>)
    ensures
        lex_lt(a, b) ==> !lex_lt(b, a),
{
    if lex_lt(a, b) && lex_lt(b, a) {
        lemma_lex_transitive(a, b, a);
        lemma_lex_irreflexive(a);
    }
}

/// Whether `a` sorts strictly before `b`.
pub fn lex_less(a: &Vec<char>, b: &Vec<char>) -> (r: bool)
    ensures
        r == lex_lt(a@, b@),
{
    let mut i: usize = 0;
    proof {
        assert(a@.skip(0) =~= a@);
        assert(b@.skip(0) =~= b@);
    }
    while i < a.len() && i < b.len()
        invariant
            i <= a.len(),
            i <= b.len(),
            lex_lt(a@, b@) == lex_lt(a@.skip(i as int), b@.skip(i as int)),
        decreases a.len() - i,
    {
        if a[i] != b[i] {
            proof {
                assert(a@.skip(i as int)[0] == a@[i as int]);
                assert(b@.skip(i as int)[0] == b@[i as int]);
            }
            return (a[i] as u32) < (b[i] as u32);
        }
        proof {
            assert(a@.skip(i as int).drop_first() =~= a@.skip(i + 1));
            assert(b@.skip(i as int).drop_first() =~= b@.skip(i + 1));
        }
        i += 1;
    }
    i == a.len() && i < b.len()
}

// ---------------------------------------------------------------------------
// Case mapping
// ---------------------------------------------------------------------------

/// `char::to_ascii_lowercase`.
pub open spec fn ascii_lower(c: char) -> char {
    let u = c as u32;
    if 65 <= u && u <= 90 {
        (u + 32) as char
    } else {
        c
    }
}

/// `char::to_ascii_uppercase`.
pub open spec fn ascii_upper(c: char) -> char {
    let u = c as u32;
    if 97 <= u && u <= 122 {
        (u - 32) as char
    } else {
        c
    }
}

/// `str::to_ascii_lowercase`.
pub open spec fn ascii_lowercase(s: Seq<char>) -> Seq<char> {
    s.map_values(|c: char| ascii_lower(c))
}

/// Executable form of [`ascii_lower`].
pub fn char_ascii_lower(c: char) -> (r: char)
    ensures
        r == ascii_lower(c),
{
    let u = c as u32;
    if 65 <= u && u <= 90 {
        ((u + 32) as u8) as char
    } else {
        c
    }
}

/// A copy of `s` with ASCII letters lowered.
pub fn ascii_lowercase_chars(s: &Vec<char>) -> (r: Vec<char>)
    ensures
        r@ == ascii_lowercase(s@),
{
    let mut r: Vec<char> = Vec::new();
    let mut i: usize = 0;
    while i < s.len()
        invariant
            i <= s.len(),
            r@ =~= ascii_lowercase(s@.take(i as int)),
        decreases s.len() - i,
    {
        r.push(char_ascii_lower(s[i]));
        proof {
            assert(s@.take(i + 1) =~= s@.take(i as int).push(s@[i as int]));
        }
        i += 1;
    }
    proof {
        assert(s@.take(s@.len() as int) =~= s@);
    }
    r
}

/// `str::to_ascii_uppercase`.
pub open spec fn ascii_uppercase(s: Seq<char>) -> Seq<char> {
    s.map_values(|c: char| ascii_upper(c))
}

/// Every character of the text is ASCII.
pub open spec fn is_ascii_text(s: Seq<char>) -> bool {
    forall|i: int| 0 <= i < s.len() ==> (#[trigger] s[i] as u32) < 128
}

/// Unicode lowercase mapping of a string (`str::to_lowercase`).
pub uninterp spec fn unicode_lowercase(s: Seq<char>) -> Seq<char>;

/// Unicode uppercase mapping of a string (`str::to_uppercase`).
pub uninterp spec fn unicode_uppercase(s: Seq<char>) -> Seq<char>;

/// Calls `str::to_lowercase`; the result is named [`unicode_lowercase`] of the
/// input, whose full Unicode tables are not written out here. Of an
/// all-ASCII input it states what the Unicode mapping does there: `A`-`Z`
/// become `a`-`z` and every other character stays.
#[verifier::external_body]
pub fn to_lowercase_string(s: &str) -> (r: String)
    ensures
        r@ == unicode_lowercase(s@),
        is_ascii_text(s@) ==> r@ == ascii_lowercase(s@),
{
    s.to_lowercase()
}

/// Calls `str::to_uppercase`; the result is named [`unicode_uppercase`] of the
/// input, whose full Unicode tables are not written out here. Of an
/// all-ASCII input it states what the Unicode mapping does there: `a`-`z`
/// become `A`-`Z` and every other character stays.
#[verifier::external_body]
pub fn to_uppercase_string(s: &str) -> (r: String)
    ensures
        r@ == unicode_uppercase(s@),
        is_ascii_text(s@) ==> r@ == ascii_uppercase(s@),
{
    s.to_uppercase()
}

// ---------------------------------------------------------------------------
// Replacement
// ---------------------------------------------------------------------------

/// `str::replace(pat, rep)` for a non-empty `pat`: leftmost, non-overlapping.
pub open spec fn replace_all(s: Seq<char>, pat: Seq<char>, rep: Seq<char>) -> Seq<char>
    decreases s.len(),
{
    if pat.len() == 0 || s.len() < pat.len() {
        s
    } else if s.take(pat.len() as int) == pat {
        rep + replace_all(s.skip(pat.len() as int), pat, rep)
    } else {
        seq![s[0]] + replace_all(s.drop_first(), pat, rep)
    }
}

/// Executable form of [`replace_all`].
pub fn replace_chars(s: &Vec<char>, pat: &Vec<char>, rep: &Vec<char>) -> (r: Vec<char>)
    requires
        pat.len() > 0,
    ensures
        r@ == replace_all(s@, pat@, rep@),
{
    let mut out: Vec<char> = Vec::new();
    let mut pos: usize = 0;
    proof {
        assert(s@.skip(0) =~= s@);
    }
    while pos < s.len()
        invariant
            pos <= s.len(),
            pat.len() > 0,
            replace_all(s@, pat@, rep@) == out@ + replace_all(s@.skip(pos as int), pat@, rep@),
        decreases s.len() - pos,
    {
        let ghost rest = s@.skip(pos as int);
        let ghost old_out = out@;
        if matches_at_exec(s, pat, pos) {
            proof {
                assert(rest.take(pat@.len() as int) =~= s@.subrange(pos as int, pos + pat@.len()));
                assert(rest.skip(pat@.len() as int) =~= s@.skip(pos + pat@.len()));
            }
            push_all(&mut out, rep);
            pos = pos + pat.len();
            proof {
                assert(old_out + (rep@ + replace_all(s@.skip(pos as int), pat@, rep@)) =~= out@
                    + replace_all(s@.skip(pos as int), pat@, rep@));
            }
        } else {
            proof {
                if rest.len() >= pat@.len() {
                    assert(rest.take(pat@.len() as int) =~= s@.subrange(
                        pos as int,
                        pos + pat@.len(),
                    ));
                }
                assert(rest.drop_first() =~= s@.skip(pos + 1));
                assert(rest[0] == s@[pos as int]);
                if rest.len() < pat@.len() {
                    // no further match: the remainder is copied unchanged, one
                    // character at a time
                    assert(replace_all(rest, pat@, rep@) == rest);
                    assert(rest =~= seq![rest[0]] + rest.drop_first());
                    assert(replace_all(rest.drop_first(), pat@, rep@) == rest.drop_first());
                }
            }
            out.push(s[pos]);
            pos = pos + 1;
            proof {
                assert(old_out + (seq![s@[pos - 1]] + replace_all(s@.skip(pos as int), pat@, rep@))
                    =~= out@ + replace_all(s@.skip(pos as int), pat@, rep@));
            }
        }
    }
    proof {
        assert(s@.skip(pos as int) =~= Seq::<char>::empty());
        assert(out@ + Seq::<char>::empty() =~= out@);
    }
    out
}

/// Replaces every occurrence of the character `c` with the literal `rep`.
pub fn replace_char_with(s: &Vec<char>, c: char, rep: &str) -> (r: Vec<char>)
    ensures
        r@ == replace_all(s@, seq![c], rep@),
{
    let mut pat: Vec<char> = Vec::new();
    pat.push(c);
    let rv = to_chars(rep);
    proof {
        assert(pat@ =~= seq![c]);
    }
    replace_chars(s, &pat, &rv)
}

// ---------------------------------------------------------------------------
// Numbers
// ---------------------------------------------------------------------------

/// The decimal digit character for `d`.
pub open spec fn digit_char(d: int) -> char {
    if d == 0 {
        '0'
    } else if d == 1 {
        '1'
    } else if d == 2 {
        '2'
    } else if d == 3 {
        '3'
    } else if d == 4 {
        '4'
    } else if d == 5 {
        '5'
    } else if d == 6 {
        '6'
    } else if d == 7 {
        '7'
    } else if d == 8 {
        '8'
    } else {
        '9'
    }
}

/// The lowercase hexadecimal digit character for `d`.
pub open spec fn hex_char(d: int) -> char {
    if d < 10 {
        digit_char(d)
    } else if d == 10 {
        'a'
    } else if d == 11 {
        'b'
    } else if d == 12 {
        'c'
    } else if d == 13 {
        'd'
    } else if d == 14 {
        'e'
    } else {
        'f'
    }
}

/// Decimal rendering of `n` (`Display` for unsigned integers).
pub open spec fn decimal(n: nat) -> Seq<char>
    decreases n,
{
    if n < 10 {
        seq![digit_char(n as int)]
    } else {
        decimal(n / 10).push(digit_char((n % 10) as int))
    }
}

/// The last `width` hexadecimal digits of `n`, zero padded (`{:0width$x}` when
/// `n < 16^width`).
pub open spec fn hex_fixed(n: nat, width: nat) -> Seq<char>
    decreases width,
{
    if width == 0 {
        seq![]
    } else {
        hex_fixed(n / 16, (width - 1) as nat).push(hex_char((n % 16) as int))
    }
}

fn digit_to_char(d: u64) -> (c: char)
    requires
        d < 16,
    ensures
        c == hex_char(d as int),
{
    if d == 0 {
        '0'
    } else if d == 1 {
        '1'
    } else if d == 2 {
        '2'
    } else if d == 3 {
        '3'
    } else if d == 4 {
        '4'
    } else if d == 5 {
        '5'
    } else if d == 6 {
        '6'
    } else if d == 7 {
        '7'
    } else if d == 8 {
        '8'
    } else if d == 9 {
        '9'
    } else if d == 10 {
        'a'
    } else if d == 11 {
        'b'
    } else if d == 12 {
        'c'
    } else if d == 13 {
        'd'
    } else if d == 14 {
        'e'
    } else {
        'f'
    }
}

/// Appends the decimal rendering of `n`.
pub fn push_decimal(out: &mut Vec<char>, n: u64)
    ensures
        final(out)@ == old(out)@ + decimal(n as nat),
    decreases n,
{
    if n >= 10 {
        push_decimal(out, n / 10);
    }
    out.push(digit_to_char(n % 10));
    proof {
        assert(hex_char((n % 10) as int) == digit_char((n % 10) as int));
    }
}

/// Appends the decimal rendering of a wide `n`.
pub fn push_decimal_wide(out: &mut Vec<char>, n: u128)
    ensures
        final(out)@ == old(out)@ + decimal(n as nat),
    decreases n,
{
    if n >= 10 {
        push_decimal_wide(out, n / 10);
    }
    out.push(digit_to_char((n % 10) as u64));
    proof {
        assert(hex_char((n % 10) as int) == digit_char((n % 10) as int));
    }
}

/// Decimal rendering of `n` as a string.
pub fn decimal_string(n: u64) -> (r: String)
    ensures
        r@ == decimal(n as nat),
{
    let mut v: Vec<char> = Vec::new();
    push_decimal(&mut v, n);
    proof {
        assert(Seq::<char>::empty() + decimal(n as nat) =~= decimal(n as nat));
    }
    string_from_chars(v.as_slice())
}

/// Appends the last `width` hexadecimal digits of `n`.
pub fn push_hex_fixed(out: &mut Vec<char>, n: u64, width: u64)
    ensures
        final(out)@ == old(out)@ + hex_fixed(n as nat, width as nat),
    decreases width,
{
    if width > 0 {
        push_hex_fixed(out, n / 16, width - 1);
        out.push(digit_to_char(n % 16));
    } else {
        proof {
            assert(old(out)@ + hex_fixed(n as nat, 0) =~= old(out)@);
        }
    }
}

/// `d` is an ASCII decimal digit.
pub open spec fn is_digit(c: char) -> bool {
    48 <= (c as u32) && (c as u32) <= 57
}

/// Numeric value of the decimal digits `s`.
pub open spec fn digits_value(s: Seq<char>) -> nat
    decreases s.len(),
{
    if s.len() == 0 {
        0
    } else {
        digits_value(s.drop_last()) * 10 + ((s.last() as u32) - 48) as nat
    }
}

/// The digits part of an unsigned number: `s` without one leading `+`.
pub open spec fn unsigned_digits(s: Seq<char>) -> Seq<char> {
    if s.len() > 0 && s[0] == '+' {
        s.drop_first()
    } else {
        s
    }
}

/// Every character of `d` is an ASCII digit.
pub open spec fn all_digits(d: Seq<char>) -> bool {
    forall|i: int| 0 <= i < d.len() ==> #[trigger] is_digit(d[i])
}

/// `u16::from_str`: an optional `+`, then one or more ASCII digits whose value
/// fits in 16 bits.
pub open spec fn parse_u16(s: Seq<char>) -> Option<u16> {
    let d = unsigned_digits(s);
    if d.len() > 0 && all_digits(d) && digits_value(d) <= 65535 {
        Some(digits_value(d) as u16)
    } else {
        None
    }
}

proof fn lemma_digits_value_grows(s: Seq<char>, k: int)
    requires
        0 <= k <= s.len(),
        forall|i: int| 0 <= i < s.len() ==> #[trigger] is_digit(s[i]),
    ensures
        digits_value(s.take(k)) <= digits_value(s),
    decreases s.len() - k,
{
    if k < s.len() {
        assert(s.take(k + 1).drop_last() =~= s.take(k));
        lemma_digits_value_grows(s, k + 1);
    } else {
        assert(s.take(k) =~= s);
    }
}

/// Executable form of [`parse_u16`].
pub fn parse_u16_chars(s: &Vec<char>) -> (r: Option<u16>)
    ensures
        r == parse_u16(s@),
{
    let start: usize = if s.len() > 0 && s[0] == '+' {
        1
    } else {
        0
    };
    let ghost d = if s@.len() > 0 && s@[0] == '+' {
        s@.drop_first()
    } else {
        s@
    };
    proof {
        assert(d =~= s@.skip(start as int));
    }
    if start == s.len() {
        return None;
    }
    let mut value: u64 = 0;
    let mut i: usize = start;
    while i < s.len()
        invariant
            start <= i <= s.len(),
            start < s.len(),
            d == s@.skip(start as int),
            d == unsigned_digits(s@),
            value <= 65535,
            value == digits_value(d.take(i - start)),
            forall|k: int| 0 <= k < i - start ==> #[trigger] is_digit(d[k]),
        decreases s.len() - i,
    {
        let c = s[i];
        proof {
            assert(d[i - start] == c);
            assert(d.take(i - start + 1).drop_last() =~= d.take(i - start));
        }
        if !((c as u32) >= 48 && (c as u32) <= 57) {
            proof {
                let k = i - start;
                assert(!is_digit(d[k]));
                assert(!all_digits(d));
            }
            return None;
        }
        value = value * 10 + ((c as u32) - 48) as u64;
        proof {
            assert(d.take(i - start + 1).last() == c);
            assert(value == digits_value(d.take(i - start + 1)));
        }
        if value > 65535 {
            proof {
                if all_digits(d) {
                    lemma_digits_value_grows(d, i - start + 1);
                }
            }
            return None;
        }
        proof {
            assert(forall|k: int| 0 <= k < i - start + 1 ==> #[trigger] is_digit(d[k]));
        }
        i += 1;
    }
    proof {
        assert(d.take(i - start) =~= d);
    }
    Some(value as u16)
}

} // verus!
