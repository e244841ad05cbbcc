//! The API tester's route editor: how a route fills the editor's fields
//! (method and group selectors, comma-separated headers) and how the
//! fields are read back into the route being edited.

use vstd::prelude::*;
use crate::collection::{default_group_text, default_route_group, strings_view, HttpMethod, Route, RouteView};
use crate::db_view::{joined, push_joined};
use crate::text::{
    find_from, is_whitespace, lemma_find_from, lemma_find_from_unique, matches_at, trim_start,
    chars_equal, push_all, split_all, split_all_exec, string_chars, string_from_chars, str_is_blank,
    to_chars, trim, trim_chars,
};

verus! {

/// The position of a method among the editor's choices.
pub open spec fn method_position(m: HttpMethod) -> nat {
    match m {
        HttpMethod::Get => 0,
        HttpMethod::Post => 1,
        HttpMethod::Put => 2,
        HttpMethod::Patch => 3,
        HttpMethod::Delete => 4,
    }
}

/// The method at a position of the editor's choices; `GET` past the end.
pub open spec fn method_at(i: nat) -> HttpMethod {
    if i == 1 {
        HttpMethod::Post
    } else if i == 2 {
        HttpMethod::Put
    } else if i == 3 {
        HttpMethod::Patch
    } else if i == 4 {
        HttpMethod::Delete
    } else {
        HttpMethod::Get
    }
}

/// The position the method selector starts at for a method.
pub fn method_index(m: HttpMethod) -> (r: usize)
    ensures
        r == method_position(m),
{
    match m {
        HttpMethod::Get => 0,
        HttpMethod::Post => 1,
        HttpMethod::Put => 2,
        HttpMethod::Patch => 3,
        HttpMethod::Delete => 4,
    }
}

/// The method a selector position stands for.
pub fn method_for_index(i: usize) -> (r: HttpMethod)
    ensures
        r == method_at(i as nat),
{
    if i == 1 {
        HttpMethod::Post
    } else if i == 2 {
        HttpMethod::Put
    } else if i == 3 {
        HttpMethod::Patch
    } else if i == 4 {
        HttpMethod::Delete
    } else {
        HttpMethod::Get
    }
}

/// Reading the method selector back gives the method it was set to.
pub proof fn law_method_selector_round_trip(m: HttpMethod)
    ensures
        method_at(method_position(m)) == m,
{
}

/// The label of the group selector's last choice.
pub open spec fn new_group_label() -> Seq<char> {
    "New Group..."@
}

/// The first position of `g` among `names`.
pub open spec fn position_of(names: Seq<Seq<char>>, g: Seq<char>) -> Option<nat>
    decreases names.len(),
{
    if names.len() == 0 {
        None
    } else {
        match position_of(names.drop_last(), g) {
            Some(p) => Some(p),
            None => if names.last() == g {
                Some((names.len() - 1) as nat)
            } else {
                None
            },
        }
    }
}

proof fn lemma_position_of(names: Seq<Seq<char>>, g: Seq<char>)
    ensures
        match position_of(names, g) {
            Some(p) => p < names.len() && names[p as int] == g && forall|j: int| 0 <= j < p ==> names[j] != g,
            None => forall|j: int| 0 <= j < names.len() ==> names[j] != g,
        },
    decreases names.len(),
{
    if names.len() > 0 {
        let d = names.drop_last();
        lemma_position_of(d, g);
        assert forall|j: int| 0 <= j < d.len() implies d[j] == names[j] by {}
        match position_of(d, g) {
            Some(p) => {
                assert(names[p as int] == d[p as int]);
            },
            None => {},
        }
    }
}

/// The choices of the group selector: the existing groups, then `New Group...`.
pub fn group_choices(group_names: &Vec<String>) -> (r: Vec<String>)
    ensures
        strings_view(r@) == strings_view(group_names@).push(new_group_label()),
{
    let mut out = crate::collection::copy_strings(group_names);
    let ghost before = out@;
    out.push(string_from_chars(to_chars("New Group...").as_slice()));
    proof {
        reveal_strlit("New Group...");
        assert(strings_view(out@) =~= strings_view(before).push(new_group_label()));
    }
    out
}

/// The position the group selector starts at: that of the route's group,
/// or the first choice when the group is not listed.
pub fn group_choice_index(group_names: &Vec<String>, current: &str) -> (r: usize)
    ensures
        r == match position_of(strings_view(group_names@), current@) {
            Some(p) => p,
            None => 0,
        },
{
    let c = to_chars(current);
    let ghost nv = strings_view(group_names@);
    let mut i: usize = 0;
    while i < group_names.len()
        invariant
            i <= group_names@.len(),
            nv == strings_view(group_names@),
            c@ == current@,
            position_of(nv.take(i as int), current@) is None,
        decreases group_names.len() - i,
    {
        proof {
            assert(nv.take(i + 1).drop_last() =~= nv.take(i as int));
            assert(nv[i as int] == group_names@[i as int]@);
        }
        if chars_equal(&string_chars(&group_names[i]), &c) {
            proof {
                lemma_prefix_position(nv, current@, i as int + 1);
            }
            return i;
        }
        i += 1;
    }
    proof {
        assert(nv.take(i as int) =~= nv);
    }
    0
}

/// A position found in a prefix is the position in the whole list.
proof fn lemma_prefix_position(names: Seq<Seq<char>>, g: Seq<char>, k: int)
    requires
        0 <= k <= names.len(),
        position_of(names.take(k), g) is Some,
    ensures
        position_of(names, g) == position_of(names.take(k), g),
    decreases names.len() - k,
{
    if k < names.len() {
        assert(names.take(k + 1).drop_last() =~= names.take(k));
        assert(position_of(names.take(k + 1), g) == position_of(names.take(k), g));
        lemma_prefix_position(names, g, k + 1);
    } else {
        assert(names.take(k) =~= names);
    }
}

/// The text of the headers field: the headers joined by `, `.
pub fn headers_text(headers: &Vec<String>) -> (r: String)
    ensures
        r@ == joined(strings_view(headers@), ", "@),
{
    let mut v: Vec<char> = Vec::new();
    push_joined(&mut v, headers, ", ");
    proof {
        assert(v@ =~= joined(strings_view(headers@), ", "@));
    }
    string_from_chars(v.as_slice())
}

/// The headers the headers field holds: its comma-separated parts,
/// trimmed, empty ones left out.
pub open spec fn header_inputs(text: Seq<char>) -> Seq<Seq<char>> {
    split_all(text, ',').map_values(|p: Seq<char>| trim(p)).filter(non_empty())
}

/// Whether a text is not empty.
pub open spec fn non_empty() -> spec_fn(Seq<char>) -> bool {
    |p: Seq<char>| p.len() > 0
}

/// Reads the headers field.
pub fn parse_header_input(text: &str) -> (r: Vec<String>)
    ensures
        strings_view(r@) == header_inputs(text@),
{
    let tv = to_chars(text);
    let parts = split_all_exec(&tv, ',');
    let ghost pv = parts@.map_values(|v: Vec<char>| v@);
    let ghost tp = pv.map_values(|p: Seq<char>| trim(p));
    let mut out: Vec<String> = Vec::new();
    proof {
        reveal(Seq::filter);
        assert(strings_view(out@) =~= tp.take(0).filter(non_empty()));
    }
    let mut i: usize = 0;
    while i < parts.len()
        invariant
            i <= parts@.len(),
            pv == parts@.map_values(|v: Vec<char>| v@),
            pv == split_all(text@, ','),
            tp == pv.map_values(|p: Seq<char>| trim(p)),
            strings_view(out@) == tp.take(i as int).filter(non_empty()),
        decreases parts.len() - i,
    {
        let t = trim_chars(&parts[i]);
        let ghost before = out@;
        proof {
            assert(tp[i as int] == trim(parts@[i as int]@));
            assert(tp.take(i + 1).drop_last() =~= tp.take(i as int));
            assert(tp.take(i + 1).last() == tp[i as int]);
            reveal(Seq::filter);
            assert(tp.take(i + 1).filter(non_empty()) == (if non_empty()(tp[i as int]) {
                tp.take(i as int).filter(non_empty()).push(tp[i as int])
            } else {
                tp.take(i as int).filter(non_empty())
            }));
        }
        if t.len() > 0 {
            out.push(string_from_chars(t.as_slice()));
            proof {
                assert(strings_view(out@) =~= strings_view(before).push(t@));
            }
        }
        i += 1;
    }
    proof {
        assert(tp.take(i as int) =~= tp);
    }
    out
}

/// What the editor's fields hold.
#[derive(Debug, Clone)]
pub struct EditorInputs {
    pub name: String,
    /// The group selector's position, when it reports one.
    pub group_index: Option<usize>,
    /// The new group field.
    pub new_group: String,
    /// The method selector's position, when it reports one.
    pub method_index: Option<usize>,
    pub url: String,
    /// The headers field.
    pub headers: String,
}

/// The group the editor's fields name: the listed group at the selector's
/// position, or past the list the new group field (the default group when
/// it is blank); the default group when the selector reports nothing.
pub open spec fn chosen_group(names: Seq<Seq<char>>, index: Option<usize>, new_group: Seq<char>) -> Seq<char> {
    match index {
        Some(i) => if i < names.len() {
            names[i as int]
        } else if trim(new_group).len() == 0 {
            default_group_text()
        } else {
            new_group
        },
        None => default_group_text(),
    }
}

/// Reads the group from the editor's fields.
pub fn editor_group(group_names: &Vec<String>, group_index: Option<usize>, new_group: &str) -> (r: String)
    ensures
        r@ == chosen_group(strings_view(group_names@), group_index, new_group@),
{
    match group_index {
        Some(i) => {
            if i < group_names.len() {
                string_from_chars(string_chars(&group_names[i]).as_slice())
            } else if str_is_blank(new_group) {
                default_route_group()
            } else {
                string_from_chars(to_chars(new_group).as_slice())
            }
        },
        None => default_route_group(),
    }
}

/// The route being edited once the editor's fields are read back into it:
/// name, group, method, URL and headers from the fields; scope and body
/// kept.
pub open spec fn draft_after_sync(draft: RouteView, names: Seq<Seq<char>>, inputs: EditorInputs) -> RouteView {
    RouteView {
        name: inputs.name@,
        group: chosen_group(names, inputs.group_index, inputs.new_group@),
        method: method_at(
            match inputs.method_index {
                Some(i) => i as nat,
                None => 0,
            },
        ),
        url: inputs.url@,
        headers: header_inputs(inputs.headers@),
        ..draft
    }
}

/// Reads the editor's fields back into the route being edited.
pub fn sync_draft_from_inputs(draft: &mut Route, group_names: &Vec<String>, inputs: &EditorInputs)
    ensures
        final(draft)@ == draft_after_sync(old(draft)@, strings_view(group_names@), *inputs),
{
    let group = editor_group(group_names, inputs.group_index, inputs.new_group.as_str());
    let method = match inputs.method_index {
        Some(i) => method_for_index(i),
        None => method_for_index(0),
    };
    let headers = parse_header_input(inputs.headers.as_str());
    draft.name = string_from_chars(string_chars(&inputs.name).as_slice());
    draft.group = group;
    draft.method = method;
    draft.url = string_from_chars(string_chars(&inputs.url).as_slice());
    draft.headers = headers;
}

// ---------------------------------------------------------------------------
// The headers field gives back the headers it was filled with
// ---------------------------------------------------------------------------

proof fn lemma_split_without_separator(s: Seq<char>, c: char)
    requires
        !s.contains(c),
    ensures
        split_all(s, c) == seq![s],
{
    lemma_find_from(s, seq![c], 0);
    match find_from(s, seq![c], 0) {
        Some(i) => {
            assert(s.subrange(i, i + 1) == seq![c]);
            assert(s[i] == s.subrange(i, i + 1)[0]);
            assert(false);
        },
        None => {},
    }
}

/// Splitting at a separator placed between two texts splits each of them.
proof fn lemma_split_concat(x: Seq<char>, y: Seq<char>, c: char)
    ensures
        split_all(x + seq![c] + y, c) == split_all(x, c) + split_all(y, c),
    decreases x.len(),
{
    let s = x + seq![c] + y;
    let pat = seq![c];
    lemma_find_from(x, pat, 0);
    match find_from(x, pat, 0) {
        None => {
            assert(matches_at(s, pat, x.len() as int)) by {
                assert(s.subrange(x.len() as int, x.len() as int + 1) =~= pat);
            }
            assert forall|j: int| 0 <= j < x.len() implies !#[trigger] matches_at(s, pat, j) by {
                assert(!matches_at(x, pat, j));
                if matches_at(s, pat, j) {
                    assert(s.subrange(j, j + 1) =~= x.subrange(j, j + 1));
                }
            }
            lemma_find_from_unique(s, pat, 0, x.len() as int);
            assert(s.take(x.len() as int) =~= x);
            assert(s.skip(x.len() as int + 1) =~= y);
            assert(split_all(x, c) == seq![x]);
            assert(split_all(s, c) =~= seq![x] + split_all(y, c));
        },
        Some(i) => {
            assert(matches_at(s, pat, i)) by {
                assert(s.subrange(i, i + 1) =~= x.subrange(i, i + 1));
            }
            assert forall|j: int| 0 <= j < i implies !#[trigger] matches_at(s, pat, j) by {
                assert(!matches_at(x, pat, j));
                if matches_at(s, pat, j) {
                    assert(s.subrange(j, j + 1) =~= x.subrange(j, j + 1));
                }
            }
            lemma_find_from_unique(s, pat, 0, i);
            assert(s.take(i) =~= x.take(i));
            assert(s.skip(i + 1) =~= x.skip(i + 1) + seq![c] + y);
            lemma_split_concat(x.skip(i + 1), y, c);
            assert(split_all(s, c) =~= (seq![x.take(i)] + split_all(x.skip(i + 1), c)) + split_all(y, c));
        },
    }
}

proof fn lemma_trim_after_space(h: Seq<char>)
    requires
        trim(h) == h,
    ensures
        trim(seq![' '] + h) == h,
{
    let t = seq![' '] + h;
    assert(is_whitespace(' '));
    assert(t.drop_first() =~= h);
    assert(trim_start(t) == trim_start(h));
}

/// The pieces of headers joined by `, `, split at the commas: the first
/// header, then each other one after a space.
proof fn lemma_split_joined(hs: Seq<Seq<char>>)
    requires
        hs.len() > 0,
        forall|i: int| 0 <= i < hs.len() ==> !(#[trigger] hs[i]).contains(','),
    ensures
        split_all(joined(hs, ", "@), ',') == Seq::new(
            hs.len(),
            |i: int|
                if i == 0 {
                    hs[0]
                } else {
                    seq![' '] + hs[i]
                },
        ),
    decreases hs.len(),
{
    reveal_strlit(", ");
    if hs.len() == 1 {
        lemma_split_without_separator(hs[0], ',');
        assert(Seq::new(hs.len(), |i: int| if i == 0 { hs[0] } else { seq![' '] + hs[i] }) =~= seq![hs[0]]);
    } else {
        let init = hs.drop_last();
        let last = hs.last();
        assert forall|i: int| 0 <= i < init.len() implies !(#[trigger] init[i]).contains(',') by {
            assert(init[i] == hs[i]);
        }
        lemma_split_joined(init);
        assert(joined(hs, ", "@) =~= joined(init, ", "@) + seq![','] + (seq![' '] + last));
        lemma_split_concat(joined(init, ", "@), seq![' '] + last, ',');
        assert(!(seq![' '] + last).contains(',')) by {
            assert(!last.contains(','));
            if (seq![' '] + last).contains(',') {
                let j = choose|j: int| 0 <= j < (seq![' '] + last).len() && (seq![' '] + last)[j] == ',';
                assert(last[j - 1] == ',');
            }
        }
        lemma_split_without_separator(seq![' '] + last, ',');
        assert(split_all(joined(hs, ", "@), ',') =~= Seq::new(
            hs.len(),
            |i: int|
                if i == 0 {
                    hs[0]
                } else {
                    seq![' '] + hs[i]
                },
        ));
    }
}

proof fn lemma_filter_keeps_all(s: Seq<Seq<char>>)
    requires
        forall|i: int| 0 <= i < s.len() ==> (#[trigger] s[i]).len() > 0,
    ensures
        s.filter(non_empty()) == s,
    decreases s.len(),
{
    reveal(Seq::filter);
    if s.len() > 0 {
        let d = s.drop_last();
        assert forall|i: int| 0 <= i < d.len() implies (#[trigger] d[i]).len() > 0 by {
            assert(d[i] == s[i]);
        }
        lemma_filter_keeps_all(d);
        assert(non_empty()(s.last()));
        assert(d.push(s.last()) =~= s);
    }
}

/// Filling the headers field with a route's headers and reading it back
/// gives the same headers, when each is trimmed, not empty and free of
/// commas.
pub proof fn law_headers_field_round_trip(hs: Seq<Seq<char>>)
    requires
        forall|i: int|
            0 <= i < hs.len() ==> (#[trigger] hs[i]).len() > 0 && trim(hs[i]) == hs[i] && !hs[i].contains(','),
    ensures
        header_inputs(joined(hs, ", "@)) == hs,
{
    reveal(Seq::filter);
    if hs.len() == 0 {
        let e = Seq::<char>::empty();
        lemma_split_without_separator(e, ',');
        assert(joined(hs, ", "@) == e);
        let m = split_all(e, ',').map_values(|p: Seq<char>| trim(p));
        assert(trim_start(e) == e);
        assert(m =~= seq![e]);
        assert(m.drop_last() =~= Seq::<Seq<char>>::empty());
        assert(m.drop_last().filter(non_empty()) =~= Seq::<Seq<char>>::empty());
        assert(m.last() == e);
        assert(!non_empty()(m.last()));
        assert(m.filter(non_empty()) =~= Seq::<Seq<char>>::empty());
    } else {
        lemma_split_joined(hs);
        let m = split_all(joined(hs, ", "@), ',').map_values(|p: Seq<char>| trim(p));
        assert forall|i: int| 0 <= i < hs.len() implies m[i] == hs[i] by {
            if i > 0 {
                lemma_trim_after_space(hs[i]);
            }
        }
        assert(m =~= hs);
        lemma_filter_keeps_all(hs);
    }
}

/// Reading the group selector back at the position it was set to for a
/// listed group gives that group.
pub proof fn law_group_selector_round_trip(names: Seq<Seq<char>>, g: Seq<char>, new_group: Seq<char>)
    requires
        names.contains(g),
        names.len() <= usize::MAX,
    ensures
        position_of(names, g) is Some,
        chosen_group(names, Some(position_of(names, g)->0 as usize), new_group) == g,
{
    lemma_position_of(names, g);
    if position_of(names, g) is None {
        let j = choose|j: int| 0 <= j < names.len() && names[j] == g;
        assert(names[j] != g);
    }
}

} // verus!
