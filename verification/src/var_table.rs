//! What the API tester's variable manager lists: the variables of the
//! global set, or of a route's scope together with the global ones the
//! route uses, and the placeholders a template refers to.

use vstd::prelude::*;
use crate::api_messages::{
    is_jump_to_end, is_plain_g, jump_to_end, no_modifiers, plain_g, Key, KeyEvent, Msg, VariableManagerMsg,
};
use crate::collection::{insert_sorted_unique, strictly_sorted, strings_view};
use crate::table::{sorted_table, table_insert, table_map, table_find};
use crate::text::{
    lex_lt,
    find_from, find_from_exec, lemma_find_from, push_all, slice_chars, split_all, split_all_exec,
    string_chars, string_from_chars, to_chars, trim, trim_chars,
};
use crate::variables::{
    close_braces, lists_entries, open_braces, resolve, str_scope_view, triples_view, VarEntry, VariableMode, Variables,
    VariablesView,
};

verus! {

// ---------------------------------------------------------------------------
// Placeholders of a template
// ---------------------------------------------------------------------------

/// The placeholder names a template refers to: the trimmed text between
/// each `{{` and the next `}}`, empty names left out; scanning ends at a
/// `{{` that is never closed.
pub open spec fn tokens_in(s: Seq<char>) -> Set<Seq<char>>
    decreases s.len(),
{
    match find_from(s, open_braces(), 0) {
        None => Set::empty(),
        Some(a) => {
            let after = s.skip(a + 2);
            match find_from(after, close_braces(), 0) {
                None => Set::empty(),
                Some(e) => {
                    let tok = trim(after.take(e));
                    proof {
                        lemma_find_from(s, open_braces(), 0);
                        lemma_find_from(after, close_braces(), 0);
                    }
                    let rest = tokens_in(after.skip(e + 2));
                    if tok.len() > 0 {
                        rest.insert(tok)
                    } else {
                        rest
                    }
                },
            }
        },
    }
}

/// Adds the placeholder names of `template` to the sorted list `output`.
pub fn collect_variable_tokens(template: &str, output: &mut Vec<String>)
    requires
        strictly_sorted(strings_view(old(output)@)),
    ensures
        strictly_sorted(strings_view(final(output)@)),
        strings_view(final(output)@).to_set() == strings_view(old(output)@).to_set() + tokens_in(template@),
{
    let open = to_chars("{{");
    let close = to_chars("}}");
    proof {
        reveal_strlit("{{");
        reveal_strlit("}}");
        assert(open@ =~= open_braces());
        assert(close@ =~= close_braces());
    }
    let mut rest = to_chars(template);
    loop
        invariant
            open@ == open_braces(),
            close@ == close_braces(),
            strictly_sorted(strings_view(output@)),
            strings_view(output@).to_set() + tokens_in(rest@) == strings_view(old(output)@).to_set()
                + tokens_in(template@),
        decreases rest@.len(),
    {
        let ghost r0 = rest@;
        let a = match find_from_exec(&rest, &open, 0) {
            Some(a) => a,
            None => {
                proof {
                    assert(tokens_in(r0) == Set::<Seq<char>>::empty());
                    assert(strings_view(output@).to_set() + Set::<Seq<char>>::empty() =~= strings_view(output@).to_set());
                }
                return;
            },
        };
        proof {
            lemma_find_from(r0, open_braces(), 0);
            assert(open_braces().len() == 2);
            assert(find_from(r0, open_braces(), 0) == Some(a as int));
            assert(a + 2 <= rest@.len());
        }
        let n = rest.len();
        let after = slice_chars(&rest, a + 2, n);
        proof {
            assert(after@ =~= r0.skip(a + 2));
        }
        let e = match find_from_exec(&after, &close, 0) {
            Some(e) => e,
            None => {
                proof {
                    assert(tokens_in(r0) == Set::<Seq<char>>::empty());
                    assert(strings_view(output@).to_set() + Set::<Seq<char>>::empty() =~= strings_view(output@).to_set());
                }
                return;
            },
        };
        proof {
            lemma_find_from(after@, close_braces(), 0);
            assert(close_braces().len() == 2);
        }
        let inner = slice_chars(&after, 0, e);
        let tok = trim_chars(&inner);
        let next = slice_chars(&after, e + 2, after.len());
        proof {
            assert(inner@ =~= after@.take(e as int));
            assert(next@ =~= after@.skip(e + 2));
        }
        let ghost before = strings_view(output@).to_set();
        if tok.len() > 0 {
            insert_sorted_unique(output, string_from_chars(tok.as_slice()));
            proof {
                assert(tokens_in(r0) == tokens_in(next@).insert(tok@));
                assert(strings_view(output@).to_set() + tokens_in(next@) =~= before + tokens_in(r0));
            }
        } else {
            proof {
                assert(tokens_in(r0) == tokens_in(next@));
            }
        }
        rest = next;
    }
}

/// The placeholders of a route's templates that name global variables:
/// those of the URL, of each comma-separated header (trimmed, empty ones
/// left out) and of the body.
pub open spec fn used_global_keys(
    v: VariablesView,
    url: Seq<char>,
    headers: Seq<char>,
    body: Option<Seq<char>>,
) -> Set<Seq<char>> {
    let parts = split_all(headers, ',');
    let header_tokens = Set::new(
        |k: Seq<char>|
            exists|i: int|
                0 <= i < parts.len() && trim(parts[i]).len() > 0 && #[trigger] tokens_in(trim(parts[i])).contains(k),
    );
    let body_tokens = match body {
        Some(b) => tokens_in(b),
        None => Set::empty(),
    };
    (tokens_in(url) + header_tokens + body_tokens).filter(|k: Seq<char>| v.global.contains_key(k))
}

/// The global variables a route's templates use, in name order.
pub fn scoped_route_used_global_keys(
    vars: &Variables,
    url_template: &str,
    headers_template: &str,
    body: Option<&str>,
) -> (r: Vec<String>)
    requires
        vars.wf(),
    ensures
        strictly_sorted(strings_view(r@)),
        strings_view(r@).to_set() == used_global_keys(
            vars@,
            url_template@,
            headers_template@,
            match body {
                Some(b) => Some(b@),
                None => None,
            },
        ),
{
    let mut keys: Vec<String> = Vec::new();
    proof {
        assert(strings_view(keys@).to_set() =~= Set::<Seq<char>>::empty());
    }
    collect_variable_tokens(url_template, &mut keys);
    let hv = to_chars(headers_template);
    let parts = split_all_exec(&hv, ',');
    let ghost pv = parts@.map_values(|v: Vec<char>| v@);
    let ghost url_set = tokens_in(url_template@);
    let mut i: usize = 0;
    while i < parts.len()
        invariant
            i <= parts@.len(),
            pv == parts@.map_values(|v: Vec<char>| v@),
            pv == split_all(headers_template@, ','),
            strictly_sorted(strings_view(keys@)),
            strings_view(keys@).to_set() == url_set + Set::new(
                |k: Seq<char>|
                    exists|j: int|
                        0 <= j < i && trim(pv[j]).len() > 0 && #[trigger] tokens_in(trim(pv[j])).contains(k),
            ),
        decreases parts.len() - i,
    {
        let part = trim_chars(&parts[i]);
        let ghost before = strings_view(keys@).to_set();
        if part.len() > 0 {
            let ps = string_from_chars(part.as_slice());
            collect_variable_tokens(ps.as_str(), &mut keys);
        }
        proof {
            assert(pv[i as int] == parts@[i as int]@);
            assert(strings_view(keys@).to_set() =~= url_set + Set::new(
                |k: Seq<char>|
                    exists|j: int|
                        0 <= j < i + 1 && trim(pv[j]).len() > 0 && #[trigger] tokens_in(trim(pv[j])).contains(k),
            )) by {
                assert forall|k: Seq<char>| #[trigger] strings_view(keys@).to_set().contains(k) == (url_set + Set::new(
                    |k: Seq<char>|
                        exists|j: int|
                            0 <= j < i + 1 && trim(pv[j]).len() > 0 && #[trigger] tokens_in(trim(pv[j])).contains(k),
                )).contains(k) by {
                    if tokens_in(trim(pv[i as int])).contains(k) && trim(pv[i as int]).len() > 0 {
                        assert(exists|j: int|
                            0 <= j < i + 1 && trim(pv[j]).len() > 0 && #[trigger] tokens_in(trim(pv[j])).contains(k));
                    }
                }
            }
        }
        i += 1;
    }
    match body {
        Some(b) => collect_variable_tokens(b, &mut keys),
        None => {},
    }
    let mut out: Vec<String> = Vec::new();
    let mut k: usize = 0;
    let ghost all = strings_view(keys@);
    while k < keys.len()
        invariant
            k <= keys@.len(),
            vars.wf(),
            all == strings_view(keys@),
            strictly_sorted(all),
            strictly_sorted(strings_view(out@)),
            forall|j: int| 0 <= j < out@.len() ==> exists|m: int| 0 <= m < k && #[trigger] all[m] == #[trigger] out@[j]@,
            strings_view(out@).to_set() == all.take(k as int).to_set().filter(
                |x: Seq<char>| vars@.global.contains_key(x),
            ),
        decreases keys.len() - k,
    {
        let present = vars.get(keys[k].as_str()).is_some();
        let ghost before = out@;
        if present {
            out.push(string_from_chars(string_chars(&keys[k]).as_slice()));
            proof {
                assert(strings_view(out@) =~= strings_view(before).push(all[k as int]));
                assert forall|a: int, b: int| 0 <= a < b < strings_view(out@).len() implies crate::text::lex_lt(
                    #[trigger] strings_view(out@)[a],
                    #[trigger] strings_view(out@)[b],
                ) by {
                    if b == strings_view(out@).len() - 1 {
                        let m = choose|m: int| 0 <= m < k && #[trigger] all[m] == before[a]@;
                        assert(crate::text::lex_lt(all[m], all[k as int]));
                    }
                }
            }
        }
        proof {
            assert(all[k as int] == keys@[k as int]@);
            assert(present == vars@.global.contains_key(all[k as int]));
            assert(all.take(k + 1) =~= all.take(k as int).push(all[k as int]));
            assert(all.take(k + 1).to_set() =~= all.take(k as int).to_set().insert(all[k as int])) by {
                assert forall|x: Seq<char>| #[trigger] all.take(k + 1).to_set().contains(x) implies all.take(
                    k as int,
                ).to_set().insert(all[k as int]).contains(x) by {
                    let m = choose|m: int| 0 <= m < k + 1 && #[trigger] all.take(k + 1)[m] == x;
                    if m < k {
                        assert(all.take(k as int)[m] == x);
                    }
                }
                assert forall|x: Seq<char>| #[trigger] all.take(k as int).to_set().insert(all[k as int]).contains(
                    x,
                ) implies all.take(k + 1).to_set().contains(x) by {
                    if x == all[k as int] {
                        assert(all.take(k + 1)[k as int] == x);
                    } else {
                        let m = choose|m: int| 0 <= m < k && #[trigger] all.take(k as int)[m] == x;
                        assert(all.take(k + 1)[m] == x);
                    }
                }
            }
            assert forall|x: Seq<char>| #[trigger] strings_view(out@).to_set().contains(x) == all.take(
                k + 1,
            ).to_set().filter(|x: Seq<char>| vars@.global.contains_key(x)).contains(x) by {
                assert(strings_view(before).to_set().contains(x) == all.take(k as int).to_set().filter(
                    |x: Seq<char>| vars@.global.contains_key(x),
                ).contains(x));
                if present {
                    if strings_view(out@).to_set().contains(x) {
                        let m = choose|m: int| 0 <= m < strings_view(out@).len() && #[trigger] strings_view(out@)[m] == x;
                        if m < before.len() {
                            assert(strings_view(before)[m] == x);
                        }
                    }
                    if strings_view(before).to_set().contains(x) {
                        let m = choose|m: int| 0 <= m < strings_view(before).len() && #[trigger] strings_view(before)[m] == x;
                        assert(strings_view(out@)[m] == x);
                    }
                    if x == all[k as int] {
                        assert(strings_view(out@)[before.len() as int] == x);
                    }
                } else {
                    assert(out@ == before);
                }
            }
            assert(strings_view(out@).to_set() =~= all.take(k + 1).to_set().filter(
                |x: Seq<char>| vars@.global.contains_key(x),
            ));
        }
        k += 1;
    }
    proof {
        assert(all.take(k as int) =~= all);
        assert(strings_view(out@).to_set() =~= used_global_keys(
            vars@,
            url_template@,
            headers_template@,
            match body {
                Some(b) => Some(b@),
                None => None,
            },
        ));
    }
    out
}

// ---------------------------------------------------------------------------
// Rows of the variable manager
// ---------------------------------------------------------------------------

/// The source label of a row held by the route's scope.
pub open spec fn scoped_label() -> Seq<char> {
    seq!['s', 'c', 'o', 'p', 'e', 'd']
}

/// The source label of a row held by the global set.
pub open spec fn global_label() -> Seq<char> {
    seq!['g', 'l', 'o', 'b', 'a', 'l']
}

/// What a row shows for a name: the entry and where it comes from.
pub type RowEntry = (VarEntry, Seq<char>);

/// The rows the variable manager lists, by name. Without a scope: every
/// global variable, labelled `global`. With a scope: the scope's own
/// variables, labelled `scoped`, and each name of `used` that is a global
/// variable and not one of the scope's, labelled `global`.
pub open spec fn variable_rows(
    v: VariablesView,
    scope: Option<Seq<char>>,
    used: Set<Seq<char>>,
) -> Map<Seq<char>, RowEntry> {
    match scope {
        None => v.global.map_values(|e: VarEntry| (e, global_label())),
        Some(s) => {
            let sm = Variables::scope_map(v, s);
            Map::new(
                |k: Seq<char>| sm.contains_key(k) || (used.contains(k) && v.global.contains_key(k)),
                |k: Seq<char>|
                    if sm.contains_key(k) {
                        (sm[k], scoped_label())
                    } else {
                        (v.global[k], global_label())
                    },
            )
        },
    }
}

/// Views a list of rows.
pub open spec fn rows_view(r: Seq<(String, String, VariableMode, String)>) -> Seq<(Seq<char>, RowEntry)> {
    r.map_values(|p: (String, String, VariableMode, String)| (p.0@, ((p.1@, p.2), p.3@)))
}

/// `r` lists the names of `m` in strictly increasing order, each with its row.
pub open spec fn lists_rows(r: Seq<(Seq<char>, RowEntry)>, m: Map<Seq<char>, RowEntry>) -> bool {
    &&& forall|i: int, j: int| 0 <= i < j < r.len() ==> lex_lt(#[trigger] r[i].0, #[trigger] r[j].0)
    &&& forall|i: int| 0 <= i < r.len() ==> m.contains_key(#[trigger] r[i].0) && m[r[i].0] == r[i].1
    &&& forall|k: Seq<char>| m.contains_key(k) ==> exists|i: int| 0 <= i < r.len() && #[trigger] r[i].0 == k
}

fn label_string(scoped: bool) -> (r: String)
    ensures
        r@ == (if scoped { scoped_label() } else { global_label() }),
{
    if scoped {
        let s = String::from_str("scoped");
        proof {
            reveal_strlit("scoped");
        }
        s
    } else {
        let s = String::from_str("global");
        proof {
            reveal_strlit("global");
        }
        s
    }
}

/// The rows of the variable manager: with a scope, the scope's variables
/// and the global variables among `used_global` that the scope does not
/// override; without one, the global variables; in name order.
pub fn variable_table_entries(
    vars: &Variables,
    scope_id: Option<&str>,
    used_global: &Vec<String>,
) -> (r: Vec<(String, String, VariableMode, String)>)
    requires
        vars.wf(),
    ensures
        lists_rows(
            rows_view(r@),
            variable_rows(vars@, str_scope_view(scope_id), strings_view(used_global@).to_set()),
        ),
{
    let ghost m = variable_rows(vars@, str_scope_view(scope_id), strings_view(used_global@).to_set());
    // The names to list, in order.
    let mut names: Vec<String> = Vec::new();
    match scope_id {
        None => {
            let t = vars.entries_with_modes();
            let mut i: usize = 0;
            while i < t.len()
                invariant
                    i <= t@.len(),
                    names@.len() == i,
                    forall|j: int| 0 <= j < i ==> (#[trigger] names@[j])@ == t@[j].0@,
                decreases t.len() - i,
            {
                names.push(string_from_chars(string_chars(&t[i].0).as_slice()));
                i += 1;
            }
            proof {
                let tv = triples_view(t@);
                assert forall|a: int, b: int| 0 <= a < b < strings_view(names@).len() implies lex_lt(
                    #[trigger] strings_view(names@)[a],
                    #[trigger] strings_view(names@)[b],
                ) by {
                    assert(tv[a].0 == strings_view(names@)[a]);
                    assert(tv[b].0 == strings_view(names@)[b]);
                }
                assert forall|k: Seq<char>| #[trigger] strings_view(names@).to_set().contains(k) == m.contains_key(k) by {
                    if m.contains_key(k) {
                        let a = choose|a: int| 0 <= a < tv.len() && #[trigger] tv[a].0 == k;
                        assert(strings_view(names@)[a] == k);
                    }
                    if strings_view(names@).to_set().contains(k) {
                        let a = choose|a: int| 0 <= a < strings_view(names@).len() && #[trigger] strings_view(names@)[a] == k;
                        assert(tv[a].0 == k);
                    }
                }
            }
        },
        Some(sid) => {
            let t = vars.scoped_entries_with_modes(sid);
            let ghost sm = Variables::scope_map(vars@, sid@);
            let mut i: usize = 0;
            while i < t.len()
                invariant
                    i <= t@.len(),
                    names@.len() == i,
                    forall|j: int| 0 <= j < i ==> (#[trigger] names@[j])@ == t@[j].0@,
                decreases t.len() - i,
            {
                names.push(string_from_chars(string_chars(&t[i].0).as_slice()));
                i += 1;
            }
            proof {
                let tv = triples_view(t@);
                assert forall|a: int, b: int| 0 <= a < b < strings_view(names@).len() implies lex_lt(
                    #[trigger] strings_view(names@)[a],
                    #[trigger] strings_view(names@)[b],
                ) by {
                    assert(tv[a].0 == strings_view(names@)[a]);
                    assert(tv[b].0 == strings_view(names@)[b]);
                }
                assert forall|k: Seq<char>| #[trigger] strings_view(names@).to_set().contains(k) == sm.contains_key(k) by {
                    if sm.contains_key(k) {
                        let a = choose|a: int| 0 <= a < tv.len() && #[trigger] tv[a].0 == k;
                        assert(strings_view(names@)[a] == k);
                    }
                    if strings_view(names@).to_set().contains(k) {
                        let a = choose|a: int| 0 <= a < strings_view(names@).len() && #[trigger] strings_view(names@)[a] == k;
                        assert(tv[a].0 == k);
                    }
                }
            }
            let ghost uv = strings_view(used_global@);
            let mut u: usize = 0;
            while u < used_global.len()
                invariant
                    u <= used_global@.len(),
                    vars.wf(),
                    uv == strings_view(used_global@),
                    sm == Variables::scope_map(vars@, sid@),
                    strictly_sorted(strings_view(names@)),
                    forall|k: Seq<char>| #[trigger] strings_view(names@).to_set().contains(k) == (sm.contains_key(k)
                        || (uv.take(u as int).contains(k) && vars@.global.contains_key(k))),
                decreases used_global.len() - u,
            {
                let key = used_global[u].as_str();
                let ghost before = strings_view(names@).to_set();
                if vars.get(key).is_some() {
                    insert_sorted_unique(&mut names, string_from_chars(string_chars(&used_global[u]).as_slice()));
                }
                proof {
                    assert(uv[u as int] == used_global@[u as int]@);
                    assert forall|k: Seq<char>| #[trigger] uv.take(u + 1).contains(k) == (uv.take(u as int).contains(k)
                        || k == uv[u as int]) by {
                        if uv.take(u + 1).contains(k) {
                            let a = choose|a: int| 0 <= a < u + 1 && #[trigger] uv.take(u + 1)[a] == k;
                            if a < u {
                                assert(uv.take(u as int)[a] == k);
                            }
                        }
                        if uv.take(u as int).contains(k) {
                            let a = choose|a: int| 0 <= a < u && #[trigger] uv.take(u as int)[a] == k;
                            assert(uv.take(u + 1)[a] == k);
                        }
                        if k == uv[u as int] {
                            assert(uv.take(u + 1)[u as int] == k);
                        }
                    }
                }
                u += 1;
            }
            proof {
                assert(uv.take(u as int) =~= uv);
                assert forall|k: Seq<char>| #[trigger] strings_view(names@).to_set().contains(k) == m.contains_key(k) by {
                    if uv.contains(k) {
                        let a = choose|a: int| 0 <= a < uv.len() && #[trigger] uv[a] == k;
                        assert(uv.to_set().contains(k));
                    }
                    if uv.to_set().contains(k) {
                        assert(uv.contains(k));
                    }
                }
            }
        },
    }
    // One row per name.
    let ghost nv = strings_view(names@);
    let mut r: Vec<(String, String, VariableMode, String)> = Vec::new();
    let mut i: usize = 0;
    while i < names.len()
        invariant
            vars.wf(),
            i <= names@.len(),
            nv == strings_view(names@),
            strictly_sorted(nv),
            m == variable_rows(vars@, str_scope_view(scope_id), strings_view(used_global@).to_set()),
            forall|k: Seq<char>| #[trigger] nv.to_set().contains(k) == m.contains_key(k),
            r@.len() == i,
            forall|j: int| 0 <= j < i ==> (#[trigger] rows_view(r@)[j]) == (nv[j], m[nv[j]]),
        decreases names.len() - i,
    {
        let key = names[i].as_str();
        proof {
            assert(nv[i as int] == key@);
            assert(nv.to_set().contains(nv[i as int]));
        }
        let ghost before = r@;
        let from_scope = match scope_id {
            Some(sid) => match vars.scoped_get(sid, key) {
                Some(v) => Some((v.clone(), vars.scoped_mode(sid, key))),
                None => None,
            },
            None => None,
        };
        match from_scope {
            Some((v, md)) => {
                let mode = match md {
                    Some(x) => x,
                    None => VariableMode::Placeholder,
                };
                r.push((string_from_chars(string_chars(&names[i]).as_slice()), string_from_chars(string_chars(&v).as_slice()), mode, label_string(true)));
            },
            None => {
                match vars.get(key) {
                    Some(v) => {
                        let mode = match vars.mode(key) {
                            Some(x) => x,
                            None => VariableMode::Placeholder,
                        };
                        r.push((string_from_chars(string_chars(&names[i]).as_slice()), string_from_chars(string_chars(v).as_slice()), mode, label_string(false)));
                    },
                    None => {
                        proof {
                            assert(false);
                        }
                    },
                }
            },
        }
        proof {
            assert(rows_view(r@) =~= rows_view(before).push((nv[i as int], m[nv[i as int]])));
            assert forall|j: int| 0 <= j < i + 1 implies (#[trigger] rows_view(r@)[j]) == (nv[j], m[nv[j]]) by {
                if j < i {
                    assert(rows_view(r@)[j] == rows_view(before)[j]);
                }
            }
        }
        i += 1;
    }
    proof {
        let rv = rows_view(r@);
        assert forall|a: int, b: int| 0 <= a < b < rv.len() implies lex_lt(#[trigger] rv[a].0, #[trigger] rv[b].0) by {
            assert(rv[a] == (nv[a], m[nv[a]]));
            assert(rv[b] == (nv[b], m[nv[b]]));
        }
        assert forall|a: int| 0 <= a < rv.len() implies m.contains_key(#[trigger] rv[a].0) && m[rv[a].0] == rv[a].1 by {
            assert(rv[a] == (nv[a], m[nv[a]]));
            assert(nv.to_set().contains(nv[a]));
        }
        assert forall|k: Seq<char>| m.contains_key(k) implies exists|a: int| 0 <= a < rv.len() && #[trigger] rv[a].0 == k by {
            assert(nv.to_set().contains(k));
            let a = choose|a: int| 0 <= a < nv.len() && #[trigger] nv[a] == k;
            assert(rv.len() == nv.len());
            assert(rv[a] == (nv[a], m[nv[a]]));
            assert(rv[a].0 == k);
        }
    }
    r
}

/// The value and mode a name resolves to: the scope's own variable when
/// there is one, else the global one; `None` when neither holds it.
pub fn variable_value_mode_for_key(vars: &Variables, scope_id: Option<&str>, key: &str) -> (r: Option<
    (String, VariableMode),
>)
    requires
        vars.wf(),
    ensures
        match r {
            Some(p) => resolve(vars@, key@, str_scope_view(scope_id)) == Some((p.0@, p.1)),
            None => resolve(vars@, key@, str_scope_view(scope_id)) is None,
        },
{
    match scope_id {
        Some(sid) => match vars.scoped_get(sid, key) {
            Some(v) => {
                let mode = match vars.scoped_mode(sid, key) {
                    Some(x) => x,
                    None => VariableMode::Placeholder,
                };
                return Some((string_from_chars(string_chars(v).as_slice()), mode));
            },
            None => {},
        },
        None => {},
    }
    match vars.get(key) {
        Some(v) => {
            let mode = match vars.mode(key) {
                Some(x) => x,
                None => VariableMode::Placeholder,
            };
            Some((string_from_chars(string_chars(v).as_slice()), mode))
        },
        None => None,
    }
}

// ---------------------------------------------------------------------------
// The variable list's keys
// ---------------------------------------------------------------------------

/// The variable list of the manager: the listed keys, the selected row and
/// whether a first `g` of `gg` was pressed. With no variable the list
/// shows one hint row.
#[derive(Debug, Clone)]
pub struct VariableTableState {
    pub keys: Vec<String>,
    pub selected: usize,
    pub pending_g: bool,
}

/// What the variable list reports.
pub enum TableMsgView {
    Add,
    SelectionChanged(Seq<char>),
    Edit(Seq<char>),
    Delete(Seq<char>),
    /// A message the list never sends.
    Other,
}

/// The view of a message the list may send.
pub open spec fn table_msg_view(m: Option<Msg>) -> Option<TableMsgView> {
    match m {
        None => None,
        Some(Msg::VariableManager(VariableManagerMsg::Add)) => Some(TableMsgView::Add),
        Some(Msg::VariableManager(VariableManagerMsg::SelectionChanged(k))) => Some(
            TableMsgView::SelectionChanged(k@),
        ),
        Some(Msg::VariableManager(VariableManagerMsg::Edit(k))) => Some(TableMsgView::Edit(k@)),
        Some(Msg::VariableManager(VariableManagerMsg::Delete(k))) => Some(TableMsgView::Delete(k@)),
        Some(_) => Some(TableMsgView::Other),
    }
}

/// The number of rows: one per key, or the hint row alone.
pub open spec fn table_row_count(keys: Seq<Seq<char>>) -> nat {
    if keys.len() == 0 {
        1
    } else {
        keys.len()
    }
}

/// The key on the selected row, if that row shows one.
pub open spec fn table_selected_key(keys: Seq<Seq<char>>, sel: nat) -> Option<Seq<char>> {
    if sel < keys.len() {
        Some(keys[sel as int])
    } else {
        None
    }
}

/// The report of a selection move: the newly selected key.
pub open spec fn selection_report(keys: Seq<Seq<char>>, sel: nat) -> Option<TableMsgView> {
    match table_selected_key(keys, sel) {
        Some(k) => Some(TableMsgView::SelectionChanged(k)),
        None => None,
    }
}

/// A key on the variable list: the new selection, whether a `g` is
/// pending, and the report. `gg` and Home go to the first row, `G` and End
/// to the last; `j`/Down and `k`/Up move one row without wrapping; `a`
/// asks to add a variable, `e` and `d` to edit and delete the selected one.
pub open spec fn table_step(keys: Seq<Seq<char>>, sel: nat, pending: bool, k: KeyEvent) -> (
    nat,
    bool,
    Option<TableMsgView>,
) {
    let last = (table_row_count(keys) - 1) as nat;
    if pending && plain_g(k) {
        (0, false, selection_report(keys, 0))
    } else if plain_g(k) {
        (sel, true, None)
    } else if jump_to_end(k) {
        (last, false, selection_report(keys, last))
    } else if (k.code == Key::Char('j') && no_modifiers(k.modifiers)) || k.code == Key::Down {
        let n = if sel + 1 < table_row_count(keys) {
            (sel + 1) as nat
        } else {
            sel
        };
        (n, false, selection_report(keys, n))
    } else if (k.code == Key::Char('k') && no_modifiers(k.modifiers)) || k.code == Key::Up {
        let n = if sel > 0 {
            (sel - 1) as nat
        } else {
            sel
        };
        (n, false, selection_report(keys, n))
    } else if k.code == Key::Home {
        (0, false, selection_report(keys, 0))
    } else if k.code == Key::End {
        (last, false, selection_report(keys, last))
    } else if k.code == Key::Char('a') && no_modifiers(k.modifiers) {
        (sel, false, Some(TableMsgView::Add))
    } else if k.code == Key::Char('d') && no_modifiers(k.modifiers) {
        (sel, false, match table_selected_key(keys, sel) {
            Some(key) => Some(TableMsgView::Delete(key)),
            None => None,
        })
    } else if k.code == Key::Char('e') && no_modifiers(k.modifiers) {
        (sel, false, match table_selected_key(keys, sel) {
            Some(key) => Some(TableMsgView::Edit(key)),
            None => None,
        })
    } else {
        (sel, false, None)
    }
}

impl VariableTableState {
    /// The list of the given keys, first row selected.
    pub fn new(keys: Vec<String>) -> (r: VariableTableState)
        ensures
            r.keys@ == keys@,
            r.selected == 0,
            !r.pending_g,
    {
        VariableTableState { keys, selected: 0, pending_g: false }
    }

    fn selection_message(&self) -> (r: Option<Msg>)
        ensures
            table_msg_view(r) == selection_report(strings_view(self.keys@), self.selected as nat),
    {
        if self.selected < self.keys.len() {
            Some(Msg::VariableManager(VariableManagerMsg::SelectionChanged(self.keys[self.selected].clone())))
        } else {
            None
        }
    }

    fn selected_key(&self) -> (r: Option<String>)
        ensures
            match r {
                Some(k) => table_selected_key(strings_view(self.keys@), self.selected as nat) == Some(k@),
                None => table_selected_key(strings_view(self.keys@), self.selected as nat) is None,
            },
    {
        if self.selected < self.keys.len() {
            Some(self.keys[self.selected].clone())
        } else {
            None
        }
    }

    /// Handles a key on the list, as [`table_step`] says.
    pub fn on_key(&mut self, key: KeyEvent) -> (r: Option<Msg>)
        requires
            old(self).selected < table_row_count(strings_view(old(self).keys@)),
        ensures
            final(self).keys@ == old(self).keys@,
            final(self).selected < table_row_count(strings_view(final(self).keys@)),
            (final(self).selected as nat, final(self).pending_g, table_msg_view(r)) == table_step(
                strings_view(old(self).keys@),
                old(self).selected as nat,
                old(self).pending_g,
                key,
            ),
    {
        let count: usize = if self.keys.len() == 0 {
            1
        } else {
            self.keys.len()
        };
        let was_pending = self.pending_g;
        self.pending_g = false;
        if was_pending && is_plain_g(&key) {
            self.selected = 0;
            return self.selection_message();
        }
        if is_plain_g(&key) {
            self.pending_g = true;
            return None;
        }
        let none = !key.modifiers.shift && !key.modifiers.control && !key.modifiers.alt;
        if is_jump_to_end(&key) || key.code == Key::End {
            self.selected = count - 1;
            return self.selection_message();
        }
        if (key.code == Key::Char('j') && none) || key.code == Key::Down {
            if self.selected + 1 < count {
                self.selected = self.selected + 1;
            }
            return self.selection_message();
        }
        if (key.code == Key::Char('k') && none) || key.code == Key::Up {
            if self.selected > 0 {
                self.selected = self.selected - 1;
            }
            return self.selection_message();
        }
        if key.code == Key::Home {
            self.selected = 0;
            return self.selection_message();
        }
        if key.code == Key::Char('a') && none {
            return Some(Msg::VariableManager(VariableManagerMsg::Add));
        }
        if key.code == Key::Char('d') && none {
            return match self.selected_key() {
                Some(k) => Some(Msg::VariableManager(VariableManagerMsg::Delete(k))),
                None => None,
            };
        }
        if key.code == Key::Char('e') && none {
            return match self.selected_key() {
                Some(k) => Some(Msg::VariableManager(VariableManagerMsg::Edit(k))),
                None => None,
            };
        }
        None
    }
}

} // verus!
