//! API tester variables: global values, values scoped to one route, and the
//! `{{NAME}}` template substitution that resolves them.
//!
//! Each variable has a mode. `Hidden` values are shown as `hidden` in
//! previews and masked in rendered text; `Placeholder` values are shown as is.
//! A value stored for a route scope overrides the global value of the same
//! name for that route.

use vstd::prelude::*;
use crate::table::{
    has_key, key_index, lemma_table_map_empty, lemma_value_at, sorted_table, table_find, table_insert, table_map, table_remove,
    value_of,
};
use crate::text::{
    find_from, find_from_exec, lemma_find_from, lemma_find_from_unique, matches_at, lemma_lex_asymmetric, lemma_lex_irreflexive,
    lemma_lex_total, lemma_lex_transitive, lex_less, lex_lt, push_all, replace_all, replace_chars,
    copy_chars, slice_chars, string_chars, string_from_chars, to_chars, trim, trim_chars,
};

verus! {

/// How a variable's value is shown outside of request execution.
#[derive(Debug, Clone, Copy, PartialEq, Eq, Structural)]
pub enum VariableMode {
    /// The value is masked as `hidden` in previews and rendered output.
    Hidden,
    /// The value is shown as is.
    Placeholder,
}

impl Default for VariableMode {
    fn default() -> (m: Self)
        ensures
            m == VariableMode::Placeholder,
    {
        VariableMode::Placeholder
    }
}

/// A stored variable: its value and display mode.
#[derive(Debug, Clone)]
pub struct Variable {
    /// The value substituted for the variable.
    pub value: String,
    /// How the value is shown outside of execution.
    pub mode: VariableMode,
}

/// What a variable holds: its value and mode.
pub type VarEntry = (Seq<char>, VariableMode);

/// The abstract content of a stored variable.
pub open spec fn var_view(v: Variable) -> VarEntry {
    (v.value@, v.mode)
}

/// A table of variables seen as a map from name to entry.
pub open spec fn var_table_map(t: Seq<(String, Variable)>) -> Map<Seq<char>, VarEntry> {
    table_map(t).map_values(|v: Variable| var_view(v))
}

/// Abstract state of a variable store.
pub struct VariablesView {
    /// Global variables by name.
    pub global: Map<Seq<char>, VarEntry>,
    /// Scoped variables by scope id, then by name.
    pub scoped: Map<Seq<char>, Map<Seq<char>, VarEntry>>,
}

/// Global variables and variables scoped to a route, each kept in name order.
#[derive(Debug, Clone)]
pub struct Variables {
    global: Vec<(String, Variable)>,
    scoped: Vec<(String, Vec<(String, Variable)>)>,
}

impl View for Variables {
    type V = VariablesView;

    closed spec fn view(&self) -> VariablesView {
        VariablesView {
            global: var_table_map(self.global@),
            scoped: Map::new(
                |s: Seq<char>| has_key(self.scoped@, s),
                |s: Seq<char>| var_table_map(value_of(self.scoped@, s)@),
            ),
        }
    }
}

/// The text a preview shows for a hidden value.
pub open spec fn hidden_text() -> Seq<char> {
    seq!['h', 'i', 'd', 'd', 'e', 'n']
}

/// The opening delimiter of a placeholder.
pub open spec fn open_braces() -> Seq<char> {
    seq!['{', '{']
}

/// The closing delimiter of a placeholder.
pub open spec fn close_braces() -> Seq<char> {
    seq!['}', '}']
}

/// The variable `key` resolves to: the value stored for the scope if there
/// is one, else the global value.
pub open spec fn resolve(v: VariablesView, key: Seq<char>, scope: Option<Seq<char>>) -> Option<
    VarEntry,
> {
    match scope {
        Some(s) => if v.scoped.contains_key(s) && v.scoped[s].contains_key(key) {
            Some(v.scoped[s][key])
        } else {
            v.global.get(key)
        },
        None => v.global.get(key),
    }
}

/// All variables visible in a scope: the global ones, overridden by the
/// scope's own.
pub open spec fn resolved_map(v: VariablesView, scope: Option<Seq<char>>) -> Map<
    Seq<char>,
    VarEntry,
> {
    match scope {
        Some(s) => if v.scoped.contains_key(s) {
            v.global.union_prefer_right(v.scoped[s])
        } else {
            v.global
        },
        None => v.global,
    }
}

/// The text put in place of a resolved placeholder.
pub open spec fn replacement(entry: VarEntry, preview: bool) -> Seq<char> {
    if preview && entry.1 == VariableMode::Hidden {
        hidden_text()
    } else {
        entry.0
    }
}

/// The result of substituting the placeholders of `t`.
///
/// Each `{{ NAME }}` whose trimmed name resolves is replaced; an unresolved
/// placeholder is kept as written; an unclosed `{{` and everything after it is
/// kept as written.
pub open spec fn substitute_spec(
    v: VariablesView,
    t: Seq<char>,
    scope: Option<Seq<char>>,
    preview: bool,
) -> Seq<char>
    decreases t.len(),
{
    match find_from(t, open_braces(), 0) {
        None => t,
        Some(s) => {
            proof {
                lemma_find_from(t, open_braces(), 0);
            }
            let after = t.skip(s + 2);
            match find_from(after, close_braces(), 0) {
                None => t,
                Some(e) => {
                    proof {
                        lemma_find_from(after, close_braces(), 0);
                    }
                    let token = after.take(e);
                    let piece = match resolve(v, trim(token), scope) {
                        Some(entry) => replacement(entry, preview),
                        None => open_braces() + token + close_braces(),
                    };
                    t.take(s) + piece + substitute_spec(v, after.skip(e + 2), scope, preview)
                },
            }
        },
    }
}

/// The length of a text in UTF-8 bytes.
pub open spec fn byte_len(s: Seq<char>) -> nat {
    vstd::utf8::encode_utf8(s).len()
}

/// `a` is masked before `b`: values longer in UTF-8 bytes first, then by
/// name.
pub open spec fn masked_before(a: (Seq<char>, Seq<char>), b: (Seq<char>, Seq<char>)) -> bool {
    byte_len(a.1) > byte_len(b.1) || (byte_len(a.1) == byte_len(b.1) && lex_lt(a.0, b.0))
}

/// `h` lists, as (name, value) pairs, exactly the visible hidden variables
/// with a non-empty value, ordered by [`masked_before`].
pub open spec fn is_mask_order(
    v: VariablesView,
    scope: Option<Seq<char>>,
    h: Seq<(Seq<char>, Seq<char>)>,
) -> bool {
    let m = resolved_map(v, scope);
    &&& forall|i: int, j: int| 0 <= i < j < h.len() ==> masked_before(#[trigger] h[i], #[trigger] h[j])
    &&& forall|i: int|
        0 <= i < h.len() ==> {
            &&& m.contains_key(#[trigger] h[i].0)
            &&& m[h[i].0] == (h[i].1, VariableMode::Hidden)
            &&& h[i].1.len() > 0
        }
    &&& forall|k: Seq<char>|
        m.contains_key(k) && m[k].1 == VariableMode::Hidden && m[k].0.len() > 0 ==> exists|i: int|
            0 <= i < h.len() && #[trigger] h[i].0 == k
}

/// `text` with the values of `h` replaced by `hidden`, one after the other.
pub open spec fn apply_masks(text: Seq<char>, h: Seq<(Seq<char>, Seq<char>)>) -> Seq<char>
    decreases h.len(),
{
    if h.len() == 0 {
        text
    } else {
        replace_all(apply_masks(text, h.drop_last()), h.last().1, hidden_text())
    }
}

/// The view of an optional scope id.
pub open spec fn scope_view(scope: Option<&Vec<char>>) -> Option<Seq<char>> {
    match scope {
        Some(s) => Some(s@),
        None => None,
    }
}

/// The view of an optional scope id given as a string slice.
pub open spec fn str_scope_view(scope: Option<&str>) -> Option<Seq<char>> {
    match scope {
        Some(s) => Some(s@),
        None => None,
    }
}

fn literal_chars2(a: char, b: char) -> (v: Vec<char>)
    ensures
        v@ == seq![a, b],
{
    let mut v: Vec<char> = Vec::new();
    v.push(a);
    v.push(b);
    proof {
        assert(v@ =~= seq![a, b]);
    }
    v
}

fn hidden_chars() -> (v: Vec<char>)
    ensures
        v@ == hidden_text(),
{
    let mut v: Vec<char> = Vec::new();
    v.push('h');
    v.push('i');
    v.push('d');
    v.push('d');
    v.push('e');
    v.push('n');
    proof {
        assert(v@ =~= hidden_text());
    }
    v
}

/// Substituting in an empty text gives an empty text.
proof fn lemma_substitute_empty(v: VariablesView, scope: Option<Seq<char>>, preview: bool)
    ensures
        substitute_spec(v, Seq::<char>::empty(), scope, preview) == Seq::<char>::empty(),
{
    lemma_find_from(Seq::<char>::empty(), open_braces(), 0);
}

impl Variable {
    /// A copy of this variable.
    pub fn duplicate(&self) -> (r: Variable)
        ensures
            r == *self,
    {
        Variable { value: self.value.clone(), mode: self.mode }
    }
}

/// Every scope table is sorted.
pub open spec fn scopes_sorted(t: Seq<(String, Vec<(String, Variable)>)>) -> bool {
    forall|i: int| 0 <= i < t.len() ==> sorted_table(#[trigger] t[i].1@)
}

impl Variables {
    /// The store's tables are sorted by name.
    pub closed spec fn wf(&self) -> bool {
        &&& sorted_table(self.global@)
        &&& sorted_table(self.scoped@)
        &&& scopes_sorted(self.scoped@)
    }

    /// An empty store.
    pub fn new() -> (r: Self)
        ensures
            r.wf(),
            r@.global == Map::<Seq<char>, VarEntry>::empty(),
            r@.scoped == Map::<Seq<char>, Map<Seq<char>, VarEntry>>::empty(),
    {
        let r = Variables { global: Vec::new(), scoped: Vec::new() };
        proof {
            assert(r@.global =~= Map::<Seq<char>, VarEntry>::empty());
            assert(r@.scoped =~= Map::<Seq<char>, Map<Seq<char>, VarEntry>>::empty());
        }
        r
    }

    /// The variable `key` resolves to in the given scope.
    fn resolve_variable(&self, key: &Vec<char>, scope: Option<&Vec<char>>) -> (r: Option<
        &Variable,
    >)
        requires
            self.wf(),
        ensures
            match r {
                Some(v) => resolve(self@, key@, scope_view(scope)) == Some(var_view(*v)),
                None => resolve(self@, key@, scope_view(scope)) is None,
            },
    {
        if let Some(s) = scope {
            if let Some(si) = table_find(&self.scoped, s) {
                proof {
                    assert(scopes_sorted(self.scoped@));
                    assert(sorted_table(self.scoped@[si as int].1@));
                }
                let inner = &self.scoped[si].1;
                if let Some(ki) = table_find(inner, key) {
                    return Some(&inner[ki].1);
                }
            }
        }
        match table_find(&self.global, key) {
            Some(gi) => Some(&self.global[gi].1),
            None => None,
        }
    }

    /// Substitutes the placeholders of `template` (see [`substitute_spec`]).
    fn substitute_with_scope(&self, template: &Vec<char>, scope: Option<&Vec<char>>, preview: bool)
        -> (r: Vec<char>)
        requires
            self.wf(),
        ensures
            r@ == substitute_spec(self@, template@, scope_view(scope), preview),
    {
        let open = literal_chars2('{', '{');
        let close = literal_chars2('}', '}');
        let mut out: Vec<char> = Vec::new();
        let mut rest = slice_chars(template, 0, template.len());
        proof {
            assert(template@.subrange(0, template@.len() as int) =~= template@);
        }
        while rest.len() > 0
            invariant
                self.wf(),
                open@ == open_braces(),
                close@ == close_braces(),
                substitute_spec(self@, template@, scope_view(scope), preview) == out@
                    + substitute_spec(self@, rest@, scope_view(scope), preview),
            decreases rest.len(),
        {
            let ghost t = rest@;
            proof {
                lemma_find_from(t, open_braces(), 0);
            }
            match find_from_exec(&rest, &open, 0) {
                None => {
                    push_all(&mut out, &rest);
                    rest = Vec::new();
                    proof {
                        lemma_substitute_empty(self@, scope_view(scope), preview);
                        assert(out@ + Seq::<char>::empty() =~= out@);
                    }
                },
                Some(s) => {
                    let after = slice_chars(&rest, s + 2, rest.len());
                    proof {
                        assert(after@ =~= t.skip(s + 2));
                        lemma_find_from(after@, close_braces(), 0);
                    }
                    match find_from_exec(&after, &close, 0) {
                        None => {
                            push_all(&mut out, &rest);
                            rest = Vec::new();
                            proof {
                                lemma_substitute_empty(self@, scope_view(scope), preview);
                                assert(out@ + Seq::<char>::empty() =~= out@);
                            }
                        },
                        Some(e) => {
                            let prefix = slice_chars(&rest, 0, s);
                            let token = slice_chars(&after, 0, e);
                            let key = trim_chars(&token);
                            push_all(&mut out, &prefix);
                            match self.resolve_variable(&key, scope) {
                                Some(var) => {
                                    if preview && var.mode == VariableMode::Hidden {
                                        let h = hidden_chars();
                                        push_all(&mut out, &h);
                                    } else {
                                        let val = string_chars(&var.value);
                                        push_all(&mut out, &val);
                                    }
                                },
                                None => {
                                    push_all(&mut out, &open);
                                    push_all(&mut out, &token);
                                    push_all(&mut out, &close);
                                },
                            }
                            let next = slice_chars(&after, e + 2, after.len());
                            proof {
                                assert(prefix@ =~= t.take(s as int));
                                assert(token@ =~= after@.take(e as int));
                                assert(next@ =~= after@.skip(e + 2));
                            }
                            rest = next;
                        },
                    }
                },
            }
        }
        proof {
            assert(rest@ =~= Seq::<char>::empty());
            lemma_substitute_empty(self@, scope_view(scope), preview);
            assert(out@ + Seq::<char>::empty() =~= out@);
        }
        out
    }

    /// Substitutes placeholders with the real values of global variables.
    pub fn substitute(&self, template: &str) -> (r: String)
        requires
            self.wf(),
        ensures
            r@ == substitute_spec(self@, template@, None, false),
    {
        self.substitute_for_execution(template)
    }

    /// Substitutes placeholders with the real values of global variables.
    pub fn substitute_for_execution(&self, template: &str) -> (r: String)
        requires
            self.wf(),
        ensures
            r@ == substitute_spec(self@, template@, None, false),
    {
        let t = to_chars(template);
        let out = self.substitute_with_scope(&t, None, false);
        string_from_chars(out.as_slice())
    }

    /// Substitutes placeholders with real values, scoped values first.
    pub fn substitute_for_execution_with_scope(&self, template: &str, scope_id: Option<&str>) -> (r:
        String)
        requires
            self.wf(),
        ensures
            r@ == substitute_spec(self@, template@, str_scope_view(scope_id), false),
    {
        let t = to_chars(template);
        let out = match scope_id {
            Some(s) => {
                let sc = to_chars(s);
                self.substitute_with_scope(&t, Some(&sc), false)
            },
            None => self.substitute_with_scope(&t, None, false),
        };
        string_from_chars(out.as_slice())
    }

    /// Substitutes placeholders for display: hidden values become `hidden`.
    pub fn substitute_for_preview_with_scope(&self, template: &str, scope_id: Option<&str>) -> (r:
        String)
        requires
            self.wf(),
        ensures
            r@ == substitute_spec(self@, template@, str_scope_view(scope_id), true),
    {
        let t = to_chars(template);
        let out = match scope_id {
            Some(s) => {
                let sc = to_chars(s);
                self.substitute_with_scope(&t, Some(&sc), true)
            },
            None => self.substitute_with_scope(&t, None, true),
        };
        string_from_chars(out.as_slice())
    }

    /// Stores a global variable, replacing one of the same name.
    pub fn add_with_mode(&mut self, key: String, value: String, mode: VariableMode)
        requires
            old(self).wf(),
        ensures
            final(self).wf(),
            final(self)@.global == old(self)@.global.insert(key@, (value@, mode)),
            final(self)@.scoped == old(self)@.scoped,
    {
        let ghost k = key@;
        let ghost e = (value@, mode);
        let ghost old_g = self.global@;
        let var = Variable { value, mode };
        table_insert(&mut self.global, key, var);
        proof {
            assert(var_view(var) == e);
            assert(var_table_map(self.global@) =~= var_table_map(old_g).insert(k, e));
        }
    }

    /// Removes a global variable.
    pub fn delete(&mut self, key: &str)
        requires
            old(self).wf(),
        ensures
            final(self).wf(),
            final(self)@.global == old(self)@.global.remove(key@),
            final(self)@.scoped == old(self)@.scoped,
    {
        let ghost old_g = self.global@;
        let k = to_chars(key);
        table_remove(&mut self.global, &k);
        proof {
            assert(var_table_map(self.global@) =~= var_table_map(old_g).remove(key@));
        }
    }

    /// The global variables as (name, value) references, in name order.
    pub fn entries(&self) -> (r: Vec<(&String, &String)>)
        requires
            self.wf(),
        ensures
            lists_values(ref_pairs_view(r@), self@.global),
    {
        let r = table_value_refs(&self.global);
        r
    }

    /// The value of a global variable.
    pub fn get(&self, key: &str) -> (r: Option<&String>)
        requires
            self.wf(),
        ensures
            match r {
                Some(v) => self@.global.contains_key(key@) && v@ == self@.global[key@].0,
                None => !self@.global.contains_key(key@),
            },
    {
        let k = to_chars(key);
        match table_find(&self.global, &k) {
            Some(i) => Some(&self.global[i].1.value),
            None => None,
        }
    }

    /// The mode of a global variable.
    pub fn mode(&self, key: &str) -> (r: Option<VariableMode>)
        requires
            self.wf(),
        ensures
            match r {
                Some(m) => self@.global.contains_key(key@) && m == self@.global[key@].1,
                None => !self@.global.contains_key(key@),
            },
    {
        let k = to_chars(key);
        match table_find(&self.global, &k) {
            Some(i) => Some(self.global[i].1.mode),
            None => None,
        }
    }

    /// Index of a scope's table, with what the view holds for it.
    fn find_scope(&self, scope: &Vec<char>) -> (r: Option<usize>)
        requires
            self.wf(),
        ensures
            r is Some <==> self@.scoped.contains_key(scope@),
            match r {
                Some(i) => i < self.scoped@.len() && sorted_table(self.scoped@[i as int].1@)
                    && self@.scoped[scope@] == var_table_map(self.scoped@[i as int].1@),
                None => true,
            },
    {
        let r = table_find(&self.scoped, scope);
        proof {
            assert(scopes_sorted(self.scoped@));
            match r {
                Some(i) => {
                    assert(sorted_table(self.scoped@[i as int].1@));
                },
                None => {},
            }
        }
        r
    }

    /// Stores `tab` as the table of `scope`, replacing any previous one.
    fn put_scope(&mut self, scope: &Vec<char>, tab: Vec<(String, Variable)>)
        requires
            old(self).wf(),
            sorted_table(tab@),
        ensures
            final(self).wf(),
            final(self)@.global == old(self)@.global,
            final(self)@.scoped == old(self)@.scoped.insert(scope@, var_table_map(tab@)),
    {
        let ghost old_s = self.scoped@;
        let ghost tv = tab@;
        let name = string_from_chars(scope.as_slice());
        table_insert(&mut self.scoped, name, tab);
        proof {
            let ns = self.scoped@;
            assert forall|i: int| 0 <= i < ns.len() implies sorted_table(#[trigger] ns[i].1@) by {
                if ns[i].1@ != tv {
                    assert(old_s.contains(ns[i]));
                    let j = choose|j: int| 0 <= j < old_s.len() && old_s[j] == ns[i];
                    assert(sorted_table(old_s[j].1@));
                }
            }
            assert(table_map(ns) == table_map(old_s).insert(scope@, tab));
            assert forall|k: Seq<char>| #[trigger] has_key(ns, k) == (has_key(old_s, k) || k == scope@)
                by {
                assert(table_map(ns).contains_key(k) == has_key(ns, k));
                assert(table_map(old_s).contains_key(k) == has_key(old_s, k));
            }
            assert forall|k: Seq<char>| has_key(ns, k) implies #[trigger] value_of(ns, k) == (if k
                == scope@ {
                tab
            } else {
                value_of(old_s, k)
            }) by {
                assert(table_map(ns)[k] == value_of(ns, k));
            }
            assert(self@.scoped =~= old(self)@.scoped.insert(scope@, var_table_map(tv)));
        }
    }

    /// Removes the table of `scope`.
    fn drop_scope(&mut self, scope: &Vec<char>)
        requires
            old(self).wf(),
        ensures
            final(self).wf(),
            final(self)@.global == old(self)@.global,
            final(self)@.scoped == old(self)@.scoped.remove(scope@),
    {
        let ghost old_s = self.scoped@;
        table_remove(&mut self.scoped, scope);
        proof {
            let ns = self.scoped@;
            assert forall|i: int| 0 <= i < ns.len() implies sorted_table(#[trigger] ns[i].1@) by {
                assert(old_s.contains(ns[i]));
                let j = choose|j: int| 0 <= j < old_s.len() && old_s[j] == ns[i];
                assert(sorted_table(old_s[j].1@));
            }
            assert forall|k: Seq<char>| #[trigger] has_key(ns, k) == (has_key(old_s, k) && k != scope@)
                by {
                assert(table_map(ns).contains_key(k) == has_key(ns, k));
                assert(table_map(old_s).contains_key(k) == has_key(old_s, k));
            }
            assert forall|k: Seq<char>| has_key(ns, k) implies #[trigger] value_of(ns, k)
                == value_of(old_s, k) by {
                assert(table_map(ns)[k] == value_of(ns, k));
            }
            assert(self@.scoped =~= old(self)@.scoped.remove(scope@));
        }
    }

    /// The map a scope currently holds (empty when the scope has none).
    pub open spec fn scope_map(v: VariablesView, scope: Seq<char>) -> Map<Seq<char>, VarEntry> {
        if v.scoped.contains_key(scope) {
            v.scoped[scope]
        } else {
            Map::empty()
        }
    }

    /// Stores a variable for a route scope, replacing one of the same name.
    pub fn scoped_add_with_mode(&mut self, scope_id: &str, key: String, value: String, mode: VariableMode)
        requires
            old(self).wf(),
        ensures
            final(self).wf(),
            final(self)@.global == old(self)@.global,
            final(self)@.scoped == old(self)@.scoped.insert(
                scope_id@,
                Self::scope_map(old(self)@, scope_id@).insert(key@, (value@, mode)),
            ),
    {
        let sc = to_chars(scope_id);
        let mut inner: Vec<(String, Variable)> = match self.find_scope(&sc) {
            Some(si) => copy_var_table(&self.scoped[si].1),
            None => Vec::new(),
        };
        proof {
            if !old(self)@.scoped.contains_key(scope_id@) {
                assert(var_table_map(inner@) =~= Map::<Seq<char>, VarEntry>::empty());
            }
        }
        let ghost before = inner@;
        let ghost k = key@;
        let ghost e = (value@, mode);
        let var = Variable { value, mode };
        table_insert(&mut inner, key, var);
        proof {
            assert(var_table_map(inner@) =~= var_table_map(before).insert(k, e));
        }
        self.put_scope(&sc, inner);
    }

    /// Removes a scoped variable; a scope left empty is removed too.
    pub fn scoped_delete(&mut self, scope_id: &str, key: &str)
        requires
            old(self).wf(),
        ensures
            final(self).wf(),
            final(self)@.global == old(self)@.global,
            final(self)@.scoped == scoped_after_delete(old(self)@.scoped, scope_id@, key@),
    {
        let sc = to_chars(scope_id);
        let k = to_chars(key);
        if let Some(si) = self.find_scope(&sc) {
            let mut inner = copy_var_table(&self.scoped[si].1);
            let ghost before = inner@;
            table_remove(&mut inner, &k);
            proof {
                assert(var_table_map(inner@) =~= var_table_map(before).remove(key@));
                lemma_table_map_empty(inner@);
                if var_table_map(inner@) == Map::<Seq<char>, VarEntry>::empty() {
                    if inner@.len() > 0 {
                        assert(has_key(inner@, inner@[0].0@));
                        assert(var_table_map(inner@).contains_key(inner@[0].0@));
                    }
                } else {
                    if inner@.len() == 0 {
                        assert(var_table_map(inner@) =~= Map::<Seq<char>, VarEntry>::empty());
                    }
                }
            }
            if inner.len() == 0 {
                self.drop_scope(&sc);
            } else {
                self.put_scope(&sc, inner);
            }
        }
    }

    /// Removes every variable of a route scope.
    pub fn delete_scope(&mut self, scope_id: &str)
        requires
            old(self).wf(),
        ensures
            final(self).wf(),
            final(self)@.global == old(self)@.global,
            final(self)@.scoped == old(self)@.scoped.remove(scope_id@),
    {
        let sc = to_chars(scope_id);
        self.drop_scope(&sc);
    }

    /// The variables of a route scope as (name, value) references, in name
    /// order; empty when the scope has none.
    pub fn scoped_entries(&self, scope_id: &str) -> (r: Vec<(&String, &String)>)
        requires
            self.wf(),
        ensures
            lists_values(ref_pairs_view(r@), Self::scope_map(self@, scope_id@)),
    {
        let sc = to_chars(scope_id);
        match self.find_scope(&sc) {
            Some(si) => table_value_refs(&self.scoped[si].1),
            None => {
                let r: Vec<(&String, &String)> = Vec::new();
                proof {
                    assert(ref_pairs_view(r@) =~= Seq::<(Seq<char>, Seq<char>)>::empty());
                }
                r
            },
        }
    }

    /// The value of a scoped variable.
    pub fn scoped_get(&self, scope_id: &str, key: &str) -> (r: Option<&String>)
        requires
            self.wf(),
        ensures
            match r {
                Some(v) => Self::scope_map(self@, scope_id@).contains_key(key@) && v@ == Self::scope_map(
                    self@,
                    scope_id@,
                )[key@].0,
                None => !Self::scope_map(self@, scope_id@).contains_key(key@),
            },
    {
        let sc = to_chars(scope_id);
        let k = to_chars(key);
        match self.find_scope(&sc) {
            Some(si) => {
                let inner = &self.scoped[si].1;
                match table_find(inner, &k) {
                    Some(i) => Some(&inner[i].1.value),
                    None => None,
                }
            },
            None => None,
        }
    }

    /// The mode of a scoped variable.
    pub fn scoped_mode(&self, scope_id: &str, key: &str) -> (r: Option<VariableMode>)
        requires
            self.wf(),
        ensures
            match r {
                Some(m) => Self::scope_map(self@, scope_id@).contains_key(key@) && m == Self::scope_map(
                    self@,
                    scope_id@,
                )[key@].1,
                None => !Self::scope_map(self@, scope_id@).contains_key(key@),
            },
    {
        let sc = to_chars(scope_id);
        let k = to_chars(key);
        match self.find_scope(&sc) {
            Some(si) => {
                let inner = &self.scoped[si].1;
                match table_find(inner, &k) {
                    Some(i) => Some(inner[i].1.mode),
                    None => None,
                }
            },
            None => None,
        }
    }

    /// The ids of the scopes that hold variables, in order.
    pub fn scope_ids(&self) -> (r: Vec<String>)
        requires
            self.wf(),
        ensures
            forall|i: int, j: int| 0 <= i < j < r@.len() ==> lex_lt(#[trigger] r@[i]@, #[trigger] r@[j]@),
            forall|i: int| 0 <= i < r@.len() ==> self@.scoped.contains_key(#[trigger] r@[i]@),
            forall|s: Seq<char>| self@.scoped.contains_key(s) ==> exists|i: int| 0 <= i < r@.len() && #[trigger] r@[i]@ == s,
    {
        let mut r: Vec<String> = Vec::new();
        let mut i: usize = 0;
        while i < self.scoped.len()
            invariant
                self.wf(),
                i <= self.scoped@.len(),
                r@.len() == i,
                forall|j: int| 0 <= j < i ==> #[trigger] r@[j]@ == self.scoped@[j].0@,
            decreases self.scoped.len() - i,
        {
            r.push(self.scoped[i].0.clone());
            i += 1;
        }
        proof {
            assert forall|a: int| 0 <= a < r@.len() implies self@.scoped.contains_key(#[trigger] r@[a]@) by {
                assert(has_key(self.scoped@, self.scoped@[a].0@));
            }
            assert forall|s: Seq<char>| self@.scoped.contains_key(s) implies exists|a: int| 0 <= a < r@.len() && #[trigger] r@[a]@ == s by {
                let a = key_index(self.scoped@, s);
                assert(r@[a]@ == s);
            }
        }
        r
    }

    /// The global variables with their modes, in name order.
    pub fn entries_with_modes(&self) -> (r: Vec<(String, String, VariableMode)>)
        requires
            self.wf(),
        ensures
            lists_entries(triples_view(r@), self@.global),
    {
        table_triples(&self.global)
    }

    /// The variables of a scope with their modes, in name order.
    pub fn scoped_entries_with_modes(&self, scope_id: &str) -> (r: Vec<(String, String, VariableMode)>)
        requires
            self.wf(),
        ensures
            lists_entries(triples_view(r@), Self::scope_map(self@, scope_id@)),
    {
        let sc = to_chars(scope_id);
        match self.find_scope(&sc) {
            Some(si) => table_triples(&self.scoped[si].1),
            None => {
                let r: Vec<(String, String, VariableMode)> = Vec::new();
                proof {
                    assert(triples_view(r@) =~= Seq::<(Seq<char>, VarEntry)>::empty());
                }
                r
            },
        }
    }

    /// Replaces every visible hidden value occurring in `text` with `hidden`,
    /// longer values first.
    pub fn redact_hidden_values_with_scope(&self, text: &str, scope_id: Option<&str>) -> (r: String)
        requires
            self.wf(),
        ensures
            exists|h: Seq<(Seq<char>, Seq<char>)>|
                is_mask_order(self@, str_scope_view(scope_id), h) && r@ == apply_masks(text@, h),
    {
        let t = to_chars(text);
        let out = match scope_id {
            Some(s) => {
                let sc = to_chars(s);
                self.redact_chars(&t, Some(&sc))
            },
            None => self.redact_chars(&t, None),
        };
        string_from_chars(out.as_slice())
    }

    fn redact_chars(&self, text: &Vec<char>, scope: Option<&Vec<char>>) -> (r: Vec<char>)
        requires
            self.wf(),
        ensures
            exists|h: Seq<(Seq<char>, Seq<char>)>|
                is_mask_order(self@, scope_view(scope), h) && r@ == apply_masks(text@, h),
    {
        let cands = self.hidden_candidates(scope);
        let h = sort_for_masking(&cands);
        let hidden = hidden_chars();
        let mut out = copy_chars(text);
        let mut i: usize = 0;
        let ghost hv = pairs_view(h@);
        let ghost m = resolved_map(self@, scope_view(scope));
        proof {
            let cv = pairs_view(cands@);
            assert forall|a: int| 0 <= a < hv.len() implies in_mask_set(m, #[trigger] hv[a]) by {
                assert(hv.contains(hv[a]));
                assert(cv.contains(hv[a]));
                let b = choose|b: int| 0 <= b < cv.len() && #[trigger] cv[b] == hv[a];
                assert(in_mask_set(m, cv[b]));
            }
            assert forall|k: int| 0 <= k < h.len() implies (#[trigger] h@[k]).1@.len() > 0 by {
                assert(in_mask_set(m, hv[k]));
            }
            assert forall|k: Seq<char>|
                m.contains_key(k) && m[k].1 == VariableMode::Hidden && m[k].0.len() > 0 implies exists|
                a: int,
            | 0 <= a < hv.len() && #[trigger] hv[a].0 == k by {
                assert(in_mask_set(m, (k, m[k].0)));
                assert(cv.contains((k, m[k].0)));
                assert(hv.contains((k, m[k].0)));
                let a = choose|a: int| 0 <= a < hv.len() && #[trigger] hv[a] == (k, m[k].0);
                assert(hv[a].0 == k);
            }
            assert(is_mask_order(self@, scope_view(scope), hv));
            assert(hv.take(0) =~= Seq::<(Seq<char>, Seq<char>)>::empty());
        }
        while i < h.len()
            invariant
                i <= h.len(),
                hv == pairs_view(h@),
                hidden@ == hidden_text(),
                forall|k: int| 0 <= k < h.len() ==> (#[trigger] h@[k]).1@.len() > 0,
                out@ == apply_masks(text@, hv.take(i as int)),
            decreases h.len() - i,
        {
            proof {
                assert(h@[i as int].1@.len() > 0);
                assert(hv.take(i + 1).drop_last() =~= hv.take(i as int));
                assert(hv.take(i + 1).last() == hv[i as int]);
            }
            out = replace_chars(&out, &h[i].1, &hidden);
            i += 1;
        }
        proof {
            assert(hv.take(h@.len() as int) =~= hv);
        }
        out
    }

    /// All variables visible in a scope, in name order: the global ones with
    /// the scope's own stored over them.
    fn resolved_variables(&self, scope: Option<&Vec<char>>) -> (r: Vec<(String, Variable)>)
        requires
            self.wf(),
        ensures
            sorted_table(r@),
            var_table_map(r@) == resolved_map(self@, scope_view(scope)),
    {
        let mut r = copy_var_table(&self.global);
        if let Some(s) = scope {
            if let Some(si) = table_find(&self.scoped, s) {
                proof {
                    lemma_value_at(self.scoped@, si as int);
                    assert(scopes_sorted(self.scoped@));
                    assert(sorted_table(self.scoped@[si as int].1@));
                }
                let inner = &self.scoped[si].1;
                let ghost g = self@.global;
                let mut j: usize = 0;
                proof {
                    lemma_table_map_prefix(inner@, 0);
                    assert(g.union_prefer_right(Map::<Seq<char>, VarEntry>::empty()) =~= g);
                }
                while j < inner.len()
                    invariant
                        sorted_table(inner@),
                        sorted_table(r@),
                        j <= inner@.len(),
                        var_table_map(r@) == g.union_prefer_right(var_table_map(inner@.take(j as int))),
                    decreases inner.len() - j,
                {
                    let ghost before = var_table_map(inner@.take(j as int));
                    let ghost old_r = r@;
                    let key = inner[j].0.clone();
                    let val = inner[j].1.duplicate();
                    table_insert(&mut r, key, val);
                    proof {
                        lemma_table_map_prefix(inner@, j as int);
                        assert(var_table_map(r@) =~= var_table_map(old_r).insert(
                            inner@[j as int].0@,
                            var_view(inner@[j as int].1),
                        ));
                        assert(g.union_prefer_right(before).insert(
                            inner@[j as int].0@,
                            var_view(inner@[j as int].1),
                        ) =~= g.union_prefer_right(
                            before.insert(inner@[j as int].0@, var_view(inner@[j as int].1)),
                        ));
                    }
                    j += 1;
                }
                proof {
                    assert(inner@.take(inner@.len() as int) =~= inner@);
                    assert(self@.scoped[s@] == var_table_map(inner@));
                }
            }
        }
        r
    }

    /// The visible hidden variables with a non-empty value, as (name, value),
    /// in name order.
    fn hidden_candidates(&self, scope: Option<&Vec<char>>) -> (c: Vec<(Vec<char>, Vec<char>)>)
        requires
            self.wf(),
        ensures
            distinct_names(pairs_view(c@)),
            forall|i: int| 0 <= i < c@.len() ==> in_mask_set(
                resolved_map(self@, scope_view(scope)),
                #[trigger] pairs_view(c@)[i],
            ),
            forall|k: Seq<char>|
                #![trigger resolved_map(self@, scope_view(scope))[k]]
                in_mask_set(
                    resolved_map(self@, scope_view(scope)),
                    (k, resolved_map(self@, scope_view(scope))[k].0),
                ) ==> pairs_view(c@).contains((k, resolved_map(self@, scope_view(scope))[k].0)),
    {
        let r = self.resolved_variables(scope);
        let mut c: Vec<(Vec<char>, Vec<char>)> = Vec::new();
        let mut i: usize = 0;
        while i < r.len()
            invariant
                i <= r@.len(),
                pairs_view(c@) == mask_candidates(r@.take(i as int)),
            decreases r.len() - i,
        {
            let ghost old_c = c@;
            proof {
                assert(r@.take(i + 1).drop_last() =~= r@.take(i as int));
                assert(r@.take(i + 1).last() == r@[i as int]);
            }
            if r[i].1.mode == VariableMode::Hidden {
                let v = string_chars(&r[i].1.value);
                if v.len() > 0 {
                    let k = string_chars(&r[i].0);
                    c.push((k, v));
                    proof {
                        assert(pairs_view(c@) =~= pairs_view(old_c).push((k@, v@)));
                    }
                }
            }
            i += 1;
        }
        proof {
            let m = resolved_map(self@, scope_view(scope));
            assert(r@.take(r@.len() as int) =~= r@);
            lemma_mask_candidates(r@);
            let cv = pairs_view(c@);
            assert forall|a: int| 0 <= a < cv.len() implies in_mask_set(m, #[trigger] cv[a]) by {
                assert(cv.contains(cv[a]));
                let j = choose|j: int|
                    0 <= j < r@.len() && #[trigger] r@[j].0@ == cv[a].0 && r@[j].1.value@ == cv[a].1
                        && r@[j].1.mode == VariableMode::Hidden && r@[j].1.value@.len() > 0;
                lemma_value_at(r@, j);
            }
            assert forall|k: Seq<char>|
                #![trigger m[k]]
                in_mask_set(m, (k, m[k].0)) implies cv.contains((k, m[k].0)) by {
                let j = key_index(r@, k);
                assert(has_key(r@, k));
                lemma_value_at(r@, j);
                assert(r@[j].0@ == k);
            }
        }
        c
    }
}

/// The candidate list seen as (name, value) sequences.
pub open spec fn pairs_view(r: Seq<(Vec<char>, Vec<char>)>) -> Seq<(Seq<char>, Seq<char>)> {
    r.map_values(|p: (Vec<char>, Vec<char>)| (p.0@, p.1@))
}

/// No name occurs twice.
pub open spec fn distinct_names(h: Seq<(Seq<char>, Seq<char>)>) -> bool {
    forall|a: int, b: int| 0 <= a < b < h.len() ==> #[trigger] h[a].0 != #[trigger] h[b].0
}

/// `c` is a visible hidden variable with a non-empty value.
pub open spec fn in_mask_set(m: Map<Seq<char>, VarEntry>, c: (Seq<char>, Seq<char>)) -> bool {
    &&& m.contains_key(c.0)
    &&& m[c.0] == (c.1, VariableMode::Hidden)
    &&& c.1.len() > 0
}

/// [`masked_before`] is transitive.
pub proof fn lemma_masked_before_transitive(
    a: (Seq<char>, Seq<char>),
    b: (Seq<char>, Seq<char>),
    c: (Seq<char>, Seq<char>),
)
    requires
        masked_before(a, b),
        masked_before(b, c),
    ensures
        masked_before(a, c),
{
    if byte_len(a.1) == byte_len(b.1) && byte_len(b.1) == byte_len(c.1) {
        lemma_lex_transitive(a.0, b.0, c.0);
    }
}

/// Entries with different names are ordered one way or the other, never both.
pub proof fn lemma_masked_before_total(a: (Seq<char>, Seq<char>), b: (Seq<char>, Seq<char>))
    requires
        a.0 != b.0,
    ensures
        masked_before(a, b) || masked_before(b, a),
        !(masked_before(a, b) && masked_before(b, a)),
{
    lemma_lex_total(a.0, b.0);
    lemma_lex_asymmetric(a.0, b.0);
}

/// The number of UTF-8 bytes of one character.
fn char_byte_len(c: char) -> (n: u128)
    ensures
        n == vstd::utf8::encode_scalar(c as u32).len(),
        1 <= n <= 4,
{
    proof {
        vstd::utf8::char_is_scalar(c);
    }
    let u = c as u32;
    if u < 0x80 {
        1
    } else if u < 0x800 {
        2
    } else if u < 0x10000 {
        3
    } else {
        4
    }
}

/// The length of a text in UTF-8 bytes.
fn byte_len_exec(s: &Vec<char>) -> (n: u128)
    ensures
        n == byte_len(s@),
{
    let mut acc: u128 = 0;
    let mut i: usize = s.len();
    proof {
        assert(s@.skip(s@.len() as int) =~= Seq::<char>::empty());
    }
    while i > 0
        invariant
            i <= s@.len(),
            s@.len() <= usize::MAX,
            acc == byte_len(s@.skip(i as int)),
            acc <= 4 * (s@.len() - i),
        decreases i,
    {
        let w = char_byte_len(s[i - 1]);
        proof {
            let t = s@.skip(i - 1);
            assert(t.drop_first() =~= s@.skip(i as int));
            assert(t[0] == s@[i - 1]);
        }
        acc = acc + w;
        i -= 1;
    }
    proof {
        assert(s@.skip(0) =~= s@);
    }
    acc
}

fn masked_before_exec(a: &(Vec<char>, Vec<char>), b: &(Vec<char>, Vec<char>)) -> (r: bool)
    ensures
        r == masked_before((a.0@, a.1@), (b.0@, b.1@)),
{
    let la = byte_len_exec(&a.1);
    let lb = byte_len_exec(&b.1);
    la > lb || (la == lb && lex_less(&a.0, &b.0))
}

fn copy_pair(p: &(Vec<char>, Vec<char>)) -> (r: (Vec<char>, Vec<char>))
    ensures
        r.0@ == p.0@,
        r.1@ == p.1@,
{
    (copy_chars(&p.0), copy_chars(&p.1))
}

/// Orders candidates for masking: an insertion sort by [`masked_before`].
fn sort_for_masking(c: &Vec<(Vec<char>, Vec<char>)>) -> (h: Vec<(Vec<char>, Vec<char>)>)
    requires
        distinct_names(pairs_view(c@)),
    ensures
        forall|i: int, j: int|
            0 <= i < j < h@.len() ==> masked_before(
                #[trigger] pairs_view(h@)[i],
                #[trigger] pairs_view(h@)[j],
            ),
        forall|x: (Seq<char>, Seq<char>)|
            pairs_view(h@).contains(x) <==> pairs_view(c@).contains(x),
        forall|i: int| 0 <= i < h@.len() ==> (#[trigger] h@[i]).1@.len() == pairs_view(h@)[i].1.len(),
{
    let mut h: Vec<(Vec<char>, Vec<char>)> = Vec::new();
    let mut i: usize = 0;
    while i < c.len()
        invariant
            i <= c@.len(),
            distinct_names(pairs_view(c@)),
            forall|a: int, b: int|
                0 <= a < b < h@.len() ==> masked_before(
                    #[trigger] pairs_view(h@)[a],
                    #[trigger] pairs_view(h@)[b],
                ),
            forall|x: (Seq<char>, Seq<char>)|
                pairs_view(h@).contains(x) <==> pairs_view(c@).take(i as int).contains(x),
        decreases c.len() - i,
    {
        let x = copy_pair(&c[i]);
        let ghost xv = (x.0@, x.1@);
        let ghost hv = pairs_view(h@);
        let ghost cv = pairs_view(c@);
        proof {
            assert(cv[i as int] == xv);
        }
        let mut p: usize = 0;
        while p < h.len() && masked_before_exec(&h[p], &x)
            invariant
                p <= h@.len(),
                hv == pairs_view(h@),
                xv == (x.0@, x.1@),
                forall|a: int| 0 <= a < p ==> masked_before(#[trigger] hv[a], xv),
            decreases h.len() - p,
        {
            p += 1;
        }
        proof {
            // `x` has a name different from every name already placed
            assert forall|a: int| 0 <= a < hv.len() implies #[trigger] hv[a].0 != xv.0 by {
                assert(hv.contains(hv[a]));
                assert(cv.take(i as int).contains(hv[a]));
                let b = choose|b: int| 0 <= b < i && #[trigger] cv.take(i as int)[b] == hv[a];
                assert(cv[b] == hv[a]);
            }
        }
        h.insert(p, x);
        proof {
            let nh = pairs_view(h@);
            assert(nh =~= hv.insert(p as int, xv));
            assert forall|a: int, b: int| 0 <= a < b < nh.len() implies masked_before(
                #[trigger] nh[a],
                #[trigger] nh[b],
            ) by {
                if b < p {
                    assert(masked_before(hv[a], hv[b]));
                } else if b == p {
                    assert(masked_before(hv[a], xv));
                } else if a == p {
                    lemma_masked_before_total(hv[p as int], xv);
                    if b - 1 > p {
                        assert(masked_before(hv[p as int], hv[b - 1]));
                        lemma_masked_before_transitive(xv, hv[p as int], hv[b - 1]);
                    }
                } else if a < p {
                    lemma_masked_before_total(hv[p as int], xv);
                    assert(masked_before(hv[a], xv));
                    if b - 1 > p {
                        assert(masked_before(hv[p as int], hv[b - 1]));
                        lemma_masked_before_transitive(xv, hv[p as int], hv[b - 1]);
                    }
                    lemma_masked_before_transitive(hv[a], xv, hv[b - 1]);
                } else {
                    assert(masked_before(hv[a - 1], hv[b - 1]));
                }
            }
            assert(cv.take(i + 1) =~= cv.take(i as int).push(xv));
            assert forall|y: (Seq<char>, Seq<char>)| nh.contains(y) <==> cv.take(i + 1).contains(y)
                by {
                if nh.contains(y) {
                    let a = choose|a: int| 0 <= a < nh.len() && #[trigger] nh[a] == y;
                    if a < p {
                        assert(hv.contains(hv[a]));
                    } else if a > p {
                        assert(hv.contains(hv[a - 1]));
                    }
                    if y != xv {
                        assert(cv.take(i as int).contains(y));
                        let b = choose|b: int| 0 <= b < i && #[trigger] cv.take(i as int)[b] == y;
                        assert(cv.take(i + 1)[b] == y);
                    } else {
                        assert(cv.take(i + 1)[i as int] == y);
                    }
                }
                if cv.take(i + 1).contains(y) {
                    let b = choose|b: int| 0 <= b < i + 1 && #[trigger] cv.take(i + 1)[b] == y;
                    if b < i {
                        assert(cv.take(i as int)[b] == y);
                        assert(cv.take(i as int).contains(y));
                        assert(hv.contains(y));
                        let a = choose|a: int| 0 <= a < hv.len() && #[trigger] hv[a] == y;
                        if a < p {
                            assert(nh[a] == y);
                        } else {
                            assert(nh[a + 1] == y);
                        }
                    } else {
                        assert(nh[p as int] == y);
                    }
                }
            }
        }
        i += 1;
    }
    proof {
        assert(pairs_view(c@).take(c@.len() as int) =~= pairs_view(c@));
        assert forall|k: int| 0 <= k < h@.len() implies (#[trigger] h@[k]).1@.len()
            == pairs_view(h@)[k].1.len() by {}
    }
    h
}


/// Copies a table of variables.
fn copy_var_table(t: &Vec<(String, Variable)>) -> (r: Vec<(String, Variable)>)
    ensures
        r@ == t@,
{
    let mut r: Vec<(String, Variable)> = Vec::new();
    let mut i: usize = 0;
    while i < t.len()
        invariant
            i <= t@.len(),
            r@ == t@.take(i as int),
        decreases t.len() - i,
    {
        let k = t[i].0.clone();
        let v = t[i].1.duplicate();
        r.push((k, v));
        proof {
            assert(t@.take(i + 1) =~= t@.take(i as int).push(t@[i as int]));
        }
        i += 1;
    }
    proof {
        assert(t@.take(t@.len() as int) =~= t@);
    }
    r
}

/// Growing a sorted table's prefix by one entry adds that entry to its map.
proof fn lemma_table_map_prefix(t: Seq<(String, Variable)>, j: int)
    requires
        sorted_table(t),
        0 <= j <= t.len(),
    ensures
        sorted_table(t.take(j)),
        j < t.len() ==> var_table_map(t.take(j + 1)) == var_table_map(t.take(j)).insert(
            t[j].0@,
            var_view(t[j].1),
        ),
        j == 0 ==> var_table_map(t.take(j)) == Map::<Seq<char>, VarEntry>::empty(),
{
    let p = t.take(j);
    assert(sorted_table(p));
    if j == 0 {
        assert(var_table_map(p) =~= Map::<Seq<char>, VarEntry>::empty());
    }
    if j < t.len() {
        let q = t.take(j + 1);
        assert(sorted_table(q));
        assert forall|k: Seq<char>| #[trigger] has_key(q, k) == (has_key(p, k) || k == t[j].0@) by {
            if has_key(q, k) {
                let i = key_index(q, k);
                if i < j {
                    assert(p[i].0@ == k);
                }
            }
            if has_key(p, k) {
                let i = key_index(p, k);
                assert(q[i].0@ == k);
            }
            if k == t[j].0@ {
                assert(q[j].0@ == k);
            }
        }
        assert forall|k: Seq<char>| has_key(q, k) implies #[trigger] var_view(value_of(q, k))
            == (if k == t[j].0@ {
            var_view(t[j].1)
        } else {
            var_view(value_of(p, k))
        }) by {
            let i = key_index(q, k);
            lemma_value_at(q, i);
            if i < j {
                lemma_value_at(p, i);
                assert(p[i] == q[i]);
                if k == t[j].0@ {
                    assert(lex_lt(q[i].0@, q[j].0@));
                    lemma_lex_irreflexive(k);
                }
            } else {
                assert(i == j);
                lemma_value_at(q, j);
            }
        }
        assert(var_table_map(q) =~= var_table_map(p).insert(t[j].0@, var_view(t[j].1)));
    }
}

/// The hidden, non-empty entries of a table as (name, value), in table order.
pub open spec fn mask_candidates(t: Seq<(String, Variable)>) -> Seq<(Seq<char>, Seq<char>)>
    decreases t.len(),
{
    if t.len() == 0 {
        seq![]
    } else {
        let prev = mask_candidates(t.drop_last());
        let e = t.last();
        if e.1.mode == VariableMode::Hidden && e.1.value@.len() > 0 {
            prev.push((e.0@, e.1.value@))
        } else {
            prev
        }
    }
}

/// The candidates are the table's hidden non-empty entries, each once.
proof fn lemma_mask_candidates(t: Seq<(String, Variable)>)
    requires
        sorted_table(t),
    ensures
        distinct_names(mask_candidates(t)),
        forall|a: int, b: int|
            0 <= a < b < mask_candidates(t).len() ==> lex_lt(
                #[trigger] mask_candidates(t)[a].0,
                #[trigger] mask_candidates(t)[b].0,
            ),
        forall|x: (Seq<char>, Seq<char>)|
            mask_candidates(t).contains(x) <==> exists|j: int|
                0 <= j < t.len() && #[trigger] t[j].0@ == x.0 && t[j].1.value@ == x.1
                    && t[j].1.mode == VariableMode::Hidden && t[j].1.value@.len() > 0,
    decreases t.len(),
{
    let c = mask_candidates(t);
    if t.len() == 0 {
        assert forall|x: (Seq<char>, Seq<char>)| !c.contains(x) by {}
    } else {
        let u = t.drop_last();
        assert(sorted_table(u));
        lemma_mask_candidates(u);
        let pc = mask_candidates(u);
        let e = t.last();
        assert forall|x: (Seq<char>, Seq<char>)| #[trigger] pc.contains(x) implies lex_lt(
            x.0,
            e.0@,
        ) by {
            let j = choose|j: int|
                0 <= j < u.len() && #[trigger] u[j].0@ == x.0 && u[j].1.value@ == x.1
                    && u[j].1.mode == VariableMode::Hidden && u[j].1.value@.len() > 0;
            assert(t[j] == u[j]);
            assert(lex_lt(t[j].0@, t[t.len() - 1].0@));
        }
        if e.1.mode == VariableMode::Hidden && e.1.value@.len() > 0 {
            assert(c == pc.push((e.0@, e.1.value@)));
            assert forall|a: int, b: int| 0 <= a < b < c.len() implies lex_lt(
                #[trigger] c[a].0,
                #[trigger] c[b].0,
            ) by {
                if b == c.len() - 1 {
                    assert(pc.contains(pc[a]));
                }
            }
        }
        assert forall|a: int, b: int| 0 <= a < b < c.len() implies #[trigger] c[a].0
            != #[trigger] c[b].0 by {
            assert(lex_lt(c[a].0, c[b].0));
            lemma_lex_irreflexive(c[a].0);
        }
        assert forall|x: (Seq<char>, Seq<char>)|
            c.contains(x) <==> exists|j: int|
                0 <= j < t.len() && #[trigger] t[j].0@ == x.0 && t[j].1.value@ == x.1
                    && t[j].1.mode == VariableMode::Hidden && t[j].1.value@.len() > 0 by {
            if c.contains(x) {
                let a = choose|a: int| 0 <= a < c.len() && c[a] == x;
                if a < pc.len() {
                    assert(pc[a] == x);
                    assert(pc.contains(x));
                    let j = choose|j: int|
                        0 <= j < u.len() && #[trigger] u[j].0@ == x.0 && u[j].1.value@ == x.1
                            && u[j].1.mode == VariableMode::Hidden && u[j].1.value@.len() > 0;
                    assert(t[j] == u[j]);
                } else {
                    assert(t[t.len() - 1].0@ == x.0);
                }
            }
            if exists|j: int|
                0 <= j < t.len() && #[trigger] t[j].0@ == x.0 && t[j].1.value@ == x.1
                    && t[j].1.mode == VariableMode::Hidden && t[j].1.value@.len() > 0 {
                let j = choose|j: int|
                    0 <= j < t.len() && #[trigger] t[j].0@ == x.0 && t[j].1.value@ == x.1
                        && t[j].1.mode == VariableMode::Hidden && t[j].1.value@.len() > 0;
                if j < t.len() - 1 {
                    assert(u[j] == t[j]);
                    assert(pc.contains(x));
                    let a = choose|a: int| 0 <= a < pc.len() && pc[a] == x;
                    assert(c[a] == x);
                } else {
                    assert(c[c.len() - 1] == x);
                }
            }
        }
    }
}


/// Views a list of (name, value) references.
pub open spec fn ref_pairs_view(r: Seq<(&String, &String)>) -> Seq<(Seq<char>, Seq<char>)> {
    r.map_values(|p: (&String, &String)| (p.0@, p.1@))
}

/// Views a list of (name, value, mode) triples.
pub open spec fn triples_view(r: Seq<(String, String, VariableMode)>) -> Seq<(Seq<char>, VarEntry)> {
    r.map_values(|p: (String, String, VariableMode)| (p.0@, (p.1@, p.2)))
}

/// `r` lists the names of `m` in strictly increasing order, each with its value.
pub open spec fn lists_values(r: Seq<(Seq<char>, Seq<char>)>, m: Map<Seq<char>, VarEntry>) -> bool {
    &&& forall|i: int, j: int| 0 <= i < j < r.len() ==> lex_lt(#[trigger] r[i].0, #[trigger] r[j].0)
    &&& forall|i: int| 0 <= i < r.len() ==> m.contains_key(#[trigger] r[i].0) && m[r[i].0].0 == r[i].1
    &&& forall|k: Seq<char>| m.contains_key(k) ==> exists|i: int| 0 <= i < r.len() && #[trigger] r[i].0 == k
}

/// `r` lists the names of `m` in strictly increasing order, each with its entry.
pub open spec fn lists_entries(r: Seq<(Seq<char>, VarEntry)>, m: Map<Seq<char>, VarEntry>) -> bool {
    &&& forall|i: int, j: int| 0 <= i < j < r.len() ==> lex_lt(#[trigger] r[i].0, #[trigger] r[j].0)
    &&& forall|i: int| 0 <= i < r.len() ==> m.contains_key(#[trigger] r[i].0) && m[r[i].0] == r[i].1
    &&& forall|k: Seq<char>| m.contains_key(k) ==> exists|i: int| 0 <= i < r.len() && #[trigger] r[i].0 == k
}

fn table_value_refs(t: &Vec<(String, Variable)>) -> (r: Vec<(&String, &String)>)
    requires
        sorted_table(t@),
    ensures
        lists_values(ref_pairs_view(r@), var_table_map(t@)),
{
    let mut r: Vec<(&String, &String)> = Vec::new();
    let mut i: usize = 0;
    while i < t.len()
        invariant
            sorted_table(t@),
            i <= t@.len(),
            r@.len() == i,
            forall|j: int| 0 <= j < i ==> (#[trigger] r@[j]).0@ == t@[j].0@ && r@[j].1@ == t@[j].1.value@,
        decreases t.len() - i,
    {
        r.push((&t[i].0, &t[i].1.value));
        i += 1;
    }
    proof {
        let rv = ref_pairs_view(r@);
        assert forall|a: int| 0 <= a < rv.len() implies var_table_map(t@).contains_key(#[trigger] rv[a].0)
            && var_table_map(t@)[rv[a].0].0 == rv[a].1 by {
            lemma_value_at(t@, a);
        }
        assert forall|k: Seq<char>| var_table_map(t@).contains_key(k) implies exists|a: int| 0 <= a < rv.len() && #[trigger] rv[a].0 == k by {
            let a = key_index(t@, k);
            assert(rv[a].0 == k);
        }
    }
    r
}

fn table_triples(t: &Vec<(String, Variable)>) -> (r: Vec<(String, String, VariableMode)>)
    requires
        sorted_table(t@),
    ensures
        lists_entries(triples_view(r@), var_table_map(t@)),
{
    let mut r: Vec<(String, String, VariableMode)> = Vec::new();
    let mut i: usize = 0;
    while i < t.len()
        invariant
            sorted_table(t@),
            i <= t@.len(),
            r@.len() == i,
            forall|j: int| 0 <= j < i ==> (#[trigger] r@[j]).0@ == t@[j].0@ && r@[j].1@ == t@[j].1.value@ && r@[j].2 == t@[j].1.mode,
        decreases t.len() - i,
    {
        r.push((t[i].0.clone(), t[i].1.value.clone(), t[i].1.mode));
        i += 1;
    }
    proof {
        let rv = triples_view(r@);
        assert forall|a: int| 0 <= a < rv.len() implies var_table_map(t@).contains_key(#[trigger] rv[a].0)
            && var_table_map(t@)[rv[a].0] == rv[a].1 by {
            lemma_value_at(t@, a);
        }
        assert forall|k: Seq<char>| var_table_map(t@).contains_key(k) implies exists|a: int| 0 <= a < rv.len() && #[trigger] rv[a].0 == k by {
            let a = key_index(t@, k);
            assert(rv[a].0 == k);
        }
    }
    r
}

impl Default for Variables {
    fn default() -> (r: Self)
        ensures
            r.wf(),
            r@.global == Map::<Seq<char>, VarEntry>::empty(),
            r@.scoped == Map::<Seq<char>, Map<Seq<char>, VarEntry>>::empty(),
    {
        Variables::new()
    }
}


// ---------------------------------------------------------------------------
// Laws
// ---------------------------------------------------------------------------

/// A text without `{{` is left unchanged by substitution.
pub proof fn law_text_without_placeholders_is_unchanged(
    v: VariablesView,
    t: Seq<char>,
    scope: Option<Seq<char>>,
    preview: bool,
)
    requires
        find_from(t, open_braces(), 0) is None,
    ensures
        substitute_spec(v, t, scope, preview) == t,
{
}

/// When no name resolves, every placeholder is kept as written: substitution
/// returns the text unchanged.
pub proof fn law_unknown_placeholders_are_kept(
    v: VariablesView,
    t: Seq<char>,
    scope: Option<Seq<char>>,
    preview: bool,
)
    requires
        forall|k: Seq<char>| #[trigger] resolve(v, k, scope) is None,
    ensures
        substitute_spec(v, t, scope, preview) == t,
    decreases t.len(),
{
    lemma_find_from(t, open_braces(), 0);
    match find_from(t, open_braces(), 0) {
        None => {},
        Some(s) => {
            let after = t.skip(s + 2);
            lemma_find_from(after, close_braces(), 0);
            match find_from(after, close_braces(), 0) {
                None => {},
                Some(e) => {
                    let token = after.take(e);
                    assert(resolve(v, trim(token), scope) is None);
                    law_unknown_placeholders_are_kept(v, after.skip(e + 2), scope, preview);
                    assert(t.subrange(s, s + 2) == open_braces());
                    assert(after.subrange(e, e + 2) == close_braces());
                    assert(t =~= t.take(s) + (open_braces() + token + close_braces()) + after.skip(
                        e + 2,
                    ));
                },
            }
        },
    }
}

/// When no visible variable is hidden, a preview shows exactly what is sent.
pub proof fn law_preview_matches_execution_without_hidden(
    v: VariablesView,
    t: Seq<char>,
    scope: Option<Seq<char>>,
)
    requires
        forall|k: Seq<char>| #[trigger] resolve(v, k, scope) matches Some(e) ==> e.1
            == VariableMode::Placeholder,
    ensures
        substitute_spec(v, t, scope, true) == substitute_spec(v, t, scope, false),
    decreases t.len(),
{
    lemma_find_from(t, open_braces(), 0);
    match find_from(t, open_braces(), 0) {
        None => {},
        Some(s) => {
            let after = t.skip(s + 2);
            lemma_find_from(after, close_braces(), 0);
            match find_from(after, close_braces(), 0) {
                None => {},
                Some(e) => {
                    let token = after.take(e);
                    let r = resolve(v, trim(token), scope);
                    law_preview_matches_execution_without_hidden(v, after.skip(e + 2), scope);
                },
            }
        },
    }
}

/// A template that is one placeholder `{{NAME}}` becomes the value `NAME`
/// resolves to: the scope's own value first, then the global one. (A name
/// holding `}` could close the placeholder early, so such names are left out.)
pub proof fn law_single_placeholder_resolves(
    v: VariablesView,
    name: Seq<char>,
    scope: Option<Seq<char>>,
    entry: VarEntry,
    preview: bool,
)
    requires
        trim(name) == name,
        forall|i: int| 0 <= i < name.len() ==> #[trigger] name[i] != '}',
        resolve(v, name, scope) == Some(entry),
    ensures
        substitute_spec(v, open_braces() + name + close_braces(), scope, preview) == replacement(
            entry,
            preview,
        ),
{
    let t = open_braces() + name + close_braces();
    assert(t.subrange(0, 2) =~= open_braces());
    lemma_find_from_unique(t, open_braces(), 0, 0);
    let after = t.skip(2);
    assert(after =~= name + close_braces());
    assert forall|j: int| 0 <= j < name.len() implies !#[trigger] matches_at(after, close_braces(), j)
        by {
        assert(after[j] == name[j]);
        if matches_at(after, close_braces(), j) {
            assert(after.subrange(j, j + 2)[0] == after[j]);
        }
    }
    assert(after.subrange(name.len() as int, name.len() as int + 2) =~= close_braces());
    lemma_find_from_unique(after, close_braces(), 0, name.len() as int);
    assert(after.take(name.len() as int) =~= name);
    assert(after.skip(name.len() as int + 2) =~= Seq::<char>::empty());
    lemma_substitute_empty(v, scope, preview);
    assert(t.take(0) =~= Seq::<char>::empty());
    assert(Seq::<char>::empty() + replacement(entry, preview) + Seq::<char>::empty() =~= replacement(
        entry,
        preview,
    ));
}

/// After storing a variable for a scope, its name resolves in that scope to
/// the stored value, whatever the global variables hold.
pub proof fn law_scoped_value_overrides_global(
    before: VariablesView,
    after: VariablesView,
    scope: Seq<char>,
    key: Seq<char>,
    entry: VarEntry,
)
    requires
        after.scoped == before.scoped.insert(
            scope,
            Variables::scope_map(before, scope).insert(key, entry),
        ),
    ensures
        resolve(after, key, Some(scope)) == Some(entry),
{
}

/// After a scope is removed, it holds no variables.
pub proof fn law_deleted_scope_is_empty(before: VariablesView, after: VariablesView, scope: Seq<char>)
    requires
        after.scoped == before.scoped.remove(scope),
    ensures
        Variables::scope_map(after, scope) == Map::<Seq<char>, VarEntry>::empty(),
        !after.scoped.contains_key(scope),
{
}

/// The scoped store after removing `key` from `scope`, as
/// [`Variables::scoped_delete`] leaves it: a scope left empty goes away.
pub open spec fn scoped_after_delete(
    scoped: Map<Seq<char>, Map<Seq<char>, VarEntry>>,
    scope: Seq<char>,
    key: Seq<char>,
) -> Map<Seq<char>, Map<Seq<char>, VarEntry>> {
    if scoped.contains_key(scope) {
        if scoped[scope].remove(key) == Map::<Seq<char>, VarEntry>::empty() {
            scoped.remove(scope)
        } else {
            scoped.insert(scope, scoped[scope].remove(key))
        }
    } else {
        scoped
    }
}

/// Deleting a scoped variable removes that variable alone: the scope no
/// longer holds the key, its other keys, every other scope and the globals
/// are unchanged, a scope left empty is gone, and nothing changes when the
/// scope does not exist.
pub proof fn law_scoped_delete_removes_only_that_key(
    before: VariablesView,
    after: VariablesView,
    scope: Seq<char>,
    key: Seq<char>,
)
    requires
        after.global == before.global,
        after.scoped == scoped_after_delete(before.scoped, scope, key),
    ensures
        !Variables::scope_map(after, scope).contains_key(key),
        Variables::scope_map(after, scope) == Variables::scope_map(before, scope).remove(key),
        forall|s: Seq<char>| s != scope ==> #[trigger] Variables::scope_map(after, s) == Variables::scope_map(before, s),
        Variables::scope_map(before, scope).remove(key) == Map::<Seq<char>, VarEntry>::empty()
            ==> !after.scoped.contains_key(scope),
        !before.scoped.contains_key(scope) ==> after == before,
{
    if before.scoped.contains_key(scope) {
        if before.scoped[scope].remove(key) != Map::<Seq<char>, VarEntry>::empty() {
            assert(after.scoped.contains_key(scope));
        }
    } else {
        assert(Map::<Seq<char>, VarEntry>::empty().remove(key) =~= Map::<Seq<char>, VarEntry>::empty());
    }
}

/// When no variable visible in the scope is hidden with a non-empty
/// value, redaction masks nothing and leaves every text unchanged: hidden
/// variables with empty values are skipped.
pub proof fn law_redaction_without_hidden_is_identity(
    v: VariablesView,
    scope: Option<Seq<char>>,
    h: Seq<(Seq<char>, Seq<char>)>,
    text: Seq<char>,
)
    requires
        is_mask_order(v, scope, h),
        forall|k: Seq<char>|
            #[trigger] resolved_map(v, scope).contains_key(k) && resolved_map(v, scope)[k].1
                == VariableMode::Hidden ==> resolved_map(v, scope)[k].0.len() == 0,
    ensures
        h.len() == 0,
        apply_masks(text, h) == text,
{
    if h.len() > 0 {
        assert(resolved_map(v, scope).contains_key(h[0].0));
    }
}

/// A scoped lookup sees the scope's own variables alone: where the scope
/// does not hold a key, the lookup finds nothing even though substitution
/// in that scope falls back to the global variable of that name.
pub proof fn law_scoped_lookup_has_no_global_fallback(v: VariablesView, scope: Seq<char>, key: Seq<char>)
    requires
        !Variables::scope_map(v, scope).contains_key(key),
        v.global.contains_key(key),
    ensures
        resolve(v, key, Some(scope)) == Some(v.global[key]),
{
}

} // verus!
