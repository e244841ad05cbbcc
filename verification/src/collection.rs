//! Saved API routes: HTTP methods, route records, group names and the
//! in-memory route collection with its editing operations.

use vstd::prelude::*;
use rand::Rng;
use crate::text::{
    decimal, hex_char, is_blank, lemma_lex_asymmetric, lemma_lex_irreflexive, lemma_lex_total,
    lemma_lex_transitive, lex_less, lex_lt, push_decimal, push_str, str_is_blank, string_chars,
    string_from_chars, to_chars, to_uppercase_string, trim, trim_string, unicode_uppercase, ascii_uppercase, is_ascii_text,
};

verus! {

// ---------------------------------------------------------------------------
// Group names
// ---------------------------------------------------------------------------

/// The group a route belongs to when its group name is blank.
pub open spec fn default_group_text() -> Seq<char> {
    seq!['g', 'e', 'n', 'e', 'r', 'a', 'l']
}

/// The stored form of a group name: trimmed, or the default group when blank.
pub open spec fn normalized_group(group: Seq<char>) -> Seq<char> {
    if trim(group).len() == 0 {
        default_group_text()
    } else {
        trim(group)
    }
}

/// The default route group, `general`.
pub fn default_route_group() -> (r: String)
    ensures
        r@ == default_group_text(),
{
    let s = String::from_str("general");
    proof {
        reveal_strlit("general");
    }
    s
}

/// Normalizes a group name for storage: surrounding whitespace is removed
/// and a blank name becomes the default group.
pub fn normalize_group_name(group: &str) -> (r: String)
    ensures
        r@ == normalized_group(group@),
{
    let trimmed = trim_string(group);
    if trimmed.as_str().unicode_len() == 0 {
        default_route_group()
    } else {
        trimmed
    }
}

// ---------------------------------------------------------------------------
// HTTP methods
// ---------------------------------------------------------------------------

/// HTTP methods a saved route can use.
#[derive(Debug, Clone, Copy, PartialEq, Eq, Structural)]
pub enum HttpMethod {
    /// `GET`
    Get,
    /// `POST`
    Post,
    /// `PUT`
    Put,
    /// `PATCH`
    Patch,
    /// `DELETE`
    Delete,
}

/// The uppercase label of a method.
pub open spec fn method_label(m: HttpMethod) -> Seq<char> {
    match m {
        HttpMethod::Get => seq!['G', 'E', 'T'],
        HttpMethod::Post => seq!['P', 'O', 'S', 'T'],
        HttpMethod::Put => seq!['P', 'U', 'T'],
        HttpMethod::Patch => seq!['P', 'A', 'T', 'C', 'H'],
        HttpMethod::Delete => seq!['D', 'E', 'L', 'E', 'T', 'E'],
    }
}

/// The method whose label is exactly `s`, if any.
pub open spec fn method_with_label(s: Seq<char>) -> Option<HttpMethod> {
    if s == method_label(HttpMethod::Get) {
        Some(HttpMethod::Get)
    } else if s == method_label(HttpMethod::Post) {
        Some(HttpMethod::Post)
    } else if s == method_label(HttpMethod::Put) {
        Some(HttpMethod::Put)
    } else if s == method_label(HttpMethod::Patch) {
        Some(HttpMethod::Patch)
    } else if s == method_label(HttpMethod::Delete) {
        Some(HttpMethod::Delete)
    } else {
        None
    }
}

/// The message of a refused method label.
pub open spec fn invalid_method_message(s: Seq<char>) -> Seq<char> {
    seq!['I', 'n', 'v', 'a', 'l', 'i', 'd', ' ', 'H', 'T', 'T', 'P', ' ', 'm', 'e', 't', 'h', 'o', 'd', ':', ' ']
        + s
}

fn label_chars_equal(a: &Vec<char>, b: &str) -> (r: bool)
    ensures
        r == (a@ == b@),
{
    let bv = to_chars(b);
    crate::text::chars_equal(a, &bv)
}

impl HttpMethod {
    /// The uppercase label of the method (`GET`, `POST`, ...).
    pub fn label(&self) -> (r: String)
        ensures
            r@ == method_label(*self),
    {
        let s = match self {
            HttpMethod::Get => {
                proof {
                    reveal_strlit("GET");
                }
                String::from_str("GET")
            },
            HttpMethod::Post => {
                proof {
                    reveal_strlit("POST");
                }
                String::from_str("POST")
            },
            HttpMethod::Put => {
                proof {
                    reveal_strlit("PUT");
                }
                String::from_str("PUT")
            },
            HttpMethod::Patch => {
                proof {
                    reveal_strlit("PATCH");
                }
                String::from_str("PATCH")
            },
            HttpMethod::Delete => {
                proof {
                    reveal_strlit("DELETE");
                }
                String::from_str("DELETE")
            },
        };
        proof {
            assert(s@ =~= method_label(*self));
        }
        s
    }

    /// The method named by an uppercased label, or the refusal message.
    pub fn from_uppercase(upper: &str, original: &str) -> (r: Result<HttpMethod, String>)
        ensures
            match method_with_label(upper@) {
                Some(m) => r == Ok::<HttpMethod, String>(m),
                None => r.is_err() && r->Err_0@ == invalid_method_message(original@),
            },
    {
        let u = to_chars(upper);
        proof {
            reveal_strlit("GET");
            reveal_strlit("POST");
            reveal_strlit("PUT");
            reveal_strlit("PATCH");
            reveal_strlit("DELETE");
            assert("GET"@ =~= method_label(HttpMethod::Get));
            assert("POST"@ =~= method_label(HttpMethod::Post));
            assert("PUT"@ =~= method_label(HttpMethod::Put));
            assert("PATCH"@ =~= method_label(HttpMethod::Patch));
            assert("DELETE"@ =~= method_label(HttpMethod::Delete));
        }
        if label_chars_equal(&u, "GET") {
            Ok(HttpMethod::Get)
        } else if label_chars_equal(&u, "POST") {
            Ok(HttpMethod::Post)
        } else if label_chars_equal(&u, "PUT") {
            Ok(HttpMethod::Put)
        } else if label_chars_equal(&u, "PATCH") {
            Ok(HttpMethod::Patch)
        } else if label_chars_equal(&u, "DELETE") {
            Ok(HttpMethod::Delete)
        } else {
            let mut msg: Vec<char> = Vec::new();
            push_str(&mut msg, "Invalid HTTP method: ");
            push_str(&mut msg, original);
            proof {
                reveal_strlit("Invalid HTTP method: ");
                assert(msg@ =~= invalid_method_message(original@));
            }
            Err(string_from_chars(msg.as_slice()))
        }
    }

    /// Parses a method label in any letter case.
    pub fn parse(s: &str) -> (r: Result<HttpMethod, String>)
        ensures
            match method_with_label(unicode_uppercase(s@)) {
                Some(m) => r == Ok::<HttpMethod, String>(m),
                None => r.is_err() && r->Err_0@ == invalid_method_message(s@),
            },
            is_ascii_text(s@) ==> match method_with_label(ascii_uppercase(s@)) {
                Some(m) => r == Ok::<HttpMethod, String>(m),
                None => r.is_err() && r->Err_0@ == invalid_method_message(s@),
            },
    {
        let upper = to_uppercase_string(s);
        HttpMethod::from_uppercase(upper.as_str(), s)
    }
}

impl core::str::FromStr for HttpMethod {
    type Err = String;

    fn from_str(s: &str) -> (r: Result<HttpMethod, String>)
        ensures
            match method_with_label(unicode_uppercase(s@)) {
                Some(m) => r == Ok::<HttpMethod, String>(m),
                None => r.is_err() && r->Err_0@ == invalid_method_message(s@),
            },
            is_ascii_text(s@) ==> match method_with_label(ascii_uppercase(s@)) {
                Some(m) => r == Ok::<HttpMethod, String>(m),
                None => r.is_err() && r->Err_0@ == invalid_method_message(s@),
            },
    {
        HttpMethod::parse(s)
    }
}

// ---------------------------------------------------------------------------
// Routes
// ---------------------------------------------------------------------------

/// A saved request.
#[derive(Debug, Clone)]
pub struct Route {
    /// Group the route is listed under.
    pub group: String,
    /// Identifier of the route's variable scope.
    pub scope_id: String,
    /// Display name.
    pub name: String,
    /// Request method.
    pub method: HttpMethod,
    /// URL template.
    pub url: String,
    /// Header templates, one `Name: value` line each.
    pub headers: Vec<String>,
    /// Optional body template.
    pub body: Option<String>,
}

/// The abstract content of a route.
pub struct RouteView {
    pub group: Seq<char>,
    pub scope_id: Seq<char>,
    pub name: Seq<char>,
    pub method: HttpMethod,
    pub url: Seq<char>,
    pub headers: Seq<Seq<char>>,
    pub body: Option<Seq<char>>,
}

/// The characters of each string of a list.
pub open spec fn strings_view(v: Seq<String>) -> Seq<Seq<char>> {
    v.map_values(|s: String| s@)
}

/// The characters of an optional string.
pub open spec fn opt_string_view(o: Option<String>) -> Option<Seq<char>> {
    match o {
        Some(s) => Some(s@),
        None => None,
    }
}

impl View for Route {
    type V = RouteView;

    open spec fn view(&self) -> RouteView {
        RouteView {
            group: self.group@,
            scope_id: self.scope_id@,
            name: self.name@,
            method: self.method,
            url: self.url@,
            headers: strings_view(self.headers@),
            body: opt_string_view(self.body),
        }
    }
}

/// A copy of a list of strings.
pub fn copy_strings(v: &Vec<String>) -> (r: Vec<String>)
    ensures
        r@ == v@,
{
    let mut r: Vec<String> = Vec::new();
    let mut i: usize = 0;
    while i < v.len()
        invariant
            i <= v.len(),
            r@ == v@.take(i as int),
        decreases v.len() - i,
    {
        r.push(v[i].clone());
        proof {
            assert(v@.take(i + 1) =~= v@.take(i as int).push(v@[i as int]));
        }
        i += 1;
    }
    proof {
        assert(v@.take(v.len() as int) =~= v@);
    }
    r
}

/// A copy of an optional string.
pub fn copy_opt_string(o: &Option<String>) -> (r: Option<String>)
    ensures
        r == *o,
{
    match o {
        Some(s) => Some(s.clone()),
        None => None,
    }
}

impl Route {
    /// A field-by-field copy of the route.
    pub fn duplicate(&self) -> (r: Route)
        ensures
            r@ == self@,
    {
        Route {
            group: self.group.clone(),
            scope_id: self.scope_id.clone(),
            name: self.name.clone(),
            method: self.method,
            url: self.url.clone(),
            headers: copy_strings(&self.headers),
            body: copy_opt_string(&self.body),
        }
    }
}

// ---------------------------------------------------------------------------
// Scope identifiers
// ---------------------------------------------------------------------------

/// The prefix of every generated scope id.
pub open spec fn scope_prefix() -> Seq<char> {
    seq!['r', 'o', 'u', 't', 'e', '_']
}

/// A lowercase hexadecimal digit.
pub open spec fn is_hex_digit(c: char) -> bool {
    ('0' <= c && c <= '9') || ('a' <= c && c <= 'f')
}

/// The generated form `route_` followed by exactly eight hex digits.
pub open spec fn is_generated_scope_id(s: Seq<char>) -> bool {
    &&& s.len() == 14
    &&& s.take(6) == scope_prefix()
    &&& forall|i: int| 6 <= i < s.len() ==> is_hex_digit(#[trigger] s[i])
}

/// The scope id built from a random number: `route_` and eight hex digits.
pub open spec fn scope_id_for(n: u32) -> Seq<char> {
    scope_prefix() + crate::text::hex_fixed(n as nat, 8)
}

/// Whether some route of `routes` has the scope id `id`.
pub open spec fn scope_id_used(routes: Seq<Route>, id: Seq<char>) -> bool {
    exists|i: int| 0 <= i < routes.len() && (#[trigger] routes[i]).scope_id@ == id
}

/// Every id `route_<8 hex digits>` is taken by some route.
pub open spec fn every_scope_id_used(routes: Seq<Route>) -> bool {
    forall|n: u32| #[trigger] scope_id_used(routes, scope_id_for(n))
}

/// A scope id fit for a new route of `routes`: generated, and used by no
/// route unless every generated id already is.
pub open spec fn fresh_scope_id(routes: Seq<Route>, id: Seq<char>) -> bool {
    &&& is_generated_scope_id(id)
    &&& !scope_id_used(routes, id) || every_scope_id_used(routes)
}

/// A random 32-bit number from the thread-local generator
/// (`rand::rng().random::<u32>()`). Nothing is stated of its value.
#[verifier::external_body]
fn random_u32() -> (n: u32) {
    rand::rng().random::<u32>()
}

proof fn lemma_hex_fixed_digits(n: nat, width: nat)
    ensures
        crate::text::hex_fixed(n, width).len() == width,
        forall|i: int| 0 <= i < width ==> is_hex_digit(#[trigger] crate::text::hex_fixed(n, width)[i]),
    decreases width,
{
    if width > 0 {
        lemma_hex_fixed_digits(n / 16, (width - 1) as nat);
        let d = (n % 16) as int;
        assert(is_hex_digit(hex_char(d)));
        let h = crate::text::hex_fixed(n, width);
        assert forall|i: int| 0 <= i < width implies is_hex_digit(#[trigger] h[i]) by {
            if i < width - 1 {
                assert(h[i] == crate::text::hex_fixed(n / 16, (width - 1) as nat)[i]);
            }
        }
    }
}

// ---------------------------------------------------------------------------
// The collection
// ---------------------------------------------------------------------------

/// The message of an out-of-range route index.
pub open spec fn index_error_message(index: nat) -> Seq<char> {
    seq![
        'r', 'o', 'u', 't', 'e', ' ', 'i', 'n', 'd', 'e', 'x', ' ', 'o', 'u', 't', ' ', 'o', 'f',
        ' ', 'b', 'o', 'u', 'n', 'd', 's', ':', ' ',
    ] + decimal(index)
}

fn index_error(index: usize) -> (r: String)
    ensures
        r@ == index_error_message(index as nat),
{
    let mut v: Vec<char> = Vec::new();
    push_str(&mut v, "route index out of bounds: ");
    push_decimal(&mut v, index as u64);
    proof {
        reveal_strlit("route index out of bounds: ");
        assert(v@ =~= index_error_message(index as nat));
    }
    string_from_chars(v.as_slice())
}

/// A route as stored: its group normalized and, where its scope id was
/// blank, `fresh` in its place.
pub open spec fn stored_route(route: RouteView, fresh: Seq<char>) -> RouteView {
    RouteView {
        group: normalized_group(route.group),
        scope_id: if trim(route.scope_id).len() == 0 {
            fresh
        } else {
            route.scope_id
        },
        ..route
    }
}

/// The routes of the API tester, in display order.
#[derive(Debug, Clone)]
pub struct Collection {
    /// Every saved route.
    pub routes: Vec<Route>,
}

/// The abstract content of a list of routes.
pub open spec fn routes_view(routes: Seq<Route>) -> Seq<RouteView> {
    routes.map_values(|r: Route| r@)
}

/// `names` is strictly increasing.
pub open spec fn strictly_sorted(names: Seq<Seq<char>>) -> bool {
    forall|i: int, j: int| 0 <= i < j < names.len() ==> lex_lt(#[trigger] names[i], #[trigger] names[j])
}

/// The group names used by `routes`.
pub open spec fn group_set(routes: Seq<Route>) -> Set<Seq<char>> {
    Set::new(|g: Seq<char>| exists|i: int| 0 <= i < routes.len() && (#[trigger] routes[i]).group@ == g)
}

/// Inserts `s` into the strictly increasing list `names` unless present.
pub fn insert_sorted_unique(names: &mut Vec<String>, s: String)
    requires
        strictly_sorted(strings_view(old(names)@)),
    ensures
        strictly_sorted(strings_view(final(names)@)),
        strings_view(final(names)@).to_set() == strings_view(old(names)@).to_set().insert(s@),
{
    let ghost old_v = strings_view(names@);
    let sc = string_chars(&s);
    let mut i: usize = 0;
    while i < names.len()
        invariant
            i <= names.len(),
            names@ == old(names)@,
            old_v == strings_view(names@),
            sc@ == s@,
            strictly_sorted(old_v),
            forall|k: int| 0 <= k < i ==> lex_lt(#[trigger] old_v[k], s@),
        decreases names.len() - i,
    {
        let ni = string_chars(&names[i]);
        proof {
            assert(old_v[i as int] == names@[i as int]@);
        }
        if !lex_less(&ni, &sc) {
            proof {
                lemma_lex_total(ni@, sc@);
            }
            if crate::text::chars_equal(&ni, &sc) {
                proof {
                    assert(old_v.to_set().insert(s@) =~= old_v.to_set()) by {
                        assert(old_v.contains(s@));
                    }
                }
                return;
            }
            names.insert(i, s);
            proof {
                let nv = strings_view(names@);
                assert(nv =~= old_v.insert(i as int, s@));
                assert forall|a: int, b: int| 0 <= a < b < nv.len() implies lex_lt(
                    #[trigger] nv[a],
                    #[trigger] nv[b],
                ) by {
                    if b < i {
                    } else if b == i {
                    } else if a < i {
                        assert(nv[b] == old_v[b - 1]);
                        if b - 1 > i {
                            assert(lex_lt(old_v[i as int], old_v[b - 1]));
                            lemma_lex_transitive(s@, old_v[i as int], old_v[b - 1]);
                        }
                        lemma_lex_transitive(nv[a], s@, nv[b]);
                    } else if a == i {
                        assert(nv[b] == old_v[b - 1]);
                        if b - 1 > i {
                            assert(lex_lt(old_v[i as int], old_v[b - 1]));
                            lemma_lex_transitive(s@, old_v[i as int], old_v[b - 1]);
                        }
                    } else {
                        assert(nv[a] == old_v[a - 1]);
                        assert(nv[b] == old_v[b - 1]);
                    }
                }
                assert(nv.to_set() =~= old_v.to_set().insert(s@)) by {
                    assert forall|x: Seq<char>| nv.to_set().contains(x) implies old_v.to_set().insert(
                        s@,
                    ).contains(x) by {
                        let k = choose|k: int| 0 <= k < nv.len() && nv[k] == x;
                        if k < i {
                            assert(old_v[k] == x);
                        } else if k > i {
                            assert(old_v[k - 1] == x);
                        }
                    }
                    assert forall|x: Seq<char>| old_v.to_set().insert(s@).contains(x) implies nv.to_set().contains(
                        x,
                    ) by {
                        if x == s@ {
                            assert(nv[i as int] == x);
                        } else {
                            let k = choose|k: int| 0 <= k < old_v.len() && old_v[k] == x;
                            if k < i {
                                assert(nv[k] == x);
                            } else {
                                assert(nv[k + 1] == x);
                            }
                        }
                    }
                }
            }
            return;
        }
        i += 1;
    }
    names.push(s);
    proof {
        let nv = strings_view(names@);
        assert(nv =~= old_v.push(s@));
        assert(nv.to_set() =~= old_v.to_set().insert(s@)) by {
            assert forall|x: Seq<char>| nv.to_set().contains(x) implies old_v.to_set().insert(s@).contains(x) by {
                let k = choose|k: int| 0 <= k < nv.len() && nv[k] == x;
                if k < old_v.len() {
                    assert(old_v[k] == x);
                }
            }
            assert forall|x: Seq<char>| old_v.to_set().insert(s@).contains(x) implies nv.to_set().contains(x) by {
                if x == s@ {
                    assert(nv[old_v.len() as int] == x);
                } else {
                    let k = choose|k: int| 0 <= k < old_v.len() && old_v[k] == x;
                    assert(nv[k] == x);
                }
            }
        }
    }
}

impl Collection {
    /// An empty collection.
    pub fn new() -> (c: Collection)
        ensures
            c.routes@.len() == 0,
    {
        Collection { routes: Vec::new() }
    }

    /// The distinct group names of the routes, in increasing order.
    pub fn group_names(&self) -> (r: Vec<String>)
        ensures
            strictly_sorted(strings_view(r@)),
            strings_view(r@).to_set() == group_set(self.routes@),
    {
        let mut names: Vec<String> = Vec::new();
        let mut i: usize = 0;
        while i < self.routes.len()
            invariant
                i <= self.routes.len(),
                strictly_sorted(strings_view(names@)),
                strings_view(names@).to_set() == group_set(self.routes@.take(i as int)),
            decreases self.routes.len() - i,
        {
            insert_sorted_unique(&mut names, self.routes[i].group.clone());
            proof {
                let a = group_set(self.routes@.take(i as int));
                let b = group_set(self.routes@.take(i + 1));
                assert(b =~= a.insert(self.routes@[i as int].group@)) by {
                    assert forall|g: Seq<char>| b.contains(g) implies a.insert(
                        self.routes@[i as int].group@,
                    ).contains(g) by {
                        let k = choose|k: int|
                            0 <= k < i + 1 && (#[trigger] self.routes@.take(i + 1)[k]).group@ == g;
                        if k < i {
                            assert(self.routes@.take(i as int)[k] == self.routes@.take(i + 1)[k]);
                        }
                    }
                    assert forall|g: Seq<char>| a.insert(self.routes@[i as int].group@).contains(
                        g,
                    ) implies b.contains(g) by {
                        if g == self.routes@[i as int].group@ {
                            assert(self.routes@.take(i + 1)[i as int] == self.routes@[i as int]);
                        } else {
                            let k = choose|k: int|
                                0 <= k < i && (#[trigger] self.routes@.take(i as int)[k]).group@ == g;
                            assert(self.routes@.take(i as int)[k] == self.routes@.take(i + 1)[k]);
                        }
                    }
                }
            }
            i += 1;
        }
        proof {
            assert(self.routes@.take(self.routes.len() as int) =~= self.routes@);
        }
        names
    }

    /// Whether some route already uses the scope id.
    pub fn has_scope_id(&self, id: &Vec<char>) -> (b: bool)
        ensures
            b == scope_id_used(self.routes@, id@),
    {
        let mut i: usize = 0;
        while i < self.routes.len()
            invariant
                i <= self.routes.len(),
                forall|k: int| 0 <= k < i ==> (#[trigger] self.routes@[k]).scope_id@ != id@,
            decreases self.routes.len() - i,
        {
            let sid = string_chars(&self.routes[i].scope_id);
            if crate::text::chars_equal(&sid, id) {
                return true;
            }
            i += 1;
        }
        false
    }

    /// The candidate id `route_` followed by the eight hex digits of `n`.
    pub fn scope_id_candidate(n: u32) -> (r: Vec<char>)
        ensures
            r@ == scope_id_for(n),
            is_generated_scope_id(r@),
    {
        let mut v: Vec<char> = Vec::new();
        push_str(&mut v, "route_");
        crate::text::push_hex_fixed(&mut v, n as u64, 8);
        proof {
            reveal_strlit("route_");
            assert(v@ =~= scope_id_for(n));
            lemma_hex_fixed_digits(n as nat, 8);
            assert(v@.take(6) =~= scope_prefix());
            assert forall|i: int| 6 <= i < v@.len() implies is_hex_digit(#[trigger] v@[i]) by {
                assert(v@[i] == crate::text::hex_fixed(n as nat, 8)[i - 6]);
            }
        }
        v
    }

    /// A scope id that no route uses. Random candidates `route_<8 hex
    /// digits>` are drawn; should a long run of draws all collide, the
    /// candidates are tried in order from `route_00000000`. Only when every
    /// such id is taken is a used one returned.
    pub fn new_scope_id(&self) -> (r: String)
        ensures
            fresh_scope_id(self.routes@, r@),
    {
        let mut attempts: u32 = 0;
        while attempts < 64
            invariant
                attempts <= 64,
            decreases 64 - attempts,
        {
            let candidate = Collection::scope_id_candidate(random_u32());
            if !self.has_scope_id(&candidate) {
                return string_from_chars(candidate.as_slice());
            }
            attempts += 1;
        }
        let mut k: u64 = 0;
        while k < 0x1_0000_0000
            invariant
                k <= 0x1_0000_0000,
                forall|m: u32| (m as u64) < k ==> #[trigger] scope_id_used(self.routes@, scope_id_for(m)),
            decreases 0x1_0000_0000 - k,
        {
            let n: u32 = k as u32;
            let candidate = Collection::scope_id_candidate(n);
            if !self.has_scope_id(&candidate) {
                return string_from_chars(candidate.as_slice());
            }
            k += 1;
        }
        string_from_chars(Collection::scope_id_candidate(0).as_slice())
    }

    /// Appends a route: its group is normalized and a blank scope id is
    /// replaced by a fresh one.
    pub fn add_route(&mut self, route: Route)
        ensures
            final(self).routes@.len() == old(self).routes@.len() + 1,
            final(self).routes@.take(old(self).routes@.len() as int) == old(self).routes@,
            ({
                let stored = final(self).routes@.last()@;
                &&& stored == stored_route(route@, stored.scope_id)
                &&& trim(route.scope_id@).len() == 0 ==> fresh_scope_id(old(self).routes@, stored.scope_id)
            }),
    {
        let mut route = route;
        route.group = normalize_group_name(route.group.as_str());
        if str_is_blank(route.scope_id.as_str()) {
            route.scope_id = self.new_scope_id();
        }
        self.routes.push(route);
        proof {
            assert(final(self).routes@.take(old(self).routes@.len() as int) =~= old(self).routes@);
        }
    }

    /// Replaces the route at `index`, normalized as by [`Collection::add_route`];
    /// fails, changing nothing, when `index` is out of range.
    pub fn update_route(&mut self, index: usize, route: Route) -> (r: Result<(), String>)
        ensures
            index >= old(self).routes@.len() ==> r.is_err() && r->Err_0@ == index_error_message(
                index as nat,
            ) && final(self).routes@ == old(self).routes@,
            index < old(self).routes@.len() ==> r.is_ok() && ({
                let stored = final(self).routes@[index as int]@;
                &&& final(self).routes@.len() == old(self).routes@.len()
                &&& forall|k: int|
                    0 <= k < old(self).routes@.len() && k != index ==> #[trigger] final(self).routes@[k]
                        == old(self).routes@[k]
                &&& stored == stored_route(route@, stored.scope_id)
                &&& trim(route.scope_id@).len() == 0 ==> fresh_scope_id(old(self).routes@, stored.scope_id)
            }),
    {
        if index >= self.routes.len() {
            return Err(index_error(index));
        }
        let mut route = route;
        route.group = normalize_group_name(route.group.as_str());
        if str_is_blank(route.scope_id.as_str()) {
            route.scope_id = self.new_scope_id();
        }
        self.routes.set(index, route);
        Ok(())
    }

    /// Removes the route at `index`; fails, changing nothing, when `index` is
    /// out of range.
    pub fn delete_route(&mut self, index: usize) -> (r: Result<(), String>)
        ensures
            index >= old(self).routes@.len() ==> r.is_err() && r->Err_0@ == index_error_message(
                index as nat,
            ) && final(self).routes@ == old(self).routes@,
            index < old(self).routes@.len() ==> r.is_ok() && final(self).routes@ == old(
                self,
            ).routes@.remove(index as int),
    {
        if index >= self.routes.len() {
            return Err(index_error(index));
        }
        self.routes.remove(index);
        Ok(())
    }
}

// ---------------------------------------------------------------------------
// The collection file's layout
// ---------------------------------------------------------------------------

/// A group as the collection file stores it: its name and its routes.
#[derive(Debug, Clone)]
pub struct StoredGroup {
    pub name: String,
    pub routes: Vec<Route>,
}

/// The abstract content of stored groups.
pub open spec fn stored_groups_view(gs: Seq<StoredGroup>) -> Seq<(Seq<char>, Seq<RouteView>)> {
    gs.map_values(|g: StoredGroup| (g.name@, routes_view(g.routes@)))
}

/// The first stored group at or after `i` with the given name.
pub open spec fn find_stored_group(gs: Seq<(Seq<char>, Seq<RouteView>)>, name: Seq<char>, i: int) -> Option<int>
    decreases gs.len() - i,
{
    if i < 0 || i >= gs.len() {
        None
    } else if gs[i].0 == name {
        Some(i)
    } else {
        find_stored_group(gs, name, i + 1)
    }
}

/// The file's groups for the first `n` routes: one group per normalized
/// group name, in order of first appearance, each holding its routes in
/// order.
pub open spec fn storage_groups(routes: Seq<RouteView>, n: int) -> Seq<(Seq<char>, Seq<RouteView>)>
    decreases n,
{
    if n <= 0 {
        seq![]
    } else {
        let g = storage_groups(routes, n - 1);
        let name = normalized_group(routes[n - 1].group);
        match find_stored_group(g, name, 0) {
            Some(p) => g.update(p, (name, g[p].1.push(routes[n - 1]))),
            None => g.push((name, seq![routes[n - 1]])),
        }
    }
}

/// The routes read from stored groups, in file order, each in the
/// normalized group it was stored under.
pub open spec fn routes_of_groups(gs: Seq<(Seq<char>, Seq<RouteView>)>) -> Seq<RouteView>
    decreases gs.len(),
{
    if gs.len() == 0 {
        seq![]
    } else {
        routes_of_groups(gs.drop_last()) + gs.last().1.map_values(
            |r: RouteView| RouteView { group: normalized_group(gs.last().0), ..r },
        )
    }
}

proof fn lemma_find_stored_group(gs: Seq<(Seq<char>, Seq<RouteView>)>, name: Seq<char>, i: int)
    requires
        i >= 0,
    ensures
        match find_stored_group(gs, name, i) {
            Some(p) => i <= p < gs.len() && gs[p].0 == name,
            None => forall|k: int| i <= k < gs.len() ==> (#[trigger] gs[k]).0 != name,
        },
    decreases gs.len() - i,
{
    if i < gs.len() && gs[i].0 != name {
        lemma_find_stored_group(gs, name, i + 1);
    }
}

fn find_stored_group_exec(groups: &Vec<StoredGroup>, name: &Vec<char>) -> (r: Option<usize>)
    ensures
        match r {
            Some(p) => find_stored_group(stored_groups_view(groups@), name@, 0) == Some(p as int),
            None => find_stored_group(stored_groups_view(groups@), name@, 0) is None,
        },
{
    let ghost gv = stored_groups_view(groups@);
    let mut j: usize = 0;
    while j < groups.len()
        invariant
            gv == stored_groups_view(groups@),
            find_stored_group(gv, name@, 0) == find_stored_group(gv, name@, j as int),
        decreases groups.len() - j,
    {
        let gn = string_chars(&groups[j].name);
        proof {
            assert(gv[j as int].0 == groups@[j as int].name@);
        }
        if crate::text::chars_equal(&gn, name) {
            return Some(j);
        }
        j += 1;
    }
    None
}

impl Collection {
    /// The routes grouped as the collection file stores them.
    pub fn grouped_for_storage(&self) -> (r: Vec<StoredGroup>)
        ensures
            stored_groups_view(r@) == storage_groups(routes_view(self.routes@), self.routes@.len() as int),
    {
        let ghost rv = routes_view(self.routes@);
        let mut groups: Vec<StoredGroup> = Vec::new();
        let mut i: usize = 0;
        while i < self.routes.len()
            invariant
                i <= self.routes.len(),
                rv == routes_view(self.routes@),
                stored_groups_view(groups@) == storage_groups(rv, i as int),
            decreases self.routes.len() - i,
        {
            let name = normalize_group_name(self.routes[i].group.as_str());
            let nc = string_chars(&name);
            let route = self.routes[i].duplicate();
            let ghost before = stored_groups_view(groups@);
            proof {
                assert(rv[i as int] == self.routes@[i as int]@);
                lemma_find_stored_group(before, nc@, 0);
            }
            match find_stored_group_exec(&groups, &nc) {
                Some(p) => {
                    let mut g = groups.remove(p);
                    let ghost gr = g.routes@;
                    g.routes.push(route);
                    groups.insert(p, g);
                    proof {
                        assert(routes_view(gr.push(route)) =~= routes_view(gr).push(rv[i as int]));
                        assert(stored_groups_view(groups@) =~= before.update(
                            p as int,
                            (nc@, before[p as int].1.push(rv[i as int])),
                        ));
                    }
                },
                None => {
                    let mut rs: Vec<Route> = Vec::new();
                    rs.push(route);
                    groups.push(StoredGroup { name, routes: rs });
                    proof {
                        assert(routes_view(rs@) =~= seq![rv[i as int]]);
                        assert(stored_groups_view(groups@) =~= before.push((nc@, seq![rv[i as int]])));
                    }
                },
            }
            i += 1;
        }
        groups
    }

    /// The collection read from stored groups: their routes in file order,
    /// each placed in the normalized name of its group.
    pub fn from_stored_groups(groups: Vec<StoredGroup>) -> (r: Collection)
        ensures
            routes_view(r.routes@) == routes_of_groups(stored_groups_view(groups@)),
    {
        let ghost gv = stored_groups_view(groups@);
        let mut routes: Vec<Route> = Vec::new();
        let mut i: usize = 0;
        while i < groups.len()
            invariant
                i <= groups.len(),
                gv == stored_groups_view(groups@),
                routes_view(routes@) == routes_of_groups(gv.take(i as int)),
            decreases groups.len() - i,
        {
            let name = normalize_group_name(groups[i].name.as_str());
            let ghost base = routes_view(routes@);
            let ghost grs = routes_view(groups@[i as int].routes@);
            let mut k: usize = 0;
            while k < groups[i].routes.len()
                invariant
                    i < groups.len(),
                    k <= groups@[i as int].routes@.len(),
                    grs == routes_view(groups@[i as int].routes@),
                    name@ == normalized_group(groups@[i as int].name@),
                    routes_view(routes@) == base + grs.take(k as int).map_values(
                        |r: RouteView| RouteView { group: name@, ..r },
                    ),
                decreases groups@[i as int].routes@.len() - k,
            {
                let mut route = groups[i].routes[k].duplicate();
                route.group = name.clone();
                let ghost prev = routes_view(routes@);
                routes.push(route);
                proof {
                    assert(grs[k as int] == groups@[i as int].routes@[k as int]@);
                    assert(grs.take(k + 1).map_values(|r: RouteView| RouteView { group: name@, ..r })
                        =~= grs.take(k as int).map_values(|r: RouteView| RouteView { group: name@, ..r }).push(
                        RouteView { group: name@, ..grs[k as int] },
                    ));
                    assert(routes_view(routes@) =~= prev.push(RouteView { group: name@, ..grs[k as int] }));
                }
                k += 1;
            }
            proof {
                assert(grs.take(grs.len() as int) =~= grs);
                let t = gv.take(i + 1);
                assert(t.drop_last() =~= gv.take(i as int));
                assert(t.last() == gv[i as int]);
                assert(gv[i as int] == (groups@[i as int].name@, grs));
            }
            i += 1;
        }
        proof {
            assert(gv.take(groups.len() as int) =~= gv);
        }
        Collection { routes }
    }
}


/// The routes among the first `n` whose normalized group is `name`, in
/// order.
pub open spec fn routes_in_group(routes: Seq<RouteView>, name: Seq<char>, n: int) -> Seq<RouteView>
    decreases n,
{
    if n <= 0 {
        seq![]
    } else {
        let rest = routes_in_group(routes, name, n - 1);
        if normalized_group(routes[n - 1].group) == name {
            rest.push(routes[n - 1])
        } else {
            rest
        }
    }
}

proof fn lemma_routes_in_group_empty(routes: Seq<RouteView>, name: Seq<char>, n: int)
    requires
        n <= routes.len(),
        forall|i: int| 0 <= i < n ==> normalized_group((#[trigger] routes[i]).group) != name,
    ensures
        routes_in_group(routes, name, n) == Seq::<RouteView>::empty(),
    decreases n,
{
    if n > 0 {
        lemma_routes_in_group_empty(routes, name, n - 1);
    }
}

#[verifier::rlimit(60)]
proof fn lemma_storage_groups(routes: Seq<RouteView>, n: int)
    requires
        0 <= n <= routes.len(),
    ensures
        ({
            let gs = storage_groups(routes, n);
            &&& forall|p: int, q: int| 0 <= p < q < gs.len() ==> (#[trigger] gs[p]).0 != (#[trigger] gs[q]).0
            &&& forall|p: int| 0 <= p < gs.len() ==> (#[trigger] gs[p]).1 == routes_in_group(routes, gs[p].0, n)
            &&& forall|i: int| 0 <= i < n ==> exists|p: int| 0 <= p < gs.len() && (#[trigger] gs[p]).0
                == normalized_group((#[trigger] routes[i]).group)
            &&& forall|p: int| 0 <= p < gs.len() ==> exists|i: int| 0 <= i < n && (#[trigger] gs[p]).0
                == normalized_group((#[trigger] routes[i]).group)
        }),
    decreases n,
{
    if n > 0 {
        lemma_storage_groups(routes, n - 1);
        let g = storage_groups(routes, n - 1);
        let r = routes[n - 1];
        let name = normalized_group(r.group);
        lemma_find_stored_group(g, name, 0);
        let gs = storage_groups(routes, n);
        match find_stored_group(g, name, 0) {
            Some(p) => {
                assert forall|q: int| 0 <= q < gs.len() implies (#[trigger] gs[q]).1 == routes_in_group(
                    routes,
                    gs[q].0,
                    n,
                ) by {
                    if q != p {
                        assert(gs[q] == g[q]);
                        assert(g[q].0 != name);
                    }
                }
                assert forall|i: int| 0 <= i < n implies exists|q: int| 0 <= q < gs.len() && (#[trigger] gs[q]).0
                    == normalized_group((#[trigger] routes[i]).group) by {
                    if i < n - 1 {
                        let q = choose|q: int| 0 <= q < g.len() && (#[trigger] g[q]).0 == normalized_group(routes[i].group);
                        assert(gs[q].0 == g[q].0);
                    } else {
                        assert(gs[p].0 == name);
                    }
                }
                assert forall|q: int| 0 <= q < gs.len() implies exists|i: int| 0 <= i < n && (#[trigger] gs[q]).0
                    == normalized_group((#[trigger] routes[i]).group) by {
                    if q == p {
                        assert(gs[q].0 == normalized_group(routes[n - 1].group));
                    } else {
                        assert(gs[q] == g[q]);
                        let i = choose|i: int| 0 <= i < n - 1 && g[q].0 == normalized_group((#[trigger] routes[i]).group);
                        assert(gs[q].0 == normalized_group(routes[i].group));
                    }
                }
                assert forall|a: int, b: int| 0 <= a < b < gs.len() implies (#[trigger] gs[a]).0 != (#[trigger] gs[b]).0 by {
                    assert(gs[a].0 == g[a].0);
                    assert(gs[b].0 == g[b].0);
                }
            },
            None => {
                assert forall|i: int| 0 <= i < n - 1 implies normalized_group((#[trigger] routes[i]).group) != name by {
                    let q = choose|q: int| 0 <= q < g.len() && (#[trigger] g[q]).0 == normalized_group(routes[i].group);
                }
                lemma_routes_in_group_empty(routes, name, n - 1);
                assert forall|q: int| 0 <= q < gs.len() implies (#[trigger] gs[q]).1 == routes_in_group(
                    routes,
                    gs[q].0,
                    n,
                ) by {
                    if q < g.len() {
                        assert(gs[q] == g[q]);
                        assert(g[q].0 != name);
                    } else {
                        assert(routes_in_group(routes, name, n) =~= seq![r]);
                    }
                }
                assert forall|i: int| 0 <= i < n implies exists|q: int| 0 <= q < gs.len() && (#[trigger] gs[q]).0
                    == normalized_group((#[trigger] routes[i]).group) by {
                    if i < n - 1 {
                        let q = choose|q: int| 0 <= q < g.len() && (#[trigger] g[q]).0 == normalized_group(routes[i].group);
                        assert(gs[q].0 == g[q].0);
                    } else {
                        assert(gs[g.len() as int].0 == name);
                    }
                }
                assert forall|q: int| 0 <= q < gs.len() implies exists|i: int| 0 <= i < n && (#[trigger] gs[q]).0
                    == normalized_group((#[trigger] routes[i]).group) by {
                    if q == g.len() {
                        assert(gs[q].0 == normalized_group(routes[n - 1].group));
                    } else {
                        assert(gs[q] == g[q]);
                        let i = choose|i: int| 0 <= i < n - 1 && g[q].0 == normalized_group((#[trigger] routes[i]).group);
                        assert(gs[q].0 == normalized_group(routes[i].group));
                    }
                }
                assert forall|a: int, b: int| 0 <= a < b < gs.len() implies (#[trigger] gs[a]).0 != (#[trigger] gs[b]).0 by {
                    assert(gs[a].0 == g[a].0);
                    if b < g.len() {
                        assert(gs[b].0 == g[b].0);
                    }
                }
            },
        }
    }
}

/// Saving groups the routes by normalized group name: each group is
/// stored once, every route's group is stored, and a stored group holds
/// exactly the routes of that group, in their order.
pub proof fn law_storage_keeps_each_group_in_order(routes: Seq<RouteView>)
    ensures
        ({
            let gs = storage_groups(routes, routes.len() as int);
            &&& forall|p: int, q: int| 0 <= p < q < gs.len() ==> (#[trigger] gs[p]).0 != (#[trigger] gs[q]).0
            &&& forall|p: int|
                0 <= p < gs.len() ==> (#[trigger] gs[p]).1 == routes_in_group(routes, gs[p].0, routes.len() as int)
            &&& forall|i: int|
                0 <= i < routes.len() ==> exists|p: int| 0 <= p < gs.len() && (#[trigger] gs[p]).0
                    == normalized_group((#[trigger] routes[i]).group)
        }),
{
    let n = routes.len() as int;
    lemma_storage_groups(routes, n);
    let gs = storage_groups(routes, n);
    assert forall|i: int| 0 <= i < routes.len() implies exists|p: int| 0 <= p < gs.len() && (#[trigger] gs[p]).0
        == normalized_group((#[trigger] routes[i]).group) by {
        assert(0 <= i < n);
    }
}

/// Routes as a loaded collection holds them: each route's group is
/// normalized, and the routes of one group stand together.
pub open spec fn in_stored_order(routes: Seq<RouteView>) -> bool {
    &&& forall|i: int| 0 <= i < routes.len() ==> normalized_group((#[trigger] routes[i]).group) == routes[i].group
    &&& forall|i: int, j: int, k: int|
        0 <= i < j < k < routes.len() && (#[trigger] routes[i]).group == (#[trigger] routes[k]).group
            ==> (#[trigger] routes[j]).group == routes[i].group
}

proof fn lemma_groups_append_to_last(g: Seq<(Seq<char>, Seq<RouteView>)>, r: RouteView)
    requires
        g.len() > 0,
    ensures
        routes_of_groups(g.update(g.len() - 1, (g.last().0, g.last().1.push(r)))) == routes_of_groups(g).push(
            RouteView { group: normalized_group(g.last().0), ..r },
        ),
{
    let gs = g.update(g.len() - 1, (g.last().0, g.last().1.push(r)));
    let name = g.last().0;
    assert(gs.drop_last() =~= g.drop_last());
    assert(gs.last() == (name, g.last().1.push(r)));
    let f = |x: RouteView| RouteView { group: normalized_group(name), ..x };
    assert(g.last().1.push(r).map_values(f) =~= g.last().1.map_values(f).push(f(r)));
}

proof fn lemma_groups_push_new(g: Seq<(Seq<char>, Seq<RouteView>)>, name: Seq<char>, r: RouteView)
    ensures
        routes_of_groups(g.push((name, seq![r]))) == routes_of_groups(g).push(
            RouteView { group: normalized_group(name), ..r },
        ),
{
    let gs = g.push((name, seq![r]));
    assert(gs.drop_last() =~= g);
    let f = |x: RouteView| RouteView { group: normalized_group(name), ..x };
    assert(seq![r].map_values(f) =~= seq![f(r)]);
}

/// The first `n` routes share no normalized group with a later route
/// whose group differs from that of route `n - 1`.
proof fn lemma_new_group_unseen(routes: Seq<RouteView>, n: int)
    requires
        in_stored_order(routes),
        1 <= n <= routes.len(),
        n < 2 || routes[n - 2].group != routes[n - 1].group,
    ensures
        forall|i: int| 0 <= i < n - 1 ==> normalized_group((#[trigger] routes[i]).group) != routes[n - 1].group,
{
    assert forall|i: int| 0 <= i < n - 1 implies normalized_group((#[trigger] routes[i]).group) != routes[n - 1].group by {
        assert(normalized_group(routes[i].group) == routes[i].group);
        if routes[i].group == routes[n - 1].group && i < n - 2 {
            let j = n - 2;
            let k = n - 1;
            assert(routes[j].group == routes[i].group);
        }
    }
}

proof fn lemma_find_absent(g: Seq<(Seq<char>, Seq<RouteView>)>, routes: Seq<RouteView>, n: int, name: Seq<char>)
    requires
        forall|p: int| 0 <= p < g.len() ==> exists|i: int| 0 <= i < n && (#[trigger] g[p]).0
            == normalized_group((#[trigger] routes[i]).group),
        forall|i: int| 0 <= i < n ==> normalized_group((#[trigger] routes[i]).group) != name,
    ensures
        find_stored_group(g, name, 0) is None,
{
    lemma_find_stored_group(g, name, 0);
    if find_stored_group(g, name, 0) is Some {
        let p = find_stored_group(g, name, 0)->0;
        let i = choose|i: int| 0 <= i < n && (#[trigger] g[p]).0 == normalized_group((#[trigger] routes[i]).group);
    }
}

proof fn lemma_find_last(g: Seq<(Seq<char>, Seq<RouteView>)>, name: Seq<char>)
    requires
        g.len() > 0,
        g.last().0 == name,
        forall|p: int, q: int| 0 <= p < q < g.len() ==> (#[trigger] g[p]).0 != (#[trigger] g[q]).0,
    ensures
        find_stored_group(g, name, 0) == Some(g.len() - 1),
{
    lemma_find_stored_group(g, name, 0);
    let last = g.len() - 1;
    assert(g[last].0 == name);
    let p = find_stored_group(g, name, 0)->0;
    if p != last {
        assert(g[p].0 != g[last].0);
    }
}

#[verifier::rlimit(60)]
proof fn lemma_round_trip_prefix(routes: Seq<RouteView>, n: int)
    requires
        in_stored_order(routes),
        0 <= n <= routes.len(),
    ensures
        routes_of_groups(storage_groups(routes, n)) == routes.take(n),
        n > 0 ==> storage_groups(routes, n).len() > 0 && storage_groups(routes, n).last().0 == routes[n - 1].group,
    decreases n,
{
    if n == 0 {
        assert(routes.take(0) =~= Seq::<RouteView>::empty());
    } else {
        lemma_round_trip_prefix(routes, n - 1);
        let g = storage_groups(routes, n - 1);
        let r = routes[n - 1];
        let name = normalized_group(r.group);
        assert(name == r.group);
        assert(routes.take(n) =~= routes.take(n - 1).push(r));
        if n >= 2 && routes[n - 2].group == r.group {
            assert(find_stored_group(g, name, 0) == Some(g.len() - 1)) by {
                lemma_storage_groups(routes, n - 1);
                lemma_find_last(g, name);
            }
            let last = g.len() - 1;
            assert(storage_groups(routes, n) == g.update(last, (name, g[last].1.push(r))));
            lemma_groups_append_to_last(g, r);
        } else {
            assert(find_stored_group(g, name, 0) is None) by {
                lemma_storage_groups(routes, n - 1);
                lemma_new_group_unseen(routes, n);
                lemma_find_absent(g, routes, n - 1, name);
            }
            assert(storage_groups(routes, n) == g.push((name, seq![r])));
            lemma_groups_push_new(g, name, r);
        }
    }
}

/// Loading what was saved gives back a collection in stored order: routes
/// with normalized group names whose groups stand together come back
/// exactly as they were.
pub proof fn law_load_after_save_restores_stored_routes(routes: Seq<RouteView>)
    requires
        in_stored_order(routes),
    ensures
        routes_of_groups(storage_groups(routes, routes.len() as int)) == routes,
{
    lemma_round_trip_prefix(routes, routes.len() as int);
    assert(routes.take(routes.len() as int) =~= routes);
}

} // verus!
