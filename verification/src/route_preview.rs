//! The preview pane beside the API tester's route list: a summary of the
//! selected route, or the routes of the selected group fitted to the lines
//! the pane has, with blank lines between entries.

use vstd::prelude::*;
use crate::collection::{
    default_group_text, method_label, normalize_group_name, normalized_group, strings_view, HttpMethod,
    Route, RouteView,
};
use crate::preview_state::left_aligned;
use crate::route_list_state::SelectedItem;
use crate::text::{decimal, push_decimal, push_str, string_chars, string_from_chars, to_chars, trim};

verus! {

// ---------------------------------------------------------------------------
// Spacing and truncation
// ---------------------------------------------------------------------------

/// How many lines `n` entries take with a blank line between each two.
pub open spec fn spaced_len(n: nat) -> nat {
    if n == 0 {
        0
    } else {
        (2 * n - 1) as nat
    }
}

/// The entries with a blank line between each two, cut after `max` lines.
pub open spec fn interleave_capped(lines: Seq<Seq<char>>, max: nat) -> Seq<Seq<char>> {
    let len = if spaced_len(lines.len()) <= max {
        spaced_len(lines.len())
    } else {
        max
    };
    Seq::new(len, |i: int| if i % 2 == 0 { lines[i / 2] } else { Seq::<char>::empty() })
}

/// The marker that replaces `hidden` lines or entries left out.
pub open spec fn more_marker(hidden: nat) -> Seq<char> {
    "... +"@ + decimal(hidden) + " more"@
}

/// At most `max` lines: all of them when they fit, else the first
/// `max - 1` and a marker counting the rest (only the first when `max` is 1).
pub open spec fn truncated(lines: Seq<Seq<char>>, max: nat) -> Seq<Seq<char>> {
    if max == 0 {
        Seq::empty()
    } else if lines.len() <= max {
        lines
    } else if max == 1 {
        lines.take(1)
    } else {
        lines.take(max - 1).push(more_marker((lines.len() - max + 1) as nat))
    }
}

fn copy_string(s: &String) -> (r: String)
    ensures
        r@ == s@,
{
    string_from_chars(string_chars(s).as_slice())
}

fn text_line(s: &str) -> (r: String)
    ensures
        r@ == s@,
{
    string_from_chars(to_chars(s).as_slice())
}

/// Inserts a blank line between each two entries, keeping at most
/// `max_lines` lines.
pub fn interleave_with_blank_lines(lines: &Vec<String>, max_lines: usize) -> (r: Vec<String>)
    ensures
        strings_view(r@) == interleave_capped(strings_view(lines@), max_lines as nat),
{
    let n = lines.len();
    let full: usize = if n == 0 {
        0
    } else {
        let t: u128 = 2 * (n as u128) - 1;
        if t <= max_lines as u128 {
            t as usize
        } else {
            max_lines
        }
    };
    let ghost target = interleave_capped(strings_view(lines@), max_lines as nat);
    let mut out: Vec<String> = Vec::new();
    let mut k: usize = 0;
    while k < full
        invariant
            k <= full,
            full == target.len(),
            n == lines@.len(),
            target == interleave_capped(strings_view(lines@), max_lines as nat),
            out@.len() == k,
            forall|j: int| 0 <= j < k ==> (#[trigger] out@[j])@ == target[j],
        decreases full - k,
    {
        if k % 2 == 0 {
            proof {
                assert(k / 2 < n);
            }
            out.push(copy_string(&lines[k / 2]));
        } else {
            out.push(String::new());
        }
        k += 1;
    }
    proof {
        assert(strings_view(out@) =~= target);
    }
    out
}

/// Builds the marker counting `hidden` lines left out.
fn more_marker_string(hidden: usize) -> (r: String)
    ensures
        r@ == more_marker(hidden as nat),
{
    let mut v: Vec<char> = Vec::new();
    push_str(&mut v, "... +");
    push_decimal(&mut v, hidden as u64);
    push_str(&mut v, " more");
    proof {
        reveal_strlit("... +");
        reveal_strlit(" more");
        assert(v@ =~= more_marker(hidden as nat));
    }
    string_from_chars(v.as_slice())
}

/// Keeps at most `max_lines` lines, the last one counting those left out
/// when they do not all fit.
pub fn truncate_preview_lines(lines: &Vec<String>, max_lines: usize) -> (r: Vec<String>)
    ensures
        strings_view(r@) == truncated(strings_view(lines@), max_lines as nat),
{
    let n = lines.len();
    let keep: usize = if max_lines == 0 {
        0
    } else if n <= max_lines {
        n
    } else if max_lines == 1 {
        1
    } else {
        max_lines - 1
    };
    let mut out: Vec<String> = Vec::new();
    let mut k: usize = 0;
    while k < keep
        invariant
            k <= keep,
            keep <= n,
            n == lines@.len(),
            out@.len() == k,
            forall|j: int| 0 <= j < k ==> (#[trigger] out@[j])@ == lines@[j]@,
        decreases keep - k,
    {
        out.push(copy_string(&lines[k]));
        k += 1;
    }
    let ghost before = out@;
    if max_lines >= 2 && n > max_lines {
        out.push(more_marker_string(n - max_lines + 1));
    }
    proof {
        let sv = strings_view(lines@);
        if max_lines == 0 {
            assert(strings_view(out@) =~= Seq::<Seq<char>>::empty());
        } else if n <= max_lines {
            assert(strings_view(out@) =~= sv);
        } else if max_lines == 1 {
            assert(strings_view(out@) =~= sv.take(1));
        } else {
            assert(strings_view(before) =~= sv.take(max_lines - 1));
            assert(strings_view(out@) =~= sv.take(max_lines - 1).push(more_marker((n - max_lines + 1) as nat)));
        }
    }
    out
}

/// A single placeholder line, or nothing when no line is available.
pub fn placeholder_preview_lines(message: &str, max_lines: usize) -> (r: Vec<String>)
    ensures
        strings_view(r@) == (if max_lines == 0 {
            Seq::<Seq<char>>::empty()
        } else {
            seq![message@]
        }),
{
    let mut out: Vec<String> = Vec::new();
    if max_lines > 0 {
        out.push(text_line(message));
    }
    proof {
        if max_lines == 0 {
            assert(strings_view(out@) =~= Seq::<Seq<char>>::empty());
        } else {
            assert(strings_view(out@) =~= seq![message@]);
        }
    }
    out
}

// ---------------------------------------------------------------------------
// A route's summary
// ---------------------------------------------------------------------------

/// The method in six columns, a space, and the route's name.
pub open spec fn method_name_line(method: HttpMethod, name: Seq<char>) -> Seq<char> {
    left_aligned(method_label(method), 6) + seq![' '] + name
}

/// The summary of a route: method and name, group, URL, and the number of
/// headers (`none` when it has none).
pub open spec fn route_summary(r: RouteView) -> Seq<Seq<char>> {
    seq![
        method_name_line(r.method, r.name),
        "Group: "@ + normalized_group(r.group),
        "URL: "@ + r.url,
        if r.headers.len() == 0 {
            "Headers: none"@
        } else {
            "Headers: "@ + decimal(r.headers.len())
        },
    ]
}

/// Whether a route's body is set: the number of its characters, or `Empty`
/// when it has none or only whitespace.
pub open spec fn body_status(r: RouteView) -> Seq<char> {
    match r.body {
        Some(b) => if trim(b).len() > 0 {
            "Body: Set ("@ + decimal(b.len()) + " chars)"@
        } else {
            "Body: Empty"@
        },
        None => "Body: Empty"@,
    }
}

fn method_name_text(method: HttpMethod, name: &String) -> (r: Vec<char>)
    ensures
        r@ == method_name_line(method, name@),
{
    let label = method.label();
    let mut first = string_chars(&label);
    let mut k = first.len();
    while k < 6
        invariant
            first@.len() <= 6 ==> first@ == method_label(method) + Seq::new(
                (k - method_label(method).len()) as nat,
                |i: int| ' ',
            ),
            first@.len() > 6 ==> first@ == method_label(method),
            method_label(method).len() <= k,
            k == first@.len(),
        decreases 6 - k,
    {
        first.push(' ');
        proof {
            assert(first@ =~= method_label(method) + Seq::new(
                (k + 1 - method_label(method).len()) as nat,
                |i: int| ' ',
            ));
        }
        k += 1;
    }
    proof {
        if method_label(method).len() >= 6 {
            assert(first@ =~= method_label(method));
        }
        assert(first@ == left_aligned(method_label(method), 6));
    }
    first.push(' ');
    let n = string_chars(name);
    crate::text::push_all(&mut first, &n);
    first
}

/// The summary lines of a route.
pub fn route_summary_lines(route: &Route) -> (r: Vec<String>)
    ensures
        strings_view(r@) == route_summary(route@),
{
    let mut out: Vec<String> = Vec::new();
    let l0 = method_name_text(route.method, &route.name);
    out.push(string_from_chars(l0.as_slice()));
    let mut l1: Vec<char> = Vec::new();
    push_str(&mut l1, "Group: ");
    let g = normalize_group_name(route.group.as_str());
    crate::text::push_all(&mut l1, &string_chars(&g));
    out.push(string_from_chars(l1.as_slice()));
    let mut l2: Vec<char> = Vec::new();
    push_str(&mut l2, "URL: ");
    crate::text::push_all(&mut l2, &string_chars(&route.url));
    out.push(string_from_chars(l2.as_slice()));
    let mut l3: Vec<char> = Vec::new();
    if route.headers.len() == 0 {
        push_str(&mut l3, "Headers: none");
    } else {
        push_str(&mut l3, "Headers: ");
        push_decimal(&mut l3, route.headers.len() as u64);
    }
    out.push(string_from_chars(l3.as_slice()));
    proof {
        reveal_strlit("Group: ");
        reveal_strlit("URL: ");
        reveal_strlit("Headers: none");
        reveal_strlit("Headers: ");
        assert(strings_view(out@) =~= route_summary(route@));
    }
    out
}

/// The body status line of a route.
pub fn route_body_status_line(route: &Route) -> (r: String)
    ensures
        r@ == body_status(route@),
{
    let mut v: Vec<char> = Vec::new();
    let set = match &route.body {
        Some(b) => !crate::text::str_is_blank(b.as_str()),
        None => false,
    };
    if set {
        let b = match &route.body {
            Some(b) => string_chars(b),
            None => Vec::new(),
        };
        push_str(&mut v, "Body: Set (");
        push_decimal(&mut v, b.len() as u64);
        push_str(&mut v, " chars)");
    } else {
        push_str(&mut v, "Body: Empty");
    }
    proof {
        reveal_strlit("Body: Set (");
        reveal_strlit(" chars)");
        reveal_strlit("Body: Empty");
        assert(v@ =~= body_status(route@));
    }
    string_from_chars(v.as_slice())
}

// ---------------------------------------------------------------------------
// A group's routes
// ---------------------------------------------------------------------------

/// Whether a route belongs to the group named `name` (already normalized).
pub open spec fn in_group(r: RouteView, name: Seq<char>) -> bool {
    normalized_group(r.group) == name
}

/// The indices of the routes of a group, in order.
pub open spec fn group_members(rs: Seq<RouteView>, name: Seq<char>) -> Seq<int>
    decreases rs.len(),
{
    if rs.len() == 0 {
        Seq::empty()
    } else {
        let rest = group_members(rs.drop_last(), name);
        if in_group(rs.last(), name) {
            rest.push(rs.len() - 1)
        } else {
            rest
        }
    }
}

proof fn lemma_group_members_bounds(rs: Seq<RouteView>, name: Seq<char>)
    ensures
        forall|i: int| 0 <= i < group_members(rs, name).len() ==> 0 <= #[trigger] group_members(rs, name)[i] < rs.len(),
        group_members(rs, name).len() <= rs.len(),
    decreases rs.len(),
{
    if rs.len() > 0 {
        lemma_group_members_bounds(rs.drop_last(), name);
    }
}

/// Twice `n`, capped at the largest `usize`.
pub open spec fn sat_double(n: nat) -> nat {
    if 2 * n > usize::MAX {
        usize::MAX as nat
    } else {
        2 * n
    }
}

/// Whether showing `c` of `total` routes fits in `max` lines: the group
/// line, the count, the routes and a marker when some are left out, with
/// blank lines between.
pub open spec fn fits(total: nat, c: nat, max: nat) -> bool {
    sat_double(2 + c + if c < total { 1nat } else { 0nat }) - 1 <= max
}

/// The largest count, from `c` down, that fits; 0 when none does.
pub open spec fn largest_fit(total: nat, c: nat, max: nat) -> nat
    decreases c,
{
    if fits(total, c, max) {
        c
    } else if c == 0 {
        0
    } else {
        largest_fit(total, (c - 1) as nat, max)
    }
}

/// How many of a group's `total` routes its preview shows in `max` lines.
pub open spec fn visible_routes(total: nat, max: nat) -> nat {
    largest_fit(total, total, max)
}

proof fn lemma_largest_fit_bound(total: nat, c: nat, max: nat)
    ensures
        largest_fit(total, c, max) <= c,
    decreases c,
{
    if !fits(total, c, max) && c > 0 {
        lemma_largest_fit_bound(total, (c - 1) as nat, max);
    }
}

/// The preview of the group named `name` (already normalized): its name,
/// its number of routes, as many routes as fit and a marker counting those
/// left out, or a note when it has none; spaced and cut to `max` lines.
pub open spec fn group_preview(rs: Seq<RouteView>, name: Seq<char>, max: nat) -> Seq<Seq<char>> {
    let members = group_members(rs, name);
    let n = members.len();
    let head = seq!["Group: "@ + name, "Routes: "@ + decimal(n)];
    let entries = if n == 0 {
        head.push("No routes in this group."@)
    } else {
        let v = visible_routes(n, max);
        let shown = Seq::new(v, |i: int| method_name_line(rs[members[i]].method, rs[members[i]].name));
        let tail = if v < n {
            seq![more_marker((n - v) as nat)]
        } else {
            Seq::empty()
        };
        head + shown + tail
    };
    interleave_capped(entries, max)
}

/// The indices of the routes of the group named `name` (already normalized).
pub fn group_routes(routes: &Vec<Route>, name: &str) -> (r: Vec<usize>)
    ensures
        r@.map_values(|i: usize| i as int) == group_members(crate::collection::routes_view(routes@), name@),
{
    let ghost rs = crate::collection::routes_view(routes@);
    let mut out: Vec<usize> = Vec::new();
    let mut i: usize = 0;
    while i < routes.len()
        invariant
            i <= routes@.len(),
            rs == crate::collection::routes_view(routes@),
            out@.map_values(|i: usize| i as int) == group_members(rs.take(i as int), name@),
        decreases routes.len() - i,
    {
        let g = normalize_group_name(routes[i].group.as_str());
        let same = crate::text::chars_equal_str(&string_chars(&g), name);
        let ghost before = out@;
        if same {
            out.push(i);
        }
        proof {
            let t = rs.take(i + 1);
            assert(t.drop_last() =~= rs.take(i as int));
            assert(t.last() == routes@[i as int]@);
            if same {
                assert(out@.map_values(|i: usize| i as int) =~= before.map_values(|i: usize| i as int).push(i as int));
            }
        }
        i += 1;
    }
    proof {
        assert(rs.take(i as int) =~= rs);
    }
    out
}

fn fits_exec(total: usize, c: usize, max: usize) -> (b: bool)
    requires
        c <= total,
    ensures
        b == fits(total as nat, c as nat, max as nat),
{
    let extra: u128 = if c < total {
        1
    } else {
        0
    };
    let entries: u128 = 2 + c as u128 + extra;
    let doubled: u128 = 2 * entries;
    let capped: u128 = if doubled > usize::MAX as u128 {
        usize::MAX as u128
    } else {
        doubled
    };
    capped - 1 <= max as u128
}

/// How many of a group's `total` routes fit in `max_lines` lines.
pub fn visible_route_count(total: usize, max_lines: usize) -> (r: usize)
    ensures
        r as nat == visible_routes(total as nat, max_lines as nat),
{
    let mut c = total;
    loop
        invariant
            c <= total,
            largest_fit(total as nat, c as nat, max_lines as nat) == visible_routes(total as nat, max_lines as nat),
        decreases c,
    {
        if fits_exec(total, c, max_lines) {
            return c;
        }
        if c == 0 {
            return 0;
        }
        c -= 1;
    }
}

/// The preview lines of the group named `group_name`, normalized first.
pub fn route_preview_for_group(routes: &Vec<Route>, group_name: &str, max_lines: usize) -> (r: Vec<String>)
    ensures
        strings_view(r@) == group_preview(
            crate::collection::routes_view(routes@),
            normalized_group(group_name@),
            max_lines as nat,
        ),
{
    let ghost rs = crate::collection::routes_view(routes@);
    let name = normalize_group_name(group_name);
    let members = group_routes(routes, name.as_str());
    let ghost mv = members@.map_values(|i: usize| i as int);
    proof {
        lemma_group_members_bounds(rs, name@);
        assert forall|j: int| 0 <= j < members@.len() implies members@[j] < routes@.len() by {
            assert(mv[j] == members@[j] as int);
        }
    }
    let n = members.len();
    let mut entries: Vec<String> = Vec::new();
    let mut l0: Vec<char> = Vec::new();
    push_str(&mut l0, "Group: ");
    crate::text::push_all(&mut l0, &string_chars(&name));
    entries.push(string_from_chars(l0.as_slice()));
    let mut l1: Vec<char> = Vec::new();
    push_str(&mut l1, "Routes: ");
    push_decimal(&mut l1, n as u64);
    entries.push(string_from_chars(l1.as_slice()));
    proof {
        reveal_strlit("Group: ");
        reveal_strlit("Routes: ");
    }
    let ghost head = seq!["Group: "@ + name@, "Routes: "@ + decimal(n as nat)];
    if n == 0 {
        entries.push(text_line("No routes in this group."));
        proof {
            assert(strings_view(entries@) =~= head.push("No routes in this group."@));
        }
    } else {
        let v = visible_route_count(n, max_lines);
        proof {
            lemma_largest_fit_bound(n as nat, n as nat, max_lines as nat);
            assert(strings_view(entries@) =~= head);
        }
        let mut k: usize = 0;
        while k < v
            invariant
                k <= v,
                v <= n,
                n == members@.len(),
                mv == members@.map_values(|i: usize| i as int),
                mv == group_members(rs, name@),
                rs == crate::collection::routes_view(routes@),
                forall|j: int| 0 <= j < members@.len() ==> members@[j] < routes@.len(),
                strings_view(entries@) == head + Seq::new(
                    k as nat,
                    |i: int| method_name_line(rs[mv[i]].method, rs[mv[i]].name),
                ),
            decreases v - k,
        {
            let idx = members[k];
            let line = method_name_text(routes[idx].method, &routes[idx].name);
            let ghost before = entries@;
            entries.push(string_from_chars(line.as_slice()));
            proof {
                assert(mv[k as int] == idx as int);
                assert(rs[idx as int] == routes@[idx as int]@);
                assert(strings_view(entries@) =~= head + Seq::new(
                    (k + 1) as nat,
                    |i: int| method_name_line(rs[mv[i]].method, rs[mv[i]].name),
                )) by {
                    assert(strings_view(entries@) =~= strings_view(before).push(line@));
                }
            }
            k += 1;
        }
        let ghost shown = strings_view(entries@);
        if v < n {
            entries.push(more_marker_string(n - v));
            proof {
                assert(strings_view(entries@) =~= shown + seq![more_marker((n - v) as nat)]);
            }
        } else {
            proof {
                assert(strings_view(entries@) =~= shown + Seq::<Seq<char>>::empty());
            }
        }
    }
    interleave_with_blank_lines(&entries, max_lines)
}

/// The placeholder shown for no line or one line.
pub open spec fn placeholder(message: Seq<char>, max: nat) -> Seq<Seq<char>> {
    if max == 0 {
        Seq::empty()
    } else {
        seq![message]
    }
}

/// The title and lines of the preview pane when no existing route is
/// selected: the group of the selected route or group header, or of the
/// first route when nothing is selected; a note when there is no route.
pub open spec fn preview_content(rs: Seq<RouteView>, selected: Option<SelectedItem>, max: nat) -> (
    Seq<char>,
    Seq<Seq<char>>,
) {
    match selected {
        Some(SelectedItem::Route(sel)) => {
            let name = normalized_group(sel.group@);
            if group_members(rs, name).len() == 0 {
                ("Route Preview"@, placeholder("Selected route is no longer available."@, max))
            } else {
                ("Group Preview"@, group_preview(rs, name, max))
            }
        },
        Some(SelectedItem::Group { name }) => (
            "Group Preview"@,
            group_preview(rs, normalized_group(name@), max),
        ),
        None => if rs.len() > 0 {
            ("Group Preview"@, group_preview(rs, normalized_group(rs[0].group), max))
        } else {
            ("Preview"@, placeholder("No routes. Press 'n' to create one."@, max))
        },
    }
}

/// The title and lines of the preview pane.
pub fn route_preview_content(routes: &Vec<Route>, selected: &Option<SelectedItem>, max_lines: usize) -> (r: (
    String,
    Vec<String>,
))
    ensures
        (r.0@, strings_view(r.1@)) == preview_content(
            crate::collection::routes_view(routes@),
            *selected,
            max_lines as nat,
        ),
{
    let ghost rs = crate::collection::routes_view(routes@);
    proof {
        reveal_strlit("Route Preview");
        reveal_strlit("Group Preview");
        reveal_strlit("Preview");
    }
    match selected {
        Some(SelectedItem::Route(sel)) => {
            let name = normalize_group_name(sel.group.as_str());
            let members = group_routes(routes, name.as_str());
            if members.len() == 0 {
                (
                    text_line("Route Preview"),
                    placeholder_preview_lines("Selected route is no longer available.", max_lines),
                )
            } else {
                (text_line("Group Preview"), route_preview_for_group(routes, sel.group.as_str(), max_lines))
            }
        },
        Some(SelectedItem::Group { name }) => (
            text_line("Group Preview"),
            route_preview_for_group(routes, name.as_str(), max_lines),
        ),
        None => {
            if routes.len() > 0 {
                (text_line("Group Preview"), route_preview_for_group(routes, routes[0].group.as_str(), max_lines))
            } else {
                (
                    text_line("Preview"),
                    placeholder_preview_lines("No routes. Press 'n' to create one.", max_lines),
                )
            }
        },
    }
}

proof fn lemma_largest_fit_fits(total: nat, c: nat, max: nat)
    ensures
        largest_fit(total, c, max) > 0 ==> fits(total, largest_fit(total, c, max), max),
    decreases c,
{
    if !fits(total, c, max) && c > 0 {
        lemma_largest_fit_fits(total, (c - 1) as nat, max);
    }
}

/// A group preview never takes more lines than are available; and when it
/// shows some of the group's routes, it shows every one of its entries in
/// full, the marker counting the routes left out included.
pub proof fn law_group_preview_fits(rs: Seq<RouteView>, name: Seq<char>, max: nat)
    requires
        2 * (group_members(rs, name).len() + 3) <= usize::MAX,
    ensures
        group_preview(rs, name, max).len() <= max,
        ({
            let n = group_members(rs, name).len();
            let v = visible_routes(n, max);
            n > 0 && v > 0 ==> group_preview(rs, name, max).len() == spaced_len(
                2 + v + if v < n { 1nat } else { 0nat },
            ) && (v < n ==> group_preview(rs, name, max).last() == more_marker((n - v) as nat))
        }),
{
    let n = group_members(rs, name).len();
    let v = visible_routes(n, max);
    lemma_largest_fit_bound(n, n, max);
    lemma_largest_fit_fits(n, n, max);
    if n > 0 && v > 0 {
        let e = 2 + v + if v < n { 1nat } else { 0nat };
        assert(2 * e <= usize::MAX);
        assert(sat_double(e) == 2 * e);
        assert(spaced_len(e) <= max);
        if v < n {
            let members = group_members(rs, name);
            let head = seq!["Group: "@ + name, "Routes: "@ + decimal(n)];
            let shown = Seq::new(v, |i: int| method_name_line(rs[members[i]].method, rs[members[i]].name));
            let entries = head + shown + seq![more_marker((n - v) as nat)];
            assert(entries.len() == e);
            let out = group_preview(rs, name, max);
            assert(out.len() == 2 * e - 1);
            assert((2 * e - 2) % 2 == 0) by (nonlinear_arith)
                requires
                    e >= 1,
            ;
            assert((2 * e - 2) / 2 == e - 1) by (nonlinear_arith)
                requires
                    e >= 1,
            ;
            assert(out[2 * e - 2] == entries[e - 1]);
        }
    }
}

} // verus!
