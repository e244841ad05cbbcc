//! The API tester's request preview: a route with its placeholders
//! resolved twice, once for display (hidden values masked) and once for
//! execution, and the text the preview page shows.

use vstd::prelude::*;
use crate::body_preview::{build, joined_text, preview_lines_view, preview_of, tokens_view, json_pretty};
use crate::collection::{default_group_text, default_route_group, method_label, strings_view, HttpMethod, Route, RouteView};
use crate::executor::CurlExecutor;
use crate::text::{push_all, push_str, string_chars, string_from_chars, to_chars, trim, str_is_blank};
use crate::variables::{str_scope_view, substitute_spec, Variables, VariablesView};

verus! {

/// A route prepared for the preview page and for execution.
#[derive(Debug, Clone)]
pub struct RequestPreview {
    pub route_index: usize,
    pub route_scope_id: String,
    pub route_name: String,
    pub method: HttpMethod,
    /// URL with hidden values masked.
    pub display_url: String,
    /// URL with every value filled in.
    pub execution_url: String,
    pub display_headers: Vec<String>,
    pub execution_headers: Vec<String>,
    /// Body with hidden values masked, when it is not blank.
    pub display_body: Option<String>,
    /// Body with every value filled in, when it is not blank.
    pub execution_body: Option<String>,
}

/// A template with placeholders resolved in a route's scope, masked for
/// display or filled in for execution.
pub open spec fn resolved(v: VariablesView, scope: Seq<char>, text: Seq<char>, display: bool) -> Seq<char> {
    substitute_spec(v, text, Some(scope), display)
}

/// A resolved body, dropped when blank.
pub open spec fn resolved_body(v: VariablesView, scope: Seq<char>, body: Option<Seq<char>>, display: bool) -> Option<
    Seq<char>,
> {
    match body {
        Some(b) => {
            let r = resolved(v, scope, b, display);
            if trim(r).len() == 0 {
                None
            } else {
                Some(r)
            }
        },
        None => None,
    }
}

/// The preview of a route.
pub open spec fn preview_matches(p: RequestPreview, index: usize, r: RouteView, v: VariablesView) -> bool {
    &&& p.route_index == index
    &&& p.route_scope_id@ == r.scope_id
    &&& p.route_name@ == r.name
    &&& p.method == r.method
    &&& p.display_url@ == resolved(v, r.scope_id, r.url, true)
    &&& p.execution_url@ == resolved(v, r.scope_id, r.url, false)
    &&& strings_view(p.display_headers@) == r.headers.map_values(|h: Seq<char>| resolved(v, r.scope_id, h, true))
    &&& strings_view(p.execution_headers@) == r.headers.map_values(
        |h: Seq<char>| resolved(v, r.scope_id, h, false),
    )
    &&& (match p.display_body {
        Some(b) => Some(b@),
        None => None,
    }) == resolved_body(v, r.scope_id, r.body, true)
    &&& (match p.execution_body {
        Some(b) => Some(b@),
        None => None,
    }) == resolved_body(v, r.scope_id, r.body, false)
}

fn resolve_all(vars: &Variables, scope: &str, items: &Vec<String>, display: bool) -> (r: Vec<String>)
    requires
        vars.wf(),
    ensures
        strings_view(r@) == strings_view(items@).map_values(|h: Seq<char>| resolved(vars@, scope@, h, display)),
{
    let mut out: Vec<String> = Vec::new();
    let mut i: usize = 0;
    while i < items.len()
        invariant
            vars.wf(),
            i <= items@.len(),
            strings_view(out@) == strings_view(items@).take(i as int).map_values(
                |h: Seq<char>| resolved(vars@, scope@, h, display),
            ),
        decreases items.len() - i,
    {
        let s = if display {
            vars.substitute_for_preview_with_scope(items[i].as_str(), Some(scope))
        } else {
            vars.substitute_for_execution_with_scope(items[i].as_str(), Some(scope))
        };
        let ghost before = out@;
        out.push(s);
        proof {
            assert(strings_view(out@) =~= strings_view(before).push(resolved(vars@, scope@, items@[i as int]@, display)));
            assert(strings_view(items@).take(i + 1).map_values(|h: Seq<char>| resolved(vars@, scope@, h, display))
                =~= strings_view(items@).take(i as int).map_values(|h: Seq<char>| resolved(vars@, scope@, h, display)).push(
                resolved(vars@, scope@, items@[i as int]@, display),
            ));
        }
        i += 1;
    }
    proof {
        assert(strings_view(items@).take(i as int) =~= strings_view(items@));
    }
    out
}

fn resolve_body(vars: &Variables, scope: &str, body: &Option<String>, display: bool) -> (r: Option<String>)
    requires
        vars.wf(),
    ensures
        (match r {
            Some(b) => Some(b@),
            None => None,
        }) == resolved_body(
            vars@,
            scope@,
            match body {
                Some(b) => Some(b@),
                None => None,
            },
            display,
        ),
{
    match body {
        Some(b) => {
            let s = if display {
                vars.substitute_for_preview_with_scope(b.as_str(), Some(scope))
            } else {
                vars.substitute_for_execution_with_scope(b.as_str(), Some(scope))
            };
            if str_is_blank(s.as_str()) {
                None
            } else {
                Some(s)
            }
        },
        None => None,
    }
}

/// The preview of the route at `index`, or `None` when there is none.
pub fn build_request_preview_state(vars: &Variables, routes: &Vec<Route>, index: usize) -> (r: Option<
    RequestPreview,
>)
    requires
        vars.wf(),
    ensures
        index >= routes@.len() ==> r is None,
        index < routes@.len() ==> (r matches Some(p) && preview_matches(p, index, routes@[index as int]@, vars@)),
{
    if index >= routes.len() {
        return None;
    }
    let route = &routes[index];
    let scope = route.scope_id.as_str();
    proof {
        assert(str_scope_view(Some(scope)) == Some(route.scope_id@));
    }
    let display_url = vars.substitute_for_preview_with_scope(route.url.as_str(), Some(scope));
    let execution_url = vars.substitute_for_execution_with_scope(route.url.as_str(), Some(scope));
    let display_headers = resolve_all(vars, scope, &route.headers, true);
    let execution_headers = resolve_all(vars, scope, &route.headers, false);
    let display_body = resolve_body(vars, scope, &route.body, true);
    let execution_body = resolve_body(vars, scope, &route.body, false);
    Some(
        RequestPreview {
            route_index: index,
            route_scope_id: string_from_chars(string_chars(&route.scope_id).as_slice()),
            route_name: string_from_chars(string_chars(&route.name).as_slice()),
            method: route.method,
            display_url,
            execution_url,
            display_headers,
            execution_headers,
            display_body,
            execution_body,
        },
    )
}

fn copy_strings(v: &Vec<String>) -> (r: Vec<String>)
    ensures
        strings_view(r@) == strings_view(v@),
{
    let mut out: Vec<String> = Vec::new();
    let mut i: usize = 0;
    while i < v.len()
        invariant
            i <= v@.len(),
            strings_view(out@) == strings_view(v@).take(i as int),
        decreases v.len() - i,
    {
        let ghost before = out@;
        out.push(string_from_chars(string_chars(&v[i]).as_slice()));
        proof {
            assert(strings_view(out@) =~= strings_view(before).push(v@[i as int]@));
            assert(strings_view(v@).take(i + 1) =~= strings_view(v@).take(i as int).push(v@[i as int]@));
        }
        i += 1;
    }
    proof {
        assert(strings_view(v@).take(i as int) =~= strings_view(v@));
    }
    out
}

/// The route a preview runs: the default group, the preview's scope, name
/// and method, and its values filled in.
pub open spec fn execution_route(p: RequestPreview) -> RouteView {
    RouteView {
        group: default_group_text(),
        scope_id: p.route_scope_id@,
        name: p.route_name@,
        method: p.method,
        url: p.execution_url@,
        headers: strings_view(p.execution_headers@),
        body: match p.execution_body {
            Some(b) => Some(b@),
            None => None,
        },
    }
}

/// The route index of a preview and an executor for its filled-in route,
/// which it sends as it is.
pub fn build_preview_executor(preview: &RequestPreview) -> (r: (usize, CurlExecutor))
    ensures
        r.0 == preview.route_index,
        r.1.wf(),
        r.1.route()@ == execution_route(*preview),
{
    let route = Route {
        group: default_route_group(),
        scope_id: string_from_chars(string_chars(&preview.route_scope_id).as_slice()),
        name: string_from_chars(string_chars(&preview.route_name).as_slice()),
        method: preview.method,
        url: string_from_chars(string_chars(&preview.execution_url).as_slice()),
        headers: copy_strings(&preview.execution_headers),
        body: match &preview.execution_body {
            Some(b) => Some(string_from_chars(string_chars(b).as_slice())),
            None => None,
        },
    };
    (preview.route_index, CurlExecutor::from_prepared(route))
}

/// `s` left-aligned in a field of `width` characters.
pub open spec fn left_aligned(s: Seq<char>, width: nat) -> Seq<char> {
    if s.len() >= width {
        s
    } else {
        s + Seq::new((width - s.len()) as nat, |i: int| ' ')
    }
}

/// The text of each line of a body preview.
pub open spec fn preview_texts(lines: Seq<Seq<(Seq<char>, crate::body_preview::TokenKind)>>) -> Seq<Seq<char>> {
    lines.map_values(|l: Seq<(Seq<char>, crate::body_preview::TokenKind)>| joined_text(l))
}

/// The lines of the preview page: the method (in six columns) and the
/// route name, the URL, the headers (or `(none)`), and the body preview
/// (or `(empty)`), each part after a blank line and a heading.
pub open spec fn preview_page_lines(p: RequestPreview) -> Seq<Seq<char>> {
    let head = seq![
        left_aligned(method_label(p.method), 6) + seq![' '] + p.route_name@,
        "URL: "@ + p.display_url@,
        Seq::empty(),
        "Headers:"@,
    ];
    let headers = if p.display_headers@.len() == 0 {
        seq!["  (none)"@]
    } else {
        strings_view(p.display_headers@).map_values(|h: Seq<char>| "  - "@ + h)
    };
    let body_head = seq![Seq::empty(), "Body (hidden values masked):"@];
    let body = match p.display_body {
        Some(b) => {
            let lines = preview_of(b@, json_pretty(trim(b@))).0;
            if lines.len() == 0 {
                seq!["  (empty)"@]
            } else {
                preview_texts(lines)
            }
        },
        None => seq!["  (empty)"@],
    };
    head + headers + body_head + body
}

fn push_line(out: &mut Vec<String>, line: Vec<char>)
    ensures
        strings_view(final(out)@) == strings_view(old(out)@).push(line@),
{
    let ghost before = out@;
    out.push(string_from_chars(line.as_slice()));
    proof {
        assert(strings_view(out@) =~= strings_view(before).push(line@));
    }
}

/// The lines of the preview page, as text.
pub fn request_preview_lines(preview: &RequestPreview) -> (r: Vec<String>)
    ensures
        strings_view(r@) == preview_page_lines(*preview),
{
    let mut out: Vec<String> = Vec::new();
    let mut first = string_chars(&preview.method.label());
    let mut k = first.len();
    while k < 6
        invariant
            first@.len() <= 6 ==> first@ == method_label(preview.method) + Seq::new(
                (k - method_label(preview.method).len()) as nat,
                |i: int| ' ',
            ),
            first@.len() > 6 ==> first@ == method_label(preview.method),
            method_label(preview.method).len() <= k,
            k == first@.len(),
        decreases 6 - k,
    {
        first.push(' ');
        proof {
            assert(first@ =~= method_label(preview.method) + Seq::new(
                (k + 1 - method_label(preview.method).len()) as nat,
                |i: int| ' ',
            ));
        }
        k += 1;
    }
    proof {
        if method_label(preview.method).len() >= 6 {
            assert(first@ =~= method_label(preview.method));
        }
        assert(first@ == left_aligned(method_label(preview.method), 6));
    }
    first.push(' ');
    push_all(&mut first, &string_chars(&preview.route_name));
    let ghost l1 = first@;
    proof {
        assert(l1 =~= left_aligned(method_label(preview.method), 6) + seq![' '] + preview.route_name@);
    }
    push_line(&mut out, first);
    let mut url = to_chars("URL: ");
    push_all(&mut url, &string_chars(&preview.display_url));
    let ghost l2 = url@;
    push_line(&mut out, url);
    let empty: Vec<char> = Vec::new();
    proof {
        assert(empty@ =~= Seq::<char>::empty());
    }
    push_line(&mut out, empty);
    let hdr = to_chars("Headers:");
    let ghost l4 = hdr@;
    push_line(&mut out, hdr);
    proof {
        assert(strings_view(out@) =~= seq![l1, l2, Seq::<char>::empty(), l4]);
    }
    let ghost after_head = strings_view(out@);
    let ghost head = seq![
        left_aligned(method_label(preview.method), 6) + seq![' '] + preview.route_name@,
        "URL: "@ + preview.display_url@,
        Seq::<char>::empty(),
        "Headers:"@,
    ];
    proof {
        assert(after_head =~= head);
    }
    if preview.display_headers.len() == 0 {
        push_line(&mut out, to_chars("  (none)"));
    } else {
        let mut i: usize = 0;
        while i < preview.display_headers.len()
            invariant
                i <= preview.display_headers@.len(),
                strings_view(out@) == after_head + strings_view(preview.display_headers@).take(i as int).map_values(
                    |h: Seq<char>| "  - "@ + h,
                ),
            decreases preview.display_headers.len() - i,
        {
            let mut line = to_chars("  - ");
            push_all(&mut line, &string_chars(&preview.display_headers[i]));
            push_line(&mut out, line);
            proof {
                assert(strings_view(preview.display_headers@).take(i + 1).map_values(|h: Seq<char>| "  - "@ + h)
                    =~= strings_view(preview.display_headers@).take(i as int).map_values(|h: Seq<char>| "  - "@ + h).push(
                    "  - "@ + preview.display_headers@[i as int]@,
                ));
            }
            i += 1;
        }
        proof {
            assert(strings_view(preview.display_headers@).take(i as int) =~= strings_view(preview.display_headers@));
        }
    }
    let ghost after_headers = strings_view(out@);
    let empty2: Vec<char> = Vec::new();
    proof {
        assert(empty2@ =~= Seq::<char>::empty());
    }
    let ghost headers_part = if preview.display_headers@.len() == 0 {
        seq!["  (none)"@]
    } else {
        strings_view(preview.display_headers@).map_values(|h: Seq<char>| "  - "@ + h)
    };
    proof {
        assert(after_headers =~= head + headers_part);
    }
    push_line(&mut out, empty2);
    push_line(&mut out, to_chars("Body (hidden values masked):"));
    let ghost after_body_head = strings_view(out@);
    let mut wrote = false;
    match &preview.display_body {
        Some(b) => {
            let built = build(b.as_str());
            if built.lines.len() > 0 {
                let mut i: usize = 0;
                while i < built.lines.len()
                    invariant
                        i <= built.lines@.len(),
                        strings_view(out@) == after_body_head + preview_texts(preview_lines_view(built.lines@)).take(
                            i as int,
                        ),
                    decreases built.lines.len() - i,
                {
                    let mut line: Vec<char> = Vec::new();
                    let toks = &built.lines[i];
                    let mut j: usize = 0;
                    while j < toks.len()
                        invariant
                            j <= toks@.len(),
                            line@ == joined_text(tokens_view(toks@.take(j as int))),
                        decreases toks.len() - j,
                    {
                        push_all(&mut line, &string_chars(&toks[j].text));
                        proof {
                            assert(tokens_view(toks@.take(j + 1)).drop_last() =~= tokens_view(toks@.take(j as int)));
                        }
                        j += 1;
                    }
                    proof {
                        assert(toks@.take(j as int) =~= toks@);
                    }
                    push_line(&mut out, line);
                    proof {
                        assert(preview_texts(preview_lines_view(built.lines@)).take(i + 1) =~= preview_texts(
                            preview_lines_view(built.lines@),
                        ).take(i as int).push(joined_text(tokens_view(built.lines@[i as int]@))));
                    }
                    i += 1;
                }
                proof {
                    assert(preview_texts(preview_lines_view(built.lines@)).take(i as int) =~= preview_texts(
                        preview_lines_view(built.lines@),
                    ));
                }
                wrote = true;
                proof {
                    assert(preview_lines_view(built.lines@) == preview_of(b@, json_pretty(trim(b@))).0);
                    assert(strings_view(out@) == after_body_head + preview_texts(preview_of(b@, json_pretty(trim(b@))).0));
                }
            } else {
                proof {
                    assert(preview_lines_view(built.lines@) == preview_of(b@, json_pretty(trim(b@))).0);
                    assert(preview_of(b@, json_pretty(trim(b@))).0.len() == 0);
                }
            }
        },
        None => {},
    }
    if !wrote {
        push_line(&mut out, to_chars("  (empty)"));
    }
    proof {
        let body_part = match &preview.display_body {
            Some(b) => {
                let lines = preview_of(b@, json_pretty(trim(b@))).0;
                if lines.len() == 0 {
                    seq!["  (empty)"@]
                } else {
                    preview_texts(lines)
                }
            },
            None => seq!["  (empty)"@],
        };
        assert(after_body_head =~= head + headers_part + seq![Seq::<char>::empty(), "Body (hidden values masked):"@]);
        assert(strings_view(out@) =~= after_body_head + body_part);
        assert(strings_view(out@) =~= preview_page_lines(*preview));
    }
    out
}

} // verus!
