//! Running a saved route through curl: the curl configuration written for a
//! request, and the parsing of curl's output into a response.

use vstd::prelude::*;
use crate::collection::{method_label, strings_view, Route, RouteView};
use crate::text::{
    lines, lines_exec, parse_u16, parse_u16_chars, push_all, push_str, rsplit_once, rsplit_once_exec,
    starts_with, starts_with_str, string_chars, string_from_chars, to_chars, trim, trim_chars,
    trim_end_char, trim_end_char_exec,
};
use crate::variables::{substitute_spec, Variables, VariablesView};

verus! {

/// A response as curl reported it.
#[derive(Debug, Clone, PartialEq, Eq)]
pub struct CurlResponse {
    /// HTTP status code.
    pub status_code: u16,
    /// Header lines of the final response, without the status line.
    pub headers: Vec<String>,
    /// Response body.
    pub body: String,
}

/// Runs one route: either with its `{{NAME}}` placeholders resolved against
/// the variables, or with values prepared beforehand and sent as they are.
pub struct CurlExecutor {
    route: Route,
    variables: Variables,
    substitute_variables: bool,
}

// ---------------------------------------------------------------------------
// Escaping
// ---------------------------------------------------------------------------

/// How one character is written inside a quoted curl config value.
pub open spec fn escape_char(c: char) -> Seq<char> {
    if c == '\\' {
        seq!['\\', '\\']
    } else if c == '"' {
        seq!['\\', '"']
    } else if c == '\n' {
        seq!['\\', 'n']
    } else if c == '\r' {
        seq!['\\', 'r']
    } else if c == '\t' {
        seq!['\\', 't']
    } else {
        seq![c]
    }
}

/// A value escaped for a quoted curl config entry: backslash, quote,
/// newline, carriage return and tab become backslash escapes.
pub open spec fn escape_config(s: Seq<char>) -> Seq<char>
    decreases s.len(),
{
    if s.len() == 0 {
        seq![]
    } else {
        escape_config(s.drop_last()) + escape_char(s.last())
    }
}

fn push_escaped(out: &mut Vec<char>, s: &Vec<char>)
    ensures
        final(out)@ == old(out)@ + escape_config(s@),
{
    let ghost start = out@;
    let mut i: usize = 0;
    proof {
        assert(s@.take(0) =~= Seq::<char>::empty());
        assert(start + escape_config(Seq::<char>::empty()) =~= start);
    }
    while i < s.len()
        invariant
            i <= s.len(),
            out@ == start + escape_config(s@.take(i as int)),
        decreases s.len() - i,
    {
        let c = s[i];
        if c == '\\' {
            out.push('\\');
            out.push('\\');
        } else if c == '"' {
            out.push('\\');
            out.push('"');
        } else if c == '\n' {
            out.push('\\');
            out.push('n');
        } else if c == '\r' {
            out.push('\\');
            out.push('r');
        } else if c == '\t' {
            out.push('\\');
            out.push('t');
        } else {
            out.push(c);
        }
        proof {
            assert(s@.take(i + 1).drop_last() =~= s@.take(i as int));
            assert(out@ =~= start + escape_config(s@.take(i + 1)));
        }
        i += 1;
    }
    proof {
        assert(s@.take(s@.len() as int) =~= s@);
    }
}

/// Escapes a value for a quoted curl config entry.
pub fn escape_curl_config_value(value: &str) -> (r: String)
    ensures
        r@ == escape_config(value@),
{
    let v = to_chars(value);
    let mut out: Vec<char> = Vec::new();
    push_escaped(&mut out, &v);
    proof {
        assert(Seq::<char>::empty() + escape_config(value@) =~= escape_config(value@));
    }
    string_from_chars(out.as_slice())
}

// ---------------------------------------------------------------------------
// The configuration
// ---------------------------------------------------------------------------

/// One `key = "escaped value"` line.
pub open spec fn config_entry(key: Seq<char>, value: Seq<char>) -> Seq<char> {
    key + seq![' ', '=', ' ', '"'] + escape_config(value) + seq!['"', '\n']
}

/// The text sent for a template: resolved against the variables, or as is.
pub open spec fn request_value(vars: VariablesView, substitute: bool, template: Seq<char>) -> Seq<char> {
    if substitute {
        substitute_spec(vars, template, None, false)
    } else {
        template
    }
}

/// The header entries, one per header template.
pub open spec fn header_entries(
    vars: VariablesView,
    substitute: bool,
    headers: Seq<Seq<char>>,
) -> Seq<char>
    decreases headers.len(),
{
    if headers.len() == 0 {
        seq![]
    } else {
        header_entries(vars, substitute, headers.drop_last()) + config_entry(
            "header"@,
            request_value(vars, substitute, headers.last()),
        )
    }
}

/// The data entry: present when there is a body whose sent text is not empty.
pub open spec fn data_entry(vars: VariablesView, substitute: bool, body: Option<Seq<char>>) -> Seq<
    char,
> {
    match body {
        Some(b) => if request_value(vars, substitute, b).len() > 0 {
            config_entry("data"@, request_value(vars, substitute, b))
        } else {
            seq![]
        },
        None => seq![],
    }
}

/// The curl configuration for a route: silent mode, the method, the
/// headers, the body, the cookie file read and written, headers dumped to
/// standard output, the status code written last, and the URL.
pub open spec fn curl_config(
    route: RouteView,
    vars: VariablesView,
    substitute: bool,
    cookie: Seq<char>,
) -> Seq<char> {
    "silent\n"@ + "request = \""@ + method_label(route.method) + "\"\n"@ + header_entries(
        vars,
        substitute,
        route.headers,
    ) + data_entry(vars, substitute, route.body) + config_entry("cookie"@, cookie) + config_entry(
        "cookie-jar"@,
        cookie,
    ) + "dump-header = \"-\"\n"@ + "write-out = \"\\n%{http_code}\"\n"@ + config_entry(
        "url"@,
        request_value(vars, substitute, route.url),
    )
}

fn push_entry(out: &mut Vec<char>, key: &str, value: &Vec<char>)
    ensures
        final(out)@ == old(out)@ + config_entry(key@, value@),
{
    push_str(out, key);
    push_str(out, " = \"");
    push_escaped(out, value);
    push_str(out, "\"\n");
    proof {
        reveal_strlit(" = \"");
        reveal_strlit("\"\n");
        assert(final(out)@ =~= old(out)@ + config_entry(key@, value@));
    }
}

impl CurlExecutor {
    /// The route that is run.
    pub closed spec fn route(&self) -> Route {
        self.route
    }

    /// The variables placeholders are resolved against.
    pub closed spec fn variables(&self) -> Variables {
        self.variables
    }

    /// Whether placeholders are resolved before sending.
    pub closed spec fn substitutes(&self) -> bool {
        self.substitute_variables
    }

    /// The executor's variables are well formed.
    pub closed spec fn wf(&self) -> bool {
        self.variables.wf()
    }

    /// An executor that resolves the route's placeholders against the
    /// variables.
    pub fn new(route: Route, variables: Variables) -> (r: CurlExecutor)
        requires
            variables.wf(),
        ensures
            r.wf(),
            r.route() == route,
            r.variables() == variables,
            r.substitutes(),
    {
        CurlExecutor { route, variables, substitute_variables: true }
    }

    /// An executor that sends the route's values as they are.
    pub fn from_prepared(route: Route) -> (r: CurlExecutor)
        ensures
            r.wf(),
            r.route() == route,
            r.variables()@.global == Map::<Seq<char>, crate::variables::VarEntry>::empty(),
            r.variables()@.scoped == Map::<
                Seq<char>,
                Map<Seq<char>, crate::variables::VarEntry>,
            >::empty(),
            !r.substitutes(),
    {
        CurlExecutor { route, variables: Variables::new(), substitute_variables: false }
    }

    /// The text sent for a template.
    pub fn value_for_request(&self, template: &str) -> (r: String)
        requires
            self.wf(),
        ensures
            r@ == request_value(self.variables()@, self.substitutes(), template@),
    {
        if self.substitute_variables {
            self.variables.substitute(template)
        } else {
            String::from_str(template)
        }
    }

    /// The curl configuration for the route, with `cookie_path` as the
    /// cookie file.
    pub fn curl_config_text(&self, cookie_path: &str) -> (r: String)
        requires
            self.wf(),
        ensures
            r@ == curl_config(self.route()@, self.variables()@, self.substitutes(), cookie_path@),
    {
        let ghost vars = self.variables()@;
        let ghost sub = self.substitutes();
        let mut out: Vec<char> = Vec::new();
        push_str(&mut out, "silent\n");
        push_str(&mut out, "request = \"");
        let label = self.route.method.label();
        push_str(&mut out, label.as_str());
        push_str(&mut out, "\"\n");
        let ghost head = out@;
        let mut i: usize = 0;
        while i < self.route.headers.len()
            invariant
                i <= self.route.headers.len(),
                self.wf(),
                vars == self.variables()@,
                sub == self.substitutes(),
                out@ == head + header_entries(
                    vars,
                    sub,
                    strings_view(self.route.headers@).take(i as int),
                ),
            decreases self.route.headers.len() - i,
        {
            let value = self.value_for_request(self.route.headers[i].as_str());
            let vc = string_chars(&value);
            push_entry(&mut out, "header", &vc);
            proof {
                reveal_strlit("header");
                let hv = strings_view(self.route.headers@);
                assert(hv.take(i + 1).drop_last() =~= hv.take(i as int));
                assert(hv.take(i + 1).last() == self.route.headers@[i as int]@);
                assert(out@ =~= head + header_entries(vars, sub, hv.take(i + 1)));
            }
            i += 1;
        }
        proof {
            assert(strings_view(self.route.headers@).take(self.route.headers.len() as int)
                =~= strings_view(self.route.headers@));
        }
        match &self.route.body {
            Some(b) => {
                let value = self.value_for_request(b.as_str());
                let vc = string_chars(&value);
                if vc.len() > 0 {
                    push_entry(&mut out, "data", &vc);
                    proof {
                        reveal_strlit("data");
                    }
                }
            },
            None => {},
        }
        let cookie = to_chars(cookie_path);
        push_entry(&mut out, "cookie", &cookie);
        push_entry(&mut out, "cookie-jar", &cookie);
        push_str(&mut out, "dump-header = \"-\"\n");
        push_str(&mut out, "write-out = \"\\n%{http_code}\"\n");
        let url = self.value_for_request(self.route.url.as_str());
        let uc = string_chars(&url);
        push_entry(&mut out, "url", &uc);
        proof {
            reveal_strlit("cookie");
            reveal_strlit("cookie-jar");
            reveal_strlit("url");
            assert(out@ =~= curl_config(self.route()@, vars, sub, cookie_path@));
        }
        string_from_chars(out.as_slice())
    }
}

// ---------------------------------------------------------------------------
// Parsing curl's output
// ---------------------------------------------------------------------------

/// `\r\n\r\n`, the end of a header block.
pub open spec fn crlf_blank() -> Seq<char> {
    seq!['\r', '\n', '\r', '\n']
}

/// `\n\n`, the end of a header block without carriage returns.
pub open spec fn lf_blank() -> Seq<char> {
    seq!['\n', '\n']
}

/// The headers and the body of a response dump, split at the last blank
/// line; without one, no headers and all body.
pub open spec fn split_headers_body(raw: Seq<char>) -> (Seq<char>, Seq<char>) {
    match rsplit_once(raw, crlf_blank()) {
        Some(p) => p,
        None => match rsplit_once(raw, lf_blank()) {
            Some(p) => p,
            None => (seq![], raw),
        },
    }
}

/// The last header block of a dump that may hold several (after redirects).
pub open spec fn last_block(headers: Seq<char>) -> Seq<char> {
    match rsplit_once(headers, crlf_blank()) {
        Some(p) => p.1,
        None => match rsplit_once(headers, lf_blank()) {
            Some(p) => p.1,
            None => headers,
        },
    }
}

/// The header lines kept from the lines of a block: trailing carriage
/// returns removed, empty lines and status lines (`HTTP/...`) dropped.
pub open spec fn kept_header_lines(ls: Seq<Seq<char>>) -> Seq<Seq<char>>
    decreases ls.len(),
{
    if ls.len() == 0 {
        seq![]
    } else {
        let l = trim_end_char(ls.last(), '\r');
        let rest = kept_header_lines(ls.drop_last());
        if l.len() > 0 && !starts_with(l, "HTTP/"@) {
            rest.push(l)
        } else {
            rest
        }
    }
}

/// The abstract content of a response.
pub struct ResponseView {
    pub status_code: u16,
    pub headers: Seq<Seq<char>>,
    pub body: Seq<char>,
}

impl View for CurlResponse {
    type V = ResponseView;

    open spec fn view(&self) -> ResponseView {
        ResponseView {
            status_code: self.status_code,
            headers: strings_view(self.headers@),
            body: self.body@,
        }
    }
}

/// Why curl's output could not be read.
#[derive(Debug, Clone, Copy, PartialEq, Eq, Structural)]
pub enum ParseFailure {
    /// No line holds the status code after the response.
    MissingStatus,
    /// The last line is not a status code.
    BadStatus,
}

/// What curl's output holds: the response dump, then on its own line the
/// status code that `write-out` printed.
pub open spec fn parse_curl_output(raw: Seq<char>) -> Result<ResponseView, ParseFailure> {
    let r = trim_end_char(raw, '\n');
    match rsplit_once(r, seq!['\n']) {
        None => Err(ParseFailure::MissingStatus),
        Some((resp, status_line)) => match parse_u16(trim(status_line)) {
            None => Err(ParseFailure::BadStatus),
            Some(code) => {
                let (all_headers, body) = split_headers_body(resp);
                Ok(
                    ResponseView {
                        status_code: code,
                        headers: kept_header_lines(lines(last_block(all_headers))),
                        body,
                    },
                )
            },
        },
    }
}

/// The message of a parse failure.
pub open spec fn parse_failure_message(f: ParseFailure) -> Seq<char> {
    match f {
        ParseFailure::MissingStatus => "missing HTTP status suffix from curl output"@,
        ParseFailure::BadStatus => "failed to parse HTTP status code"@,
    }
}

fn crlf_blank_chars() -> (v: Vec<char>)
    ensures
        v@ == crlf_blank(),
{
    let v = vec!['\r', '\n', '\r', '\n'];
    proof {
        assert(v@ =~= crlf_blank());
    }
    v
}

fn lf_blank_chars() -> (v: Vec<char>)
    ensures
        v@ == lf_blank(),
{
    let v = vec!['\n', '\n'];
    proof {
        assert(v@ =~= lf_blank());
    }
    v
}

/// Splits a response dump into its headers and body at the last blank line.
pub fn split_headers_and_body(raw: &Vec<char>) -> (r: (Vec<char>, Vec<char>))
    ensures
        (r.0@, r.1@) == split_headers_body(raw@),
{
    let crlf = crlf_blank_chars();
    if let Some(p) = rsplit_once_exec(raw, &crlf) {
        return p;
    }
    let lf = lf_blank_chars();
    if let Some(p) = rsplit_once_exec(raw, &lf) {
        return p;
    }
    (Vec::new(), crate::text::copy_chars(raw))
}

/// The last header block of a header dump.
pub fn last_header_block(headers: &Vec<char>) -> (r: Vec<char>)
    ensures
        r@ == last_block(headers@),
{
    let crlf = crlf_blank_chars();
    if let Some(p) = rsplit_once_exec(headers, &crlf) {
        return p.1;
    }
    let lf = lf_blank_chars();
    if let Some(p) = rsplit_once_exec(headers, &lf) {
        return p.1;
    }
    crate::text::copy_chars(headers)
}

fn header_lines_of(block: &Vec<char>) -> (r: Vec<String>)
    ensures
        strings_view(r@) == kept_header_lines(lines(block@)),
{
    let ls = lines_exec(block);
    let ghost lv = lines(block@);
    let mut out: Vec<String> = Vec::new();
    let mut i: usize = 0;
    while i < ls.len()
        invariant
            i <= ls.len(),
            ls@.len() == lv.len(),
            lv == lines(block@),
            forall|k: int| 0 <= k < ls@.len() ==> #[trigger] ls@[k]@ == lv[k],
            strings_view(out@) == kept_header_lines(lv.take(i as int)),
        decreases ls.len() - i,
    {
        let l = trim_end_char_exec(&ls[i], '\r');
        proof {
            assert(lv.take(i + 1).drop_last() =~= lv.take(i as int));
            assert(lv.take(i + 1).last() == ls@[i as int]@);
        }
        if l.len() > 0 && !starts_with_str(&l, "HTTP/") {
            let ghost before = out@;
            out.push(string_from_chars(l.as_slice()));
            proof {
                assert(strings_view(out@) =~= strings_view(before).push(l@));
            }
        }
        i += 1;
    }
    proof {
        assert(lv.take(ls.len() as int) =~= lv);
    }
    out
}

/// Parses curl's output into a response.
pub fn parse_response(raw: &str) -> (r: Result<CurlResponse, String>)
    ensures
        match parse_curl_output(raw@) {
            Ok(v) => r is Ok && r->Ok_0@ == v,
            Err(f) => r is Err && r->Err_0@ == parse_failure_message(f),
        },
{
    let rv = to_chars(raw);
    let trimmed = trim_end_char_exec(&rv, '\n');
    let nl = vec!['\n'];
    proof {
        assert(nl@ =~= seq!['\n']);
    }
    match rsplit_once_exec(&trimmed, &nl) {
        None => {
            let msg = String::from_str("missing HTTP status suffix from curl output");
            Err(msg)
        },
        Some((resp, status_line)) => {
            let st = trim_chars(&status_line);
            match parse_u16_chars(&st) {
                None => {
                    let msg = String::from_str("failed to parse HTTP status code");
                    Err(msg)
                },
                Some(code) => {
                    let (all_headers, body) = split_headers_and_body(&resp);
                    let block = last_header_block(&all_headers);
                    let headers = header_lines_of(&block);
                    Ok(CurlResponse { status_code: code, headers, body: string_from_chars(body.as_slice()) })
                },
            }
        },
    }
}

/// The header entry sent for one header template.
pub open spec fn header_line(vars: VariablesView, substitute: bool, header: Seq<char>) -> Seq<char> {
    config_entry("header"@, request_value(vars, substitute, header))
}

proof fn lemma_header_entries_flatten(vars: VariablesView, substitute: bool, headers: Seq<Seq<char>>)
    ensures
        header_entries(vars, substitute, headers) == headers.map_values(
            |h: Seq<char>| header_line(vars, substitute, h),
        ).flatten(),
    decreases headers.len(),
{
    if headers.len() > 0 {
        lemma_header_entries_flatten(vars, substitute, headers.drop_last());
        let f = |h: Seq<char>| header_line(vars, substitute, h);
        assert(headers.map_values(f) =~= headers.drop_last().map_values(f).push(f(headers.last())));
        headers.drop_last().map_values(f).lemma_flatten_push(f(headers.last()));
    }
}

/// Every header of a route is sent, once and in order: the configuration
/// is that of the same route without headers, with one `header = "..."`
/// entry per header template inserted right after the request line.
pub proof fn law_config_sends_every_header_in_order(
    route: RouteView,
    vars: VariablesView,
    substitute: bool,
    cookie: Seq<char>,
)
    ensures
        ({
            let base = curl_config(RouteView { headers: seq![], ..route }, vars, substitute, cookie);
            let k = ("silent\n"@ + "request = \""@ + method_label(route.method) + "\"\n"@).len() as int;
            curl_config(route, vars, substitute, cookie) == base.take(k) + route.headers.map_values(
                |h: Seq<char>| header_line(vars, substitute, h),
            ).flatten() + base.skip(k)
        }),
{
    lemma_header_entries_flatten(vars, substitute, route.headers);
    let head = "silent\n"@ + "request = \""@ + method_label(route.method) + "\"\n"@;
    let k = head.len() as int;
    let rest = data_entry(vars, substitute, route.body) + config_entry("cookie"@, cookie) + config_entry(
        "cookie-jar"@,
        cookie,
    ) + "dump-header = \"-\"\n"@ + "write-out = \"\\n%{http_code}\"\n"@ + config_entry(
        "url"@,
        request_value(vars, substitute, route.url),
    );
    let base = curl_config(RouteView { headers: seq![], ..route }, vars, substitute, cookie);
    assert(header_entries(vars, substitute, Seq::<Seq<char>>::empty()) =~= Seq::<char>::empty());
    assert(base =~= head + rest);
    assert(base.take(k) =~= head);
    assert(base.skip(k) =~= rest);
    let h = header_entries(vars, substitute, route.headers);
    assert(curl_config(route, vars, substitute, cookie) =~= head + h + rest);
}

} // verus!
