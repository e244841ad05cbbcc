//! Where the tools keep their files, relative to the workspace root: the API
//! tester's data directory, the database viewer's, the workspace `.env`, and
//! the generated docs.

use vstd::prelude::*;
use crate::text::{push_str, string_from_chars, to_chars};

verus! {

/// Directory of the API tester's files.
pub const API_TESTER_DIR: &'static str = ".api-tester";
/// The saved routes.
pub const COLLECTION_FILE: &'static str = "collections.toml";
/// The saved variables.
pub const VARIABLES_FILE: &'static str = "variables.toml";
/// The curl cookie jar.
pub const COOKIE_JAR_FILE: &'static str = "cookies.txt";
/// The remembered route list state.
pub const ROUTE_LIST_STATE_FILE: &'static str = "route-list-state.toml";
/// Directory of the database viewer's files.
pub const DB_VIEWER_DIR: &'static str = ".db-viewer";
/// The database viewer's remembered state.
pub const DB_STATE_FILE: &'static str = "state.toml";
/// The database viewer's query buffer.
pub const DB_QUERY_FILE: &'static str = "query.sql";
/// The workspace environment file.
pub const ENV_FILE: &'static str = ".env";

/// `name` appended to `base` as a further path component
/// (`Path::join` with a relative name on Unix).
pub open spec fn joined(base: Seq<char>, name: Seq<char>) -> Seq<char> {
    if base.len() == 0 {
        name
    } else if base.last() == '/' {
        base + name
    } else {
        base + seq!['/'] + name
    }
}

/// Appends a relative path component to a path.
pub fn join_path(base: &str, name: &str) -> (r: String)
    ensures
        r@ == joined(base@, name@),
{
    let b = to_chars(base);
    let mut out: Vec<char> = Vec::new();
    crate::text::push_all(&mut out, &b);
    if b.len() > 0 && b[b.len() - 1] != '/' {
        out.push('/');
    }
    push_str(&mut out, name);
    proof {
        if base@.len() == 0 {
            assert(out@ =~= name@);
        } else if base@.last() == '/' {
            assert(out@ =~= base@ + name@);
        } else {
            assert(out@ =~= base@ + seq!['/'] + name@);
        }
    }
    string_from_chars(out.as_slice())
}

fn data_file(root: &str, dir: &str, file: &str) -> (r: String)
    ensures
        r@ == joined(joined(root@, dir@), file@),
{
    let d = join_path(root, dir);
    join_path(d.as_str(), file)
}

/// The saved routes of the API tester.
pub fn collection_path(workspace_root: &str) -> (r: String)
    ensures
        r@ == joined(joined(workspace_root@, API_TESTER_DIR@), COLLECTION_FILE@),
{
    data_file(workspace_root, API_TESTER_DIR, COLLECTION_FILE)
}

/// The saved variables of the API tester.
pub fn variables_path(workspace_root: &str) -> (r: String)
    ensures
        r@ == joined(joined(workspace_root@, API_TESTER_DIR@), VARIABLES_FILE@),
{
    data_file(workspace_root, API_TESTER_DIR, VARIABLES_FILE)
}

/// The cookie jar curl reads and writes.
pub fn cookie_jar_path(workspace_root: &str) -> (r: String)
    ensures
        r@ == joined(joined(workspace_root@, API_TESTER_DIR@), COOKIE_JAR_FILE@),
{
    data_file(workspace_root, API_TESTER_DIR, COOKIE_JAR_FILE)
}

/// The remembered route list state.
pub fn route_list_state_path(workspace_root: &str) -> (r: String)
    ensures
        r@ == joined(joined(workspace_root@, API_TESTER_DIR@), ROUTE_LIST_STATE_FILE@),
{
    data_file(workspace_root, API_TESTER_DIR, ROUTE_LIST_STATE_FILE)
}

/// The database viewer's remembered state.
pub fn state_path(workspace_root: &str) -> (r: String)
    ensures
        r@ == joined(joined(workspace_root@, DB_VIEWER_DIR@), DB_STATE_FILE@),
{
    data_file(workspace_root, DB_VIEWER_DIR, DB_STATE_FILE)
}

/// The database viewer's query buffer.
pub fn query_path(workspace_root: &str) -> (r: String)
    ensures
        r@ == joined(joined(workspace_root@, DB_VIEWER_DIR@), DB_QUERY_FILE@),
{
    data_file(workspace_root, DB_VIEWER_DIR, DB_QUERY_FILE)
}

/// The workspace `.env` file.
pub fn workspace_env_path(workspace_root: &str) -> (r: String)
    ensures
        r@ == joined(workspace_root@, ENV_FILE@),
{
    join_path(workspace_root, ENV_FILE)
}

/// The message for a missing required environment variable.
pub open spec fn missing_var_message(name: Seq<char>, env_path: Seq<char>) -> Seq<char> {
    "Missing required environment variable `"@ + name + "`.\nTried process environment and "@
        + env_path + ".\nAdd `"@ + name + "=...` to that .env file or export it before running the command."@
}

/// A required environment variable: its value when it is set and not
/// blank, else the message naming the variable and the `.env` file.
pub fn required_var_value(name: &str, value: Option<&str>, env_path: &str) -> (r: Result<
    String,
    String,
>)
    ensures
        match value {
            Some(v) => crate::text::trim(v@).len() > 0,
            None => false,
        } ==> r is Ok && r->Ok_0@ == value->0@,
        !match value {
            Some(v) => crate::text::trim(v@).len() > 0,
            None => false,
        } ==> r is Err && r->Err_0@ == missing_var_message(name@, env_path@),
{
    match value {
        Some(v) => {
            if !crate::text::str_is_blank(v) {
                return Ok(String::from_str(v));
            }
        },
        None => {},
    }
    let mut out: Vec<char> = Vec::new();
    push_str(&mut out, "Missing required environment variable `");
    push_str(&mut out, name);
    push_str(&mut out, "`.\nTried process environment and ");
    push_str(&mut out, env_path);
    push_str(&mut out, ".\nAdd `");
    push_str(&mut out, name);
    push_str(&mut out, "=...` to that .env file or export it before running the command.");
    proof {
        assert(out@ =~= missing_var_message(name@, env_path@));
    }
    Err(string_from_chars(out.as_slice()))
}

} // verus!
