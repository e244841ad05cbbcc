//! The `setup` command's handling of `.env.example` templates: which keys
//! need a value from the user, how a value is asked for or generated, and
//! how the `.env` file is rendered from the template.

use vstd::prelude::*;
use rand::Rng;
use crate::table::{sorted_table, table_find, table_map};
use crate::text::{
    ascii_lowercase, ascii_lowercase_chars, chars_equal_str, contains, contains_char, contains_str,
    is_blank, lines, lines_exec, push_all, push_str, slice_chars, split_once, split_once_exec,
    string_chars, string_from_chars, to_chars, trim, trim_chars,
};

verus! {

/// Options of the `setup` command.
#[derive(Debug, Clone, Copy)]
pub struct SetupOptions {
    /// Never prompt; fail where a value would be asked for.
    pub non_interactive: bool,
    /// Do not start the database.
    pub skip_db: bool,
    /// Do not run migrations.
    pub skip_migrate: bool,
    /// Do not build the workspace.
    pub skip_build: bool,
    /// Only report what would be done.
    pub dry_run: bool,
    /// Build in release mode.
    pub release: bool,
}

/// What the setup run did, for its final report.
pub struct SetupSummary {
    /// `.env` files written.
    pub env_created: Vec<String>,
    /// `.env` files left as they were because they already existed.
    pub env_skipped: Vec<String>,
    /// Warnings about written files.
    pub env_warnings: Vec<String>,
    /// The database was started.
    pub db_started: bool,
    /// Migrations ran.
    pub migrations_ran: bool,
    /// The workspace was built.
    pub build_ran: bool,
}

impl SetupSummary {
    /// A summary of a run that has done nothing yet.
    pub fn new() -> (s: SetupSummary)
        ensures
            s.env_created@.len() == 0,
            s.env_skipped@.len() == 0,
            s.env_warnings@.len() == 0,
            !s.db_started,
            !s.migrations_ran,
            !s.build_ran,
    {
        SetupSummary {
            env_created: Vec::new(),
            env_skipped: Vec::new(),
            env_warnings: Vec::new(),
            db_started: false,
            migrations_ran: false,
            build_ran: false,
        }
    }
}

/// The key whose value is generated when none is given.
pub open spec fn jwt_secret_key() -> Seq<char> {
    "JWT_SECRET"@
}

/// A value trimmed, without one pair of surrounding double quotes.
pub open spec fn normalized_value(v: Seq<char>) -> Seq<char> {
    let t = trim(v);
    if t.len() >= 2 && t[0] == '"' && t.last() == '"' {
        t.subrange(1, t.len() - 1)
    } else {
        t
    }
}

/// A value that still holds template filler.
pub open spec fn has_filler(v: Seq<char>) -> bool {
    contains(v, "your_"@) || contains(v, "example.com"@) || contains(v, "yourdomain"@) || contains(
        v,
        "re_your"@,
    )
}

/// Whether a template entry needs a value from the user.
pub open spec fn needs_value(key: Seq<char>, raw: Seq<char>) -> bool {
    key == jwt_secret_key() || has_filler(normalized_value(raw))
}

/// A key whose value is secret and read without echo.
pub open spec fn secret_key(key: Seq<char>) -> bool {
    contains(key, "SECRET"@) || contains(key, "PASSWORD"@) || contains(key, "API_KEY"@)
}

/// A value as written to the file: quoted when it holds a space.
pub open spec fn formatted_value(v: Seq<char>) -> Seq<char> {
    if v.contains(' ') {
        seq!['"'] + v + seq!['"']
    } else {
        v
    }
}

/// Trims a value and removes one pair of surrounding double quotes.
pub fn normalize_value(value: &str) -> (r: String)
    ensures
        r@ == normalized_value(value@),
{
    let v = to_chars(value);
    let t = trim_chars(&v);
    if t.len() >= 2 && t[0] == '"' && t[t.len() - 1] == '"' {
        let inner = slice_chars(&t, 1, t.len() - 1);
        string_from_chars(inner.as_slice())
    } else {
        string_from_chars(t.as_slice())
    }
}

fn has_filler_exec(v: &Vec<char>) -> (b: bool)
    ensures
        b == has_filler(v@),
{
    contains_str(v, "your_") || contains_str(v, "example.com") || contains_str(v, "yourdomain")
        || contains_str(v, "re_your")
}

/// Whether a template entry needs a value from the user: the JWT secret
/// always does, other keys when their value still holds template filler.
pub fn needs_user_value(key: &str, raw_value: &str) -> (b: bool)
    ensures
        b == needs_value(key@, raw_value@),
{
    let k = to_chars(key);
    let v = normalize_value(raw_value);
    let vc = string_chars(&v);
    chars_equal_str(&k, "JWT_SECRET") || has_filler_exec(&vc)
}

/// Whether a key names a secret.
pub fn is_secret_key(key: &str) -> (b: bool)
    ensures
        b == secret_key(key@),
{
    let k = to_chars(key);
    contains_str(&k, "SECRET") || contains_str(&k, "PASSWORD") || contains_str(&k, "API_KEY")
}

/// Formats a value for the file, quoting it when it holds a space.
pub fn format_env_value(value: &str) -> (r: String)
    ensures
        r@ == formatted_value(value@),
{
    let v = to_chars(value);
    let mut has_space = false;
    let mut i: usize = 0;
    while i < v.len()
        invariant
            i <= v.len(),
            has_space == exists|k: int| 0 <= k < i && v@[k] == ' ',
        decreases v.len() - i,
    {
        if v[i] == ' ' {
            has_space = true;
        }
        i += 1;
    }
    proof {
        if has_space {
            let k = choose|k: int| 0 <= k < v@.len() && v@[k] == ' ';
            assert(v@.contains(' '));
        }
        if v@.contains(' ') {
            let k = choose|k: int| 0 <= k < v@.len() && v@[k] == ' ';
            assert(has_space);
        }
    }
    if has_space {
        let mut out: Vec<char> = Vec::new();
        out.push('"');
        push_all(&mut out, &v);
        out.push('"');
        proof {
            assert(out@ =~= seq!['"'] + value@ + seq!['"']);
        }
        string_from_chars(out.as_slice())
    } else {
        String::from_str(value)
    }
}

// ---------------------------------------------------------------------------
// Templates
// ---------------------------------------------------------------------------

/// The key and raw value of a template line, unless it is blank, a comment
/// or has no `=`.
pub open spec fn env_entry(line: Seq<char>) -> Option<(Seq<char>, Seq<char>)> {
    let t = trim(line);
    if t.len() == 0 || t[0] == '#' {
        None
    } else {
        match split_once(t, '=') {
            Some((k, v)) => Some((trim(k), trim(v))),
            None => None,
        }
    }
}

/// The entries of the lines that need a value: each key with its suggested
/// (normalized) value, in line order.
pub open spec fn entries_needing_values(ls: Seq<Seq<char>>) -> Seq<(Seq<char>, Seq<char>)>
    decreases ls.len(),
{
    if ls.len() == 0 {
        seq![]
    } else {
        let rest = entries_needing_values(ls.drop_last());
        match env_entry(ls.last()) {
            Some((k, raw)) => if needs_value(k, raw) {
                rest.push((k, normalized_value(raw)))
            } else {
                rest
            },
            None => rest,
        }
    }
}

/// The key and value text of each pair.
pub open spec fn pairs_view(v: Seq<(String, String)>) -> Seq<(Seq<char>, Seq<char>)> {
    v.map_values(|p: (String, String)| (p.0@, p.1@))
}

fn env_entry_exec(line: &Vec<char>) -> (r: Option<(Vec<char>, Vec<char>)>)
    ensures
        match r {
            Some(p) => env_entry(line@) == Some((p.0@, p.1@)),
            None => env_entry(line@) is None,
        },
{
    let t = trim_chars(line);
    if t.len() == 0 || t[0] == '#' {
        return None;
    }
    match split_once_exec(&t, '=') {
        Some((k, v)) => Some((trim_chars(&k), trim_chars(&v))),
        None => None,
    }
}

/// The keys of a template that need a value, each with the value the
/// template suggests, in line order.
pub fn env_keys_needing_values(template_text: &str) -> (r: Vec<(String, String)>)
    ensures
        pairs_view(r@) == entries_needing_values(lines(template_text@)),
{
    let t = to_chars(template_text);
    let ls = lines_exec(&t);
    let ghost lv = lines(t@);
    let mut out: Vec<(String, String)> = Vec::new();
    let mut i: usize = 0;
    while i < ls.len()
        invariant
            i <= ls.len(),
            lv == lines(t@),
            ls@.len() == lv.len(),
            forall|k: int| 0 <= k < ls@.len() ==> #[trigger] ls@[k]@ == lv[k],
            pairs_view(out@) == entries_needing_values(lv.take(i as int)),
        decreases ls.len() - i,
    {
        proof {
            assert(lv.take(i + 1).drop_last() =~= lv.take(i as int));
            assert(lv.take(i + 1).last() == ls@[i as int]@);
        }
        match env_entry_exec(&ls[i]) {
            Some((k, raw)) => {
                let ks = string_from_chars(k.as_slice());
                let raws = string_from_chars(raw.as_slice());
                if needs_user_value(ks.as_str(), raws.as_str()) {
                    let suggested = normalize_value(raws.as_str());
                    let ghost before = out@;
                    out.push((ks, suggested));
                    proof {
                        assert(pairs_view(out@) =~= pairs_view(before).push(
                            (k@, normalized_value(raw@)),
                        ));
                    }
                }
            },
            None => {},
        }
        i += 1;
    }
    proof {
        assert(lv.take(ls.len() as int) =~= lv);
    }
    out
}

/// A template line as written to the `.env` file: an entry whose key has a
/// chosen value becomes `KEY=value`; any other line is copied.
pub open spec fn rendered_line(line: Seq<char>, values: Map<Seq<char>, Seq<char>>) -> Seq<char> {
    match split_once(trim(line), '=') {
        Some((k, v)) => if values.contains_key(trim(k)) {
            trim(k) + seq!['='] + values[trim(k)] + seq!['\n']
        } else {
            line + seq!['\n']
        },
        None => line + seq!['\n'],
    }
}

/// The rendered lines, each ended by a newline.
pub open spec fn rendered_lines(ls: Seq<Seq<char>>, values: Map<Seq<char>, Seq<char>>) -> Seq<char>
    decreases ls.len(),
{
    if ls.len() == 0 {
        seq![]
    } else {
        rendered_lines(ls.drop_last(), values) + rendered_line(ls.last(), values)
    }
}

/// The chosen values as a map from key to value text.
pub open spec fn values_map(values: Seq<(String, String)>) -> Map<Seq<char>, Seq<char>> {
    table_map(values).map_values(|s: String| s@)
}

/// Renders the `.env` file from its template with the chosen values, kept
/// in a table sorted by key.
pub fn render_env_with_values(template_text: &str, values: &Vec<(String, String)>) -> (r: String)
    requires
        sorted_table(values@),
    ensures
        r@ == rendered_lines(lines(template_text@), values_map(values@)),
{
    let t = to_chars(template_text);
    let ls = lines_exec(&t);
    let ghost lv = lines(t@);
    let ghost m = values_map(values@);
    let mut out: Vec<char> = Vec::new();
    let mut i: usize = 0;
    while i < ls.len()
        invariant
            i <= ls.len(),
            sorted_table(values@),
            m == values_map(values@),
            lv == lines(t@),
            ls@.len() == lv.len(),
            forall|k: int| 0 <= k < ls@.len() ==> #[trigger] ls@[k]@ == lv[k],
            out@ == rendered_lines(lv.take(i as int), m),
        decreases ls.len() - i,
    {
        proof {
            assert(lv.take(i + 1).drop_last() =~= lv.take(i as int));
            assert(lv.take(i + 1).last() == ls@[i as int]@);
        }
        let line = &ls[i];
        let trimmed = trim_chars(line);
        let mut done = false;
        match split_once_exec(&trimmed, '=') {
            Some((k, _)) => {
                let ck = trim_chars(&k);
                match table_find(values, &ck) {
                    Some(j) => {
                        push_all(&mut out, &ck);
                        out.push('=');
                        let vc = string_chars(&values[j].1);
                        push_all(&mut out, &vc);
                        out.push('\n');
                        done = true;
                    },
                    None => {},
                }
            },
            None => {},
        }
        if !done {
            push_all(&mut out, line);
            out.push('\n');
        }
        i += 1;
    }
    proof {
        assert(lv.take(ls.len() as int) =~= lv);
    }
    string_from_chars(out.as_slice())
}

/// A line whose value, lowercased, still holds template filler.
pub open spec fn placeholder_line(line: Seq<char>) -> bool {
    match env_entry(line) {
        Some((k, v)) => has_filler(ascii_lowercase(normalized_value(v))),
        None => false,
    }
}

/// Whether some line of a rendered file still holds template filler.
pub fn contains_placeholder_values(text: &str) -> (b: bool)
    ensures
        b == exists|i: int| 0 <= i < lines(text@).len() && placeholder_line(#[trigger] lines(text@)[i]),
{
    let t = to_chars(text);
    let ls = lines_exec(&t);
    let mut i: usize = 0;
    while i < ls.len()
        invariant
            i <= ls.len(),
            ls@.len() == lines(text@).len(),
            t@ == text@,
            forall|k: int| 0 <= k < ls@.len() ==> #[trigger] ls@[k]@ == lines(text@)[k],
            forall|k: int| 0 <= k < i ==> !placeholder_line(#[trigger] lines(text@)[k]),
        decreases ls.len() - i,
    {
        match env_entry_exec(&ls[i]) {
            Some((_, v)) => {
                let vs = string_from_chars(v.as_slice());
                let n = normalize_value(vs.as_str());
                let nc = string_chars(&n);
                let lower = ascii_lowercase_chars(&nc);
                if has_filler_exec(&lower) {
                    proof {
                        assert(placeholder_line(lines(text@)[i as int]));
                    }
                    return true;
                }
            },
            None => {},
        }
        i += 1;
    }
    false
}

// ---------------------------------------------------------------------------
// Choosing values
// ---------------------------------------------------------------------------

/// How a value that a template needs is obtained.
#[derive(Debug, Clone, PartialEq, Eq)]
pub enum ValueChoice {
    /// Write this value.
    Use(String),
    /// Write a freshly generated secret.
    Generate,
    /// Ask the user, without echo when `secret`.
    Prompt {
        /// The value is secret.
        secret: bool,
    },
    /// Stop setup with this message.
    Refuse(String),
}

/// The refusal of a needed value in non-interactive mode.
pub open spec fn missing_value_message(key: Seq<char>, path: Seq<char>) -> Seq<char> {
    "Missing required value for "@ + key + " in "@ + path + " while in --non-interactive mode"@
}

/// The refusal of an empty answer.
pub open spec fn empty_value_message(key: Seq<char>) -> Seq<char> {
    "Value for "@ + key + " cannot be empty"@
}

/// How a needed value is obtained before any prompt: a dry run writes the
/// suggestion; non-interactive mode generates the JWT secret and refuses
/// every other key; otherwise the user is asked.
pub fn choose_value(key: &str, suggested: &str, template_path: &str, options: &SetupOptions) -> (r:
    ValueChoice)
    ensures
        options.dry_run ==> (r matches ValueChoice::Use(v) && v@ == formatted_value(suggested@)),
        !options.dry_run && options.non_interactive ==> if key@ == jwt_secret_key() {
            r == ValueChoice::Generate
        } else {
            (r matches ValueChoice::Refuse(m) && m@ == missing_value_message(key@, template_path@))
        },
        !options.dry_run && !options.non_interactive ==> r == (ValueChoice::Prompt {
            secret: secret_key(key@),
        }),
{
    if options.dry_run {
        return ValueChoice::Use(format_env_value(suggested));
    }
    let k = to_chars(key);
    if options.non_interactive {
        if chars_equal_str(&k, "JWT_SECRET") {
            return ValueChoice::Generate;
        }
        let mut m: Vec<char> = Vec::new();
        push_str(&mut m, "Missing required value for ");
        push_str(&mut m, key);
        push_str(&mut m, " in ");
        push_str(&mut m, template_path);
        push_str(&mut m, " while in --non-interactive mode");
        proof {
            assert(m@ =~= missing_value_message(key@, template_path@));
        }
        return ValueChoice::Refuse(string_from_chars(m.as_slice()));
    }
    ValueChoice::Prompt { secret: is_secret_key(key) }
}

/// What an answer to a prompt gives: a blank answer for the JWT secret
/// asks for a generated one, another blank answer is refused, and any other
/// answer is written, quoted if it holds a space.
pub fn accept_answer(key: &str, input: &str) -> (r: ValueChoice)
    ensures
        key@ == jwt_secret_key() && trim(input@).len() == 0 ==> r == ValueChoice::Generate,
        key@ != jwt_secret_key() && trim(input@).len() == 0 ==> (r matches ValueChoice::Refuse(m)
            && m@ == empty_value_message(key@)),
        trim(input@).len() > 0 ==> (r matches ValueChoice::Use(v) && v@ == formatted_value(input@)),
{
    let k = to_chars(key);
    let iv = to_chars(input);
    let blank = is_blank(&iv);
    if chars_equal_str(&k, "JWT_SECRET") && blank {
        return ValueChoice::Generate;
    }
    if blank {
        let mut m: Vec<char> = Vec::new();
        push_str(&mut m, "Value for ");
        push_str(&mut m, key);
        push_str(&mut m, " cannot be empty");
        proof {
            assert(m@ =~= empty_value_message(key@));
        }
        return ValueChoice::Refuse(string_from_chars(m.as_slice()));
    }
    ValueChoice::Use(format_env_value(input))
}

/// An ASCII letter or digit.
pub open spec fn is_ascii_alphanumeric(c: char) -> bool {
    ('a' <= c && c <= 'z') || ('A' <= c && c <= 'Z') || ('0' <= c && c <= '9')
}

/// One character drawn from the thread-local generator with rand's
/// `Alphanumeric` distribution, which yields only ASCII letters and digits.
#[verifier::external_body]
fn random_alphanumeric() -> (c: char)
    ensures
        is_ascii_alphanumeric(c),
{
    rand::rng().sample(rand::distr::Alphanumeric) as char
}

/// A random secret of 64 ASCII letters and digits.
pub fn generate_jwt_secret() -> (r: String)
    ensures
        r@.len() == 64,
        forall|i: int| 0 <= i < 64 ==> is_ascii_alphanumeric(#[trigger] r@[i]),
{
    let mut v: Vec<char> = Vec::new();
    let mut i: usize = 0;
    while i < 64
        invariant
            i <= 64,
            v@.len() == i,
            forall|k: int| 0 <= k < i ==> is_ascii_alphanumeric(#[trigger] v@[k]),
        decreases 64 - i,
    {
        v.push(random_alphanumeric());
        i += 1;
    }
    string_from_chars(v.as_slice())
}

} // verus!
