//! Filters for template expansion: names safe for paths, for databases, and
//! deterministic port numbers.

use vstd::prelude::*;
use crate::text::{ascii_lower, from_chars, is_digit, to_chars};
use std::hash::{Hash, Hasher};

verus! {

/// A path separator (`/` or `\`) becomes `-`.
pub open spec fn path_safe_char(c: char) -> char {
    if c == '/' || c == '\\' {
        '-'
    } else {
        c
    }
}

/// A branch name with every path separator replaced by `-`.
pub open spec fn sanitized_name(branch: Seq<char>) -> Seq<char> {
    branch.map_values(|c: char| path_safe_char(c))
}

/// Sanitize a branch name for use in filesystem paths: `/` and `\` become `-`.
pub fn sanitize_branch_name(branch: &str) -> (r: String)
    ensures
        r@ == sanitized_name(branch@),
{
    let v = to_chars(branch);
    let mut out: Vec<char> = Vec::new();
    let mut i: usize = 0;
    while i < v.len()
        invariant
            i <= v@.len(),
            out@ == v@.take(i as int).map_values(|c: char| path_safe_char(c)),
        decreases v.len() - i,
    {
        let c = v[i];
        out.push(if c == '/' || c == '\\' { '-' } else { c });
        assert(v@.take(i + 1).map_values(|c: char| path_safe_char(c)) =~= v@.take(i as int).map_values(
            |c: char| path_safe_char(c),
        ).push(path_safe_char(c)));
        i = i + 1;
    }
    assert(v@.take(v@.len() as int) =~= v@);
    from_chars(out.as_slice())
}

/// An ASCII letter or digit.
pub open spec fn is_ascii_alnum(c: char) -> bool {
    ('a' <= c && c <= 'z') || ('A' <= c && c <= 'Z') || ('0' <= c && c <= '9')
}

/// Lowercased ASCII letters and digits, with each run of other characters
/// replaced by one `_`.
pub open spec fn db_collapse(s: Seq<char>) -> Seq<char>
    decreases s.len(),
{
    if s.len() == 0 {
        Seq::empty()
    } else {
        let r = db_collapse(s.drop_last());
        let c = s.last();
        if is_ascii_alnum(c) {
            r.push(ascii_lower(c))
        } else if r.len() > 0 && r.last() == '_' {
            r
        } else {
            r.push('_')
        }
    }
}

/// The database identifier for `s`: [`db_collapse`], with `_` in front of a
/// leading digit, cut to 63 characters.
pub open spec fn sanitize_db_spec(s: Seq<char>) -> Seq<char> {
    let r = db_collapse(s);
    let p = if r.len() > 0 && is_digit(r[0]) {
        seq!['_'] + r
    } else {
        r
    };
    if p.len() > 63 {
        p.take(63)
    } else {
        p
    }
}

/// Sanitize a string for use as a database identifier.
pub fn sanitize_db(s: &str) -> (r: String)
    ensures
        r@ == sanitize_db_spec(s@),
{
    let v = to_chars(s);
    let mut out: Vec<char> = Vec::new();
    let mut i: usize = 0;
    while i < v.len()
        invariant
            i <= v@.len(),
            out@ == db_collapse(v@.take(i as int)),
        decreases v.len() - i,
    {
        assert(v@.take(i + 1).drop_last() =~= v@.take(i as int));
        let c = v[i];
        if ('a' <= c && c <= 'z') || ('A' <= c && c <= 'Z') || ('0' <= c && c <= '9') {
            out.push(crate::text::ascii_lower_char(c));
        } else if !(out.len() > 0 && out[out.len() - 1] == '_') {
            out.push('_');
        }
        i = i + 1;
    }
    assert(v@.take(v@.len() as int) =~= v@);
    let mut p: Vec<char> = if out.len() > 0 && '0' <= out[0] && out[0] <= '9' {
        let mut q = vec!['_'];
        crate::text::append_chars(&mut q, out.as_slice());
        q
    } else {
        out
    };
    if p.len() > 63 {
        p.truncate(63);
    }
    from_chars(p.as_slice())
}

/// A character that database identifiers may hold: `[a-z0-9_]`.
pub open spec fn db_char(c: char) -> bool {
    ('a' <= c && c <= 'z') || ('0' <= c && c <= '9') || c == '_'
}

proof fn lemma_db_collapse_chars(s: Seq<char>)
    ensures
        forall|i: int| 0 <= i < db_collapse(s).len() ==> db_char(#[trigger] db_collapse(s)[i]),
        forall|i: int| 0 <= i && i + 1 < db_collapse(s).len() ==> !(db_collapse(s)[i] == '_' && #[trigger] db_collapse(s)[i + 1] == '_'),
    decreases s.len(),
{
    if s.len() > 0 {
        lemma_db_collapse_chars(s.drop_last());
        let r = db_collapse(s.drop_last());
        let out = db_collapse(s);
        assert forall|i: int| 0 <= i < out.len() implies db_char(#[trigger] out[i]) by {
            if i < r.len() {
                assert(out[i] == r[i]);
            }
        }
        assert forall|i: int| 0 <= i && i + 1 < out.len() implies !(out[i] == '_' && #[trigger] out[i + 1] == '_') by {
            if i + 1 < r.len() {
                assert(out[i] == r[i]);
                assert(out[i + 1] == r[i + 1]);
            }
        }
    }
}

/// What `sanitize_db` returns is a database-safe identifier: only
/// `[a-z0-9_]`, at most 63 characters, never starting with a digit, and
/// never holding two underscores in a row.
pub proof fn lemma_sanitize_db_identifier(s: Seq<char>)
    ensures
        sanitize_db_spec(s).len() <= 63,
        forall|i: int| 0 <= i < sanitize_db_spec(s).len() ==> db_char(#[trigger] sanitize_db_spec(s)[i]),
        sanitize_db_spec(s).len() > 0 ==> !is_digit(sanitize_db_spec(s)[0]),
        forall|i: int| 0 <= i && i + 1 < sanitize_db_spec(s).len() ==> !(sanitize_db_spec(s)[i] == '_'
            && #[trigger] sanitize_db_spec(s)[i + 1] == '_'),
{
    lemma_db_collapse_chars(s);
    let r = db_collapse(s);
    let p = if r.len() > 0 && is_digit(r[0]) {
        seq!['_'] + r
    } else {
        r
    };
    assert forall|i: int| 0 <= i < p.len() implies db_char(#[trigger] p[i]) by {
        if r.len() > 0 && is_digit(r[0]) && i > 0 {
            assert(p[i] == r[i - 1]);
        }
    }
    assert forall|i: int| 0 <= i && i + 1 < p.len() implies !(p[i] == '_' && #[trigger] p[i + 1] == '_') by {
        if r.len() > 0 && is_digit(r[0]) {
            if i == 0 {
                assert(p[1] == r[0]);
            } else {
                assert(p[i] == r[i - 1]);
                assert(p[i + 1] == r[i]);
                assert(!(r[i - 1] == '_' && r[(i - 1) + 1] == '_'));
            }
        } else {
            assert(!(r[i] == '_' && r[i + 1] == '_'));
        }
    }
    let f = sanitize_db_spec(s);
    assert forall|i: int| 0 <= i && i + 1 < f.len() implies !(f[i] == '_' && #[trigger] f[i + 1] == '_') by {
        assert(f[i] == p[i]);
        assert(f[i + 1] == p[i + 1]);
    }
    assert forall|i: int| 0 <= i < f.len() implies db_char(#[trigger] f[i]) by {
        assert(f[i] == p[i]);
    }
}

/// `DefaultHasher::new()` applied to a string (SipHash with fixed keys).
pub uninterp spec fn default_hash(s: Seq<char>) -> u64;

/// `str::hash` into a fresh `DefaultHasher`, then `finish`: a function of
/// the string alone, since `DefaultHasher::new` always starts from the same
/// keys.
#[verifier::external_body]
fn hash_str(s: &str) -> (r: u64)
    ensures
        r == default_hash(s@),
{
    let mut h = std::collections::hash_map::DefaultHasher::new();
    s.hash(&mut h);
    h.finish()
}

/// The port for a string hash: 10000 plus the hash modulo 10000.
pub fn port_from_hash(h: u64) -> (r: u16)
    ensures
        r == 10000 + h % 10000,
        10000 <= r < 20000,
{
    10000 + (h % 10000) as u16
}

/// Hash a string to a port in range 10000-19999.
pub fn string_to_port(s: &str) -> (r: u16)
    ensures
        r == 10000 + default_hash(s@) % 10000,
        10000 <= r < 20000,
{
    let h = hash_str(s);
    port_from_hash(h)
}


/// A sanitized branch name has no path separator and as many characters as
/// the branch name.
pub proof fn lemma_sanitized_has_no_separator(branch: Seq<char>)
    ensures
        sanitized_name(branch).len() == branch.len(),
        forall|i: int| 0 <= i < branch.len() ==> #[trigger] sanitized_name(branch)[i] != '/' && sanitized_name(branch)[i] != '\\',
{
}


/// The characters that `shell_escape` leaves unquoted.
pub open spec fn shell_safe_char(c: char) -> bool {
    ('a' <= c && c <= 'z') || ('A' <= c && c <= 'Z') || ('0' <= c && c <= '9') || c == '-' || c == '_' || c == '='
        || c == '/' || c == ',' || c == '.' || c == '+'
}

/// The inside of a single-quoted shell word for `s`: `'` and `!` each
/// become `'\<c>'` (close the quote, escape, reopen).
pub open spec fn shell_quoted_body(s: Seq<char>) -> Seq<char>
    decreases s.len(),
{
    if s.len() == 0 {
        Seq::empty()
    } else {
        let c = s.last();
        shell_quoted_body(s.drop_last()) + (if c == '\'' || c == '!' {
            seq!['\'', '\\', c, '\'']
        } else {
            seq![c]
        })
    }
}

/// `s` as one shell word: unchanged when it is non-empty and every
/// character is safe, else single-quoted.
pub open spec fn shell_escaped(s: Seq<char>) -> Seq<char> {
    if s.len() > 0 && (forall|i: int| 0 <= i < s.len() ==> shell_safe_char(#[trigger] s[i])) {
        s
    } else {
        seq!['\''] + shell_quoted_body(s) + seq!['\'']
    }
}

/// `c` repeated `n` times.
pub open spec fn repeat_char(c: char, n: nat) -> Seq<char> {
    Seq::new(n, |i: int| c)
}

/// The inside of a cmd.exe double-quoted word for `s`, with `n` backslashes
/// read and not yet written: a run of backslashes before a `"` is doubled
/// and the quote escaped, a run before any other character is kept, and a
/// run at the end is doubled.
pub open spec fn cmd_quoted_body(s: Seq<char>, n: nat) -> Seq<char>
    decreases s.len(),
{
    if s.len() == 0 {
        repeat_char('\\', 2 * n)
    } else if s[0] == '\\' {
        cmd_quoted_body(s.drop_first(), n + 1)
    } else if s[0] == '"' {
        repeat_char('\\', 2 * n + 1) + seq!['"'] + cmd_quoted_body(s.drop_first(), 0)
    } else {
        repeat_char('\\', n) + seq![s[0]] + cmd_quoted_body(s.drop_first(), 0)
    }
}

/// `s` as one cmd.exe word: unchanged when it is non-empty and holds no
/// `"`, tab, newline or space, else double-quoted.
pub open spec fn cmd_quoted(s: Seq<char>) -> Seq<char> {
    if s.len() > 0 && (forall|i: int| 0 <= i < s.len() ==> #[trigger] s[i] != '"' && s[i] != '\t' && s[i] != '\n' && s[i] != ' ') {
        s
    } else {
        seq!['"'] + cmd_quoted_body(s, 0) + seq!['"']
    }
}

/// `shell_escape::unix::escape`: a non-empty string of safe characters as
/// it is, otherwise wrapped in single quotes with each `'` and `!` inside
/// written as `'\<c>'`.
#[verifier::external_body]
pub(crate) fn shell_escape_unix(s: &str) -> (r: String)
    ensures
        r@ == shell_escaped(s@),
{
    shell_escape::unix::escape(std::borrow::Cow::Borrowed(s)).into_owned()
}

/// `shell_escape::escape`, which quotes for a Unix shell on Unix builds and
/// where the `MSYSTEM` environment variable is set, and for cmd.exe
/// otherwise. Which of the two applies depends on the build and the
/// environment at the time of the call, so this contract says only that the
/// result is one of them.
#[verifier::external_body]
pub(crate) fn shell_escape_str(s: &str) -> (r: String)
    ensures
        r@ == shell_escaped(s@) || r@ == cmd_quoted(s@),
{
    shell_escape::escape(std::borrow::Cow::Borrowed(s)).into_owned()
}

/// Why MiniJinja did not render a template: the template did not parse, or
/// rendering failed; each with MiniJinja's message.
#[derive(Debug)]
pub enum RenderFailure {
    Syntax(String),
    Render(String),
}

/// What MiniJinja makes of `template` with the string variables `context`,
/// the `sanitize`, `sanitize_db` and `hash_port` filters of this library,
/// and trailing newlines kept or not: the output, or `(true, message)` for
/// a syntax error and `(false, message)` for a render error.
pub uninterp spec fn minijinja_render(
    template: Seq<char>,
    context: Seq<(Seq<char>, Seq<char>)>,
    keep_trailing_newline: bool,
) -> Result<Seq<char>, (bool, Seq<char>)>;

/// The views of `(name, value)` string pairs.
pub open spec fn string_pairs(v: Seq<(String, String)>) -> Seq<(Seq<char>, Seq<char>)> {
    v.map_values(|p: (String, String)| (p.0@, p.1@))
}

/// Render `template` with MiniJinja: an environment with this library's
/// filters (`sanitize`, `sanitize_db`, `hash_port`), the template compiled
/// from the string, rendered with `context` as its variables.
#[verifier::external_body]
pub(crate) fn render_template(template: &str, context: &Vec<(String, String)>, keep_trailing_newline: bool) -> (r: Result<String, RenderFailure>)
    ensures
        match r {
            Ok(s) => minijinja_render(template@, string_pairs(context@), keep_trailing_newline) == Ok::<Seq<char>, (bool, Seq<char>)>(s@),
            Err(RenderFailure::Syntax(m)) => minijinja_render(template@, string_pairs(context@), keep_trailing_newline) == Err::<Seq<char>, (bool, Seq<char>)>((true, m@)),
            Err(RenderFailure::Render(m)) => minijinja_render(template@, string_pairs(context@), keep_trailing_newline) == Err::<Seq<char>, (bool, Seq<char>)>((false, m@)),
        },
{
    let mut env = minijinja::Environment::new();
    env.set_keep_trailing_newline(keep_trailing_newline);
    env.add_filter("sanitize", |v: minijinja::Value| sanitize_branch_name(v.as_str().unwrap_or_default()));
    env.add_filter("sanitize_db", |v: minijinja::Value| sanitize_db(v.as_str().unwrap_or_default()));
    env.add_filter("hash_port", |v: String| string_to_port(&v));
    let tmpl = match env.template_from_str(template) {
        Ok(t) => t,
        Err(e) => return Err(RenderFailure::Syntax(e.to_string())),
    };
    let ctx = minijinja::Value::from_iter(context.iter().map(|p| (p.0.clone(), p.1.clone())));
    tmpl.render(ctx).map_err(|e| RenderFailure::Render(e.to_string()))
}

/// Whether `context` holds the variables `vars` as a template is rendered
/// with them: the same names in the same order, each value shell-escaped
/// (for a Unix shell or for cmd.exe, as `shell_escape::escape` chose) when
/// `shell_escape` is set and as it is otherwise.
pub open spec fn is_template_context(vars: Seq<(&str, &str)>, shell_escape: bool, context: Seq<(Seq<char>, Seq<char>)>) -> bool {
    &&& context.len() == vars.len()
    &&& forall|i: int| 0 <= i < vars.len() ==> {
        &&& (#[trigger] context[i]).0 == vars[i].0@
        &&& if shell_escape {
            context[i].1 == shell_escaped(vars[i].1@) || context[i].1 == cmd_quoted(vars[i].1@)
        } else {
            context[i].1 == vars[i].1@
        }
    }
}

/// What expanding a template gives for MiniJinja's outcome on `context`.
pub open spec fn expansion_of(template: Seq<char>, context: Seq<(Seq<char>, Seq<char>)>, shell_escape: bool, r: Result<String, String>) -> bool {
    match minijinja_render(template, context, shell_escape) {
        Ok(s) => r matches Ok(o) && o@ == s,
        Err((syntax, m)) => r matches Err(e) && e@ == (if syntax {
            "Template syntax error: "@
        } else {
            "Template render error: "@
        }) + m,
    }
}

/// Expand a template with variables: each value shell-escaped first when
/// `shell_escape` is set (which also keeps the template's trailing newline);
/// a template that does not parse or render gives its error message.
pub fn expand_template(template: &str, vars: &[(&str, &str)], shell_escape: bool) -> (r: Result<String, String>)
    ensures
        exists|context: Seq<(Seq<char>, Seq<char>)>|
            is_template_context(vars@, shell_escape, context) && expansion_of(template@, context, shell_escape, r),
        !shell_escape ==> expansion_of(template@, vars@.map_values(|p: (&str, &str)| (p.0@, p.1@)), false, r),
{
    let mut context: Vec<(String, String)> = Vec::new();
    let mut i: usize = 0;
    while i < vars.len()
        invariant
            i <= vars@.len(),
            is_template_context(vars@.take(i as int), shell_escape, string_pairs(context@)),
        decreases vars.len() - i,
    {
        let (k, v) = vars[i];
        let value = if shell_escape { shell_escape_str(v) } else { crate::text::string_of(v) };
        let ghost before = context@;
        context.push((crate::text::string_of(k), value));
        assert(string_pairs(context@) =~= string_pairs(before).push((k@, value@)));
        assert(vars@.take(i + 1) =~= vars@.take(i as int).push(vars@[i as int]));
        i = i + 1;
    }
    assert(vars@.take(vars@.len() as int) =~= vars@);
    let r = template_result(render_template(template, &context, shell_escape));
    proof {
        if !shell_escape {
            assert(string_pairs(context@) =~= vars@.map_values(|p: (&str, &str)| (p.0@, p.1@)));
        }
    }
    r
}

/// What expanding a template gives for MiniJinja's outcome: the output, or
/// the error message prefixed by the stage that failed.
pub fn template_result(rendered: Result<String, RenderFailure>) -> (r: Result<String, String>)
    ensures
        match rendered {
            Ok(s) => r matches Ok(o) && o@ == s@,
            Err(RenderFailure::Syntax(m)) => r matches Err(e) && e@ == "Template syntax error: "@ + m@,
            Err(RenderFailure::Render(m)) => r matches Err(e) && e@ == "Template render error: "@ + m@,
        },
{
    match rendered {
        Ok(s) => Ok(s),
        Err(RenderFailure::Syntax(m)) => {
            let mut e = to_chars("Template syntax error: ");
            crate::text::append_str(&mut e, m.as_str());
            Err(from_chars(e.as_slice()))
        },
        Err(RenderFailure::Render(m)) => {
            let mut e = to_chars("Template render error: ");
            crate::text::append_str(&mut e, m.as_str());
            Err(from_chars(e.as_slice()))
        },
    }
}

} // verus!
