//! Diagnostic reports for bug reports: the report itself and the hint that
//! tells the user where it went.

use vstd::prelude::*;
use crate::styling::{BRIGHT_BLACK, COLOR_END};
use crate::config::expansion::{minijinja_render, render_template, string_pairs};
use crate::config::project_match::{regex_replace_all, regex_replaced};
use crate::text::{
    append_chars, append_str, find_char_from, find_first, find_from, lemma_find_from_bounds, from_chars, string_of, strip_prefix, strip_prefix_chars, tail,
    to_chars, trim, trim_chars, trim_end, trim_end_chars,
};

verus! {

/// A rendered diagnostic report (markdown).
#[derive(Debug, Clone)]
pub struct DiagnosticReport {
    pub content: String,
}

/// The command that files an issue with the report as its body.
pub open spec fn gh_issue_command(path: Seq<char>) -> Seq<char> {
    "gh issue create -R max-sixty/worktrunk -t 'Bug report' --body-file '"@ + shell_quote_body(path) + "'"@
}

/// `path` with each `'` written as `'\''`, for use inside single quotes.
pub open spec fn shell_quote_body(path: Seq<char>) -> Seq<char>
    decreases path.len(),
{
    if path.len() == 0 {
        Seq::empty()
    } else {
        shell_quote_body(path.drop_last()) + if path.last() == '\'' {
            seq!['\'', '\\', '\'', '\'']
        } else {
            seq![path.last()]
        }
    }
}

/// The hint after an unexpected problem: without verbose logging, how to get
/// a report; when writing the report failed, that; otherwise where it was
/// saved (`path`, as displayed), with the command that files it when `gh`
/// is installed.
pub open spec fn issue_hint_spec(verbose: bool, written: Option<(Seq<char>, Seq<char>)>, gh_installed: bool) -> Seq<char> {
    if !verbose {
        "To create a diagnostic file, re-run with "@ + BRIGHT_BLACK@ + "--verbose"@ + COLOR_END@
    } else {
        match written {
            None => "Failed to write diagnostic file"@,
            Some((shown, path)) => {
                let saved = "Diagnostic saved: "@ + shown;
                if gh_installed {
                    saved + "\n   "@ + BRIGHT_BLACK@ + gh_issue_command(path) + COLOR_END@
                } else {
                    saved
                }
            },
        }
    }
}

impl DiagnosticReport {
    /// The hint to show: `verbose` is whether verbose logging is on (only
    /// then is the report written), `written` the report file as displayed
    /// and as a path, when it was written, and `gh_installed` whether the
    /// GitHub CLI is available.
    pub fn issue_hint(&self, verbose: bool, written: Option<(&str, &str)>, gh_installed: bool) -> (r: String)
        ensures
            r@ == issue_hint_spec(
                verbose,
                match written {
                    Some((s, p)) => Some((s@, p@)),
                    None => None,
                },
                gh_installed,
            ),
    {
        if !verbose {
            let mut v = to_chars("To create a diagnostic file, re-run with ");
            append_str(&mut v, BRIGHT_BLACK);
            append_str(&mut v, "--verbose");
            append_str(&mut v, COLOR_END);
            return from_chars(v.as_slice());
        }
        match written {
            None => crate::text::string_of("Failed to write diagnostic file"),
            Some((shown, path)) => {
                let mut v = to_chars("Diagnostic saved: ");
                append_str(&mut v, shown);
                if gh_installed {
                    append_str(&mut v, "\n   ");
                    append_str(&mut v, BRIGHT_BLACK);
                    append_str(&mut v, "gh issue create -R max-sixty/worktrunk -t 'Bug report' --body-file '");
                    let q = quote_body(path);
                    append_chars(&mut v, q.as_slice());
                    append_str(&mut v, "'");
                    append_str(&mut v, COLOR_END);
                }
                from_chars(v.as_slice())
            },
        }
    }
}

fn quote_body(path: &str) -> (r: Vec<char>)
    ensures
        r@ == shell_quote_body(path@),
{
    let p = to_chars(path);
    let mut v: Vec<char> = Vec::new();
    let mut i: usize = 0;
    while i < p.len()
        invariant
            i <= p@.len(),
            p@ == path@,
            v@ == shell_quote_body(p@.take(i as int)),
        decreases p.len() - i,
    {
        assert(p@.take(i + 1).drop_last() =~= p@.take(i as int));
        if p[i] == '\'' {
            v.push('\'');
            v.push('\\');
            v.push('\'');
            v.push('\'');
        } else {
            v.push(p[i]);
        }
        i = i + 1;
    }
    assert(p@.take(p@.len() as int) =~= p@);
    v
}

/// The version that `git --version` printed: its trimmed output without the
/// `git version ` prefix (or the whole trimmed output without one).
pub open spec fn git_version_text_spec(stdout: Seq<char>) -> Seq<char> {
    match strip_prefix(trim(stdout), "git version "@) {
        Some(v) => v,
        None => trim(stdout),
    }
}

/// The Git version shown in a diagnostic report.
pub fn git_version_text(stdout: &str) -> (r: String)
    ensures
        r@ == git_version_text_spec(stdout@),
{
    let s = to_chars(stdout);
    let t = trim_chars(s.as_slice());
    match strip_prefix_chars(t.as_slice(), to_chars("git version ").as_slice()) {
        Some(v) => from_chars(v.as_slice()),
        None => from_chars(t.as_slice()),
    }
}


/// The size past which a verbose log is cut down for the report: 50 KiB.
pub const LOG_LIMIT: usize = 50 * 1024;

/// The line that opens a log that was cut down.
pub const LOG_TRUNCATED_NOTE: &'static str = "(log truncated to last ~50KB)\n";

/// The characters of the last `LOG_LIMIT` bytes of `bytes`, from the line
/// after the first newline among them (all of them when there is none).
pub open spec fn log_tail(bytes: Seq<u8>) -> Seq<char> {
    let rest = vstd::utf8::decode_utf8(bytes.subrange(bytes.len() - LOG_LIMIT, bytes.len() as int));
    match find_first(rest, '\n') {
        Some(k) => rest.skip(k + 1),
        None => rest,
    }
}

/// A log of at most `LOG_LIMIT` bytes (in UTF-8) as it is; a longer one as
/// its last `LOG_LIMIT` bytes, cut at a line boundary, after a note saying so.
pub open spec fn truncate_log_spec(content: Seq<char>) -> Seq<char> {
    let bytes = vstd::utf8::encode_utf8(content);
    if bytes.len() <= LOG_LIMIT {
        content
    } else {
        LOG_TRUNCATED_NOTE@ + log_tail(bytes)
    }
}

/// Whether the cut `LOG_LIMIT` bytes from the end of `content` falls between
/// two characters (or no cut is needed).
pub open spec fn log_cut_ok(content: Seq<char>) -> bool {
    let bytes = vstd::utf8::encode_utf8(content);
    bytes.len() <= LOG_LIMIT || vstd::utf8::is_char_boundary(bytes, bytes.len() - LOG_LIMIT)
}

/// Keep the last ~50 KiB of a verbose log, starting at a line boundary.
pub fn truncate_log(content: &str) -> (r: String)
    requires
        log_cut_ok(content@),
    ensures
        r@ == truncate_log_spec(content@),
{
    let n = content.as_bytes().len();
    if n <= LOG_LIMIT {
        return string_of(content);
    }
    let start = n - LOG_LIMIT;
    let (_, rest) = content.split_at(start);
    proof {
        vstd::utf8::encode_utf8_decode_utf8(rest@);
        reveal_strlit("(log truncated to last ~50KB)\n");
    }
    let cs = to_chars(rest);
    let mut v = to_chars(LOG_TRUNCATED_NOTE);
    match find_char_from(cs.as_slice(), '\n', 0) {
        Some(k) => {
            proof {
                lemma_find_from_bounds(cs@, '\n', 0);
            }
            assert(k < cs.len());
            let t = tail(cs.as_slice(), k + 1);
            append_chars(&mut v, t.as_slice());
        },
        None => {
            append_chars(&mut v, cs.as_slice());
        },
    }
    from_chars(v.as_slice())
}

/// The regular expression of an ANSI SGR sequence (`ESC [ params m`):
/// colours, bold, dim and the like.
pub const SGR_PATTERN: &'static str = r"\x1b\[[0-9;]*m";

/// `s` with every ANSI SGR sequence removed, by the regular expression
/// `SGR_PATTERN` (`None` were that pattern not to compile).
pub fn strip_ansi_codes(s: &str) -> (r: Option<String>)
    ensures
        match r {
            Some(t) => regex_replaced(SGR_PATTERN@, s@, ""@) == Some(t@),
            None => regex_replaced(SGR_PATTERN@, s@, ""@) is None,
        },
{
    regex_replace_all(SGR_PATTERN, s, "")
}



/// The markdown of a diagnostic report, filled in by `format_report`.
pub const REPORT_TEMPLATE: &'static str = r#"## Diagnostic Report

**Generated:** {{ timestamp }}
**Context:** {{ context }}

### What's included

- wt version, OS, git version
- Worktree paths and branch names
- Worktree status (prunable, locked, etc.)
- Shell integration status
- Verbose logs (if run with --verbose)
- Commit messages (in verbose logs)

Does NOT contain: file contents, credentials.

<details>
<summary>Diagnostic data</summary>

```
wt {{ version }} ({{ os }} {{ arch }})
git {{ git_version }}
Shell integration: {{ shell_integration }}

--- git worktree list --porcelain ---
{{ worktree_list }}
```
</details>
{% if verbose_log %}
<details>
<summary>Verbose log</summary>

```
{{ verbose_log }}
```
</details>
{% endif %}
"#;

/// The variables the report template is rendered with: the context (with
/// its colour codes already removed), when and by what it was made, the Git
/// version (`(unknown)` when `git --version` failed), whether shell
/// integration is active, the worktree list without trailing whitespace
/// (or a note that it could not be listed), and the verbose log, trimmed and
/// cut down, when there is one and it is not empty.
pub open spec fn report_vars(
    context: Seq<char>,
    timestamp: Seq<char>,
    version: Seq<char>,
    os: Seq<char>,
    arch: Seq<char>,
    git_version: Option<Seq<char>>,
    shell_integration_active: bool,
    worktree_list: Option<Seq<char>>,
    verbose_log: Option<Seq<char>>,
) -> Seq<(Seq<char>, Seq<char>)> {
    let base = seq![
        ("timestamp"@, timestamp),
        ("context"@, context),
        ("version"@, version),
        ("os"@, os),
        ("arch"@, arch),
        ("git_version"@, match git_version { Some(v) => v, None => "(unknown)"@ }),
        ("shell_integration"@, if shell_integration_active { "active"@ } else { "inactive"@ }),
        ("worktree_list"@, match worktree_list { Some(w) => trim_end(w), None => "(failed to get worktree list)"@ }),
    ];
    match verbose_log {
        Some(l) => {
            let t = truncate_log_spec(trim(l));
            if t.len() > 0 {
                base.push(("verbose_log"@, t))
            } else {
                base
            }
        },
        None => base,
    }
}

/// The report: `REPORT_TEMPLATE` rendered by MiniJinja with `report_vars`,
/// the context stripped of colour codes first (`None` if the colour pattern
/// or the template were refused).
pub open spec fn format_report_spec(
    context: Seq<char>,
    timestamp: Seq<char>,
    version: Seq<char>,
    os: Seq<char>,
    arch: Seq<char>,
    git_version: Option<Seq<char>>,
    shell_integration_active: bool,
    worktree_list: Option<Seq<char>>,
    verbose_log: Option<Seq<char>>,
) -> Option<Seq<char>> {
    match regex_replaced(SGR_PATTERN@, context, ""@) {
        None => None,
        Some(c) => match minijinja_render(
            REPORT_TEMPLATE@,
            report_vars(c, timestamp, version, os, arch, git_version, shell_integration_active, worktree_list, verbose_log),
            false,
        ) {
            Ok(s) => Some(s),
            Err(_) => None,
        },
    }
}

/// The view of an optional string.
pub open spec fn opt_view(s: Option<&str>) -> Option<Seq<char>> {
    match s {
        Some(t) => Some(t@),
        None => None,
    }
}

fn string_pair(name: &str, value: &[char]) -> (r: (String, String))
    ensures
        r.0@ == name@,
        r.1@ == value@,
{
    (string_of(name), from_chars(value))
}

impl DiagnosticReport {
    /// A report from what was gathered about the environment: `context`
    /// describes the problem; `git_version` is what `git --version` gave
    /// (`None` when it failed), `worktree_list` the output of `git worktree
    /// list --porcelain` (`None` when it failed) and `verbose_log` the verbose
    /// log's content when there is one.
    pub fn format_report(
        context: &str,
        timestamp: &str,
        version: &str,
        os: &str,
        arch: &str,
        git_version: Option<&str>,
        shell_integration_active: bool,
        worktree_list: Option<&str>,
        verbose_log: Option<&str>,
    ) -> (r: Option<String>)
        requires
            verbose_log matches Some(l) ==> log_cut_ok(trim(l@)),
        ensures
            match r {
                Some(s) => format_report_spec(
                    context@, timestamp@, version@, os@, arch@, opt_view(git_version),
                    shell_integration_active, opt_view(worktree_list), opt_view(verbose_log),
                ) == Some(s@),
                None => format_report_spec(
                    context@, timestamp@, version@, os@, arch@, opt_view(git_version),
                    shell_integration_active, opt_view(worktree_list), opt_view(verbose_log),
                ) is None,
            },
    {
        let stripped = match strip_ansi_codes(context) {
            Some(c) => c,
            None => return None,
        };
        let mut vars: Vec<(String, String)> = Vec::new();
        vars.push(string_pair("timestamp", to_chars(timestamp).as_slice()));
        vars.push(string_pair("context", to_chars(stripped.as_str()).as_slice()));
        vars.push(string_pair("version", to_chars(version).as_slice()));
        vars.push(string_pair("os", to_chars(os).as_slice()));
        vars.push(string_pair("arch", to_chars(arch).as_slice()));
        let gv = match git_version {
            Some(v) => to_chars(v),
            None => to_chars("(unknown)"),
        };
        vars.push(string_pair("git_version", gv.as_slice()));
        let si = if shell_integration_active { to_chars("active") } else { to_chars("inactive") };
        vars.push(string_pair("shell_integration", si.as_slice()));
        let wl = match worktree_list {
            Some(w) => trim_end_chars(to_chars(w).as_slice()),
            None => to_chars("(failed to get worktree list)"),
        };
        vars.push(string_pair("worktree_list", wl.as_slice()));
        match verbose_log {
            Some(l) => {
                let trimmed = from_chars(trim_chars(to_chars(l).as_slice()).as_slice());
                let t = truncate_log(trimmed.as_str());
                let tc = to_chars(t.as_str());
                if tc.len() > 0 {
                    vars.push(string_pair("verbose_log", tc.as_slice()));
                }
            },
            None => {},
        }
        proof {
            let ghost expect = report_vars(
                stripped@, timestamp@, version@, os@, arch@, opt_view(git_version),
                shell_integration_active, opt_view(worktree_list), opt_view(verbose_log),
            );
            assert(string_pairs(vars@) =~= expect);
        }
        match render_template(REPORT_TEMPLATE, &vars, false) {
            Ok(s) => Some(s),
            Err(_) => None,
        }
    }
}


/// The UTF-8 encoding of two strings put together is their encodings put
/// together.
pub proof fn lemma_encode_utf8_concat(a: Seq<char>, c: Seq<char>)
    ensures
        vstd::utf8::encode_utf8(a + c) == vstd::utf8::encode_utf8(a) + vstd::utf8::encode_utf8(c),
    decreases a.len(),
{
    if a.len() == 0 {
        assert(a + c =~= c);
        assert(vstd::utf8::encode_utf8(a) + vstd::utf8::encode_utf8(c) =~= vstd::utf8::encode_utf8(c));
    } else {
        lemma_encode_utf8_concat(a.drop_first(), c);
        assert((a + c).drop_first() =~= a.drop_first() + c);
        assert((a + c)[0] == a[0]);
        assert(vstd::utf8::encode_utf8(a + c) =~= vstd::utf8::encode_utf8(a) + vstd::utf8::encode_utf8(c));
    }
}

/// No `d` at or after `from` when the search finds none.
proof fn lemma_find_from_none<A>(s: Seq<A>, d: A, from: int)
    requires
        0 <= from,
        find_from(s, d, from) is None,
    ensures
        forall|i: int| from <= i < s.len() ==> s[i] != d,
    decreases s.len() - from,
{
    if from < s.len() {
        lemma_find_from_none(s, d, from + 1);
    }
}

/// A log of at most `LOG_LIMIT` bytes (in UTF-8) is kept whole. A longer one
/// becomes the note followed by a tail of the log of at most `LOG_LIMIT`
/// bytes: either what follows a line break, or, when the last `LOG_LIMIT`
/// bytes hold no line break, exactly those bytes.
pub proof fn lemma_truncated_log_keeps_a_tail(content: Seq<char>)
    requires
        log_cut_ok(content),
    ensures
        vstd::utf8::encode_utf8(content).len() <= LOG_LIMIT ==> truncate_log_spec(content) == content,
        vstd::utf8::encode_utf8(content).len() > LOG_LIMIT ==> ({
            let t = truncate_log_spec(content);
            let kept = t.skip(LOG_TRUNCATED_NOTE@.len() as int);
            &&& t.take(LOG_TRUNCATED_NOTE@.len() as int) == LOG_TRUNCATED_NOTE@
            &&& kept.len() <= content.len()
            &&& content.skip(content.len() - kept.len()) == kept
            &&& vstd::utf8::encode_utf8(kept).len() <= LOG_LIMIT
            &&& ((kept.len() < content.len() && content[content.len() - kept.len() - 1] == '\n')
                || (vstd::utf8::encode_utf8(kept).len() == LOG_LIMIT && !kept.contains('\n')))
        }),
{
    let b = vstd::utf8::encode_utf8(content);
    if b.len() > LOG_LIMIT {
        let s = b.len() - LOG_LIMIT;
        vstd::utf8::encode_utf8_valid_utf8(content);
        vstd::utf8::encode_utf8_decode_utf8(content);
        vstd::utf8::decode_utf8_split(b, s);
        vstd::utf8::valid_utf8_split(b, s);
        let head_b = b.subrange(0, s);
        let tail_b = b.subrange(s, b.len() as int);
        let rest = vstd::utf8::decode_utf8(tail_b);
        vstd::utf8::decode_utf8_encode_utf8(tail_b);
        assert(content == vstd::utf8::decode_utf8(head_b) + rest);
        assert(content.skip(content.len() - rest.len()) =~= rest);
        assert(vstd::utf8::encode_utf8(rest).len() == LOG_LIMIT);
        let t = truncate_log_spec(content);
        let note = LOG_TRUNCATED_NOTE@;
        assert(t.skip(note.len() as int) =~= log_tail(b));
        assert(t.take(note.len() as int) =~= note);
        match find_first(rest, '\n') {
            Some(k) => {
                lemma_find_from_bounds(rest, '\n', 0);
                let kept = rest.skip(k + 1);
                assert(rest =~= rest.take(k + 1) + kept);
                lemma_encode_utf8_concat(rest.take(k + 1), kept);
                assert(content.skip(content.len() - kept.len()) =~= kept);
                assert(content[content.len() - kept.len() - 1] == rest[k]);
            },
            None => {
                lemma_find_from_none(rest, '\n', 0);
            },
        }
    }
}

} // verus!
