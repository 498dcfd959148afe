//! Parsing of git's porcelain output.
//!
//! Worktree listings (`git worktree list --porcelain [-z]`), default-branch
//! probes and `git status --porcelain -z` records.

use vstd::prelude::*;

use super::error::GitError;
use vstd::string::StringSliceAdditionalSpecFns;
use crate::text::{
    append_chars, append_str, drop_empty, drop_empty_fields, eq_bytes, find_byte_from, find_from,
    from_chars, lines_chars, lines_seq, slice_copy, split_bytes, split_once_seq, split_seq,
    starts_with_bytes, strip_prefix, strip_prefix_chars, strip_prefix_or_keep,
    strip_prefix_or_keep_chars, tail, to_chars, trim, trim_chars, vviews,
};

verus! {

/// `String::from_utf8_lossy(bytes)`: the text that `bytes` decode to, with
/// each invalid sequence replaced by U+FFFD.
pub uninterp spec fn lossy_utf8(bytes: Seq<u8>) -> Seq<char>;

/// The text of `bytes`: their UTF-8 decoding when they are valid UTF-8,
/// else what `String::from_utf8_lossy` makes of them.
pub open spec fn decoded_text(bytes: Seq<u8>) -> Seq<char> {
    if vstd::utf8::valid_utf8(bytes) {
        vstd::utf8::decode_utf8(bytes)
    } else {
        lossy_utf8(bytes)
    }
}

/// `String::from_utf8_lossy(bytes).into_owned()`. Valid UTF-8 decodes
/// exactly; what invalid input decodes to is left to the name [`lossy_utf8`].
#[verifier::external_body]
pub(crate) fn utf8_lossy(bytes: &[u8]) -> (s: String)
    ensures
        s@ == lossy_utf8(bytes@),
        s@ == decoded_text(bytes@),
{
    String::from_utf8_lossy(bytes).into_owned()
}

/// One entry of `git worktree list --porcelain`, as parsed.
#[derive(Debug, Clone, PartialEq, Eq)]
pub struct WorktreeInfo {
    /// The worktree's path, as the raw bytes git printed.
    pub path: Vec<u8>,
    /// The commit checked out (empty when git printed no `HEAD` line).
    pub head: String,
    /// The branch, without its `refs/heads/` prefix.
    pub branch: Option<String>,
    /// Whether this is the bare repository entry.
    pub bare: bool,
    /// Whether HEAD is detached.
    pub detached: bool,
    /// The lock reason, when the worktree is locked (possibly empty).
    pub locked: Option<String>,
    /// Why git considers the worktree prunable, when it does.
    pub prunable: Option<String>,
}

/// The mathematical content of a [`WorktreeInfo`].
pub struct WorktreeView {
    pub path: Seq<u8>,
    pub head: Seq<char>,
    pub branch: Option<Seq<char>>,
    pub bare: bool,
    pub detached: bool,
    pub locked: Option<Seq<char>>,
    pub prunable: Option<Seq<char>>,
}

/// The view of an optional string.
pub open spec fn opt_view(o: Option<String>) -> Option<Seq<char>> {
    match o {
        Some(s) => Some(s@),
        None => None,
    }
}

impl View for WorktreeInfo {
    type V = WorktreeView;

    open spec fn view(&self) -> WorktreeView {
        WorktreeView {
            path: self.path@,
            head: self.head@,
            branch: opt_view(self.branch),
            bare: self.bare,
            detached: self.detached,
            locked: opt_view(self.locked),
            prunable: opt_view(self.prunable),
        }
    }
}

/// The views of a sequence of worktrees.
pub open spec fn wviews(v: Seq<WorktreeInfo>) -> Seq<WorktreeView> {
    v.map_values(|w: WorktreeInfo| w@)
}

/// A fresh entry opened by a `worktree <path>` line.
pub open spec fn new_worktree(path: Seq<u8>) -> WorktreeView {
    WorktreeView {
        path,
        head: Seq::empty(),
        branch: None,
        bare: false,
        detached: false,
        locked: None,
        prunable: None,
    }
}

/// The key of a porcelain line: everything before the first space.
pub open spec fn line_key(line: Seq<u8>) -> Seq<u8> {
    match find_from(line, 32u8, 0) {
        Some(i) => line.take(i),
        None => line,
    }
}

/// The value of a porcelain line: everything after the first space, if any.
pub open spec fn line_value(line: Seq<u8>) -> Option<Seq<u8>> {
    match find_from(line, 32u8, 0) {
        Some(i) => Some(line.skip(i + 1)),
        None => None,
    }
}

/// The entries already closed, followed by the open one if any.
pub open spec fn close(done: Seq<WorktreeView>, current: Option<WorktreeView>) -> Seq<WorktreeView> {
    match current {
        Some(w) => done.push(w),
        None => done,
    }
}

/// Reading porcelain fields: `done` holds the entries closed so far and
/// `current` the entry being filled. An empty field closes the entry; a
/// `worktree` line opens one; attribute lines fill the open entry and are
/// ignored when none is open; unknown attributes are ignored. A `worktree`,
/// `HEAD` or `branch` line without a value is an error, whose message this
/// returns.
pub open spec fn porcelain_fold(
    fields: Seq<Seq<u8>>,
    done: Seq<WorktreeView>,
    current: Option<WorktreeView>,
) -> Result<Seq<WorktreeView>, Seq<char>>
    decreases fields.len(),
{
    if fields.len() == 0 {
        Ok(close(done, current))
    } else {
        let line = fields[0];
        let rest = fields.drop_first();
        let key = line_key(line);
        let value = line_value(line);
        if line.len() == 0 {
            porcelain_fold(rest, close(done, current), None)
        } else if key == "worktree".spec_bytes() {
            match value {
                Some(p) => porcelain_fold(rest, done, Some(new_worktree(p))),
                None => Err("worktree line missing path"@),
            }
        } else {
            match current {
                None => porcelain_fold(rest, done, None),
                Some(wt) => if key == "HEAD".spec_bytes() {
                    match value {
                        Some(v) => porcelain_fold(
                            rest,
                            done,
                            Some(WorktreeView { head: decoded_text(v), ..wt }),
                        ),
                        None => Err("HEAD line missing SHA"@),
                    }
                } else if key == "branch".spec_bytes() {
                    match value {
                        Some(v) => porcelain_fold(
                            rest,
                            done,
                            Some(
                                WorktreeView {
                                    branch: Some(
                                        strip_prefix_or_keep(decoded_text(v), "refs/heads/"@),
                                    ),
                                    ..wt
                                },
                            ),
                        ),
                        None => Err("branch line missing ref"@),
                    }
                } else if key == "bare".spec_bytes() {
                    porcelain_fold(rest, done, Some(WorktreeView { bare: true, ..wt }))
                } else if key == "detached".spec_bytes() {
                    porcelain_fold(rest, done, Some(WorktreeView { detached: true, ..wt }))
                } else if key == "locked".spec_bytes() {
                    porcelain_fold(
                        rest,
                        done,
                        Some(WorktreeView { locked: Some(decoded_text(value.unwrap_or(Seq::empty()))), ..wt }),
                    )
                } else if key == "prunable".spec_bytes() {
                    porcelain_fold(
                        rest,
                        done,
                        Some(WorktreeView { prunable: Some(decoded_text(value.unwrap_or(Seq::empty()))), ..wt }),
                    )
                } else {
                    porcelain_fold(rest, done, Some(wt))
                },
            }
        }
    }
}

/// The worktrees described by a sequence of porcelain fields, or the
/// message of the parse error.
pub open spec fn porcelain_worktrees(fields: Seq<Seq<u8>>) -> Result<Seq<WorktreeView>, Seq<char>> {
    porcelain_fold(fields, Seq::empty(), None)
}

/// Whether an exec parse result matches a spec result.
pub open spec fn matches_result(
    r: Result<Vec<WorktreeInfo>, GitError>,
    s: Result<Seq<WorktreeView>, Seq<char>>,
) -> bool {
    match (r, s) {
        (Ok(v), Ok(w)) => wviews(v@) == w,
        (Err(GitError::ParseError { message }), Err(m)) => message@ == m,
        _ => false,
    }
}

/// The bytes of `value`, or no bytes.
fn value_or_empty(value: &Option<Vec<u8>>) -> (r: Vec<u8>)
    ensures
        r@ == (match value {
            Some(v) => v@,
            None => Seq::empty(),
        }),
{
    match value {
        Some(v) => slice_copy(v.as_slice(), 0, v.len()),
        None => Vec::new(),
    }
}

proof fn lemma_find_from_bounds_u8(s: Seq<u8>, d: u8, from: int)
    ensures
        find_from(s, d, from) matches Some(i) ==> from <= i < s.len() && s[i] == d,
    decreases s.len() - from,
{
    if 0 <= from < s.len() && s[from] != d {
        lemma_find_from_bounds_u8(s, d, from + 1);
    }
}

fn parse_error(msg: &str) -> (e: GitError)
    ensures
        e matches GitError::ParseError { message } && message@ == msg@,
{
    let m = to_chars(msg);
    GitError::ParseError { message: from_chars(m.as_slice()) }
}

fn close_exec(done: &mut Vec<WorktreeInfo>, current: Option<WorktreeInfo>)
    ensures
        wviews(final(done)@) == close(wviews(old(done)@), match current {
            Some(w) => Some(w@),
            None => None,
        }),
{
    match current {
        Some(w) => {
            let ghost before = wviews(done@);
            done.push(w);
            assert(wviews(done@) =~= before.push(w@));
        },
        None => {},
    }
}

/// The view of an optional worktree.
pub open spec fn wopt(o: Option<WorktreeInfo>) -> Option<WorktreeView> {
    match o {
        Some(w) => Some(w@),
        None => None,
    }
}

/// Parse porcelain fields (one per line, or one per NUL-separated record).
pub fn parse_porcelain_fields(fields: &Vec<Vec<u8>>) -> (r: Result<Vec<WorktreeInfo>, GitError>)
    ensures
        matches_result(r, porcelain_worktrees(vviews(fields@))),
{
    let ghost all = vviews(fields@);
    let mut done: Vec<WorktreeInfo> = Vec::new();
    let mut current: Option<WorktreeInfo> = None;
    let mut i: usize = 0;
    assert(all.skip(0) =~= all);
    assert(wviews(done@) =~= Seq::<WorktreeView>::empty());
    while i < fields.len()
        invariant
            i <= fields@.len(),
            all == vviews(fields@),
            porcelain_worktrees(all) == porcelain_fold(all.skip(i as int), wviews(done@), wopt(current)),
        decreases fields.len() - i,
    {
        let ghost rest = all.skip(i as int);
        assert(rest.drop_first() =~= all.skip(i + 1));
        let line = &fields[i];
        assert(rest[0] == line@);
        if line.len() == 0 {
            let cur = current;
            current = None;
            close_exec(&mut done, cur);
            i = i + 1;
            continue;
        }
        proof {
            lemma_find_from_bounds_u8(line@, 32u8, 0);
        }
        let space = find_byte_from(line.as_slice(), 32u8, 0);
        let (key, value): (Vec<u8>, Option<Vec<u8>>) = match space {
            Some(k) => {
                let key = slice_copy(line.as_slice(), 0, k);
                assert(line@.subrange(0, k as int) =~= line@.take(k as int));
                (key, Some(tail(line.as_slice(), k + 1)))
            },
            None => (slice_copy(line.as_slice(), 0, line.len()), None),
        };
        assert(line@.subrange(0, line@.len() as int) =~= line@);
        assert(key@ == line_key(line@));
        assert(match value {
            Some(v) => line_value(line@) == Some(v@),
            None => line_value(line@) is None,
        });
        if eq_bytes(key.as_slice(), "worktree".as_bytes()) {
            match value {
                Some(p) => {
                    current = Some(WorktreeInfo {
                        path: p,
                        head: String::new(),
                        branch: None,
                        bare: false,
                        detached: false,
                        locked: None,
                        prunable: None,
                    });
                    assert(wopt(current) == Some(new_worktree(line_value(line@)->0)));
                },
                None => {
                    return Err(parse_error("worktree line missing path"));
                },
            }
        } else {
            match current {
                None => {},
                Some(mut wt) => {
                    if eq_bytes(key.as_slice(), "HEAD".as_bytes()) {
                        match value {
                            Some(v) => {
                                wt.head = utf8_lossy(v.as_slice());
                            },
                            None => {
                                return Err(parse_error("HEAD line missing SHA"));
                            },
                        }
                    } else if eq_bytes(key.as_slice(), "branch".as_bytes()) {
                        match value {
                            Some(v) => {
                                let b = utf8_lossy(v.as_slice());
                                let bc = to_chars(b.as_str());
                                let prefix = to_chars("refs/heads/");
                                let stripped = strip_prefix_or_keep_chars(bc.as_slice(), prefix.as_slice());
                                wt.branch = Some(from_chars(stripped.as_slice()));
                            },
                            None => {
                                return Err(parse_error("branch line missing ref"));
                            },
                        }
                    } else if eq_bytes(key.as_slice(), "bare".as_bytes()) {
                        wt.bare = true;
                    } else if eq_bytes(key.as_slice(), "detached".as_bytes()) {
                        wt.detached = true;
                    } else if eq_bytes(key.as_slice(), "locked".as_bytes()) {
                        let v = value_or_empty(&value);
                        wt.locked = Some(utf8_lossy(v.as_slice()));
                    } else if eq_bytes(key.as_slice(), "prunable".as_bytes()) {
                        let v = value_or_empty(&value);
                        wt.prunable = Some(utf8_lossy(v.as_slice()));
                    }
                    current = Some(wt);
                },
            }
        }
        i = i + 1;
    }
    assert(all.skip(fields@.len() as int) =~= Seq::<Seq<u8>>::empty());
    close_exec(&mut done, current);
    Ok(done)
}

/// The NUL-separated fields of `git worktree list --porcelain -z` output.
pub open spec fn z_fields(output: Seq<u8>) -> Seq<Seq<u8>> {
    split_seq(output, 0u8)
}

/// The lines of `git worktree list --porcelain` output, as bytes.
pub open spec fn text_fields(output: Seq<char>) -> Seq<Seq<u8>> {
    lines_seq(output).map_values(|l: Seq<char>| vstd::utf8::encode_utf8(l))
}

impl WorktreeInfo {
    /// Parse `git worktree list --porcelain -z` output.
    ///
    /// Entries come back as git printed them: the branch of a detached
    /// worktree in the middle of a rebase is for the caller to fill in.
    pub fn parse_porcelain_list_z(output: &[u8]) -> (r: Result<Vec<WorktreeInfo>, GitError>)
        ensures
            matches_result(r, porcelain_worktrees(z_fields(output@))),
    {
        let fields = split_bytes(output, 0u8);
        parse_porcelain_fields(&fields)
    }

    /// Parse `git worktree list --porcelain` output (one attribute per line).
    pub fn parse_porcelain_list(output: &str) -> (r: Result<Vec<WorktreeInfo>, GitError>)
        ensures
            matches_result(r, porcelain_worktrees(text_fields(output@))),
    {
        let chars = to_chars(output);
        let lines = lines_chars(chars.as_slice());
        let mut fields: Vec<Vec<u8>> = Vec::new();
        let mut i: usize = 0;
        while i < lines.len()
            invariant
                i <= lines@.len(),
                vviews(lines@) == lines_seq(output@),
                vviews(fields@) == text_fields(output@).take(i as int),
            decreases lines.len() - i,
        {
            let s = from_chars(lines[i].as_slice());
            let b = s.as_str().as_bytes();
            let v = slice_copy(b, 0, b.len());
            assert(b@.subrange(0, b@.len() as int) =~= b@);
            let ghost before = vviews(fields@);
            fields.push(v);
            assert(vviews(fields@) =~= before.push(v@));
            assert(text_fields(output@).take(i + 1) =~= text_fields(output@).take(i as int).push(
                text_fields(output@)[i as int],
            ));
            i = i + 1;
        }
        assert(text_fields(output@).take(lines@.len() as int) =~= text_fields(output@));
        parse_porcelain_fields(&fields)
    }
}

/// `stdout` without one trailing newline, as a path's raw bytes.
pub open spec fn path_from_stdout_spec(stdout: Seq<u8>) -> Seq<u8> {
    if stdout.len() > 0 && stdout.last() == 10u8 {
        stdout.drop_last()
    } else {
        stdout
    }
}

/// The path printed by a git command: its output without the final newline.
pub fn path_from_git_stdout(stdout: &[u8]) -> (r: Vec<u8>)
    ensures
        r@ == path_from_stdout_spec(stdout@),
{
    let n = stdout.len();
    if n > 0 && stdout[n - 1] == 10u8 {
        let r = slice_copy(stdout, 0, n - 1);
        assert(r@ =~= stdout@.drop_last());
        r
    } else {
        let r = slice_copy(stdout, 0, n);
        assert(r@ =~= stdout@);
        r
    }
}

/// The name of a repository's default branch.
#[derive(Debug, Clone, PartialEq, Eq)]
pub struct DefaultBranchName(pub String);

/// The default branch named by `git rev-parse --abbrev-ref <remote>/HEAD`
/// output: the trimmed output without its `<remote>/` prefix. `None` when
/// that leaves nothing.
pub open spec fn default_from_local_spec(remote: Seq<char>, output: Seq<char>) -> Option<Seq<char>> {
    let branch = strip_prefix_or_keep(trim(output), remote + seq!['/']);
    if branch.len() == 0 {
        None
    } else {
        Some(branch)
    }
}

/// The branch named by one `git ls-remote --symref` line
/// `ref: refs/heads/<branch>\t<ref>`, if the line has that shape.
pub open spec fn symref_branch(line: Seq<char>) -> Option<Seq<char>> {
    match strip_prefix(line, "ref: "@) {
        Some(symref) => match split_once_seq(symref, '\t') {
            Some((ref_path, _)) => strip_prefix(ref_path, "refs/heads/"@),
            None => None,
        },
        None => None,
    }
}

/// The branch named by the first symbolic-ref line among `lines`.
pub open spec fn first_symref(lines: Seq<Seq<char>>) -> Option<Seq<char>>
    decreases lines.len(),
{
    if lines.len() == 0 {
        None
    } else {
        match symref_branch(lines[0]) {
            Some(b) => Some(b),
            None => first_symref(lines.drop_first()),
        }
    }
}

impl View for DefaultBranchName {
    type V = Seq<char>;

    open spec fn view(&self) -> Seq<char> {
        self.0@
    }
}

fn symref_branch_exec(line: &[char]) -> (r: Option<Vec<char>>)
    ensures
        r matches Some(b) ==> symref_branch(line@) == Some(b@),
        r is None ==> symref_branch(line@) is None,
{
    let ref_prefix = to_chars("ref: ");
    let symref = match strip_prefix_chars(line, ref_prefix.as_slice()) {
        Some(s) => s,
        None => return None,
    };
    let (ref_path, _) = match crate::text::split_once_chars(symref.as_slice(), '\t') {
        Some(p) => p,
        None => return None,
    };
    let heads = to_chars("refs/heads/");
    strip_prefix_chars(ref_path.as_slice(), heads.as_slice())
}

impl DefaultBranchName {
    /// Parse the local `<remote>/HEAD` abbreviation.
    pub fn from_local(remote: &str, output: &str) -> (r: Result<DefaultBranchName, GitError>)
        ensures
            match default_from_local_spec(remote@, output@) {
                Some(b) => r matches Ok(d) && d@ == b,
                None => r matches Err(GitError::ParseError { message })
                    && message@ == "Empty branch name from "@ + remote@ + "/HEAD"@,
            },
    {
        let out = to_chars(output);
        let trimmed = trim_chars(out.as_slice());
        let mut prefix = to_chars(remote);
        prefix.push('/');
        assert(prefix@ =~= remote@ + seq!['/']);
        let branch = strip_prefix_or_keep_chars(trimmed.as_slice(), prefix.as_slice());
        if branch.len() == 0 {
            let mut m: Vec<char> = Vec::new();
            append_str(&mut m, "Empty branch name from ");
            append_str(&mut m, remote);
            append_str(&mut m, "/HEAD");
            assert(m@ =~= "Empty branch name from "@ + remote@ + "/HEAD"@);
            return Err(GitError::ParseError { message: from_chars(m.as_slice()) });
        }
        Ok(DefaultBranchName(from_chars(branch.as_slice())))
    }

    /// Parse `git ls-remote --symref <remote> HEAD` output.
    pub fn from_remote(output: &str) -> (r: Result<DefaultBranchName, GitError>)
        ensures
            match first_symref(lines_seq(output@)) {
                Some(b) => r matches Ok(d) && d@ == b,
                None => r matches Err(GitError::ParseError { message })
                    && message@ == "Could not find symbolic ref in ls-remote output"@,
            },
    {
        let out = to_chars(output);
        let lines = lines_chars(out.as_slice());
        let ghost all = vviews(lines@);
        let mut i: usize = 0;
        assert(all.skip(0) =~= all);
        while i < lines.len()
            invariant
                i <= lines@.len(),
                all == vviews(lines@),
                all == lines_seq(output@),
                first_symref(all) == first_symref(all.skip(i as int)),
            decreases lines.len() - i,
        {
            assert(all.skip(i as int).drop_first() =~= all.skip(i + 1));
            assert(all.skip(i as int)[0] == lines@[i as int]@);
            match symref_branch_exec(lines[i].as_slice()) {
                Some(b) => return Ok(DefaultBranchName(from_chars(b.as_slice()))),
                None => {},
            }
            i = i + 1;
        }
        Err(parse_error("Could not find symbolic ref in ls-remote output"))
    }

    /// The branch name.
    pub fn into_string(self) -> (r: String)
        ensures
            r@ == self@,
    {
        self.0
    }
}

/// Whether a status entry's two status characters mark a rename or copy,
/// which is followed by a field holding the old path.
pub open spec fn has_source_path(entry: Seq<u8>) -> bool {
    entry[0] == 82u8 || entry[0] == 67u8 || entry[1] == 82u8 || entry[1] == 67u8
}

/// The files named by `git status --porcelain -z` entries: each entry of at
/// least three bytes names the path after its status and space; a rename or
/// copy also names the old path in the following entry. Shorter entries are
/// skipped.
pub open spec fn porcelain_files(entries: Seq<Seq<u8>>) -> Seq<Seq<u8>>
    decreases entries.len(),
{
    if entries.len() == 0 {
        Seq::empty()
    } else {
        let e = entries[0];
        let rest = entries.drop_first();
        if e.len() < 3 {
            porcelain_files(rest)
        } else if has_source_path(e) && rest.len() > 0 {
            seq![e.skip(3), rest[0]] + porcelain_files(rest.drop_first())
        } else {
            seq![e.skip(3)] + porcelain_files(rest)
        }
    }
}

/// The non-empty NUL-separated entries of porcelain `-z` output.
pub open spec fn z_entries(output: Seq<u8>) -> Seq<Seq<u8>> {
    drop_empty(split_seq(output, 0u8))
}

/// Parse `git status --porcelain -z` output into the affected paths, as raw
/// bytes: both paths of a rename or copy are included.
pub fn parse_porcelain_z(output: &[u8]) -> (r: Vec<Vec<u8>>)
    ensures
        vviews(r@) == porcelain_files(z_entries(output@)),
{
    let entries = drop_empty_fields(split_bytes(output, 0u8));
    let ghost all = vviews(entries@);
    let mut files: Vec<Vec<u8>> = Vec::new();
    let mut i: usize = 0;
    assert(all.skip(0) =~= all);
    assert(vviews(files@) =~= Seq::<Seq<u8>>::empty());
    while i < entries.len()
        invariant
            i <= entries@.len(),
            all == vviews(entries@),
            all == z_entries(output@),
            vviews(files@) + porcelain_files(all.skip(i as int)) == porcelain_files(all),
        decreases entries.len() - i,
    {
        let ghost rest = all.skip(i as int);
        assert(rest.drop_first() =~= all.skip(i + 1));
        assert(rest[0] == entries@[i as int]@);
        let entry = &entries[i];
        if entry.len() < 3 {
            i = i + 1;
            continue;
        }
        let ghost before = vviews(files@);
        files.push(tail(entry.as_slice(), 3));
        let source = entry[0] == 82u8 || entry[0] == 67u8 || entry[1] == 82u8 || entry[1] == 67u8;
        if source && i + 1 < entries.len() {
            let old_path = &entries[i + 1];
            files.push(slice_copy(old_path.as_slice(), 0, old_path.len()));
            assert(old_path@.subrange(0, old_path@.len() as int) =~= old_path@);
            assert(rest.drop_first().drop_first() =~= all.skip(i + 2));
            assert(rest.drop_first()[0] == old_path@);
            assert(vviews(files@) =~= before + seq![entry@.skip(3), old_path@]);
            i = i + 2;
        } else {
            assert(vviews(files@) =~= before + seq![entry@.skip(3)]);
            i = i + 1;
        }
    }
    assert(all.skip(all.len() as int) =~= Seq::<Seq<u8>>::empty());
    files
}


/// Whether each status record among `entries` splits at a character
/// boundary after its two status bytes and after the space that follows.
pub open spec fn untracked_records_split(entries: Seq<Seq<u8>>) -> bool
    decreases entries.len(),
{
    if entries.len() == 0 {
        true
    } else {
        let e = entries[0];
        let rest = entries.drop_first();
        if e.len() < 3 {
            untracked_records_split(rest)
        } else {
            &&& vstd::utf8::is_char_boundary(e, 2)
            &&& vstd::utf8::is_char_boundary(e, 3)
            &&& if has_source_path(e) && rest.len() > 0 {
                untracked_records_split(rest.drop_first())
            } else {
                untracked_records_split(rest)
            }
        }
    }
}

/// The untracked files among `git status --porcelain -z` entries: the path
/// of every record whose status is `??`. The old-path field that follows a
/// rename or copy record is skipped, not read as a record.
pub open spec fn untracked_files(entries: Seq<Seq<u8>>) -> Seq<Seq<char>>
    decreases entries.len(),
{
    if entries.len() == 0 {
        Seq::empty()
    } else {
        let e = entries[0];
        let rest = entries.drop_first();
        if e.len() < 3 {
            untracked_files(rest)
        } else {
            let here = if e[0] == 63u8 && e[1] == 63u8 {
                seq![decoded_text(e.skip(3))]
            } else {
                Seq::empty()
            };
            if has_source_path(e) && rest.len() > 0 {
                here + untracked_files(rest.drop_first())
            } else {
                here + untracked_files(rest)
            }
        }
    }
}

/// The views of a sequence of strings.
pub open spec fn strviews(v: Seq<String>) -> Seq<Seq<char>> {
    v.map_values(|s: String| s@)
}

/// Parse the untracked files out of `git status --porcelain -z` output.
pub fn parse_untracked_files(status_output: &str) -> (r: Vec<String>)
    requires
        untracked_records_split(z_entries(status_output.spec_bytes())),
    ensures
        strviews(r@) == untracked_files(z_entries(status_output.spec_bytes())),
{
    let bytes = status_output.as_bytes();
    let entries = drop_empty_fields(split_bytes(bytes, 0u8));
    let ghost all = vviews(entries@);
    let mut files: Vec<String> = Vec::new();
    let mut i: usize = 0;
    assert(all.skip(0) =~= all);
    assert(strviews(files@) =~= Seq::<Seq<char>>::empty());
    while i < entries.len()
        invariant
            i <= entries@.len(),
            all == vviews(entries@),
            all == z_entries(status_output.spec_bytes()),
            strviews(files@) + untracked_files(all.skip(i as int)) == untracked_files(all),
        decreases entries.len() - i,
    {
        let ghost rest = all.skip(i as int);
        assert(rest.drop_first() =~= all.skip(i + 1));
        assert(rest[0] == entries@[i as int]@);
        let entry = &entries[i];
        if entry.len() < 3 {
            i = i + 1;
            continue;
        }
        let ghost before = strviews(files@);
        let ghost here: Seq<Seq<char>> = if entry@[0] == 63u8 && entry@[1] == 63u8 {
            seq![decoded_text(entry@.skip(3))]
        } else {
            Seq::empty()
        };
        if entry[0] == 63u8 && entry[1] == 63u8 {
            let path = tail(entry.as_slice(), 3);
            files.push(utf8_lossy(path.as_slice()));
        }
        assert(strviews(files@) =~= before + here);
        let source = entry[0] == 82u8 || entry[0] == 67u8 || entry[1] == 82u8 || entry[1] == 67u8;
        if source && i + 1 < entries.len() {
            assert(rest.drop_first().drop_first() =~= all.skip(i + 2));
            i = i + 2;
        } else {
            i = i + 1;
        }
    }
    assert(all.skip(all.len() as int) =~= Seq::<Seq<u8>>::empty());
    files
}


/// A worktree entry with its branch filled in: a detached worktree that git
/// listed without a branch takes `rebase_branch`, the branch whose rebase is
/// in progress there (read from the worktree's rebase state, if any); any
/// other entry is returned unchanged.
pub fn finalize_worktree(wt: WorktreeInfo, rebase_branch: Option<String>) -> (r: WorktreeInfo)
    ensures
        r@.path == wt@.path && r@.head == wt@.head && r@.bare == wt@.bare,
        r@.detached == wt@.detached && r@.locked == wt@.locked && r@.prunable == wt@.prunable,
        r@.branch == (if wt.detached && wt.branch is None {
            opt_view(rebase_branch)
        } else {
            opt_view(wt.branch)
        }),
{
    if wt.detached && wt.branch.is_none() {
        WorktreeInfo { branch: rebase_branch, ..wt }
    } else {
        wt
    }
}


/// The first `d` at or after `from` is at `k` when `k` holds one and
/// nothing between does.
proof fn lemma_find_from_at(s: Seq<u8>, d: u8, from: int, k: int)
    requires
        0 <= from <= k < s.len(),
        s[k] == d,
        forall|j: int| from <= j < k ==> s[j] != d,
    ensures
        find_from(s, d, from) == Some(k),
    decreases k - from,
{
    if from < k {
        lemma_find_from_at(s, d, from + 1, k);
    }
}

/// The UTF-8 bytes of ASCII text are its characters, one byte each.
proof fn lemma_ascii_bytes(s: Seq<char>)
    requires
        forall|i: int| 0 <= i < s.len() ==> '\0' <= #[trigger] s[i] <= '\u{7f}',
    ensures
        vstd::utf8::encode_utf8(s).len() == s.len(),
        forall|i: int| 0 <= i < s.len() ==> #[trigger] vstd::utf8::encode_utf8(s)[i] == s[i] as u8,
{
    vstd::utf8::is_ascii_chars_encode_utf8(s);
}

/// A `branch refs/heads/<name>` line names the branch `<name>`, whole, for
/// every name (slashes included): the fields `worktree <path>` and
/// `branch refs/heads/<name>` give one worktree at `<path>` on `<name>`.
pub proof fn lemma_branch_line_names_the_branch(path: Seq<u8>, name: Seq<char>)
    ensures
        porcelain_worktrees(seq![
            vstd::utf8::encode_utf8("worktree "@) + path,
            vstd::utf8::encode_utf8("branch refs/heads/"@ + name),
        ]) == Ok::<Seq<WorktreeView>, Seq<char>>(seq![WorktreeView { branch: Some(name), ..new_worktree(path) }]),
{
    reveal_strlit("worktree ");
    reveal_strlit("worktree");
    reveal_strlit("branch refs/heads/");
    reveal_strlit("branch");
    reveal_strlit("refs/heads/");
    let wt = "worktree "@;
    let br = "branch refs/heads/"@;
    let rh = "refs/heads/"@;
    lemma_ascii_bytes(wt);
    lemma_ascii_bytes("worktree"@);
    lemma_ascii_bytes(br);
    lemma_ascii_bytes("branch"@);
    lemma_ascii_bytes(rh);
    let l1 = vstd::utf8::encode_utf8(wt) + path;
    let full = br + name;
    crate::diagnostic::lemma_encode_utf8_concat(br, name);
    let l2 = vstd::utf8::encode_utf8(full);
    assert(l2 == vstd::utf8::encode_utf8(br) + vstd::utf8::encode_utf8(name));
    lemma_find_from_at(l1, 32u8, 0, 8);
    assert(line_key(l1) =~= "worktree".spec_bytes());
    assert(line_value(l1) == Some(path)) by {
        assert(l1.skip(9) =~= path);
    }
    lemma_find_from_at(l2, 32u8, 0, 6);
    assert(line_key(l2) =~= "branch".spec_bytes());
    let v = l2.skip(7);
    crate::diagnostic::lemma_encode_utf8_concat(rh, name);
    assert(v =~= vstd::utf8::encode_utf8(rh + name));
    vstd::utf8::encode_utf8_valid_utf8(rh + name);
    vstd::utf8::encode_utf8_decode_utf8(rh + name);
    assert(decoded_text(v) == rh + name);
    assert((rh + name).take(rh.len() as int) =~= rh);
    assert((rh + name).skip(rh.len() as int) =~= name);
    assert(strip_prefix_or_keep(rh + name, rh) == name);
    assert(l1.len() > 0);
    assert(l2.len() > 0);
    let fields = seq![l1, l2];
    assert(fields.drop_first() =~= seq![l2]);
    assert(fields.drop_first().drop_first() =~= Seq::<Seq<u8>>::empty());
    let w0 = new_worktree(path);
    let w1 = WorktreeView { branch: Some(name), ..w0 };
    assert(porcelain_fold(Seq::<Seq<u8>>::empty(), Seq::<WorktreeView>::empty(), Some(w1))
        == Ok::<Seq<WorktreeView>, Seq<char>>(seq![w1])) by {
        assert(Seq::<WorktreeView>::empty().push(w1) =~= seq![w1]);
    }
    assert(line_key(l2) != "worktree".spec_bytes()) by {
        assert(line_key(l2).len() != "worktree".spec_bytes().len());
    }
    assert(line_key(l2) != "HEAD".spec_bytes()) by {
        reveal_strlit("HEAD");
        lemma_ascii_bytes("HEAD"@);
        assert(line_key(l2).len() != "HEAD".spec_bytes().len());
    }
    assert(line_value(l2) == Some(v)) by {
        assert(l2.skip(7) == v);
    }
    assert(porcelain_fold(seq![l2], Seq::<WorktreeView>::empty(), Some(w0))
        == porcelain_fold(Seq::<Seq<u8>>::empty(), Seq::<WorktreeView>::empty(), Some(w1))) by {
        assert(seq![l2][0] == l2);
        assert(seq![l2].drop_first() =~= Seq::<Seq<u8>>::empty());
    }
    assert(porcelain_fold(fields, Seq::<WorktreeView>::empty(), None)
        == porcelain_fold(seq![l2], Seq::<WorktreeView>::empty(), Some(w0))) by {
        assert(fields[0] == l1);
    }
}

} // verus!
