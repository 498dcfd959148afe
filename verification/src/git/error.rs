//! Error types for git and worktree operations, and their user-facing text.
//!
//! [`GitError`] carries the data of each domain error; [`GitError::message`]
//! is its plain one-line description and [`GitError::styled`] the coloured
//! message with hints. [`WorktrunkError`] covers the errors that need special
//! handling (exit codes, silent failures), and [`Error`] is the union that
//! callers pass around and inspect.

use vstd::prelude::*;

use crate::styling::{ERROR, ERROR_BOLD, ERROR_EMOJI, HINT, HINT_BOLD, HINT_EMOJI, INFO_EMOJI, RESET, format_with_gutter, gutter_spec};
use crate::text::{append_chars, append_str, from_chars, tail, to_chars, trim, trim_chars, trim_end, trim_end_chars};

verus! {

/// Domain errors for git and worktree operations.
///
/// Paths are held in their display form.
#[derive(Debug, Clone)]
pub enum GitError {
    /// HEAD is detached (not on a branch); `action` is what was blocked.
    DetachedHead { action: Option<String> },
    /// The working tree has uncommitted changes; `action` is what was blocked.
    UncommittedChanges { action: Option<String> },
    /// The branch already exists.
    BranchAlreadyExists { branch: String },
    /// The worktree directory is missing from the filesystem.
    WorktreeMissing { branch: String },
    /// No worktree exists for the branch.
    NoWorktreeFound { branch: String },
    /// The target path of a new worktree is already occupied.
    WorktreePathOccupied { branch: String, path: String, occupant: Option<String> },
    /// A directory already exists at the target path.
    WorktreePathExists { path: String },
    /// Creating a worktree failed.
    WorktreeCreationFailed { branch: String, base_branch: Option<String>, error: String },
    /// Removing a worktree failed.
    WorktreeRemovalFailed { branch: String, path: String, error: String },
    /// Conflicting uncommitted changes prevent the operation.
    ConflictingChanges { files: Vec<String>, worktree_path: String },
    /// A push is not a fast-forward.
    NotFastForward { target_branch: String, commits_formatted: String, in_merge_context: bool },
    /// Merge commits were found in the push range.
    MergeCommitsFound,
    /// A rebase stopped on conflicts.
    RebaseConflict { target_branch: String, git_output: String },
    /// A push failed.
    PushFailed { error: String },
    /// A prompt was needed in a non-interactive environment.
    NotInteractive,
    /// Git output could not be parsed.
    ParseError { message: String },
    /// The commit generation command failed.
    LlmCommandFailed { command: String, error: String },
    /// No project configuration file was found.
    ProjectConfigNotFound { config_path: String },
    /// Any other error, with its message.
    Other { message: String },
}

/// Errors that need special handling by the command-line front end.
#[derive(Debug, Clone)]
pub enum WorktrunkError {
    /// A child process exited with a non-zero code.
    ChildProcessExited { code: i32, message: String },
    /// A hook command failed; `hook_type` is the hook's display name.
    HookCommandFailed {
        hook_type: String,
        command_name: Option<String>,
        error: String,
        exit_code: Option<i32>,
    },
    /// The user did not approve a command (a silent error).
    CommandNotApproved,
}

/// An error as callers hold it: a typed error of this library, or any other
/// error by its message.
#[derive(Debug, Clone)]
pub enum Error {
    Git(GitError),
    Worktrunk(WorktrunkError),
    Other(String),
}

impl From<GitError> for Error {
    fn from(e: GitError) -> Self {
        Error::Git(e)
    }
}

impl vstd::std_specs::convert::FromSpecImpl<GitError> for Error {
    open spec fn obeys_from_spec() -> bool {
        true
    }

    open spec fn from_spec(v: GitError) -> Self {
        Error::Git(v)
    }
}

/// `"'" + s + "'"`.
pub open spec fn quoted(s: Seq<char>) -> Seq<char> {
    seq!['\''] + s + seq!['\'']
}

/// The lines of `files` joined with newlines.
pub open spec fn join_lines(files: Seq<Seq<char>>) -> Seq<char>
    decreases files.len(),
{
    if files.len() == 0 {
        Seq::empty()
    } else if files.len() == 1 {
        files[0]
    } else {
        join_lines(files.drop_last()) + seq!['\n'] + files.last()
    }
}

/// The views of a sequence of strings.
pub open spec fn sviews(v: Seq<String>) -> Seq<Seq<char>> {
    v.map_values(|s: String| s@)
}

/// An error header with its detail block: the header alone when the trimmed
/// detail is empty, otherwise the header, a newline and the detail in a gutter.
pub open spec fn error_block_spec(header: Seq<char>, error: Seq<char>) -> Seq<char> {
    if trim(error).len() == 0 {
        header
    } else {
        header + seq!['\n'] + gutter_spec(trim(error))
    }
}

/// The plain one-line description of an error.
pub open spec fn message_spec(e: GitError) -> Seq<char> {
    match e {
        GitError::DetachedHead { .. } => "not on a branch (detached HEAD)"@,
        GitError::UncommittedChanges { .. } => "working tree has uncommitted changes"@,
        GitError::BranchAlreadyExists { branch } => "branch "@ + quoted(branch@) + " already exists"@,
        GitError::WorktreeMissing { branch } => "worktree directory missing for "@ + quoted(branch@),
        GitError::NoWorktreeFound { branch } => "no worktree found for branch "@ + quoted(branch@),
        GitError::WorktreePathOccupied { branch, .. } => "cannot create worktree for "@ + quoted(
            branch@,
        ) + ": target path already exists"@,
        GitError::WorktreePathExists { path } => "directory already exists: "@ + path@,
        GitError::WorktreeCreationFailed { branch, .. } => "failed to create worktree for "@
            + quoted(branch@),
        GitError::WorktreeRemovalFailed { branch, .. } => "failed to remove worktree for "@
            + quoted(branch@),
        GitError::ConflictingChanges { .. } => "conflicting uncommitted changes"@,
        GitError::NotFastForward { .. } => "cannot push: target branch has newer commits"@,
        GitError::MergeCommitsFound => "found merge commits in push range"@,
        GitError::RebaseConflict { target_branch, .. } => "rebase onto "@ + quoted(
            target_branch@,
        ) + " incomplete"@,
        GitError::PushFailed { .. } => "push failed"@,
        GitError::NotInteractive => "cannot prompt for approval in non-interactive environment"@,
        GitError::ParseError { message } => message@,
        GitError::LlmCommandFailed { .. } => "commit generation command failed"@,
        GitError::ProjectConfigNotFound { .. } => "no project configuration found"@,
        GitError::Other { message } => message@,
    }
}

/// `ERROR_EMOJI ERROR<message>RESET`: the first line of a styled error.
pub open spec fn error_line(message: Seq<char>) -> Seq<char> {
    ERROR_EMOJI@ + " "@ + ERROR@ + message + RESET@
}

/// `HINT_EMOJI HINT<hint>RESET`: a hint line.
pub open spec fn hint_line(hint: Seq<char>) -> Seq<char> {
    HINT_EMOJI@ + " "@ + HINT@ + hint + RESET@
}

/// `name` in bold error style, then back to the plain error style.
pub open spec fn error_bold(name: Seq<char>) -> Seq<char> {
    ERROR_BOLD@ + name + RESET@ + ERROR@
}

/// The styled, multi-line message for an error, with its hint.
pub open spec fn styled_spec(e: GitError) -> Seq<char> {
    match e {
        GitError::DetachedHead { action } => {
            let message = match action {
                Some(a) => "Cannot "@ + a@ + ": not on a branch (detached HEAD)"@,
                None => "Not on a branch (detached HEAD)"@,
            };
            error_line(message) + "\n\n"@ + hint_line(
                "Switch to a branch first with 'git switch <branch>'"@,
            )
        },
        GitError::UncommittedChanges { action } => {
            let message = match action {
                Some(a) => "Cannot "@ + a@ + ": working tree has uncommitted changes"@,
                None => "Working tree has uncommitted changes"@,
            };
            error_line(message) + "\n\n"@ + hint_line("Commit or stash them first"@)
        },
        GitError::BranchAlreadyExists { branch } => error_line(
            "Branch "@ + error_bold(branch@) + " already exists"@,
        ) + "\n\n"@ + hint_line("Remove --create flag to switch to it"@),
        GitError::WorktreeMissing { branch } => error_line(
            "Worktree directory missing for "@ + error_bold(branch@),
        ) + "\n\n"@ + hint_line("Run 'git worktree prune' to clean up"@),
        GitError::NoWorktreeFound { branch } => error_line(
            "No worktree found for branch "@ + error_bold(branch@),
        ),
        GitError::WorktreePathOccupied { branch, path, occupant } => {
            let note = match occupant {
                Some(b) => " (currently on "@ + HINT_BOLD@ + b@ + RESET@ + HINT@ + ")"@,
                None => Seq::empty(),
            };
            error_line(
                "Cannot create worktree for "@ + error_bold(branch@)
                    + ": target path already exists"@,
            ) + "\n\n"@ + hint_line(
                "Reuse the existing worktree at "@ + path@ + note
                    + " or remove it before retrying"@,
            )
        },
        GitError::WorktreePathExists { path } => error_line(
            "Directory already exists: "@ + ERROR_BOLD@ + path@ + RESET@,
        ) + "\n\n"@ + hint_line("Remove the directory or use a different branch name"@),
        GitError::WorktreeCreationFailed { branch, base_branch, error } => {
            let base = match base_branch {
                Some(b) => " from base "@ + error_bold(b@),
                None => Seq::empty(),
            };
            error_block_spec(
                error_line("Failed to create worktree for "@ + error_bold(branch@) + base),
                error@,
            )
        },
        GitError::WorktreeRemovalFailed { branch, path, error } => error_block_spec(
            error_line(
                "Failed to remove worktree for "@ + error_bold(branch@) + " at "@ + ERROR_BOLD@
                    + path@ + RESET@,
            ),
            error@,
        ),
        GitError::ConflictingChanges { files, worktree_path } => {
            let block = if files@.len() == 0 {
                Seq::empty()
            } else {
                gutter_spec(join_lines(sviews(files@)))
            };
            error_line("Cannot push: conflicting uncommitted changes in:"@) + "\n\n"@ + block
                + "\n"@ + hint_line(
                "Commit or stash these changes in "@ + worktree_path@ + " first"@,
            )
        },
        GitError::NotFastForward { target_branch, commits_formatted, in_merge_context } => {
            let commits = if commits_formatted@.len() == 0 {
                Seq::empty()
            } else {
                "\n"@ + gutter_spec(commits_formatted@)
            };
            let hint = if in_merge_context {
                "Run 'wt merge' again to incorporate these changes"@
            } else {
                "Use 'wt step rebase' or 'wt merge' to rebase onto "@ + target_branch@
            };
            error_line(
                "Can't push to local "@ + error_bold(target_branch@)
                    + " branch: it has newer commits"@,
            ) + commits + "\n"@ + hint_line(hint)
        },
        GitError::MergeCommitsFound => error_line("Found merge commits in push range"@)
            + "\n\n"@ + hint_line("Use --allow-merge-commits to push non-linear history"@),
        GitError::RebaseConflict { target_branch, git_output } => {
            let tail = if git_output@.len() == 0 {
                "\n\n"@ + hint_line("Resolve conflicts and run 'git rebase --continue'"@)
                    + "\n"@ + hint_line("Or abort with 'git rebase --abort'"@)
            } else {
                "\n"@ + gutter_spec(git_output@)
            };
            error_line("Rebase onto "@ + error_bold(target_branch@) + " incomplete"@) + tail
        },
        GitError::PushFailed { error } => error_block_spec(error_line("Push failed"@), error@),
        GitError::NotInteractive => error_line(
            "Cannot prompt for approval in non-interactive environment"@,
        ) + "\n\n"@ + hint_line(
            "In CI/CD, use --force to skip prompts. To pre-approve commands, use 'wt config approvals add'"@,
        ),
        GitError::LlmCommandFailed { command, error } => trim_end(
            error_block_spec(error_line("Commit generation command failed"@), error@),
        ) + "\n\n"@ + INFO_EMOJI@ + " Ran command:\n"@ + trim_end(gutter_spec(command@)),
        GitError::ProjectConfigNotFound { config_path } => error_line(
            "No project configuration found"@,
        ) + "\n\n"@ + hint_line(
            "Create a config file at: "@ + HINT_BOLD@ + config_path@ + RESET@ + HINT@,
        ),
        GitError::ParseError { message } => error_line(message@),
        GitError::Other { message } => error_line(message@),
    }
}


fn error_line_exec(message: &[char]) -> (r: Vec<char>)
    ensures
        r@ == error_line(message@),
{
    let mut r = Vec::new();
    append_str(&mut r, ERROR_EMOJI);
    append_str(&mut r, " ");
    append_str(&mut r, ERROR);
    append_chars(&mut r, message);
    append_str(&mut r, RESET);
    assert(r@ =~= error_line(message@));
    r
}

fn hint_line_exec(hint: &[char]) -> (r: Vec<char>)
    ensures
        r@ == hint_line(hint@),
{
    let mut r = Vec::new();
    append_str(&mut r, HINT_EMOJI);
    append_str(&mut r, " ");
    append_str(&mut r, HINT);
    append_chars(&mut r, hint);
    append_str(&mut r, RESET);
    assert(r@ =~= hint_line(hint@));
    r
}

fn hint_line_str(hint: &str) -> (r: Vec<char>)
    ensures
        r@ == hint_line(hint@),
{
    let h = to_chars(hint);
    hint_line_exec(h.as_slice())
}

fn append_error_bold(out: &mut Vec<char>, name: &str)
    ensures
        final(out)@ == old(out)@ + error_bold(name@),
{
    append_str(out, ERROR_BOLD);
    append_str(out, name);
    append_str(out, RESET);
    append_str(out, ERROR);
    assert(final(out)@ =~= old(out)@ + error_bold(name@));
}

fn append_quoted(out: &mut Vec<char>, name: &str)
    ensures
        final(out)@ == old(out)@ + quoted(name@),
{
    out.push('\'');
    append_str(out, name);
    out.push('\'');
    assert(final(out)@ =~= old(out)@ + quoted(name@));
}

/// The error header, or the header followed by the trimmed detail in a
/// gutter when there is any.
fn format_error_block(header: Vec<char>, error: &str) -> (r: Vec<char>)
    ensures
        r@ == error_block_spec(header@, error@),
{
    let e = to_chars(error);
    let trimmed = trim_chars(e.as_slice());
    if trimmed.len() == 0 {
        header
    } else {
        let mut r = header;
        r.push('\n');
        let g = format_with_gutter(trimmed.as_slice());
        append_chars(&mut r, g.as_slice());
        r
    }
}

/// Join strings with newlines.
fn join_lines_exec(files: &Vec<String>) -> (r: Vec<char>)
    ensures
        r@ == join_lines(sviews(files@)),
{
    let mut r: Vec<char> = Vec::new();
    let mut i: usize = 0;
    while i < files.len()
        invariant
            i <= files@.len(),
            r@ == join_lines(sviews(files@).take(i as int)),
        decreases files.len() - i,
    {
        let ghost prev = sviews(files@).take(i as int);
        let ghost next = sviews(files@).take(i + 1);
        assert(next.drop_last() =~= prev);
        assert(next.last() == files@[i as int]@);
        if i > 0 {
            r.push('\n');
        }
        append_str(&mut r, files[i].as_str());
        if i == 0 {
            assert(r@ =~= join_lines(next));
        }
        i = i + 1;
    }
    assert(sviews(files@).take(files@.len() as int) =~= sviews(files@));
    r
}

impl GitError {
    /// The plain one-line description of this error.
    pub fn message(&self) -> (r: String)
        ensures
            r@ == message_spec(*self),
    {
        let mut v: Vec<char> = Vec::new();
        match self {
            GitError::DetachedHead { .. } => append_str(&mut v, "not on a branch (detached HEAD)"),
            GitError::UncommittedChanges { .. } => append_str(&mut v, "working tree has uncommitted changes"),
            GitError::BranchAlreadyExists { branch } => {
                append_str(&mut v, "branch ");
                append_quoted(&mut v, branch.as_str());
                append_str(&mut v, " already exists");
            },
            GitError::WorktreeMissing { branch } => {
                append_str(&mut v, "worktree directory missing for ");
                append_quoted(&mut v, branch.as_str());
            },
            GitError::NoWorktreeFound { branch } => {
                append_str(&mut v, "no worktree found for branch ");
                append_quoted(&mut v, branch.as_str());
            },
            GitError::WorktreePathOccupied { branch, .. } => {
                append_str(&mut v, "cannot create worktree for ");
                append_quoted(&mut v, branch.as_str());
                append_str(&mut v, ": target path already exists");
            },
            GitError::WorktreePathExists { path } => {
                append_str(&mut v, "directory already exists: ");
                append_str(&mut v, path.as_str());
            },
            GitError::WorktreeCreationFailed { branch, .. } => {
                append_str(&mut v, "failed to create worktree for ");
                append_quoted(&mut v, branch.as_str());
            },
            GitError::WorktreeRemovalFailed { branch, .. } => {
                append_str(&mut v, "failed to remove worktree for ");
                append_quoted(&mut v, branch.as_str());
            },
            GitError::ConflictingChanges { .. } => append_str(&mut v, "conflicting uncommitted changes"),
            GitError::NotFastForward { .. } => append_str(&mut v, "cannot push: target branch has newer commits"),
            GitError::MergeCommitsFound => append_str(&mut v, "found merge commits in push range"),
            GitError::RebaseConflict { target_branch, .. } => {
                append_str(&mut v, "rebase onto ");
                append_quoted(&mut v, target_branch.as_str());
                append_str(&mut v, " incomplete");
            },
            GitError::PushFailed { .. } => append_str(&mut v, "push failed"),
            GitError::NotInteractive => append_str(&mut v, "cannot prompt for approval in non-interactive environment"),
            GitError::ParseError { message } => append_str(&mut v, message.as_str()),
            GitError::LlmCommandFailed { .. } => append_str(&mut v, "commit generation command failed"),
            GitError::ProjectConfigNotFound { .. } => append_str(&mut v, "no project configuration found"),
            GitError::Other { message } => append_str(&mut v, message.as_str()),
        }
        assert(v@ =~= message_spec(*self));
        from_chars(v.as_slice())
    }

    /// The styled error message with emoji, colours and hints.
    #[verifier::rlimit(40)]
    pub fn styled(&self) -> (r: String)
        ensures
            r@ == styled_spec(*self),
    {
        let v: Vec<char> = match self {
            GitError::DetachedHead { action } => {
                let mut m = Vec::new();
                match action {
                    Some(a) => {
                        append_str(&mut m, "Cannot ");
                        append_str(&mut m, a.as_str());
                        append_str(&mut m, ": not on a branch (detached HEAD)");
                    },
                    None => append_str(&mut m, "Not on a branch (detached HEAD)"),
                }
                let mut v = error_line_exec(m.as_slice());
                append_str(&mut v, "\n\n");
                let h = hint_line_str("Switch to a branch first with 'git switch <branch>'");
                append_chars(&mut v, h.as_slice());
                v
            },
            GitError::UncommittedChanges { action } => {
                let mut m = Vec::new();
                match action {
                    Some(a) => {
                        append_str(&mut m, "Cannot ");
                        append_str(&mut m, a.as_str());
                        append_str(&mut m, ": working tree has uncommitted changes");
                    },
                    None => append_str(&mut m, "Working tree has uncommitted changes"),
                }
                let mut v = error_line_exec(m.as_slice());
                append_str(&mut v, "\n\n");
                let h = hint_line_str("Commit or stash them first");
                append_chars(&mut v, h.as_slice());
                v
            },
            GitError::BranchAlreadyExists { branch } => {
                let mut m = Vec::new();
                append_str(&mut m, "Branch ");
                append_error_bold(&mut m, branch.as_str());
                append_str(&mut m, " already exists");
                let mut v = error_line_exec(m.as_slice());
                append_str(&mut v, "\n\n");
                let h = hint_line_str("Remove --create flag to switch to it");
                append_chars(&mut v, h.as_slice());
                v
            },
            GitError::WorktreeMissing { branch } => {
                let mut m = Vec::new();
                append_str(&mut m, "Worktree directory missing for ");
                append_error_bold(&mut m, branch.as_str());
                let mut v = error_line_exec(m.as_slice());
                append_str(&mut v, "\n\n");
                let h = hint_line_str("Run 'git worktree prune' to clean up");
                append_chars(&mut v, h.as_slice());
                v
            },
            GitError::NoWorktreeFound { branch } => {
                let mut m = Vec::new();
                append_str(&mut m, "No worktree found for branch ");
                append_error_bold(&mut m, branch.as_str());
                error_line_exec(m.as_slice())
            },
            GitError::WorktreePathOccupied { branch, path, occupant } => {
                let mut m = Vec::new();
                append_str(&mut m, "Cannot create worktree for ");
                append_error_bold(&mut m, branch.as_str());
                append_str(&mut m, ": target path already exists");
                let mut v = error_line_exec(m.as_slice());
                append_str(&mut v, "\n\n");
                let mut h = Vec::new();
                append_str(&mut h, "Reuse the existing worktree at ");
                append_str(&mut h, path.as_str());
                match occupant {
                    Some(b) => {
                        append_str(&mut h, " (currently on ");
                        append_str(&mut h, HINT_BOLD);
                        append_str(&mut h, b.as_str());
                        append_str(&mut h, RESET);
                        append_str(&mut h, HINT);
                        append_str(&mut h, ")");
                    },
                    None => {},
                }
                append_str(&mut h, " or remove it before retrying");
                let hl = hint_line_exec(h.as_slice());
                append_chars(&mut v, hl.as_slice());
                v
            },
            GitError::WorktreePathExists { path } => {
                let mut m = Vec::new();
                append_str(&mut m, "Directory already exists: ");
                append_str(&mut m, ERROR_BOLD);
                append_str(&mut m, path.as_str());
                append_str(&mut m, RESET);
                let mut v = error_line_exec(m.as_slice());
                append_str(&mut v, "\n\n");
                let h = hint_line_str("Remove the directory or use a different branch name");
                append_chars(&mut v, h.as_slice());
                v
            },
            GitError::WorktreeCreationFailed { branch, base_branch, error } => {
                let mut m = Vec::new();
                append_str(&mut m, "Failed to create worktree for ");
                append_error_bold(&mut m, branch.as_str());
                match base_branch {
                    Some(b) => {
                        append_str(&mut m, " from base ");
                        append_error_bold(&mut m, b.as_str());
                    },
                    None => {},
                }
                let header = error_line_exec(m.as_slice());
                format_error_block(header, error.as_str())
            },
            GitError::WorktreeRemovalFailed { branch, path, error } => {
                let mut m = Vec::new();
                append_str(&mut m, "Failed to remove worktree for ");
                append_error_bold(&mut m, branch.as_str());
                append_str(&mut m, " at ");
                append_str(&mut m, ERROR_BOLD);
                append_str(&mut m, path.as_str());
                append_str(&mut m, RESET);
                let header = error_line_exec(m.as_slice());
                format_error_block(header, error.as_str())
            },
            GitError::ConflictingChanges { files, worktree_path } => {
                let m = to_chars("Cannot push: conflicting uncommitted changes in:");
                let mut v = error_line_exec(m.as_slice());
                append_str(&mut v, "\n\n");
                if files.len() > 0 {
                    let joined = join_lines_exec(files);
                    let g = format_with_gutter(joined.as_slice());
                    append_chars(&mut v, g.as_slice());
                }
                append_str(&mut v, "\n");
                let mut h = Vec::new();
                append_str(&mut h, "Commit or stash these changes in ");
                append_str(&mut h, worktree_path.as_str());
                append_str(&mut h, " first");
                let hl = hint_line_exec(h.as_slice());
                append_chars(&mut v, hl.as_slice());
                v
            },
            GitError::NotFastForward { target_branch, commits_formatted, in_merge_context } => {
                let mut m = Vec::new();
                append_str(&mut m, "Can't push to local ");
                append_error_bold(&mut m, target_branch.as_str());
                append_str(&mut m, " branch: it has newer commits");
                let mut v = error_line_exec(m.as_slice());
                let c = to_chars(commits_formatted.as_str());
                if c.len() > 0 {
                    append_str(&mut v, "\n");
                    let g = format_with_gutter(c.as_slice());
                    append_chars(&mut v, g.as_slice());
                }
                append_str(&mut v, "\n");
                let mut h = Vec::new();
                if *in_merge_context {
                    append_str(&mut h, "Run 'wt merge' again to incorporate these changes");
                } else {
                    append_str(&mut h, "Use 'wt step rebase' or 'wt merge' to rebase onto ");
                    append_str(&mut h, target_branch.as_str());
                }
                let hl = hint_line_exec(h.as_slice());
                append_chars(&mut v, hl.as_slice());
                v
            },
            GitError::MergeCommitsFound => {
                let m = to_chars("Found merge commits in push range");
                let mut v = error_line_exec(m.as_slice());
                append_str(&mut v, "\n\n");
                let h = hint_line_str("Use --allow-merge-commits to push non-linear history");
                append_chars(&mut v, h.as_slice());
                v
            },
            GitError::RebaseConflict { target_branch, git_output } => {
                let mut m = Vec::new();
                append_str(&mut m, "Rebase onto ");
                append_error_bold(&mut m, target_branch.as_str());
                append_str(&mut m, " incomplete");
                let mut v = error_line_exec(m.as_slice());
                let o = to_chars(git_output.as_str());
                if o.len() > 0 {
                    append_str(&mut v, "\n");
                    let g = format_with_gutter(o.as_slice());
                    append_chars(&mut v, g.as_slice());
                } else {
                    append_str(&mut v, "\n\n");
                    let h1 = hint_line_str("Resolve conflicts and run 'git rebase --continue'");
                    append_chars(&mut v, h1.as_slice());
                    append_str(&mut v, "\n");
                    let h2 = hint_line_str("Or abort with 'git rebase --abort'");
                    append_chars(&mut v, h2.as_slice());
                }
                v
            },
            GitError::PushFailed { error } => {
                let m = to_chars("Push failed");
                let header = error_line_exec(m.as_slice());
                format_error_block(header, error.as_str())
            },
            GitError::NotInteractive => {
                let m = to_chars("Cannot prompt for approval in non-interactive environment");
                let mut v = error_line_exec(m.as_slice());
                append_str(&mut v, "\n\n");
                let h = hint_line_str(
                    "In CI/CD, use --force to skip prompts. To pre-approve commands, use 'wt config approvals add'",
                );
                append_chars(&mut v, h.as_slice());
                v
            },
            GitError::LlmCommandFailed { command, error } => {
                let m = to_chars("Commit generation command failed");
                let header = error_line_exec(m.as_slice());
                let block = format_error_block(header, error.as_str());
                let mut v = trim_end_chars(block.as_slice());
                append_str(&mut v, "\n\n");
                append_str(&mut v, INFO_EMOJI);
                append_str(&mut v, " Ran command:\n");
                let c = to_chars(command.as_str());
                let g = format_with_gutter(c.as_slice());
                let gt = trim_end_chars(g.as_slice());
                append_chars(&mut v, gt.as_slice());
                v
            },
            GitError::ProjectConfigNotFound { config_path } => {
                let m = to_chars("No project configuration found");
                let mut v = error_line_exec(m.as_slice());
                append_str(&mut v, "\n\n");
                let mut h = Vec::new();
                append_str(&mut h, "Create a config file at: ");
                append_str(&mut h, HINT_BOLD);
                append_str(&mut h, config_path.as_str());
                append_str(&mut h, RESET);
                append_str(&mut h, HINT);
                let hl = hint_line_exec(h.as_slice());
                append_chars(&mut v, hl.as_slice());
                v
            },
            GitError::ParseError { message } => {
                let m = to_chars(message.as_str());
                error_line_exec(m.as_slice())
            },
            GitError::Other { message } => {
                let m = to_chars(message.as_str());
                error_line_exec(m.as_slice())
            },
        };
        assert(v@ =~= styled_spec(*self));
        from_chars(v.as_slice())
    }
}


/// Whether `err` is a [`GitError`] that satisfies `predicate`.
pub fn is_git_error<F>(err: &Error, predicate: F) -> (r: bool)
    where
        F: FnOnce(&GitError) -> bool,
    requires
        err matches Error::Git(g) ==> call_requires(predicate, (&g,)),
    ensures
        !(err is Git) ==> !r,
        err matches Error::Git(g) ==> call_ensures(predicate, (&g,), r),
{
    match err {
        Error::Git(g) => predicate(g),
        _ => false,
    }
}

/// Whether `err` is [`GitError::DetachedHead`].
pub fn is_detached_head(err: &Error) -> (r: bool)
    ensures
        r <==> (err matches Error::Git(g) && g is DetachedHead),
{
    match err {
        Error::Git(GitError::DetachedHead { .. }) => true,
        _ => false,
    }
}

/// Whether `err` is [`GitError::BranchAlreadyExists`].
pub fn is_branch_already_exists(err: &Error) -> (r: bool)
    ensures
        r <==> (err matches Error::Git(g) && g is BranchAlreadyExists),
{
    match err {
        Error::Git(GitError::BranchAlreadyExists { .. }) => true,
        _ => false,
    }
}

/// The exit code that `err` carries: a child process's code, or a failed
/// hook's code when it has one.
pub fn exit_code(err: &Error) -> (r: Option<i32>)
    ensures
        r == (match *err {
            Error::Worktrunk(WorktrunkError::ChildProcessExited { code, .. }) => Some(code),
            Error::Worktrunk(WorktrunkError::HookCommandFailed { exit_code, .. }) => exit_code,
            _ => None,
        }),
{
    match err {
        Error::Worktrunk(WorktrunkError::ChildProcessExited { code, .. }) => Some(*code),
        Error::Worktrunk(WorktrunkError::HookCommandFailed { exit_code, .. }) => *exit_code,
        _ => None,
    }
}

/// Whether `err` is [`WorktrunkError::CommandNotApproved`].
pub fn is_command_not_approved(err: &Error) -> (r: bool)
    ensures
        r <==> (err matches Error::Worktrunk(w) && w is CommandNotApproved),
{
    match err {
        Error::Worktrunk(WorktrunkError::CommandNotApproved) => true,
        _ => false,
    }
}

/// The styled message of a [`WorktrunkError`].
pub open spec fn worktrunk_message_spec(e: WorktrunkError) -> Seq<char> {
    match e {
        WorktrunkError::ChildProcessExited { message, .. } => error_line(message@),
        WorktrunkError::HookCommandFailed { hook_type, command_name, error, .. } => {
            let suffix = match command_name {
                Some(n) => ": "@ + error_bold(n@),
                None => Seq::empty(),
            };
            error_line(hook_type@ + " command failed"@ + suffix + ": "@ + error@) + "\n\n"@
                + hint_line("Use --no-verify to skip "@ + hook_type@ + " commands"@)
        },
        WorktrunkError::CommandNotApproved => Seq::empty(),
    }
}

impl WorktrunkError {
    /// The styled message of this error (empty for a silent error).
    pub fn message(&self) -> (r: String)
        ensures
            r@ == worktrunk_message_spec(*self),
    {
        let v: Vec<char> = match self {
            WorktrunkError::ChildProcessExited { message, .. } => {
                let m = to_chars(message.as_str());
                error_line_exec(m.as_slice())
            },
            WorktrunkError::HookCommandFailed { hook_type, command_name, error, .. } => {
                let mut m = Vec::new();
                append_str(&mut m, hook_type.as_str());
                append_str(&mut m, " command failed");
                match command_name {
                    Some(n) => {
                        append_str(&mut m, ": ");
                        append_error_bold(&mut m, n.as_str());
                    },
                    None => {},
                }
                append_str(&mut m, ": ");
                append_str(&mut m, error.as_str());
                let mut v = error_line_exec(m.as_slice());
                append_str(&mut v, "\n\n");
                let mut h = Vec::new();
                append_str(&mut h, "Use --no-verify to skip ");
                append_str(&mut h, hook_type.as_str());
                append_str(&mut h, " commands");
                let hl = hint_line_exec(h.as_slice());
                append_chars(&mut v, hl.as_slice());
                v
            },
            WorktrunkError::CommandNotApproved => Vec::new(),
        };
        assert(v@ =~= worktrunk_message_spec(*self));
        from_chars(v.as_slice())
    }
}

} // verus!
