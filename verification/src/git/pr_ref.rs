//! PR reference resolution (`pr:<number>` syntax) for GitHub.
//!
//! `pr:<number>` is unambiguous because colons are invalid in git branch
//! names. Same-repo PRs use the head branch directly; fork PRs get a local
//! branch `<owner>/<branch>` that pulls from the base repository's PR ref and
//! pushes to the fork's URL.

use vstd::prelude::*;
use crate::git::error::Error;
use crate::git::remote_ref::branch_tracks;
use crate::git::remote_ref::info::copy_string;
use crate::text::{
    append_chars, append_str, contains_str, contains_sub, decimal, decimal_chars, eq_chars,
    from_chars, parse_u32_chars, parse_u32_spec, starts_with, starts_with_chars, strip_prefix,
    strip_prefix_chars, to_chars, trim, trim_chars,
};

verus! {

/// Information about a PR retrieved from GitHub.
#[derive(Debug, Clone)]
pub struct PrInfo {
    /// The PR number.
    pub number: u32,
    /// The branch name in the head repository.
    pub head_ref_name: String,
    /// The owner of the head repository (fork owner for cross-repo PRs).
    pub head_owner: String,
    /// The name of the head repository.
    pub head_repo: String,
    /// The owner of the base repository (where the PR was opened).
    pub base_owner: String,
    /// The name of the base repository.
    pub base_repo: String,
    /// Whether this is a cross-repository (fork) PR.
    pub is_cross_repository: bool,
    /// The PR's web URL.
    pub url: String,
}

/// The number in `pr:<number>`.
pub open spec fn parse_pr_ref_spec(input: Seq<char>) -> Option<u32> {
    match strip_prefix(input, "pr:"@) {
        Some(suffix) => parse_u32_spec(suffix),
        None => None,
    }
}

/// Parse a `pr:<number>` reference, returning the PR number if valid.
pub fn parse_pr_ref(input: &str) -> (r: Option<u32>)
    ensures
        r == parse_pr_ref_spec(input@),
{
    let v = to_chars(input);
    let p = to_chars("pr:");
    match strip_prefix_chars(v.as_slice(), p.as_slice()) {
        Some(suffix) => parse_u32_chars(suffix.as_slice()),
        None => None,
    }
}

/// The local branch for a PR: `<owner>/<branch>` for forks, else the branch.
pub open spec fn pr_local_branch(pr: PrInfo) -> Seq<char> {
    if pr.is_cross_repository {
        pr.head_owner@ + seq!['/'] + pr.head_ref_name@
    } else {
        pr.head_ref_name@
    }
}

/// Generate the local branch name for a PR.
pub fn local_branch_name(pr: &PrInfo) -> (r: String)
    ensures
        r@ == pr_local_branch(*pr),
{
    if pr.is_cross_repository {
        let mut v = to_chars(pr.head_owner.as_str());
        v.push('/');
        append_str(&mut v, pr.head_ref_name.as_str());
        from_chars(v.as_slice())
    } else {
        copy_string(&pr.head_ref_name)
    }
}

/// The GitHub URL of a fork in the protocol of the primary remote: SSH when
/// that remote starts with `git@` or contains `ssh://`, else HTTPS.
pub open spec fn pr_fork_url(owner: Seq<char>, repo: Seq<char>, remote_url: Seq<char>) -> Seq<char> {
    if starts_with(remote_url, "git@"@) || contains_sub(remote_url, "ssh://"@) {
        "git@github.com:"@ + owner + seq!['/'] + repo + ".git"@
    } else {
        "https://github.com/"@ + owner + seq!['/'] + repo + ".git"@
    }
}

/// Construct the remote URL for a fork, matching the protocol of the primary
/// remote.
pub fn fork_remote_url(owner: &str, repo: &str, remote_url: &str) -> (r: String)
    ensures
        r@ == pr_fork_url(owner@, repo@, remote_url@),
{
    let u = to_chars(remote_url);
    let git_at = to_chars("git@");
    let ssh = starts_with_chars(u.as_slice(), git_at.as_slice()) || contains_str(u.as_slice(), "ssh://");
    let mut v = if ssh { to_chars("git@github.com:") } else { to_chars("https://github.com/") };
    append_str(&mut v, owner);
    v.push('/');
    append_str(&mut v, repo);
    append_str(&mut v, ".git");
    from_chars(v.as_slice())
}

/// Whether a branch tracks PR `pr_number` (`refs/pull/<n>/head`), from its
/// `branch.<name>.merge` setting and whether it exists.
pub fn branch_tracks_pr(merge_ref: Option<&str>, branch_exists: bool, pr_number: u32) -> (r: Option<bool>)
    ensures
        r == (match merge_ref {
            Some(m) => Some(trim(m@) == "refs/pull/"@ + decimal(pr_number as nat) + "/head"@),
            None => if branch_exists {
                Some(false)
            } else {
                None
            },
        }),
{
    let mut v = to_chars("refs/pull/");
    let d = decimal_chars(pr_number as u64);
    append_chars(&mut v, d.as_slice());
    append_str(&mut v, "/head");
    let expected = from_chars(v.as_slice());
    branch_tracks(merge_ref, branch_exists, expected.as_str())
}

/// `s.to_lowercase()`: full Unicode lowercase mapping.
pub uninterp spec fn unicode_lowercase(s: Seq<char>) -> Seq<char>;

/// `str::to_lowercase`, whose result is the Unicode lowercase mapping of its
/// argument and nothing else.
#[verifier::external_body]
pub(crate) fn lowercase(s: &str) -> (r: String)
    ensures
        r@ == unicode_lowercase(s@),
{
    s.to_lowercase()
}

/// `PR #<n>`.
pub open spec fn pr_label(n: u32) -> Seq<char> {
    "PR #"@ + decimal(n as nat)
}

/// The error for a failed `gh api` call, chosen by what its stderr says
/// (compared in lowercase): not found, not authenticated, rate limited,
/// network trouble, or else the trimmed stderr itself.
pub open spec fn pr_failure_message(n: u32, stderr: Seq<char>) -> Seq<char> {
    failure_message_lowered(n, stderr, unicode_lowercase(stderr))
}

/// The message for a failed `gh api` call, given its stderr and that stderr
/// in lowercase (`l`).
pub open spec fn failure_message_lowered(n: u32, stderr: Seq<char>, l: Seq<char>) -> Seq<char> {
    if contains_sub(l, "not found"@) || contains_sub(l, "404"@) {
        pr_label(n) + " not found"@
    } else if contains_sub(l, "authentication"@) || contains_sub(l, "logged in"@) || contains_sub(
        l,
        "auth login"@,
    ) || contains_sub(l, "not logged"@) || contains_sub(l, "401"@) {
        "GitHub CLI not authenticated; run gh auth login"@
    } else if contains_sub(l, "rate limit"@) || contains_sub(l, "api rate"@) || contains_sub(l, "403"@) {
        "GitHub API rate limit exceeded; wait a few minutes and retry"@
    } else if contains_sub(l, "network"@) || contains_sub(l, "connection"@) || contains_sub(l, "timeout"@) {
        "Network error connecting to GitHub; check your internet connection"@
    } else {
        "gh api failed: "@ + trim(stderr)
    }
}

fn pr_label_exec(n: u32) -> (r: Vec<char>)
    ensures
        r@ == pr_label(n),
{
    let mut v = to_chars("PR #");
    let d = decimal_chars(n as u64);
    append_chars(&mut v, d.as_slice());
    v
}

fn other(v: Vec<char>) -> (r: Error)
    ensures
        r matches Error::Other(m) && m@ == v@,
{
    Error::Other(from_chars(v.as_slice()))
}

/// The error for a `gh api` call that exited unsuccessfully.
pub fn pr_fetch_failure(pr_number: u32, stderr: &str) -> (r: Error)
    ensures
        r matches Error::Other(m) && m@ == pr_failure_message(pr_number, stderr@),
{
    let lower = lowercase(stderr);
    pr_failure_from_lowercase(pr_number, stderr, lower.as_str())
}

/// The error for a failed `gh api` call, given its stderr and that stderr
/// in lowercase.
pub fn pr_failure_from_lowercase(pr_number: u32, stderr: &str, stderr_lower: &str) -> (r: Error)
    ensures
        r matches Error::Other(m) && m@ == failure_message_lowered(pr_number, stderr@, stderr_lower@),
{
    let l = to_chars(stderr_lower);
    let l = l.as_slice();
    if contains_str(l, "not found") || contains_str(l, "404") {
        let mut v = pr_label_exec(pr_number);
        append_str(&mut v, " not found");
        other(v)
    } else if contains_str(l, "authentication") || contains_str(l, "logged in") || contains_str(
        l,
        "auth login",
    ) || contains_str(l, "not logged") || contains_str(l, "401") {
        other(to_chars("GitHub CLI not authenticated; run gh auth login"))
    } else if contains_str(l, "rate limit") || contains_str(l, "api rate") || contains_str(l, "403") {
        other(to_chars("GitHub API rate limit exceeded; wait a few minutes and retry"))
    } else if contains_str(l, "network") || contains_str(l, "connection") || contains_str(l, "timeout") {
        other(to_chars("Network error connecting to GitHub; check your internet connection"))
    } else {
        let mut v = to_chars("gh api failed: ");
        let s = to_chars(stderr);
        let t = trim_chars(s.as_slice());
        append_chars(&mut v, t.as_slice());
        other(v)
    }
}

/// Whether the error of starting `gh` says the program is missing.
pub open spec fn gh_missing(error: Seq<char>) -> bool {
    contains_sub(error, "No such file"@) || contains_sub(error, "not found"@) || contains_sub(error, "cannot find"@)
}

/// The context under which the error of a `gh` process that could not be
/// started is reported, when `gh` is installed.
pub const GH_RUN_CONTEXT: &'static str = "Failed to run gh api";

/// The error for a `gh` process that could not be started, when the error
/// says `gh` is missing; `None` otherwise, where the caller reports the
/// error itself under `GH_RUN_CONTEXT`.
pub fn pr_spawn_failure(error: &str) -> (r: Option<Error>)
    ensures
        gh_missing(error@) ==> (r matches Some(Error::Other(m))
            && m@ == "GitHub CLI (gh) not installed; install from https://cli.github.com/"@),
        !gh_missing(error@) ==> r is None,
{
    let e = to_chars(error);
    let e = e.as_slice();
    if contains_str(e, "No such file") || contains_str(e, "not found") || contains_str(e, "cannot find") {
        Some(other(to_chars("GitHub CLI (gh) not installed; install from https://cli.github.com/")))
    } else {
        None
    }
}

/// The PR that a parsed `gh api repos/{owner}/{repo}/pulls/<n>` response
/// describes. A head branch must be named; the PR is cross-repository when
/// the base and head repositories differ in owner or name.
pub fn pr_info_from_response(
    pr_number: u32,
    head_ref_name: String,
    head_owner: String,
    head_repo: String,
    base_owner: String,
    base_repo: String,
    html_url: String,
) -> (r: Result<PrInfo, Error>)
    ensures
        head_ref_name@.len() == 0 ==> (r matches Err(Error::Other(m))
            && m@ == pr_label(pr_number) + " has empty branch name; the PR may be in an invalid state"@),
        head_ref_name@.len() > 0 ==> (r matches Ok(pr) && pr == PrInfo {
            number: pr_number,
            head_ref_name,
            head_owner,
            head_repo,
            base_owner,
            base_repo,
            is_cross_repository: base_owner@ != head_owner@ || base_repo@ != head_repo@,
            url: html_url,
        }),
{
    let head_chars = to_chars(head_ref_name.as_str());
    if head_chars.len() == 0 {
        let mut v = pr_label_exec(pr_number);
        append_str(&mut v, " has empty branch name; the PR may be in an invalid state");
        return Err(other(v));
    }
    let bo = to_chars(base_owner.as_str());
    let ho = to_chars(head_owner.as_str());
    let br = to_chars(base_repo.as_str());
    let hr = to_chars(head_repo.as_str());
    let is_cross = !eq_chars(bo.as_slice(), ho.as_slice()) || !eq_chars(br.as_slice(), hr.as_slice());
    Ok(PrInfo {
        number: pr_number,
        head_ref_name,
        head_owner,
        head_repo,
        base_owner,
        base_repo,
        is_cross_repository: is_cross,
        url: html_url,
    })
}


/// `pr:<n>` names PR `n`: the reference written for a PR number parses back
/// to that number.
pub proof fn lemma_pr_ref_roundtrip(n: u32)
    ensures
        parse_pr_ref_spec("pr:"@ + decimal(n as nat)) == Some(n),
{
    let s = "pr:"@ + decimal(n as nat);
    assert(s.take("pr:"@.len() as int) =~= "pr:"@);
    assert(s.skip("pr:"@.len() as int) =~= decimal(n as nat));
    crate::text::lemma_parse_decimal(n);
}

} // verus!
