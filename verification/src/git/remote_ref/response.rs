//! Turning forge API responses into [`RemoteRefInfo`].
//!
//! Running `gh`, `glab`, `tea` or `az` and parsing their JSON is the caller's
//! part; these functions take the fields that were read and decide: which
//! failures mean what, whether a PR/MR is usable, whether it comes from a fork,
//! and where a fork is pushed to.

use vstd::prelude::*;
use crate::git::RefType;
use crate::git::error::Error;
use crate::git::remote_ref::{host_of_html_url, extract_host_from_html_url, eq_ignore_case};
use crate::git::remote_ref::info::{copy_string, opt_str, prefer_url, prefer_url_exec, PlatformData, RemoteRefInfo};
use crate::git::remote_ref::github::{self, github_repo_url};
use crate::git::remote_ref::gitea::{self, gitea_repo_url, source_branch_spec, extract_source_branch, TeaPrRef};
use crate::git::pr_ref::{pr_label, unicode_lowercase};
use crate::git::remote_ref::azure::{parse_web_url, web_url_parts};
use crate::text::{
    ascii_lower_chars, ascii_lower_seq,
    append_chars, append_str, contains_str, contains_sub, decimal, decimal_chars, from_chars,
    starts_with, starts_with_chars, strip_prefix, strip_prefix_chars, strip_prefix_or_keep,
    strip_prefix_or_keep_chars, to_chars, trim, trim_chars,
};

verus! {

/// A repository as a forge API reports it: owner login and name.
#[derive(Debug, Clone)]
pub struct ApiRepo {
    pub owner: String,
    pub name: String,
}

/// Whether head and base differ in owner or name (up to ASCII case).
pub open spec fn is_fork(base: ApiRepo, head: ApiRepo) -> bool {
    !eq_ignore_case(base.owner@, head.owner@) || !eq_ignore_case(base.name@, head.name@)
}

fn is_fork_exec(base: &ApiRepo, head: &ApiRepo) -> (r: bool)
    ensures
        r == is_fork(*base, *head),
{
    let bo = to_chars(base.owner.as_str());
    let ho = to_chars(head.owner.as_str());
    let bn = to_chars(base.name.as_str());
    let hn = to_chars(head.name.as_str());
    !crate::git::remote_ref::eq_ignore_case_exec(bo.as_slice(), ho.as_slice())
        || !crate::git::remote_ref::eq_ignore_case_exec(bn.as_slice(), hn.as_slice())
}

fn err(v: Vec<char>) -> (r: Error)
    ensures
        r matches Error::Other(m) && m@ == v@,
{
    Error::Other(from_chars(v.as_slice()))
}

fn pr_label_chars(n: u32) -> (r: Vec<char>)
    ensures
        r@ == pr_label(n),
{
    let mut v = to_chars("PR #");
    let d = decimal_chars(n as u64);
    append_chars(&mut v, d.as_slice());
    v
}

/// The fields of a GitHub or Gitea pull request response that the checkout
/// needs.
#[derive(Debug, Clone)]
pub struct PrResponse {
    pub title: String,
    pub author: String,
    pub state: String,
    pub draft: bool,
    pub head_ref: String,
    pub head_label: String,
    pub head_repo: Option<ApiRepo>,
    pub base_repo: Option<ApiRepo>,
    pub html_url: String,
}

/// Why a GitHub or Gitea pull request response cannot be checked out, if it
/// cannot: an unnamed head branch, a missing base repository, a deleted head
/// repository, or a web URL without a host, in that order of checking.
pub open spec fn github_response_error(n: u32, r: PrResponse) -> Option<Seq<char>> {
    if r.head_ref@.len() == 0 {
        Some(pr_label(n) + " has empty branch name; the PR may be in an invalid state"@)
    } else if r.base_repo is None {
        Some("PR base repository is null; this is unexpected and may indicate a GitHub API issue"@)
    } else if r.head_repo is None {
        Some(pr_label(n) + " source repository was deleted. The fork that this PR was opened from no longer exists, so the branch cannot be checked out."@)
    } else if host_of_html_url(r.html_url@) is None {
        Some("Failed to parse host from PR URL: "@ + r.html_url@)
    } else {
        None
    }
}

/// The remote ref a valid GitHub pull request response describes: a fork PR
/// (head and base differ) pushes to the head repository's URL on the PR's
/// host, in the `gh` protocol (`use_ssh`).
pub open spec fn github_info_matches(n: u32, r: PrResponse, use_ssh: bool, info: RemoteRefInfo) -> bool {
    let head = r.head_repo->0;
    let base = r.base_repo->0;
    let host = host_of_html_url(r.html_url@)->0;
    let fork = is_fork(base, head);
    &&& info.ref_type == RefType::Pr
    &&& info.number == n
    &&& info.title@ == r.title@ && info.author@ == r.author@ && info.state@ == r.state@
    &&& info.draft == r.draft
    &&& info.source_branch@ == r.head_ref@
    &&& info.is_cross_repo == fork
    &&& info.url@ == r.html_url@
    &&& opt_str(info.fork_push_url) == (if fork {
        Some(github_repo_url(use_ssh, host, head.owner@, head.name@))
    } else {
        None
    })
    &&& info.platform_data matches PlatformData::GitHub { host: h, head_owner, head_repo, base_owner, base_repo }
        && h@ == host && head_owner@ == head.owner@ && head_repo@ == head.name@
        && base_owner@ == base.owner@ && base_repo@ == base.name@
}

/// Turn a parsed GitHub pull request response into a remote ref.
pub fn github_ref_info(n: u32, r: PrResponse, use_ssh: bool) -> (res: Result<RemoteRefInfo, Error>)
    ensures
        match github_response_error(n, r) {
            Some(m) => res matches Err(Error::Other(e)) && e@ == m,
            None => res matches Ok(info) && github_info_matches(n, r, use_ssh, info),
        },
{
    let head_ref = to_chars(r.head_ref.as_str());
    if head_ref.len() == 0 {
        let mut v = pr_label_chars(n);
        append_str(&mut v, " has empty branch name; the PR may be in an invalid state");
        return Err(err(v));
    }
    let base = match r.base_repo {
        Some(b) => b,
        None => return Err(err(to_chars("PR base repository is null; this is unexpected and may indicate a GitHub API issue"))),
    };
    let head = match r.head_repo {
        Some(h) => h,
        None => {
            let mut v = pr_label_chars(n);
            append_str(&mut v, " source repository was deleted. The fork that this PR was opened from no longer exists, so the branch cannot be checked out.");
            return Err(err(v));
        },
    };
    let fork = is_fork_exec(&base, &head);
    let host = match extract_host_from_html_url(r.html_url.as_str()) {
        Ok(h) => h,
        Err(e) => return Err(e),
    };
    let fork_push_url = if fork {
        Some(github::fork_remote_url(use_ssh, host.as_str(), head.owner.as_str(), head.name.as_str()))
    } else {
        None
    };
    Ok(RemoteRefInfo {
        ref_type: RefType::Pr,
        number: n,
        title: r.title,
        author: r.author,
        state: r.state,
        draft: r.draft,
        source_branch: r.head_ref,
        is_cross_repo: fork,
        url: r.html_url,
        fork_push_url,
        platform_data: PlatformData::GitHub {
            host,
            head_owner: head.owner,
            head_repo: head.name,
            base_owner: base.owner,
            base_repo: base.name,
        },
    })
}

/// Why a Gitea pull request response cannot be checked out, if it cannot:
/// no source branch, a missing base repository, a deleted head repository,
/// or a web URL without a host, in that order of checking.
pub open spec fn gitea_response_error(n: u32, r: PrResponse) -> Option<Seq<char>> {
    if source_branch_spec(r.head_label@, r.head_ref@) is None {
        Some("Gitea "@ + pr_label(n) + " has no source branch in head.label/head.ref; the PR may be in an invalid state"@)
    } else if r.base_repo is None {
        Some("Gitea PR base repository is null; this is unexpected and may indicate a Gitea API issue"@)
    } else if r.head_repo is None {
        Some("Gitea "@ + pr_label(n) + " source repository was deleted. The fork that this PR was opened from no longer exists, so the branch cannot be checked out."@)
    } else if host_of_html_url(r.html_url@) is None {
        Some("Failed to parse host from PR URL: "@ + r.html_url@)
    } else {
        None
    }
}

/// The remote ref a valid Gitea pull request response describes.
pub open spec fn gitea_info_matches(n: u32, r: PrResponse, info: RemoteRefInfo) -> bool {
    let head = r.head_repo->0;
    let base = r.base_repo->0;
    let host = host_of_html_url(r.html_url@)->0;
    let fork = is_fork(base, head);
    &&& info.ref_type == RefType::Pr
    &&& info.number == n
    &&& info.title@ == r.title@ && info.author@ == r.author@ && info.state@ == r.state@
    &&& info.draft == r.draft
    &&& info.source_branch@ == source_branch_spec(r.head_label@, r.head_ref@)->0
    &&& info.is_cross_repo == fork
    &&& info.url@ == r.html_url@
    &&& opt_str(info.fork_push_url) == (if fork {
        Some(gitea_repo_url(host, head.owner@, head.name@))
    } else {
        None
    })
    &&& info.platform_data matches PlatformData::Gitea { host: h, head_owner, head_repo, base_owner, base_repo }
        && h@ == host && head_owner@ == head.owner@ && head_repo@ == head.name@
        && base_owner@ == base.owner@ && base_repo@ == base.name@
}

/// Turn a parsed Gitea pull request response into a remote ref.
pub fn gitea_ref_info(n: u32, r: PrResponse) -> (res: Result<RemoteRefInfo, Error>)
    ensures
        match gitea_response_error(n, r) {
            Some(m) => res matches Err(Error::Other(e)) && e@ == m,
            None => res matches Ok(info) && gitea_info_matches(n, r, info),
        },
{
    let head_ref = TeaPrRef { label: copy_string(&r.head_label), ref_name: copy_string(&r.head_ref), repo: None };
    let source_branch = match extract_source_branch(&head_ref) {
        Some(b) => b,
        None => {
            let mut v = to_chars("Gitea ");
            let l = pr_label_chars(n);
            append_chars(&mut v, l.as_slice());
            append_str(&mut v, " has no source branch in head.label/head.ref; the PR may be in an invalid state");
            return Err(err(v));
        },
    };
    let base = match r.base_repo {
        Some(b) => b,
        None => return Err(err(to_chars("Gitea PR base repository is null; this is unexpected and may indicate a Gitea API issue"))),
    };
    let head = match r.head_repo {
        Some(h) => h,
        None => {
            let mut v = to_chars("Gitea ");
            let l = pr_label_chars(n);
            append_chars(&mut v, l.as_slice());
            append_str(&mut v, " source repository was deleted. The fork that this PR was opened from no longer exists, so the branch cannot be checked out.");
            return Err(err(v));
        },
    };
    let fork = is_fork_exec(&base, &head);
    let host = match extract_host_from_html_url(r.html_url.as_str()) {
        Ok(h) => h,
        Err(e) => return Err(e),
    };
    let fork_push_url = if fork {
        Some(gitea::fork_remote_url(host.as_str(), head.owner.as_str(), head.name.as_str()))
    } else {
        None
    };
    Ok(RemoteRefInfo {
        ref_type: RefType::Pr,
        number: n,
        title: r.title,
        author: r.author,
        state: r.state,
        draft: r.draft,
        source_branch,
        is_cross_repo: fork,
        url: r.html_url,
        fork_push_url,
        platform_data: PlatformData::Gitea {
            host,
            head_owner: head.owner,
            head_repo: head.name,
            base_owner: base.owner,
            base_repo: base.name,
        },
    })
}


/// What a failed forge API call means.
#[derive(Debug, Clone)]
pub enum ApiFailure {
    /// The PR is not on the queried repository; another remote may have it.
    NotFound,
    /// A failure with a message for the user.
    Failed(Error),
    /// The CLI failed for another reason: what was attempted, and what the
    /// CLI printed.
    CliApi { ref_type: RefType, message: String, details: String },
}

/// What a failed CLI call printed: its trimmed stderr, or its trimmed stdout
/// when stderr is blank.
pub open spec fn cli_details(stderr: Seq<char>, stdout: Seq<char>) -> Seq<char> {
    if trim(stderr).len() == 0 {
        trim(stdout)
    } else {
        trim(stderr)
    }
}

/// The details of a failed CLI call (see [`cli_details`]).
pub fn cli_api_error_details(stderr: &str, stdout: &str) -> (r: String)
    ensures
        r@ == cli_details(stderr@, stdout@),
{
    let e = to_chars(stderr);
    let te = trim_chars(e.as_slice());
    if te.len() == 0 {
        let o = to_chars(stdout);
        let to = trim_chars(o.as_slice());
        from_chars(to.as_slice())
    } else {
        from_chars(te.as_slice())
    }
}

/// What a failed `gh api` call for PR `n` means, from the `status` and
/// `message` of its JSON error (when it printed one) and its output: 404 is
/// not found; 401 is missing authentication; 403 is a rate limit when the
/// message (in lowercase) says so and forbidden access otherwise; anything
/// else is a CLI failure.
pub open spec fn github_failure_spec(n: u32, error: Option<(Seq<char>, Seq<char>)>, stderr: Seq<char>, stdout: Seq<char>) -> ApiFailureView {
    let lowered = match error {
        Some((_, message)) => unicode_lowercase(message),
        None => Seq::empty(),
    };
    github_failure_lowered(n, error, lowered, stderr, stdout)
}

/// [`github_failure_spec`], given the JSON error's message in lowercase
/// (`lowered`).
pub open spec fn github_failure_lowered(
    n: u32,
    error: Option<(Seq<char>, Seq<char>)>,
    lowered: Seq<char>,
    stderr: Seq<char>,
    stdout: Seq<char>,
) -> ApiFailureView {
    match error {
        Some((status, message)) => if status == "404"@ {
            ApiFailureView::NotFound
        } else if status == "401"@ {
            ApiFailureView::Failed("GitHub CLI not authenticated; run gh auth login"@)
        } else if status == "403"@ {
            if contains_sub(lowered, "rate limit"@) {
                ApiFailureView::Failed("GitHub API rate limit exceeded; wait a few minutes and retry"@)
            } else {
                ApiFailureView::Failed("GitHub API access forbidden: "@ + message)
            }
        } else {
            ApiFailureView::CliApi(RefType::Pr, "gh api failed for "@ + pr_label(n), cli_details(stderr, stdout))
        },
        None => ApiFailureView::CliApi(RefType::Pr, "gh api failed for "@ + pr_label(n), cli_details(stderr, stdout)),
    }
}

/// An [`ApiFailure`] as the contracts see it.
pub enum ApiFailureView {
    NotFound,
    Failed(Seq<char>),
    CliApi(RefType, Seq<char>, Seq<char>),
}

/// The view of an [`ApiFailure`].
pub open spec fn failure_view(f: ApiFailure) -> ApiFailureView {
    match f {
        ApiFailure::NotFound => ApiFailureView::NotFound,
        ApiFailure::Failed(e) => match e {
            Error::Other(m) => ApiFailureView::Failed(m@),
            _ => ApiFailureView::Failed(Seq::empty()),
        },
        ApiFailure::CliApi { ref_type, message, details } => ApiFailureView::CliApi(ref_type, message@, details@),
    }
}

fn failed(v: Vec<char>) -> (r: ApiFailure)
    ensures
        failure_view(r) == ApiFailureView::Failed(v@),
{
    ApiFailure::Failed(err(v))
}

fn cli_failure(ref_type: RefType, message: Vec<char>, stderr: &str, stdout: &str) -> (r: ApiFailure)
    ensures
        failure_view(r) == ApiFailureView::CliApi(ref_type, message@, cli_details(stderr@, stdout@)),
{
    ApiFailure::CliApi { ref_type, message: from_chars(message.as_slice()), details: cli_api_error_details(stderr, stdout) }
}

/// Classify a failed `gh api` call for PR `n`.
pub fn github_api_failure(n: u32, error: Option<(&str, &str)>, stderr: &str, stdout: &str) -> (r: ApiFailure)
    ensures
        failure_view(r) == github_failure_spec(
            n,
            match error {
                Some((s, m)) => Some((s@, m@)),
                None => None,
            },
            stderr@,
            stdout@,
        ),
{
    let lowered = match error {
        Some((_, message)) => crate::git::pr_ref::lowercase(message),
        None => String::new(),
    };
    github_api_failure_lowered(n, error, lowered.as_str(), stderr, stdout)
}

/// Classify a failed `gh api` call for PR `n`, given the JSON error's
/// message in lowercase.
pub fn github_api_failure_lowered(n: u32, error: Option<(&str, &str)>, lowered: &str, stderr: &str, stdout: &str) -> (r: ApiFailure)
    ensures
        failure_view(r) == github_failure_lowered(
            n,
            match error {
                Some((s, m)) => Some((s@, m@)),
                None => None,
            },
            lowered@,
            stderr@,
            stdout@,
        ),
{
    match error {
        Some((status, message)) => {
            let s = to_chars(status);
            if crate::text::eq_chars(s.as_slice(), to_chars("404").as_slice()) {
                return ApiFailure::NotFound;
            } else if crate::text::eq_chars(s.as_slice(), to_chars("401").as_slice()) {
                return failed(to_chars("GitHub CLI not authenticated; run gh auth login"));
            } else if crate::text::eq_chars(s.as_slice(), to_chars("403").as_slice()) {
                let l = to_chars(lowered);
                if contains_str(l.as_slice(), "rate limit") {
                    return failed(to_chars("GitHub API rate limit exceeded; wait a few minutes and retry"));
                }
                let mut v = to_chars("GitHub API access forbidden: ");
                append_str(&mut v, message);
                return failed(v);
            }
        },
        None => {},
    }
    let mut m = to_chars("gh api failed for ");
    let l = pr_label_chars(n);
    append_chars(&mut m, l.as_slice());
    cli_failure(RefType::Pr, m, stderr, stdout)
}

/// `MR !<n>`.
pub open spec fn mr_label(n: u32) -> Seq<char> {
    "MR !"@ + decimal(n as nat)
}

fn mr_label_chars(n: u32) -> (r: Vec<char>)
    ensures
        r@ == mr_label(n),
{
    let mut v = to_chars("MR !");
    let d = decimal_chars(n as u64);
    append_chars(&mut v, d.as_slice());
    v
}

/// What a failed `glab api` call for MR `n` means, from the `message` and
/// `error` fields of its JSON error (when it printed one; the message wins
/// unless empty) and its output: a text starting with 404, 401 or 403 is not
/// found, missing authentication, or forbidden access; anything else is a
/// CLI failure.
pub open spec fn gitlab_failure_spec(n: u32, error: Option<(Seq<char>, Seq<char>)>, stderr: Seq<char>, stdout: Seq<char>) -> ApiFailureView {
    let fallback = ApiFailureView::CliApi(RefType::Mr, "glab api failed for "@ + mr_label(n), cli_details(stderr, stdout));
    match error {
        Some((message, error_field)) => {
            let text = if message.len() > 0 { message } else { error_field };
            if starts_with(text, "404"@) {
                ApiFailureView::Failed(mr_label(n) + " not found"@)
            } else if starts_with(text, "401"@) {
                ApiFailureView::Failed("GitLab CLI not authenticated; run glab auth login"@)
            } else if starts_with(text, "403"@) {
                ApiFailureView::Failed("GitLab API access forbidden for "@ + mr_label(n))
            } else {
                fallback
            }
        },
        None => fallback,
    }
}

/// Classify a failed `glab api` call for MR `n`.
pub fn gitlab_api_failure(n: u32, error: Option<(&str, &str)>, stderr: &str, stdout: &str) -> (r: ApiFailure)
    ensures
        failure_view(r) == gitlab_failure_spec(
            n,
            match error {
                Some((m, e)) => Some((m@, e@)),
                None => None,
            },
            stderr@,
            stdout@,
        ),
{
    match error {
        Some((message, error_field)) => {
            let m = to_chars(message);
            let text = if m.len() > 0 { m } else { to_chars(error_field) };
            if starts_with_chars(text.as_slice(), to_chars("404").as_slice()) {
                let mut v = mr_label_chars(n);
                append_str(&mut v, " not found");
                return failed(v);
            } else if starts_with_chars(text.as_slice(), to_chars("401").as_slice()) {
                return failed(to_chars("GitLab CLI not authenticated; run glab auth login"));
            } else if starts_with_chars(text.as_slice(), to_chars("403").as_slice()) {
                let mut v = to_chars("GitLab API access forbidden for ");
                let l = mr_label_chars(n);
                append_chars(&mut v, l.as_slice());
                return failed(v);
            }
        },
        None => {},
    }
    let mut msg = to_chars("glab api failed for ");
    let l = mr_label_chars(n);
    append_chars(&mut msg, l.as_slice());
    cli_failure(RefType::Mr, msg, stderr, stdout)
}

/// The fields of a GitLab merge request response that the checkout needs.
#[derive(Debug, Clone)]
pub struct MrResponse {
    pub title: String,
    pub author: String,
    pub state: String,
    pub draft: bool,
    pub source_branch: String,
    pub source_project_id: u64,
    pub target_project_id: u64,
    pub web_url: String,
}

/// A project's `(ssh_url_to_repo, http_url_to_repo)`.
pub type ProjectUrls = (Option<String>, Option<String>);

/// The remote ref a GitLab merge request response describes, given the
/// source and target projects' URLs (fetched for fork MRs) and `glab`'s
/// protocol: a fork MR pushes to the source project in the preferred
/// protocol when it has that URL.
pub open spec fn gitlab_info_matches(n: u32, r: MrResponse, source: ProjectUrls, target: ProjectUrls, git_protocol: Seq<char>, info: RemoteRefInfo) -> bool {
    let fork = r.source_project_id != r.target_project_id;
    &&& info.ref_type == RefType::Mr
    &&& info.number == n
    &&& info.title@ == r.title@ && info.author@ == r.author@ && info.state@ == r.state@
    &&& info.draft == r.draft
    &&& info.source_branch@ == r.source_branch@
    &&& info.is_cross_repo == fork
    &&& info.url@ == r.web_url@
    &&& opt_str(info.fork_push_url) == (if fork {
        prefer_url(git_protocol == "ssh"@, source.0, source.1)
    } else {
        None
    })
    &&& info.platform_data matches PlatformData::GitLab { source_project_id, target_project_id, target_ssh_url, target_http_url }
        && source_project_id == r.source_project_id && target_project_id == r.target_project_id
        && opt_str(target_ssh_url) == (if fork { opt_str(target.0) } else { None })
        && opt_str(target_http_url) == (if fork { opt_str(target.1) } else { None })
}

fn copy_opt(o: &Option<String>) -> (r: Option<String>)
    ensures
        opt_str(r) == opt_str(*o),
{
    match o {
        Some(s) => Some(copy_string(s)),
        None => None,
    }
}

/// Turn a parsed GitLab merge request response into a remote ref; a merge
/// request must name its source branch.
pub fn gitlab_ref_info(n: u32, r: MrResponse, source: &ProjectUrls, target: &ProjectUrls, git_protocol: &str) -> (res: Result<RemoteRefInfo, Error>)
    ensures
        r.source_branch@.len() == 0 ==> (res matches Err(Error::Other(e))
            && e@ == mr_label(n) + " has empty branch name; the MR may be in an invalid state"@),
        r.source_branch@.len() > 0 ==> (res matches Ok(info) && gitlab_info_matches(n, r, *source, *target, git_protocol@, info)),
{
    let sb = to_chars(r.source_branch.as_str());
    if sb.len() == 0 {
        let mut v = mr_label_chars(n);
        append_str(&mut v, " has empty branch name; the MR may be in an invalid state");
        return Err(err(v));
    }
    let fork = r.source_project_id != r.target_project_id;
    let use_ssh = crate::text::eq_chars(to_chars(git_protocol).as_slice(), to_chars("ssh").as_slice());
    let fork_push_url = if fork { prefer_url_exec(use_ssh, &source.0, &source.1) } else { None };
    let (target_ssh_url, target_http_url) = if fork { (copy_opt(&target.0), copy_opt(&target.1)) } else { (None, None) };
    Ok(RemoteRefInfo {
        ref_type: RefType::Mr,
        number: n,
        title: r.title,
        author: r.author,
        state: r.state,
        draft: r.draft,
        source_branch: r.source_branch,
        is_cross_repo: fork,
        url: r.web_url,
        fork_push_url,
        platform_data: PlatformData::GitLab {
            source_project_id: r.source_project_id,
            target_project_id: r.target_project_id,
            target_ssh_url,
            target_http_url,
        },
    })
}


/// What a failed `az repos pr show` call for PR `n` means, from its trimmed
/// stderr and stdout: "does not exist" in either is not found; "login" or
/// "authenticate" in stderr is missing authentication; "azure-devops" with
/// "extension" in stderr is the missing CLI extension; anything else is a
/// CLI failure.
pub open spec fn azure_failure_spec(n: u32, stderr: Seq<char>, stdout: Seq<char>) -> ApiFailureView {
    let e = trim(stderr);
    let o = trim(stdout);
    if contains_sub(e, "does not exist"@) || contains_sub(o, "does not exist"@) {
        ApiFailureView::Failed(pr_label(n) + " not found"@)
    } else if contains_sub(e, "login"@) || contains_sub(e, "authenticate"@) {
        ApiFailureView::Failed("Azure CLI not authenticated; run az login"@)
    } else if contains_sub(e, "azure-devops"@) && contains_sub(e, "extension"@) {
        ApiFailureView::Failed("Azure DevOps CLI extension not installed; run: az extension add --name azure-devops"@)
    } else {
        ApiFailureView::CliApi(RefType::Pr, "az repos pr show failed for "@ + pr_label(n), cli_details(stderr, stdout))
    }
}

/// Classify a failed `az repos pr show` call for PR `n`.
pub fn azure_api_failure(n: u32, stderr: &str, stdout: &str) -> (r: ApiFailure)
    ensures
        failure_view(r) == azure_failure_spec(n, stderr@, stdout@),
{
    let ec = to_chars(stderr);
    let e = trim_chars(ec.as_slice());
    let oc = to_chars(stdout);
    let o = trim_chars(oc.as_slice());
    if contains_str(e.as_slice(), "does not exist") || contains_str(o.as_slice(), "does not exist") {
        let mut v = pr_label_chars(n);
        append_str(&mut v, " not found");
        failed(v)
    } else if contains_str(e.as_slice(), "login") || contains_str(e.as_slice(), "authenticate") {
        failed(to_chars("Azure CLI not authenticated; run az login"))
    } else if contains_str(e.as_slice(), "azure-devops") && contains_str(e.as_slice(), "extension") {
        failed(to_chars("Azure DevOps CLI extension not installed; run: az extension add --name azure-devops"))
    } else {
        let mut m = to_chars("az repos pr show failed for ");
        let l = pr_label_chars(n);
        append_chars(&mut m, l.as_slice());
        cli_failure(RefType::Pr, m, stderr, stdout)
    }
}

/// The fields of an Azure DevOps pull request response that the checkout
/// needs; `fork` holds the fork repository's `(ssh_url, remote_url)` when
/// the PR comes from a fork.
#[derive(Debug, Clone)]
pub struct AzPrResponse {
    pub title: String,
    pub author: String,
    pub status: String,
    pub is_draft: bool,
    pub source_ref_name: String,
    pub repo_name: String,
    pub project: String,
    pub web_url: Option<String>,
    pub fork: Option<(Option<String>, Option<String>)>,
}

/// The remote ref an Azure DevOps pull request response describes, given the
/// organization URL passed to `az` (if any): the branch without
/// `refs/heads/`; a fork pushes to its SSH URL, else its remote URL; the host
/// and organization come from the repository's web URL, the organization
/// falling back to the one in the organization URL, then to the project.
pub open spec fn azure_info_matches(n: u32, r: AzPrResponse, org_url: Option<Seq<char>>, info: RemoteRefInfo) -> bool {
    let fallback = match org_url {
        Some(u) => match strip_prefix(u, "https://dev.azure.com/"@) {
            Some(o) => o,
            None => r.project@,
        },
        None => r.project@,
    };
    let (host, org) = web_url_parts(opt_str(r.web_url), fallback);
    &&& info.ref_type == RefType::Pr
    &&& info.number == n
    &&& info.title@ == r.title@ && info.author@ == r.author@ && info.state@ == r.status@
    &&& info.draft == r.is_draft
    &&& info.source_branch@ == strip_prefix_or_keep(r.source_ref_name@, "refs/heads/"@)
    &&& info.is_cross_repo == (r.fork is Some)
    &&& info.url@ == "https://dev.azure.com/"@ + org + seq!['/'] + r.project@ + "/_git/"@ + r.repo_name@
        + "/pullrequest/"@ + decimal(n as nat)
    &&& opt_str(info.fork_push_url) == (match r.fork {
        Some((ssh, remote)) => match ssh {
            Some(s) => Some(s@),
            None => opt_str(remote),
        },
        None => None,
    })
    &&& info.platform_data matches PlatformData::AzureDevOps { host: h, organization, project, repo_name }
        && h@ == host && organization@ == org && project@ == r.project@ && repo_name@ == r.repo_name@
}

/// Turn a parsed Azure DevOps pull request response into a remote ref.
pub fn azure_ref_info(n: u32, r: AzPrResponse, org_url: Option<&str>) -> (info: RemoteRefInfo)
    ensures
        azure_info_matches(
            n,
            r,
            match org_url {
                Some(u) => Some(u@),
                None => None,
            },
            info,
        ),
{
    let srn = to_chars(r.source_ref_name.as_str());
    let sb = strip_prefix_or_keep_chars(srn.as_slice(), to_chars("refs/heads/").as_slice());
    let fork_push_url = match &r.fork {
        Some((ssh, remote)) => match ssh {
            Some(s) => Some(copy_string(s)),
            None => copy_opt(remote),
        },
        None => None,
    };
    let fallback: String = match org_url {
        Some(u) => match strip_prefix_chars(to_chars(u).as_slice(), to_chars("https://dev.azure.com/").as_slice()) {
            Some(o) => from_chars(o.as_slice()),
            None => copy_string(&r.project),
        },
        None => copy_string(&r.project),
    };
    let web: Option<&str> = match &r.web_url {
        Some(w) => Some(w.as_str()),
        None => None,
    };
    let ghost fb = match org_url {
        Some(u) => match strip_prefix(u@, "https://dev.azure.com/"@) {
            Some(o) => o,
            None => r.project@,
        },
        None => r.project@,
    };
    assert(fallback@ == fb);
    assert(match web {
        Some(u) => Some(u@),
        None => None,
    } == opt_str(r.web_url));
    let (host, organization) = parse_web_url(web, fallback.as_str());
    assert((host@, organization@) == web_url_parts(opt_str(r.web_url), fb));
    let mut url = to_chars("https://dev.azure.com/");
    append_str(&mut url, organization.as_str());
    url.push('/');
    append_str(&mut url, r.project.as_str());
    append_str(&mut url, "/_git/");
    append_str(&mut url, r.repo_name.as_str());
    append_str(&mut url, "/pullrequest/");
    let d = decimal_chars(n as u64);
    append_chars(&mut url, d.as_slice());
    assert(url@ == "https://dev.azure.com/"@ + organization@ + seq!['/'] + r.project@ + "/_git/"@
        + r.repo_name@ + "/pullrequest/"@ + decimal(n as nat));
    let is_fork = r.fork.is_some();
    RemoteRefInfo {
        ref_type: RefType::Pr,
        number: n,
        title: r.title,
        author: r.author,
        state: r.status,
        draft: r.is_draft,
        source_branch: from_chars(sb.as_slice()),
        is_cross_repo: is_fork,
        url: from_chars(url.as_slice()),
        fork_push_url,
        platform_data: PlatformData::AzureDevOps {
            host,
            organization,
            project: r.project,
            repo_name: r.repo_name,
        },
    }
}


/// What a failed `tea api` call for PR `n` on `owner/repo` means, from the
/// `message` of its JSON error (when it printed one; compared in ASCII
/// lowercase) and its output: "404" or "not found" is a missing PR; "401"
/// or "unauthorized" missing authentication; "403" or "forbidden" forbidden
/// access; anything else a CLI failure.
pub open spec fn gitea_failure_spec(
    n: u32,
    message: Option<Seq<char>>,
    owner: Seq<char>,
    repo: Seq<char>,
    stderr: Seq<char>,
    stdout: Seq<char>,
) -> ApiFailureView {
    let fallback = ApiFailureView::CliApi(RefType::Pr, "tea api failed for "@ + pr_label(n), cli_details(stderr, stdout));
    match message {
        Some(m) => {
            let l = ascii_lower_seq(m);
            if contains_sub(l, "404"@) || contains_sub(l, "not found"@) {
                ApiFailureView::Failed("Gitea "@ + pr_label(n) + " not found on "@ + owner + seq!['/'] + repo)
            } else if contains_sub(l, "401"@) || contains_sub(l, "unauthorized"@) {
                ApiFailureView::Failed("Gitea CLI not authenticated; run tea login add"@)
            } else if contains_sub(l, "403"@) || contains_sub(l, "forbidden"@) {
                ApiFailureView::Failed("Gitea API access forbidden for "@ + pr_label(n))
            } else {
                fallback
            }
        },
        None => fallback,
    }
}

/// Classify a failed `tea api` call for PR `n` on `owner/repo`.
pub fn gitea_api_failure(n: u32, message: Option<&str>, owner: &str, repo: &str, stderr: &str, stdout: &str) -> (r: ApiFailure)
    ensures
        failure_view(r) == gitea_failure_spec(
            n,
            match message {
                Some(m) => Some(m@),
                None => None,
            },
            owner@,
            repo@,
            stderr@,
            stdout@,
        ),
{
    match message {
        Some(m) => {
            let mc = to_chars(m);
            let l = ascii_lower_chars(mc.as_slice());
            if contains_str(l.as_slice(), "404") || contains_str(l.as_slice(), "not found") {
                let mut v = to_chars("Gitea ");
                let lab = pr_label_chars(n);
                append_chars(&mut v, lab.as_slice());
                append_str(&mut v, " not found on ");
                append_str(&mut v, owner);
                v.push('/');
                append_str(&mut v, repo);
                assert(v@ =~= "Gitea "@ + pr_label(n) + " not found on "@ + owner@ + seq!['/'] + repo@);
                return failed(v);
            } else if contains_str(l.as_slice(), "401") || contains_str(l.as_slice(), "unauthorized") {
                return failed(to_chars("Gitea CLI not authenticated; run tea login add"));
            } else if contains_str(l.as_slice(), "403") || contains_str(l.as_slice(), "forbidden") {
                let mut v = to_chars("Gitea API access forbidden for ");
                let lab = pr_label_chars(n);
                append_chars(&mut v, lab.as_slice());
                return failed(v);
            }
        },
        None => {},
    }
    let mut msg = to_chars("tea api failed for ");
    let lab = pr_label_chars(n);
    append_chars(&mut msg, lab.as_slice());
    cli_failure(RefType::Pr, msg, stderr, stdout)
}

} // verus!
