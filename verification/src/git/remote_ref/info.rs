//! Remote ref info types: PR/MR metadata shared by all forges.

use vstd::prelude::*;
use crate::git::RefType;
use crate::text::{
    append_chars, append_str, from_chars, lemma_split_acc_nonempty, nth, nth_field, split_chars,
    split_seq, strip_prefix, strip_prefix_chars, to_chars, vviews, slice_copy,
};

verus! {

/// Platform-specific data for a remote ref.
#[derive(Debug, Clone)]
pub enum PlatformData {
    /// GitHub-specific data.
    GitHub {
        /// GitHub host (e.g. `github.com`).
        host: String,
        /// Owner of the head (source) repository.
        head_owner: String,
        /// Name of the head (source) repository.
        head_repo: String,
        /// Owner of the base (target) repository.
        base_owner: String,
        /// Name of the base (target) repository.
        base_repo: String,
    },
    /// GitLab-specific data.
    GitLab {
        /// Source project ID.
        source_project_id: u64,
        /// Target project ID.
        target_project_id: u64,
        /// Target project SSH URL (where MR refs live).
        target_ssh_url: Option<String>,
        /// Target project HTTP URL (where MR refs live).
        target_http_url: Option<String>,
    },
    /// Gitea-specific data.
    Gitea {
        host: String,
        head_owner: String,
        head_repo: String,
        base_owner: String,
        base_repo: String,
    },
    /// Azure DevOps-specific data.
    AzureDevOps {
        host: String,
        organization: String,
        project: String,
        repo_name: String,
    },
}

/// Unified information about a PR or MR.
#[derive(Debug, Clone)]
pub struct RemoteRefInfo {
    /// The reference type (PR or MR).
    pub ref_type: RefType,
    /// The PR/MR number.
    pub number: u32,
    /// The PR/MR title.
    pub title: String,
    /// The PR/MR author's username.
    pub author: String,
    /// The PR/MR state (`open`, `closed`, `merged`, ...).
    pub state: String,
    /// Whether this is a draft.
    pub draft: bool,
    /// The branch name in the source repository.
    pub source_branch: String,
    /// Whether this is a cross-repository (fork) PR/MR.
    pub is_cross_repo: bool,
    /// The PR/MR web URL.
    pub url: String,
    /// URL to push to for fork PRs/MRs, or `None` if push isn't supported.
    pub fork_push_url: Option<String>,
    /// Platform-specific data.
    pub platform_data: PlatformData,
}

/// The text after `https://` or, failing that, after `http://`.
pub open spec fn web_rest(url: Seq<char>) -> Option<Seq<char>> {
    match strip_prefix(url, "https://"@) {
        Some(r) => Some(r),
        None => strip_prefix(url, "http://"@),
    }
}

/// The owner a git URL names: the first path segment after `git@host:`, or
/// the segment after the host of an `http(s)://` URL.
pub open spec fn owner_from_url(url: Seq<char>) -> Option<Seq<char>> {
    let ssh_path = match strip_prefix(url, "git@"@) {
        Some(s) => nth(split_seq(s, ':'), 1),
        None => None,
    };
    match ssh_path {
        Some(path) => Some(split_seq(path, '/')[0]),
        None => match web_rest(url) {
            Some(path) => nth(split_seq(path, '/'), 1),
            None => None,
        },
    }
}

/// `owner:branch` when the owner is known.
pub open spec fn owner_branch(owner: Seq<char>, branch: Seq<char>) -> Seq<char> {
    owner + seq![':'] + branch
}

/// The source shown for a ref: `owner:branch` for a fork whose owner is
/// known, else the bare branch.
pub open spec fn source_ref_spec(info: RemoteRefInfo) -> Seq<char> {
    if info.is_cross_repo {
        match info.platform_data {
            PlatformData::GitHub { head_owner, .. } => owner_branch(head_owner@, info.source_branch@),
            PlatformData::Gitea { head_owner, .. } => owner_branch(head_owner@, info.source_branch@),
            PlatformData::GitLab { .. } => match info.fork_push_url {
                Some(u) => match owner_from_url(u@) {
                    Some(o) => owner_branch(o, info.source_branch@),
                    None => info.source_branch@,
                },
                None => info.source_branch@,
            },
            PlatformData::AzureDevOps { .. } => info.source_branch@,
        }
    } else {
        info.source_branch@
    }
}

/// The URL of the preferred protocol, else the other one.
pub open spec fn prefer_url(use_ssh: bool, ssh: Option<String>, http: Option<String>) -> Option<Seq<char>> {
    let (first, second) = if use_ssh { (ssh, http) } else { (http, ssh) };
    match first {
        Some(u) => Some(u@),
        None => match second {
            Some(u) => Some(u@),
            None => None,
        },
    }
}

/// The optional string's view.
pub open spec fn opt_str(o: Option<String>) -> Option<Seq<char>> {
    match o {
        Some(s) => Some(s@),
        None => None,
    }
}

/// Pick the URL of the preferred protocol, falling back to the other one.
pub fn prefer_url_exec(use_ssh: bool, ssh: &Option<String>, http: &Option<String>) -> (r: Option<String>)
    ensures
        opt_str(r) == prefer_url(use_ssh, *ssh, *http),
{
    let (first, second) = if use_ssh { (ssh, http) } else { (http, ssh) };
    match first {
        Some(u) => Some(copy_string(u)),
        None => match second {
            Some(u) => Some(copy_string(u)),
            None => None,
        },
    }
}

/// A copy of `s`.
pub fn copy_string(s: &String) -> (r: String)
    ensures
        r@ == s@,
{
    let v = to_chars(s.as_str());
    from_chars(v.as_slice())
}

/// Extract the owner from a git URL (`git@host:owner/repo.git` or
/// `https://host/owner/repo.git`).
pub fn extract_owner_from_url(url: &str) -> (r: Option<String>)
    ensures
        opt_str(r) == owner_from_url(url@),
{
    let u = to_chars(url);
    let git_at = to_chars("git@");
    match strip_prefix_chars(u.as_slice(), git_at.as_slice()) {
        Some(s) => {
            let parts = split_chars(s.as_slice(), ':');
            match nth_field(&parts, 1) {
                Some(path) => {
                    let segs = split_chars(path.as_slice(), '/');
                    proof {
                        lemma_split_acc_nonempty(Seq::empty(), path@, '/');
                    }
                    assert(vviews(segs@)[0] == segs@[0]@);
                    let first = &segs[0];
                    return Some(from_chars(first.as_slice()));
                },
                None => {},
            }
        },
        None => {},
    }
    match web_rest_exec(u.as_slice()) {
        Some(path) => {
            let segs = split_chars(path.as_slice(), '/');
            match nth_field(&segs, 1) {
                Some(o) => Some(from_chars(o.as_slice())),
                None => None,
            }
        },
        None => None,
    }
}

/// The text after `https://` or `http://`.
pub fn web_rest_exec(url: &[char]) -> (r: Option<Vec<char>>)
    ensures
        r matches Some(v) ==> web_rest(url@) == Some(v@),
        r is None ==> web_rest(url@) is None,
{
    let https = to_chars("https://");
    match strip_prefix_chars(url, https.as_slice()) {
        Some(r) => Some(r),
        None => {
            let http = to_chars("http://");
            strip_prefix_chars(url, http.as_slice())
        },
    }
}

fn owner_branch_exec(owner: &[char], branch: &str) -> (r: String)
    ensures
        r@ == owner_branch(owner@, branch@),
{
    let mut v: Vec<char> = Vec::new();
    append_chars(&mut v, owner);
    v.push(':');
    append_str(&mut v, branch);
    assert(v@ =~= owner_branch(owner@, branch@));
    from_chars(v.as_slice())
}

impl RemoteRefInfo {
    /// The source as shown to the user: `owner:branch` for forks whose owner
    /// is known, the branch otherwise.
    pub fn source_ref(&self) -> (r: String)
        ensures
            r@ == source_ref_spec(*self),
    {
        if self.is_cross_repo {
            match &self.platform_data {
                PlatformData::GitHub { head_owner, .. } => {
                    let o = to_chars(head_owner.as_str());
                    owner_branch_exec(o.as_slice(), self.source_branch.as_str())
                },
                PlatformData::Gitea { head_owner, .. } => {
                    let o = to_chars(head_owner.as_str());
                    owner_branch_exec(o.as_slice(), self.source_branch.as_str())
                },
                PlatformData::GitLab { .. } => {
                    match &self.fork_push_url {
                        Some(u) => match extract_owner_from_url(u.as_str()) {
                            Some(o) => {
                                let oc = to_chars(o.as_str());
                                owner_branch_exec(oc.as_slice(), self.source_branch.as_str())
                            },
                            None => copy_string(&self.source_branch),
                        },
                        None => copy_string(&self.source_branch),
                    }
                },
                PlatformData::AzureDevOps { .. } => copy_string(&self.source_branch),
            }
        } else {
            copy_string(&self.source_branch)
        }
    }

    /// The target remote URL (where refs live) for GitLab fork MRs, in the
    /// protocol that `git_protocol` (`glab`'s setting) prefers when both are
    /// known; `None` on other forges or when GitLab gave no URL.
    pub fn target_remote_url(&self, git_protocol: &str) -> (r: Option<String>)
        ensures
            opt_str(r) == (match self.platform_data {
                PlatformData::GitLab { target_ssh_url, target_http_url, .. } => prefer_url(
                    git_protocol@ == "ssh"@,
                    target_ssh_url,
                    target_http_url,
                ),
                _ => None,
            }),
    {
        match &self.platform_data {
            PlatformData::GitLab { target_ssh_url, target_http_url, .. } => {
                let p = to_chars(git_protocol);
                let ssh = to_chars("ssh");
                let use_ssh = crate::text::eq_chars(p.as_slice(), ssh.as_slice());
                prefer_url_exec(use_ssh, target_ssh_url, target_http_url)
            },
            _ => None,
        }
    }

    /// `<owner>/<branch>` for a GitHub PR, used when the bare branch name is
    /// taken; `None` elsewhere.
    pub fn prefixed_local_branch_name(&self) -> (r: Option<String>)
        ensures
            opt_str(r) == (match self.platform_data {
                PlatformData::GitHub { head_owner, .. } => Some(head_owner@ + seq!['/'] + self.source_branch@),
                _ => None,
            }),
    {
        match &self.platform_data {
            PlatformData::GitHub { head_owner, .. } => {
                let mut v = to_chars(head_owner.as_str());
                v.push('/');
                append_str(&mut v, self.source_branch.as_str());
                Some(from_chars(v.as_slice()))
            },
            _ => None,
        }
    }
}

} // verus!
