//! Gitea pull requests (`tea` CLI).

use vstd::prelude::*;
use crate::git::RefType;
use crate::git::remote_ref::{numbered_ref_path, numbered_ref_path_exec, RemoteRefProvider};
use crate::text::{
    append_str, from_chars, split_once_chars, split_once_seq, starts_with, starts_with_chars,
    strip_prefix_or_keep, strip_prefix_or_keep_chars, to_chars, trim, trim_chars,
};

verus! {

/// Gitea Pull Request provider.
#[derive(Debug, Clone, Copy)]
pub struct GiteaProvider;

impl RemoteRefProvider for GiteaProvider {
    open spec fn ref_path_spec(&self, number: u32) -> Seq<char> {
        numbered_ref_path("pull"@, number)
    }

    fn ref_type(&self) -> (r: RefType)
        ensures
            r == RefType::Pr,
    {
        RefType::Pr
    }

    fn platform_label(&self) -> (r: &'static str)
        ensures
            r@ == "gitea"@,
    {
        "gitea"
    }

    fn ref_path(&self, number: u32) -> (r: String) {
        numbered_ref_path_exec("pull", number)
    }
}

/// Owner of a Gitea repository.
#[derive(Debug, Clone)]
pub struct TeaOwner {
    pub login: String,
}

/// A Gitea repository.
#[derive(Debug, Clone)]
pub struct TeaPrRepo {
    pub name: String,
    pub owner: TeaOwner,
}

/// The head or base of a Gitea pull request.
#[derive(Debug, Clone)]
pub struct TeaPrRef {
    /// `owner:branch` for forks, `branch` otherwise.
    pub label: String,
    /// The branch (or, for deleted branches, `pulls/<n>/head`).
    pub ref_name: String,
    /// The repository, if it still exists.
    pub repo: Option<TeaPrRepo>,
}

/// The source branch of a PR head: the label's branch part, trimmed, when
/// that is not empty; else the ref without `refs/heads/`, unless the ref is
/// empty or a `pulls/` tracking ref.
pub open spec fn source_branch_spec(label: Seq<char>, ref_name: Seq<char>) -> Option<Seq<char>> {
    let from_label = trim(match split_once_seq(label, ':') {
        Some((_, b)) => b,
        None => label,
    });
    if label.len() > 0 && from_label.len() > 0 {
        Some(from_label)
    } else if ref_name.len() == 0 || starts_with(ref_name, "pulls/"@) {
        None
    } else {
        let b = strip_prefix_or_keep(ref_name, "refs/heads/"@);
        if b.len() == 0 {
            None
        } else {
            Some(b)
        }
    }
}

/// Extract the source branch name from a PR's head label or ref.
pub fn extract_source_branch(head: &TeaPrRef) -> (r: Option<String>)
    ensures
        match source_branch_spec(head.label@, head.ref_name@) {
            Some(b) => r matches Some(s) && s@ == b,
            None => r is None,
        },
{
    let label = to_chars(head.label.as_str());
    if label.len() > 0 {
        let part = match split_once_chars(label.as_slice(), ':') {
            Some((_, b)) => b,
            None => crate::text::slice_copy(label.as_slice(), 0, label.len()),
        };
        assert(label@.subrange(0, label@.len() as int) =~= label@);
        let branch = trim_chars(part.as_slice());
        if branch.len() > 0 {
            return Some(from_chars(branch.as_slice()));
        }
    }
    let rn = to_chars(head.ref_name.as_str());
    let pulls = to_chars("pulls/");
    if rn.len() == 0 || starts_with_chars(rn.as_slice(), pulls.as_slice()) {
        return None;
    }
    let heads = to_chars("refs/heads/");
    let b = strip_prefix_or_keep_chars(rn.as_slice(), heads.as_slice());
    if b.len() == 0 {
        None
    } else {
        Some(from_chars(b.as_slice()))
    }
}

/// `https://<host>/<owner>/<repo>.git`.
pub open spec fn gitea_repo_url(host: Seq<char>, owner: Seq<char>, repo: Seq<char>) -> Seq<char> {
    "https://"@ + host + seq!['/'] + owner + seq!['/'] + repo + ".git"@
}

/// Construct the remote URL for a Gitea repository.
pub fn fork_remote_url(host: &str, owner: &str, repo: &str) -> (r: String)
    ensures
        r@ == gitea_repo_url(host@, owner@, repo@),
{
    let mut v = to_chars("https://");
    append_str(&mut v, host);
    v.push('/');
    append_str(&mut v, owner);
    v.push('/');
    append_str(&mut v, repo);
    append_str(&mut v, ".git");
    assert(v@ =~= gitea_repo_url(host@, owner@, repo@));
    from_chars(v.as_slice())
}

} // verus!
