//! GitHub pull requests (`gh` CLI).

use vstd::prelude::*;
use crate::git::RefType;
use crate::git::remote_ref::{numbered_ref_path, numbered_ref_path_exec, RemoteRefProvider};
use crate::text::{append_str, from_chars, to_chars};

verus! {

/// GitHub Pull Request provider.
#[derive(Debug, Clone, Copy)]
pub struct GitHubProvider;

impl RemoteRefProvider for GitHubProvider {
    open spec fn ref_path_spec(&self, number: u32) -> Seq<char> {
        numbered_ref_path("pull"@, number)
    }

    fn ref_type(&self) -> (r: RefType)
        ensures
            r == RefType::Pr,
    {
        RefType::Pr
    }

    fn platform_label(&self) -> (r: &'static str)
        ensures
            r@ == "github"@,
    {
        "github"
    }

    fn ref_path(&self, number: u32) -> (r: String) {
        numbered_ref_path_exec("pull", number)
    }
}

/// The URL of a GitHub repository: `git@<host>:<owner>/<repo>.git` when the
/// `gh` protocol preference is SSH, else `https://<host>/<owner>/<repo>.git`.
pub open spec fn github_repo_url(use_ssh: bool, host: Seq<char>, owner: Seq<char>, repo: Seq<char>) -> Seq<char> {
    if use_ssh {
        "git@"@ + host + seq![':'] + owner + seq!['/'] + repo + ".git"@
    } else {
        "https://"@ + host + seq!['/'] + owner + seq!['/'] + repo + ".git"@
    }
}

/// Construct the remote URL for a fork repository; `use_ssh` is whether
/// `gh config get git_protocol` says `ssh`.
pub fn fork_remote_url(use_ssh: bool, host: &str, owner: &str, repo: &str) -> (r: String)
    ensures
        r@ == github_repo_url(use_ssh, host@, owner@, repo@),
{
    let mut v = if use_ssh { to_chars("git@") } else { to_chars("https://") };
    append_str(&mut v, host);
    v.push(if use_ssh { ':' } else { '/' });
    append_str(&mut v, owner);
    v.push('/');
    append_str(&mut v, repo);
    append_str(&mut v, ".git");
    assert(v@ =~= github_repo_url(use_ssh, host@, owner@, repo@));
    from_chars(v.as_slice())
}

} // verus!
