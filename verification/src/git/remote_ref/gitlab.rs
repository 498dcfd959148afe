//! GitLab merge requests (`glab` CLI).

use vstd::prelude::*;
use crate::git::RefType;
use crate::git::remote_ref::{numbered_ref_path, numbered_ref_path_exec, RemoteRefProvider};

pub use crate::git::mr_ref::get_git_protocol;

verus! {

/// GitLab Merge Request provider.
#[derive(Debug, Clone, Copy)]
pub struct GitLabProvider;

impl RemoteRefProvider for GitLabProvider {
    open spec fn ref_path_spec(&self, number: u32) -> Seq<char> {
        numbered_ref_path("merge-requests"@, number)
    }

    fn ref_type(&self) -> (r: RefType)
        ensures
            r == RefType::Mr,
    {
        RefType::Mr
    }

    fn platform_label(&self) -> (r: &'static str)
        ensures
            r@ == "gitlab"@,
    {
        "gitlab"
    }

    fn ref_path(&self, number: u32) -> (r: String) {
        numbered_ref_path_exec("merge-requests", number)
    }
}

} // verus!
