//! Git-facing logic: parsing git output, forge references and remote URLs.

use vstd::prelude::*;

pub mod error;
pub mod parse;
pub mod url;
pub mod ci_platform;
pub mod remote_ref;
pub mod mr_ref;
pub mod pr_ref;
pub mod version;
pub mod repository;
pub mod reap;

verus! {

/// The vocabulary a forge uses for change requests.
#[derive(Debug, Clone, Copy, PartialEq, Eq, Structural)]
pub enum RefType {
    /// Pull request (GitHub, Gitea, Azure DevOps).
    Pr,
    /// Merge request (GitLab).
    Mr,
}

} // verus!
