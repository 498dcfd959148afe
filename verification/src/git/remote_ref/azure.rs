//! Azure DevOps pull requests (`az` CLI).

use vstd::prelude::*;
use crate::git::RefType;
use crate::git::remote_ref::{numbered_ref_path, numbered_ref_path_exec, RemoteRefProvider};
use crate::git::remote_ref::info::{web_rest, web_rest_exec};
use crate::text::{
    append_str, from_chars, lemma_split_acc_nonempty, split_chars, split_seq, strip_prefix,
    strip_prefix_chars, to_chars, vviews,
};

verus! {

/// Azure DevOps Pull Request provider.
#[derive(Debug, Clone, Copy)]
pub struct AzureDevOpsProvider;

impl RemoteRefProvider for AzureDevOpsProvider {
    open spec fn ref_path_spec(&self, number: u32) -> Seq<char> {
        numbered_ref_path("pull"@, number)
    }

    fn ref_type(&self) -> (r: RefType)
        ensures
            r == RefType::Pr,
    {
        RefType::Pr
    }

    fn platform_label(&self) -> (r: &'static str)
        ensures
            r@ == "azure-devops"@,
    {
        "azure-devops"
    }

    fn ref_path(&self, number: u32) -> (r: String) {
        numbered_ref_path_exec("pull", number)
    }
}

/// `https://dev.azure.com/<org>/<project>/_git/<repo>`.
pub open spec fn azure_repo_url(organization: Seq<char>, project: Seq<char>, repo: Seq<char>) -> Seq<char> {
    "https://dev.azure.com/"@ + organization + seq!['/'] + project + "/_git/"@ + repo
}

/// Construct an Azure DevOps remote URL for a repo: always the canonical
/// HTTPS form, whatever the host.
pub fn fork_remote_url(host: &str, organization: &str, project: &str, repo: &str) -> (r: String)
    ensures
        r@ == azure_repo_url(organization@, project@, repo@),
{
    let mut v = to_chars("https://dev.azure.com/");
    append_str(&mut v, organization);
    v.push('/');
    append_str(&mut v, project);
    append_str(&mut v, "/_git/");
    append_str(&mut v, repo);
    assert(v@ =~= azure_repo_url(organization@, project@, repo@));
    from_chars(v.as_slice())
}

/// The `(host, organization)` of an Azure DevOps web URL: the host is the
/// first segment after `http(s)://` (default `dev.azure.com`); the
/// organization is the first segment after `https://dev.azure.com/`
/// (default `fallback_org`).
pub open spec fn web_url_parts(web_url: Option<Seq<char>>, fallback_org: Seq<char>) -> (Seq<char>, Seq<char>) {
    match web_url {
        None => ("dev.azure.com"@, fallback_org),
        Some(u) => {
            let host = match web_rest(u) {
                Some(rest) => split_seq(rest, '/')[0],
                None => "dev.azure.com"@,
            };
            let org = match strip_prefix(u, "https://dev.azure.com/"@) {
                Some(rest) => split_seq(rest, '/')[0],
                None => fallback_org,
            };
            (host, org)
        },
    }
}

fn first_segment(s: &[char]) -> (r: String)
    ensures
        r@ == split_seq(s@, '/')[0],
{
    let segs = split_chars(s, '/');
    proof {
        lemma_split_acc_nonempty(Seq::empty(), s@, '/');
    }
    assert(vviews(segs@)[0] == segs@[0]@);
    from_chars(segs[0].as_slice())
}

/// Parse `host` and `organization` out of an Azure DevOps web URL, falling
/// back to defaults when the URL is missing or unusual.
pub fn parse_web_url(web_url: Option<&str>, fallback_org: &str) -> (r: (String, String))
    ensures
        (r.0@, r.1@) == web_url_parts(
            match web_url {
                Some(u) => Some(u@),
                None => None,
            },
            fallback_org@,
        ),
{
    match web_url {
        None => (crate::text::string_of("dev.azure.com"), crate::text::string_of(fallback_org)),
        Some(u) => {
            let uc = to_chars(u);
            let host = match web_rest_exec(uc.as_slice()) {
                Some(rest) => first_segment(rest.as_slice()),
                None => crate::text::string_of("dev.azure.com"),
            };
            let dev = to_chars("https://dev.azure.com/");
            let org = match strip_prefix_chars(uc.as_slice(), dev.as_slice()) {
                Some(rest) => first_segment(rest.as_slice()),
                None => crate::text::string_of(fallback_org),
            };
            (host, org)
        },
    }
}

} // verus!
