//! MR reference resolution (`mr:<number>` syntax) for GitLab.
//!
//! `mr:<number>` is unambiguous because colons are invalid in git branch
//! names. Same-project MRs check out the source branch directly; fork MRs
//! fetch from the target project's MR ref and push to the source project.

use vstd::prelude::*;
use crate::git::RefType;
use crate::git::remote_ref::info::{
    copy_string, extract_owner_from_url, opt_str, owner_from_url, prefer_url, prefer_url_exec,
};
use crate::git::remote_ref::{branch_tracks, numbered_ref_path, numbered_ref_path_exec};
use crate::text::{
    append_str, eq_chars, from_chars, parse_u32_chars, parse_u32_spec, strip_prefix,
    strip_prefix_chars, to_chars, trim, trim_chars,
};

verus! {

/// Information about an MR retrieved from GitLab.
#[derive(Debug, Clone)]
pub struct MrInfo {
    /// The MR number (iid in GitLab terms).
    pub number: u32,
    /// The MR title.
    pub title: String,
    /// The MR author's username.
    pub author: String,
    /// The MR state (`opened`, `closed`, `merged`).
    pub state: String,
    /// Whether this is a draft MR.
    pub draft: bool,
    /// The branch name in the source project.
    pub source_branch: String,
    /// The source project ID.
    pub source_project_id: u64,
    /// The target project ID.
    pub target_project_id: u64,
    /// The source project's SSH URL (for fork push).
    pub source_project_ssh_url: Option<String>,
    /// The source project's HTTP URL (for fork push).
    pub source_project_http_url: Option<String>,
    /// The target project's SSH URL (for finding the correct remote).
    pub target_project_ssh_url: Option<String>,
    /// The target project's HTTP URL (for finding the correct remote).
    pub target_project_http_url: Option<String>,
    /// Whether this is a cross-project (fork) MR.
    pub is_cross_project: bool,
    /// The MR's web URL.
    pub url: String,
}

/// The number in `mr:<number>`.
pub open spec fn parse_mr_ref_spec(input: Seq<char>) -> Option<u32> {
    match strip_prefix(input, "mr:"@) {
        Some(suffix) => parse_u32_spec(suffix),
        None => None,
    }
}

/// Parse a `mr:<number>` reference, returning the MR number if valid.
pub fn parse_mr_ref(input: &str) -> (r: Option<u32>)
    ensures
        r == parse_mr_ref_spec(input@),
{
    let v = to_chars(input);
    let p = to_chars("mr:");
    match strip_prefix_chars(v.as_slice(), p.as_slice()) {
        Some(suffix) => parse_u32_chars(suffix.as_slice()),
        None => None,
    }
}

/// The source shown for an MR: `owner:branch` for a fork whose owner the
/// source project's URL (HTTP preferred) names, else the bare branch.
pub open spec fn mr_source_ref_spec(mr: MrInfo) -> Seq<char> {
    if mr.is_cross_project {
        let url = match mr.source_project_http_url {
            Some(u) => Some(u),
            None => mr.source_project_ssh_url,
        };
        match url {
            Some(u) => match owner_from_url(u@) {
                Some(o) => o + seq![':'] + mr.source_branch@,
                None => mr.source_branch@,
            },
            None => mr.source_branch@,
        }
    } else {
        mr.source_branch@
    }
}

impl MrInfo {
    /// The source as shown to the user.
    pub fn source_ref(&self) -> (r: String)
        ensures
            r@ == mr_source_ref_spec(*self),
    {
        if self.is_cross_project {
            let url = match &self.source_project_http_url {
                Some(u) => Some(u),
                None => self.source_project_ssh_url.as_ref(),
            };
            match url {
                Some(u) => match extract_owner_from_url(u.as_str()) {
                    Some(o) => {
                        let mut v = to_chars(o.as_str());
                        v.push(':');
                        append_str(&mut v, self.source_branch.as_str());
                        return from_chars(v.as_slice());
                    },
                    None => {},
                },
                None => {},
            }
        }
        copy_string(&self.source_branch)
    }
}

/// The local branch name for an MR: the source branch itself.
pub fn local_branch_name(mr: &MrInfo) -> (r: String)
    ensures
        r@ == mr.source_branch@,
{
    copy_string(&mr.source_branch)
}

/// The protocol that `glab config get git_protocol` settles on: its trimmed
/// output when that is `ssh` or `https`, else `https`. `config_output` is
/// `None` when the command failed.
pub open spec fn git_protocol_spec(config_output: Option<Seq<char>>) -> Seq<char> {
    match config_output {
        Some(o) => if trim(o) == "ssh"@ || trim(o) == "https"@ {
            trim(o)
        } else {
            "https"@
        },
        None => "https"@,
    }
}

/// The git protocol configured in `glab`, from the output of
/// `glab config get git_protocol`.
pub fn get_git_protocol(config_output: Option<&str>) -> (r: String)
    ensures
        r@ == git_protocol_spec(match config_output {
            Some(o) => Some(o@),
            None => None,
        }),
{
    match config_output {
        Some(o) => {
            let v = to_chars(o);
            let t = trim_chars(v.as_slice());
            let ssh = to_chars("ssh");
            let https = to_chars("https");
            if eq_chars(t.as_slice(), ssh.as_slice()) || eq_chars(t.as_slice(), https.as_slice()) {
                from_chars(t.as_slice())
            } else {
                crate::text::string_of("https")
            }
        },
        None => crate::text::string_of("https"),
    }
}

fn is_ssh(git_protocol: &str) -> (r: bool)
    ensures
        r == (git_protocol@ == "ssh"@),
{
    let p = to_chars(git_protocol);
    let ssh = to_chars("ssh");
    eq_chars(p.as_slice(), ssh.as_slice())
}

/// The fork remote URL to push to: the source project's URL in the
/// preferred protocol (`git_protocol`), else in the other one.
pub fn fork_remote_url(mr: &MrInfo, git_protocol: &str) -> (r: Option<String>)
    ensures
        opt_str(r) == prefer_url(
            git_protocol@ == "ssh"@,
            mr.source_project_ssh_url,
            mr.source_project_http_url,
        ),
{
    prefer_url_exec(is_ssh(git_protocol), &mr.source_project_ssh_url, &mr.source_project_http_url)
}

/// The target project URL (where MR refs live), in the preferred protocol
/// if GitLab gave it, else in the other one.
pub fn target_remote_url(mr: &MrInfo, git_protocol: &str) -> (r: Option<String>)
    ensures
        opt_str(r) == prefer_url(
            git_protocol@ == "ssh"@,
            mr.target_project_ssh_url,
            mr.target_project_http_url,
        ),
{
    prefer_url_exec(is_ssh(git_protocol), &mr.target_project_ssh_url, &mr.target_project_http_url)
}

/// Whether a branch tracks MR `mr_number` (`refs/merge-requests/<n>/head`),
/// from its `branch.<name>.merge` setting and whether it exists.
pub fn branch_tracks_mr(merge_ref: Option<&str>, branch_exists: bool, mr_number: u32) -> (r: Option<bool>)
    ensures
        r == (match merge_ref {
            Some(m) => Some(trim(m@) == "refs/"@ + numbered_ref_path("merge-requests"@, mr_number)),
            None => if branch_exists {
                Some(false)
            } else {
                None
            },
        }),
{
    let p = numbered_ref_path_exec("merge-requests", mr_number);
    let mut v = to_chars("refs/");
    append_str(&mut v, p.as_str());
    let expected = from_chars(v.as_slice());
    branch_tracks(merge_ref, branch_exists, expected.as_str())
}


/// `mr:<n>` names MR `n`: the reference written for an MR number parses back
/// to that number.
pub proof fn lemma_mr_ref_roundtrip(n: u32)
    ensures
        parse_mr_ref_spec("mr:"@ + crate::text::decimal(n as nat)) == Some(n),
{
    let s = "mr:"@ + crate::text::decimal(n as nat);
    assert(s.take("mr:"@.len() as int) =~= "mr:"@);
    assert(s.skip("mr:"@.len() as int) =~= crate::text::decimal(n as nat));
    crate::text::lemma_parse_decimal(n);
}

/// The protocol settled on is always `ssh` or `https`.
pub proof fn lemma_git_protocol_is_known(config_output: Option<Seq<char>>)
    ensures
        git_protocol_spec(config_output) == "ssh"@ || git_protocol_spec(config_output) == "https"@,
{
}

/// When the forge gave only one of the two URLs, that URL is used whatever
/// the protocol preference.
pub proof fn lemma_single_url_wins(use_ssh: bool, url: String)
    ensures
        prefer_url(use_ssh, Some(url), None) == Some(url@),
        prefer_url(use_ssh, None, Some(url)) == Some(url@),
        prefer_url(use_ssh, None, None) is None,
{
}


/// Turn a parsed GitLab merge request response into an [`MrInfo`], given
/// the source and target projects' `(ssh, http)` URLs (fetched for fork MRs);
/// a merge request must name its source branch.
pub fn mr_info_from_response(
    n: u32,
    r: crate::git::remote_ref::response::MrResponse,
    source: &(Option<String>, Option<String>),
    target: &(Option<String>, Option<String>),
) -> (res: Result<MrInfo, crate::git::error::Error>)
    ensures
        r.source_branch@.len() == 0 ==> (res matches Err(crate::git::error::Error::Other(e))
            && e@ == crate::git::remote_ref::response::mr_label(n) + " has empty branch name; the MR may be in an invalid state"@),
        r.source_branch@.len() > 0 ==> (res matches Ok(mr) && {
            let fork = r.source_project_id != r.target_project_id;
            &&& mr.number == n
            &&& mr.title@ == r.title@ && mr.author@ == r.author@ && mr.state@ == r.state@
            &&& mr.draft == r.draft
            &&& mr.source_branch@ == r.source_branch@
            &&& mr.source_project_id == r.source_project_id && mr.target_project_id == r.target_project_id
            &&& mr.is_cross_project == fork
            &&& mr.url@ == r.web_url@
            &&& opt_str(mr.source_project_ssh_url) == (if fork { opt_str(source.0) } else { None })
            &&& opt_str(mr.source_project_http_url) == (if fork { opt_str(source.1) } else { None })
            &&& opt_str(mr.target_project_ssh_url) == (if fork { opt_str(target.0) } else { None })
            &&& opt_str(mr.target_project_http_url) == (if fork { opt_str(target.1) } else { None })
        }),
{
    let sb = to_chars(r.source_branch.as_str());
    if sb.len() == 0 {
        let mut v = to_chars("MR !");
        let d = crate::text::decimal_chars(n as u64);
        crate::text::append_chars(&mut v, d.as_slice());
        append_str(&mut v, " has empty branch name; the MR may be in an invalid state");
        return Err(crate::git::error::Error::Other(from_chars(v.as_slice())));
    }
    let fork = r.source_project_id != r.target_project_id;
    let pick = |o: &Option<String>| -> (p: Option<String>)
        ensures
            opt_str(p) == (if fork { opt_str(*o) } else { None }),
    {
        if fork {
            match o {
                Some(s) => Some(copy_string(s)),
                None => None,
            }
        } else {
            None
        }
    };
    Ok(MrInfo {
        number: n,
        title: r.title,
        author: r.author,
        state: r.state,
        draft: r.draft,
        source_branch: r.source_branch,
        source_project_id: r.source_project_id,
        target_project_id: r.target_project_id,
        source_project_ssh_url: pick(&source.0),
        source_project_http_url: pick(&source.1),
        target_project_ssh_url: pick(&target.0),
        target_project_http_url: pick(&target.1),
        is_cross_project: fork,
        url: r.web_url,
    })
}

} // verus!
