//! Unified PR/MR reference resolution across GitHub, GitLab, Gitea and
//! Azure DevOps.
//!
//! All forges follow the same workflow: parse `pr:<number>` / `mr:<number>`
//! (or a forge web URL), fetch metadata from the forge, check whether a local
//! branch already tracks the ref, and configure a branch if needed. Fetching
//! is I/O and stays with the caller; this module holds the decisions.

use vstd::prelude::*;
use crate::git::RefType;
use crate::git::error::Error;
use crate::text::{
    all_digits, append_chars, append_str, decimal, decimal_chars, drop_empty, drop_empty_fields,
    eq_chars, from_chars, lemma_split_acc_nonempty, parse_u32_chars, parse_u32_spec, split_chars,
    split_seq, to_chars, trim, trim_chars, vviews,
};
use crate::git::remote_ref::info::{
    web_rest, web_rest_exec, RemoteRefInfo, copy_string, opt_str, prefer_url, prefer_url_exec,
};
use crate::git::remote_ref::github::github_repo_url;
use crate::git::remote_ref::gitea::gitea_repo_url;
use crate::git::remote_ref::azure::azure_repo_url;
use crate::git::url::{parse_remote_url, GitRemoteUrl};
use crate::text::{ascii_lower_chars, ascii_lower_seq};

pub mod azure;
pub mod gitea;
pub mod github;
pub mod gitlab;
pub mod info;
pub mod response;

pub use azure::AzureDevOpsProvider;
pub use gitea::GiteaProvider;
pub use github::GitHubProvider;
pub use gitlab::GitLabProvider;
pub use info::{PlatformData, extract_owner_from_url};

verus! {

/// The forge-specific parts of PR/MR handling.
pub trait RemoteRefProvider {
    /// The git ref path of change request `number` on this forge.
    spec fn ref_path_spec(&self, number: u32) -> Seq<char>;

    /// The reference type this provider handles.
    fn ref_type(&self) -> RefType;

    /// Short, stable identifier for the platform.
    fn platform_label(&self) -> &'static str;

    /// The git ref path (e.g. `pull/123/head`).
    fn ref_path(&self, number: u32) -> (r: String)
        ensures
            r@ == self.ref_path_spec(number),
    ;

    /// The full tracking ref (e.g. `refs/pull/123/head`).
    fn tracking_ref(&self, number: u32) -> (r: String)
        ensures
            r@ == "refs/"@ + self.ref_path_spec(number),
    {
        let p = self.ref_path(number);
        let mut v = to_chars("refs/");
        append_str(&mut v, p.as_str());
        from_chars(v.as_slice())
    }
}

/// `<kind>/<number>/head`.
pub open spec fn numbered_ref_path(kind: Seq<char>, number: u32) -> Seq<char> {
    kind + seq!['/'] + decimal(number as nat) + "/head"@
}

/// Build `<kind>/<number>/head`.
pub fn numbered_ref_path_exec(kind: &str, number: u32) -> (r: String)
    ensures
        r@ == numbered_ref_path(kind@, number),
{
    let mut v = to_chars(kind);
    v.push('/');
    let d = decimal_chars(number as u64);
    append_chars(&mut v, d.as_slice());
    append_str(&mut v, "/head");
    assert(v@ =~= numbered_ref_path(kind@, number));
    from_chars(v.as_slice())
}

/// Generate the local branch name for a remote ref: the source branch
/// itself, so that `git push` with `push.default = current` works.
pub fn local_branch_name(info: &RemoteRefInfo) -> (r: String)
    ensures
        r@ == info.source_branch@,
{
    copy_string(&info.source_branch)
}

/// Whether a local branch tracks `expected_ref`, from what git reported:
/// `merge_ref` is the branch's `branch.<name>.merge` setting (`None` when it
/// has none) and `branch_exists` whether the branch exists at all. `None`
/// when the branch does not exist.
pub fn branch_tracks(merge_ref: Option<&str>, branch_exists: bool, expected_ref: &str) -> (r: Option<bool>)
    ensures
        r == (match merge_ref {
            Some(m) => Some(trim(m@) == expected_ref@),
            None => if branch_exists {
                Some(false)
            } else {
                None
            },
        }),
{
    match merge_ref {
        Some(m) => {
            let mv = to_chars(m);
            let t = trim_chars(mv.as_slice());
            let e = to_chars(expected_ref);
            Some(eq_chars(t.as_slice(), e.as_slice()))
        },
        None => if branch_exists {
            Some(false)
        } else {
            None
        },
    }
}

/// Whether a local branch tracks change request `number` of `provider`.
pub fn branch_tracks_ref<P: RemoteRefProvider>(
    merge_ref: Option<&str>,
    branch_exists: bool,
    provider: &P,
    number: u32,
) -> (r: Option<bool>)
    ensures
        r == (match merge_ref {
            Some(m) => Some(trim(m@) == "refs/"@ + provider.ref_path_spec(number)),
            None => if branch_exists {
                Some(false)
            } else {
                None
            },
        }),
{
    let expected = provider.tracking_ref(number);
    branch_tracks(merge_ref, branch_exists, expected.as_str())
}

/// The host of a forge web URL: the first path segment after `http(s)://`.
pub open spec fn host_of_html_url(url: Seq<char>) -> Option<Seq<char>> {
    match web_rest(url) {
        Some(rest) => if split_seq(rest, '/')[0].len() > 0 {
            Some(split_seq(rest, '/')[0])
        } else {
            None
        },
        None => None,
    }
}

/// Extract the host (e.g. `github.com`) from a PR/MR web URL.
pub fn extract_host_from_html_url(html_url: &str) -> (r: Result<String, Error>)
    ensures
        match host_of_html_url(html_url@) {
            Some(h) => r matches Ok(s) && s@ == h,
            None => r matches Err(Error::Other(m)) && m@ == "Failed to parse host from PR URL: "@ + html_url@,
        },
{
    let u = to_chars(html_url);
    match web_rest_exec(u.as_slice()) {
        Some(rest) => {
            let segs = split_chars(rest.as_slice(), '/');
            proof {
                lemma_split_acc_nonempty(Seq::empty(), rest@, '/');
            }
            assert(vviews(segs@)[0] == segs@[0]@);
            if segs[0].len() > 0 {
                return Ok(from_chars(segs[0].as_slice()));
            }
        },
        None => {},
    }
    let mut m = to_chars("Failed to parse host from PR URL: ");
    append_str(&mut m, html_url);
    Err(Error::Other(from_chars(m.as_slice())))
}

/// Index of the first `?` or `#` at or after `from`, or the length.
pub open spec fn query_start(s: Seq<char>, from: int) -> int
    decreases s.len() - from,
{
    if from < 0 || from >= s.len() {
        s.len() as int
    } else if s[from] == '?' || s[from] == '#' {
        from
    } else {
        query_start(s, from + 1)
    }
}

/// The (PR/MR kind, number) named by the first `<kind>/<number>` pair of
/// segments at or after `i`.
pub open spec fn ref_pair_from(segs: Seq<Seq<char>>, i: int) -> Option<(RefType, u32)>
    decreases segs.len() - i,
{
    if i < 0 || i + 1 >= segs.len() {
        None
    } else {
        match parse_u32_spec(segs[i + 1]) {
            Some(n) => if segs[i] == "pull"@ || segs[i] == "pulls"@ || segs[i] == "pullrequest"@ {
                Some((RefType::Pr, n))
            } else if segs[i] == "merge_requests"@ {
                Some((RefType::Mr, n))
            } else {
                ref_pair_from(segs, i + 1)
            },
            None => ref_pair_from(segs, i + 1),
        }
    }
}

/// The (kind, number) of a forge PR/MR web URL: an `http(s)://` URL whose
/// path, without query or fragment, has at least five non-empty segments and
/// a `pull`, `pulls`, `pullrequest` or `merge_requests` segment followed by a
/// number.
pub open spec fn parse_ref_url_spec(input: Seq<char>) -> Option<(RefType, u32)> {
    match web_rest(trim(input)) {
        Some(rest) => {
            let path = rest.take(query_start(rest, 0));
            let segs = drop_empty(split_seq(path, '/'));
            if segs.len() < 5 {
                None
            } else {
                ref_pair_from(segs, 0)
            }
        },
        None => None,
    }
}

fn query_start_exec(s: &[char]) -> (r: usize)
    ensures
        r == query_start(s@, 0),
        r <= s@.len(),
{
    let mut i: usize = 0;
    while i < s.len()
        invariant
            i <= s@.len(),
            query_start(s@, 0) == query_start(s@, i as int),
        decreases s.len() - i,
    {
        if s[i] == '?' || s[i] == '#' {
            return i;
        }
        i = i + 1;
    }
    i
}

fn kind_of_segment(seg: &[char]) -> (r: Option<RefType>)
    ensures
        r == (if seg@ == "pull"@ || seg@ == "pulls"@ || seg@ == "pullrequest"@ {
            Some(RefType::Pr)
        } else if seg@ == "merge_requests"@ {
            Some(RefType::Mr)
        } else {
            None
        }),
{
    let pull = to_chars("pull");
    let pulls = to_chars("pulls");
    let pullrequest = to_chars("pullrequest");
    let mrs = to_chars("merge_requests");
    if eq_chars(seg, pull.as_slice()) || eq_chars(seg, pulls.as_slice()) || eq_chars(seg, pullrequest.as_slice()) {
        Some(RefType::Pr)
    } else if eq_chars(seg, mrs.as_slice()) {
        Some(RefType::Mr)
    } else {
        None
    }
}

/// Parse a forge PR/MR web URL into a `(ref type, number)` pair.
pub fn parse_ref_url(input: &str) -> (r: Option<(RefType, u32)>)
    ensures
        r == parse_ref_url_spec(input@),
{
    let chars = to_chars(input);
    let t = trim_chars(chars.as_slice());
    let rest = match web_rest_exec(t.as_slice()) {
        Some(r) => r,
        None => return None,
    };
    let q = query_start_exec(rest.as_slice());
    let path = crate::text::slice_copy(rest.as_slice(), 0, q);
    assert(rest@.subrange(0, q as int) =~= rest@.take(q as int));
    let segs = drop_empty_fields(split_chars(path.as_slice(), '/'));
    if segs.len() < 5 {
        return None;
    }
    let ghost all = vviews(segs@);
    assert(parse_ref_url_spec(input@) == ref_pair_from(all, 0));
    let mut i: usize = 0;
    while i + 1 < segs.len()
        invariant
            parse_ref_url_spec(input@) == ref_pair_from(all, 0),
            all == vviews(segs@),
            all.len() >= 5,
            i + 1 <= all.len(),
            ref_pair_from(all, 0) == ref_pair_from(all, i as int),
        decreases segs.len() - i,
    {
        assert(all[i as int] == segs@[i as int]@);
        assert(all[i + 1] == segs@[i + 1]@);
        match parse_u32_chars(segs[i + 1].as_slice()) {
            Some(n) => match kind_of_segment(segs[i].as_slice()) {
                Some(k) => {
                    assert(ref_pair_from(all, i as int) == Some((k, n)));
                    return Some((k, n));
                },
                None => {},
            },
            None => {},
        }
        i = i + 1;
    }
    None
}


/// Equality up to ASCII case.
pub open spec fn eq_ignore_case(a: Seq<char>, b: Seq<char>) -> bool {
    ascii_lower_seq(a) == ascii_lower_seq(b)
}

pub fn eq_ignore_case_exec(a: &[char], b: &[char]) -> (r: bool)
    ensures
        r == eq_ignore_case(a@, b@),
{
    let la = ascii_lower_chars(a);
    let lb = ascii_lower_chars(b);
    eq_chars(la.as_slice(), lb.as_slice())
}

/// Whether a remote URL names repository `owner/repo` (any host; owner and
/// repository compared up to ASCII case).
pub open spec fn url_names_repo(url: Seq<char>, owner: Seq<char>, repo: Seq<char>) -> bool {
    match parse_remote_url(url) {
        Some(p) => eq_ignore_case(p.owner, owner) && eq_ignore_case(p.repo, repo),
        None => false,
    }
}

/// Whether a remote URL names Azure DevOps repository `repo` of `project` in
/// `org`: `https://dev.azure.com/<org>/<project>/_git/<repo>`,
/// `git@ssh.dev.azure.com:v3/<org>/<project>/<repo>`, or
/// `https://<org>.visualstudio.com/<project>/_git/<repo>` (compared up to
/// ASCII case).
pub open spec fn url_names_azure_repo(url: Seq<char>, org: Seq<char>, project: Seq<char>, repo: Seq<char>) -> bool {
    match parse_remote_url(url) {
        Some(p) => eq_ignore_case(p.repo, repo) && (eq_ignore_case(p.owner, org + seq!['/'] + project + "/_git"@)
            || eq_ignore_case(p.owner, "v3/"@ + org + seq!['/'] + project) || (eq_ignore_case(
            p.host,
            org + ".visualstudio.com"@,
        ) && eq_ignore_case(p.owner, project + "/_git"@))),
        None => false,
    }
}

/// The first remote, in `remotes` order, whose URL satisfies `names`.
pub open spec fn first_remote_where(remotes: Seq<(Seq<char>, Seq<char>)>, names: spec_fn(Seq<char>) -> bool) -> Option<Seq<char>>
    decreases remotes.len(),
{
    if remotes.len() == 0 {
        None
    } else if names(remotes[0].1) {
        Some(remotes[0].0)
    } else {
        first_remote_where(remotes.drop_first(), names)
    }
}

/// The remotes as views.
pub open spec fn remote_views(v: Seq<(String, String)>) -> Seq<(Seq<char>, Seq<char>)> {
    v.map_values(|p: (String, String)| (p.0@, p.1@))
}

/// The local remote whose URL names `owner/repo`, the first one listed.
pub fn find_remote_for_repo(remotes: &Vec<(String, String)>, owner: &str, repo: &str) -> (r: Option<String>)
    ensures
        opt_str(r) == first_remote_where(remote_views(remotes@), |u: Seq<char>| url_names_repo(u, owner@, repo@)),
{
    let ghost all = remote_views(remotes@);
    let ghost pred = |u: Seq<char>| url_names_repo(u, owner@, repo@);
    let o = to_chars(owner);
    let rp = to_chars(repo);
    let mut i: usize = 0;
    assert(all.skip(0) =~= all);
    while i < remotes.len()
        invariant
            i <= remotes@.len(),
            all == remote_views(remotes@),
            o@ == owner@,
            rp@ == repo@,
            pred == (|u: Seq<char>| url_names_repo(u, owner@, repo@)),
            first_remote_where(all, pred) == first_remote_where(all.skip(i as int), pred),
        decreases remotes.len() - i,
    {
        assert(all.skip(i as int).drop_first() =~= all.skip(i + 1));
        assert(all.skip(i as int)[0] == (remotes@[i as int].0@, remotes@[i as int].1@));
        let hit = match GitRemoteUrl::parse(remotes[i].1.as_str()) {
            Some(p) => {
                let po = to_chars(p.owner());
                let pr = to_chars(p.repo());
                eq_ignore_case_exec(po.as_slice(), o.as_slice()) && eq_ignore_case_exec(pr.as_slice(), rp.as_slice())
            },
            None => false,
        };
        if hit {
            return Some(copy_string(&remotes[i].0));
        }
        i = i + 1;
    }
    None
}

/// The local remote whose URL names Azure DevOps repository
/// `org/project/repo_name`, the first one listed.
pub fn find_remote_for_azure(remotes: &Vec<(String, String)>, org: &str, project: &str, repo_name: &str) -> (r: Option<String>)
    ensures
        opt_str(r) == first_remote_where(
            remote_views(remotes@),
            |u: Seq<char>| url_names_azure_repo(u, org@, project@, repo_name@),
        ),
{
    let ghost all = remote_views(remotes@);
    let ghost pred = |u: Seq<char>| url_names_azure_repo(u, org@, project@, repo_name@);
    let mut https_owner = to_chars(org);
    https_owner.push('/');
    append_str(&mut https_owner, project);
    append_str(&mut https_owner, "/_git");
    let mut ssh_owner = to_chars("v3/");
    append_str(&mut ssh_owner, org);
    ssh_owner.push('/');
    append_str(&mut ssh_owner, project);
    let mut vs_host = to_chars(org);
    append_str(&mut vs_host, ".visualstudio.com");
    let mut vs_owner = to_chars(project);
    append_str(&mut vs_owner, "/_git");
    let rn = to_chars(repo_name);
    let mut i: usize = 0;
    assert(all.skip(0) =~= all);
    while i < remotes.len()
        invariant
            i <= remotes@.len(),
            all == remote_views(remotes@),
            https_owner@ == org@ + seq!['/'] + project@ + "/_git"@,
            ssh_owner@ == "v3/"@ + org@ + seq!['/'] + project@,
            vs_host@ == org@ + ".visualstudio.com"@,
            vs_owner@ == project@ + "/_git"@,
            rn@ == repo_name@,
            pred == (|u: Seq<char>| url_names_azure_repo(u, org@, project@, repo_name@)),
            first_remote_where(all, pred) == first_remote_where(all.skip(i as int), pred),
        decreases remotes.len() - i,
    {
        assert(all.skip(i as int).drop_first() =~= all.skip(i + 1));
        assert(all.skip(i as int)[0] == (remotes@[i as int].0@, remotes@[i as int].1@));
        let hit = match GitRemoteUrl::parse(remotes[i].1.as_str()) {
            Some(p) => {
                let po = to_chars(p.owner());
                let pr = to_chars(p.repo());
                let ph = to_chars(p.host());
                eq_ignore_case_exec(pr.as_slice(), rn.as_slice()) && (eq_ignore_case_exec(
                    po.as_slice(),
                    https_owner.as_slice(),
                ) || eq_ignore_case_exec(po.as_slice(), ssh_owner.as_slice()) || (eq_ignore_case_exec(
                    ph.as_slice(),
                    vs_host.as_slice(),
                ) && eq_ignore_case_exec(po.as_slice(), vs_owner.as_slice())))
            },
            None => false,
        };
        if hit {
            return Some(copy_string(&remotes[i].0));
        }
        i = i + 1;
    }
    None
}


/// No local remote points to the repository a PR/MR targets; `suggested_url`
/// is the URL to add it with.
#[derive(Debug, Clone, PartialEq, Eq)]
pub struct NoRemoteForRepo {
    pub owner: String,
    pub repo: String,
    pub suggested_url: String,
}

/// What `find_remote` decides: the matching remote's name, or the
/// (owner, repo, suggested URL) of the error.
pub open spec fn find_remote_spec(
    remotes: Seq<(Seq<char>, Seq<char>)>,
    info: RemoteRefInfo,
    use_ssh: bool,
) -> Result<Seq<char>, (Seq<char>, Seq<char>, Seq<char>)> {
    match info.platform_data {
        PlatformData::GitHub { host, base_owner, base_repo, .. } => match first_remote_where(
            remotes,
            |u: Seq<char>| url_names_repo(u, base_owner@, base_repo@),
        ) {
            Some(n) => Ok(n),
            None => Err((base_owner@, base_repo@, github_repo_url(use_ssh, host@, base_owner@, base_repo@))),
        },
        PlatformData::Gitea { host, base_owner, base_repo, .. } => match first_remote_where(
            remotes,
            |u: Seq<char>| url_names_repo(u, base_owner@, base_repo@),
        ) {
            Some(n) => Ok(n),
            None => Err((base_owner@, base_repo@, gitea_repo_url(host@, base_owner@, base_repo@))),
        },
        PlatformData::AzureDevOps { host, organization, project, repo_name } => match first_remote_where(
            remotes,
            |u: Seq<char>| url_names_azure_repo(u, organization@, project@, repo_name@),
        ) {
            Some(n) => Ok(n),
            None => Err((organization@, repo_name@, azure_repo_url(organization@, project@, repo_name@))),
        },
        PlatformData::GitLab { target_ssh_url, target_http_url, .. } => match prefer_url(
            use_ssh,
            target_ssh_url,
            target_http_url,
        ) {
            Some(t) => match parse_remote_url(t) {
                Some(p) => match first_remote_where(remotes, |u: Seq<char>| url_names_repo(u, p.owner, p.repo)) {
                    Some(n) => Ok(n),
                    None => Err((p.owner, p.repo, t)),
                },
                None => Err((Seq::empty(), Seq::empty(), t)),
            },
            None => Err((Seq::empty(), Seq::empty(), Seq::empty())),
        },
    }
}

/// Find the local remote that points to the base (target) repository of a
/// PR/MR, matching by owner and repository only, so SSH host aliases still
/// match. On failure the error suggests a URL to add, in the forge's
/// protocol (`use_ssh`: the CLI's `git_protocol` setting is `ssh`).
pub fn find_remote(remotes: &Vec<(String, String)>, info: &RemoteRefInfo, use_ssh: bool) -> (r: Result<String, NoRemoteForRepo>)
    ensures
        match find_remote_spec(remote_views(remotes@), *info, use_ssh) {
            Ok(n) => r matches Ok(s) && s@ == n,
            Err((o, rp, u)) => r matches Err(e) && e.owner@ == o && e.repo@ == rp && e.suggested_url@ == u,
        },
{
    match &info.platform_data {
        PlatformData::GitHub { host, base_owner, base_repo, .. } => match find_remote_for_repo(
            remotes,
            base_owner.as_str(),
            base_repo.as_str(),
        ) {
            Some(n) => Ok(n),
            None => Err(NoRemoteForRepo {
                owner: copy_string(base_owner),
                repo: copy_string(base_repo),
                suggested_url: github::fork_remote_url(use_ssh, host.as_str(), base_owner.as_str(), base_repo.as_str()),
            }),
        },
        PlatformData::Gitea { host, base_owner, base_repo, .. } => match find_remote_for_repo(
            remotes,
            base_owner.as_str(),
            base_repo.as_str(),
        ) {
            Some(n) => Ok(n),
            None => Err(NoRemoteForRepo {
                owner: copy_string(base_owner),
                repo: copy_string(base_repo),
                suggested_url: gitea::fork_remote_url(host.as_str(), base_owner.as_str(), base_repo.as_str()),
            }),
        },
        PlatformData::AzureDevOps { host, organization, project, repo_name } => match find_remote_for_azure(
            remotes,
            organization.as_str(),
            project.as_str(),
            repo_name.as_str(),
        ) {
            Some(n) => Ok(n),
            None => Err(NoRemoteForRepo {
                owner: copy_string(organization),
                repo: copy_string(repo_name),
                suggested_url: azure::fork_remote_url(
                    host.as_str(),
                    organization.as_str(),
                    project.as_str(),
                    repo_name.as_str(),
                ),
            }),
        },
        PlatformData::GitLab { target_ssh_url, target_http_url, .. } => {
            match prefer_url_exec(use_ssh, target_ssh_url, target_http_url) {
                Some(t) => match GitRemoteUrl::parse(t.as_str()) {
                    Some(p) => match find_remote_for_repo(remotes, p.owner(), p.repo()) {
                        Some(n) => Ok(n),
                        None => Err(NoRemoteForRepo {
                            owner: crate::text::string_of(p.owner()),
                            repo: crate::text::string_of(p.repo()),
                            suggested_url: t,
                        }),
                    },
                    None => Err(NoRemoteForRepo { owner: String::new(), repo: String::new(), suggested_url: t }),
                },
                None => Err(NoRemoteForRepo { owner: String::new(), repo: String::new(), suggested_url: String::new() }),
            }
        },
    }
}

} // verus!
