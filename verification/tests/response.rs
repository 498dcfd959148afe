use worktrunk::git::error::Error;
use worktrunk::git::remote_ref::info::RemoteRefInfo;
use worktrunk::git::remote_ref::response::{
    azure_api_failure, azure_ref_info, cli_api_error_details, gitea_api_failure, github_api_failure, github_api_failure_lowered, github_ref_info,
    gitea_ref_info, gitlab_api_failure, gitlab_ref_info, ApiFailure, ApiRepo, AzPrResponse,
    MrResponse, PrResponse,
};
use worktrunk::git::remote_ref::PlatformData;
use worktrunk::git::RefType;

fn repo(owner: &str, name: &str) -> Option<ApiRepo> {
    Some(ApiRepo { owner: owner.to_string(), name: name.to_string() })
}

fn pr(head: Option<ApiRepo>, base: Option<ApiRepo>, head_ref: &str, url: &str) -> PrResponse {
    PrResponse {
        title: "Fix bug".to_string(),
        author: "alice".to_string(),
        state: "open".to_string(),
        draft: false,
        head_ref: head_ref.to_string(),
        head_label: String::new(),
        head_repo: head,
        base_repo: base,
        html_url: url.to_string(),
    }
}

fn other_message(e: Error) -> String {
    match e {
        Error::Other(m) => m,
        other => panic!("unexpected error: {:?}", other),
    }
}

fn ok(r: Result<RemoteRefInfo, Error>) -> RemoteRefInfo {
    match r {
        Ok(info) => info,
        Err(e) => panic!("unexpected error: {:?}", e),
    }
}

#[test]
fn test_github_ref_info_same_repo() {
    let r = pr(repo("owner", "repo"), repo("Owner", "Repo"), "feature", "https://github.com/owner/repo/pull/5");
    let info = ok(github_ref_info(5, r, false));
    assert_eq!(info.ref_type, RefType::Pr);
    assert_eq!(info.number, 5);
    assert_eq!(info.title, "Fix bug");
    assert_eq!(info.source_branch, "feature");
    assert!(!info.is_cross_repo);
    assert_eq!(info.fork_push_url, None);
    assert_eq!(info.url, "https://github.com/owner/repo/pull/5");
    match info.platform_data {
        PlatformData::GitHub { host, head_owner, head_repo, base_owner, base_repo } => {
            assert_eq!(host, "github.com");
            assert_eq!(head_owner, "owner");
            assert_eq!(head_repo, "repo");
            assert_eq!(base_owner, "Owner");
            assert_eq!(base_repo, "Repo");
        }
        other => panic!("unexpected platform data: {:?}", other),
    }
}

#[test]
fn test_github_ref_info_fork_protocols() {
    let r = pr(repo("contrib", "repo"), repo("owner", "repo"), "fix", "https://github.com/owner/repo/pull/9");
    let https = ok(github_ref_info(9, r.clone(), false));
    assert!(https.is_cross_repo);
    assert_eq!(https.fork_push_url.as_deref(), Some("https://github.com/contrib/repo.git"));
    let ssh = ok(github_ref_info(9, r, true));
    assert_eq!(ssh.fork_push_url.as_deref(), Some("git@github.com:contrib/repo.git"));
}

#[test]
fn test_github_ref_info_errors() {
    let empty = pr(repo("a", "b"), repo("a", "b"), "", "https://github.com/a/b/pull/1");
    assert_eq!(
        other_message(github_ref_info(1, empty, false).unwrap_err()),
        "PR #1 has empty branch name; the PR may be in an invalid state"
    );
    let no_base = pr(repo("a", "b"), None, "x", "https://github.com/a/b/pull/2");
    assert_eq!(
        other_message(github_ref_info(2, no_base, false).unwrap_err()),
        "PR base repository is null; this is unexpected and may indicate a GitHub API issue"
    );
    let deleted = pr(None, repo("a", "b"), "x", "https://github.com/a/b/pull/3");
    assert!(other_message(github_ref_info(3, deleted, false).unwrap_err())
        .starts_with("PR #3 source repository was deleted."));
    let bad_url = pr(repo("a", "b"), repo("a", "b"), "x", "not-a-url");
    assert_eq!(
        other_message(github_ref_info(4, bad_url, false).unwrap_err()),
        "Failed to parse host from PR URL: not-a-url"
    );
}

#[test]
fn test_gitea_ref_info_label_and_fork() {
    let mut r = pr(repo("contrib", "repo"), repo("owner", "repo"), "refs/pull/3/head", "https://gitea.example.com/owner/repo/pulls/3");
    r.head_label = "contrib:feature".to_string();
    let info = ok(gitea_ref_info(3, r));
    assert_eq!(info.source_branch, "feature");
    assert!(info.is_cross_repo);
    assert_eq!(info.fork_push_url.as_deref(), Some("https://gitea.example.com/contrib/repo.git"));
    assert!(matches!(info.platform_data, PlatformData::Gitea { .. }));
}

#[test]
fn test_gitea_ref_info_no_branch() {
    let r = pr(repo("a", "b"), repo("a", "b"), "pulls/4", "https://gitea.example.com/a/b/pulls/4");
    assert_eq!(
        other_message(gitea_ref_info(4, r).unwrap_err()),
        "Gitea PR #4 has no source branch in head.label/head.ref; the PR may be in an invalid state"
    );
}

#[test]
fn test_cli_api_error_details_prefers_stderr() {
    assert_eq!(cli_api_error_details("  boom \n", "out"), "boom");
    assert_eq!(cli_api_error_details(" \n", "  out  "), "out");
    assert_eq!(cli_api_error_details("", ""), "");
}

fn failed_message(f: ApiFailure) -> String {
    match f {
        ApiFailure::Failed(e) => other_message(e),
        other => panic!("unexpected failure: {:?}", other),
    }
}

#[test]
fn test_github_api_failure_kinds() {
    assert!(matches!(github_api_failure(1, Some(("404", "Not Found")), "", ""), ApiFailure::NotFound));
    assert_eq!(
        failed_message(github_api_failure(1, Some(("401", "Bad credentials")), "", "")),
        "GitHub CLI not authenticated; run gh auth login"
    );
    assert_eq!(
        failed_message(github_api_failure(1, Some(("403", "API Rate Limit exceeded")), "", "")),
        "GitHub API rate limit exceeded; wait a few minutes and retry"
    );
    assert_eq!(
        failed_message(github_api_failure(1, Some(("403", "Resource not accessible")), "", "")),
        "GitHub API access forbidden: Resource not accessible"
    );
    match github_api_failure(12, Some(("500", "oops")), " server error ", "") {
        ApiFailure::CliApi { ref_type, message, details } => {
            assert_eq!(ref_type, RefType::Pr);
            assert_eq!(message, "gh api failed for PR #12");
            assert_eq!(details, "server error");
        }
        other => panic!("unexpected failure: {:?}", other),
    }
    assert!(matches!(github_api_failure(12, None, "", "x"), ApiFailure::CliApi { .. }));
}

#[test]
fn test_gitlab_api_failure_kinds() {
    assert_eq!(
        failed_message(gitlab_api_failure(7, Some(("404 Not Found", "")), "", "")),
        "MR !7 not found"
    );
    assert_eq!(
        failed_message(gitlab_api_failure(7, Some(("", "401 Unauthorized")), "", "")),
        "GitLab CLI not authenticated; run glab auth login"
    );
    assert_eq!(
        failed_message(gitlab_api_failure(7, Some(("403 Forbidden", "")), "", "")),
        "GitLab API access forbidden for MR !7"
    );
    match gitlab_api_failure(7, None, "", " no json ") {
        ApiFailure::CliApi { ref_type, message, details } => {
            assert_eq!(ref_type, RefType::Mr);
            assert_eq!(message, "glab api failed for MR !7");
            assert_eq!(details, "no json");
        }
        other => panic!("unexpected failure: {:?}", other),
    }
}

fn mr(source: u64, target: u64, branch: &str) -> MrResponse {
    MrResponse {
        title: "Add thing".to_string(),
        author: "bob".to_string(),
        state: "opened".to_string(),
        draft: true,
        source_branch: branch.to_string(),
        source_project_id: source,
        target_project_id: target,
        web_url: "https://gitlab.com/group/proj/-/merge_requests/8".to_string(),
    }
}

#[test]
fn test_gitlab_ref_info_fork_prefers_protocol() {
    let source = (Some("git@gitlab.com:fork/proj.git".to_string()), Some("https://gitlab.com/fork/proj.git".to_string()));
    let target = (Some("git@gitlab.com:group/proj.git".to_string()), Some("https://gitlab.com/group/proj.git".to_string()));
    let https = ok(gitlab_ref_info(8, mr(1, 2, "feat"), &source, &target, "https"));
    assert!(https.is_cross_repo);
    assert!(https.draft);
    assert_eq!(https.fork_push_url.as_deref(), Some("https://gitlab.com/fork/proj.git"));
    let ssh = ok(gitlab_ref_info(8, mr(1, 2, "feat"), &source, &target, "ssh"));
    assert_eq!(ssh.fork_push_url.as_deref(), Some("git@gitlab.com:fork/proj.git"));
    match ssh.platform_data {
        PlatformData::GitLab { source_project_id, target_project_id, target_ssh_url, target_http_url } => {
            assert_eq!(source_project_id, 1);
            assert_eq!(target_project_id, 2);
            assert_eq!(target_ssh_url.as_deref(), Some("git@gitlab.com:group/proj.git"));
            assert_eq!(target_http_url.as_deref(), Some("https://gitlab.com/group/proj.git"));
        }
        other => panic!("unexpected platform data: {:?}", other),
    }
}

#[test]
fn test_gitlab_ref_info_same_project_and_empty_branch() {
    let none = (None, None);
    let info = ok(gitlab_ref_info(8, mr(3, 3, "feat"), &none, &none, "ssh"));
    assert!(!info.is_cross_repo);
    assert_eq!(info.fork_push_url, None);
    assert_eq!(info.ref_type, RefType::Mr);
    assert_eq!(
        other_message(gitlab_ref_info(8, mr(3, 3, ""), &none, &none, "ssh").unwrap_err()),
        "MR !8 has empty branch name; the MR may be in an invalid state"
    );
}

#[test]
fn test_azure_api_failure_kinds() {
    assert_eq!(failed_message(azure_api_failure(3, "TF401180: does not exist", "")), "PR #3 not found");
    assert_eq!(
        failed_message(azure_api_failure(3, "Please run 'az login' to setup account.", "")),
        "Azure CLI not authenticated; run az login"
    );
    assert_eq!(
        failed_message(azure_api_failure(3, "The azure-devops extension is not installed", "")),
        "Azure DevOps CLI extension not installed; run: az extension add --name azure-devops"
    );
    match azure_api_failure(3, "something else", "") {
        ApiFailure::CliApi { ref_type, message, details } => {
            assert_eq!(ref_type, RefType::Pr);
            assert_eq!(message, "az repos pr show failed for PR #3");
            assert_eq!(details, "something else");
        }
        other => panic!("unexpected failure: {:?}", other),
    }
}

fn az(web_url: Option<&str>, fork: Option<(Option<String>, Option<String>)>) -> AzPrResponse {
    AzPrResponse {
        title: "Refactor".to_string(),
        author: "Carol".to_string(),
        status: "active".to_string(),
        is_draft: false,
        source_ref_name: "refs/heads/topic".to_string(),
        repo_name: "repo".to_string(),
        project: "proj".to_string(),
        web_url: web_url.map(|s| s.to_string()),
        fork,
    }
}

#[test]
fn test_azure_ref_info_from_web_url() {
    let info = azure_ref_info(21, az(Some("https://dev.azure.com/myorg/proj/_git/repo"), None), None);
    assert_eq!(info.source_branch, "topic");
    assert!(!info.is_cross_repo);
    assert_eq!(info.fork_push_url, None);
    assert_eq!(info.url, "https://dev.azure.com/myorg/proj/_git/repo/pullrequest/21");
    match info.platform_data {
        PlatformData::AzureDevOps { host, organization, project, repo_name } => {
            assert_eq!(host, "dev.azure.com");
            assert_eq!(organization, "myorg");
            assert_eq!(project, "proj");
            assert_eq!(repo_name, "repo");
        }
        other => panic!("unexpected platform data: {:?}", other),
    }
}

#[test]
fn test_azure_ref_info_org_fallback_and_fork() {
    let fork = Some((Some("git@ssh.dev.azure.com:v3/fork/proj/repo".to_string()), Some("https://x/y".to_string())));
    let info = azure_ref_info(4, az(None, fork), Some("https://dev.azure.com/fromflag"));
    assert!(info.is_cross_repo);
    assert_eq!(info.fork_push_url.as_deref(), Some("git@ssh.dev.azure.com:v3/fork/proj/repo"));
    assert_eq!(info.url, "https://dev.azure.com/fromflag/proj/_git/repo/pullrequest/4");
    let no_ssh = Some((None, Some("https://x/y".to_string())));
    let info = azure_ref_info(4, az(None, no_ssh), None);
    assert_eq!(info.fork_push_url.as_deref(), Some("https://x/y"));
    assert_eq!(info.url, "https://dev.azure.com/proj/proj/_git/repo/pullrequest/4");
}

#[test]
fn test_gitea_api_failure_kinds() {
    assert_eq!(
        failed_message(gitea_api_failure(5, Some("Not Found"), "own", "rep", "", "")),
        "Gitea PR #5 not found on own/rep"
    );
    assert_eq!(
        failed_message(gitea_api_failure(5, Some("401 UNAUTHORIZED"), "own", "rep", "", "")),
        "Gitea CLI not authenticated; run tea login add"
    );
    assert_eq!(
        failed_message(gitea_api_failure(5, Some("Forbidden"), "own", "rep", "", "")),
        "Gitea API access forbidden for PR #5"
    );
    match gitea_api_failure(5, Some("teapot"), "own", "rep", "", " out ") {
        ApiFailure::CliApi { ref_type, message, details } => {
            assert_eq!(ref_type, RefType::Pr);
            assert_eq!(message, "tea api failed for PR #5");
            assert_eq!(details, "out");
        }
        other => panic!("unexpected failure: {:?}", other),
    }
}

#[test]
fn github_failure_reads_the_lowered_message() {
    assert_eq!(
        failed_message(github_api_failure_lowered(2, Some(("403", "Slow Down")), "rate limit hit", "", "")),
        "GitHub API rate limit exceeded; wait a few minutes and retry"
    );
    assert_eq!(
        failed_message(github_api_failure_lowered(2, Some(("403", "Rate Limit")), "nope", "", "")),
        "GitHub API access forbidden: Rate Limit"
    );
}
