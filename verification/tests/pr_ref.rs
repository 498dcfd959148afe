use worktrunk::git::error::Error;
use worktrunk::git::pr_ref::{
    branch_tracks_pr, fork_remote_url, local_branch_name, parse_pr_ref, pr_fetch_failure,
    pr_failure_from_lowercase, pr_info_from_response, pr_spawn_failure, PrInfo,
};


#[test]
fn test_parse_pr_ref() {
    assert_eq!(parse_pr_ref("pr:101"), Some(101));
    assert_eq!(parse_pr_ref("pr:1"), Some(1));
    assert_eq!(parse_pr_ref("pr:99999"), Some(99999));

    // Invalid cases
    assert_eq!(parse_pr_ref("pr:"), None);
    assert_eq!(parse_pr_ref("pr:abc"), None);
    assert_eq!(parse_pr_ref("pr:-1"), None);
    assert_eq!(parse_pr_ref("PR:101"), None); // case-sensitive
    assert_eq!(parse_pr_ref("feature-branch"), None);
    assert_eq!(parse_pr_ref("101"), None);
}

#[test]
fn test_local_branch_name_same_repo() {
    let pr = PrInfo {
        number: 101,
        head_ref_name: "feature-auth".to_string(),
        head_owner: "owner".to_string(),
        head_repo: "repo".to_string(),
        base_owner: "owner".to_string(),
        base_repo: "repo".to_string(),
        is_cross_repository: false,
        url: "https://github.com/owner/repo/pull/101".to_string(),
    };
    assert_eq!(local_branch_name(&pr), "feature-auth");
}

#[test]
fn pr_ref_test_local_branch_name_fork() {
    let pr = PrInfo {
        number: 101,
        head_ref_name: "feature-auth".to_string(),
        head_owner: "contributor".to_string(),
        head_repo: "repo".to_string(),
        base_owner: "owner".to_string(),
        base_repo: "repo".to_string(),
        is_cross_repository: true,
        url: "https://github.com/owner/repo/pull/101".to_string(),
    };
    assert_eq!(local_branch_name(&pr), "contributor/feature-auth");
}

#[test]
fn test_fork_remote_url_ssh() {
    let url = fork_remote_url("contributor", "repo", "git@github.com:owner/repo.git");
    assert_eq!(url, "git@github.com:contributor/repo.git");
}

#[test]
fn test_fork_remote_url_https() {
    let url = fork_remote_url("contributor", "repo", "https://github.com/owner/repo.git");
    assert_eq!(url, "https://github.com/contributor/repo.git");
}

fn message(e: Error) -> String {
    match e {
        Error::Other(m) => m,
        _ => panic!("unexpected error kind"),
    }
}

#[test]
fn fetch_failures_are_classified() {
    assert_eq!(message(pr_fetch_failure(5, "HTTP 404: Not Found")), "PR #5 not found");
    assert_eq!(
        message(pr_fetch_failure(5, "You are not logged into any GitHub hosts")),
        "GitHub CLI not authenticated; run gh auth login"
    );
    assert_eq!(
        message(pr_fetch_failure(5, "API RATE LIMIT exceeded")),
        "GitHub API rate limit exceeded; wait a few minutes and retry"
    );
    assert_eq!(
        message(pr_fetch_failure(5, "connection reset")),
        "Network error connecting to GitHub; check your internet connection"
    );
    assert_eq!(message(pr_fetch_failure(5, "  weird failure \n")), "gh api failed: weird failure");
}

#[test]
fn spawn_failures() {
    assert_eq!(
        message(pr_spawn_failure("No such file or directory (os error 2)").unwrap()),
        "GitHub CLI (gh) not installed; install from https://cli.github.com/"
    );
    assert!(pr_spawn_failure("permission denied").is_none());
}

#[test]
fn response_to_pr_info() {
    let pr = pr_info_from_response(
        9,
        "feat".to_string(),
        "alice".to_string(),
        "repo".to_string(),
        "owner".to_string(),
        "repo".to_string(),
        "https://github.com/owner/repo/pull/9".to_string(),
    )
    .unwrap();
    assert!(pr.is_cross_repository);
    assert_eq!(local_branch_name(&pr), "alice/feat");
    let same = pr_info_from_response(
        9,
        "feat".to_string(),
        "owner".to_string(),
        "repo".to_string(),
        "owner".to_string(),
        "repo".to_string(),
        "u".to_string(),
    )
    .unwrap();
    assert!(!same.is_cross_repository);
    let err = pr_info_from_response(
        9,
        String::new(),
        "o".to_string(),
        "r".to_string(),
        "o".to_string(),
        "r".to_string(),
        "u".to_string(),
    )
    .unwrap_err();
    assert_eq!(message(err), "PR #9 has empty branch name; the PR may be in an invalid state");
}

#[test]
fn branch_tracking_of_pr() {
    assert_eq!(branch_tracks_pr(Some("refs/pull/12/head"), true, 12), Some(true));
    assert_eq!(branch_tracks_pr(Some("refs/pull/13/head"), true, 12), Some(false));
    assert_eq!(branch_tracks_pr(None, true, 12), Some(false));
    assert_eq!(branch_tracks_pr(None, false, 12), None);
}

#[test]
fn fork_url_for_ssh_scheme_remote() {
    assert_eq!(
        fork_remote_url("c", "r", "ssh://git@github.com/o/r.git"),
        "git@github.com:c/r.git"
    );
}

#[test]
fn pr_failure_classifies_the_lowered_stderr() {
    let msg = |e: Error| match e {
        Error::Other(m) => m,
        other => panic!("unexpected {:?}", other),
    };
    assert_eq!(msg(pr_failure_from_lowercase(3, "HTTP 404", "http 404")), "PR #3 not found");
    assert_eq!(msg(pr_failure_from_lowercase(3, " Weird ", "weird")), "gh api failed: Weird");
}
