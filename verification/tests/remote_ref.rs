use worktrunk::git::error::Error;
use worktrunk::git::remote_ref::azure::{self, parse_web_url};
use worktrunk::git::remote_ref::gitea::{self, extract_source_branch, TeaPrRef};
use worktrunk::git::remote_ref::github;
use worktrunk::git::remote_ref::info::RemoteRefInfo;
use worktrunk::git::remote_ref::{
    find_remote, find_remote_for_azure,
    branch_tracks_ref, extract_host_from_html_url, extract_owner_from_url, local_branch_name,
    parse_ref_url, AzureDevOpsProvider, GitHubProvider, GitLabProvider, GiteaProvider,
    PlatformData, RemoteRefProvider,
};
use worktrunk::git::RefType;


#[test]
fn test_ref_paths() {
    let gh = GitHubProvider;
    assert_eq!(gh.ref_path(123), "pull/123/head");
    assert_eq!(gh.tracking_ref(123), "refs/pull/123/head");

    let ge = GiteaProvider;
    assert_eq!(ge.ref_path(7), "pull/7/head");
    assert_eq!(ge.tracking_ref(7), "refs/pull/7/head");

    let gl = GitLabProvider;
    assert_eq!(gl.ref_path(42), "merge-requests/42/head");
    assert_eq!(gl.tracking_ref(42), "refs/merge-requests/42/head");
}

#[test]
fn parse_ref_url_github() {
    assert_eq!(
        parse_ref_url("https://github.com/owner/repo/pull/123"),
        Some((RefType::Pr, 123))
    );
    // GitHub Enterprise host.
    assert_eq!(
        parse_ref_url("https://github.acme.com/team/repo/pull/9"),
        Some((RefType::Pr, 9))
    );
    // Trailing segments (e.g. /files, /commits) and fragments.
    assert_eq!(
        parse_ref_url("https://github.com/owner/repo/pull/2895/files"),
        Some((RefType::Pr, 2895))
    );
    assert_eq!(
        parse_ref_url("https://github.com/owner/repo/pull/77#discussion_r1"),
        Some((RefType::Pr, 77))
    );
    // http:// is accepted too.
    assert_eq!(
        parse_ref_url("http://github.com/owner/repo/pull/1"),
        Some((RefType::Pr, 1))
    );
}

#[test]
fn parse_ref_url_gitlab() {
    assert_eq!(
        parse_ref_url("https://gitlab.com/group/repo/-/merge_requests/42"),
        Some((RefType::Mr, 42))
    );
    // Nested subgroups.
    assert_eq!(
        parse_ref_url("https://gitlab.com/group/sub/repo/-/merge_requests/7"),
        Some((RefType::Mr, 7))
    );
    // Self-hosted GitLab with trailing diff path.
    assert_eq!(
        parse_ref_url("https://gitlab.example.com/team/repo/-/merge_requests/12/diffs"),
        Some((RefType::Mr, 12))
    );
}

#[test]
fn parse_ref_url_gitea() {
    // Gitea / Codeberg use /pulls/N rather than GitHub's /pull/N.
    assert_eq!(
        parse_ref_url("https://codeberg.org/owner/repo/pulls/55"),
        Some((RefType::Pr, 55))
    );
    assert_eq!(
        parse_ref_url("https://gitea.example.com/team/repo/pulls/3"),
        Some((RefType::Pr, 3))
    );
}

#[test]
fn parse_ref_url_azure_devops() {
    assert_eq!(
        parse_ref_url("https://dev.azure.com/org/project/_git/repo/pullrequest/9"),
        Some((RefType::Pr, 9))
    );
}

#[test]
fn parse_ref_url_rejects_non_urls() {
    // Plain branch names — no protocol prefix.
    assert_eq!(parse_ref_url("pr:123"), None);
    assert_eq!(parse_ref_url("feature/pull/7"), None);
    assert_eq!(parse_ref_url("pull/123"), None);
    // Too shallow even with a protocol prefix.
    assert_eq!(parse_ref_url("https://example.com/pull/1"), None);
    // Wrong kind segment.
    assert_eq!(parse_ref_url("https://github.com/o/r/issues/5"), None);
    // Non-numeric tail (e.g. PR creation URL).
    assert_eq!(parse_ref_url("https://github.com/o/r/pull/new"), None);
    // Empty/whitespace.
    assert_eq!(parse_ref_url(""), None);
    assert_eq!(parse_ref_url("   "), None);
}


#[test]
fn test_source_ref_same_repo() {
    let info = RemoteRefInfo {
        ref_type: RefType::Pr,
        number: 101,
        title: "Fix bug".to_string(),
        author: "alice".to_string(),
        state: "open".to_string(),
        draft: false,
        source_branch: "feature-auth".to_string(),
        is_cross_repo: false,
        url: "https://github.com/owner/repo/pull/101".to_string(),
        fork_push_url: None,
        platform_data: PlatformData::GitHub {
            host: "github.com".to_string(),
            head_owner: "owner".to_string(),
            head_repo: "repo".to_string(),
            base_owner: "owner".to_string(),
            base_repo: "repo".to_string(),
        },
    };
    assert_eq!(info.source_ref(), "feature-auth");
}

#[test]
fn test_source_ref_fork_github() {
    let info = RemoteRefInfo {
        ref_type: RefType::Pr,
        number: 42,
        title: "Add feature".to_string(),
        author: "contributor".to_string(),
        state: "open".to_string(),
        draft: false,
        source_branch: "feature-fix".to_string(),
        is_cross_repo: true,
        url: "https://github.com/owner/repo/pull/42".to_string(),
        fork_push_url: Some("git@github.com:contributor/repo.git".to_string()),
        platform_data: PlatformData::GitHub {
            host: "github.com".to_string(),
            head_owner: "contributor".to_string(),
            head_repo: "repo".to_string(),
            base_owner: "owner".to_string(),
            base_repo: "repo".to_string(),
        },
    };
    assert_eq!(info.source_ref(), "contributor:feature-fix");
}

#[test]
fn test_source_ref_fork_gitlab() {
    let info = RemoteRefInfo {
        ref_type: RefType::Mr,
        number: 101,
        title: "Fix bug".to_string(),
        author: "contributor".to_string(),
        state: "opened".to_string(),
        draft: false,
        source_branch: "feature-fix".to_string(),
        is_cross_repo: true,
        url: "https://gitlab.com/owner/repo/-/merge_requests/101".to_string(),
        fork_push_url: Some("git@gitlab.com:contributor/repo.git".to_string()),
        platform_data: PlatformData::GitLab {
            source_project_id: 456,
            target_project_id: 123,
            target_ssh_url: Some("git@gitlab.com:owner/repo.git".to_string()),
            target_http_url: Some("https://gitlab.com/owner/repo.git".to_string()),
        },
    };
    assert_eq!(info.source_ref(), "contributor:feature-fix");
}

#[test]
fn test_prefixed_local_branch_name_github() {
    let info = RemoteRefInfo {
        ref_type: RefType::Pr,
        number: 101,
        title: "Test".to_string(),
        author: "contributor".to_string(),
        state: "open".to_string(),
        draft: false,
        source_branch: "main".to_string(),
        is_cross_repo: true,
        url: "https://github.com/owner/repo/pull/101".to_string(),
        fork_push_url: Some("git@github.com:contributor/repo.git".to_string()),
        platform_data: PlatformData::GitHub {
            host: "github.com".to_string(),
            head_owner: "contributor".to_string(),
            head_repo: "repo".to_string(),
            base_owner: "owner".to_string(),
            base_repo: "repo".to_string(),
        },
    };
    assert_eq!(
        info.prefixed_local_branch_name(),
        Some("contributor/main".to_string())
    );
}

#[test]
fn test_prefixed_local_branch_name_gitlab() {
    let info = RemoteRefInfo {
        ref_type: RefType::Mr,
        number: 101,
        title: "Test".to_string(),
        author: "contributor".to_string(),
        state: "opened".to_string(),
        draft: false,
        source_branch: "main".to_string(),
        is_cross_repo: true,
        url: "https://gitlab.com/owner/repo/-/merge_requests/101".to_string(),
        fork_push_url: Some("git@gitlab.com:contributor/repo.git".to_string()),
        platform_data: PlatformData::GitLab {
            source_project_id: 456,
            target_project_id: 123,
            target_ssh_url: None,
            target_http_url: None,
        },
    };
    // GitLab doesn't support prefixed branch names
    assert_eq!(info.prefixed_local_branch_name(), None);
}

#[test]
fn info_test_extract_owner_from_url_ssh() {
    assert_eq!(
        extract_owner_from_url("git@gitlab.com:owner/repo.git"),
        Some("owner".to_string())
    );
    assert_eq!(
        extract_owner_from_url("git@github.com:contributor/repo.git"),
        Some("contributor".to_string())
    );
}

#[test]
fn info_test_extract_owner_from_url_https() {
    assert_eq!(
        extract_owner_from_url("https://gitlab.com/owner/repo.git"),
        Some("owner".to_string())
    );
    assert_eq!(
        extract_owner_from_url("http://github.com/owner/repo.git"),
        Some("owner".to_string())
    );
}

#[test]
fn info_test_extract_owner_from_url_invalid() {
    assert_eq!(extract_owner_from_url("invalid-url"), None);
    assert_eq!(extract_owner_from_url(""), None);
}


#[test]
fn github_test_ref_path() {
    let provider = GitHubProvider;
    assert_eq!(provider.ref_path(123), "pull/123/head");
    assert_eq!(provider.tracking_ref(123), "refs/pull/123/head");
}

#[test]
fn github_test_ref_type() {
    let provider = GitHubProvider;
    assert_eq!(provider.ref_type(), RefType::Pr);
}

#[test]
fn test_fork_remote_url_formats() {
    // Protocol depends on `gh config get git_protocol`, so just check format
    for use_ssh in [true, false] {
        let url = github::fork_remote_url(use_ssh, "github.com", "contributor", "repo");
        let valid_urls = [
            "git@github.com:contributor/repo.git",
            "https://github.com/contributor/repo.git",
        ];
        assert!(valid_urls.contains(&url.as_str()), "unexpected URL: {url}");

        let url = github::fork_remote_url(use_ssh, "github.example.com", "org", "project");
        let valid_urls = [
            "git@github.example.com:org/project.git",
            "https://github.example.com/org/project.git",
        ];
        assert!(valid_urls.contains(&url.as_str()), "unexpected URL: {url}");
    }
}

#[test]
fn gitlab_test_ref_path() {
    let provider = GitLabProvider;
    assert_eq!(provider.ref_path(42), "merge-requests/42/head");
    assert_eq!(provider.tracking_ref(42), "refs/merge-requests/42/head");
}

#[test]
fn gitlab_test_ref_type() {
    let provider = GitLabProvider;
    assert_eq!(provider.ref_type(), RefType::Mr);
}


#[test]
fn gitea_test_ref_path() {
    let provider = GiteaProvider;
    assert_eq!(provider.ref_path(7), "pull/7/head");
    assert_eq!(provider.tracking_ref(7), "refs/pull/7/head");
}

#[test]
fn gitea_test_ref_type() {
    let provider = GiteaProvider;
    assert_eq!(provider.ref_type(), RefType::Pr);
}

#[test]
fn test_extract_source_branch_prefers_label() {
    let head = TeaPrRef {
        label: "alice:feature-auth".to_string(),
        ref_name: "refs/pull/42/head".to_string(),
        repo: None,
    };
    assert_eq!(
        extract_source_branch(&head),
        Some("feature-auth".to_string())
    );
}

#[test]
fn test_extract_source_branch_from_plain_label() {
    let head = TeaPrRef {
        label: "feature-auth".to_string(),
        ref_name: "refs/pull/42/head".to_string(),
        repo: None,
    };
    assert_eq!(
        extract_source_branch(&head),
        Some("feature-auth".to_string())
    );
}

#[test]
fn test_extract_source_branch_fallback_to_bare_ref() {
    // Gitea returns just the branch name in head.ref
    let head = TeaPrRef {
        label: "".to_string(),
        ref_name: "feature-auth".to_string(),
        repo: None,
    };
    assert_eq!(
        extract_source_branch(&head),
        Some("feature-auth".to_string())
    );
}

#[test]
fn test_extract_source_branch_fallback_strips_refs_heads() {
    let head = TeaPrRef {
        label: "".to_string(),
        ref_name: "refs/heads/feature-auth".to_string(),
        repo: None,
    };
    assert_eq!(
        extract_source_branch(&head),
        Some("feature-auth".to_string())
    );
}

#[test]
fn test_extract_source_branch_skips_deleted_branch_ref() {
    // Gitea uses "pulls/<idx>/head" when the source branch is deleted —
    // not a usable branch name.
    let head = TeaPrRef {
        label: "".to_string(),
        ref_name: "pulls/42/head".to_string(),
        repo: None,
    };
    assert_eq!(extract_source_branch(&head), None);
}


#[test]
fn azure_test_ref_path() {
    let provider = AzureDevOpsProvider;
    assert_eq!(provider.ref_path(550), "pull/550/head");
    assert_eq!(provider.tracking_ref(550), "refs/pull/550/head");
}

#[test]
fn azure_test_ref_type() {
    let provider = AzureDevOpsProvider;
    assert_eq!(provider.ref_type(), RefType::Pr);
}

#[test]
fn test_parse_web_url_dev_azure() {
    let (host, org) = parse_web_url(
        Some("https://dev.azure.com/myorg/myproject/_git/myrepo"),
        "fallback",
    );
    assert_eq!(host, "dev.azure.com");
    assert_eq!(org, "myorg");
}

#[test]
fn test_parse_web_url_visualstudio() {
    let (host, org) = parse_web_url(
        Some("https://myorg.visualstudio.com/myproject/_git/myrepo"),
        "myproject",
    );
    assert_eq!(host, "myorg.visualstudio.com");
    // visualstudio.com URLs aren't parsed for org — caller uses fallback
    assert_eq!(org, "myproject");
}

#[test]
fn test_parse_web_url_missing_falls_back() {
    let (host, org) = parse_web_url(None, "fallback-org");
    assert_eq!(host, "dev.azure.com");
    assert_eq!(org, "fallback-org");
}

#[test]
fn test_fork_remote_url_format() {
    assert_eq!(
        azure::fork_remote_url("dev.azure.com", "myorg", "myproject", "myrepo"),
        "https://dev.azure.com/myorg/myproject/_git/myrepo"
    );
}

#[test]
fn github_fork_url_follows_protocol() {
    assert_eq!(github::fork_remote_url(true, "github.com", "c", "r"), "git@github.com:c/r.git");
    assert_eq!(github::fork_remote_url(false, "github.com", "c", "r"), "https://github.com/c/r.git");
    assert_eq!(gitea::fork_remote_url("gitea.io", "c", "r"), "https://gitea.io/c/r.git");
}

#[test]
fn html_url_host() {
    assert_eq!(extract_host_from_html_url("https://github.com/o/r/pull/1").unwrap(), "github.com");
    assert_eq!(extract_host_from_html_url("http://gitea.local/o/r").unwrap(), "gitea.local");
    match extract_host_from_html_url("ftp://x/y") {
        Err(Error::Other(m)) => assert_eq!(m, "Failed to parse host from PR URL: ftp://x/y"),
        _ => panic!("expected an error"),
    }
    assert!(extract_host_from_html_url("https:///o/r").is_err());
}

#[test]
fn tracking_through_provider() {
    assert_eq!(branch_tracks_ref(Some("refs/pull/3/head"), true, &GitHubProvider, 3), Some(true));
    assert_eq!(branch_tracks_ref(Some("refs/pull/3/head"), true, &GitLabProvider, 3), Some(false));
    assert_eq!(branch_tracks_ref(None, false, &GiteaProvider, 3), None);
    assert_eq!(AzureDevOpsProvider.platform_label(), "azure-devops");
}

#[test]
fn local_branch_name_is_source_branch() {
    let info = RemoteRefInfo {
        ref_type: RefType::Pr,
        number: 1,
        title: String::new(),
        author: String::new(),
        state: String::new(),
        draft: false,
        source_branch: "topic".to_string(),
        is_cross_repo: true,
        url: String::new(),
        fork_push_url: None,
        platform_data: PlatformData::AzureDevOps {
            host: "dev.azure.com".to_string(),
            organization: "o".to_string(),
            project: "p".to_string(),
            repo_name: "r".to_string(),
        },
    };
    assert_eq!(local_branch_name(&info), "topic");
    assert_eq!(info.source_ref(), "topic");
    assert_eq!(info.prefixed_local_branch_name(), None);
    assert_eq!(info.target_remote_url("ssh"), None);
}

#[test]
fn gitlab_target_url_protocol() {
    let info = RemoteRefInfo {
        ref_type: RefType::Mr,
        number: 1,
        title: String::new(),
        author: String::new(),
        state: String::new(),
        draft: false,
        source_branch: "topic".to_string(),
        is_cross_repo: true,
        url: String::new(),
        fork_push_url: None,
        platform_data: PlatformData::GitLab {
            source_project_id: 2,
            target_project_id: 1,
            target_ssh_url: Some("git@gitlab.com:o/r.git".to_string()),
            target_http_url: None,
        },
    };
    assert_eq!(info.target_remote_url("https").as_deref(), Some("git@gitlab.com:o/r.git"));
    assert_eq!(info.source_ref(), "topic");
}

#[test]
fn parse_ref_url_query_and_plus() {
    assert_eq!(parse_ref_url("https://github.com/o/r/pull/5?x=1"), Some((RefType::Pr, 5)));
    assert_eq!(parse_ref_url("  https://github.com/o/r/pull/+5  "), Some((RefType::Pr, 5)));
    assert_eq!(parse_ref_url("https://github.com/o/r/pull/99999999999"), None);
}

#[test]
fn find_remote_matches_owner_and_repo() {
    let remotes = vec![
        ("origin".to_string(), "git@github.com:Contributor/Repo.git".to_string()),
        ("upstream".to_string(), "git@gh-alias:owner/repo.git".to_string()),
    ];
    let info = RemoteRefInfo {
        ref_type: RefType::Pr,
        number: 1,
        title: String::new(),
        author: String::new(),
        state: String::new(),
        draft: false,
        source_branch: "b".to_string(),
        is_cross_repo: true,
        url: String::new(),
        fork_push_url: None,
        platform_data: PlatformData::GitHub {
            host: "github.com".to_string(),
            head_owner: "contributor".to_string(),
            head_repo: "repo".to_string(),
            base_owner: "OWNER".to_string(),
            base_repo: "repo".to_string(),
        },
    };
    assert_eq!(find_remote(&remotes, &info, false).unwrap(), "upstream");
    let err = find_remote(&remotes[..1].to_vec(), &info, true).unwrap_err();
    assert_eq!(err.owner, "OWNER");
    assert_eq!(err.suggested_url, "git@github.com:OWNER/repo.git");
}

#[test]
fn find_remote_for_azure_forms() {
    let remotes = vec![
        ("a".to_string(), "https://dev.azure.com/org/proj/_git/other".to_string()),
        ("b".to_string(), "git@ssh.dev.azure.com:v3/org/proj/repo".to_string()),
        ("c".to_string(), "https://org.visualstudio.com/proj/_git/repo".to_string()),
    ];
    assert_eq!(find_remote_for_azure(&remotes, "org", "proj", "repo").as_deref(), Some("b"));
    assert_eq!(find_remote_for_azure(&remotes[2..].to_vec(), "ORG", "proj", "repo").as_deref(), Some("c"));
    assert_eq!(find_remote_for_azure(&remotes, "org", "proj", "missing"), None);
}
