use worktrunk::git::mr_ref::{
    branch_tracks_mr, fork_remote_url, get_git_protocol, local_branch_name, parse_mr_ref,
    target_remote_url, MrInfo,
};
use worktrunk::git::remote_ref::extract_owner_from_url;


#[test]
fn test_parse_mr_ref() {
    assert_eq!(parse_mr_ref("mr:101"), Some(101));
    assert_eq!(parse_mr_ref("mr:1"), Some(1));
    assert_eq!(parse_mr_ref("mr:99999"), Some(99999));

    // Invalid cases
    assert_eq!(parse_mr_ref("mr:"), None);
    assert_eq!(parse_mr_ref("mr:abc"), None);
    assert_eq!(parse_mr_ref("mr:-1"), None);
    assert_eq!(parse_mr_ref("MR:101"), None); // case-sensitive
    assert_eq!(parse_mr_ref("feature-branch"), None);
    assert_eq!(parse_mr_ref("101"), None);
    assert_eq!(parse_mr_ref("pr:101"), None); // wrong prefix
}

#[test]
fn test_local_branch_name() {
    let mr = MrInfo {
        number: 101,
        title: "Fix authentication bug".to_string(),
        author: "alice".to_string(),
        state: "opened".to_string(),
        draft: false,
        source_branch: "feature-auth".to_string(),
        source_project_id: 123,
        target_project_id: 123,
        source_project_ssh_url: None,
        source_project_http_url: None,
        target_project_ssh_url: None,
        target_project_http_url: None,
        is_cross_project: false,
        url: "https://gitlab.com/owner/repo/-/merge_requests/101".to_string(),
    };
    assert_eq!(local_branch_name(&mr), "feature-auth");
}

#[test]
fn mr_ref_test_local_branch_name_fork() {
    // Fork MRs also use source_branch directly (not owner/branch) because
    // the local branch name must match the fork's branch for git push to work
    let mr = MrInfo {
        number: 101,
        title: "Fix authentication bug".to_string(),
        author: "contributor".to_string(),
        state: "opened".to_string(),
        draft: false,
        source_branch: "feature-auth".to_string(),
        source_project_id: 456,
        target_project_id: 123,
        source_project_ssh_url: Some("git@gitlab.com:contributor/repo.git".to_string()),
        source_project_http_url: Some("https://gitlab.com/contributor/repo.git".to_string()),
        target_project_ssh_url: Some("git@gitlab.com:owner/repo.git".to_string()),
        target_project_http_url: Some("https://gitlab.com/owner/repo.git".to_string()),
        is_cross_project: true,
        url: "https://gitlab.com/owner/repo/-/merge_requests/101".to_string(),
    };
    assert_eq!(local_branch_name(&mr), "feature-auth");
}

#[test]
fn test_fork_remote_url_with_both_urls() {
    let mr = MrInfo {
        number: 101,
        title: "Feature".to_string(),
        author: "contributor".to_string(),
        state: "opened".to_string(),
        draft: false,
        source_branch: "feature".to_string(),
        source_project_id: 456,
        target_project_id: 123,
        source_project_ssh_url: Some("git@gitlab.com:contributor/repo.git".to_string()),
        source_project_http_url: Some("https://gitlab.com/contributor/repo.git".to_string()),
        target_project_ssh_url: Some("git@gitlab.com:owner/repo.git".to_string()),
        target_project_http_url: Some("https://gitlab.com/owner/repo.git".to_string()),
        is_cross_project: true,
        url: "https://gitlab.com/owner/repo/-/merge_requests/101".to_string(),
    };

    // When both URLs are available, returns one based on glab config
    for proto in ["ssh", "https"] {
        let url = fork_remote_url(&mr, proto);
        assert!(url.is_some());
        let url = url.unwrap();
        let valid_urls = [
            "git@gitlab.com:contributor/repo.git",
            "https://gitlab.com/contributor/repo.git",
        ];
        assert!(valid_urls.contains(&url.as_str()), "unexpected URL: {url}");
    }
}

#[test]
fn test_fork_remote_url_ssh_only() {
    let mr = MrInfo {
        number: 101,
        title: "Feature".to_string(),
        author: "contributor".to_string(),
        state: "opened".to_string(),
        draft: false,
        source_branch: "feature".to_string(),
        source_project_id: 456,
        target_project_id: 123,
        source_project_ssh_url: Some("git@gitlab.com:contributor/repo.git".to_string()),
        source_project_http_url: None,
        target_project_ssh_url: Some("git@gitlab.com:owner/repo.git".to_string()),
        target_project_http_url: None,
        is_cross_project: true,
        url: "https://gitlab.com/owner/repo/-/merge_requests/101".to_string(),
    };

    // When only SSH is available, returns SSH regardless of config
    for proto in ["ssh", "https"] {
        let url = fork_remote_url(&mr, proto);
        assert_eq!(url, Some("git@gitlab.com:contributor/repo.git".to_string()));
    }
}

#[test]
fn test_fork_remote_url_https_only() {
    let mr = MrInfo {
        number: 101,
        title: "Feature".to_string(),
        author: "contributor".to_string(),
        state: "opened".to_string(),
        draft: false,
        source_branch: "feature".to_string(),
        source_project_id: 456,
        target_project_id: 123,
        source_project_ssh_url: None,
        source_project_http_url: Some("https://gitlab.com/contributor/repo.git".to_string()),
        target_project_ssh_url: None,
        target_project_http_url: Some("https://gitlab.com/owner/repo.git".to_string()),
        is_cross_project: true,
        url: "https://gitlab.com/owner/repo/-/merge_requests/101".to_string(),
    };

    // When only HTTPS is available, returns HTTPS regardless of config
    for proto in ["ssh", "https"] {
        let url = fork_remote_url(&mr, proto);
        assert_eq!(
            url,
            Some("https://gitlab.com/contributor/repo.git".to_string())
        );
    }
}

#[test]
fn test_fork_remote_url_none() {
    let mr = MrInfo {
        number: 101,
        title: "Feature".to_string(),
        author: "contributor".to_string(),
        state: "opened".to_string(),
        draft: false,
        source_branch: "feature".to_string(),
        source_project_id: 456,
        target_project_id: 123,
        source_project_ssh_url: None,
        source_project_http_url: None,
        target_project_ssh_url: None,
        target_project_http_url: None,
        is_cross_project: true,
        url: "https://gitlab.com/owner/repo/-/merge_requests/101".to_string(),
    };

    // When no source URLs are available, returns None
    for proto in ["ssh", "https"] {
        let url = fork_remote_url(&mr, proto);
        assert_eq!(url, None);
    }
}

#[test]
fn test_target_remote_url_with_both_urls() {
    let mr = MrInfo {
        number: 101,
        title: "Feature".to_string(),
        author: "contributor".to_string(),
        state: "opened".to_string(),
        draft: false,
        source_branch: "feature".to_string(),
        source_project_id: 456,
        target_project_id: 123,
        source_project_ssh_url: Some("git@gitlab.com:contributor/repo.git".to_string()),
        source_project_http_url: Some("https://gitlab.com/contributor/repo.git".to_string()),
        target_project_ssh_url: Some("git@gitlab.com:owner/repo.git".to_string()),
        target_project_http_url: Some("https://gitlab.com/owner/repo.git".to_string()),
        is_cross_project: true,
        url: "https://gitlab.com/owner/repo/-/merge_requests/101".to_string(),
    };

    // When both URLs are available, returns one based on glab config
    for proto in ["ssh", "https"] {
        let url = target_remote_url(&mr, proto);
        assert!(url.is_some());
        let url = url.unwrap();
        let valid_urls = [
            "git@gitlab.com:owner/repo.git",
            "https://gitlab.com/owner/repo.git",
        ];
        assert!(valid_urls.contains(&url.as_str()), "unexpected URL: {url}");
    }
}

#[test]
fn test_target_remote_url_none() {
    let mr = MrInfo {
        number: 101,
        title: "Feature".to_string(),
        author: "contributor".to_string(),
        state: "opened".to_string(),
        draft: false,
        source_branch: "feature".to_string(),
        source_project_id: 456,
        target_project_id: 123,
        source_project_ssh_url: Some("git@gitlab.com:contributor/repo.git".to_string()),
        source_project_http_url: Some("https://gitlab.com/contributor/repo.git".to_string()),
        target_project_ssh_url: None,
        target_project_http_url: None,
        is_cross_project: true,
        url: "https://gitlab.com/owner/repo/-/merge_requests/101".to_string(),
    };

    // When no target URLs are available, returns None
    for proto in ["ssh", "https"] {
        let url = target_remote_url(&mr, proto);
        assert_eq!(url, None);
    }
}

#[test]
fn mr_ref_test_extract_owner_from_url_ssh() {
    assert_eq!(
        extract_owner_from_url("git@gitlab.com:owner/repo.git"),
        Some("owner".to_string())
    );
    assert_eq!(
        extract_owner_from_url("git@gitlab.example.com:org/repo.git"),
        Some("org".to_string())
    );
}

#[test]
fn mr_ref_test_extract_owner_from_url_https() {
    assert_eq!(
        extract_owner_from_url("https://gitlab.com/owner/repo.git"),
        Some("owner".to_string())
    );
    assert_eq!(
        extract_owner_from_url("http://gitlab.com/owner/repo.git"),
        Some("owner".to_string())
    );
}

#[test]
fn mr_ref_test_extract_owner_from_url_invalid() {
    assert_eq!(extract_owner_from_url("invalid-url"), None);
    assert_eq!(extract_owner_from_url(""), None);
}

#[test]
fn test_source_ref_same_project() {
    let mr = MrInfo {
        number: 101,
        title: "Fix bug".to_string(),
        author: "alice".to_string(),
        state: "opened".to_string(),
        draft: false,
        source_branch: "feature-auth".to_string(),
        source_project_id: 123,
        target_project_id: 123,
        source_project_ssh_url: None,
        source_project_http_url: None,
        target_project_ssh_url: None,
        target_project_http_url: None,
        is_cross_project: false,
        url: "https://gitlab.com/owner/repo/-/merge_requests/101".to_string(),
    };
    assert_eq!(mr.source_ref(), "feature-auth");
}

#[test]
fn test_source_ref_cross_project() {
    let mr = MrInfo {
        number: 101,
        title: "Fix bug".to_string(),
        author: "contributor".to_string(),
        state: "opened".to_string(),
        draft: false,
        source_branch: "feature-fix".to_string(),
        source_project_id: 456,
        target_project_id: 123,
        source_project_ssh_url: Some("git@gitlab.com:contributor/repo.git".to_string()),
        source_project_http_url: Some("https://gitlab.com/contributor/repo.git".to_string()),
        target_project_ssh_url: None,
        target_project_http_url: None,
        is_cross_project: true,
        url: "https://gitlab.com/owner/repo/-/merge_requests/101".to_string(),
    };
    assert_eq!(mr.source_ref(), "contributor:feature-fix");
}

#[test]
fn test_source_ref_cross_project_no_url() {
    // When URL parsing fails, falls back to just the branch name
    let mr = MrInfo {
        number: 101,
        title: "Fix bug".to_string(),
        author: "contributor".to_string(),
        state: "opened".to_string(),
        draft: false,
        source_branch: "feature-fix".to_string(),
        source_project_id: 456,
        target_project_id: 123,
        source_project_ssh_url: None,
        source_project_http_url: None,
        target_project_ssh_url: None,
        target_project_http_url: None,
        is_cross_project: true,
        url: "https://gitlab.com/owner/repo/-/merge_requests/101".to_string(),
    };
    assert_eq!(mr.source_ref(), "feature-fix");
}

fn fork_mr() -> MrInfo {
    MrInfo {
        number: 7,
        title: "t".to_string(),
        author: "a".to_string(),
        state: "opened".to_string(),
        draft: false,
        source_branch: "fix".to_string(),
        source_project_id: 2,
        target_project_id: 1,
        source_project_ssh_url: Some("git@gitlab.com:fork/repo.git".to_string()),
        source_project_http_url: Some("https://gitlab.com/fork/repo.git".to_string()),
        target_project_ssh_url: Some("git@gitlab.com:up/repo.git".to_string()),
        target_project_http_url: Some("https://gitlab.com/up/repo.git".to_string()),
        is_cross_project: true,
        url: "https://gitlab.com/up/repo/-/merge_requests/7".to_string(),
    }
}

#[test]
fn protocol_preference_picks_url() {
    let mr = fork_mr();
    assert_eq!(fork_remote_url(&mr, "ssh").as_deref(), Some("git@gitlab.com:fork/repo.git"));
    assert_eq!(fork_remote_url(&mr, "https").as_deref(), Some("https://gitlab.com/fork/repo.git"));
    assert_eq!(target_remote_url(&mr, "ssh").as_deref(), Some("git@gitlab.com:up/repo.git"));
    assert_eq!(target_remote_url(&mr, "https").as_deref(), Some("https://gitlab.com/up/repo.git"));
}

#[test]
fn glab_protocol_setting() {
    assert_eq!(get_git_protocol(Some("ssh\n")), "ssh");
    assert_eq!(get_git_protocol(Some("https")), "https");
    assert_eq!(get_git_protocol(Some("git")), "https");
    assert_eq!(get_git_protocol(None), "https");
}

#[test]
fn branch_tracking_of_mr() {
    assert_eq!(branch_tracks_mr(Some("refs/merge-requests/7/head\n"), true, 7), Some(true));
    assert_eq!(branch_tracks_mr(Some("refs/heads/main"), true, 7), Some(false));
    assert_eq!(branch_tracks_mr(None, true, 7), Some(false));
    assert_eq!(branch_tracks_mr(None, false, 7), None);
}
