use worktrunk::git::url::GitRemoteUrl;
use worktrunk::git::ci_platform::{
    ci_platform, configured_ci_platform, host_is_within, legacy_forge_alias, platform_from_url,
    ForgeKind, LegacyForgeAlias,
};
use worktrunk::git::RefType;

#[test]
fn test_ci_platform_string_roundtrip() {
    for (forge, spelling) in [
        (ForgeKind::GitHub, "github"),
        (ForgeKind::GitLab, "gitlab"),
        (ForgeKind::Gitea, "gitea"),
        (ForgeKind::AzureDevOps, "azure-devops"),
    ] {
        assert_eq!(forge.as_str(), spelling);
        assert_eq!(spelling.parse::<ForgeKind>().ok(), Some(forge));
    }

    assert_eq!(
        "azuredevops".parse::<ForgeKind>().ok(),
        Some(ForgeKind::AzureDevOps)
    );

    assert!("invalid".parse::<ForgeKind>().is_err());
    assert!("GITHUB".parse::<ForgeKind>().is_err());
    assert!("GitHub".parse::<ForgeKind>().is_err());
}

#[test]
fn test_platform_from_url() {
    for url in [
        "https://github.com/owner/repo.git",
        "git@github.com:owner/repo.git",
        "ssh://git@github.com/owner/repo.git",
        "https://github.mycompany.com/owner/repo.git",
        "http://github.com/owner/repo.git",
        "git://github.com/owner/repo.git",
    ] {
        assert_eq!(platform_from_url(url), Some(ForgeKind::GitHub), "{url}");
    }

    for url in [
        "https://gitlab.com/owner/repo.git",
        "git@gitlab.com:owner/repo.git",
        "https://gitlab.example.com/owner/repo.git",
        "http://gitlab.example.com/owner/repo.git",
        "git://gitlab.mycompany.com/owner/repo.git",
    ] {
        assert_eq!(platform_from_url(url), Some(ForgeKind::GitLab), "{url}");
    }

    for url in [
        "https://gitea.com/owner/repo.git",
        "git@gitea.example.com:owner/repo.git",
    ] {
        assert_eq!(platform_from_url(url), Some(ForgeKind::Gitea), "{url}");
    }

    for url in [
        "https://dev.azure.com/myorg/myproject/_git/myrepo",
        "git@ssh.dev.azure.com:v3/myorg/myproject/myrepo",
        "https://myorg.visualstudio.com/myproject/_git/myrepo",
    ] {
        assert_eq!(
            platform_from_url(url),
            Some(ForgeKind::AzureDevOps),
            "{url}"
        );
    }

    assert_eq!(
        platform_from_url("https://bitbucket.org/owner/repo.git"),
        None
    );
    assert_eq!(
        platform_from_url("https://codeberg.org/owner/repo.git"),
        None
    );
}

#[test]
fn test_platform_from_url_uses_network_host_after_userinfo() {
    for url in [
        "https://github.com@attacker.example/owner/repo.git",
        "http://gitlab.com@attacker.example/owner/repo.git",
        "git://gitea.com@attacker.example/owner/repo.git",
        "ssh://dev.azure.com@attacker.example/owner/repo.git",
    ] {
        assert_eq!(platform_from_url(url), None, "{url}");
    }
}

#[test]
fn test_fixed_azure_domains_take_precedence_over_forge_labels() {
    for host in [
        "github.dev.azure.com",
        "gitlab.visualstudio.com",
        "gitea.visualstudio.com:443",
        "GITHUB.DEV.AZURE.COM.",
    ] {
        assert_eq!(
            ForgeKind::from_host(host),
            Some(ForgeKind::AzureDevOps),
            "{host}"
        );
    }
}

#[test]
fn test_legacy_forge_alias_is_diagnostic_only_for_branded_ssh_aliases() {
    for (url, platform) in [
        ("git@github-personal:owner/repo.git", ForgeKind::GitHub),
        ("ssh://git@gitlab-work/owner/repo.git", ForgeKind::GitLab),
        ("git@gitea-local:owner/repo.git", ForgeKind::Gitea),
    ] {
        let alias = LegacyForgeAlias::from_url(url).expect(url);
        assert_eq!(alias.platform(), platform, "{url}");
        assert_eq!(ForgeKind::from_host(alias.host()), None, "{url}");
    }

    for url in [
        "git@github.com:owner/repo.git",
        "git@work:owner/repo.git",
        "git@notgithub-personal:owner/repo.git",
        "git@github-mirror.example:owner/repo.git",
        "git@github-personal.attacker.example:owner/repo.git",
        "https://github-personal/owner/repo.git",
    ] {
        assert_eq!(LegacyForgeAlias::from_url(url), None, "{url}");
    }
}

#[test]
fn test_configured_platform_suppresses_legacy_alias_diagnostic() {
    let url = "git@github-personal:owner/repo.git";
    let configured = configured_ci_platform(Some("github"));
    assert_eq!(ci_platform(configured, None, Some(url)), Some(ForgeKind::GitHub));
    assert_eq!(legacy_forge_alias(configured, Some(url)), None);
}

#[test]
fn legacy_alias_reported_without_configuration() {
    let url = "git@github-personal:owner/repo.git";
    let alias = legacy_forge_alias(None, Some(url)).unwrap();
    assert_eq!(alias.host(), "github-personal");
    assert_eq!(alias.platform(), ForgeKind::GitHub);
}

#[test]
fn ci_platform_priority_order() {
    let gh = "https://github.com/o/r.git";
    let gl = "https://gitlab.com/o/r.git";
    assert_eq!(ci_platform(None, Some(gl), Some(gh)), Some(ForgeKind::GitLab));
    assert_eq!(ci_platform(None, Some("/local/path"), Some(gh)), Some(ForgeKind::GitHub));
    assert_eq!(ci_platform(None, None, Some(gh)), Some(ForgeKind::GitHub));
    assert_eq!(ci_platform(Some(ForgeKind::Gitea), Some(gl), Some(gh)), Some(ForgeKind::Gitea));
    assert_eq!(ci_platform(None, None, None), None);
}

#[test]
fn configured_platform_rejects_unknown_spelling() {
    assert_eq!(configured_ci_platform(Some("bitbucket")), None);
    assert_eq!(configured_ci_platform(None), None);
    assert_eq!(configured_ci_platform(Some("azuredevops")), Some(ForgeKind::AzureDevOps));
}

#[test]
fn forge_ref_types() {
    assert_eq!(ForgeKind::GitLab.ref_type(), RefType::Mr);
    assert_eq!(ForgeKind::GitHub.ref_type(), RefType::Pr);
    assert_eq!(ForgeKind::Gitea.ref_type(), RefType::Pr);
    assert_eq!(ForgeKind::AzureDevOps.ref_type(), RefType::Pr);
}

#[test]
fn host_classification_respects_label_boundaries() {
    assert_eq!(ForgeKind::from_host("github-mirror.example"), None);
    assert_eq!(ForgeKind::from_host("dev.azure.com.attacker.example"), None);
    assert_eq!(ForgeKind::from_host("GitHub.com:8443"), Some(ForgeKind::GitHub));
    assert!(host_is_within("ssh.dev.azure.com", "dev.azure.com"));
    assert!(host_is_within("DEV.AZURE.COM.", "dev.azure.com"));
    assert!(!host_is_within("notdev.azure.com", "dev.azure.com"));
}

#[test]
fn remote_url_parse_parts() {
    let p = GitRemoteUrl::parse("git@github.com:owner/repo.git").unwrap();
    assert_eq!((p.host(), p.owner(), p.repo()), ("github.com", "owner", "repo"));
    let p = GitRemoteUrl::parse("ssh://git@host.example:2222/group/sub/proj.git/").unwrap();
    assert_eq!((p.host(), p.owner(), p.repo()), ("host.example", "group/sub", "proj"));
    let p = GitRemoteUrl::parse("https://user:pw@gitlab.com:8443/a/b").unwrap();
    assert_eq!((p.host(), p.owner(), p.repo()), ("gitlab.com:8443", "a", "b"));
    assert!(GitRemoteUrl::parse("/local/path/repo").is_none());
    assert!(GitRemoteUrl::parse("https://github.com/onlyone").is_none());
}
