use worktrunk::git::ci_platform::ForgeKind;
use worktrunk::git::parse::WorktreeInfo;
use worktrunk::git::repository::{BranchCategory, Repository};

fn repo() -> Repository {
    Repository {
        remotes: vec![
            ("origin".to_string(), "git@github.com:me/proj.git".to_string()),
            ("upstream".to_string(), "https://gitlab.com/team/proj.git".to_string()),
        ],
        primary_remote: Some("origin".to_string()),
        forge_platform: None,
    }
}

fn worktree(branch: Option<&str>) -> WorktreeInfo {
    WorktreeInfo {
        path: b"/w".to_vec(),
        head: "abc".to_string(),
        branch: branch.map(|b| b.to_string()),
        bare: false,
        detached: branch.is_none(),
        locked: None,
        prunable: None,
    }
}

#[test]
fn ci_platform_from_remotes_and_config() {
    let r = repo();
    assert_eq!(r.ci_platform(None), Some(ForgeKind::GitHub));
    assert_eq!(r.ci_platform(Some("upstream")), Some(ForgeKind::GitLab));
    assert_eq!(r.ci_platform(Some("missing")), Some(ForgeKind::GitHub));
    let mut configured = repo();
    configured.forge_platform = Some("gitea".to_string());
    assert_eq!(configured.ci_platform(Some("upstream")), Some(ForgeKind::Gitea));
    let mut bad = repo();
    bad.forge_platform = Some("svn".to_string());
    assert_eq!(bad.ci_platform(None), Some(ForgeKind::GitHub));
    assert_eq!(r.effective_remote_url("upstream").as_deref(), Some("https://gitlab.com/team/proj.git"));
}

#[test]
fn legacy_alias_on_primary_remote() {
    let mut r = repo();
    r.remotes[0].1 = "git@github-work:me/proj.git".to_string();
    let alias = r.legacy_forge_alias().unwrap();
    assert_eq!(alias.host(), "github-work");
    r.forge_platform = Some("github".to_string());
    assert_eq!(r.legacy_forge_alias(), None);
}

#[test]
fn branch_listings() {
    assert_eq!(Repository::all_branches(" main \n\nfeature\n"), vec!["main", "feature"]);
    assert_eq!(
        Repository::list_local_branches("main aaa\nbroken\nfeature bbb\n"),
        vec![("main".to_string(), "aaa".to_string()), ("feature".to_string(), "bbb".to_string())]
    );
    assert_eq!(
        Repository::list_remote_branches("origin/HEAD zzz\norigin/main aaa\n"),
        vec![("origin/main".to_string(), "aaa".to_string())]
    );
    assert_eq!(
        Repository::list_tracked_upstreams("origin/main\n\norigin/main\norigin/x\n"),
        vec!["origin/main", "origin/x"]
    );
    assert_eq!(
        Repository::list_untracked_remote_branches("origin/main a\norigin/new b\n", "origin/main\n"),
        vec![("origin/new".to_string(), "b".to_string())]
    );
    let wts = vec![worktree(Some("main")), worktree(None)];
    assert_eq!(Repository::available_branches("main\nfeature\n", &wts), vec!["feature"]);
}

#[test]
fn completion_order_and_dedup() {
    let wts = vec![worktree(Some("feature"))];
    let local = "main\t300\nfeature\t200\nold\tnot-a-number\n";
    let remote = "origin/HEAD\t999\norigin/main\t500\nupstream/fix\t400\norigin/fix\t100\nnoslash\t1\n";
    let got = Repository::branches_for_completion(&wts, local, remote);
    let summary: Vec<(String, i64, BranchCategory)> =
        got.into_iter().map(|c| (c.name, c.timestamp, c.category)).collect();
    assert_eq!(
        summary,
        vec![
            ("feature".to_string(), 200, BranchCategory::Worktree),
            ("main".to_string(), 300, BranchCategory::Local),
            ("old".to_string(), 0, BranchCategory::Local),
            ("fix".to_string(), 400, BranchCategory::Remote("upstream".to_string())),
        ]
    );
}

#[test]
fn branch_handle() {
    let r = repo();
    let b = r.branch("feature");
    assert_eq!(b.name(), "feature");
    assert_eq!(b.remote_ref().as_deref(), Some("refs/remotes/origin/feature"));
    assert!(b.exists_in_repo(false, true));
    assert!(!b.exists_in_repo(false, false));
    assert_eq!(b.remotes("origin/feature\n  upstream/feature \nfork/other\n"), vec!["origin", "upstream"]);
    let no_remote = Repository { remotes: vec![], primary_remote: None, forge_platform: None };
    let b2 = no_remote.branch("x");
    assert!(!b2.exists_in_repo(false, true));
    assert_eq!(b2.remote_ref(), None);
}

#[test]
fn config_values_and_hints() {
    assert_eq!(Repository::get_config(Some(" value \n")).as_deref(), Some("value"));
    assert_eq!(Repository::get_config(None), None);
    assert_eq!(Repository::get_switch_previous(Some("  \n")), None);
    assert_eq!(Repository::get_switch_previous(Some("main\n")).as_deref(), Some("main"));
    assert_eq!(
        Repository::list_shown_hints("worktrunk.hints.worktree-path true\nother.key x\nworktrunk.hints.b true\n"),
        vec!["worktree-path", "b"]
    );
    use_upstream();
}

fn use_upstream() {
    assert_eq!(worktrunk::git::repository::Branch::upstream(Some("origin/main\n")).as_deref(), Some("origin/main"));
    assert_eq!(worktrunk::git::repository::Branch::upstream(None), None);
}

#[test]
fn local_branches_keeps_every_line_trimmed() {
    assert_eq!(
        Repository::local_branches("main\n  feature/x \n\nheads/foo\n"),
        vec!["main".to_string(), "feature/x".to_string(), "".to_string(), "heads/foo".to_string()]
    );
    assert!(Repository::local_branches("").is_empty());
}
