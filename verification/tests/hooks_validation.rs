use worktrunk::config::hooks::{HookType, HooksConfig};
use worktrunk::config::validation::validate;

fn hooks() -> HooksConfig<&'static str> {
    HooksConfig {
        post_create: None,
        post_start: Some("pnpm install"),
        post_switch: None,
        pre_commit: Some("cargo fmt --check"),
        pre_merge: Some("cargo test"),
        post_merge: None,
        pre_remove: None,
        post_remove: Some("echo bye"),
    }
}

#[test]
fn hook_lookup_reads_its_own_slot() {
    let h = hooks();
    assert_eq!(h.get(HookType::PostStart), Some(&"pnpm install"));
    assert_eq!(h.get(HookType::PreMerge), Some(&"cargo test"));
    assert_eq!(h.get(HookType::PreCommit), Some(&"cargo fmt --check"));
    assert_eq!(h.get(HookType::PostRemove), Some(&"echo bye"));
    assert_eq!(h.get(HookType::PostCreate), None);
    assert_eq!(h.get(HookType::PostSwitch), None);
}

#[test]
fn blank_worktree_paths_are_refused() {
    let none: Vec<(String, Option<String>)> = Vec::new();
    assert!(validate(None, &none).is_ok());
    assert!(validate(Some("../{{ repo }}.{{ branch }}"), &none).is_ok());
    assert_eq!(validate(Some("  "), &none).unwrap_err().0, "worktree-path cannot be empty");
    let projects = vec![
        ("github.com/a/b".to_string(), None),
        ("github.com/c/d".to_string(), Some("x".to_string())),
        ("github.com/e/f".to_string(), Some("\t".to_string())),
        ("github.com/g/h".to_string(), Some("".to_string())),
    ];
    assert_eq!(
        validate(Some("ok"), &projects).unwrap_err().0,
        "projects.github.com/e/f.worktree-path cannot be empty"
    );
    assert_eq!(validate(Some(""), &projects).unwrap_err().0, "worktree-path cannot be empty");
}
