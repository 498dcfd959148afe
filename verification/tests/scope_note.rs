use worktrunk::config::deprecation::{format_load_warning, merged_command, scope_to_repo_note, shell_join, with_scope_note};
use worktrunk::config::unknown_tree::UnknownWarning;

/// The fields of a user config's `[projects."<id>"]` table.
fn override_keys() -> Vec<String> {
    ["worktree-path", "list", "commit", "merge", "switch", "forge"].iter().map(|s| s.to_string()).collect()
}

#[test]
fn test_scope_to_repo_note_destinations() {
    let keys = override_keys();
    // Toward user config, the note fires for any misplaced key whose
    // top-level segment is a `[projects."<id>"]` field.
    assert!(scope_to_repo_note("user config", "list.columns", &keys).is_some());
    assert!(scope_to_repo_note("user config", "worktree-path", &keys).is_some());

    // Toward project config, only a whole top-level table (`forge`) earns it.
    assert!(scope_to_repo_note("project config", "forge", &keys).is_some());
    assert!(scope_to_repo_note("project config", "list.url", &keys).is_none());
    assert!(scope_to_repo_note("project config", "forge.platform", &keys).is_none());

    // Root-only user scalars have no `[projects."<id>"]` form — no note.
    assert!(scope_to_repo_note("user config", "skip-shell-integration-prompt", &keys).is_none());
    assert!(scope_to_repo_note("user config", "skip-commit-generation-prompt", &keys).is_none());

    // It reaches the rendered load-warning for a user-config redirect...
    let note = "to scope it to this repo";
    let msg = format_load_warning(
        "Project config",
        &UnknownWarning::NestedWrongConfig {
            path: "list.columns".to_string(),
            other_description: "user config".to_string(),
        },
        &keys,
    );
    assert!(msg.contains(note), "user-config redirect should carry note: {msg}");

    // ...but not a project-config redirect.
    let msg = format_load_warning(
        "User config",
        &UnknownWarning::NestedWrongConfig {
            path: "list.url".to_string(),
            other_description: "project config".to_string(),
        },
        &keys,
    );
    assert!(!msg.contains(note), "project-config redirect should not carry note: {msg}");

    // ...and not a misplaced root-only user scalar.
    let msg = format_load_warning(
        "Project config",
        &UnknownWarning::TopLevelWrongConfig {
            key: "skip-shell-integration-prompt".to_string(),
            other_description: "user config".to_string(),
        },
        &keys,
    );
    assert!(!msg.contains(note), "root-only user scalar should not carry note: {msg}");
}

#[test]
fn scope_note_texts() {
    let keys = override_keys();
    assert_eq!(
        scope_to_repo_note("user config", "merge.squash", &keys),
        Some("to scope it to this repo, add it under [projects.\"<id>\"] in user config")
    );
    assert_eq!(
        scope_to_repo_note("project config", "forge", &keys),
        Some("to set it from user config, add it under [projects.\"<id>\"]")
    );
    assert_eq!(scope_to_repo_note("somewhere else", "forge", &keys), None);
    assert_eq!(with_scope_note("m".to_string(), "user config", "unknown", &keys), "m");
    assert_eq!(
        with_scope_note("m".to_string(), "project config", "forge", &keys),
        "m; to set it from user config, add it under [projects.\"<id>\"]"
    );
}

#[test]
fn load_warning_wording() {
    let keys = override_keys();
    let w = UnknownWarning::TopLevelUnknown { key: "typo".to_string() };
    assert_eq!(format_load_warning("User config", &w, &keys), "User config has unknown field \x1b[1mtypo\x1b[22m (will be ignored)");
    let w = UnknownWarning::NestedUnknown { path: "merge.squas".to_string() };
    assert_eq!(
        format_load_warning("User config", &w, &keys),
        "User config has unknown field \x1b[1mmerge.squas\x1b[22m (will be ignored)"
    );
    let w = UnknownWarning::TopLevelDeprecatedWrongConfig {
        key: "commit-generation".to_string(),
        other_description: "user config".to_string(),
        canonical_display: "[commit.generation]".to_string(),
    };
    assert_eq!(
        format_load_warning("Project config", &w, &keys),
        "Project config has key \x1b[1mcommit-generation\x1b[22m which belongs in user config as [commit.generation]"
    );
    let w = UnknownWarning::TopLevelWrongConfig {
        key: "worktree-path".to_string(),
        other_description: "user config".to_string(),
    };
    assert_eq!(
        format_load_warning("Project config", &w, &keys),
        "Project config has key \x1b[1mworktree-path\x1b[22m which belongs in user config (will be ignored); to scope it to this repo, add it under [projects.\"<id>\"] in user config"
    );
}

#[test]
fn test_shell_join_simple() {
    assert_eq!(shell_join(&["-m", "haiku"]), "-m haiku");
}

#[test]
fn test_shell_join_with_spaces() {
    assert_eq!(shell_join(&["-m", "fast haiku"]), "-m 'fast haiku'");
}

#[test]
fn test_shell_join_with_quotes() {
    assert_eq!(shell_join(&["echo", "it's"]), r"echo 'it'\''s'");
}

#[test]
fn merged_command_joins_args() {
    assert_eq!(merged_command("llm", &["-m", "fast haiku"]), "llm -m 'fast haiku'");
    assert_eq!(merged_command("", &["llm", "-m", "x"]), "llm -m x");
    assert_eq!(merged_command("llm", &[]), "llm");
    assert_eq!(shell_join(&[]), "");
}
