use worktrunk::config::deprecation::ConfigSchema;
use worktrunk::config::unknown_tree::{
    collect_unknown_warnings, compute_unknown_tree, diff_tables, seed_schema_skeleton, OtherStatus,
    TomlNode, UnknownTree, UnknownWarning,
};

fn table(entries: Vec<(&str, TomlNode)>) -> TomlNode {
    TomlNode::Table(entries.into_iter().map(|(k, v)| (k.to_string(), v)).collect())
}

fn entries(entries: Vec<(&str, TomlNode)>) -> Vec<(String, TomlNode)> {
    entries.into_iter().map(|(k, v)| (k.to_string(), v)).collect()
}

fn user_schema() -> ConfigSchema {
    ConfigSchema {
        description: "user config".to_string(),
        valid_keys: ["worktree-path", "list", "commit", "merge", "switch", "skip-shell-integration-prompt", "projects"]
            .iter()
            .map(|s| s.to_string())
            .collect(),
    }
}

fn project_schema() -> ConfigSchema {
    ConfigSchema {
        description: "project config".to_string(),
        valid_keys: ["pre-start", "post-start", "commit", "forge", "list"].iter().map(|s| s.to_string()).collect(),
    }
}

fn nested<'a>(tree: &'a UnknownTree, key: &str) -> &'a UnknownTree {
    &tree.nested.iter().find(|(k, _)| k == key).expect("nested subtree").1
}

fn has_key(tree: &UnknownTree, key: &str) -> bool {
    tree.keys.iter().any(|k| k == key)
}

#[test]
fn empty_input_has_no_unknowns() {
    let raw = entries(vec![]);
    let tree = compute_unknown_tree(Some(&raw), Some(entries(vec![])), &user_schema()).unwrap();
    assert!(tree.is_empty());
}

#[test]
fn known_keys_are_not_flagged() {
    let raw = entries(vec![
        ("worktree-path", TomlNode::Value),
        ("list", table(vec![("full", TomlNode::Value)])),
        ("commit", table(vec![("generation", table(vec![("command", TomlNode::Value)]))])),
    ]);
    let reserialized = entries(vec![
        ("worktree-path", TomlNode::Value),
        ("list", table(vec![("full", TomlNode::Value)])),
        ("commit", table(vec![("generation", table(vec![("command", TomlNode::Value)]))])),
    ]);
    let tree = compute_unknown_tree(Some(&raw), Some(reserialized), &user_schema()).unwrap();
    assert!(tree.is_empty(), "tree should be empty, got {:?}", tree);
}

#[test]
fn unknown_top_level_key() {
    let raw = entries(vec![("unknown-key", TomlNode::Value)]);
    let tree = compute_unknown_tree(Some(&raw), Some(entries(vec![])), &user_schema()).unwrap();
    assert!(has_key(&tree, "unknown-key"));
    assert!(tree.nested.is_empty());
}

#[test]
fn nested_unknown_key_under_known_section() {
    // `[merge]` with only unknown children serializes to nothing; the schema
    // seeding keeps `merge` known so only its child is flagged.
    let raw = entries(vec![("merge", table(vec![("future-option", TomlNode::Value)]))]);
    let tree = compute_unknown_tree(Some(&raw), Some(entries(vec![])), &user_schema()).unwrap();
    assert!(tree.keys.is_empty());
    assert!(has_key(nested(&tree, "merge"), "future-option"));
}

#[test]
fn deeply_nested_unknown_key() {
    let raw = entries(vec![(
        "commit",
        table(vec![("generation", table(vec![("command", TomlNode::Value), ("future-knob", TomlNode::Value)]))]),
    )]);
    let reserialized =
        entries(vec![("commit", table(vec![("generation", table(vec![("command", TomlNode::Value)]))]))]);
    let tree = compute_unknown_tree(Some(&raw), Some(reserialized), &user_schema()).unwrap();
    let generation = nested(nested(&tree, "commit"), "generation");
    assert!(has_key(generation, "future-knob"));
    assert!(!has_key(generation, "command"));
}

#[test]
fn unknown_whole_subtree_is_marked_at_top_level() {
    let raw = entries(vec![("unknown-section", table(vec![("a", TomlNode::Value), ("b", TomlNode::Value)]))]);
    let tree = compute_unknown_tree(Some(&raw), Some(entries(vec![])), &user_schema()).unwrap();
    assert_eq!(tree.keys, vec!["unknown-section".to_string()]);
    assert!(tree.nested.is_empty());
}

#[test]
fn project_config_detects_user_only_key() {
    // `skip-shell-integration-prompt = true` as project config: the project
    // type drops the key when it serializes again.
    let raw = entries(vec![("skip-shell-integration-prompt", TomlNode::Value)]);
    let tree = compute_unknown_tree(Some(&raw), Some(entries(vec![])), &project_schema()).unwrap();
    assert!(has_key(&tree, "skip-shell-integration-prompt"));
}

#[test]
fn syntax_error_yields_no_tree() {
    // Unparsable contents give no parsed table.
    assert!(compute_unknown_tree(None, None, &user_schema()).is_none());
}

#[test]
fn type_mismatch_yields_no_tree() {
    // `commit = "scalar"` parses but does not fit the config type, so there
    // is no reserialized form.
    let raw = entries(vec![("commit", TomlNode::Value), ("skip-shell-integration-prompt", TomlNode::Value)]);
    assert!(compute_unknown_tree(Some(&raw), None, &user_schema()).is_none());
}

#[test]
fn no_tree_without_both_parses() {
    let raw = entries(vec![("a", TomlNode::Value)]);
    assert!(compute_unknown_tree(None, Some(entries(vec![])), &user_schema()).is_none());
    assert!(compute_unknown_tree(Some(&raw), None, &user_schema()).is_none());
}

#[test]
fn diff_tables_keeps_known_scalars_and_order() {
    let raw = entries(vec![("a", TomlNode::Value), ("b", TomlNode::Value), ("c", TomlNode::Value)]);
    let known = entries(vec![("b", table(vec![]))]);
    let tree = diff_tables(&raw, &known);
    assert_eq!(tree.keys, vec!["a".to_string(), "c".to_string()]);
}

#[test]
fn seeding_adds_only_missing_schema_keys() {
    let mut known = entries(vec![("list", table(vec![("full", TomlNode::Value)]))]);
    seed_schema_skeleton(&mut known, &user_schema());
    assert_eq!(known.len(), 7);
    match &known[0].1 {
        TomlNode::Table(t) => assert_eq!(t.len(), 1),
        TomlNode::Value => panic!("list must stay a table"),
    }
    assert!(known.iter().any(|(k, v)| k == "merge" && matches!(v, TomlNode::Table(t) if t.is_empty())));
}

#[test]
fn other_status_walks_the_other_tree() {
    let other = UnknownTree {
        keys: vec!["secret".to_string()],
        nested: vec![("list".to_string(), UnknownTree { keys: vec!["columns".to_string()], nested: vec![] })],
    };
    let root = OtherStatus::Known(Some(&other));
    assert!(!root.key_is_valid_in_other("secret"));
    assert!(root.key_is_valid_in_other("list"));
    assert!(matches!(root.descend("secret"), OtherStatus::UnknownSection));
    let list = root.descend("list");
    assert!(!list.key_is_valid_in_other("columns"));
    assert!(list.key_is_valid_in_other("full"));
    assert!(matches!(root.descend("merge"), OtherStatus::Known(None)));
    assert!(root.descend("merge").key_is_valid_in_other("anything"));
    assert!(!OtherStatus::UnknownSection.key_is_valid_in_other("x"));
}

#[test]
fn collect_classifies_top_level_and_nested_keys() {
    // Project config holding a user-only key, a typo under a valid section,
    // and a user-only commit.generation leaf.
    let raw_tree = UnknownTree {
        keys: vec!["skip-shell-integration-prompt".to_string(), "typo-key".to_string()],
        nested: vec![],
    };
    let migrated_tree = UnknownTree {
        keys: raw_tree.keys.clone(),
        nested: vec![
            ("list".to_string(), UnknownTree { keys: vec!["fulll".to_string()], nested: vec![] }),
            (
                "commit".to_string(),
                UnknownTree {
                    keys: vec![],
                    nested: vec![(
                        "generation".to_string(),
                        UnknownTree { keys: vec!["command".to_string()], nested: vec![] },
                    )],
                },
            ),
            ("not-a-section".to_string(), UnknownTree { keys: vec!["x".to_string()], nested: vec![] }),
        ],
    };
    let root = entries(vec![]);
    let warnings = collect_unknown_warnings(
        Some(&raw_tree),
        Some(&migrated_tree),
        &root,
        None,
        &project_schema(),
        &user_schema(),
    );
    assert_eq!(warnings.len(), 4, "{:?}", warnings);
    assert!(matches!(&warnings[0], UnknownWarning::TopLevelWrongConfig { key, other_description }
        if key == "skip-shell-integration-prompt" && other_description == "user config"));
    assert!(matches!(&warnings[1], UnknownWarning::TopLevelUnknown { key } if key == "typo-key"));
    assert!(matches!(&warnings[2], UnknownWarning::NestedUnknown { path } if path == "list.fulll"));
    assert!(matches!(&warnings[3], UnknownWarning::NestedWrongConfig { path, other_description }
        if path == "commit.generation.command" && other_description == "user config"));
}

#[test]
fn collect_redirects_nested_keys_valid_in_the_other_config() {
    let migrated_tree = UnknownTree {
        keys: vec![],
        nested: vec![("list".to_string(), UnknownTree { keys: vec!["columns".to_string()], nested: vec![] })],
    };
    let raw_tree = UnknownTree { keys: vec![], nested: vec![] };
    // As user config, `list.columns` is valid (absent from its tree).
    let other_tree = UnknownTree { keys: vec!["pre-start".to_string()], nested: vec![] };
    let warnings = collect_unknown_warnings(
        Some(&raw_tree),
        Some(&migrated_tree),
        &entries(vec![]),
        Some(&other_tree),
        &project_schema(),
        &user_schema(),
    );
    assert_eq!(warnings.len(), 1);
    assert!(matches!(&warnings[0], UnknownWarning::NestedWrongConfig { path, .. } if path == "list.columns"));
}

#[test]
fn collect_handles_deprecated_sections() {
    let raw_tree = UnknownTree { keys: vec!["commit-generation".to_string(), "select".to_string()], nested: vec![] };
    let migrated_tree = UnknownTree { keys: vec![], nested: vec![] };
    // A user schema without `switch`, where `[select]`'s replacement cannot live.
    let mut no_switch = user_schema();
    no_switch.valid_keys.retain(|k| k != "switch");
    // In user config `commit-generation` migrates to `[commit.generation]`;
    // a surviving non-empty section means the migration declined.
    let declined = entries(vec![("commit-generation", table(vec![("command", TomlNode::Value)]))]);
    let warnings = collect_unknown_warnings(
        Some(&raw_tree),
        Some(&migrated_tree),
        &declined,
        None,
        &no_switch,
        &project_schema(),
    );
    // `select` belongs under `switch`, which user_schema lacks here: redirected.
    assert_eq!(warnings.len(), 2, "{:?}", warnings);
    assert!(matches!(&warnings[0], UnknownWarning::TopLevelUnknown { key } if key == "commit-generation"));
    assert!(matches!(&warnings[1], UnknownWarning::TopLevelDeprecatedWrongConfig { key, .. } if key == "select"));
    let migrated_away = entries(vec![]);
    let warnings = collect_unknown_warnings(
        Some(&raw_tree),
        Some(&migrated_tree),
        &migrated_away,
        None,
        &no_switch,
        &project_schema(),
    );
    assert_eq!(warnings.len(), 1);
}

#[test]
fn collect_is_silent_without_trees() {
    let tree = UnknownTree { keys: vec!["x".to_string()], nested: vec![] };
    let root = entries(vec![]);
    assert!(collect_unknown_warnings(None, Some(&tree), &root, None, &user_schema(), &project_schema()).is_empty());
    assert!(collect_unknown_warnings(Some(&tree), None, &root, None, &user_schema(), &project_schema()).is_empty());
}

fn tree(keys: &[&str], nested: Vec<(&str, UnknownTree)>) -> UnknownTree {
    UnknownTree {
        keys: keys.iter().map(|k| k.to_string()).collect(),
        nested: nested.into_iter().map(|(k, t)| (k.to_string(), t)).collect(),
    }
}

// The inputs below are what parsing each file, migrating it, and analysing
// it under both config types yields; the comment above each case gives the
// file.

#[test]
fn test_nested_user_only_key_redirects_generally() {
    // Project config `[list]\ncolumns = ["branch"]\nfull = true\n`: both keys
    // are unknown to the project type and valid for the user type.
    let raw = tree(&[], vec![("list", tree(&["columns", "full"], vec![]))]);
    let other = tree(&[], vec![]);
    let root = entries(vec![("list", table(vec![("columns", TomlNode::Value), ("full", TomlNode::Value)]))]);
    let warnings =
        collect_unknown_warnings(Some(&raw), Some(&raw), &root, Some(&other), &project_schema(), &user_schema());
    assert!(
        warnings.iter().all(|w| matches!(
            w,
            UnknownWarning::NestedWrongConfig { path, other_description }
                if (path == "list.columns" || path == "list.full") && other_description == "user config"
        )) && warnings.len() == 2,
        "expected list.columns/list.full -> user config, got {warnings:?}"
    );

    // Project config `[list]\nnonsense-typo = true\n`: unknown to both types.
    let raw = tree(&[], vec![("list", tree(&["nonsense-typo"], vec![]))]);
    let other = tree(&[], vec![("list", tree(&["nonsense-typo"], vec![]))]);
    let root = entries(vec![("list", table(vec![("nonsense-typo", TomlNode::Value)]))]);
    let warnings =
        collect_unknown_warnings(Some(&raw), Some(&raw), &root, Some(&other), &project_schema(), &user_schema());
    assert!(
        matches!(warnings.as_slice(), [UnknownWarning::NestedUnknown { path }] if path == "list.nonsense-typo"),
        "expected list.nonsense-typo -> unknown, got {warnings:?}"
    );

    // User config `[list]\nurl = "x"\n`: `url` is project-only.
    let raw = tree(&[], vec![("list", tree(&["url"], vec![]))]);
    let other = tree(&[], vec![]);
    let root = entries(vec![("list", table(vec![("url", TomlNode::Value)]))]);
    let warnings =
        collect_unknown_warnings(Some(&raw), Some(&raw), &root, Some(&other), &user_schema(), &project_schema());
    assert!(
        matches!(
            warnings.as_slice(),
            [UnknownWarning::NestedWrongConfig { path, other_description }]
                if path == "list.url" && other_description == "project config"
        ),
        "expected list.url -> project config, got {warnings:?}"
    );
}

#[test]
fn test_unmigrated_deprecated_section_warns_as_unknown() {
    let user = user_schema();
    let project = project_schema();
    let select_only = tree(&["select"], vec![]);

    // `select = "not a table"\n`: the migration leaves the scalar alone.
    let root = entries(vec![("select", TomlNode::Value)]);
    let warnings = collect_unknown_warnings(Some(&select_only), Some(&select_only), &root, None, &user, &project);
    assert!(
        matches!(warnings.as_slice(), [UnknownWarning::TopLevelUnknown { key }] if key == "select"),
        "expected select -> unknown field, got {warnings:?}"
    );

    // `[switch.picker]\npager = "delta"\n\n[select]\npreview = "p"\n`: the
    // destination is taken, so `[select]` stays.
    let root = entries(vec![
        ("switch", table(vec![("picker", table(vec![("pager", TomlNode::Value)]))])),
        ("select", table(vec![("preview", TomlNode::Value)])),
    ]);
    let warnings = collect_unknown_warnings(Some(&select_only), Some(&select_only), &root, None, &user, &project);
    assert!(
        matches!(warnings.as_slice(), [UnknownWarning::TopLevelUnknown { key }] if key == "select"),
        "expected occupied-destination select -> unknown field, got {warnings:?}"
    );

    // `switch = "x"\n\n[select]\npreview = "p"\n`: a type error, so there is
    // no tree.
    let root = entries(vec![("switch", TomlNode::Value), ("select", table(vec![("preview", TomlNode::Value)]))]);
    assert!(
        collect_unknown_warnings(None, None, &root, None, &user, &project).is_empty(),
        "a type error belongs to serde, not the unknown-field channel"
    );

    // `[select]\n`: an empty section contributes nothing.
    let root = entries(vec![("select", table(vec![]))]);
    assert!(
        collect_unknown_warnings(Some(&select_only), Some(&select_only), &root, None, &user, &project).is_empty(),
        "empty [select] must stay silent"
    );

    // `[select]\npager = "delta"\n`: migrated to `[switch.picker]`.
    let migrated = tree(&[], vec![]);
    let root = entries(vec![("switch", table(vec![("picker", table(vec![("pager", TomlNode::Value)]))]))]);
    assert!(
        collect_unknown_warnings(Some(&select_only), Some(&migrated), &root, None, &user, &project).is_empty(),
        "migrated [select] must not warn"
    );

    // `commit-generation = "keep me"\n`: its migration declines a scalar too.
    let cg = tree(&["commit-generation"], vec![]);
    let root = entries(vec![("commit-generation", TomlNode::Value)]);
    let warnings = collect_unknown_warnings(Some(&cg), Some(&cg), &root, None, &user, &project);
    assert!(
        matches!(warnings.as_slice(), [UnknownWarning::TopLevelUnknown { key }] if key == "commit-generation"),
        "expected malformed commit-generation -> unknown field, got {warnings:?}"
    );
}
