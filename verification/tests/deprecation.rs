use worktrunk::config::deprecation::{
    classify_unknown_key, deprecated_section, format_applied_lines, format_deprecation_warnings,
    format_warning_lines, key_belongs_in, nested_key_belongs_in, section_display, ConfigFileKind,
    ConfigSchema, DeprecationInfo, DeprecationKind, ScopedSections, SectionMigration, UnknownKeyKind,
};

const WARN_PREFIX: &str = "\u{1F7E1} \x1b[33m";
const WARN_SUFFIX: &str = "\x1b[0m\n";

fn bold(s: &str) -> String {
    format!("\x1b[1m{s}\x1b[22m")
}

#[test]
fn labels_of_config_kinds() {
    assert_eq!(ConfigFileKind::User.label(), "User config");
    assert_eq!(ConfigFileKind::System.label(), "System config");
    assert_eq!(ConfigFileKind::Project.label(), "Project config");
}

#[test]
fn scoped_sections_record_scopes() {
    let mut s = ScopedSections { has_top_level: false, project_keys: vec![] };
    assert!(s.is_empty());
    s.record(Some("github.com/a/b"));
    assert!(!s.is_empty());
    s.record(None);
    assert!(s.has_top_level);
    assert_eq!(s.project_keys, vec!["github.com/a/b"]);
}

#[test]
fn section_display_forms() {
    assert_eq!(section_display(None, "select"), "[select]");
    assert_eq!(section_display(Some("gh/x"), "select"), "[projects.\"gh/x\".select]");
}

#[test]
fn warning_lines_render_each_kind() {
    let kinds = vec![
        DeprecationKind::TemplateVar { old: "repo_root".to_string(), new: "repo_path".to_string() },
        DeprecationKind::CommitGeneration(ScopedSections {
            has_top_level: true,
            project_keys: vec!["p".to_string()],
        }),
        DeprecationKind::NoFf,
    ];
    let out = format_warning_lines(&kinds, "User config");
    let expected = format!(
        "{WARN_PREFIX}User config: template variable {} is deprecated in favor of {}{WARN_SUFFIX}\
         {WARN_PREFIX}User config: {} is deprecated in favor of {}{WARN_SUFFIX}\
         {WARN_PREFIX}User config: {} is deprecated in favor of {}{WARN_SUFFIX}\
         {WARN_PREFIX}User config: {} is deprecated in favor of {} (inverted){WARN_SUFFIX}",
        bold("repo_root"),
        bold("repo_path"),
        bold("[commit-generation]"),
        bold("[commit.generation]"),
        bold("[projects.\"p\".commit-generation]"),
        bold("[projects.\"p\".commit.generation]"),
        bold("merge.no-ff"),
        bold("merge.ff"),
    );
    assert_eq!(out, expected);
    let info = DeprecationInfo {
        config_path: "/tmp/c.toml".to_string(),
        deprecations: kinds,
        kind: ConfigFileKind::User,
        main_worktree_path: None,
    };
    assert!(info.has_deprecations());
    assert_eq!(info.label(), "User config");
    assert_eq!(format_deprecation_warnings(&info), expected);
}

#[test]
fn applied_lines_use_past_tense() {
    let out = format_applied_lines(&vec![DeprecationKind::CiSection, DeprecationKind::NoCd]);
    let expected = format!(
        "{WARN_PREFIX}Moved {} to {}{WARN_SUFFIX}{WARN_PREFIX}Replaced {} with {} (inverted){WARN_SUFFIX}",
        bold("[ci]"),
        bold("[forge]"),
        bold("switch.no-cd"),
        bold("switch.cd"),
    );
    assert_eq!(out, expected);
    assert_eq!(format_applied_lines(&vec![]), "");
}

fn schemas() -> (ConfigSchema, ConfigSchema) {
    let user = ConfigSchema {
        description: "user config".to_string(),
        valid_keys: vec!["worktree-path".to_string(), "commit".to_string(), "switch".to_string()],
    };
    let project = ConfigSchema {
        description: "project config".to_string(),
        valid_keys: vec!["forge".to_string(), "commit".to_string()],
    };
    (user, project)
}

#[test]
fn unknown_keys_are_classified() {
    let (user, project) = schemas();
    assert!(matches!(classify_unknown_key("select", &user, &project), UnknownKeyKind::DeprecatedHandled));
    match classify_unknown_key("select", &project, &user) {
        UnknownKeyKind::DeprecatedWrongConfig { other_description, canonical_display } => {
            assert_eq!(other_description, "user config");
            assert_eq!(canonical_display, "[switch.picker]");
        }
        _ => panic!("expected a redirect"),
    }
    match classify_unknown_key("forge", &user, &project) {
        UnknownKeyKind::WrongConfig { other_description } => assert_eq!(other_description, "project config"),
        _ => panic!("expected wrong config"),
    }
    assert!(matches!(classify_unknown_key("typo", &user, &project), UnknownKeyKind::Unknown));
    assert_eq!(key_belongs_in("worktree-path", &user).as_deref(), Some("user config"));
    assert_eq!(key_belongs_in("nope", &user), None);
    assert_eq!(nested_key_belongs_in("commit.generation.command", &user).as_deref(), Some("user config"));
    assert_eq!(nested_key_belongs_in("commit.generation.template-append", &user), None);
    assert_eq!(deprecated_section("ci").unwrap().canonical_display, "[forge]");
    assert!(deprecated_section("forge").is_none());
}

#[test]
fn section_migration_constructors() {
    let none = SectionMigration::none();
    assert!(!none.moved && none.dropped.is_empty());
    let dropped = SectionMigration::dropped_only(vec![DeprecationKind::ListTaskTimeout]);
    assert!(!dropped.moved);
    assert_eq!(dropped.dropped.len(), 1);
}
