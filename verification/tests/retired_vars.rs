use worktrunk::config::deprecation::{mentions_retired_var, migrate_retired_vars, TemplateVars};

/// A read of `name` at the `nth` occurrence of `{{ name` (ASCII templates,
/// so byte and character offsets agree).
fn read_at(template: &str, name: &str, nth: usize) -> (String, usize, usize) {
    let pat = format!("{{{{ {name}");
    let start = template.match_indices(&pat).nth(nth).expect("occurrence").0 + 3;
    (name.to_string(), start, start + name.len())
}

fn vars(reads: Vec<(String, usize, usize)>, bound: &[&str]) -> TemplateVars {
    TemplateVars { reads, bound: bound.iter().map(|s| s.to_string()).collect() }
}

#[test]
fn no_retired_name_in_text_is_untouched() {
    let t = "ln -sf {{ repo_path }}/node_modules";
    assert!(!mentions_retired_var(t));
    let v = vars(vec![read_at(t, "repo_path", 0)], &[]);
    assert_eq!(migrate_retired_vars(t, Some(&v)), None);
}

#[test]
fn literal_text_is_not_a_read() {
    let t = "echo repo_root";
    assert!(mentions_retired_var(t));
    assert_eq!(migrate_retired_vars(t, Some(&vars(vec![], &[]))), None);
}

#[test]
fn only_template_identifiers_are_rewritten() {
    let t = "echo repo_root && echo {{ repo_root }}";
    let v = vars(vec![read_at(t, "repo_root", 0)], &[]);
    let (out, pairs) = migrate_retired_vars(t, Some(&v)).unwrap();
    assert_eq!(out, "echo repo_root && echo {{ repo_path }}");
    assert_eq!(pairs, vec![("repo_root", "repo_path")]);
}

#[test]
fn bound_name_drops_the_pair() {
    let t = "{% set repo_root = \"x\" %}{{ repo_root }}";
    let v = vars(vec![read_at(t, "repo_root", 0)], &["repo_root"]);
    assert_eq!(migrate_retired_vars(t, Some(&v)), None);
    let t = "{% for repo_path in items %}{{ repo_root }}{% endfor %}";
    let v = vars(vec![read_at(t, "repo_root", 0)], &["repo_path"]);
    assert_eq!(migrate_retired_vars(t, Some(&v)), None);
}

#[test]
fn unparsable_template_is_untouched() {
    assert_eq!(migrate_retired_vars("{{ repo_root", None), None);
}

#[test]
fn several_pairs_rename_in_pair_order() {
    let t = "{{ main_worktree }}/{{ worktree }} {{ worktree }}";
    let v = vars(
        vec![read_at(t, "worktree", 1), read_at(t, "main_worktree", 0), read_at(t, "worktree", 0)],
        &[],
    );
    let (out, pairs) = migrate_retired_vars(t, Some(&v)).unwrap();
    assert_eq!(out, "{{ repo }}/{{ worktree_path }} {{ worktree_path }}");
    assert_eq!(pairs, vec![("worktree", "worktree_path"), ("main_worktree", "repo")]);
}

#[test]
fn pair_with_one_bound_half_is_skipped_but_others_rename() {
    let t = "{% set commit_details = 1 %}{{ commits }} {{ repo_root }}";
    let v = vars(vec![read_at(t, "commits", 0), read_at(t, "repo_root", 0)], &["commit_details"]);
    let (out, pairs) = migrate_retired_vars(t, Some(&v)).unwrap();
    assert_eq!(out, "{% set commit_details = 1 %}{{ commits }} {{ repo_path }}");
    assert_eq!(pairs, vec![("repo_root", "repo_path")]);
}
