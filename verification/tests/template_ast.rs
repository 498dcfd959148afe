use std::borrow::Cow;

use worktrunk::config::template_ast::{char_offset, parse_template, template_vars, TplExpr, TplStmt};

/// `normalize_template_vars` with the borrowed/owned shape: borrowed when
/// nothing changes.
fn normalize_template_vars(template: &str) -> Cow<'_, str> {
    match worktrunk::config::template_ast::normalize_template_vars(template) {
        Some(s) => Cow::Owned(s),
        None => Cow::Borrowed(template),
    }
}

#[test]
fn test_normalize_no_deprecated_vars() {
    let template = "ln -sf {{ repo_path }}/node_modules";
    let result = normalize_template_vars(template);
    assert!(matches!(result, Cow::Borrowed(_)), "Should not allocate");
    assert_eq!(result, template);
}
#[test]
fn test_normalize_does_not_rewrite_literal_text() {
    let template = "echo repo_root";
    let result = normalize_template_vars(template);
    assert!(matches!(result, Cow::Borrowed(_)), "Should not allocate");
    assert_eq!(result, template);
}
#[test]
fn test_normalize_only_rewrites_template_identifiers() {
    let template = "echo repo_root && echo {{ repo_root }}";
    let result = normalize_template_vars(template);
    assert_eq!(result, "echo repo_root && echo {{ repo_path }}");
}
#[test]
fn test_normalize_skips_set_assignment_target() {
    let template = "{% set repo_root = \"x\" %}{{ repo_root }}";
    let result = normalize_template_vars(template);
    assert!(matches!(result, Cow::Borrowed(_)), "Should not allocate");
    assert_eq!(result, template);
}
#[test]
fn test_normalize_ignores_delimiters_inside_quoted_strings() {
    assert_eq!(
        normalize_template_vars(r#"{{ "}} " ~ repo_root }}"#),
        r#"{{ "}} " ~ repo_path }}"#
    );
    // The literal `{{ repo_root }}` inside the string is output text, not
    // a reference; only the real tag after it changes.
    assert_eq!(
        normalize_template_vars(r#"{{ "}} {{ repo_root }}" }}{{ repo_root }}"#),
        r#"{{ "}} {{ repo_root }}" }}{{ repo_path }}"#
    );
    // Same for a single-quoted string and a block tag.
    assert_eq!(
        normalize_template_vars(r#"{% if '%}' ~ repo_root %}x{% endif %}"#),
        r#"{% if '%}' ~ repo_path %}x{% endif %}"#
    );
}
#[test]
fn test_normalize_ignores_raw_block_contents() {
    assert_eq!(
        normalize_template_vars(
            r#"{% raw %}{% set repo_root = "x" %}{% endraw %}{{ repo_root }}"#
        ),
        r#"{% raw %}{% set repo_root = "x" %}{% endraw %}{{ repo_path }}"#
    );
    assert_eq!(
        normalize_template_vars("{{ repo_root }}{%+ raw %}{{ repo_root }}{%+ endraw %}"),
        "{{ repo_path }}{%+ raw %}{{ repo_root }}{%+ endraw %}"
    );
}
#[test]
fn test_normalize_migrates_past_a_tag_opened_inside_a_raw_block() {
    assert_eq!(
        normalize_template_vars(r#"{{ repo_root }}{% raw %}{{ " {% endraw %}"#),
        r#"{{ repo_path }}{% raw %}{{ " {% endraw %}"#
    );
}
#[test]
fn test_normalize_rewrites_names_used_but_not_bound_in_blocks() {
    assert_eq!(
        normalize_template_vars("{% if repo_root %}{{ repo_root }}{% endif %}"),
        "{% if repo_path %}{{ repo_path }}{% endif %}"
    );
    assert_eq!(
        normalize_template_vars("{% for x in repo_root %}{{ x }}{% endfor %}"),
        "{% for x in repo_path %}{{ x }}{% endfor %}"
    );
    assert_eq!(
        normalize_template_vars("{% set p = repo_root %}{{ p }}"),
        "{% set p = repo_path %}{{ p }}"
    );
    // A value region the target scan must not claim: a `for` filter, a
    // comparison whose `=` is not an assignment, a collection literal.
    assert_eq!(
        normalize_template_vars("{% for x in items if repo_root %}{{ x }}{% endfor %}"),
        "{% for x in items if repo_path %}{{ x }}{% endfor %}"
    );
    assert_eq!(
        normalize_template_vars(r#"{% set a = repo_root == "x" %}{{ a }}"#),
        r#"{% set a = repo_path == "x" %}{{ a }}"#
    );
    assert_eq!(
        normalize_template_vars("{% with a = [repo_root, 1] %}{{ a }}{% endwith %}"),
        "{% with a = [repo_path, 1] %}{{ a }}{% endwith %}"
    );
    // A dotted target mutates an attribute of the global rather than
    // binding it, so the global still migrates.
    assert_eq!(
        normalize_template_vars("{% set repo_root.x = 1 %}{{ repo_root }}"),
        "{% set repo_path.x = 1 %}{{ repo_path }}"
    );
    // `set` takes one assignment, so the comma after its `=` builds a
    // tuple value — the name beside it reads the global and migrates,
    // unlike the second pair of a `with`.
    assert_eq!(
        normalize_template_vars("{% set a = 1, repo_root %}{{ repo_root }}"),
        "{% set a = 1, repo_path %}{{ repo_path }}"
    );
    // A `set` block's filter chain is value too: only `x` is bound, so
    // the argument and the later global both migrate.
    assert_eq!(
        normalize_template_vars("{% set x | default(repo_root) %}b{% endset %}{{ repo_root }}"),
        "{% set x | default(repo_path) %}b{% endset %}{{ repo_path }}"
    );
    // The squash-template migration this must not regress.
    assert_eq!(
        normalize_template_vars("{% for c in commits %}{{ c }}{% endfor %}"),
        "{% for c in commit_details %}{{ c }}{% endfor %}"
    );
}
#[test]
fn test_normalize_skips_identifiers_that_are_not_reads() {
    assert_eq!(
        normalize_template_vars("{{ dict(repo_root=1) }}{{ repo_root }}"),
        "{{ dict(repo_root=1) }}{{ repo_path }}"
    );
    assert_eq!(
        normalize_template_vars(r#"{{ {"repo_root": repo_root} }}"#),
        r#"{{ {"repo_root": repo_path} }}"#
    );
}
#[test]
fn test_normalize_rewrites_reads_out_of_visit_order() {
    assert_eq!(
        normalize_template_vars("{{ repo_root if worktree }}"),
        "{{ repo_path if worktree_path }}"
    );
    assert_eq!(
        normalize_template_vars("{{ {a: repo_root, worktree: b} }}"),
        "{{ {a: repo_path, worktree_path: b} }}"
    );
}
#[test]
fn test_normalize_rewrites_inside_a_do_statement() {
    assert_eq!(
        normalize_template_vars("{% do dict(x=repo_root) %}"),
        "{% do dict(x=repo_path) %}"
    );
}
#[test]
fn test_normalize_rewrites_reads_in_every_expression_shape() {
    for (template, expected) in [
        ("{{ items[repo_root:] }}", "{{ items[repo_path:] }}"),
        (
            "{{ items[:repo_root:worktree] }}",
            "{{ items[:repo_path:worktree_path] }}",
        ),
        ("{{ items[repo_root] }}", "{{ items[repo_path] }}"),
        ("{{ not repo_root }}", "{{ not repo_path }}"),
        ("{{ -repo_root }}", "{{ -repo_path }}"),
        // `Expr::Compare` needs a *chained* comparison: `parse_compare`
        // lowers a single one to `Expr::BinOp`, so `repo_root == "x"`
        // never reaches the arm that walks the operand list.
        ("{{ 1 < repo_root < 3 }}", "{{ 1 < repo_path < 3 }}"),
        // A conditional's `else` arm, which the visit-order case above
        // leaves off.
        ("{{ a if b else repo_root }}", "{{ a if b else repo_path }}"),
        (
            "{{ repo_root ~ worktree }}",
            "{{ repo_path ~ worktree_path }}",
        ),
        ("{{ repo_root is defined }}", "{{ repo_path is defined }}"),
        (
            "{{ repo_root | default(worktree) }}",
            "{{ repo_path | default(worktree_path) }}",
        ),
        ("{{ dict(**repo_root) }}", "{{ dict(**repo_path) }}"),
        ("{{ dict(*repo_root) }}", "{{ dict(*repo_path) }}"),
        (
            "{{ repo_root(worktree) }}",
            "{{ repo_path(worktree_path) }}",
        ),
        (
            "{% autoescape repo_root %}{{ worktree }}{% endautoescape %}",
            "{% autoescape repo_path %}{{ worktree_path }}{% endautoescape %}",
        ),
        (
            "{% filter upper %}{{ repo_root }}{% endfilter %}",
            "{% filter upper %}{{ repo_path }}{% endfilter %}",
        ),
        (
            "{% for x in items %}{% else %}{{ repo_root }}{% endfor %}",
            "{% for x in items %}{% else %}{{ repo_path }}{% endfor %}",
        ),
        (
            "{% if a %}{% else %}{{ repo_root }}{% endif %}",
            "{% if a %}{% else %}{{ repo_path }}{% endif %}",
        ),
    ] {
        assert_eq!(
            normalize_template_vars(template),
            expected,
            "for: {template}"
        );
    }
}
#[test]
fn test_normalize_skips_comment_tags() {
    let template = "{# repo_root #}{{ repo_root }}";
    let result = normalize_template_vars(template);
    assert_eq!(result, "{# repo_root #}{{ repo_path }}");
}
#[test]
fn test_normalize_skips_raw_blocks() {
    let template = "{% raw %}{{ repo_root }}{% endraw %}{{ repo_root }}";
    let result = normalize_template_vars(template);
    assert_eq!(
        result,
        "{% raw %}{{ repo_root }}{% endraw %}{{ repo_path }}"
    );
}
#[test]
fn test_normalize_skips_string_literals_in_tags() {
    let template = "{{ \"repo_root\" }} {{ repo_root }}";
    let result = normalize_template_vars(template);
    assert_eq!(result, "{{ \"repo_root\" }} {{ repo_path }}");
}
#[test]
fn test_normalize_skips_attribute_access() {
    let template = "{{ obj.repo_root }} {{ repo_root }}";
    let result = normalize_template_vars(template);
    assert_eq!(result, "{{ obj.repo_root }} {{ repo_path }}");
}
#[test]
fn test_normalize_skips_bare_brace() {
    let template = "{ literal {{ repo_root }}";
    let result = normalize_template_vars(template);
    assert_eq!(result, "{ literal {{ repo_path }}");
}
#[test]
fn test_normalize_handles_escaped_quote_in_tag_string() {
    let template = "{{ \"a\\\"repo_root\" }} {{ repo_root }}";
    let result = normalize_template_vars(template);
    assert_eq!(result, "{{ \"a\\\"repo_root\" }} {{ repo_path }}");
}
#[test]
fn test_normalize_repo_root() {
    let template = "ln -sf {{ repo_root }}/node_modules";
    let result = normalize_template_vars(template);
    assert_eq!(result, "ln -sf {{ repo_path }}/node_modules");
}
#[test]
fn test_normalize_worktree() {
    let template = "cd {{ worktree }} && npm install";
    let result = normalize_template_vars(template);
    assert_eq!(result, "cd {{ worktree_path }} && npm install");
}
#[test]
fn test_normalize_main_worktree() {
    let template = "../{{ main_worktree }}.{{ branch }}";
    let result = normalize_template_vars(template);
    assert_eq!(result, "../{{ repo }}.{{ branch }}");
}
#[test]
fn test_normalize_multiple_vars() {
    let template = "ln -sf {{ repo_root }}/node_modules {{ worktree }}/node_modules";
    let result = normalize_template_vars(template);
    assert_eq!(
        result,
        "ln -sf {{ repo_path }}/node_modules {{ worktree_path }}/node_modules"
    );
}
#[test]
fn test_normalize_does_not_match_suffix() {
    // Should NOT replace "worktree_path" when looking for "worktree"
    let template = "cd {{ worktree_path }}";
    let result = normalize_template_vars(template);
    // Note: may allocate due to coarse quick check, but result is unchanged
    assert_eq!(result, template);
}
#[test]
fn test_normalize_with_filter() {
    let template = "{{ repo_root | sanitize }}";
    let result = normalize_template_vars(template);
    assert_eq!(result, "{{ repo_path | sanitize }}");
}
#[test]
fn the_parse_keeps_byte_spans_and_reads_get_character_spans() {
    let t = "é {{ repo_root }}";
    let tree = parse_template(t).expect("parses");
    match &tree {
        TplStmt::Template { children } => match &children[1] {
            TplStmt::EmitExpr { expr: TplExpr::Var { name, start, end } } => {
                assert_eq!(name, "repo_root");
                assert_eq!((*start, *end), (6, 15));
            }
            other => panic!("unexpected {other:?}"),
        },
        other => panic!("unexpected {other:?}"),
    }
    let vars = template_vars(t, &tree).expect("spans on boundaries");
    assert_eq!(vars.reads, vec![("repo_root".to_string(), 5, 14)]);
    assert!(vars.bound.is_empty());
    assert!(parse_template("{{ repo_root").is_none());
}

#[test]
fn byte_offsets_become_character_offsets() {
    assert_eq!(char_offset("aé b", 0), Some(0));
    assert_eq!(char_offset("aé b", 3), Some(2));
    assert_eq!(char_offset("aé b", 2), None);
    assert_eq!(char_offset("aé b", 5), Some(4));
    assert_eq!(char_offset("aé b", 6), None);
}

#[test]
fn bindings_are_collected_from_targets() {
    let t = "{% for (a, repo_root) in items if x %}{{ a.b }}{% endfor %}";
    let vars = template_vars(t, &parse_template(t).unwrap()).unwrap();
    let names: Vec<&str> = vars.reads.iter().map(|r| r.0.as_str()).collect();
    assert_eq!(names, vec!["items", "x", "a"]);
    assert_eq!(vars.bound, vec!["a".to_string(), "repo_root".to_string()]);
}

#[test]
fn unparsable_template_is_unchanged() {
    assert!(worktrunk::config::template_ast::normalize_template_vars("{{ repo_root").is_none());
}
