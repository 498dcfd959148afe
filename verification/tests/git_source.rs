use worktrunk::config::git_source::{pairs_to_table, GitConfigValue, GIT_CONFIG_PREFIX};

fn pairs(list: &[(&str, &str)]) -> Vec<(String, String)> {
    list.iter().map(|(k, v)| (k.to_string(), v.to_string())).collect()
}

fn get<'a>(t: &'a [(String, GitConfigValue)], key: &str) -> &'a GitConfigValue {
    &t.iter().find(|(k, _)| k == key).expect("key present").1
}

fn table(v: &GitConfigValue) -> &[(String, GitConfigValue)] {
    match v {
        GitConfigValue::Table(t) => t,
        GitConfigValue::Str(s) => panic!("expected a table, got {s:?}"),
    }
}

fn string(v: &GitConfigValue) -> &str {
    match v {
        GitConfigValue::Str(s) => s,
        GitConfigValue::Table(_) => panic!("expected a string"),
    }
}

#[test]
fn test_top_level_hook_maps_to_flattened_key() {
    let t = pairs_to_table(&pairs(&[("post-start", "pnpm install")])).unwrap();
    assert_eq!(t.len(), 1);
    assert_eq!(string(get(&t, "post-start")), "pnpm install");
}

#[test]
fn nested_keys_build_tables() {
    let t = pairs_to_table(&pairs(&[
        ("list.url", "http://localhost:{{ branch | hash_port }}"),
        ("forge.platform", "github"),
        ("commit.generation.template-append", "use conventional commits"),
        ("list.full", "true"),
    ]))
    .unwrap();
    let list = table(get(&t, "list"));
    assert_eq!(list.len(), 2);
    assert_eq!(string(get(list, "url")), "http://localhost:{{ branch | hash_port }}");
    assert_eq!(string(get(table(get(&t, "forge")), "platform")), "github");
    let generation = table(get(table(get(&t, "commit")), "generation"));
    assert_eq!(string(get(generation, "template-append")), "use conventional commits");
}

#[test]
fn test_value_table_conflict_is_an_error() {
    let err = pairs_to_table(&pairs(&[("list", "oops"), ("list.url", "http://localhost:3000")])).unwrap_err();
    assert!(err.contains("worktrunk.config.list"), "{}", err);
    assert_eq!(
        err,
        "Conflicting git config keys: worktrunk.config.list is a value, but worktrunk.config.list.url needs it to be a table"
    );
}

#[test]
fn test_table_value_conflict_is_an_error() {
    let err = pairs_to_table(&pairs(&[("list.url", "http://localhost:3000"), ("list", "oops")])).unwrap_err();
    assert_eq!(err, "Conflicting git config keys: worktrunk.config.list is set both as a value and as a table");
}

#[test]
fn deep_conflict_names_the_walked_prefix() {
    let err = pairs_to_table(&pairs(&[("a.b", "x"), ("a.b.c.d", "y")])).unwrap_err();
    assert_eq!(
        err,
        "Conflicting git config keys: worktrunk.config.a.b is a value, but worktrunk.config.a.b.c.d needs it to be a table"
    );
}

#[test]
fn test_empty_segment_is_an_error() {
    let err = pairs_to_table(&pairs(&[("list..url", "x")])).unwrap_err();
    assert!(err.contains("empty key segment"), "{}", err);
    assert_eq!(err, format!("Invalid git config key {GIT_CONFIG_PREFIX}list..url: empty key segment"));
    assert!(pairs_to_table(&pairs(&[("", "x")])).is_err());
    assert!(pairs_to_table(&pairs(&[("a.", "x")])).is_err());
}

#[test]
fn repeated_key_is_taken() {
    let err = pairs_to_table(&pairs(&[("a", "1"), ("a", "2")])).unwrap_err();
    assert!(err.ends_with("is set both as a value and as a table"));
}

#[test]
fn test_nested_keys_map_to_tables() {
    let t = pairs_to_table(&pairs(&[
        ("list.url", "http://localhost:{{ branch | hash_port }}"),
        ("forge.platform", "github"),
        ("commit.generation.template-append", "use conventional commits"),
    ]))
    .unwrap();
    assert_eq!(string(get(table(get(&t, "list")), "url")), "http://localhost:{{ branch | hash_port }}");
    assert_eq!(string(get(table(get(&t, "forge")), "platform")), "github");
    let generation = table(get(table(get(&t, "commit")), "generation"));
    assert_eq!(string(get(generation, "template-append")), "use conventional commits");
}

#[test]
fn test_alias_maps_to_aliases_table() {
    let t = pairs_to_table(&pairs(&[("aliases.deploy", "make deploy")])).unwrap();
    let aliases = table(get(&t, "aliases"));
    assert_eq!(string(get(aliases, "deploy")), "make deploy");
}
