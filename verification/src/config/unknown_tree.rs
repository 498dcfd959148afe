//! Schema-unknown paths of a config file, and the warnings they produce.

use vstd::prelude::*;
use crate::config::deprecation::{
    classify_unknown_key, find_deprecated, nested_key_belongs_in, schema_has, schema_has_exec, sviews,
    user_only_paths, ConfigSchema, UnknownKeyKind,
};
use crate::text::{append_chars, append_str, eq_chars, from_chars, to_chars};
use crate::git::remote_ref::info::copy_string;

verus! {

/// A parsed TOML value as unknown-key analysis sees it: a table, with its
/// entries in order, or any other value.
#[derive(Debug)]
pub enum TomlNode {
    Table(Vec<(String, TomlNode)>),
    Value,
}

/// A nested set of schema-unknown paths: `keys` are unknown keys at this
/// level (each covering its whole subtree); `nested` holds known keys with
/// unknown children.
#[derive(Debug)]
pub struct UnknownTree {
    pub keys: Vec<String>,
    pub nested: Vec<(String, UnknownTree)>,
}

/// Every unknown path of a tree, in order: its own keys, then each nested
/// entry's paths under its key.
pub open spec fn tree_paths(t: UnknownTree) -> Seq<Seq<Seq<char>>>
    decreases t,
{
    key_paths(t.keys@) + nested_paths(t.nested@)
}

pub open spec fn key_paths(keys: Seq<String>) -> Seq<Seq<Seq<char>>>
    decreases keys.len(),
{
    if keys.len() == 0 {
        Seq::empty()
    } else {
        key_paths(keys.drop_last()).push(seq![keys.last()@])
    }
}

pub open spec fn prefixed(k: Seq<char>, ps: Seq<Seq<Seq<char>>>) -> Seq<Seq<Seq<char>>> {
    ps.map_values(|p: Seq<Seq<char>>| seq![k] + p)
}

pub open spec fn nested_paths(ns: Seq<(String, UnknownTree)>) -> Seq<Seq<Seq<char>>>
    decreases ns,
{
    if ns.len() == 0 {
        Seq::empty()
    } else {
        nested_paths(ns.drop_last()) + prefixed(ns.last().0@, tree_paths(ns.last().1))
    }
}


/// The value under `key` among table entries (the first entry with that key).
pub open spec fn entry_get(es: Seq<(String, TomlNode)>, key: Seq<char>) -> Option<TomlNode>
    decreases es.len(),
{
    if es.len() == 0 {
        None
    } else if es[0].0@ == key {
        Some(es[0].1)
    } else {
        entry_get(es.drop_first(), key)
    }
}

/// Look `key` up among table entries.
pub fn entry_get_exec<'a>(es: &'a Vec<(String, TomlNode)>, key: &[char]) -> (r: Option<&'a TomlNode>)
    ensures
        match r {
            Some(n) => entry_get(es@, key@) == Some(*n),
            None => entry_get(es@, key@) is None,
        },
{
    let mut j: usize = 0;
    assert(es@.skip(0) =~= es@);
    while j < es.len()
        invariant
            j <= es@.len(),
            entry_get(es@, key@) == entry_get(es@.skip(j as int), key@),
        decreases es.len() - j,
    {
        assert(es@.skip(j as int).drop_first() =~= es@.skip(j + 1));
        let k = to_chars(es[j].0.as_str());
        if eq_chars(k.as_slice(), key) {
            return Some(&es[j].1);
        }
        j = j + 1;
    }
    None
}

/// The one-key paths of `raw`'s keys that `known` lacks, in order.
pub open spec fn top_paths(raw: Seq<(String, TomlNode)>, known: Seq<(String, TomlNode)>) -> Seq<Seq<Seq<char>>>
    decreases raw.len(),
{
    if raw.len() == 0 {
        Seq::empty()
    } else if entry_get(known, raw.last().0@) is None {
        top_paths(raw.drop_last(), known).push(seq![raw.last().0@])
    } else {
        top_paths(raw.drop_last(), known)
    }
}

/// The paths that `raw` holds and `known` drops, at the shallowest level
/// where they are unknown: `raw`'s keys that `known` lacks, then, for each
/// key that is a table on both sides, the paths dropped below it.
pub open spec fn diff_paths(raw: Seq<(String, TomlNode)>, known: Seq<(String, TomlNode)>) -> Seq<Seq<Seq<char>>>
    decreases raw, 1int,
{
    top_paths(raw, known) + nested_diff(raw, known)
}

/// The dropped paths below the keys that are tables in both `raw` and
/// `known`, each under its key, in `raw`'s order.
pub open spec fn nested_diff(raw: Seq<(String, TomlNode)>, known: Seq<(String, TomlNode)>) -> Seq<Seq<Seq<char>>>
    decreases raw, 0int,
{
    if raw.len() == 0 {
        Seq::empty()
    } else {
        let k = raw.last().0;
        let below = match (entry_get(known, k@), raw.last().1) {
            (Some(TomlNode::Table(kt)), TomlNode::Table(rt)) => prefixed(k@, diff_paths(rt@, kt@)),
            _ => Seq::empty(),
        };
        nested_diff(raw.drop_last(), known) + below
    }
}


impl UnknownTree {
    /// A tree with no unknown paths.
    pub fn new() -> (t: UnknownTree)
        ensures
            t.keys@.len() == 0 && t.nested@.len() == 0,
    {
        UnknownTree { keys: Vec::new(), nested: Vec::new() }
    }

    /// Whether the tree records nothing.
    pub fn is_empty(&self) -> (r: bool)
        ensures
            r == (self.keys@.len() == 0 && self.nested@.len() == 0),
    {
        self.keys.len() == 0 && self.nested.len() == 0
    }
}

/// Walk `raw` against `known` (the schema-projected view) and record the
/// keys that exist only in `raw`, recursing into tables present on both
/// sides; a nested entry is recorded only when something below it is
/// unknown.
pub fn diff_tables(raw: &Vec<(String, TomlNode)>, known: &Vec<(String, TomlNode)>) -> (t: UnknownTree)
    ensures
        tree_paths(t) == diff_paths(raw@, known@),
    decreases raw,
{
    let mut keys: Vec<String> = Vec::new();
    let mut nested: Vec<(String, UnknownTree)> = Vec::new();
    let mut i: usize = 0;
    assert(raw@.take(0) =~= Seq::<(String, TomlNode)>::empty());
    while i < raw.len()
        invariant
            i <= raw@.len(),
            key_paths(keys@) == top_paths(raw@.take(i as int), known@),
            nested_paths(nested@) == nested_diff(raw@.take(i as int), known@),
        decreases raw.len() - i,
    {
        let ghost pre = raw@.take(i as int);
        let ghost cur = raw@.take(i + 1);
        assert(cur.drop_last() =~= pre);
        assert(cur.last() == raw@[i as int]);
        let k = to_chars(raw[i].0.as_str());
        let found = entry_get_exec(known, k.as_slice());
        match found {
            None => {
                let name = copy_string(&raw[i].0);
                let ghost old_keys = keys@;
                keys.push(name);
                assert(keys@.drop_last() =~= old_keys);
            },
            Some(TomlNode::Table(kt)) => {
                match &raw[i].1 {
                    TomlNode::Table(rt) => {
                        proof {
                            assert(decreases_to!(raw => raw@));
                            assert(decreases_to!(raw@ => raw@[i as int]));
                        }
                        let sub = diff_tables(rt, kt);
                        if !sub.is_empty() {
                            let name = copy_string(&raw[i].0);
                            let ghost old_nested = nested@;
                            nested.push((name, sub));
                            assert(nested@.drop_last() =~= old_nested);
                        } else {
                            assert(key_paths(sub.keys@) =~= Seq::empty());
                            assert(nested_paths(sub.nested@) =~= Seq::empty());
                            assert(prefixed(raw@[i as int].0@, tree_paths(sub)) =~= Seq::empty());
                            assert(nested_diff(pre, known@) + Seq::empty() =~= nested_diff(pre, known@));
                        }
                    },
                    TomlNode::Value => {
                        assert(nested_diff(pre, known@) + Seq::empty() =~= nested_diff(pre, known@));
                    },
                }
            },
            Some(TomlNode::Value) => {
                assert(nested_diff(pre, known@) + Seq::empty() =~= nested_diff(pre, known@));
            },
        }
        i = i + 1;
    }
    assert(raw@.take(raw@.len() as int) =~= raw@);
    UnknownTree { keys, nested }
}


/// Adding an entry after the others changes a lookup only for a key that
/// was missing.
proof fn lemma_entry_get_push(es: Seq<(String, TomlNode)>, x: (String, TomlNode), k: Seq<char>)
    ensures
        entry_get(es.push(x), k) == (if entry_get(es, k) is Some {
            entry_get(es, k)
        } else if x.0@ == k {
            Some(x.1)
        } else {
            None
        }),
    decreases es.len(),
{
    if es.len() > 0 {
        assert(es.push(x)[0] == es[0]);
        assert(es.push(x).drop_first() =~= es.drop_first().push(x));
        lemma_entry_get_push(es.drop_first(), x, k);
    } else {
        assert(es.push(x)[0] == x);
        assert(es.push(x).drop_first() =~= Seq::<(String, TomlNode)>::empty());
        assert(entry_get(es.push(x).drop_first(), k) is None);
    }
}

proof fn lemma_take_next_contains(keys: Seq<Seq<char>>, i: int, q: Seq<char>)
    requires
        0 <= i < keys.len(),
    ensures
        keys.take(i + 1).contains(q) == (keys.take(i).contains(q) || q == keys[i]),
{
    broadcast use vstd::seq_lib::group_seq_properties;
    assert(keys.take(i + 1) =~= keys.take(i).push(keys[i]));
}

/// How a key reads in `known` once every schema key is present: as in
/// `known`, else as an empty table when the schema lists it.
pub open spec fn seeded_lookup_ok(
    known: Seq<(String, TomlNode)>,
    schema_keys: Seq<Seq<char>>,
    seeded: Seq<(String, TomlNode)>,
) -> bool {
    forall|k: Seq<char>|
        #![trigger entry_get(seeded, k)]
        match entry_get(known, k) {
            Some(n) => entry_get(seeded, k) == Some(n),
            None => if schema_keys.contains(k) {
                entry_get(seeded, k) matches Some(TomlNode::Table(v)) && v@.len() == 0
            } else {
                entry_get(seeded, k) is None
            },
        }
}

/// Seed `reserialized` with every schema key as an empty table, so that a
/// valid section that serialized away counts as known.
pub fn seed_schema_skeleton(reserialized: &mut Vec<(String, TomlNode)>, schema: &ConfigSchema)
    ensures
        seeded_lookup_ok(old(reserialized)@, sviews(schema.valid_keys@), final(reserialized)@),
{
    let ghost start = reserialized@;
    let ghost keys = sviews(schema.valid_keys@);
    let mut i: usize = 0;
    assert(keys.take(0) =~= Seq::<Seq<char>>::empty());
    while i < schema.valid_keys.len()
        invariant
            i <= schema.valid_keys@.len(),
            keys == sviews(schema.valid_keys@),
            seeded_lookup_ok(start, keys.take(i as int), reserialized@),
        decreases schema.valid_keys.len() - i,
    {
        let k = to_chars(schema.valid_keys[i].as_str());
        assert forall|q: Seq<char>| true implies #[trigger] keys.take(i + 1).contains(q)
            == (keys.take(i as int).contains(q) || q == keys[i as int]) by {
            lemma_take_next_contains(keys, i as int, q);
        }
        let ghost before = reserialized@;
        if entry_get_exec(reserialized, k.as_slice()).is_none() {
            let entry = (copy_string(&schema.valid_keys[i]), TomlNode::Table(Vec::new()));
            reserialized.push(entry);
            assert forall|q: Seq<char>| #![trigger entry_get(reserialized@, q)]
                true implies entry_get(reserialized@, q) == (if entry_get(before, q) is Some {
                    entry_get(before, q)
                } else if entry.0@ == q {
                    Some(entry.1)
                } else {
                    None
                }) by {
                lemma_entry_get_push(before, entry, q);
            }
        } else {
        }
        i = i + 1;
    }
    assert(keys.take(keys.len() as int) =~= keys);
}


/// `top_paths` against `known` once every schema key is present.
pub open spec fn seeded_top(raw: Seq<(String, TomlNode)>, known: Seq<(String, TomlNode)>, schema_keys: Seq<Seq<char>>) -> Seq<Seq<Seq<char>>>
    decreases raw.len(),
{
    if raw.len() == 0 {
        Seq::empty()
    } else {
        let k = raw.last().0@;
        let prev = seeded_top(raw.drop_last(), known, schema_keys);
        if entry_get(known, k) is None && !schema_keys.contains(k) {
            prev.push(seq![k])
        } else {
            prev
        }
    }
}

/// `nested_diff` against `known` once every schema key is present: below a
/// schema key that `known` lacks, every key of the raw table is unknown.
pub open spec fn seeded_nested(raw: Seq<(String, TomlNode)>, known: Seq<(String, TomlNode)>, schema_keys: Seq<Seq<char>>) -> Seq<Seq<Seq<char>>>
    decreases raw.len(),
{
    if raw.len() == 0 {
        Seq::empty()
    } else {
        let k = raw.last().0@;
        let below = match (entry_get(known, k), raw.last().1) {
            (Some(TomlNode::Table(kt)), TomlNode::Table(rt)) => prefixed(k, diff_paths(rt@, kt@)),
            (None, TomlNode::Table(rt)) => if schema_keys.contains(k) {
                prefixed(k, diff_paths(rt@, Seq::empty()))
            } else {
                Seq::empty()
            },
            _ => Seq::empty(),
        };
        seeded_nested(raw.drop_last(), known, schema_keys) + below
    }
}

/// The schema-unknown paths of `raw` given its reserialized form `known`:
/// every path of `raw` that `known` drops, where a top-level key of the
/// schema counts as present (as an empty table) even when `known` lacks it.
pub open spec fn schema_diff_paths(raw: Seq<(String, TomlNode)>, known: Seq<(String, TomlNode)>, schema_keys: Seq<Seq<char>>) -> Seq<Seq<Seq<char>>> {
    seeded_top(raw, known, schema_keys) + seeded_nested(raw, known, schema_keys)
}

proof fn lemma_seeded_diff(raw: Seq<(String, TomlNode)>, known: Seq<(String, TomlNode)>, schema_keys: Seq<Seq<char>>, seeded: Seq<(String, TomlNode)>)
    requires
        seeded_lookup_ok(known, schema_keys, seeded),
    ensures
        top_paths(raw, seeded) == seeded_top(raw, known, schema_keys),
        nested_diff(raw, seeded) == seeded_nested(raw, known, schema_keys),
    decreases raw.len(),
{
    if raw.len() > 0 {
        let k = raw.last().0@;
        lemma_seeded_diff(raw.drop_last(), known, schema_keys, seeded);
        assert(entry_get(seeded, k) == entry_get(seeded, k));
        match (entry_get(known, k), raw.last().1) {
            (None, TomlNode::Table(rt)) => {
                if schema_keys.contains(k) {
                    let v = entry_get(seeded, k)->0->Table_0;
                    assert(v@ =~= Seq::<(String, TomlNode)>::empty());
                }
            },
            _ => {},
        }
    }
}

/// The schema-unknown tree of a config file, from its parsed contents
/// (`None` when they did not parse) and its contents as parsed into the
/// config type and serialized again (`None` when they did not fit the
/// type): no tree unless both are there.
pub fn compute_unknown_tree(
    raw: Option<&Vec<(String, TomlNode)>>,
    reserialized: Option<Vec<(String, TomlNode)>>,
    schema: &ConfigSchema,
) -> (r: Option<UnknownTree>)
    ensures
        (raw is None || reserialized is None) ==> r is None,
        raw matches Some(rw) ==> (reserialized matches Some(rs) ==> (r matches Some(t)
            && tree_paths(t) == schema_diff_paths(rw@, rs@, sviews(schema.valid_keys@)))),
{
    match (raw, reserialized) {
        (Some(rw), Some(rs)) => {
            let ghost start = rs@;
            let mut known = rs;
            seed_schema_skeleton(&mut known, schema);
            proof {
                lemma_seeded_diff(rw@, start, sviews(schema.valid_keys@), known@);
            }
            Some(diff_tables(rw, &known))
        },
        _ => None,
    }
}


/// One unknown-key finding; callers word the message.
#[derive(Debug)]
pub enum UnknownWarning {
    /// A top-level key that no schema knows.
    TopLevelUnknown { key: String },
    /// A top-level key that is valid in the other config type.
    TopLevelWrongConfig { key: String, other_description: String },
    /// A deprecated top-level key whose replacement belongs in the other
    /// config type.
    TopLevelDeprecatedWrongConfig { key: String, other_description: String, canonical_display: String },
    /// A nested key that belongs in the other config type.
    NestedWrongConfig { path: String, other_description: String },
    /// An unknown path below a valid top-level key (a typo).
    NestedUnknown { path: String },
}

/// An [`UnknownWarning`] as the contracts see it.
pub enum WarningView {
    TopLevelUnknown(Seq<char>),
    TopLevelWrongConfig(Seq<char>, Seq<char>),
    TopLevelDeprecatedWrongConfig(Seq<char>, Seq<char>, Seq<char>),
    NestedWrongConfig(Seq<char>, Seq<char>),
    NestedUnknown(Seq<char>),
}

impl View for UnknownWarning {
    type V = WarningView;

    open spec fn view(&self) -> WarningView {
        match self {
            UnknownWarning::TopLevelUnknown { key } => WarningView::TopLevelUnknown(key@),
            UnknownWarning::TopLevelWrongConfig { key, other_description } => WarningView::TopLevelWrongConfig(
                key@,
                other_description@,
            ),
            UnknownWarning::TopLevelDeprecatedWrongConfig { key, other_description, canonical_display } =>
                WarningView::TopLevelDeprecatedWrongConfig(key@, other_description@, canonical_display@),
            UnknownWarning::NestedWrongConfig { path, other_description } => WarningView::NestedWrongConfig(
                path@,
                other_description@,
            ),
            UnknownWarning::NestedUnknown { path } => WarningView::NestedUnknown(path@),
        }
    }
}

/// The views of a sequence of warnings.
pub open spec fn warning_views(ws: Seq<UnknownWarning>) -> Seq<WarningView> {
    ws.map_values(|w: UnknownWarning| w@)
}

/// Where a walk over one config's unknown tree stands in the other config's
/// unknown tree: below a section that is absent or wholly unknown there, or
/// inside a section that exists there, with its node in the other tree
/// (`None` once nothing below is unknown there).
#[derive(Debug, Clone, Copy)]
pub enum OtherStatus<'a> {
    UnknownSection,
    Known(Option<&'a UnknownTree>),
}

/// An [`OtherStatus`] as the contracts see it.
pub enum OtherView {
    UnknownSection,
    Known(Option<UnknownTree>),
}

impl<'a> View for OtherStatus<'a> {
    type V = OtherView;

    open spec fn view(&self) -> OtherView {
        match self {
            OtherStatus::UnknownSection => OtherView::UnknownSection,
            OtherStatus::Known(None) => OtherView::Known(None),
            OtherStatus::Known(Some(t)) => OtherView::Known(Some(**t)),
        }
    }
}

/// The subtree recorded under `key` (the first such entry).
pub open spec fn nested_get(ns: Seq<(String, UnknownTree)>, key: Seq<char>) -> Option<UnknownTree>
    decreases ns.len(),
{
    if ns.len() == 0 {
        None
    } else if ns[0].0@ == key {
        Some(ns[0].1)
    } else {
        nested_get(ns.drop_first(), key)
    }
}

fn nested_get_exec<'a>(ns: &'a Vec<(String, UnknownTree)>, key: &[char]) -> (r: Option<&'a UnknownTree>)
    ensures
        match r {
            Some(t) => nested_get(ns@, key@) == Some(*t),
            None => nested_get(ns@, key@) is None,
        },
{
    let mut j: usize = 0;
    assert(ns@.skip(0) =~= ns@);
    while j < ns.len()
        invariant
            j <= ns@.len(),
            nested_get(ns@, key@) == nested_get(ns@.skip(j as int), key@),
        decreases ns.len() - j,
    {
        assert(ns@.skip(j as int).drop_first() =~= ns@.skip(j + 1));
        let k = to_chars(ns[j].0.as_str());
        if eq_chars(k.as_slice(), key) {
            return Some(&ns[j].1);
        }
        j = j + 1;
    }
    None
}

fn keys_contain(keys: &Vec<String>, key: &[char]) -> (r: bool)
    ensures
        r == sviews(keys@).contains(key@),
{
    let mut j: usize = 0;
    while j < keys.len()
        invariant
            j <= keys@.len(),
            forall|q: int| 0 <= q < j ==> sviews(keys@)[q] != key@,
        decreases keys.len() - j,
    {
        let k = to_chars(keys[j].as_str());
        if eq_chars(k.as_slice(), key) {
            assert(sviews(keys@)[j as int] == key@);
            return true;
        }
        j = j + 1;
    }
    false
}

/// Whether `key` at this level is valid in the other config.
pub open spec fn valid_in_other(o: OtherView, key: Seq<char>) -> bool {
    match o {
        OtherView::UnknownSection => false,
        OtherView::Known(None) => true,
        OtherView::Known(Some(node)) => !sviews(node.keys@).contains(key),
    }
}

/// The status below `key`.
pub open spec fn descend_spec(o: OtherView, key: Seq<char>) -> OtherView {
    match o {
        OtherView::UnknownSection => OtherView::UnknownSection,
        OtherView::Known(None) => OtherView::Known(None),
        OtherView::Known(Some(node)) => if sviews(node.keys@).contains(key) {
            OtherView::UnknownSection
        } else {
            OtherView::Known(nested_get(node.nested@, key))
        },
    }
}

impl<'a> OtherStatus<'a> {
    /// Whether `key` at the current level is valid in the other config.
    pub fn key_is_valid_in_other(self, key: &str) -> (r: bool)
        ensures
            r == valid_in_other(self@, key@),
    {
        match self {
            OtherStatus::UnknownSection => false,
            OtherStatus::Known(None) => true,
            OtherStatus::Known(Some(node)) => {
                let k = to_chars(key);
                !keys_contain(&node.keys, k.as_slice())
            },
        }
    }

    /// The status for `key`'s children.
    pub fn descend(self, key: &str) -> (r: OtherStatus<'a>)
        ensures
            r@ == descend_spec(self@, key@),
    {
        match self {
            OtherStatus::UnknownSection => OtherStatus::UnknownSection,
            OtherStatus::Known(None) => OtherStatus::Known(None),
            OtherStatus::Known(Some(node)) => {
                let k = to_chars(key);
                if keys_contain(&node.keys, k.as_slice()) {
                    OtherStatus::UnknownSection
                } else {
                    OtherStatus::Known(nested_get_exec(&node.nested, k.as_slice()))
                }
            },
        }
    }
}


/// `prefix.key`.
pub open spec fn dotted(prefix: Seq<char>, key: Seq<char>) -> Seq<char> {
    prefix + seq!['.'] + key
}

/// The warning for an unknown `key` at `path`: it belongs in the other
/// config when it is one of the user-only `[commit.generation]` keys or is
/// valid there; otherwise it is unknown.
pub open spec fn nested_warning(path: Seq<char>, key: Seq<char>, other: OtherView, os: ConfigSchema) -> WarningView {
    if user_only_paths().contains(path) || valid_in_other(other, key) {
        WarningView::NestedWrongConfig(path, os.description@)
    } else {
        WarningView::NestedUnknown(path)
    }
}

/// The warnings for a tree's own unknown keys under `prefix`.
pub open spec fn key_warnings(keys: Seq<String>, prefix: Seq<char>, other: OtherView, os: ConfigSchema) -> Seq<WarningView>
    decreases keys.len(),
{
    if keys.len() == 0 {
        Seq::empty()
    } else {
        let k = keys.last()@;
        key_warnings(keys.drop_last(), prefix, other, os).push(nested_warning(dotted(prefix, k), k, other, os))
    }
}

/// The warnings for a tree below `prefix`: its own keys, then each nested
/// entry's warnings under `prefix.key`, walking the other config's tree
/// alongside.
pub open spec fn walk_spec(t: UnknownTree, prefix: Seq<char>, other: OtherView, os: ConfigSchema) -> Seq<WarningView>
    decreases t,
{
    key_warnings(t.keys@, prefix, other, os) + nested_walk(t.nested@, prefix, other, os)
}

/// The warnings for nested entries below `prefix`.
pub open spec fn nested_walk(ns: Seq<(String, UnknownTree)>, prefix: Seq<char>, other: OtherView, os: ConfigSchema) -> Seq<WarningView>
    decreases ns,
{
    if ns.len() == 0 {
        Seq::empty()
    } else {
        let k = ns.last().0@;
        nested_walk(ns.drop_last(), prefix, other, os) + walk_spec(ns.last().1, dotted(prefix, k), descend_spec(other, k), os)
    }
}

fn dotted_exec(prefix: &str, key: &str) -> (r: String)
    ensures
        r@ == dotted(prefix@, key@),
{
    let mut v = to_chars(prefix);
    v.push('.');
    append_str(&mut v, key);
    from_chars(v.as_slice())
}

fn walk_nested(tree: &UnknownTree, prefix: &str, other: OtherStatus, os: &ConfigSchema, out: &mut Vec<UnknownWarning>)
    ensures
        warning_views(final(out)@) == warning_views(old(out)@) + walk_spec(*tree, prefix@, other@, *os),
    decreases tree,
{
    let ghost start = warning_views(out@);
    let mut i: usize = 0;
    assert(tree.keys@.take(0) =~= Seq::<String>::empty());
    assert(warning_views(out@) =~= start + key_warnings(tree.keys@.take(0), prefix@, other@, *os));
    while i < tree.keys.len()
        invariant
            i <= tree.keys@.len(),
            warning_views(out@) == start + key_warnings(tree.keys@.take(i as int), prefix@, other@, *os),
        decreases tree.keys.len() - i,
    {
        let key = tree.keys[i].as_str();
        let path = dotted_exec(prefix, key);
        let belongs = match nested_key_belongs_in(path.as_str(), os) {
            Some(d) => Some(d),
            None => if other.key_is_valid_in_other(key) {
                Some(copy_string(&os.description))
            } else {
                None
            },
        };
        let w = match belongs {
            Some(other_description) => UnknownWarning::NestedWrongConfig { path, other_description },
            None => UnknownWarning::NestedUnknown { path },
        };
        assert(w@ == nested_warning(dotted(prefix@, tree.keys@[i as int]@), tree.keys@[i as int]@, other@, *os));
        let ghost before = out@;
        out.push(w);
        assert(tree.keys@.take(i + 1).drop_last() =~= tree.keys@.take(i as int));
        assert(warning_views(out@) =~= warning_views(before).push(w@));
        i = i + 1;
    }
    assert(tree.keys@.take(tree.keys@.len() as int) =~= tree.keys@);
    let ghost mid = warning_views(out@);
    let mut j: usize = 0;
    assert(tree.nested@.take(0) =~= Seq::<(String, UnknownTree)>::empty());
    assert(mid =~= mid + nested_walk(tree.nested@.take(0), prefix@, other@, *os));
    while j < tree.nested.len()
        invariant
            j <= tree.nested@.len(),
            warning_views(out@) == mid + nested_walk(tree.nested@.take(j as int), prefix@, other@, *os),
        decreases tree.nested.len() - j,
    {
        let key = tree.nested[j].0.as_str();
        let path = dotted_exec(prefix, key);
        let below = other.descend(key);
        proof {
            assert(decreases_to!(tree => tree.nested));
            assert(decreases_to!(tree.nested => tree.nested@));
            assert(decreases_to!(tree.nested@ => tree.nested@[j as int]));
        }
        walk_nested(&tree.nested[j].1, path.as_str(), below, os, out);
        assert(tree.nested@.take(j + 1).drop_last() =~= tree.nested@.take(j as int));
        j = j + 1;
    }
    assert(tree.nested@.take(tree.nested@.len() as int) =~= tree.nested@);
}


/// Whether the deprecated section `key` still carries config after
/// migration: a non-empty table, or a value that is not a table.
pub open spec fn declined(migrated: Seq<(String, TomlNode)>, key: Seq<char>) -> bool {
    match entry_get(migrated, key) {
        Some(TomlNode::Table(t)) => t@.len() > 0,
        Some(TomlNode::Value) => true,
        None => false,
    }
}

fn deprecated_key_declined(migrated: &Vec<(String, TomlNode)>, key: &str) -> (r: bool)
    ensures
        r == declined(migrated@, key@),
{
    let k = to_chars(key);
    match entry_get_exec(migrated, k.as_slice()) {
        Some(TomlNode::Table(t)) => t.len() > 0,
        Some(TomlNode::Value) => true,
        None => false,
    }
}

/// The warning for an unknown top-level key: a deprecated section is left
/// to the deprecation warnings where its replacement is valid (unless the
/// migration declined it, when it reads as unknown) and redirected where it
/// is not; a key valid in the other config is redirected; anything else is
/// unknown.
pub open spec fn top_warning(key: Seq<char>, migrated: Seq<(String, TomlNode)>, this: ConfigSchema, other: ConfigSchema) -> Option<WarningView> {
    match find_deprecated(key) {
        Some(d) => if schema_has(this, d.1) {
            if declined(migrated, key) {
                Some(WarningView::TopLevelUnknown(key))
            } else {
                None
            }
        } else {
            Some(WarningView::TopLevelDeprecatedWrongConfig(key, other.description@, d.2))
        },
        None => if schema_has(other, key) {
            Some(WarningView::TopLevelWrongConfig(key, other.description@))
        } else {
            Some(WarningView::TopLevelUnknown(key))
        },
    }
}

/// The top-level warnings, in key order.
pub open spec fn top_warnings(keys: Seq<String>, migrated: Seq<(String, TomlNode)>, this: ConfigSchema, other: ConfigSchema) -> Seq<WarningView>
    decreases keys.len(),
{
    if keys.len() == 0 {
        Seq::empty()
    } else {
        let prev = top_warnings(keys.drop_last(), migrated, this, other);
        match top_warning(keys.last()@, migrated, this, other) {
            Some(w) => prev.push(w),
            None => prev,
        }
    }
}

/// The nested warnings: for each valid top-level key with unknown children
/// in the migrated tree, the walk below it.
pub open spec fn nested_warnings(ns: Seq<(String, UnknownTree)>, root: OtherView, this: ConfigSchema, other: ConfigSchema) -> Seq<WarningView>
    decreases ns.len(),
{
    if ns.len() == 0 {
        Seq::empty()
    } else {
        let k = ns.last().0@;
        let prev = nested_warnings(ns.drop_last(), root, this, other);
        if schema_has(this, k) {
            prev + walk_spec(ns.last().1, k, descend_spec(root, k), other)
        } else {
            prev
        }
    }
}

/// Where the walk starts in the other config's tree: at its root when the
/// content parses as the other config type, else nowhere.
pub open spec fn other_root(other_tree: Option<UnknownTree>) -> OtherView {
    match other_tree {
        Some(t) => OtherView::Known(Some(t)),
        None => OtherView::UnknownSection,
    }
}

/// The unknown-key warnings of a config file of schema `this` (whose other
/// config type has schema `other`): top-level keys are classified from the
/// raw file's tree, nested paths from the migrated file's tree, each nested
/// key redirected to the other config when it is valid there (read off the
/// migrated content's tree as the other type). No warnings unless both trees
/// are there.
pub open spec fn collect_spec(
    raw_tree: Option<UnknownTree>,
    migrated_tree: Option<UnknownTree>,
    migrated_root: Seq<(String, TomlNode)>,
    other_tree: Option<UnknownTree>,
    this: ConfigSchema,
    other: ConfigSchema,
) -> Seq<WarningView> {
    match (raw_tree, migrated_tree) {
        (Some(rt), Some(mt)) => top_warnings(rt.keys@, migrated_root, this, other) + nested_warnings(
            mt.nested@,
            other_root(other_tree),
            this,
            other,
        ),
        _ => Seq::empty(),
    }
}

pub open spec fn opt_tree(t: Option<&UnknownTree>) -> Option<UnknownTree> {
    match t {
        Some(x) => Some(*x),
        None => None,
    }
}

/// Collect the unknown-key warnings of a config file (see [`collect_spec`]):
/// `raw_tree` and `migrated_tree` are the unknown trees of the file and of
/// its migrated content under this config type, `migrated_root` the migrated
/// content's top-level table, and `other_tree` the migrated content's
/// unknown tree under the other config type.
pub fn collect_unknown_warnings(
    raw_tree: Option<&UnknownTree>,
    migrated_tree: Option<&UnknownTree>,
    migrated_root: &Vec<(String, TomlNode)>,
    other_tree: Option<&UnknownTree>,
    this: &ConfigSchema,
    other: &ConfigSchema,
) -> (r: Vec<UnknownWarning>)
    ensures
        warning_views(r@) == collect_spec(
            opt_tree(raw_tree),
            opt_tree(migrated_tree),
            migrated_root@,
            opt_tree(other_tree),
            *this,
            *other,
        ),
{
    let rt = match raw_tree {
        Some(t) => t,
        None => return Vec::new(),
    };
    let mt = match migrated_tree {
        Some(t) => t,
        None => return Vec::new(),
    };
    let root = match other_tree {
        Some(t) => OtherStatus::Known(Some(t)),
        None => OtherStatus::UnknownSection,
    };
    let mut out: Vec<UnknownWarning> = Vec::new();
    let mut i: usize = 0;
    assert(rt.keys@.take(0) =~= Seq::<String>::empty());
    assert(warning_views(out@) =~= Seq::<WarningView>::empty());
    while i < rt.keys.len()
        invariant
            i <= rt.keys@.len(),
            warning_views(out@) == top_warnings(rt.keys@.take(i as int), migrated_root@, *this, *other),
        decreases rt.keys.len() - i,
    {
        let key = rt.keys[i].as_str();
        assert(rt.keys@.take(i + 1).drop_last() =~= rt.keys@.take(i as int));
        let ghost before = out@;
        let w = match classify_unknown_key(key, this, other) {
            UnknownKeyKind::DeprecatedHandled => if deprecated_key_declined(migrated_root, key) {
                Some(UnknownWarning::TopLevelUnknown { key: copy_string(&rt.keys[i]) })
            } else {
                None
            },
            UnknownKeyKind::DeprecatedWrongConfig { other_description, canonical_display } => Some(
                UnknownWarning::TopLevelDeprecatedWrongConfig {
                    key: copy_string(&rt.keys[i]),
                    other_description,
                    canonical_display,
                },
            ),
            UnknownKeyKind::WrongConfig { other_description } => Some(
                UnknownWarning::TopLevelWrongConfig { key: copy_string(&rt.keys[i]), other_description },
            ),
            UnknownKeyKind::Unknown => Some(UnknownWarning::TopLevelUnknown { key: copy_string(&rt.keys[i]) }),
        };
        match w {
            Some(w) => {
                assert(top_warning(rt.keys@[i as int]@, migrated_root@, *this, *other) == Some(w@));
                out.push(w);
                assert(warning_views(out@) =~= warning_views(before).push(w@));
            },
            None => {
                assert(top_warning(rt.keys@[i as int]@, migrated_root@, *this, *other) is None);
            },
        }
        i = i + 1;
    }
    assert(rt.keys@.take(rt.keys@.len() as int) =~= rt.keys@);
    let ghost top = warning_views(out@);
    let mut j: usize = 0;
    assert(mt.nested@.take(0) =~= Seq::<(String, UnknownTree)>::empty());
    assert(top =~= top + nested_warnings(mt.nested@.take(0), root@, *this, *other));
    while j < mt.nested.len()
        invariant
            j <= mt.nested@.len(),
            warning_views(out@) == top + nested_warnings(mt.nested@.take(j as int), root@, *this, *other),
        decreases mt.nested.len() - j,
    {
        let key = mt.nested[j].0.as_str();
        assert(mt.nested@.take(j + 1).drop_last() =~= mt.nested@.take(j as int));
        let k = to_chars(key);
        if schema_has_exec(this, k.as_slice()) {
            let below = root.descend(key);
            walk_nested(&mt.nested[j].1, key, below, other, &mut out);
        }
        j = j + 1;
    }
    assert(mt.nested@.take(mt.nested@.len() as int) =~= mt.nested@);
    out
}


/// Whether no table, at any depth, has two entries with the same key (as
/// TOML requires of a parsed document).
pub open spec fn keys_distinct(es: Seq<(String, TomlNode)>) -> bool
    decreases es,
{
    if es.len() == 0 {
        true
    } else {
        &&& keys_distinct(es.drop_last())
        &&& entry_get(es.drop_last(), es.last().0@) is None
        &&& match es.last().1 {
            TomlNode::Table(t) => keys_distinct(t@),
            TomlNode::Value => true,
        }
    }
}

proof fn lemma_distinct_lookup(es: Seq<(String, TomlNode)>, j: int)
    requires
        keys_distinct(es),
        0 <= j < es.len(),
    ensures
        entry_get(es, es[j].0@) == Some(es[j].1),
        es[j].1 matches TomlNode::Table(t) ==> keys_distinct(t@),
    decreases es.len(),
{
    let init = es.drop_last();
    assert(init.push(es.last()) =~= es);
    lemma_entry_get_push(init, es.last(), es[j].0@);
    if j < es.len() - 1 {
        lemma_distinct_lookup(init, j);
        assert(init[j] == es[j]);
    }
}

proof fn lemma_prefix_known(es: Seq<(String, TomlNode)>, i: int)
    requires
        keys_distinct(es),
        0 <= i <= es.len(),
    ensures
        top_paths(es.take(i), es) == Seq::<Seq<Seq<char>>>::empty(),
        nested_diff(es.take(i), es) == Seq::<Seq<Seq<char>>>::empty(),
    decreases es, 0int, i,
{
    if i > 0 {
        lemma_prefix_known(es, i - 1);
        let p = es.take(i);
        assert(p.drop_last() =~= es.take(i - 1));
        assert(p.last() == es[i - 1]);
        lemma_distinct_lookup(es, i - 1);
        match es[i - 1].1 {
            TomlNode::Table(t) => {
                assert(decreases_to!(es => es[i - 1]));
                lemma_diff_self(t@);
                assert(prefixed(es[i - 1].0@, diff_paths(t@, t@)) =~= Seq::<Seq<Seq<char>>>::empty());
            },
            TomlNode::Value => {},
        }
        assert(nested_diff(es.take(i - 1), es) + Seq::<Seq<Seq<char>>>::empty() =~= Seq::<Seq<Seq<char>>>::empty());
    } else {
        assert(es.take(0) =~= Seq::<(String, TomlNode)>::empty());
    }
}

/// A document diffed against itself has no unknown paths: when the
/// reserialized config keeps every key of the file, nothing is flagged.
pub proof fn lemma_diff_self(es: Seq<(String, TomlNode)>)
    requires
        keys_distinct(es),
    ensures
        diff_paths(es, es) == Seq::<Seq<Seq<char>>>::empty(),
    decreases es, 1int, 0int,
{
    lemma_prefix_known(es, es.len() as int);
    assert(es.take(es.len() as int) =~= es);
}

} // verus!
