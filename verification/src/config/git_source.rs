//! Project configuration carried in git config (`worktrunk.config.*` keys):
//! the nested table that the dotted key paths describe.

use vstd::prelude::*;
use crate::text::{append_chars, append_str, from_chars, split_chars, split_seq, string_of, to_chars, vviews};

verus! {

/// A project-config value built from git config: a string leaf, or a table
/// of entries.
#[derive(Debug)]
pub enum GitConfigValue {
    Str(String),
    Table(Vec<(String, GitConfigValue)>),
}

/// A value as the contracts see it: a string, or a map from keys to values.
pub enum ConfigTree {
    Leaf(Seq<char>),
    Node(Map<Seq<char>, ConfigTree>),
}

/// The mathematical value of a [`GitConfigValue`].
pub open spec fn value_view(v: GitConfigValue) -> ConfigTree
    decreases v,
{
    match v {
        GitConfigValue::Str(s) => ConfigTree::Leaf(s@),
        GitConfigValue::Table(es) => ConfigTree::Node(entries_view(es@)),
    }
}

/// The map that table entries describe (a later entry for a key wins).
pub open spec fn entries_view(es: Seq<(String, GitConfigValue)>) -> Map<Seq<char>, ConfigTree>
    decreases es,
{
    if es.len() == 0 {
        Map::empty()
    } else {
        entries_view(es.drop_last()).insert(es.last().0@, value_view(es.last().1))
    }
}


/// The git config namespace whose keys are project-config key paths.
pub const GIT_CONFIG_PREFIX: &'static str = "worktrunk.config.";

/// How the git-config source is named wherever a config origin is shown.
pub const GIT_CONFIG_SOURCE_LABEL: &'static str = "git config (worktrunk.config.*)";

/// The command that lists every active key of the namespace with its scope
/// and origin file.
pub const GIT_CONFIG_LIST_COMMAND: &'static str =
    "git config --show-scope --show-origin --get-regexp '^worktrunk\\.config\\.'";

/// Whether no table, at any depth, repeats a key.
pub open spec fn well_keyed(es: Seq<(String, GitConfigValue)>) -> bool
    decreases es,
{
    if es.len() == 0 {
        true
    } else {
        &&& well_keyed(es.drop_last())
        &&& !entries_view(es.drop_last()).contains_key(es.last().0@)
        &&& match es.last().1 {
            GitConfigValue::Table(t) => well_keyed(t@),
            GitConfigValue::Str(_) => true,
        }
    }
}

/// Whether a value's tables, at any depth, repeat no key.
pub open spec fn value_well_keyed(v: GitConfigValue) -> bool {
    match v {
        GitConfigValue::Table(t) => well_keyed(t@),
        GitConfigValue::Str(_) => true,
    }
}

proof fn lemma_view_at(es: Seq<(String, GitConfigValue)>, j: int)
    requires
        well_keyed(es),
        0 <= j < es.len(),
    ensures
        entries_view(es).contains_key(es[j].0@),
        entries_view(es)[es[j].0@] == value_view(es[j].1),
        value_well_keyed(es[j].1),
    decreases es.len(),
{
    if j < es.len() - 1 {
        lemma_view_at(es.drop_last(), j);
        assert(es.drop_last()[j] == es[j]);
    }
}

proof fn lemma_view_absent(es: Seq<(String, GitConfigValue)>, k: Seq<char>)
    requires
        forall|q: int| 0 <= q < es.len() ==> (#[trigger] es[q]).0@ != k,
    ensures
        !entries_view(es).contains_key(k),
    decreases es.len(),
{
    if es.len() > 0 {
        assert forall|q: int| 0 <= q < es.drop_last().len() implies (#[trigger] es.drop_last()[q]).0@ != k by {
            assert(es.drop_last()[q] == es[q]);
        }
        lemma_view_absent(es.drop_last(), k);
        assert(es[es.len() - 1].0@ != k);
    }
}

proof fn lemma_view_update(es: Seq<(String, GitConfigValue)>, j: int, x: (String, GitConfigValue))
    requires
        well_keyed(es),
        0 <= j < es.len(),
        x.0@ == es[j].0@,
        value_well_keyed(x.1),
    ensures
        well_keyed(es.update(j, x)),
        entries_view(es.update(j, x)) == entries_view(es).insert(x.0@, value_view(x.1)),
    decreases es.len(),
{
    let u = es.update(j, x);
    if j == es.len() - 1 {
        assert(u.drop_last() =~= es.drop_last());
        assert(u.last() == x);
        assert(entries_view(u) =~= entries_view(es).insert(x.0@, value_view(x.1)));
    } else {
        let init = es.drop_last();
        assert(u.drop_last() =~= init.update(j, x));
        assert(u.last() == es.last());
        assert(init[j] == es[j]);
        lemma_view_update(init, j, x);
        lemma_view_at(init, j);
        assert(es.last().0@ != x.0@);
        assert(entries_view(u) =~= entries_view(es).insert(x.0@, value_view(x.1)));
    }
}

proof fn lemma_view_push(es: Seq<(String, GitConfigValue)>, x: (String, GitConfigValue))
    requires
        well_keyed(es),
        !entries_view(es).contains_key(x.0@),
        value_well_keyed(x.1),
    ensures
        well_keyed(es.push(x)),
        entries_view(es.push(x)) == entries_view(es).insert(x.0@, value_view(x.1)),
{
    assert(es.push(x).drop_last() =~= es);
    assert(es.push(x).last() == x);
}

/// Where inserting a dotted path into a table stops: `Err(-1)` when the
/// final key is already set, `Err(d)` when the value at the `d`-th segment
/// is a string where a table is needed; otherwise the table with the
/// string at the path, creating the missing tables along it.
pub open spec fn insert_model(m: Map<Seq<char>, ConfigTree>, segs: Seq<Seq<char>>, value: Seq<char>) -> Result<Map<Seq<char>, ConfigTree>, int>
    decreases segs.len(),
{
    if segs.len() <= 1 {
        if m.contains_key(segs[0]) {
            Err(-1)
        } else {
            Ok(m.insert(segs[0], ConfigTree::Leaf(value)))
        }
    } else {
        let sub = if m.contains_key(segs[0]) {
            m[segs[0]]
        } else {
            ConfigTree::Node(Map::empty())
        };
        match sub {
            ConfigTree::Leaf(_) => Err(0),
            ConfigTree::Node(sm) => match insert_model(sm, segs.drop_first(), value) {
                Ok(sm2) => Ok(m.insert(segs[0], ConfigTree::Node(sm2))),
                Err(d) => Err(if d < 0 {
                    d
                } else {
                    d + 1
                }),
            },
        }
    }
}

/// Why a path could not be inserted.
pub enum Conflict {
    /// The value at this segment (an index into the path) is a string.
    ValueAt(usize),
    /// The final key is already set.
    Taken,
}

fn find_key(entries: &Vec<(String, GitConfigValue)>, key: &[char]) -> (r: Option<usize>)
    ensures
        match r {
            Some(j) => j < entries@.len() && entries@[j as int].0@ == key@,
            None => forall|q: int| 0 <= q < entries@.len() ==> (#[trigger] entries@[q]).0@ != key@,
        },
{
    let mut j: usize = 0;
    while j < entries.len()
        invariant
            j <= entries@.len(),
            forall|q: int| 0 <= q < j ==> (#[trigger] entries@[q]).0@ != key@,
        decreases entries.len() - j,
    {
        let k = to_chars(entries[j].0.as_str());
        if crate::text::eq_chars(k.as_slice(), key) {
            return Some(j);
        }
        j = j + 1;
    }
    None
}

fn insert_segments(entries: Vec<(String, GitConfigValue)>, segs: &Vec<Vec<char>>, i: usize, value: &str) -> (r: Result<Vec<(String, GitConfigValue)>, Conflict>)
    requires
        i < segs@.len(),
        well_keyed(entries@),
    ensures
        match insert_model(entries_view(entries@), vviews(segs@).skip(i as int), value@) {
            Ok(m) => r matches Ok(es) && well_keyed(es@) && entries_view(es@) == m,
            Err(d) => r matches Err(c) && (match c {
                Conflict::Taken => d == -1,
                Conflict::ValueAt(a) => d == a - i && a >= i && a < segs@.len(),
            }),
        },
    decreases segs@.len() - i,
{
    let ghost path = vviews(segs@).skip(i as int);
    assert(path[0] == segs@[i as int]@);
    let ghost m = entries_view(entries@);
    let mut entries = entries;
    let found = find_key(&entries, segs[i].as_slice());
    proof {
        match found {
            Some(j) => lemma_view_at(entries@, j as int),
            None => lemma_view_absent(entries@, segs@[i as int]@),
        }
    }
    if i == segs.len() - 1 {
        match found {
            Some(_) => Err(Conflict::Taken),
            None => {
                let entry = (from_chars(segs[i].as_slice()), GitConfigValue::Str(string_of(value)));
                proof {
                    lemma_view_push(entries@, entry);
                }
                entries.push(entry);
                Ok(entries)
            },
        }
    } else {
        assert(path.drop_first() =~= vviews(segs@).skip(i + 1));
        match found {
            None => {
                assert(entries_view(Seq::<(String, GitConfigValue)>::empty()) =~= Map::<Seq<char>, ConfigTree>::empty());
                match insert_segments(Vec::new(), segs, i + 1, value) {
                    Ok(sub) => {
                        let entry = (from_chars(segs[i].as_slice()), GitConfigValue::Table(sub));
                        proof {
                            lemma_view_push(entries@, entry);
                        }
                        entries.push(entry);
                        Ok(entries)
                    },
                    Err(c) => Err(c),
                }
            },
            Some(j) => {
                let ghost before = entries@;
                let (k, v) = entries.remove(j);
                match v {
                    GitConfigValue::Str(_) => Err(Conflict::ValueAt(i)),
                    GitConfigValue::Table(sub) => {
                        match insert_segments(sub, segs, i + 1, value) {
                            Ok(sub2) => {
                                let entry = (k, GitConfigValue::Table(sub2));
                                entries.insert(j, entry);
                                assert(entries@ =~= before.update(j as int, entry));
                                proof {
                                    lemma_view_update(before, j as int, entry);
                                }
                                Ok(entries)
                            },
                            Err(c) => Err(c),
                        }
                    },
                }
            },
        }
    }
}


/// Segments joined with dots.
pub open spec fn dotted_join(segs: Seq<Seq<char>>) -> Seq<char>
    decreases segs.len(),
{
    if segs.len() == 0 {
        Seq::empty()
    } else if segs.len() == 1 {
        segs[0]
    } else {
        dotted_join(segs.drop_last()) + seq!['.'] + segs.last()
    }
}

/// The error for inserting key `key` (split into `segs`) that stopped with
/// model error `d` (see [`insert_model`]).
pub open spec fn conflict_message(key: Seq<char>, segs: Seq<Seq<char>>, d: int) -> Seq<char> {
    if d < 0 {
        "Conflicting git config keys: "@ + GIT_CONFIG_PREFIX@ + key + " is set both as a value and as a table"@
    } else {
        "Conflicting git config keys: "@ + GIT_CONFIG_PREFIX@ + dotted_join(segs.take(d + 1)) + " is a value, but "@
            + GIT_CONFIG_PREFIX@ + key + " needs it to be a table"@
    }
}

/// The error for a key with an empty segment.
pub open spec fn empty_segment_message(key: Seq<char>) -> Seq<char> {
    "Invalid git config key "@ + GIT_CONFIG_PREFIX@ + key + ": empty key segment"@
}

/// The table that `key = value` pairs (prefix stripped) describe, in order:
/// each key's dot-separated path is created, with the value as a string at
/// its end; the first pair whose key has an empty segment, or whose path
/// runs into a string or ends at a key already set, is the error.
pub open spec fn build_model(pairs: Seq<(String, String)>) -> Result<Map<Seq<char>, ConfigTree>, Seq<char>>
    decreases pairs.len(),
{
    if pairs.len() == 0 {
        Ok(Map::empty())
    } else {
        match build_model(pairs.drop_last()) {
            Err(e) => Err(e),
            Ok(m) => {
                let key = pairs.last().0@;
                let segs = split_seq(key, '.');
                if exists|q: int| 0 <= q < segs.len() && (#[trigger] segs[q]).len() == 0 {
                    Err(empty_segment_message(key))
                } else {
                    match insert_model(m, segs, pairs.last().1@) {
                        Ok(m2) => Ok(m2),
                        Err(d) => Err(conflict_message(key, segs, d)),
                    }
                }
            },
        }
    }
}

fn dotted_prefix(segs: &Vec<Vec<char>>, upto: usize) -> (r: Vec<char>)
    requires
        upto < segs@.len(),
    ensures
        r@ == dotted_join(vviews(segs@).take(upto + 1)),
{
    let n = segs.len();
    let mut v: Vec<char> = Vec::new();
    let mut i: usize = 0;
    assert(vviews(segs@).take(0) =~= Seq::<Seq<char>>::empty());
    while i <= upto
        invariant
            i <= upto + 1,
            upto < n,
            n == segs@.len(),
            v@ == dotted_join(vviews(segs@).take(i as int)),
        decreases upto + 1 - i,
    {
        let ghost t = vviews(segs@).take(i + 1);
        assert(t.drop_last() =~= vviews(segs@).take(i as int));
        assert(t.last() == segs@[i as int]@);
        if i > 0 {
            v.push('.');
        }
        append_chars(&mut v, segs[i].as_slice());
        i = i + 1;
    }
    v
}

fn conflict_message_exec(key: &str, segs: &Vec<Vec<char>>, c: &Conflict) -> (r: String)
    requires
        c matches Conflict::ValueAt(a) ==> a < segs@.len(),
    ensures
        r@ == conflict_message(key@, vviews(segs@), match c {
            Conflict::Taken => -1,
            Conflict::ValueAt(a) => *a as int,
        }),
{
    let mut v = to_chars("Conflicting git config keys: ");
    append_str(&mut v, GIT_CONFIG_PREFIX);
    match c {
        Conflict::Taken => {
            append_str(&mut v, key);
            append_str(&mut v, " is set both as a value and as a table");
        },
        Conflict::ValueAt(a) => {
            let walked = dotted_prefix(segs, *a);
            append_chars(&mut v, walked.as_slice());
            append_str(&mut v, " is a value, but ");
            append_str(&mut v, GIT_CONFIG_PREFIX);
            append_str(&mut v, key);
            append_str(&mut v, " needs it to be a table");
        },
    }
    from_chars(v.as_slice())
}

/// Build the nested table from `key = value` pairs (see [`build_model`]),
/// failing with the message for the first pair that cannot be placed.
pub fn pairs_to_table(pairs: &Vec<(String, String)>) -> (r: Result<Vec<(String, GitConfigValue)>, String>)
    ensures
        match build_model(pairs@) {
            Ok(m) => r matches Ok(t) && well_keyed(t@) && entries_view(t@) == m,
            Err(e) => r matches Err(s) && s@ == e,
        },
{
    let mut root: Vec<(String, GitConfigValue)> = Vec::new();
    let mut i: usize = 0;
    assert(pairs@.take(0) =~= Seq::<(String, String)>::empty());
    assert(entries_view(root@) =~= Map::<Seq<char>, ConfigTree>::empty());
    while i < pairs.len()
        invariant
            i <= pairs@.len(),
            build_model(pairs@.take(i as int)) == Ok::<Map<Seq<char>, ConfigTree>, Seq<char>>(entries_view(root@)),
            well_keyed(root@),
        decreases pairs.len() - i,
    {
        let ghost pre = pairs@.take(i as int);
        let ghost cur = pairs@.take(i + 1);
        assert(cur.drop_last() =~= pre);
        assert(cur.last() == pairs@[i as int]);
        let key = pairs[i].0.as_str();
        let kc = to_chars(key);
        let segs = split_chars(kc.as_slice(), '.');
        let mut q: usize = 0;
        assert(split_seq(cur.last().0@, '.') == vviews(segs@));
        while q < segs.len()
            invariant
                q <= segs@.len(),
                forall|p: int| 0 <= p < q ==> (#[trigger] segs@[p])@.len() > 0,
                i < pairs@.len(),
                pre == pairs@.take(i as int),
                cur == pairs@.take(i + 1),
                cur.drop_last() == pre,
                cur.last() == pairs@[i as int],
                build_model(pre) == Ok::<Map<Seq<char>, ConfigTree>, Seq<char>>(entries_view(root@)),
                key@ == pairs@[i as int].0@,
                split_seq(cur.last().0@, '.') == vviews(segs@),
            decreases segs.len() - q,
        {
            if segs[q].len() == 0 {
                assert(vviews(segs@)[q as int].len() == 0);
                let mut v = to_chars("Invalid git config key ");
                append_str(&mut v, GIT_CONFIG_PREFIX);
                append_str(&mut v, key);
                append_str(&mut v, ": empty key segment");
                proof {
                    let sv = vviews(segs@);
                    assert(0 <= q < sv.len() && sv[q as int].len() == 0);
                    assert(build_model(cur) == Err::<Map<Seq<char>, ConfigTree>, Seq<char>>(empty_segment_message(key@)));
                    lemma_build_prefix_error(pairs@, i as int + 1);
                }
                return Err(from_chars(v.as_slice()));
            }
            q = q + 1;
        }
        assert(!(exists|p: int| 0 <= p < vviews(segs@).len() && (#[trigger] vviews(segs@)[p]).len() == 0)) by {
            assert forall|p: int| 0 <= p < vviews(segs@).len() implies (#[trigger] vviews(segs@)[p]).len() > 0 by {
                assert(vviews(segs@)[p] == segs@[p]@);
            }
        }
        assert(vviews(segs@).skip(0) =~= vviews(segs@));
        assert(segs@.len() > 0) by {
            crate::text::lemma_split_acc_nonempty(Seq::<char>::empty(), kc@, '.');
        }
        match insert_segments(root, &segs, 0, pairs[i].1.as_str()) {
            Ok(t) => {
                root = t;
            },
            Err(c) => {
                let msg = conflict_message_exec(key, &segs, &c);
                proof {
                    lemma_build_prefix_error(pairs@, i as int + 1);
                }
                return Err(msg);
            },
        }
        i = i + 1;
    }
    assert(pairs@.take(pairs@.len() as int) =~= pairs@);
    Ok(root)
}

/// Once a prefix of the pairs fails, so do all the pairs.
proof fn lemma_build_prefix_error(pairs: Seq<(String, String)>, n: int)
    requires
        0 <= n <= pairs.len(),
        build_model(pairs.take(n)) is Err,
    ensures
        build_model(pairs) == build_model(pairs.take(n)),
    decreases pairs.len() - n,
{
    if n < pairs.len() {
        let next = pairs.take(n + 1);
        assert(next.drop_last() =~= pairs.take(n));
        lemma_build_prefix_error(pairs, n + 1);
    } else {
        assert(pairs.take(n) =~= pairs);
    }
}


/// The value at a key path.
pub open spec fn path_get(m: Map<Seq<char>, ConfigTree>, path: Seq<Seq<char>>) -> Option<ConfigTree>
    decreases path.len(),
{
    if path.len() == 0 || !m.contains_key(path[0]) {
        None
    } else if path.len() == 1 {
        Some(m[path[0]])
    } else {
        match m[path[0]] {
            ConfigTree::Node(sm) => path_get(sm, path.drop_first()),
            ConfigTree::Leaf(_) => None,
        }
    }
}

proof fn lemma_insert_reads_back(m: Map<Seq<char>, ConfigTree>, segs: Seq<Seq<char>>, value: Seq<char>)
    requires
        segs.len() >= 1,
        insert_model(m, segs, value) is Ok,
    ensures
        path_get(insert_model(m, segs, value)->Ok_0, segs) == Some(ConfigTree::Leaf(value)),
    decreases segs.len(),
{
    if segs.len() > 1 {
        let sub = if m.contains_key(segs[0]) { m[segs[0]] } else { ConfigTree::Node(Map::empty()) };
        match sub {
            ConfigTree::Node(sm) => {
                lemma_insert_reads_back(sm, segs.drop_first(), value);
            },
            ConfigTree::Leaf(_) => {},
        }
    }
}

proof fn lemma_insert_keeps_leaves(m: Map<Seq<char>, ConfigTree>, segs: Seq<Seq<char>>, value: Seq<char>, p: Seq<Seq<char>>)
    requires
        segs.len() >= 1,
        insert_model(m, segs, value) is Ok,
        path_get(m, p) matches Some(ConfigTree::Leaf(_)),
    ensures
        path_get(insert_model(m, segs, value)->Ok_0, p) == path_get(m, p),
    decreases segs.len(),
{
    let m2 = insert_model(m, segs, value)->Ok_0;
    if p[0] != segs[0] {
        assert(m2.contains_key(p[0]) && m2[p[0]] == m[p[0]]);
        if p.len() > 1 {
            assert(path_get(m2, p) == path_get(m, p));
        }
    } else if segs.len() > 1 {
        let sub = m[segs[0]];
        match sub {
            ConfigTree::Node(sm) => {
                if p.len() > 1 {
                    lemma_insert_keeps_leaves(sm, segs.drop_first(), value, p.drop_first());
                }
            },
            ConfigTree::Leaf(_) => {},
        }
    }
}

/// Every pair of a table that builds can be read back: the value of each
/// `key = value` pair is the string at the key's path.
pub proof fn lemma_pairs_read_back(pairs: Seq<(String, String)>)
    requires
        build_model(pairs) is Ok,
    ensures
        forall|j: int| 0 <= j < pairs.len() ==> path_get(build_model(pairs)->Ok_0, split_seq(#[trigger] pairs[j].0@, '.'))
            == Some(ConfigTree::Leaf(pairs[j].1@)),
    decreases pairs.len(),
{
    if pairs.len() > 0 {
        let init = pairs.drop_last();
        lemma_pairs_read_back(init);
        let m = build_model(init)->Ok_0;
        let segs = split_seq(pairs.last().0@, '.');
        crate::text::lemma_split_acc_nonempty(Seq::<char>::empty(), pairs.last().0@, '.');
        lemma_insert_reads_back(m, segs, pairs.last().1@);
        assert forall|j: int| 0 <= j < pairs.len() implies path_get(build_model(pairs)->Ok_0, split_seq(#[trigger] pairs[j].0@, '.'))
            == Some(ConfigTree::Leaf(pairs[j].1@)) by {
            if j < pairs.len() - 1 {
                assert(init[j] == pairs[j]);
                lemma_insert_keeps_leaves(m, segs, pairs.last().1@, split_seq(pairs[j].0@, '.'));
            }
        }
    }
}

} // verus!
