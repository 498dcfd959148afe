//! Matching `[projects."<pattern>"]` keys against a repository's project
//! identifier.
//!
//! A key is either a literal identifier (`github.com/owner/repo`) or a pattern
//! holding `*`, which stands for any run of characters, `/` included. Several
//! keys can match; they are returned least- to most-specific, where
//! specificity is the number of literal (non-`*`) characters and ties are
//! broken by the key itself.

use vstd::prelude::*;
use crate::text::{
    append_chars, append_str, contains_char, ends_with, ends_with_chars, eq_chars, find_char_from, find_first,
    find_from, from_chars, lemma_find_from_bounds, rfind, rfind_char, slice_copy, split_chars, split_seq,
    starts_with, starts_with_chars, tail, to_chars, vviews,
};

verus! {

/// The characters that have a meaning in a regular expression.
pub open spec fn regex_meta_char(c: char) -> bool {
    c == '\\' || c == '.' || c == '+' || c == '*' || c == '?' || c == '(' || c == ')' || c == '|'
        || c == '[' || c == ']' || c == '{' || c == '}' || c == '^' || c == '$' || c == '#'
        || c == '&' || c == '-' || c == '~'
}

/// `s` with a backslash before every regex metacharacter.
pub open spec fn regex_escaped(s: Seq<char>) -> Seq<char>
    decreases s.len(),
{
    if s.len() == 0 {
        Seq::empty()
    } else {
        let c = s.last();
        regex_escaped(s.drop_last()) + if regex_meta_char(c) {
            seq!['\\', c]
        } else {
            seq![c]
        }
    }
}

/// Whether `text` matches regular expression `pattern` (`None` when the
/// pattern does not compile).
pub uninterp spec fn regex_match(pattern: Seq<char>, text: Seq<char>) -> Option<bool>;

/// `regex::escape`: each character of `s`, with a backslash before each
/// regex metacharacter (`regex_syntax::is_meta_character`).
#[verifier::external_body]
fn regex_escape(s: &[char]) -> (r: Vec<char>)
    ensures
        r@ == regex_escaped(s@),
{
    let text: String = s.iter().collect();
    regex::escape(&text).chars().collect()
}

/// `regex::Regex::new(pattern)` and, when it compiles, `Regex::is_match` on
/// `text`: a function of the two strings alone.
#[verifier::external_body]
fn regex_is_match(pattern: &[char], text: &str) -> (r: Option<bool>)
    ensures
        r == regex_match(pattern@, text@),
{
    let p: String = pattern.iter().collect();
    match regex::Regex::new(&p) {
        Ok(re) => Some(re.is_match(text)),
        Err(_) => None,
    }
}

/// The escaped parts joined by `.*`.
pub open spec fn joined_parts(parts: Seq<Seq<char>>) -> Seq<char>
    decreases parts.len(),
{
    if parts.len() == 0 {
        Seq::empty()
    } else if parts.len() == 1 {
        regex_escaped(parts[0])
    } else {
        joined_parts(parts.drop_last()) + ".*"@ + regex_escaped(parts.last())
    }
}

/// The anchored regular expression for a `*` pattern: each literal run
/// escaped, `*` as `.*`, matching the whole identifier (newlines included).
pub open spec fn pattern_regex(pattern: Seq<char>) -> Seq<char> {
    "(?s)\\A"@ + joined_parts(split_seq(pattern, '*')) + "\\z"@
}

/// The literal text of `pattern` before its first `*` (all of it without one).
pub open spec fn before_first_star(pattern: Seq<char>) -> Seq<char> {
    match find_first(pattern, '*') {
        Some(k) => pattern.take(k),
        None => pattern,
    }
}

/// The literal text of `pattern` after its last `*` (all of it without one).
pub open spec fn after_last_star(pattern: Seq<char>) -> Seq<char> {
    match rfind(pattern, '*') {
        Some(k) => pattern.skip(k + 1),
        None => pattern,
    }
}

/// Whether `pattern` matches `identifier`: equality for a literal key; for a
/// `*` pattern, the anchored regular expression, which starts the
/// identifier with the text before the first `*` and ends it with the text
/// after the last (both checked directly as well).
pub open spec fn key_matches(pattern: Seq<char>, identifier: Seq<char>) -> bool {
    if !pattern.contains('*') {
        pattern == identifier
    } else {
        &&& regex_match(pattern_regex(pattern), identifier) == Some(true)
        &&& starts_with(identifier, before_first_star(pattern))
        &&& ends_with(identifier, after_last_star(pattern))
    }
}

/// Whether `pattern` matches `identifier`, treating `*` as any run of
/// characters and every other character as a literal.
pub fn matches(pattern: &str, identifier: &str) -> (r: bool)
    ensures
        r == key_matches(pattern@, identifier@),
{
    let p = to_chars(pattern);
    if !contains_char(p.as_slice(), '*') {
        let id = to_chars(identifier);
        return eq_chars(p.as_slice(), id.as_slice());
    }
    let parts = split_chars(p.as_slice(), '*');
    let ghost pv = vviews(parts@);
    let mut joined: Vec<char> = Vec::new();
    let mut i: usize = 0;
    while i < parts.len()
        invariant
            i <= parts@.len(),
            pv == vviews(parts@),
            joined@ == joined_parts(pv.take(i as int)),
        decreases parts.len() - i,
    {
        assert(pv.take(i + 1).drop_last() =~= pv.take(i as int));
        assert(pv.take(i + 1).last() == parts@[i as int]@);
        if i > 0 {
            append_str(&mut joined, ".*");
        }
        let e = regex_escape(parts[i].as_slice());
        append_chars(&mut joined, e.as_slice());
        if i == 0 {
            assert(pv.take(1) =~= seq![pv[0]]);
        }
        i = i + 1;
    }
    assert(pv.take(pv.len() as int) =~= pv);
    let mut anchored = to_chars("(?s)\\A");
    append_chars(&mut anchored, joined.as_slice());
    append_str(&mut anchored, "\\z");
    let matched = compiled_match(regex_is_match(anchored.as_slice(), identifier));
    let id = to_chars(identifier);
    let before = match find_char_from(p.as_slice(), '*', 0) {
        Some(k) => {
            proof {
                lemma_find_from_bounds(p@, '*', 0);
            }
            slice_copy(p.as_slice(), 0, k)
        },
        None => slice_copy(p.as_slice(), 0, p.len()),
    };
    proof {
        assert(p@.subrange(0, p@.len() as int) =~= p@);
        if find_first(p@, '*') is Some {
            let k = find_first(p@, '*')->0;
            assert(p@.subrange(0, k) =~= p@.take(k));
        }
    }
    let after = match rfind_char(p.as_slice(), '*') {
        Some(k) => {
            assert(k < p.len());
            tail(p.as_slice(), k + 1)
        },
        None => slice_copy(p.as_slice(), 0, p.len()),
    };
    matched && starts_with_chars(id.as_slice(), before.as_slice()) && ends_with_chars(id.as_slice(), after.as_slice())
}

/// Whether a pattern matched, given the regex outcome: a pattern that did
/// not compile matches nothing.
pub fn compiled_match(outcome: Option<bool>) -> (r: bool)
    ensures
        r == (outcome == Some(true)),
{
    match outcome {
        Some(m) => m,
        None => false,
    }
}

/// The number of literal characters in `pattern`.
pub open spec fn literal_count(pattern: Seq<char>) -> nat
    decreases pattern.len(),
{
    if pattern.len() == 0 {
        0
    } else if pattern.last() == '*' {
        literal_count(pattern.drop_last())
    } else {
        literal_count(pattern.drop_last()) + 1
    }
}

/// The number of literal characters in `pattern`: its specificity rank.
pub fn literal_len(pattern: &str) -> (r: usize)
    ensures
        r == literal_count(pattern@),
{
    let p = to_chars(pattern);
    let mut n: usize = 0;
    let mut i: usize = 0;
    while i < p.len()
        invariant
            i <= p@.len(),
            n == literal_count(p@.take(i as int)),
            n <= i,
        decreases p.len() - i,
    {
        assert(p@.take(i + 1).drop_last() =~= p@.take(i as int));
        if p[i] != '*' {
            n = n + 1;
        }
        i = i + 1;
    }
    assert(p@.take(p@.len() as int) =~= p@);
    n
}

/// Lexicographic order of character sequences (the order of `String`s).
pub open spec fn lex_lt(a: Seq<char>, b: Seq<char>) -> bool
    decreases a.len(),
{
    if a.len() == 0 {
        b.len() > 0
    } else if b.len() == 0 {
        false
    } else if a[0] != b[0] {
        a[0] < b[0]
    } else {
        lex_lt(a.drop_first(), b.drop_first())
    }
}

fn lex_lt_exec(a: &[char], b: &[char]) -> (r: bool)
    ensures
        r == lex_lt(a@, b@),
{
    let mut i: usize = 0;
    assert(a@.skip(0) =~= a@);
    assert(b@.skip(0) =~= b@);
    while i < a.len() && i < b.len() && a[i] == b[i]
        invariant
            i <= a@.len(),
            i <= b@.len(),
            lex_lt(a@, b@) == lex_lt(a@.skip(i as int), b@.skip(i as int)),
        decreases a.len() - i,
    {
        assert(a@.skip(i as int).drop_first() =~= a@.skip(i + 1));
        assert(b@.skip(i as int).drop_first() =~= b@.skip(i + 1));
        i = i + 1;
    }
    if i == a.len() {
        i < b.len()
    } else if i == b.len() {
        false
    } else {
        a[i] < b[i]
    }
}

/// A matched key's place in the order: (specificity, key, index).
pub open spec fn rank_before(a: (nat, Seq<char>), b: (nat, Seq<char>)) -> bool {
    a.0 < b.0 || (a.0 == b.0 && (lex_lt(a.1, b.1) || a.1 == b.1))
}

/// Insert `x` after every entry that does not rank after it.
pub open spec fn insert_ranked(s: Seq<(nat, Seq<char>, int)>, x: (nat, Seq<char>, int)) -> Seq<(nat, Seq<char>, int)>
    decreases s.len(),
{
    if s.len() == 0 {
        seq![x]
    } else if rank_before((s.last().0, s.last().1), (x.0, x.1)) {
        s.push(x)
    } else {
        insert_ranked(s.drop_last(), x).push(s.last())
    }
}

/// The keys among `keys[..n]` that match `identifier`, each with its
/// specificity and index, ordered by (specificity, key).
pub open spec fn ranked_matches(keys: Seq<Seq<char>>, identifier: Seq<char>, n: int) -> Seq<(nat, Seq<char>, int)>
    decreases n,
{
    if n <= 0 {
        Seq::empty()
    } else {
        let prev = ranked_matches(keys, identifier, n - 1);
        let k = keys[n - 1];
        if key_matches(k, identifier) {
            insert_ranked(prev, (literal_count(k), k, n - 1))
        } else {
            prev
        }
    }
}

/// The index of the first key equal to `identifier`, if any.
pub open spec fn exact_index(keys: Seq<Seq<char>>, identifier: Seq<char>, n: int) -> Option<int>
    decreases n,
{
    if n <= 0 {
        None
    } else {
        match exact_index(keys, identifier, n - 1) {
            Some(i) => Some(i),
            None => if keys[n - 1] == identifier {
                Some(n - 1)
            } else {
                None
            },
        }
    }
}

/// The keys of a project table.
pub open spec fn project_keys<T>(projects: Seq<(String, T)>) -> Seq<Seq<char>> {
    projects.map_values(|p: (String, T)| p.0@)
}

/// The indices of the project entries whose key matches `identifier`, least-
/// to most-specific. Without any `*` key this is the exact entry, if any.
pub open spec fn matching_indices(keys: Seq<Seq<char>>, identifier: Seq<char>) -> Seq<int> {
    if !(exists|i: int| 0 <= i < keys.len() && #[trigger] keys[i].contains('*')) {
        match exact_index(keys, identifier, keys.len() as int) {
            Some(i) => seq![i],
            None => Seq::empty(),
        }
    } else {
        ranked_matches(keys, identifier, keys.len() as int).map_values(|e: (nat, Seq<char>, int)| e.2)
    }
}

proof fn lemma_insert_ranked_at(s: Seq<(nat, Seq<char>, int)>, x: (nat, Seq<char>, int), k: int)
    requires
        0 <= k <= s.len(),
        forall|j: int| k <= j < s.len() ==> !rank_before((s[j].0, s[j].1), (x.0, x.1)),
        k == 0 || rank_before((s[k - 1].0, s[k - 1].1), (x.0, x.1)),
    ensures
        insert_ranked(s, x) == s.take(k).push(x) + s.skip(k),
    decreases s.len() - k,
{
    if s.len() == k {
        if s.len() > 0 {
            assert(s.take(k).push(x) + s.skip(k) =~= s.push(x));
        } else {
            assert(s.take(k).push(x) + s.skip(k) =~= seq![x]);
        }
    } else {
        lemma_insert_ranked_at(s.drop_last(), x, k);
        assert(s.drop_last().take(k) =~= s.take(k));
        assert((s.take(k).push(x) + s.drop_last().skip(k)).push(s.last()) =~= s.take(k).push(x) + s.skip(k));
    }
}

fn rank_before_exec(a_len: usize, a: &[char], b_len: usize, b: &[char]) -> (r: bool)
    ensures
        r == rank_before((a_len as nat, a@), (b_len as nat, b@)),
{
    a_len < b_len || (a_len == b_len && (lex_lt_exec(a, b) || eq_chars(a, b)))
}

/// Every key of `projects` matching `identifier`, least- to most-specific;
/// a literal key comes after every pattern that also matched.
pub fn matching_keys<'a, T>(projects: &'a Vec<(String, T)>, identifier: &str) -> (r: Vec<&'a T>)
    ensures
        r@.len() == matching_indices(project_keys(projects@), identifier@).len(),
        forall|k: int| 0 <= k < r@.len() ==> {
            let i = #[trigger] matching_indices(project_keys(projects@), identifier@)[k];
            0 <= i < projects@.len() && r@[k] == &projects@[i].1
        },
{
    let order = matching_order(projects, identifier);
    let ghost idx = matching_indices(project_keys(projects@), identifier@);
    let mut r: Vec<&'a T> = Vec::new();
    let mut k: usize = 0;
    while k < order.len()
        invariant
            idx == matching_indices(project_keys(projects@), identifier@),
            k <= order@.len(),
            order@.len() == idx.len(),
            forall|j: int| 0 <= j < order@.len() ==> (#[trigger] order@[j]) as int == idx[j] && order@[j] < projects@.len(),
            r@.len() == k,
            forall|j: int| 0 <= j < k ==> r@[j] == &projects@[idx[j]].1,
        decreases order.len() - k,
    {
        assert(order@[k as int] < projects@.len());
        r.push(&projects[order[k]].1);
        k = k + 1;
    }
    assert forall|k: int| 0 <= k < r@.len() implies {
        let i = #[trigger] matching_indices(project_keys(projects@), identifier@)[k];
        0 <= i < projects@.len() && r@[k] == &projects@[i].1
    } by {
        assert(order@[k] as int == idx[k]);
    }
    r
}

fn matching_order<T>(projects: &Vec<(String, T)>, identifier: &str) -> (r: Vec<usize>)
    ensures
        r@.len() == matching_indices(project_keys(projects@), identifier@).len(),
        forall|j: int| 0 <= j < r@.len() ==> (#[trigger] r@[j]) as int == matching_indices(project_keys(projects@), identifier@)[j]
            && r@[j] < projects@.len(),
{
    let ghost keys = project_keys(projects@);
    let id = to_chars(identifier);
    let mut any_star = false;
    let mut s: usize = 0;
    while s < projects.len()
        invariant
            s <= projects@.len(),
            keys == project_keys(projects@),
            any_star == (exists|i: int| 0 <= i < s && #[trigger] keys[i].contains('*')),
        decreases projects.len() - s,
    {
        let kc = to_chars(projects[s].0.as_str());
        assert(keys[s as int] == kc@);
        if contains_char(kc.as_slice(), '*') {
            any_star = true;
        }
        s = s + 1;
    }
    if !any_star {
        assert(!(exists|j: int| 0 <= j < keys.len() && #[trigger] keys[j].contains('*')));
        let mut i: usize = 0;
        while i < projects.len()
            invariant
                i <= projects@.len(),
                keys == project_keys(projects@),
                id@ == identifier@,
                exact_index(keys, identifier@, i as int) is None,
                keys.len() == projects@.len(),
                !(exists|j: int| 0 <= j < keys.len() && #[trigger] keys[j].contains('*')),
            decreases projects.len() - i,
        {
            let kc = to_chars(projects[i].0.as_str());
            assert(keys[i as int] == kc@);
            if eq_chars(kc.as_slice(), id.as_slice()) {
                let r = vec![i];
                assert(exact_index(keys, identifier@, i + 1) == Some(i as int));
                proof {
                    lemma_exact_index_stable(keys, identifier@, i + 1, keys.len() as int);
                }
                return r;
            }
            i = i + 1;
        }
        return Vec::new();
    }
    let ghost target = ranked_matches(keys, identifier@, keys.len() as int);
    let mut entries: Vec<(usize, Vec<char>, usize)> = Vec::new();
    let mut i: usize = 0;
    while i < projects.len()
        invariant
            i <= projects@.len(),
            keys == project_keys(projects@),
            keys.len() == projects@.len(),
            any_star,
            target == ranked_matches(keys, identifier@, keys.len() as int),
            ent_views(entries@) == ranked_matches(keys, identifier@, i as int),
            forall|j: int| 0 <= j < entries@.len() ==> (#[trigger] entries@[j]).2 < i,
        decreases projects.len() - i,
    {
        let kc = to_chars(projects[i].0.as_str());
        assert(keys[i as int] == kc@);
        let ghost s = ranked_matches(keys, identifier@, i as int);
        if matches(projects[i].0.as_str(), identifier) {
            let n = literal_len(projects[i].0.as_str());
            let ghost x = (n as nat, kc@, i as int);
            let mut k: usize = entries.len();
            while k > 0 && !rank_before_exec(entries[k - 1].0, entries[k - 1].1.as_slice(), n, kc.as_slice())
                invariant
                    k <= entries@.len(),
                    s == ent_views(entries@),
                    x == (n as nat, kc@, i as int),
                    forall|j: int| k <= j < s.len() ==> !rank_before((s[j].0, s[j].1), (x.0, x.1)),
                decreases k,
            {
                assert(s[k - 1] == ent_view(entries@[k - 1]));
                k = k - 1;
            }
            proof {
                if k > 0 {
                    assert(s[k - 1] == ent_view(entries@[k - 1]));
                }
                lemma_insert_ranked_at(s, x, k as int);
            }
            let ghost old_entries = entries@;
            entries.insert(k, (n, kc, i));
            assert(ent_views(entries@) =~= s.take(k as int).push(x) + s.skip(k as int)) by {
                assert(entries@ =~= old_entries.insert(k as int, (n, kc, i)));
            }
            assert(ranked_matches(keys, identifier@, i + 1) == s.take(k as int).push(x) + s.skip(k as int));
            assert forall|j: int| 0 <= j < entries@.len() implies (#[trigger] entries@[j]).2 < i + 1 by {
                if j < k {
                    assert(entries@[j] == old_entries[j]);
                } else if j > k {
                    assert(entries@[j] == old_entries[j - 1]);
                }
            }
        } else {
            assert(ranked_matches(keys, identifier@, i + 1) == s);
        }
        i = i + 1;
    }
    let mut r: Vec<usize> = Vec::new();
    let mut m: usize = 0;
    while m < entries.len()
        invariant
            m <= entries@.len(),
            keys.len() == projects@.len(),
            any_star,
            ent_views(entries@) == target,
            target == ranked_matches(keys, identifier@, keys.len() as int),
            forall|j: int| 0 <= j < entries@.len() ==> (#[trigger] entries@[j]).2 < projects@.len(),
            r@.len() == m,
            forall|j: int| 0 <= j < m ==> r@[j] as int == target[j].2 && r@[j] < projects@.len(),
        decreases entries.len() - m,
    {
        assert(target[m as int] == ent_view(entries@[m as int]));
        r.push(entries[m].2);
        m = m + 1;
    }
    proof {
        assert(any_star);
        let mi = matching_indices(keys, identifier@);
        assert(mi == target.map_values(|e: (nat, Seq<char>, int)| e.2));
    }
    r
}

/// The view of a ranking entry.
pub open spec fn ent_view(e: (usize, Vec<char>, usize)) -> (nat, Seq<char>, int) {
    (e.0 as nat, e.1@, e.2 as int)
}

/// The views of ranking entries.
pub open spec fn ent_views(v: Seq<(usize, Vec<char>, usize)>) -> Seq<(nat, Seq<char>, int)> {
    v.map_values(|e: (usize, Vec<char>, usize)| ent_view(e))
}

proof fn lemma_exact_index_stable(keys: Seq<Seq<char>>, id: Seq<char>, i: int, n: int)
    requires
        0 <= i <= n,
        exact_index(keys, id, i) is Some,
    ensures
        exact_index(keys, id, n) == exact_index(keys, id, i),
    decreases n - i,
{
    if i < n {
        lemma_exact_index_stable(keys, id, i, n - 1);
    }
}


/// What `regex::Regex::new(pattern)` followed by `replace_all(text,
/// replacement)` gives: `None` when the pattern does not compile.
pub uninterp spec fn regex_replaced(pattern: Seq<char>, text: Seq<char>, replacement: Seq<char>) -> Option<Seq<char>>;

/// `regex::Regex::new(pattern)` and, when it compiles, `Regex::replace_all`
/// of every match in `text` by `replacement`: a function of the three
/// strings alone.
#[verifier::external_body]
pub(crate) fn regex_replace_all(pattern: &str, text: &str, replacement: &str) -> (r: Option<String>)
    ensures
        match r {
            Some(s) => regex_replaced(pattern@, text@, replacement@) == Some(s@),
            None => regex_replaced(pattern@, text@, replacement@) is None,
        },
{
    match regex::Regex::new(pattern) {
        Ok(re) => Some(re.replace_all(text, replacement).into_owned()),
        Err(_) => None,
    }
}


/// No `d` comes before the first one the search finds.
proof fn lemma_find_from_first<A>(s: Seq<A>, d: A, from: int)
    requires
        0 <= from,
    ensures
        find_from(s, d, from) matches Some(i) ==> forall|j: int| from <= j < i ==> s[j] != d,
        find_from(s, d, from) is None ==> forall|j: int| from <= j < s.len() ==> s[j] != d,
    decreases s.len() - from,
{
    if from < s.len() && s[from] != d {
        lemma_find_from_first(s, d, from + 1);
    }
}

/// The last `d` is where `rfind` says, and none follows it.
proof fn lemma_rfind_last<A>(s: Seq<A>, d: A)
    ensures
        rfind(s, d) matches Some(k) ==> 0 <= k < s.len() && s[k] == d && forall|j: int| k < j < s.len() ==> s[j] != d,
        rfind(s, d) is None ==> forall|j: int| 0 <= j < s.len() ==> s[j] != d,
    decreases s.len(),
{
    if s.len() > 0 && s.last() != d {
        lemma_rfind_last(s.drop_last(), d);
        assert forall|j: int| 0 <= j < s.len() - 1 implies s.drop_last()[j] == s[j] by {}
    }
}

/// A `*` pattern is anchored at both ends: an identifier it matches starts
/// with the pattern's text before its first `*` and ends with its text after
/// its last `*` (so `*/acme/app` does not match `github.com/acme/app-legacy`).
pub proof fn lemma_star_patterns_are_anchored(pattern: Seq<char>, identifier: Seq<char>, k: int)
    requires
        key_matches(pattern, identifier),
        0 <= k < pattern.len(),
        pattern[k] == '*',
    ensures
        (forall|j: int| 0 <= j < k ==> pattern[j] != '*') ==> starts_with(identifier, pattern.take(k)),
        (forall|j: int| k < j < pattern.len() ==> pattern[j] != '*') ==> ends_with(identifier, pattern.skip(k + 1)),
{
    assert(pattern.contains('*'));
    lemma_find_from_bounds(pattern, '*', 0);
    lemma_find_from_first(pattern, '*', 0);
    lemma_rfind_last(pattern, '*');
    if forall|j: int| 0 <= j < k ==> pattern[j] != '*' {
        let f = find_first(pattern, '*')->0;
        assert(f == k) by {
            if f < k {
                assert(pattern[f] == '*');
            } else if f > k {
                assert(pattern[k] != '*');
            }
        }
    }
    if forall|j: int| k < j < pattern.len() ==> pattern[j] != '*' {
        let l = rfind(pattern, '*')->0;
        assert(l == k) by {
            if l < k {
                assert(pattern[k] != '*');
            } else if l > k {
                assert(pattern[l] == '*');
            }
        }
    }
}

} // verus!
