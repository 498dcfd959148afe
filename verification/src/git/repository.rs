//! A git repository as the library sees it.
//!
//! Running git is the caller's part. [`Repository`] holds the facts about a
//! repository that stay fixed while a command runs (its remotes, its primary
//! remote, the forge configured for it); the methods that read git's output
//! take that output as an argument and compute from it.

use vstd::prelude::*;
use crate::git::ci_platform::{
    ci_platform, configured_ci_platform, forge_from_url, legacy_alias_spec, legacy_forge_alias,
    parse_forge_name, ForgeKind, LegacyForgeAlias,
};
use crate::git::parse::WorktreeInfo;
use crate::git::version::{first_word, first_word_exec};
use crate::git::remote_ref::info::copy_string;
use crate::text::{
    append_str, ends_with, ends_with_chars, eq_chars, from_chars, lines_chars, lines_seq,
    parse_i64_chars, parse_i64_spec, split_once_chars, split_once_seq, strip_suffix,
    strip_suffix_chars, to_chars, trim, trim_chars, vviews, strip_prefix, strip_prefix_chars,
    starts_with, starts_with_chars,
};

verus! {

/// A git repository: its remotes with their effective URLs, its primary
/// remote, and the forge that project configuration names, if any.
#[derive(Debug, Clone)]
pub struct Repository {
    /// `(name, effective URL)` of each remote.
    pub remotes: Vec<(String, String)>,
    /// The primary remote's name, if the repository has one.
    pub primary_remote: Option<String>,
    /// The `forge.platform` (or `ci.platform`) value of project config.
    pub forge_platform: Option<String>,
}

/// The view of a pair of strings.
pub open spec fn pair_view(p: (String, String)) -> (Seq<char>, Seq<char>) {
    (p.0@, p.1@)
}

/// The views of pairs of strings.
pub open spec fn pairviews(v: Seq<(String, String)>) -> Seq<(Seq<char>, Seq<char>)> {
    v.map_values(|p: (String, String)| pair_view(p))
}

/// The views of strings.
pub open spec fn strs(v: Seq<String>) -> Seq<Seq<char>> {
    v.map_values(|s: String| s@)
}

/// The URL of the remote called `name`: the first remote of that name.
pub open spec fn remote_url_of(remotes: Seq<(Seq<char>, Seq<char>)>, name: Seq<char>) -> Option<Seq<char>>
    decreases remotes.len(),
{
    if remotes.len() == 0 {
        None
    } else if remotes[0].0 == name {
        Some(remotes[0].1)
    } else {
        remote_url_of(remotes.drop_first(), name)
    }
}

/// The optional string's view.
pub open spec fn ostr(o: Option<String>) -> Option<Seq<char>> {
    match o {
        Some(s) => Some(s@),
        None => None,
    }
}

impl Repository {
    /// The effective URL of remote `name`.
    pub fn effective_remote_url(&self, name: &str) -> (r: Option<String>)
        ensures
            ostr(r) == remote_url_of(pairviews(self.remotes@), name@),
    {
        let ghost all = pairviews(self.remotes@);
        let n = to_chars(name);
        let mut i: usize = 0;
        assert(all.skip(0) =~= all);
        while i < self.remotes.len()
            invariant
                i <= self.remotes@.len(),
                all == pairviews(self.remotes@),
                remote_url_of(all, name@) == remote_url_of(all.skip(i as int), name@),
                n@ == name@,
            decreases self.remotes.len() - i,
        {
            assert(all.skip(i as int).drop_first() =~= all.skip(i + 1));
            assert(all.skip(i as int)[0] == pair_view(self.remotes@[i as int]));
            let rn = to_chars(self.remotes[i].0.as_str());
            if eq_chars(rn.as_slice(), n.as_slice()) {
                return Some(copy_string(&self.remotes[i].1));
            }
            i = i + 1;
        }
        None
    }

    /// The URL of the primary remote, if there is one.
    pub open spec fn primary_url_spec(&self) -> Option<Seq<char>> {
        match self.primary_remote {
            Some(p) => remote_url_of(pairviews(self.remotes@), p@),
            None => None,
        }
    }

    /// The forge that project configuration names, if it is a known spelling.
    pub open spec fn configured_spec(&self) -> Option<ForgeKind> {
        match self.forge_platform {
            Some(s) => parse_forge_name(s@),
            None => None,
        }
    }

    fn primary_url(&self) -> (r: Option<String>)
        ensures
            ostr(r) == self.primary_url_spec(),
    {
        match &self.primary_remote {
            Some(p) => self.effective_remote_url(p.as_str()),
            None => None,
        }
    }

    fn configured(&self) -> (r: Option<ForgeKind>)
        ensures
            r == self.configured_spec(),
    {
        match &self.forge_platform {
            Some(s) => configured_ci_platform(Some(s.as_str())),
            None => None,
        }
    }

    /// The CI platform of this repository: the configured one, else the forge
    /// of `remote_hint`'s URL, else that of the primary remote's URL.
    pub fn ci_platform(&self, remote_hint: Option<&str>) -> (r: Option<ForgeKind>)
        ensures
            r == (if self.configured_spec() is Some {
                self.configured_spec()
            } else if (match remote_hint {
                Some(h) => match remote_url_of(pairviews(self.remotes@), h@) {
                    Some(u) => forge_from_url(u) is Some,
                    None => false,
                },
                None => false,
            }) {
                forge_from_url(remote_url_of(pairviews(self.remotes@), remote_hint->0@)->0)
            } else {
                match self.primary_url_spec() {
                    Some(u) => forge_from_url(u),
                    None => None,
                }
            }),
    {
        let configured = self.configured();
        let hint_url = match remote_hint {
            Some(h) => self.effective_remote_url(h),
            None => None,
        };
        let primary_url = self.primary_url();
        let hint_ref: Option<&str> = match &hint_url {
            Some(u) => Some(u.as_str()),
            None => None,
        };
        let primary_ref: Option<&str> = match &primary_url {
            Some(u) => Some(u.as_str()),
            None => None,
        };
        ci_platform(configured, hint_ref, primary_ref)
    }

    /// The legacy branded-alias diagnostic for the primary remote; `None`
    /// when project configuration names a forge.
    pub fn legacy_forge_alias(&self) -> (r: Option<LegacyForgeAlias>)
        ensures
            self.configured_spec() is Some ==> r is None,
            self.configured_spec() is None ==> (match self.primary_url_spec() {
                Some(u) => (r matches Some(a) ==> legacy_alias_spec(u) == Some(a@))
                    && (r is None ==> legacy_alias_spec(u) is None),
                None => r is None,
            }),
    {
        let configured = self.configured();
        let primary_url = self.primary_url();
        let primary_ref: Option<&str> = match &primary_url {
            Some(u) => Some(u.as_str()),
            None => None,
        };
        legacy_forge_alias(configured, primary_ref)
    }
}


/// Trimmed, non-empty lines (`git branch --format=...` output).
pub open spec fn nonempty_trimmed(lines: Seq<Seq<char>>) -> Seq<Seq<char>>
    decreases lines.len(),
{
    if lines.len() == 0 {
        Seq::empty()
    } else {
        let prev = nonempty_trimmed(lines.drop_last());
        if trim(lines.last()).len() > 0 {
            prev.push(trim(lines.last()))
        } else {
            prev
        }
    }
}

/// `(name, sha)` pairs from `<name> <sha>` lines; lines without a space are
/// skipped, and so are `<remote>/HEAD` entries when `skip_head` is set.
pub open spec fn ref_pairs(lines: Seq<Seq<char>>, skip_head: bool) -> Seq<(Seq<char>, Seq<char>)>
    decreases lines.len(),
{
    if lines.len() == 0 {
        Seq::empty()
    } else {
        let prev = ref_pairs(lines.drop_last(), skip_head);
        match split_once_seq(lines.last(), ' ') {
            Some((name, sha)) => if skip_head && ends_with(name, "/HEAD"@) {
                prev
            } else {
                prev.push((name, sha))
            },
            None => prev,
        }
    }
}

/// The distinct non-empty lines, in order of first appearance.
pub open spec fn distinct_nonempty(lines: Seq<Seq<char>>) -> Seq<Seq<char>>
    decreases lines.len(),
{
    if lines.len() == 0 {
        Seq::empty()
    } else {
        let prev = distinct_nonempty(lines.drop_last());
        if lines.last().len() > 0 && !prev.contains(lines.last()) {
            prev.push(lines.last())
        } else {
            prev
        }
    }
}

/// The pairs whose name is not in `exclude`.
pub open spec fn pairs_not_in(pairs: Seq<(Seq<char>, Seq<char>)>, exclude: Seq<Seq<char>>) -> Seq<(Seq<char>, Seq<char>)>
    decreases pairs.len(),
{
    if pairs.len() == 0 {
        Seq::empty()
    } else {
        let prev = pairs_not_in(pairs.drop_last(), exclude);
        if exclude.contains(pairs.last().0) {
            prev
        } else {
            prev.push(pairs.last())
        }
    }
}

/// Whether some worktree has `name` checked out.
pub open spec fn wt_has_branch(wts: Seq<WorktreeInfo>, name: Seq<char>) -> bool {
    exists|i: int| 0 <= i < wts.len() && ((#[trigger] wts[i]).branch matches Some(b) && b@ == name)
}

/// The names that no worktree has checked out.
pub open spec fn without_worktree(names: Seq<Seq<char>>, wts: Seq<WorktreeInfo>) -> Seq<Seq<char>>
    decreases names.len(),
{
    if names.len() == 0 {
        Seq::empty()
    } else {
        let prev = without_worktree(names.drop_last(), wts);
        if wt_has_branch(wts, names.last()) {
            prev
        } else {
            prev.push(names.last())
        }
    }
}

fn has_worktree(wts: &Vec<WorktreeInfo>, name: &[char]) -> (r: bool)
    ensures
        r == wt_has_branch(wts@, name@),
{
    let mut i: usize = 0;
    while i < wts.len()
        invariant
            i <= wts@.len(),
            forall|k: int| 0 <= k < i ==> !((#[trigger] wts@[k]).branch matches Some(b) && b@ == name@),
        decreases wts.len() - i,
    {
        match &wts[i].branch {
            Some(b) => {
                let bc = to_chars(b.as_str());
                if eq_chars(bc.as_slice(), name) {
                    return true;
                }
            },
            None => {},
        }
        i = i + 1;
    }
    false
}

fn contains_string(v: &Vec<String>, x: &[char]) -> (r: bool)
    ensures
        r == strs(v@).contains(x@),
{
    let mut i: usize = 0;
    while i < v.len()
        invariant
            i <= v@.len(),
            forall|k: int| 0 <= k < i ==> strs(v@)[k] != x@,
        decreases v.len() - i,
    {
        let c = to_chars(v[i].as_str());
        if eq_chars(c.as_slice(), x) {
            assert(strs(v@)[i as int] == x@);
            return true;
        }
        i = i + 1;
    }
    false
}

impl Repository {
    /// Local branch names from `git branch --sort=-committerdate
    /// --format=%(refname:lstrip=2)` output.
    pub fn all_branches(output: &str) -> (r: Vec<String>)
        ensures
            strs(r@) == nonempty_trimmed(lines_seq(output@)),
    {
        let chars = to_chars(output);
        let lines = lines_chars(chars.as_slice());
        let ghost all = vviews(lines@);
        let mut r: Vec<String> = Vec::new();
        let mut i: usize = 0;
        while i < lines.len()
            invariant
                i <= lines@.len(),
                all == vviews(lines@),
                strs(r@) == nonempty_trimmed(all.take(i as int)),
            decreases lines.len() - i,
        {
            assert(all.take(i + 1).drop_last() =~= all.take(i as int));
            assert(all.take(i + 1).last() == lines@[i as int]@);
            let t = trim_chars(lines[i].as_slice());
            if t.len() > 0 {
                r.push(from_chars(t.as_slice()));
            }
            assert(strs(r@) =~= nonempty_trimmed(all.take(i + 1)));
            i = i + 1;
        }
        assert(all.take(all.len() as int) =~= all);
        r
    }

    /// Every local branch name, from `git branch
    /// --format=%(refname:lstrip=2)` output: each line trimmed.
    pub fn local_branches(output: &str) -> (r: Vec<String>)
        ensures
            strs(r@) == lines_seq(output@).map_values(|l: Seq<char>| trim(l)),
    {
        let chars = to_chars(output);
        let lines = lines_chars(chars.as_slice());
        let ghost all = vviews(lines@);
        let mut r: Vec<String> = Vec::new();
        let mut i: usize = 0;
        while i < lines.len()
            invariant
                i <= lines@.len(),
                all == vviews(lines@),
                strs(r@) == all.take(i as int).map_values(|l: Seq<char>| trim(l)),
            decreases lines.len() - i,
        {
            let t = trim_chars(lines[i].as_slice());
            let ghost before = strs(r@);
            r.push(from_chars(t.as_slice()));
            assert(all[i as int] == lines@[i as int]@);
            assert(strs(r@) =~= before.push(trim(all[i as int])));
            assert(all.take(i + 1).map_values(|l: Seq<char>| trim(l))
                =~= all.take(i as int).map_values(|l: Seq<char>| trim(l)).push(trim(all[i as int])));
            i = i + 1;
        }
        assert(all.take(all.len() as int) =~= all);
        r
    }

    fn ref_pairs_of(output: &str, skip_head: bool) -> (r: Vec<(String, String)>)
        ensures
            pairviews(r@) == ref_pairs(lines_seq(output@), skip_head),
    {
        let chars = to_chars(output);
        let lines = lines_chars(chars.as_slice());
        let ghost all = vviews(lines@);
        let head = to_chars("/HEAD");
        let mut r: Vec<(String, String)> = Vec::new();
        let mut i: usize = 0;
        while i < lines.len()
            invariant
                i <= lines@.len(),
                all == vviews(lines@),
                head@ == "/HEAD"@,
                pairviews(r@) == ref_pairs(all.take(i as int), skip_head),
            decreases lines.len() - i,
        {
            assert(all.take(i + 1).drop_last() =~= all.take(i as int));
            assert(all.take(i + 1).last() == lines@[i as int]@);
            match split_once_chars(lines[i].as_slice(), ' ') {
                Some((name, sha)) => {
                    if !(skip_head && ends_with_chars(name.as_slice(), head.as_slice())) {
                        r.push((from_chars(name.as_slice()), from_chars(sha.as_slice())));
                    }
                },
                None => {},
            }
            assert(pairviews(r@) =~= ref_pairs(all.take(i + 1), skip_head));
            i = i + 1;
        }
        assert(all.take(all.len() as int) =~= all);
        r
    }

    /// `(branch, sha)` of each local branch, from `git for-each-ref
    /// --format='%(refname:lstrip=2) %(objectname)' refs/heads/` output.
    pub fn list_local_branches(output: &str) -> (r: Vec<(String, String)>)
        ensures
            pairviews(r@) == ref_pairs(lines_seq(output@), false),
    {
        Self::ref_pairs_of(output, false)
    }

    /// `(remote/branch, sha)` of each remote branch except `<remote>/HEAD`,
    /// from `git for-each-ref ... refs/remotes/` output.
    pub fn list_remote_branches(output: &str) -> (r: Vec<(String, String)>)
        ensures
            pairviews(r@) == ref_pairs(lines_seq(output@), true),
    {
        Self::ref_pairs_of(output, true)
    }

    /// The upstreams that local branches track, each once, from `git
    /// for-each-ref --format=%(upstream:short) refs/heads/` output.
    pub fn list_tracked_upstreams(output: &str) -> (r: Vec<String>)
        ensures
            strs(r@) == distinct_nonempty(lines_seq(output@)),
    {
        let chars = to_chars(output);
        let lines = lines_chars(chars.as_slice());
        let ghost all = vviews(lines@);
        let mut r: Vec<String> = Vec::new();
        let mut i: usize = 0;
        while i < lines.len()
            invariant
                i <= lines@.len(),
                all == vviews(lines@),
                strs(r@) == distinct_nonempty(all.take(i as int)),
            decreases lines.len() - i,
        {
            assert(all.take(i + 1).drop_last() =~= all.take(i as int));
            assert(all.take(i + 1).last() == lines@[i as int]@);
            let line = &lines[i];
            if line.len() > 0 && !contains_string(&r, line.as_slice()) {
                r.push(from_chars(line.as_slice()));
            }
            assert(strs(r@) =~= distinct_nonempty(all.take(i + 1)));
            i = i + 1;
        }
        assert(all.take(all.len() as int) =~= all);
        r
    }

    /// Remote branches that no local branch tracks, from the remote-branch
    /// listing and the listing of upstreams.
    pub fn list_untracked_remote_branches(remote_output: &str, upstream_output: &str) -> (r: Vec<(String, String)>)
        ensures
            pairviews(r@) == pairs_not_in(
                ref_pairs(lines_seq(remote_output@), true),
                distinct_nonempty(lines_seq(upstream_output@)),
            ),
    {
        let all = Self::list_remote_branches(remote_output);
        let upstreams = Self::list_tracked_upstreams(upstream_output);
        let ghost pv = pairviews(all@);
        let ghost ex = strs(upstreams@);
        let mut r: Vec<(String, String)> = Vec::new();
        let mut i: usize = 0;
        while i < all.len()
            invariant
                i <= all@.len(),
                pv == pairviews(all@),
                ex == strs(upstreams@),
                pairviews(r@) == pairs_not_in(pv.take(i as int), ex),
            decreases all.len() - i,
        {
            assert(pv.take(i + 1).drop_last() =~= pv.take(i as int));
            assert(pv.take(i + 1).last() == pair_view(all@[i as int]));
            let name = to_chars(all[i].0.as_str());
            if !contains_string(&upstreams, name.as_slice()) {
                r.push((copy_string(&all[i].0), copy_string(&all[i].1)));
            }
            assert(pairviews(r@) =~= pairs_not_in(pv.take(i + 1), ex));
            i = i + 1;
        }
        assert(pv.take(pv.len() as int) =~= pv);
        r
    }

    /// Local branches that no worktree has checked out, from the branch
    /// listing and the worktree list.
    pub fn available_branches(branch_output: &str, worktrees: &Vec<WorktreeInfo>) -> (r: Vec<String>)
        ensures
            strs(r@) == without_worktree(nonempty_trimmed(lines_seq(branch_output@)), worktrees@),
    {
        let all = Self::all_branches(branch_output);
        let ghost names = strs(all@);
        let mut r: Vec<String> = Vec::new();
        let mut i: usize = 0;
        while i < all.len()
            invariant
                i <= all@.len(),
                names == strs(all@),
                strs(r@) == without_worktree(names.take(i as int), worktrees@),
            decreases all.len() - i,
        {
            assert(names.take(i + 1).drop_last() =~= names.take(i as int));
            assert(names.take(i + 1).last() == all@[i as int]@);
            let name = to_chars(all[i].as_str());
            if !has_worktree(worktrees, name.as_slice()) {
                r.push(copy_string(&all[i]));
            }
            assert(strs(r@) =~= without_worktree(names.take(i + 1), worktrees@));
            i = i + 1;
        }
        assert(names.take(names.len() as int) =~= names);
        r
    }
}


/// Where a completion candidate comes from.
#[derive(Debug, Clone, PartialEq, Eq)]
pub enum BranchCategory {
    /// A branch checked out in a worktree.
    Worktree,
    /// A local branch without a worktree.
    Local,
    /// A branch only on the named remote.
    Remote(String),
}

/// A branch offered for shell completion.
#[derive(Debug, Clone, PartialEq, Eq)]
pub struct CompletionBranch {
    /// The name to complete (for remote branches, the local name).
    pub name: String,
    /// Committer date (Unix seconds; 0 when unreadable).
    pub timestamp: i64,
    /// Where the branch comes from.
    pub category: BranchCategory,
}

/// A completion candidate as the contracts see it: name, timestamp, and the
/// remote it comes from (`None` for worktree and local candidates, whose
/// difference is `in_worktree`).
pub struct CompletionView {
    pub name: Seq<char>,
    pub timestamp: i64,
    pub in_worktree: bool,
    pub remote: Option<Seq<char>>,
}

/// The view of a completion candidate.
pub open spec fn completion_view(c: CompletionBranch) -> CompletionView {
    CompletionView {
        name: c.name@,
        timestamp: c.timestamp,
        in_worktree: c.category is Worktree,
        remote: match c.category {
            BranchCategory::Remote(r) => Some(r@),
            _ => None,
        },
    }
}

/// The views of completion candidates.
pub open spec fn completion_views(v: Seq<CompletionBranch>) -> Seq<CompletionView> {
    v.map_values(|c: CompletionBranch| completion_view(c))
}

/// A timestamp field's value, 0 when it does not parse.
pub open spec fn timestamp_of(s: Seq<char>) -> i64 {
    match parse_i64_spec(s) {
        Some(t) => t,
        None => 0,
    }
}

/// `(name, timestamp)` from `<name>\t<timestamp>` lines; other lines skipped.
pub open spec fn local_entries(lines: Seq<Seq<char>>) -> Seq<(Seq<char>, i64)>
    decreases lines.len(),
{
    if lines.len() == 0 {
        Seq::empty()
    } else {
        let prev = local_entries(lines.drop_last());
        match split_once_seq(lines.last(), '\t') {
            Some((name, ts)) => prev.push((name, timestamp_of(ts))),
            None => prev,
        }
    }
}

/// The names of local entries.
pub open spec fn entry_names(e: Seq<(Seq<char>, i64)>) -> Seq<Seq<char>> {
    e.map_values(|x: (Seq<char>, i64)| x.0)
}

/// The names of remote entries.
pub open spec fn remote_names(e: Seq<(Seq<char>, Seq<char>, i64)>) -> Seq<Seq<char>> {
    e.map_values(|x: (Seq<char>, Seq<char>, i64)| x.0)
}

/// `(local name, remote, timestamp)` from `<remote>/<branch>\t<timestamp>`
/// lines: `HEAD` entries, branches that exist locally, and branches already
/// seen on an earlier line are skipped.
pub open spec fn remote_entries(lines: Seq<Seq<char>>, locals: Seq<Seq<char>>) -> Seq<(Seq<char>, Seq<char>, i64)>
    decreases lines.len(),
{
    if lines.len() == 0 {
        Seq::empty()
    } else {
        let prev = remote_entries(lines.drop_last(), locals);
        match split_once_seq(lines.last(), '\t') {
            Some((full, ts)) => match split_once_seq(full, '/') {
                Some((remote, local)) => if local == "HEAD"@ || locals.contains(local) || remote_names(
                    prev,
                ).contains(local) {
                    prev
                } else {
                    prev.push((local, remote, timestamp_of(ts)))
                },
                None => prev,
            },
            None => prev,
        }
    }
}

/// The local entries with (`with_wt`) or without a worktree, as candidates.
pub open spec fn local_candidates(e: Seq<(Seq<char>, i64)>, wts: Seq<WorktreeInfo>, with_wt: bool) -> Seq<CompletionView>
    decreases e.len(),
{
    if e.len() == 0 {
        Seq::empty()
    } else {
        let prev = local_candidates(e.drop_last(), wts, with_wt);
        if wt_has_branch(wts, e.last().0) == with_wt {
            prev.push(CompletionView { name: e.last().0, timestamp: e.last().1, in_worktree: with_wt, remote: None })
        } else {
            prev
        }
    }
}

/// The remote entries as candidates.
pub open spec fn remote_candidates(e: Seq<(Seq<char>, Seq<char>, i64)>) -> Seq<CompletionView> {
    e.map_values(
        |x: (Seq<char>, Seq<char>, i64)|
            CompletionView { name: x.0, timestamp: x.2, in_worktree: false, remote: Some(x.1) },
    )
}

/// Completion candidates: branches with worktrees, then other local
/// branches (each in the order of the local listing), then remote-only
/// branches.
pub open spec fn completion_spec(
    wts: Seq<WorktreeInfo>,
    local_output: Seq<char>,
    remote_output: Seq<char>,
) -> Seq<CompletionView> {
    let local = local_entries(lines_seq(local_output));
    let remote = remote_entries(lines_seq(remote_output), entry_names(local));
    local_candidates(local, wts, true) + local_candidates(local, wts, false) + remote_candidates(remote)
}

fn parse_local_entries(output: &str) -> (r: Vec<(String, i64)>)
    ensures
        r@.map_values(|x: (String, i64)| (x.0@, x.1)) == local_entries(lines_seq(output@)),
{
    let chars = to_chars(output);
    let lines = lines_chars(chars.as_slice());
    let ghost all = vviews(lines@);
    let mut r: Vec<(String, i64)> = Vec::new();
    let mut i: usize = 0;
    while i < lines.len()
        invariant
            i <= lines@.len(),
            all == vviews(lines@),
            r@.map_values(|x: (String, i64)| (x.0@, x.1)) == local_entries(all.take(i as int)),
        decreases lines.len() - i,
    {
        assert(all.take(i + 1).drop_last() =~= all.take(i as int));
        assert(all.take(i + 1).last() == lines@[i as int]@);
        match split_once_chars(lines[i].as_slice(), '\t') {
            Some((name, ts)) => {
                let t = match parse_i64_chars(ts.as_slice()) {
                    Some(t) => t,
                    None => 0,
                };
                r.push((from_chars(name.as_slice()), t));
            },
            None => {},
        }
        assert(r@.map_values(|x: (String, i64)| (x.0@, x.1)) =~= local_entries(all.take(i + 1)));
        i = i + 1;
    }
    assert(all.take(all.len() as int) =~= all);
    r
}

impl Repository {
    /// Branches for shell completion: worktree branches first, then other
    /// local branches, then remote-only branches, from the worktree list and
    /// `git for-each-ref --sort=-committerdate
    /// --format='%(refname:lstrip=2)\t%(committerdate:unix)'` output for
    /// `refs/heads/` and `refs/remotes/`. A branch on several remotes is
    /// offered once, from the first remote listed (the most recent).
    pub fn branches_for_completion(
        worktrees: &Vec<WorktreeInfo>,
        local_output: &str,
        remote_output: &str,
    ) -> (r: Vec<CompletionBranch>)
        ensures
            completion_views(r@) == completion_spec(worktrees@, local_output@, remote_output@),
    {
        let local = parse_local_entries(local_output);
        let ghost lv = local@.map_values(|x: (String, i64)| (x.0@, x.1));
        let mut local_names: Vec<String> = Vec::new();
        let mut i: usize = 0;
        while i < local.len()
            invariant
                i <= local@.len(),
                lv == local@.map_values(|x: (String, i64)| (x.0@, x.1)),
                strs(local_names@) == entry_names(lv.take(i as int)),
            decreases local.len() - i,
        {
            local_names.push(copy_string(&local[i].0));
            assert(lv[i as int] == (local@[i as int].0@, local@[i as int].1));
            assert(lv.take(i + 1) =~= lv.take(i as int).push(lv[i as int]));
            assert(entry_names(lv.take(i + 1)) =~= entry_names(lv.take(i as int)).push(lv[i as int].0));
            assert(strs(local_names@) =~= entry_names(lv.take(i + 1)));
            i = i + 1;
        }
        assert(lv.take(lv.len() as int) =~= lv);
        let ghost names = strs(local_names@);
        let chars = to_chars(remote_output);
        let lines = lines_chars(chars.as_slice());
        let ghost all = vviews(lines@);
        let head = to_chars("HEAD");
        let mut remote: Vec<(String, String, i64)> = Vec::new();
        let mut seen: Vec<String> = Vec::new();
        let mut j: usize = 0;
        while j < lines.len()
            invariant
                j <= lines@.len(),
                all == vviews(lines@),
                names == strs(local_names@),
                head@ == "HEAD"@,
                remote@.map_values(|x: (String, String, i64)| (x.0@, x.1@, x.2)) == remote_entries(
                    all.take(j as int),
                    names,
                ),
                strs(seen@) == remote_names(remote_entries(all.take(j as int), names)),
            decreases lines.len() - j,
        {
            assert(all.take(j + 1).drop_last() =~= all.take(j as int));
            assert(all.take(j + 1).last() == lines@[j as int]@);
            let ghost prev = remote_entries(all.take(j as int), names);
            match split_once_chars(lines[j].as_slice(), '\t') {
                Some((full, ts)) => match split_once_chars(full.as_slice(), '/') {
                    Some((rname, lname)) => {
                        if !(eq_chars(lname.as_slice(), head.as_slice()) || contains_string(
                            &local_names,
                            lname.as_slice(),
                        ) || contains_string(&seen, lname.as_slice())) {
                            let t = match parse_i64_chars(ts.as_slice()) {
                                Some(t) => t,
                                None => 0,
                            };
                            remote.push((from_chars(lname.as_slice()), from_chars(rname.as_slice()), t));
                            seen.push(from_chars(lname.as_slice()));
                            let ghost x = (lname@, rname@, t);
                            assert(remote_names(prev.push(x)) =~= remote_names(prev).push(x.0));
                        }
                    },
                    None => {},
                },
                None => {},
            }
            assert(remote@.map_values(|x: (String, String, i64)| (x.0@, x.1@, x.2)) =~= remote_entries(
                all.take(j + 1),
                names,
            ));
            assert(strs(seen@) =~= remote_names(remote_entries(all.take(j + 1), names)));
            j = j + 1;
        }
        assert(all.take(all.len() as int) =~= all);
        let ghost rv = remote@.map_values(|x: (String, String, i64)| (x.0@, x.1@, x.2));
        let mut result: Vec<CompletionBranch> = Vec::new();
        let mut pass: usize = 0;
        while pass < 2
            invariant
                pass <= 2,
                lv == local@.map_values(|x: (String, i64)| (x.0@, x.1)),
                completion_views(result@) == (if pass == 0 {
                    Seq::empty()
                } else if pass == 1 {
                    local_candidates(lv, worktrees@, true)
                } else {
                    local_candidates(lv, worktrees@, true) + local_candidates(lv, worktrees@, false)
                }),
            decreases 2 - pass,
        {
            let with_wt = pass == 0;
            let ghost before = completion_views(result@);
            let mut k: usize = 0;
            while k < local.len()
                invariant
                    k <= local@.len(),
                    lv == local@.map_values(|x: (String, i64)| (x.0@, x.1)),
                    completion_views(result@) == before + local_candidates(lv.take(k as int), worktrees@, with_wt),
                decreases local.len() - k,
            {
                assert(lv.take(k + 1).drop_last() =~= lv.take(k as int));
                assert(lv.take(k + 1).last() == (local@[k as int].0@, local@[k as int].1));
                assert(lv[k as int] == (local@[k as int].0@, local@[k as int].1));
                let ghost prev_c = completion_views(result@);
                let n = to_chars(local[k].0.as_str());
                if has_worktree(worktrees, n.as_slice()) == with_wt {
                    let category = if with_wt { BranchCategory::Worktree } else { BranchCategory::Local };
                    result.push(CompletionBranch { name: copy_string(&local[k].0), timestamp: local[k].1, category });
                    assert(completion_views(result@) =~= prev_c.push(
                        CompletionView { name: lv[k as int].0, timestamp: lv[k as int].1, in_worktree: with_wt, remote: None },
                    ));
                }
                assert(completion_views(result@) =~= before + local_candidates(lv.take(k + 1), worktrees@, with_wt));
                k = k + 1;
            }
            assert(lv.take(lv.len() as int) =~= lv);
            pass = pass + 1;
        }
        let ghost before = completion_views(result@);
        let mut m: usize = 0;
        while m < remote.len()
            invariant
                m <= remote@.len(),
                rv == remote@.map_values(|x: (String, String, i64)| (x.0@, x.1@, x.2)),
                completion_views(result@) == before + remote_candidates(rv.take(m as int)),
            decreases remote.len() - m,
        {
            let ghost prev_c = completion_views(result@);
            assert(rv[m as int] == (remote@[m as int].0@, remote@[m as int].1@, remote@[m as int].2));
            assert(rv.take(m + 1) =~= rv.take(m as int).push(rv[m as int]));
            result.push(CompletionBranch {
                name: copy_string(&remote[m].0),
                timestamp: remote[m].2,
                category: BranchCategory::Remote(copy_string(&remote[m].1)),
            });
            let ghost cv = CompletionView { name: rv[m as int].0, timestamp: rv[m as int].2, in_worktree: false, remote: Some(rv[m as int].1) };
            assert(completion_views(result@) =~= prev_c.push(cv));
            assert(remote_candidates(rv.take(m + 1)) =~= remote_candidates(rv.take(m as int)).push(cv));
            assert(completion_views(result@) =~= before + remote_candidates(rv.take(m + 1)));
            m = m + 1;
        }
        assert(rv.take(rv.len() as int) =~= rv);
        result
    }
}


/// A branch of a repository, by name.
#[derive(Debug)]
pub struct Branch<'a> {
    /// The repository the branch belongs to.
    pub repo: &'a Repository,
    /// The branch name.
    pub name: String,
}

/// The remote names among `<remote>/<branch>` lines: each trimmed line
/// without its `/<branch>` suffix; lines without that suffix are skipped.
pub open spec fn remotes_with_branch(lines: Seq<Seq<char>>, branch: Seq<char>) -> Seq<Seq<char>>
    decreases lines.len(),
{
    if lines.len() == 0 {
        Seq::empty()
    } else {
        let prev = remotes_with_branch(lines.drop_last(), branch);
        match strip_suffix(trim(lines.last()), seq!['/'] + branch) {
            Some(r) => prev.push(r),
            None => prev,
        }
    }
}

/// A trimmed value, if it is not empty.
pub open spec fn nonempty_trim(o: Option<Seq<char>>) -> Option<Seq<char>> {
    match o {
        Some(v) => if trim(v).len() > 0 {
            Some(trim(v))
        } else {
            None
        },
        None => None,
    }
}

fn nonempty_trim_exec(o: Option<&str>) -> (r: Option<String>)
    ensures
        ostr(r) == nonempty_trim(match o {
            Some(v) => Some(v@),
            None => None,
        }),
{
    match o {
        Some(v) => {
            let c = to_chars(v);
            let t = trim_chars(c.as_slice());
            if t.len() > 0 {
                Some(from_chars(t.as_slice()))
            } else {
                None
            }
        },
        None => None,
    }
}

impl Repository {
    /// A handle on the branch called `name`.
    pub fn branch(&self, name: &str) -> (r: Branch)
        ensures
            r.name@ == name@,
            r.repo == self,
    {
        Branch { repo: self, name: crate::text::string_of(name) }
    }

    /// A git config value from `git config <key>` output (`None` when the
    /// key is not set), trimmed.
    pub fn get_config(output: Option<&str>) -> (r: Option<String>)
        ensures
            ostr(r) == (match output {
                Some(v) => Some(trim(v@)),
                None => None,
            }),
    {
        match output {
            Some(v) => {
                let c = to_chars(v);
                let t = trim_chars(c.as_slice());
                Some(from_chars(t.as_slice()))
            },
            None => None,
        }
    }

    /// The branch recorded for `wt switch -`, from `git config --get
    /// worktrunk.history` output: trimmed, and only if not empty.
    pub fn get_switch_previous(output: Option<&str>) -> (r: Option<String>)
        ensures
            ostr(r) == nonempty_trim(match output {
                Some(v) => Some(v@),
                None => None,
            }),
    {
        nonempty_trim_exec(output)
    }
}

impl<'a> Branch<'a> {
    /// The branch name.
    pub fn name(&self) -> (r: &str)
        ensures
            r@ == self.name@,
    {
        self.name.as_str()
    }

    /// The ref that names this branch on the primary remote, if the
    /// repository has one.
    pub fn remote_ref(&self) -> (r: Option<String>)
        ensures
            ostr(r) == (match self.repo.primary_remote {
                Some(p) => Some("refs/remotes/"@ + p@ + seq!['/'] + self.name@),
                None => None,
            }),
    {
        match &self.repo.primary_remote {
            Some(p) => {
                let mut v = to_chars("refs/remotes/");
                append_str(&mut v, p.as_str());
                v.push('/');
                append_str(&mut v, self.name.as_str());
                Some(from_chars(v.as_slice()))
            },
            None => None,
        }
    }

    /// Whether the branch exists, locally or on the primary remote, given
    /// whether `refs/heads/<name>` and [`Branch::remote_ref`] resolve.
    pub fn exists_in_repo(&self, exists_locally: bool, remote_ref_resolves: bool) -> (r: bool)
        ensures
            r == (exists_locally || (self.repo.primary_remote is Some && remote_ref_resolves)),
    {
        exists_locally || (self.repo.primary_remote.is_some() && remote_ref_resolves)
    }

    /// The remotes that have this branch, from `git for-each-ref
    /// --format=%(refname:strip=2) refs/remotes/*/<name>` output.
    pub fn remotes(&self, output: &str) -> (r: Vec<String>)
        ensures
            strs(r@) == remotes_with_branch(lines_seq(output@), self.name@),
    {
        let chars = to_chars(output);
        let lines = lines_chars(chars.as_slice());
        let ghost all = vviews(lines@);
        let mut suffix = vec!['/'];
        let n = to_chars(self.name.as_str());
        crate::text::append_chars(&mut suffix, n.as_slice());
        assert(suffix@ =~= seq!['/'] + self.name@);
        let mut r: Vec<String> = Vec::new();
        let mut i: usize = 0;
        while i < lines.len()
            invariant
                i <= lines@.len(),
                all == vviews(lines@),
                suffix@ == seq!['/'] + self.name@,
                strs(r@) == remotes_with_branch(all.take(i as int), self.name@),
            decreases lines.len() - i,
        {
            assert(all.take(i + 1).drop_last() =~= all.take(i as int));
            assert(all.take(i + 1).last() == lines@[i as int]@);
            let t = trim_chars(lines[i].as_slice());
            match strip_suffix_chars(t.as_slice(), suffix.as_slice()) {
                Some(rn) => r.push(from_chars(rn.as_slice())),
                None => {},
            }
            assert(strs(r@) =~= remotes_with_branch(all.take(i + 1), self.name@));
            i = i + 1;
        }
        assert(all.take(all.len() as int) =~= all);
        r
    }

    /// The upstream tracking branch, from `git rev-parse --abbrev-ref
    /// <name>@{u}` output (`None` when the command failed): trimmed, and
    /// only if not empty.
    pub fn upstream(output: Option<&str>) -> (r: Option<String>)
        ensures
            ostr(r) == nonempty_trim(match output {
                Some(v) => Some(v@),
                None => None,
            }),
    {
        nonempty_trim_exec(output)
    }
}

/// Hint names among `git config --get-regexp ^worktrunk\.hints\.` output
/// lines: the first word of each line without `worktrunk.hints.`.
pub open spec fn hint_names(lines: Seq<Seq<char>>) -> Seq<Seq<char>>
    decreases lines.len(),
{
    if lines.len() == 0 {
        Seq::empty()
    } else {
        let prev = hint_names(lines.drop_last());
        match first_word(lines.last()) {
            Some(key) => match strip_prefix(key, "worktrunk.hints."@) {
                Some(name) => prev.push(name),
                None => prev,
            },
            None => prev,
        }
    }
}

impl Repository {
    /// The hints shown in this repository, from `git config --get-regexp
    /// ^worktrunk\.hints\.` output (empty when the command failed).
    pub fn list_shown_hints(output: &str) -> (r: Vec<String>)
        ensures
            strs(r@) == hint_names(lines_seq(output@)),
    {
        let chars = to_chars(output);
        let lines = lines_chars(chars.as_slice());
        let ghost all = vviews(lines@);
        let prefix = to_chars("worktrunk.hints.");
        let mut r: Vec<String> = Vec::new();
        let mut i: usize = 0;
        while i < lines.len()
            invariant
                i <= lines@.len(),
                all == vviews(lines@),
                prefix@ == "worktrunk.hints."@,
                strs(r@) == hint_names(all.take(i as int)),
            decreases lines.len() - i,
        {
            assert(all.take(i + 1).drop_last() =~= all.take(i as int));
            assert(all.take(i + 1).last() == lines@[i as int]@);
            match first_word_exec(lines[i].as_slice()) {
                Some(key) => match strip_prefix_chars(key.as_slice(), prefix.as_slice()) {
                    Some(name) => r.push(from_chars(name.as_slice())),
                    None => {},
                },
                None => {},
            }
            assert(strs(r@) =~= hint_names(all.take(i + 1)));
            i = i + 1;
        }
        assert(all.take(all.len() as int) =~= all);
        r
    }
}


/// Remote-only completion candidates are offered once each, never for a
/// branch that exists locally, and never for a remote's `HEAD`.
pub proof fn lemma_remote_candidates_unique(lines: Seq<Seq<char>>, locals: Seq<Seq<char>>)
    ensures
        forall|i: int, j: int| 0 <= i < j < remote_entries(lines, locals).len()
            ==> (#[trigger] remote_entries(lines, locals)[i]).0 != (#[trigger] remote_entries(lines, locals)[j]).0,
        forall|i: int| 0 <= i < remote_entries(lines, locals).len() ==> {
            let n = (#[trigger] remote_entries(lines, locals)[i]).0;
            !locals.contains(n) && n != "HEAD"@
        },
    decreases lines.len(),
{
    if lines.len() > 0 {
        lemma_remote_candidates_unique(lines.drop_last(), locals);
        let prev = remote_entries(lines.drop_last(), locals);
        let cur = remote_entries(lines, locals);
        if cur.len() > prev.len() {
            assert(cur == prev.push(cur.last()));
            let x = cur.last();
            assert forall|i: int| 0 <= i < prev.len() implies prev[i].0 != x.0 by {
                assert(remote_names(prev)[i] == prev[i].0);
            }
            assert forall|i: int, j: int| 0 <= i < j < cur.len() implies (#[trigger] cur[i]).0 != (#[trigger] cur[j]).0 by {
                if j < prev.len() {
                    assert(cur[i] == prev[i]);
                    assert(cur[j] == prev[j]);
                } else {
                    assert(cur[i] == prev[i]);
                }
            }
            assert forall|i: int| 0 <= i < cur.len() implies {
                let n = (#[trigger] cur[i]).0;
                !locals.contains(n) && n != "HEAD"@
            } by {
                if i < prev.len() {
                    assert(cur[i] == prev[i]);
                }
            }
        } else {
            assert(cur == prev);
        }
    }
}

/// The upstreams listed are non-empty and each listed once.
pub proof fn lemma_upstreams_distinct(lines: Seq<Seq<char>>)
    ensures
        forall|i: int, j: int| 0 <= i < j < distinct_nonempty(lines).len()
            ==> #[trigger] distinct_nonempty(lines)[i] != #[trigger] distinct_nonempty(lines)[j],
        forall|i: int| 0 <= i < distinct_nonempty(lines).len() ==> (#[trigger] distinct_nonempty(lines)[i]).len() > 0,
    decreases lines.len(),
{
    if lines.len() > 0 {
        lemma_upstreams_distinct(lines.drop_last());
        let prev = distinct_nonempty(lines.drop_last());
        let cur = distinct_nonempty(lines);
        if cur.len() > prev.len() {
            assert(cur == prev.push(lines.last()));
            assert forall|i: int, j: int| 0 <= i < j < cur.len() implies #[trigger] cur[i] != #[trigger] cur[j] by {
                assert(cur[i] == prev[i]);
                if j < prev.len() {
                    assert(cur[j] == prev[j]);
                }
            }
            assert forall|i: int| 0 <= i < cur.len() implies (#[trigger] cur[i]).len() > 0 by {
                if i < prev.len() {
                    assert(cur[i] == prev[i]);
                }
            }
        } else {
            assert(cur == prev);
        }
    }
}


/// What a branch-or-worktree argument resolved to: an existing worktree
/// (with its branch, `None` when detached), or a branch with no worktree.
#[derive(Debug, Clone)]
pub enum ResolvedWorktree {
    Worktree { path: String, branch: Option<String> },
    BranchOnly { branch: String },
}

/// Whether the characters of `a` occur in `b` in order.
pub open spec fn is_subsequence(a: Seq<char>, b: Seq<char>) -> bool
    decreases b.len(),
{
    if a.len() == 0 {
        true
    } else if b.len() == 0 {
        false
    } else if a[0] == b[0] {
        is_subsequence(a.drop_first(), b.drop_first())
    } else {
        is_subsequence(a, b.drop_first())
    }
}

/// How closely a branch name matches typed input: 0 when equal, 1 when the
/// name starts with it, 2 when the input is a subsequence of the name, 3 for
/// no match.
pub open spec fn match_rank(input: Seq<char>, name: Seq<char>) -> int {
    if name == input {
        0
    } else if starts_with(name, input) {
        1
    } else if is_subsequence(input, name) {
        2
    } else {
        3
    }
}

fn is_subsequence_exec(a: &[char], b: &[char]) -> (r: bool)
    ensures
        r == is_subsequence(a@, b@),
{
    let mut i: usize = 0;
    let mut j: usize = 0;
    assert(a@.skip(0) =~= a@);
    assert(b@.skip(0) =~= b@);
    while i < a.len() && j < b.len()
        invariant
            i <= a@.len(),
            j <= b@.len(),
            is_subsequence(a@, b@) == is_subsequence(a@.skip(i as int), b@.skip(j as int)),
        decreases b@.len() - j,
    {
        assert(a@.skip(i as int).drop_first() =~= a@.skip(i + 1));
        assert(b@.skip(j as int).drop_first() =~= b@.skip(j + 1));
        if a[i] == b[j] {
            i = i + 1;
        }
        j = j + 1;
    }
    i == a.len()
}

fn match_rank_exec(input: &[char], name: &[char]) -> (r: u8)
    ensures
        r == match_rank(input@, name@),
{
    if eq_chars(name, input) {
        0
    } else if starts_with_chars(name, input) {
        1
    } else if is_subsequence_exec(input, name) {
        2
    } else {
        3
    }
}

impl Repository {
    /// The branch that best matches typed `input`: an exact name first, then
    /// a name that starts with the input, then one that contains its
    /// characters in order; among equally good matches, the first listed.
    /// `None` for empty input or when nothing matches.
    pub fn fuzzy_match_branch<'a>(input: &str, branches: &'a Vec<String>) -> (r: Option<&'a str>)
        ensures
            input@.len() == 0 ==> r is None,
            input@.len() > 0 ==> match r {
                None => forall|j: int| 0 <= j < branches@.len() ==> match_rank(input@, #[trigger] branches@[j]@) == 3,
                Some(s) => exists|i: int|
                    0 <= i < branches@.len() && s@ == branches@[i]@ && match_rank(input@, branches@[i]@) < 3
                        && (forall|j: int| 0 <= j < branches@.len()
                            ==> match_rank(input@, #[trigger] branches@[j]@) >= match_rank(input@, branches@[i]@))
                        && (forall|j: int| 0 <= j < i
                            ==> match_rank(input@, #[trigger] branches@[j]@) > match_rank(input@, branches@[i]@)),
            },
    {
        let inp = to_chars(input);
        if inp.len() == 0 {
            return None;
        }
        let mut best: usize = 0;
        let mut best_rank: u8 = 3;
        let mut k: usize = 0;
        while k < branches.len()
            invariant
                k <= branches@.len(),
                inp@ == input@,
                best_rank <= 3,
                best_rank < 3 ==> best < k && best_rank == match_rank(input@, branches@[best as int]@),
                forall|j: int| 0 <= j < k ==> match_rank(input@, #[trigger] branches@[j]@) >= best_rank,
                best_rank < 3 ==> forall|j: int| 0 <= j < best ==> match_rank(input@, #[trigger] branches@[j]@) > best_rank,
            decreases branches.len() - k,
        {
            let name = to_chars(branches[k].as_str());
            let rk = match_rank_exec(inp.as_slice(), name.as_slice());
            if rk < best_rank {
                best = k;
                best_rank = rk;
            }
            k = k + 1;
        }
        if best_rank < 3 {
            Some(branches[best].as_str())
        } else {
            None
        }
    }
}

} // verus!
