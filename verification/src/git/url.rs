//! Git remote URLs: the network host and the repository path they name.
//!
//! Recognized forms are `https://`, `http://`, `git://` and `ssh://` URLs
//! (`scheme://[userinfo@]host[:port]/path`) and scp-like addresses
//! (`[user@]host:path`). The host is what follows the last `@` of the
//! authority, so userinfo never passes for a host; `ssh://` URLs lose their
//! port. The path's last segment (without `.git`) is the repository and the
//! segments before it are the owner.

use vstd::prelude::*;
use crate::text::{
    after_last_or_all, contains_char, rfind, rfind_char, slice_copy, split_once_chars,
    split_once_seq, starts_with, starts_with_chars, strip_suffix_or_keep, strip_suffix_or_keep_chars,
    tail, to_chars, lemma_find_from_bounds, trim, trim_chars, trim_end_matches, trim_end_matches_chars,
    trim_start_matches, trim_start_matches_chars, from_chars, find_first, find_char_from,
};

verus! {

/// A parsed remote URL.
#[derive(Debug, Clone, PartialEq, Eq)]
pub struct GitRemoteUrl {
    host: String,
    owner: String,
    repo: String,
}

/// What a [`GitRemoteUrl`] holds.
pub struct RemoteUrlView {
    pub host: Seq<char>,
    pub owner: Seq<char>,
    pub repo: Seq<char>,
}

impl View for GitRemoteUrl {
    type V = RemoteUrlView;

    closed spec fn view(&self) -> RemoteUrlView {
        RemoteUrlView { host: self.host@, owner: self.owner@, repo: self.repo@ }
    }
}

/// The text after a recognized scheme, and whether that scheme is `ssh://`.
pub open spec fn scheme_rest(u: Seq<char>) -> Option<(Seq<char>, bool)> {
    if starts_with(u, "https://"@) {
        Some((u.skip(8), false))
    } else if starts_with(u, "http://"@) {
        Some((u.skip(7), false))
    } else if starts_with(u, "git://"@) {
        Some((u.skip(6), false))
    } else if starts_with(u, "ssh://"@) {
        Some((u.skip(6), true))
    } else {
        None
    }
}

/// The text before the first `d`, or all of `s`.
pub open spec fn before_first(s: Seq<char>, d: char) -> Seq<char> {
    match find_first(s, d) {
        Some(i) => s.take(i),
        None => s,
    }
}

/// The network host and the path of a remote URL, if it has a recognized form.
pub open spec fn host_and_path(u: Seq<char>) -> Option<(Seq<char>, Seq<char>)> {
    match scheme_rest(u) {
        Some((rest, ssh)) => {
            let (authority, path) = match split_once_seq(rest, '/') {
                Some(p) => p,
                None => (rest, Seq::empty()),
            };
            let host = after_last_or_all(authority, '@');
            Some((if ssh { before_first(host, ':') } else { host }, path))
        },
        None => match split_once_seq(u, ':') {
            Some((authority, path)) => if authority.contains('/') {
                None
            } else {
                Some((after_last_or_all(authority, '@'), path))
            },
            None => None,
        },
    }
}

/// The repository path: no leading or trailing `/`, no `.git` suffix.
pub open spec fn repo_path(path: Seq<char>) -> Seq<char> {
    strip_suffix_or_keep(trim_end_matches(trim_start_matches(path, '/'), '/'), ".git"@)
}

/// The parsed form of a remote URL (surrounding whitespace ignored): `None`
/// unless it has a recognized form, a host, and a path with an owner and a
/// repository.
pub open spec fn parse_remote_url(url: Seq<char>) -> Option<RemoteUrlView> {
    match host_and_path(trim(url)) {
        Some((host, path)) => {
            let p = repo_path(path);
            match rfind(p, '/') {
                Some(i) => if host.len() > 0 && i > 0 && i + 1 < p.len() {
                    Some(RemoteUrlView { host, owner: p.take(i), repo: p.skip(i + 1) })
                } else {
                    None
                },
                None => None,
            }
        },
        None => None,
    }
}

fn scheme_rest_exec(u: &[char]) -> (r: Option<(Vec<char>, bool)>)
    ensures
        r matches Some((rest, ssh)) ==> scheme_rest(u@) == Some((rest@, ssh)),
        r is None ==> scheme_rest(u@) is None,
{
    let https = to_chars("https://");
    let http = to_chars("http://");
    let git = to_chars("git://");
    let ssh = to_chars("ssh://");
    proof {
        reveal_strlit("https://");
        reveal_strlit("http://");
        reveal_strlit("git://");
        reveal_strlit("ssh://");
    }
    if starts_with_chars(u, https.as_slice()) {
        Some((tail(u, 8), false))
    } else if starts_with_chars(u, http.as_slice()) {
        Some((tail(u, 7), false))
    } else if starts_with_chars(u, git.as_slice()) {
        Some((tail(u, 6), false))
    } else if starts_with_chars(u, ssh.as_slice()) {
        Some((tail(u, 6), true))
    } else {
        None
    }
}

fn before_first_exec(s: &[char], d: char) -> (r: Vec<char>)
    ensures
        r@ == before_first(s@, d),
{
    proof {
        lemma_find_from_bounds(s@, d, 0);
    }
    match find_char_from(s, d, 0) {
        Some(i) => {
            let r = slice_copy(s, 0, i);
            assert(s@.subrange(0, i as int) =~= s@.take(i as int));
            r
        },
        None => {
            assert(s@.subrange(0, s@.len() as int) =~= s@);
            slice_copy(s, 0, s.len())
        },
    }
}

fn after_last_exec(s: &[char], d: char) -> (r: Vec<char>)
    ensures
        r@ == after_last_or_all(s@, d),
{
    match rfind_char(s, d) {
        Some(i) => {
            assert(i < s.len());
            tail(s, i + 1)
        },
        None => {
            assert(s@.subrange(0, s@.len() as int) =~= s@);
            slice_copy(s, 0, s.len())
        },
    }
}

fn host_and_path_exec(u: &[char]) -> (r: Option<(Vec<char>, Vec<char>)>)
    ensures
        r matches Some((h, p)) ==> host_and_path(u@) == Some((h@, p@)),
        r is None ==> host_and_path(u@) is None,
{
    match scheme_rest_exec(u) {
        Some((rest, ssh)) => {
            let (authority, path) = match split_once_chars(rest.as_slice(), '/') {
                Some(p) => p,
                None => {
                    let n = rest.len();
                    let a = slice_copy(rest.as_slice(), 0, n);
                    assert(rest@.subrange(0, n as int) =~= rest@);
                    (a, Vec::new())
                },
            };
            let host = after_last_exec(authority.as_slice(), '@');
            if ssh {
                Some((before_first_exec(host.as_slice(), ':'), path))
            } else {
                Some((host, path))
            }
        },
        None => match split_once_chars(u, ':') {
            Some((authority, path)) => {
                if contains_char(authority.as_slice(), '/') {
                    None
                } else {
                    Some((after_last_exec(authority.as_slice(), '@'), path))
                }
            },
            None => None,
        },
    }
}

fn repo_path_exec(path: &[char]) -> (r: Vec<char>)
    ensures
        r@ == repo_path(path@),
{
    let a = trim_start_matches_chars(path, '/');
    let b = trim_end_matches_chars(a.as_slice(), '/');
    let git = to_chars(".git");
    strip_suffix_or_keep_chars(b.as_slice(), git.as_slice())
}

impl GitRemoteUrl {
    /// Parse a remote URL; `None` when it has no recognized form or lacks a
    /// host, an owner or a repository.
    pub fn parse(url: &str) -> (r: Option<GitRemoteUrl>)
        ensures
            r matches Some(p) ==> parse_remote_url(url@) == Some(p@),
            r is None ==> parse_remote_url(url@) is None,
    {
        let chars = to_chars(url);
        let u = trim_chars(chars.as_slice());
        let (host, path) = match host_and_path_exec(u.as_slice()) {
            Some(hp) => hp,
            None => return None,
        };
        let p = repo_path_exec(path.as_slice());
        match rfind_char(p.as_slice(), '/') {
            Some(i) => {
                assert(i < p.len());
                if host.len() > 0 && i > 0 && i + 1 < p.len() {
                    let owner = slice_copy(p.as_slice(), 0, i);
                    let repo = tail(p.as_slice(), i + 1);
                    assert(p@.subrange(0, i as int) =~= p@.take(i as int));
                    let r = GitRemoteUrl {
                        host: from_chars(host.as_slice()),
                        owner: from_chars(owner.as_slice()),
                        repo: from_chars(repo.as_slice()),
                    };
                    Some(r)
                } else {
                    None
                }
            },
            None => None,
        }
    }

    /// The network host (with its port, for non-`ssh://` URLs).
    pub fn host(&self) -> (r: &str)
        ensures
            r@ == self@.host,
    {
        self.host.as_str()
    }

    /// The owner: the path segments before the repository.
    pub fn owner(&self) -> (r: &str)
        ensures
            r@ == self@.owner,
    {
        self.owner.as_str()
    }

    /// The repository name, without `.git`.
    pub fn repo(&self) -> (r: &str)
        ensures
            r@ == self@.repo,
    {
        self.repo.as_str()
    }
}

} // verus!
