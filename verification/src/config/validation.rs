//! Checking the user config's values: a worktree-path template, set
//! globally or for a project, must not be blank.

use vstd::prelude::*;
use crate::text::{append_chars, from_chars, to_chars, trim, trim_chars};

verus! {

/// Why the config's values were refused.
#[derive(Debug, Clone)]
pub struct ConfigError(pub String);

/// The first blank worktree path among `projects` (name, path), as the
/// index of its entry.
pub open spec fn first_blank_project(projects: Seq<(Seq<char>, Option<Seq<char>>)>, from: int) -> Option<int>
    decreases projects.len() - from,
{
    if from < 0 || from >= projects.len() {
        None
    } else if projects[from].1 matches Some(p) && trim(p).len() == 0 {
        Some(from)
    } else {
        first_blank_project(projects, from + 1)
    }
}

/// The views of the project entries.
pub open spec fn project_views(projects: Seq<(String, Option<String>)>) -> Seq<(Seq<char>, Option<Seq<char>>)> {
    projects.map_values(|p: (String, Option<String>)| (p.0@, match p.1 { Some(w) => Some(w@), None => None }))
}

/// The outcome of checking: the global worktree path first, then each
/// project's in order; the first blank one is named.
pub open spec fn validate_spec(worktree_path: Option<Seq<char>>, projects: Seq<(Seq<char>, Option<Seq<char>>)>) -> Result<(), Seq<char>> {
    if worktree_path matches Some(p) && trim(p).len() == 0 {
        Err("worktree-path cannot be empty"@)
    } else {
        match first_blank_project(projects, 0) {
            Some(i) => Err("projects."@ + projects[i].0 + ".worktree-path cannot be empty"@),
            None => Ok(()),
        }
    }
}

/// Check the worktree-path templates of the user config: `worktree_path` is
/// the global one (when set) and `projects` each project's name and its
/// worktree path (when set), in the config's order.
pub fn validate(worktree_path: Option<&str>, projects: &Vec<(String, Option<String>)>) -> (r: Result<(), ConfigError>)
    ensures
        match validate_spec(
            match worktree_path { Some(p) => Some(p@), None => None },
            project_views(projects@),
        ) {
            Ok(()) => r is Ok,
            Err(m) => r matches Err(ConfigError(e)) && e@ == m,
        },
{
    if let Some(p) = worktree_path {
        if trim_chars(to_chars(p).as_slice()).len() == 0 {
            return Err(ConfigError(crate::text::string_of("worktree-path cannot be empty")));
        }
    }
    let ghost pv = project_views(projects@);
    let mut i: usize = 0;
    while i < projects.len()
        invariant
            i <= projects@.len(),
            pv == project_views(projects@),
            first_blank_project(pv, 0) == first_blank_project(pv, i as int),
            worktree_path matches Some(p) ==> trim(p@).len() > 0,
        decreases projects.len() - i,
    {
        match &projects[i].1 {
            Some(p) => {
                if trim_chars(to_chars(p.as_str()).as_slice()).len() == 0 {
                    assert(pv[i as int] == (projects@[i as int].0@, Some(p@)));
                    assert(first_blank_project(pv, i as int) == Some(i as int));
                    let mut v = to_chars("projects.");
                    append_chars(&mut v, to_chars(projects[i].0.as_str()).as_slice());
                    append_chars(&mut v, to_chars(".worktree-path cannot be empty").as_slice());
                    let e = from_chars(v.as_slice());
                    assert(e@ == "projects."@ + pv[i as int].0 + ".worktree-path cannot be empty"@);
                    return Err(ConfigError(e));
                }
            },
            None => {},
        }
        assert(pv[i as int].1 == match projects@[i as int].1 { Some(w) => Some(w@), None => None });
        i = i + 1;
    }
    assert(first_blank_project(pv, i as int) is None);
    Ok(())
}

} // verus!
