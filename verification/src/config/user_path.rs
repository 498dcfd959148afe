//! Where the user and system config files are looked for.

use vstd::prelude::*;
use crate::text::{
    append_str, drop_empty, drop_empty_fields, from_chars, split_chars, split_seq, string_of, to_chars, vviews,
};

verus! {

/// `base` joined with the relative path `part`, as Unix paths join: no
/// separator is added after an empty base or one that ends in `/`.
pub open spec fn join_path(base: Seq<char>, part: Seq<char>) -> Seq<char> {
    if base.len() == 0 {
        part
    } else if base.last() == '/' {
        base + part
    } else {
        base + seq!['/'] + part
    }
}

/// The config file of worktrunk inside the config directory `dir`.
pub open spec fn config_file_in(dir: Seq<char>) -> Seq<char> {
    join_path(join_path(dir, "worktrunk"@), "config.toml"@)
}

fn join_path_exec(base: &str, part: &str) -> (r: String)
    ensures
        r@ == join_path(base@, part@),
{
    let b = to_chars(base);
    if b.len() == 0 {
        string_of(part)
    } else {
        let mut v = b;
        if v[v.len() - 1] != '/' {
            v.push('/');
        }
        append_str(&mut v, part);
        from_chars(v.as_slice())
    }
}

fn config_file_in_exec(dir: &str) -> (r: String)
    ensures
        r@ == config_file_in(dir@),
{
    let d = join_path_exec(dir, "worktrunk");
    proof {
        reveal_strlit("worktrunk");
    }
    join_path_exec(d.as_str(), "config.toml")
}

/// The user config file: the `--config` path when one was given, else the
/// `WORKTRUNK_CONFIG_PATH` value when set, else `worktrunk/config.toml`
/// under the platform's config directory, if it has one.
pub fn get_config_path(cli_path: Option<&str>, env_path: Option<&str>, config_dir: Option<&str>) -> (r: Option<String>)
    ensures
        match (cli_path, env_path, config_dir) {
            (Some(p), _, _) => r matches Some(s) && s@ == p@,
            (None, Some(p), _) => r matches Some(s) && s@ == p@,
            (None, None, Some(d)) => r matches Some(s) && s@ == config_file_in(d@),
            (None, None, None) => r is None,
        },
{
    match cli_path {
        Some(p) => Some(string_of(p)),
        None => match env_path {
            Some(p) => Some(string_of(p)),
            None => match config_dir {
                Some(d) => Some(config_file_in_exec(d)),
                None => None,
            },
        },
    }
}

/// The config files inside each of `dirs`, in order.
pub open spec fn config_files(dirs: Seq<Seq<char>>) -> Seq<Seq<char>> {
    dirs.map_values(|d: Seq<char>| config_file_in(d))
}

fn config_files_exec(dirs: &Vec<Vec<char>>) -> (r: Vec<String>)
    ensures
        r@.map_values(|s: String| s@) == config_files(vviews(dirs@)),
{
    let mut r: Vec<String> = Vec::new();
    let mut i: usize = 0;
    while i < dirs.len()
        invariant
            i <= dirs@.len(),
            r@.map_values(|s: String| s@) == config_files(vviews(dirs@).take(i as int)),
        decreases dirs.len() - i,
    {
        let d = from_chars(dirs[i].as_slice());
        let f = config_file_in_exec(d.as_str());
        let ghost before = r@;
        r.push(f);
        assert(r@.map_values(|s: String| s@) =~= before.map_values(|s: String| s@).push(f@));
        assert(config_files(vviews(dirs@).take(i + 1)) =~= config_files(vviews(dirs@).take(i as int)).push(f@));
        i = i + 1;
    }
    assert(vviews(dirs@).take(dirs@.len() as int) =~= vviews(dirs@));
    r
}

/// The system config files to look for, in order (the first that exists is
/// used): only `WORKTRUNK_SYSTEM_CONFIG_PATH` when it is set; else one in
/// each non-empty entry of `XDG_CONFIG_DIRS` when that is set; else one in
/// each of the platform's system config directories.
pub open spec fn system_candidates(env_path: Option<Seq<char>>, xdg_dirs: Option<Seq<char>>, platform_dirs: Seq<Seq<char>>) -> Seq<Seq<char>> {
    match env_path {
        Some(p) => seq![p],
        None => match xdg_dirs {
            Some(x) => config_files(drop_empty(split_seq(x, ':'))),
            None => config_files(platform_dirs),
        },
    }
}

/// The optional string's view.
pub open spec fn opt_seq(o: Option<&str>) -> Option<Seq<char>> {
    match o {
        Some(s) => Some(s@),
        None => None,
    }
}

/// The system config files to look for, in order of priority.
pub fn system_config_candidates(env_path: Option<&str>, xdg_dirs: Option<&str>, platform_dirs: &Vec<String>) -> (r: Vec<String>)
    ensures
        r@.map_values(|s: String| s@) == system_candidates(
            opt_seq(env_path),
            opt_seq(xdg_dirs),
            platform_dirs@.map_values(|s: String| s@),
        ),
{
    match env_path {
        Some(p) => {
            let r = vec![string_of(p)];
            assert(r@.map_values(|s: String| s@) =~= seq![p@]);
            r
        },
        None => match xdg_dirs {
            Some(x) => {
                let c = to_chars(x);
                let parts = split_chars(c.as_slice(), ':');
                let dirs = drop_empty_fields(parts);
                config_files_exec(&dirs)
            },
            None => {
                let mut dirs: Vec<Vec<char>> = Vec::new();
                let mut i: usize = 0;
                while i < platform_dirs.len()
                    invariant
                        i <= platform_dirs@.len(),
                        vviews(dirs@) == platform_dirs@.map_values(|s: String| s@).take(i as int),
                    decreases platform_dirs.len() - i,
                {
                    let d = to_chars(platform_dirs[i].as_str());
                    let ghost before = dirs@;
                    dirs.push(d);
                    assert(vviews(dirs@) =~= vviews(before).push(d@));
                    assert(platform_dirs@.map_values(|s: String| s@).take(i + 1)
                        =~= platform_dirs@.map_values(|s: String| s@).take(i as int).push(d@));
                    i = i + 1;
                }
                assert(platform_dirs@.map_values(|s: String| s@).take(platform_dirs@.len() as int)
                    =~= platform_dirs@.map_values(|s: String| s@));
                config_files_exec(&dirs)
            },
        },
    }
}

/// Where the system config file is expected: the `WORKTRUNK_SYSTEM_CONFIG_PATH`
/// value when set, else the config file in the first platform directory.
pub fn default_system_config_path(env_path: Option<&str>, platform_dirs: &Vec<String>) -> (r: Option<String>)
    ensures
        match env_path {
            Some(p) => r matches Some(s) && s@ == p@,
            None => if platform_dirs@.len() > 0 {
                r matches Some(s) && s@ == config_file_in(platform_dirs@[0]@)
            } else {
                r is None
            },
        },
{
    match env_path {
        Some(p) => Some(string_of(p)),
        None => if platform_dirs.len() > 0 {
            Some(config_file_in_exec(platform_dirs[0].as_str()))
        } else {
            None
        },
    }
}

} // verus!
