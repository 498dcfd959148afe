//! Finding the processes whose working directory is under a worktree, for
//! `wt remove --reap`.
//!
//! Two guards keep reaping conservative: a process that holds a controlling
//! terminal (an interactive shell or a terminal editor) is never a candidate,
//! and neither is the running `wt` process. Running `lsof` and `ps` and
//! sending signals is the caller's part; this module parses their output and
//! decides.

use vstd::prelude::*;
use crate::git::remote_ref::info::copy_string;
use crate::git::version::{first_word, until_ws};
use crate::text::{
    append_chars, decimal, decimal_chars, drop_empty, eq_chars, from_chars, is_ws, is_ws_exec,
    lines_chars, lines_seq, parse_u32_chars, parse_u32_spec, split_chars, split_seq, tail,
    to_chars, trim, trim_chars, trim_start, vviews, slice_copy,
};

verus! {

/// One process discovered under a worktree: its PID, short command name, and
/// the working directory `lsof` reported.
#[derive(Debug, Clone, PartialEq, Eq)]
pub struct CwdProcess {
    pub pid: u32,
    /// Short command name from `lsof` (truncated to ~9 chars by `lsof`).
    pub command: String,
    /// The working directory.
    pub cwd: String,
}

/// A process as the contracts see it.
pub open spec fn proc_view(p: CwdProcess) -> (u32, Seq<char>, Seq<char>) {
    (p.pid, p.command@, p.cwd@)
}

/// The views of processes.
pub open spec fn proc_views(v: Seq<CwdProcess>) -> Seq<(u32, Seq<char>, Seq<char>)> {
    v.map_values(|p: CwdProcess| proc_view(p))
}

/// The state of reading `lsof -F pcn` output: the current PID (if the last
/// `p` line had a valid one), the current command, and the processes found.
pub struct LsofState {
    pub pid: Option<u32>,
    pub command: Seq<char>,
    pub found: Seq<(u32, Seq<char>, Seq<char>)>,
}

/// The state after one more `lsof` field line: `p<pid>` starts a process
/// (its PID trimmed and parsed) with no command; `c<command>` names it;
/// `n<path>` records it with that path if its PID was valid; other lines
/// change nothing.
pub open spec fn lsof_step(st: LsofState, line: Seq<char>) -> LsofState {
    if line.len() == 0 {
        st
    } else {
        let rest = line.skip(1);
        if line[0] == 'p' {
            LsofState { pid: parse_u32_spec(trim(rest)), command: Seq::empty(), found: st.found }
        } else if line[0] == 'c' {
            LsofState { pid: st.pid, command: rest, found: st.found }
        } else if line[0] == 'n' {
            match st.pid {
                Some(p) => LsofState { pid: st.pid, command: st.command, found: st.found.push((p, st.command, rest)) },
                None => st,
            }
        } else {
            st
        }
    }
}

/// The state after reading `lines`.
pub open spec fn lsof_fold(lines: Seq<Seq<char>>) -> LsofState
    decreases lines.len(),
{
    if lines.len() == 0 {
        LsofState { pid: None, command: Seq::empty(), found: Seq::empty() }
    } else {
        lsof_step(lsof_fold(lines.drop_last()), lines.last())
    }
}

/// Parse `lsof -d cwd -F pcn` field output into one [`CwdProcess`] per
/// process that has a working-directory line.
pub fn parse_lsof_cwd(stdout: &str) -> (r: Vec<CwdProcess>)
    ensures
        proc_views(r@) == lsof_fold(lines_seq(stdout@)).found,
{
    let chars = to_chars(stdout);
    let lines = lines_chars(chars.as_slice());
    let ghost all = vviews(lines@);
    let mut out: Vec<CwdProcess> = Vec::new();
    let mut pid: Option<u32> = None;
    let mut command: Vec<char> = Vec::new();
    let mut i: usize = 0;
    assert(all.take(0) =~= Seq::<Seq<char>>::empty());
    assert(proc_views(out@) =~= Seq::<(u32, Seq<char>, Seq<char>)>::empty());
    assert(command@ =~= Seq::<char>::empty());
    while i < lines.len()
        invariant
            i <= lines@.len(),
            all == vviews(lines@),
            lsof_fold(all.take(i as int)) == (LsofState { pid, command: command@, found: proc_views(out@) }),
        decreases lines.len() - i,
    {
        assert(all.take(i + 1).drop_last() =~= all.take(i as int));
        assert(all.take(i + 1).last() == lines@[i as int]@);
        let line = &lines[i];
        if line.len() > 0 {
            let rest = tail(line.as_slice(), 1);
            if line[0] == 'p' {
                let t = trim_chars(rest.as_slice());
                pid = parse_u32_chars(t.as_slice());
                command = Vec::new();
            } else if line[0] == 'c' {
                command = rest;
            } else if line[0] == 'n' {
                match pid {
                    Some(p) => {
                        let ghost before = proc_views(out@);
                        out.push(CwdProcess { pid: p, command: from_chars(command.as_slice()), cwd: from_chars(rest.as_slice()) });
                        assert(proc_views(out@) =~= before.push((p, command@, rest@)));
                    },
                    None => {},
                }
            }
        }
        proof {
            let st = lsof_fold(all.take(i + 1));
            assert(st == lsof_step(lsof_fold(all.take(i as int)), line@));
        }
        assert(command@ == lsof_fold(all.take(i + 1)).command);
        assert(proc_views(out@) =~= lsof_fold(all.take(i + 1)).found);
        i = i + 1;
    }
    assert(all.take(all.len() as int) =~= all);
    out
}

/// The text after the first whitespace-separated word of `s`.
pub open spec fn after_first_word(s: Seq<char>) -> Seq<char> {
    trim_start(s).skip(until_ws(trim_start(s)).len() as int)
}

/// Whether a `ps` terminal field names a controlling terminal: not `?...`
/// and not `-`.
pub open spec fn names_tty(tty: Seq<char>) -> bool {
    !((tty.len() > 0 && tty[0] == '?') || tty == seq!['-'])
}

/// `(pid, has controlling terminal)` of each `ps -o pid=,tty=` line whose
/// first word is a PID; a missing terminal field counts as `?`.
pub open spec fn ps_entries(lines: Seq<Seq<char>>) -> Seq<(u32, bool)>
    decreases lines.len(),
{
    if lines.len() == 0 {
        Seq::empty()
    } else {
        let prev = ps_entries(lines.drop_last());
        let line = lines.last();
        match first_word(line) {
            Some(w) => match parse_u32_spec(w) {
                Some(pid) => {
                    let tty = match first_word(after_first_word(line)) {
                        Some(t) => t,
                        None => seq!['?'],
                    };
                    prev.push((pid, names_tty(tty)))
                },
                None => prev,
            },
            None => prev,
        }
    }
}

proof fn lemma_until_ws_prefix(s: Seq<char>)
    ensures
        until_ws(s).len() <= s.len(),
        until_ws(s) == s.take(until_ws(s).len() as int),
        until_ws(s).len() == s.len() || is_ws(s[until_ws(s).len() as int]),
        forall|k: int| 0 <= k < until_ws(s).len() ==> !is_ws(#[trigger] s[k]),
    decreases s.len(),
{
    if s.len() > 0 && !is_ws(s[0]) {
        lemma_until_ws_prefix(s.drop_first());
        assert(until_ws(s) =~= seq![s[0]] + until_ws(s.drop_first()));
        assert forall|k: int| 0 <= k < until_ws(s).len() implies !is_ws(#[trigger] s[k]) by {
            if k > 0 {
                assert(s[k] == s.drop_first()[k - 1]);
            }
        }
    } else {
        assert(s.take(0) =~= Seq::<char>::empty());
    }
}

/// The first word of `s` and the text after it.
fn split_first_word(s: &[char]) -> (r: Option<(Vec<char>, Vec<char>)>)
    ensures
        r matches Some((w, rest)) ==> first_word(s@) == Some(w@) && rest@ == after_first_word(s@),
        r is None ==> first_word(s@) is None,
{
    let mut a: usize = 0;
    assert(s@.skip(0) =~= s@);
    while a < s.len() && is_ws_exec(s[a])
        invariant
            a <= s@.len(),
            trim_start(s@) == trim_start(s@.skip(a as int)),
        decreases s.len() - a,
    {
        assert(s@.skip(a as int).drop_first() =~= s@.skip(a + 1));
        a = a + 1;
    }
    assert(trim_start(s@) == s@.skip(a as int));
    if a == s.len() {
        return None;
    }
    let mut b: usize = a;
    while b < s.len() && !is_ws_exec(s[b])
        invariant
            a <= b <= s@.len(),
            forall|k: int| a <= k < b ==> !is_ws(s@[k]),
        decreases s.len() - b,
    {
        b = b + 1;
    }
    proof {
        let t = s@.skip(a as int);
        lemma_until_ws_prefix(t);
        let n = until_ws(t).len() as int;
        if n < b - a {
            assert(is_ws(t[n]));
            assert(t[n] == s@[a + n]);
        }
        if n > b - a {
            assert(!is_ws(t[b - a]));
            assert(t[b - a] == s@[b as int]);
        }
        assert(n == b - a);
        assert(t.take(b - a) =~= s@.subrange(a as int, b as int));
        assert(t.skip(b - a) =~= s@.skip(b as int));
    }
    Some((slice_copy(s, a, b), tail(s, b)))
}

/// Parse `ps -o pid=,tty=` output into `(pid, has_controlling_terminal)`
/// pairs; lines that do not start with a PID are ignored.
pub fn parse_ps_tty(stdout: &str) -> (r: Vec<(u32, bool)>)
    ensures
        r@ == ps_entries(lines_seq(stdout@)),
{
    let chars = to_chars(stdout);
    let lines = lines_chars(chars.as_slice());
    let ghost all = vviews(lines@);
    let mut r: Vec<(u32, bool)> = Vec::new();
    let mut i: usize = 0;
    while i < lines.len()
        invariant
            i <= lines@.len(),
            all == vviews(lines@),
            r@ == ps_entries(all.take(i as int)),
        decreases lines.len() - i,
    {
        assert(all.take(i + 1).drop_last() =~= all.take(i as int));
        assert(all.take(i + 1).last() == lines@[i as int]@);
        match split_first_word(lines[i].as_slice()) {
            Some((w, rest)) => match parse_u32_chars(w.as_slice()) {
                Some(pid) => {
                    let tty: Vec<char> = match split_first_word(rest.as_slice()) {
                        Some((t, _)) => t,
                        None => vec!['?'],
                    };
                    let none = (tty.len() > 0 && tty[0] == '?') || (tty.len() == 1 && tty[0] == '-');
                    assert((tty.len() == 1 && tty[0] == '-') == (tty@ == seq!['-'])) by {
                        if tty.len() == 1 && tty[0] == '-' {
                            assert(tty@ =~= seq!['-']);
                        }
                    }
                    r.push((pid, !none));
                },
                None => {},
            },
            None => {},
        }
        i = i + 1;
    }
    assert(all.take(all.len() as int) =~= all);
    r
}

/// The PIDs among `ps` entries that hold no controlling terminal.
pub open spec fn detached_pids(e: Seq<(u32, bool)>) -> Seq<u32>
    decreases e.len(),
{
    if e.len() == 0 {
        Seq::empty()
    } else if e.last().1 {
        detached_pids(e.drop_last())
    } else {
        detached_pids(e.drop_last()).push(e.last().0)
    }
}

/// The PIDs without a controlling terminal, from the output of `ps -o
/// pid=,tty= -p <pids>`; `None` (the probe could not run or failed) gives
/// none at all, so that nothing is reaped without a trustworthy reading.
pub fn without_controlling_terminal(ps_output: Option<&str>) -> (r: Vec<u32>)
    ensures
        r@ == (match ps_output {
            Some(o) => detached_pids(ps_entries(lines_seq(o@))),
            None => Seq::empty(),
        }),
{
    match ps_output {
        Some(o) => {
            let entries = parse_ps_tty(o);
            let mut r: Vec<u32> = Vec::new();
            let mut i: usize = 0;
            while i < entries.len()
                invariant
                    i <= entries@.len(),
                    r@ == detached_pids(entries@.take(i as int)),
                decreases entries.len() - i,
            {
                assert(entries@.take(i + 1).drop_last() =~= entries@.take(i as int));
                if !entries[i].1 {
                    r.push(entries[i].0);
                }
                i = i + 1;
            }
            assert(entries@.take(entries@.len() as int) =~= entries@);
            r
        },
        None => Vec::new(),
    }
}

/// The `-p` argument of `ps`: the PIDs, comma-separated.
pub open spec fn pid_list_spec(pids: Seq<u32>) -> Seq<char>
    decreases pids.len(),
{
    if pids.len() == 0 {
        Seq::empty()
    } else if pids.len() == 1 {
        decimal(pids[0] as nat)
    } else {
        pid_list_spec(pids.drop_last()) + seq![','] + decimal(pids.last() as nat)
    }
}

/// Join PIDs with commas for `ps -p`.
pub fn pid_list(pids: &[u32]) -> (r: String)
    ensures
        r@ == pid_list_spec(pids@),
{
    let mut v: Vec<char> = Vec::new();
    let mut i: usize = 0;
    while i < pids.len()
        invariant
            i <= pids@.len(),
            v@ == pid_list_spec(pids@.take(i as int)),
        decreases pids.len() - i,
    {
        assert(pids@.take(i + 1).drop_last() =~= pids@.take(i as int));
        if i > 0 {
            v.push(',');
        }
        let d = decimal_chars(pids[i] as u64);
        append_chars(&mut v, d.as_slice());
        assert(v@ =~= pid_list_spec(pids@.take(i + 1)));
        i = i + 1;
    }
    assert(pids@.take(pids@.len() as int) =~= pids@);
    from_chars(v.as_slice())
}

/// The candidates whose PID is among `reapable`, in their order.
pub open spec fn keep_reapable(c: Seq<(u32, Seq<char>, Seq<char>)>, reapable: Seq<u32>) -> Seq<(u32, Seq<char>, Seq<char>)>
    decreases c.len(),
{
    if c.len() == 0 {
        Seq::empty()
    } else if reapable.contains(c.last().0) {
        keep_reapable(c.drop_last(), reapable).push(c.last())
    } else {
        keep_reapable(c.drop_last(), reapable)
    }
}

fn contains_pid(v: &Vec<u32>, x: u32) -> (r: bool)
    ensures
        r == v@.contains(x),
{
    let mut i: usize = 0;
    while i < v.len()
        invariant
            i <= v@.len(),
            forall|k: int| 0 <= k < i ==> v@[k] != x,
        decreases v.len() - i,
    {
        if v[i] == x {
            return true;
        }
        i = i + 1;
    }
    false
}

fn copy_proc(p: &CwdProcess) -> (r: CwdProcess)
    ensures
        proc_view(r) == proc_view(*p),
{
    CwdProcess { pid: p.pid, command: copy_string(&p.command), cwd: copy_string(&p.cwd) }
}

/// The processes eligible for reaping: the candidates (already limited to the
/// worktree, without this process) that hold no controlling terminal.
pub fn collect_reapable(candidates: &Vec<CwdProcess>, reapable: &Vec<u32>) -> (r: Vec<CwdProcess>)
    ensures
        proc_views(r@) == keep_reapable(proc_views(candidates@), reapable@),
{
    let ghost cv = proc_views(candidates@);
    let mut r: Vec<CwdProcess> = Vec::new();
    let mut i: usize = 0;
    while i < candidates.len()
        invariant
            i <= candidates@.len(),
            cv == proc_views(candidates@),
            proc_views(r@) == keep_reapable(cv.take(i as int), reapable@),
        decreases candidates.len() - i,
    {
        assert(cv.take(i + 1).drop_last() =~= cv.take(i as int));
        assert(cv.take(i + 1).last() == proc_view(candidates@[i as int]));
        if contains_pid(reapable, candidates[i].pid) {
            let ghost before = proc_views(r@);
            r.push(copy_proc(&candidates[i]));
            assert(proc_views(r@) =~= before.push(proc_view(candidates@[i as int])));
        }
        i = i + 1;
    }
    assert(cv.take(cv.len() as int) =~= cv);
    r
}


/// `s` without `.` segments.
pub open spec fn drop_dots(s: Seq<Seq<char>>) -> Seq<Seq<char>>
    decreases s.len(),
{
    if s.len() == 0 {
        Seq::empty()
    } else if s.last() == seq!['.'] {
        drop_dots(s.drop_last())
    } else {
        drop_dots(s.drop_last()).push(s.last())
    }
}

/// The normal components of a `/`-separated path.
pub open spec fn path_parts(p: Seq<char>) -> Seq<Seq<char>> {
    drop_dots(drop_empty(split_seq(p, '/')))
}

/// Whether a path is absolute.
pub open spec fn is_absolute(p: Seq<char>) -> bool {
    p.len() > 0 && p[0] == '/'
}

/// Whether path `p` is `base` or lies under it, compared component by
/// component (`/a/bc` is not under `/a/b`).
pub open spec fn path_under(p: Seq<char>, base: Seq<char>) -> bool {
    &&& is_absolute(p) == is_absolute(base)
    &&& path_parts(base).len() <= path_parts(p).len()
    &&& path_parts(p).take(path_parts(base).len() as int) == path_parts(base)
}

/// Insert `x` into `s` after every element whose PID is at most `x`'s.
pub open spec fn insert_by_pid(s: Seq<(u32, Seq<char>, Seq<char>)>, x: (u32, Seq<char>, Seq<char>)) -> Seq<(u32, Seq<char>, Seq<char>)>
    decreases s.len(),
{
    if s.len() == 0 {
        seq![x]
    } else if s.last().0 <= x.0 {
        s.push(x)
    } else {
        insert_by_pid(s.drop_last(), x).push(s.last())
    }
}

/// `s` sorted by PID, keeping the order of equal PIDs (insertion sort).
pub open spec fn sort_by_pid(s: Seq<(u32, Seq<char>, Seq<char>)>) -> Seq<(u32, Seq<char>, Seq<char>)>
    decreases s.len(),
{
    if s.len() == 0 {
        Seq::empty()
    } else {
        insert_by_pid(sort_by_pid(s.drop_last()), s.last())
    }
}

/// The processes under `root`, other than `self_pid`, in input order.
pub open spec fn under_root(
    procs: Seq<(u32, Seq<char>, Seq<char>)>,
    self_pid: u32,
    root: Seq<char>,
) -> Seq<(u32, Seq<char>, Seq<char>)>
    decreases procs.len(),
{
    if procs.len() == 0 {
        Seq::empty()
    } else {
        let prev = under_root(procs.drop_last(), self_pid, root);
        let p = procs.last();
        if p.0 != self_pid && path_under(p.2, root) {
            prev.push(p)
        } else {
            prev
        }
    }
}

proof fn lemma_insert_at(s: Seq<(u32, Seq<char>, Seq<char>)>, x: (u32, Seq<char>, Seq<char>), k: int)
    requires
        0 <= k <= s.len(),
        forall|j: int| k <= j < s.len() ==> s[j].0 > x.0,
        k == 0 || s[k - 1].0 <= x.0,
    ensures
        insert_by_pid(s, x) == s.take(k).push(x) + s.skip(k),
    decreases s.len() - k,
{
    if s.len() == k {
        if s.len() > 0 {
            assert(s.take(k).push(x) + s.skip(k) =~= s.push(x));
        } else {
            assert(s.take(k).push(x) + s.skip(k) =~= seq![x]);
        }
    } else {
        lemma_insert_at(s.drop_last(), x, k);
        assert(s.drop_last().take(k) =~= s.take(k));
        assert((s.take(k).push(x) + s.drop_last().skip(k)).push(s.last()) =~= s.take(k).push(x) + s.skip(k));
    }
}

fn dot_free_parts(p: &str) -> (r: Vec<Vec<char>>)
    ensures
        vviews(r@) == path_parts(p@),
{
    let c = to_chars(p);
    let parts = crate::text::drop_empty_fields(split_chars(c.as_slice(), '/'));
    let ghost pv = vviews(parts@);
    let mut r: Vec<Vec<char>> = Vec::new();
    let mut i: usize = 0;
    while i < parts.len()
        invariant
            i <= parts@.len(),
            pv == vviews(parts@),
            pv == drop_empty(split_seq(p@, '/')),
            vviews(r@) == drop_dots(pv.take(i as int)),
        decreases parts.len() - i,
    {
        assert(pv.take(i + 1).drop_last() =~= pv.take(i as int));
        assert(pv.take(i + 1).last() == parts@[i as int]@);
        let seg = &parts[i];
        let is_dot = seg.len() == 1 && seg[0] == '.';
        assert(is_dot == (seg@ == seq!['.'])) by {
            if seg.len() == 1 && seg[0] == '.' {
                assert(seg@ =~= seq!['.']);
            }
        }
        if !is_dot {
            let ghost before = vviews(r@);
            r.push(slice_copy(seg.as_slice(), 0, seg.len()));
            assert(seg@.subrange(0, seg@.len() as int) =~= seg@);
            assert(vviews(r@) =~= before.push(seg@));
        }
        i = i + 1;
    }
    assert(pv.take(pv.len() as int) =~= pv);
    r
}

fn is_under(p: &str, base_parts: &Vec<Vec<char>>, base_abs: bool) -> (r: bool)
    ensures
        r == (is_absolute(p@) == base_abs && vviews(base_parts@).len() <= path_parts(p@).len()
            && path_parts(p@).take(vviews(base_parts@).len() as int) == vviews(base_parts@)),
{
    let c = to_chars(p);
    let abs = c.len() > 0 && c[0] == '/';
    assert(abs == is_absolute(p@));
    if abs != base_abs {
        return false;
    }
    let parts = dot_free_parts(p);
    let ghost pv = vviews(parts@);
    let ghost bv = vviews(base_parts@);
    assert(pv.len() == parts@.len());
    assert(bv.len() == base_parts@.len());
    if base_parts.len() > parts.len() {
        return false;
    }
    let mut i: usize = 0;
    while i < base_parts.len()
        invariant
            i <= base_parts@.len() <= parts@.len(),
            pv == vviews(parts@),
            pv == path_parts(p@),
            is_absolute(p@) == base_abs,
            bv == vviews(base_parts@),
            forall|k: int| 0 <= k < i ==> pv[k] == bv[k],
        decreases base_parts.len() - i,
    {
        if !eq_chars(parts[i].as_slice(), base_parts[i].as_slice()) {
            assert(pv.take(bv.len() as int)[i as int] != bv[i as int]);
            return false;
        }
        i = i + 1;
    }
    assert(pv.take(bv.len() as int) =~= bv);
    true
}

/// The processes whose working directory is `root` or under it, other
/// than this process (`self_pid`), sorted by PID (stable). `root` is the
/// canonical worktree path.
pub fn processes_under(procs: &Vec<CwdProcess>, self_pid: u32, root: &str) -> (r: Vec<CwdProcess>)
    ensures
        proc_views(r@) == sort_by_pid(under_root(proc_views(procs@), self_pid, root@)),
{
    let ghost all = proc_views(procs@);
    let base = dot_free_parts(root);
    let rc = to_chars(root);
    let base_abs = rc.len() > 0 && rc[0] == '/';
    let ghost kept = under_root(all, self_pid, root@);
    let mut r: Vec<CwdProcess> = Vec::new();
    let mut i: usize = 0;
    while i < procs.len()
        invariant
            i <= procs@.len(),
            all == proc_views(procs@),
            vviews(base@) == path_parts(root@),
            base_abs == is_absolute(root@),
            proc_views(r@) == sort_by_pid(under_root(all.take(i as int), self_pid, root@)),
        decreases procs.len() - i,
    {
        assert(all.take(i + 1).drop_last() =~= all.take(i as int));
        assert(all.take(i + 1).last() == proc_view(procs@[i as int]));
        let p = &procs[i];
        let ghost prevk = under_root(all.take(i as int), self_pid, root@);
        assert(all[i as int] == proc_view(*p));
        if p.pid != self_pid && is_under(p.cwd.as_str(), &base, base_abs) {
            assert(under_root(all.take(i + 1), self_pid, root@) == prevk.push(proc_view(*p)));
            assert(prevk.push(proc_view(*p)).drop_last() =~= prevk);
            let ghost s = proc_views(r@);
            let ghost x = proc_view(*p);
            let mut k: usize = r.len();
            while k > 0 && r[k - 1].pid > p.pid
                invariant
                    k <= r@.len(),
                    s == proc_views(r@),
                    x == proc_view(*p),
                    forall|j: int| k <= j < s.len() ==> s[j].0 > x.0,
                decreases k,
            {
                k = k - 1;
            }
            proof {
                lemma_insert_at(s, x, k as int);
            }
            r.insert(k, copy_proc(p));
            assert(proc_views(r@) =~= s.take(k as int).push(x) + s.skip(k as int));
        }
        i = i + 1;
    }
    assert(all.take(all.len() as int) =~= all);
    r
}


/// Whether `s` is in non-decreasing PID order.
pub open spec fn pid_sorted(s: Seq<(u32, Seq<char>, Seq<char>)>) -> bool {
    forall|i: int, j: int| 0 <= i < j < s.len() ==> s[i].0 <= s[j].0
}

proof fn lemma_insert_bounded(s: Seq<(u32, Seq<char>, Seq<char>)>, x: (u32, Seq<char>, Seq<char>), m: u32)
    requires
        forall|i: int| 0 <= i < s.len() ==> s[i].0 <= m,
        x.0 <= m,
    ensures
        forall|i: int| 0 <= i < insert_by_pid(s, x).len() ==> insert_by_pid(s, x)[i].0 <= m,
    decreases s.len(),
{
    let r = insert_by_pid(s, x);
    if s.len() == 0 {
        assert(r == seq![x]);
    } else if s.last().0 <= x.0 {
        assert(r == s.push(x));
        assert forall|i: int| 0 <= i < r.len() implies r[i].0 <= m by {
            if i < s.len() {
                assert(r[i] == s[i]);
            }
        }
    } else {
        let u = s.drop_last();
        lemma_insert_bounded(u, x, m);
        assert(r == insert_by_pid(u, x).push(s.last()));
        assert forall|i: int| 0 <= i < r.len() implies r[i].0 <= m by {
            if i < insert_by_pid(u, x).len() {
                assert(r[i] == insert_by_pid(u, x)[i]);
            }
        }
    }
}

proof fn lemma_insert_sorted(s: Seq<(u32, Seq<char>, Seq<char>)>, x: (u32, Seq<char>, Seq<char>))
    requires
        pid_sorted(s),
    ensures
        pid_sorted(insert_by_pid(s, x)),
        insert_by_pid(s, x).len() == s.len() + 1,
        insert_by_pid(s, x).to_multiset() == s.to_multiset().insert(x),
    decreases s.len(),
{
    broadcast use vstd::seq_lib::to_multiset_build;

    if s.len() == 0 {
        assert(seq![x] =~= Seq::<(u32, Seq<char>, Seq<char>)>::empty().push(x));
        assert(s =~= Seq::<(u32, Seq<char>, Seq<char>)>::empty());
    } else if s.last().0 <= x.0 {
    } else {
        let u = s.drop_last();
        lemma_insert_sorted(u, x);
        lemma_insert_bounded(u, x, s.last().0);
        assert(s =~= u.push(s.last()));
    }
}

/// Sorting by PID orders the processes by PID and keeps each of them.
pub proof fn lemma_sort_by_pid(s: Seq<(u32, Seq<char>, Seq<char>)>)
    ensures
        pid_sorted(sort_by_pid(s)),
        sort_by_pid(s).to_multiset() == s.to_multiset(),
    decreases s.len(),
{
    broadcast use vstd::seq_lib::to_multiset_build;

    if s.len() == 0 {
        assert(s =~= Seq::<(u32, Seq<char>, Seq<char>)>::empty());
    } else {
        lemma_sort_by_pid(s.drop_last());
        lemma_insert_sorted(sort_by_pid(s.drop_last()), s.last());
        assert(s =~= s.drop_last().push(s.last()));
    }
}

/// The processes that `processes_under` returns come in PID order, and they
/// are exactly the processes under the root other than this process.
pub proof fn lemma_processes_under_sorted(procs: Seq<(u32, Seq<char>, Seq<char>)>, self_pid: u32, root: Seq<char>)
    ensures
        pid_sorted(sort_by_pid(under_root(procs, self_pid, root))),
        sort_by_pid(under_root(procs, self_pid, root)).to_multiset() == under_root(procs, self_pid, root).to_multiset(),
{
    lemma_sort_by_pid(under_root(procs, self_pid, root));
}


/// Only candidates whose PID the terminal probe reported as detached are
/// reaped, each as it was discovered.
pub proof fn lemma_reapable_subset(c: Seq<(u32, Seq<char>, Seq<char>)>, reapable: Seq<u32>)
    ensures
        forall|i: int| 0 <= i < keep_reapable(c, reapable).len() ==> reapable.contains(
            (#[trigger] keep_reapable(c, reapable)[i]).0,
        ) && c.contains(keep_reapable(c, reapable)[i]),
    decreases c.len(),
{
    if c.len() > 0 {
        lemma_reapable_subset(c.drop_last(), reapable);
        let prev = keep_reapable(c.drop_last(), reapable);
        let cur = keep_reapable(c, reapable);
        assert forall|i: int| 0 <= i < cur.len() implies reapable.contains((#[trigger] cur[i]).0) && c.contains(cur[i]) by {
            if i < prev.len() {
                assert(cur[i] == prev[i]);
                let k = choose|k: int| 0 <= k < c.drop_last().len() && c.drop_last()[k] == prev[i];
                assert(c[k] == prev[i]);
            } else {
                assert(cur[i] == c.last());
                assert(c[c.len() - 1] == c.last());
            }
        }
    }
}

} // verus!
