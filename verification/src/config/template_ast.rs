//! A MiniJinja template as its parser reads it, and what it reads and
//! binds: every variable read with the character range of its identifier,
//! and every name a `set`, `for` or `with` binds.
//!
//! The tree mirrors MiniJinja's own syntax tree node for node; names that
//! are not variable reads (attributes, filter and test names, keyword
//! argument names) are kept as text, not as expressions. Spans are
//! MiniJinja's byte offsets; the reads handed on carry character offsets.

use vstd::prelude::*;
use crate::config::deprecation::{
    kept_pairs, mentions_retired, mentions_retired_var, migrate_retired_vars, read_views, replacement_for, retired_vars,
    spliced, sviews,
    TemplateVars,
};
use crate::git::remote_ref::info::copy_string;
use crate::text::to_chars;
use minijinja::machinery::ast;

verus! {

/// An expression.
#[derive(Debug)]
pub enum TplExpr {
    /// A variable read: its name and the byte range of the identifier.
    Var { name: String, start: usize, end: usize },
    Const,
    Slice { expr: Box<TplExpr>, start: Option<Box<TplExpr>>, stop: Option<Box<TplExpr>>, step: Option<Box<TplExpr>> },
    UnaryOp { expr: Box<TplExpr> },
    BinOp { left: Box<TplExpr>, right: Box<TplExpr> },
    /// A chained comparison: the first operand and each later one.
    Compare { expr: Box<TplExpr>, ops: Vec<TplExpr> },
    IfExpr { test_expr: Box<TplExpr>, true_expr: Box<TplExpr>, false_expr: Option<Box<TplExpr>> },
    Filter { name: String, expr: Option<Box<TplExpr>>, args: Vec<TplArg> },
    Test { name: String, expr: Box<TplExpr>, args: Vec<TplArg> },
    GetAttr { expr: Box<TplExpr>, name: String },
    GetItem { expr: Box<TplExpr>, subscript_expr: Box<TplExpr> },
    Call { expr: Box<TplExpr>, args: Vec<TplArg> },
    List { items: Vec<TplExpr> },
    /// A map literal.
    MapLit { keys: Vec<TplExpr>, values: Vec<TplExpr> },
}

/// An argument of a call, a filter or a test.
#[derive(Debug)]
pub enum TplArg {
    Pos(TplExpr),
    Kwarg(String, TplExpr),
    PosSplat(TplExpr),
    KwargSplat(TplExpr),
}

/// A statement.
#[derive(Debug)]
pub enum TplStmt {
    Template { children: Vec<TplStmt> },
    EmitExpr { expr: TplExpr },
    EmitRaw,
    ForLoop { target: TplExpr, iter: TplExpr, filter_expr: Option<TplExpr>, body: Vec<TplStmt>, else_body: Vec<TplStmt> },
    IfCond { expr: TplExpr, true_body: Vec<TplStmt>, false_body: Vec<TplStmt> },
    WithBlock { assignments: Vec<(TplExpr, TplExpr)>, body: Vec<TplStmt> },
    /// `{% set target = expr %}`.
    SetVar { target: TplExpr, expr: TplExpr },
    SetBlock { target: TplExpr, filter: Option<TplExpr>, body: Vec<TplStmt> },
    AutoEscape { enabled: TplExpr, body: Vec<TplStmt> },
    FilterBlock { filter: TplExpr, body: Vec<TplStmt> },
    /// `{% do %}` with its call: the callee and the arguments.
    Do { expr: TplExpr, args: Vec<TplArg> },
}

/// The variable reads of an expression, in the order the walk visits them.
pub open spec fn expr_reads(e: TplExpr) -> Seq<(Seq<char>, usize, usize)>
    decreases e,
{
    match e {
        TplExpr::Var { name, start, end } => seq![(name@, start, end)],
        TplExpr::Const => Seq::empty(),
        TplExpr::Slice { expr, start, stop, step } => expr_reads(*expr) + opt_reads(start) + opt_reads(stop) + opt_reads(step),
        TplExpr::UnaryOp { expr } => expr_reads(*expr),
        TplExpr::BinOp { left, right } => expr_reads(*left) + expr_reads(*right),
        TplExpr::Compare { expr, ops } => expr_reads(*expr) + exprs_reads(ops@),
        TplExpr::IfExpr { test_expr, true_expr, false_expr } => expr_reads(*test_expr) + expr_reads(*true_expr) + opt_reads(false_expr),
        TplExpr::Filter { name, expr, args } => opt_reads(expr) + args_reads(args@),
        TplExpr::Test { name, expr, args } => expr_reads(*expr) + args_reads(args@),
        TplExpr::GetAttr { expr, name } => expr_reads(*expr),
        TplExpr::GetItem { expr, subscript_expr } => expr_reads(*expr) + expr_reads(*subscript_expr),
        TplExpr::Call { expr, args } => expr_reads(*expr) + args_reads(args@),
        TplExpr::List { items } => exprs_reads(items@),
        TplExpr::MapLit { keys, values } => exprs_reads(keys@) + exprs_reads(values@),
    }
}

/// The reads of an optional expression.
pub open spec fn opt_reads(o: Option<Box<TplExpr>>) -> Seq<(Seq<char>, usize, usize)>
    decreases o,
{
    match o {
        Some(e) => expr_reads(*e),
        None => Seq::empty(),
    }
}

/// The reads of expressions, in order.
pub open spec fn exprs_reads(es: Seq<TplExpr>) -> Seq<(Seq<char>, usize, usize)>
    decreases es,
{
    if es.len() == 0 {
        Seq::empty()
    } else {
        exprs_reads(es.drop_last()) + expr_reads(es.last())
    }
}

/// The reads of arguments, in order (a keyword's name is not a read).
pub open spec fn args_reads(args: Seq<TplArg>) -> Seq<(Seq<char>, usize, usize)>
    decreases args,
{
    if args.len() == 0 {
        Seq::empty()
    } else {
        args_reads(args.drop_last()) + match args.last() {
            TplArg::Pos(e) => expr_reads(e),
            TplArg::Kwarg(_, e) => expr_reads(e),
            TplArg::PosSplat(e) => expr_reads(e),
            TplArg::KwargSplat(e) => expr_reads(e),
        }
    }
}

/// Reads and bindings side by side.
pub open spec fn both(
    a: (Seq<(Seq<char>, usize, usize)>, Seq<Seq<char>>),
    b: (Seq<(Seq<char>, usize, usize)>, Seq<Seq<char>>),
) -> (Seq<(Seq<char>, usize, usize)>, Seq<Seq<char>>) {
    (a.0 + b.0, a.1 + b.1)
}

/// Reads alone.
pub open spec fn reads_only(r: Seq<(Seq<char>, usize, usize)>) -> (Seq<(Seq<char>, usize, usize)>, Seq<Seq<char>>) {
    (r, Seq::empty())
}

/// An assignment target: a name is bound, a tuple binds each of its items,
/// and anything else (an attribute or an item) is read.
pub open spec fn target_walk(t: TplExpr) -> (Seq<(Seq<char>, usize, usize)>, Seq<Seq<char>>)
    decreases t,
{
    match t {
        TplExpr::Var { name, start, end } => (Seq::empty(), seq![name@]),
        TplExpr::List { items } => targets_walk(items@),
        _ => reads_only(expr_reads(t)),
    }
}

/// Targets, in order.
pub open spec fn targets_walk(ts: Seq<TplExpr>) -> (Seq<(Seq<char>, usize, usize)>, Seq<Seq<char>>)
    decreases ts,
{
    if ts.len() == 0 {
        (Seq::empty(), Seq::empty())
    } else {
        both(targets_walk(ts.drop_last()), target_walk(ts.last()))
    }
}

/// What a statement reads and binds, in the order the walk visits them.
pub open spec fn stmt_walk(s: TplStmt) -> (Seq<(Seq<char>, usize, usize)>, Seq<Seq<char>>)
    decreases s,
{
    match s {
        TplStmt::Template { children } => stmts_walk(children@),
        TplStmt::EmitExpr { expr } => reads_only(expr_reads(expr)),
        TplStmt::EmitRaw => (Seq::empty(), Seq::empty()),
        TplStmt::ForLoop { target, iter, filter_expr, body, else_body } => both(
            both(target_walk(target), reads_only(expr_reads(iter))),
            both(
                reads_only(match filter_expr { Some(f) => expr_reads(f), None => Seq::empty() }),
                both(stmts_walk(body@), stmts_walk(else_body@)),
            ),
        ),
        TplStmt::IfCond { expr, true_body, false_body } => both(
            reads_only(expr_reads(expr)),
            both(stmts_walk(true_body@), stmts_walk(false_body@)),
        ),
        TplStmt::WithBlock { assignments, body } => both(assigns_walk(assignments@), stmts_walk(body@)),
        TplStmt::SetVar { target, expr } => both(target_walk(target), reads_only(expr_reads(expr))),
        TplStmt::SetBlock { target, filter, body } => both(
            target_walk(target),
            both(reads_only(match filter { Some(f) => expr_reads(f), None => Seq::empty() }), stmts_walk(body@)),
        ),
        TplStmt::AutoEscape { enabled, body } => both(reads_only(expr_reads(enabled)), stmts_walk(body@)),
        TplStmt::FilterBlock { filter, body } => both(reads_only(expr_reads(filter)), stmts_walk(body@)),
        TplStmt::Do { expr, args } => reads_only(expr_reads(expr) + args_reads(args@)),
    }
}

/// Statements, in order.
pub open spec fn stmts_walk(ss: Seq<TplStmt>) -> (Seq<(Seq<char>, usize, usize)>, Seq<Seq<char>>)
    decreases ss,
{
    if ss.len() == 0 {
        (Seq::empty(), Seq::empty())
    } else {
        both(stmts_walk(ss.drop_last()), stmt_walk(ss.last()))
    }
}

/// The assignments of a `with`: each target, then its value.
pub open spec fn assigns_walk(ps: Seq<(TplExpr, TplExpr)>) -> (Seq<(Seq<char>, usize, usize)>, Seq<Seq<char>>)
    decreases ps,
{
    if ps.len() == 0 {
        (Seq::empty(), Seq::empty())
    } else {
        both(assigns_walk(ps.drop_last()), both(target_walk(ps.last().0), reads_only(expr_reads(ps.last().1))))
    }
}


/// Record a read.
fn push_read(reads: &mut Vec<(String, usize, usize)>, name: &String, start: usize, end: usize)
    ensures
        read_views(final(reads)@) == read_views(old(reads)@).push((name@, start, end)),
{
    let ghost before = reads@;
    reads.push((copy_string(name), start, end));
    assert(read_views(reads@) =~= read_views(before).push((name@, start, end)));
}

/// Append the reads of `e`.
fn walk_expr(e: &TplExpr, reads: &mut Vec<(String, usize, usize)>)
    ensures
        read_views(final(reads)@) == read_views(old(reads)@) + expr_reads(*e),
    decreases e,
{
    let ghost r0 = read_views(reads@);
    match e {
        TplExpr::Var { name, start, end } => {
            push_read(reads, name, *start, *end);
        },
        TplExpr::Const => {
            assert(r0 + expr_reads(*e) =~= r0);
        },
        TplExpr::Slice { expr, start, stop, step } => {
            walk_expr(expr, reads);
            walk_opt(start, reads);
            walk_opt(stop, reads);
            walk_opt(step, reads);
            assert(read_views(reads@) =~= r0 + expr_reads(*e));
        },
        TplExpr::UnaryOp { expr } => {
            walk_expr(expr, reads);
        },
        TplExpr::BinOp { left, right } => {
            walk_expr(left, reads);
            walk_expr(right, reads);
            assert(read_views(reads@) =~= r0 + expr_reads(*e));
        },
        TplExpr::Compare { expr, ops } => {
            walk_expr(expr, reads);
            walk_exprs(ops, reads);
            assert(read_views(reads@) =~= r0 + expr_reads(*e));
        },
        TplExpr::IfExpr { test_expr, true_expr, false_expr } => {
            walk_expr(test_expr, reads);
            walk_expr(true_expr, reads);
            walk_opt(false_expr, reads);
            assert(read_views(reads@) =~= r0 + expr_reads(*e));
        },
        TplExpr::Filter { name, expr, args } => {
            walk_opt(expr, reads);
            walk_args(args, reads);
            assert(read_views(reads@) =~= r0 + expr_reads(*e));
        },
        TplExpr::Test { name, expr, args } => {
            walk_expr(expr, reads);
            walk_args(args, reads);
            assert(read_views(reads@) =~= r0 + expr_reads(*e));
        },
        TplExpr::GetAttr { expr, name } => {
            walk_expr(expr, reads);
        },
        TplExpr::GetItem { expr, subscript_expr } => {
            walk_expr(expr, reads);
            walk_expr(subscript_expr, reads);
            assert(read_views(reads@) =~= r0 + expr_reads(*e));
        },
        TplExpr::Call { expr, args } => {
            walk_expr(expr, reads);
            walk_args(args, reads);
            assert(read_views(reads@) =~= r0 + expr_reads(*e));
        },
        TplExpr::List { items } => {
            walk_exprs(items, reads);
        },
        TplExpr::MapLit { keys, values } => {
            walk_exprs(keys, reads);
            walk_exprs(values, reads);
            assert(read_views(reads@) =~= r0 + expr_reads(*e));
        },
    }
}

/// Append the reads of an optional expression.
fn walk_opt(o: &Option<Box<TplExpr>>, reads: &mut Vec<(String, usize, usize)>)
    ensures
        read_views(final(reads)@) == read_views(old(reads)@) + opt_reads(*o),
    decreases o,
{
    match o {
        Some(e) => walk_expr(e, reads),
        None => {
            assert(read_views(reads@) + opt_reads(*o) =~= read_views(reads@));
        },
    }
}

/// Append the reads of expressions, in order.
fn walk_exprs(es: &Vec<TplExpr>, reads: &mut Vec<(String, usize, usize)>)
    ensures
        read_views(final(reads)@) == read_views(old(reads)@) + exprs_reads(es@),
    decreases es,
{
    let ghost r0 = read_views(reads@);
    let mut i: usize = 0;
    assert(es@.take(0) =~= Seq::<TplExpr>::empty());
    assert(r0 + exprs_reads(es@.take(0)) =~= r0);
    while i < es.len()
        invariant
            i <= es@.len(),
            read_views(reads@) == r0 + exprs_reads(es@.take(i as int)),
        decreases es.len() - i,
    {
        assert(decreases_to!(es => es@[i as int]));
        walk_expr(&es[i], reads);
        assert(es@.take(i + 1).drop_last() =~= es@.take(i as int));
        assert(read_views(reads@) =~= r0 + exprs_reads(es@.take(i + 1)));
        i = i + 1;
    }
    assert(es@.take(es@.len() as int) =~= es@);
}

/// Append the reads of arguments, in order.
fn walk_args(args: &Vec<TplArg>, reads: &mut Vec<(String, usize, usize)>)
    ensures
        read_views(final(reads)@) == read_views(old(reads)@) + args_reads(args@),
    decreases args,
{
    let ghost r0 = read_views(reads@);
    let mut i: usize = 0;
    assert(args@.take(0) =~= Seq::<TplArg>::empty());
    assert(r0 + args_reads(args@.take(0)) =~= r0);
    while i < args.len()
        invariant
            i <= args@.len(),
            read_views(reads@) == r0 + args_reads(args@.take(i as int)),
        decreases args.len() - i,
    {
        assert(args@.take(i + 1).drop_last() =~= args@.take(i as int));
        assert(decreases_to!(args => args@[i as int]));
        match &args[i] {
            TplArg::Pos(e) => walk_expr(e, reads),
            TplArg::Kwarg(_, e) => walk_expr(e, reads),
            TplArg::PosSplat(e) => walk_expr(e, reads),
            TplArg::KwargSplat(e) => walk_expr(e, reads),
        }
        assert(read_views(reads@) =~= r0 + args_reads(args@.take(i + 1)));
        i = i + 1;
    }
    assert(args@.take(args@.len() as int) =~= args@);
}


/// Record a bound name.
fn push_bound(bound: &mut Vec<String>, name: &String)
    ensures
        sviews(final(bound)@) == sviews(old(bound)@).push(name@),
{
    let ghost before = bound@;
    bound.push(copy_string(name));
    assert(sviews(bound@) =~= sviews(before).push(name@));
}

/// Append what a target binds and reads.
fn walk_target(t: &TplExpr, reads: &mut Vec<(String, usize, usize)>, bound: &mut Vec<String>)
    ensures
        read_views(final(reads)@) == read_views(old(reads)@) + target_walk(*t).0,
        sviews(final(bound)@) == sviews(old(bound)@) + target_walk(*t).1,
    decreases t,
{
    let ghost r0 = read_views(reads@);
    let ghost b0 = sviews(bound@);
    match t {
        TplExpr::Var { name, start, end } => {
            push_bound(bound, name);
            assert(read_views(reads@) =~= r0 + target_walk(*t).0);
        },
        TplExpr::List { items } => {
            walk_targets(items, reads, bound);
        },
        _ => {
            walk_expr(t, reads);
            assert(sviews(bound@) =~= b0 + target_walk(*t).1);
        },
    }
}

/// Append what targets bind and read, in order.
fn walk_targets(ts: &Vec<TplExpr>, reads: &mut Vec<(String, usize, usize)>, bound: &mut Vec<String>)
    ensures
        read_views(final(reads)@) == read_views(old(reads)@) + targets_walk(ts@).0,
        sviews(final(bound)@) == sviews(old(bound)@) + targets_walk(ts@).1,
    decreases ts,
{
    let ghost r0 = read_views(reads@);
    let ghost b0 = sviews(bound@);
    let mut i: usize = 0;
    assert(ts@.take(0) =~= Seq::<TplExpr>::empty());
    assert(r0 + targets_walk(ts@.take(0)).0 =~= r0);
    assert(b0 + targets_walk(ts@.take(0)).1 =~= b0);
    while i < ts.len()
        invariant
            i <= ts@.len(),
            read_views(reads@) == r0 + targets_walk(ts@.take(i as int)).0,
            sviews(bound@) == b0 + targets_walk(ts@.take(i as int)).1,
        decreases ts.len() - i,
    {
        assert(decreases_to!(ts => ts@[i as int]));
        walk_target(&ts[i], reads, bound);
        assert(ts@.take(i + 1).drop_last() =~= ts@.take(i as int));
        assert(read_views(reads@) =~= r0 + targets_walk(ts@.take(i + 1)).0);
        assert(sviews(bound@) =~= b0 + targets_walk(ts@.take(i + 1)).1);
        i = i + 1;
    }
    assert(ts@.take(ts@.len() as int) =~= ts@);
}

/// Append the reads of an optional expression held by value.
fn walk_opt_expr(o: &Option<TplExpr>, reads: &mut Vec<(String, usize, usize)>)
    ensures
        read_views(final(reads)@) == read_views(old(reads)@) + match *o { Some(f) => expr_reads(f), None => Seq::empty() },
    decreases o,
{
    match o {
        Some(f) => walk_expr(f, reads),
        None => {
            assert(read_views(reads@) + Seq::<(Seq<char>, usize, usize)>::empty() =~= read_views(reads@));
        },
    }
}

/// Append what a statement reads and binds.
fn walk_stmt(s: &TplStmt, reads: &mut Vec<(String, usize, usize)>, bound: &mut Vec<String>)
    ensures
        read_views(final(reads)@) == read_views(old(reads)@) + stmt_walk(*s).0,
        sviews(final(bound)@) == sviews(old(bound)@) + stmt_walk(*s).1,
    decreases s,
{
    let ghost r0 = read_views(reads@);
    let ghost b0 = sviews(bound@);
    match s {
        TplStmt::Template { children } => {
            walk_stmts(children, reads, bound);
        },
        TplStmt::EmitExpr { expr } => {
            walk_expr(expr, reads);
            assert(sviews(bound@) =~= b0 + stmt_walk(*s).1);
        },
        TplStmt::EmitRaw => {
            assert(read_views(reads@) =~= r0 + stmt_walk(*s).0);
            assert(sviews(bound@) =~= b0 + stmt_walk(*s).1);
        },
        TplStmt::ForLoop { target, iter, filter_expr, body, else_body } => {
            walk_target(target, reads, bound);
            walk_expr(iter, reads);
            walk_opt_expr(filter_expr, reads);
            walk_stmts(body, reads, bound);
            walk_stmts(else_body, reads, bound);
            assert(read_views(reads@) =~= r0 + stmt_walk(*s).0);
            assert(sviews(bound@) =~= b0 + stmt_walk(*s).1);
        },
        TplStmt::IfCond { expr, true_body, false_body } => {
            walk_expr(expr, reads);
            walk_stmts(true_body, reads, bound);
            walk_stmts(false_body, reads, bound);
            assert(read_views(reads@) =~= r0 + stmt_walk(*s).0);
            assert(sviews(bound@) =~= b0 + stmt_walk(*s).1);
        },
        TplStmt::WithBlock { assignments, body } => {
            walk_assigns(assignments, reads, bound);
            walk_stmts(body, reads, bound);
            assert(read_views(reads@) =~= r0 + stmt_walk(*s).0);
            assert(sviews(bound@) =~= b0 + stmt_walk(*s).1);
        },
        TplStmt::SetVar { target, expr } => {
            walk_target(target, reads, bound);
            walk_expr(expr, reads);
            assert(read_views(reads@) =~= r0 + stmt_walk(*s).0);
            assert(sviews(bound@) =~= b0 + stmt_walk(*s).1);
        },
        TplStmt::SetBlock { target, filter, body } => {
            walk_target(target, reads, bound);
            walk_opt_expr(filter, reads);
            walk_stmts(body, reads, bound);
            assert(read_views(reads@) =~= r0 + stmt_walk(*s).0);
            assert(sviews(bound@) =~= b0 + stmt_walk(*s).1);
        },
        TplStmt::AutoEscape { enabled, body } => {
            walk_expr(enabled, reads);
            walk_stmts(body, reads, bound);
            assert(read_views(reads@) =~= r0 + stmt_walk(*s).0);
            assert(sviews(bound@) =~= b0 + stmt_walk(*s).1);
        },
        TplStmt::FilterBlock { filter, body } => {
            walk_expr(filter, reads);
            walk_stmts(body, reads, bound);
            assert(read_views(reads@) =~= r0 + stmt_walk(*s).0);
            assert(sviews(bound@) =~= b0 + stmt_walk(*s).1);
        },
        TplStmt::Do { expr, args } => {
            walk_expr(expr, reads);
            walk_args(args, reads);
            assert(read_views(reads@) =~= r0 + stmt_walk(*s).0);
            assert(sviews(bound@) =~= b0 + stmt_walk(*s).1);
        },
    }
}

/// Append what statements read and bind, in order.
fn walk_stmts(ss: &Vec<TplStmt>, reads: &mut Vec<(String, usize, usize)>, bound: &mut Vec<String>)
    ensures
        read_views(final(reads)@) == read_views(old(reads)@) + stmts_walk(ss@).0,
        sviews(final(bound)@) == sviews(old(bound)@) + stmts_walk(ss@).1,
    decreases ss,
{
    let ghost r0 = read_views(reads@);
    let ghost b0 = sviews(bound@);
    let mut i: usize = 0;
    assert(ss@.take(0) =~= Seq::<TplStmt>::empty());
    assert(r0 + stmts_walk(ss@.take(0)).0 =~= r0);
    assert(b0 + stmts_walk(ss@.take(0)).1 =~= b0);
    while i < ss.len()
        invariant
            i <= ss@.len(),
            read_views(reads@) == r0 + stmts_walk(ss@.take(i as int)).0,
            sviews(bound@) == b0 + stmts_walk(ss@.take(i as int)).1,
        decreases ss.len() - i,
    {
        assert(decreases_to!(ss => ss@[i as int]));
        walk_stmt(&ss[i], reads, bound);
        assert(ss@.take(i + 1).drop_last() =~= ss@.take(i as int));
        assert(read_views(reads@) =~= r0 + stmts_walk(ss@.take(i + 1)).0);
        assert(sviews(bound@) =~= b0 + stmts_walk(ss@.take(i + 1)).1);
        i = i + 1;
    }
    assert(ss@.take(ss@.len() as int) =~= ss@);
}

/// Append what the assignments of a `with` read and bind, in order.
fn walk_assigns(ps: &Vec<(TplExpr, TplExpr)>, reads: &mut Vec<(String, usize, usize)>, bound: &mut Vec<String>)
    ensures
        read_views(final(reads)@) == read_views(old(reads)@) + assigns_walk(ps@).0,
        sviews(final(bound)@) == sviews(old(bound)@) + assigns_walk(ps@).1,
    decreases ps,
{
    let ghost r0 = read_views(reads@);
    let ghost b0 = sviews(bound@);
    let mut i: usize = 0;
    assert(ps@.take(0) =~= Seq::<(TplExpr, TplExpr)>::empty());
    assert(r0 + assigns_walk(ps@.take(0)).0 =~= r0);
    assert(b0 + assigns_walk(ps@.take(0)).1 =~= b0);
    while i < ps.len()
        invariant
            i <= ps@.len(),
            read_views(reads@) == r0 + assigns_walk(ps@.take(i as int)).0,
            sviews(bound@) == b0 + assigns_walk(ps@.take(i as int)).1,
        decreases ps.len() - i,
    {
        assert(decreases_to!(ps => ps@[i as int]));
        assert(decreases_to!(ps@[i as int] => ps@[i as int].0));
        walk_target(&ps[i].0, reads, bound);
        walk_expr(&ps[i].1, reads);
        assert(ps@.take(i + 1).drop_last() =~= ps@.take(i as int));
        assert(read_views(reads@) =~= r0 + assigns_walk(ps@.take(i + 1)).0);
        assert(sviews(bound@) =~= b0 + assigns_walk(ps@.take(i + 1)).1);
        i = i + 1;
    }
    assert(ps@.take(ps@.len() as int) =~= ps@);
}


#[verifier::external_type_specification]
#[verifier::external_body]
pub struct ExMjStmt<'a>(ast::Stmt<'a>);

#[verifier::external_type_specification]
#[verifier::external_body]
pub struct ExMjExpr<'a>(ast::Expr<'a>);

#[verifier::external_type_specification]
#[verifier::external_body]
pub struct ExMjCallArg<'a>(ast::CallArg<'a>);

/// What `minijinja::machinery::parse` makes of a template (with the default
/// syntax and whitespace settings), as this library's tree: `None` when it
/// does not parse.
pub uninterp spec fn minijinja_tree(template: Seq<char>) -> Option<TplStmt>;

/// `minijinja::machinery::parse(template, "<config>", default syntax,
/// default whitespace)`, its tree copied node for node (a function of the
/// template alone).
#[verifier::external_body]
pub fn parse_template(template: &str) -> (r: Option<TplStmt>)
    ensures
        r == minijinja_tree(template@),
{
    match minijinja::machinery::parse(template, "<config>", Default::default(), Default::default()) {
        Ok(tree) => Some(copy_stmt(&tree)),
        Err(_) => None,
    }
}

/// Copy a statement.
#[verifier::external_body]
fn copy_stmt(s: &ast::Stmt<'_>) -> TplStmt {
    match s {
        ast::Stmt::Template(n) => TplStmt::Template { children: copy_stmts(&n.children) },
        ast::Stmt::EmitExpr(n) => TplStmt::EmitExpr { expr: copy_expr(&n.expr) },
        ast::Stmt::EmitRaw(_) => TplStmt::EmitRaw,
        ast::Stmt::ForLoop(n) => TplStmt::ForLoop {
            target: copy_expr(&n.target), iter: copy_expr(&n.iter), filter_expr: copy_opt(&n.filter_expr),
            body: copy_stmts(&n.body), else_body: copy_stmts(&n.else_body),
        },
        ast::Stmt::IfCond(n) => TplStmt::IfCond {
            expr: copy_expr(&n.expr), true_body: copy_stmts(&n.true_body), false_body: copy_stmts(&n.false_body),
        },
        other => copy_block(other),
    }
}

/// Copy a statement that holds a block of its own.
#[verifier::external_body]
fn copy_block(s: &ast::Stmt<'_>) -> TplStmt {
    match s {
        ast::Stmt::WithBlock(n) => TplStmt::WithBlock {
            assignments: n.assignments.iter().map(|(t, v)| (copy_expr(t), copy_expr(v))).collect(),
            body: copy_stmts(&n.body),
        },
        ast::Stmt::Set(n) => TplStmt::SetVar { target: copy_expr(&n.target), expr: copy_expr(&n.expr) },
        ast::Stmt::SetBlock(n) => TplStmt::SetBlock {
            target: copy_expr(&n.target), filter: copy_opt(&n.filter), body: copy_stmts(&n.body),
        },
        other => copy_wrapping(other),
    }
}

/// Copy a statement that wraps a block or a call.
#[verifier::external_body]
fn copy_wrapping(s: &ast::Stmt<'_>) -> TplStmt {
    match s {
        ast::Stmt::AutoEscape(n) => TplStmt::AutoEscape { enabled: copy_expr(&n.enabled), body: copy_stmts(&n.body) },
        ast::Stmt::FilterBlock(n) => TplStmt::FilterBlock { filter: copy_expr(&n.filter), body: copy_stmts(&n.body) },
        ast::Stmt::Do(n) => TplStmt::Do { expr: copy_expr(&n.call.expr), args: copy_args(&n.call.args) },
        _ => copy_stmt(s),
    }
}

/// Copy statements.
#[verifier::external_body]
fn copy_stmts(ss: &Vec<ast::Stmt<'_>>) -> Vec<TplStmt> {
    ss.iter().map(copy_stmt).collect()
}

/// Copy an expression.
#[verifier::external_body]
fn copy_expr(e: &ast::Expr<'_>) -> TplExpr {
    match e {
        ast::Expr::Var(n) => TplExpr::Var {
            name: n.id.to_string(), start: n.span().start_offset as usize, end: n.span().end_offset as usize,
        },
        ast::Expr::Const(_) => TplExpr::Const,
        ast::Expr::Slice(n) => TplExpr::Slice {
            expr: copy_boxed(&n.expr), start: copy_opt_boxed(&n.start), stop: copy_opt_boxed(&n.stop),
            step: copy_opt_boxed(&n.step),
        },
        ast::Expr::UnaryOp(n) => TplExpr::UnaryOp { expr: copy_boxed(&n.expr) },
        ast::Expr::BinOp(n) => TplExpr::BinOp { left: copy_boxed(&n.left), right: copy_boxed(&n.right) },
        other => copy_compound(other),
    }
}

/// Copy an expression with several parts.
#[verifier::external_body]
fn copy_compound(e: &ast::Expr<'_>) -> TplExpr {
    match e {
        ast::Expr::Compare(n) => TplExpr::Compare {
            expr: copy_boxed(&n.expr), ops: n.ops.iter().map(|op| copy_expr(&op.expr)).collect(),
        },
        ast::Expr::IfExpr(n) => TplExpr::IfExpr {
            test_expr: copy_boxed(&n.test_expr), true_expr: copy_boxed(&n.true_expr),
            false_expr: copy_opt_boxed(&n.false_expr),
        },
        ast::Expr::Filter(n) => TplExpr::Filter {
            name: n.name.to_string(), expr: copy_opt_boxed(&n.expr), args: copy_args(&n.args),
        },
        other => copy_access(other),
    }
}

/// Copy a test, an access, a call or a literal collection.
#[verifier::external_body]
fn copy_access(e: &ast::Expr<'_>) -> TplExpr {
    match e {
        ast::Expr::Test(n) => TplExpr::Test { name: n.name.to_string(), expr: copy_boxed(&n.expr), args: copy_args(&n.args) },
        ast::Expr::GetAttr(n) => TplExpr::GetAttr { expr: copy_boxed(&n.expr), name: n.name.to_string() },
        ast::Expr::GetItem(n) => TplExpr::GetItem { expr: copy_boxed(&n.expr), subscript_expr: copy_boxed(&n.subscript_expr) },
        other => copy_call_or_literal(other),
    }
}

/// Copy a call or a list or map literal.
#[verifier::external_body]
fn copy_call_or_literal(e: &ast::Expr<'_>) -> TplExpr {
    match e {
        ast::Expr::Call(n) => TplExpr::Call { expr: copy_boxed(&n.expr), args: copy_args(&n.args) },
        ast::Expr::List(n) => TplExpr::List { items: n.items.iter().map(copy_expr).collect() },
        ast::Expr::Map(n) => TplExpr::MapLit {
            keys: n.keys.iter().map(copy_expr).collect(), values: n.values.iter().map(copy_expr).collect(),
        },
        _ => copy_expr(e),
    }
}

/// Copy an expression into a box.
#[verifier::external_body]
fn copy_boxed(e: &ast::Expr<'_>) -> Box<TplExpr> {
    Box::new(copy_expr(e))
}

/// Copy an optional expression into a box.
#[verifier::external_body]
fn copy_opt_boxed(e: &Option<ast::Expr<'_>>) -> Option<Box<TplExpr>> {
    e.as_ref().map(copy_boxed)
}

/// Copy an optional expression.
#[verifier::external_body]
fn copy_opt(e: &Option<ast::Expr<'_>>) -> Option<TplExpr> {
    e.as_ref().map(copy_expr)
}

/// Copy the arguments of a call, a filter or a test.
#[verifier::external_body]
fn copy_args(args: &Vec<ast::CallArg<'_>>) -> Vec<TplArg> {
    args.iter()
        .map(|a| match a {
            ast::CallArg::Pos(e) => TplArg::Pos(copy_expr(e)),
            ast::CallArg::Kwarg(name, e) => TplArg::Kwarg(name.to_string(), copy_expr(e)),
            ast::CallArg::PosSplat(e) => TplArg::PosSplat(copy_expr(e)),
            ast::CallArg::KwargSplat(e) => TplArg::KwargSplat(copy_expr(e)),
        })
        .collect()
}


/// The character offset of byte offset `at` in `t`: the number of
/// characters its first `at` bytes (in UTF-8) decode to; `None` when `at` is
/// past the end or inside a character.
pub open spec fn char_offset_spec(t: Seq<char>, at: int) -> Option<int> {
    let b = vstd::utf8::encode_utf8(t);
    if 0 <= at <= b.len() && vstd::utf8::is_char_boundary(b, at) {
        Some(vstd::utf8::decode_utf8(b.subrange(0, at)).len() as int)
    } else {
        None
    }
}

/// The character offset of byte offset `at` in `template`.
pub fn char_offset(template: &str, at: usize) -> (r: Option<usize>)
    ensures
        match char_offset_spec(template@, at as int) {
            Some(c) => r == Some(c as usize),
            None => r is None,
        },
{
    let n = template.as_bytes().len();
    if at > n {
        return None;
    }
    if !template.is_char_boundary(at) {
        return None;
    }
    let (pre, _) = template.split_at(at);
    proof {
        vstd::utf8::encode_utf8_decode_utf8(pre@);
    }
    let cs = to_chars(pre);
    Some(cs.len())
}

/// The reads with their byte spans turned into character spans; `None`
/// when a span is off a character boundary.
pub open spec fn char_spans(t: Seq<char>, reads: Seq<(Seq<char>, usize, usize)>) -> Option<Seq<(Seq<char>, usize, usize)>>
    decreases reads.len(),
{
    if reads.len() == 0 {
        Some(Seq::empty())
    } else {
        match (char_spans(t, reads.drop_last()), char_offset_spec(t, reads.last().1 as int), char_offset_spec(t, reads.last().2 as int)) {
            (Some(prev), Some(s), Some(e)) => Some(prev.push((reads.last().0, s as usize, e as usize))),
            _ => None,
        }
    }
}

/// A prefix of the reads with a span off a character boundary leaves the
/// whole without character spans.
proof fn lemma_char_spans_prefix_none(t: Seq<char>, reads: Seq<(Seq<char>, usize, usize)>, k: int)
    requires
        0 <= k <= reads.len(),
        char_spans(t, reads.take(k)) is None,
    ensures
        char_spans(t, reads) is None,
    decreases reads.len() - k,
{
    if k == reads.len() {
        assert(reads.take(k) =~= reads);
    } else {
        assert(reads.take(k + 1).drop_last() =~= reads.take(k));
        lemma_char_spans_prefix_none(t, reads, k + 1);
    }
}

/// What a template reads (with character spans) and binds, given its tree.
pub open spec fn tree_vars(t: Seq<char>, tree: TplStmt) -> Option<(Seq<(Seq<char>, usize, usize)>, Seq<Seq<char>>)> {
    match char_spans(t, stmt_walk(tree).0) {
        Some(rs) => Some((rs, stmt_walk(tree).1)),
        None => None,
    }
}

/// What a parsed template reads and binds, its reads with character spans
/// (`None` when a span is off a character boundary of `template`).
pub fn template_vars(template: &str, tree: &TplStmt) -> (r: Option<TemplateVars>)
    ensures
        match tree_vars(template@, *tree) {
            Some((rs, bs)) => r matches Some(v) && read_views(v.reads@) == rs && sviews(v.bound@) == bs,
            None => r is None,
        },
{
    let mut reads: Vec<(String, usize, usize)> = Vec::new();
    let mut bound: Vec<String> = Vec::new();
    assert(read_views(reads@) =~= Seq::<(Seq<char>, usize, usize)>::empty());
    assert(sviews(bound@) =~= Seq::<Seq<char>>::empty());
    walk_stmt(tree, &mut reads, &mut bound);
    assert(read_views(reads@) =~= stmt_walk(*tree).0);
    assert(sviews(bound@) =~= stmt_walk(*tree).1);
    let ghost rv = read_views(reads@);
    let mut out: Vec<(String, usize, usize)> = Vec::new();
    let mut i: usize = 0;
    assert(rv.take(0) =~= Seq::<(Seq<char>, usize, usize)>::empty());
    while i < reads.len()
        invariant
            i <= reads@.len(),
            rv == read_views(reads@),
            rv == stmt_walk(*tree).0,
            char_spans(template@, rv.take(i as int)) == Some(read_views(out@)),
        decreases reads.len() - i,
    {
        assert(rv.take(i + 1).drop_last() =~= rv.take(i as int));
        assert(rv.take(i + 1).last() == rv[i as int]);
        assert(rv[i as int].1 == reads@[i as int].1 && rv[i as int].2 == reads@[i as int].2);
        let s = match char_offset(template, reads[i].1) {
            Some(s) => s,
            None => {
                proof {
                    lemma_char_spans_prefix_none(template@, rv, i + 1);
                }
                return None;
            },
        };
        let e = match char_offset(template, reads[i].2) {
            Some(e) => e,
            None => {
                proof {
                    lemma_char_spans_prefix_none(template@, rv, i + 1);
                }
                return None;
            },
        };
        let ghost before = out@;
        out.push((copy_string(&reads[i].0), s, e));
        assert(read_views(out@) =~= read_views(before).push((rv[i as int].0, s, e)));
        i = i + 1;
    }
    assert(rv.take(rv.len() as int) =~= rv);
    Some(TemplateVars { reads: out, bound })
}

/// What normalizing `t` gives: `None` when its text mentions no retired
/// name, when MiniJinja does not parse it, when a variable's span is off a
/// character boundary, or when no retired name read is left to rename (each
/// is bound in the template, or its replacement is); otherwise the template
/// with each renamed read replaced.
pub open spec fn normalized(t: Seq<char>) -> Option<Seq<char>> {
    if !mentions_retired(t) {
        None
    } else {
        match minijinja_tree(t) {
            None => None,
            Some(tree) => match tree_vars(t, tree) {
                None => None,
                Some((rs, bs)) => {
                    let kept = kept_pairs(retired_vars(), rs, bs);
                    if kept.len() > 0 {
                        Some(spliced(t, rs, kept, 0))
                    } else {
                        None
                    }
                },
            },
        }
    }
}

/// Rename the retired template variables that `template` reads to their
/// replacements, so a command saved with the old names matches one saved
/// with the new; `None` when nothing changes.
pub fn normalize_template_vars(template: &str) -> (r: Option<String>)
    ensures
        match normalized(template@) {
            Some(s) => r matches Some(o) && o@ == s,
            None => r is None,
        },
{
    if !mentions_retired_var(template) {
        return None;
    }
    let tree = match parse_template(template) {
        Some(t) => t,
        None => return None,
    };
    let vars = match template_vars(template, &tree) {
        Some(v) => v,
        None => return None,
    };
    match migrate_retired_vars(template, Some(&vars)) {
        Some((migrated, _)) => Some(migrated),
        None => None,
    }
}


/// Each pair kept for renaming is one of `pairs`, and neither of its names
/// is bound.
proof fn lemma_kept_pairs_unbound(
    pairs: Seq<(Seq<char>, Seq<char>)>,
    reads: Seq<(Seq<char>, usize, usize)>,
    bound: Seq<Seq<char>>,
)
    ensures
        forall|i: int| 0 <= i < kept_pairs(pairs, reads, bound).len() ==> {
            let p = #[trigger] kept_pairs(pairs, reads, bound)[i];
            &&& !bound.contains(p.0)
            &&& !bound.contains(p.1)
            &&& pairs.contains(p)
        },
    decreases pairs.len(),
{
    if pairs.len() > 0 {
        lemma_kept_pairs_unbound(pairs.drop_last(), reads, bound);
        let prev = kept_pairs(pairs.drop_last(), reads, bound);
        assert forall|i: int| 0 <= i < prev.len() implies pairs.contains(#[trigger] prev[i]) by {
            let j = choose|j: int| 0 <= j < pairs.drop_last().len() && pairs.drop_last()[j] == prev[i];
            assert(pairs[j] == prev[i]);
        }
        assert(pairs[pairs.len() - 1] == pairs.last());
    }
}

/// A replacement found among the kept pairs is the new name of a kept pair
/// whose old name is `name`.
proof fn lemma_replacement_is_kept(kept: Seq<(Seq<char>, Seq<char>)>, name: Seq<char>)
    ensures
        replacement_for(kept, name) matches Some(n) ==> exists|i: int| 0 <= i < kept.len() && #[trigger] kept[i] == (name, n),
    decreases kept.len(),
{
    if kept.len() > 0 && kept[0].0 != name {
        lemma_replacement_is_kept(kept.drop_first(), name);
        if replacement_for(kept.drop_first(), name) is Some {
            let n = replacement_for(kept.drop_first(), name)->0;
            let i = choose|i: int| 0 <= i < kept.drop_first().len() && #[trigger] kept.drop_first()[i] == (name, n);
            assert(kept[i + 1] == (name, n));
        }
    }
}

/// No two retired pairs share an old name.
proof fn lemma_retired_olds_distinct()
    ensures
        forall|j: int, k: int| 0 <= j < retired_vars().len() && 0 <= k < retired_vars().len() && j != k
            ==> #[trigger] retired_vars()[j].0 != #[trigger] retired_vars()[k].0,
{
    reveal_strlit("repo_root");
    reveal_strlit("worktree");
    reveal_strlit("main_worktree");
    reveal_strlit("main_worktree_path");
    reveal_strlit("commits");
    let r = retired_vars();
    assert(r[0].0.len() == 9);
    assert(r[1].0.len() == 8);
    assert(r[2].0.len() == 13);
    assert(r[3].0.len() == 18);
    assert(r[4].0.len() == 7);
    assert forall|j: int, k: int| 0 <= j < r.len() && 0 <= k < r.len() && j != k implies #[trigger] r[j].0 != #[trigger] r[k].0 by {
        assert(r[j].0.len() != r[k].0.len());
    }
}

/// A retired name that the template binds, or whose replacement it binds,
/// gets no replacement: no read of it is rewritten anywhere in the template.
pub proof fn lemma_bound_names_are_not_renamed(reads: Seq<(Seq<char>, usize, usize)>, bound: Seq<Seq<char>>, k: int)
    requires
        0 <= k < retired_vars().len(),
        bound.contains(retired_vars()[k].0) || bound.contains(retired_vars()[k].1),
    ensures
        replacement_for(kept_pairs(retired_vars(), reads, bound), retired_vars()[k].0) is None,
{
    let kept = kept_pairs(retired_vars(), reads, bound);
    let old = retired_vars()[k].0;
    lemma_replacement_is_kept(kept, old);
    lemma_kept_pairs_unbound(retired_vars(), reads, bound);
    lemma_retired_olds_distinct();
    if replacement_for(kept, old) is Some {
        let n = replacement_for(kept, old)->0;
        let i = choose|i: int| 0 <= i < kept.len() && #[trigger] kept[i] == (old, n);
        assert(retired_vars().contains(kept[i]));
        let j = choose|j: int| 0 <= j < retired_vars().len() && retired_vars()[j] == kept[i];
        assert(retired_vars()[j].0 == retired_vars()[k].0);
        assert(j == k);
    }
}

/// A template MiniJinja does not parse is left as it is.
pub proof fn lemma_unparsed_template_is_unchanged(t: Seq<char>)
    requires
        minijinja_tree(t) is None,
    ensures
        normalized(t) is None,
{
}

} // verus!
