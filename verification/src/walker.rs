//! The traversal that every function-level detector shares: the expressions
//! of a body in the order of the source, each one before the expressions
//! inside it. A detector says what it finds at one expression; the walker
//! applies that to every expression it reaches.

use crate::collect::{flat_map, lemma_flat_map_holds, lemma_flat_map_step};
use crate::diagnostic::{report, Diagnostic, DiagnosticView};
use crate::syntax::{Expr, ExprKind, Stmt};
use vstd::prelude::*;

verus! {

/// The expression that a statement evaluates, if any.
pub open spec fn stmt_expr(s: Stmt) -> Seq<Expr> {
    match s {
        Stmt::Expr(e) => seq![e],
        Stmt::Local(Some(e)) => seq![e],
        _ => Seq::empty(),
    }
}

/// The expressions that the statements `ss` evaluate, in order.
pub open spec fn stmt_exprs(ss: Seq<Stmt>) -> Seq<Expr>
    decreases ss.len(),
{
    if ss.len() == 0 {
        Seq::empty()
    } else {
        stmt_exprs(ss.drop_last()) + stmt_expr(ss.last())
    }
}

/// The expressions directly inside `e`, in the order of the source.
pub open spec fn subexpressions(e: Expr) -> Seq<Expr> {
    match e.kind {
        ExprKind::Path { .. } => Seq::empty(),
        ExprKind::Field { base, .. } => seq![*base],
        ExprKind::Index { base, index } => seq![*base, *index],
        ExprKind::Call { func, args } => seq![*func] + args@,
        ExprKind::MethodCall { receiver, args, .. } => seq![*receiver] + args@,
        ExprKind::Reference { target, .. } => seq![*target],
        ExprKind::Assign { left, right } => seq![*left, *right],
        ExprKind::Binary { left, right, .. } => seq![*left, *right],
        ExprKind::Array { elems } => elems@,
        ExprKind::Try { inner } => seq![*inner],
        ExprKind::TryBlock { stmts } => stmt_exprs(stmts@),
        ExprKind::Block { stmts } => stmt_exprs(stmts@),
        ExprKind::If { cond, then_branch, otherwise } => seq![*cond] + stmt_exprs(then_branch@)
            + match otherwise {
            Some(e2) => seq![*e2],
            None => Seq::empty(),
        },
        ExprKind::Match { scrutinee, arms } => seq![*scrutinee] + arms@,
        ExprKind::While { cond, body } => seq![*cond] + stmt_exprs(body@),
        ExprKind::ForLoop { iter, body } => seq![*iter] + stmt_exprs(body@),
        ExprKind::Loop { body } => stmt_exprs(body@),
        ExprKind::Other => Seq::empty(),
    }
}

/// Every expression reached from `e`: `e` itself, then what is reached from
/// each expression directly inside it, in the order of the source.
pub open spec fn visited_expr(e: Expr) -> Seq<Expr>
    decreases e,
{
    seq![e] + match e.kind {
        ExprKind::Path { .. } => Seq::empty(),
        ExprKind::Field { base, .. } => visited_expr(*base),
        ExprKind::Index { base, index } => visited_expr(*base) + visited_expr(*index),
        ExprKind::Call { func, args } => visited_expr(*func) + visited_exprs(args@),
        ExprKind::MethodCall { receiver, args, .. } => visited_expr(*receiver) + visited_exprs(
            args@,
        ),
        ExprKind::Reference { target, .. } => visited_expr(*target),
        ExprKind::Assign { left, right } => visited_expr(*left) + visited_expr(*right),
        ExprKind::Binary { left, right, .. } => visited_expr(*left) + visited_expr(*right),
        ExprKind::Array { elems } => visited_exprs(elems@),
        ExprKind::Try { inner } => visited_expr(*inner),
        ExprKind::TryBlock { stmts } => visited_stmts(stmts@),
        ExprKind::Block { stmts } => visited_stmts(stmts@),
        ExprKind::If { cond, then_branch, otherwise } => visited_expr(*cond) + visited_stmts(
            then_branch@,
        ) + match otherwise {
            Some(e2) => visited_expr(*e2),
            None => Seq::empty(),
        },
        ExprKind::Match { scrutinee, arms } => visited_expr(*scrutinee) + visited_exprs(arms@),
        ExprKind::While { cond, body } => visited_expr(*cond) + visited_stmts(body@),
        ExprKind::ForLoop { iter, body } => visited_expr(*iter) + visited_stmts(body@),
        ExprKind::Loop { body } => visited_stmts(body@),
        ExprKind::Other => Seq::empty(),
    }
}

/// Every expression reached from the expressions `es`, in order.
pub open spec fn visited_exprs(es: Seq<Expr>) -> Seq<Expr>
    decreases es,
{
    if es.len() == 0 {
        Seq::empty()
    } else {
        visited_exprs(es.drop_last()) + visited_expr(es.last())
    }
}

/// Every expression reached from the statement `s`.
pub open spec fn visited_stmt(s: Stmt) -> Seq<Expr>
    decreases s,
{
    match s {
        Stmt::Expr(e) => visited_expr(e),
        Stmt::Local(Some(e)) => visited_expr(e),
        _ => Seq::empty(),
    }
}

/// Every expression reached from the statements `ss`, in order.
pub open spec fn visited_stmts(ss: Seq<Stmt>) -> Seq<Expr>
    decreases ss,
{
    if ss.len() == 0 {
        Seq::empty()
    } else {
        visited_stmts(ss.drop_last()) + visited_stmt(ss.last())
    }
}

/// The expressions that references in `s` point to.
pub open spec fn targets(s: Seq<&Expr>) -> Seq<Expr> {
    s.map_values(|r: &Expr| *r)
}

/// Appends to `out` every expression reached from `e`.
pub fn visit_expr<'a>(e: &'a Expr, out: &mut Vec<&'a Expr>)
    ensures
        targets(final(out)@) == targets(old(out)@) + visited_expr(*e),
    decreases e,
{
    out.push(e);
    match &e.kind {
        ExprKind::Path { .. } => {},
        ExprKind::Field { base, .. } => {
            visit_expr(base, out);
        },
        ExprKind::Index { base, index } => {
            visit_expr(base, out);
            visit_expr(index, out);
        },
        ExprKind::Call { func, args } => {
            visit_expr(func, out);
            visit_exprs(args, out);
        },
        ExprKind::MethodCall { receiver, args, .. } => {
            visit_expr(receiver, out);
            visit_exprs(args, out);
        },
        ExprKind::Reference { target, .. } => {
            visit_expr(target, out);
        },
        ExprKind::Assign { left, right } => {
            visit_expr(left, out);
            visit_expr(right, out);
        },
        ExprKind::Binary { left, right, .. } => {
            visit_expr(left, out);
            visit_expr(right, out);
        },
        ExprKind::Array { elems } => {
            visit_exprs(elems, out);
        },
        ExprKind::Try { inner } => {
            visit_expr(inner, out);
        },
        ExprKind::TryBlock { stmts } => {
            visit_stmts(stmts, out);
        },
        ExprKind::Block { stmts } => {
            visit_stmts(stmts, out);
        },
        ExprKind::If { cond, then_branch, otherwise } => {
            visit_expr(cond, out);
            visit_stmts(then_branch, out);
            match otherwise {
                Some(e2) => visit_expr(e2, out),
                None => {},
            }
        },
        ExprKind::Match { scrutinee, arms } => {
            visit_expr(scrutinee, out);
            visit_exprs(arms, out);
        },
        ExprKind::While { cond, body } => {
            visit_expr(cond, out);
            visit_stmts(body, out);
        },
        ExprKind::ForLoop { iter, body } => {
            visit_expr(iter, out);
            visit_stmts(body, out);
        },
        ExprKind::Loop { body } => {
            visit_stmts(body, out);
        },
        ExprKind::Other => {},
    }
}

/// Appends to `out` every expression reached from the expressions `es`.
pub fn visit_exprs<'a>(es: &'a Vec<Expr>, out: &mut Vec<&'a Expr>)
    ensures
        targets(final(out)@) == targets(old(out)@) + visited_exprs(es@),
    decreases es,
{
    let mut i: usize = 0;
    while i < es.len()
        invariant
            i <= es.len(),
            targets(out@) == targets(old(out)@) + visited_exprs(es@.take(i as int)),
        decreases es.len() - i,
    {
        assert(es@.take(i as int + 1).drop_last() == es@.take(i as int));
        assert(es@.take(i as int + 1).last() == es@[i as int]);
        visit_expr(&es[i], out);
        i += 1;
    }
    assert(es@.take(i as int) == es@);
}

/// Appends to `out` every expression reached from the statements `ss`.
pub fn visit_stmts<'a>(ss: &'a Vec<Stmt>, out: &mut Vec<&'a Expr>)
    ensures
        targets(final(out)@) == targets(old(out)@) + visited_stmts(ss@),
    decreases ss,
{
    let mut i: usize = 0;
    while i < ss.len()
        invariant
            i <= ss.len(),
            targets(out@) == targets(old(out)@) + visited_stmts(ss@.take(i as int)),
        decreases ss.len() - i,
    {
        assert(ss@.take(i as int + 1).drop_last() == ss@.take(i as int));
        assert(ss@.take(i as int + 1).last() == ss@[i as int]);
        let ghost before = targets(out@);
        match &ss[i] {
            Stmt::Expr(e) => {
                visit_expr(e, out);
                assert(targets(out@) == before + visited_stmt(ss@[i as int]));
            },
            Stmt::Local(Some(e)) => {
                visit_expr(e, out);
                assert(targets(out@) == before + visited_stmt(ss@[i as int]));
            },
            _ => {
                assert(targets(out@) =~= before + visited_stmt(ss@[i as int]));
            },
        }
        assert(targets(out@) =~= targets(old(out)@) + visited_stmts(ss@.take(i as int + 1)));
        i += 1;
    }
    assert(ss@.take(i as int) == ss@);
}

/// What a detector looks for at one expression.
pub trait Detector {
    /// The diagnostics that this detector raises at the expression `e`
    /// itself, not counting the expressions inside it.
    spec fn raised_at(&self, e: Expr) -> Seq<DiagnosticView>;

    /// Appends to `out` what this detector raises at `e`.
    fn inspect(&self, e: &Expr, out: &mut Vec<Diagnostic>)
        ensures
            report(final(out)@) == report(old(out)@) + self.raised_at(*e),
    ;
}

/// What `hook` yields at each of the expressions `nodes`, in order.
pub open spec fn gathered(nodes: Seq<Expr>, hook: spec_fn(Expr) -> Seq<DiagnosticView>) -> Seq<
    DiagnosticView,
> {
    flat_map(nodes, hook)
}

/// Runs the detector `d` over a function body: what it raises at every
/// expression reached from the statements `body`, in the order of the walk.
pub fn run<D: Detector>(d: &D, body: &Vec<Stmt>) -> (out: Vec<Diagnostic>)
    ensures
        report(out@) == gathered(visited_stmts(body@), |e: Expr| d.raised_at(e)),
{
    let mut nodes: Vec<&Expr> = Vec::new();
    visit_stmts(body, &mut nodes);
    assert(targets(nodes@) == visited_stmts(body@));
    let mut out: Vec<Diagnostic> = Vec::new();
    let mut i: usize = 0;
    let ghost hook = |e: Expr| d.raised_at(e);
    assert(report(out@) =~= Seq::<DiagnosticView>::empty());
    while i < nodes.len()
        invariant
            i <= nodes.len(),
            hook == (|e: Expr| d.raised_at(e)),
            report(out@) == gathered(targets(nodes@).take(i as int), hook),
        decreases nodes.len() - i,
    {
        proof {
            lemma_flat_map_step(targets(nodes@), hook, i as int);
        }
        d.inspect(nodes[i], &mut out);
        i += 1;
    }
    assert(targets(nodes@).take(i as int) == targets(nodes@));
    out
}

/// Walking two lists of expressions one after the other.
pub proof fn lemma_visited_exprs_add(a: Seq<Expr>, b: Seq<Expr>)
    ensures
        visited_exprs(a + b) == visited_exprs(a) + visited_exprs(b),
    decreases b.len(),
{
    if b.len() == 0 {
        assert(a + b == a);
        assert(visited_exprs(a) + Seq::<Expr>::empty() == visited_exprs(a));
    } else {
        assert((a + b).drop_last() == a + b.drop_last());
        assert((a + b).last() == b.last());
        lemma_visited_exprs_add(a, b.drop_last());
        assert(visited_exprs(a) + visited_exprs(b.drop_last()) + visited_expr(b.last())
            == visited_exprs(a) + (visited_exprs(b.drop_last()) + visited_expr(b.last())));
    }
}

/// Walking a list of one expression is walking that expression.
pub proof fn lemma_visited_exprs_one(e: Expr)
    ensures
        visited_exprs(seq![e]) == visited_expr(e),
{
    let one = seq![e];
    assert(one.drop_last() =~= Seq::<Expr>::empty());
    assert(visited_exprs(one.drop_last()) == Seq::<Expr>::empty());
    assert(one.last() == e);
    assert(Seq::<Expr>::empty() + visited_expr(e) =~= visited_expr(e));
}

/// Walking statements is walking the expressions that they evaluate.
pub proof fn lemma_visited_stmts(ss: Seq<Stmt>)
    ensures
        visited_stmts(ss) == visited_exprs(stmt_exprs(ss)),
    decreases ss.len(),
{
    if ss.len() > 0 {
        lemma_visited_stmts(ss.drop_last());
        lemma_visited_exprs_add(stmt_exprs(ss.drop_last()), stmt_expr(ss.last()));
        match ss.last() {
            Stmt::Expr(e) => {
                lemma_visited_exprs_one(e);
            },
            Stmt::Local(Some(e)) => {
                lemma_visited_exprs_one(e);
            },
            _ => {
                assert(stmt_expr(ss.last()) =~= Seq::<Expr>::empty());
                assert(visited_stmt(ss.last()) =~= Seq::<Expr>::empty());
            },
        }
        assert(visited_exprs(stmt_expr(ss.last())) == visited_stmt(ss.last()));
    }
}

/// The walk of an expression is the expression itself, followed by the walks
/// of the expressions directly inside it, in the order of the source: no
/// branch of any form is left out.
pub proof fn lemma_walk_covers_subexpressions(e: Expr)
    ensures
        visited_expr(e) == seq![e] + visited_exprs(subexpressions(e)),
{
    match e.kind {
        ExprKind::Path { .. } => {},
        ExprKind::Field { base, .. } => {
            lemma_visited_exprs_one(*base);
        },
        ExprKind::Index { base, index } => {
            lemma_visited_exprs_one(*base);
            lemma_visited_exprs_one(*index);
            assert(seq![*base, *index] =~= seq![*base] + seq![*index]);
            lemma_visited_exprs_add(seq![*base], seq![*index]);
        },
        ExprKind::Call { func, args } => {
            lemma_visited_exprs_one(*func);
            lemma_visited_exprs_add(seq![*func], args@);
        },
        ExprKind::MethodCall { receiver, args, .. } => {
            lemma_visited_exprs_one(*receiver);
            lemma_visited_exprs_add(seq![*receiver], args@);
        },
        ExprKind::Reference { target, .. } => {
            lemma_visited_exprs_one(*target);
        },
        ExprKind::Assign { left, right } => {
            lemma_visited_exprs_one(*left);
            lemma_visited_exprs_one(*right);
            assert(seq![*left, *right] =~= seq![*left] + seq![*right]);
            lemma_visited_exprs_add(seq![*left], seq![*right]);
        },
        ExprKind::Binary { left, right, .. } => {
            lemma_visited_exprs_one(*left);
            lemma_visited_exprs_one(*right);
            assert(seq![*left, *right] =~= seq![*left] + seq![*right]);
            lemma_visited_exprs_add(seq![*left], seq![*right]);
        },
        ExprKind::Array { .. } => {},
        ExprKind::Try { inner } => {
            lemma_visited_exprs_one(*inner);
        },
        ExprKind::TryBlock { stmts } => {
            lemma_visited_stmts(stmts@);
        },
        ExprKind::Block { stmts } => {
            lemma_visited_stmts(stmts@);
        },
        ExprKind::If { cond, then_branch, otherwise } => {
            lemma_visited_exprs_one(*cond);
            lemma_visited_stmts(then_branch@);
            let tail: Seq<Expr> = match otherwise {
                Some(e2) => seq![*e2],
                None => Seq::empty(),
            };
            match otherwise {
                Some(e2) => {
                    lemma_visited_exprs_one(*e2);
                },
                None => {},
            }
            lemma_visited_exprs_add(seq![*cond], stmt_exprs(then_branch@));
            lemma_visited_exprs_add(seq![*cond] + stmt_exprs(then_branch@), tail);
        },
        ExprKind::Match { scrutinee, arms } => {
            lemma_visited_exprs_one(*scrutinee);
            lemma_visited_exprs_add(seq![*scrutinee], arms@);
        },
        ExprKind::While { cond, body } => {
            lemma_visited_exprs_one(*cond);
            lemma_visited_stmts(body@);
            lemma_visited_exprs_add(seq![*cond], stmt_exprs(body@));
        },
        ExprKind::ForLoop { iter, body } => {
            lemma_visited_exprs_one(*iter);
            lemma_visited_stmts(body@);
            lemma_visited_exprs_add(seq![*iter], stmt_exprs(body@));
        },
        ExprKind::Loop { body } => {
            lemma_visited_stmts(body@);
        },
        ExprKind::Other => {},
    }
}

/// The walk of a list holds the whole walk of each of its expressions.
pub proof fn lemma_walk_of_member(es: Seq<Expr>, j: int, n: Expr)
    requires
        0 <= j < es.len(),
        visited_expr(es[j]).contains(n),
    ensures
        visited_exprs(es).contains(n),
        visited_expr(es[j]).len() <= visited_exprs(es).len(),
    decreases es.len(),
{
    let front = visited_exprs(es.drop_last());
    let back = visited_expr(es.last());
    if j == es.len() - 1 {
        let k = choose|k: int| 0 <= k < back.len() && back[k] == n;
        assert((front + back)[front.len() + k] == n);
    } else {
        assert(es.drop_last()[j] == es[j]);
        lemma_walk_of_member(es.drop_last(), j, n);
        let k = choose|k: int| 0 <= k < front.len() && front[k] == n;
        assert((front + back)[k] == n);
    }
}

/// What the walk of a list reaches is reached from one of its expressions.
pub proof fn lemma_walk_origin(es: Seq<Expr>, n: Expr)
    requires
        visited_exprs(es).contains(n),
    ensures
        exists|j: int| 0 <= j < es.len() && visited_expr(#[trigger] es[j]).contains(n),
    decreases es.len(),
{
    if es.len() > 0 {
        let front = visited_exprs(es.drop_last());
        let back = visited_expr(es.last());
        let k = choose|k: int| 0 <= k < (front + back).len() && (front + back)[k] == n;
        if k < front.len() {
            assert(front[k] == n);
            lemma_walk_origin(es.drop_last(), n);
            let j = choose|j: int|
                0 <= j < es.drop_last().len() && visited_expr(
                    #[trigger] es.drop_last()[j],
                ).contains(n);
            assert(es[j] == es.drop_last()[j]);
        } else {
            assert(back[k - front.len()] == n);
            assert(visited_expr(es[es.len() - 1]).contains(n));
        }
    }
}

/// The walk of an expression starts with the expression itself.
pub proof fn lemma_walk_starts_at_root(e: Expr)
    ensures
        visited_expr(e).len() >= 1,
        visited_expr(e)[0] == e,
        visited_expr(e).contains(e),
{
    lemma_walk_covers_subexpressions(e);
    assert((seq![e] + visited_exprs(subexpressions(e)))[0] == e);
}

/// The walk is closed under stepping inside: whenever it reaches an
/// expression, it also reaches every expression directly inside that one.
/// So it reaches everything that lies inside `e` at any depth.
pub proof fn lemma_walk_is_closed(e: Expr, n: Expr, c: Expr)
    requires
        visited_expr(e).contains(n),
        subexpressions(n).contains(c),
    ensures
        visited_expr(e).contains(c),
    decreases visited_expr(e).len(),
{
    lemma_walk_covers_subexpressions(e);
    let subs = subexpressions(e);
    let inner = visited_exprs(subs);
    let whole = seq![e] + inner;
    let k = choose|k: int| 0 <= k < whole.len() && whole[k] == n;
    if k == 0 {
        let j = choose|j: int| 0 <= j < subs.len() && subs[j] == c;
        lemma_walk_starts_at_root(c);
        lemma_walk_of_member(subs, j, c);
        let m = choose|m: int| 0 <= m < inner.len() && inner[m] == c;
        assert(whole[m + 1] == c);
    } else {
        assert(inner[k - 1] == n);
        lemma_walk_origin(subs, n);
        let j = choose|j: int| 0 <= j < subs.len() && visited_expr(#[trigger] subs[j]).contains(n);
        lemma_walk_of_member(subs, j, n);
        lemma_walk_is_closed(subs[j], n, c);
        lemma_walk_of_member(subs, j, c);
        let m = choose|m: int| 0 <= m < inner.len() && inner[m] == c;
        assert(whole[m + 1] == c);
    }
}

/// The walk of a body reaches every expression that its statements
/// evaluate.
pub proof fn lemma_body_walk_reaches_statements(body: Seq<Stmt>, j: int)
    requires
        0 <= j < stmt_exprs(body).len(),
    ensures
        visited_stmts(body).contains(stmt_exprs(body)[j]),
{
    lemma_visited_stmts(body);
    lemma_walk_starts_at_root(stmt_exprs(body)[j]);
    lemma_walk_of_member(stmt_exprs(body), j, stmt_exprs(body)[j]);
}

/// The walk of a body is closed under stepping inside, as the walk of an
/// expression is.
pub proof fn lemma_body_walk_is_closed(body: Seq<Stmt>, n: Expr, c: Expr)
    requires
        visited_stmts(body).contains(n),
        subexpressions(n).contains(c),
    ensures
        visited_stmts(body).contains(c),
{
    lemma_visited_stmts(body);
    let roots = stmt_exprs(body);
    lemma_walk_origin(roots, n);
    let j = choose|j: int| 0 <= j < roots.len() && visited_expr(#[trigger] roots[j]).contains(n);
    lemma_walk_is_closed(roots[j], n, c);
    lemma_walk_of_member(roots, j, c);
}

/// A detector that runs over the walk misses nothing: what it raises at any
/// expression that the walk reaches is among its findings.
pub proof fn lemma_nothing_reached_is_missed(
    body: Seq<Stmt>,
    hook: spec_fn(Expr) -> Seq<DiagnosticView>,
    n: Expr,
    d: DiagnosticView,
)
    requires
        visited_stmts(body).contains(n),
        hook(n).contains(d),
    ensures
        gathered(visited_stmts(body), hook).contains(d),
{
    let nodes = visited_stmts(body);
    let i = choose|i: int| 0 <= i < nodes.len() && nodes[i] == n;
    lemma_flat_map_holds(nodes, hook, i, d);
}

} // verus!
