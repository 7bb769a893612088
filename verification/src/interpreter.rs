//! The evaluator: a tree walk that reduces expressions to atoms, mapping
//! value-level operator failures to span-carrying diagnostics.

use crate::error::{DiagnosticError, Error, RuntimeErrorKind, RuntimeErrorValue};
use crate::parser::{parse_spec, stmt_views, tree_valid, Parser};
use crate::span::{merge_span, spec_merge_span, Span};
use crate::tree::{
    expr_valid, expr_view, spec_atom_add, spec_atom_div, spec_atom_eq, spec_atom_le, spec_atom_lt,
    spec_atom_mul, spec_atom_neg, spec_atom_not, spec_atom_sub, spec_expr_span, Atom, AtomKind,
    AtomValue, Expr, ExprValue, Op, Stmt, TokenTree,
};
use vstd::prelude::*;

verus! {

/// What evaluating an expression yields: its value and the value's span,
/// or the first runtime error with the span it points at. Operands are
/// evaluated strictly left to right; groups are transparent; operators
/// without an evaluation rule answer nil.
pub open spec fn spec_eval_expr(e: Expr<'_>) -> Result<(AtomValue, Span), (RuntimeErrorValue, Span)>
    recommends
        expr_valid(e, usize::MAX as int),
    decreases e,
{
    match e {
        Expr::Atom(a) => Ok((a.kind@, a.span)),
        Expr::Group(inner) => spec_eval_expr(*inner),
        Expr::Unary { op, expr } => match spec_eval_expr(*expr) {
            Err(err) => Err(err),
            Ok((v, vs)) => match op {
                Op::Minus => match spec_atom_neg(v) {
                    Ok(nv) => Ok((nv, vs)),
                    Err(k) => Err((k, spec_expr_span(*expr))),
                },
                Op::Bang => Ok((spec_atom_not(v), vs)),
                _ => Ok((AtomValue::VNil, spec_expr_span(*expr))),
            },
        },
        Expr::Binary { left, op, right } => match spec_eval_expr(*left) {
            Err(err) => Err(err),
            Ok((lv, ls)) => match spec_eval_expr(*right) {
                Err(err) => Err(err),
                Ok((rv, rs)) => {
                    let msp = spec_merge_span(spec_expr_span(*left), spec_expr_span(*right));
                    match op {
                        Op::Plus => match spec_atom_add(lv, rv) {
                            Ok(v) => Ok((v, spec_merge_span(ls, rs))),
                            Err(k) => Err((k, msp)),
                        },
                        Op::Minus => match spec_atom_sub(lv, rv) {
                            Ok(v) => Ok((v, spec_merge_span(ls, rs))),
                            Err(k) => Err((k, msp)),
                        },
                        Op::Star => match spec_atom_mul(lv, rv) {
                            Ok(v) => Ok((v, spec_merge_span(ls, rs))),
                            Err(k) => Err((k, msp)),
                        },
                        Op::Slash => match spec_atom_div(lv, rv) {
                            Ok(v) => Ok((v, spec_merge_span(ls, rs))),
                            Err(k) => Err((k, msp)),
                        },
                        Op::EqualEqual => Ok((AtomValue::VBool(spec_atom_eq(lv, rv)), msp)),
                        Op::BangEqual => Ok((AtomValue::VBool(!spec_atom_eq(lv, rv)), msp)),
                        Op::Less => Ok((AtomValue::VBool(spec_atom_lt(lv, rv)), msp)),
                        Op::LessEqual => Ok((AtomValue::VBool(spec_atom_le(lv, rv)), msp)),
                        Op::Greater => Ok((AtomValue::VBool(spec_atom_lt(rv, lv)), msp)),
                        Op::GreaterEqual => Ok((AtomValue::VBool(spec_atom_le(rv, lv)), msp)),
                        _ => Ok((AtomValue::VNil, msp)),
                    }
                },
            },
        },
        Expr::Block { stmts } => Err(
            (RuntimeErrorValue::InvalidOperand(Seq::empty()), Span { offset: 0, length: 0 }),
        ),
    }
}

/// What evaluating a statement sequence yields: each statement's value in
/// source order, or the first runtime error.
pub open spec fn spec_eval_stmts(stmts: Seq<Stmt<'_>>) -> Result<
    Seq<(AtomValue, Span)>,
    (RuntimeErrorValue, Span),
>
    decreases stmts.len(),
{
    if stmts.len() == 0 {
        Ok(Seq::empty())
    } else {
        match spec_eval_stmts(stmts.drop_last()) {
            Err(e) => Err(e),
            Ok(vals) => match spec_eval_expr(stmts.last()->Expr_0) {
                Ok(vsp) => Ok(vals.push(vsp)),
                Err(e) => Err(e),
            },
        }
    }
}

/// A failed statement sequence keeps its error under extension.
proof fn lemma_eval_stmts_err_extends(stmts: Seq<Stmt<'_>>, j: int)
    requires
        0 <= j <= stmts.len(),
        spec_eval_stmts(stmts.take(j)) is Err,
    ensures
        spec_eval_stmts(stmts) == spec_eval_stmts(stmts.take(j)),
    decreases stmts.len() - j,
{
    if j == stmts.len() {
        assert(stmts.take(j) =~= stmts);
    } else {
        assert(stmts.drop_last().take(j) =~= stmts.take(j));
        lemma_eval_stmts_err_extends(stmts.drop_last(), j);
    }
}

/// The span an expression value covers, mirroring `spec_expr_span`.
pub open spec fn value_span(ev: ExprValue) -> Span
    decreases ev,
{
    match ev {
        ExprValue::AtomV(v, sp) => sp,
        ExprValue::BinaryV { left, op, right } => spec_merge_span(
            value_span(*left),
            value_span(*right),
        ),
        ExprValue::UnaryV { op, expr } => value_span(*expr),
        ExprValue::GroupV(inner) => value_span(*inner),
    }
}

/// What evaluating an expression value yields, mirroring
/// `spec_eval_expr` over the tree's mathematical value.
pub open spec fn spec_eval_value(ev: ExprValue) -> Result<
    (AtomValue, Span),
    (RuntimeErrorValue, Span),
>
    decreases ev,
{
    match ev {
        ExprValue::AtomV(v, sp) => Ok((v, sp)),
        ExprValue::GroupV(inner) => spec_eval_value(*inner),
        ExprValue::UnaryV { op, expr } => match spec_eval_value(*expr) {
            Err(err) => Err(err),
            Ok((v, vs)) => match op {
                Op::Minus => match spec_atom_neg(v) {
                    Ok(nv) => Ok((nv, vs)),
                    Err(k) => Err((k, value_span(*expr))),
                },
                Op::Bang => Ok((spec_atom_not(v), vs)),
                _ => Ok((AtomValue::VNil, value_span(*expr))),
            },
        },
        ExprValue::BinaryV { left, op, right } => match spec_eval_value(*left) {
            Err(err) => Err(err),
            Ok((lv, ls)) => match spec_eval_value(*right) {
                Err(err) => Err(err),
                Ok((rv, rs)) => {
                    let msp = spec_merge_span(value_span(*left), value_span(*right));
                    match op {
                        Op::Plus => match spec_atom_add(lv, rv) {
                            Ok(v) => Ok((v, spec_merge_span(ls, rs))),
                            Err(k) => Err((k, msp)),
                        },
                        Op::Minus => match spec_atom_sub(lv, rv) {
                            Ok(v) => Ok((v, spec_merge_span(ls, rs))),
                            Err(k) => Err((k, msp)),
                        },
                        Op::Star => match spec_atom_mul(lv, rv) {
                            Ok(v) => Ok((v, spec_merge_span(ls, rs))),
                            Err(k) => Err((k, msp)),
                        },
                        Op::Slash => match spec_atom_div(lv, rv) {
                            Ok(v) => Ok((v, spec_merge_span(ls, rs))),
                            Err(k) => Err((k, msp)),
                        },
                        Op::EqualEqual => Ok((AtomValue::VBool(spec_atom_eq(lv, rv)), msp)),
                        Op::BangEqual => Ok((AtomValue::VBool(!spec_atom_eq(lv, rv)), msp)),
                        Op::Less => Ok((AtomValue::VBool(spec_atom_lt(lv, rv)), msp)),
                        Op::LessEqual => Ok((AtomValue::VBool(spec_atom_le(lv, rv)), msp)),
                        Op::Greater => Ok((AtomValue::VBool(spec_atom_lt(rv, lv)), msp)),
                        Op::GreaterEqual => Ok((AtomValue::VBool(spec_atom_le(rv, lv)), msp)),
                        _ => Ok((AtomValue::VNil, msp)),
                    }
                },
            },
        },
    }
}

/// What evaluating a sequence of expression values yields, mirroring
/// `spec_eval_stmts`.
pub open spec fn spec_eval_values(evs: Seq<ExprValue>) -> Result<
    Seq<(AtomValue, Span)>,
    (RuntimeErrorValue, Span),
>
    decreases evs.len(),
{
    if evs.len() == 0 {
        Ok(Seq::empty())
    } else {
        match spec_eval_values(evs.drop_last()) {
            Err(e) => Err(e),
            Ok(vals) => match spec_eval_value(evs.last()) {
                Ok(vsp) => Ok(vals.push(vsp)),
                Err(e) => Err(e),
            },
        }
    }
}

/// An expression's value covers the same span as the expression.
proof fn lemma_view_span(e: Expr<'_>)
    ensures
        value_span(expr_view(e)) == spec_expr_span(e),
    decreases e,
{
    match e {
        Expr::Atom(_) => {},
        Expr::Binary { left, op, right } => {
            lemma_view_span(*left);
            lemma_view_span(*right);
        },
        Expr::Unary { op, expr } => {
            lemma_view_span(*expr);
        },
        Expr::Group(inner) => {
            lemma_view_span(*inner);
        },
        Expr::Block { stmts } => {},
    }
}

/// Evaluating an expression's value gives the expression's evaluation.
proof fn lemma_eval_view(e: Expr<'_>)
    requires
        expr_valid(e, usize::MAX as int),
    ensures
        spec_eval_value(expr_view(e)) == spec_eval_expr(e),
    decreases e,
{
    lemma_view_span(e);
    match e {
        Expr::Atom(_) => {},
        Expr::Binary { left, op, right } => {
            lemma_eval_view(*left);
            lemma_eval_view(*right);
            lemma_view_span(*left);
            lemma_view_span(*right);
        },
        Expr::Unary { op, expr } => {
            lemma_eval_view(*expr);
            lemma_view_span(*expr);
        },
        Expr::Group(inner) => {
            lemma_eval_view(*inner);
        },
        Expr::Block { stmts } => {},
    }
}

/// Evaluating a statement sequence's values gives the statements'
/// evaluation.
proof fn lemma_eval_stmts_view(stmts: Seq<Stmt<'_>>)
    requires
        forall|i: int|
            0 <= i < stmts.len() ==> (#[trigger] stmts[i]) is Expr && expr_valid(
                stmts[i]->Expr_0,
                usize::MAX as int,
            ),
    ensures
        spec_eval_values(stmt_views(stmts)) == spec_eval_stmts(stmts),
    decreases stmts.len(),
{
    if stmts.len() > 0 {
        assert(stmt_views(stmts).drop_last() =~= stmt_views(stmts.drop_last()));
        assert(stmt_views(stmts).last() == expr_view(stmts.last()->Expr_0));
        lemma_eval_stmts_view(stmts.drop_last());
        lemma_eval_view(stmts.last()->Expr_0);
    }
}

/// The result of running a statement sequence, tied to the specification:
/// on success, one atom per statement with the specified value and span;
/// on the first runtime error, a diagnostic with the specified kind and
/// span over the given source.
pub open spec fn eval_outcome_ok(
    stmts: Seq<Stmt<'_>>,
    src: Seq<char>,
    r: Result<Vec<Atom<'_>>, Error>,
) -> bool {
    match spec_eval_stmts(stmts) {
        Ok(vals) => match r {
            Ok(out) => out@.len() == vals.len() && forall|i: int|
                0 <= i < vals.len() ==> (#[trigger] out@[i]).kind@ == vals[i].0 && out@[i].span
                    == vals[i].1,
            _ => false,
        },
        Err((k, sp)) => match r {
            Err(Error::RuntimeError(d)) => d.kind@ == k && d.span == sp && d.source@ == src,
            _ => false,
        },
    }
}

/// Two values are of the same kind: both text, both numbers, and so on.
pub open spec fn same_value_kind(a: AtomValue, b: AtomValue) -> bool {
    match (a, b) {
        (AtomValue::VString(_), AtomValue::VString(_)) => true,
        (AtomValue::VNumber(_, _), AtomValue::VNumber(_, _)) => true,
        (AtomValue::VNil, AtomValue::VNil) => true,
        (AtomValue::VBool(_), AtomValue::VBool(_)) => true,
        (AtomValue::VIdent(_), AtomValue::VIdent(_)) => true,
        (AtomValue::VSuper, AtomValue::VSuper) => true,
        (AtomValue::VThis, AtomValue::VThis) => true,
        _ => false,
    }
}

/// Dividing a number by an exact numeric zero evaluates to the
/// division-by-zero error, pointing at both operands — never to a
/// silent nil result.
pub proof fn lemma_division_by_zero_is_error<'a>(e: Expr<'a>, la: Atom<'a>, ra: Atom<'a>)
    requires
        e matches Expr::Binary { left, op, right } && op == Op::Slash && *left == Expr::Atom(la)
            && *right == Expr::Atom(ra),
        la.kind@ matches AtomValue::VNumber(n1, d1),
        ra.kind@ matches AtomValue::VNumber(n2, d2) && n2 == 0,
    ensures
        spec_eval_expr(e) == Err::<(AtomValue, Span), (RuntimeErrorValue, Span)>(
            (RuntimeErrorValue::DivisionByZero, spec_merge_span(la.span, ra.span)),
        ),
{
    match e {
        Expr::Binary { left, op, right } => {
            assert(spec_eval_expr(*left) == Ok::<(AtomValue, Span), (RuntimeErrorValue, Span)>(
                (la.kind@, la.span),
            ));
            assert(spec_eval_expr(*right) == Ok::<(AtomValue, Span), (RuntimeErrorValue, Span)>(
                (ra.kind@, ra.span),
            ));
            assert(spec_expr_span(*left) == la.span);
            assert(spec_expr_span(*right) == ra.span);
        },
        _ => {},
    }
}

/// Adding two strings evaluates to their concatenation: a value of its
/// own, independent of either operand.
pub proof fn lemma_string_concatenation<'a>(
    e: Expr<'a>,
    la: Atom<'a>,
    ra: Atom<'a>,
    s1: Seq<char>,
    s2: Seq<char>,
)
    requires
        e matches Expr::Binary { left, op, right } && op == Op::Plus && *left == Expr::Atom(la)
            && *right == Expr::Atom(ra),
        la.kind@ == AtomValue::VString(s1),
        ra.kind@ == AtomValue::VString(s2),
    ensures
        spec_eval_expr(e) == Ok::<(AtomValue, Span), (RuntimeErrorValue, Span)>(
            (AtomValue::VString(s1 + s2), spec_merge_span(la.span, ra.span)),
        ),
{
    match e {
        Expr::Binary { left, op, right } => {
            assert(spec_eval_expr(*left) == Ok::<(AtomValue, Span), (RuntimeErrorValue, Span)>(
                (la.kind@, la.span),
            ));
            assert(spec_eval_expr(*right) == Ok::<(AtomValue, Span), (RuntimeErrorValue, Span)>(
                (ra.kind@, ra.span),
            ));
        },
        _ => {},
    }
}

/// Comparing two atoms for equality never errors, whatever their kinds;
/// and when the kinds differ, the answer is false.
pub proof fn lemma_cross_kind_equality_never_errors<'a>(e: Expr<'a>, la: Atom<'a>, ra: Atom<'a>)
    requires
        e matches Expr::Binary { left, op, right } && op == Op::EqualEqual && *left
            == Expr::Atom(la) && *right == Expr::Atom(ra),
    ensures
        spec_eval_expr(e) is Ok,
        !same_value_kind(la.kind@, ra.kind@) ==> spec_eval_expr(e) == Ok::<
            (AtomValue, Span),
            (RuntimeErrorValue, Span),
        >((AtomValue::VBool(false), spec_merge_span(la.span, ra.span))),
{
    match e {
        Expr::Binary { left, op, right } => {
            assert(spec_eval_expr(*left) == Ok::<(AtomValue, Span), (RuntimeErrorValue, Span)>(
                (la.kind@, la.span),
            ));
            assert(spec_eval_expr(*right) == Ok::<(AtomValue, Span), (RuntimeErrorValue, Span)>(
                (ra.kind@, ra.span),
            ));
        },
        _ => {},
    }
}

/// Wraps a runtime error of the given kind into the common error type.
fn make_runtime_error(source: &str, kind: RuntimeErrorKind, span: Span) -> (r: Error)
    ensures
        r == Error::RuntimeError(DiagnosticError { source: r->RuntimeError_0.source, kind, span }),
        r->RuntimeError_0.source@ == source@,
{
    Error::RuntimeError(DiagnosticError::new(source.to_owned(), kind, span))
}

/// Evaluates one expression over the given source text.
pub fn eval_expr<'a>(source: &str, e: &Expr<'a>) -> (r: Result<Atom<'a>, Error>)
    requires
        expr_valid(*e, source@.len() as int),
        source@.len() <= usize::MAX,
    ensures
        match spec_eval_expr(*e) {
            Ok((v, sp)) => match r {
                Ok(at) => at.kind@ == v && at.span == sp && at.wf(),
                _ => false,
            },
            Err((k, sp)) => match r {
                Err(Error::RuntimeError(d)) => d.kind@ == k && d.span == sp && d.source@
                    == source@,
                _ => false,
            },
        },
    decreases *e,
{
    proof {
        crate::tree::lemma_expr_span_valid(*e, source@.len() as int);
        crate::tree::lemma_expr_valid_widen(*e, source@.len() as int, usize::MAX as int);
    }
    match e {
        Expr::Atom(a) => Ok(a.duplicate()),
        Expr::Group(inner) => eval_expr(source, inner),
        Expr::Unary { op, expr } => {
            let v = match eval_expr(source, expr) {
                Ok(v) => v,
                Err(err) => {
                    return Err(err);
                },
            };
            match *op {
                Op::Minus => match v.neg() {
                    Ok(at) => Ok(at),
                    Err(k) => Err(make_runtime_error(source, k, expr.span())),
                },
                Op::Bang => Ok(v.not()),
                _ => Ok(Atom::new(AtomKind::Nil, expr.span())),
            }
        },
        Expr::Binary { left, op, right } => {
            let lv = match eval_expr(source, left) {
                Ok(v) => v,
                Err(err) => {
                    return Err(err);
                },
            };
            let rv = match eval_expr(source, right) {
                Ok(v) => v,
                Err(err) => {
                    return Err(err);
                },
            };
            proof {
                crate::tree::lemma_expr_span_valid(**left, source@.len() as int);
                crate::tree::lemma_expr_span_valid(**right, source@.len() as int);
            }
            let msp = merge_span(left.span(), right.span());
            match *op {
                Op::Plus => match lv.add(rv) {
                    Ok(at) => Ok(at),
                    Err(k) => Err(make_runtime_error(source, k, msp)),
                },
                Op::Minus => match lv.sub(rv) {
                    Ok(at) => Ok(at),
                    Err(k) => Err(make_runtime_error(source, k, msp)),
                },
                Op::Star => match lv.mul(rv) {
                    Ok(at) => Ok(at),
                    Err(k) => Err(make_runtime_error(source, k, msp)),
                },
                Op::Slash => match lv.div(rv) {
                    Ok(at) => Ok(at),
                    Err(k) => Err(make_runtime_error(source, k, msp)),
                },
                Op::EqualEqual => Ok(Atom::new(AtomKind::Bool(lv.equals(&rv)), msp)),
                Op::BangEqual => Ok(Atom::new(AtomKind::Bool(!lv.equals(&rv)), msp)),
                Op::Less => Ok(Atom::new(AtomKind::Bool(lv.lt(&rv)), msp)),
                Op::LessEqual => Ok(Atom::new(AtomKind::Bool(lv.le(&rv)), msp)),
                Op::Greater => Ok(Atom::new(AtomKind::Bool(lv.gt(&rv)), msp)),
                Op::GreaterEqual => Ok(Atom::new(AtomKind::Bool(lv.ge(&rv)), msp)),
                _ => Ok(Atom::new(AtomKind::Nil, msp)),
            }
        },
        Expr::Block { stmts } => {
            proof {
                assert(false);
            }
            Err(Error::UnexpectedEndOfInput)
        },
    }
}

/// Evaluates one statement.
fn eval_stmt<'a>(source: &str, stmt: &Stmt<'a>) -> (r: Result<Atom<'a>, Error>)
    requires
        stmt.stmt_valid(source@.len() as int),
        source@.len() <= usize::MAX,
    ensures
        match spec_eval_expr(stmt->Expr_0) {
            Ok((v, sp)) => match r {
                Ok(at) => at.kind@ == v && at.span == sp && at.wf(),
                _ => false,
            },
            Err((k, sp)) => match r {
                Err(Error::RuntimeError(d)) => d.kind@ == k && d.span == sp && d.source@
                    == source@,
                _ => false,
            },
        },
{
    match stmt {
        Stmt::Expr(e) => eval_expr(source, e),
        Stmt::Item(_) => {
            proof {
                assert(false);
            }
            Err(Error::UnexpectedEndOfInput)
        },
    }
}

/// The interpreter owns its parser, which owns its lexer: a strict
/// ownership chain over one borrowed source buffer.
pub struct Interpreter<'a> {
    pub parser: Parser<'a>,
}

impl<'a> Interpreter<'a> {
    /// The interpreter is valid whenever its parser is.
    pub open spec fn wf(self) -> bool {
        self.parser.wf()
    }

    pub fn new(source: &'a str) -> (r: Interpreter<'a>)
        ensures
            r.wf(),
            r.parser.lexer.source_code@ == source@,
            r.parser.lexer.offset == 0,
    {
        let parser = Parser::new(source);
        Interpreter { parser }
    }

    /// Evaluates every statement of a parsed tree over its source, in
    /// source order, stopping at the first runtime error.
    pub fn eval_tree(tree: &TokenTree<'a>, source: &str) -> (r: Result<Vec<Atom<'a>>, Error>)
        requires
            tree_valid(*tree, source@.len() as int),
            source@.len() <= usize::MAX,
        ensures
            eval_outcome_ok(tree.0@, source@, r),
    {
        let ghost stmts = tree.0@;
        let mut vals: Vec<Atom<'a>> = Vec::new();
        let n = tree.0.len();
        let mut i: usize = 0;
        proof {
            assert(stmts.take(0) =~= Seq::<Stmt<'a>>::empty());
        }
        while i < n
            invariant
                0 <= i <= n == stmts.len(),
                stmts == tree.0@,
                tree_valid(*tree, source@.len() as int),
                source@.len() <= usize::MAX,
                spec_eval_stmts(stmts.take(i as int)) is Ok,
                vals@.len() == spec_eval_stmts(stmts.take(i as int))->Ok_0.len(),
                forall|k: int|
                    0 <= k < vals@.len() ==> (#[trigger] vals@[k]).kind@ == spec_eval_stmts(
                        stmts.take(i as int),
                    )->Ok_0[k].0 && vals@[k].span == spec_eval_stmts(
                        stmts.take(i as int),
                    )->Ok_0[k].1,
            decreases n - i,
        {
            let stmt = &tree.0[i];
            proof {
                assert(stmts.take(i as int + 1).drop_last() =~= stmts.take(i as int));
                assert(stmts.take(i as int + 1).last() == stmts[i as int]);
            }
            match eval_stmt(source, stmt) {
                Ok(at) => {
                    vals.push(at);
                },
                Err(e) => {
                    proof {
                        lemma_eval_stmts_err_extends(stmts, i as int + 1);
                    }
                    return Err(e);
                },
            }
            i += 1;
        }
        proof {
            assert(stmts.take(n as int) =~= stmts);
        }
        Ok(vals)
    }

    /// Drives parsing to completion, then evaluates each statement. The
    /// first error of any stage aborts and is surfaced to the caller; on
    /// success the values of the expression statements are returned in
    /// source order.
    pub fn interpret(&mut self) -> (r: Result<Vec<Atom<'a>>, Error>)
        requires
            old(self).wf(),
        ensures
            final(self).wf(),
            final(self).parser.lexer.source_code == old(self).parser.lexer.source_code,
            ({
                let s = old(self).parser.lexer.source_code@;
                match parse_spec(s, old(self).parser.lexer.offset as int) {
                    Err(ev) => r matches Err(er) && er@ == ev,
                    Ok(evs) => match spec_eval_values(evs) {
                        Ok(vals) => r matches Ok(out) && out@.len() == vals.len() && forall|
                            i: int,
                        |
                            0 <= i < vals.len() ==> (#[trigger] out@[i]).kind@ == vals[i].0
                                && out@[i].span == vals[i].1,
                        Err(e) => r matches Err(Error::RuntimeError(d)) && d.kind@ == e.0
                            && d.span == e.1 && d.source@ == s,
                    },
                }
            }),
    {
        let ghost srclen = self.parser.lexer.source_code@.len() as int;
        let source = self.parser.lexer.source_code();
        let tree = match self.parser.parse() {
            Ok(tree) => tree,
            Err(e) => {
                return Err(e);
            },
        };
        let r = Self::eval_tree(&tree, source);
        proof {
            assert forall|i: int| 0 <= i < tree.0@.len() implies (#[trigger] tree.0@[i]) is Expr
                && expr_valid(tree.0@[i]->Expr_0, usize::MAX as int) by {
                crate::tree::lemma_expr_valid_widen(
                    tree.0@[i]->Expr_0,
                    srclen,
                    usize::MAX as int,
                );
            }
            lemma_eval_stmts_view(tree.0@);
        }
        r
    }
}

} // verus!
