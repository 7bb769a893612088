//! The parser: a precedence-climbing (Pratt) walk over the lexer's token
//! stream. One statement is one expression terminated by `;`; an
//! expression is a leading primary term extended by postfix and infix
//! operators whose binding powers allow it.

use crate::error::{DiagnosticError, Error, ErrorValue, ParseErrorKind, ParseErrorValue};
use crate::lexer::{skip_trivia, spec_expect, spec_scan, Lexer};
use crate::span::Span;
use crate::token::{
    classify_spec, BinaryOperator, Keyword, Literal, Operator, Token, TokenType, UnaryOperator,
};
use crate::tree::{
    bang_floor, expr_bp_ok, expr_valid, expr_view, lemma_expr_bp_ok_weaken,
    spec_infix_binding_power, spec_op_from, spec_postfix_binding_power, Atom, AtomKind,
    AtomValue, Expr,
    ExprValue, Op, Stmt, TokenTree,
};
use vstd::prelude::*;
use vstd::string::StrSliceExecFns;

verus! {

/// Every statement of a parsed tree is a valid expression statement over
/// a source of `len` characters.
pub open spec fn tree_valid(tree: TokenTree<'_>, len: int) -> bool {
    forall|i: int| 0 <= i < tree.0@.len() ==> (#[trigger] tree.0@[i]).stmt_valid(len)
}

/// The text of a quoted lexeme with its surrounding quotes stripped.
pub open spec fn strip_quotes(q: Seq<char>) -> Seq<char> {
    if q.len() >= 2 && q[0] == '"' && q[q.len() - 1] == '"' {
        q.subrange(1, q.len() - 1)
    } else {
        q
    }
}

/// The atom is read off the source at its own span: its kind and payload
/// agree with the classification of that exact slice.
pub open spec fn atom_from_source(a: Atom<'_>, s: Seq<char>) -> bool {
    let slice = s.subrange(a.span.offset as int, a.span.offset + a.span.length);
    match a.kind {
        AtomKind::Number(n) => crate::token::classify_spec(slice) == TokenType::Literal(
            Literal::Number(n),
        ),
        AtomKind::Ident(t) => t@ == slice && crate::token::classify_spec(slice)
            == TokenType::Literal(Literal::Identifier),
        AtomKind::String(st) => st@ == strip_quotes(slice) && crate::token::classify_spec(slice)
            == TokenType::Literal(Literal::String),
        AtomKind::Bool(b) => crate::token::classify_spec(slice) == TokenType::Keyword(
            if b {
                Keyword::True
            } else {
                Keyword::False
            },
        ),
        AtomKind::Nil => crate::token::classify_spec(slice) == TokenType::Keyword(Keyword::Nil),
        AtomKind::This => crate::token::classify_spec(slice) == TokenType::Keyword(Keyword::This),
        AtomKind::Super => crate::token::classify_spec(slice) == TokenType::Keyword(
            Keyword::Super,
        ),
    }
}

/// Every atom leaf of the expression is read off the source at its own
/// span: the parser copies literals, it never invents them.
pub open spec fn expr_from_source(e: Expr<'_>, s: Seq<char>) -> bool
    decreases e,
{
    match e {
        Expr::Atom(a) => atom_from_source(a, s),
        Expr::Binary { left, op, right } => expr_from_source(*left, s) && expr_from_source(
            *right,
            s,
        ),
        Expr::Unary { op, expr } => expr_from_source(*expr, s),
        Expr::Group(inner) => expr_from_source(*inner, s),
        Expr::Block { stmts } => false,
    }
}

/// What one parse walk yields: the parsed expression's value with the
/// position after it, or the exact error value.
pub enum ParseStep {
    ParsedTo(ExprValue, int),
    FailedAt(ErrorValue),
}

/// What parsing one expression from position `pos` at threshold `min_bp`
/// yields: the end of input where an expression is expected is an
/// invalid-expression error with an empty span at the cursor; a scan
/// error surfaces as it is; otherwise the leading token opens a primary
/// term — a literal or keyword atom, a prefix application, or a
/// parenthesized group demanding its closing paren — and the walk
/// continues through `parse_loop_spec`. The `FailedAt(UnexpectedEndOfInput)`
/// guard arms serve termination only: a parsed subexpression always ends
/// past where it began, so they are never reached.
pub open spec fn parse_expr_spec(s: Seq<char>, pos: int, min_bp: u8) -> ParseStep
    recommends
        0 <= pos <= s.len(),
    decreases s.len() - pos, 1int,
    via parse_expr_spec_dec
{
    match spec_scan(s, pos) {
        None => ParseStep::FailedAt(
            ErrorValue::ParseError(
                ParseErrorValue::InvalidExpression(Seq::empty()),
                Span { offset: s.len() as usize, length: 0 },
                s,
            ),
        ),
        Some(Err(ev)) => ParseStep::FailedAt(ev),
        Some(Ok(te)) => {
            let t = te.0;
            let e = te.1;
            let lex = s.subrange(t, e);
            let span = Span { offset: t as usize, length: (e - t) as usize };
            match classify_spec(lex) {
                TokenType::Literal(Literal::String) => parse_loop_spec(
                    s,
                    ExprValue::AtomV(AtomValue::VString(strip_quotes(lex)), span),
                    e,
                    min_bp,
                ),
                TokenType::Literal(Literal::Identifier) => parse_loop_spec(
                    s,
                    ExprValue::AtomV(AtomValue::VIdent(lex), span),
                    e,
                    min_bp,
                ),
                TokenType::Literal(Literal::Number(n)) => parse_loop_spec(
                    s,
                    ExprValue::AtomV(AtomValue::VNumber(n.num as int, n.den as int), span),
                    e,
                    min_bp,
                ),
                TokenType::Keyword(kw) => match kw {
                    Keyword::True => parse_loop_spec(
                        s,
                        ExprValue::AtomV(AtomValue::VBool(true), span),
                        e,
                        min_bp,
                    ),
                    Keyword::False => parse_loop_spec(
                        s,
                        ExprValue::AtomV(AtomValue::VBool(false), span),
                        e,
                        min_bp,
                    ),
                    Keyword::Nil => parse_loop_spec(
                        s,
                        ExprValue::AtomV(AtomValue::VNil, span),
                        e,
                        min_bp,
                    ),
                    Keyword::This => parse_loop_spec(
                        s,
                        ExprValue::AtomV(AtomValue::VThis, span),
                        e,
                        min_bp,
                    ),
                    Keyword::Super => parse_loop_spec(
                        s,
                        ExprValue::AtomV(AtomValue::VSuper, span),
                        e,
                        min_bp,
                    ),
                    Keyword::Print | Keyword::Return => {
                        let op = if kw == Keyword::Print {
                            Op::Print
                        } else {
                            Op::Return
                        };
                        match parse_expr_spec(s, e, 1) {
                            ParseStep::FailedAt(er) => ParseStep::FailedAt(er),
                            ParseStep::ParsedTo(rhs, p2) => if p2 > e && p2 <= s.len() {
                                parse_loop_spec(
                                    s,
                                    ExprValue::UnaryV { op, expr: Box::new(rhs) },
                                    p2,
                                    min_bp,
                                )
                            } else {
                                ParseStep::FailedAt(ErrorValue::UnexpectedEndOfInput)
                            },
                        }
                    },
                    _ => ParseStep::FailedAt(
                        ErrorValue::ParseError(ParseErrorValue::UnexpectedKeyword(kw), span, s),
                    ),
                },
                TokenType::Operator(Operator::Unary(u)) => {
                    if u == UnaryOperator::LeftParen {
                        match parse_expr_spec(s, e, 0) {
                            ParseStep::FailedAt(er) => ParseStep::FailedAt(er),
                            ParseStep::ParsedTo(inner, p2) => if p2 > e && p2 <= s.len() {
                                match spec_expect(
                                    s,
                                    p2,
                                    TokenType::Operator(Operator::Unary(UnaryOperator::RightParen)),
                                ) {
                                    Err(ev) => ParseStep::FailedAt(ev),
                                    Ok(e2) => if e2 > p2 && e2 <= s.len() {
                                        parse_loop_spec(
                                            s,
                                            ExprValue::GroupV(Box::new(inner)),
                                            e2,
                                            min_bp,
                                        )
                                    } else {
                                        ParseStep::FailedAt(ErrorValue::UnexpectedEndOfInput)
                                    },
                                }
                            } else {
                                ParseStep::FailedAt(ErrorValue::UnexpectedEndOfInput)
                            },
                        }
                    } else if u == UnaryOperator::Bang || u == UnaryOperator::Minus || u
                        == UnaryOperator::Plus {
                        let op = if u == UnaryOperator::Bang {
                            Op::Bang
                        } else if u == UnaryOperator::Minus {
                            Op::Minus
                        } else {
                            Op::Plus
                        };
                        match parse_expr_spec(s, e, 11) {
                            ParseStep::FailedAt(er) => ParseStep::FailedAt(er),
                            ParseStep::ParsedTo(rhs, p2) => if p2 > e && p2 <= s.len() {
                                parse_loop_spec(
                                    s,
                                    ExprValue::UnaryV { op, expr: Box::new(rhs) },
                                    p2,
                                    min_bp,
                                )
                            } else {
                                ParseStep::FailedAt(ErrorValue::UnexpectedEndOfInput)
                            },
                        }
                    } else {
                        ParseStep::FailedAt(
                            ErrorValue::ParseError(
                                ParseErrorValue::InvalidExpression(lex),
                                span,
                                s,
                            ),
                        )
                    }
                },
                ty => ParseStep::FailedAt(
                    ErrorValue::ParseError(ParseErrorValue::UnexpectedToken(ty, lex), span, s),
                ),
            }
        },
    }
}

#[via_fn]
proof fn parse_expr_spec_dec(s: Seq<char>, pos: int, min_bp: u8) {
    crate::lexer::lemma_scan_bounds(s, pos);
}

/// What extending an already parsed left-hand side yields: stop before
/// a closing paren, a semicolon, the end of input, or an operator whose
/// left power falls short of the threshold; wrap postfix applications;
/// fold infix applications with their right operands parsed at the
/// operator's right power. Anything that is not an operator is an
/// unexpected token.
pub open spec fn parse_loop_spec(s: Seq<char>, lhs: ExprValue, pos: int, min_bp: u8) -> ParseStep
    recommends
        0 <= pos <= s.len(),
    decreases s.len() - pos, 0int,
    via parse_loop_spec_dec
{
    match spec_scan(s, pos) {
        None => ParseStep::ParsedTo(lhs, pos),
        Some(Err(ev)) => ParseStep::FailedAt(ev),
        Some(Ok(te)) => {
            let t = te.0;
            let e = te.1;
            let lex = s.subrange(t, e);
            let span = Span { offset: t as usize, length: (e - t) as usize };
            match classify_spec(lex) {
                TokenType::Operator(lexop) => {
                    if lexop == Operator::Unary(UnaryOperator::RightParen) || lexop
                        == Operator::Unary(UnaryOperator::Semicolon) {
                        ParseStep::ParsedTo(lhs, pos)
                    } else {
                        match spec_op_from(lexop) {
                            Err(kindv) => ParseStep::FailedAt(
                                ErrorValue::ParseError(kindv, span, s),
                            ),
                            Ok(op) => match spec_postfix_binding_power(op) {
                                Some((l_bp, _)) => if l_bp < min_bp {
                                    ParseStep::ParsedTo(lhs, pos)
                                } else {
                                    parse_loop_spec(
                                        s,
                                        ExprValue::UnaryV { op, expr: Box::new(lhs) },
                                        e,
                                        min_bp,
                                    )
                                },
                                None => match spec_infix_binding_power(op) {
                                    Some((l_bp, r_bp)) => if l_bp < min_bp {
                                        ParseStep::ParsedTo(lhs, pos)
                                    } else {
                                        match parse_expr_spec(s, e, r_bp) {
                                            ParseStep::FailedAt(er) => ParseStep::FailedAt(er),
                                            ParseStep::ParsedTo(rhs, p2) => if p2 > e && p2 <= s.len() {
                                                parse_loop_spec(
                                                    s,
                                                    ExprValue::BinaryV {
                                                        left: Box::new(lhs),
                                                        op,
                                                        right: Box::new(rhs),
                                                    },
                                                    p2,
                                                    min_bp,
                                                )
                                            } else {
                                                ParseStep::FailedAt(
                                                    ErrorValue::UnexpectedEndOfInput,
                                                )
                                            },
                                        }
                                    },
                                    None => ParseStep::ParsedTo(lhs, pos),
                                },
                            },
                        }
                    }
                },
                ty => ParseStep::FailedAt(
                    ErrorValue::ParseError(ParseErrorValue::UnexpectedToken(ty, lex), span, s),
                ),
            }
        },
    }
}

#[via_fn]
proof fn parse_loop_spec_dec(s: Seq<char>, lhs: ExprValue, pos: int, min_bp: u8) {
    crate::lexer::lemma_scan_bounds(s, pos);
}

/// What parsing one statement yields: one expression at threshold zero,
/// then its terminating semicolon.
pub open spec fn parse_stmt_spec(s: Seq<char>, pos: int) -> ParseStep {
    match parse_expr_spec(s, pos, 0) {
        ParseStep::FailedAt(er) => ParseStep::FailedAt(er),
        ParseStep::ParsedTo(ev, p1) => match spec_expect(
            s,
            p1,
            TokenType::Operator(Operator::Unary(UnaryOperator::Semicolon)),
        ) {
            Err(ev2) => ParseStep::FailedAt(ev2),
            Ok(e2) => ParseStep::ParsedTo(ev, e2),
        },
    }
}

/// What parsing a whole source from `pos` yields: the statements'
/// expression values in source order while tokens remain, or the first
/// error of any stage. The guard arm serves termination only and is
/// never reached: a parsed statement always ends past where it began.
pub open spec fn parse_spec(s: Seq<char>, pos: int) -> Result<Seq<ExprValue>, ErrorValue>
    recommends
        0 <= pos <= s.len(),
    decreases s.len() - pos,
{
    if skip_trivia(s, pos) >= s.len() {
        Ok(Seq::empty())
    } else {
        match parse_stmt_spec(s, pos) {
            ParseStep::FailedAt(er) => Err(er),
            ParseStep::ParsedTo(ev, p1) => if p1 > pos && p1 <= s.len() {
                match parse_spec(s, p1) {
                    Err(e2) => Err(e2),
                    Ok(rest) => Ok(seq![ev] + rest),
                }
            } else {
                Err(ErrorValue::UnexpectedEndOfInput)
            },
        }
    }
}

/// The expression values of a statement sequence, in order.
pub open spec fn stmt_views(ss: Seq<Stmt<'_>>) -> Seq<ExprValue> {
    ss.map_values(|st: Stmt<'_>| expr_view(st->Expr_0))
}

/// Wraps a parse error of the given kind into the common error type.
fn make_parse_error(source: &str, kind: ParseErrorKind, span: Span) -> (r: Error)
    ensures
        r == Error::ParseError(DiagnosticError { source: r->ParseError_0.source, kind, span }),
        r->ParseError_0.source@ == source@,
{
    Error::ParseError(DiagnosticError::new(source.to_owned(), kind, span))
}

/// The parser owns its lexer and pulls tokens from it on demand.
pub struct Parser<'a> {
    pub lexer: Lexer<'a>,
}

impl<'a> Parser<'a> {
    /// The parser is valid whenever its lexer is.
    pub open spec fn wf(self) -> bool {
        self.lexer.wf()
    }

    pub fn new(source: &'a str) -> (r: Parser<'a>)
        ensures
            r.lexer.source_code@ == source@,
            r.lexer.offset == 0,
            r.wf(),
    {
        let lexer = Lexer::new(source);
        Parser { lexer }
    }

    /// The underlying lexer, for position and source queries.
    pub fn lexer(&self) -> (r: &Lexer<'a>)
        ensures
            r == &self.lexer,
    {
        &self.lexer
    }

    /// Parses statements until the token stream is exhausted. The first
    /// error of any stage aborts the parse.
    pub fn parse(&mut self) -> (r: Result<TokenTree<'a>, Error>)
        requires
            old(self).wf(),
        ensures
            final(self).wf(),
            final(self).lexer.source_code == old(self).lexer.source_code,
            match r {
                Ok(tree) => tree_valid(tree, old(self).lexer.source_code@.len() as int) && (
                forall|i: int|
                    0 <= i < tree.0@.len() ==> (#[trigger] tree.0@[i]) is Expr && expr_bp_ok(
                        tree.0@[i]->Expr_0,
                        0,
                    ) && expr_from_source(tree.0@[i]->Expr_0, old(self).lexer.source_code@))
                    && parse_spec(old(self).lexer.source_code@, old(self).lexer.offset as int)
                    == Ok::<Seq<ExprValue>, ErrorValue>(stmt_views(tree.0@)),
                Err(er) => parse_spec(old(self).lexer.source_code@, old(self).lexer.offset as int)
                    == Err::<Seq<ExprValue>, ErrorValue>(er@),
            },
    {
        let ghost srclen = self.lexer.source_code@.len() as int;
        let ghost s = self.lexer.source_code@;
        let ghost pos0 = self.lexer.offset as int;
        let mut stmts: Vec<Stmt<'a>> = Vec::new();
        proof {
            assert(stmt_views(stmts@) =~= Seq::<ExprValue>::empty());
        }
        loop
            invariant_except_break
                self.wf(),
                self.lexer.source_code == old(self).lexer.source_code,
                srclen == self.lexer.source_code@.len(),
                s == self.lexer.source_code@,
                pos0 == old(self).lexer.offset as int,
                forall|i: int|
                    0 <= i < stmts@.len() ==> (#[trigger] stmts@[i]) is Expr && stmts@[
                        i
                    ].stmt_valid(srclen) && expr_bp_ok(stmts@[i]->Expr_0, 0) && expr_from_source(
                        stmts@[i]->Expr_0,
                        self.lexer.source_code@,
                    ),
                match parse_spec(s, self.lexer.offset as int) {
                    Ok(rest) => parse_spec(s, pos0) == Ok::<Seq<ExprValue>, ErrorValue>(
                        stmt_views(stmts@) + rest,
                    ),
                    Err(e2) => parse_spec(s, pos0) == Err::<Seq<ExprValue>, ErrorValue>(e2),
                },
            ensures
                self.wf(),
                self.lexer.source_code == old(self).lexer.source_code,
                forall|i: int|
                    0 <= i < stmts@.len() ==> (#[trigger] stmts@[i]) is Expr && stmts@[
                        i
                    ].stmt_valid(srclen) && expr_bp_ok(stmts@[i]->Expr_0, 0) && expr_from_source(
                        stmts@[i]->Expr_0,
                        self.lexer.source_code@,
                    ),
                parse_spec(s, pos0) == Ok::<Seq<ExprValue>, ErrorValue>(stmt_views(stmts@)),
            decreases self.lexer.source_code@.len() - self.lexer.offset,
        {
            let more = match self.lexer.peek() {
                Some(_) => true,
                None => false,
            };
            if !more {
                proof {
                    assert(parse_spec(s, self.lexer.offset as int) == Ok::<
                        Seq<ExprValue>,
                        ErrorValue,
                    >(Seq::empty()));
                    assert(stmt_views(stmts@) + Seq::<ExprValue>::empty() =~= stmt_views(
                        stmts@,
                    ));
                }
                break ;
            }
            let ghost cur = self.lexer.offset as int;
            match self.parse_stmt() {
                Ok(stmt) => {
                    proof {
                        let p1 = self.lexer.offset as int;
                        assert(parse_spec(s, cur) == (match parse_spec(s, p1) {
                            Err(e2) => Err::<Seq<ExprValue>, ErrorValue>(e2),
                            Ok(rest) => Ok::<Seq<ExprValue>, ErrorValue>(
                                seq![expr_view(stmt->Expr_0)] + rest,
                            ),
                        }));
                        assert(stmt_views(stmts@.push(stmt)) =~= stmt_views(stmts@) + seq![
                            expr_view(stmt->Expr_0),
                        ]);
                        if parse_spec(s, p1) is Ok {
                            assert(stmt_views(stmts@) + (seq![expr_view(stmt->Expr_0)]
                                + parse_spec(s, p1)->Ok_0) =~= stmt_views(stmts@.push(stmt))
                                + parse_spec(s, p1)->Ok_0);
                        }
                    }
                    stmts.push(stmt);
                },
                Err(e) => {
                    return Err(e);
                },
            }
        }
        Ok(TokenTree(stmts))
    }

    /// Parses one expression statement and its terminating semicolon.
    fn parse_stmt(&mut self) -> (r: Result<Stmt<'a>, Error>)
        requires
            old(self).wf(),
        ensures
            final(self).wf(),
            final(self).lexer.source_code == old(self).lexer.source_code,
            final(self).lexer.offset >= old(self).lexer.offset,
            match r {
                Ok(stmt) => stmt.stmt_valid(old(self).lexer.source_code@.len() as int)
                    && expr_bp_ok(stmt->Expr_0, 0) && expr_from_source(
                    stmt->Expr_0,
                    old(self).lexer.source_code@,
                ) && final(self).lexer.offset > old(self).lexer.offset && parse_stmt_spec(
                    old(self).lexer.source_code@,
                    old(self).lexer.offset as int,
                ) == ParseStep::ParsedTo(
                    expr_view(stmt->Expr_0),
                    final(self).lexer.offset as int,
                ),
                Err(er) => parse_stmt_spec(
                    old(self).lexer.source_code@,
                    old(self).lexer.offset as int,
                ) == ParseStep::FailedAt(er@),
            },
    {
        let expr = match self.parse_expr(0) {
            Ok(e) => e,
            Err(e) => {
                return Err(e);
            },
        };
        match self.lexer.expect(
            TokenType::Operator(Operator::Unary(UnaryOperator::Semicolon)),
        ) {
            Ok(_) => Ok(Stmt::Expr(expr)),
            Err(e) => Err(e),
        }
    }

    /// Parses one expression: a primary term, then any postfix and infix
    /// operators whose left binding power reaches `min_bp`.
    fn parse_expr(&mut self, min_bp: u8) -> (r: Result<Expr<'a>, Error>)
        requires
            old(self).wf(),
        ensures
            final(self).wf(),
            final(self).lexer.source_code == old(self).lexer.source_code,
            final(self).lexer.offset >= old(self).lexer.offset,
            match r {
                Ok(e) => expr_valid(e, old(self).lexer.source_code@.len() as int) && expr_bp_ok(
                    e,
                    min_bp,
                ) && expr_from_source(e, old(self).lexer.source_code@) && final(self).lexer.offset
                    > old(self).lexer.offset && parse_expr_spec(
                    old(self).lexer.source_code@,
                    old(self).lexer.offset as int,
                    min_bp,
                ) == ParseStep::ParsedTo(expr_view(e), final(self).lexer.offset as int),
                Err(er) => parse_expr_spec(
                    old(self).lexer.source_code@,
                    old(self).lexer.offset as int,
                    min_bp,
                ) == ParseStep::FailedAt(er@),
            },
        decreases self.lexer.source_code@.len() - self.lexer.offset,
    {
        let ghost srclen = self.lexer.source_code@.len() as int;
        let source = self.lexer.source_code();
        let lhs_tok: Token<'a> = match self.lexer.next() {
            Some(Ok(token)) => token,
            Some(Err(e)) => {
                return Err(e);
            },
            None => {
                let msg = String::new();
                proof {
                    assert(msg@ =~= Seq::<char>::empty());
                }
                return Err(
                    make_parse_error(
                        source,
                        ParseErrorKind::InvalidExpression(msg),
                        Span::new(self.lexer.offset(), 0),
                    ),
                );
            },
        };
        proof {
            crate::token::lemma_classified_number_wf(
                self.lexer.source_code@.subrange(
                    lhs_tok.span.offset as int,
                    lhs_tok.span.offset + lhs_tok.span.length,
                ),
            );
        }
        let mut lhs: Expr<'a> = match lhs_tok.ty() {
            TokenType::Literal(lit) => match lit {
                Literal::String => Expr::Atom(
                    Atom::new(
                        AtomKind::String(Token::unescape(lhs_tok.lexeme()).to_owned()),
                        lhs_tok.span(),
                    ),
                ),
                Literal::Identifier => Expr::Atom(
                    Atom::new(AtomKind::Ident(lhs_tok.lexeme()), lhs_tok.span()),
                ),
                Literal::Number(n) => Expr::Atom(
                    Atom::new(AtomKind::Number(n), lhs_tok.span()),
                ),
            },
            TokenType::Keyword(kw) => match kw {
                Keyword::True => Expr::Atom(Atom::new(AtomKind::Bool(true), lhs_tok.span())),
                Keyword::False => Expr::Atom(Atom::new(AtomKind::Bool(false), lhs_tok.span())),
                Keyword::Nil => Expr::Atom(Atom::new(AtomKind::Nil, lhs_tok.span())),
                Keyword::This => Expr::Atom(Atom::new(AtomKind::This, lhs_tok.span())),
                Keyword::Super => Expr::Atom(Atom::new(AtomKind::Super, lhs_tok.span())),
                Keyword::Print | Keyword::Return => {
                    let op = match Op::from_keyword(kw) {
                        Ok(op) => op,
                        Err(kind) => {
                            return Err(make_parse_error(source, kind, lhs_tok.span()));
                        },
                    };
                    let r_bp = match op.prefix_binding_power() {
                        Some((_, r_bp)) => r_bp,
                        None => {
                            proof {
                                assert(false);
                            }
                            0
                        },
                    };
                    let rhs = match self.parse_expr(r_bp) {
                        Ok(e) => e,
                        Err(e) => {
                            return Err(e);
                        },
                    };
                    Expr::Unary { op, expr: Box::new(rhs) }
                },
                _ => {
                    return Err(
                        make_parse_error(
                            source,
                            ParseErrorKind::UnexpectedKeyword(kw),
                            lhs_tok.span(),
                        ),
                    );
                },
            },
            TokenType::Operator(Operator::Unary(op)) => {
                if op == UnaryOperator::LeftParen {
                    let inner = match self.parse_expr(0) {
                        Ok(e) => e,
                        Err(e) => {
                            return Err(e);
                        },
                    };
                    match self.lexer.expect(
                        TokenType::Operator(Operator::Unary(UnaryOperator::RightParen)),
                    ) {
                        Ok(_) => {},
                        Err(e) => {
                            return Err(e);
                        },
                    }
                    Expr::Group(Box::new(inner))
                } else if op == UnaryOperator::Bang || op == UnaryOperator::Minus || op
                    == UnaryOperator::Plus {
                    let op = match Op::from_unary(op) {
                        Ok(op) => op,
                        Err(kind) => {
                            return Err(make_parse_error(source, kind, lhs_tok.span()));
                        },
                    };
                    let r_bp = match op.prefix_binding_power() {
                        Some((_, r_bp)) => r_bp,
                        None => {
                            proof {
                                assert(false);
                            }
                            0
                        },
                    };
                    let rhs = match self.parse_expr(r_bp) {
                        Ok(e) => e,
                        Err(e) => {
                            return Err(e);
                        },
                    };
                    proof {
                        if op == Op::Bang {
                            lemma_expr_bp_ok_weaken(rhs, r_bp, bang_floor(min_bp));
                        }
                    }
                    Expr::Unary { op, expr: Box::new(rhs) }
                } else {
                    return Err(
                        make_parse_error(
                            source,
                            ParseErrorKind::InvalidExpression(lhs_tok.lexeme().to_owned()),
                            lhs_tok.span(),
                        ),
                    );
                }
            },
            ty => {
                return Err(
                    make_parse_error(
                        source,
                        ParseErrorKind::UnexpectedToken(ty, lhs_tok.lexeme().to_owned()),
                        lhs_tok.span(),
                    ),
                );
            },
        };
        loop
            invariant_except_break
                self.wf(),
                self.lexer.source_code == old(self).lexer.source_code,
                srclen == self.lexer.source_code@.len(),
                source@ == self.lexer.source_code@,
                expr_valid(lhs, srclen),
                expr_bp_ok(lhs, min_bp),
                expr_from_source(lhs, self.lexer.source_code@),
                self.lexer.offset > old(self).lexer.offset,
                parse_expr_spec(
                    self.lexer.source_code@,
                    old(self).lexer.offset as int,
                    min_bp,
                ) == parse_loop_spec(
                    self.lexer.source_code@,
                    expr_view(lhs),
                    self.lexer.offset as int,
                    min_bp,
                ),
            ensures
                self.wf(),
                self.lexer.source_code == old(self).lexer.source_code,
                expr_valid(lhs, srclen),
                expr_bp_ok(lhs, min_bp),
                expr_from_source(lhs, self.lexer.source_code@),
                self.lexer.offset > old(self).lexer.offset,
                parse_expr_spec(
                    self.lexer.source_code@,
                    old(self).lexer.offset as int,
                    min_bp,
                ) == ParseStep::ParsedTo(expr_view(lhs), self.lexer.offset as int),
            decreases self.lexer.source_code@.len() - self.lexer.offset,
        {
            let op: Op = match self.lexer.peek() {
                None => {
                    break ;
                },
                Some(Err(e)) => {
                    return Err(e);
                },
                Some(Ok(token)) => match token.ty() {
                    TokenType::Operator(lexop) => {
                        if lexop == Operator::Unary(UnaryOperator::RightParen) || lexop
                            == Operator::Unary(UnaryOperator::Semicolon) {
                            break ;
                        }
                        match Op::from_operator(lexop) {
                            Ok(o) => o,
                            Err(kind) => {
                                return Err(make_parse_error(source, kind, token.span()));
                            },
                        }
                    },
                    ty => {
                        return Err(
                            make_parse_error(
                                source,
                                ParseErrorKind::UnexpectedToken(ty, token.lexeme().to_owned()),
                                token.span(),
                            ),
                        );
                    },
                },
            };
            if let Some((l_bp, _)) = op.postfix_binding_power() {
                if l_bp < min_bp {
                    break ;
                }
                let _ = self.lexer.next();
                lhs = Expr::Unary { op, expr: Box::new(lhs) };
                continue ;
            }
            if let Some((l_bp, r_bp)) = op.infix_binding_power() {
                if l_bp < min_bp {
                    break ;
                }
                let _ = self.lexer.next();
                let rhs = match self.parse_expr(r_bp) {
                    Ok(e) => e,
                    Err(e) => {
                        return Err(e);
                    },
                };
                lhs = Expr::Binary { left: Box::new(lhs), op, right: Box::new(rhs) };
                continue ;
            }
            break ;
        }
        Ok(lhs)
    }
}

} // verus!
