//! The parsed tree: statements, expressions, atoms and the resolved
//! operators with their binding powers, plus span computation over the
//! tree.

use crate::error::ParseErrorKind;
use crate::error::RuntimeErrorKind;
use crate::number::{norm_spec, Number};
use crate::span::{merge_span, spec_merge_span, Span};
use crate::token::{BinaryOperator, Keyword, Operator, UnaryOperator};
use vstd::prelude::*;
use vstd::string::StrSliceExecFns;

verus! {

/// A runtime or literal value, anchored at a source span.
#[derive(Debug, Clone, PartialEq)]
pub struct Atom<'a> {
    pub kind: AtomKind<'a>,
    pub span: Span,
}

/// The kinds of value: text (owned once computed), an exact number, the
/// two truth values, nil, an identifier reference, and the `super` and
/// `this` markers.
#[derive(Debug, Clone, PartialEq)]
pub enum AtomKind<'a> {
    String(String),
    Number(Number),
    Nil,
    Bool(bool),
    Ident(&'a str),
    Super,
    This,
}

/// The mathematical value of an `AtomKind`, with text as character
/// sequences and numbers as exact numerator/denominator pairs.
pub enum AtomValue {
    VString(Seq<char>),
    VNumber(int, int),
    VNil,
    VBool(bool),
    VIdent(Seq<char>),
    VSuper,
    VThis,
}

impl<'a> View for AtomKind<'a> {
    type V = AtomValue;

    open spec fn view(&self) -> AtomValue {
        match self {
            AtomKind::String(s) => AtomValue::VString(s@),
            AtomKind::Number(n) => AtomValue::VNumber(n.num as int, n.den as int),
            AtomKind::Nil => AtomValue::VNil,
            AtomKind::Bool(b) => AtomValue::VBool(*b),
            AtomKind::Ident(s) => AtomValue::VIdent(s@),
            AtomKind::Super => AtomValue::VSuper,
            AtomKind::This => AtomValue::VThis,
        }
    }
}

/// An expression node.
#[derive(Debug, PartialEq)]
pub enum Expr<'a> {
    Atom(Atom<'a>),
    Binary { left: Box<Expr<'a>>, op: Op, right: Box<Expr<'a>> },
    Unary { op: Op, expr: Box<Expr<'a>> },
    Group(Box<Expr<'a>>),
    Block { stmts: Vec<Stmt<'a>> },
}

/// A statement: an expression, or an item declaration (recognized in the
/// data model; evaluation of items is deliberately not defined).
#[derive(Debug, PartialEq)]
pub enum Stmt<'a> {
    Item(Item<'a>),
    Expr(Expr<'a>),
}

/// An item declaration, reserved for future grammar growth.
#[derive(Debug, PartialEq)]
pub enum Item<'a> {
    Struct { name: &'a str, fields: Vec<(&'a str, TokenTree<'a>)> },
    Function { name: &'a str, params: Vec<(&'a str, TokenTree<'a>)>, body: TokenTree<'a> },
}

/// The parse result: an ordered sequence of statements.
#[derive(Debug, PartialEq)]
pub struct TokenTree<'a>(pub Vec<Stmt<'a>>);

/// The mathematical value of an expression: the same shape, with atoms
/// replaced by their values and spans.
pub enum ExprValue {
    AtomV(AtomValue, Span),
    BinaryV { left: Box<ExprValue>, op: Op, right: Box<ExprValue> },
    UnaryV { op: Op, expr: Box<ExprValue> },
    GroupV(Box<ExprValue>),
}

/// The value of an expression node. Blocks carry no value; the grammar
/// never produces one, and the mapping sends it to a nil placeholder.
pub open spec fn expr_view(e: Expr<'_>) -> ExprValue
    decreases e,
{
    match e {
        Expr::Atom(a) => ExprValue::AtomV(a.kind@, a.span),
        Expr::Binary { left, op, right } => ExprValue::BinaryV {
            left: Box::new(expr_view(*left)),
            op,
            right: Box::new(expr_view(*right)),
        },
        Expr::Unary { op, expr } => ExprValue::UnaryV { op, expr: Box::new(expr_view(*expr)) },
        Expr::Group(inner) => ExprValue::GroupV(Box::new(expr_view(*inner))),
        Expr::Block { stmts } => ExprValue::AtomV(AtomValue::VNil, Span { offset: 0, length: 0 }),
    }
}

/// An expression built only of atoms, binary and unary applications and
/// groups — what the grammar produces — whose atom spans all lie within
/// a source of `len` characters.
pub open spec fn expr_valid(e: Expr<'_>, len: int) -> bool
    decreases e,
{
    match e {
        Expr::Atom(a) => a.wf() && a.span.offset + a.span.length <= len,
        Expr::Binary { left, op, right } => expr_valid(*left, len) && expr_valid(*right, len),
        Expr::Unary { op, expr } => expr_valid(*expr, len),
        Expr::Group(inner) => expr_valid(*inner, len),
        Expr::Block { stmts } => false,
    }
}

/// The span an expression covers: atoms own theirs; a binary application
/// covers both operands; unary applications and groups borrow the inner
/// span.
pub open spec fn spec_expr_span(e: Expr<'_>) -> Span
    recommends
        expr_valid(e, usize::MAX as int),
    decreases e,
{
    match e {
        Expr::Atom(a) => a.span,
        Expr::Binary { left, op, right } => spec_merge_span(
            spec_expr_span(*left),
            spec_expr_span(*right),
        ),
        Expr::Unary { op, expr } => spec_expr_span(*expr),
        Expr::Group(inner) => spec_expr_span(*inner),
        Expr::Block { stmts } => Span { offset: 0, length: 0 },
    }
}

/// Validity over a source bound carries to any larger bound.
pub proof fn lemma_expr_valid_widen(e: Expr<'_>, a: int, b: int)
    requires
        expr_valid(e, a),
        a <= b,
    ensures
        expr_valid(e, b),
    decreases e,
{
    match e {
        Expr::Atom(_) => {},
        Expr::Binary { left, op, right } => {
            lemma_expr_valid_widen(*left, a, b);
            lemma_expr_valid_widen(*right, a, b);
        },
        Expr::Unary { op, expr } => {
            lemma_expr_valid_widen(*expr, a, b);
        },
        Expr::Group(inner) => {
            lemma_expr_valid_widen(*inner, a, b);
        },
        Expr::Block { stmts } => {},
    }
}

/// A valid expression's span stays within the source bounds.
pub proof fn lemma_expr_span_valid(e: Expr<'_>, len: int)
    requires
        expr_valid(e, len),
        len <= usize::MAX,
    ensures
        spec_expr_span(e).offset + spec_expr_span(e).length <= len,
    decreases e,
{
    match e {
        Expr::Atom(a) => {},
        Expr::Binary { left, op, right } => {
            lemma_expr_span_valid(*left, len);
            lemma_expr_span_valid(*right, len);
        },
        Expr::Unary { op, expr } => {
            lemma_expr_span_valid(*expr, len);
        },
        Expr::Group(inner) => {
            lemma_expr_span_valid(*inner, len);
        },
        Expr::Block { stmts } => {},
    }
}

impl<'a> Expr<'a> {
    /// Computes this expression's span by recursing to its leaves.
    pub fn span(&self) -> (r: Span)
        requires
            expr_valid(*self, usize::MAX as int),
        ensures
            r == spec_expr_span(*self),
        decreases *self,
    {
        proof {
            lemma_expr_span_valid(*self, usize::MAX as int);
        }
        match self {
            Expr::Atom(a) => a.span,
            Expr::Binary { left, op, right } => {
                proof {
                    lemma_expr_span_valid(**left, usize::MAX as int);
                    lemma_expr_span_valid(**right, usize::MAX as int);
                }
                merge_span(left.span(), right.span())
            },
            Expr::Unary { op, expr } => expr.span(),
            Expr::Group(inner) => inner.span(),
            Expr::Block { stmts } => {
                proof {
                    assert(false);
                }
                Span::new(0, 0)
            },
        }
    }
}

impl<'a> Stmt<'a> {
    /// A statement the evaluator accepts: an expression statement.
    pub open spec fn stmt_valid(self, len: int) -> bool {
        match self {
            Stmt::Expr(e) => expr_valid(e, len),
            Stmt::Item(_) => false,
        }
    }

    /// The span of an expression statement.
    pub fn span(&self) -> (r: Span)
        requires
            self.stmt_valid(usize::MAX as int),
        ensures
            r == spec_expr_span(self->Expr_0),
    {
        match self {
            Stmt::Expr(e) => e.span(),
            Stmt::Item(_) => {
                proof {
                    assert(false);
                }
                Span::new(0, 0)
            },
        }
    }
}

impl<'a> Atom<'a> {
    pub fn new(kind: AtomKind<'a>, span: Span) -> (r: Atom<'a>)
        ensures
            r.kind == kind,
            r.span == span,
    {
        Atom { kind, span }
    }

    pub fn kind(&self) -> (r: &AtomKind<'a>)
        ensures
            r == &self.kind,
    {
        &self.kind
    }

    pub fn span(&self) -> (r: Span)
        ensures
            r == self.span,
    {
        self.span
    }
}

/// Text `a` comes strictly before `b` in lexicographic order.
pub open spec fn seq_char_lt(a: Seq<char>, b: Seq<char>) -> bool
    decreases a.len(),
{
    if b.len() == 0 {
        false
    } else if a.len() == 0 {
        true
    } else if a[0] != b[0] {
        (a[0] as int) < (b[0] as int)
    } else {
        seq_char_lt(a.skip(1), b.skip(1))
    }
}

/// Compares two string slices for character equality.
fn str_eq(a: &str, b: &str) -> (r: bool)
    ensures
        r == (a@ == b@),
{
    let n = a.unicode_len();
    let m = b.unicode_len();
    if n != m {
        return false;
    }
    let mut i: usize = 0;
    while i < n
        invariant
            0 <= i <= n == a@.len(),
            n == m == b@.len(),
            forall|j: int| 0 <= j < i ==> a@[j] == b@[j],
        decreases n - i,
    {
        if a.get_char(i) != b.get_char(i) {
            assert(a@[i as int] != b@[i as int]);
            return false;
        }
        i += 1;
    }
    proof {
        assert(a@ =~= b@);
    }
    true
}

/// Compares two string slices lexicographically.
fn str_lt(a: &str, b: &str) -> (r: bool)
    ensures
        r == seq_char_lt(a@, b@),
{
    let n = a.unicode_len();
    let m = b.unicode_len();
    let mut i: usize = 0;
    proof {
        assert(a@.skip(0) =~= a@);
        assert(b@.skip(0) =~= b@);
    }
    loop
        invariant
            0 <= i <= n == a@.len(),
            i <= m == b@.len(),
            seq_char_lt(a@, b@) == seq_char_lt(a@.skip(i as int), b@.skip(i as int)),
        decreases n - i,
    {
        if i >= n || i >= m {
            // one side is exhausted: shorter comes first
            return i < m;
        }
        let ca = a.get_char(i);
        let cb = b.get_char(i);
        proof {
            assert(a@.skip(i as int)[0] == a@[i as int]);
            assert(b@.skip(i as int)[0] == b@[i as int]);
            assert(a@.skip(i as int).skip(1) =~= a@.skip(i as int + 1));
            assert(b@.skip(i as int).skip(1) =~= b@.skip(i as int + 1));
        }
        if ca as u32 != cb as u32 {
            proof {
                assert(ca != cb);
            }
            return (ca as u32) < (cb as u32);
        }
        proof {
            assert(ca == cb);
        }
        i += 1;
    }
}

/// What `+` means on values: numeric sum, string concatenation, and an
/// invalid-operand error on every other pairing; a sum that cannot be
/// held in the number type is an overflow error.
pub open spec fn spec_atom_add(a: AtomValue, b: AtomValue) -> Result<
    AtomValue,
    crate::error::RuntimeErrorValue,
> {
    match (a, b) {
        (AtomValue::VString(s1), AtomValue::VString(s2)) => Ok(AtomValue::VString(s1 + s2)),
        (AtomValue::VNumber(n1, d1), AtomValue::VNumber(n2, d2)) => match norm_spec(
            n1 * d2 + n2 * d1,
            d1 * d2,
        ) {
            Some(c) => Ok(AtomValue::VNumber(c.num as int, c.den as int)),
            None => Err(crate::error::RuntimeErrorValue::InvalidOperand("Number overflow."@)),
        },
        _ => Err(
            crate::error::RuntimeErrorValue::InvalidOperand(
                "Operands must be two numbers or two strings."@,
            ),
        ),
    }
}

/// What `-` means on values: numbers only.
pub open spec fn spec_atom_sub(a: AtomValue, b: AtomValue) -> Result<
    AtomValue,
    crate::error::RuntimeErrorValue,
> {
    match (a, b) {
        (AtomValue::VNumber(n1, d1), AtomValue::VNumber(n2, d2)) => match norm_spec(
            n1 * d2 - n2 * d1,
            d1 * d2,
        ) {
            Some(c) => Ok(AtomValue::VNumber(c.num as int, c.den as int)),
            None => Err(crate::error::RuntimeErrorValue::InvalidOperand("Number overflow."@)),
        },
        _ => Err(crate::error::RuntimeErrorValue::InvalidOperand("Operands must be numbers"@)),
    }
}

/// What `*` means on values: numbers only.
pub open spec fn spec_atom_mul(a: AtomValue, b: AtomValue) -> Result<
    AtomValue,
    crate::error::RuntimeErrorValue,
> {
    match (a, b) {
        (AtomValue::VNumber(n1, d1), AtomValue::VNumber(n2, d2)) => match norm_spec(
            n1 * n2,
            d1 * d2,
        ) {
            Some(c) => Ok(AtomValue::VNumber(c.num as int, c.den as int)),
            None => Err(crate::error::RuntimeErrorValue::InvalidOperand("Number overflow."@)),
        },
        _ => Err(crate::error::RuntimeErrorValue::InvalidOperand("Operands must be numbers"@)),
    }
}

/// What `/` means on values: numbers only, and division by an exact zero
/// is its own error, never a silent nil.
pub open spec fn spec_atom_div(a: AtomValue, b: AtomValue) -> Result<
    AtomValue,
    crate::error::RuntimeErrorValue,
> {
    match (a, b) {
        (AtomValue::VNumber(n1, d1), AtomValue::VNumber(n2, d2)) => if n2 == 0 {
            Err(crate::error::RuntimeErrorValue::DivisionByZero)
        } else {
            let norm = if n2 > 0 {
                norm_spec(n1 * d2, d1 * n2)
            } else {
                norm_spec(-(n1 * d2), -(d1 * n2))
            };
            match norm {
                Some(c) => Ok(AtomValue::VNumber(c.num as int, c.den as int)),
                None => Err(crate::error::RuntimeErrorValue::InvalidOperand("Number overflow."@)),
            }
        },
        _ => Err(crate::error::RuntimeErrorValue::InvalidOperand("Operands must be numbers"@)),
    }
}

/// What unary `-` means on values: numbers only.
pub open spec fn spec_atom_neg(a: AtomValue) -> Result<
    AtomValue,
    crate::error::RuntimeErrorValue,
> {
    match a {
        AtomValue::VNumber(n, d) => if -n <= i64::MAX {
            Ok(AtomValue::VNumber(-n, d))
        } else {
            Err(crate::error::RuntimeErrorValue::InvalidOperand("Number overflow."@))
        },
        _ => Err(crate::error::RuntimeErrorValue::InvalidOperand("Operand must be a number."@)),
    }
}

/// What unary `!` means on values: boolean negation of a boolean; any
/// other value answers nil, never an error.
pub open spec fn spec_atom_not(a: AtomValue) -> AtomValue {
    match a {
        AtomValue::VBool(b) => AtomValue::VBool(!b),
        _ => AtomValue::VNil,
    }
}

/// What `==` means on values: equality within matching kinds only; any
/// cross-kind or unsupported pairing compares unequal, never an error.
pub open spec fn spec_atom_eq(a: AtomValue, b: AtomValue) -> bool {
    match (a, b) {
        (AtomValue::VString(s1), AtomValue::VString(s2)) => s1 == s2,
        (AtomValue::VNumber(n1, d1), AtomValue::VNumber(n2, d2)) => n1 * d2 == n2 * d1,
        (AtomValue::VNil, AtomValue::VNil) => true,
        (AtomValue::VBool(b1), AtomValue::VBool(b2)) => b1 == b2,
        (AtomValue::VIdent(i1), AtomValue::VIdent(i2)) => i1 == i2,
        _ => false,
    }
}

/// What `<` means on values: numeric order on numbers, lexicographic
/// order on strings; every other pairing is unordered and answers false.
pub open spec fn spec_atom_lt(a: AtomValue, b: AtomValue) -> bool {
    match (a, b) {
        (AtomValue::VNumber(n1, d1), AtomValue::VNumber(n2, d2)) => n1 * d2 < n2 * d1,
        (AtomValue::VString(s1), AtomValue::VString(s2)) => seq_char_lt(s1, s2),
        _ => false,
    }
}

/// What `<=` means on values, under the same ordering as `<`.
pub open spec fn spec_atom_le(a: AtomValue, b: AtomValue) -> bool {
    match (a, b) {
        (AtomValue::VNumber(n1, d1), AtomValue::VNumber(n2, d2)) => n1 * d2 <= n2 * d1,
        (AtomValue::VString(s1), AtomValue::VString(s2)) => s1 == s2 || seq_char_lt(s1, s2),
        _ => false,
    }
}

impl<'a> Atom<'a> {
    /// A valid atom: its number (if any) has a positive denominator, and
    /// its span does not overflow.
    pub open spec fn wf(self) -> bool {
        (match self.kind {
            AtomKind::Number(n) => n.wf(),
            _ => true,
        }) && self.span.offset + self.span.length <= usize::MAX
    }

    /// This atom's display text.
    pub fn to_text(&self) -> (r: String)
        requires
            self.wf(),
        ensures
            r@ == spec_atom_text(self.kind@),
    {
        match &self.kind {
            AtomKind::String(s) => s.clone(),
            AtomKind::Number(n) => n.to_text(),
            AtomKind::Nil => "nil".to_owned(),
            AtomKind::Bool(b) => if *b {
                "true".to_owned()
            } else {
                "false".to_owned()
            },
            AtomKind::Ident(s) => (*s).to_owned(),
            AtomKind::Super => "super".to_owned(),
            AtomKind::This => "this".to_owned(),
        }
    }

    /// A fresh atom with the same value and span.
    pub fn duplicate(&self) -> (r: Atom<'a>)
        ensures
            r.kind@ == self.kind@,
            r.span == self.span,
            self.wf() ==> r.wf(),
    {
        let kind = match &self.kind {
            AtomKind::String(s) => AtomKind::String(s.clone()),
            AtomKind::Number(n) => AtomKind::Number(*n),
            AtomKind::Nil => AtomKind::Nil,
            AtomKind::Bool(b) => AtomKind::Bool(*b),
            AtomKind::Ident(s) => AtomKind::Ident(s),
            AtomKind::Super => AtomKind::Super,
            AtomKind::This => AtomKind::This,
        };
        Atom { kind, span: self.span }
    }

    /// Adds two values; the result covers both operands' spans.
    pub fn add(self, other: Atom<'a>) -> (r: Result<Atom<'a>, RuntimeErrorKind>)
        requires
            self.wf(),
            other.wf(),
        ensures
            match r {
                Ok(at) => spec_atom_add(self.kind@, other.kind@) == Ok::<
                    AtomValue,
                    crate::error::RuntimeErrorValue,
                >(at.kind@) && at.span == spec_merge_span(self.span, other.span) && at.wf(),
                Err(k) => spec_atom_add(self.kind@, other.kind@) == Err::<
                    AtomValue,
                    crate::error::RuntimeErrorValue,
                >(k@),
            },
    {
        let span = merge_span(self.span, other.span);
        match (self.kind, other.kind) {
            (AtomKind::String(s1), AtomKind::String(s2)) => Ok(
                Atom { kind: AtomKind::String(s1.concat(s2.as_str())), span },
            ),
            (AtomKind::Number(n1), AtomKind::Number(n2)) => match n1.checked_add(n2) {
                Some(v) => Ok(Atom { kind: AtomKind::Number(v), span }),
                None => Err(RuntimeErrorKind::InvalidOperand("Number overflow.".to_owned())),
            },
            _ => Err(
                RuntimeErrorKind::InvalidOperand(
                    "Operands must be two numbers or two strings.".to_owned(),
                ),
            ),
        }
    }

    /// Subtracts two values; numbers only.
    pub fn sub(self, other: Atom<'a>) -> (r: Result<Atom<'a>, RuntimeErrorKind>)
        requires
            self.wf(),
            other.wf(),
        ensures
            match r {
                Ok(at) => spec_atom_sub(self.kind@, other.kind@) == Ok::<
                    AtomValue,
                    crate::error::RuntimeErrorValue,
                >(at.kind@) && at.span == spec_merge_span(self.span, other.span) && at.wf(),
                Err(k) => spec_atom_sub(self.kind@, other.kind@) == Err::<
                    AtomValue,
                    crate::error::RuntimeErrorValue,
                >(k@),
            },
    {
        let span = merge_span(self.span, other.span);
        match (self.kind, other.kind) {
            (AtomKind::Number(n1), AtomKind::Number(n2)) => match n1.checked_sub(n2) {
                Some(v) => Ok(Atom { kind: AtomKind::Number(v), span }),
                None => Err(RuntimeErrorKind::InvalidOperand("Number overflow.".to_owned())),
            },
            _ => Err(RuntimeErrorKind::InvalidOperand("Operands must be numbers".to_owned())),
        }
    }

    /// Multiplies two values; numbers only.
    pub fn mul(self, other: Atom<'a>) -> (r: Result<Atom<'a>, RuntimeErrorKind>)
        requires
            self.wf(),
            other.wf(),
        ensures
            match r {
                Ok(at) => spec_atom_mul(self.kind@, other.kind@) == Ok::<
                    AtomValue,
                    crate::error::RuntimeErrorValue,
                >(at.kind@) && at.span == spec_merge_span(self.span, other.span) && at.wf(),
                Err(k) => spec_atom_mul(self.kind@, other.kind@) == Err::<
                    AtomValue,
                    crate::error::RuntimeErrorValue,
                >(k@),
            },
    {
        let span = merge_span(self.span, other.span);
        match (self.kind, other.kind) {
            (AtomKind::Number(n1), AtomKind::Number(n2)) => match n1.checked_mul(n2) {
                Some(v) => Ok(Atom { kind: AtomKind::Number(v), span }),
                None => Err(RuntimeErrorKind::InvalidOperand("Number overflow.".to_owned())),
            },
            _ => Err(RuntimeErrorKind::InvalidOperand("Operands must be numbers".to_owned())),
        }
    }

    /// Divides two values; numbers only, and division by zero is a
    /// distinct error.
    pub fn div(self, other: Atom<'a>) -> (r: Result<Atom<'a>, RuntimeErrorKind>)
        requires
            self.wf(),
            other.wf(),
        ensures
            match r {
                Ok(at) => spec_atom_div(self.kind@, other.kind@) == Ok::<
                    AtomValue,
                    crate::error::RuntimeErrorValue,
                >(at.kind@) && at.span == spec_merge_span(self.span, other.span) && at.wf(),
                Err(k) => spec_atom_div(self.kind@, other.kind@) == Err::<
                    AtomValue,
                    crate::error::RuntimeErrorValue,
                >(k@),
            },
    {
        let span = merge_span(self.span, other.span);
        match (self.kind, other.kind) {
            (AtomKind::Number(n1), AtomKind::Number(n2)) => {
                if n2.is_zero() {
                    Err(RuntimeErrorKind::DivisionByZero)
                } else {
                    match n1.checked_div(n2) {
                        Some(v) => Ok(Atom { kind: AtomKind::Number(v), span }),
                        None => Err(
                            RuntimeErrorKind::InvalidOperand("Number overflow.".to_owned()),
                        ),
                    }
                }
            },
            _ => Err(RuntimeErrorKind::InvalidOperand("Operands must be numbers".to_owned())),
        }
    }

    /// Negates a value; numbers only. The span is kept.
    pub fn neg(self) -> (r: Result<Atom<'a>, RuntimeErrorKind>)
        requires
            self.wf(),
        ensures
            match r {
                Ok(at) => spec_atom_neg(self.kind@) == Ok::<
                    AtomValue,
                    crate::error::RuntimeErrorValue,
                >(at.kind@) && at.span == self.span && at.wf(),
                Err(k) => spec_atom_neg(self.kind@) == Err::<
                    AtomValue,
                    crate::error::RuntimeErrorValue,
                >(k@),
            },
    {
        let span = self.span;
        match self.kind {
            AtomKind::Number(n) => match n.checked_neg() {
                Some(v) => Ok(Atom { kind: AtomKind::Number(v), span }),
                None => Err(RuntimeErrorKind::InvalidOperand("Number overflow.".to_owned())),
            },
            _ => Err(RuntimeErrorKind::InvalidOperand("Operand must be a number.".to_owned())),
        }
    }

    /// Boolean negation: a boolean flips; any other value answers nil.
    /// The span is kept.
    pub fn not(self) -> (r: Atom<'a>)
        requires
            self.wf(),
        ensures
            r.kind@ == spec_atom_not(self.kind@),
            r.span == self.span,
            r.wf(),
    {
        let span = self.span;
        match self.kind {
            AtomKind::Bool(b) => Atom { kind: AtomKind::Bool(!b), span },
            _ => Atom { kind: AtomKind::Nil, span },
        }
    }

    /// Structural equality within matching kinds; cross-kind values
    /// compare unequal.
    pub fn equals(&self, other: &Atom<'a>) -> (r: bool)
        requires
            self.wf(),
            other.wf(),
        ensures
            r == spec_atom_eq(self.kind@, other.kind@),
    {
        match (&self.kind, &other.kind) {
            (AtomKind::String(s1), AtomKind::String(s2)) => str_eq(s1.as_str(), s2.as_str()),
            (AtomKind::Number(n1), AtomKind::Number(n2)) => n1.value_eq(n2),
            (AtomKind::Nil, AtomKind::Nil) => true,
            (AtomKind::Bool(b1), AtomKind::Bool(b2)) => b1 == b2,
            (AtomKind::Ident(i1), AtomKind::Ident(i2)) => str_eq(i1, i2),
            _ => false,
        }
    }

    /// Strict order: numeric on numbers, lexicographic on strings; any
    /// other pairing is unordered and answers false.
    pub fn lt(&self, other: &Atom<'a>) -> (r: bool)
        requires
            self.wf(),
            other.wf(),
        ensures
            r == spec_atom_lt(self.kind@, other.kind@),
    {
        match (&self.kind, &other.kind) {
            (AtomKind::Number(n1), AtomKind::Number(n2)) => n1.value_lt(n2),
            (AtomKind::String(s1), AtomKind::String(s2)) => str_lt(s1.as_str(), s2.as_str()),
            _ => false,
        }
    }

    /// Non-strict order, under the same ordering as `lt`.
    pub fn le(&self, other: &Atom<'a>) -> (r: bool)
        requires
            self.wf(),
            other.wf(),
        ensures
            r == spec_atom_le(self.kind@, other.kind@),
    {
        match (&self.kind, &other.kind) {
            (AtomKind::Number(n1), AtomKind::Number(n2)) => !n2.value_lt(n1),
            (AtomKind::String(s1), AtomKind::String(s2)) => str_eq(s1.as_str(), s2.as_str())
                || str_lt(s1.as_str(), s2.as_str()),
            _ => false,
        }
    }

    /// Strict order, turned around.
    pub fn gt(&self, other: &Atom<'a>) -> (r: bool)
        requires
            self.wf(),
            other.wf(),
        ensures
            r == spec_atom_lt(other.kind@, self.kind@),
    {
        other.lt(self)
    }

    /// Non-strict order, turned around.
    pub fn ge(&self, other: &Atom<'a>) -> (r: bool)
        requires
            self.wf(),
            other.wf(),
        ensures
            r == spec_atom_le(other.kind@, self.kind@),
    {
        other.le(self)
    }
}

/// A parsed, resolved operator: what the parser works with, distinct
/// from the lexical operator spelling.
#[derive(Debug, Clone, Copy, PartialEq, Eq, Structural)]
pub enum Op {
    Call,
    Dot,
    Group,
    Class,
    And,
    Or,
    Var,
    Print,
    While,
    For,
    If,
    Return,
    Plus,
    Minus,
    Star,
    Slash,
    Bang,
    BangEqual,
    Less,
    LessEqual,
    Equal,
    EqualEqual,
    Greater,
    GreaterEqual,
}

/// The display text of a resolved operator.
pub open spec fn spec_op_text(op: Op) -> Seq<char> {
    match op {
        Op::Call => "call"@,
        Op::Dot => "."@,
        Op::Group => "group"@,
        Op::Class => "class"@,
        Op::And => "and"@,
        Op::Or => "or"@,
        Op::Var => "var"@,
        Op::Print => "print"@,
        Op::While => "while"@,
        Op::For => "for"@,
        Op::If => "if"@,
        Op::Return => "return"@,
        Op::Plus => "+"@,
        Op::Minus => "-"@,
        Op::Star => "*"@,
        Op::Slash => "/"@,
        Op::Bang => "!"@,
        Op::BangEqual => "!="@,
        Op::Less => "<"@,
        Op::LessEqual => "<="@,
        Op::Equal => "="@,
        Op::EqualEqual => "=="@,
        Op::Greater => ">"@,
        Op::GreaterEqual => ">="@,
    }
}

/// The display text of an atom's value: its text for strings and
/// identifiers, the exact numeric form for numbers, and the fixed words
/// for the rest.
pub open spec fn spec_atom_text(v: AtomValue) -> Seq<char> {
    match v {
        AtomValue::VString(s) => s,
        AtomValue::VNumber(n, d) => crate::number::spec_number_text(n, d),
        AtomValue::VNil => "nil"@,
        AtomValue::VBool(b) => if b {
            "true"@
        } else {
            "false"@
        },
        AtomValue::VIdent(s) => s,
        AtomValue::VSuper => "super"@,
        AtomValue::VThis => "this"@,
    }
}

/// The display text of an expression, in prefix form: `(op left right)`
/// for binary applications, `(op operand)` for unary ones, and
/// `(group inner)` for groups.
pub open spec fn spec_expr_text(e: Expr<'_>) -> Seq<char>
    recommends
        expr_valid(e, usize::MAX as int),
    decreases e,
{
    match e {
        Expr::Atom(a) => spec_atom_text(a.kind@),
        Expr::Binary { left, op, right } => "("@ + spec_op_text(op) + " "@ + spec_expr_text(*left)
            + " "@ + spec_expr_text(*right) + ")"@,
        Expr::Unary { op, expr } => "("@ + spec_op_text(op) + " "@ + spec_expr_text(*expr) + ")"@,
        Expr::Group(inner) => "(group "@ + spec_expr_text(*inner) + ")"@,
        Expr::Block { stmts } => Seq::empty(),
    }
}

/// The display text of a statement sequence: one line per statement.
pub open spec fn spec_tree_text(stmts: Seq<Stmt<'_>>) -> Seq<char>
    decreases stmts.len(),
{
    if stmts.len() == 0 {
        Seq::empty()
    } else {
        spec_tree_text(stmts.drop_last()) + spec_expr_text(stmts.last()->Expr_0) + "\n"@
    }
}

impl<'a> Expr<'a> {
    /// This expression's display text.
    pub fn to_text(&self) -> (r: String)
        requires
            expr_valid(*self, usize::MAX as int),
        ensures
            r@ == spec_expr_text(*self),
        decreases *self,
    {
        match self {
            Expr::Atom(a) => a.to_text(),
            Expr::Binary { left, op, right } => {
                let mut out = String::new();
                out.append("(");
                out.append(op.text());
                out.append(" ");
                let lt = left.to_text();
                out.append(lt.as_str());
                out.append(" ");
                let rt = right.to_text();
                out.append(rt.as_str());
                out.append(")");
                proof {
                    assert(out@ =~= spec_expr_text(*self));
                }
                out
            },
            Expr::Unary { op, expr } => {
                let mut out = String::new();
                out.append("(");
                out.append(op.text());
                out.append(" ");
                let it = expr.to_text();
                out.append(it.as_str());
                out.append(")");
                proof {
                    assert(out@ =~= spec_expr_text(*self));
                }
                out
            },
            Expr::Group(inner) => {
                let mut out = String::new();
                out.append("(group ");
                let it = inner.to_text();
                out.append(it.as_str());
                out.append(")");
                proof {
                    assert(out@ =~= spec_expr_text(*self));
                }
                out
            },
            Expr::Block { stmts } => {
                proof {
                    assert(false);
                }
                String::new()
            },
        }
    }
}

impl<'a> Stmt<'a> {
    /// This statement's display text.
    pub fn to_text(&self) -> (r: String)
        requires
            self.stmt_valid(usize::MAX as int),
        ensures
            r@ == spec_expr_text(self->Expr_0),
    {
        match self {
            Stmt::Expr(e) => e.to_text(),
            Stmt::Item(_) => {
                proof {
                    assert(false);
                }
                String::new()
            },
        }
    }
}

impl<'a> TokenTree<'a> {
    /// The whole tree's display text, one line per statement.
    pub fn to_text(&self) -> (r: String)
        requires
            forall|i: int|
                0 <= i < self.0@.len() ==> (#[trigger] self.0@[i]).stmt_valid(
                    usize::MAX as int,
                ),
        ensures
            r@ == spec_tree_text(self.0@),
    {
        let mut out = String::new();
        let n = self.0.len();
        let mut i: usize = 0;
        proof {
            assert(self.0@.take(0) =~= Seq::<Stmt<'a>>::empty());
        }
        while i < n
            invariant
                0 <= i <= n == self.0@.len(),
                forall|k: int|
                    0 <= k < self.0@.len() ==> (#[trigger] self.0@[k]).stmt_valid(
                        usize::MAX as int,
                    ),
                out@ == spec_tree_text(self.0@.take(i as int)),
            decreases n - i,
        {
            let st = self.0[i].to_text();
            out.append(st.as_str());
            out.append("\n");
            proof {
                assert(self.0@.take(i as int + 1).drop_last() =~= self.0@.take(i as int));
                assert(self.0@.take(i as int + 1).last() == self.0@[i as int]);
            }
            i += 1;
        }
        proof {
            assert(self.0@.take(n as int) =~= self.0@);
        }
        out
    }
}

/// The prefix binding powers: `print` and `return` bind loosest; the
/// unary sign and negation operators bind tighter than any infix
/// operator but looser than `.`.
pub open spec fn spec_prefix_binding_power(op: Op) -> Option<((), u8)> {
    match op {
        Op::Print | Op::Return => Some(((), 1)),
        Op::Bang | Op::Plus | Op::Minus => Some(((), 11)),
        _ => None,
    }
}

/// The postfix binding power of `!`.
pub open spec fn spec_postfix_binding_power(op: Op) -> Option<(u8, ())> {
    match op {
        Op::Bang => Some((11, ())),
        _ => None,
    }
}

/// The infix binding powers: assignment is right-associative and binds
/// loosest; comparisons, then sums, then products bind tighter, each
/// left-associative; `.` binds tightest and is left-associative.
pub open spec fn spec_infix_binding_power(op: Op) -> Option<(u8, u8)> {
    match op {
        Op::Equal => Some((2, 1)),
        Op::BangEqual | Op::EqualEqual | Op::Less | Op::LessEqual | Op::Greater
            | Op::GreaterEqual => Some((5, 6)),
        Op::Plus | Op::Minus => Some((7, 8)),
        Op::Star | Op::Slash => Some((9, 10)),
        Op::Dot => Some((14, 13)),
        _ => None,
    }
}

/// The operator role a lexical operator resolves to, as a value: the
/// grouping and statement punctuation has none.
pub open spec fn spec_op_from(lexop: Operator) -> Result<Op, crate::error::ParseErrorValue> {
    match lexop {
        Operator::Unary(u) => match u {
            UnaryOperator::Dot => Ok(Op::Dot),
            UnaryOperator::Minus => Ok(Op::Minus),
            UnaryOperator::Plus => Ok(Op::Plus),
            UnaryOperator::Star => Ok(Op::Star),
            UnaryOperator::Slash => Ok(Op::Slash),
            UnaryOperator::Bang => Ok(Op::Bang),
            _ => Err(crate::error::ParseErrorValue::UnsupportedOperator(Operator::Unary(u))),
        },
        Operator::Binary(b) => match b {
            BinaryOperator::Equal => Ok(Op::Equal),
            BinaryOperator::BangEqual => Ok(Op::BangEqual),
            BinaryOperator::EqualEqual => Ok(Op::EqualEqual),
            BinaryOperator::Less => Ok(Op::Less),
            BinaryOperator::LessEqual => Ok(Op::LessEqual),
            BinaryOperator::Greater => Ok(Op::Greater),
            BinaryOperator::GreaterEqual => Ok(Op::GreaterEqual),
        },
    }
}

/// The smaller of a binding power and the postfix/prefix power of `!`.
pub open spec fn bang_floor(min_bp: u8) -> u8 {
    if min_bp <= 11 {
        min_bp
    } else {
        11
    }
}

/// The expression respects the binding-power discipline at threshold
/// `min_bp`: every binary node's operator binds at least that tightly on
/// its left, its right operand respects the operator's right power, a
/// prefix operand respects the operator's prefix power, and a group
/// resets the threshold. This is what makes `8 * (8 + 2)` group the sum
/// and `1 - 2 - 3` associate to the left: the competing trees break it.
pub open spec fn expr_bp_ok(e: Expr<'_>, min_bp: u8) -> bool
    decreases e,
{
    match e {
        Expr::Atom(_) => true,
        Expr::Binary { left, op, right } => match spec_infix_binding_power(op) {
            Some((l_bp, r_bp)) => l_bp >= min_bp && expr_bp_ok(*left, min_bp) && expr_bp_ok(
                *right,
                r_bp,
            ),
            None => false,
        },
        Expr::Unary { op, expr } => if op == Op::Bang {
            expr_bp_ok(*expr, bang_floor(min_bp))
        } else {
            match spec_prefix_binding_power(op) {
                Some((_, r_bp)) => expr_bp_ok(*expr, r_bp),
                None => false,
            }
        },
        Expr::Group(inner) => expr_bp_ok(*inner, 0),
        Expr::Block { stmts } => false,
    }
}

/// Respecting a tighter threshold implies respecting a looser one.
pub proof fn lemma_expr_bp_ok_weaken(e: Expr<'_>, high: u8, low: u8)
    requires
        expr_bp_ok(e, high),
        low <= high,
    ensures
        expr_bp_ok(e, low),
    decreases e,
{
    match e {
        Expr::Atom(_) => {},
        Expr::Binary { left, op, right } => {
            lemma_expr_bp_ok_weaken(*left, high, low);
        },
        Expr::Unary { op, expr } => {
            if op == Op::Bang {
                lemma_expr_bp_ok_weaken(*expr, bang_floor(high), bang_floor(low));
            }
        },
        Expr::Group(inner) => {},
        Expr::Block { stmts } => {},
    }
}

impl Op {
    /// The binding power this operator has in prefix position, if any.
    pub fn prefix_binding_power(&self) -> (r: Option<((), u8)>)
        ensures
            r == spec_prefix_binding_power(*self),
    {
        match self {
            Op::Print | Op::Return => Some(((), 1)),
            Op::Bang | Op::Plus | Op::Minus => Some(((), 11)),
            _ => None,
        }
    }

    /// The binding power this operator has in postfix position, if any.
    pub fn postfix_binding_power(&self) -> (r: Option<(u8, ())>)
        ensures
            r == spec_postfix_binding_power(*self),
    {
        match self {
            Op::Bang => Some((11, ())),
            _ => None,
        }
    }

    /// The binding powers this operator has in infix position, if any.
    pub fn infix_binding_power(&self) -> (r: Option<(u8, u8)>)
        ensures
            r == spec_infix_binding_power(*self),
    {
        match self {
            Op::Equal => Some((2, 1)),
            Op::BangEqual | Op::EqualEqual | Op::Less | Op::LessEqual | Op::Greater
                | Op::GreaterEqual => Some((5, 6)),
            Op::Plus | Op::Minus => Some((7, 8)),
            Op::Star | Op::Slash => Some((9, 10)),
            Op::Dot => Some((14, 13)),
            _ => None,
        }
    }

    /// This operator's display text.
    pub fn text(&self) -> (r: &'static str)
        ensures
            r@ == spec_op_text(*self),
    {
        match self {
            Op::Call => "call",
            Op::Dot => ".",
            Op::Group => "group",
            Op::Class => "class",
            Op::And => "and",
            Op::Or => "or",
            Op::Var => "var",
            Op::Print => "print",
            Op::While => "while",
            Op::For => "for",
            Op::If => "if",
            Op::Return => "return",
            Op::Plus => "+",
            Op::Minus => "-",
            Op::Star => "*",
            Op::Slash => "/",
            Op::Bang => "!",
            Op::BangEqual => "!=",
            Op::Less => "<",
            Op::LessEqual => "<=",
            Op::Equal => "=",
            Op::EqualEqual => "==",
            Op::Greater => ">",
            Op::GreaterEqual => ">=",
        }
    }

    /// Resolves a single-character operator; the grouping and statement
    /// punctuation has no operator role and is reported as unsupported.
    pub fn from_unary(value: UnaryOperator) -> (r: Result<Op, ParseErrorKind>)
        ensures
            r == match value {
                UnaryOperator::Dot => Result::<Op, ParseErrorKind>::Ok(Op::Dot),
                UnaryOperator::Minus => Result::<Op, ParseErrorKind>::Ok(Op::Minus),
                UnaryOperator::Plus => Result::<Op, ParseErrorKind>::Ok(Op::Plus),
                UnaryOperator::Star => Result::<Op, ParseErrorKind>::Ok(Op::Star),
                UnaryOperator::Slash => Result::<Op, ParseErrorKind>::Ok(Op::Slash),
                UnaryOperator::Bang => Result::<Op, ParseErrorKind>::Ok(Op::Bang),
                _ => Result::<Op, ParseErrorKind>::Err(
                    ParseErrorKind::UnsupportedOperator(Operator::Unary(value)),
                ),
            },
    {
        match value {
            UnaryOperator::Dot => Ok(Op::Dot),
            UnaryOperator::Minus => Ok(Op::Minus),
            UnaryOperator::Plus => Ok(Op::Plus),
            UnaryOperator::Star => Ok(Op::Star),
            UnaryOperator::Slash => Ok(Op::Slash),
            UnaryOperator::Bang => Ok(Op::Bang),
            op => Err(ParseErrorKind::UnsupportedOperator(Operator::Unary(op))),
        }
    }

    /// Resolves a keyword into its operator role; only `print` and
    /// `return` have one.
    pub fn from_keyword(value: Keyword) -> (r: Result<Op, ParseErrorKind>)
        ensures
            r == match value {
                Keyword::Print => Result::<Op, ParseErrorKind>::Ok(Op::Print),
                Keyword::Return => Result::<Op, ParseErrorKind>::Ok(Op::Return),
                _ => Result::<Op, ParseErrorKind>::Err(ParseErrorKind::UnsupportedKeyword(value)),
            },
    {
        match value {
            Keyword::Print => Ok(Op::Print),
            Keyword::Return => Ok(Op::Return),
            _ => Err(ParseErrorKind::UnsupportedKeyword(value)),
        }
    }

    /// Resolves a two-character operator; all of them have infix roles.
    pub fn from_binary(value: BinaryOperator) -> (r: Result<Op, ParseErrorKind>)
        ensures
            r == Result::<Op, ParseErrorKind>::Ok(
                match value {
                    BinaryOperator::Equal => Op::Equal,
                    BinaryOperator::BangEqual => Op::BangEqual,
                    BinaryOperator::EqualEqual => Op::EqualEqual,
                    BinaryOperator::Less => Op::Less,
                    BinaryOperator::LessEqual => Op::LessEqual,
                    BinaryOperator::Greater => Op::Greater,
                    BinaryOperator::GreaterEqual => Op::GreaterEqual,
                },
            ),
    {
        match value {
            BinaryOperator::Equal => Ok(Op::Equal),
            BinaryOperator::BangEqual => Ok(Op::BangEqual),
            BinaryOperator::EqualEqual => Ok(Op::EqualEqual),
            BinaryOperator::Less => Ok(Op::Less),
            BinaryOperator::LessEqual => Ok(Op::LessEqual),
            BinaryOperator::Greater => Ok(Op::Greater),
            BinaryOperator::GreaterEqual => Ok(Op::GreaterEqual),
        }
    }

    /// Resolves any lexical operator.
    pub fn from_operator(value: Operator) -> (r: Result<Op, ParseErrorKind>)
        ensures
            match r {
                Ok(op) => spec_op_from(value) == Ok::<Op, crate::error::ParseErrorValue>(op),
                Err(k) => spec_op_from(value) == Err::<Op, crate::error::ParseErrorValue>(k@),
            },
    {
        match value {
            Operator::Unary(op) => Op::from_unary(op),
            Operator::Binary(op) => Op::from_binary(op),
        }
    }
}

} // verus!
