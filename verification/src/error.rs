//! The diagnostic model: each error family pairs a closed kind enumeration
//! with the source text and the span of the offending range, so a renderer
//! can point into the source.

use crate::span::Span;
use crate::token::{Keyword, Operator, TokenType};
use vstd::prelude::*;

verus! {

/// What can go wrong while scanning tokens.
#[derive(Debug, Clone, PartialEq)]
pub enum LexingErrorKind {
    InvalidOperator(String),
    InvalidLiteral(String),
    InvalidKeyword(String),
    UnterminatedString,
    UnexpectedCharacter(char),
    UnexpectedToken { expected: TokenType, found: TokenType },
}

/// What can go wrong while parsing.
#[derive(Debug, Clone, PartialEq)]
pub enum ParseErrorKind {
    UnsupportedOperator(Operator),
    UnsupportedKeyword(Keyword),
    UnexpectedOperator(Operator),
    UnexpectedKeyword(Keyword),
    UnexpectedToken(TokenType, String),
    InvalidExpression(String),
}

/// What can go wrong while evaluating.
#[derive(Debug, Clone, PartialEq)]
pub enum RuntimeErrorKind {
    DivisionByZero,
    InvalidOperand(String),
}

/// The mathematical value of a lexing error kind, with text payloads as
/// character sequences.
pub enum LexingErrorValue {
    InvalidOperator(Seq<char>),
    InvalidLiteral(Seq<char>),
    InvalidKeyword(Seq<char>),
    UnterminatedString,
    UnexpectedCharacter(char),
    UnexpectedToken { expected: TokenType, found: TokenType },
}

impl View for LexingErrorKind {
    type V = LexingErrorValue;

    open spec fn view(&self) -> LexingErrorValue {
        match self {
            LexingErrorKind::InvalidOperator(t) => LexingErrorValue::InvalidOperator(t@),
            LexingErrorKind::InvalidLiteral(t) => LexingErrorValue::InvalidLiteral(t@),
            LexingErrorKind::InvalidKeyword(t) => LexingErrorValue::InvalidKeyword(t@),
            LexingErrorKind::UnterminatedString => LexingErrorValue::UnterminatedString,
            LexingErrorKind::UnexpectedCharacter(c) => LexingErrorValue::UnexpectedCharacter(*c),
            LexingErrorKind::UnexpectedToken { expected, found } => {
                LexingErrorValue::UnexpectedToken { expected: *expected, found: *found }
            },
        }
    }
}

/// The mathematical value of a parse error kind.
pub enum ParseErrorValue {
    UnsupportedOperator(Operator),
    UnsupportedKeyword(Keyword),
    UnexpectedOperator(Operator),
    UnexpectedKeyword(Keyword),
    UnexpectedToken(TokenType, Seq<char>),
    InvalidExpression(Seq<char>),
}

impl View for ParseErrorKind {
    type V = ParseErrorValue;

    open spec fn view(&self) -> ParseErrorValue {
        match self {
            ParseErrorKind::UnsupportedOperator(op) => ParseErrorValue::UnsupportedOperator(*op),
            ParseErrorKind::UnsupportedKeyword(kw) => ParseErrorValue::UnsupportedKeyword(*kw),
            ParseErrorKind::UnexpectedOperator(op) => ParseErrorValue::UnexpectedOperator(*op),
            ParseErrorKind::UnexpectedKeyword(kw) => ParseErrorValue::UnexpectedKeyword(*kw),
            ParseErrorKind::UnexpectedToken(ty, lex) => ParseErrorValue::UnexpectedToken(
                *ty,
                lex@,
            ),
            ParseErrorKind::InvalidExpression(lex) => ParseErrorValue::InvalidExpression(lex@),
        }
    }
}

/// The mathematical value of a runtime error kind, with the operand
/// message as a character sequence.
pub enum RuntimeErrorValue {
    DivisionByZero,
    InvalidOperand(Seq<char>),
}

impl View for RuntimeErrorKind {
    type V = RuntimeErrorValue;

    open spec fn view(&self) -> RuntimeErrorValue {
        match self {
            RuntimeErrorKind::DivisionByZero => RuntimeErrorValue::DivisionByZero,
            RuntimeErrorKind::InvalidOperand(m) => RuntimeErrorValue::InvalidOperand(m@),
        }
    }
}

/// A span-carrying error: the kind, the full source text it points into,
/// and the span of the offending range.
#[derive(Debug, Clone, PartialEq)]
pub struct DiagnosticError<K> {
    pub source: String,
    pub kind: K,
    pub span: Span,
}

impl<K> DiagnosticError<K> {
    pub fn new(source: String, kind: K, span: Span) -> (r: DiagnosticError<K>)
        ensures
            r.source == source,
            r.kind == kind,
            r.span == span,
    {
        DiagnosticError { source, kind, span }
    }

    pub fn kind(&self) -> (r: &K)
        ensures
            r == &self.kind,
    {
        &self.kind
    }

    pub fn span(&self) -> (r: Span)
        ensures
            r == self.span,
    {
        self.span
    }
}

pub type LexingError = DiagnosticError<LexingErrorKind>;

pub type ParseError = DiagnosticError<ParseErrorKind>;

pub type RuntimeError = DiagnosticError<RuntimeErrorKind>;

/// Any failure of the pipeline, by stage.
#[derive(Debug, Clone, PartialEq)]
pub enum Error {
    UnexpectedEndOfInput,
    ParseError(ParseError),
    LexingError(LexingError),
    RuntimeError(RuntimeError),
}

/// The mathematical value of a pipeline error: its kind, the span it
/// points at, and the source text it points into.
pub enum ErrorValue {
    UnexpectedEndOfInput,
    ParseError(ParseErrorValue, Span, Seq<char>),
    LexingError(LexingErrorValue, Span, Seq<char>),
    RuntimeError(RuntimeErrorValue, Span, Seq<char>),
}

impl View for Error {
    type V = ErrorValue;

    open spec fn view(&self) -> ErrorValue {
        match self {
            Error::UnexpectedEndOfInput => ErrorValue::UnexpectedEndOfInput,
            Error::ParseError(d) => ErrorValue::ParseError(d.kind@, d.span, d.source@),
            Error::LexingError(d) => ErrorValue::LexingError(d.kind@, d.span, d.source@),
            Error::RuntimeError(d) => ErrorValue::RuntimeError(d.kind@, d.span, d.source@),
        }
    }
}

} // verus!
