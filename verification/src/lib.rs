//! A small expression language: a lexer, a Pratt parser and a tree-walking
//! evaluator, with source spans carried through for diagnostics.

pub mod error;
pub mod interpreter;
pub mod lexer;
pub mod number;
pub mod parser;
pub mod span;
pub mod token;
pub mod tree;

pub use error::{DiagnosticError, Error, LexingError, LexingErrorKind, ParseError, ParseErrorKind, RuntimeError, RuntimeErrorKind};
pub use interpreter::Interpreter;
pub use lexer::Lexer;
pub use number::Number;
pub use parser::Parser;
pub use span::{merge_span, Span};
pub use tree::{Atom, AtomKind, Expr, Item, Op, Stmt, TokenTree};
pub use token::{BinaryOperator, Keyword, Literal, Operator, Token, TokenType, UnaryOperator};
