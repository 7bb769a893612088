use rslox::interpreter::eval_expr;
use rslox::span::merge_span;
use rslox::token::classify;
use rslox::{
    Atom, AtomKind, Error, Interpreter, Keyword, Literal, Number, Op, Parser, ParseErrorKind,
    RuntimeErrorKind, Span, TokenType,
};

fn run(source: &str) -> Result<Vec<Atom<'_>>, Error> {
    let mut interpreter = Interpreter::new(source);
    interpreter.interpret()
}

#[test]
fn precedence_group_binds_tighter() {
    let vals = run("8 * (8 + 2);").unwrap();
    assert_eq!(vals.len(), 1);
    assert_eq!(*vals[0].kind(), AtomKind::Number(Number::from_i64(80)));
}

#[test]
fn precedence_left_assoc_and_unary_group() {
    let vals = run("23 + 28 - -(61 - 99);").unwrap();
    assert_eq!(vals.len(), 1);
    assert_eq!(*vals[0].kind(), AtomKind::Number(Number::from_i64(13)));
}

#[test]
fn division_by_zero_is_an_error() {
    match run("10 / 0;") {
        Err(Error::RuntimeError(d)) => {
            assert_eq!(d.kind, RuntimeErrorKind::DivisionByZero);
            assert_eq!(d.span, Span::new(0, 6));
        }
        o => panic!("Expected a division-by-zero error, got: {:?}", o),
    }
}

#[test]
fn string_concatenation_owns_its_value() {
    let vals = run("\"Hello \" + \"World!\";").unwrap();
    assert_eq!(vals.len(), 1);
    assert_eq!(*vals[0].kind(), AtomKind::String("Hello World!".to_string()));
}

#[test]
fn cross_kind_equality_is_false_not_an_error() {
    let vals = run("5 == \"5\";").unwrap();
    assert_eq!(vals.len(), 1);
    assert_eq!(*vals[0].kind(), AtomKind::Bool(false));
}

#[test]
fn cross_kind_ordering_is_false_not_an_error() {
    let vals = run("5 < \"5\"; \"a\" > 1; nil <= 3; true >= false;").unwrap();
    assert_eq!(vals.len(), 4);
    for val in &vals {
        assert_eq!(*val.kind(), AtomKind::Bool(false));
    }
}

#[test]
fn span_merge_is_idempotent() {
    let s = Span::new(3, 7);
    assert_eq!(merge_span(s, s), s);
}

#[test]
fn span_merge_is_commutative_and_associative() {
    let a = Span::new(2, 3);
    let b = Span::new(10, 4);
    let c = Span::new(0, 1);
    assert_eq!(merge_span(a, b), merge_span(b, a));
    assert_eq!(
        merge_span(merge_span(a, b), c),
        merge_span(a, merge_span(b, c))
    );
    let whole = merge_span(merge_span(a, b), c);
    assert_eq!(whole, Span::new(0, 14));
}

#[test]
fn statements_evaluate_in_source_order() {
    let vals = run("1 + 2; \"a\" + \"b\"; !true;").unwrap();
    assert_eq!(vals.len(), 3);
    assert_eq!(*vals[0].kind(), AtomKind::Number(Number::from_i64(3)));
    assert_eq!(*vals[1].kind(), AtomKind::String("ab".to_string()));
    assert_eq!(*vals[2].kind(), AtomKind::Bool(false));
}

#[test]
fn line_comments_are_skipped() {
    let vals = run("1 + 1; // the rest of this line vanishes\n2 * 3;").unwrap();
    assert_eq!(vals.len(), 2);
    assert_eq!(*vals[0].kind(), AtomKind::Number(Number::from_i64(2)));
    assert_eq!(*vals[1].kind(), AtomKind::Number(Number::from_i64(6)));
}

#[test]
fn not_on_non_bool_yields_nil() {
    let vals = run("!1; !nil; !\"x\";").unwrap();
    assert_eq!(vals.len(), 3);
    for val in &vals {
        assert_eq!(*val.kind(), AtomKind::Nil);
    }
}

#[test]
fn exact_decimal_arithmetic() {
    let vals = run("0.1 + 0.2; 10 / 4; 3.5 * 2;").unwrap();
    assert_eq!(vals.len(), 3);
    assert_eq!(
        *vals[0].kind(),
        AtomKind::Number(Number::new_rational(3, 10).unwrap())
    );
    assert_eq!(
        *vals[1].kind(),
        AtomKind::Number(Number::new_rational(5, 2).unwrap())
    );
    assert_eq!(*vals[2].kind(), AtomKind::Number(Number::from_i64(7)));
}

#[test]
fn invalid_operand_for_mixed_addition() {
    match run("1 + true;") {
        Err(Error::RuntimeError(d)) => {
            assert_eq!(
                d.kind,
                RuntimeErrorKind::InvalidOperand(
                    "Operands must be two numbers or two strings.".to_string()
                )
            );
        }
        o => panic!("Expected an invalid-operand error, got: {:?}", o),
    }
}

#[test]
fn invalid_operand_for_non_numeric_difference() {
    match run("\"a\" - \"b\";") {
        Err(Error::RuntimeError(d)) => {
            assert_eq!(
                d.kind,
                RuntimeErrorKind::InvalidOperand("Operands must be numbers".to_string())
            );
        }
        o => panic!("Expected an invalid-operand error, got: {:?}", o),
    }
}

#[test]
fn invalid_operand_for_negated_string() {
    match run("-\"a\";") {
        Err(Error::RuntimeError(d)) => {
            assert_eq!(
                d.kind,
                RuntimeErrorKind::InvalidOperand("Operand must be a number.".to_string())
            );
        }
        o => panic!("Expected an invalid-operand error, got: {:?}", o),
    }
}

#[test]
fn numeric_overflow_is_reported() {
    match run("9223372036854775807 + 1;") {
        Err(Error::RuntimeError(d)) => {
            assert_eq!(
                d.kind,
                RuntimeErrorKind::InvalidOperand("Number overflow.".to_string())
            );
        }
        o => panic!("Expected an overflow error, got: {:?}", o),
    }
}

#[test]
fn unexpected_keyword_in_primary_position() {
    match run("var;") {
        Err(Error::ParseError(d)) => {
            assert_eq!(d.kind, ParseErrorKind::UnexpectedKeyword(Keyword::Var));
        }
        o => panic!("Expected an unexpected-keyword error, got: {:?}", o),
    }
}

#[test]
fn unsupported_operator_between_terms() {
    match run("1 , 2;") {
        Err(Error::ParseError(d)) => {
            assert!(matches!(d.kind, ParseErrorKind::UnsupportedOperator(_)));
        }
        o => panic!("Expected an unsupported-operator error, got: {:?}", o),
    }
}

#[test]
fn adjacent_terms_are_an_unexpected_token() {
    match run("1 2;") {
        Err(Error::ParseError(d)) => {
            assert!(matches!(d.kind, ParseErrorKind::UnexpectedToken(_, _)));
        }
        o => panic!("Expected an unexpected-token error, got: {:?}", o),
    }
}

#[test]
fn missing_operand_is_an_invalid_expression() {
    match run("8 + ;") {
        Err(Error::ParseError(d)) => {
            assert!(matches!(d.kind, ParseErrorKind::InvalidExpression(_)));
        }
        o => panic!("Expected an invalid-expression error, got: {:?}", o),
    }
}

#[test]
fn unclosed_group_demands_the_closing_paren() {
    match run("(1 + 2;") {
        Err(Error::LexingError(d)) => {
            assert!(matches!(
                d.kind,
                rslox::LexingErrorKind::UnexpectedToken { .. }
            ));
        }
        o => panic!("Expected an unexpected-token error, got: {:?}", o),
    }
}

#[test]
fn missing_semicolon_at_end_of_input() {
    match run("1 + 2") {
        Err(Error::UnexpectedEndOfInput) => {}
        o => panic!("Expected an end-of-input error, got: {:?}", o),
    }
}

#[test]
fn empty_source_evaluates_to_nothing() {
    let vals = run("").unwrap();
    assert_eq!(vals.len(), 0);
}

#[test]
fn print_prefix_wraps_its_operand() {
    let mut parser = Parser::new("print 1 + 2;");
    let tree = parser.parse().unwrap();
    assert_eq!(tree.0.len(), 1);
    match &tree.0[0] {
        rslox::Stmt::Expr(rslox::Expr::Unary { op, .. }) => assert_eq!(*op, Op::Print),
        o => panic!("Expected a print statement, got: {:?}", o),
    }
}

#[test]
fn peek_does_not_advance_the_lexer() {
    let mut lexer = rslox::Lexer::new("1 + 2");
    let peeked = lexer.peek().unwrap().unwrap();
    let pulled = lexer.next().unwrap().unwrap();
    assert_eq!(peeked.ty(), pulled.ty());
    assert_eq!(peeked.lexeme(), pulled.lexeme());
    let after = lexer.next().unwrap().unwrap();
    assert_eq!(after.lexeme(), "+");
}

#[test]
fn line_is_one_based_and_counts_consumed_newlines() {
    let mut lexer = rslox::Lexer::new("1\n2\n3");
    assert_eq!(lexer.line(), 1);
    lexer.next();
    assert_eq!(lexer.line(), 1);
    lexer.next();
    assert_eq!(lexer.line(), 2);
    lexer.next();
    assert_eq!(lexer.line(), 3);
}

#[test]
fn every_operator_lexeme_round_trips() {
    let lexemes = vec![
        "(", ")", "{", "}", ",", ".", ";", "+", "-", "*", "/", "!", "<", "=", ">", "!=", "<=",
        "==", ">=",
    ];
    for lexeme in lexemes {
        let mut lexer = rslox::Lexer::new(lexeme);
        let token = lexer.next().unwrap().unwrap();
        assert_eq!(token.lexeme(), lexeme);
        assert!(matches!(token.ty(), TokenType::Operator(_)));
        assert_eq!(token.span(), Span::new(0, lexeme.len()));
        assert!(lexer.next().is_none());
    }
}

#[test]
fn classification_of_plain_lexemes() {
    assert_eq!(classify("and"), TokenType::Keyword(Keyword::And));
    assert_eq!(classify("andy"), TokenType::Literal(Literal::Identifier));
    assert_eq!(
        classify("42"),
        TokenType::Literal(Literal::Number(Number::from_i64(42)))
    );
    assert_eq!(
        classify("0.25"),
        TokenType::Literal(Literal::Number(Number::new_rational(1, 4).unwrap()))
    );
    assert_eq!(classify("\"hi\""), TokenType::Literal(Literal::String));
    assert_eq!(classify("@"), TokenType::Invalid);
    assert_eq!(classify("1.2.3"), TokenType::Invalid);
}

#[test]
fn number_text_renders_whole_values_with_a_trailing_zero() {
    assert_eq!(Number::from_i64(5).to_text(), "5.0");
    assert_eq!(Number::from_i64(-5).to_text(), "-5.0");
    assert_eq!(Number::from_i64(0).to_text(), "0.0");
    assert_eq!(Number::new_rational(5, 2).unwrap().to_text(), "5/2");
}

#[test]
fn atom_text_renders_each_kind() {
    let span = Span::new(0, 0);
    assert_eq!(Atom::new(AtomKind::Nil, span).to_text(), "nil");
    assert_eq!(Atom::new(AtomKind::Bool(true), span).to_text(), "true");
    assert_eq!(Atom::new(AtomKind::Bool(false), span).to_text(), "false");
    assert_eq!(
        Atom::new(AtomKind::String("hey".to_string()), span).to_text(),
        "hey"
    );
    assert_eq!(
        Atom::new(AtomKind::Number(Number::from_i64(42)), span).to_text(),
        "42.0"
    );
}

#[test]
fn token_text_has_type_lexeme_and_value() {
    let mut lexer = rslox::Lexer::new("42 \"hi\" print foo *");
    let token = lexer.next().unwrap().unwrap();
    assert_eq!(token.to_text(), "NUMBER 42 42.0");
    let token = lexer.next().unwrap().unwrap();
    assert_eq!(token.to_text(), "STRING \"hi\" hi");
    let token = lexer.next().unwrap().unwrap();
    assert_eq!(token.to_text(), "PRINT print null");
    let token = lexer.next().unwrap().unwrap();
    assert_eq!(token.to_text(), "IDENTIFIER foo null");
    let token = lexer.next().unwrap().unwrap();
    assert_eq!(token.to_text(), "STAR * null");
}

#[test]
fn error_spans_point_into_the_source() {
    match run("1 + (2 * nil);") {
        Err(Error::RuntimeError(d)) => {
            assert_eq!(
                d.kind,
                RuntimeErrorKind::InvalidOperand("Operands must be numbers".to_string())
            );
            assert_eq!(d.span, Span::new(5, 7));
            assert_eq!(d.source, "1 + (2 * nil);");
        }
        o => panic!("Expected an invalid-operand error, got: {:?}", o),
    }
}

#[test]
fn eval_tree_matches_interpret() {
    let mut parser = Parser::new("1 + 1;");
    let tree = parser.parse().unwrap();
    let vals = Interpreter::eval_tree(&tree, "1 + 1;").unwrap();
    assert_eq!(vals.len(), 1);
    assert_eq!(*vals[0].kind(), AtomKind::Number(Number::from_i64(2)));
}

#[test]
fn string_ordering_is_lexicographic() {
    let vals = run("\"abc\" < \"abd\"; \"ab\" < \"abc\"; \"b\" < \"abc\"; \"abc\" <= \"abc\";")
        .unwrap();
    assert_eq!(vals.len(), 4);
    assert_eq!(*vals[0].kind(), AtomKind::Bool(true));
    assert_eq!(*vals[1].kind(), AtomKind::Bool(true));
    assert_eq!(*vals[2].kind(), AtomKind::Bool(false));
    assert_eq!(*vals[3].kind(), AtomKind::Bool(true));
}

#[test]
fn tree_text_is_prefix_form() {
    let mut parser = Parser::new("8 * (8 + 2);");
    let tree = parser.parse().unwrap();
    assert_eq!(tree.to_text(), "(* 8.0 (group (+ 8.0 2.0)))\n");
}

#[test]
fn products_bind_tighter_than_sums() {
    let mut parser = Parser::new("1 + 2 * 3;");
    let tree = parser.parse().unwrap();
    assert_eq!(tree.to_text(), "(+ 1.0 (* 2.0 3.0))\n");
}

#[test]
fn differences_associate_to_the_left() {
    let mut parser = Parser::new("1 - 2 - 3;");
    let tree = parser.parse().unwrap();
    assert_eq!(tree.to_text(), "(- (- 1.0 2.0) 3.0)\n");
}

#[test]
fn empty_input_parses_to_an_empty_tree() {
    let mut parser = Parser::new("");
    let tree = parser.parse().unwrap();
    assert_eq!(tree.0.len(), 0);
}

#[test]
fn number_dot_edge_case_in_expressions() {
    let outcome = run("123. ;").err();
    // `123.` lexes as the number 123 followed by a dot, so the statement
    // `123. ;` fails to parse at the dot's right-hand side.
    match outcome {
        Some(Error::ParseError(d)) => {
            assert!(matches!(d.kind, ParseErrorKind::InvalidExpression(_)));
        }
        o => panic!("Expected an invalid-expression error, got: {:?}", o),
    }
}
