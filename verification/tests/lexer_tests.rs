use rslox::{Error, Lexer, LexingErrorKind, Literal, Number, Operator, TokenType, UnaryOperator};

#[test]
fn empty_input() {
    let input = "";
    let mut lexer = Lexer::new(input);
    assert!(lexer.next().is_none());
}

#[test]
fn unexpected_characters() {
    let input = "@\n#$\n%^&\n*";
    let mut lexer = Lexer::new(input);

    match lexer.next() {
        Some(Err(Error::LexingError(d))) => {
            assert!(matches!(d.kind, LexingErrorKind::UnexpectedCharacter(_)));
            assert_eq!(lexer.line(), 1);
        }
        o => panic!("Expected an error for unexpected character, got: {:?}", o),
    }
}

#[test]
fn identifiers() {
    let input = "andy formless fo _ _123 _abc ab123
        abcdefghijklmnopqrstuvwxyzABCDEFGHIJKLMNOPQRSTUVWXYZ1234567890_";
    let mut lexer = Lexer::new(input);

    let expected = vec![
        "andy",
        "formless",
        "fo",
        "_",
        "_123",
        "_abc",
        "ab123",
        "abcdefghijklmnopqrstuvwxyzABCDEFGHIJKLMNOPQRSTUVWXYZ1234567890_",
    ];

    for expected_lexeme in expected {
        match lexer.next() {
            Some(Ok(token)) => {
                assert_eq!(token.lexeme(), expected_lexeme);
                assert!(matches!(
                    token.ty(),
                    TokenType::Literal(Literal::Identifier)
                ));
            }
            Some(Err(e)) => panic!("Unexpected error: {:?}", e),
            None => panic!("Expected more tokens, but got None"),
        }
    }
}

#[test]
fn keywords() {
    let input = "and class else false for fun if nil or return super this true var while";
    let mut lexer = Lexer::new(input);

    let expected_keywords = vec![
        "and", "class", "else", "false", "for", "fun", "if", "nil", "or", "return", "super",
        "this", "true", "var", "while",
    ];

    for expected_keyword in expected_keywords {
        match lexer.next() {
            Some(Ok(token)) => {
                assert_eq!(token.lexeme(), expected_keyword);
                assert!(matches!(token.ty(), TokenType::Keyword(_)));
            }
            Some(Err(e)) => panic!("Unexpected error: {:?}", e),
            None => panic!("Expected more tokens, but got None"),
        }
    }
}

#[test]
fn strings() {
    let input = "\"\"\"string\"\"unterminated string";
    let mut lexer = Lexer::new(input);
    let expected_strings = vec!["", "string"];

    for expected_string in expected_strings {
        match lexer.next() {
            Some(Ok(token)) => {
                assert_eq!(token.lexeme().trim_matches('"'), expected_string);
                assert!(matches!(token.ty(), TokenType::Literal(Literal::String)));
            }
            Some(Err(e)) => panic!("Unexpected error: {:?}", e),
            None => panic!("Expected more tokens, but got None"),
        }
    }

    match lexer.next() {
        Some(Err(Error::LexingError(d))) => {
            assert!(matches!(d.kind, LexingErrorKind::UnterminatedString));
            assert_eq!(lexer.line(), 1);
        }
        o => panic!("Expected an unterminated string error, got: {:?}", o),
    }
}

#[test]
fn numbers() {
    let input = "123 123.456 .456 123.";
    let mut lexer = Lexer::new(input);

    let expected_types = vec![
        TokenType::Literal(Literal::Number(Number::from_i64(123))),
        TokenType::Literal(Literal::Number(Number::new_rational(123456, 1000).unwrap())),
        TokenType::Operator(Operator::Unary(UnaryOperator::Dot)),
        TokenType::Literal(Literal::Number(Number::from_i64(456))), // .456 is treated as DOT 456
        TokenType::Literal(Literal::Number(Number::from_i64(123))),
        TokenType::Operator(Operator::Unary(UnaryOperator::Dot)),
    ];

    for expected_type in expected_types {
        match lexer.next() {
            Some(Ok(token)) => {
                assert_eq!(token.ty(), expected_type);
            }
            Some(Err(e)) => panic!("Unexpected error: {:?}", e),
            None => panic!("Expected more tokens, but got None"),
        }
    }
}

#[test]
fn punctuators() {
    let input = r#"(){};,+-*!===<=>=!=<>/."#;
    let mut lexer = Lexer::new(input);

    let expected_tokens = vec![
        "(", ")", "{", "}", ";", ",", "+", "-", "*", "!=", "==", "<=", ">=", "!=", "<", ">",
        "/", ".",
    ];

    for expected_token in expected_tokens {
        match lexer.next() {
            Some(Ok(token)) => {
                assert_eq!(token.lexeme(), expected_token);
                assert!(matches!(token.ty(), TokenType::Operator(_)));
            }
            Some(Err(e)) => panic!("Unexpected error: {:?}", e),
            None => panic!("Expected more tokens, but got None"),
        }
    }
}

#[test]
fn whitespace() {
    let input = "space      tabs\t\t\t\tnewlines\n\n\n\n\nend";
    let mut lexer = Lexer::new(input);
    let expected_tokens = vec!["space", "tabs", "newlines", "end"];

    for expected_token in expected_tokens {
        match lexer.next() {
            Some(Ok(token)) => {
                assert_eq!(token.lexeme(), expected_token);
                assert!(matches!(
                    token.ty(),
                    TokenType::Literal(Literal::Identifier)
                ));
            }
            Some(Err(e)) => panic!("Unexpected error: {:?}", e),
            None => panic!("Expected more tokens, but got None"),
        }
    }
}
