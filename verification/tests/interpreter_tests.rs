use rslox::interpreter::eval_expr;
use rslox::{Atom, AtomKind, Expr, Number, Op, Span};

#[test]
fn test_true_expr() {
    let expr = Expr::Atom(Atom::new(AtomKind::Bool(true), Span::new(0, 0)));
    let result = eval_expr("", &expr).unwrap();
    assert_eq!(*result.kind(), AtomKind::Bool(true));
}

#[test]
fn test_false_expr() {
    let expr = Expr::Atom(Atom::new(AtomKind::Bool(false), Span::new(0, 0)));
    let result = eval_expr("", &expr).unwrap();
    assert_eq!(*result.kind(), AtomKind::Bool(false));
}

#[test]
fn test_nil_expr() {
    let expr = Expr::Atom(Atom::new(AtomKind::Nil, Span::new(0, 0)));
    let result = eval_expr("", &expr).unwrap();
    assert_eq!(*result.kind(), AtomKind::Nil);
}

#[test]
fn test_string_expr() {
    let expr = Expr::Atom(Atom::new(
        AtomKind::String("Hello World!".to_string()),
        Span::new(0, 0),
    ));
    let result = eval_expr("", &expr).unwrap();
    assert_eq!(*result.kind(), AtomKind::String("Hello World!".to_string()));
}

#[test]
fn test_number_expr() {
    let expr = Expr::Atom(Atom::new(
        AtomKind::Number(Number::from_i64(42)),
        Span::new(0, 0),
    ));
    let result = eval_expr("", &expr).unwrap();
    assert_eq!(*result.kind(), AtomKind::Number(Number::from_i64(42)));
}

#[test]
fn test_group_expr() {
    let expr = Expr::Binary {
        left: Box::new(Expr::Atom(Atom::new(
            AtomKind::Number(Number::from_i64(8)),
            Span::new(0, 0),
        ))),
        op: Op::Star,
        right: Box::new(Expr::Group(Box::new(Expr::Binary {
            left: Box::new(Expr::Atom(Atom::new(
                AtomKind::Number(Number::from_i64(8)),
                Span::new(0, 0),
            ))),
            op: Op::Plus,
            right: Box::new(Expr::Atom(Atom::new(
                AtomKind::Number(Number::from_i64(2)),
                Span::new(0, 0),
            ))),
        }))),
    };
    let result = eval_expr("", &expr).unwrap();
    assert_eq!(*result.kind(), AtomKind::Number(Number::from_i64(80)));
}

#[test]
fn test_unary_neg_expr() {
    let expr = Expr::Unary {
        op: Op::Minus,
        expr: Box::new(Expr::Atom(Atom::new(
            AtomKind::Number(Number::from_i64(5)),
            Span::new(0, 0),
        ))),
    };
    let result = eval_expr("", &expr).unwrap();
    assert_eq!(*result.kind(), AtomKind::Number(Number::from_i64(-5)));
}

#[test]
fn test_unary_not_expr() {
    let expr = Expr::Unary {
        op: Op::Bang,
        expr: Box::new(Expr::Atom(Atom::new(AtomKind::Bool(true), Span::new(0, 0)))),
    };
    let result = eval_expr("", &expr).unwrap();
    assert_eq!(*result.kind(), AtomKind::Bool(false));
}

#[test]
fn test_unary_group_expr() {
    let expr = Expr::Unary {
        op: Op::Minus,
        expr: Box::new(Expr::Group(Box::new(Expr::Group(Box::new(Expr::Atom(
            Atom::new(AtomKind::Number(Number::from_i64(5)), Span::new(0, 0)),
        )))))),
    };
    let result = eval_expr("", &expr).unwrap();
    assert_eq!(*result.kind(), AtomKind::Number(Number::from_i64(-5)));
}

#[test]
fn test_arithmetic_mul_expr() {
    let expr = Expr::Binary {
        left: Box::new(Expr::Atom(Atom::new(
            AtomKind::Number(Number::from_i64(5)),
            Span::new(0, 0),
        ))),
        op: Op::Star,
        right: Box::new(Expr::Atom(Atom::new(
            AtomKind::Number(Number::from_i64(3)),
            Span::new(0, 0),
        ))),
    };
    let result = eval_expr("", &expr).unwrap();
    assert_eq!(*result.kind(), AtomKind::Number(Number::from_i64(15)));
}

#[test]
fn test_arithmetic_div_expr() {
    let expr = Expr::Binary {
        left: Box::new(Expr::Atom(Atom::new(
            AtomKind::Number(Number::from_i64(10)),
            Span::new(0, 0),
        ))),
        op: Op::Slash,
        right: Box::new(Expr::Atom(Atom::new(
            AtomKind::Number(Number::from_i64(2)),
            Span::new(0, 0),
        ))),
    };
    let result = eval_expr("", &expr).unwrap();
    assert_eq!(*result.kind(), AtomKind::Number(Number::from_i64(5)));
}

#[test]
fn test_airthmetic_mul_div_expr() {
    let expr = Expr::Binary {
        left: Box::new(Expr::Group(Box::new(Expr::Binary {
            left: Box::new(Expr::Atom(Atom::new(
                AtomKind::Number(Number::new_rational(1040, 100).unwrap()),
                Span::new(0, 0),
            ))),
            op: Op::Star,
            right: Box::new(Expr::Atom(Atom::new(
                AtomKind::Number(Number::from_i64(2)),
                Span::new(0, 0),
            ))),
        }))),
        op: Op::Slash,
        right: Box::new(Expr::Atom(Atom::new(
            AtomKind::Number(Number::from_i64(2)),
            Span::new(0, 0),
        ))),
    };
    let result = eval_expr("", &expr).unwrap();
    assert_eq!(
        *result.kind(),
        AtomKind::Number(Number::new_rational(104, 10).unwrap())
    );
}

#[test]
fn test_arithmetic_add_expr() {
    let expr = Expr::Binary {
        left: Box::new(Expr::Atom(Atom::new(
            AtomKind::Number(Number::from_i64(5)),
            Span::new(0, 0),
        ))),
        op: Op::Plus,
        right: Box::new(Expr::Atom(Atom::new(
            AtomKind::Number(Number::from_i64(3)),
            Span::new(0, 0),
        ))),
    };
    let result = eval_expr("", &expr).unwrap();
    assert_eq!(*result.kind(), AtomKind::Number(Number::from_i64(8)));
}

#[test]
fn test_arithmetic_sub_expr() {
    let expr = Expr::Binary {
        left: Box::new(Expr::Atom(Atom::new(
            AtomKind::Number(Number::from_i64(5)),
            Span::new(0, 0),
        ))),
        op: Op::Minus,
        right: Box::new(Expr::Atom(Atom::new(
            AtomKind::Number(Number::from_i64(3)),
            Span::new(0, 0),
        ))),
    };
    let result = eval_expr("", &expr).unwrap();
    assert_eq!(*result.kind(), AtomKind::Number(Number::from_i64(2)));
}

#[test]
fn test_arithmetic_add_sub_expr() {
    let expr = Expr::Binary {
        left: Box::new(Expr::Binary {
            left: Box::new(Expr::Atom(Atom::new(
                AtomKind::Number(Number::from_i64(23)),
                Span::new(0, 0),
            ))),
            op: Op::Plus,
            right: Box::new(Expr::Atom(Atom::new(
                AtomKind::Number(Number::from_i64(28)),
                Span::new(0, 0),
            ))),
        }),
        op: Op::Minus,
        right: Box::new(Expr::Group(Box::new(Expr::Unary {
            op: Op::Minus,
            expr: Box::new(Expr::Group(Box::new(Expr::Binary {
                left: Box::new(Expr::Atom(Atom::new(
                    AtomKind::Number(Number::from_i64(61)),
                    Span::new(0, 0),
                ))),
                op: Op::Minus,
                right: Box::new(Expr::Atom(Atom::new(
                    AtomKind::Number(Number::from_i64(99)),
                    Span::new(0, 0),
                ))),
            }))),
        }))),
    };
    let result = eval_expr("", &expr).unwrap();
    assert_eq!(*result.kind(), AtomKind::Number(Number::from_i64(13)));
}

#[test]
fn test_string_concatenation_expr() {
    let expr = Expr::Binary {
        left: Box::new(Expr::Atom(Atom::new(
            AtomKind::String("Hello ".to_string()),
            Span::new(0, 0),
        ))),
        op: Op::Plus,
        right: Box::new(Expr::Atom(Atom::new(
            AtomKind::String("World!".to_string()),
            Span::new(0, 0),
        ))),
    };
    let result = eval_expr("", &expr).unwrap();
    assert_eq!(*result.kind(), AtomKind::String("Hello World!".to_string()));
}

#[test]
fn test_relational_greater_expr() {
    let expr = Expr::Binary {
        left: Box::new(Expr::Atom(Atom::new(
            AtomKind::Number(Number::from_i64(10)),
            Span::new(0, 0),
        ))),
        op: Op::Greater,
        right: Box::new(Expr::Atom(Atom::new(
            AtomKind::Number(Number::from_i64(5)),
            Span::new(0, 0),
        ))),
    };
    let result = eval_expr("", &expr).unwrap();
    assert_eq!(*result.kind(), AtomKind::Bool(true));
}

#[test]
fn test_relational_less_expr() {
    let expr = Expr::Binary {
        left: Box::new(Expr::Atom(Atom::new(
            AtomKind::Number(Number::from_i64(3)),
            Span::new(0, 0),
        ))),
        op: Op::Less,
        right: Box::new(Expr::Atom(Atom::new(
            AtomKind::Number(Number::from_i64(7)),
            Span::new(0, 0),
        ))),
    };
    let result = eval_expr("", &expr).unwrap();
    assert_eq!(*result.kind(), AtomKind::Bool(true));
}

#[test]
fn test_relational_greater_equal_expr() {
    let expr = Expr::Binary {
        left: Box::new(Expr::Atom(Atom::new(
            AtomKind::Number(Number::from_i64(5)),
            Span::new(0, 0),
        ))),
        op: Op::GreaterEqual,
        right: Box::new(Expr::Atom(Atom::new(
            AtomKind::Number(Number::from_i64(5)),
            Span::new(0, 0),
        ))),
    };
    let result = eval_expr("", &expr).unwrap();
    assert_eq!(*result.kind(), AtomKind::Bool(true));
}

#[test]
fn test_relational_less_equal_expr() {
    let expr = Expr::Binary {
        left: Box::new(Expr::Atom(Atom::new(
            AtomKind::Number(Number::from_i64(4)),
            Span::new(0, 0),
        ))),
        op: Op::LessEqual,
        right: Box::new(Expr::Atom(Atom::new(
            AtomKind::Number(Number::from_i64(5)),
            Span::new(0, 0),
        ))),
    };
    let result = eval_expr("", &expr).unwrap();
    assert_eq!(*result.kind(), AtomKind::Bool(true));
}

#[test]
fn test_huge_relational_expr() {
    let expr = Expr::Binary {
        left: Box::new(Expr::Group(Box::new(Expr::Binary {
            left: Box::new(Expr::Atom(Atom::new(
                AtomKind::Number(Number::from_i64(54)),
                Span::new(0, 0),
            ))),
            op: Op::Minus,
            right: Box::new(Expr::Atom(Atom::new(
                AtomKind::Number(Number::from_i64(54)),
                Span::new(0, 0),
            ))),
        }))),
        op: Op::GreaterEqual,
        right: Box::new(Expr::Unary {
            op: Op::Minus,
            expr: Box::new(Expr::Group(Box::new(Expr::Binary {
                left: Box::new(Expr::Binary {
                    left: Box::new(Expr::Atom(Atom::new(
                        AtomKind::Number(Number::from_i64(114)),
                        Span::new(0, 0),
                    ))),
                    op: Op::Slash,
                    right: Box::new(Expr::Atom(Atom::new(
                        AtomKind::Number(Number::from_i64(57)),
                        Span::new(0, 0),
                    ))),
                }),
                op: Op::Plus,
                right: Box::new(Expr::Atom(Atom::new(
                    AtomKind::Number(Number::from_i64(11)),
                    Span::new(0, 0),
                ))),
            }))),
        }),
    };
    let result = eval_expr("", &expr).unwrap();
    assert_eq!(*result.kind(), AtomKind::Bool(true));
}

#[test]
fn test_equality_equal_expr() {
    let expr = Expr::Binary {
        left: Box::new(Expr::Atom(Atom::new(
            AtomKind::Number(Number::from_i64(5)),
            Span::new(0, 0),
        ))),
        op: Op::EqualEqual,
        right: Box::new(Expr::Atom(Atom::new(
            AtomKind::Number(Number::from_i64(5)),
            Span::new(0, 0),
        ))),
    };
    let result = eval_expr("", &expr).unwrap();
    assert_eq!(*result.kind(), AtomKind::Bool(true));
}

#[test]
fn test_equality_not_equal_expr() {
    let expr = Expr::Binary {
        left: Box::new(Expr::Atom(Atom::new(
            AtomKind::Number(Number::from_i64(5)),
            Span::new(0, 0),
        ))),
        op: Op::BangEqual,
        right: Box::new(Expr::Atom(Atom::new(
            AtomKind::Number(Number::from_i64(3)),
            Span::new(0, 0),
        ))),
    };
    let result = eval_expr("", &expr).unwrap();
    assert_eq!(*result.kind(), AtomKind::Bool(true));
}
