use rlox_twi::error::LoxError;
use rlox_twi::expr::Expr;
use rlox_twi::parser::Parser;
use rlox_twi::scanner::Scanner;
use rlox_twi::token::TokenType;
use rlox_twi::value::Value;

fn parse_src(src: &str) -> Result<Expr, LoxError> {
    let tokens = Scanner::new(src.as_bytes().to_vec()).scan_tokens()?;
    Parser::new(tokens).parse()
}

fn is_number_literal(e: &Expr, expected: f64) -> bool {
    matches!(e, Expr::Literal(Value::Number(n)) if *n == expected.to_bits())
}

#[test]
fn multiplication_binds_tighter_than_addition() {
    let expr = parse_src("1 + 2 * 3").unwrap();
    match &expr {
        Expr::Binary(l, op, r) => {
            assert!(is_number_literal(l, 1.0));
            assert_eq!(op.token_type, TokenType::Plus);
            match &**r {
                Expr::Binary(l2, op2, r2) => {
                    assert!(is_number_literal(l2, 2.0));
                    assert_eq!(op2.token_type, TokenType::Star);
                    assert!(is_number_literal(r2, 3.0));
                },
                _ => panic!("expected the product on the right"),
            }
        },
        _ => panic!("expected a sum at the top"),
    }
}

#[test]
fn binary_levels_are_left_associative() {
    let expr = parse_src("1 - 2 - 3").unwrap();
    match &expr {
        Expr::Binary(l, op, r) => {
            assert_eq!(op.token_type, TokenType::Minus);
            assert!(is_number_literal(r, 3.0));
            match &**l {
                Expr::Binary(l2, op2, r2) => {
                    assert!(is_number_literal(l2, 1.0));
                    assert_eq!(op2.token_type, TokenType::Minus);
                    assert!(is_number_literal(r2, 2.0));
                },
                _ => panic!("expected the first difference on the left"),
            }
        },
        _ => panic!("expected a difference at the top"),
    }
}

#[test]
fn unary_is_right_recursive() {
    let expr = parse_src("--2").unwrap();
    match &expr {
        Expr::Unary(op, inner) => {
            assert_eq!(op.token_type, TokenType::Minus);
            match &**inner {
                Expr::Unary(op2, inner2) => {
                    assert_eq!(op2.token_type, TokenType::Minus);
                    assert!(is_number_literal(inner2, 2.0));
                },
                _ => panic!("expected a nested unary"),
            }
        },
        _ => panic!("expected a unary at the top"),
    }
}

#[test]
fn keyword_literals_parse_to_fixed_values() {
    assert!(matches!(parse_src("true").unwrap(), Expr::Literal(Value::Boolean(true))));
    assert!(matches!(parse_src("false").unwrap(), Expr::Literal(Value::Boolean(false))));
    assert!(matches!(parse_src("nil").unwrap(), Expr::Literal(Value::Nil)));
}

#[test]
fn string_literal_parses_to_owned_text() {
    match parse_src("\"ab\"").unwrap() {
        Expr::Literal(Value::String(s)) => assert_eq!(s, b"ab".to_vec()),
        _ => panic!("expected a string literal"),
    }
}

#[test]
fn grouping_wraps_the_inner_expression() {
    match parse_src("(1)").unwrap() {
        Expr::Grouping(inner) => assert!(is_number_literal(&inner, 1.0)),
        _ => panic!("expected a grouping"),
    }
}

#[test]
fn missing_closing_paren_is_a_parse_error() {
    match parse_src("(1 + 2") {
        Err(LoxError::Parser(errors)) => {
            assert_eq!(errors.len(), 1);
            assert_eq!(errors[0].msg, "Expect ')' after expression");
            assert_eq!(errors[0].token.token_type, TokenType::EOF);
        },
        _ => panic!("expected a parse error"),
    }
}

#[test]
fn empty_input_expects_an_expression() {
    match parse_src("") {
        Err(LoxError::Parser(errors)) => {
            assert_eq!(errors.len(), 1);
            assert_eq!(errors[0].msg, "Expect expression");
            assert_eq!(errors[0].token.token_type, TokenType::EOF);
        },
        _ => panic!("expected a parse error"),
    }
}

#[test]
fn stray_operator_expects_an_expression() {
    match parse_src("+") {
        Err(LoxError::Parser(errors)) => {
            assert_eq!(errors.len(), 1);
            assert_eq!(errors[0].msg, "Expect expression");
            assert_eq!(errors[0].token.token_type, TokenType::Plus);
            assert_eq!(errors[0].token.lexeme, b"+".to_vec());
        },
        _ => panic!("expected a parse error"),
    }
}

#[test]
fn tokens_after_one_expression_are_ignored() {
    let expr = parse_src("1 2").unwrap();
    assert!(is_number_literal(&expr, 1.0));
}

#[test]
fn pretty_print_uses_prefix_notation() {
    let expr = parse_src("\"a\" + \"b\"").unwrap();
    assert_eq!(expr.pretty_print(), b"(+ a b)".to_vec());

    let expr = parse_src("!true").unwrap();
    assert_eq!(expr.pretty_print(), b"(!true)".to_vec());

    let expr = parse_src("(nil)").unwrap();
    assert_eq!(expr.pretty_print(), b"(nil)".to_vec());
}

#[test]
fn pretty_printed_form_is_not_re_parsable() {
    // The prefix rendering is diagnostic only: feeding it back to the
    // parser does not reproduce the expression, by design.
    let expr = parse_src("\"a\" + \"b\"").unwrap();
    let printed = String::from_utf8(expr.pretty_print()).unwrap();
    assert_eq!(printed, "(+ a b)");
    assert!(parse_src(&printed).is_err());
}
