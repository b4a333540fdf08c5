use rlox_twi::error::LexError;
use rlox_twi::error::LoxError;
use rlox_twi::error::usize_to_decimal;
use rlox_twi::interpreter::Interpreter;
use rlox_twi::parser::Parser;
use rlox_twi::scanner::Scanner;
use rlox_twi::token::Literal;
use rlox_twi::token::Token;
use rlox_twi::token::TokenType;
use rlox_twi::value::Value;

fn scan(src: &str) -> Result<Vec<Token>, LoxError> {
    Scanner::new(src.as_bytes().to_vec()).scan_tokens()
}

#[test]
fn decimal_text_of_integers() {
    assert_eq!(usize_to_decimal(0), b"0".to_vec());
    assert_eq!(usize_to_decimal(7), b"7".to_vec());
    assert_eq!(usize_to_decimal(10), b"10".to_vec());
    assert_eq!(usize_to_decimal(120), b"120".to_vec());
    assert_eq!(usize_to_decimal(90210), b"90210".to_vec());
}

#[test]
fn lex_error_renders_line_and_cause() {
    match scan("\n\n@") {
        Err(LoxError::Lexer(errors)) => {
            assert_eq!(errors[0].render(), b"Line: 3, Cause: Unexpected character".to_vec());
        },
        _ => panic!("expected a lexical error"),
    }
}

#[test]
fn lex_error_renders_multi_digit_lines() {
    let e = LexError { line: 120, msg: "Unexpected character" };
    assert_eq!(e.render(), b"Line: 120, Cause: Unexpected character".to_vec());
}

#[test]
fn parse_error_renders_eof_token_as_eof() {
    let tokens = scan("(1 + 2").unwrap();
    match Parser::new(tokens).parse() {
        Err(LoxError::Parser(errors)) => {
            assert_eq!(
                errors[0].render(),
                b"Line: 1, Token: eof, Cause: Expect ')' after expression".to_vec()
            );
        },
        _ => panic!("expected a parse error"),
    }
}

#[test]
fn parse_error_renders_offending_lexeme() {
    let tokens = scan("*").unwrap();
    match Parser::new(tokens).parse() {
        Err(LoxError::Parser(errors)) => {
            assert_eq!(errors[0].render(), b"Line: 1, Token: *, Cause: Expect expression".to_vec());
        },
        _ => panic!("expected a parse error"),
    }
}

#[test]
fn runtime_error_renders_message_then_line() {
    let tokens = scan("\n-nil").unwrap();
    let expr = Parser::new(tokens).parse().unwrap();
    match Interpreter::interpret(expr) {
        Err(LoxError::Runtime(e)) => {
            assert_eq!(e.render(), b"Invalid unary expression\n[line 2]".to_vec());
        },
        _ => panic!("expected a runtime error"),
    }
}

#[test]
fn lox_error_report_names_the_failed_stage() {
    match scan("@") {
        Err(e) => {
            assert_eq!(
                e.render(),
                b"Lexical Errors:\nLine: 1, Cause: Unexpected character\n".to_vec()
            );
        },
        _ => panic!("expected a lexical error"),
    }
    let tokens = scan("(").unwrap();
    match Parser::new(tokens).parse() {
        Err(e) => {
            assert_eq!(
                e.render(),
                b"Parse Errors:\nLine: 1, Token: eof, Cause: Expect expression\n".to_vec()
            );
        },
        _ => panic!("expected a parse error"),
    }
    let tokens = scan("-nil").unwrap();
    let expr = Parser::new(tokens).parse().unwrap();
    match Interpreter::interpret(expr) {
        Err(e) => {
            assert_eq!(
                e.render(),
                b"Runtime Error: Invalid unary expression\n[line 1]".to_vec()
            );
        },
        _ => panic!("expected a runtime error"),
    }
}

#[test]
fn display_form_of_values() {
    assert_eq!(Value::Boolean(true).display_bytes(), b"true".to_vec());
    assert_eq!(Value::Boolean(false).display_bytes(), b"false".to_vec());
    assert_eq!(Value::Nil.display_bytes(), b"nil".to_vec());
    assert_eq!(Value::String(b"hi".to_vec()).display_bytes(), b"hi".to_vec());
}

#[test]
fn display_form_of_numbers_is_decimal_text() {
    assert_eq!(Value::Number((7.0f64).to_bits()).display_bytes(), b"7".to_vec());
    assert_eq!(Value::Number((3.5f64).to_bits()).display_bytes(), b"3.5".to_vec());
}

#[test]
fn of_literal_copies_the_payload() {
    let v = Value::of_literal(&Literal::String(b"xy".to_vec()));
    assert_eq!(v, Value::String(b"xy".to_vec()));
    let n = Value::of_literal(&Literal::Number((2.0f64).to_bits()));
    assert_eq!(n, Value::Number((2.0f64).to_bits()));
}

#[test]
fn token_new_keeps_its_fields() {
    let t = Token::new(TokenType::Plus, b"+".to_vec(), None, 4);
    assert_eq!(t.token_type, TokenType::Plus);
    assert_eq!(t.lexeme, b"+".to_vec());
    assert!(t.literal.is_none());
    assert_eq!(t.line, 4);
    let c = t.deep_clone();
    assert_eq!(c.token_type, TokenType::Plus);
    assert_eq!(c.lexeme, b"+".to_vec());
    assert_eq!(c.line, 4);
}

#[test]
fn literal_deep_clone_duplicates_the_payload() {
    let l = Literal::String(b"s".to_vec());
    match l.deep_clone() {
        Literal::String(s) => assert_eq!(s, b"s".to_vec()),
        _ => panic!("expected a string literal"),
    }
    match Literal::Number((1.5f64).to_bits()).deep_clone() {
        Literal::Number(n) => assert_eq!(n, (1.5f64).to_bits()),
        _ => panic!("expected a number literal"),
    }
}
