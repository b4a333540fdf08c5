use rlox_twi::error::LoxError;
use rlox_twi::interpreter::Interpreter;
use rlox_twi::run_source;
use rlox_twi::parser::Parser;
use rlox_twi::scanner::Scanner;
use rlox_twi::value::Value;

fn eval_src(src: &str) -> Result<Value, LoxError> {
    let tokens = Scanner::new(src.as_bytes().to_vec()).scan_tokens()?;
    let expr = Parser::new(tokens).parse()?;
    Interpreter::interpret(expr)
}

fn number(x: f64) -> Value {
    Value::Number(x.to_bits())
}

#[test]
fn precedence_evaluates_product_first() {
    assert_eq!(eval_src("1 + 2 * 3").unwrap(), number(7.0));
}

#[test]
fn grouping_overrides_precedence() {
    assert_eq!(eval_src("(1 + 2) * 3").unwrap(), number(9.0));
}

#[test]
fn arithmetic_on_numbers() {
    assert_eq!(eval_src("5 - 3").unwrap(), number(2.0));
    assert_eq!(eval_src("2 * 3").unwrap(), number(6.0));
    assert_eq!(eval_src("7 / 2").unwrap(), number(3.5));
    assert_eq!(eval_src("-2").unwrap(), number(-2.0));
    assert_eq!(eval_src("0.1 + 0.2").unwrap(), number(0.1f64 + 0.2f64));
}

#[test]
fn division_by_zero_gives_infinity() {
    assert_eq!(eval_src("1 / 0").unwrap(), number(f64::INFINITY));
    assert_eq!(eval_src("-1 / 0").unwrap(), number(f64::NEG_INFINITY));
}

#[test]
fn plus_concatenates_two_strings() {
    assert_eq!(eval_src("\"a\" + \"b\"").unwrap(), Value::String(b"ab".to_vec()));
}

#[test]
fn plus_on_string_and_number_is_a_runtime_error() {
    match eval_src("\"a\" + 1") {
        Err(LoxError::Runtime(e)) => {
            assert_eq!(e.msg, "Invalid binary expression: Operands must be two numbers or two strings");
        },
        _ => panic!("expected a runtime error"),
    }
}

#[test]
fn arithmetic_on_non_numbers_is_a_runtime_error() {
    match eval_src("1 - \"x\"") {
        Err(LoxError::Runtime(e)) => {
            assert_eq!(e.msg, "Invalid binary expression: Operands must be two numbers");
        },
        _ => panic!("expected a runtime error"),
    }
    match eval_src("nil < 1") {
        Err(LoxError::Runtime(e)) => {
            assert_eq!(e.msg, "Invalid binary expression: Operands must be two numbers");
        },
        _ => panic!("expected a runtime error"),
    }
}

#[test]
fn unary_minus_requires_a_number() {
    match eval_src("-true") {
        Err(LoxError::Runtime(e)) => {
            assert_eq!(e.msg, "Invalid unary expression");
            assert_eq!(e.token.line, 1);
        },
        _ => panic!("expected a runtime error"),
    }
}

#[test]
fn comparisons_on_numbers() {
    assert_eq!(eval_src("1 < 2").unwrap(), Value::Boolean(true));
    assert_eq!(eval_src("2 <= 1").unwrap(), Value::Boolean(false));
    assert_eq!(eval_src("2 > 1").unwrap(), Value::Boolean(true));
    assert_eq!(eval_src("1 >= 2").unwrap(), Value::Boolean(false));
    assert_eq!(eval_src("2 >= 2").unwrap(), Value::Boolean(true));
}

#[test]
fn equality_across_number_texts_without_coercion() {
    assert_eq!(eval_src("1 == 1.0").unwrap(), Value::Boolean(true));
    assert_eq!(eval_src("1 == \"1\"").unwrap(), Value::Boolean(false));
    assert_eq!(eval_src("1 != 2").unwrap(), Value::Boolean(true));
}

#[test]
fn ieee_equality_not_bit_equality() {
    // The two zeros are equal, and a NaN equals nothing, itself included.
    assert_eq!(eval_src("0 == -0").unwrap(), Value::Boolean(true));
    assert_eq!(eval_src("0 / 0 == 0 / 0").unwrap(), Value::Boolean(false));
}

#[test]
fn structural_equality_on_other_kinds() {
    assert_eq!(eval_src("nil == nil").unwrap(), Value::Boolean(true));
    assert_eq!(eval_src("\"a\" == \"a\"").unwrap(), Value::Boolean(true));
    assert_eq!(eval_src("\"a\" == \"b\"").unwrap(), Value::Boolean(false));
    assert_eq!(eval_src("true == true").unwrap(), Value::Boolean(true));
    assert_eq!(eval_src("true == nil").unwrap(), Value::Boolean(false));
}

#[test]
fn only_nil_and_false_are_falsy() {
    assert_eq!(eval_src("!nil").unwrap(), Value::Boolean(true));
    assert_eq!(eval_src("!0").unwrap(), Value::Boolean(false));
    assert_eq!(eval_src("!\"\"").unwrap(), Value::Boolean(false));
    assert_eq!(eval_src("!false").unwrap(), Value::Boolean(true));
    assert_eq!(eval_src("!!true").unwrap(), Value::Boolean(true));
}

#[test]
fn left_operand_error_wins() {
    match eval_src("(-true) + (-nil)") {
        Err(LoxError::Runtime(e)) => assert_eq!(e.msg, "Invalid unary expression"),
        _ => panic!("expected a runtime error"),
    }
}

#[test]
fn double_negation_returns_the_number() {
    assert_eq!(eval_src("--2").unwrap(), number(2.0));
}

#[test]
fn run_source_drives_the_whole_pipeline() {
    assert_eq!(run_source(b"1 + 2 * 3".to_vec()).unwrap(), number(7.0));
    assert!(matches!(run_source(b"\"oops".to_vec()), Err(LoxError::Lexer(_))));
    assert!(matches!(run_source(b"(1".to_vec()), Err(LoxError::Parser(_))));
    assert!(matches!(run_source(b"-nil".to_vec()), Err(LoxError::Runtime(_))));
}
