//! The evaluator's entry point, wrapping its error into the umbrella kind,
//! and the whole pipeline run as one verified function.

use vstd::prelude::*;
use crate::error::LoxError;
use crate::error::SpecParseError;
use crate::expr::Expr;
use crate::expr::spec_eval;
use crate::parser::Parser;
use crate::parser::SpecParse;
use crate::parser::p_expression;
use crate::scanner::Scanner;
use crate::scanner::err_views;
use crate::scanner::lemma_scan_output_wf;
use crate::scanner::scan_output;
use crate::value::Value;

verus! {

pub struct Interpreter {}

impl Interpreter {
    /// Evaluates one expression tree to a value, or to its single runtime
    /// error.
    pub fn interpret(expr: Expr) -> (r: Result<Value, LoxError>)
        ensures
            ({
                let expect = spec_eval(expr@);
                match r {
                    Result::Ok(v) => expect matches Result::Ok(sv) && v@ == sv,
                    Result::Err(le) => {
                        &&& expect matches Result::Err(se)
                        &&& le matches LoxError::Runtime(re) && re@ == se
                    },
                }
            }),
    {
        match expr.interpret() {
            Result::Ok(v) => Result::Ok(v),
            Result::Err(e) => Result::Err(LoxError::from(e)),
        }
    }
}

/// Runs the whole pipeline on one source text: scan, parse, evaluate.
/// The result is the evaluated value, or the errors of the first stage
/// that failed — each stage either fully succeeds or fully fails, and no
/// partial result ever reaches the next stage.
pub fn run_source(source: Vec<u8>) -> (r: Result<Value, LoxError>)
    requires
        source@.len() < usize::MAX,
    ensures
        ({
            let out = scan_output(source@);
            match r {
                Result::Ok(v) => {
                    &&& out.errors.len() == 0
                    &&& p_expression(out.tokens, 0) matches SpecParse::Parsed { expr, .. }
                        && spec_eval(expr) matches Result::Ok(sv) && v@ == sv
                },
                Result::Err(le) => match le {
                    LoxError::Lexer(es) => out.errors.len() > 0 && err_views(es@) == out.errors,
                    LoxError::Parser(es) => {
                        &&& out.errors.len() == 0
                        &&& p_expression(out.tokens, 0) matches SpecParse::Failed { token, msg }
                            && es@.len() == 1 && es@[0]@ == (SpecParseError { token, msg })
                    },
                    LoxError::Runtime(re) => {
                        &&& out.errors.len() == 0
                        &&& p_expression(out.tokens, 0) matches SpecParse::Parsed { expr, .. }
                            && spec_eval(expr) matches Result::Err(se) && re@ == se
                    },
                },
            }
        }),
{
    let tokens = match Scanner::new(source).scan_tokens() {
        Result::Ok(ts) => ts,
        Result::Err(e) => {
            return Result::Err(e);
        },
    };
    proof {
        lemma_scan_output_wf(source@);
    }
    let expr = match Parser::new(tokens).parse() {
        Result::Ok(e) => e,
        Result::Err(e) => {
            return Result::Err(e);
        },
    };
    Interpreter::interpret(expr)
}

} // verus!
