//! The expression tree, its evaluator, and its prefix-notation printer.

use vstd::prelude::*;
use crate::error::RuntimeError;
use crate::error::SpecRuntimeError;
use crate::numeric::dbl_add;
use crate::numeric::dbl_div;
use crate::numeric::dbl_eq;
use crate::numeric::dbl_ge;
use crate::numeric::dbl_gt;
use crate::numeric::dbl_le;
use crate::numeric::dbl_lt;
use crate::numeric::dbl_mul;
use crate::numeric::dbl_neg;
use crate::numeric::dbl_sub;
use crate::token::SpecToken;
use crate::token::Token;
use crate::token::TokenType;
use crate::value::SpecValue;
use crate::value::Value;
use crate::value::spec_display;

verus! {

/// An expression: a strict tree, each node owning its children and an
/// owned copy of its operator token, so the tree can outlive the token
/// sequence it was parsed from.
pub enum Expr {
    Literal(Value),
    Unary(Token, Box<Expr>),
    Binary(Box<Expr>, Token, Box<Expr>),
    Grouping(Box<Expr>),
}

/// The mathematical model of an expression tree.
pub enum SpecExpr {
    Literal(SpecValue),
    Unary(SpecToken, Box<SpecExpr>),
    Binary(Box<SpecExpr>, SpecToken, Box<SpecExpr>),
    Grouping(Box<SpecExpr>),
}

impl Expr {
    /// The model of this tree, node for node.
    pub open spec fn to_spec(self) -> SpecExpr
        decreases self,
    {
        match self {
            Expr::Literal(v) => SpecExpr::Literal(v@),
            Expr::Unary(t, e) => SpecExpr::Unary(t@, Box::new((*e).to_spec())),
            Expr::Binary(l, t, r) => SpecExpr::Binary(
                Box::new((*l).to_spec()),
                t@,
                Box::new((*r).to_spec()),
            ),
            Expr::Grouping(e) => SpecExpr::Grouping(Box::new((*e).to_spec())),
        }
    }
}

impl View for Expr {
    type V = SpecExpr;

    open spec fn view(&self) -> SpecExpr {
        self.to_spec()
    }
}

// ---------------------------------------------------------------------------
// Evaluation, as a mathematical function
// ---------------------------------------------------------------------------

/// Truthiness: nil is false, a boolean is itself, every other value —
/// every number (zero included) and every string — is true.
pub open spec fn spec_truthy(v: SpecValue) -> bool {
    match v {
        SpecValue::Nil => false,
        SpecValue::Boolean(b) => b,
        _ => true,
    }
}

/// Structural equality: nil equals nil, numbers compare by IEEE-754
/// equality, strings by byte content, booleans by value; values of
/// different kinds are never equal — there is no coercion across types.
pub open spec fn spec_equal(a: SpecValue, b: SpecValue) -> bool {
    match (a, b) {
        (SpecValue::Nil, SpecValue::Nil) => true,
        (SpecValue::Number(x), SpecValue::Number(y)) => dbl_eq(x, y),
        (SpecValue::String(x), SpecValue::String(y)) => x == y,
        (SpecValue::Boolean(x), SpecValue::Boolean(y)) => x == y,
        _ => false,
    }
}

/// What a unary operator produces on an evaluated operand: `-` negates a
/// number (and nothing else), `!` negates the truthiness of any value.
pub open spec fn spec_eval_unary(op: SpecToken, right: SpecValue) -> Result<
    SpecValue,
    SpecRuntimeError,
> {
    match (op.kind, right) {
        (TokenType::Minus, SpecValue::Number(n)) => Result::Ok(
            SpecValue::Number(dbl_neg(n)),
        ),
        (TokenType::Bang, v) => Result::Ok(SpecValue::Boolean(!spec_truthy(v))),
        _ => Result::Err(SpecRuntimeError { token: op, msg: "Invalid unary expression"@ }),
    }
}

/// What a binary operator produces on two evaluated operands: arithmetic
/// on two numbers (`+` also concatenates two strings), comparisons on two
/// numbers, and `==`/`!=` on any pair of values.
pub open spec fn spec_eval_binary(a: SpecValue, op: SpecToken, b: SpecValue) -> Result<
    SpecValue,
    SpecRuntimeError,
> {
    match (a, op.kind, b) {
        (SpecValue::Number(x), TokenType::Minus, SpecValue::Number(y)) => Result::Ok(
            SpecValue::Number(dbl_sub(x, y)),
        ),
        (SpecValue::Number(x), TokenType::Plus, SpecValue::Number(y)) => Result::Ok(
            SpecValue::Number(dbl_add(x, y)),
        ),
        (SpecValue::String(x), TokenType::Plus, SpecValue::String(y)) => Result::Ok(
            SpecValue::String(x + y),
        ),
        (SpecValue::Number(x), TokenType::Star, SpecValue::Number(y)) => Result::Ok(
            SpecValue::Number(dbl_mul(x, y)),
        ),
        (SpecValue::Number(x), TokenType::Slash, SpecValue::Number(y)) => Result::Ok(
            SpecValue::Number(dbl_div(x, y)),
        ),
        (SpecValue::Number(x), TokenType::Greater, SpecValue::Number(y)) => Result::Ok(
            SpecValue::Boolean(dbl_gt(x, y)),
        ),
        (SpecValue::Number(x), TokenType::GreaterEqual, SpecValue::Number(y)) => Result::Ok(
            SpecValue::Boolean(dbl_ge(x, y)),
        ),
        (SpecValue::Number(x), TokenType::Less, SpecValue::Number(y)) => Result::Ok(
            SpecValue::Boolean(dbl_lt(x, y)),
        ),
        (SpecValue::Number(x), TokenType::LessEqual, SpecValue::Number(y)) => Result::Ok(
            SpecValue::Boolean(dbl_le(x, y)),
        ),
        (_, TokenType::BangEqual, _) => Result::Ok(SpecValue::Boolean(!spec_equal(a, b))),
        (_, TokenType::EqualEqual, _) => Result::Ok(SpecValue::Boolean(spec_equal(a, b))),
        (_, TokenType::Plus, _) => Result::Err(
            SpecRuntimeError {
                token: op,
                msg: "Invalid binary expression: Operands must be two numbers or two strings"@,
            },
        ),
        (_, TokenType::Minus, _) | (_, TokenType::Star, _) | (_, TokenType::Slash, _)
        | (_, TokenType::Greater, _) | (_, TokenType::GreaterEqual, _)
        | (_, TokenType::Less, _) | (_, TokenType::LessEqual, _) => Result::Err(
            SpecRuntimeError {
                token: op,
                msg: "Invalid binary expression: Operands must be two numbers"@,
            },
        ),
        _ => Result::Err(
            SpecRuntimeError { token: op, msg: "Invalid binary expression: reason unknown"@ },
        ),
    }
}

/// Evaluation: a pure recursive walk, left operand before right, stopping
/// at the first runtime type violation.
pub open spec fn spec_eval(e: SpecExpr) -> Result<SpecValue, SpecRuntimeError>
    decreases e,
{
    match e {
        SpecExpr::Literal(v) => Result::Ok(v),
        SpecExpr::Unary(op, operand) => match spec_eval(*operand) {
            Result::Ok(right) => spec_eval_unary(op, right),
            Result::Err(er) => Result::Err(er),
        },
        SpecExpr::Binary(l, op, r) => match spec_eval(*l) {
            Result::Ok(a) => match spec_eval(*r) {
                Result::Ok(b) => spec_eval_binary(a, op, b),
                Result::Err(er) => Result::Err(er),
            },
            Result::Err(er) => Result::Err(er),
        },
        SpecExpr::Grouping(inner) => spec_eval(*inner),
    }
}

// ---------------------------------------------------------------------------
// Pretty-printing, as a mathematical function
// ---------------------------------------------------------------------------

/// The prefix-notation rendering of a tree: operators before operands,
/// parentheses around every compound node.
pub open spec fn spec_pretty(e: SpecExpr) -> Seq<u8>
    decreases e,
{
    match e {
        SpecExpr::Literal(v) => spec_display(v),
        SpecExpr::Unary(t, inner) => seq!['(' as u8] + t.lexeme + spec_pretty(*inner) + seq![
            ')' as u8,
        ],
        SpecExpr::Binary(l, t, r) => seq!['(' as u8] + t.lexeme + seq![' ' as u8] + spec_pretty(
            *l,
        ) + seq![' ' as u8] + spec_pretty(*r) + seq![')' as u8],
        SpecExpr::Grouping(inner) => seq!['(' as u8] + spec_pretty(*inner) + seq![')' as u8],
    }
}

// ---------------------------------------------------------------------------
// The executable walkers
// ---------------------------------------------------------------------------

impl Expr {
    /// Prints the tree in prefix notation, for diagnostics.
    ///
    /// The prefix form is a diagnostic rendering only: re-parsing the
    /// printed text is not meant to reproduce the expression, and in
    /// general does not.
    pub fn pretty_print(&self) -> (r: Vec<u8>)
        ensures
            r@ == spec_pretty(self@),
        decreases *self,
    {
        match self {
            Expr::Literal(val) => val.display_bytes(),
            Expr::Unary(token, expr) => {
                let mut out: Vec<u8> = Vec::new();
                out.push('(' as u8);
                crate::bytes::append_bytes(&mut out, &token.lexeme);
                let inner = (**expr).pretty_print();
                crate::bytes::append_bytes(&mut out, &inner);
                out.push(')' as u8);
                proof {
                    assert(out@ =~= spec_pretty(self@));
                }
                out
            },
            Expr::Binary(l_expr, token, r_expr) => {
                let mut out: Vec<u8> = Vec::new();
                out.push('(' as u8);
                crate::bytes::append_bytes(&mut out, &token.lexeme);
                out.push(' ' as u8);
                let left = (**l_expr).pretty_print();
                crate::bytes::append_bytes(&mut out, &left);
                out.push(' ' as u8);
                let right = (**r_expr).pretty_print();
                crate::bytes::append_bytes(&mut out, &right);
                out.push(')' as u8);
                proof {
                    assert(out@ =~= spec_pretty(self@));
                }
                out
            },
            Expr::Grouping(expr) => {
                let mut out: Vec<u8> = Vec::new();
                out.push('(' as u8);
                let inner = (**expr).pretty_print();
                crate::bytes::append_bytes(&mut out, &inner);
                out.push(')' as u8);
                proof {
                    assert(out@ =~= spec_pretty(self@));
                }
                out
            },
        }
    }

    /// Evaluates the tree to a value, or to the first runtime type
    /// violation, exactly as the model prescribes.
    pub fn interpret(self) -> (r: Result<Value, RuntimeError>)
        ensures
            ({
                let expect = spec_eval(self@);
                match r {
                    Result::Ok(v) => expect matches Result::Ok(sv) && v@ == sv,
                    Result::Err(e) => expect matches Result::Err(se) && e@ == se,
                }
            }),
        decreases self,
    {
        match self {
            Expr::Literal(val) => Result::Ok(val),
            Expr::Unary(token, expr) => {
                let right = match (*expr).interpret() {
                    Result::Ok(v) => v,
                    Result::Err(e) => {
                        return Result::Err(e);
                    },
                };
                if token.token_type == TokenType::Minus {
                    match right {
                        Value::Number(n) => Result::Ok(Value::Number(crate::numeric::num_neg(n))),
                        _ => Result::Err(
                            RuntimeError { token, msg: "Invalid unary expression" },
                        ),
                    }
                } else if token.token_type == TokenType::Bang {
                    Result::Ok(Value::Boolean(!Expr::is_truthy(&right)))
                } else {
                    Result::Err(RuntimeError { token, msg: "Invalid unary expression" })
                }
            },
            Expr::Binary(l_expr, token, r_expr) => {
                let left = match (*l_expr).interpret() {
                    Result::Ok(v) => v,
                    Result::Err(e) => {
                        return Result::Err(e);
                    },
                };
                let right = match (*r_expr).interpret() {
                    Result::Ok(v) => v,
                    Result::Err(e) => {
                        return Result::Err(e);
                    },
                };
                match (&left, token.token_type, &right) {
                    // arithmetic operators
                    (Value::Number(a), TokenType::Minus, Value::Number(b)) => Result::Ok(
                        Value::Number(crate::numeric::num_sub(*a, *b)),
                    ),
                    (Value::Number(a), TokenType::Plus, Value::Number(b)) => Result::Ok(
                        Value::Number(crate::numeric::num_add(*a, *b)),
                    ),
                    (Value::String(s1), TokenType::Plus, Value::String(s2)) => Result::Ok(
                        Value::String(crate::bytes::concat_bytes(s1, s2)),
                    ),
                    (Value::Number(a), TokenType::Star, Value::Number(b)) => Result::Ok(
                        Value::Number(crate::numeric::num_mul(*a, *b)),
                    ),
                    (Value::Number(a), TokenType::Slash, Value::Number(b)) => Result::Ok(
                        Value::Number(crate::numeric::num_div(*a, *b)),
                    ),
                    // comparison operators
                    (Value::Number(a), TokenType::Greater, Value::Number(b)) => Result::Ok(
                        Value::Boolean(crate::numeric::num_gt(*a, *b)),
                    ),
                    (Value::Number(a), TokenType::GreaterEqual, Value::Number(b)) => Result::Ok(
                        Value::Boolean(crate::numeric::num_ge(*a, *b)),
                    ),
                    (Value::Number(a), TokenType::Less, Value::Number(b)) => Result::Ok(
                        Value::Boolean(crate::numeric::num_lt(*a, *b)),
                    ),
                    (Value::Number(a), TokenType::LessEqual, Value::Number(b)) => Result::Ok(
                        Value::Boolean(crate::numeric::num_le(*a, *b)),
                    ),
                    (_, TokenType::BangEqual, _) => Result::Ok(
                        Value::Boolean(!Expr::is_equal(&left, &right)),
                    ),
                    (_, TokenType::EqualEqual, _) => Result::Ok(
                        Value::Boolean(Expr::is_equal(&left, &right)),
                    ),
                    // error cases
                    (_, TokenType::Plus, _) => Result::Err(
                        RuntimeError {
                            token,
                            msg: "Invalid binary expression: Operands must be two numbers or two strings",
                        },
                    ),
                    (_, TokenType::Minus, _) | (_, TokenType::Star, _) | (_, TokenType::Slash, _)
                    | (_, TokenType::Greater, _) | (_, TokenType::GreaterEqual, _)
                    | (_, TokenType::Less, _) | (_, TokenType::LessEqual, _) => Result::Err(
                        RuntimeError {
                            token,
                            msg: "Invalid binary expression: Operands must be two numbers",
                        },
                    ),
                    _ => Result::Err(
                        RuntimeError { token, msg: "Invalid binary expression: reason unknown" },
                    ),
                }
            },
            Expr::Grouping(expr) => (*expr).interpret(),
        }
    }

    fn is_truthy(val: &Value) -> (r: bool)
        ensures
            r == spec_truthy(val@),
    {
        match val {
            Value::Nil => false,
            Value::Boolean(val) => *val,
            _ => true,
        }
    }

    fn is_equal(val1: &Value, val2: &Value) -> (r: bool)
        ensures
            r == spec_equal(val1@, val2@),
    {
        match (val1, val2) {
            (Value::Nil, Value::Nil) => true,
            (Value::Number(n1), Value::Number(n2)) => crate::numeric::num_eq(*n1, *n2),
            (Value::String(s1), Value::String(s2)) => crate::bytes::bytes_eq(s1, s2),
            (Value::Boolean(b1), Value::Boolean(b2)) => *b1 == *b2,
            _ => false,
        }
    }
}

} // verus!
