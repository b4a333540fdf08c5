//! The parser: recursive-descent precedence climbing over the token
//! sequence, producing one expression tree or one parse error.
//!
//! The first half of this file is the mathematical model: a functional
//! parser over token models, one function per precedence level. The second
//! half is the executable parser, verified against that model.
//!
//! Grammar, highest to lowest binding; every binary level is
//! left-associative:
//!
//! ```text
//! expression -> equality
//! equality   -> comparison ( ( "!=" | "==" ) comparison )*
//! comparison -> term ( ( ">" | ">=" | "<" | "<=" ) term )*
//! term       -> factor ( ( "-" | "+" ) factor )*
//! factor     -> unary ( ( "/" | "*" ) unary )*
//! unary      -> ( "!" | "-" ) unary | primary
//! primary    -> NUMBER | STRING | "true" | "false" | "nil" | "(" expression ")"
//! ```

use vstd::prelude::*;
use crate::error::LoxError;
use crate::error::ParseError;
use crate::error::SpecParseError;
use crate::expr::Expr;
use crate::expr::SpecExpr;
use crate::scanner::tok_views;
use crate::token::SpecToken;
use crate::token::Token;
use crate::token::TokenType;
use crate::token::wf_token;
use crate::token::wf_tokens;
use crate::value::SpecValue;
use crate::value::Value;
use crate::value::spec_value_of_literal;

verus! {

/// What a parse attempt produces: a tree and the position after it, or
/// the offending token with a diagnostic.
pub enum SpecParse {
    Parsed { expr: SpecExpr, next: int },
    Failed { token: SpecToken, msg: Seq<char> },
}

/// The binary operator set of each precedence level: 4 is equality, 3 is
/// comparison, 2 is term, 1 is factor.
pub open spec fn level_ops(level: int, k: TokenType) -> bool {
    if level == 4 {
        k == TokenType::BangEqual || k == TokenType::EqualEqual
    } else if level == 3 {
        k == TokenType::Greater || k == TokenType::GreaterEqual || k == TokenType::Less || k
            == TokenType::LessEqual
    } else if level == 2 {
        k == TokenType::Minus || k == TokenType::Plus
    } else if level == 1 {
        k == TokenType::Slash || k == TokenType::Star
    } else {
        false
    }
}

/// How many tokens remain at `pos`: the well-founded measure the
/// recursive descent runs down.
pub open spec fn fuel_left(t: Seq<SpecToken>, pos: int) -> int {
    if pos < t.len() {
        t.len() - pos
    } else {
        0
    }
}

/// The precedence level clamped into the grammar's range, for the
/// termination ranks below.
pub open spec fn level_rank(level: int) -> int {
    if level < 1 {
        1
    } else {
        level
    }
}

/// `n`, but never below `lo`: keeps the recursion over parse positions
/// visibly well founded. On well-formed results the bound never binds
/// (every successful parse consumes at least one token).
pub open spec fn at_least(n: int, lo: int) -> int {
    if n < lo {
        lo
    } else {
        n
    }
}

/// A stand-in token for positions outside the sequence; a well-formed
/// token sequence never lets the parser reach one.
pub open spec fn no_token() -> SpecToken {
    SpecToken { kind: TokenType::EOF, lexeme: Seq::empty(), literal: Option::None, line: 0 }
}

/// The token at `i`, or the stand-in outside the sequence.
pub open spec fn tok_at(t: Seq<SpecToken>, i: int) -> SpecToken {
    if 0 <= i < t.len() {
        t[i]
    } else {
        no_token()
    }
}

/// `primary`: exactly one token — a literal, a keyword literal, or a
/// parenthesized expression with its mandatory closing parenthesis.
pub open spec fn p_primary(t: Seq<SpecToken>, pos: int) -> SpecParse
    decreases fuel_left(t, pos), 0int,
{
    if pos < 0 || pos >= t.len() {
        SpecParse::Failed { token: no_token(), msg: "Expect expression"@ }
    } else {
        let tk = t[pos];
        if tk.kind == TokenType::False {
            SpecParse::Parsed { expr: SpecExpr::Literal(SpecValue::Boolean(false)), next: pos + 1 }
        } else if tk.kind == TokenType::True {
            SpecParse::Parsed { expr: SpecExpr::Literal(SpecValue::Boolean(true)), next: pos + 1 }
        } else if tk.kind == TokenType::Nil {
            SpecParse::Parsed { expr: SpecExpr::Literal(SpecValue::Nil), next: pos + 1 }
        } else if tk.kind == TokenType::Number || tk.kind == TokenType::String {
            match tk.literal {
                Option::Some(l) => SpecParse::Parsed {
                    expr: SpecExpr::Literal(spec_value_of_literal(l)),
                    next: pos + 1,
                },
                Option::None => SpecParse::Failed { token: tk, msg: "Expect expression"@ },
            }
        } else if tk.kind == TokenType::LeftParen {
            match p_expression(t, pos + 1) {
                SpecParse::Parsed { expr, next } => {
                    if tok_at(t, next).kind == TokenType::RightParen {
                        SpecParse::Parsed { expr: SpecExpr::Grouping(Box::new(expr)), next: next + 1 }
                    } else {
                        SpecParse::Failed {
                            token: tok_at(t, next),
                            msg: "Expect ')' after expression"@,
                        }
                    }
                },
                SpecParse::Failed { token, msg } => SpecParse::Failed { token, msg },
            }
        } else {
            SpecParse::Failed { token: tk, msg: "Expect expression"@ }
        }
    }
}

/// `unary`: a prefix `!` or `-` wraps a full recursive unary parse.
pub open spec fn p_unary(t: Seq<SpecToken>, pos: int) -> SpecParse
    decreases fuel_left(t, pos), 1int,
{
    if 0 <= pos < t.len() && (t[pos].kind == TokenType::Bang || t[pos].kind == TokenType::Minus) {
        match p_unary(t, pos + 1) {
            SpecParse::Parsed { expr, next } => SpecParse::Parsed {
                expr: SpecExpr::Unary(t[pos], Box::new(expr)),
                next,
            },
            SpecParse::Failed { token, msg } => SpecParse::Failed { token, msg },
        }
    } else {
        p_primary(t, pos)
    }
}

/// One operand of a binary level: the next level down, or `unary` at the
/// bottom.
pub open spec fn p_operand(t: Seq<SpecToken>, pos: int, level: int) -> SpecParse
    decreases fuel_left(t, pos), 2 * level_rank(level) + 1,
{
    if level <= 1 {
        p_unary(t, pos)
    } else {
        p_level(t, pos, level - 1)
    }
}

/// The left-associative fold of one binary level: while the current token
/// is one of the level's operators, consume it, parse one more operand,
/// and fold it into a left-leaning `Binary` chain.
pub open spec fn p_level_rest(t: Seq<SpecToken>, pos: int, level: int, acc: SpecExpr) -> SpecParse
    decreases fuel_left(t, pos), 0int,
{
    if 0 <= pos < t.len() && level_ops(level, t[pos].kind) {
        match p_operand(t, pos + 1, level) {
            SpecParse::Parsed { expr, next } => p_level_rest(
                t,
                at_least(next, pos + 2),
                level,
                SpecExpr::Binary(Box::new(acc), t[pos], Box::new(expr)),
            ),
            SpecParse::Failed { token, msg } => SpecParse::Failed { token, msg },
        }
    } else {
        SpecParse::Parsed { expr: acc, next: pos }
    }
}

/// One whole binary level: one operand, then the level's fold.
pub open spec fn p_level(t: Seq<SpecToken>, pos: int, level: int) -> SpecParse
    decreases fuel_left(t, pos), 2 * level_rank(level) + 2,
{
    match p_operand(t, pos, level) {
        SpecParse::Parsed { expr, next } => p_level_rest(t, at_least(next, pos + 1), level, expr),
        SpecParse::Failed { token, msg } => SpecParse::Failed { token, msg },
    }
}

/// `expression`: the lowest-precedence level, equality.
pub open spec fn p_expression(t: Seq<SpecToken>, pos: int) -> SpecParse
    decreases fuel_left(t, pos), 11int,
{
    p_level(t, pos, 4)
}

// ---------------------------------------------------------------------------
// Facts about the model
// ---------------------------------------------------------------------------

/// A successful `primary` parse consumes at least one token and stops
/// inside the sequence.
pub proof fn lemma_primary_bounds(t: Seq<SpecToken>, pos: int)
    ensures
        p_primary(t, pos) matches SpecParse::Parsed { next, .. } ==> pos < next <= t.len(),
    decreases fuel_left(t, pos), 0int,
{
    if 0 <= pos < t.len() && t[pos].kind == TokenType::LeftParen {
        lemma_expression_bounds(t, pos + 1);
    }
}

/// A successful `unary` parse consumes at least one token.
pub proof fn lemma_unary_bounds(t: Seq<SpecToken>, pos: int)
    ensures
        p_unary(t, pos) matches SpecParse::Parsed { next, .. } ==> pos < next <= t.len(),
    decreases fuel_left(t, pos), 1int,
{
    if 0 <= pos < t.len() && (t[pos].kind == TokenType::Bang || t[pos].kind == TokenType::Minus) {
        lemma_unary_bounds(t, pos + 1);
    } else {
        lemma_primary_bounds(t, pos);
    }
}

/// A successful operand parse consumes at least one token.
pub proof fn lemma_operand_bounds(t: Seq<SpecToken>, pos: int, level: int)
    ensures
        p_operand(t, pos, level) matches SpecParse::Parsed { next, .. } ==> pos < next <= t.len(),
    decreases fuel_left(t, pos), 2 * level_rank(level) + 1,
{
    if level <= 1 {
        lemma_unary_bounds(t, pos);
    } else {
        lemma_level_bounds(t, pos, level - 1);
    }
}

/// A successful level fold never moves backwards, and stops inside the
/// sequence when it started inside it.
pub proof fn lemma_level_rest_bounds(t: Seq<SpecToken>, pos: int, level: int, acc: SpecExpr)
    requires
        pos <= t.len(),
    ensures
        p_level_rest(t, pos, level, acc) matches SpecParse::Parsed { next, .. } ==> pos <= next
            <= t.len(),
    decreases fuel_left(t, pos), 0int,
{
    if 0 <= pos < t.len() && level_ops(level, t[pos].kind) {
        match p_operand(t, pos + 1, level) {
            SpecParse::Parsed { expr, next } => {
                lemma_operand_bounds(t, pos + 1, level);
                lemma_level_rest_bounds(
                    t,
                    at_least(next, pos + 2),
                    level,
                    SpecExpr::Binary(Box::new(acc), t[pos], Box::new(expr)),
                );
            },
            SpecParse::Failed { .. } => {},
        }
    }
}

/// A successful level parse consumes at least one token.
pub proof fn lemma_level_bounds(t: Seq<SpecToken>, pos: int, level: int)
    ensures
        p_level(t, pos, level) matches SpecParse::Parsed { next, .. } ==> pos < next <= t.len(),
    decreases fuel_left(t, pos), 2 * level_rank(level) + 2,
{
    lemma_operand_bounds(t, pos, level);
    match p_operand(t, pos, level) {
        SpecParse::Parsed { expr, next } => {
            if pos < t.len() {
                lemma_level_rest_bounds(t, at_least(next, pos + 1), level, expr);
            }
        },
        SpecParse::Failed { .. } => {},
    }
}

/// A successful expression parse consumes at least one token.
pub proof fn lemma_expression_bounds(t: Seq<SpecToken>, pos: int)
    ensures
        p_expression(t, pos) matches SpecParse::Parsed { next, .. } ==> pos < next <= t.len(),
    decreases fuel_left(t, pos), 11int,
{
    lemma_level_bounds(t, pos, 4);
}

// ---------------------------------------------------------------------------
// The executable parser
// ---------------------------------------------------------------------------

/// How a parse attempt's outcome corresponds to the model's: a tree with
/// the cursor after it, or the modelled error.
pub open spec fn parse_matches(res: SpecParse, r: Result<Expr, ParseError>, endpos: int) -> bool {
    match r {
        Result::Ok(e) => res matches SpecParse::Parsed { expr, next } && e@ == expr && endpos
            == next,
        Result::Err(pe) => res matches SpecParse::Failed { token, msg } && pe@.token == token
            && pe@.msg == msg,
    }
}

/// The parser's working state: the token sequence it owns, one monotonic
/// cursor over it, and the errors of the attempt.
pub struct Parser {
    tokens: Vec<Token>,
    curr: usize,
    errors: Vec<ParseError>,
}

impl Parser {
    /// The models of the tokens this parser reads.
    pub closed spec fn toks(self) -> Seq<SpecToken> {
        tok_views(self.tokens@)
    }

    /// A parser as `new` hands it out: at the first token, no errors.
    pub closed spec fn fresh(self) -> bool {
        &&& self.curr == 0
        &&& self.errors@.len() == 0
    }

    /// The working invariant: the tokens are well formed — the scanner's
    /// output always is — and the cursor rests on a token; `advance`
    /// never steps past the terminating `EOF`.
    spec fn inv(self) -> bool {
        &&& wf_tokens(tok_views(self.tokens@))
        &&& (self.curr as int) < self.tokens@.len()
    }

    pub fn new(tokens: Vec<Token>) -> (p: Parser)
        ensures
            p.fresh(),
            p.toks() == tok_views(tokens@),
    {
        Parser { tokens, curr: 0, errors: Vec::new() }
    }

    /// Parses one expression from the token sequence: the tree the grammar
    /// prescribes, or the single parse error of the failed attempt —
    /// this grammar stops at the first syntax violation.
    pub fn parse(self) -> (r: Result<Expr, LoxError>)
        requires
            self.fresh(),
            wf_tokens(self.toks()),
        ensures
            ({
                let res = p_expression(self.toks(), 0);
                match r {
                    Result::Ok(e) => res matches SpecParse::Parsed { expr, .. } && e@ == expr,
                    Result::Err(le) => {
                        &&& res matches SpecParse::Failed { token, msg }
                        &&& le matches LoxError::Parser(es) && es@.len() == 1 && es@[0]@
                            == (SpecParseError { token, msg })
                    },
                }
            }),
    {
        let mut p = self;
        let expr = p.expression();
        match expr {
            Result::Ok(expr) => Result::Ok(expr),
            Result::Err(e) => {
                p.errors.push(e);
                Result::Err(LoxError::from(p.errors))
            },
        }
    }

    fn expression(&mut self) -> (r: Result<Expr, ParseError>)
        requires
            old(self).inv(),
        ensures
            final(self).inv(),
            final(self).tokens@ == old(self).tokens@,
            final(self).errors@ == old(self).errors@,
            parse_matches(
                p_expression(tok_views(old(self).tokens@), old(self).curr as int),
                r,
                final(self).curr as int,
            ),
        decreases old(self).tokens@.len() - old(self).curr, 6int,
    {
        self.equality()
    }

    fn equality(&mut self) -> (r: Result<Expr, ParseError>)
        requires
            old(self).inv(),
        ensures
            final(self).inv(),
            final(self).tokens@ == old(self).tokens@,
            final(self).errors@ == old(self).errors@,
            parse_matches(
                p_level(tok_views(old(self).tokens@), old(self).curr as int, 4),
                r,
                final(self).curr as int,
            ),
        decreases old(self).tokens@.len() - old(self).curr, 5int,
    {
        let ghost t = tok_views(self.tokens@);
        let ghost pos0 = self.curr as int;
        let first = self.comparison();
        proof {
            assert(p_operand(t, pos0, 4) == p_level(t, pos0, 3));
            lemma_level_bounds(t, pos0, 3);
        }
        let mut expr = match first {
            Result::Ok(e) => e,
            Result::Err(e) => {
                return Result::Err(e);
            },
        };
        let ops = vec![TokenType::BangEqual, TokenType::EqualEqual];
        proof {
            assert(forall|k: TokenType|
                ops@.contains(k) <==> (k == TokenType::BangEqual || k == TokenType::EqualEqual))
                by {
                assert(ops@[0] == TokenType::BangEqual);
                assert(ops@[1] == TokenType::EqualEqual);
            }
        }
        while self.match_token_types(&ops)
            invariant
                self.inv(),
                self.tokens@ == old(self).tokens@,
                self.errors@ == old(self).errors@,
                t == tok_views(self.tokens@),
                pos0 == old(self).curr as int,
                0 <= pos0 <= self.curr as int,
                forall|kk: TokenType|
                    ops@.contains(kk) <==> (kk == TokenType::BangEqual || kk
                        == TokenType::EqualEqual),
                p_level(t, pos0, 4) == p_level_rest(t, self.curr as int, 4, expr@),
            decreases t.len() - self.curr as int,
        {
            let ghost head = self.curr as int - 1;
            proof {
                assert(level_ops(4, t[head].kind));
            }
            let operator = self.prev();
            let next_operand = self.comparison();
            proof {
                assert(p_operand(t, head + 1, 4) == p_level(t, head + 1, 3));
                lemma_level_bounds(t, head + 1, 3);
            }
            let right = match next_operand {
                Result::Ok(e) => e,
                Result::Err(e) => {
                    return Result::Err(e);
                },
            };
            expr = Expr::Binary(Box::new(expr), operator, Box::new(right));
        }
        Result::Ok(expr)
    }

    fn comparison(&mut self) -> (r: Result<Expr, ParseError>)
        requires
            old(self).inv(),
        ensures
            final(self).inv(),
            final(self).tokens@ == old(self).tokens@,
            final(self).errors@ == old(self).errors@,
            parse_matches(
                p_level(tok_views(old(self).tokens@), old(self).curr as int, 3),
                r,
                final(self).curr as int,
            ),
        decreases old(self).tokens@.len() - old(self).curr, 4int,
    {
        let ghost t = tok_views(self.tokens@);
        let ghost pos0 = self.curr as int;
        let first = self.term();
        proof {
            assert(p_operand(t, pos0, 3) == p_level(t, pos0, 2));
            lemma_level_bounds(t, pos0, 2);
        }
        let mut expr = match first {
            Result::Ok(e) => e,
            Result::Err(e) => {
                return Result::Err(e);
            },
        };
        let ops = vec![
            TokenType::Greater,
            TokenType::GreaterEqual,
            TokenType::Less,
            TokenType::LessEqual,
        ];
        proof {
            assert(forall|k: TokenType|
                ops@.contains(k) <==> (k == TokenType::Greater || k == TokenType::GreaterEqual
                    || k == TokenType::Less || k == TokenType::LessEqual)) by {
                assert(ops@[0] == TokenType::Greater);
                assert(ops@[1] == TokenType::GreaterEqual);
                assert(ops@[2] == TokenType::Less);
                assert(ops@[3] == TokenType::LessEqual);
            }
        }
        while self.match_token_types(&ops)
            invariant
                self.inv(),
                self.tokens@ == old(self).tokens@,
                self.errors@ == old(self).errors@,
                t == tok_views(self.tokens@),
                pos0 == old(self).curr as int,
                0 <= pos0 <= self.curr as int,
                forall|kk: TokenType|
                    ops@.contains(kk) <==> (kk == TokenType::Greater || kk
                        == TokenType::GreaterEqual || kk == TokenType::Less || kk
                        == TokenType::LessEqual),
                p_level(t, pos0, 3) == p_level_rest(t, self.curr as int, 3, expr@),
            decreases t.len() - self.curr as int,
        {
            let ghost head = self.curr as int - 1;
            proof {
                assert(level_ops(3, t[head].kind));
            }
            let operator = self.prev();
            let next_operand = self.term();
            proof {
                assert(p_operand(t, head + 1, 3) == p_level(t, head + 1, 2));
                lemma_level_bounds(t, head + 1, 2);
            }
            let right = match next_operand {
                Result::Ok(e) => e,
                Result::Err(e) => {
                    return Result::Err(e);
                },
            };
            expr = Expr::Binary(Box::new(expr), operator, Box::new(right));
        }
        Result::Ok(expr)
    }

    fn term(&mut self) -> (r: Result<Expr, ParseError>)
        requires
            old(self).inv(),
        ensures
            final(self).inv(),
            final(self).tokens@ == old(self).tokens@,
            final(self).errors@ == old(self).errors@,
            parse_matches(
                p_level(tok_views(old(self).tokens@), old(self).curr as int, 2),
                r,
                final(self).curr as int,
            ),
        decreases old(self).tokens@.len() - old(self).curr, 3int,
    {
        let ghost t = tok_views(self.tokens@);
        let ghost pos0 = self.curr as int;
        let first = self.factor();
        proof {
            assert(p_operand(t, pos0, 2) == p_level(t, pos0, 1));
            lemma_level_bounds(t, pos0, 1);
        }
        let mut expr = match first {
            Result::Ok(e) => e,
            Result::Err(e) => {
                return Result::Err(e);
            },
        };
        let ops = vec![TokenType::Minus, TokenType::Plus];
        proof {
            assert(forall|k: TokenType|
                ops@.contains(k) <==> (k == TokenType::Minus || k == TokenType::Plus)) by {
                assert(ops@[0] == TokenType::Minus);
                assert(ops@[1] == TokenType::Plus);
            }
        }
        while self.match_token_types(&ops)
            invariant
                self.inv(),
                self.tokens@ == old(self).tokens@,
                self.errors@ == old(self).errors@,
                t == tok_views(self.tokens@),
                pos0 == old(self).curr as int,
                0 <= pos0 <= self.curr as int,
                forall|kk: TokenType|
                    ops@.contains(kk) <==> (kk == TokenType::Minus || kk == TokenType::Plus),
                p_level(t, pos0, 2) == p_level_rest(t, self.curr as int, 2, expr@),
            decreases t.len() - self.curr as int,
        {
            let ghost head = self.curr as int - 1;
            proof {
                assert(level_ops(2, t[head].kind));
            }
            let operator = self.prev();
            let next_operand = self.factor();
            proof {
                assert(p_operand(t, head + 1, 2) == p_level(t, head + 1, 1));
                lemma_level_bounds(t, head + 1, 1);
            }
            let right = match next_operand {
                Result::Ok(e) => e,
                Result::Err(e) => {
                    return Result::Err(e);
                },
            };
            expr = Expr::Binary(Box::new(expr), operator, Box::new(right));
        }
        Result::Ok(expr)
    }

    fn factor(&mut self) -> (r: Result<Expr, ParseError>)
        requires
            old(self).inv(),
        ensures
            final(self).inv(),
            final(self).tokens@ == old(self).tokens@,
            final(self).errors@ == old(self).errors@,
            parse_matches(
                p_level(tok_views(old(self).tokens@), old(self).curr as int, 1),
                r,
                final(self).curr as int,
            ),
        decreases old(self).tokens@.len() - old(self).curr, 2int,
    {
        let ghost t = tok_views(self.tokens@);
        let ghost pos0 = self.curr as int;
        let first = self.unary();
        proof {
            assert(p_operand(t, pos0, 1) == p_unary(t, pos0));
            lemma_unary_bounds(t, pos0);
        }
        let mut expr = match first {
            Result::Ok(e) => e,
            Result::Err(e) => {
                return Result::Err(e);
            },
        };
        let ops = vec![TokenType::Slash, TokenType::Star];
        proof {
            assert(forall|k: TokenType|
                ops@.contains(k) <==> (k == TokenType::Slash || k == TokenType::Star)) by {
                assert(ops@[0] == TokenType::Slash);
                assert(ops@[1] == TokenType::Star);
            }
        }
        while self.match_token_types(&ops)
            invariant
                self.inv(),
                self.tokens@ == old(self).tokens@,
                self.errors@ == old(self).errors@,
                t == tok_views(self.tokens@),
                pos0 == old(self).curr as int,
                0 <= pos0 <= self.curr as int,
                forall|kk: TokenType|
                    ops@.contains(kk) <==> (kk == TokenType::Slash || kk == TokenType::Star),
                p_level(t, pos0, 1) == p_level_rest(t, self.curr as int, 1, expr@),
            decreases t.len() - self.curr as int,
        {
            let ghost head = self.curr as int - 1;
            proof {
                assert(level_ops(1, t[head].kind));
            }
            let operator = self.prev();
            let next_operand = self.unary();
            proof {
                assert(p_operand(t, head + 1, 1) == p_unary(t, head + 1));
                lemma_unary_bounds(t, head + 1);
            }
            let right = match next_operand {
                Result::Ok(e) => e,
                Result::Err(e) => {
                    return Result::Err(e);
                },
            };
            expr = Expr::Binary(Box::new(expr), operator, Box::new(right));
        }
        Result::Ok(expr)
    }

    fn unary(&mut self) -> (r: Result<Expr, ParseError>)
        requires
            old(self).inv(),
        ensures
            final(self).inv(),
            final(self).tokens@ == old(self).tokens@,
            final(self).errors@ == old(self).errors@,
            parse_matches(
                p_unary(tok_views(old(self).tokens@), old(self).curr as int),
                r,
                final(self).curr as int,
            ),
        decreases old(self).tokens@.len() - old(self).curr, 1int,
    {
        let ops = vec![TokenType::Bang, TokenType::Minus];
        proof {
            assert(forall|k: TokenType|
                ops@.contains(k) <==> (k == TokenType::Bang || k == TokenType::Minus)) by {
                assert(ops@[0] == TokenType::Bang);
                assert(ops@[1] == TokenType::Minus);
            }
        }
        if self.match_token_types(&ops) {
            let operator = self.prev();
            let right = match self.unary() {
                Result::Ok(e) => e,
                Result::Err(e) => {
                    return Result::Err(e);
                },
            };
            return Result::Ok(Expr::Unary(operator, Box::new(right)));
        }
        self.primary()
    }

    fn primary(&mut self) -> (r: Result<Expr, ParseError>)
        requires
            old(self).inv(),
        ensures
            final(self).inv(),
            final(self).tokens@ == old(self).tokens@,
            final(self).errors@ == old(self).errors@,
            parse_matches(
                p_primary(tok_views(old(self).tokens@), old(self).curr as int),
                r,
                final(self).curr as int,
            ),
        decreases old(self).tokens@.len() - old(self).curr, 0int,
    {
        let ghost t = tok_views(self.tokens@);
        let ghost pos0 = self.curr as int;
        if self.match_token_types(&(vec![TokenType::False])) {
            Result::Ok(Expr::Literal(Value::Boolean(false)))
        } else if self.match_token_types(&(vec![TokenType::True])) {
            Result::Ok(Expr::Literal(Value::Boolean(true)))
        } else if self.match_token_types(&(vec![TokenType::Nil])) {
            Result::Ok(Expr::Literal(Value::Nil))
        } else if self.match_token_types(&(vec![TokenType::Number, TokenType::String])) {
            let tk = self.prev();
            match &tk.literal {
                Option::Some(l) => Result::Ok(Expr::Literal(Value::of_literal(l))),
                Option::None => {
                    // A well-formed number or string token always carries
                    // its payload, so this arm is unreachable.
                    proof {
                        assert(wf_token(t[pos0]));
                        assert(false);
                    }
                    Result::Err(ParseError { token: tk, msg: "Expect expression" })
                },
            }
        } else if self.match_token_types(&(vec![TokenType::LeftParen])) {
            let inner = self.expression();
            let expr = match inner {
                Result::Ok(e) => e,
                Result::Err(e) => {
                    return Result::Err(e);
                },
            };
            match self.consume(TokenType::RightParen, "Expect ')' after expression") {
                Result::Ok(_) => Result::Ok(Expr::Grouping(Box::new(expr))),
                Result::Err(e) => Result::Err(e),
            }
        } else {
            Result::Err(ParseError { token: self.peek().deep_clone(), msg: "Expect expression" })
        }
    }

    /// Consumes the current token when its kind is one of `token_types`;
    /// the literal payload plays no part in grammar decisions.
    fn match_token_types(&mut self, token_types: &Vec<TokenType>) -> (r: bool)
        requires
            old(self).inv(),
        ensures
            final(self).inv(),
            final(self).tokens@ == old(self).tokens@,
            final(self).errors@ == old(self).errors@,
            ({
                let k = tok_views(old(self).tokens@)[old(self).curr as int].kind;
                &&& r == (k != TokenType::EOF && token_types@.contains(k))
                &&& final(self).curr == if r {
                    old(self).curr + 1
                } else {
                    old(self).curr as int
                }
            }),
    {
        let ghost k = tok_views(self.tokens@)[self.curr as int].kind;
        let mut i: usize = 0;
        while i < token_types.len()
            invariant
                self.inv(),
                *self == *old(self),
                i <= token_types@.len(),
                k == tok_views(self.tokens@)[self.curr as int].kind,
                forall|j: int| 0 <= j < i ==> !(k != TokenType::EOF && token_types@[j] == k),
            decreases token_types@.len() - i,
        {
            if self.check(token_types[i]) {
                self.advance();
                return true;
            }
            i = i + 1;
        }
        proof {
            if k != TokenType::EOF && token_types@.contains(k) {
                let j = choose|j: int| 0 <= j < token_types@.len() && token_types@[j] == k;
                assert(!(k != TokenType::EOF && token_types@[j] == k));
            }
        }
        false
    }

    /// Steps the cursor forward, but never past the terminating `EOF`.
    fn advance(&mut self)
        requires
            old(self).inv(),
        ensures
            final(self).inv(),
            final(self).tokens@ == old(self).tokens@,
            final(self).errors@ == old(self).errors@,
            final(self).curr == if tok_views(old(self).tokens@)[old(self).curr as int].kind
                != TokenType::EOF {
                old(self).curr + 1
            } else {
                old(self).curr as int
            },
    {
        let total = self.tokens.len();
        proof {
            assert(self.curr < total);
        }
        if !self.is_at_end() {
            self.curr = self.curr + 1;
        }
    }

    /// Whether the current token's kind is `token_type`; never true at
    /// the end of the sequence.
    fn check(&self, token_type: TokenType) -> (r: bool)
        requires
            self.inv(),
        ensures
            r == (self.toks()[self.curr as int].kind != TokenType::EOF && self.toks()[self.curr as int].kind
                == token_type),
    {
        if self.is_at_end() {
            false
        } else {
            self.peek().token_type == token_type
        }
    }

    /// Consumes the current token when it has the expected kind; anything
    /// else is the parse error `msg`, carrying a self-contained duplicate
    /// of the offending token.
    fn consume(&mut self, token_type: TokenType, msg: &'static str) -> (r: Result<(), ParseError>)
        requires
            old(self).inv(),
        ensures
            final(self).inv(),
            final(self).tokens@ == old(self).tokens@,
            final(self).errors@ == old(self).errors@,
            ({
                let k = tok_views(old(self).tokens@)[old(self).curr as int].kind;
                if k != TokenType::EOF && k == token_type {
                    &&& r matches Result::Ok(_)
                    &&& final(self).curr == old(self).curr + 1
                } else {
                    &&& r matches Result::Err(e) && e@.token == tok_views(old(self).tokens@)[old(
                        self,
                    ).curr as int] && e@.msg == msg@
                    &&& final(self).curr == old(self).curr
                }
            }),
    {
        if self.check(token_type) {
            self.advance();
            Result::Ok(())
        } else {
            Result::Err(ParseError { token: self.peek().deep_clone(), msg })
        }
    }

    fn is_at_end(&self) -> (r: bool)
        requires
            self.inv(),
        ensures
            r == (self.toks()[self.curr as int].kind == TokenType::EOF),
    {
        self.peek().token_type == TokenType::EOF
    }

    /// The token under the cursor, unconsumed.
    fn peek(&self) -> (t: &Token)
        requires
            self.inv(),
        ensures
            t@ == self.toks()[self.curr as int],
    {
        &self.tokens[self.curr]
    }

    /// An owned duplicate of the token just consumed.
    fn prev(&self) -> (t: Token)
        requires
            self.inv(),
            self.curr >= 1,
        ensures
            t@ == self.toks()[self.curr as int - 1],
    {
        let tr = &self.tokens[self.curr - 1];
        tr.deep_clone()
    }
}

} // verus!
