//! The three disjoint error kinds of the pipeline, and the umbrella error.
//!
//! Each error value owns its textual payload outright, so it stays valid
//! after the pipeline's intermediate data (source buffer, token sequence)
//! has been discarded.

use vstd::prelude::*;
use vstd::string::StringSliceAdditionalSpecFns;
use crate::token::SpecToken;
use crate::token::TokenType;
use crate::token::Token;

verus! {

/// One malformed lexeme, reported at the line it was found on. The scanner
/// collects every lexical error in a single pass rather than stopping at
/// the first.
#[derive(Debug)]
pub struct LexError {
    pub line: usize,
    pub msg: &'static str,
}

/// The mathematical model of a lexical error.
pub struct SpecLexError {
    pub line: int,
    pub msg: Seq<char>,
}

impl View for LexError {
    type V = SpecLexError;

    open spec fn view(&self) -> SpecLexError {
        SpecLexError { line: self.line as int, msg: self.msg@ }
    }
}

/// The first syntax violation found by the parser. It carries a
/// self-contained copy of the offending token.
#[derive(Debug)]
pub struct ParseError {
    pub token: Token,
    pub msg: &'static str,
}

/// The mathematical model of a parse error.
pub struct SpecParseError {
    pub token: SpecToken,
    pub msg: Seq<char>,
}

impl View for ParseError {
    type V = SpecParseError;

    open spec fn view(&self) -> SpecParseError {
        SpecParseError { token: self.token@, msg: self.msg@ }
    }
}

/// The first runtime type violation found by the evaluator. It carries a
/// self-contained copy of the offending operator token.
#[derive(Debug)]
pub struct RuntimeError {
    pub token: Token,
    pub msg: &'static str,
}

/// The mathematical model of a runtime error.
pub struct SpecRuntimeError {
    pub token: SpecToken,
    pub msg: Seq<char>,
}

impl View for RuntimeError {
    type V = SpecRuntimeError;

    open spec fn view(&self) -> SpecRuntimeError {
        SpecRuntimeError { token: self.token@, msg: self.msg@ }
    }
}

/// The umbrella error: which stage failed, with that stage's errors.
#[derive(Debug)]
pub enum LoxError {
    Lexer(Vec<LexError>),
    Parser(Vec<ParseError>),
    Runtime(RuntimeError),
}

impl From<Vec<LexError>> for LoxError {
    fn from(errors: Vec<LexError>) -> (r: Self) {
        LoxError::Lexer(errors)
    }
}

impl vstd::std_specs::convert::FromSpecImpl<Vec<LexError>> for LoxError {
    open spec fn obeys_from_spec() -> bool {
        true
    }

    open spec fn from_spec(errors: Vec<LexError>) -> LoxError {
        LoxError::Lexer(errors)
    }
}

impl From<Vec<ParseError>> for LoxError {
    fn from(errors: Vec<ParseError>) -> (r: Self) {
        LoxError::Parser(errors)
    }
}

impl vstd::std_specs::convert::FromSpecImpl<Vec<ParseError>> for LoxError {
    open spec fn obeys_from_spec() -> bool {
        true
    }

    open spec fn from_spec(errors: Vec<ParseError>) -> LoxError {
        LoxError::Parser(errors)
    }
}

impl From<RuntimeError> for LoxError {
    fn from(error: RuntimeError) -> (r: Self) {
        LoxError::Runtime(error)
    }
}

impl vstd::std_specs::convert::FromSpecImpl<RuntimeError> for LoxError {
    open spec fn obeys_from_spec() -> bool {
        true
    }

    open spec fn from_spec(error: RuntimeError) -> LoxError {
        LoxError::Runtime(error)
    }
}

// ---------------------------------------------------------------------------
// Rendering, as the host sees it
// ---------------------------------------------------------------------------

/// The decimal digits of `n`, most significant first.
pub open spec fn dec_digits(n: nat) -> Seq<u8>
    decreases n,
{
    if n < 10 {
        seq![(n + 48) as u8]
    } else {
        dec_digits(n / 10) + seq![(n % 10 + 48) as u8]
    }
}

/// The decimal text of `n`.
pub fn usize_to_decimal(n: usize) -> (r: Vec<u8>)
    ensures
        r@ == dec_digits(n as nat),
    decreases n,
{
    if n < 10 {
        let mut r: Vec<u8> = Vec::new();
        r.push((n as u8) + 48);
        proof {
            assert(r@ =~= dec_digits(n as nat));
        }
        r
    } else {
        let mut r = usize_to_decimal(n / 10);
        r.push(((n % 10) as u8) + 48);
        proof {
            assert(r@ =~= dec_digits(n as nat));
        }
        r
    }
}

/// The rendering of one lexical error: `Line: <n>, Cause: <message>`.
pub open spec fn spec_render_lex(e: LexError) -> Seq<u8> {
    seq!['L' as u8, 'i' as u8, 'n' as u8, 'e' as u8, ':' as u8, ' ' as u8] + dec_digits(
        e.line as nat,
    ) + seq![',' as u8, ' ' as u8, 'C' as u8, 'a' as u8, 'u' as u8, 's' as u8, 'e' as u8, ':' as u8, ' ' as u8]
        + e.msg.spec_bytes()
}

/// The rendering of one parse error:
/// `Line: <n>, Token: <lexeme-or-eof>, Cause: <message>`.
pub open spec fn spec_render_parse(e: ParseError) -> Seq<u8> {
    seq!['L' as u8, 'i' as u8, 'n' as u8, 'e' as u8, ':' as u8, ' ' as u8] + dec_digits(
        e.token.line as nat,
    ) + seq![',' as u8, ' ' as u8, 'T' as u8, 'o' as u8, 'k' as u8, 'e' as u8, 'n' as u8, ':' as u8, ' ' as u8]
        + (if e.token.token_type == TokenType::EOF {
        seq!['e' as u8, 'o' as u8, 'f' as u8]
    } else {
        e.token.lexeme@
    })
        + seq![',' as u8, ' ' as u8, 'C' as u8, 'a' as u8, 'u' as u8, 's' as u8, 'e' as u8, ':' as u8, ' ' as u8]
        + e.msg.spec_bytes()
}

/// The rendering of one runtime error: `<message>` then `[line <n>]` on
/// the next line.
pub open spec fn spec_render_runtime(e: RuntimeError) -> Seq<u8> {
    e.msg.spec_bytes() + seq!['\n' as u8, '[' as u8, 'l' as u8, 'i' as u8, 'n' as u8, 'e' as u8, ' ' as u8]
        + dec_digits(e.token.line as nat) + seq![']' as u8]
}

/// The renderings of the lexical errors from `i` on, one per line.
pub open spec fn render_lex_from(es: Seq<LexError>, i: int) -> Seq<u8>
    decreases es.len() - i,
{
    if i < 0 || i >= es.len() {
        Seq::empty()
    } else {
        spec_render_lex(es[i]) + seq!['\n' as u8] + render_lex_from(es, i + 1)
    }
}

/// The renderings of the parse errors from `i` on, one per line.
pub open spec fn render_parse_from(es: Seq<ParseError>, i: int) -> Seq<u8>
    decreases es.len() - i,
{
    if i < 0 || i >= es.len() {
        Seq::empty()
    } else {
        spec_render_parse(es[i]) + seq!['\n' as u8] + render_parse_from(es, i + 1)
    }
}

/// The rendering of the umbrella error: a heading naming the failed
/// stage, then that stage's errors.
pub open spec fn spec_render_lox(e: LoxError) -> Seq<u8> {
    match e {
        LoxError::Lexer(es) => seq![
            'L' as u8, 'e' as u8, 'x' as u8, 'i' as u8, 'c' as u8, 'a' as u8, 'l' as u8, ' ' as u8,
            'E' as u8, 'r' as u8, 'r' as u8, 'o' as u8, 'r' as u8, 's' as u8, ':' as u8, '\n' as u8,
        ] + render_lex_from(es@, 0),
        LoxError::Parser(es) => seq![
            'P' as u8, 'a' as u8, 'r' as u8, 's' as u8, 'e' as u8, ' ' as u8, 'E' as u8, 'r' as u8,
            'r' as u8, 'o' as u8, 'r' as u8, 's' as u8, ':' as u8, '\n' as u8,
        ] + render_parse_from(es@, 0),
        LoxError::Runtime(re) => seq![
            'R' as u8, 'u' as u8, 'n' as u8, 't' as u8, 'i' as u8, 'm' as u8, 'e' as u8, ' ' as u8,
            'E' as u8, 'r' as u8, 'r' as u8, 'o' as u8, 'r' as u8, ':' as u8, ' ' as u8,
        ] + spec_render_runtime(re),
    }
}

impl LoxError {
    /// Renders the whole error report for the host: which stage failed,
    /// then each of that stage's errors, one per line.
    pub fn render(&self) -> (r: Vec<u8>)
        ensures
            r@ == spec_render_lox(*self),
    {
        let mut out: Vec<u8> = Vec::new();
        match self {
            LoxError::Lexer(errors) => {
                out.push('L' as u8);
                out.push('e' as u8);
                out.push('x' as u8);
                out.push('i' as u8);
                out.push('c' as u8);
                out.push('a' as u8);
                out.push('l' as u8);
                out.push(' ' as u8);
                out.push('E' as u8);
                out.push('r' as u8);
                out.push('r' as u8);
                out.push('o' as u8);
                out.push('r' as u8);
                out.push('s' as u8);
                out.push(':' as u8);
                out.push('\n' as u8);
                proof {
                    assert(out@ + render_lex_from(errors@, 0) =~= spec_render_lox(*self));
                }
                let mut i: usize = 0;
                while i < errors.len()
                    invariant
                        i <= errors@.len(),
                        out@ + render_lex_from(errors@, i as int) == spec_render_lox(
                            LoxError::Lexer(*errors),
                        ),
                    decreases errors@.len() - i,
                {
                    let e = &errors[i];
                    let line = e.render();
                    crate::bytes::append_bytes(&mut out, &line);
                    out.push('\n' as u8);
                    i = i + 1;
                }
            },
            LoxError::Parser(errors) => {
                out.push('P' as u8);
                out.push('a' as u8);
                out.push('r' as u8);
                out.push('s' as u8);
                out.push('e' as u8);
                out.push(' ' as u8);
                out.push('E' as u8);
                out.push('r' as u8);
                out.push('r' as u8);
                out.push('o' as u8);
                out.push('r' as u8);
                out.push('s' as u8);
                out.push(':' as u8);
                out.push('\n' as u8);
                proof {
                    assert(out@ + render_parse_from(errors@, 0) =~= spec_render_lox(*self));
                }
                let mut i: usize = 0;
                while i < errors.len()
                    invariant
                        i <= errors@.len(),
                        out@ + render_parse_from(errors@, i as int) == spec_render_lox(
                            LoxError::Parser(*errors),
                        ),
                    decreases errors@.len() - i,
                {
                    let e = &errors[i];
                    let line = e.render();
                    crate::bytes::append_bytes(&mut out, &line);
                    out.push('\n' as u8);
                    i = i + 1;
                }
            },
            LoxError::Runtime(error) => {
                out.push('R' as u8);
                out.push('u' as u8);
                out.push('n' as u8);
                out.push('t' as u8);
                out.push('i' as u8);
                out.push('m' as u8);
                out.push('e' as u8);
                out.push(' ' as u8);
                out.push('E' as u8);
                out.push('r' as u8);
                out.push('r' as u8);
                out.push('o' as u8);
                out.push('r' as u8);
                out.push(':' as u8);
                out.push(' ' as u8);
                let body = error.render();
                crate::bytes::append_bytes(&mut out, &body);
                proof {
                    assert(out@ =~= spec_render_lox(*self));
                }
            },
        }
        out
    }
}

impl LexError {
    /// Renders this error for the host: `Line: <n>, Cause: <message>`.
    pub fn render(&self) -> (r: Vec<u8>)
        ensures
            r@ == spec_render_lex(*self),
    {
        let mut out: Vec<u8> = Vec::new();
        out.push('L' as u8);
        out.push('i' as u8);
        out.push('n' as u8);
        out.push('e' as u8);
        out.push(':' as u8);
        out.push(' ' as u8);
        let line = usize_to_decimal(self.line);
        crate::bytes::append_bytes(&mut out, &line);
        out.push(',' as u8);
        out.push(' ' as u8);
        out.push('C' as u8);
        out.push('a' as u8);
        out.push('u' as u8);
        out.push('s' as u8);
        out.push('e' as u8);
        out.push(':' as u8);
        out.push(' ' as u8);
        crate::bytes::append_slice(&mut out, self.msg.as_bytes());
        proof {
            assert(out@ =~= spec_render_lex(*self));
        }
        out
    }
}

impl ParseError {
    /// Renders this error for the host:
    /// `Line: <n>, Token: <lexeme-or-eof>, Cause: <message>` — the
    /// end-of-input token prints as `eof`.
    pub fn render(&self) -> (r: Vec<u8>)
        ensures
            r@ == spec_render_parse(*self),
    {
        let mut out: Vec<u8> = Vec::new();
        out.push('L' as u8);
        out.push('i' as u8);
        out.push('n' as u8);
        out.push('e' as u8);
        out.push(':' as u8);
        out.push(' ' as u8);
        let line = usize_to_decimal(self.token.line);
        crate::bytes::append_bytes(&mut out, &line);
        out.push(',' as u8);
        out.push(' ' as u8);
        out.push('T' as u8);
        out.push('o' as u8);
        out.push('k' as u8);
        out.push('e' as u8);
        out.push('n' as u8);
        out.push(':' as u8);
        out.push(' ' as u8);
        if self.token.token_type == TokenType::EOF {
            out.push('e' as u8);
            out.push('o' as u8);
            out.push('f' as u8);
        } else {
            crate::bytes::append_bytes(&mut out, &self.token.lexeme);
        }
        out.push(',' as u8);
        out.push(' ' as u8);
        out.push('C' as u8);
        out.push('a' as u8);
        out.push('u' as u8);
        out.push('s' as u8);
        out.push('e' as u8);
        out.push(':' as u8);
        out.push(' ' as u8);
        crate::bytes::append_slice(&mut out, self.msg.as_bytes());
        proof {
            assert(out@ =~= spec_render_parse(*self));
        }
        out
    }
}

impl RuntimeError {
    /// Renders this error for the host: `<message>` and `[line <n>]` on
    /// the next line.
    pub fn render(&self) -> (r: Vec<u8>)
        ensures
            r@ == spec_render_runtime(*self),
    {
        let mut out: Vec<u8> = Vec::new();
        crate::bytes::append_slice(&mut out, self.msg.as_bytes());
        out.push('\n' as u8);
        out.push('[' as u8);
        out.push('l' as u8);
        out.push('i' as u8);
        out.push('n' as u8);
        out.push('e' as u8);
        out.push(' ' as u8);
        let line = usize_to_decimal(self.token.line);
        crate::bytes::append_bytes(&mut out, &line);
        out.push(']' as u8);
        proof {
            assert(out@ =~= spec_render_runtime(*self));
        }
        out
    }
}

} // verus!
