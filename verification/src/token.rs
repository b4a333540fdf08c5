//! The token model: the unit produced by scanning and consumed by parsing.

use vstd::prelude::*;

verus! {

/// The closed set of token kinds: single-character punctuation, one- or
/// two-character operators, literal kinds, reserved keywords, and the
/// end-of-input marker.
#[derive(Debug, Copy, Clone, PartialEq, Eq, Structural)]
pub enum TokenType {
    LeftParen,
    RightParen,
    LeftBrace,
    RightBrace,
    Comma,
    Dot,
    Minus,
    Plus,
    Semicolon,
    Slash,
    Star,
    Bang,
    BangEqual,
    Equal,
    EqualEqual,
    Greater,
    GreaterEqual,
    Less,
    LessEqual,
    Identifier,
    String,
    Number,
    And,
    Class,
    Else,
    False,
    Fun,
    For,
    If,
    Nil,
    Or,
    Print,
    Return,
    Super,
    This,
    True,
    Var,
    While,
    EOF,
}

/// The literal payload attached to `String` and `Number` tokens.
///
/// A number literal carries the IEEE-754 double-precision bit pattern of the
/// parsed value; the bit pattern stands for the 64-bit float throughout the
/// library, so that numeric behaviour can be stated over plain integers.
#[derive(Debug)]
pub enum Literal {
    String(Vec<u8>),
    Number(u64),
}

/// A classified lexeme: its kind, the source bytes it was scanned from, an
/// optional literal payload, and the 1-based line it ended on.
///
/// A token owns its lexeme bytes, so it stays valid after the source buffer
/// and the rest of the token sequence are gone — error values carry tokens
/// past the end of the pipeline that produced them.
#[derive(Debug)]
pub struct Token {
    pub token_type: TokenType,
    pub lexeme: Vec<u8>,
    pub literal: Option<Literal>,
    pub line: usize,
}

/// The mathematical model of a literal payload.
pub enum SpecLiteral {
    String(Seq<u8>),
    Number(u64),
}

/// The mathematical model of a token.
pub struct SpecToken {
    pub kind: TokenType,
    pub lexeme: Seq<u8>,
    pub literal: Option<SpecLiteral>,
    pub line: int,
}

impl View for Literal {
    type V = SpecLiteral;

    open spec fn view(&self) -> SpecLiteral {
        match self {
            Literal::String(s) => SpecLiteral::String(s@),
            Literal::Number(n) => SpecLiteral::Number(*n),
        }
    }
}

impl View for Token {
    type V = SpecToken;

    open spec fn view(&self) -> SpecToken {
        SpecToken {
            kind: self.token_type,
            lexeme: self.lexeme@,
            literal: match &self.literal {
                Option::Some(l) => Option::Some(l@),
                Option::None => Option::None,
            },
            line: self.line as int,
        }
    }
}

/// A token is well formed when its literal payload matches its kind: number
/// tokens carry a number payload and string tokens a string payload.
pub open spec fn wf_token(t: SpecToken) -> bool {
    &&& t.kind == TokenType::Number ==> (t.literal matches Option::Some(SpecLiteral::Number(_)))
    &&& t.kind == TokenType::String ==> (t.literal matches Option::Some(SpecLiteral::String(_)))
}

/// A well-formed token sequence: every token is well formed, and exactly one
/// `EOF` token terminates it.
pub open spec fn wf_tokens(ts: Seq<SpecToken>) -> bool {
    &&& ts.len() >= 1
    &&& ts.last().kind == TokenType::EOF
    &&& forall|i: int| 0 <= i < ts.len() - 1 ==> (#[trigger] ts[i].kind) != TokenType::EOF
    &&& forall|i: int| 0 <= i < ts.len() ==> wf_token(#[trigger] ts[i])
}

impl Token {
    pub fn new(token_type: TokenType, lexeme: Vec<u8>, literal: Option<Literal>, line: usize) -> (t: Token)
        ensures
            t@ == (SpecToken {
                kind: token_type,
                lexeme: lexeme@,
                literal: match literal {
                    Option::Some(l) => Option::Some(l@),
                    Option::None => Option::None,
                },
                line: line as int,
            }),
    {
        Token { token_type, lexeme, literal, line }
    }

    /// An owned, self-contained duplicate of the token, independent of any
    /// borrowed data, for carrying inside error values.
    pub fn deep_clone(&self) -> (t: Token)
        ensures
            t@ == self@,
    {
        let literal: Option<Literal> = match &self.literal {
            Option::Some(l) => Option::Some(l.deep_clone()),
            Option::None => Option::None,
        };
        Token {
            token_type: self.token_type,
            lexeme: crate::bytes::copy_bytes(&self.lexeme),
            literal,
            line: self.line,
        }
    }
}

impl Literal {
    /// An owned duplicate of the literal payload.
    pub fn deep_clone(&self) -> (l: Literal)
        ensures
            l@ == self@,
    {
        match self {
            Literal::String(s) => Literal::String(crate::bytes::copy_bytes(s)),
            Literal::Number(n) => Literal::Number(*n),
        }
    }
}

} // verus!
