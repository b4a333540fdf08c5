//! A tree-walking interpreter for an expression language: a scanner that
//! turns source bytes into tokens, a recursive-descent parser that builds
//! an expression tree, and an evaluator that reduces the tree to a value.
//!
//! Numbers are IEEE-754 doubles, carried everywhere as their bit patterns
//! (`u64`); the named operations on them live in `numeric`.

pub mod bytes;
pub mod error;
pub mod expr;
pub mod interpreter;
pub mod numeric;
pub mod parser;
pub mod scanner;
pub mod token;
pub mod value;

pub use error::LexError;
pub use error::LoxError;
pub use error::ParseError;
pub use error::RuntimeError;
pub use expr::Expr;
pub use interpreter::Interpreter;
pub use interpreter::run_source;
pub use parser::Parser;
pub use scanner::Scanner;
pub use token::Literal;
pub use token::Token;
pub use token::TokenType;
pub use value::Value;
