//! The runtime value model: the dynamically-typed value evaluation
//! produces, convertible from literal tokens.

use vstd::prelude::*;
use crate::token::Literal;
use crate::token::SpecLiteral;

verus! {

/// A runtime value: a number (held as its IEEE-754 double bit pattern), an
/// owned string, a boolean, or nil.
#[derive(Debug)]
pub enum Value {
    Number(u64),
    String(Vec<u8>),
    Boolean(bool),
    Nil,
}

/// The mathematical model of a runtime value.
pub enum SpecValue {
    Number(u64),
    String(Seq<u8>),
    Boolean(bool),
    Nil,
}

impl View for Value {
    type V = SpecValue;

    open spec fn view(&self) -> SpecValue {
        match self {
            Value::Number(n) => SpecValue::Number(*n),
            Value::String(s) => SpecValue::String(s@),
            Value::Boolean(b) => SpecValue::Boolean(*b),
            Value::Nil => SpecValue::Nil,
        }
    }
}

/// The value a literal token payload converts to.
pub open spec fn spec_value_of_literal(l: SpecLiteral) -> SpecValue {
    match l {
        SpecLiteral::String(s) => SpecValue::String(s),
        SpecLiteral::Number(n) => SpecValue::Number(n),
    }
}

impl Value {
    /// Converts a literal token payload into the value it denotes, copying
    /// the text so the value owns its payload.
    pub fn of_literal(literal: &Literal) -> (r: Value)
        ensures
            r@ == spec_value_of_literal(literal@),
    {
        match literal {
            Literal::String(s) => Value::String(crate::bytes::copy_bytes(s)),
            Literal::Number(n) => Value::Number(*n),
        }
    }
}

/// The display form of a value: a number as its decimal text, a string
/// verbatim, a boolean as `true`/`false`, nil as the text `nil`.
pub open spec fn spec_display(v: SpecValue) -> Seq<u8> {
    match v {
        SpecValue::Number(n) => crate::numeric::dbl_text(n),
        SpecValue::String(s) => s,
        SpecValue::Boolean(b) => if b {
            seq!['t' as u8, 'r' as u8, 'u' as u8, 'e' as u8]
        } else {
            seq!['f' as u8, 'a' as u8, 'l' as u8, 's' as u8, 'e' as u8]
        },
        SpecValue::Nil => seq!['n' as u8, 'i' as u8, 'l' as u8],
    }
}

impl Value {
    /// The display form of this value, as bytes.
    pub fn display_bytes(&self) -> (r: Vec<u8>)
        ensures
            r@ == spec_display(self@),
    {
        match self {
            Value::Number(n) => crate::numeric::num_to_text(*n),
            Value::String(s) => crate::bytes::copy_bytes(s),
            Value::Boolean(b) => {
                let mut r: Vec<u8> = Vec::new();
                if *b {
                    r.push('t' as u8);
                    r.push('r' as u8);
                    r.push('u' as u8);
                    r.push('e' as u8);
                    proof {
                        assert(r@ =~= spec_display(self@));
                    }
                } else {
                    r.push('f' as u8);
                    r.push('a' as u8);
                    r.push('l' as u8);
                    r.push('s' as u8);
                    r.push('e' as u8);
                    proof {
                        assert(r@ =~= spec_display(self@));
                    }
                }
                r
            },
            Value::Nil => {
                let mut r: Vec<u8> = Vec::new();
                r.push('n' as u8);
                r.push('i' as u8);
                r.push('l' as u8);
                proof {
                    assert(r@ =~= spec_display(self@));
                }
                r
            },
        }
    }
}

impl PartialEq for Value {
    /// Structural equality of two values, for callers and tests; the
    /// language's own `==` operator is the evaluator's structural
    /// equality, which compares numbers by IEEE-754 equality instead.
    fn eq(&self, other: &Value) -> (r: bool) {
        match (self, other) {
            (Value::Number(a), Value::Number(b)) => *a == *b,
            (Value::String(a), Value::String(b)) => crate::bytes::bytes_eq(a, b),
            (Value::Boolean(a), Value::Boolean(b)) => *a == *b,
            (Value::Nil, Value::Nil) => true,
            _ => false,
        }
    }
}

impl vstd::std_specs::cmp::PartialEqSpecImpl for Value {
    open spec fn obeys_eq_spec() -> bool {
        true
    }

    open spec fn eq_spec(&self, other: &Value) -> bool {
        self@ == other@
    }
}

} // verus!
