//! The values expressions evaluate to.
use vstd::prelude::*;
use crate::number::{number_text, same_value, Number};

verus! {

/// A runtime value: a string, a number, a boolean or nil.
#[derive(Debug)]
pub enum Value {
    String(String),
    Number(Number),
    Boolean(bool),
    Nil,
}

/// What the contracts say of a value: a string as its chars.
pub enum ValueView {
    Str(Seq<char>),
    Num(Number),
    Bool(bool),
    Nil,
}

impl View for Value {
    type V = ValueView;

    open spec fn view(&self) -> ValueView {
        match self {
            Value::String(s) => ValueView::Str(s@),
            Value::Number(n) => ValueView::Num(*n),
            Value::Boolean(b) => ValueView::Bool(*b),
            Value::Nil => ValueView::Nil,
        }
    }
}

/// Equality of values: same kind and same contents; a number is never equal
/// to a string.
pub open spec fn values_equal(a: ValueView, b: ValueView) -> bool {
    match (a, b) {
        (ValueView::Str(x), ValueView::Str(y)) => x == y,
        (ValueView::Num(x), ValueView::Num(y)) => same_value(x, y),
        (ValueView::Bool(x), ValueView::Bool(y)) => x == y,
        (ValueView::Nil, ValueView::Nil) => true,
        _ => false,
    }
}

/// `false` and nil are falsy; every other value is truthy.
pub open spec fn truthy(v: ValueView) -> bool {
    match v {
        ValueView::Bool(b) => b,
        ValueView::Nil => false,
        _ => true,
    }
}

/// How a value is printed.
pub open spec fn value_text(v: ValueView) -> Seq<char> {
    match v {
        ValueView::Str(s) => s,
        ValueView::Num(n) => number_text(n),
        ValueView::Bool(b) => if b { "true"@ } else { "false"@ },
        ValueView::Nil => "nil"@,
    }
}

impl Value {
    /// A copy of this value.
    pub fn duplicate(&self) -> (r: Value)
        ensures
            r == *self,
    {
        match self {
            Value::String(s) => Value::String(s.clone()),
            Value::Number(n) => Value::Number(*n),
            Value::Boolean(b) => Value::Boolean(*b),
            Value::Nil => Value::Nil,
        }
    }

    pub fn is_truthy(&self) -> (r: bool)
        ensures
            r == truthy(self@),
    {
        match self {
            Value::Boolean(b) => *b,
            Value::Nil => false,
            _ => true,
        }
    }

    pub fn equals(&self, other: &Value) -> (r: bool)
        ensures
            r == values_equal(self@, other@),
    {
        match (self, other) {
            (Value::String(x), Value::String(y)) => *x == *y,
            (Value::Number(x), Value::Number(y)) => x.same_value(y),
            (Value::Boolean(x), Value::Boolean(y)) => *x == *y,
            (Value::Nil, Value::Nil) => true,
            _ => false,
        }
    }

    /// The text this value is printed as.
    pub fn to_text(&self) -> (r: String)
        ensures
            r@ == value_text(self@),
    {
        match self {
            Value::String(s) => s.clone(),
            Value::Number(n) => n.to_text(),
            Value::Boolean(b) => if *b { String::from_str("true") } else { String::from_str("false") },
            Value::Nil => String::from_str("nil"),
        }
    }
}

} // verus!
