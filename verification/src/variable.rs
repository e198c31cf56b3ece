//! Values and named variables.

use crate::text::{
    chars_of, decimal, decimal_chars, lemma_parse_decimal, parse_i32, parse_i32_chars, string_of,
};
use vstd::prelude::*;

verus! {

/// A scalar: a string or a 32-bit integer.
#[derive(Debug, PartialEq)]
pub enum Value {
    String(String),
    Int(i32),
}

/// What a `Value` is, with the string as a sequence of characters.
pub enum ValueView {
    String(Seq<char>),
    Int(i32),
}

impl ValueView {
    /// The value as text: a string as it is, an integer in decimal.
    pub open spec fn text(self) -> Seq<char> {
        match self {
            ValueView::String(s) => s,
            ValueView::Int(v) => decimal(v as int),
        }
    }

    /// The value as an integer: an integer as it is, a string read as a
    /// decimal `i32`; `None` where the string is no such number.
    pub open spec fn number(self) -> Option<i32> {
        match self {
            ValueView::String(s) => parse_i32(s),
            ValueView::Int(v) => Some(v),
        }
    }
}

impl View for Value {
    type V = ValueView;

    open spec fn view(&self) -> ValueView {
        match self {
            Value::String(s) => ValueView::String(s@),
            Value::Int(v) => ValueView::Int(*v),
        }
    }
}

impl Clone for Value {
    fn clone(&self) -> (r: Value)
        ensures
            r == *self,
    {
        match self {
            Value::String(s) => Value::String(s.clone()),
            Value::Int(v) => Value::Int(*v),
        }
    }
}

impl Value {
    /// The value as text.
    pub fn as_string(&self) -> (r: String)
        ensures
            r@ == self@.text(),
    {
        match self {
            Value::String(v) => v.clone(),
            Value::Int(v) => {
                let digits = decimal_chars(*v as i64);
                string_of(&digits)
            },
        }
    }

    /// The value as an integer, where it has one.
    pub fn try_as_int(&self) -> (r: Option<i32>)
        ensures
            r == self@.number(),
    {
        match self {
            Value::String(v) => {
                let chars = chars_of(v.as_str());
                parse_i32_chars(&chars)
            },
            Value::Int(v) => Some(*v),
        }
    }

    /// The value as an integer. The value must have one: an `Int`, or a
    /// string that writes a decimal `i32`.
    pub fn as_int(&self) -> (r: i32)
        requires
            self@.number() is Some,
        ensures
            Some(r) == self@.number(),
    {
        match self.try_as_int() {
            Some(v) => v,
            None => 0,
        }
    }

    /// Whether the value is a string.
    pub fn is_string(&self) -> (r: bool)
        ensures
            r == (self@ is String),
    {
        match self {
            Value::String(_) => true,
            Value::Int(_) => false,
        }
    }
}

/// A named value.
#[derive(Debug)]
pub struct Variable {
    pub name: String,
    pub value: Value,
}

impl Clone for Variable {
    fn clone(&self) -> (r: Variable)
        ensures
            r == *self,
    {
        Variable { name: self.name.clone(), value: self.value.clone() }
    }
}

/// The two coercions agree: the text of an integer, read as an integer,
/// is that integer.
pub proof fn text_of_an_integer_reads_back(v: i32)
    ensures
        ValueView::String(ValueView::Int(v).text()).number() == Some(v),
{
    lemma_parse_decimal(v as int);
}

} // verus!
