//! Loosely typed parameter values.

use vstd::prelude::*;

verus! {

/// A parameter value whose SQL type is not settled yet.
///
/// The clause compiler produces integers and text; the other variants exist so
/// that a caller can hand any loosely typed value to the binder.
#[derive(Debug, PartialEq)]
pub enum ParamValue {
    /// The absent value.
    Null,
    /// A truth value.
    Bool(bool),
    /// An integer-valued number.
    Int(i64),
    /// A number that is not an integer, held as the bit pattern of an
    /// IEEE 754 double.
    Float(u64),
    /// A string.
    Text(String),
    /// A value of any other kind, such as a list or a map; only the fact that
    /// it is one is kept.
    Other,
}

/// The mathematical model of a [`ParamValue`].
pub enum Value {
    Null,
    Bool(bool),
    Int(i64),
    Float(u64),
    Text(Seq<char>),
    Other,
}

impl View for ParamValue {
    type V = Value;

    open spec fn view(&self) -> Value {
        match self {
            ParamValue::Null => Value::Null,
            ParamValue::Bool(b) => Value::Bool(*b),
            ParamValue::Int(i) => Value::Int(*i),
            ParamValue::Float(bits) => Value::Float(*bits),
            ParamValue::Text(s) => Value::Text(s@),
            ParamValue::Other => Value::Other,
        }
    }
}

/// The models of a sequence of parameter values, in order.
pub open spec fn values(params: Seq<ParamValue>) -> Seq<Value> {
    params.map_values(|p: ParamValue| p@)
}

impl Clone for ParamValue {
    fn clone(&self) -> (copy: Self)
        ensures
            copy@ == self@,
    {
        match self {
            ParamValue::Null => ParamValue::Null,
            ParamValue::Bool(b) => ParamValue::Bool(*b),
            ParamValue::Int(i) => ParamValue::Int(*i),
            ParamValue::Float(bits) => ParamValue::Float(*bits),
            ParamValue::Text(s) => ParamValue::Text(s.clone()),
            ParamValue::Other => ParamValue::Other,
        }
    }
}

impl ParamValue {
    /// The integer, if the value is an integer-valued number.
    pub fn as_i64(&self) -> (r: Option<i64>)
        ensures
            r == (match self@ {
                Value::Int(i) => Some(i),
                _ => None::<i64>,
            }),
    {
        match self {
            ParamValue::Int(i) => Some(*i),
            _ => None,
        }
    }

    /// The string, if the value is one.
    pub fn as_str(&self) -> (r: Option<&str>)
        ensures
            match self@ {
                Value::Text(s) => r is Some && r->0@ == s,
                _ => r is None,
            },
    {
        match self {
            ParamValue::Text(s) => Some(s.as_str()),
            _ => None,
        }
    }

    /// The truth value, if the value is one.
    pub fn as_bool(&self) -> (r: Option<bool>)
        ensures
            r == (match self@ {
                Value::Bool(b) => Some(b),
                _ => None::<bool>,
            }),
    {
        match self {
            ParamValue::Bool(b) => Some(*b),
            _ => None,
        }
    }

    /// Whether the value is the absent value.
    pub fn is_null(&self) -> (r: bool)
        ensures
            r == (self@ is Null),
    {
        match self {
            ParamValue::Null => true,
            _ => false,
        }
    }
}

} // verus!
