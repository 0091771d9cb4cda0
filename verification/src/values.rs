//! Plain attribute values carried by telemetry selectors and conditions.
//!
//! A value is either a boolean, a signed integer, or a string. Equality is
//! structural, with strings compared by their character content.

use vstd::prelude::*;

verus! {

/// A telemetry attribute value extracted from a request or a response,
/// or written down as a constant in configuration.
#[derive(Debug)]
pub enum Value {
    Bool(bool),
    I64(i64),
    U128(u128),
    Str(String),
}

impl Clone for Value {
    fn clone(&self) -> (r: Self)
        ensures
            r == *self,
    {
        match self {
            Value::Bool(b) => Value::Bool(*b),
            Value::I64(i) => Value::I64(*i),
            Value::U128(u) => Value::U128(*u),
            Value::Str(s) => Value::Str(s.clone()),
        }
    }
}

/// Mathematical image of a value: strings by their character content.
pub ghost enum ValueModel {
    Bool(bool),
    I64(i64),
    U128(u128),
    Str(Seq<char>),
}

impl View for Value {
    type V = ValueModel;

    open spec fn view(&self) -> ValueModel {
        match self {
            Value::Bool(b) => ValueModel::Bool(*b),
            Value::I64(i) => ValueModel::I64(*i),
            Value::U128(u) => ValueModel::U128(*u),
            Value::Str(s) => ValueModel::Str(s@),
        }
    }
}

impl Value {
    /// Structural equality of two values; strings compare by content.
    pub open spec fn same_as(&self, other: &Value) -> bool {
        match (self, other) {
            (Value::Bool(a), Value::Bool(b)) => a == b,
            (Value::I64(a), Value::I64(b)) => a == b,
            (Value::U128(a), Value::U128(b)) => a == b,
            (Value::Str(a), Value::Str(b)) => a@ == b@,
            _ => false,
        }
    }
}

/// Decides equality of two values, as configuration comparisons do.
pub fn value_eq(a: &Value, b: &Value) -> (r: bool)
    ensures
        r == a.same_as(b),
{
    match (a, b) {
        (Value::Bool(x), Value::Bool(y)) => *x == *y,
        (Value::I64(x), Value::I64(y)) => *x == *y,
        (Value::U128(x), Value::U128(y)) => *x == *y,
        (Value::Str(x), Value::Str(y)) => *x == *y,
        _ => false,
    }
}

/// Structural equality of two optional values.
pub open spec fn opt_same_as(a: &Option<Value>, b: &Option<Value>) -> bool {
    match (a, b) {
        (Some(x), Some(y)) => x.same_as(y),
        (None, None) => true,
        _ => false,
    }
}

/// Decides equality of two optional values.
pub fn opt_value_eq(a: &Option<Value>, b: &Option<Value>) -> (r: bool)
    ensures
        r == opt_same_as(a, b),
{
    match (a, b) {
        (Some(x), Some(y)) => value_eq(x, y),
        (None, None) => true,
        _ => false,
    }
}

/// Optional-value equality respects content equality on both sides.
pub proof fn lemma_opt_same_as_congruence(
    a: &Option<Value>,
    b: &Option<Value>,
    c: &Option<Value>,
    d: &Option<Value>,
)
    requires
        opt_same_as(a, b),
        opt_same_as(c, d),
    ensures
        opt_same_as(a, c) == opt_same_as(b, d),
{
}

impl From<i64> for Value {
    fn from(v: i64) -> (r: Value)
        ensures
            r == Value::I64(v),
    {
        Value::I64(v)
    }
}

impl vstd::std_specs::convert::FromSpecImpl<i64> for Value {
    open spec fn obeys_from_spec() -> bool {
        true
    }

    open spec fn from_spec(v: i64) -> Value {
        Value::I64(v)
    }
}

impl From<bool> for Value {
    fn from(v: bool) -> (r: Value)
        ensures
            r == Value::Bool(v),
    {
        Value::Bool(v)
    }
}

impl vstd::std_specs::convert::FromSpecImpl<bool> for Value {
    open spec fn obeys_from_spec() -> bool {
        true
    }

    open spec fn from_spec(v: bool) -> Value {
        Value::Bool(v)
    }
}

impl From<String> for Value {
    fn from(v: String) -> (r: Value)
        ensures
            r == Value::Str(v),
    {
        Value::Str(v)
    }
}

impl vstd::std_specs::convert::FromSpecImpl<String> for Value {
    open spec fn obeys_from_spec() -> bool {
        true
    }

    open spec fn from_spec(v: String) -> Value {
        Value::Str(v)
    }
}

} // verus!
