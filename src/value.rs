use vstd::prelude::*;
use crate::field::{modulus, Fe};

verus! {

/// Sum in the field of two numbers that may be unknown.
pub open spec fn num_add(a: Option<int>, b: Option<int>) -> Option<int> {
    match (a, b) {
        (Some(x), Some(y)) => Some((x + y) % modulus()),
        _ => None,
    }
}

/// A field value that may not be known yet: shape-only construction of a
/// circuit carries `Unknown` where a witness would stand.
#[derive(Clone, Copy, Debug, PartialEq, Eq)]
pub enum Value {
    Known(Fe),
    Unknown,
}

impl Value {
    /// A known value is a canonical field element.
    pub open spec fn wf(self) -> bool {
        match self {
            Value::Known(f) => f.wf(),
            Value::Unknown => true,
        }
    }

    /// The number a known value stands for.
    pub open spec fn num(self) -> Option<int> {
        match self {
            Value::Known(f) => Some(f.val()),
            Value::Unknown => None,
        }
    }

    pub fn known(f: Fe) -> (r: Value)
        ensures
            r == Value::Known(f),
    {
        Value::Known(f)
    }

    pub fn unknown() -> (r: Value)
        ensures
            r == Value::Unknown,
    {
        Value::Unknown
    }

    pub fn is_known(&self) -> (r: bool)
        ensures
            r == self is Known,
    {
        matches!(self, Value::Known(_))
    }

    /// Field addition lifted over unknown values: an unknown operand makes
    /// the sum unknown.
    pub fn add(self, other: Value) -> (r: Value)
        requires
            self.wf(),
            other.wf(),
        ensures
            r.wf(),
            r.num() == num_add(self.num(), other.num()),
    {
        match (self, other) {
            (Value::Known(a), Value::Known(b)) => Value::Known(a.add(b)),
            _ => Value::Unknown,
        }
    }
}

} // verus!
