use vstd::prelude::*;

verus! {

/// A runtime value. A number is held as the bit pattern of an IEEE-754 binary64 value.
#[derive(Clone, Debug, PartialEq)]
pub enum Value {
    Number(u64),
    String(String),
    Boolean(bool),
    Null,
}

/// The mathematical value of a `Value`.
pub enum ValueV {
    Number(u64),
    String(Seq<char>),
    Boolean(bool),
    Null,
}

impl View for Value {
    type V = ValueV;

    open spec fn view(&self) -> ValueV {
        match self {
            Value::Number(n) => ValueV::Number(*n),
            Value::String(s) => ValueV::String(s@),
            Value::Boolean(b) => ValueV::Boolean(*b),
            Value::Null => ValueV::Null,
        }
    }
}

impl Value {
    /// A copy of this value.
    pub fn duplicate(&self) -> (r: Value)
        ensures
            r == *self,
    {
        match self {
            Value::Number(n) => Value::Number(*n),
            Value::String(s) => Value::String(s.clone()),
            Value::Boolean(b) => Value::Boolean(*b),
            Value::Null => Value::Null,
        }
    }
}

/// The views of a sequence of values.
pub open spec fn view_values(s: Seq<Value>) -> Seq<ValueV> {
    s.map_values(|v: Value| v@)
}

} // verus!
