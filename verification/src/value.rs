//! The concrete value representation bound in runtime state.
//!
//! The core does not define the value representation's operator set, only
//! the shapes a bound value can take. Textual payloads are carried as UTF-8
//! strings; floating-point payloads are carried as their IEEE-754 bit
//! pattern and never interpreted here. The collection operators over array
//! and mapping values belong to the surrounding system, outside this core.

use vstd::prelude::*;

verus! {

/// A concrete value produced by evaluating an expression or bound in
/// runtime state.
#[derive(Debug, PartialEq)]
pub enum Value {
    /// A textual payload, carried as a UTF-8 string.
    Bytes(String),
    Integer(i64),
    /// The IEEE-754 bit pattern of a floating-point value, kept opaque.
    Float(u64),
    Boolean(bool),
    Null,
}

/// Returns a copy of a value, equal to the original.
pub fn clone_value(v: &Value) -> (r: Value)
    ensures
        r == *v,
{
    match v {
        Value::Bytes(s) => Value::Bytes(s.clone()),
        Value::Integer(n) => Value::Integer(*n),
        Value::Float(bits) => Value::Float(*bits),
        Value::Boolean(b) => Value::Boolean(*b),
        Value::Null => Value::Null,
    }
}

impl Clone for Value {
    /// A clone is equal to the original, field for field.
    fn clone(&self) -> (r: Value)
        ensures
            r == *self,
    {
        clone_value(self)
    }
}

} // verus!
