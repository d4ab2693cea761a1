//! The uniform contract every expression-tree node kind implements, and the
//! shared error type surfaced to the pipeline's transform stage.

use crate::state::{Compiler, Program};
use crate::type_def::TypeDef;
use crate::value::Value;
use vstd::prelude::*;

verus! {

/// The per-event data structure an expression program may read and write
/// fields on. It is owned by the caller and borrowed exclusively for the
/// duration of one execution call; the core never retains it beyond that
/// call. What a field holds, or whether setting one can be observed later,
/// is the host's business: this core states nothing about it.
pub trait Object {
    /// Reads the value at a field path, or `None` when the field is absent.
    fn get(&self, path: &str) -> Option<Value>;

    /// Writes a value at a field path.
    fn set(&mut self, path: &str, value: Value);
}

/// The closed set of runtime failure kinds, one variant per node kind's
/// local error set, each converted in by an explicit, total conversion.
/// Errors are values: every execution method returns either a value or an
/// error, never both.
#[derive(Debug, Clone, PartialEq)]
pub enum Error {
    /// A failure of a variable-reference node.
    Variable(crate::variable::Error),
}

impl Error {
    /// A human-readable diagnostic for this failure.
    pub fn message(&self) -> (r: String)
        ensures
            r@ == self.message_spec(),
    {
        match self {
            Error::Variable(e) => e.message(),
        }
    }

    /// The diagnostic text carried by each failure kind.
    pub open spec fn message_spec(&self) -> Seq<char> {
        match self {
            Error::Variable(e) => e.message_spec(),
        }
    }
}

impl From<crate::variable::Error> for Error {
    /// Wraps a variable-reference failure into the shared error type.
    fn from(e: crate::variable::Error) -> (r: Error) {
        Error::Variable(e)
    }
}

impl vstd::std_specs::convert::FromSpecImpl<crate::variable::Error> for Error {
    open spec fn obeys_from_spec() -> bool {
        true
    }

    open spec fn from_spec(e: crate::variable::Error) -> Error {
        Error::Variable(e)
    }
}

/// The uniform interface of every expression-tree node kind.
///
/// `type_def` answers what the node can produce, known from the frozen
/// compile state and the node's own static structure alone; it must never
/// inspect runtime state. `execute` answers what the node produces for the
/// live data of one event; it may read and write the runtime state and the
/// external object, and on failure returns an error value. Each node kind's
/// implementation strengthens these signatures with its own contract.
pub trait Expression {
    /// Compile-time pass: the descriptor of this node's possible results.
    fn type_def(&self, state: &Compiler) -> TypeDef;

    /// Runtime pass: the value this node produces for one event, or a typed
    /// error.
    fn execute<O: Object>(&self, state: &mut Program, object: &mut O) -> Result<Value, Error>;
}

} // verus!
