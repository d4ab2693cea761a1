//! The variable-reference node: the worked instance of the expression
//! contract. It holds one immutable identifier, resolves it against compile
//! state for type inference and against runtime state for execution.

use crate::expression::{Expression, Object};
use crate::state::{Compiler, Program};
use crate::type_def::{kind_any, TypeDef};
use crate::value::{clone_value, Value};
use vstd::prelude::*;

verus! {

/// The failure kinds a variable reference can produce: exactly one, an
/// identifier that is unbound at reference time, carrying the identifier
/// for diagnostics.
#[derive(Debug, Clone, PartialEq)]
pub enum Error {
    Undefined(String),
}

impl Error {
    /// A human-readable diagnostic naming the unbound identifier.
    pub fn message(&self) -> (r: String)
        ensures
            r@ == self.message_spec(),
    {
        match self {
            Error::Undefined(ident) => {
                let mut m = String::from_str("undefined variable: ");
                m.append(ident.as_str());
                m
            },
        }
    }

    /// The diagnostic text: a fixed prefix followed by the identifier.
    pub open spec fn message_spec(&self) -> Seq<char> {
        match self {
            Error::Undefined(ident) => "undefined variable: "@ + ident@,
        }
    }
}

/// A reference to a variable, by identifier. The identifier is set at
/// construction and never mutated afterwards.
#[derive(Debug, Clone)]
pub struct Variable {
    ident: String,
}

impl View for Variable {
    type V = Seq<char>;

    /// A variable reference is, up to its behaviour, just its identifier.
    closed spec fn view(&self) -> Seq<char> {
        self.ident@
    }
}

/// The descriptor a variable reference reports: the registered descriptor
/// verbatim when the identifier is present in compile state, else the
/// conservative fallback — fallible, with every other field at its default
/// — because the identifier might be assigned on a path the compiler has
/// not correlated with this reference site. The result is a function of the
/// identifier and the compile state alone.
pub open spec fn type_def_spec(ident: Seq<char>, state: Map<Seq<char>, TypeDef>) -> TypeDef {
    if state.contains_key(ident) {
        state[ident]
    } else {
        TypeDef { fallible: true, optional: false, kind: kind_any() }
    }
}

/// `type_def` is pure: its result is a function of the reference and the
/// compile state alone, so two calls against an unchanged compile state
/// yield identical descriptors, and runtime state plays no part in it.
pub proof fn lemma_type_def_pure(
    ident: Seq<char>,
    state: Map<Seq<char>, TypeDef>,
    r1: TypeDef,
    r2: TypeDef,
)
    requires
        r1 == type_def_spec(ident, state),
        r2 == type_def_spec(ident, state),
    ensures
        r1 == r2,
{
}

impl Variable {
    /// Creates a reference to `ident`.
    pub fn new(ident: String) -> (r: Self)
        ensures
            r@ == ident@,
    {
        Self { ident }
    }

    /// Boxes this node, as the expression tree stores its children.
    pub fn boxed(self) -> (r: Box<Self>)
        ensures
            *r == self,
    {
        Box::new(self)
    }

    /// The referenced identifier.
    pub fn ident(&self) -> (r: &str)
        ensures
            r@ == self@,
    {
        self.ident.as_str()
    }
}

impl Expression for Variable {
    /// Pure function of the frozen compile state and the identifier: the
    /// registered descriptor verbatim when present, the conservative
    /// fallible fallback when absent. Calling it twice with an unchanged
    /// compile state yields identical results; runtime state plays no part.
    fn type_def(&self, state: &Compiler) -> (r: TypeDef)
        ensures
            r == type_def_spec(self@, state@),
    {
        match state.lookup(&self.ident) {
            Some(d) => d,
            None => TypeDef { fallible: true, optional: false, kind: crate::type_def::Kind::any() },
        }
    }

    /// Returns the value bound to the identifier in runtime state, or fails
    /// with the unbound-identifier error carrying the identifier, if and
    /// only if the identifier is unbound. Neither the runtime state nor the
    /// external object is mutated.
    fn execute<O: Object>(&self, state: &mut Program, object: &mut O) -> (r: Result<
        Value,
        crate::expression::Error,
    >)
        ensures
            *final(state) == *old(state),
            *final(object) == *old(object),
            old(state)@.contains_key(self@) ==> r == Ok::<Value, crate::expression::Error>(
                old(state)@[self@],
            ),
            !old(state)@.contains_key(self@) ==> (match r {
                Err(crate::expression::Error::Variable(Error::Undefined(ident))) => ident@ == self@,
                _ => false,
            }),
    {
        match state.get(&self.ident) {
            Some(v) => Ok(clone_value(v)),
            None => Err(crate::expression::Error::Variable(Error::Undefined(self.ident.clone()))),
        }
    }
}

} // verus!
