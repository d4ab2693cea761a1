//! The two state containers behind the two evaluation passes.
//!
//! [`Compiler`] is the symbol table consulted during the type-inference
//! pass: it maps identifiers to the descriptors registered while assignment
//! expressions are type-checked in source order, and is read-only once
//! compilation finishes. [`Program`] is the symbol table of one execution:
//! created fresh (or seeded by the host) for a single event, mutated by
//! assignment expressions, and discarded when that execution completes.

use crate::symbols::SymbolTable;
use crate::type_def::TypeDef;
use crate::value::Value;
use vstd::prelude::*;

verus! {

/// Compile-time state: identifier to type descriptor.
pub struct Compiler {
    variable_types: SymbolTable<TypeDef>,
}

impl View for Compiler {
    type V = Map<Seq<char>, TypeDef>;

    closed spec fn view(&self) -> Map<Seq<char>, TypeDef> {
        self.variable_types@
    }
}

impl Compiler {
    /// Creates the empty compile state, as it stands when compilation of a
    /// program begins.
    pub fn new() -> (r: Compiler)
        ensures
            r@ == Map::<Seq<char>, TypeDef>::empty(),
    {
        Compiler { variable_types: SymbolTable::new() }
    }

    /// Registers the descriptor inferred for an assignment to `ident`,
    /// overwriting any descriptor registered earlier for the same
    /// identifier. This never fails.
    pub fn insert(&mut self, ident: String, type_def: TypeDef)
        ensures
            final(self)@ == old(self)@.insert(ident@, type_def),
    {
        self.variable_types.insert(ident, type_def);
    }

    /// Returns the descriptor registered for `ident`, or `None` when no
    /// assignment to `ident` has been seen so far. Absence is an expected
    /// outcome; callers degrade to a conservative descriptor.
    pub fn lookup(&self, ident: &String) -> (r: Option<TypeDef>)
        ensures
            match r {
                Some(d) => self@.contains_key(ident@) && d == self@[ident@],
                None => !self@.contains_key(ident@),
            },
    {
        match self.variable_types.lookup(ident) {
            Some(d) => Some(*d),
            None => None,
        }
    }
}

/// Runtime state: identifier to concrete value, owned by one evaluation.
pub struct Program {
    variables: SymbolTable<Value>,
}

impl View for Program {
    type V = Map<Seq<char>, Value>;

    closed spec fn view(&self) -> Map<Seq<char>, Value> {
        self.variables@
    }
}

impl Program {
    /// Creates the empty runtime state for one execution.
    pub fn new() -> (r: Program)
        ensures
            r@ == Map::<Seq<char>, Value>::empty(),
    {
        Program { variables: SymbolTable::new() }
    }

    /// Binds `ident` to `value`, overwriting any earlier binding. This never
    /// fails.
    pub fn set(&mut self, ident: String, value: Value)
        ensures
            final(self)@ == old(self)@.insert(ident@, value),
    {
        self.variables.insert(ident, value);
    }

    /// Returns the value bound to `ident`, or `None` when `ident` is
    /// unbound. Turning absence into an error is the caller's duty: at
    /// runtime an unresolved reference is a defect, not an acceptable
    /// unknown.
    pub fn get(&self, ident: &String) -> (r: Option<&Value>)
        ensures
            match r {
                Some(v) => self@.contains_key(ident@) && *v == self@[ident@],
                None => !self@.contains_key(ident@),
            },
    {
        self.variables.lookup(ident)
    }
}

} // verus!
