//! The compile-time type-descriptor algebra.
//!
//! A [`TypeDef`] is an immutable summary of the possible shape of an
//! expression's result: which value kinds it may produce, whether the result
//! may be absent without an error, and whether evaluation may fail. It never
//! references live values.

use vstd::prelude::*;

verus! {

/// The set of value shapes an expression may yield. Each field marks one
/// basic shape as possible; the unconstrained descriptor allows all of them.
#[derive(Clone, Copy, Debug, PartialEq, Eq, Structural)]
pub struct Kind {
    pub bytes: bool,
    pub integer: bool,
    pub float: bool,
    pub boolean: bool,
    pub array: bool,
    pub map: bool,
    pub null: bool,
}

/// The unconstrained kind: every value shape is possible.
pub open spec fn kind_any() -> Kind {
    Kind {
        bytes: true,
        integer: true,
        float: true,
        boolean: true,
        array: true,
        map: true,
        null: true,
    }
}

/// The kind that allows exactly the bytes/string shape.
pub open spec fn kind_bytes() -> Kind {
    Kind {
        bytes: true,
        integer: false,
        float: false,
        boolean: false,
        array: false,
        map: false,
        null: false,
    }
}

impl Kind {
    /// The union of two kinds: a shape is possible in the result iff it is
    /// possible in either operand.
    pub open spec fn merge_spec(self, other: Kind) -> Kind {
        Kind {
            bytes: self.bytes || other.bytes,
            integer: self.integer || other.integer,
            float: self.float || other.float,
            boolean: self.boolean || other.boolean,
            array: self.array || other.array,
            map: self.map || other.map,
            null: self.null || other.null,
        }
    }

    /// Every value shape is possible.
    pub fn any() -> (r: Kind)
        ensures
            r == kind_any(),
    {
        Kind {
            bytes: true,
            integer: true,
            float: true,
            boolean: true,
            array: true,
            map: true,
            null: true,
        }
    }

    /// Exactly the bytes/string shape is possible.
    pub fn bytes() -> (r: Kind)
        ensures
            r == kind_bytes(),
    {
        Kind {
            bytes: true,
            integer: false,
            float: false,
            boolean: false,
            array: false,
            map: false,
            null: false,
        }
    }

    /// Computes the union of two kinds.
    pub fn merge(self, other: Kind) -> (r: Kind)
        ensures
            r == self.merge_spec(other),
    {
        Kind {
            bytes: self.bytes || other.bytes,
            integer: self.integer || other.integer,
            float: self.float || other.float,
            boolean: self.boolean || other.boolean,
            array: self.array || other.array,
            map: self.map || other.map,
            null: self.null || other.null,
        }
    }
}

/// Compile-time description of an expression's possible result: the kinds it
/// may produce, whether the result may be absent even when no error occurs
/// (`optional`), and whether evaluation may raise an error (`fallible`).
#[derive(Clone, Copy, Debug, PartialEq, Eq, Structural)]
pub struct TypeDef {
    pub fallible: bool,
    pub optional: bool,
    pub kind: Kind,
}

/// The default descriptor: any kind, not optional, not fallible.
pub open spec fn type_def_default() -> TypeDef {
    TypeDef { fallible: false, optional: false, kind: kind_any() }
}

impl TypeDef {
    /// Combines the descriptors of two contributing branches: the result is
    /// fallible if either branch is, optional if either branch is, and its
    /// kind is the union of the branches' kinds. Every composite node kind
    /// combines child descriptors by exactly this algebra.
    pub open spec fn merge_spec(self, other: TypeDef) -> TypeDef {
        TypeDef {
            fallible: self.fallible || other.fallible,
            optional: self.optional || other.optional,
            kind: self.kind.merge_spec(other.kind),
        }
    }

    /// Computes the merge of two descriptors.
    pub fn merge(self, other: TypeDef) -> (r: TypeDef)
        ensures
            r == self.merge_spec(other),
    {
        TypeDef {
            fallible: self.fallible || other.fallible,
            optional: self.optional || other.optional,
            kind: self.kind.merge(other.kind),
        }
    }
}

impl Default for TypeDef {
    /// The default descriptor: any kind, not optional, not fallible.
    fn default() -> (r: TypeDef)
        ensures
            r == type_def_default(),
    {
        TypeDef { fallible: false, optional: false, kind: Kind::any() }
    }
}

} // verus!
