//! Error kinds of the lowering pass.
//!
//! Every kind is fatal to the pass for the current compilation unit; an
//! unrecognized library-function identity is deliberately not an error
//! (the dispatch loop logs nothing and moves on).

use vstd::prelude::*;

verus! {

/// What went wrong while lowering one library-function declaration.
#[derive(Debug, Clone, Copy, PartialEq, Eq, Structural)]
pub enum ErrorKind {
    /// Wrong arity or kind of generic argument (for example a literal where
    /// a type reference was expected, or a narrowing upcast).
    InvalidGenericArgs,
    /// A referenced type identifier is absent from the type registry.
    UnresolvedType,
    /// A recognized but unsupported operation (field-element division,
    /// snapshot match).
    Unimplemented,
    /// A name collision in the signature or constant tables; an entry is
    /// created exactly once and never overwritten.
    DuplicateSignature,
}

/// A fatal error of the whole pass, identifying the declaration it came
/// from by its unique identifier and its generic identity.
#[derive(Debug, Clone, PartialEq, Eq)]
pub struct LoweringError {
    pub kind: ErrorKind,
    /// Unique identifier of the offending declaration.
    pub decl_id: u64,
    /// Generic identity (string tag) of the offending declaration.
    pub generic_id: Vec<u8>,
}

} // verus!
