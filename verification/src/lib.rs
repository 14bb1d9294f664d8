//! Lowering core for a stack-based intermediate representation.
//!
//! The crate turns declarations of generic library functions into callable
//! definitions of a low-level, block-structured target representation:
//! it computes memory layouts for composite and variant (tagged-union)
//! types, models the byte-level values those callables produce, performs
//! field-element arithmetic modulo a large prime, and records every
//! emitted signature and constant in shared lowering state.

pub mod bytes;
pub mod enums;
pub mod error;
pub mod felt;
pub mod layout;
pub mod libfuncs;
pub mod runtime;
pub mod tables;
pub mod types;
