//! ABI lowering and constant encoding for a GPU-oriented code generator.
//!
//! The library decides how arguments and return values of a function cross
//! the call boundary on a target whose native type vocabulary is narrower
//! than the source language's abstract ABI description, and how a
//! compile-time memory image (a static initializer) mixing defined bytes,
//! undefined padding and pointer relocations is serialized into one
//! constant expression.

pub mod abi;
pub mod attrs;
pub mod cast;
pub mod consts;
pub mod context;
pub mod encode;
pub mod fnattrs;
pub mod marshal;
pub mod policy;
pub mod reg;
pub mod remap;
pub mod sig;
pub mod statics;
pub mod types;

use vstd::prelude::*;

verus! {

/// Unrecoverable configuration or invariant violations: these abort the
/// compilation of the current unit with a diagnostic and are never retried.
#[derive(Clone, Copy, PartialEq, Eq, Structural, Debug)]
pub enum Fatal {
    /// A float register chunk has a width the target cannot represent.
    UnsupportedFloatWidth,
    /// A cast target leaves a sub-unit remainder but its rest unit is not
    /// integer-kind, so the remainder cannot be split off.
    NonIntegerRemainder,
    /// A return value was classified as indirect on the stack, which the
    /// target does not support.
    OnStackIndirectReturn,
    /// A global definition requests a linkage kind the target does not know.
    UnsupportedLinkage,
    /// A global with an explicit linkage must have a raw pointer type.
    LinkageRequiresRawPointer,
    /// A symbol was defined twice inside one compilation unit.
    DuplicateSymbol,
    /// A declared global already exists with a conflicting type.
    ConflictingStaticTypes,
    /// Thread-local statics are not supported on the target.
    ThreadLocalUnsupported,
}

} // verus!
