//! Verified building blocks for abstract interpretation of Miden assembly (MASM).
//!
//! - [`summary`]: interprocedural summaries with a precision status.
//! - [`span`]: source locations carried through the analysis.
//! - [`text`]: character-level helpers for procedure paths and instruction names.
//! - [`frontend`]: normalized procedure bodies, metadata and callee resolution.
//! - [`advice`]: the abstract state and transfer functions of the unconstrained-advice analysis.
use vstd::prelude::*;

pub mod advice;
pub mod frontend;
pub mod span;
pub mod summary;
pub mod text;

verus! {

/// Flat stack effect of a procedure, counted in field elements.
#[derive(Debug, Clone, Copy, PartialEq, Eq, Structural)]
pub struct StackSignature {
    /// Number of field elements consumed from the operand stack.
    pub inputs: usize,
    /// Number of field elements produced on the operand stack.
    pub outputs: usize,
}

} // verus!
