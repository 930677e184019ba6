//! Unconstrained-advice analysis: abstract domain, state and transfer functions.
//!
//! The analysis tracks which SSA values and local slots may carry unconstrained advice, so that
//! such values reaching `U32` and non-zero sinks can be reported.
pub mod collections;
pub mod domain;
pub mod ir;
pub mod state;
pub mod summary;
pub mod transfer;
