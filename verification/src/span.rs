//! Source locations attached to analysis-visible syntax.
use vstd::prelude::*;

verus! {

/// A byte range inside one source file.
#[derive(Debug, Clone, Copy, PartialEq, Eq, Hash, Structural)]
pub struct SourceSpan {
    /// Identifier of the source file.
    pub source_id: u32,
    /// First byte of the range.
    pub start: u32,
    /// One past the last byte of the range.
    pub end: u32,
}

/// Source identifier used for spans that point at no known file.
pub const UNKNOWN_SOURCE_ID: u32 = 0xffff_ffffu32;

impl SourceSpan {
    /// Build a span from its source identifier and byte range.
    pub fn new(source_id: u32, start: u32, end: u32) -> (s: SourceSpan)
        ensures
            s == (SourceSpan { source_id, start, end }),
    {
        SourceSpan { source_id, start, end }
    }

    /// The span that points at no known source.
    pub fn unknown() -> (s: SourceSpan)
        ensures
            s == (SourceSpan { source_id: UNKNOWN_SOURCE_ID, start: 0, end: 0 }),
    {
        SourceSpan { source_id: UNKNOWN_SOURCE_ID, start: 0, end: 0 }
    }
}

} // verus!
