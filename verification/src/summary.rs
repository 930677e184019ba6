//! Interprocedural summary primitives shared by MASM analyses.
use vstd::prelude::*;

verus! {

/// Precision status attached to one procedure summary.
#[derive(Debug, Clone, Copy, PartialEq, Eq, Structural)]
pub enum SummaryStatus {
    /// The summary was computed from an analysis-visible procedure body.
    Known,
    /// The summary is intentionally opaque or incomplete.
    Opaque,
}

/// Interprocedural summary together with its precision status.
#[derive(Debug, Clone)]
pub struct Summary<T> {
    value: T,
    status: SummaryStatus,
}

impl<T> Summary<T> {
    /// The summarized value.
    pub closed spec fn spec_value(self) -> T {
        self.value
    }

    /// The precision status.
    pub closed spec fn spec_status(self) -> SummaryStatus {
        self.status
    }

    /// Build a known summary value.
    pub fn known(value: T) -> (s: Self)
        ensures
            s.spec_value() == value,
            s.spec_status() == SummaryStatus::Known,
    {
        Summary { value, status: SummaryStatus::Known }
    }

    /// Build an opaque summary value.
    pub fn opaque(value: T) -> (s: Self)
        ensures
            s.spec_value() == value,
            s.spec_status() == SummaryStatus::Opaque,
    {
        Summary { value, status: SummaryStatus::Opaque }
    }

    /// Return the summary precision status.
    pub fn status(&self) -> (st: SummaryStatus)
        ensures
            st == self.spec_status(),
    {
        self.status
    }

    /// Return `true` when this summary is known.
    pub fn is_known(&self) -> (b: bool)
        ensures
            b == (self.spec_status() == SummaryStatus::Known),
    {
        self.status == SummaryStatus::Known
    }

    /// Return `true` when this summary is opaque.
    pub fn is_opaque(&self) -> (b: bool)
        ensures
            b == (self.spec_status() == SummaryStatus::Opaque),
    {
        self.status == SummaryStatus::Opaque
    }

    /// Return the summarized value.
    pub fn value(&self) -> (v: &T)
        ensures
            *v == self.spec_value(),
    {
        &self.value
    }

    /// Consume the summary and return the summarized value.
    pub fn into_value(self) -> (v: T)
        ensures
            v == self.spec_value(),
    {
        self.value
    }
}

} // verus!
