//! Interprocedural summaries of the unconstrained-advice analysis.
use vstd::prelude::*;

use super::collections::AbstractValue;
use super::domain::{fact_bottom, AdviceFact, FactView};
use crate::summary::{Summary, SummaryStatus};
use crate::text::str_equal;

verus! {

/// The meaning of a procedure summary: whether it is opaque, and the provenance of each
/// output in terms of the procedure's inputs and its own advice reads.
pub struct SummaryView {
    /// The summary is opaque or incomplete.
    pub opaque: bool,
    /// Provenance of each stack output, in order.
    pub outputs: Seq<FactView>,
}

/// Views of a sequence of facts.
pub open spec fn fact_views(facts: Seq<AdviceFact>) -> Seq<FactView> {
    facts.map_values(|f: AdviceFact| f@)
}

/// Summary of one procedure for the unconstrained-advice analysis.
#[derive(Debug)]
pub struct AdviceSummary {
    inner: Summary<Vec<AdviceFact>>,
}

impl View for AdviceSummary {
    type V = SummaryView;

    closed spec fn view(&self) -> SummaryView {
        SummaryView {
            opaque: self.inner.spec_status() == SummaryStatus::Opaque,
            outputs: fact_views(self.inner.spec_value()@),
        }
    }
}

impl AdviceSummary {
    /// A known summary with the given output facts.
    pub fn new(outputs: Vec<AdviceFact>) -> (r: AdviceSummary)
        ensures
            r@ == (SummaryView { opaque: false, outputs: fact_views(outputs@) }),
    {
        AdviceSummary { inner: Summary::known(outputs) }
    }

    /// An opaque summary with `arity` outputs that carry nothing.
    pub fn opaque_with_arity(arity: usize) -> (r: AdviceSummary)
        ensures
            r@.opaque,
            r@.outputs == Seq::new(arity as nat, |i: int| fact_bottom()),
    {
        let mut outputs: Vec<AdviceFact> = Vec::new();
        let mut i: usize = 0;
        while i < arity
            invariant
                i <= arity,
                outputs@.len() == i,
                fact_views(outputs@) == Seq::new(i as nat, |j: int| fact_bottom()),
            decreases arity - i,
        {
            let ghost prev = outputs@;
            let b = AdviceFact::bottom();
            outputs.push(b);
            assert forall|j: int| 0 <= j < i + 1 implies fact_views(outputs@)[j] == fact_bottom() by {
                if j < i {
                    assert(outputs@[j] == prev[j]);
                    assert(fact_views(prev)[j] == fact_bottom());
                }
            }
            assert(fact_views(outputs@) =~= Seq::new((i + 1) as nat, |j: int| fact_bottom()));
            i = i + 1;
        }
        AdviceSummary { inner: Summary::opaque(outputs) }
    }

    /// Return whether the summary is opaque.
    pub fn is_opaque(&self) -> (r: bool)
        ensures
            r == self@.opaque,
    {
        self.inner.is_opaque()
    }

    /// Return the output facts.
    pub fn outputs(&self) -> (r: &[AdviceFact])
        ensures
            fact_views(r@) == self@.outputs,
    {
        self.inner.value().as_slice()
    }

    /// Return the number of summarized outputs.
    pub fn output_count(&self) -> (r: usize)
        ensures
            r == self@.outputs.len(),
    {
        self.inner.value().len()
    }
}

/// The summary recorded for `name`: the first entry with that name.
pub open spec fn summary_lookup(entries: Seq<(Seq<char>, SummaryView)>, name: Seq<char>) -> Option<
    SummaryView,
>
    decreases entries.len(),
{
    if entries.len() == 0 {
        None
    } else if entries[0].0 == name {
        Some(entries[0].1)
    } else {
        summary_lookup(entries.drop_first(), name)
    }
}

/// Summaries of callees, by procedure path.
#[derive(Debug)]
pub struct AdviceSummaryMap {
    entries: Vec<(String, AdviceSummary)>,
}

impl View for AdviceSummaryMap {
    type V = Seq<(Seq<char>, SummaryView)>;

    closed spec fn view(&self) -> Seq<(Seq<char>, SummaryView)> {
        self.entries@.map_values(|e: (String, AdviceSummary)| (e.0@, e.1@))
    }
}

impl AdviceSummaryMap {
    /// The map with no summary.
    pub fn new() -> (r: AdviceSummaryMap)
        ensures
            r@ == Seq::<(Seq<char>, SummaryView)>::empty(),
            forall|name: Seq<char>| summary_lookup(r@, name) is None,
    {
        let r = AdviceSummaryMap { entries: Vec::new() };
        assert(r@ =~= Seq::<(Seq<char>, SummaryView)>::empty());
        r
    }

    /// Record `summary` for `name`, replacing any earlier summary of that name.
    pub fn insert(&mut self, name: String, summary: AdviceSummary)
        ensures
            forall|k: Seq<char>|
                summary_lookup(final(self)@, k) == if k == name@ {
                    Some(summary@)
                } else {
                    summary_lookup(old(self)@, k)
                },
    {
        let ghost n = name@;
        let ghost v = summary@;
        self.entries.insert(0, (name, summary));
        assert(self@.drop_first() =~= old(self)@);
        assert(self@[0] == (n, v));
    }

    /// Return the summary recorded for `name`, if any.
    pub fn get(&self, name: &str) -> (r: Option<&AdviceSummary>)
        ensures
            match r {
                Some(s) => summary_lookup(self@, name@) == Some(s@),
                None => summary_lookup(self@, name@) is None,
            },
    {
        let ghost all = self@;
        let mut i: usize = 0;
        assert(all.skip(0) =~= all);
        while i < self.entries.len()
            invariant
                i <= self.entries@.len(),
                all == self@,
                summary_lookup(all, name@) == summary_lookup(all.skip(i as int), name@),
            decreases self.entries@.len() - i,
        {
            assert(all.skip(i as int)[0] == all[i as int]);
            if str_equal(self.entries[i].0.as_str(), name) {
                return Some(&self.entries[i].1);
            }
            assert(all.skip(i as int).drop_first() =~= all.skip(i + 1));
            i = i + 1;
        }
        assert(all.skip(i as int).len() == 0);
        None
    }
}

} // verus!
