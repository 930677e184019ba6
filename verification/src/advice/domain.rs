//! Abstract provenance facts: which advice reads and which procedure inputs a value may carry.
use vstd::prelude::*;

use super::collections::{AbstractValue, KeySet};
use crate::span::SourceSpan;

verus! {

/// The meaning of a provenance fact.
#[verifier::ext_equal]
pub struct FactView {
    /// Source spans of the advice reads the value may come from.
    pub spans: Set<SourceSpan>,
    /// Indices of the procedure inputs the value may come from.
    pub inputs: Set<usize>,
}

/// The fact of a value that carries no advice and no input.
pub open spec fn fact_bottom() -> FactView {
    FactView { spans: Set::empty(), inputs: Set::empty() }
}

/// The least fact above both `a` and `b`: a value that may come from either.
pub open spec fn fact_join(a: FactView, b: FactView) -> FactView {
    FactView { spans: a.spans.union(b.spans), inputs: a.inputs.union(b.inputs) }
}

/// Provenance of one abstract value: the advice reads and procedure inputs it may carry.
#[derive(Debug)]
pub struct AdviceFact {
    source_spans: KeySet<SourceSpan>,
    from_inputs: KeySet<usize>,
}

impl View for AdviceFact {
    type V = FactView;

    closed spec fn view(&self) -> FactView {
        FactView { spans: self.source_spans@, inputs: self.from_inputs@ }
    }
}

impl AdviceFact {
    /// The fact of a value that carries no advice and no input.
    pub fn bottom() -> (r: AdviceFact)
        ensures
            r@ == fact_bottom(),
    {
        AdviceFact { source_spans: KeySet::empty(), from_inputs: KeySet::empty() }
    }

    /// The fact of procedure input `index`.
    pub fn from_input(index: usize) -> (r: AdviceFact)
        ensures
            r@ == (FactView { spans: Set::empty(), inputs: Set::empty().insert(index) }),
    {
        AdviceFact { source_spans: KeySet::empty(), from_inputs: KeySet::singleton(index) }
    }

    /// The fact of a value read from the advice provider at `span`.
    pub fn from_source(span: SourceSpan) -> (r: AdviceFact)
        ensures
            r@ == (FactView { spans: Set::empty().insert(span), inputs: Set::empty() }),
    {
        AdviceFact { source_spans: KeySet::singleton(span), from_inputs: KeySet::empty() }
    }

    /// The fact of a value that may come from either operand.
    pub fn join(&self, other: &AdviceFact) -> (r: AdviceFact)
        ensures
            r@ == fact_join(self@, other@),
    {
        AdviceFact {
            source_spans: self.source_spans.union(&other.source_spans),
            from_inputs: self.from_inputs.union(&other.from_inputs),
        }
    }

    /// The fact with the advice reads of this one and no input.
    pub fn sources_only(&self) -> (r: AdviceFact)
        ensures
            r@ == (FactView { spans: self@.spans, inputs: Set::empty() }),
    {
        AdviceFact { source_spans: self.source_spans.duplicate(), from_inputs: KeySet::empty() }
    }

    /// Return the input indices this fact may carry.
    pub fn input_indices(&self) -> (r: &[usize])
        ensures
            r@.to_set() == self@.inputs,
    {
        self.from_inputs.items()
    }

    /// Return whether this fact carries neither advice nor input.
    pub fn is_bottom(&self) -> (r: bool)
        ensures
            r == (self@ == fact_bottom()),
    {
        let b = AdviceFact::bottom();
        self.same_fact(&b)
    }

    /// Return whether two facts have the same meaning.
    pub fn same_fact(&self, other: &AdviceFact) -> (r: bool)
        ensures
            r == (self@ == other@),
    {
        let a = self.source_spans.same_set(&other.source_spans);
        let b = self.from_inputs.same_set(&other.from_inputs);
        proof {
            if a && b {
                assert(self@ =~= other@);
            }
        }
        a && b
    }
}

impl AbstractValue for AdviceFact {
    fn duplicate(&self) -> (r: Self) {
        AdviceFact {
            source_spans: self.source_spans.duplicate(),
            from_inputs: self.from_inputs.duplicate(),
        }
    }

    fn same_value(&self, other: &Self) -> (r: bool) {
        self.same_fact(other)
    }
}

impl Clone for AdviceFact {
    fn clone(&self) -> (r: Self)
        ensures
            r@ == self@,
    {
        self.duplicate()
    }
}

impl PartialEq for AdviceFact {
    fn eq(&self, other: &Self) -> (r: bool) {
        self.same_fact(other)
    }
}

impl vstd::std_specs::cmp::PartialEqSpecImpl for AdviceFact {
    open spec fn obeys_eq_spec() -> bool {
        true
    }

    open spec fn eq_spec(&self, other: &Self) -> bool {
        self@ == other@
    }
}

/// Joining is commutative.
pub proof fn lemma_fact_join_commutative(a: FactView, b: FactView)
    ensures
        fact_join(a, b) == fact_join(b, a),
{
    assert(fact_join(a, b) =~= fact_join(b, a));
}

/// Joining is associative.
pub proof fn lemma_fact_join_associative(a: FactView, b: FactView, c: FactView)
    ensures
        fact_join(fact_join(a, b), c) == fact_join(a, fact_join(b, c)),
{
    assert(fact_join(fact_join(a, b), c) =~= fact_join(a, fact_join(b, c)));
}

/// Joining a fact with itself changes nothing.
pub proof fn lemma_fact_join_idempotent(a: FactView)
    ensures
        fact_join(a, a) == a,
{
    assert(fact_join(a, a) =~= a);
}

/// The bottom fact is the identity of joining.
pub proof fn lemma_fact_join_bottom(a: FactView)
    ensures
        fact_join(fact_bottom(), a) == a,
        fact_join(a, fact_bottom()) == a,
{
    assert(fact_join(fact_bottom(), a) =~= a);
    assert(fact_join(a, fact_bottom()) =~= a);
}

} // verus!
