//! Explicit abstract state of the unconstrained-advice analysis at one program point.
use vstd::prelude::*;

use super::collections::{agreement, AbstractValue, ExactKey, KeySet, ValueMap};
use super::domain::{
    fact_bottom, fact_join, lemma_fact_join_associative, lemma_fact_join_bottom,
    lemma_fact_join_commutative, lemma_fact_join_idempotent, AdviceFact, FactView,
};
use super::ir::{key_of, Var, VarKey};

verus! {

/// Analysis-visible storage location tracked by the abstract state.
#[derive(Debug, Clone, Copy, PartialEq, Eq, Hash, Structural)]
pub enum AdvicePlace {
    /// An SSA value of the lifted program.
    Var(VarKey),
    /// A local slot in the current procedure frame.
    Local(u32),
}

impl ExactKey for AdvicePlace {
    fn same_key(&self, other: &Self) -> (r: bool) {
        match (self, other) {
            (AdvicePlace::Var(a), AdvicePlace::Var(b)) => a.index == b.index,
            (AdvicePlace::Local(a), AdvicePlace::Local(b)) => *a == *b,
            _ => false,
        }
    }
}

impl AdvicePlace {
    /// Build a place referring to an SSA value.
    pub fn var(var: &Var) -> (r: Self)
        ensures
            r == AdvicePlace::Var(key_of(*var)),
    {
        AdvicePlace::Var(VarKey::from_var(var))
    }

    /// Build a place referring to a local slot.
    pub fn local(slot: u32) -> (r: Self)
        ensures
            r == AdvicePlace::Local(slot),
    {
        AdvicePlace::Local(slot)
    }
}

/// Exact witness that a boolean value was computed as `x == 0`.
#[derive(Debug, Clone, Copy, PartialEq, Eq, Structural)]
pub struct EqZeroWitness {
    /// Alias identity of the value compared against zero.
    pub value_identity: VarKey,
}

impl View for EqZeroWitness {
    type V = EqZeroWitness;

    open spec fn view(&self) -> EqZeroWitness {
        *self
    }
}

impl AbstractValue for EqZeroWitness {
    fn duplicate(&self) -> (r: Self) {
        *self
    }

    fn same_value(&self, other: &Self) -> (r: bool) {
        self.value_identity.index == other.value_identity.index
    }
}

/// The meaning of an abstract state.
#[verifier::ext_equal]
pub struct StateView {
    /// Provenance of each tracked place.
    pub facts: Map<AdvicePlace, FactView>,
    /// Alias identity of variables that copy another value.
    pub aliases: Map<VarKey, VarKey>,
    /// Alias identity of the value stored in a local slot.
    pub local_aliases: Map<u32, VarKey>,
    /// `eq.0` witnesses carried by variables.
    pub zero_tests: Map<VarKey, EqZeroWitness>,
    /// `eq.0` witnesses carried by local slots.
    pub local_zero_tests: Map<u32, EqZeroWitness>,
    /// Alias identities proven non-zero on the current path.
    pub nonzero: Set<VarKey>,
}

/// The state that tracks nothing.
pub open spec fn empty_state() -> StateView {
    StateView {
        facts: Map::empty(),
        aliases: Map::empty(),
        local_aliases: Map::empty(),
        zero_tests: Map::empty(),
        local_zero_tests: Map::empty(),
        nonzero: Set::empty(),
    }
}

/// The fact of `place`, bottom when untracked.
pub open spec fn place_fact(s: StateView, place: AdvicePlace) -> FactView {
    if s.facts.contains_key(place) {
        s.facts[place]
    } else {
        fact_bottom()
    }
}

/// The fact of variable `var`.
pub open spec fn var_fact(s: StateView, var: Var) -> FactView {
    place_fact(s, AdvicePlace::Var(key_of(var)))
}

/// The fact of local slot `slot`.
pub open spec fn local_fact(s: StateView, slot: u32) -> FactView {
    place_fact(s, AdvicePlace::Local(slot))
}

/// The alias identity of `var`: its recorded alias, or its own key.
pub open spec fn var_identity(s: StateView, var: Var) -> VarKey {
    if s.aliases.contains_key(key_of(var)) {
        s.aliases[key_of(var)]
    } else {
        key_of(var)
    }
}

/// The value of `k` in `m`, if any.
pub open spec fn lookup<K, V>(m: Map<K, V>, k: K) -> Option<V> {
    if m.contains_key(k) {
        Some(m[k])
    } else {
        None
    }
}

/// `m` with `k` bound to the value of `v`, or unbound when `v` is `None`.
pub open spec fn update<K, V>(m: Map<K, V>, k: K, v: Option<V>) -> Map<K, V> {
    match v {
        Some(x) => m.insert(k, x),
        None => m.remove(k),
    }
}

/// `s` with the fact of `place` set to `fact`.
pub open spec fn with_place_fact(s: StateView, place: AdvicePlace, fact: FactView) -> StateView {
    StateView { facts: s.facts.insert(place, fact), ..s }
}

/// `s` with the alias of `var` recorded as `identity` (or dropped when it is `var` itself).
pub open spec fn with_var_identity(s: StateView, var: Var, identity: VarKey) -> StateView {
    if identity == key_of(var) {
        StateView { aliases: s.aliases.remove(key_of(var)), ..s }
    } else {
        StateView { aliases: s.aliases.insert(key_of(var), identity), ..s }
    }
}

/// `s` without an alias for `var`.
pub open spec fn without_var_identity(s: StateView, var: Var) -> StateView {
    StateView { aliases: s.aliases.remove(key_of(var)), ..s }
}

/// `s` with the zero-test witness of `var` set to `w`.
pub open spec fn with_var_zero_test(s: StateView, var: Var, w: Option<EqZeroWitness>) -> StateView {
    StateView { zero_tests: update(s.zero_tests, key_of(var), w), ..s }
}

/// `s` without alias or zero-test metadata for `var`.
pub open spec fn without_var_metadata(s: StateView, var: Var) -> StateView {
    with_var_zero_test(without_var_identity(s, var), var, None)
}

/// Join of two states: facts joined place by place, metadata kept where both agree, non-zero
/// identities kept where both prove them.
pub open spec fn state_join(a: StateView, b: StateView) -> StateView {
    StateView {
        facts: Map::new(
            |p: AdvicePlace| a.facts.contains_key(p) || b.facts.contains_key(p),
            |p: AdvicePlace| fact_join(place_fact(a, p), place_fact(b, p)),
        ),
        aliases: agreement(a.aliases, b.aliases),
        local_aliases: agreement(a.local_aliases, b.local_aliases),
        zero_tests: agreement(a.zero_tests, b.zero_tests),
        local_zero_tests: agreement(a.local_zero_tests, b.local_zero_tests),
        nonzero: a.nonzero.intersect(b.nonzero),
    }
}

/// Abstract machine state at one program point.
#[derive(Debug)]
pub struct AdviceState {
    facts: ValueMap<AdvicePlace, AdviceFact>,
    aliases: ValueMap<VarKey, VarKey>,
    local_aliases: ValueMap<u32, VarKey>,
    zero_tests: ValueMap<VarKey, EqZeroWitness>,
    local_zero_tests: ValueMap<u32, EqZeroWitness>,
    nonzero_identities: KeySet<VarKey>,
}

/// The analysis environment: the abstract state at the current program point.
pub type Env = AdviceState;

impl View for AdviceState {
    type V = StateView;

    closed spec fn view(&self) -> StateView {
        StateView {
            facts: self.facts.map(),
            aliases: self.aliases.map(),
            local_aliases: self.local_aliases.map(),
            zero_tests: self.zero_tests.map(),
            local_zero_tests: self.local_zero_tests.map(),
            nonzero: self.nonzero_identities@,
        }
    }
}

impl AdviceState {
    /// The internal tables are well formed.
    pub closed spec fn inv(self) -> bool {
        &&& self.facts.wf()
        &&& self.aliases.wf()
        &&& self.local_aliases.wf()
        &&& self.zero_tests.wf()
        &&& self.local_zero_tests.wf()
    }

    /// The state that tracks nothing.
    pub fn new() -> (r: Self)
        ensures
            r.inv(),
            r@ == empty_state(),
    {
        let r = AdviceState {
            facts: ValueMap::new(),
            aliases: ValueMap::new(),
            local_aliases: ValueMap::new(),
            zero_tests: ValueMap::new(),
            local_zero_tests: ValueMap::new(),
            nonzero_identities: KeySet::empty(),
        };
        assert(r@ =~= empty_state());
        r
    }

    /// Read the current fact for a tracked place.
    pub fn fact_for_place(&self, place: &AdvicePlace) -> (r: AdviceFact)
        requires
            self.inv(),
        ensures
            r@ == place_fact(self@, *place),
    {
        match self.facts.get(place) {
            Some(fact) => fact.duplicate(),
            None => AdviceFact::bottom(),
        }
    }

    /// Set the current fact for a tracked place.
    pub fn set_place_fact(&mut self, place: AdvicePlace, fact: AdviceFact)
        requires
            old(self).inv(),
        ensures
            final(self).inv(),
            final(self)@ == with_place_fact(old(self)@, place, fact@),
    {
        self.facts.insert(place, fact);
        assert(self@ =~= with_place_fact(old(self)@, place, fact@));
    }

    /// Read the current fact for a variable.
    pub fn fact_for_var(&self, var: &Var) -> (r: AdviceFact)
        requires
            self.inv(),
        ensures
            r@ == var_fact(self@, *var),
    {
        self.fact_for_place(&AdvicePlace::var(var))
    }

    /// Set the current fact for a variable.
    pub fn set_var_fact(&mut self, var: &Var, fact: AdviceFact)
        requires
            old(self).inv(),
        ensures
            final(self).inv(),
            final(self)@ == with_place_fact(old(self)@, AdvicePlace::Var(key_of(*var)), fact@),
    {
        self.set_place_fact(AdvicePlace::var(var), fact);
    }

    /// Read the current fact for a local slot.
    pub fn fact_for_local(&self, slot: u32) -> (r: AdviceFact)
        requires
            self.inv(),
        ensures
            r@ == local_fact(self@, slot),
    {
        self.fact_for_place(&AdvicePlace::local(slot))
    }

    /// Set the current fact for a local slot.
    pub fn set_local_fact(&mut self, slot: u32, fact: AdviceFact)
        requires
            old(self).inv(),
        ensures
            final(self).inv(),
            final(self)@ == with_place_fact(old(self)@, AdvicePlace::Local(slot), fact@),
    {
        self.set_place_fact(AdvicePlace::local(slot), fact);
    }

    /// Return the alias identity for a variable.
    pub fn identity_for_var(&self, var: &Var) -> (r: VarKey)
        requires
            self.inv(),
        ensures
            r == var_identity(self@, *var),
    {
        let key = VarKey::from_var(var);
        match self.aliases.get(&key) {
            Some(identity) => *identity,
            None => key,
        }
    }

    /// Return the alias identity for a local slot, if known.
    pub fn identity_for_local(&self, slot: u32) -> (r: Option<VarKey>)
        requires
            self.inv(),
        ensures
            r == lookup(self@.local_aliases, slot),
    {
        match self.local_aliases.get(&slot) {
            Some(identity) => Some(*identity),
            None => None,
        }
    }

    /// Set the alias identity for a variable.
    pub fn set_var_identity(&mut self, var: &Var, identity: VarKey)
        requires
            old(self).inv(),
        ensures
            final(self).inv(),
            final(self)@ == with_var_identity(old(self)@, *var, identity),
    {
        let key = VarKey::from_var(var);
        if identity.same_key(&key) {
            self.aliases.remove(&key);
        } else {
            self.aliases.insert(key, identity);
        }
        assert(self@ =~= with_var_identity(old(self)@, *var, identity));
    }

    /// Clear any alias identity for a variable.
    pub fn clear_var_identity(&mut self, var: &Var)
        requires
            old(self).inv(),
        ensures
            final(self).inv(),
            final(self)@ == without_var_identity(old(self)@, *var),
    {
        self.aliases.remove(&VarKey::from_var(var));
        assert(self@ =~= without_var_identity(old(self)@, *var));
    }

    /// Set the alias identity for a local slot.
    pub fn set_local_identity(&mut self, slot: u32, identity: Option<VarKey>)
        requires
            old(self).inv(),
        ensures
            final(self).inv(),
            final(self)@ == (StateView {
                local_aliases: update(old(self)@.local_aliases, slot, identity),
                ..old(self)@
            }),
    {
        match identity {
            Some(identity) => {
                self.local_aliases.insert(slot, identity);
            },
            None => {
                self.local_aliases.remove(&slot);
            },
        }
        assert(self@ =~= (StateView {
            local_aliases: update(old(self)@.local_aliases, slot, identity),
            ..old(self)@
        }));
    }

    /// Return the zero-test witness for a variable, if any.
    pub fn zero_test_for_var(&self, var: &Var) -> (r: Option<EqZeroWitness>)
        requires
            self.inv(),
        ensures
            r == lookup(self@.zero_tests, key_of(*var)),
    {
        match self.zero_tests.get(&VarKey::from_var(var)) {
            Some(w) => Some(*w),
            None => None,
        }
    }

    /// Return the zero-test witness for a local slot, if any.
    pub fn zero_test_for_local(&self, slot: u32) -> (r: Option<EqZeroWitness>)
        requires
            self.inv(),
        ensures
            r == lookup(self@.local_zero_tests, slot),
    {
        match self.local_zero_tests.get(&slot) {
            Some(w) => Some(*w),
            None => None,
        }
    }

    /// Set the zero-test witness for a variable.
    pub fn set_var_zero_test(&mut self, var: &Var, witness: Option<EqZeroWitness>)
        requires
            old(self).inv(),
        ensures
            final(self).inv(),
            final(self)@ == with_var_zero_test(old(self)@, *var, witness),
    {
        match witness {
            Some(w) => {
                self.zero_tests.insert(VarKey::from_var(var), w);
            },
            None => {
                self.zero_tests.remove(&VarKey::from_var(var));
            },
        }
        assert(self@ =~= with_var_zero_test(old(self)@, *var, witness));
    }

    /// Set the zero-test witness for a local slot.
    pub fn set_local_zero_test(&mut self, slot: u32, witness: Option<EqZeroWitness>)
        requires
            old(self).inv(),
        ensures
            final(self).inv(),
            final(self)@ == (StateView {
                local_zero_tests: update(old(self)@.local_zero_tests, slot, witness),
                ..old(self)@
            }),
    {
        match witness {
            Some(w) => {
                self.local_zero_tests.insert(slot, w);
            },
            None => {
                self.local_zero_tests.remove(&slot);
            },
        }
        assert(self@ =~= (StateView {
            local_zero_tests: update(old(self)@.local_zero_tests, slot, witness),
            ..old(self)@
        }));
    }

    /// Return true if the variable is proven non-zero on the current path.
    pub fn is_var_nonzero(&self, var: &Var) -> (r: bool)
        requires
            self.inv(),
        ensures
            r == self@.nonzero.contains(var_identity(self@, *var)),
    {
        let identity = self.identity_for_var(var);
        self.nonzero_identities.contains(&identity)
    }

    /// Mark the given alias identity as non-zero on the current path.
    pub fn mark_identity_nonzero(&mut self, identity: VarKey)
        requires
            old(self).inv(),
        ensures
            final(self).inv(),
            final(self)@ == (StateView { nonzero: old(self)@.nonzero.insert(identity), ..old(self)@ }),
    {
        self.nonzero_identities.insert(identity);
        assert(self@ =~= (StateView {
            nonzero: old(self)@.nonzero.insert(identity),
            ..old(self)@
        }));
    }

    /// Clear all best-effort metadata for a variable definition.
    pub fn clear_var_metadata(&mut self, var: &Var)
        requires
            old(self).inv(),
        ensures
            final(self).inv(),
            final(self)@ == without_var_metadata(old(self)@, *var),
    {
        self.clear_var_identity(var);
        self.set_var_zero_test(var, None);
    }

    /// Sanitize a variable from this point onward.
    pub fn sanitize_var(&mut self, var: &Var)
        requires
            old(self).inv(),
        ensures
            final(self).inv(),
            final(self)@ == with_place_fact(old(self)@, AdvicePlace::Var(key_of(*var)), fact_bottom()),
    {
        self.set_var_fact(var, AdviceFact::bottom());
    }

    /// Return a state with the same meaning.
    pub fn duplicate(&self) -> (r: Self)
        requires
            self.inv(),
        ensures
            r.inv(),
            r@ == self@,
    {
        let r = AdviceState {
            facts: self.facts.duplicate(),
            aliases: self.aliases.duplicate(),
            local_aliases: self.local_aliases.duplicate(),
            zero_tests: self.zero_tests.duplicate(),
            local_zero_tests: self.local_zero_tests.duplicate(),
            nonzero_identities: self.nonzero_identities.duplicate(),
        };
        assert(r@ =~= self@);
        r
    }

    /// Return whether two states have the same meaning.
    pub fn same_state(&self, other: &Self) -> (r: bool)
        requires
            self.inv(),
            other.inv(),
        ensures
            r == (self@ == other@),
    {
        let r = self.facts.same_map(&other.facts) && self.aliases.same_map(&other.aliases)
            && self.local_aliases.same_map(&other.local_aliases) && self.zero_tests.same_map(
            &other.zero_tests,
        ) && self.local_zero_tests.same_map(&other.local_zero_tests)
            && self.nonzero_identities.same_set(&other.nonzero_identities);
        proof {
            if r {
                assert(self@ =~= other@);
            }
        }
        r
    }

    /// Join two abstract states conservatively.
    pub fn join(&self, other: &Self) -> (r: Self)
        requires
            self.inv(),
            other.inv(),
        ensures
            r.inv(),
            r@ == state_join(self@, other@),
    {
        let facts = join_facts(&self.facts, &other.facts);
        let r = AdviceState {
            facts,
            aliases: self.aliases.agreeing_entries(&other.aliases),
            local_aliases: self.local_aliases.agreeing_entries(&other.local_aliases),
            zero_tests: self.zero_tests.agreeing_entries(&other.zero_tests),
            local_zero_tests: self.local_zero_tests.agreeing_entries(&other.local_zero_tests),
            nonzero_identities: self.nonzero_identities.intersect(&other.nonzero_identities),
        };
        assert(r@ =~= state_join(self@, other@));
        r
    }

    /// Join `other` into this state and report whether the state changed.
    pub fn join_assign(&mut self, other: &Self) -> (changed: bool)
        requires
            old(self).inv(),
            other.inv(),
        ensures
            final(self).inv(),
            final(self)@ == state_join(old(self)@, other@),
            changed == (old(self)@ != state_join(old(self)@, other@)),
    {
        let joined = self.join(other);
        let changed = !self.same_state(&joined);
        *self = joined;
        changed
    }
}

/// The fact of `p` in map `m`, bottom when absent.
pub open spec fn map_fact(m: Map<AdvicePlace, FactView>, p: AdvicePlace) -> FactView {
    if m.contains_key(p) {
        m[p]
    } else {
        fact_bottom()
    }
}

/// Join two fact tables place by place.
fn join_facts(
    a: &ValueMap<AdvicePlace, AdviceFact>,
    b: &ValueMap<AdvicePlace, AdviceFact>,
) -> (r: ValueMap<AdvicePlace, AdviceFact>)
    requires
        a.wf(),
        b.wf(),
    ensures
        r.wf(),
        r.map() == Map::new(
            |p: AdvicePlace| a.map().contains_key(p) || b.map().contains_key(p),
            |p: AdvicePlace| fact_join(map_fact(a.map(), p), map_fact(b.map(), p)),
        ),
{
    let mut joined = a.duplicate();
    let ghost keys = b.key_seq();
    let mut i: usize = 0;
    proof {
        b.lemma_keys();
    }
    while i < b.len()
        invariant
            i <= keys.len(),
            keys == b.key_seq(),
            keys.no_duplicates(),
            b.wf(),
            joined.wf(),
            joined.map() == Map::new(
                |p: AdvicePlace| a.map().contains_key(p) || keys.take(i as int).contains(p),
                |p: AdvicePlace|
                    if keys.take(i as int).contains(p) {
                        fact_join(map_fact(a.map(), p), map_fact(b.map(), p))
                    } else {
                        a.map()[p]
                    },
            ),
        decreases keys.len() - i,
    {
        let place = b.key_at(i);
        let fact = b.value_at(i);
        let current = match joined.get(&place) {
            Some(f) => f.duplicate(),
            None => AdviceFact::bottom(),
        };
        let ghost before = joined.map();
        proof {
            assert(!keys.take(i as int).contains(place)) by {
                if keys.take(i as int).contains(place) {
                    let t = keys.take(i as int);
                    let j = choose|j: int| 0 <= j < t.len() && t[j] == place;
                    assert(keys[j] == place);
                }
            }
            assert(current@ == map_fact(a.map(), place));
        }
        joined.insert(place, current.join(fact));
        proof {
            assert forall|p: AdvicePlace|
                keys.take(i + 1).contains(p) <==> (keys.take(i as int).contains(p) || p == place) by {
                let t1 = keys.take(i + 1);
                let t0 = keys.take(i as int);
                if t1.contains(p) {
                    let j = choose|j: int| 0 <= j < t1.len() && t1[j] == p;
                    if j < i {
                        assert(t0[j] == p);
                    }
                }
                if t0.contains(p) {
                    let j = choose|j: int| 0 <= j < t0.len() && t0[j] == p;
                    assert(t1[j] == p);
                }
                if p == place {
                    assert(t1[i as int] == p);
                }
            }
            assert(joined.map() =~= Map::new(
                |p: AdvicePlace| a.map().contains_key(p) || keys.take(i + 1).contains(p),
                |p: AdvicePlace|
                    if keys.take(i + 1).contains(p) {
                        fact_join(map_fact(a.map(), p), map_fact(b.map(), p))
                    } else {
                        a.map()[p]
                    },
            ));
        }
        i = i + 1;
    }
    proof {
        assert(keys.take(i as int) =~= keys);
        assert forall|p: AdvicePlace| a.map().contains_key(p) && !keys.contains(p) implies a.map()[p]
            == fact_join(map_fact(a.map(), p), map_fact(b.map(), p)) by {
            assert(!b.map().contains_key(p));
            assert(fact_join(a.map()[p], fact_bottom()) =~= a.map()[p]);
        }
        assert(joined.map() =~= Map::new(
            |p: AdvicePlace| a.map().contains_key(p) || b.map().contains_key(p),
            |p: AdvicePlace| fact_join(map_fact(a.map(), p), map_fact(b.map(), p)),
        ));
    }
    joined
}

impl Default for AdviceState {
    fn default() -> (r: Self)
        ensures
            r.inv(),
            r@ == empty_state(),
    {
        AdviceState::new()
    }
}

/// Retain only entries that are present in both maps with the same value.
pub fn agreeing_entries<K: ExactKey, V: AbstractValue>(lhs: &ValueMap<K, V>, rhs: &ValueMap<K, V>) -> (r:
    ValueMap<K, V>)
    requires
        lhs.wf(),
        rhs.wf(),
    ensures
        r.wf(),
        r.map() == agreement(lhs.map(), rhs.map()),
{
    lhs.agreeing_entries(rhs)
}

/// The fact of a place in a joined state is the join of its facts in both states.
pub proof fn lemma_place_fact_join(a: StateView, b: StateView, p: AdvicePlace)
    ensures
        place_fact(state_join(a, b), p) == fact_join(place_fact(a, p), place_fact(b, p)),
{
    if !a.facts.contains_key(p) && !b.facts.contains_key(p) {
        lemma_fact_join_bottom(fact_bottom());
    }
}

/// Joining states is commutative.
pub proof fn lemma_state_join_commutative(a: StateView, b: StateView)
    ensures
        state_join(a, b) == state_join(b, a),
{
    let l = state_join(a, b);
    let r = state_join(b, a);
    assert forall|p: AdvicePlace| l.facts.contains_key(p) implies l.facts[p] == r.facts[p] by {
        lemma_fact_join_commutative(place_fact(a, p), place_fact(b, p));
    }
    assert(l.facts =~= r.facts);
    assert(l.aliases =~= r.aliases);
    assert(l.local_aliases =~= r.local_aliases);
    assert(l.zero_tests =~= r.zero_tests);
    assert(l.local_zero_tests =~= r.local_zero_tests);
    assert(l.nonzero =~= r.nonzero);
}

/// Joining states is associative.
pub proof fn lemma_state_join_associative(a: StateView, b: StateView, c: StateView)
    ensures
        state_join(state_join(a, b), c) == state_join(a, state_join(b, c)),
{
    let l = state_join(state_join(a, b), c);
    let r = state_join(a, state_join(b, c));
    assert forall|p: AdvicePlace| l.facts.contains_key(p) implies l.facts[p] == r.facts[p] by {
        lemma_place_fact_join(a, b, p);
        lemma_place_fact_join(b, c, p);
        lemma_fact_join_associative(place_fact(a, p), place_fact(b, p), place_fact(c, p));
    }
    assert(l.facts =~= r.facts);
    assert(l.aliases =~= r.aliases);
    assert(l.local_aliases =~= r.local_aliases);
    assert(l.zero_tests =~= r.zero_tests);
    assert(l.local_zero_tests =~= r.local_zero_tests);
    assert(l.nonzero =~= r.nonzero);
}

/// Joining a state with itself changes nothing.
pub proof fn lemma_state_join_idempotent(a: StateView)
    ensures
        state_join(a, a) == a,
{
    let l = state_join(a, a);
    assert forall|p: AdvicePlace| l.facts.contains_key(p) implies l.facts[p] == a.facts[p] by {
        lemma_fact_join_idempotent(a.facts[p]);
    }
    assert(l.facts =~= a.facts);
    assert(l.aliases =~= a.aliases);
    assert(l.local_aliases =~= a.local_aliases);
    assert(l.zero_tests =~= a.zero_tests);
    assert(l.local_zero_tests =~= a.local_zero_tests);
    assert(l.nonzero =~= a.nonzero);
}

/// Joining the same state a second time changes nothing: a second `join_assign` with the
/// same argument reports no change.
pub proof fn lemma_state_join_absorbs(a: StateView, b: StateView)
    ensures
        state_join(state_join(a, b), b) == state_join(a, b),
{
    lemma_state_join_associative(a, b, b);
    lemma_state_join_idempotent(b);
}

/// The joined state is above both operands: joining either operand into it changes nothing.
pub proof fn lemma_state_join_upper_bound(a: StateView, b: StateView)
    ensures
        state_join(state_join(a, b), a) == state_join(a, b),
        state_join(state_join(a, b), b) == state_join(a, b),
{
    lemma_state_join_absorbs(a, b);
    lemma_state_join_commutative(a, b);
    lemma_state_join_absorbs(b, a);
}

} // verus!
