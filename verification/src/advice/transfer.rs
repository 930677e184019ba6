//! Transfer functions of the unconstrained-advice analysis.
//!
//! Each function states, over the [`StateView`] of the environment, exactly which facts and
//! metadata it writes.
use vstd::prelude::*;

use super::collections::{lemma_take_to_set_step, AbstractValue};
use super::domain::{fact_bottom, fact_join, lemma_fact_join_bottom, AdviceFact, FactView};
use super::ir::{key_of, BinOp, Expr, Intrinsic, LocalAccessKind, LoopPhi, Stmt, UnOp, Var, VarKey};
use super::state::{
    empty_state, local_fact, lookup, state_join, update, var_fact, var_identity, with_place_fact,
    with_var_identity, with_var_zero_test, without_var_identity, without_var_metadata, AdvicePlace,
    EqZeroWitness, Env, StateView,
};
use super::summary::{fact_views, summary_lookup, AdviceSummaryMap};
use crate::span::SourceSpan;
use crate::text::{before_first_dot, starts_with, str_before_first_dot, str_equal, str_starts_with};

verus! {

/// Maximum number of loop-approximation passes.
pub const MAX_LOOP_PASSES: usize = 32;

// ---------------------------------------------------------------------------------------------
// Names of intrinsics
// ---------------------------------------------------------------------------------------------

/// Return the base intrinsic name before immediates or `.err=*` suffixes.
pub fn intrinsic_base_name(name: &str) -> (r: &str)
    ensures
        r@ == before_first_dot(name@),
{
    str_before_first_dot(name)
}

/// The base names of `U32` intrinsics that do not require `U32` operands.
pub open spec fn is_u32_exempt(base: Seq<char>) -> bool {
    ||| base == "u32assert"@
    ||| base == "u32assert2"@
    ||| base == "u32assertw"@
    ||| base == "u32cast"@
    ||| base == "u32split"@
    ||| base == "u32test"@
    ||| base == "u32testw"@
}

/// The intrinsic named `name` requires caller-side `U32` operands.
pub open spec fn requires_u32(name: Seq<char>) -> bool {
    starts_with(name, "u32"@) && !is_u32_exempt(before_first_dot(name))
}

/// Return true if an intrinsic requires caller-side `U32` preconditions.
pub fn intrinsic_requires_u32_precondition(name: &str) -> (r: bool)
    ensures
        r == requires_u32(name@),
{
    if !str_starts_with(name, "u32") {
        return false;
    }
    let base = intrinsic_base_name(name);
    let exempt = str_equal(base, "u32assert") || str_equal(base, "u32assert2") || str_equal(
        base,
        "u32assertw",
    ) || str_equal(base, "u32cast") || str_equal(base, "u32split") || str_equal(base, "u32test")
        || str_equal(base, "u32testw");
    !exempt
}

// ---------------------------------------------------------------------------------------------
// Small syntactic helpers
// ---------------------------------------------------------------------------------------------

/// Return the sole variable in the slice, if there is exactly one.
pub fn single_var(vars: &[Var]) -> (r: Option<&Var>)
    ensures
        r == (if vars@.len() == 1 {
            Some(&vars@[0])
        } else {
            None
        }),
{
    if vars.len() == 1 {
        Some(&vars[0])
    } else {
        None
    }
}

/// The variable compared against zero in an `eq.0`-shaped comparison of `lhs` and `rhs`.
pub open spec fn zero_compared(lhs: Expr, rhs: Expr) -> Option<Var> {
    match (lhs, rhs) {
        (Expr::Var(v), Expr::Constant(c)) => if c == 0 {
            Some(v)
        } else {
            None
        },
        (Expr::Constant(c), Expr::Var(v)) => if c == 0 {
            Some(v)
        } else {
            None
        },
        _ => None,
    }
}

/// Return the variable compared against zero in an `eq.0`-shaped expression.
pub fn zero_comparison_var<'a>(lhs: &'a Expr, rhs: &'a Expr) -> (r: Option<&'a Var>)
    ensures
        match r {
            Some(v) => zero_compared(*lhs, *rhs) == Some(*v),
            None => zero_compared(*lhs, *rhs) is None,
        },
{
    match (lhs, rhs) {
        (Expr::Var(var), Expr::Constant(constant)) => if *constant == 0 {
            Some(var)
        } else {
            None
        },
        (Expr::Constant(constant), Expr::Var(var)) => if *constant == 0 {
            Some(var)
        } else {
            None
        },
        _ => None,
    }
}

/// Source span of a statement.
pub open spec fn span_of(stmt: Stmt) -> SourceSpan {
    match stmt {
        Stmt::Assign { span } => span,
        Stmt::MemLoad { span } => span,
        Stmt::MemStore { span } => span,
        Stmt::AdvLoad { span } => span,
        Stmt::AdvStore { span } => span,
        Stmt::LocalLoad { span } => span,
        Stmt::LocalStore { span } => span,
        Stmt::LocalStoreW { span } => span,
        Stmt::Call { span } => span,
        Stmt::Exec { span } => span,
        Stmt::SysCall { span } => span,
        Stmt::DynCall { span } => span,
        Stmt::Intrinsic { span } => span,
        Stmt::Repeat { span } => span,
        Stmt::If { span } => span,
        Stmt::While { span } => span,
        Stmt::Return { span } => span,
    }
}

/// Return the statement span for a structured statement.
pub fn stmt_span(stmt: &Stmt) -> (r: SourceSpan)
    ensures
        r == span_of(*stmt),
{
    match stmt {
        Stmt::Assign { span } => *span,
        Stmt::MemLoad { span } => *span,
        Stmt::MemStore { span } => *span,
        Stmt::AdvLoad { span } => *span,
        Stmt::AdvStore { span } => *span,
        Stmt::LocalLoad { span } => *span,
        Stmt::LocalStore { span } => *span,
        Stmt::LocalStoreW { span } => *span,
        Stmt::Call { span } => *span,
        Stmt::Exec { span } => *span,
        Stmt::SysCall { span } => *span,
        Stmt::DynCall { span } => *span,
        Stmt::Intrinsic { span } => *span,
        Stmt::Repeat { span } => *span,
        Stmt::If { span } => *span,
        Stmt::While { span } => *span,
        Stmt::Return { span } => *span,
    }
}

// ---------------------------------------------------------------------------------------------
// Expressions
// ---------------------------------------------------------------------------------------------

/// The alias identity of an expression that is a plain copy of a variable.
pub open spec fn identity_of(s: StateView, expr: Expr) -> Option<VarKey> {
    match expr {
        Expr::Var(v) => Some(var_identity(s, v)),
        _ => None,
    }
}

/// The exact `eq.0` witness an expression carries.
pub open spec fn witness_of(s: StateView, expr: Expr) -> Option<EqZeroWitness> {
    match expr {
        Expr::Var(v) => lookup(s.zero_tests, key_of(v)),
        Expr::Binary(BinOp::Eq, lhs, rhs) => match zero_compared(*lhs, *rhs) {
            Some(v) => Some(EqZeroWitness { value_identity: var_identity(s, v) }),
            None => None,
        },
        _ => None,
    }
}

/// The expression is proven non-zero: a non-zero constant, or a variable whose identity is
/// known to be non-zero.
pub open spec fn proven_nonzero(s: StateView, expr: Expr) -> bool {
    match expr {
        Expr::Constant(c) => c != 0,
        Expr::Var(v) => s.nonzero.contains(var_identity(s, v)),
        _ => false,
    }
}

/// Unary operators whose result carries the provenance of their operand.
pub open spec fn unop_propagates(op: UnOp) -> bool {
    op == UnOp::Neg || op == UnOp::Inv || op == UnOp::Pow2
}

/// Binary operators whose result carries the provenance of both operands.
pub open spec fn binop_propagates(op: BinOp) -> bool {
    op == BinOp::Add || op == BinOp::Sub || op == BinOp::Mul || op == BinOp::Div
}

/// Provenance of an expression's result: field arithmetic propagates its operands, a ternary
/// propagates both branches, and comparisons, bitwise and `U32` operations sanitize.
pub open spec fn output_fact(s: StateView, expr: Expr) -> FactView
    decreases expr,
{
    match expr {
        Expr::Var(v) => var_fact(s, v),
        Expr::Ternary { then_expr, else_expr, .. } => fact_join(
            output_fact(s, *then_expr),
            output_fact(s, *else_expr),
        ),
        Expr::Unary(op, inner) => if unop_propagates(op) {
            output_fact(s, *inner)
        } else {
            fact_bottom()
        },
        Expr::Binary(op, lhs, rhs) => if binop_propagates(op) {
            fact_join(output_fact(s, *lhs), output_fact(s, *rhs))
        } else {
            fact_bottom()
        },
        _ => fact_bottom(),
    }
}

/// Return the exact alias identity of an expression, when it is a simple copy.
pub fn expr_identity(expr: &Expr, env: &Env) -> (r: Option<VarKey>)
    requires
        env.inv(),
    ensures
        r == identity_of(env@, *expr),
{
    match expr {
        Expr::Var(var) => Some(env.identity_for_var(var)),
        _ => None,
    }
}

/// Return the exact `eq.0` witness carried by an expression, if any.
pub fn eq_zero_witness_for_expr(expr: &Expr, env: &Env) -> (r: Option<EqZeroWitness>)
    requires
        env.inv(),
    ensures
        r == witness_of(env@, *expr),
{
    match expr {
        Expr::Var(var) => env.zero_test_for_var(var),
        Expr::Binary(op, lhs, rhs) => {
            if *op == BinOp::Eq {
                match zero_comparison_var(lhs, rhs) {
                    Some(var) => Some(EqZeroWitness { value_identity: env.identity_for_var(var) }),
                    None => None,
                }
            } else {
                None
            }
        },
        _ => None,
    }
}

/// Return true when the expression is proven non-zero by the best-effort refinement.
pub fn expr_is_proven_nonzero(expr: &Expr, env: &Env) -> (r: bool)
    requires
        env.inv(),
    ensures
        r == proven_nonzero(env@, *expr),
{
    match expr {
        Expr::Constant(constant) => *constant != 0,
        Expr::Var(var) => env.is_var_nonzero(var),
        _ => false,
    }
}

/// Compute the provenance fact for an expression result.
pub fn expr_output_fact(expr: &Expr, env: &Env) -> (r: AdviceFact)
    requires
        env.inv(),
    ensures
        r@ == output_fact(env@, *expr),
    decreases expr,
{
    match expr {
        Expr::Var(var) => env.fact_for_var(var),
        Expr::Ternary { then_expr, else_expr, .. } => {
            let t = expr_output_fact(then_expr, env);
            let e = expr_output_fact(else_expr, env);
            t.join(&e)
        },
        Expr::Unary(op, inner) => match op {
            UnOp::Neg | UnOp::Inv | UnOp::Pow2 => expr_output_fact(inner, env),
            _ => AdviceFact::bottom(),
        },
        Expr::Binary(op, lhs, rhs) => match op {
            BinOp::Add | BinOp::Sub | BinOp::Mul | BinOp::Div => {
                let l = expr_output_fact(lhs, env);
                let r = expr_output_fact(rhs, env);
                l.join(&r)
            },
            _ => AdviceFact::bottom(),
        },
        _ => AdviceFact::bottom(),
    }
}

// ---------------------------------------------------------------------------------------------
// Sequential definitions of variables
// ---------------------------------------------------------------------------------------------

/// `s` after variable `v` is defined with provenance `f` and no alias or zero-test metadata.
pub open spec fn define_var(s: StateView, v: Var, f: FactView) -> StateView {
    without_var_metadata(with_place_fact(s, AdvicePlace::Var(key_of(v)), f), v)
}

/// `s` after the first `n` of `vars` are defined in order, the `j`-th with the provenance
/// `fact(st, j)` computed in the state `st` reached just before it.
pub open spec fn define_vars(
    s: StateView,
    vars: Seq<Var>,
    n: int,
    fact: spec_fn(StateView, int) -> FactView,
) -> StateView
    decreases n,
{
    if n <= 0 {
        s
    } else {
        let p = define_vars(s, vars, n - 1, fact);
        define_var(p, vars[n - 1], fact(p, n - 1))
    }
}

/// The provenance rule that gives every definition the fact `f`.
pub open spec fn constant_fact(f: FactView) -> spec_fn(StateView, int) -> FactView {
    |st: StateView, j: int| f
}

/// The fact of a value read from the advice provider at `span`.
pub open spec fn source_fact(span: SourceSpan) -> FactView {
    FactView { spans: Set::empty().insert(span), inputs: Set::empty() }
}

/// `s` after the first `n` of `vars` get the bottom fact, keeping their metadata.
pub open spec fn sanitize_vars(s: StateView, vars: Seq<Var>, n: int) -> StateView
    decreases n,
{
    if n <= 0 {
        s
    } else {
        with_place_fact(
            sanitize_vars(s, vars, n - 1),
            AdvicePlace::Var(key_of(vars[n - 1])),
            fact_bottom(),
        )
    }
}

/// Join of the facts of the first `n` of `vars` in `s`.
pub open spec fn vars_fact(s: StateView, vars: Seq<Var>, n: int) -> FactView
    decreases n,
{
    if n <= 0 {
        fact_bottom()
    } else {
        fact_join(vars_fact(s, vars, n - 1), var_fact(s, vars[n - 1]))
    }
}

/// Define each of `vars` with `fact` and no metadata.
fn define_all(env: &mut Env, vars: &[Var], fact: &AdviceFact)
    requires
        old(env).inv(),
    ensures
        final(env).inv(),
        final(env)@ == define_vars(old(env)@, vars@, vars@.len() as int, constant_fact(fact@)),
{
    let ghost s0 = env@;
    let mut i: usize = 0;
    while i < vars.len()
        invariant
            i <= vars@.len(),
            env.inv(),
            env@ == define_vars(s0, vars@, i as int, constant_fact(fact@)),
        decreases vars@.len() - i,
    {
        env.set_var_fact(&vars[i], fact.duplicate());
        env.clear_var_metadata(&vars[i]);
        i = i + 1;
    }
}

/// Join the facts of `vars`.
fn joined_fact(env: &Env, vars: &[Var]) -> (r: AdviceFact)
    requires
        env.inv(),
    ensures
        r@ == vars_fact(env@, vars@, vars@.len() as int),
{
    let mut acc = AdviceFact::bottom();
    let mut i: usize = 0;
    while i < vars.len()
        invariant
            i <= vars@.len(),
            env.inv(),
            acc@ == vars_fact(env@, vars@, i as int),
        decreases vars@.len() - i,
    {
        let f = env.fact_for_var(&vars[i]);
        acc = acc.join(&f);
        i = i + 1;
    }
    acc
}

/// Clear call outputs when the callee is missing or opaque.
fn clear_call_results(env: &mut Env, results: &[Var])
    requires
        old(env).inv(),
    ensures
        final(env).inv(),
        final(env)@ == define_vars(
            old(env)@,
            results@,
            results@.len() as int,
            constant_fact(fact_bottom()),
        ),
{
    let bottom = AdviceFact::bottom();
    define_all(env, results, &bottom);
}

// ---------------------------------------------------------------------------------------------
// Intrinsics
// ---------------------------------------------------------------------------------------------

/// Provenance rule of `adv_pipe` with its full operand shape: the first result is a sanitized
/// address, the next four preserve the capacity word of the inputs, the rest are advice.
pub open spec fn adv_pipe_fact(span: SourceSpan, args: Seq<Var>) -> spec_fn(StateView, int) -> FactView {
    |st: StateView, j: int|
        if j == 0 {
            fact_bottom()
        } else if j < 5 {
            var_fact(st, args[12 - j])
        } else {
            source_fact(span)
        }
}

/// Effect of `adv_pipe` at `span`.
pub open spec fn adv_pipe_effect(s: StateView, span: SourceSpan, args: Seq<Var>, results: Seq<Var>) -> StateView {
    if args.len() == 13 && results.len() == 13 {
        define_vars(s, results, 13, adv_pipe_fact(span, args))
    } else {
        define_vars(s, results, results.len() as int, constant_fact(source_fact(span)))
    }
}

/// Effect of the intrinsic `name` at `span` on `s`.
pub open spec fn intrinsic_effect(
    s: StateView,
    span: SourceSpan,
    name: Seq<char>,
    args: Seq<Var>,
    results: Seq<Var>,
) -> StateView {
    let base = before_first_dot(name);
    let n = results.len() as int;
    if starts_with(name, "adv_push."@) {
        define_vars(s, results, n, constant_fact(source_fact(span)))
    } else if base == "u32assert"@ || base == "u32assert2"@ || base == "u32assertw"@ {
        sanitize_vars(s, args, args.len() as int)
    } else if base == "u32split"@ || base == "is_odd"@ {
        define_vars(s, results, n, constant_fact(fact_bottom()))
    } else if base == "adv_pipe"@ {
        adv_pipe_effect(s, span, args, results)
    } else if base == "mem_stream"@ || base == "sdepth"@ || starts_with(base, "locaddr"@) {
        define_vars(s, results, n, constant_fact(fact_bottom()))
    } else if requires_u32(name) {
        define_vars(s, results, n, constant_fact(fact_bottom()))
    } else {
        define_vars(s, results, n, constant_fact(vars_fact(s, args, args.len() as int)))
    }
}

/// Apply the custom transfer semantics of `adv_pipe`.
fn apply_adv_pipe_effect(span: SourceSpan, intrinsic: &Intrinsic, env: &mut Env)
    requires
        old(env).inv(),
    ensures
        final(env).inv(),
        final(env)@ == adv_pipe_effect(old(env)@, span, intrinsic.args@, intrinsic.results@),
{
    if intrinsic.args.len() == 13 && intrinsic.results.len() == 13 {
        let ghost s0 = env@;
        let mut j: usize = 0;
        while j < 13
            invariant
                j <= 13,
                intrinsic.args@.len() == 13,
                intrinsic.results@.len() == 13,
                env.inv(),
                env@ == define_vars(
                    s0,
                    intrinsic.results@,
                    j as int,
                    adv_pipe_fact(span, intrinsic.args@),
                ),
            decreases 13 - j,
        {
            let fact = if j == 0 {
                AdviceFact::bottom()
            } else if j < 5 {
                env.fact_for_var(&intrinsic.args[12 - j])
            } else {
                AdviceFact::from_source(span)
            };
            env.set_var_fact(&intrinsic.results[j], fact);
            env.clear_var_metadata(&intrinsic.results[j]);
            j = j + 1;
        }
        return;
    }
    let source = AdviceFact::from_source(span);
    define_all(env, intrinsic.results.as_slice(), &source);
}

/// Apply the common provenance transfer semantics of one intrinsic statement.
pub fn apply_intrinsic_effect(span: SourceSpan, intrinsic: &Intrinsic, env: &mut Env)
    requires
        old(env).inv(),
    ensures
        final(env).inv(),
        final(env)@ == intrinsic_effect(
            old(env)@,
            span,
            intrinsic.name@,
            intrinsic.args@,
            intrinsic.results@,
        ),
{
    let name = intrinsic.name.as_str();
    if str_starts_with(name, "adv_push.") {
        let source = AdviceFact::from_source(span);
        define_all(env, intrinsic.results.as_slice(), &source);
        return;
    }
    let base = intrinsic_base_name(name);
    if str_equal(base, "u32assert") || str_equal(base, "u32assert2") || str_equal(
        base,
        "u32assertw",
    ) {
        let ghost s0 = env@;
        let mut i: usize = 0;
        while i < intrinsic.args.len()
            invariant
                i <= intrinsic.args@.len(),
                env.inv(),
                env@ == sanitize_vars(s0, intrinsic.args@, i as int),
            decreases intrinsic.args@.len() - i,
        {
            env.sanitize_var(&intrinsic.args[i]);
            i = i + 1;
        }
    } else if str_equal(base, "u32split") || str_equal(base, "is_odd") {
        clear_call_results(env, intrinsic.results.as_slice());
    } else if str_equal(base, "adv_pipe") {
        apply_adv_pipe_effect(span, intrinsic, env);
    } else if str_equal(base, "mem_stream") || str_equal(base, "sdepth") || str_starts_with(
        base,
        "locaddr",
    ) {
        clear_call_results(env, intrinsic.results.as_slice());
    } else if intrinsic_requires_u32_precondition(name) {
        clear_call_results(env, intrinsic.results.as_slice());
    } else {
        let joined = joined_fact(env, intrinsic.args.as_slice());
        define_all(env, intrinsic.results.as_slice(), &joined);
    }
}

/// Effect of `assertz` on an `eq.0` witness: the compared identity is proven non-zero.
pub open spec fn assertz_refinement(s: StateView, name: Seq<char>, args: Seq<Var>) -> StateView {
    if before_first_dot(name) == "assertz"@ && args.len() > 0 {
        match lookup(s.zero_tests, key_of(args[0])) {
            Some(w) => StateView { nonzero: s.nonzero.insert(w.value_identity), ..s },
            None => s,
        }
    } else {
        s
    }
}

/// Refine the environment after `assertz` proves an `eq.0` witness is zero.
pub fn refine_nonzero_from_intrinsic(intrinsic: &Intrinsic, env: &mut Env)
    requires
        old(env).inv(),
    ensures
        final(env).inv(),
        final(env)@ == assertz_refinement(old(env)@, intrinsic.name@, intrinsic.args@),
{
    if !str_equal(intrinsic_base_name(intrinsic.name.as_str()), "assertz") {
        return;
    }
    if intrinsic.args.len() == 0 {
        return;
    }
    match env.zero_test_for_var(&intrinsic.args[0]) {
        Some(witness) => env.mark_identity_nonzero(witness.value_identity),
        None => {},
    }
}

// ---------------------------------------------------------------------------------------------
// Locals
// ---------------------------------------------------------------------------------------------

/// Effect of storing `values` into local slot `index` as a scalar: the slot gets the joined
/// provenance, and keeps alias and zero-test metadata only for a single stored variable.
pub open spec fn local_store_effect(s: StateView, values: Seq<Var>, index: u32) -> StateView {
    let s1 = with_place_fact(s, AdvicePlace::Local(index), vars_fact(s, values, values.len() as int));
    let identity = if values.len() == 1 {
        Some(var_identity(s1, values[0]))
    } else {
        None
    };
    let witness = if values.len() == 1 {
        lookup(s1.zero_tests, key_of(values[0]))
    } else {
        None
    };
    StateView {
        local_aliases: update(s1.local_aliases, index, identity),
        local_zero_tests: update(s1.local_zero_tests, index, witness),
        ..s1
    }
}

/// Store a scalar local and preserve exact alias metadata when possible.
pub fn apply_local_store(values: &[Var], index: u32, env: &mut Env)
    requires
        old(env).inv(),
    ensures
        final(env).inv(),
        final(env)@ == local_store_effect(old(env)@, values@, index),
{
    let fact = joined_fact(env, values);
    env.set_local_fact(index, fact);
    let identity = match single_var(values) {
        Some(var) => Some(env.identity_for_var(var)),
        None => None,
    };
    let witness = match single_var(values) {
        Some(var) => env.zero_test_for_var(var),
        None => None,
    };
    env.set_local_identity(index, identity);
    env.set_local_zero_test(index, witness);
}

/// Local slot written by the `offset`-th of `len` stored values: canonical slot order follows
/// ascending local-memory addresses.
pub open spec fn store_slot(kind: LocalAccessKind, index: u32, len: int, offset: int) -> int {
    match kind {
        LocalAccessKind::WordBe => index + (len - 1 - offset),
        LocalAccessKind::WordLe => index + offset,
        LocalAccessKind::Element => index as int,
    }
}

/// Local slot read by the `offset`-th of `len` loaded outputs, preserving stack order.
pub open spec fn load_slot(kind: LocalAccessKind, index: u32, len: int, offset: int) -> int {
    match kind {
        LocalAccessKind::WordBe => index + offset,
        LocalAccessKind::WordLe => index + (len - 1 - offset),
        LocalAccessKind::Element => index as int,
    }
}

/// Every slot of a word access of `len` values at `index` is a valid slot number.
pub open spec fn word_slots_fit(kind: LocalAccessKind, index: u32, len: int) -> bool {
    len == 0 || kind == LocalAccessKind::Element || index + len - 1 <= u32::MAX
}

/// `s` after the first `n` of `values` are stored slot by slot: each slot takes the fact of its
/// value and loses its alias and zero-test metadata.
pub open spec fn store_word_effect(
    s: StateView,
    kind: LocalAccessKind,
    values: Seq<Var>,
    index: u32,
    n: int,
) -> StateView
    decreases n,
{
    if n <= 0 {
        s
    } else {
        let p = store_word_effect(s, kind, values, index, n - 1);
        let slot = store_slot(kind, index, values.len() as int, n - 1) as u32;
        StateView {
            facts: p.facts.insert(AdvicePlace::Local(slot), var_fact(p, values[n - 1])),
            local_aliases: p.local_aliases.remove(slot),
            local_zero_tests: p.local_zero_tests.remove(slot),
            ..p
        }
    }
}

/// Store a local word slot-by-slot.
pub fn apply_local_store_word(kind: LocalAccessKind, values: &[Var], index: u32, env: &mut Env)
    requires
        old(env).inv(),
        word_slots_fit(kind, index, values@.len() as int),
    ensures
        final(env).inv(),
        final(env)@ == store_word_effect(old(env)@, kind, values@, index, values@.len() as int),
{
    let ghost s0 = env@;
    let len = values.len();
    let mut offset: usize = 0;
    while offset < len
        invariant
            len == values@.len(),
            offset <= len,
            word_slots_fit(kind, index, len as int),
            env.inv(),
            env@ == store_word_effect(s0, kind, values@, index, offset as int),
        decreases len - offset,
    {
        let slot: u32 = match kind {
            LocalAccessKind::WordBe => index + (len - 1 - offset) as u32,
            LocalAccessKind::WordLe => index + offset as u32,
            LocalAccessKind::Element => index,
        };
        assert(slot == store_slot(kind, index, len as int, offset as int) as u32);
        let fact = env.fact_for_var(&values[offset]);
        env.set_local_fact(slot, fact);
        env.set_local_identity(slot, None);
        env.set_local_zero_test(slot, None);
        assert(env@ =~= store_word_effect(s0, kind, values@, index, offset + 1));
        offset = offset + 1;
    }
}

/// `s` after the first `n` of `outputs` load the scalar local fact `fact`, alias `identity`
/// and zero-test witness `witness`.
pub open spec fn load_scalar_effect(
    s: StateView,
    outputs: Seq<Var>,
    n: int,
    fact: FactView,
    identity: Option<VarKey>,
    witness: Option<EqZeroWitness>,
) -> StateView
    decreases n,
{
    if n <= 0 {
        s
    } else {
        let p = load_scalar_effect(s, outputs, n - 1, fact, identity, witness);
        let o = outputs[n - 1];
        let s1 = with_place_fact(p, AdvicePlace::Var(key_of(o)), fact);
        let s2 = match identity {
            Some(i) => with_var_identity(s1, o, i),
            None => without_var_identity(s1, o),
        };
        with_var_zero_test(s2, o, witness)
    }
}

/// Load a scalar local and restore exact alias metadata when available.
pub fn apply_local_load_scalar(outputs: &[Var], index: u32, env: &mut Env)
    requires
        old(env).inv(),
    ensures
        final(env).inv(),
        final(env)@ == load_scalar_effect(
            old(env)@,
            outputs@,
            outputs@.len() as int,
            local_fact(old(env)@, index),
            lookup(old(env)@.local_aliases, index),
            lookup(old(env)@.local_zero_tests, index),
        ),
{
    let ghost s0 = env@;
    let fact = env.fact_for_local(index);
    let identity = env.identity_for_local(index);
    let witness = env.zero_test_for_local(index);
    let mut i: usize = 0;
    while i < outputs.len()
        invariant
            i <= outputs@.len(),
            env.inv(),
            env@ == load_scalar_effect(s0, outputs@, i as int, fact@, identity, witness),
        decreases outputs@.len() - i,
    {
        let output = &outputs[i];
        env.set_var_fact(output, fact.duplicate());
        match identity {
            Some(id) => env.set_var_identity(output, id),
            None => env.clear_var_identity(output),
        }
        env.set_var_zero_test(output, witness);
        i = i + 1;
    }
}

/// Storing one variable into a local slot and loading the slot back gives the loaded variable
/// the provenance, alias identity and `eq.0` witness of the stored variable.
pub proof fn lemma_local_store_load_round_trip(s: StateView, value: Var, index: u32, output: Var)
    ensures
        ({
            let stored = local_store_effect(s, seq![value], index);
            let loaded = load_scalar_effect(
                stored,
                seq![output],
                1,
                local_fact(stored, index),
                lookup(stored.local_aliases, index),
                lookup(stored.local_zero_tests, index),
            );
            &&& var_fact(loaded, output) == var_fact(s, value)
            &&& var_identity(loaded, output) == var_identity(s, value)
            &&& lookup(loaded.zero_tests, key_of(output)) == lookup(s.zero_tests, key_of(value))
        }),
{
    let values = seq![value];
    assert(vars_fact(s, values, 0) == fact_bottom());
    assert(vars_fact(s, values, 1) == fact_join(fact_bottom(), var_fact(s, value)));
    lemma_fact_join_bottom(var_fact(s, value));
    let stored = local_store_effect(s, values, index);
    assert(local_fact(stored, index) == var_fact(s, value));
    assert(lookup(stored.local_aliases, index) == Some(var_identity(s, value)));
    assert(lookup(stored.local_zero_tests, index) == lookup(s.zero_tests, key_of(value)));
}

/// The provenance rule of a word load: each output takes the fact of its slot.
pub open spec fn load_word_fact(kind: LocalAccessKind, index: u32, len: int) -> spec_fn(
    StateView,
    int,
) -> FactView {
    |st: StateView, j: int| local_fact(st, load_slot(kind, index, len, j) as u32)
}

/// Load a local word slot-by-slot, preserving stack order.
pub fn apply_local_load_word(kind: LocalAccessKind, outputs: &[Var], index: u32, env: &mut Env)
    requires
        old(env).inv(),
        word_slots_fit(kind, index, outputs@.len() as int),
    ensures
        final(env).inv(),
        final(env)@ == define_vars(
            old(env)@,
            outputs@,
            outputs@.len() as int,
            load_word_fact(kind, index, outputs@.len() as int),
        ),
{
    let ghost s0 = env@;
    let len = outputs.len();
    let mut offset: usize = 0;
    while offset < len
        invariant
            len == outputs@.len(),
            offset <= len,
            word_slots_fit(kind, index, len as int),
            env.inv(),
            env@ == define_vars(s0, outputs@, offset as int, load_word_fact(kind, index, len as int)),
        decreases len - offset,
    {
        let slot: u32 = match kind {
            LocalAccessKind::WordBe => index + offset as u32,
            LocalAccessKind::WordLe => index + (len - 1 - offset) as u32,
            LocalAccessKind::Element => index,
        };
        assert(slot == load_slot(kind, index, len as int, offset as int) as u32);
        let fact = env.fact_for_local(slot);
        env.set_var_fact(&outputs[offset], fact);
        env.clear_var_metadata(&outputs[offset]);
        offset = offset + 1;
    }
}

proof fn lemma_store_word_slots(
    s: StateView,
    kind: LocalAccessKind,
    values: Seq<Var>,
    index: u32,
    n: int,
)
    requires
        kind != LocalAccessKind::Element,
        word_slots_fit(kind, index, values.len() as int),
        0 <= n <= values.len(),
    ensures
        forall|v: Var| #[trigger]
            var_fact(store_word_effect(s, kind, values, index, n), v) == var_fact(s, v),
        forall|k: int|
            0 <= k < n ==> #[trigger] local_fact(
                store_word_effect(s, kind, values, index, n),
                store_slot(kind, index, values.len() as int, k) as u32,
            ) == var_fact(s, values[k]),
    decreases n,
{
    if n > 0 {
        lemma_store_word_slots(s, kind, values, index, n - 1);
        let len = values.len() as int;
        let w = store_word_effect(s, kind, values, index, n);
        let p = store_word_effect(s, kind, values, index, n - 1);
        let slot = store_slot(kind, index, len, n - 1) as u32;
        assert(slot as int == store_slot(kind, index, len, n - 1));
        assert forall|v: Var| #[trigger] var_fact(w, v) == var_fact(s, v) by {
            assert(AdvicePlace::Var(key_of(v)) != AdvicePlace::Local(slot));
            assert(var_fact(w, v) == var_fact(p, v));
        }
        assert forall|k: int| 0 <= k < n implies #[trigger] local_fact(
            w,
            store_slot(kind, index, len, k) as u32,
        ) == var_fact(s, values[k]) by {
            let sk = store_slot(kind, index, len, k) as u32;
            assert(sk as int == store_slot(kind, index, len, k));
            if k < n - 1 {
                assert(sk != slot);
                assert(local_fact(w, sk) == local_fact(p, sk));
            }
        }
    }
}

proof fn lemma_load_word_outputs(
    st: StateView,
    kind: LocalAccessKind,
    outputs: Seq<Var>,
    index: u32,
    len: int,
    n: int,
)
    requires
        0 <= n <= outputs.len(),
        forall|i: int, j: int|
            0 <= i < j < outputs.len() ==> key_of(outputs[i]) != key_of(outputs[j]),
    ensures
        forall|x: u32| #[trigger]
            local_fact(define_vars(st, outputs, n, load_word_fact(kind, index, len)), x)
                == local_fact(st, x),
        forall|j: int|
            0 <= j < n ==> #[trigger] var_fact(
                define_vars(st, outputs, n, load_word_fact(kind, index, len)),
                outputs[j],
            ) == local_fact(st, load_slot(kind, index, len, j) as u32),
    decreases n,
{
    if n > 0 {
        lemma_load_word_outputs(st, kind, outputs, index, len, n - 1);
        let d = define_vars(st, outputs, n, load_word_fact(kind, index, len));
        let p = define_vars(st, outputs, n - 1, load_word_fact(kind, index, len));
        assert forall|x: u32| #[trigger] local_fact(d, x) == local_fact(st, x) by {
            assert(AdvicePlace::Local(x) != AdvicePlace::Var(key_of(outputs[n - 1])));
            assert(local_fact(d, x) == local_fact(p, x));
        }
        assert forall|j: int| 0 <= j < n implies #[trigger] var_fact(d, outputs[j]) == local_fact(
            st,
            load_slot(kind, index, len, j) as u32,
        ) by {
            if j < n - 1 {
                assert(key_of(outputs[j]) != key_of(outputs[n - 1]));
                assert(var_fact(d, outputs[j]) == var_fact(p, outputs[j]));
            }
        }
    }
}

/// Storing a word into locals and loading a word of the same layout and length from the same
/// index gives each loaded variable the provenance of the stored variable at the mirrored
/// position: stored values and loaded outputs are listed from opposite ends of the word.
pub proof fn lemma_local_word_round_trip(
    s: StateView,
    kind: LocalAccessKind,
    values: Seq<Var>,
    outputs: Seq<Var>,
    index: u32,
)
    requires
        kind != LocalAccessKind::Element,
        values.len() == outputs.len(),
        word_slots_fit(kind, index, values.len() as int),
        forall|i: int, j: int|
            0 <= i < j < outputs.len() ==> key_of(outputs[i]) != key_of(outputs[j]),
    ensures
        forall|j: int|
            0 <= j < outputs.len() ==> #[trigger] var_fact(
                define_vars(
                    store_word_effect(s, kind, values, index, values.len() as int),
                    outputs,
                    outputs.len() as int,
                    load_word_fact(kind, index, outputs.len() as int),
                ),
                outputs[j],
            ) == var_fact(s, values[values.len() - 1 - j]),
{
    let len = values.len() as int;
    let stored = store_word_effect(s, kind, values, index, len);
    lemma_store_word_slots(s, kind, values, index, len);
    lemma_load_word_outputs(stored, kind, outputs, index, len, len);
    assert forall|j: int| 0 <= j < len implies #[trigger] var_fact(
        define_vars(stored, outputs, len, load_word_fact(kind, index, len)),
        outputs[j],
    ) == var_fact(s, values[len - 1 - j]) by {
        assert(load_slot(kind, index, len, j) == store_slot(kind, index, len, len - 1 - j));
        assert(local_fact(stored, store_slot(kind, index, len, len - 1 - j) as u32) == var_fact(
            s,
            values[len - 1 - j],
        ));
    }
}

// ---------------------------------------------------------------------------------------------
// Calls
// ---------------------------------------------------------------------------------------------

/// The fact with advice reads `spans` plus everything that the arguments listed in `indices`
/// carry; indices past the last argument contribute nothing.
pub open spec fn gathered(spans: Set<SourceSpan>, indices: Set<usize>, args: Seq<FactView>) -> FactView {
    FactView {
        spans: spans.union(
            Set::new(
                |sp: SourceSpan|
                    exists|i: usize|
                        indices.contains(i) && i < args.len() && #[trigger] args[i as int].spans.contains(
                            sp,
                        ),
            ),
        ),
        inputs: Set::new(
            |x: usize|
                exists|i: usize|
                    indices.contains(i) && i < args.len() && #[trigger] args[i as int].inputs.contains(
                        x,
                    ),
        ),
    }
}

/// A summarized output fact with the caller's argument facts substituted for the callee's
/// inputs.
pub open spec fn substituted(summary_fact: FactView, args: Seq<FactView>) -> FactView {
    gathered(summary_fact.spans, summary_fact.inputs, args)
}

proof fn lemma_gathered_step(spans: Set<SourceSpan>, indices: Set<usize>, i: usize, args: Seq<FactView>)
    ensures
        gathered(spans, indices.insert(i), args) == (if i < args.len() {
            fact_join(gathered(spans, indices, args), args[i as int])
        } else {
            gathered(spans, indices, args)
        }),
{
    let l = gathered(spans, indices.insert(i), args);
    let r = if i < args.len() {
        fact_join(gathered(spans, indices, args), args[i as int])
    } else {
        gathered(spans, indices, args)
    };
    assert forall|sp: SourceSpan| l.spans.contains(sp) <==> r.spans.contains(sp) by {
        if l.spans.contains(sp) && !spans.contains(sp) {
            let j = choose|j: usize|
                indices.insert(i).contains(j) && j < args.len() && #[trigger] args[j as int].spans.contains(
                    sp,
                );
            if j != i {
                assert(indices.contains(j));
            }
        }
        if r.spans.contains(sp) && !spans.contains(sp) {
            if i < args.len() && args[i as int].spans.contains(sp) {
                assert(indices.insert(i).contains(i));
            } else {
                let j = choose|j: usize|
                    indices.contains(j) && j < args.len() && #[trigger] args[j as int].spans.contains(
                        sp,
                    );
                assert(indices.insert(i).contains(j));
            }
        }
    }
    assert forall|x: usize| l.inputs.contains(x) <==> r.inputs.contains(x) by {
        if l.inputs.contains(x) {
            let j = choose|j: usize|
                indices.insert(i).contains(j) && j < args.len() && #[trigger] args[j as int].inputs.contains(
                    x,
                );
            if j != i {
                assert(indices.contains(j));
            }
        }
        if r.inputs.contains(x) {
            if i < args.len() && args[i as int].inputs.contains(x) {
                assert(indices.insert(i).contains(i));
            } else {
                let j = choose|j: usize|
                    indices.contains(j) && j < args.len() && #[trigger] args[j as int].inputs.contains(
                        x,
                    );
                assert(indices.insert(i).contains(j));
            }
        }
    }
    assert(l =~= r);
}

/// Substitute caller argument facts into one summarized callee output.
pub fn substitute_output_fact(summary_fact: &AdviceFact, arg_facts: &[AdviceFact]) -> (r: AdviceFact)
    ensures
        r@ == substituted(summary_fact@, fact_views(arg_facts@)),
{
    let ghost args = fact_views(arg_facts@);
    let indices = summary_fact.input_indices();
    let mut substituted_fact = summary_fact.sources_only();
    let mut k: usize = 0;
    proof {
        let g = gathered(summary_fact@.spans, indices@.take(0).to_set(), args);
        assert(indices@.take(0).to_set() =~= Set::empty());
        assert(g.spans =~= summary_fact@.spans);
        assert(g.inputs =~= Set::empty());
    }
    while k < indices.len()
        invariant
            k <= indices@.len(),
            args == fact_views(arg_facts@),
            substituted_fact@ == gathered(summary_fact@.spans, indices@.take(k as int).to_set(), args),
        decreases indices@.len() - k,
    {
        let i = indices[k];
        proof {
            lemma_take_to_set_step(indices@, k as int);
            lemma_gathered_step(summary_fact@.spans, indices@.take(k as int).to_set(), i, args);
        }
        if i < arg_facts.len() {
            substituted_fact = substituted_fact.join(&arg_facts[i]);
        }
        k = k + 1;
    }
    assert(indices@.take(k as int) =~= indices@);
    substituted_fact
}

/// The rule that gives the `j`-th call result the substituted `j`-th summary output.
pub open spec fn substitution_fact(outputs: Seq<FactView>, args: Seq<FactView>) -> spec_fn(
    StateView,
    int,
) -> FactView {
    |st: StateView, j: int| substituted(outputs[j], args)
}

/// Facts of the argument variables in `s`.
pub open spec fn arg_views(s: StateView, args: Seq<Var>) -> Seq<FactView> {
    args.map_values(|a: Var| var_fact(s, a))
}

/// Effect of a direct call of `target` on the facts of its results.
pub open spec fn callee_effect(
    s: StateView,
    target: Seq<char>,
    args: Seq<Var>,
    results: Seq<Var>,
    summaries: Seq<(Seq<char>, super::summary::SummaryView)>,
) -> StateView {
    let cleared = define_vars(s, results, results.len() as int, constant_fact(fact_bottom()));
    match summary_lookup(summaries, target) {
        Some(summary) => if summary.opaque {
            cleared
        } else {
            let count = summary.outputs.len() as int;
            let matched = if results.len() < count {
                results.len() as int
            } else {
                count
            };
            let s1 = define_vars(
                s,
                results,
                matched,
                substitution_fact(summary.outputs, arg_views(s, args)),
            );
            let rest = if count < results.len() {
                results.subrange(count, results.len() as int)
            } else {
                Seq::empty()
            };
            define_vars(s1, rest, rest.len() as int, constant_fact(fact_bottom()))
        },
        None => cleared,
    }
}

/// Apply interprocedural summary substitution at one direct call site: resolve the callee
/// summary, substitute caller argument facts into summarized outputs, and write the results
/// back into the caller state.
pub fn apply_callee_summary(
    env: &mut Env,
    target: &str,
    args: &[Var],
    results: &[Var],
    callee_summaries: &AdviceSummaryMap,
)
    requires
        old(env).inv(),
    ensures
        final(env).inv(),
        final(env)@ == callee_effect(old(env)@, target@, args@, results@, callee_summaries@),
{
    let ghost s0 = env@;
    let summary = match callee_summaries.get(target) {
        Some(summary) => summary,
        None => {
            clear_call_results(env, results);
            return;
        },
    };
    if summary.is_opaque() {
        clear_call_results(env, results);
        return;
    }
    let mut arg_facts: Vec<AdviceFact> = Vec::new();
    let mut a: usize = 0;
    while a < args.len()
        invariant
            a <= args@.len(),
            env.inv(),
            env@ == s0,
            arg_facts@.len() == a,
            forall|j: int| 0 <= j < a ==> (#[trigger] arg_facts@[j])@ == var_fact(s0, args@[j]),
        decreases args@.len() - a,
    {
        arg_facts.push(env.fact_for_var(&args[a]));
        a = a + 1;
    }
    assert(fact_views(arg_facts@) =~= arg_views(s0, args@));
    let outputs = summary.outputs();
    let count = summary.output_count();
    let matched = if results.len() < count {
        results.len()
    } else {
        count
    };
    let mut j: usize = 0;
    while j < matched
        invariant
            j <= matched,
            matched <= results@.len(),
            matched <= fact_views(outputs@).len(),
            fact_views(outputs@) == summary@.outputs,
            fact_views(arg_facts@) == arg_views(s0, args@),
            env.inv(),
            env@ == define_vars(
                s0,
                results@,
                j as int,
                substitution_fact(summary@.outputs, arg_views(s0, args@)),
            ),
        decreases matched - j,
    {
        let fact = substitute_output_fact(&outputs[j], arg_facts.as_slice());
        env.set_var_fact(&results[j], fact);
        env.clear_var_metadata(&results[j]);
        j = j + 1;
    }
    if count < results.len() {
        let ghost s1 = env@;
        let ghost rest = results@.subrange(count as int, results@.len() as int);
        let mut k: usize = count;
        while k < results.len()
            invariant
                count <= k <= results@.len(),
                rest == results@.subrange(count as int, results@.len() as int),
                env.inv(),
                env@ == define_vars(s1, rest, k - count, constant_fact(fact_bottom())),
            decreases results@.len() - k,
        {
            assert(rest[k - count] == results@[k as int]);
            env.set_var_fact(&results[k], AdviceFact::bottom());
            env.clear_var_metadata(&results[k]);
            k = k + 1;
        }
    }
}

// ---------------------------------------------------------------------------------------------
// Entry, assignments, branches and loops
// ---------------------------------------------------------------------------------------------

/// Provenance of the first `n` seeded inputs: the variable lifted at depth `d` holds input
/// `count - 1 - d`.
pub open spec fn seeded_facts(count: usize, n: int) -> Map<AdvicePlace, FactView> {
    Map::new(
        |p: AdvicePlace|
            match p {
                AdvicePlace::Var(k) => k.index < n,
                AdvicePlace::Local(_) => false,
            },
        |p: AdvicePlace|
            match p {
                AdvicePlace::Var(k) => FactView {
                    spans: Set::empty(),
                    inputs: Set::empty().insert((count - 1 - k.index) as usize),
                },
                AdvicePlace::Local(_) => fact_bottom(),
            },
    )
}

/// The entry state of a procedure with `count` stack inputs.
pub open spec fn seeded_state(count: usize) -> StateView {
    StateView { facts: seeded_facts(count, count as int), ..empty_state() }
}

/// Seed input variables using the same numbering scheme as the lifting pass.
pub fn seed_input_env(input_count: usize) -> (r: Env)
    ensures
        r.inv(),
        r@ == seeded_state(input_count),
{
    let mut env = Env::new();
    let mut depth: usize = 0;
    assert(env@ =~= (StateView { facts: seeded_facts(input_count, 0), ..empty_state() }));
    while depth < input_count
        invariant
            depth <= input_count,
            env.inv(),
            env@ == (StateView { facts: seeded_facts(input_count, depth as int), ..empty_state() }),
        decreases input_count - depth,
    {
        let input_position = input_count - 1 - depth;
        let var = Var::new(depth as u64, depth);
        env.set_var_fact(&var, AdviceFact::from_input(input_position));
        assert(env@ =~= (StateView {
            facts: seeded_facts(input_count, depth + 1),
            ..empty_state()
        }));
        depth = depth + 1;
    }
    env
}

/// Effect of assigning `expr` to `dest` on alias and zero-test metadata.
pub open spec fn expr_metadata_effect(s: StateView, dest: Var, expr: Expr) -> StateView {
    let s1 = match identity_of(s, expr) {
        Some(identity) => with_var_identity(s, dest, identity),
        None => without_var_identity(s, dest),
    };
    with_var_zero_test(s1, dest, witness_of(s1, expr))
}

/// Preserve alias and zero-test metadata across a fresh assignment.
pub fn assign_expr_metadata(dest: &Var, expr: &Expr, env: &mut Env)
    requires
        old(env).inv(),
    ensures
        final(env).inv(),
        final(env)@ == expr_metadata_effect(old(env)@, *dest, *expr),
{
    match expr_identity(expr, env) {
        Some(identity) => env.set_var_identity(dest, identity),
        None => env.clear_var_identity(dest),
    }
    let witness = eq_zero_witness_for_expr(expr, env);
    env.set_var_zero_test(dest, witness);
}

/// Effect of a phi `dest = (lhs_var in lhs | rhs_var in rhs)` on metadata: kept only when both
/// sides agree exactly.
pub open spec fn phi_metadata_effect(
    s: StateView,
    dest: Var,
    lhs_var: Var,
    lhs: StateView,
    rhs_var: Var,
    rhs: StateView,
) -> StateView {
    let li = var_identity(lhs, lhs_var);
    let ri = var_identity(rhs, rhs_var);
    let s1 = if li == ri {
        with_var_identity(s, dest, li)
    } else {
        without_var_identity(s, dest)
    };
    let lw = lookup(lhs.zero_tests, key_of(lhs_var));
    let rw = lookup(rhs.zero_tests, key_of(rhs_var));
    with_var_zero_test(
        s1,
        dest,
        if lw is Some && lw == rw {
            lw
        } else {
            None
        },
    )
}

/// Preserve metadata across a phi only when both sides agree exactly.
pub fn assign_phi_metadata(
    dest: &Var,
    lhs_var: &Var,
    lhs_env: &Env,
    rhs_var: &Var,
    rhs_env: &Env,
    env: &mut Env,
)
    requires
        old(env).inv(),
        lhs_env.inv(),
        rhs_env.inv(),
    ensures
        final(env).inv(),
        final(env)@ == phi_metadata_effect(
            old(env)@,
            *dest,
            *lhs_var,
            lhs_env@,
            *rhs_var,
            rhs_env@,
        ),
{
    let lhs_identity = lhs_env.identity_for_var(lhs_var);
    let rhs_identity = rhs_env.identity_for_var(rhs_var);
    if lhs_identity.index == rhs_identity.index {
        env.set_var_identity(dest, lhs_identity);
    } else {
        env.clear_var_identity(dest);
    }
    let lhs_witness = lhs_env.zero_test_for_var(lhs_var);
    let rhs_witness = rhs_env.zero_test_for_var(rhs_var);
    let agreed = match (lhs_witness, rhs_witness) {
        (Some(l), Some(r)) => l.value_identity.index == r.value_identity.index,
        _ => false,
    };
    if agreed {
        env.set_var_zero_test(dest, lhs_witness);
    } else {
        env.set_var_zero_test(dest, None);
    }
}

/// `s` after the first `n` loop phis take the join of their entry and back-edge facts, with
/// metadata kept only where both sides agree.
pub open spec fn loop_phis_effect(
    s: StateView,
    entry: StateView,
    body: StateView,
    phis: Seq<LoopPhi>,
    n: int,
) -> StateView
    decreases n,
{
    if n <= 0 {
        s
    } else {
        let p = loop_phis_effect(s, entry, body, phis, n - 1);
        let phi = phis[n - 1];
        let merged = fact_join(var_fact(entry, phi.init), var_fact(body, phi.step));
        phi_metadata_effect(
            with_place_fact(p, AdvicePlace::Var(key_of(phi.dest)), merged),
            phi.dest,
            phi.init,
            entry,
            phi.step,
            body,
        )
    }
}

/// Join one loop-body evaluation back into the current abstract loop state.
pub fn join_loop_head_env(loop_env: &Env, entry_env: &Env, body_env: &Env, phis: &[LoopPhi]) -> (r:
    Env)
    requires
        loop_env.inv(),
        entry_env.inv(),
        body_env.inv(),
    ensures
        r.inv(),
        r@ == loop_phis_effect(
            state_join(loop_env@, body_env@),
            entry_env@,
            body_env@,
            phis@,
            phis@.len() as int,
        ),
{
    let mut next_env = loop_env.join(body_env);
    let ghost s0 = next_env@;
    let mut i: usize = 0;
    while i < phis.len()
        invariant
            i <= phis@.len(),
            next_env.inv(),
            entry_env.inv(),
            body_env.inv(),
            s0 == state_join(loop_env@, body_env@),
            next_env@ == loop_phis_effect(s0, entry_env@, body_env@, phis@, i as int),
        decreases phis@.len() - i,
    {
        let phi = &phis[i];
        let init_fact = entry_env.fact_for_var(&phi.init);
        let step_fact = body_env.fact_for_var(&phi.step);
        let merged = init_fact.join(&step_fact);
        next_env.set_var_fact(&phi.dest, merged);
        assign_phi_metadata(&phi.dest, &phi.init, entry_env, &phi.step, body_env, &mut next_env);
        i = i + 1;
    }
    next_env
}

/// The else-branch state after a condition: an exact `eq.0` witness proves its identity
/// non-zero when the comparison is false.
pub open spec fn else_refinement(s: StateView, cond: Expr) -> StateView {
    match witness_of(s, cond) {
        Some(w) => StateView { nonzero: s.nonzero.insert(w.value_identity), ..s },
        None => s,
    }
}

/// Refine branch environments using an exact `eq.0` witness when available.
pub fn refine_if_envs(cond: &Expr, env: &Env) -> (r: (Env, Env))
    requires
        env.inv(),
    ensures
        r.0.inv(),
        r.1.inv(),
        r.0@ == env@,
        r.1@ == else_refinement(env@, *cond),
{
    let then_env = env.duplicate();
    let mut else_env = env.duplicate();
    match eq_zero_witness_for_expr(cond, env) {
        Some(witness) => else_env.mark_identity_nonzero(witness.value_identity),
        None => {},
    }
    (then_env, else_env)
}


// ---------------------------------------------------------------------------------------------
// Laws of the transfer functions
// ---------------------------------------------------------------------------------------------

proof fn lemma_define_vars_other(
    s: StateView,
    vars: Seq<Var>,
    n: int,
    fact: spec_fn(StateView, int) -> FactView,
    v: Var,
)
    requires
        0 <= n <= vars.len(),
        forall|i: int| 0 <= i < n ==> key_of(#[trigger] vars[i]) != key_of(v),
    ensures
        var_fact(define_vars(s, vars, n, fact), v) == var_fact(s, v),
    decreases n,
{
    if n > 0 {
        lemma_define_vars_other(s, vars, n - 1, fact, v);
        assert(key_of(vars[n - 1]) != key_of(v));
        assert(AdvicePlace::Var(key_of(vars[n - 1])) != AdvicePlace::Var(key_of(v)));
    }
}

proof fn lemma_define_vars_own(
    s: StateView,
    vars: Seq<Var>,
    n: int,
    fact: spec_fn(StateView, int) -> FactView,
    j: int,
)
    requires
        0 <= j < n <= vars.len(),
        forall|a: int, b: int| 0 <= a < b < vars.len() ==> key_of(vars[a]) != key_of(vars[b]),
    ensures
        var_fact(define_vars(s, vars, n, fact), vars[j]) == fact(define_vars(s, vars, j, fact), j),
    decreases n,
{
    if n - 1 > j {
        lemma_define_vars_own(s, vars, n - 1, fact, j);
        assert(key_of(vars[j]) != key_of(vars[n - 1]));
        assert(AdvicePlace::Var(key_of(vars[n - 1])) != AdvicePlace::Var(key_of(vars[j])));
    }
}

/// At a call to a known, non-opaque summary, each result `j` that has a summarized output gets
/// exactly the provenance of output `j` with the caller's arguments substituted: the advice
/// reads output `j` names itself, plus the advice reads and inputs of every argument `i` that
/// output `j` takes from the callee's input `i`. Results are distinct variables.
pub proof fn lemma_callee_result_provenance(
    s: StateView,
    target: Seq<char>,
    args: Seq<Var>,
    results: Seq<Var>,
    summaries: Seq<(Seq<char>, super::summary::SummaryView)>,
    j: int,
)
    requires
        summary_lookup(summaries, target) is Some,
        !summary_lookup(summaries, target).unwrap().opaque,
        0 <= j < results.len(),
        j < summary_lookup(summaries, target).unwrap().outputs.len(),
        forall|a: int, b: int| 0 <= a < b < results.len() ==> key_of(results[a]) != key_of(results[b]),
    ensures
        ({
            let out = summary_lookup(summaries, target).unwrap().outputs[j];
            let r = var_fact(callee_effect(s, target, args, results, summaries), results[j]);
            &&& forall|sp: SourceSpan|
                r.spans.contains(sp) <==> (out.spans.contains(sp) || exists|i: usize|
                    out.inputs.contains(i) && i < args.len() && #[trigger] var_fact(
                        s,
                        args[i as int],
                    ).spans.contains(sp))
            &&& forall|x: usize|
                r.inputs.contains(x) <==> exists|i: usize|
                    out.inputs.contains(i) && i < args.len() && #[trigger] var_fact(
                        s,
                        args[i as int],
                    ).inputs.contains(x)
        }),
{
    let summary = summary_lookup(summaries, target).unwrap();
    let count = summary.outputs.len() as int;
    let matched = if results.len() < count {
        results.len() as int
    } else {
        count
    };
    let views = arg_views(s, args);
    let f = substitution_fact(summary.outputs, views);
    let s1 = define_vars(s, results, matched, f);
    let rest = if count < results.len() {
        results.subrange(count, results.len() as int)
    } else {
        Seq::empty()
    };
    lemma_define_vars_own(s, results, matched, f, j);
    assert forall|i: int| 0 <= i < rest.len() implies key_of(#[trigger] rest[i]) != key_of(
        results[j],
    ) by {
        assert(rest[i] == results[count + i]);
    }
    lemma_define_vars_other(s1, rest, rest.len() as int, constant_fact(fact_bottom()), results[j]);
    assert forall|i: int| 0 <= i < args.len() implies #[trigger] views[i] == var_fact(s, args[i]) by {}
    let out = summary.outputs[j];
    let r = var_fact(callee_effect(s, target, args, results, summaries), results[j]);
    assert(r == substituted(out, views));
    assert forall|sp: SourceSpan|
        r.spans.contains(sp) <==> (out.spans.contains(sp) || exists|i: usize|
            out.inputs.contains(i) && i < args.len() && #[trigger] var_fact(
                s,
                args[i as int],
            ).spans.contains(sp)) by {
        if exists|i: usize|
            out.inputs.contains(i) && i < args.len() && #[trigger] var_fact(
                s,
                args[i as int],
            ).spans.contains(sp) {
            let i = choose|i: usize|
                out.inputs.contains(i) && i < args.len() && #[trigger] var_fact(
                    s,
                    args[i as int],
                ).spans.contains(sp);
            assert(views[i as int].spans.contains(sp));
        }
        if r.spans.contains(sp) && !out.spans.contains(sp) {
            let i = choose|i: usize|
                out.inputs.contains(i) && i < views.len() && #[trigger] views[i as int].spans.contains(
                    sp,
                );
            assert(var_fact(s, args[i as int]).spans.contains(sp));
        }
    }
    assert forall|x: usize|
        r.inputs.contains(x) <==> exists|i: usize|
            out.inputs.contains(i) && i < args.len() && #[trigger] var_fact(
                s,
                args[i as int],
            ).inputs.contains(x) by {
        if exists|i: usize|
            out.inputs.contains(i) && i < args.len() && #[trigger] var_fact(
                s,
                args[i as int],
            ).inputs.contains(x) {
            let i = choose|i: usize|
                out.inputs.contains(i) && i < args.len() && #[trigger] var_fact(
                    s,
                    args[i as int],
                ).inputs.contains(x);
            assert(views[i as int].inputs.contains(x));
        }
        if r.inputs.contains(x) {
            let i = choose|i: usize|
                out.inputs.contains(i) && i < views.len() && #[trigger] views[i as int].inputs.contains(
                    x,
                );
            assert(var_fact(s, args[i as int]).inputs.contains(x));
        }
    }
}

proof fn lemma_sanitize_vars_bottom(s: StateView, vars: Seq<Var>, n: int, k: int)
    requires
        0 <= k < n <= vars.len(),
    ensures
        var_fact(sanitize_vars(s, vars, n), vars[k]) == fact_bottom(),
    decreases n,
{
    if n - 1 > k {
        lemma_sanitize_vars_bottom(s, vars, n - 1, k);
    }
}

proof fn lemma_base_first_char(s: Seq<char>)
    requires
        before_first_dot(s).len() > 0,
    ensures
        s.len() > 0,
        s[0] == before_first_dot(s)[0],
{
}

/// A `U32` assertion (`u32assert`, `u32assert2` or `u32assertw`, with any immediates or
/// `.err=` suffix) leaves every one of its operands with no advice and no input provenance:
/// the assertion constrains them.
pub proof fn lemma_u32_assertions_sanitize_operands(
    s: StateView,
    span: SourceSpan,
    name: Seq<char>,
    args: Seq<Var>,
    results: Seq<Var>,
    k: int,
)
    requires
        before_first_dot(name) == "u32assert"@ || before_first_dot(name) == "u32assert2"@
            || before_first_dot(name) == "u32assertw"@,
        0 <= k < args.len(),
    ensures
        var_fact(intrinsic_effect(s, span, name, args, results), args[k]) == fact_bottom(),
{
    reveal_strlit("u32assert");
    reveal_strlit("u32assert2");
    reveal_strlit("u32assertw");
    reveal_strlit("adv_push.");
    lemma_base_first_char(name);
    assert(name[0] == 'u');
    assert(!starts_with(name, "adv_push."@)) by {
        if starts_with(name, "adv_push."@) {
            assert(name.subrange(0, 9)[0] == "adv_push."@[0]);
        }
    }
    lemma_sanitize_vars_bottom(s, args, args.len() as int, k);
}

/// The provenance of a ternary's result covers both branches and nothing else: whatever
/// advice or input either branch may carry, the selected value may carry.
pub proof fn lemma_ternary_fact_covers_both_branches(s: StateView, c: Expr, t: Expr, e: Expr)
    ensures
        ({
            let r = output_fact(
                s,
                Expr::Ternary { cond: Box::new(c), then_expr: Box::new(t), else_expr: Box::new(e) },
            );
            &&& output_fact(s, t).spans.subset_of(r.spans)
            &&& output_fact(s, t).inputs.subset_of(r.inputs)
            &&& output_fact(s, e).spans.subset_of(r.spans)
            &&& output_fact(s, e).inputs.subset_of(r.inputs)
            &&& r.spans.subset_of(output_fact(s, t).spans.union(output_fact(s, e).spans))
            &&& r.inputs.subset_of(output_fact(s, t).inputs.union(output_fact(s, e).inputs))
        }),
{
}

/// An `eq.0` test followed by `assertz` on its result proves the tested value non-zero: after
/// `flag = (x == 0)` and `assertz` on `flag`, the variable `x` (and every variable sharing its
/// alias identity) is proven non-zero.
pub proof fn lemma_assertz_on_eq_zero_proves_nonzero(
    s: StateView,
    flag: Var,
    x: Var,
    name: Seq<char>,
    y: Var,
)
    requires
        key_of(flag) != key_of(x),
        before_first_dot(name) == "assertz"@,
    ensures
        ({
            let tested = Expr::Binary(
                BinOp::Eq,
                Box::new(Expr::Var(x)),
                Box::new(Expr::Constant(0)),
            );
            let s1 = expr_metadata_effect(s, flag, tested);
            let s2 = assertz_refinement(s1, name, seq![flag]);
            &&& proven_nonzero(s2, Expr::Var(x))
            &&& var_identity(s2, y) == var_identity(s, x) ==> proven_nonzero(s2, Expr::Var(y))
        }),
{
    let tested = Expr::Binary(BinOp::Eq, Box::new(Expr::Var(x)), Box::new(Expr::Constant(0)));
    let s0 = without_var_identity(s, flag);
    assert(var_identity(s0, x) == var_identity(s, x));
    assert(zero_compared(Expr::Var(x), Expr::Constant(0)) == Some(x));
    let w = EqZeroWitness { value_identity: var_identity(s, x) };
    assert(witness_of(s0, tested) == Some(w));
    let s1 = expr_metadata_effect(s, flag, tested);
    assert(lookup(s1.zero_tests, key_of(flag)) == Some(w));
    assert(var_identity(s1, x) == var_identity(s, x));
}

} // verus!
