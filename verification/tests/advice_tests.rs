use masm_analysis::advice::collections::{KeySet, ValueMap};
use masm_analysis::advice::domain::AdviceFact;
use masm_analysis::advice::ir::{BinOp, Expr, Intrinsic, LocalAccessKind, LoopPhi, Stmt, UnOp, Var, VarKey};
use masm_analysis::advice::state::{AdvicePlace, AdviceState, EqZeroWitness, Env};
use masm_analysis::advice::summary::{AdviceSummary, AdviceSummaryMap};
use masm_analysis::advice::transfer::{
    apply_callee_summary, apply_intrinsic_effect, apply_local_load_scalar, apply_local_load_word,
    apply_local_store, apply_local_store_word, assign_expr_metadata, assign_phi_metadata,
    eq_zero_witness_for_expr, expr_identity, expr_is_proven_nonzero, expr_output_fact,
    intrinsic_base_name, intrinsic_requires_u32_precondition, join_loop_head_env,
    refine_if_envs, refine_nonzero_from_intrinsic, seed_input_env, single_var, stmt_span,
    substitute_output_fact, zero_comparison_var, MAX_LOOP_PASSES,
};
use masm_analysis::span::SourceSpan;

/// Return a small synthetic SSA variable.
fn test_var(index: u8) -> Var {
    Var::new(u64::from(index), usize::from(index))
}

fn span(start: u32) -> SourceSpan {
    SourceSpan::new(7, start, start + 1)
}

fn input_fact(indices: &[usize]) -> AdviceFact {
    let mut fact = AdviceFact::bottom();
    for index in indices {
        fact = fact.join(&AdviceFact::from_input(*index));
    }
    fact
}

fn intrinsic(name: &str, args: Vec<Var>, results: Vec<Var>) -> Intrinsic {
    Intrinsic { name: name.to_string(), args, results }
}

fn var(index: u8) -> Expr {
    Expr::Var(test_var(index))
}

fn eq_zero(index: u8) -> Expr {
    Expr::Binary(BinOp::Eq, Box::new(var(index)), Box::new(Expr::Constant(0)))
}

// ---------------------------------------------------------------------------------------------
// State
// ---------------------------------------------------------------------------------------------

#[test]
fn advice_place_constructors_produce_distinct_places() {
    let var = test_var(0);

    assert_ne!(AdvicePlace::var(&var), AdvicePlace::local(0));
}

#[test]
fn advice_state_join_assign_reports_changes_and_merges_facts() {
    let mut lhs = AdviceState::default();
    let lhs_var = test_var(0);
    lhs.set_var_fact(&lhs_var, AdviceFact::from_input(0));

    let mut rhs = AdviceState::default();
    let rhs_var = test_var(1);
    rhs.set_var_fact(&lhs_var, AdviceFact::from_input(1));
    rhs.set_var_fact(&rhs_var, AdviceFact::from_input(2));

    assert!(lhs.join_assign(&rhs));
    assert_eq!(
        lhs.fact_for_var(&lhs_var),
        AdviceFact::from_input(0).join(&AdviceFact::from_input(1))
    );
    assert_eq!(lhs.fact_for_var(&rhs_var), AdviceFact::from_input(2));
    assert!(!lhs.join_assign(&rhs));
}

#[test]
fn untracked_places_read_as_bottom() {
    let state = AdviceState::new();
    assert!(state.fact_for_var(&test_var(3)).is_bottom());
    assert!(state.fact_for_local(9).is_bottom());
    assert_eq!(state.identity_for_var(&test_var(3)), VarKey { index: 3 });
    assert_eq!(state.identity_for_local(9), None);
    assert_eq!(state.zero_test_for_var(&test_var(3)), None);
    assert!(!state.is_var_nonzero(&test_var(3)));
}

#[test]
fn setters_are_read_back_and_metadata_can_be_cleared() {
    let mut state = AdviceState::new();
    let v = test_var(1);
    state.set_place_fact(AdvicePlace::local(4), AdviceFact::from_source(span(1)));
    assert_eq!(state.fact_for_place(&AdvicePlace::local(4)), AdviceFact::from_source(span(1)));
    state.set_var_identity(&v, VarKey { index: 9 });
    assert_eq!(state.identity_for_var(&v), VarKey { index: 9 });
    let witness = EqZeroWitness { value_identity: VarKey { index: 9 } };
    state.set_var_zero_test(&v, Some(witness));
    assert_eq!(state.zero_test_for_var(&v), Some(witness));
    state.mark_identity_nonzero(VarKey { index: 9 });
    assert!(state.is_var_nonzero(&v));
    state.clear_var_metadata(&v);
    assert_eq!(state.identity_for_var(&v), VarKey { index: 1 });
    assert_eq!(state.zero_test_for_var(&v), None);
    state.set_local_identity(2, Some(VarKey { index: 5 }));
    state.set_local_zero_test(2, Some(witness));
    assert_eq!(state.identity_for_local(2), Some(VarKey { index: 5 }));
    assert_eq!(state.zero_test_for_local(2), Some(witness));
    state.set_var_fact(&v, AdviceFact::from_input(1));
    state.sanitize_var(&v);
    assert!(state.fact_for_var(&v).is_bottom());
}

#[test]
fn state_join_keeps_only_agreeing_metadata() {
    let v = test_var(1);
    let mut lhs = AdviceState::new();
    let mut rhs = AdviceState::new();
    lhs.set_var_identity(&v, VarKey { index: 4 });
    rhs.set_var_identity(&v, VarKey { index: 4 });
    lhs.set_local_identity(0, Some(VarKey { index: 4 }));
    rhs.set_local_identity(0, Some(VarKey { index: 5 }));
    lhs.mark_identity_nonzero(VarKey { index: 4 });
    let joined = lhs.join(&rhs);
    assert_eq!(joined.identity_for_var(&v), VarKey { index: 4 });
    assert_eq!(joined.identity_for_local(0), None);
    assert!(!joined.is_var_nonzero(&v));
}

#[test]
fn state_join_is_commutative_and_idempotent_on_examples() {
    let mut a = AdviceState::new();
    a.set_var_fact(&test_var(0), AdviceFact::from_input(0));
    a.set_local_fact(3, AdviceFact::from_source(span(2)));
    let mut b = AdviceState::new();
    b.set_var_fact(&test_var(0), AdviceFact::from_input(1));
    b.set_var_fact(&test_var(2), AdviceFact::from_source(span(3)));
    assert!(a.join(&b).same_state(&b.join(&a)));
    assert!(a.join(&a).same_state(&a));
    let mut c = AdviceState::new();
    c.set_local_fact(3, AdviceFact::from_input(4));
    c.set_var_identity(&test_var(0), VarKey { index: 6 });
    assert!(a.join(&b).join(&c).same_state(&a.join(&b.join(&c))));
    let mut grown = a.join(&b);
    assert!(!grown.join_assign(&a));
    assert!(!grown.join_assign(&b));
    assert!(a.duplicate().same_state(&a));
    assert!(!a.same_state(&b));
}

// ---------------------------------------------------------------------------------------------
// Facts and collections
// ---------------------------------------------------------------------------------------------

#[test]
fn fact_join_unions_sources_and_inputs() {
    let a = AdviceFact::from_source(span(1)).join(&AdviceFact::from_input(0));
    let b = AdviceFact::from_input(2);
    let joined = a.join(&b);
    assert_eq!(joined, b.join(&a));
    assert_eq!(joined.join(&joined), joined);
    assert_eq!(joined.join(&AdviceFact::bottom()), joined);
    let mut inputs = joined.input_indices().to_vec();
    inputs.sort();
    assert_eq!(inputs, vec![0, 2]);
    assert_eq!(joined.sources_only(), AdviceFact::from_source(span(1)));
    assert!(!joined.is_bottom());
    assert!(AdviceFact::bottom().is_bottom());
}

#[test]
fn key_set_operations_follow_set_semantics() {
    let mut a: KeySet<u32> = KeySet::empty();
    a.insert(1);
    a.insert(2);
    a.insert(1);
    assert_eq!(a.items().len(), 2);
    let b = KeySet::singleton(2u32);
    assert!(b.is_subset(&a));
    assert!(!a.is_subset(&b));
    assert!(a.intersect(&b).same_set(&b));
    assert!(a.union(&b).same_set(&a));
    assert!(a.contains(&1));
    assert!(!b.contains(&1));
}

#[test]
fn value_map_insert_replaces_and_remove_deletes() {
    let mut m: ValueMap<u32, AdviceFact> = ValueMap::new();
    m.insert(1, AdviceFact::from_input(0));
    m.insert(2, AdviceFact::from_input(1));
    m.insert(1, AdviceFact::from_input(2));
    assert_eq!(m.len(), 2);
    assert_eq!(m.get(&1), Some(&AdviceFact::from_input(2)));
    m.remove(&1);
    assert_eq!(m.get(&1), None);
    assert_eq!(m.len(), 1);
    assert_eq!(m.key_at(0), 2);
    assert_eq!(m.value_at(0), &AdviceFact::from_input(1));
}

// ---------------------------------------------------------------------------------------------
// Transfer functions
// ---------------------------------------------------------------------------------------------

#[test]
fn callee_summary_substitutes_argument_provenance() {
    let arg = test_var(0);
    let result = test_var(1);
    let mut env = Env::default();
    let arg_fact = AdviceFact::from_source(SourceSpan::unknown()).join(&AdviceFact::from_input(0));
    env.set_var_fact(&arg, arg_fact.clone());

    let mut summaries = AdviceSummaryMap::new();
    summaries.insert("callee".to_string(), AdviceSummary::new(vec![AdviceFact::from_input(0)]));

    apply_callee_summary(&mut env, "callee", &[arg], std::slice::from_ref(&result), &summaries);

    assert_eq!(env.fact_for_var(&result), arg_fact);
}

#[test]
fn opaque_callee_summary_clears_result_facts() {
    let arg = test_var(0);
    let result = test_var(1);
    let mut env = Env::default();
    env.set_var_fact(&arg, AdviceFact::from_input(0));
    env.set_var_fact(&result, AdviceFact::from_input(1));

    let mut summaries = AdviceSummaryMap::new();
    summaries.insert("callee".to_string(), AdviceSummary::opaque_with_arity(1));

    apply_callee_summary(&mut env, "callee", &[arg], std::slice::from_ref(&result), &summaries);

    assert_eq!(env.fact_for_var(&result), AdviceFact::bottom());
}

#[test]
fn missing_callee_summary_clears_result_facts() {
    let result = test_var(1);
    let mut env = Env::default();
    env.set_var_fact(&result, AdviceFact::from_input(1));
    apply_callee_summary(&mut env, "absent", &[], std::slice::from_ref(&result), &AdviceSummaryMap::new());
    assert!(env.fact_for_var(&result).is_bottom());
}

#[test]
fn callee_summary_keeps_own_sources_and_bottoms_extra_results() {
    let a0 = test_var(0);
    let a1 = test_var(1);
    let r0 = test_var(2);
    let r1 = test_var(3);
    let mut env = Env::default();
    env.set_var_fact(&a0, AdviceFact::from_input(5));
    env.set_var_fact(&a1, AdviceFact::from_source(span(9)));
    env.set_var_fact(&r1, AdviceFact::from_input(7));
    let output = AdviceFact::from_source(span(1)).join(&input_fact(&[1, 4]));
    let mut summaries = AdviceSummaryMap::new();
    summaries.insert("f".to_string(), AdviceSummary::opaque_with_arity(0));
    summaries.insert("f".to_string(), AdviceSummary::new(vec![output]));
    apply_callee_summary(&mut env, "f", &[a0, a1], &[r0, r1], &summaries);
    assert_eq!(
        env.fact_for_var(&r0),
        AdviceFact::from_source(span(1)).join(&AdviceFact::from_source(span(9)))
    );
    assert!(env.fact_for_var(&r1).is_bottom());
}

#[test]
fn substitute_output_fact_ignores_missing_arguments() {
    let summary_fact = AdviceFact::from_source(span(1)).join(&input_fact(&[0, 3]));
    let args = vec![AdviceFact::from_input(8), AdviceFact::from_input(9)];
    assert_eq!(
        substitute_output_fact(&summary_fact, &args),
        AdviceFact::from_source(span(1)).join(&AdviceFact::from_input(8))
    );
    assert!(substitute_output_fact(&AdviceFact::bottom(), &args).is_bottom());
}

#[test]
fn summary_map_lookup_finds_latest_insert() {
    let mut summaries = AdviceSummaryMap::new();
    assert!(summaries.get("f").is_none());
    summaries.insert("f".to_string(), AdviceSummary::new(vec![AdviceFact::from_input(0)]));
    summaries.insert("g".to_string(), AdviceSummary::opaque_with_arity(2));
    let f = summaries.get("f").expect("f");
    assert!(!f.is_opaque());
    assert_eq!(f.output_count(), 1);
    let g = summaries.get("g").expect("g");
    assert!(g.is_opaque());
    assert_eq!(g.outputs().len(), 2);
    assert!(g.outputs()[1].is_bottom());
}

#[test]
fn seeded_inputs_count_from_the_bottom_of_the_stack() {
    let env = seed_input_env(3);
    assert_eq!(env.fact_for_var(&Var::new(0, 0)), AdviceFact::from_input(2));
    assert_eq!(env.fact_for_var(&Var::new(1, 1)), AdviceFact::from_input(1));
    assert_eq!(env.fact_for_var(&Var::new(2, 2)), AdviceFact::from_input(0));
    assert!(env.fact_for_var(&Var::new(3, 3)).is_bottom());
    assert!(seed_input_env(0).same_state(&AdviceState::new()));
}

#[test]
fn intrinsic_names_and_u32_preconditions() {
    assert_eq!(intrinsic_base_name("u32assert.err=7"), "u32assert");
    assert_eq!(intrinsic_base_name("add"), "add");
    assert_eq!(intrinsic_base_name(".x"), "");
    assert!(intrinsic_requires_u32_precondition("u32wrapping_add"));
    assert!(intrinsic_requires_u32_precondition("u32lt.3"));
    assert!(!intrinsic_requires_u32_precondition("u32assert2.err=1"));
    assert!(!intrinsic_requires_u32_precondition("u32split"));
    assert!(!intrinsic_requires_u32_precondition("u32testw"));
    assert!(!intrinsic_requires_u32_precondition("add"));
    assert!(!intrinsic_requires_u32_precondition("u3"));
}

#[test]
fn adv_push_marks_results_as_advice() {
    let mut env = Env::new();
    let r = test_var(1);
    env.set_var_identity(&r, VarKey { index: 4 });
    apply_intrinsic_effect(span(3), &intrinsic("adv_push.2", vec![], vec![r]), &mut env);
    assert_eq!(env.fact_for_var(&r), AdviceFact::from_source(span(3)));
    assert_eq!(env.identity_for_var(&r), VarKey { index: 1 });
}

#[test]
fn u32_assertions_sanitize_their_operands() {
    let mut env = Env::new();
    let a = test_var(0);
    env.set_var_fact(&a, AdviceFact::from_source(span(1)));
    apply_intrinsic_effect(span(2), &intrinsic("u32assert.err=1", vec![a], vec![]), &mut env);
    assert!(env.fact_for_var(&a).is_bottom());
}

#[test]
fn field_intrinsics_propagate_and_u32_intrinsics_sanitize() {
    let mut env = Env::new();
    let a = test_var(0);
    let b = test_var(1);
    let r = test_var(2);
    env.set_var_fact(&a, AdviceFact::from_input(0));
    env.set_var_fact(&b, AdviceFact::from_source(span(1)));
    apply_intrinsic_effect(span(2), &intrinsic("add", vec![a, b], vec![r]), &mut env);
    assert_eq!(env.fact_for_var(&r), AdviceFact::from_input(0).join(&AdviceFact::from_source(span(1))));
    apply_intrinsic_effect(span(3), &intrinsic("u32and", vec![a, b], vec![r]), &mut env);
    assert!(env.fact_for_var(&r).is_bottom());
    apply_intrinsic_effect(span(4), &intrinsic("u32split", vec![a], vec![r]), &mut env);
    assert!(env.fact_for_var(&r).is_bottom());
    env.set_var_fact(&r, AdviceFact::from_input(3));
    apply_intrinsic_effect(span(5), &intrinsic("sdepth", vec![], vec![r]), &mut env);
    assert!(env.fact_for_var(&r).is_bottom());
}

#[test]
fn adv_pipe_preserves_capacity_and_marks_payload() {
    let mut env = Env::new();
    let args: Vec<Var> = (0..13).map(test_var).collect();
    let results: Vec<Var> = (20..33).map(test_var).collect();
    for (i, a) in args.iter().enumerate() {
        env.set_var_fact(a, AdviceFact::from_input(i));
    }
    apply_intrinsic_effect(span(4), &intrinsic("adv_pipe", args.clone(), results.clone()), &mut env);
    assert!(env.fact_for_var(&results[0]).is_bottom());
    for j in 1..5 {
        assert_eq!(env.fact_for_var(&results[j]), AdviceFact::from_input(12 - j));
    }
    for j in 5..13 {
        assert_eq!(env.fact_for_var(&results[j]), AdviceFact::from_source(span(4)));
    }
    let mut short = Env::new();
    apply_intrinsic_effect(span(5), &intrinsic("adv_pipe", vec![], vec![test_var(1)]), &mut short);
    assert_eq!(short.fact_for_var(&test_var(1)), AdviceFact::from_source(span(5)));
}

#[test]
fn assertz_on_eq_zero_witness_proves_identity_nonzero() {
    let mut env = Env::new();
    let x = test_var(0);
    let flag = test_var(1);
    assign_expr_metadata(&flag, &eq_zero(0), &mut env);
    assert_eq!(env.zero_test_for_var(&flag), Some(EqZeroWitness { value_identity: VarKey { index: 0 } }));
    refine_nonzero_from_intrinsic(&intrinsic("assertz.err=3", vec![flag], vec![]), &mut env);
    assert!(env.is_var_nonzero(&x));
    let mut other = Env::new();
    assign_expr_metadata(&flag, &eq_zero(0), &mut other);
    refine_nonzero_from_intrinsic(&intrinsic("assert", vec![flag], vec![]), &mut other);
    assert!(!other.is_var_nonzero(&x));
}

#[test]
fn scalar_local_store_and_load_round_trip_metadata() {
    let mut env = Env::new();
    let x = test_var(0);
    let flag = test_var(1);
    let out = test_var(2);
    env.set_var_fact(&flag, AdviceFact::from_source(span(1)));
    assign_expr_metadata(&flag, &eq_zero(0), &mut env);
    apply_local_store(&[flag], 3, &mut env);
    assert_eq!(env.fact_for_local(3), AdviceFact::from_source(span(1)));
    assert_eq!(env.identity_for_local(3), Some(VarKey { index: 1 }));
    apply_local_load_scalar(&[out], 3, &mut env);
    assert_eq!(env.fact_for_var(&out), AdviceFact::from_source(span(1)));
    assert_eq!(env.identity_for_var(&out), VarKey { index: 1 });
    assert_eq!(env.zero_test_for_var(&out), Some(EqZeroWitness { value_identity: VarKey { index: 0 } }));
    apply_local_store(&[x, flag], 4, &mut env);
    assert_eq!(env.identity_for_local(4), None);
    assert_eq!(env.zero_test_for_local(4), None);
}

#[test]
fn word_locals_follow_endianness() {
    let mut env = Env::new();
    let values: Vec<Var> = (0..4).map(test_var).collect();
    for (i, v) in values.iter().enumerate() {
        env.set_var_fact(v, AdviceFact::from_input(i));
    }
    apply_local_store_word(LocalAccessKind::WordBe, &values, 8, &mut env);
    assert_eq!(env.fact_for_local(8), AdviceFact::from_input(3));
    assert_eq!(env.fact_for_local(11), AdviceFact::from_input(0));
    let outputs: Vec<Var> = (10..14).map(test_var).collect();
    apply_local_load_word(LocalAccessKind::WordBe, &outputs, 8, &mut env);
    assert_eq!(env.fact_for_var(&outputs[0]), AdviceFact::from_input(3));
    assert_eq!(env.fact_for_var(&outputs[3]), AdviceFact::from_input(0));
    apply_local_load_word(LocalAccessKind::WordLe, &outputs, 8, &mut env);
    assert_eq!(env.fact_for_var(&outputs[0]), AdviceFact::from_input(0));
    apply_local_store_word(LocalAccessKind::WordLe, &values, 20, &mut env);
    assert_eq!(env.fact_for_local(20), AdviceFact::from_input(0));
    assert_eq!(env.fact_for_local(23), AdviceFact::from_input(3));
    let loaded: Vec<Var> = (30..34).map(test_var).collect();
    apply_local_load_word(LocalAccessKind::WordLe, &loaded, 20, &mut env);
    for (j, output) in loaded.iter().enumerate() {
        assert_eq!(env.fact_for_var(output), AdviceFact::from_input(3 - j));
    }
}

#[test]
fn element_word_access_uses_a_single_slot() {
    let mut env = Env::new();
    let values = [test_var(0), test_var(1)];
    env.set_var_fact(&values[0], AdviceFact::from_input(0));
    env.set_var_fact(&values[1], AdviceFact::from_input(1));
    apply_local_store_word(LocalAccessKind::Element, &values, 5, &mut env);
    assert_eq!(env.fact_for_local(5), AdviceFact::from_input(1));
    assert!(env.fact_for_local(6).is_bottom());
    let outputs = [test_var(7), test_var(8)];
    apply_local_load_word(LocalAccessKind::Element, &outputs, 5, &mut env);
    assert_eq!(env.fact_for_var(&outputs[0]), AdviceFact::from_input(1));
    assert_eq!(env.fact_for_var(&outputs[1]), AdviceFact::from_input(1));
}

#[test]
fn expression_facts_propagate_through_field_arithmetic_only() {
    let mut env = Env::new();
    env.set_var_fact(&test_var(0), AdviceFact::from_input(0));
    env.set_var_fact(&test_var(1), AdviceFact::from_source(span(1)));
    let sum = Expr::Binary(BinOp::Add, Box::new(var(0)), Box::new(var(1)));
    assert_eq!(expr_output_fact(&sum, &env), AdviceFact::from_input(0).join(&AdviceFact::from_source(span(1))));
    let cmp = Expr::Binary(BinOp::Lt, Box::new(var(0)), Box::new(var(1)));
    assert!(expr_output_fact(&cmp, &env).is_bottom());
    let neg = Expr::Unary(UnOp::Neg, Box::new(var(1)));
    assert_eq!(expr_output_fact(&neg, &env), AdviceFact::from_source(span(1)));
    let not = Expr::Unary(UnOp::U32Not, Box::new(var(1)));
    assert!(expr_output_fact(&not, &env).is_bottom());
    let pick = Expr::Ternary {
        cond: Box::new(Expr::True),
        then_expr: Box::new(var(0)),
        else_expr: Box::new(Expr::Constant(4)),
    };
    assert_eq!(expr_output_fact(&pick, &env), AdviceFact::from_input(0));
    assert!(expr_output_fact(&Expr::EqW, &env).is_bottom());
}

#[test]
fn expression_identities_witnesses_and_nonzero_constants() {
    let env = Env::new();
    assert_eq!(expr_identity(&var(5), &env), Some(VarKey { index: 5 }));
    assert_eq!(expr_identity(&Expr::Constant(1), &env), None);
    assert_eq!(
        eq_zero_witness_for_expr(&eq_zero(5), &env),
        Some(EqZeroWitness { value_identity: VarKey { index: 5 } })
    );
    let flipped = Expr::Binary(BinOp::Eq, Box::new(Expr::Constant(0)), Box::new(var(2)));
    assert_eq!(
        eq_zero_witness_for_expr(&flipped, &env),
        Some(EqZeroWitness { value_identity: VarKey { index: 2 } })
    );
    let not_zero = Expr::Binary(BinOp::Eq, Box::new(var(2)), Box::new(Expr::Constant(1)));
    assert_eq!(eq_zero_witness_for_expr(&not_zero, &env), None);
    assert!(expr_is_proven_nonzero(&Expr::Constant(3), &env));
    assert!(!expr_is_proven_nonzero(&Expr::Constant(0), &env));
    assert!(!expr_is_proven_nonzero(&var(2), &env));
    let zero = Expr::Constant(0);
    let x = var(1);
    assert_eq!(zero_comparison_var(&x, &zero), Some(&test_var(1)));
    assert_eq!(zero_comparison_var(&x, &x), None);
    assert_eq!(single_var(&[test_var(1)]), Some(&test_var(1)));
    assert_eq!(single_var(&[test_var(1), test_var(2)]), None);
    assert_eq!(stmt_span(&Stmt::Return { span: span(6) }), span(6));
    assert_eq!(MAX_LOOP_PASSES, 32);
}

#[test]
fn phi_metadata_survives_only_when_both_sides_agree() {
    let mut lhs = Env::new();
    let mut rhs = Env::new();
    let a = test_var(0);
    let b = test_var(1);
    let dest = test_var(2);
    lhs.set_var_identity(&a, VarKey { index: 9 });
    rhs.set_var_identity(&b, VarKey { index: 9 });
    let mut env = Env::new();
    assign_phi_metadata(&dest, &a, &lhs, &b, &rhs, &mut env);
    assert_eq!(env.identity_for_var(&dest), VarKey { index: 9 });
    assert_eq!(env.zero_test_for_var(&dest), None);
    rhs.set_var_identity(&b, VarKey { index: 8 });
    assign_phi_metadata(&dest, &a, &lhs, &b, &rhs, &mut env);
    assert_eq!(env.identity_for_var(&dest), VarKey { index: 2 });
}

#[test]
fn loop_head_join_merges_entry_and_back_edge_facts() {
    let init = test_var(0);
    let step = test_var(1);
    let dest = test_var(2);
    let mut entry = Env::new();
    entry.set_var_fact(&init, AdviceFact::from_input(0));
    let mut body = Env::new();
    body.set_var_fact(&step, AdviceFact::from_source(span(2)));
    let loop_env = Env::new();
    let joined = join_loop_head_env(&loop_env, &entry, &body, &[LoopPhi { dest, init, step }]);
    assert_eq!(joined.fact_for_var(&dest), AdviceFact::from_input(0).join(&AdviceFact::from_source(span(2))));
    assert_eq!(joined.fact_for_var(&step), AdviceFact::from_source(span(2)));
}

#[test]
fn else_branch_learns_nonzero_from_eq_zero_condition() {
    let env = Env::new();
    let (then_env, else_env) = refine_if_envs(&eq_zero(4), &env);
    assert!(then_env.same_state(&env));
    assert!(else_env.is_var_nonzero(&test_var(4)));
    assert!(!then_env.is_var_nonzero(&test_var(4)));
    let (_, plain) = refine_if_envs(&var(4), &env);
    assert!(plain.same_state(&env));
}
