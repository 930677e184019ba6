use masm_analysis::frontend::body::{
    resolved_summary_key, BodyId, InvocationId, summary_key_for_path, AnalysisInvocation, AnalysisInvocationKind,
    AnalysisInvocationTarget, AnalysisLocalAccess, AnalysisLocalLane, AnalysisOp, KnownTargets,
};
use masm_analysis::frontend::decompiler::{DecompilerAnalysisFrontend, DecompilerProcedure};
use masm_analysis::frontend::procedure::{
    declared_stack_signature, resolved_felts, stack_signature, summary_key_for_name,
};
use masm_analysis::frontend::syntax::SyntaxAnalysisFrontend;
use masm_analysis::frontend::syntax_tree::{
    Block, FunctionSignature, Instruction, LocalItem, LocalItemKind, ModuleSyntax, Op, ProcedureSyntax,
    ResolutionOutcome, SymbolResolution, TargetSyntax, TypeWidth, Workspace,
};
use masm_analysis::frontend::{
    AnalysisFrontend, AnalysisProcedure, PreciseAnalysisFrontend, PreciseAnalysisProcedure,
    ProcedureMetadata, SummaryKey,
};
use masm_analysis::span::SourceSpan;
use masm_analysis::StackSignature;

// ---------------------------------------------------------------------------------------------
// Builders for parsed module snapshots
// ---------------------------------------------------------------------------------------------

fn at(source: u32, offset: u32) -> SourceSpan {
    SourceSpan::new(source, offset, offset + 1)
}

fn symbol(name: &str, span: SourceSpan, resolution: ResolutionOutcome) -> TargetSyntax {
    TargetSyntax {
        target: AnalysisInvocationTarget::Symbol(name.to_string()),
        span,
        resolution,
    }
}

fn path(text: &str, span: SourceSpan, resolution: ResolutionOutcome) -> TargetSyntax {
    TargetSyntax {
        target: AnalysisInvocationTarget::Path(text.to_string()),
        span,
        resolution,
    }
}

fn inst(span: SourceSpan, instruction: Instruction) -> Op {
    Op::Inst { span, instruction }
}

fn push_one(span: SourceSpan) -> Op {
    inst(span, Instruction::Other("push.1".to_string()))
}

fn block(span: SourceSpan, ops: Vec<Op>) -> Block {
    Block { span, ops }
}

fn procedure(
    name: &str,
    signature: Option<FunctionSignature>,
    num_locals: u16,
    span: SourceSpan,
    body: Block,
) -> ProcedureSyntax {
    ProcedureSyntax { name: name.to_string(), signature, num_locals, span, body }
}

fn module(path: &str, procedures: Vec<ProcedureSyntax>) -> ModuleSyntax {
    ModuleSyntax { path: path.to_string(), procedures }
}

/// `proc <name>\n    push.1\nend` in source `source`, starting at `offset`.
fn trivial_procedure(name: &str, source: u32, offset: u32) -> ProcedureSyntax {
    procedure(
        name,
        None,
        0,
        at(source, offset),
        block(at(source, offset + 1), vec![push_one(at(source, offset + 2))]),
    )
}

/// `proc <name>\n    exec.<target>\nend` in source `source`, starting at `offset`.
fn exec_caller(name: &str, source: u32, offset: u32, target: TargetSyntax) -> ProcedureSyntax {
    procedure(
        name,
        None,
        0,
        at(source, offset),
        block(at(source, offset + 1), vec![inst(at(source, offset + 2), Instruction::Exec(target))]),
    )
}

/// `(input: word, flag: i1) -> (u32, word)`
fn widen_signature() -> FunctionSignature {
    FunctionSignature {
        args: vec![TypeWidth::Felts(4), TypeWidth::Felts(1)],
        results: vec![TypeWidth::Felts(1), TypeWidth::Felts(4)],
    }
}

/// `(input: UnknownWord) -> word`
fn unknown_signature() -> FunctionSignature {
    FunctionSignature { args: vec![TypeWidth::Unresolved], results: vec![TypeWidth::Felts(4)] }
}

fn resolved(resolution: SymbolResolution) -> ResolutionOutcome {
    ResolutionOutcome::Resolved(resolution)
}

fn external(path: &str) -> ResolutionOutcome {
    resolved(SymbolResolution::External(path.to_string()))
}

fn local_item(kind: LocalItemKind, name: &str) -> SymbolResolution {
    SymbolResolution::Local(Some(LocalItem { kind, name: name.to_string() }))
}

fn local_procedure(name: &str) -> ResolutionOutcome {
    resolved(local_item(LocalItemKind::Procedure, name))
}

fn no_known_targets() -> KnownTargets {
    KnownTargets::new(Vec::new(), Vec::new())
}

fn first_invocation<'p>(procedure: &'p DecompilerProcedure<'_>) -> &'p AnalysisInvocation {
    match procedure.body().ops().first() {
        Some(AnalysisOp::Inst(instruction)) => instruction.invocation().expect("invocation"),
        _ => panic!("expected root invocation"),
    }
}

/// The workspace `app::main` holding `caller`, whose only instruction is `exec.<target>`.
fn single_caller_workspace(target: TargetSyntax) -> Workspace {
    Workspace { modules: vec![module("app::main", vec![exec_caller("caller", 0, 0, target)])] }
}

fn caller_key(workspace: &Workspace) -> Option<String> {
    let frontend = DecompilerAnalysisFrontend::new(workspace);
    let procedures = frontend.precise_procedures();
    let procedure = procedures.last().expect("caller procedure");
    let invocation = first_invocation(procedure);
    procedure.resolved_summary_key(invocation).map(|key| key.as_str().to_string())
}

fn assert_frontends_agree(workspace: &Workspace) {
    let decompiler = DecompilerAnalysisFrontend::new(workspace);
    let syntax = SyntaxAnalysisFrontend::new(workspace.modules.iter().collect());
    let lhs = decompiler.procedures();
    let rhs = syntax.procedures();
    assert_eq!(lhs.len(), rhs.len());
    for (d, s) in lhs.iter().zip(rhs.iter()) {
        assert_eq!(d.metadata(), s.metadata());
        assert_eq!(d.body(), s.body());
    }
}

// ---------------------------------------------------------------------------------------------
// Summary keys and metadata
// ---------------------------------------------------------------------------------------------

#[test]
fn summary_key_round_trips() {
    let key = SummaryKey::new("miden::math::add");
    assert_eq!(key.as_str(), "miden::math::add");
}

#[test]
fn procedure_metadata_accessors_return_constructor_values() {
    let key = SummaryKey::new("miden::math::add");
    let metadata = ProcedureMetadata::new(
        key.clone(),
        Some(StackSignature { inputs: 2, outputs: 1 }),
        4,
        SourceSpan::unknown(),
    );

    assert_eq!(metadata.summary_key(), &key);
    assert_eq!(metadata.stack_signature(), Some(StackSignature { inputs: 2, outputs: 1 }));
    assert_eq!(metadata.inputs(), Some(2));
    assert_eq!(metadata.outputs(), Some(1));
    assert_eq!(metadata.locals(), 4);
    assert_eq!(metadata.span(), SourceSpan::unknown());
}

#[test]
fn summary_key_string_forms_round_trip() {
    let key = SummaryKey::from_string("a::b".to_string());
    assert!(key.same_key(&SummaryKey::new("a::b")));
    assert!(!key.same_key(&SummaryKey::new("a::c")));
    assert_eq!(key.into_string(), "a::b");
}

#[test]
fn summary_key_for_name_joins_module_and_procedure() {
    assert_eq!(summary_key_for_name("math::u64", "add").as_str(), "math::u64::add");
    assert_eq!(summary_key_for_name("", "add").as_str(), "::add");
}

#[test]
fn summary_key_for_path_drops_every_leading_separator() {
    assert_eq!(summary_key_for_path("::math::add").as_str(), "math::add");
    assert_eq!(summary_key_for_path("::::math").as_str(), "math");
    assert_eq!(summary_key_for_path(":math").as_str(), ":math");
    assert_eq!(summary_key_for_path("math::add").as_str(), "math::add");
}

#[test]
fn metadata_with_unknown_signature_has_no_counts() {
    let metadata = ProcedureMetadata::new(SummaryKey::new("m::p"), None, 0, SourceSpan::unknown());
    assert_eq!(metadata.inputs(), None);
    assert_eq!(metadata.outputs(), None);
}

// ---------------------------------------------------------------------------------------------
// Declared stack effects
// ---------------------------------------------------------------------------------------------

#[test]
fn resolved_felts_adds_widths_and_rejects_unsized_types() {
    assert_eq!(resolved_felts(TypeWidth::Felts(4), 1), Some(5));
    assert_eq!(resolved_felts(TypeWidth::Felts(0), 7), Some(7));
    assert_eq!(resolved_felts(TypeWidth::Unsized, 1), None);
    assert_eq!(resolved_felts(TypeWidth::Unresolved, 0), None);
    assert_eq!(resolved_felts(TypeWidth::Felts(1), usize::MAX), None);
}

#[test]
fn stack_signature_sums_argument_and_result_widths() {
    assert_eq!(stack_signature(&widen_signature()), Some(StackSignature { inputs: 5, outputs: 5 }));
    let empty = FunctionSignature { args: Vec::new(), results: Vec::new() };
    assert_eq!(stack_signature(&empty), Some(StackSignature { inputs: 0, outputs: 0 }));
    assert_eq!(stack_signature(&unknown_signature()), None);
    let unsized_result =
        FunctionSignature { args: vec![TypeWidth::Felts(1)], results: vec![TypeWidth::Unsized] };
    assert_eq!(stack_signature(&unsized_result), None);
    let overflowing = FunctionSignature {
        args: vec![TypeWidth::Felts(usize::MAX), TypeWidth::Felts(1)],
        results: Vec::new(),
    };
    assert_eq!(stack_signature(&overflowing), None);
}

#[test]
fn declared_stack_signature_of_missing_signature_is_none() {
    assert_eq!(declared_stack_signature(None), None);
    assert_eq!(
        declared_stack_signature(Some(&widen_signature())),
        Some(StackSignature { inputs: 5, outputs: 5 })
    );
}

// ---------------------------------------------------------------------------------------------
// Resolution of invocation targets
// ---------------------------------------------------------------------------------------------

#[test]
fn resolved_summary_key_from_mast_root_is_none() {
    let resolution = SymbolResolution::MastRoot;
    let known_targets = no_known_targets();

    assert!(
        resolved_summary_key("math::word_ops", "foo", &resolution, true, &known_targets).is_none(),
        "mast root resolutions should not yield summary keys"
    );
}

#[test]
fn resolved_summary_key_filters_unknown_local_symbols() {
    // Item 0 of `math::word_ops` is `proc foo`; the symbol names another item.
    let resolution = local_item(LocalItemKind::Procedure, "foo");
    let known_targets = no_known_targets();

    assert!(
        resolved_summary_key("math::word_ops", "unused_constant", &resolution, true, &known_targets)
            .is_none(),
        "local non-procedure symbols should not produce summary keys"
    );
}

#[test]
fn resolved_summary_key_filters_unknown_external_aliases() {
    let resolution = SymbolResolution::External("std::math::u64".to_string());
    let known_targets = no_known_targets();

    assert!(
        resolved_summary_key("math::word_ops", "u64", &resolution, true, &known_targets).is_none(),
        "unknown external aliases should not produce summary keys"
    );
}

#[test]
fn resolved_summary_key_filters_two_segment_external_symbol_aliases() {
    let resolution = SymbolResolution::External("math::add".to_string());
    let known_targets = no_known_targets();

    assert!(
        resolved_summary_key("math::word_ops", "plus", &resolution, true, &known_targets).is_none(),
        "two-segment external symbol aliases should stay opaque without linker metadata"
    );
}

#[test]
fn resolved_summary_key_preserves_known_external_procedure_aliases() {
    let modules = [("math::helpers", vec!["add"]), ("app::main", vec!["caller"])];
    let mut procedures = Vec::new();
    let mut module_names = Vec::new();
    for (module_name, names) in modules.iter() {
        module_names.push(module_name.to_string());
        for name in names {
            procedures.push(summary_key_for_name(module_name, name).as_str().to_string());
        }
    }
    let known_targets = KnownTargets::new(procedures, module_names);
    let resolution = SymbolResolution::External("math::helpers::add".to_string());

    assert_eq!(
        resolved_summary_key("app::main", "plus", &resolution, true, &known_targets)
            .as_ref()
            .map(SummaryKey::as_str),
        Some("math::helpers::add"),
        "external symbol aliases backed by workspace-known procedures should preserve summary keys"
    );
}

#[test]
fn resolved_summary_key_filters_exact_symbol_targets_not_known_as_procedures() {
    let resolution = SymbolResolution::Exact("pkg::math::CONST".to_string());
    let known_targets = no_known_targets();

    assert!(
        resolved_summary_key("math::word_ops", "x", &resolution, true, &known_targets).is_none(),
        "exact symbol targets should only resolve when the frontend knows they are procedures"
    );
}

#[test]
fn resolved_summary_key_of_local_procedure_is_qualified_by_module() {
    let resolution = local_item(LocalItemKind::Procedure, "foo");
    assert_eq!(
        resolved_summary_key("math::word_ops", "foo", &resolution, true, &no_known_targets())
            .as_ref()
            .map(SummaryKey::as_str),
        Some("math::word_ops::foo")
    );
    let missing = SymbolResolution::Local(None);
    assert!(resolved_summary_key("m", "foo", &missing, true, &no_known_targets()).is_none());
    let constant = local_item(LocalItemKind::Constant, "foo");
    assert!(resolved_summary_key("m", "foo", &constant, true, &no_known_targets()).is_none());
}

#[test]
fn resolved_summary_key_of_paths_keeps_keys_unless_they_name_known_modules() {
    let known_targets =
        KnownTargets::new(vec!["math::helpers::add".to_string()], vec!["math::helpers".to_string()]);
    let to_module = SymbolResolution::External("::math::helpers".to_string());
    assert!(resolved_summary_key("app::main", "::math::helpers", &to_module, false, &known_targets)
        .is_none());
    let to_unknown = SymbolResolution::Exact("::pkg::util::run".to_string());
    assert_eq!(
        resolved_summary_key("app::main", "::pkg::util::run", &to_unknown, false, &known_targets)
            .as_ref()
            .map(SummaryKey::as_str),
        Some("pkg::util::run")
    );
    assert!(resolved_summary_key("app::main", "helpers", &SymbolResolution::Module, false, &known_targets)
        .is_none());
}

#[test]
fn known_targets_membership_is_exact() {
    let known = KnownTargets::new(vec!["a::b".to_string()], vec!["a".to_string()]);
    assert!(known.contains_procedure("a::b"));
    assert!(!known.contains_procedure("a::b::c"));
    assert!(!known.contains_procedure("a"));
    assert!(known.contains_module("a"));
    assert!(!known.contains_module("a::b"));
    let copy = known.clone();
    assert!(copy.contains_procedure("a::b"));
    assert!(!copy.contains_procedure("a"));
    assert!(copy.contains_module("a"));
    let modules_only = KnownTargets::new(Vec::new(), vec!["a::b".to_string()]);
    assert!(!modules_only.contains_procedure("a::b"));
}

// ---------------------------------------------------------------------------------------------
// Decompiler frontend
// ---------------------------------------------------------------------------------------------

#[test]
fn decompiler_frontend_exposes_fully_qualified_summary_keys() {
    let workspace = Workspace {
        modules: vec![
            module("math::u32_ops", vec![trivial_procedure("add", 0, 0)]),
            module("math::word_ops", vec![trivial_procedure("reverse", 1, 0)]),
        ],
    };

    let frontend = DecompilerAnalysisFrontend::new(&workspace);
    let summary_keys: Vec<_> = frontend
        .procedures()
        .into_iter()
        .map(|procedure| procedure.metadata().summary_key().as_str().to_string())
        .collect();

    assert_eq!(
        summary_keys,
        vec!["math::u32_ops::add".to_string(), "math::word_ops::reverse".to_string()]
    );
}

#[test]
fn decompiler_frontend_uses_declared_signature_and_locals_metadata() {
    let workspace = Workspace {
        modules: vec![module(
            "math::word_ops",
            vec![procedure(
                "widen",
                Some(widen_signature()),
                8,
                at(0, 0),
                block(at(0, 1), vec![push_one(at(0, 2))]),
            )],
        )],
    };

    let frontend = DecompilerAnalysisFrontend::new(&workspace);
    let procedures = frontend.procedures();
    let procedure = procedures.first().expect("procedure");
    let metadata = procedure.metadata();

    assert_eq!(metadata.stack_signature(), Some(StackSignature { inputs: 5, outputs: 5 }));
    assert_eq!(metadata.inputs(), Some(5));
    assert_eq!(metadata.outputs(), Some(5));
    assert_eq!(metadata.locals(), 8);
    assert_eq!(metadata.summary_key().as_str(), "math::word_ops::widen");
}

#[test]
fn decompiler_frontend_preserves_unknown_stack_signature_metadata() {
    let workspace = Workspace {
        modules: vec![module(
            "math::word_ops",
            vec![procedure(
                "widen",
                Some(unknown_signature()),
                0,
                at(0, 0),
                block(at(0, 1), vec![push_one(at(0, 2))]),
            )],
        )],
    };

    let frontend = DecompilerAnalysisFrontend::new(&workspace);
    let procedures = frontend.procedures();
    let procedure = procedures.first().expect("procedure");
    let metadata = procedure.metadata();

    assert_eq!(metadata.stack_signature(), None);
    assert_eq!(metadata.inputs(), None);
    assert_eq!(metadata.outputs(), None);
    assert_eq!(metadata.summary_key().as_str(), "math::word_ops::widen");
}

/// `@locals(4) proc inspect`: `locaddr.0`, then `if.true exec.foo else repeat.2 loc_storew_be.0
/// end end`, then `while.true loc_loadw_le.0 end`.
fn inspect_workspace() -> Workspace {
    let body = block(
        at(0, 1),
        vec![
            inst(at(0, 2), Instruction::Locaddr(0)),
            Op::If {
                span: at(0, 3),
                then_blk: block(
                    at(0, 4),
                    // `foo` is taken to resolve to a local procedure of that name.
                    vec![inst(
                        at(0, 5),
                        Instruction::Exec(symbol("foo", at(0, 6), local_procedure("foo"))),
                    )],
                ),
                else_blk: block(
                    at(0, 7),
                    vec![Op::Repeat {
                        span: at(0, 8),
                        count: 2,
                        body: block(at(0, 9), vec![inst(at(0, 10), Instruction::LocStoreWBe(0))]),
                    }],
                ),
            },
            Op::While {
                span: at(0, 11),
                body: block(at(0, 12), vec![inst(at(0, 13), Instruction::LocLoadWLe(0))]),
            },
        ],
    );
    Workspace {
        modules: vec![module("math::word_ops", vec![procedure("inspect", None, 4, at(0, 0), body)])],
    }
}

#[test]
fn decompiler_frontend_normalizes_control_flow_and_instruction_shapes() {
    let workspace = inspect_workspace();

    let frontend = DecompilerAnalysisFrontend::new(&workspace);
    let procedures = frontend.procedures();
    let procedure = procedures.first().expect("procedure");
    let body = procedure.body();

    assert_eq!(body.len(), 3);
    assert!(matches!(
        body.ops().first(),
        Some(AnalysisOp::Inst(instruction))
            if matches!(
                instruction.local_access(),
                Some(AnalysisLocalAccess::Address { index: 0, .. })
            )
    ));
    assert!(matches!(
        body.ops().get(1),
        Some(AnalysisOp::If { then_body, else_body, .. })
            if matches!(
                then_body.ops().first(),
                Some(AnalysisOp::Inst(instruction))
                    if matches!(
                        instruction.invocation(),
                        Some(invocation)
                            if invocation.kind() == AnalysisInvocationKind::Exec
                                && matches!(
                                    invocation.target(),
                                    AnalysisInvocationTarget::Symbol(target) if target == "foo"
                                )
                                && matches!(
                                    procedure.resolved_summary_key(invocation),
                                    Some(key) if key.as_str() == "math::word_ops::foo"
                                )
                    )
            ) && matches!(
                else_body.ops().first(),
                Some(AnalysisOp::Repeat { body, .. })
                    if matches!(
                        body.ops().first(),
                        Some(AnalysisOp::Inst(instruction))
                            if matches!(
                                instruction.local_access(),
                                Some(AnalysisLocalAccess::Store {
                                    index: 0,
                                    lane: AnalysisLocalLane::WordBigEndian,
                                    ..
                                })
                            )
                    )
            )
    ));
    assert!(matches!(
        body.ops().get(2),
        Some(AnalysisOp::While { body, .. })
            if matches!(
                body.ops().first(),
                Some(AnalysisOp::Inst(instruction))
                    if matches!(
                        instruction.local_access(),
                        Some(AnalysisLocalAccess::Load {
                            index: 0,
                            lane: AnalysisLocalLane::WordLittleEndian,
                            ..
                        })
                    )
            )
    ));
}

#[test]
fn decompiler_frontend_keeps_spans_counts_and_instructions() {
    let workspace = inspect_workspace();
    let frontend = DecompilerAnalysisFrontend::new(&workspace);
    let procedures = frontend.procedures();
    let body = procedures[0].body();
    assert_eq!(body.span(), at(0, 1));
    assert!(!body.is_empty());
    match &body.ops()[0] {
        AnalysisOp::Inst(instruction) => {
            assert_eq!(instruction.span(), at(0, 2));
            assert_eq!(instruction.instruction(), &Instruction::Locaddr(0));
            assert!(instruction.invocation().is_none());
            let access = instruction.local_access().expect("local access");
            assert_eq!(access.index(), 0);
            assert_eq!(access.span(), at(0, 2));
            assert_eq!(access.lane(), None);
        }
        _ => panic!("expected instruction"),
    }
    match &body.ops()[1] {
        AnalysisOp::If { else_body, .. } => match &else_body.ops()[0] {
            AnalysisOp::Repeat { count, span, .. } => {
                assert_eq!(*count, 2);
                assert_eq!(*span, at(0, 8));
            }
            _ => panic!("expected repeat"),
        },
        _ => panic!("expected if"),
    }
    assert_eq!(procedures[0].procedure().name, "inspect");
}

#[test]
fn decompiler_precise_frontend_does_not_cross_match_procedures() {
    let in_source = |source: u32| {
        let target = symbol("callee", at(source, 12), local_procedure("callee"));
        module(
            if source == 0 { "alpha" } else { "beta" },
            vec![
                trivial_procedure("callee", source, 0),
                procedure(
                    "caller",
                    None,
                    0,
                    at(source, 10),
                    block(at(source, 11), vec![inst(at(source, 13), Instruction::Call(target))]),
                ),
            ],
        )
    };
    let workspace = Workspace { modules: vec![in_source(0), in_source(1)] };

    let frontend = DecompilerAnalysisFrontend::new(&workspace);
    let mut callers: Vec<_> = frontend
        .procedures()
        .into_iter()
        .filter(|procedure| procedure.metadata().summary_key().as_str().ends_with("::caller"))
        .collect();
    assert_eq!(callers.len(), 2);

    let first_caller = callers.remove(0);
    let second_caller = callers.remove(0);
    let first_call = first_invocation(&first_caller).clone();
    let second_call = first_invocation(&second_caller).clone();

    assert_eq!(
        first_caller.resolved_summary_key(&first_call).map(|key| key.as_str()),
        Some("alpha::callee")
    );
    assert_eq!(
        second_caller.resolved_summary_key(&second_call).map(|key| key.as_str()),
        Some("beta::callee")
    );
    assert_eq!(first_caller.resolved_summary_key(&second_call), None);
    assert_eq!(second_caller.resolved_summary_key(&first_call), None);
}

#[test]
fn decompiler_precise_frontend_leaves_external_dependency_aliases_opaque() {
    let workspace = single_caller_workspace(symbol("plus", at(0, 3), external("::math::add")));
    assert_eq!(caller_key(&workspace), None);
}

#[test]
fn decompiler_precise_frontend_resolves_dependency_procedure_alias_when_present() {
    // The target is given as resolved to the package path of the dependency alias
    // `::math::add`; a module's local resolver alone leaves such an alias unresolved.
    let workspace = Workspace {
        modules: vec![
            module("pkg::math", vec![trivial_procedure("add", 0, 0)]),
            module(
                "app::main",
                vec![exec_caller("caller", 1, 0, symbol("plus", at(1, 3), external("::pkg::math::add")))],
            ),
        ],
    };
    assert_eq!(caller_key(&workspace).as_deref(), Some("pkg::math::add"));
}

#[test]
fn decompiler_precise_frontend_resolves_aliased_symbol_invocations() {
    let workspace = Workspace {
        modules: vec![
            module("tmp::aliases", vec![trivial_procedure("add", 0, 0)]),
            module(
                "app::main",
                vec![exec_caller(
                    "caller",
                    1,
                    0,
                    symbol("plus", at(1, 3), external("::tmp::aliases::add")),
                )],
            ),
        ],
    };
    let frontend = DecompilerAnalysisFrontend::new(&workspace);
    let procedures = frontend.precise_procedures();
    let procedure = procedures.last().expect("caller procedure");
    let invocation = first_invocation(procedure);

    assert_eq!(procedure.resolved_summary_key(invocation).map(|key| key.as_str()), Some("tmp::aliases::add"));
    assert!(matches!(
        invocation.target(),
        AnalysisInvocationTarget::Symbol(target) if target == "plus"
    ));
}

#[test]
fn decompiler_precise_frontend_resolves_dependency_procedure_alias_in_workspace() {
    // The target is given as resolved to the package path of the dependency alias
    // `::math::add`; a module's local resolver alone leaves such an alias unresolved.
    let workspace = Workspace {
        modules: vec![
            module("pkg::math", vec![trivial_procedure("add", 0, 0)]),
            module(
                "app::main",
                vec![exec_caller("caller", 1, 0, symbol("plus", at(1, 3), external("::pkg::math::add")))],
            ),
        ],
    };
    let frontend = DecompilerAnalysisFrontend::new(&workspace);
    let procedures = frontend.precise_procedures();
    let procedure = procedures.last().expect("caller procedure");
    let invocation = first_invocation(procedure);

    assert_eq!(procedure.resolved_summary_key(invocation).map(|key| key.as_str()), Some("pkg::math::add"));
    assert!(matches!(
        invocation.target(),
        AnalysisInvocationTarget::Symbol(target) if target == "plus"
    ));
}

#[test]
fn decompiler_precise_frontend_preserves_unresolved_qualified_path_targets() {
    let target = path("utils::target_proc", at(0, 3), ResolutionOutcome::Undefined);
    let workspace = single_caller_workspace(target);
    let frontend = DecompilerAnalysisFrontend::new(&workspace);
    let procedures = frontend.precise_procedures();
    let procedure = procedures.first().expect("caller procedure");
    let invocation = first_invocation(procedure);

    assert_eq!(
        procedure.resolved_summary_key(invocation).map(|key| key.as_str()),
        Some("utils::target_proc")
    );
    assert!(matches!(
        invocation.target(),
        AnalysisInvocationTarget::Path(target) if target == "utils::target_proc"
    ));
}

#[test]
fn decompiler_precise_frontend_ignores_absolute_module_targets() {
    let target = path("::math::helpers", at(0, 3), resolved(SymbolResolution::Module));
    let workspace = single_caller_workspace(target);
    let frontend = DecompilerAnalysisFrontend::new(&workspace);
    let procedures = frontend.precise_procedures();
    let procedure = procedures.first().expect("caller procedure");
    let invocation = first_invocation(procedure);

    assert_eq!(procedure.resolved_summary_key(invocation), None);
    assert!(matches!(
        invocation.target(),
        AnalysisInvocationTarget::Path(target) if target == "::math::helpers"
    ));
}

#[test]
fn decompiler_precise_frontend_leaves_unresolved_symbol_targets_without_summary_keys() {
    let workspace =
        single_caller_workspace(symbol("missing", at(0, 3), ResolutionOutcome::Undefined));
    let frontend = DecompilerAnalysisFrontend::new(&workspace);
    let procedures = frontend.precise_procedures();
    let procedure = procedures.first().expect("caller procedure");
    let invocation = first_invocation(procedure);

    assert_eq!(procedure.resolved_summary_key(invocation), None);
    assert!(matches!(
        invocation.target(),
        AnalysisInvocationTarget::Symbol(target) if target == "missing"
    ));
}

#[test]
fn decompiler_precise_frontend_leaves_local_non_procedure_targets_without_summary_keys() {
    let constant = resolved(local_item(LocalItemKind::Constant, "MISSING"));
    let workspace = single_caller_workspace(symbol("MISSING", at(0, 3), constant));
    let frontend = DecompilerAnalysisFrontend::new(&workspace);
    let procedures = frontend.precise_procedures();
    let procedure = procedures.first().expect("caller procedure");
    let invocation = first_invocation(procedure);

    assert_eq!(procedure.resolved_summary_key(invocation), None);
    assert!(matches!(
        invocation.target(),
        AnalysisInvocationTarget::Symbol(target) if target == "MISSING"
    ));
}

#[test]
fn decompiler_precise_frontend_leaves_module_symbol_targets_without_summary_keys() {
    let workspace = Workspace {
        modules: vec![
            module("math::helpers", vec![trivial_procedure("callee", 0, 0)]),
            module(
                "app::main",
                vec![exec_caller(
                    "caller",
                    1,
                    0,
                    symbol("helpers", at(1, 3), resolved(SymbolResolution::Module)),
                )],
            ),
        ],
    };
    let frontend = DecompilerAnalysisFrontend::new(&workspace);
    let procedures = frontend.precise_procedures();
    let procedure = procedures.last().expect("caller procedure");
    let invocation = first_invocation(procedure);

    assert_eq!(procedure.resolved_summary_key(invocation), None);
    assert!(matches!(
        invocation.target(),
        AnalysisInvocationTarget::Symbol(target) if target == "helpers"
    ));
}

#[test]
fn decompiler_precise_frontend_leaves_dependency_module_aliases_without_summary_keys() {
    let workspace = single_caller_workspace(symbol("m", at(0, 3), external("::pkg::math")));
    let frontend = DecompilerAnalysisFrontend::new(&workspace);
    let procedures = frontend.precise_procedures();
    let procedure = procedures.first().expect("caller procedure");
    let invocation = first_invocation(procedure);

    assert_eq!(procedure.resolved_summary_key(invocation), None);
    assert!(matches!(
        invocation.target(),
        AnalysisInvocationTarget::Symbol(target) if target == "m"
    ));
}

#[test]
fn decompiler_precise_frontend_leaves_external_constant_aliases_without_summary_keys() {
    let workspace = single_caller_workspace(symbol("x", at(0, 3), external("::pkg::math::CONST")));
    let frontend = DecompilerAnalysisFrontend::new(&workspace);
    let procedures = frontend.precise_procedures();
    let procedure = procedures.first().expect("caller procedure");
    let invocation = first_invocation(procedure);

    assert_eq!(procedure.resolved_summary_key(invocation), None);
    assert!(matches!(
        invocation.target(),
        AnalysisInvocationTarget::Symbol(target) if target == "x"
    ));
}

#[test]
fn decompiler_precise_frontend_ignores_failed_resolutions_and_mast_roots() {
    let failed = single_caller_workspace(path("a::b", at(0, 3), ResolutionOutcome::Failed));
    assert_eq!(caller_key(&failed), None);
    let root = TargetSyntax {
        target: AnalysisInvocationTarget::MastRoot("0x00".to_string()),
        span: at(0, 3),
        resolution: local_procedure("foo"),
    };
    assert_eq!(caller_key(&single_caller_workspace(root)), None);
}

#[test]
fn decompiler_precise_frontend_matches_invocations_by_body_id_and_span() {
    let workspace = single_caller_workspace(symbol("foo", at(0, 3), local_procedure("foo")));
    let frontend = DecompilerAnalysisFrontend::new(&workspace);
    let procedures = frontend.precise_procedures();
    let procedure = &procedures[0];
    let own = first_invocation(procedure).clone();
    assert_eq!(own.id(), InvocationId { ordinal: 0 });
    assert_eq!(own.body_id(), BodyId { index: 0 });
    assert_eq!(procedure.resolved_summary_key(&own).map(|k| k.as_str()), Some("app::main::foo"));
    let same_id_elsewhere = AnalysisInvocation::new(
        AnalysisInvocationKind::Exec,
        AnalysisInvocationTarget::Symbol("foo".to_string()),
        at(0, 4),
        InvocationId { ordinal: 0 },
        BodyId { index: 0 },
    );
    assert_eq!(procedure.resolved_summary_key(&same_id_elsewhere), None);
    let other_ordinal = AnalysisInvocation::new(
        AnalysisInvocationKind::Exec,
        AnalysisInvocationTarget::Symbol("foo".to_string()),
        at(0, 3),
        InvocationId { ordinal: 1 },
        BodyId { index: 0 },
    );
    assert_eq!(procedure.resolved_summary_key(&other_ordinal), None);
    let other_body = AnalysisInvocation::new(
        AnalysisInvocationKind::Call,
        AnalysisInvocationTarget::Symbol("other".to_string()),
        at(0, 3),
        InvocationId { ordinal: 0 },
        BodyId { index: 1 },
    );
    assert_eq!(procedure.resolved_summary_key(&other_body), None);
}

#[test]
fn decompiler_frontend_assigns_distinct_invocation_ids_in_body_order() {
    let target = |name: &str, offset: u32| symbol(name, at(0, offset), ResolutionOutcome::Undefined);
    let body = block(
        at(0, 1),
        vec![
            inst(at(0, 2), Instruction::Exec(target("foo", 3))),
            Op::If {
                span: at(0, 4),
                then_blk: block(at(0, 5), vec![inst(at(0, 6), Instruction::Call(target("bar", 7)))]),
                else_blk: block(
                    at(0, 8),
                    vec![inst(at(0, 9), Instruction::SysCall(target("baz", 10)))],
                ),
            },
        ],
    );
    let workspace = Workspace {
        modules: vec![module("app::main", vec![procedure("caller", None, 0, at(0, 0), body)])],
    };

    let frontend = DecompilerAnalysisFrontend::new(&workspace);
    let procedures = frontend.procedures();
    let procedure = procedures.first().expect("procedure");
    let mut invocation_ids = Vec::new();

    for op in procedure.body().ops() {
        match op {
            AnalysisOp::Inst(instruction) => {
                if let Some(invocation) = instruction.invocation() {
                    invocation_ids.push(invocation.id().ordinal());
                }
            }
            AnalysisOp::If { then_body, else_body, .. } => {
                let then_invocation = then_body
                    .ops()
                    .first()
                    .and_then(|op| match op {
                        AnalysisOp::Inst(instruction) => instruction.invocation(),
                        _ => None,
                    })
                    .expect("then invocation");
                let else_invocation = else_body
                    .ops()
                    .first()
                    .and_then(|op| match op {
                        AnalysisOp::Inst(instruction) => instruction.invocation(),
                        _ => None,
                    })
                    .expect("else invocation");
                invocation_ids.push(then_invocation.id().ordinal());
                invocation_ids.push(else_invocation.id().ordinal());
            }
            _ => {}
        }
    }

    assert_eq!(invocation_ids, vec![0, 1, 2]);
}

#[test]
fn body_ids_follow_procedure_positions() {
    let workspace = Workspace {
        modules: vec![
            module("a", vec![trivial_procedure("one", 0, 0), trivial_procedure("two", 0, 10)]),
            module("b", vec![trivial_procedure("three", 1, 0)]),
        ],
    };
    let frontend = DecompilerAnalysisFrontend::new(&workspace);
    let ids: Vec<usize> = frontend.procedures().iter().map(|p| p.body().id().index()).collect();
    assert_eq!(ids, vec![0, 1, 2]);
}

// ---------------------------------------------------------------------------------------------
// Syntax frontend, and agreement of the two frontends
// ---------------------------------------------------------------------------------------------

#[test]
fn syntax_frontend_uses_declared_signature_and_locals_metadata() {
    let module = module(
        "math::word_ops",
        vec![procedure(
            "widen",
            Some(widen_signature()),
            8,
            at(0, 0),
            block(at(0, 1), vec![push_one(at(0, 2))]),
        )],
    );
    let frontend = SyntaxAnalysisFrontend::new(vec![&module]);

    let procedures = frontend.procedures();
    let procedure = procedures.first().expect("procedure");
    let metadata = procedure.metadata();

    assert_eq!(metadata.stack_signature(), Some(StackSignature { inputs: 5, outputs: 5 }));
    assert_eq!(metadata.locals(), 8);
    assert_eq!(metadata.summary_key().as_str(), "math::word_ops::widen");
}

#[test]
fn syntax_frontend_exposes_minimal_invocation_shape_without_precise_resolution() {
    let module = module(
        "app::main",
        vec![exec_caller("caller", 0, 0, symbol("plus", at(0, 3), external("::pkg::math::add")))],
    );
    let frontend = SyntaxAnalysisFrontend::new(vec![&module]);

    let procedures = frontend.procedures();
    let procedure = procedures.first().expect("procedure");
    let invocation = match procedure.body().ops().first() {
        Some(AnalysisOp::Inst(instruction)) => instruction.invocation().expect("invocation"),
        _ => panic!("expected invocation"),
    };

    assert!(matches!(
        invocation.target(),
        AnalysisInvocationTarget::Symbol(target) if target == "plus"
    ));
    assert_eq!(frontend.modules().len(), 1);
    assert_eq!(procedure.procedure().name, "caller");
}

#[test]
fn syntax_and_decompiler_frontends_match_for_shared_metadata_and_body_shape() {
    let helpers = |span| path("helpers::callee", span, external("math::helpers::callee"));
    let entry_body = block(
        at(1, 1),
        vec![
            inst(at(1, 2), Instruction::Locaddr(0)),
            Op::If {
                span: at(1, 3),
                then_blk: block(at(1, 4), vec![inst(at(1, 5), Instruction::Exec(helpers(at(1, 6))))]),
                else_blk: block(
                    at(1, 7),
                    vec![Op::Repeat {
                        span: at(1, 8),
                        count: 2,
                        body: block(at(1, 9), vec![inst(at(1, 10), Instruction::LocStoreWBe(0))]),
                    }],
                ),
            },
            Op::While {
                span: at(1, 11),
                body: block(
                    at(1, 12),
                    vec![
                        inst(at(1, 13), Instruction::Call(helpers(at(1, 14)))),
                        inst(at(1, 15), Instruction::LocLoadWLe(0)),
                    ],
                ),
            },
        ],
    );
    let entry_signature = FunctionSignature {
        args: vec![TypeWidth::Felts(4), TypeWidth::Felts(1)],
        results: vec![TypeWidth::Felts(4)],
    };
    let workspace = Workspace {
        modules: vec![
            module("math::helpers", vec![trivial_procedure("callee", 0, 0)]),
            module(
                "app::main",
                vec![procedure("entry", Some(entry_signature), 8, at(1, 0), entry_body)],
            ),
        ],
    };

    assert_frontends_agree(&workspace);
}

#[test]
fn syntax_and_decompiler_frontends_preserve_unknown_stack_signatures_equally() {
    let workspace = Workspace {
        modules: vec![module(
            "app::main",
            vec![procedure(
                "entry",
                Some(unknown_signature()),
                0,
                at(0, 0),
                block(at(0, 1), vec![push_one(at(0, 2))]),
            )],
        )],
    };

    assert_frontends_agree(&workspace);
}

#[test]
fn frontends_list_procedures_module_by_module_in_definition_order() {
    let workspace = Workspace {
        modules: vec![
            module("a", vec![trivial_procedure("one", 0, 0), trivial_procedure("two", 0, 10)]),
            module("b", Vec::new()),
            module("c", vec![trivial_procedure("three", 2, 0)]),
        ],
    };
    let syntax = SyntaxAnalysisFrontend::new(workspace.modules.iter().collect());
    let keys: Vec<String> = syntax
        .procedures()
        .iter()
        .map(|p| p.metadata().summary_key().as_str().to_string())
        .collect();
    assert_eq!(keys, vec!["a::one", "a::two", "c::three"]);
    assert_frontends_agree(&workspace);
}

#[test]
fn syntax_frontend_extraction_is_deterministic() {
    let workspace = inspect_workspace();
    let syntax = SyntaxAnalysisFrontend::new(workspace.modules.iter().collect());
    let first = syntax.procedures();
    let second = syntax.procedures();
    assert_eq!(first.len(), second.len());
    for (a, b) in first.iter().zip(second.iter()) {
        assert_eq!(a.metadata(), b.metadata());
        assert_eq!(a.body(), b.body());
    }
}
