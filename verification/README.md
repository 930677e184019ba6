# masm_analysis

Verified building blocks for abstract interpretation of Miden assembly (MASM).

- `src/summary.rs`: interprocedural summaries with a precision status.
- `src/frontend/`: the analysis frontends. `syntax_tree` is the parsed module snapshot they
  read; `body` normalizes procedure bodies and resolves invocation targets to callee summary
  keys; `procedure` computes summary keys and declared stack effects; `syntax` and `decompiler`
  are the two frontends, proved to agree on every procedure.
- `src/advice/`: the abstract state and transfer functions of the unconstrained-advice
  analysis. Provenance facts form a join semilattice (`domain`), states join place by place
  (`state`), and each transfer function is specified by its effect on the state's meaning
  (`transfer`).
- `app/`: reads parsed modules of `miden-assembly-syntax` into the syntax snapshot, resolving
  each invocation target against its module's symbol table.

Every function in `src/` is verified with Verus; the laws of the library (lattice laws,
normalization uniqueness, frontend agreement, local store/load round trips) are public proof
functions.
