//! Analysis frontend backed by a loaded module workspace, with precise callee resolution.
use vstd::prelude::*;

use super::body::{
    block_resolutions, block_sites, body_invocations, body_normalizes, build_body,
    collect_precise_invocations, entries, has_text, lemma_block_resolutions_within_sites,
    lemma_invocations_numbered, numbered, AnalysisBody, AnalysisInvocation, BodyId, InvocationId,
    KnownTargets, ResolvedInvocation,
};
use super::procedure::{build_procedure_metadata, metadata_of, name_key, summary_key_for_name};
use super::syntax_tree::{
    positions_upto, procedure_positions, ModuleSyntax, ProcedureSyntax,
    Workspace,
};
use super::{
    first_resolution_for, AnalysisFrontend, AnalysisProcedure, PreciseAnalysisFrontend,
    PreciseAnalysisProcedure, ProcedureMetadata, SummaryKey,
};
use crate::span::SourceSpan;

verus! {

/// Summary keys of all procedures of the workspace.
pub open spec fn workspace_procedure_keys(ws: Workspace) -> Set<Seq<char>> {
    Set::new(
        |k: Seq<char>|
            exists|m: int, p: int|
                0 <= m < ws.modules@.len() && 0 <= p < ws.modules@[m].procedures@.len() && k
                    == name_key(ws.modules@[m].path@, ws.modules@[m].procedures@[p].name@),
    )
}

/// Paths of all modules of the workspace.
pub open spec fn workspace_module_keys(ws: Workspace) -> Set<Seq<char>> {
    Set::new(|k: Seq<char>| exists|m: int| 0 <= m < ws.modules@.len() && k == ws.modules@[m].path@)
}

/// Analysis frontend backed by a loaded module workspace.
pub struct DecompilerAnalysisFrontend<'a> {
    workspace: &'a Workspace,
}

/// Analysis-visible procedure of a workspace frontend.
pub struct DecompilerProcedure<'a> {
    procedure: &'a ProcedureSyntax,
    metadata: ProcedureMetadata,
    body: AnalysisBody,
    resolved_invocations: Vec<ResolvedInvocation>,
}

/// `d` is the frontend procedure of `procedure`, defined in module `module`, with body identity
/// `body`, where `procedures` and `modules` are the keys the frontend knows. Its invocations
/// are numbered in body order from 0.
pub open spec fn decompiled(
    module: Seq<char>,
    procedure: ProcedureSyntax,
    procedures: Set<Seq<char>>,
    modules: Set<Seq<char>>,
    body: BodyId,
    d: DecompilerProcedure,
) -> bool {
    &&& d.spec_procedure() == procedure
    &&& metadata_of(module, procedure, d.spec_metadata())
    &&& body_normalizes(procedure.body, d.spec_body(), body, 0)
    &&& d.spec_resolutions() == block_resolutions(
        module,
        procedure.body,
        procedures,
        modules,
        body,
        0,
    )
}

impl<'a> DecompilerAnalysisFrontend<'a> {
    /// The workspace this frontend reads.
    pub closed spec fn spec_workspace(self) -> Workspace {
        *self.workspace
    }

    /// Create a new analysis frontend view over a workspace.
    pub fn new(workspace: &'a Workspace) -> (r: Self)
        ensures
            r.spec_workspace() == *workspace,
    {
        DecompilerAnalysisFrontend { workspace }
    }

    /// Build a normalized frontend-visible procedure.
    fn build_procedure(
        module: &str,
        procedure: &'a ProcedureSyntax,
        known_targets: &KnownTargets,
        id: BodyId,
    ) -> (r: DecompilerProcedure<'a>)
        ensures
            decompiled(
                module@,
                *procedure,
                known_targets.procedure_keys(),
                known_targets.module_keys(),
                id,
                r,
            ),
    {
        let (body, _) = build_body(&procedure.body, id, 0);
        let metadata = build_procedure_metadata(module, procedure);
        let resolved_invocations = collect_precise_invocations(
            module,
            &procedure.body,
            known_targets,
            id,
        );
        DecompilerProcedure { procedure, metadata, body, resolved_invocations }
    }
}

impl<'a> AnalysisFrontend for DecompilerAnalysisFrontend<'a> {
    type Procedure = DecompilerProcedure<'a>;

    fn procedures(&self) -> (r: Vec<DecompilerProcedure<'a>>)
        ensures
            r@.len() == procedure_positions(self.spec_workspace().modules@).len(),
            forall|k: int|
                0 <= k < r@.len() ==> {
                    let (m, p) = procedure_positions(self.spec_workspace().modules@)[k];
                    let ws = self.spec_workspace();
                    decompiled(
                        ws.modules@[m].path@,
                        ws.modules@[m].procedures@[p],
                        workspace_procedure_keys(ws),
                        workspace_module_keys(ws),
                        BodyId { index: k as usize },
                        #[trigger] r@[k],
                    )
                },
    {
        let ws: &'a Workspace = self.workspace;
        let known_targets = workspace_known_targets(ws);
        let ghost procs = workspace_procedure_keys(*ws);
        let ghost mods = workspace_module_keys(*ws);
        let mut out: Vec<DecompilerProcedure<'a>> = Vec::new();
        let mut m: usize = 0;
        while m < ws.modules.len()
            invariant
                m <= ws.modules@.len(),
                *ws == self.spec_workspace(),
                known_targets.procedure_keys() == procs,
                known_targets.module_keys() == mods,
                procs == workspace_procedure_keys(*ws),
                mods == workspace_module_keys(*ws),
                out@.len() == positions_upto(ws.modules@, m as int).len(),
                forall|k: int|
                    0 <= k < out@.len() ==> {
                        let (mi, pi) = positions_upto(ws.modules@, m as int)[k];
                        decompiled(
                            ws.modules@[mi].path@,
                            ws.modules@[mi].procedures@[pi],
                            procs,
                            mods,
                            BodyId { index: k as usize },
                            #[trigger] out@[k],
                        )
                    },
            decreases ws.modules@.len() - m,
        {
            let module: &'a ModuleSyntax = &ws.modules[m];
            let ghost base = out@.len();
            let ghost prev = positions_upto(ws.modules@, m as int);
            let mut p: usize = 0;
            while p < module.procedures.len()
                invariant
                    m < ws.modules@.len(),
                    *module == ws.modules@[m as int],
                    p <= module.procedures@.len(),
                    known_targets.procedure_keys() == procs,
                    known_targets.module_keys() == mods,
                    base == prev.len(),
                    out@.len() == base + p,
                    forall|k: int|
                        0 <= k < base ==> {
                            let (mi, pi) = prev[k];
                            decompiled(
                                ws.modules@[mi].path@,
                                ws.modules@[mi].procedures@[pi],
                                procs,
                                mods,
                                BodyId { index: k as usize },
                                #[trigger] out@[k],
                            )
                        },
                    forall|j: int|
                        0 <= j < p ==> decompiled(
                            module.path@,
                            module.procedures@[j],
                            procs,
                            mods,
                            BodyId { index: (base + j) as usize },
                            #[trigger] out@[base + j],
                        ),
                decreases module.procedures@.len() - p,
            {
                let procedure: &'a ProcedureSyntax = &module.procedures[p];
                let id = BodyId { index: out.len() };
                let built = Self::build_procedure(module.path.as_str(), procedure, &known_targets, id);
                out.push(built);
                p = p + 1;
            }
            proof {
                let next = positions_upto(ws.modules@, m + 1);
                assert(next == prev + Seq::new(
                    ws.modules@[m as int].procedures@.len(),
                    |q: int| (m as int, q),
                ));
                assert forall|k: int| 0 <= k < out@.len() implies {
                    let (mi, pi) = next[k];
                    decompiled(
                        ws.modules@[mi].path@,
                        ws.modules@[mi].procedures@[pi],
                        procs,
                        mods,
                        BodyId { index: k as usize },
                        #[trigger] out@[k],
                    )
                } by {
                    if k >= base {
                        assert(next[k] == (m as int, k - base));
                        assert(out@[k] == out@[base + (k - base)]);
                    } else {
                        assert(next[k] == prev[k]);
                    }
                }
            }
            m = m + 1;
        }
        out
    }
}

impl<'a> PreciseAnalysisFrontend for DecompilerAnalysisFrontend<'a> {
    type PreciseProcedure = DecompilerProcedure<'a>;

    fn precise_procedures(&self) -> (r: Vec<DecompilerProcedure<'a>>)
        ensures
            r@.len() == procedure_positions(self.spec_workspace().modules@).len(),
            forall|k: int|
                0 <= k < r@.len() ==> {
                    let (m, p) = procedure_positions(self.spec_workspace().modules@)[k];
                    let ws = self.spec_workspace();
                    decompiled(
                        ws.modules@[m].path@,
                        ws.modules@[m].procedures@[p],
                        workspace_procedure_keys(ws),
                        workspace_module_keys(ws),
                        BodyId { index: k as usize },
                        #[trigger] r@[k],
                    )
                },
    {
        self.procedures()
    }
}

impl<'a> DecompilerProcedure<'a> {
    /// The syntax procedure this handle was built from.
    pub closed spec fn spec_procedure(self) -> ProcedureSyntax {
        *self.procedure
    }

    /// Return the underlying syntax procedure.
    pub fn procedure(&self) -> (r: &'a ProcedureSyntax)
        ensures
            *r == self.spec_procedure(),
    {
        self.procedure
    }
}

impl<'a> AnalysisProcedure for DecompilerProcedure<'a> {
    closed spec fn spec_metadata(&self) -> ProcedureMetadata {
        self.metadata
    }

    closed spec fn spec_body(&self) -> AnalysisBody {
        self.body
    }

    fn metadata(&self) -> (m: &ProcedureMetadata) {
        &self.metadata
    }

    fn body(&self) -> (b: &AnalysisBody) {
        &self.body
    }
}

proof fn lemma_first_resolution_skip(
    res: Seq<((BodyId, InvocationId, SourceSpan), Seq<char>)>,
    key: (BodyId, InvocationId, SourceSpan),
    i: int,
)
    requires
        0 <= i < res.len(),
        res[i].0 != key,
    ensures
        first_resolution_for(res.skip(i), key) == first_resolution_for(res.skip(i + 1), key),
{
    assert(res.skip(i).drop_first() =~= res.skip(i + 1));
}

impl<'a> PreciseAnalysisProcedure for DecompilerProcedure<'a> {
    closed spec fn spec_resolutions(&self) -> Seq<((BodyId, InvocationId, SourceSpan), Seq<char>)> {
        entries(self.resolved_invocations@)
    }

    fn resolved_summary_key(&self, invocation: &AnalysisInvocation) -> (r: Option<&SummaryKey>) {
        let key = (invocation.body_id(), invocation.id(), invocation.span());
        let ghost res = entries(self.resolved_invocations@);
        let mut i: usize = 0;
        assert(res.skip(0) =~= res);
        while i < self.resolved_invocations.len()
            invariant
                i <= self.resolved_invocations@.len(),
                res == entries(self.resolved_invocations@),
                key == invocation.spec_key(),
                first_resolution_for(res, key) == first_resolution_for(res.skip(i as int), key),
            decreases self.resolved_invocations@.len() - i,
        {
            let resolved = &self.resolved_invocations[i];
            if resolved.is_for(key) {
                assert(res.skip(i as int)[0] == res[i as int]);
                return Some(resolved.summary_key());
            }
            proof {
                lemma_first_resolution_skip(res, key, i as int);
            }
            i = i + 1;
        }
        assert(res.skip(i as int).len() == 0);
        None
    }
}

proof fn lemma_first_resolution_found(
    res: Seq<((BodyId, InvocationId, SourceSpan), Seq<char>)>,
    key: (BodyId, InvocationId, SourceSpan),
)
    requires
        first_resolution_for(res, key) is Some,
    ensures
        exists|i: int| 0 <= i < res.len() && (#[trigger] res[i]).0 == key,
    decreases res.len(),
{
    if res[0].0 != key {
        let rest = res.drop_first();
        lemma_first_resolution_found(rest, key);
        let i = choose|i: int| 0 <= i < rest.len() && (#[trigger] rest[i]).0 == key;
        assert(res[i + 1] == rest[i]);
    }
}

/// A workspace procedure resolves only invocations of its own body: every invocation it has a
/// callee key for carries the procedure's body identity and the target span of a call-like
/// instruction in the body it was built from. A procedure therefore answers nothing for an
/// invocation of another procedure.
pub proof fn lemma_resolutions_stay_in_body(
    module: Seq<char>,
    procedure: ProcedureSyntax,
    procedures: Set<Seq<char>>,
    modules: Set<Seq<char>>,
    body: BodyId,
    d: DecompilerProcedure,
    key: (BodyId, InvocationId, SourceSpan),
)
    requires
        decompiled(module, procedure, procedures, modules, body, d),
        first_resolution_for(d.spec_resolutions(), key) is Some,
    ensures
        key.0 == body,
        block_sites(procedure.body).contains(key.2),
{
    let res = d.spec_resolutions();
    lemma_first_resolution_found(res, key);
    lemma_block_resolutions_within_sites(module, procedure.body, procedures, modules, body, 0);
    let i = choose|i: int| 0 <= i < res.len() && (#[trigger] res[i]).0 == key;
    assert(res[i].0.0 == body && block_sites(procedure.body).contains(res[i].0.2));
}

/// The workspace frontend numbers the invocations of a procedure body in body order: the `j`-th
/// invocation of the body sits at the `j`-th invocation site of the source procedure and
/// carries the procedure's body identity; while the sites fit the ordinal range, its ordinal is
/// `j`, so the ordinals of one body are pairwise distinct.
pub proof fn lemma_invocation_ids_in_body_order(
    module: Seq<char>,
    procedure: ProcedureSyntax,
    procedures: Set<Seq<char>>,
    modules: Set<Seq<char>>,
    body: BodyId,
    d: DecompilerProcedure,
)
    requires
        decompiled(module, procedure, procedures, modules, body, d),
    ensures
        numbered(body_invocations(d.spec_body()), body, 0, block_sites(procedure.body)),
        block_sites(procedure.body).len() <= usize::MAX ==> forall|j: int|
            0 <= j < body_invocations(d.spec_body()).len() ==> (#[trigger] body_invocations(
                d.spec_body(),
            )[j]).spec_id().ordinal == j,
{
    lemma_invocations_numbered(procedure.body, d.spec_body(), body, 0);
}

/// Summary keys of the first `n` procedures of `module`.
spec fn module_procedure_keys(module: ModuleSyntax, n: int) -> Set<Seq<char>> {
    Set::new(
        |k: Seq<char>|
            exists|p: int| 0 <= p < n && k == name_key(module.path@, module.procedures@[p].name@),
    )
}

/// Summary keys of the procedures of the first `n` modules of `ws`.
spec fn keys_before(ws: Workspace, n: int) -> Set<Seq<char>> {
    Set::new(
        |k: Seq<char>|
            exists|m: int|
                0 <= m < n && m < ws.modules@.len() && #[trigger] module_procedure_keys(
                    ws.modules@[m],
                    ws.modules@[m].procedures@.len() as int,
                ).contains(k),
    )
}

/// Characters held by the strings of `v`.
spec fn texts(v: Seq<String>) -> Set<Seq<char>> {
    Set::new(|k: Seq<char>| has_text(v, k))
}

proof fn lemma_texts_push(v: Seq<String>, s: String)
    ensures
        texts(v.push(s)) == texts(v).insert(s@),
{
    assert forall|k: Seq<char>| texts(v.push(s)).contains(k) <==> texts(v).insert(s@).contains(k) by {
        if has_text(v.push(s), k) {
            let i = choose|i: int| 0 <= i < v.push(s).len() && v.push(s)[i]@ == k;
            if i < v.len() {
                assert(v[i] == v.push(s)[i]);
            }
        }
        if has_text(v, k) {
            let i = choose|i: int| 0 <= i < v.len() && v[i]@ == k;
            assert(v.push(s)[i] == v[i]);
        }
        if k == s@ {
            assert(v.push(s)[v.len() as int] == s);
        }
    }
    assert(texts(v.push(s)) =~= texts(v).insert(s@));
}

proof fn lemma_module_keys_step(module: ModuleSyntax, p: int)
    requires
        0 <= p < module.procedures@.len(),
    ensures
        module_procedure_keys(module, p + 1) == module_procedure_keys(module, p).insert(
            name_key(module.path@, module.procedures@[p].name@),
        ),
{
    let new_key = name_key(module.path@, module.procedures@[p].name@);
    assert forall|k: Seq<char>|
        module_procedure_keys(module, p + 1).contains(k) <==> module_procedure_keys(
            module,
            p,
        ).insert(new_key).contains(k) by {
        if module_procedure_keys(module, p + 1).contains(k) {
            let q = choose|q: int|
                0 <= q < p + 1 && k == name_key(module.path@, module.procedures@[q].name@);
            if q < p {
                assert(module_procedure_keys(module, p).contains(k));
            }
        }
        if module_procedure_keys(module, p).contains(k) {
            let q = choose|q: int|
                0 <= q < p && k == name_key(module.path@, module.procedures@[q].name@);
            assert(0 <= q < p + 1);
        }
        if k == new_key {
            assert(0 <= p < p + 1);
        }
    }
    assert(module_procedure_keys(module, p + 1) =~= module_procedure_keys(module, p).insert(new_key));
}

proof fn lemma_keys_before_step(ws: Workspace, m: int)
    requires
        0 <= m < ws.modules@.len(),
    ensures
        keys_before(ws, m + 1) == keys_before(ws, m).union(
            module_procedure_keys(ws.modules@[m], ws.modules@[m].procedures@.len() as int),
        ),
{
    assert(keys_before(ws, m + 1) =~= keys_before(ws, m).union(
        module_procedure_keys(ws.modules@[m], ws.modules@[m].procedures@.len() as int),
    ));
}

proof fn lemma_keys_before_all(ws: Workspace)
    ensures
        keys_before(ws, ws.modules@.len() as int) == workspace_procedure_keys(ws),
{
    let n = ws.modules@.len() as int;
    assert forall|k: Seq<char>|
        keys_before(ws, n).contains(k) <==> workspace_procedure_keys(ws).contains(k) by {
        if keys_before(ws, n).contains(k) {
            let m = choose|m: int|
                0 <= m < n && m < ws.modules@.len() && #[trigger] module_procedure_keys(
                    ws.modules@[m],
                    ws.modules@[m].procedures@.len() as int,
                ).contains(k);
            let p = choose|p: int|
                0 <= p < ws.modules@[m].procedures@.len() && k == name_key(
                    ws.modules@[m].path@,
                    ws.modules@[m].procedures@[p].name@,
                );
            assert(0 <= m < ws.modules@.len() && 0 <= p < ws.modules@[m].procedures@.len());
        }
        if workspace_procedure_keys(ws).contains(k) {
            let (m, p) = choose|m: int, p: int|
                0 <= m < ws.modules@.len() && 0 <= p < ws.modules@[m].procedures@.len() && k
                    == name_key(ws.modules@[m].path@, ws.modules@[m].procedures@[p].name@);
            assert(module_procedure_keys(
                ws.modules@[m],
                ws.modules@[m].procedures@.len() as int,
            ).contains(k));
        }
    }
    assert(keys_before(ws, n) =~= workspace_procedure_keys(ws));
}

/// Collect the summary keys of all workspace procedures and the paths of all workspace modules.
fn workspace_known_targets(workspace: &Workspace) -> (r: KnownTargets)
    ensures
        r.procedure_keys() == workspace_procedure_keys(*workspace),
        r.module_keys() == workspace_module_keys(*workspace),
{
    let ghost ws = *workspace;
    let mut procedures: Vec<String> = Vec::new();
    let mut modules: Vec<String> = Vec::new();
    let mut m: usize = 0;
    assert(texts(procedures@) =~= keys_before(ws, 0));
    while m < workspace.modules.len()
        invariant
            ws == *workspace,
            m <= ws.modules@.len(),
            modules@.len() == m,
            forall|j: int| 0 <= j < m ==> (#[trigger] modules@[j])@ == ws.modules@[j].path@,
            texts(procedures@) == keys_before(ws, m as int),
        decreases ws.modules@.len() - m,
    {
        let module = &workspace.modules[m];
        let mut p: usize = 0;
        assert(module_procedure_keys(*module, 0) =~= Set::empty());
        assert(keys_before(ws, m as int).union(Set::empty()) =~= keys_before(ws, m as int));
        while p < module.procedures.len()
            invariant
                ws == *workspace,
                m < ws.modules@.len(),
                *module == ws.modules@[m as int],
                p <= module.procedures@.len(),
                texts(procedures@) == keys_before(ws, m as int).union(
                    module_procedure_keys(*module, p as int),
                ),
            decreases module.procedures@.len() - p,
        {
            let key = summary_key_for_name(module.path.as_str(), module.procedures[p].name.as_str());
            let ghost prev = procedures@;
            let text = key.into_string();
            procedures.push(text);
            proof {
                lemma_texts_push(prev, text);
                lemma_module_keys_step(*module, p as int);
                assert(texts(procedures@) =~= keys_before(ws, m as int).union(
                    module_procedure_keys(*module, p + 1),
                ));
            }
            p = p + 1;
        }
        proof {
            lemma_keys_before_step(ws, m as int);
        }
        modules.push(String::from_str(module.path.as_str()));
        m = m + 1;
    }
    let r = KnownTargets::new(procedures, modules);
    proof {
        lemma_keys_before_all(ws);
        assert(r.procedure_keys() =~= texts(procedures@));
        assert forall|k: Seq<char>| has_text(modules@, k) <==> workspace_module_keys(ws).contains(k) by {
            if has_text(modules@, k) {
                let i = choose|i: int| 0 <= i < modules@.len() && modules@[i]@ == k;
                assert(modules@[i]@ == ws.modules@[i].path@);
            }
            if workspace_module_keys(ws).contains(k) {
                let i = choose|i: int| 0 <= i < ws.modules@.len() && k == ws.modules@[i].path@;
                assert(modules@[i]@ == ws.modules@[i].path@);
            }
        }
        assert(r.module_keys() =~= workspace_module_keys(ws));
    }
    r
}

} // verus!
