//! Analysis frontend backed directly by parsed MASM syntax modules.
//!
//! This backend implements only the minimal structural contract: it normalizes bodies, locals
//! and raw invocation targets, but does not classify callees.
use vstd::prelude::*;

use super::body::{body_normalizes, build_body, AnalysisBody, BodyId};
use super::procedure::{build_procedure_metadata, metadata_of};
use super::syntax_tree::{positions_upto, procedure_positions, ModuleSyntax, ProcedureSyntax};
use super::{AnalysisFrontend, AnalysisProcedure, ProcedureMetadata};

verus! {

/// Analysis frontend backed directly by parsed MASM syntax modules.
#[derive(Debug)]
pub struct SyntaxAnalysisFrontend<'a> {
    modules: Vec<&'a ModuleSyntax>,
}

/// Analysis-visible procedure backed directly by a parsed syntax procedure.
#[derive(Debug)]
pub struct SyntaxProcedure<'a> {
    procedure: &'a ProcedureSyntax,
    metadata: ProcedureMetadata,
    body: AnalysisBody,
}

/// `s` is the frontend procedure of `procedure`, defined in module `module`, with body identity
/// `body`. Its invocations are numbered in body order from 0.
pub open spec fn syntax_built(
    module: Seq<char>,
    procedure: ProcedureSyntax,
    body: BodyId,
    s: SyntaxProcedure,
) -> bool {
    &&& s.spec_procedure() == procedure
    &&& metadata_of(module, procedure, s.spec_metadata())
    &&& body_normalizes(procedure.body, s.spec_body(), body, 0)
}

impl<'a> SyntaxAnalysisFrontend<'a> {
    /// The modules visible through this frontend, in order.
    pub closed spec fn spec_modules(self) -> Seq<ModuleSyntax> {
        self.modules@.map_values(|m: &ModuleSyntax| *m)
    }

    /// Create a new syntax-backed frontend over parsed MASM modules.
    pub fn new(modules: Vec<&'a ModuleSyntax>) -> (r: Self)
        ensures
            r.spec_modules() == modules@.map_values(|m: &ModuleSyntax| *m),
    {
        SyntaxAnalysisFrontend { modules }
    }

    /// Return the syntax modules visible through this frontend.
    pub fn modules(&self) -> (r: &[&'a ModuleSyntax])
        ensures
            r@.map_values(|m: &ModuleSyntax| *m) == self.spec_modules(),
    {
        self.modules.as_slice()
    }

    fn build_procedure(module: &str, procedure: &'a ProcedureSyntax, id: BodyId) -> (r:
        SyntaxProcedure<'a>)
        ensures
            syntax_built(module@, *procedure, id, r),
    {
        let (body, _) = build_body(&procedure.body, id, 0);
        let metadata = build_procedure_metadata(module, procedure);
        SyntaxProcedure { procedure, metadata, body }
    }
}

impl<'a> AnalysisFrontend for SyntaxAnalysisFrontend<'a> {
    type Procedure = SyntaxProcedure<'a>;

    fn procedures(&self) -> (r: Vec<SyntaxProcedure<'a>>)
        ensures
            r@.len() == procedure_positions(self.spec_modules()).len(),
            forall|k: int|
                0 <= k < r@.len() ==> {
                    let (m, p) = procedure_positions(self.spec_modules())[k];
                    syntax_built(
                        self.spec_modules()[m].path@,
                        self.spec_modules()[m].procedures@[p],
                        BodyId { index: k as usize },
                        #[trigger] r@[k],
                    )
                },
    {
        let ghost mods = self.spec_modules();
        let mut out: Vec<SyntaxProcedure<'a>> = Vec::new();
        let mut m: usize = 0;
        while m < self.modules.len()
            invariant
                m <= self.modules@.len(),
                mods == self.spec_modules(),
                mods.len() == self.modules@.len(),
                out@.len() == positions_upto(mods, m as int).len(),
                forall|k: int|
                    0 <= k < out@.len() ==> {
                        let (mi, pi) = positions_upto(mods, m as int)[k];
                        syntax_built(
                            mods[mi].path@,
                            mods[mi].procedures@[pi],
                            BodyId { index: k as usize },
                            #[trigger] out@[k],
                        )
                    },
            decreases self.modules@.len() - m,
        {
            let module: &'a ModuleSyntax = self.modules[m];
            let ghost base = out@.len();
            let ghost prev = positions_upto(mods, m as int);
            let mut p: usize = 0;
            while p < module.procedures.len()
                invariant
                    m < mods.len(),
                    *module == mods[m as int],
                    p <= module.procedures@.len(),
                    base == prev.len(),
                    out@.len() == base + p,
                    forall|k: int|
                        0 <= k < base ==> {
                            let (mi, pi) = prev[k];
                            syntax_built(
                                mods[mi].path@,
                                mods[mi].procedures@[pi],
                                BodyId { index: k as usize },
                                #[trigger] out@[k],
                            )
                        },
                    forall|j: int|
                        0 <= j < p ==> syntax_built(
                            module.path@,
                            module.procedures@[j],
                            BodyId { index: (base + j) as usize },
                            #[trigger] out@[base + j],
                        ),
                decreases module.procedures@.len() - p,
            {
                let procedure: &'a ProcedureSyntax = &module.procedures[p];
                let id = BodyId { index: out.len() };
                let built = Self::build_procedure(module.path.as_str(), procedure, id);
                out.push(built);
                p = p + 1;
            }
            proof {
                let next = positions_upto(mods, m + 1);
                assert(next == prev + Seq::new(
                    mods[m as int].procedures@.len(),
                    |q: int| (m as int, q),
                ));
                assert forall|k: int| 0 <= k < out@.len() implies {
                    let (mi, pi) = next[k];
                    syntax_built(
                            mods[mi].path@,
                            mods[mi].procedures@[pi],
                            BodyId { index: k as usize },
                            #[trigger] out@[k],
                        )
                } by {
                    if k >= base {
                        assert(next[k] == (m as int, k - base));
                        assert(out@[k] == out@[base + (k - base)]);
                    } else {
                        assert(next[k] == prev[k]);
                    }
                }
            }
            m = m + 1;
        }
        out
    }
}

impl<'a> SyntaxProcedure<'a> {
    /// The syntax procedure this handle was built from.
    pub closed spec fn spec_procedure(self) -> ProcedureSyntax {
        *self.procedure
    }

    /// Return the underlying parsed MASM procedure.
    pub fn procedure(&self) -> (r: &'a ProcedureSyntax)
        ensures
            *r == self.spec_procedure(),
    {
        self.procedure
    }
}

impl<'a> AnalysisProcedure for SyntaxProcedure<'a> {
    closed spec fn spec_metadata(&self) -> ProcedureMetadata {
        self.metadata
    }

    closed spec fn spec_body(&self) -> AnalysisBody {
        self.body
    }

    fn metadata(&self) -> (m: &ProcedureMetadata) {
        &self.metadata
    }

    fn body(&self) -> (b: &AnalysisBody) {
        &self.body
    }
}

} // verus!
