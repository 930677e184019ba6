//! Frontend interfaces for MASM analysis inputs.
//!
//! - [`AnalysisFrontend`] is the minimal structural contract: procedures, their metadata and
//!   normalized bodies with raw invocation sites.
//! - [`PreciseAnalysisFrontend`] refines it for backends that can classify some invocation
//!   targets as concrete procedures.
//!
//! Frontends read a [`syntax_tree`]: the parsed module snapshot, with each invocation target
//! annotated by the outcome of local symbol resolution.
use vstd::prelude::*;

pub mod body;
pub mod decompiler;
pub mod procedure;
pub mod syntax;
pub mod syntax_tree;

use crate::span::SourceSpan;
use crate::StackSignature;
use body::{
    lemma_normalization_unique, same_body, AnalysisBody, AnalysisInvocation, BodyId, InvocationId,
};
use decompiler::{decompiled, DecompilerProcedure};
use syntax::{syntax_built, SyntaxProcedure};
use syntax_tree::{procedure_positions, ModuleSyntax, ProcedureSyntax};

verus! {

/// Stable key used to identify a procedure summary across analysis passes.
#[derive(Debug, PartialEq, Eq, PartialOrd, Ord, Hash)]
pub struct SummaryKey(String);

impl View for SummaryKey {
    type V = Seq<char>;

    closed spec fn view(&self) -> Seq<char> {
        self.0@
    }
}

impl Clone for SummaryKey {
    fn clone(&self) -> (r: Self)
        ensures
            r == *self,
    {
        SummaryKey(self.0.clone())
    }
}

impl SummaryKey {
    /// Create a summary key from its canonical string form.
    pub fn new(key: &str) -> (r: SummaryKey)
        ensures
            r@ == key@,
    {
        SummaryKey(String::from_str(key))
    }

    /// Create a summary key that takes ownership of its canonical string form.
    pub fn from_string(key: String) -> (r: SummaryKey)
        ensures
            r@ == key@,
    {
        SummaryKey(key)
    }

    /// Consume the key and return its canonical string form.
    pub fn into_string(self) -> (r: String)
        ensures
            r@ == self@,
    {
        self.0
    }

    /// Return the canonical string form of this summary key.
    pub fn as_str(&self) -> (r: &str)
        ensures
            r@ == self@,
    {
        self.0.as_str()
    }

    /// Return whether two keys have the same canonical form.
    pub fn same_key(&self, other: &SummaryKey) -> (r: bool)
        ensures
            r == (self@ == other@),
    {
        self.0 == other.0
    }
}

/// Metadata about one procedure as exposed to analysis frontends.
#[derive(Debug, PartialEq, Eq)]
pub struct ProcedureMetadata {
    summary_key: SummaryKey,
    stack_signature: Option<StackSignature>,
    locals: u16,
    span: SourceSpan,
}

impl Clone for ProcedureMetadata {
    fn clone(&self) -> (r: Self)
        ensures
            r == *self,
    {
        ProcedureMetadata {
            summary_key: self.summary_key.clone(),
            stack_signature: self.stack_signature,
            locals: self.locals,
            span: self.span,
        }
    }
}

impl ProcedureMetadata {
    /// The summary key of the procedure.
    pub closed spec fn key(self) -> SummaryKey {
        self.summary_key
    }

    /// The declared stack signature, if known.
    pub closed spec fn signature(self) -> Option<StackSignature> {
        self.stack_signature
    }

    /// The number of declared locals.
    pub closed spec fn num_locals(self) -> u16 {
        self.locals
    }

    /// The source span of the procedure definition.
    pub closed spec fn definition_span(self) -> SourceSpan {
        self.span
    }

    /// Create procedure metadata for one analysis-visible procedure.
    pub fn new(
        summary_key: SummaryKey,
        stack_signature: Option<StackSignature>,
        locals: u16,
        span: SourceSpan,
    ) -> (m: Self)
        ensures
            m.key() == summary_key,
            m.signature() == stack_signature,
            m.num_locals() == locals,
            m.definition_span() == span,
    {
        ProcedureMetadata { summary_key, stack_signature, locals, span }
    }

    /// Return the declared stack signature of the procedure, if known.
    pub fn stack_signature(&self) -> (r: Option<StackSignature>)
        ensures
            r == self.signature(),
    {
        self.stack_signature
    }

    /// Return the summary key of the procedure.
    pub fn summary_key(&self) -> (r: &SummaryKey)
        ensures
            *r == self.key(),
    {
        &self.summary_key
    }

    /// Return the number of stack inputs declared for the procedure, if known.
    pub fn inputs(&self) -> (r: Option<usize>)
        ensures
            r == (match self.signature() {
                Some(sig) => Some(sig.inputs),
                None => None,
            }),
    {
        match self.stack_signature {
            Some(sig) => Some(sig.inputs),
            None => None,
        }
    }

    /// Return the number of stack outputs declared for the procedure, if known.
    pub fn outputs(&self) -> (r: Option<usize>)
        ensures
            r == (match self.signature() {
                Some(sig) => Some(sig.outputs),
                None => None,
            }),
    {
        match self.stack_signature {
            Some(sig) => Some(sig.outputs),
            None => None,
        }
    }

    /// Return the number of declared locals for the procedure.
    pub fn locals(&self) -> (r: u16)
        ensures
            r == self.num_locals(),
    {
        self.locals
    }

    /// Return the source span covering the procedure definition.
    pub fn span(&self) -> (r: SourceSpan)
        ensures
            r == self.definition_span(),
    {
        self.span
    }
}

/// Analysis-facing view of a MASM procedure.
pub trait AnalysisProcedure {
    /// The metadata this procedure exposes.
    spec fn spec_metadata(&self) -> ProcedureMetadata;

    /// The normalized body this procedure exposes.
    spec fn spec_body(&self) -> AnalysisBody;

    /// Return metadata describing the procedure.
    fn metadata(&self) -> (m: &ProcedureMetadata)
        ensures
            *m == self.spec_metadata(),
    ;

    /// Return the normalized procedure body exposed by this frontend.
    fn body(&self) -> (b: &AnalysisBody)
        ensures
            *b == self.spec_body(),
    ;
}

/// Minimal structural frontend contract shared by all MASM analysis inputs.
///
/// Backends implementing this trait only promise normalized procedure bodies and metadata. They
/// do not promise precise callable classification for invocation targets.
pub trait AnalysisFrontend {
    /// The procedure handle type exposed by this frontend.
    type Procedure: AnalysisProcedure;

    /// Return all procedures currently visible to this frontend.
    fn procedures(&self) -> Vec<Self::Procedure>;
}

/// The callee key of the first entry of `resolutions` recorded for the invocation identified
/// by `key` (its body, identity and target span).
pub open spec fn first_resolution_for(
    resolutions: Seq<((BodyId, InvocationId, SourceSpan), Seq<char>)>,
    key: (BodyId, InvocationId, SourceSpan),
) -> Option<Seq<char>>
    decreases resolutions.len(),
{
    if resolutions.len() == 0 {
        None
    } else if resolutions[0].0 == key {
        Some(resolutions[0].1)
    } else {
        first_resolution_for(resolutions.drop_first(), key)
    }
}

/// Richer procedure contract for backends that can classify invocation targets precisely.
pub trait PreciseAnalysisProcedure: AnalysisProcedure {
    /// Invocations this procedure resolved, by body, identity and target span, with the callee
    /// key of each, in body order.
    spec fn spec_resolutions(&self) -> Seq<((BodyId, InvocationId, SourceSpan), Seq<char>)>;

    /// Return the resolved callee summary key for `invocation`, if this backend can classify it
    /// as a concrete procedure.
    fn resolved_summary_key(&self, invocation: &AnalysisInvocation) -> (r: Option<&SummaryKey>)
        ensures
            match r {
                Some(key) => first_resolution_for(self.spec_resolutions(), invocation.spec_key())
                    == Some(key@),
                None => first_resolution_for(self.spec_resolutions(), invocation.spec_key())
                    is None,
            },
    ;
}

/// Optional frontend capability for backends that resolve invocations more precisely than the
/// minimal structural contract.
pub trait PreciseAnalysisFrontend: AnalysisFrontend {
    /// The precise procedure handle type exposed by this frontend.
    type PreciseProcedure: PreciseAnalysisProcedure;

    /// Return all procedures currently visible to this precise frontend.
    fn precise_procedures(&self) -> Vec<Self::PreciseProcedure>;
}

/// `a` and `b` describe the same procedure: equal summary keys, stack signatures, locals and
/// spans.
pub open spec fn same_metadata(a: ProcedureMetadata, b: ProcedureMetadata) -> bool {
    &&& a.key()@ == b.key()@
    &&& a.signature() == b.signature()
    &&& a.num_locals() == b.num_locals()
    &&& a.definition_span() == b.definition_span()
}

/// The syntax frontend and the workspace frontend agree on a procedure: built from the same
/// procedure of the same module at the same position, they expose the same metadata and the
/// same normalized body, invocation identities included, whatever the workspace frontend knows
/// of other targets.
pub proof fn lemma_frontends_agree(
    module: Seq<char>,
    procedure: ProcedureSyntax,
    procedures: Set<Seq<char>>,
    modules: Set<Seq<char>>,
    body: BodyId,
    s: SyntaxProcedure,
    d: DecompilerProcedure,
)
    requires
        syntax_built(module, procedure, body, s),
        decompiled(module, procedure, procedures, modules, body, d),
    ensures
        same_metadata(s.spec_metadata(), d.spec_metadata()),
        same_body(s.spec_body(), d.spec_body()),
{
    lemma_normalization_unique(procedure.body, s.spec_body(), d.spec_body(), body, 0);
}

/// Syntax extraction is deterministic: two extractions of the same procedure expose the same
/// metadata and the same normalized body.
pub proof fn lemma_syntax_extraction_deterministic(
    module: Seq<char>,
    procedure: ProcedureSyntax,
    body: BodyId,
    s1: SyntaxProcedure,
    s2: SyntaxProcedure,
)
    requires
        syntax_built(module, procedure, body, s1),
        syntax_built(module, procedure, body, s2),
    ensures
        same_metadata(s1.spec_metadata(), s2.spec_metadata()),
        same_body(s1.spec_body(), s2.spec_body()),
{
    lemma_normalization_unique(procedure.body, s1.spec_body(), s2.spec_body(), body, 0);
}

/// Over the same modules, the procedure lists of the syntax frontend and of the workspace
/// frontend match position by position: same length, and at each position the same metadata
/// and the same normalized body.
pub proof fn lemma_frontend_lists_agree(
    modules: Seq<ModuleSyntax>,
    procedures: Set<Seq<char>>,
    known_modules: Set<Seq<char>>,
    syntax: Seq<SyntaxProcedure>,
    workspace: Seq<DecompilerProcedure>,
)
    requires
        syntax.len() == procedure_positions(modules).len(),
        workspace.len() == procedure_positions(modules).len(),
        forall|k: int|
            0 <= k < syntax.len() ==> {
                let (m, p) = procedure_positions(modules)[k];
                syntax_built(
                    modules[m].path@,
                    modules[m].procedures@[p],
                    BodyId { index: k as usize },
                    #[trigger] syntax[k],
                )
            },
        forall|k: int|
            0 <= k < workspace.len() ==> {
                let (m, p) = procedure_positions(modules)[k];
                decompiled(
                    modules[m].path@,
                    modules[m].procedures@[p],
                    procedures,
                    known_modules,
                    BodyId { index: k as usize },
                    #[trigger] workspace[k],
                )
            },
    ensures
        syntax.len() == workspace.len(),
        forall|k: int|
            0 <= k < syntax.len() ==> same_metadata(
                (#[trigger] syntax[k]).spec_metadata(),
                workspace[k].spec_metadata(),
            ) && same_body(syntax[k].spec_body(), workspace[k].spec_body()),
{
    assert forall|k: int| 0 <= k < syntax.len() implies same_metadata(
        (#[trigger] syntax[k]).spec_metadata(),
        workspace[k].spec_metadata(),
    ) && same_body(syntax[k].spec_body(), workspace[k].spec_body()) by {
        let (m, p) = procedure_positions(modules)[k];
        lemma_frontends_agree(
            modules[m].path@,
            modules[m].procedures@[p],
            procedures,
            known_modules,
            BodyId { index: k as usize },
            syntax[k],
            workspace[k],
        );
    }
}

} // verus!
