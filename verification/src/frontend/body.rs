//! Normalized MASM procedure bodies exposed to analysis frontends, and the precise
//! classification of invocation targets as concrete procedures.
use vstd::prelude::*;

use super::procedure::{name_key, summary_key_for_name};
use super::syntax_tree::{
    Block, Instruction, LocalItem, LocalItemKind, Op, ResolutionOutcome, SymbolResolution, TargetSyntax,
};
use super::SummaryKey;
use crate::span::SourceSpan;
use crate::text::{str_equal, trim_leading_separators, trim_separators};

verus! {

/// Some element of `v` holds the characters `s`.
pub open spec fn has_text(v: Seq<String>, s: Seq<char>) -> bool {
    exists|i: int| 0 <= i < v.len() && v[i]@ == s
}

/// Return whether some element of `v` holds the characters of `s`.
fn contains_text(v: &Vec<String>, s: &str) -> (r: bool)
    ensures
        r == has_text(v@, s@),
{
    let mut i: usize = 0;
    while i < v.len()
        invariant
            i <= v@.len(),
            forall|k: int| 0 <= k < i ==> v@[k]@ != s@,
        decreases v@.len() - i,
    {
        if str_equal(v[i].as_str(), s) {
            return true;
        }
        i = i + 1;
    }
    false
}

/// Known module and procedure targets visible to the frontend.
pub struct KnownTargets {
    procedures: Vec<String>,
    modules: Vec<String>,
}

impl KnownTargets {
    /// Summary keys of the procedures known to the frontend.
    pub closed spec fn procedure_keys(self) -> Set<Seq<char>> {
        Set::new(|s: Seq<char>| has_text(self.procedures@, s))
    }

    /// Paths of the modules known to the frontend.
    pub closed spec fn module_keys(self) -> Set<Seq<char>> {
        Set::new(|s: Seq<char>| has_text(self.modules@, s))
    }

    /// Build the known targets from procedure summary keys and module paths.
    pub fn new(procedures: Vec<String>, modules: Vec<String>) -> (r: Self)
        ensures
            r.procedure_keys() == Set::new(|s: Seq<char>| has_text(procedures@, s)),
            r.module_keys() == Set::new(|s: Seq<char>| has_text(modules@, s)),
    {
        KnownTargets { procedures, modules }
    }

    /// Return whether `key` is the summary key of a known procedure.
    pub fn contains_procedure(&self, key: &str) -> (r: bool)
        ensures
            r == self.procedure_keys().contains(key@),
    {
        contains_text(&self.procedures, key)
    }

    /// Return whether `module` is the path of a known module.
    pub fn contains_module(&self, module: &str) -> (r: bool)
        ensures
            r == self.module_keys().contains(module@),
    {
        contains_text(&self.modules, module)
    }
}

/// A copy of `v` whose strings hold the same characters, element by element.
fn copy_texts(v: &Vec<String>) -> (r: Vec<String>)
    ensures
        r@.len() == v@.len(),
        forall|i: int| 0 <= i < v@.len() ==> (#[trigger] r@[i])@ == v@[i]@,
{
    let mut out: Vec<String> = Vec::new();
    let mut i: usize = 0;
    while i < v.len()
        invariant
            i <= v@.len(),
            out@.len() == i,
            forall|j: int| 0 <= j < i ==> (#[trigger] out@[j])@ == v@[j]@,
        decreases v@.len() - i,
    {
        out.push(String::from_str(v[i].as_str()));
        i = i + 1;
    }
    out
}

impl Clone for KnownTargets {
    fn clone(&self) -> (r: Self)
        ensures
            r.procedure_keys() == self.procedure_keys(),
            r.module_keys() == self.module_keys(),
    {
        let r = KnownTargets {
            procedures: copy_texts(&self.procedures),
            modules: copy_texts(&self.modules),
        };
        assert forall|k: Seq<char>| has_text(r.procedures@, k) == has_text(self.procedures@, k) by {
            if has_text(self.procedures@, k) {
                let i = choose|i: int| 0 <= i < self.procedures@.len() && self.procedures@[i]@ == k;
                assert(r.procedures@[i]@ == k);
            }
            if has_text(r.procedures@, k) {
                let i = choose|i: int| 0 <= i < r.procedures@.len() && r.procedures@[i]@ == k;
                assert(self.procedures@[i]@ == k);
            }
        }
        assert forall|k: Seq<char>| has_text(r.modules@, k) == has_text(self.modules@, k) by {
            if has_text(self.modules@, k) {
                let i = choose|i: int| 0 <= i < self.modules@.len() && self.modules@[i]@ == k;
                assert(r.modules@[i]@ == k);
            }
            if has_text(r.modules@, k) {
                let i = choose|i: int| 0 <= i < r.modules@.len() && r.modules@[i]@ == k;
                assert(self.modules@[i]@ == k);
            }
        }
        assert(r.procedure_keys() =~= self.procedure_keys());
        assert(r.module_keys() =~= self.module_keys());
        r
    }
}

/// Whether known targets hold a procedure key depends on the procedure keys they were built
/// from alone, whatever module paths they hold: a key is known exactly when one of those
/// strings holds its characters.
pub proof fn lemma_known_procedure_membership(
    t: KnownTargets,
    procedures: Seq<String>,
    modules: Seq<String>,
    key: Seq<char>,
)
    requires
        t.procedure_keys() == Set::new(|s: Seq<char>| has_text(procedures, s)),
        t.module_keys() == Set::new(|s: Seq<char>| has_text(modules, s)),
    ensures
        t.procedure_keys().contains(key) <==> exists|i: int|
            0 <= i < procedures.len() && (#[trigger] procedures[i])@ == key,
{
}

/// A normalized MASM block for frontend consumers.
#[derive(Debug, PartialEq, Eq)]
pub struct AnalysisBody {
    span: SourceSpan,
    ops: Vec<AnalysisOp>,
    id: BodyId,
}

/// Identity of a procedure body within the procedure list of a frontend: its position there.
#[derive(Debug, Clone, Copy, PartialEq, Eq, Hash, Structural)]
pub struct BodyId {
    /// Position of the procedure in its frontend's procedure list.
    pub index: usize,
}

/// Identity of an invocation within its procedure body: the number of invocation sites that
/// precede it in body order.
#[derive(Debug, Clone, Copy, PartialEq, Eq, Hash, Structural)]
pub struct InvocationId {
    /// Number of invocation sites before this one, in body order.
    pub ordinal: usize,
}

impl BodyId {
    /// Return the position of the procedure in its frontend's procedure list.
    pub fn index(&self) -> (r: usize)
        ensures
            r == self.index,
    {
        self.index
    }
}

impl InvocationId {
    /// Return the number of invocation sites before this one, in body order.
    pub fn ordinal(&self) -> (r: usize)
        ensures
            r == self.ordinal,
    {
        self.ordinal
    }
}

/// A normalized MASM operation exposed by an analysis frontend.
#[derive(Debug, PartialEq, Eq)]
pub enum AnalysisOp {
    /// A conditional branch with normalized `then` and `else` blocks.
    If { span: SourceSpan, then_body: AnalysisBody, else_body: AnalysisBody },
    /// A condition-controlled loop.
    While { span: SourceSpan, body: AnalysisBody },
    /// A counter-controlled loop.
    Repeat { span: SourceSpan, count: u32, body: AnalysisBody },
    /// A primitive instruction together with analysis-relevant classification.
    Inst(AnalysisInstruction),
}

/// A normalized primitive instruction exposed by an analysis frontend.
#[derive(Debug, PartialEq, Eq)]
pub struct AnalysisInstruction {
    span: SourceSpan,
    instruction: Instruction,
    invocation: Option<AnalysisInvocation>,
    local_access: Option<AnalysisLocalAccess>,
}

/// A normalized call-like instruction target.
#[derive(Debug, PartialEq, Eq)]
pub struct AnalysisInvocation {
    kind: AnalysisInvocationKind,
    target: AnalysisInvocationTarget,
    span: SourceSpan,
    id: InvocationId,
    body_id: BodyId,
}

/// A precisely resolved invocation: the body, identity and target span of the invocation, and
/// its callee key.
#[derive(Debug, PartialEq, Eq)]
pub(crate) struct ResolvedInvocation {
    body_id: BodyId,
    id: InvocationId,
    span: SourceSpan,
    summary_key: SummaryKey,
}

/// Kind of a call-like MASM instruction.
#[derive(Debug, Clone, Copy, PartialEq, Eq, Structural)]
pub enum AnalysisInvocationKind {
    /// An `exec` instruction.
    Exec,
    /// A `call` instruction.
    Call,
    /// A `syscall` instruction.
    SysCall,
    /// A `procref` instruction.
    ProcRef,
}

/// Syntax-level kind of invocation target.
#[derive(Debug, PartialEq, Eq)]
pub enum AnalysisInvocationTarget {
    /// A target written as a MAST root digest.
    MastRoot(String),
    /// A target written as a local symbol name.
    Symbol(String),
    /// A target written as a path.
    Path(String),
}

/// A normalized local access in MASM.
#[derive(Debug, Clone, Copy, PartialEq, Eq, Structural)]
pub enum AnalysisLocalAccess {
    /// Address-of access to a local slot.
    Address { index: u16, span: SourceSpan },
    /// Load from a local slot or word.
    Load { index: u16, lane: AnalysisLocalLane, span: SourceSpan },
    /// Store into a local slot or word.
    Store { index: u16, lane: AnalysisLocalLane, span: SourceSpan },
}

/// Layout used for local-slot accesses.
#[derive(Debug, Clone, Copy, PartialEq, Eq, Structural)]
pub enum AnalysisLocalLane {
    /// A single felt local.
    Element,
    /// A word-local using big-endian layout.
    WordBigEndian,
    /// A word-local using little-endian layout.
    WordLittleEndian,
}

impl Clone for AnalysisInvocationTarget {
    fn clone(&self) -> (r: Self)
        ensures
            r == *self,
    {
        match self {
            AnalysisInvocationTarget::MastRoot(s) => AnalysisInvocationTarget::MastRoot(s.clone()),
            AnalysisInvocationTarget::Symbol(s) => AnalysisInvocationTarget::Symbol(s.clone()),
            AnalysisInvocationTarget::Path(s) => AnalysisInvocationTarget::Path(s.clone()),
        }
    }
}

impl Clone for AnalysisInvocation {
    fn clone(&self) -> (r: Self)
        ensures
            r == *self,
    {
        AnalysisInvocation {
            kind: self.kind,
            target: self.target.clone(),
            span: self.span,
            id: self.id,
            body_id: self.body_id,
        }
    }
}

impl AnalysisBody {
    /// Source span of the body.
    pub closed spec fn spec_span(self) -> SourceSpan {
        self.span
    }

    /// Root operations of the body.
    pub closed spec fn spec_ops(self) -> Seq<AnalysisOp> {
        self.ops@
    }

    /// Identity of the procedure body this block belongs to.
    pub closed spec fn spec_id(self) -> BodyId {
        self.id
    }

    /// Create a normalized body from its source span, root operations and body identity.
    pub fn new(span: SourceSpan, ops: Vec<AnalysisOp>, id: BodyId) -> (r: Self)
        ensures
            r.spec_span() == span,
            r.spec_ops() == ops@,
            r.spec_id() == id,
    {
        AnalysisBody { span, ops, id }
    }

    /// Return the identity of the procedure body this block belongs to.
    pub fn id(&self) -> (r: BodyId)
        ensures
            r == self.spec_id(),
    {
        self.id
    }

    /// Return the source span of this body.
    pub fn span(&self) -> (r: SourceSpan)
        ensures
            r == self.spec_span(),
    {
        self.span
    }

    /// Return the root operations in this body.
    pub fn ops(&self) -> (r: &[AnalysisOp])
        ensures
            r@ == self.spec_ops(),
    {
        self.ops.as_slice()
    }

    /// Return the number of root operations in this body.
    pub fn len(&self) -> (r: usize)
        ensures
            r == self.spec_ops().len(),
    {
        self.ops.len()
    }

    /// Return true if this body is empty.
    pub fn is_empty(&self) -> (r: bool)
        ensures
            r == (self.spec_ops().len() == 0),
    {
        self.ops.len() == 0
    }
}

/// Source span of a normalized operation.
pub open spec fn op_span(op: AnalysisOp) -> SourceSpan {
    match op {
        AnalysisOp::If { span, .. } => span,
        AnalysisOp::While { span, .. } => span,
        AnalysisOp::Repeat { span, .. } => span,
        AnalysisOp::Inst(instruction) => instruction.spec_span(),
    }
}

impl AnalysisOp {
    /// Return the source span of this operation.
    pub fn span(&self) -> (r: SourceSpan)
        ensures
            r == op_span(*self),
    {
        match self {
            AnalysisOp::If { span, .. } => *span,
            AnalysisOp::While { span, .. } => *span,
            AnalysisOp::Repeat { span, .. } => *span,
            AnalysisOp::Inst(instruction) => instruction.span(),
        }
    }
}

impl AnalysisInstruction {
    /// Source span of the instruction.
    pub closed spec fn spec_span(self) -> SourceSpan {
        self.span
    }

    /// The underlying instruction.
    pub closed spec fn spec_instruction(self) -> Instruction {
        self.instruction
    }

    /// Invocation metadata, if the instruction is call-like.
    pub closed spec fn spec_invocation(self) -> Option<AnalysisInvocation> {
        self.invocation
    }

    /// Local-access metadata, if the instruction touches locals.
    pub closed spec fn spec_local_access(self) -> Option<AnalysisLocalAccess> {
        self.local_access
    }

    /// Create a normalized instruction with optional invocation and local-access metadata.
    pub fn new(
        span: SourceSpan,
        instruction: Instruction,
        invocation: Option<AnalysisInvocation>,
        local_access: Option<AnalysisLocalAccess>,
    ) -> (r: Self)
        ensures
            r.spec_span() == span,
            r.spec_instruction() == instruction,
            r.spec_invocation() == invocation,
            r.spec_local_access() == local_access,
    {
        AnalysisInstruction { span, instruction, invocation, local_access }
    }

    /// Return the source span of this instruction.
    pub fn span(&self) -> (r: SourceSpan)
        ensures
            r == self.spec_span(),
    {
        self.span
    }

    /// Return the underlying MASM instruction.
    pub fn instruction(&self) -> (r: &Instruction)
        ensures
            *r == self.spec_instruction(),
    {
        &self.instruction
    }

    /// Return normalized invocation metadata if this is a call-like instruction.
    pub fn invocation(&self) -> (r: Option<&AnalysisInvocation>)
        ensures
            match r {
                Some(inv) => self.spec_invocation() == Some(*inv),
                None => self.spec_invocation() is None,
            },
    {
        match &self.invocation {
            Some(inv) => Some(inv),
            None => None,
        }
    }

    /// Return normalized local-access metadata if this instruction touches locals.
    pub fn local_access(&self) -> (r: Option<&AnalysisLocalAccess>)
        ensures
            match r {
                Some(access) => self.spec_local_access() == Some(*access),
                None => self.spec_local_access() is None,
            },
    {
        match &self.local_access {
            Some(access) => Some(access),
            None => None,
        }
    }
}

impl AnalysisInvocation {
    /// The invocation kind.
    pub closed spec fn spec_kind(self) -> AnalysisInvocationKind {
        self.kind
    }

    /// The invocation target.
    pub closed spec fn spec_target(self) -> AnalysisInvocationTarget {
        self.target
    }

    /// Source span of the invocation target.
    pub closed spec fn spec_span(self) -> SourceSpan {
        self.span
    }

    /// Identity of the invocation within its body.
    pub closed spec fn spec_id(self) -> InvocationId {
        self.id
    }

    /// Identity of the procedure body holding the invocation.
    pub closed spec fn spec_body_id(self) -> BodyId {
        self.body_id
    }

    /// The body, identity and target span that together identify the invocation.
    pub open spec fn spec_key(self) -> (BodyId, InvocationId, SourceSpan) {
        (self.spec_body_id(), self.spec_id(), self.spec_span())
    }

    /// Create normalized invocation metadata.
    pub fn new(
        kind: AnalysisInvocationKind,
        target: AnalysisInvocationTarget,
        span: SourceSpan,
        id: InvocationId,
        body_id: BodyId,
    ) -> (r: Self)
        ensures
            r.spec_kind() == kind,
            r.spec_target() == target,
            r.spec_span() == span,
            r.spec_id() == id,
            r.spec_body_id() == body_id,
    {
        AnalysisInvocation { kind, target, span, id, body_id }
    }

    /// Return the identity of the invocation within its body.
    pub fn id(&self) -> (r: InvocationId)
        ensures
            r == self.spec_id(),
    {
        self.id
    }

    /// Return the identity of the procedure body holding the invocation.
    pub fn body_id(&self) -> (r: BodyId)
        ensures
            r == self.spec_body_id(),
    {
        self.body_id
    }

    /// Return the invocation kind.
    pub fn kind(&self) -> (r: AnalysisInvocationKind)
        ensures
            r == self.spec_kind(),
    {
        self.kind
    }

    /// Return the normalized target text and classification.
    pub fn target(&self) -> (r: &AnalysisInvocationTarget)
        ensures
            *r == self.spec_target(),
    {
        &self.target
    }

    /// Return the source span of the invocation target.
    pub fn span(&self) -> (r: SourceSpan)
        ensures
            r == self.spec_span(),
    {
        self.span
    }
}

impl ResolvedInvocation {
    /// The identifying body, invocation identity and span, with the characters of the callee
    /// key.
    pub(crate) closed spec fn entry(self) -> ((BodyId, InvocationId, SourceSpan), Seq<char>) {
        ((self.body_id, self.id, self.span), self.summary_key@)
    }

    /// Create a precise resolved invocation entry.
    pub(crate) fn new(
        body_id: BodyId,
        id: InvocationId,
        span: SourceSpan,
        summary_key: SummaryKey,
    ) -> (r: Self)
        ensures
            r.entry() == ((body_id, id, span), summary_key@),
    {
        ResolvedInvocation { body_id, id, span, summary_key }
    }

    /// Return whether this resolution is for the invocation identified by `key`.
    pub(crate) fn is_for(&self, key: (BodyId, InvocationId, SourceSpan)) -> (r: bool)
        ensures
            r == (self.entry().0 == key),
    {
        self.body_id.index == key.0.index && self.id.ordinal == key.1.ordinal
            && self.span.source_id == key.2.source_id && self.span.start == key.2.start
            && self.span.end == key.2.end
    }

    /// Return the resolved callee summary key.
    pub(crate) fn summary_key(&self) -> (r: &SummaryKey)
        ensures
            r@ == self.entry().1,
    {
        &self.summary_key
    }
}

/// The entries of a list of resolved invocations.
pub(crate) open spec fn entries(v: Seq<ResolvedInvocation>) -> Seq<
    ((BodyId, InvocationId, SourceSpan), Seq<char>),
> {
    v.map_values(|r: ResolvedInvocation| r.entry())
}

impl AnalysisLocalAccess {
    /// Return the local index touched by this access.
    pub fn index(&self) -> (r: u16)
        ensures
            r == (match *self {
                AnalysisLocalAccess::Address { index, .. } => index,
                AnalysisLocalAccess::Load { index, .. } => index,
                AnalysisLocalAccess::Store { index, .. } => index,
            }),
    {
        match self {
            AnalysisLocalAccess::Address { index, .. } => *index,
            AnalysisLocalAccess::Load { index, .. } => *index,
            AnalysisLocalAccess::Store { index, .. } => *index,
        }
    }

    /// Return the source span of this local access.
    pub fn span(&self) -> (r: SourceSpan)
        ensures
            r == (match *self {
                AnalysisLocalAccess::Address { span, .. } => span,
                AnalysisLocalAccess::Load { span, .. } => span,
                AnalysisLocalAccess::Store { span, .. } => span,
            }),
    {
        match self {
            AnalysisLocalAccess::Address { span, .. } => *span,
            AnalysisLocalAccess::Load { span, .. } => *span,
            AnalysisLocalAccess::Store { span, .. } => *span,
        }
    }

    /// Return the local lane layout when this access loads or stores data.
    pub fn lane(&self) -> (r: Option<AnalysisLocalLane>)
        ensures
            r == (match *self {
                AnalysisLocalAccess::Address { .. } => None,
                AnalysisLocalAccess::Load { lane, .. } => Some(lane),
                AnalysisLocalAccess::Store { lane, .. } => Some(lane),
            }),
    {
        match self {
            AnalysisLocalAccess::Address { .. } => None,
            AnalysisLocalAccess::Load { lane, .. } => Some(*lane),
            AnalysisLocalAccess::Store { lane, .. } => Some(*lane),
        }
    }
}

// ---------------------------------------------------------------------------------------------
// Normalization of syntax into analysis bodies
// ---------------------------------------------------------------------------------------------

/// The invocation kind and target of a call-like instruction.
pub open spec fn invocation_site(ins: Instruction) -> Option<(AnalysisInvocationKind, TargetSyntax)> {
    match ins {
        Instruction::Exec(t) => Some((AnalysisInvocationKind::Exec, t)),
        Instruction::Call(t) => Some((AnalysisInvocationKind::Call, t)),
        Instruction::SysCall(t) => Some((AnalysisInvocationKind::SysCall, t)),
        Instruction::ProcRef(t) => Some((AnalysisInvocationKind::ProcRef, t)),
        _ => None,
    }
}

/// `base + n`, or `usize::MAX` when that does not fit: the ordinal of the invocation site that
/// `n` sites follow after ordinal `base`.
pub open spec fn advance(base: usize, n: int) -> usize {
    if base + n <= usize::MAX {
        (base + n) as usize
    } else {
        usize::MAX
    }
}

/// `inv` is the invocation metadata of `ins`, as invocation number `ordinal` of body `body`.
pub open spec fn invocation_describes(
    inv: Option<AnalysisInvocation>,
    ins: Instruction,
    body: BodyId,
    ordinal: usize,
) -> bool {
    match invocation_site(ins) {
        Some((kind, t)) => match inv {
            Some(v) => v.spec_kind() == kind && v.spec_target() == t.target && v.spec_span()
                == t.span && v.spec_id() == (InvocationId { ordinal }) && v.spec_body_id() == body,
            None => false,
        },
        None => inv is None,
    }
}

/// The local access performed by `ins`, located at `span`.
pub open spec fn local_access_of(span: SourceSpan, ins: Instruction) -> Option<AnalysisLocalAccess> {
    match ins {
        Instruction::Locaddr(index) => Some(AnalysisLocalAccess::Address { index, span }),
        Instruction::LocLoad(index) => Some(
            AnalysisLocalAccess::Load { index, lane: AnalysisLocalLane::Element, span },
        ),
        Instruction::LocLoadWBe(index) => Some(
            AnalysisLocalAccess::Load { index, lane: AnalysisLocalLane::WordBigEndian, span },
        ),
        Instruction::LocLoadWLe(index) => Some(
            AnalysisLocalAccess::Load { index, lane: AnalysisLocalLane::WordLittleEndian, span },
        ),
        Instruction::LocStore(index) => Some(
            AnalysisLocalAccess::Store { index, lane: AnalysisLocalLane::Element, span },
        ),
        Instruction::LocStoreWBe(index) => Some(
            AnalysisLocalAccess::Store { index, lane: AnalysisLocalLane::WordBigEndian, span },
        ),
        Instruction::LocStoreWLe(index) => Some(
            AnalysisLocalAccess::Store { index, lane: AnalysisLocalLane::WordLittleEndian, span },
        ),
        _ => None,
    }
}

/// `a` is the normalized form of instruction `ins` located at `span`, in body `body`, where
/// `base` is the ordinal its invocation, if any, receives.
pub open spec fn instruction_normalizes(
    span: SourceSpan,
    ins: Instruction,
    a: AnalysisInstruction,
    body: BodyId,
    base: usize,
) -> bool {
    &&& a.spec_span() == span
    &&& a.spec_instruction() == ins
    &&& invocation_describes(a.spec_invocation(), ins, body, base)
    &&& a.spec_local_access() == local_access_of(span, ins)
}

/// `dst` is the normalized form of operation `src` in body `body`, whose first invocation site
/// receives ordinal `base` and the others the following ordinals in body order.
pub open spec fn op_normalizes(src: Op, dst: AnalysisOp, body: BodyId, base: usize) -> bool
    decreases src, 0int,
{
    match src {
        Op::If { span, then_blk, else_blk } => match dst {
            AnalysisOp::If { span: s, then_body, else_body } => s == span && body_normalizes(
                then_blk,
                then_body,
                body,
                base,
            ) && body_normalizes(
                else_blk,
                else_body,
                body,
                advance(base, block_sites(then_blk).len() as int),
            ),
            _ => false,
        },
        Op::While { span, body: blk } => match dst {
            AnalysisOp::While { span: s, body: b } => s == span && body_normalizes(
                blk,
                b,
                body,
                base,
            ),
            _ => false,
        },
        Op::Repeat { span, count, body: blk } => match dst {
            AnalysisOp::Repeat { span: s, count: c, body: b } => s == span && c == count
                && body_normalizes(blk, b, body, base),
            _ => false,
        },
        Op::Inst { span, instruction } => match dst {
            AnalysisOp::Inst(a) => instruction_normalizes(span, instruction, a, body, base),
            _ => false,
        },
    }
}

/// The first `n` operations of `dst` are the normalized forms of the first `n` operations of
/// `src`, the invocation sites numbered in body order from `base`.
pub open spec fn ops_normalize(
    src: Block,
    dst: Seq<AnalysisOp>,
    n: int,
    body: BodyId,
    base: usize,
) -> bool
    decreases src, n,
{
    if n <= 0 || n > src.ops@.len() {
        n == 0
    } else {
        ops_normalize(src, dst, n - 1, body, base) && op_normalizes(
            src.ops@[n - 1],
            dst[n - 1],
            body,
            advance(base, ops_sites(src, n - 1).len() as int),
        )
    }
}

/// `dst` is the normalized form of block `src` in body `body`: same span, the body's identity,
/// and each operation normalized in order, the invocation sites numbered in body order from
/// `base`.
pub open spec fn body_normalizes(src: Block, dst: AnalysisBody, body: BodyId, base: usize) -> bool
    decreases src, src.ops@.len() + 1,
{
    &&& dst.spec_span() == src.span
    &&& dst.spec_id() == body
    &&& dst.spec_ops().len() == src.ops@.len()
    &&& ops_normalize(src, dst.spec_ops(), src.ops@.len() as int, body, base)
}

/// `a` and `b` are the same normalized operation: equal spans and counts, equal instructions,
/// and nested bodies that are the same.
pub open spec fn same_op(a: AnalysisOp, b: AnalysisOp) -> bool
    decreases a, 0int,
{
    match a {
        AnalysisOp::If { span, then_body, else_body } => match b {
            AnalysisOp::If { span: s, then_body: t, else_body: e } => span == s && same_body(
                then_body,
                t,
            ) && same_body(else_body, e),
            _ => false,
        },
        AnalysisOp::While { span, body } => match b {
            AnalysisOp::While { span: s, body: c } => span == s && same_body(body, c),
            _ => false,
        },
        AnalysisOp::Repeat { span, count, body } => match b {
            AnalysisOp::Repeat { span: s, count: k, body: c } => span == s && count == k
                && same_body(body, c),
            _ => false,
        },
        AnalysisOp::Inst(x) => match b {
            AnalysisOp::Inst(y) => x == y,
            _ => false,
        },
    }
}

/// The first `n` operations of `a` and `b` are pairwise the same.
pub open spec fn same_ops(a: AnalysisBody, b: AnalysisBody, n: int) -> bool
    decreases a, n,
{
    if n <= 0 || n > a.spec_ops().len() {
        n == 0
    } else {
        same_ops(a, b, n - 1) && same_op(a.spec_ops()[n - 1], b.spec_ops()[n - 1])
    }
}

/// `a` and `b` are the same normalized body: equal spans, and pairwise the same operations.
pub open spec fn same_body(a: AnalysisBody, b: AnalysisBody) -> bool
    decreases a, a.spec_ops().len() + 1,
{
    &&& a.spec_span() == b.spec_span()
    &&& a.spec_id() == b.spec_id()
    &&& a.spec_ops().len() == b.spec_ops().len()
    &&& same_ops(a, b, a.spec_ops().len() as int)
}

/// Normalization is a function of the source: two normalized forms of one block, in the same
/// body and numbered from the same ordinal, are the same body.
pub proof fn lemma_normalization_unique(
    src: Block,
    a: AnalysisBody,
    b: AnalysisBody,
    body: BodyId,
    base: usize,
)
    requires
        body_normalizes(src, a, body, base),
        body_normalizes(src, b, body, base),
    ensures
        same_body(a, b),
    decreases src, src.ops@.len() + 1,
{
    lemma_ops_normalization_unique(src, a, b, src.ops@.len() as int, body, base);
}

proof fn lemma_ops_normalization_unique(
    src: Block,
    a: AnalysisBody,
    b: AnalysisBody,
    n: int,
    body: BodyId,
    base: usize,
)
    requires
        0 <= n <= src.ops@.len(),
        a.spec_ops().len() == src.ops@.len(),
        b.spec_ops().len() == src.ops@.len(),
        ops_normalize(src, a.spec_ops(), n, body, base),
        ops_normalize(src, b.spec_ops(), n, body, base),
    ensures
        same_ops(a, b, n),
    decreases src, n,
{
    if n > 0 {
        lemma_ops_normalization_unique(src, a, b, n - 1, body, base);
        lemma_op_normalization_unique(
            src.ops@[n - 1],
            a.spec_ops()[n - 1],
            b.spec_ops()[n - 1],
            body,
            advance(base, ops_sites(src, n - 1).len() as int),
        );
    }
}

proof fn lemma_op_normalization_unique(
    src: Op,
    a: AnalysisOp,
    b: AnalysisOp,
    body: BodyId,
    base: usize,
)
    requires
        op_normalizes(src, a, body, base),
        op_normalizes(src, b, body, base),
    ensures
        same_op(a, b),
    decreases src, 0int,
{
    match src {
        Op::If { then_blk, else_blk, .. } => {
            if let (
                AnalysisOp::If { then_body: t1, else_body: e1, .. },
                AnalysisOp::If { then_body: t2, else_body: e2, .. },
            ) = (a, b) {
                lemma_normalization_unique(then_blk, t1, t2, body, base);
                lemma_normalization_unique(
                    else_blk,
                    e1,
                    e2,
                    body,
                    advance(base, block_sites(then_blk).len() as int),
                );
            }
        },
        Op::While { body: blk, .. } => {
            if let (AnalysisOp::While { body: c1, .. }, AnalysisOp::While { body: c2, .. }) = (a, b) {
                lemma_normalization_unique(blk, c1, c2, body, base);
            }
        },
        Op::Repeat { body: blk, .. } => {
            if let (AnalysisOp::Repeat { body: c1, .. }, AnalysisOp::Repeat { body: c2, .. }) = (
                a,
                b,
            ) {
                lemma_normalization_unique(blk, c1, c2, body, base);
            }
        },
        Op::Inst { .. } => {
            if let (AnalysisOp::Inst(x), AnalysisOp::Inst(y)) = (a, b) {
                assert(x.invocation == y.invocation);
                assert(x == y);
            }
        },
    }
}

/// The invocation metadata of a normalized instruction, as a sequence.
pub open spec fn instruction_invocations(a: AnalysisInstruction) -> Seq<AnalysisInvocation> {
    match a.spec_invocation() {
        Some(v) => seq![v],
        None => Seq::empty(),
    }
}

/// The invocations inside a normalized operation, in body order.
pub open spec fn op_invocations(op: AnalysisOp) -> Seq<AnalysisInvocation>
    decreases op, 0int,
{
    match op {
        AnalysisOp::If { then_body, else_body, .. } => body_invocations(then_body)
            + body_invocations(else_body),
        AnalysisOp::While { body, .. } => body_invocations(body),
        AnalysisOp::Repeat { body, .. } => body_invocations(body),
        AnalysisOp::Inst(a) => instruction_invocations(a),
    }
}

/// The invocations inside the first `n` operations of a normalized body, in body order.
pub open spec fn ops_invocations(b: AnalysisBody, n: int) -> Seq<AnalysisInvocation>
    decreases b, n,
{
    if n <= 0 || n > b.spec_ops().len() {
        Seq::empty()
    } else {
        ops_invocations(b, n - 1) + op_invocations(b.spec_ops()[n - 1])
    }
}

/// The invocations inside a normalized body, in body order.
pub open spec fn body_invocations(b: AnalysisBody) -> Seq<AnalysisInvocation>
    decreases b, b.spec_ops().len() + 1,
{
    ops_invocations(b, b.spec_ops().len() as int)
}

/// `invs` are the invocations at target spans `sites`, in order, all of body `body`, the `j`-th
/// with ordinal `advance(base, j)`.
pub open spec fn numbered(
    invs: Seq<AnalysisInvocation>,
    body: BodyId,
    base: usize,
    sites: Seq<SourceSpan>,
) -> bool {
    &&& invs.len() == sites.len()
    &&& forall|j: int|
        0 <= j < invs.len() ==> (#[trigger] invs[j]).spec_body_id() == body && invs[j].spec_id()
            == (InvocationId { ordinal: advance(base, j) }) && invs[j].spec_span() == sites[j]
}

proof fn lemma_numbered_concat(
    a: Seq<AnalysisInvocation>,
    sa: Seq<SourceSpan>,
    b: Seq<AnalysisInvocation>,
    sb: Seq<SourceSpan>,
    body: BodyId,
    base: usize,
)
    requires
        numbered(a, body, base, sa),
        numbered(b, body, advance(base, sa.len() as int), sb),
    ensures
        numbered(a + b, body, base, sa + sb),
{
    let c = a + b;
    assert forall|j: int| 0 <= j < c.len() implies (#[trigger] c[j]).spec_body_id() == body
        && c[j].spec_id() == (InvocationId { ordinal: advance(base, j) }) && c[j].spec_span() == (
    sa + sb)[j] by {
        if j < a.len() {
            assert(c[j] == a[j]);
        } else {
            assert(c[j] == b[j - a.len()]);
            assert(advance(advance(base, sa.len() as int), j - a.len()) == advance(base, j));
        }
    }
}

/// Normalization numbers the invocations of a block in body order: the `j`-th invocation of
/// the normalized body sits at the `j`-th invocation site of the source, belongs to body
/// `body`, and has ordinal `advance(base, j)`.
pub proof fn lemma_invocations_numbered(src: Block, dst: AnalysisBody, body: BodyId, base: usize)
    requires
        body_normalizes(src, dst, body, base),
    ensures
        numbered(body_invocations(dst), body, base, block_sites(src)),
    decreases src, src.ops@.len() + 1,
{
    lemma_ops_invocations_numbered(src, dst, src.ops@.len() as int, body, base);
}

proof fn lemma_ops_invocations_numbered(
    src: Block,
    dst: AnalysisBody,
    n: int,
    body: BodyId,
    base: usize,
)
    requires
        0 <= n <= src.ops@.len(),
        dst.spec_ops().len() == src.ops@.len(),
        ops_normalize(src, dst.spec_ops(), n, body, base),
    ensures
        numbered(ops_invocations(dst, n), body, base, ops_sites(src, n)),
    decreases src, n,
{
    if n > 0 {
        let at = advance(base, ops_sites(src, n - 1).len() as int);
        lemma_ops_invocations_numbered(src, dst, n - 1, body, base);
        lemma_op_invocations_numbered(src.ops@[n - 1], dst.spec_ops()[n - 1], body, at);
        lemma_numbered_concat(
            ops_invocations(dst, n - 1),
            ops_sites(src, n - 1),
            op_invocations(dst.spec_ops()[n - 1]),
            op_sites(src.ops@[n - 1]),
            body,
            base,
        );
    }
}

proof fn lemma_op_invocations_numbered(src: Op, dst: AnalysisOp, body: BodyId, base: usize)
    requires
        op_normalizes(src, dst, body, base),
    ensures
        numbered(op_invocations(dst), body, base, op_sites(src)),
    decreases src, 0int,
{
    match src {
        Op::If { then_blk, else_blk, .. } => {
            if let AnalysisOp::If { then_body, else_body, .. } = dst {
                let mid = advance(base, block_sites(then_blk).len() as int);
                lemma_invocations_numbered(then_blk, then_body, body, base);
                lemma_invocations_numbered(else_blk, else_body, body, mid);
                lemma_numbered_concat(
                    body_invocations(then_body),
                    block_sites(then_blk),
                    body_invocations(else_body),
                    block_sites(else_blk),
                    body,
                    base,
                );
            }
        },
        Op::While { body: blk, .. } => {
            if let AnalysisOp::While { body: b, .. } = dst {
                lemma_invocations_numbered(blk, b, body, base);
            }
        },
        Op::Repeat { body: blk, .. } => {
            if let AnalysisOp::Repeat { body: b, .. } = dst {
                lemma_invocations_numbered(blk, b, body, base);
            }
        },
        Op::Inst { .. } => {
            assert(advance(base, 0) == base);
        },
    }
}

/// Local accesses are classified by direction: an instruction that writes a local slot
/// (`loc_store`, `loc_storew_be`, `loc_storew_le`) normalizes to a store of that slot with its
/// layout, one that reads a slot (`loc_load`, `loc_loadw_be`, `loc_loadw_le`) to a load,
/// `locaddr` to an address access, and no other instruction touches locals. Every access is
/// located at the instruction.
pub proof fn lemma_local_access_direction(
    span: SourceSpan,
    ins: Instruction,
    a: AnalysisInstruction,
    body: BodyId,
    base: usize,
)
    requires
        instruction_normalizes(span, ins, a, body, base),
    ensures
        ins matches Instruction::LocStore(i) ==> a.spec_local_access() == Some(
            AnalysisLocalAccess::Store { index: i, lane: AnalysisLocalLane::Element, span },
        ),
        ins matches Instruction::LocStoreWBe(i) ==> a.spec_local_access() == Some(
            AnalysisLocalAccess::Store { index: i, lane: AnalysisLocalLane::WordBigEndian, span },
        ),
        ins matches Instruction::LocStoreWLe(i) ==> a.spec_local_access() == Some(
            AnalysisLocalAccess::Store { index: i, lane: AnalysisLocalLane::WordLittleEndian, span },
        ),
        ins matches Instruction::LocLoad(i) ==> a.spec_local_access() == Some(
            AnalysisLocalAccess::Load { index: i, lane: AnalysisLocalLane::Element, span },
        ),
        ins matches Instruction::LocLoadWBe(i) ==> a.spec_local_access() == Some(
            AnalysisLocalAccess::Load { index: i, lane: AnalysisLocalLane::WordBigEndian, span },
        ),
        ins matches Instruction::LocLoadWLe(i) ==> a.spec_local_access() == Some(
            AnalysisLocalAccess::Load { index: i, lane: AnalysisLocalLane::WordLittleEndian, span },
        ),
        ins matches Instruction::Locaddr(i) ==> a.spec_local_access() == Some(
            AnalysisLocalAccess::Address { index: i, span },
        ),
        a.spec_local_access() matches Some(AnalysisLocalAccess::Store { .. }) ==> (
        ins is LocStore || ins is LocStoreWBe || ins is LocStoreWLe),
        a.spec_local_access() matches Some(AnalysisLocalAccess::Load { .. }) ==> (ins is LocLoad
            || ins is LocLoadWBe || ins is LocLoadWLe),
        a.spec_local_access() is None <==> !(ins is LocStore || ins is LocStoreWBe
            || ins is LocStoreWLe || ins is LocLoad || ins is LocLoadWBe || ins is LocLoadWLe
            || ins is Locaddr),
{
}

/// Build the normalized form of a MASM syntax block of body `body`, numbering its invocation
/// sites in body order from `base`; also return the ordinal that follows them.
pub(crate) fn build_body(block: &Block, body: BodyId, base: usize) -> (r: (AnalysisBody, usize))
    ensures
        body_normalizes(*block, r.0, body, base),
        r.1 == advance(base, block_sites(*block).len() as int),
    decreases block,
{
    let n = block.ops.len();
    let mut ops: Vec<AnalysisOp> = Vec::new();
    let mut next: usize = base;
    let mut i: usize = 0;
    while i < n
        invariant
            n == block.ops@.len(),
            i <= n,
            ops@.len() == i,
            next == advance(base, ops_sites(*block, i as int).len() as int),
            ops_normalize(*block, ops@, i as int, body, base),
        decreases n - i,
    {
        let (op, after) = build_op(&block.ops[i], body, next);
        let ghost prev = ops@;
        ops.push(op);
        proof {
            lemma_ops_normalize_extend(*block, prev, ops@, i as int, body, base);
            assert(ops_sites(*block, i + 1) == ops_sites(*block, i as int) + op_sites(
                block.ops@[i as int],
            ));
        }
        next = after;
        i = i + 1;
    }
    (AnalysisBody::new(block.span, ops, body), next)
}

proof fn lemma_ops_normalize_extend(
    src: Block,
    prev: Seq<AnalysisOp>,
    next: Seq<AnalysisOp>,
    n: int,
    body: BodyId,
    base: usize,
)
    requires
        0 <= n < src.ops@.len(),
        ops_normalize(src, prev, n, body, base),
        prev.len() == n,
        next == prev.push(next[n]),
        op_normalizes(src.ops@[n], next[n], body, advance(base, ops_sites(src, n).len() as int)),
    ensures
        ops_normalize(src, next, n + 1, body, base),
{
    assert forall|k: int| 0 <= k < n implies prev[k] == next[k] by {
        assert(next[k] == prev.push(next[n])[k]);
    }
    lemma_ops_normalize_prefix(src, prev, next, n, body, base);
}

proof fn lemma_ops_normalize_prefix(
    src: Block,
    a: Seq<AnalysisOp>,
    b: Seq<AnalysisOp>,
    n: int,
    body: BodyId,
    base: usize,
)
    requires
        ops_normalize(src, a, n, body, base),
        0 <= n <= a.len(),
        n <= b.len(),
        forall|k: int| 0 <= k < n ==> a[k] == b[k],
    ensures
        ops_normalize(src, b, n, body, base),
    decreases n,
{
    if n > 0 {
        lemma_ops_normalize_prefix(src, a, b, n - 1, body, base);
    }
}

fn build_op(op: &Op, body: BodyId, base: usize) -> (r: (AnalysisOp, usize))
    ensures
        op_normalizes(*op, r.0, body, base),
        r.1 == advance(base, op_sites(*op).len() as int),
    decreases op,
{
    match op {
        Op::If { span, then_blk, else_blk } => {
            let (then_body, mid) = build_body(then_blk, body, base);
            let (else_body, next) = build_body(else_blk, body, mid);
            (AnalysisOp::If { span: *span, then_body, else_body }, next)
        },
        Op::While { span, body: blk } => {
            let (b, next) = build_body(blk, body, base);
            (AnalysisOp::While { span: *span, body: b }, next)
        },
        Op::Repeat { span, count, body: blk } => {
            let (b, next) = build_body(blk, body, base);
            (AnalysisOp::Repeat { span: *span, count: *count, body: b }, next)
        },
        Op::Inst { span, instruction } => {
            let (a, next) = build_instruction(*span, instruction, body, base);
            (AnalysisOp::Inst(a), next)
        },
    }
}

fn build_instruction(span: SourceSpan, instruction: &Instruction, body: BodyId, base: usize) -> (r:
    (AnalysisInstruction, usize))
    ensures
        instruction_normalizes(span, *instruction, r.0, body, base),
        r.1 == advance(base, instruction_sites(*instruction).len() as int),
{
    let invocation = classify_invocation(instruction, body, base);
    let next = match invocation {
        Some(_) => base.saturating_add(1),
        None => base,
    };
    (
        AnalysisInstruction::new(
            span,
            instruction.clone(),
            invocation,
            classify_local_access(span, instruction),
        ),
        next,
    )
}

/// Classify a call-like instruction into normalized invocation metadata, as invocation number
/// `ordinal` of body `body`.
fn classify_invocation(instruction: &Instruction, body: BodyId, ordinal: usize) -> (r: Option<
    AnalysisInvocation,
>)
    ensures
        invocation_describes(r, *instruction, body, ordinal),
{
    let (kind, target) = match instruction {
        Instruction::Exec(target) => (AnalysisInvocationKind::Exec, target),
        Instruction::Call(target) => (AnalysisInvocationKind::Call, target),
        Instruction::SysCall(target) => (AnalysisInvocationKind::SysCall, target),
        Instruction::ProcRef(target) => (AnalysisInvocationKind::ProcRef, target),
        _ => return None,
    };
    Some(
        AnalysisInvocation::new(
            kind,
            invocation_target(target),
            target.span,
            InvocationId { ordinal },
            body,
        ),
    )
}

/// Return the normalized target of an invocation.
fn invocation_target(target: &TargetSyntax) -> (r: AnalysisInvocationTarget)
    ensures
        r == target.target,
{
    target.target.clone()
}

/// Classify the local access performed by an instruction located at `span`.
fn classify_local_access(span: SourceSpan, instruction: &Instruction) -> (r: Option<
    AnalysisLocalAccess,
>)
    ensures
        r == local_access_of(span, *instruction),
{
    match instruction {
        Instruction::Locaddr(index) => Some(AnalysisLocalAccess::Address { index: *index, span }),
        Instruction::LocLoad(index) => Some(
            AnalysisLocalAccess::Load { index: *index, lane: AnalysisLocalLane::Element, span },
        ),
        Instruction::LocLoadWBe(index) => Some(
            AnalysisLocalAccess::Load {
                index: *index,
                lane: AnalysisLocalLane::WordBigEndian,
                span,
            },
        ),
        Instruction::LocLoadWLe(index) => Some(
            AnalysisLocalAccess::Load {
                index: *index,
                lane: AnalysisLocalLane::WordLittleEndian,
                span,
            },
        ),
        Instruction::LocStore(index) => Some(
            AnalysisLocalAccess::Store { index: *index, lane: AnalysisLocalLane::Element, span },
        ),
        Instruction::LocStoreWBe(index) => Some(
            AnalysisLocalAccess::Store {
                index: *index,
                lane: AnalysisLocalLane::WordBigEndian,
                span,
            },
        ),
        Instruction::LocStoreWLe(index) => Some(
            AnalysisLocalAccess::Store {
                index: *index,
                lane: AnalysisLocalLane::WordLittleEndian,
                span,
            },
        ),
        _ => None,
    }
}

// ---------------------------------------------------------------------------------------------
// Precise classification of invocation targets
// ---------------------------------------------------------------------------------------------

/// Summary key of an external or exact resolution to `path`: a bare imported symbol keeps it
/// only when the workspace knows the callee as a procedure; a written path keeps it unless it
/// names a known module.
pub open spec fn canonical_key(
    path: Seq<char>,
    is_symbol_target: bool,
    procedures: Set<Seq<char>>,
    modules: Set<Seq<char>>,
) -> Option<Seq<char>> {
    let key = trim_separators(path);
    if is_symbol_target {
        if procedures.contains(key) {
            Some(key)
        } else {
            None
        }
    } else if modules.contains(key) {
        None
    } else {
        Some(key)
    }
}

/// Summary key that a resolution of `target_text` in module `module` yields, if any.
pub open spec fn resolution_key(
    module: Seq<char>,
    target_text: Seq<char>,
    resolution: SymbolResolution,
    is_symbol_target: bool,
    procedures: Set<Seq<char>>,
    modules: Set<Seq<char>>,
) -> Option<Seq<char>> {
    match resolution {
        SymbolResolution::Local(Some(item)) => if item.kind == LocalItemKind::Procedure
            && item.name@ == target_text {
            Some(name_key(module, target_text))
        } else {
            None
        },
        SymbolResolution::Local(_) => None,
        SymbolResolution::External(path) => canonical_key(
            path@,
            is_symbol_target,
            procedures,
            modules,
        ),
        SymbolResolution::Exact(path) => canonical_key(path@, is_symbol_target, procedures, modules),
        SymbolResolution::Module => None,
        SymbolResolution::MastRoot => None,
    }
}

/// Summary key of the callee that invocation target `t` of module `module` denotes, if any.
pub open spec fn target_key(
    module: Seq<char>,
    t: TargetSyntax,
    procedures: Set<Seq<char>>,
    modules: Set<Seq<char>>,
) -> Option<Seq<char>> {
    match t.target {
        AnalysisInvocationTarget::MastRoot(_) => None,
        AnalysisInvocationTarget::Symbol(name) => match t.resolution {
            ResolutionOutcome::Resolved(res) => resolution_key(
                module,
                name@,
                res,
                true,
                procedures,
                modules,
            ),
            _ => None,
        },
        AnalysisInvocationTarget::Path(path) => match t.resolution {
            ResolutionOutcome::Resolved(res) => resolution_key(
                module,
                path@,
                res,
                false,
                procedures,
                modules,
            ),
            ResolutionOutcome::Undefined => Some(trim_separators(path@)),
            ResolutionOutcome::Failed => None,
        },
    }
}

/// Resolutions contributed by one instruction of body `body` whose invocation, if any, has
/// ordinal `ordinal`: its identity and target span with the callee key, when the instruction is
/// call-like and its target denotes a procedure.
pub open spec fn instruction_resolutions(
    module: Seq<char>,
    ins: Instruction,
    procedures: Set<Seq<char>>,
    modules: Set<Seq<char>>,
    body: BodyId,
    ordinal: usize,
) -> Seq<((BodyId, InvocationId, SourceSpan), Seq<char>)> {
    match invocation_site(ins) {
        Some((_, t)) => match target_key(module, t, procedures, modules) {
            Some(key) => seq![((body, InvocationId { ordinal }, t.span), key)],
            None => Seq::empty(),
        },
        None => Seq::empty(),
    }
}

/// Resolutions of all invocation sites inside `op`, in body order, numbered from `base`.
pub open spec fn op_resolutions(
    module: Seq<char>,
    op: Op,
    procedures: Set<Seq<char>>,
    modules: Set<Seq<char>>,
    body: BodyId,
    base: usize,
) -> Seq<((BodyId, InvocationId, SourceSpan), Seq<char>)>
    decreases op, 0int,
{
    match op {
        Op::If { then_blk, else_blk, .. } => block_resolutions(
            module,
            then_blk,
            procedures,
            modules,
            body,
            base,
        ) + block_resolutions(
            module,
            else_blk,
            procedures,
            modules,
            body,
            advance(base, block_sites(then_blk).len() as int),
        ),
        Op::While { body: blk, .. } => block_resolutions(module, blk, procedures, modules, body, base),
        Op::Repeat { body: blk, .. } => block_resolutions(module, blk, procedures, modules, body, base),
        Op::Inst { instruction, .. } => instruction_resolutions(
            module,
            instruction,
            procedures,
            modules,
            body,
            base,
        ),
    }
}

/// Resolutions of the invocation sites inside the first `n` operations of `b`, numbered from
/// `base`.
pub open spec fn ops_resolutions(
    module: Seq<char>,
    b: Block,
    n: int,
    procedures: Set<Seq<char>>,
    modules: Set<Seq<char>>,
    body: BodyId,
    base: usize,
) -> Seq<((BodyId, InvocationId, SourceSpan), Seq<char>)>
    decreases b, n,
{
    if n <= 0 || n > b.ops@.len() {
        Seq::empty()
    } else {
        ops_resolutions(module, b, n - 1, procedures, modules, body, base) + op_resolutions(
            module,
            b.ops@[n - 1],
            procedures,
            modules,
            body,
            advance(base, ops_sites(b, n - 1).len() as int),
        )
    }
}

/// Resolutions of all invocation sites inside block `b` of body `body`, in body order,
/// numbered from `base`.
pub open spec fn block_resolutions(
    module: Seq<char>,
    b: Block,
    procedures: Set<Seq<char>>,
    modules: Set<Seq<char>>,
    body: BodyId,
    base: usize,
) -> Seq<((BodyId, InvocationId, SourceSpan), Seq<char>)>
    decreases b, b.ops@.len() + 1,
{
    ops_resolutions(module, b, b.ops@.len() as int, procedures, modules, body, base)
}

/// Target span of the invocation site of `ins`, when it is call-like.
pub open spec fn instruction_sites(ins: Instruction) -> Seq<SourceSpan> {
    match invocation_site(ins) {
        Some((_, t)) => seq![t.span],
        None => Seq::empty(),
    }
}

/// Target spans of all invocation sites inside `op`, in body order.
pub open spec fn op_sites(op: Op) -> Seq<SourceSpan>
    decreases op, 0int,
{
    match op {
        Op::If { then_blk, else_blk, .. } => block_sites(then_blk) + block_sites(else_blk),
        Op::While { body, .. } => block_sites(body),
        Op::Repeat { body, .. } => block_sites(body),
        Op::Inst { instruction, .. } => instruction_sites(instruction),
    }
}

/// Target spans of the invocation sites inside the first `n` operations of `b`.
pub open spec fn ops_sites(b: Block, n: int) -> Seq<SourceSpan>
    decreases b, n,
{
    if n <= 0 || n > b.ops@.len() {
        Seq::empty()
    } else {
        ops_sites(b, n - 1) + op_sites(b.ops@[n - 1])
    }
}

/// Target spans of all invocation sites inside block `b`, in body order.
pub open spec fn block_sites(b: Block) -> Seq<SourceSpan>
    decreases b, b.ops@.len() + 1,
{
    ops_sites(b, b.ops@.len() as int)
}

/// Every entry of `resolved` is for body `body` and for a target span in `sites`.
pub open spec fn spans_within(
    resolved: Seq<((BodyId, InvocationId, SourceSpan), Seq<char>)>,
    body: BodyId,
    sites: Seq<SourceSpan>,
) -> bool {
    forall|i: int|
        0 <= i < resolved.len() ==> (#[trigger] resolved[i]).0.0 == body && sites.contains(
            resolved[i].0.2,
        )
}

proof fn lemma_spans_within_concat(
    r1: Seq<((BodyId, InvocationId, SourceSpan), Seq<char>)>,
    s1: Seq<SourceSpan>,
    r2: Seq<((BodyId, InvocationId, SourceSpan), Seq<char>)>,
    s2: Seq<SourceSpan>,
    body: BodyId,
)
    requires
        spans_within(r1, body, s1),
        spans_within(r2, body, s2),
    ensures
        spans_within(r1 + r2, body, s1 + s2),
{
    let r = r1 + r2;
    let s = s1 + s2;
    assert forall|i: int| 0 <= i < r.len() implies (#[trigger] r[i]).0.0 == body && s.contains(
        r[i].0.2,
    ) by {
        if i < r1.len() {
            assert(r[i] == r1[i]);
            let j = choose|j: int| 0 <= j < s1.len() && s1[j] == r1[i].0.2;
            assert(s[j] == s1[j]);
        } else {
            assert(r[i] == r2[i - r1.len()]);
            let j = choose|j: int| 0 <= j < s2.len() && s2[j] == r2[i - r1.len()].0.2;
            assert(s[s1.len() + j] == s2[j]);
        }
    }
}

/// The resolutions of a block of body `body` are for that body, and keyed by target spans of
/// the block's own invocation sites.
pub proof fn lemma_block_resolutions_within_sites(
    module: Seq<char>,
    b: Block,
    procedures: Set<Seq<char>>,
    modules: Set<Seq<char>>,
    body: BodyId,
    base: usize,
)
    ensures
        spans_within(
            block_resolutions(module, b, procedures, modules, body, base),
            body,
            block_sites(b),
        ),
    decreases b, b.ops@.len() + 1,
{
    lemma_ops_resolutions_within_sites(module, b, b.ops@.len() as int, procedures, modules, body, base);
}

proof fn lemma_ops_resolutions_within_sites(
    module: Seq<char>,
    b: Block,
    n: int,
    procedures: Set<Seq<char>>,
    modules: Set<Seq<char>>,
    body: BodyId,
    base: usize,
)
    ensures
        spans_within(
            ops_resolutions(module, b, n, procedures, modules, body, base),
            body,
            ops_sites(b, n),
        ),
    decreases b, n,
{
    if n > 0 && n <= b.ops@.len() {
        let at = advance(base, ops_sites(b, n - 1).len() as int);
        lemma_ops_resolutions_within_sites(module, b, n - 1, procedures, modules, body, base);
        lemma_op_resolutions_within_sites(module, b.ops@[n - 1], procedures, modules, body, at);
        lemma_spans_within_concat(
            ops_resolutions(module, b, n - 1, procedures, modules, body, base),
            ops_sites(b, n - 1),
            op_resolutions(module, b.ops@[n - 1], procedures, modules, body, at),
            op_sites(b.ops@[n - 1]),
            body,
        );
    }
}

proof fn lemma_op_resolutions_within_sites(
    module: Seq<char>,
    op: Op,
    procedures: Set<Seq<char>>,
    modules: Set<Seq<char>>,
    body: BodyId,
    base: usize,
)
    ensures
        spans_within(op_resolutions(module, op, procedures, modules, body, base), body, op_sites(op)),
    decreases op, 0int,
{
    match op {
        Op::If { then_blk, else_blk, .. } => {
            let mid = advance(base, block_sites(then_blk).len() as int);
            lemma_block_resolutions_within_sites(module, then_blk, procedures, modules, body, base);
            lemma_block_resolutions_within_sites(module, else_blk, procedures, modules, body, mid);
            lemma_spans_within_concat(
                block_resolutions(module, then_blk, procedures, modules, body, base),
                block_sites(then_blk),
                block_resolutions(module, else_blk, procedures, modules, body, mid),
                block_sites(else_blk),
                body,
            );
        },
        Op::While { body: blk, .. } => {
            lemma_block_resolutions_within_sites(module, blk, procedures, modules, body, base);
        },
        Op::Repeat { body: blk, .. } => {
            lemma_block_resolutions_within_sites(module, blk, procedures, modules, body, base);
        },
        Op::Inst { instruction, .. } => {
            let r = instruction_resolutions(module, instruction, procedures, modules, body, base);
            let s = instruction_sites(instruction);
            assert forall|i: int| 0 <= i < r.len() implies (#[trigger] r[i]).0.0 == body
                && s.contains(r[i].0.2) by {
                assert(s[0] == r[i].0.2);
            }
        },
    }
}

/// The characters of an optional summary key.
pub open spec fn key_chars(k: Option<SummaryKey>) -> Option<Seq<char>> {
    match k {
        Some(key) => Some(key@),
        None => None,
    }
}

/// Build a summary key from a path, dropping its leading `::` separators.
pub fn summary_key_for_path(path: &str) -> (r: SummaryKey)
    ensures
        r@ == trim_separators(path@),
{
    SummaryKey::new(trim_leading_separators(path))
}

/// Summary key of a module-local item: the item's own key when it is a procedure named
/// `target_text`.
fn local_procedure_summary_key(
    module: &str,
    target_text: &str,
    item: &Option<LocalItem>,
) -> (r: Option<SummaryKey>)
    ensures
        key_chars(r) == resolution_key(
            module@,
            target_text@,
            SymbolResolution::Local(*item),
            true,
            Set::empty(),
            Set::empty(),
        ),
{
    match item {
        Some(item) => if item.kind == LocalItemKind::Procedure && str_equal(
            item.name.as_str(),
            target_text,
        ) {
            Some(summary_key_for_name(module, target_text))
        } else {
            None
        },
        None => None,
    }
}

/// Summary key of an external or exact resolution to `path`.
fn canonical_summary_key(path: &str, is_symbol_target: bool, known_targets: &KnownTargets) -> (r:
    Option<SummaryKey>)
    ensures
        key_chars(r) == canonical_key(
            path@,
            is_symbol_target,
            known_targets.procedure_keys(),
            known_targets.module_keys(),
        ),
{
    let module = trim_leading_separators(path);
    let summary_key = summary_key_for_path(path);
    if is_symbol_target {
        if known_targets.contains_procedure(summary_key.as_str()) {
            Some(summary_key)
        } else {
            None
        }
    } else if known_targets.contains_module(module) {
        None
    } else {
        Some(summary_key)
    }
}

/// Summary key that a resolution of `target_text` in module `module` yields, if any.
pub fn resolved_summary_key(
    module: &str,
    target_text: &str,
    resolution: &SymbolResolution,
    is_symbol_target: bool,
    known_targets: &KnownTargets,
) -> (r: Option<SummaryKey>)
    ensures
        key_chars(r) == resolution_key(
            module@,
            target_text@,
            *resolution,
            is_symbol_target,
            known_targets.procedure_keys(),
            known_targets.module_keys(),
        ),
{
    match resolution {
        SymbolResolution::Local(item) => local_procedure_summary_key(module, target_text, item),
        SymbolResolution::External(path) => canonical_summary_key(
            path.as_str(),
            is_symbol_target,
            known_targets,
        ),
        SymbolResolution::Exact(path) => canonical_summary_key(
            path.as_str(),
            is_symbol_target,
            known_targets,
        ),
        SymbolResolution::Module => None,
        SymbolResolution::MastRoot => None,
    }
}

/// Summary key of the callee that an invocation target denotes, if any.
fn resolve_invocation_target(module: &str, target: &TargetSyntax, known_targets: &KnownTargets) -> (r:
    Option<SummaryKey>)
    ensures
        key_chars(r) == target_key(
            module@,
            *target,
            known_targets.procedure_keys(),
            known_targets.module_keys(),
        ),
{
    match &target.target {
        AnalysisInvocationTarget::MastRoot(_) => None,
        AnalysisInvocationTarget::Symbol(name) => match &target.resolution {
            ResolutionOutcome::Resolved(resolution) => resolved_summary_key(
                module,
                name.as_str(),
                resolution,
                true,
                known_targets,
            ),
            _ => None,
        },
        AnalysisInvocationTarget::Path(path) => match &target.resolution {
            ResolutionOutcome::Resolved(resolution) => resolved_summary_key(
                module,
                path.as_str(),
                resolution,
                false,
                known_targets,
            ),
            ResolutionOutcome::Undefined => Some(summary_key_for_path(path.as_str())),
            ResolutionOutcome::Failed => None,
        },
    }
}

/// Collect the precise invocation resolutions of the body `block` of body `body`, its
/// invocation sites numbered in body order from 0.
pub(crate) fn collect_precise_invocations(
    module: &str,
    block: &Block,
    known_targets: &KnownTargets,
    body: BodyId,
) -> (r: Vec<ResolvedInvocation>)
    ensures
        entries(r@) == block_resolutions(
            module@,
            *block,
            known_targets.procedure_keys(),
            known_targets.module_keys(),
            body,
            0,
        ),
{
    let mut resolved: Vec<ResolvedInvocation> = Vec::new();
    collect_block_precise_invocations(module, block, known_targets, body, 0, &mut resolved);
    assert(entries(resolved@) =~= Seq::empty() + block_resolutions(
        module@,
        *block,
        known_targets.procedure_keys(),
        known_targets.module_keys(),
        body,
        0,
    ));
    resolved
}

fn collect_block_precise_invocations(
    module: &str,
    block: &Block,
    known_targets: &KnownTargets,
    body: BodyId,
    base: usize,
    resolved: &mut Vec<ResolvedInvocation>,
) -> (next: usize)
    ensures
        entries(final(resolved)@) == entries(old(resolved)@) + block_resolutions(
            module@,
            *block,
            known_targets.procedure_keys(),
            known_targets.module_keys(),
            body,
            base,
        ),
        next == advance(base, block_sites(*block).len() as int),
    decreases block,
{
    let ghost start = entries(resolved@);
    let ghost procs = known_targets.procedure_keys();
    let ghost mods = known_targets.module_keys();
    let n = block.ops.len();
    let mut i: usize = 0;
    let mut next: usize = base;
    assert(start =~= start + Seq::<((BodyId, InvocationId, SourceSpan), Seq<char>)>::empty());
    while i < n
        invariant
            n == block.ops@.len(),
            i <= n,
            procs == known_targets.procedure_keys(),
            mods == known_targets.module_keys(),
            next == advance(base, ops_sites(*block, i as int).len() as int),
            entries(resolved@) == start + ops_resolutions(
                module@,
                *block,
                i as int,
                procs,
                mods,
                body,
                base,
            ),
        decreases n - i,
    {
        let ghost before = entries(resolved@);
        let ghost at = next;
        let after = match &block.ops[i] {
            Op::If { then_blk, else_blk, .. } => {
                let mid = collect_block_precise_invocations(
                    module,
                    then_blk,
                    known_targets,
                    body,
                    next,
                    resolved,
                );
                collect_block_precise_invocations(module, else_blk, known_targets, body, mid, resolved)
            },
            Op::While { body: blk, .. } => {
                collect_block_precise_invocations(module, blk, known_targets, body, next, resolved)
            },
            Op::Repeat { body: blk, .. } => {
                collect_block_precise_invocations(module, blk, known_targets, body, next, resolved)
            },
            Op::Inst { instruction, .. } => {
                collect_instruction_precise_invocation(
                    module,
                    instruction,
                    known_targets,
                    body,
                    next,
                    resolved,
                )
            },
        };
        assert(entries(resolved@) =~= before + op_resolutions(
            module@,
            block.ops@[i as int],
            procs,
            mods,
            body,
            at,
        ));
        assert(ops_resolutions(module@, *block, i + 1, procs, mods, body, base) == ops_resolutions(
            module@,
            *block,
            i as int,
            procs,
            mods,
            body,
            base,
        ) + op_resolutions(module@, block.ops@[i as int], procs, mods, body, at));
        assert(ops_sites(*block, i + 1) == ops_sites(*block, i as int) + op_sites(
            block.ops@[i as int],
        ));
        next = after;
        i = i + 1;
    }
    next
}

fn collect_instruction_precise_invocation(
    module: &str,
    instruction: &Instruction,
    known_targets: &KnownTargets,
    body: BodyId,
    ordinal: usize,
    resolved: &mut Vec<ResolvedInvocation>,
) -> (next: usize)
    ensures
        entries(final(resolved)@) == entries(old(resolved)@) + instruction_resolutions(
            module@,
            *instruction,
            known_targets.procedure_keys(),
            known_targets.module_keys(),
            body,
            ordinal,
        ),
        next == advance(ordinal, instruction_sites(*instruction).len() as int),
{
    let target = match instruction {
        Instruction::Exec(target) => target,
        Instruction::Call(target) => target,
        Instruction::SysCall(target) => target,
        Instruction::ProcRef(target) => target,
        _ => {
            assert(entries(resolved@) =~= entries(resolved@) + Seq::empty());
            return ordinal;
        },
    };
    match resolve_invocation_target(module, target, known_targets) {
        Some(summary_key) => {
            let entry = ResolvedInvocation::new(body, InvocationId { ordinal }, target.span, summary_key);
            resolved.push(entry);
            assert(entries(resolved@) =~= entries(old(resolved)@) + seq![
                ((body, InvocationId { ordinal }, target.span), summary_key@),
            ]);
        },
        None => {
            assert(entries(resolved@) =~= entries(resolved@) + Seq::empty());
        },
    }
    ordinal.saturating_add(1)
}

} // verus!
