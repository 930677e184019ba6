//! The parsed MASM module snapshot that frontends read.
//!
//! Each invocation target carries the outcome of resolving it against its module's local
//! symbol table, so that frontends can classify callees without consulting the module again.
use vstd::prelude::*;

use super::body::AnalysisInvocationTarget;
use crate::span::SourceSpan;

verus! {

/// Kind of a module-local item that a symbol resolves to.
#[derive(Debug, Clone, Copy, PartialEq, Eq, Structural)]
pub enum LocalItemKind {
    /// A procedure definition.
    Procedure,
    /// A constant definition.
    Constant,
    /// A type definition.
    Type,
    /// An import alias.
    Alias,
}

/// A module-local item: its kind and its name.
#[derive(Debug, PartialEq, Eq)]
pub struct LocalItem {
    /// Kind of the item.
    pub kind: LocalItemKind,
    /// Name of the item.
    pub name: String,
}

/// Successful resolution of a symbol or path against a module's local symbol table.
#[derive(Debug, PartialEq, Eq)]
pub enum SymbolResolution {
    /// A definition in the same module, with its kind and name when the module holds the item.
    Local(Option<LocalItem>),
    /// An item exported from another module, by its canonical path.
    External(String),
    /// A known definition, by its canonical path.
    Exact(String),
    /// A module.
    Module,
    /// A procedure MAST root.
    MastRoot,
}

/// Outcome of resolving an invocation target.
#[derive(Debug, PartialEq, Eq)]
pub enum ResolutionOutcome {
    /// The target resolved.
    Resolved(SymbolResolution),
    /// Resolution failed because the symbol is not defined.
    Undefined,
    /// Resolution failed for another reason.
    Failed,
}

/// An invocation target as written, with its span and resolution outcome.
#[derive(Debug, PartialEq, Eq)]
pub struct TargetSyntax {
    /// The target text and its syntactic class.
    pub target: AnalysisInvocationTarget,
    /// Source span of the target.
    pub span: SourceSpan,
    /// Outcome of resolving the target in its module.
    pub resolution: ResolutionOutcome,
}

/// A primitive MASM instruction, as far as the analysis frontends distinguish it.
#[derive(Debug, PartialEq, Eq)]
pub enum Instruction {
    /// `exec.<target>`
    Exec(TargetSyntax),
    /// `call.<target>`
    Call(TargetSyntax),
    /// `syscall.<target>`
    SysCall(TargetSyntax),
    /// `procref.<target>`
    ProcRef(TargetSyntax),
    /// `locaddr.<index>`
    Locaddr(u16),
    /// `loc_load.<index>`
    LocLoad(u16),
    /// `loc_loadw_be.<index>`
    LocLoadWBe(u16),
    /// `loc_loadw_le.<index>`
    LocLoadWLe(u16),
    /// `loc_store.<index>`
    LocStore(u16),
    /// `loc_storew_be.<index>`
    LocStoreWBe(u16),
    /// `loc_storew_le.<index>`
    LocStoreWLe(u16),
    /// Any other instruction, by its printed form.
    Other(String),
}

/// A structured MASM operation.
#[derive(Debug, PartialEq, Eq)]
pub enum Op {
    /// `if.true ... else ... end`
    If { span: SourceSpan, then_blk: Block, else_blk: Block },
    /// `while.true ... end`
    While { span: SourceSpan, body: Block },
    /// `repeat.<count> ... end`
    Repeat { span: SourceSpan, count: u32, body: Block },
    /// A primitive instruction.
    Inst { span: SourceSpan, instruction: Instruction },
}

/// A sequence of operations with its source span.
#[derive(Debug, PartialEq, Eq)]
pub struct Block {
    /// Source span of the block.
    pub span: SourceSpan,
    /// Operations of the block, in order.
    pub ops: Vec<Op>,
}

/// Felt width of one declared argument or result type.
#[derive(Debug, Clone, Copy, PartialEq, Eq, Structural)]
pub enum TypeWidth {
    /// The type could not be resolved.
    Unresolved,
    /// The type has no fixed flat width (unknown, never, or a list).
    Unsized,
    /// The type occupies this many field elements.
    Felts(usize),
}

/// A declared procedure signature, by the widths of its argument and result types.
#[derive(Debug, PartialEq, Eq)]
pub struct FunctionSignature {
    /// Argument types, in order.
    pub args: Vec<TypeWidth>,
    /// Result types, in order.
    pub results: Vec<TypeWidth>,
}

/// A procedure definition.
#[derive(Debug, PartialEq, Eq)]
pub struct ProcedureSyntax {
    /// Local name of the procedure.
    pub name: String,
    /// Declared signature, if any.
    pub signature: Option<FunctionSignature>,
    /// Number of declared locals.
    pub num_locals: u16,
    /// Source span of the definition.
    pub span: SourceSpan,
    /// Procedure body.
    pub body: Block,
}

/// A parsed module.
#[derive(Debug, PartialEq, Eq)]
pub struct ModuleSyntax {
    /// Fully-qualified module path.
    pub path: String,
    /// Procedures defined in the module, in definition order.
    pub procedures: Vec<ProcedureSyntax>,
}

/// A set of parsed modules loaded together.
#[derive(Debug, PartialEq, Eq)]
pub struct Workspace {
    /// Modules of the workspace, in load order.
    pub modules: Vec<ModuleSyntax>,
}

impl Clone for LocalItem {
    fn clone(&self) -> (r: Self)
        ensures
            r == *self,
    {
        LocalItem { kind: self.kind, name: self.name.clone() }
    }
}

impl Clone for SymbolResolution {
    fn clone(&self) -> (r: Self)
        ensures
            r == *self,
    {
        match self {
            SymbolResolution::Local(item) => SymbolResolution::Local(
                match item {
                    Some(item) => Some(item.clone()),
                    None => None,
                },
            ),
            SymbolResolution::External(path) => SymbolResolution::External(path.clone()),
            SymbolResolution::Exact(path) => SymbolResolution::Exact(path.clone()),
            SymbolResolution::Module => SymbolResolution::Module,
            SymbolResolution::MastRoot => SymbolResolution::MastRoot,
        }
    }
}

impl Clone for ResolutionOutcome {
    fn clone(&self) -> (r: Self)
        ensures
            r == *self,
    {
        match self {
            ResolutionOutcome::Resolved(res) => ResolutionOutcome::Resolved(res.clone()),
            ResolutionOutcome::Undefined => ResolutionOutcome::Undefined,
            ResolutionOutcome::Failed => ResolutionOutcome::Failed,
        }
    }
}

impl Clone for TargetSyntax {
    fn clone(&self) -> (r: Self)
        ensures
            r == *self,
    {
        TargetSyntax {
            target: self.target.clone(),
            span: self.span,
            resolution: self.resolution.clone(),
        }
    }
}

impl Clone for Instruction {
    fn clone(&self) -> (r: Self)
        ensures
            r == *self,
    {
        match self {
            Instruction::Exec(t) => Instruction::Exec(t.clone()),
            Instruction::Call(t) => Instruction::Call(t.clone()),
            Instruction::SysCall(t) => Instruction::SysCall(t.clone()),
            Instruction::ProcRef(t) => Instruction::ProcRef(t.clone()),
            Instruction::Locaddr(i) => Instruction::Locaddr(*i),
            Instruction::LocLoad(i) => Instruction::LocLoad(*i),
            Instruction::LocLoadWBe(i) => Instruction::LocLoadWBe(*i),
            Instruction::LocLoadWLe(i) => Instruction::LocLoadWLe(*i),
            Instruction::LocStore(i) => Instruction::LocStore(*i),
            Instruction::LocStoreWBe(i) => Instruction::LocStoreWBe(*i),
            Instruction::LocStoreWLe(i) => Instruction::LocStoreWLe(*i),
            Instruction::Other(text) => Instruction::Other(text.clone()),
        }
    }
}

/// Positions `(module, procedure)` of the procedures of the first `n` modules, in order.
pub open spec fn positions_upto(modules: Seq<ModuleSyntax>, n: int) -> Seq<(int, int)>
    decreases n,
{
    if n <= 0 || n > modules.len() {
        Seq::empty()
    } else {
        positions_upto(modules, n - 1) + Seq::new(
            modules[n - 1].procedures@.len(),
            |p: int| (n - 1, p),
        )
    }
}

/// Positions `(module, procedure)` of all procedures of `modules`, module by module, each in
/// definition order.
pub open spec fn procedure_positions(modules: Seq<ModuleSyntax>) -> Seq<(int, int)> {
    positions_upto(modules, modules.len() as int)
}

} // verus!
