//! The lifted SSA program representation that the transfer functions read.
use vstd::prelude::*;

use crate::span::SourceSpan;

verus! {

/// Identity of an SSA value, independent of the stack position it was lifted from.
#[derive(Debug, Clone, Copy, PartialEq, Eq, Hash, Structural)]
pub struct VarKey {
    /// Index of the SSA value.
    pub index: u64,
}

/// An SSA variable of the lifted program.
#[derive(Debug, Clone, Copy, PartialEq, Eq, Hash, Structural)]
pub struct Var {
    /// Index of the SSA value.
    pub index: u64,
    /// Stack depth the value was lifted from.
    pub depth: usize,
}

/// The identity key of a variable.
pub open spec fn key_of(var: Var) -> VarKey {
    VarKey { index: var.index }
}

impl Var {
    /// Build a variable from its value index and stack depth.
    pub fn new(index: u64, depth: usize) -> (r: Var)
        ensures
            r == (Var { index, depth }),
    {
        Var { index, depth }
    }
}

impl VarKey {
    /// Return the identity key of a variable.
    pub fn from_var(var: &Var) -> (r: VarKey)
        ensures
            r == key_of(*var),
    {
        VarKey { index: var.index }
    }
}

/// Unary operators of the lifted IR.
#[derive(Debug, Clone, Copy, PartialEq, Eq, Structural)]
pub enum UnOp {
    Neg,
    Inv,
    Pow2,
    Not,
    U32Cast,
    U32Test,
    U32Not,
    U32Clz,
    U32Ctz,
    U32Clo,
    U32Cto,
}

/// Binary operators of the lifted IR.
#[derive(Debug, Clone, Copy, PartialEq, Eq, Structural)]
pub enum BinOp {
    Add,
    Sub,
    Mul,
    Div,
    And,
    Or,
    Xor,
    Eq,
    Neq,
    Lt,
    Lte,
    Gt,
    Gte,
    U32And,
    U32Or,
    U32Xor,
    U32Shl,
    U32Shr,
    U32Rotr,
    U32Lt,
    U32Lte,
    U32Gt,
    U32Gte,
    U32WrappingAdd,
    U32WrappingSub,
    U32WrappingMul,
    U32Exp,
}

/// An expression of the lifted IR.
#[derive(Debug, PartialEq, Eq)]
pub enum Expr {
    /// A variable.
    Var(Var),
    /// A field constant, by its canonical value.
    Constant(u64),
    /// The boolean `true`.
    True,
    /// The boolean `false`.
    False,
    /// A word equality test.
    EqW,
    /// `cond ? then_expr : else_expr`
    Ternary { cond: Box<Expr>, then_expr: Box<Expr>, else_expr: Box<Expr> },
    /// A unary operation.
    Unary(UnOp, Box<Expr>),
    /// A binary operation.
    Binary(BinOp, Box<Expr>, Box<Expr>),
}

/// A primitive intrinsic call of the lifted IR.
#[derive(Debug, PartialEq, Eq)]
pub struct Intrinsic {
    /// The instruction name, with immediates and suffixes as written (`u32assert.err=..`).
    pub name: String,
    /// Argument variables.
    pub args: Vec<Var>,
    /// Result variables.
    pub results: Vec<Var>,
}

/// A loop-carried value: `dest` is `init` on entry and `step` after each iteration.
#[derive(Debug, Clone, Copy, PartialEq, Eq, Structural)]
pub struct LoopPhi {
    /// The loop-head variable.
    pub dest: Var,
    /// The value on loop entry.
    pub init: Var,
    /// The value at the end of an iteration.
    pub step: Var,
}

/// Layout of a local access.
#[derive(Debug, Clone, Copy, PartialEq, Eq, Structural)]
pub enum LocalAccessKind {
    /// A single felt.
    Element,
    /// A big-endian word.
    WordBe,
    /// A little-endian word.
    WordLe,
}

/// A structured statement of the lifted IR, by kind and span.
#[derive(Debug, Clone, Copy, PartialEq, Eq, Structural)]
pub enum Stmt {
    Assign { span: SourceSpan },
    MemLoad { span: SourceSpan },
    MemStore { span: SourceSpan },
    AdvLoad { span: SourceSpan },
    AdvStore { span: SourceSpan },
    LocalLoad { span: SourceSpan },
    LocalStore { span: SourceSpan },
    LocalStoreW { span: SourceSpan },
    Call { span: SourceSpan },
    Exec { span: SourceSpan },
    SysCall { span: SourceSpan },
    DynCall { span: SourceSpan },
    Intrinsic { span: SourceSpan },
    Repeat { span: SourceSpan },
    If { span: SourceSpan },
    While { span: SourceSpan },
    Return { span: SourceSpan },
}

} // verus!
