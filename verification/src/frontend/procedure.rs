//! Shared helpers for frontend-visible MASM procedures: summary keys and declared stack effects.
use vstd::prelude::*;

use super::syntax_tree::{FunctionSignature, ProcedureSyntax, TypeWidth};
use super::{ProcedureMetadata, SummaryKey};
use crate::text::separator;
use crate::StackSignature;

verus! {

/// The summary key of procedure `name` defined in module `module`: `module::name`.
pub open spec fn name_key(module: Seq<char>, name: Seq<char>) -> Seq<char> {
    module + separator() + name
}

/// Build a stable summary key from a fully-qualified module path and local procedure name.
pub fn summary_key_for_name(module: &str, procedure_name: &str) -> (r: SummaryKey)
    ensures
        r@ == name_key(module@, procedure_name@),
{
    let mut key = String::from_str(module);
    key.append("::");
    key.append(procedure_name);
    proof {
        reveal_strlit("::");
    }
    SummaryKey::from_string(key)
}

/// Total felt width of `tys`, or `None` when one of them has no fixed flat width.
pub open spec fn total_felts(tys: Seq<TypeWidth>) -> Option<int>
    decreases tys.len(),
{
    if tys.len() == 0 {
        Some(0)
    } else {
        match (total_felts(tys.drop_last()), tys.last()) {
            (Some(sum), TypeWidth::Felts(n)) => Some(sum + n),
            _ => None,
        }
    }
}

/// Total felt width of `tys` when it is known and fits in a `usize`.
pub open spec fn bounded_felts(tys: Seq<TypeWidth>) -> Option<usize> {
    match total_felts(tys) {
        Some(n) => if n <= usize::MAX {
            Some(n as usize)
        } else {
            None
        },
        None => None,
    }
}

/// The flat stack effect of a declared signature, when both sides have a bounded width.
pub open spec fn signature_effect(sig: FunctionSignature) -> Option<StackSignature> {
    match (bounded_felts(sig.args@), bounded_felts(sig.results@)) {
        (Some(inputs), Some(outputs)) => Some(StackSignature { inputs, outputs }),
        _ => None,
    }
}

/// The flat stack effect of an optional declared signature.
pub open spec fn declared_effect(sig: Option<FunctionSignature>) -> Option<StackSignature> {
    match sig {
        Some(s) => signature_effect(s),
        None => None,
    }
}

proof fn lemma_total_felts_nonneg(tys: Seq<TypeWidth>)
    ensures
        total_felts(tys) matches Some(n) ==> n >= 0,
    decreases tys.len(),
{
    if tys.len() > 0 {
        lemma_total_felts_nonneg(tys.drop_last());
    }
}

proof fn lemma_total_felts_prefix(tys: Seq<TypeWidth>, i: int)
    requires
        0 <= i <= tys.len(),
    ensures
        total_felts(tys.take(i)) is None ==> total_felts(tys) is None,
        total_felts(tys.take(i)) is Some && total_felts(tys) is Some ==> total_felts(tys.take(i)).unwrap()
            <= total_felts(tys).unwrap(),
    decreases tys.len() - i,
{
    if i < tys.len() {
        lemma_total_felts_prefix(tys, i + 1);
        assert(tys.take(i + 1).drop_last() =~= tys.take(i));
        assert(tys.take(i + 1).last() == tys[i]);
        if let TypeWidth::Felts(n) = tys[i] {
        }
    } else {
        assert(tys.take(i) =~= tys);
    }
}

/// Add the felt width of a resolved type to an accumulated stack count.
pub fn resolved_felts(ty: TypeWidth, count: usize) -> (r: Option<usize>)
    ensures
        r == (match ty {
            TypeWidth::Felts(n) => if count + n <= usize::MAX {
                Some((count + n) as usize)
            } else {
                None
            },
            _ => None,
        }),
{
    match ty {
        TypeWidth::Felts(n) => count.checked_add(n),
        _ => None,
    }
}

/// Sum the felt widths of `tys`, failing on an unsized type or on overflow.
fn sum_felts(tys: &Vec<TypeWidth>) -> (r: Option<usize>)
    ensures
        r == bounded_felts(tys@),
{
    let mut count: usize = 0;
    let mut i: usize = 0;
    while i < tys.len()
        invariant
            i <= tys@.len(),
            total_felts(tys@.take(i as int)) == Some(count as int),
        decreases tys@.len() - i,
    {
        proof {
            assert(tys@.take(i + 1).drop_last() =~= tys@.take(i as int));
            assert(tys@.take(i + 1).last() == tys@[i as int]);
        }
        match resolved_felts(tys[i], count) {
            Some(next) => {
                count = next;
            },
            None => {
                proof {
                    lemma_total_felts_prefix(tys@, i + 1);
                    lemma_total_felts_nonneg(tys@.take(i + 1));
                }
                return None;
            },
        }
        i = i + 1;
    }
    assert(tys@.take(i as int) =~= tys@);
    Some(count)
}

/// Resolve a function signature into flat MASM input/output felt counts.
pub fn stack_signature(signature: &FunctionSignature) -> (r: Option<StackSignature>)
    ensures
        r == signature_effect(*signature),
{
    let inputs = match sum_felts(&signature.args) {
        Some(n) => n,
        None => return None,
    };
    let outputs = match sum_felts(&signature.results) {
        Some(n) => n,
        None => return None,
    };
    Some(StackSignature { inputs, outputs })
}

/// Compute stack-effect counts from an optional declared procedure signature.
pub fn declared_stack_signature(signature: Option<&FunctionSignature>) -> (r: Option<
    StackSignature,
>)
    ensures
        r == (match signature {
            Some(s) => signature_effect(*s),
            None => None,
        }),
{
    match signature {
        Some(s) => stack_signature(s),
        None => None,
    }
}

/// `m` is the metadata of `procedure` defined in module `module`.
pub open spec fn metadata_of(module: Seq<char>, procedure: ProcedureSyntax, m: ProcedureMetadata) -> bool {
    &&& m.key()@ == name_key(module, procedure.name@)
    &&& m.signature() == declared_effect(procedure.signature)
    &&& m.num_locals() == procedure.num_locals
    &&& m.definition_span() == procedure.span
}

/// Build normalized procedure metadata for a frontend-visible procedure.
pub fn build_procedure_metadata(module: &str, procedure: &ProcedureSyntax) -> (r: ProcedureMetadata)
    ensures
        metadata_of(module@, *procedure, r),
{
    let signature = match &procedure.signature {
        Some(s) => Some(s),
        None => None,
    };
    let stack_signature = declared_stack_signature(signature);
    ProcedureMetadata::new(
        summary_key_for_name(module, procedure.name.as_str()),
        stack_signature,
        procedure.num_locals,
        procedure.span,
    )
}

} // verus!
