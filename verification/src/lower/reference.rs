//! Lowering of name references.

use vstd::prelude::*;

use crate::instr::Instr;
use crate::ir::{IrExpr, ReferenceTarget};
use crate::lower::context::{Cx, InstructionSink, LowerContext, Out, SinkView};
use crate::lower::error::{not_yet, ExprKind, LowerError, Missing, TargetKind};

verus! {

/// The code of reading a binding.
pub open spec fn binding_code(
    id: crate::ir::BindingId,
    cx: Cx,
    s: SinkView,
) -> Out {
    match cx.local_of(id) {
        Ok(i) => s.emit(Instr::LocalGet(i)).done(),
        Err(x) => s.fail(x),
    }
}

/// The code of a reference: only bindings have a runtime value.
pub open spec fn reference_code(e: IrExpr, cx: Cx, s: SinkView) -> Out {
    match e {
        IrExpr::Reference { target, .. } => match target {
            ReferenceTarget::Param(id) => binding_code(id, cx, s),
            ReferenceTarget::Local(id) => binding_code(id, cx, s),
            ReferenceTarget::Function(_) => s.fail(
                crate::lower::error::missing(Missing::Reference(TargetKind::Function)),
            ),
            ReferenceTarget::ModuleLet(_) => s.fail(
                crate::lower::error::missing(Missing::Reference(TargetKind::ModuleLet)),
            ),
            ReferenceTarget::Struct(_) => s.fail(
                crate::lower::error::missing(Missing::Reference(TargetKind::TypeDefinition)),
            ),
            ReferenceTarget::Enum(_) => s.fail(
                crate::lower::error::missing(Missing::Reference(TargetKind::TypeDefinition)),
            ),
            ReferenceTarget::Trait(_) => s.fail(
                crate::lower::error::missing(Missing::Reference(TargetKind::TypeDefinition)),
            ),
            ReferenceTarget::External { .. } => s.fail(
                crate::lower::error::missing(Missing::Reference(TargetKind::External)),
            ),
            ReferenceTarget::Unresolved => s.fail(LowerError::UnresolvedReference),
        },
        _ => s.fail(crate::lower::error::missing(Missing::NotA(ExprKind::Reference))),
    }
}

/// The code of a `let` reference.
pub open spec fn let_ref_code(e: IrExpr, cx: Cx, s: SinkView) -> Out {
    match e {
        IrExpr::LetRef { binding_id, .. } => binding_code(binding_id, cx, s),
        _ => s.fail(crate::lower::error::missing(Missing::NotA(ExprKind::LetRef))),
    }
}

/// Read a binding.
fn lower_binding(
    id: crate::ir::BindingId,
    sink: &mut InstructionSink,
    ctx: &LowerContext<'_>,
) -> (r: Result<(), LowerError>)
    ensures
        crate::lower::context::wrote(r, final(sink)@, binding_code(id, ctx@, old(sink)@)),
{
    let idx: u32 = ctx.binding_local(id)?;
    sink.emit(Instr::LocalGet(idx));
    Ok(())
}

/// Lower a reference. Parameters and locals become `local.get`; items and
/// externals are no runtime values.
pub fn lower_reference(expr: &IrExpr, sink: &mut InstructionSink, ctx: &LowerContext<'_>) -> (r:
    Result<(), LowerError>)
    ensures
        crate::lower::context::wrote(
            r,
            final(sink)@,
            reference_code(*expr, ctx@, old(sink)@),
        ),
{
    match expr {
        IrExpr::Reference { target, .. } => match target {
            ReferenceTarget::Param(id) => lower_binding(*id, sink, ctx),
            ReferenceTarget::Local(id) => lower_binding(*id, sink, ctx),
            ReferenceTarget::Function(_) => Err(not_yet(Missing::Reference(TargetKind::Function))),
            ReferenceTarget::ModuleLet(_) => Err(
                not_yet(Missing::Reference(TargetKind::ModuleLet)),
            ),
            ReferenceTarget::Struct(_) | ReferenceTarget::Enum(_) | ReferenceTarget::Trait(_) => Err(
                not_yet(Missing::Reference(TargetKind::TypeDefinition)),
            ),
            ReferenceTarget::External { .. } => Err(
                not_yet(Missing::Reference(TargetKind::External)),
            ),
            ReferenceTarget::Unresolved => Err(LowerError::UnresolvedReference),
        },
        _ => Err(not_yet(Missing::NotA(ExprKind::Reference))),
    }
}

/// Lower a `let` reference to `local.get`.
pub fn lower_let_ref(expr: &IrExpr, sink: &mut InstructionSink, ctx: &LowerContext<'_>) -> (r:
    Result<(), LowerError>)
    ensures
        crate::lower::context::wrote(
            r,
            final(sink)@,
            let_ref_code(*expr, ctx@, old(sink)@),
        ),
{
    match expr {
        IrExpr::LetRef { binding_id, .. } => lower_binding(*binding_id, sink, ctx),
        _ => Err(not_yet(Missing::NotA(ExprKind::LetRef))),
    }
}

} // verus!
