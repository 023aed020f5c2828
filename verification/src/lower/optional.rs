//! Coercion of values into optional slots.
//!
//! A value of type `T` that flows into a slot of type `Optional<T>` is
//! wrapped: a fresh cell holds the tag of a present value and the payload.

use vstd::prelude::*;

use crate::instr::{Instr, StoreOp, ValType};
use crate::ir::{IrExpr, PrimitiveType, ResolvedType};
use crate::layout::{plan_optional, FieldLayout, OPTIONAL_TAG_ALIGN, OPTIONAL_TAG_SOME};
use crate::lower::aggregate::{allocate_aggregate, mem_arg, store_primitive};
use crate::lower::block::{bump_count, ScratchCounts};
use crate::lower::context::{Cx, InstructionSink, LowerContext, Out, SinkView};
use crate::lower::error::{not_yet, LowerError, Missing};
use crate::lower::lower_expr;

verus! {

/// The payload type, where a value of type `value` is wrapped on its way
/// into a slot of type `target`.
pub open spec fn wrap_payload(target: ResolvedType, value: ResolvedType) -> Option<ResolvedType> {
    match target {
        ResolvedType::Optional(inner) => if crate::ir::same_type(value, *inner) {
            Some(*inner)
        } else {
            None
        },
        _ => None,
    }
}

/// The type of the scratch local that holds a payload while its cell is
/// allocated.
pub open spec fn payload_scratch(payload: ResolvedType) -> Result<ValType, LowerError> {
    match payload {
        ResolvedType::Primitive(p) => match p {
            PrimitiveType::I32 => Ok(ValType::I32),
            PrimitiveType::Boolean => Ok(ValType::I32),
            PrimitiveType::I64 => Ok(ValType::I64),
            PrimitiveType::F32 => Ok(ValType::F32),
            PrimitiveType::F64 => Ok(ValType::F64),
            _ => Err(crate::lower::error::missing(Missing::SomeScratch(p))),
        },
        _ => Err(crate::lower::error::missing(Missing::SomePayload(payload))),
    }
}

/// The code that wraps the value of `e`.
pub open spec fn wrap_code(e: IrExpr, payload: ResolvedType, cx: Cx, s: SinkView) -> Out
    decreases e, 4int,
{
    match payload {
        ResolvedType::Primitive(p) => match cx.spec_module() {
            Err(x) => s.fail(x),
            Ok(_) => match crate::layout::optional_plan(payload) {
                Err(x) => s.fail(LowerError::Layout(x)),
                Ok(layout) => match payload_scratch(payload) {
                    Err(x) => s.fail(x),
                    Ok(vt) => match s.scratch_local(vt) {
                        Err(x) => s.fail(x),
                        Ok((value, s1)) => {
                            let o = crate::lower::expr_code(e, cx, s1);
                            if o.err is Some {
                                o
                            } else {
                                let s2 = o.sink.emit(Instr::LocalSet(value));
                                match crate::lower::aggregate::allocation(layout.size, cx, s2) {
                                    Err(x) => s2.fail(x),
                                    Ok((base, s3)) => s3.emit(Instr::LocalGet(base)).emit(
                                        Instr::I32Const(OPTIONAL_TAG_SOME as i32),
                                    ).emit(
                                        Instr::Store(
                                            StoreOp::I32,
                                            crate::lower::aggregate::mem_arg_at(
                                                layout.tag_offset,
                                                OPTIONAL_TAG_ALIGN,
                                            ),
                                        ),
                                    ).emit(Instr::LocalGet(base)).emit(
                                        Instr::LocalGet(value),
                                    ).emit(
                                        crate::lower::aggregate::primitive_store(
                                            p,
                                            FieldLayout {
                                                offset: layout.payload_offset,
                                                size: layout.payload_size,
                                                align: layout.payload_align,
                                            },
                                        ),
                                    ).emit(Instr::LocalGet(base)).done(),
                                }
                            }
                        },
                    },
                },
            },
        },
        _ => s.fail(crate::lower::error::missing(Missing::SomePayload(payload))),
    }
}

/// The code of `e` in a slot of type `target`.
pub open spec fn coerced_code(
    e: IrExpr,
    target: ResolvedType,
    cx: Cx,
    s: SinkView,
) -> Out
    decreases e, 5int,
{
    match wrap_payload(target, e.spec_ty()) {
        Some(payload) => wrap_code(e, payload, cx, s),
        None => crate::lower::expr_code(e, cx, s),
    }
}

/// The payload type, where a value of type `value_ty` is wrapped on its way
/// into a slot of type `target_ty`. An exact match and the widening of `nil`
/// pass through unwrapped.
pub fn some_wrap_payload<'a>(target_ty: &'a ResolvedType, value_ty: &ResolvedType) -> (r: Option<
    &'a ResolvedType,
>)
    ensures
        crate::compound::borrows(r, wrap_payload(*target_ty, *value_ty)),
{
    match target_ty {
        ResolvedType::Optional(inner) => {
            if crate::ir::types_equal(value_ty, inner) {
                Some(inner)
            } else {
                None
            }
        },
        _ => None,
    }
}

/// The type of the scratch local that holds a payload.
pub fn some_wrap_scratch_valtype(payload: &ResolvedType) -> (r: Result<ValType, LowerError>)
    ensures
        r == payload_scratch(*payload),
{
    match payload {
        ResolvedType::Primitive(p) => match *p {
            PrimitiveType::I32 | PrimitiveType::Boolean => Ok(ValType::I32),
            PrimitiveType::I64 => Ok(ValType::I64),
            PrimitiveType::F32 => Ok(ValType::F32),
            PrimitiveType::F64 => Ok(ValType::F64),
            _ => Err(not_yet(Missing::SomeScratch(*p))),
        },
        _ => Err(not_yet(Missing::SomePayload(payload.clone()))),
    }
}

/// Lower `value_expr` and wrap its value into a fresh optional cell. The
/// value is parked in a scratch local while the cell is allocated.
pub fn lower_some_wrap(
    value_expr: &IrExpr,
    payload: &ResolvedType,
    sink: &mut InstructionSink,
    ctx: &LowerContext<'_>,
) -> (r: Result<(), LowerError>)
    ensures
        crate::lower::context::wrote(
            r,
            final(sink)@,
            wrap_code(*value_expr, *payload, ctx@, old(sink)@),
        ),
    decreases *value_expr, 4int,
{
    let p: PrimitiveType = match payload {
        ResolvedType::Primitive(p) => *p,
        _ => return Err(not_yet(Missing::SomePayload(payload.clone()))),
    };
    let module = ctx.module()?;
    let layout = match plan_optional(payload, module) {
        Ok(l) => l,
        Err(x) => return Err(LowerError::Layout(x)),
    };
    let vt: ValType = some_wrap_scratch_valtype(payload)?;
    let value: u32 = sink.next_scratch_local(vt)?;
    lower_expr(value_expr, sink, ctx)?;
    sink.emit(Instr::LocalSet(value));
    let base: u32 = allocate_aggregate(layout.size, sink, ctx)?;
    sink.emit(Instr::LocalGet(base));
    sink.emit(Instr::I32Const(OPTIONAL_TAG_SOME as i32));
    sink.emit(Instr::Store(StoreOp::I32, mem_arg(layout.tag_offset, OPTIONAL_TAG_ALIGN)));
    sink.emit(Instr::LocalGet(base));
    sink.emit(Instr::LocalGet(value));
    store_primitive(
        p,
        FieldLayout {
            offset: layout.payload_offset,
            size: layout.payload_size,
            align: layout.payload_align,
        },
        sink,
    );
    sink.emit(Instr::LocalGet(base));
    Ok(())
}

/// Lower `value_expr` into a slot of type `target_ty`, wrapping it where
/// the slot widens it.
pub fn lower_coerced(
    value_expr: &IrExpr,
    target_ty: &ResolvedType,
    sink: &mut InstructionSink,
    ctx: &LowerContext<'_>,
) -> (r: Result<(), LowerError>)
    ensures
        crate::lower::context::wrote(
            r,
            final(sink)@,
            coerced_code(*value_expr, *target_ty, ctx@, old(sink)@),
        ),
    decreases *value_expr, 5int,
{
    match some_wrap_payload(target_ty, value_expr.ty()) {
        Some(payload) => lower_some_wrap(value_expr, payload, sink, ctx),
        None => lower_expr(value_expr, sink, ctx),
    }
}

/// The scratch slots after reserving those of a coercion.
pub open spec fn coercion_counts(
    target: ResolvedType,
    value: ResolvedType,
    c: ScratchCounts,
) -> Result<ScratchCounts, LowerError> {
    match wrap_payload(target, value) {
        None => Ok(c),
        Some(payload) => match crate::lower::block::bumped(c, ValType::I32) {
            Err(x) => Err(x),
            Ok(c1) => match payload_scratch(payload) {
                Err(x) => Err(x),
                Ok(vt) => crate::lower::block::bumped(c1, vt),
            },
        },
    }
}

/// Reserve the scratch slots that a coercion takes on top of those of the
/// value: one for the cell, one for the payload.
pub fn coercion_scratch_counts(
    target_ty: &ResolvedType,
    value_ty: &ResolvedType,
    counts: ScratchCounts,
) -> (r: Result<ScratchCounts, LowerError>)
    ensures
        r == coercion_counts(*target_ty, *value_ty, counts),
{
    match some_wrap_payload(target_ty, value_ty) {
        None => Ok(counts),
        Some(payload) => {
            let c = bump_count(counts, ValType::I32)?;
            let vt: ValType = some_wrap_scratch_valtype(payload)?;
            bump_count(c, vt)
        },
    }
}

// ── laws ─────────────────────────────────────────────────────────────

/// A primitive is wrapped on its way into an optional slot of its type. A value
/// flows as it is into a slot that is not optional, and so does an optional
/// primitive into a slot of its own type.
pub proof fn law_primitives_are_wrapped_for_optional_slots(p: PrimitiveType, target: ResolvedType)
    ensures
        wrap_payload(
            ResolvedType::Optional(Box::new(ResolvedType::Primitive(p))),
            ResolvedType::Primitive(p),
        ) == Some(ResolvedType::Primitive(p)),
        wrap_payload(
            ResolvedType::Optional(Box::new(ResolvedType::Primitive(p))),
            ResolvedType::Optional(Box::new(ResolvedType::Primitive(p))),
        ) is None,
        !(target is Optional) ==> forall|value: ResolvedType|
            (#[trigger] wrap_payload(target, value)) is None,
{
}

/// Where nothing is to be wrapped, the code of a value that flows into a slot
/// is the code of the value; otherwise it is the code that wraps it.
pub proof fn law_flowing_values_are_wrapped_or_as_they_are(
    e: IrExpr,
    target: ResolvedType,
    cx: Cx,
    s: SinkView,
)
    ensures
        match wrap_payload(target, e.spec_ty()) {
            None => coerced_code(e, target, cx, s) == crate::lower::expr_code(e, cx, s),
            Some(payload) => coerced_code(e, target, cx, s) == wrap_code(e, payload, cx, s),
        },
{
}

} // verus!
