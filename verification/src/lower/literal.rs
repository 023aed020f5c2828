//! Lowering of literals.

use vstd::prelude::*;

use crate::instr::{Instr, StoreOp, ValType};
use crate::ir::{IrExpr, Literal, NumberLiteral, NumberValue, PrimitiveType, ResolvedType};
use crate::layout::{OPTIONAL_TAG_ALIGN, OPTIONAL_TAG_NIL, OPTIONAL_TAG_SIZE};
use crate::lower::aggregate::mem_arg;
use crate::lower::context::{Cx, InstructionSink, LowerContext, Out, SinkView};
use crate::lower::error::{not_yet, ExprKind, LiteralKind, LowerError, Missing, NumberPayload};

verus! {

/// The kind of a literal.
pub open spec fn literal_kind(value: Literal) -> LiteralKind {
    match value {
        Literal::String(_) => LiteralKind::String,
        Literal::Number(_) => LiteralKind::Number,
        Literal::Boolean(_) => LiteralKind::Boolean,
        Literal::Regex { .. } => LiteralKind::Regex,
        Literal::Path(_) => LiteralKind::Path,
        Literal::Nil => LiteralKind::Nil,
    }
}

/// The code of a literal expression.
pub open spec fn literal_code(e: IrExpr, cx: Cx, s: SinkView) -> Out {
    match e {
        IrExpr::Literal { value, ty } => if value is Nil {
            nil_code(ty, cx, s)
        } else {
            match ty {
                ResolvedType::Primitive(p) => scalar_code(value, p, cx, s),
                _ => s.fail(
                    LowerError::LiteralTypeMismatch { kind: literal_kind(value), ty },
                ),
            }
        },
        _ => s.fail(crate::lower::error::missing(Missing::NotA(ExprKind::Literal))),
    }
}

/// The code of a literal of primitive type.
pub open spec fn scalar_code(
    value: Literal,
    p: PrimitiveType,
    cx: Cx,
    s: SinkView,
) -> Out {
    match value {
        Literal::Boolean(b) => if p == PrimitiveType::Boolean {
            s.emit(
                Instr::I32Const(
                    if b {
                        1
                    } else {
                        0
                    },
                ),
            ).done()
        } else {
            s.fail(
                LowerError::LiteralTypeMismatch {
                    kind: LiteralKind::Boolean,
                    ty: ResolvedType::Primitive(p),
                },
            )
        },
        Literal::Number(n) => number_code(n, p, s),
        Literal::String(text) => text_code(text, LiteralKind::String, cx, s),
        Literal::Path(text) => text_code(text, LiteralKind::Path, cx, s),
        Literal::Regex { pattern, .. } => text_code(pattern, LiteralKind::Regex, cx, s),
        Literal::Nil => s.fail(
            LowerError::LiteralTypeMismatch {
                kind: LiteralKind::Nil,
                ty: ResolvedType::Primitive(p),
            },
        ),
    }
}

/// What a numeric literal holds.
pub open spec fn payload_of(n: NumberLiteral) -> NumberPayload {
    match n.value {
        NumberValue::Integer(v) => NumberPayload::Integer(v),
        NumberValue::Float => NumberPayload::Float(n.text),
    }
}

/// The code of a number: integers must fit their type, floats are taken in
/// the width of theirs.
pub open spec fn number_code(n: NumberLiteral, p: PrimitiveType, s: SinkView) -> Out {
    match p {
        PrimitiveType::I32 => match n.value {
            NumberValue::Integer(v) if i32::MIN <= v <= i32::MAX => s.emit(
                Instr::I32Const(v as i32),
            ).done(),
            _ => s.fail(LowerError::LiteralOutOfRange { payload: payload_of(n), target: p }),
        },
        PrimitiveType::I64 => match n.value {
            NumberValue::Integer(v) if i64::MIN <= v <= i64::MAX => s.emit(
                Instr::I64Const(v as i64),
            ).done(),
            _ => s.fail(LowerError::LiteralOutOfRange { payload: payload_of(n), target: p }),
        },
        PrimitiveType::F32 => s.emit(Instr::F32Const(n.f32_bits)).done(),
        PrimitiveType::F64 => s.emit(Instr::F64Const(n.f64_bits)).done(),
        _ => s.fail(
            LowerError::LiteralTypeMismatch {
                kind: LiteralKind::Number,
                ty: ResolvedType::Primitive(p),
            },
        ),
    }
}

/// The code of a text literal: the offset of its interned header.
pub open spec fn text_code(
    text: String,
    kind: LiteralKind,
    cx: Cx,
    s: SinkView,
) -> Out {
    match cx.string_pool {
        None => s.fail(crate::lower::error::missing(Missing::Literal(kind))),
        Some(pool) => match crate::string_pool::offset_of(pool, text@) {
            Some(offset) => s.emit(Instr::I32Const(offset as i32)).done(),
            None => s.fail(crate::lower::error::missing(Missing::TextNotInterned(text))),
        },
    }
}

/// The code of `nil`: a fresh cell that holds only the tag.
pub open spec fn nil_code(ty: ResolvedType, cx: Cx, s: SinkView) -> Out {
    if !(ty is Optional) {
        s.fail(LowerError::LiteralTypeMismatch { kind: LiteralKind::Nil, ty })
    } else {
        match cx.spec_bump_allocator() {
            Err(x) => s.fail(x),
            Ok(alloc) => match s.scratch_local(ValType::I32) {
                Err(x) => s.fail(x),
                Ok((base, s1)) => s1.emit(Instr::I32Const(OPTIONAL_TAG_SIZE as i32)).emit(
                    Instr::Call(alloc),
                ).emit(Instr::LocalSet(base)).emit(Instr::LocalGet(base)).emit(
                    Instr::I32Const(OPTIONAL_TAG_NIL as i32),
                ).emit(
                    Instr::Store(
                        StoreOp::I32,
                        crate::lower::aggregate::mem_arg_at(0, OPTIONAL_TAG_ALIGN),
                    ),
                ).emit(Instr::LocalGet(base)).done(),
            },
        }
    }
}

/// The kind of a literal.
fn literal_kind_tag(value: &Literal) -> (r: LiteralKind)
    ensures
        r == literal_kind(*value),
{
    match value {
        Literal::String(_) => LiteralKind::String,
        Literal::Number(_) => LiteralKind::Number,
        Literal::Boolean(_) => LiteralKind::Boolean,
        Literal::Regex { .. } => LiteralKind::Regex,
        Literal::Path(_) => LiteralKind::Path,
        Literal::Nil => LiteralKind::Nil,
    }
}

/// Lower a literal expression. Its type decides which constant is emitted.
pub fn lower_literal(expr: &IrExpr, sink: &mut InstructionSink, ctx: &LowerContext<'_>) -> (r:
    Result<(), LowerError>)
    ensures
        crate::lower::context::wrote(
            r,
            final(sink)@,
            literal_code(*expr, ctx@, old(sink)@),
        ),
{
    match expr {
        IrExpr::Literal { value, ty } => {
            if let Literal::Nil = value {
                return lower_nil(ty, sink, ctx);
            }
            match ty {
                ResolvedType::Primitive(p) => lower_scalar(value, *p, sink, ctx),
                _ => Err(
                    LowerError::LiteralTypeMismatch {
                        kind: literal_kind_tag(value),
                        ty: ty.clone(),
                    },
                ),
            }
        },
        _ => Err(not_yet(Missing::NotA(ExprKind::Literal))),
    }
}

fn lower_scalar(
    value: &Literal,
    p: PrimitiveType,
    sink: &mut InstructionSink,
    ctx: &LowerContext<'_>,
) -> (r: Result<(), LowerError>)
    ensures
        crate::lower::context::wrote(
            r,
            final(sink)@,
            scalar_code(*value, p, ctx@, old(sink)@),
        ),
{
    match value {
        Literal::Boolean(b) => {
            if p == PrimitiveType::Boolean {
                sink.emit(
                    Instr::I32Const(
                        if *b {
                            1
                        } else {
                            0
                        },
                    ),
                );
                Ok(())
            } else {
                Err(
                    LowerError::LiteralTypeMismatch {
                        kind: LiteralKind::Boolean,
                        ty: ResolvedType::Primitive(p),
                    },
                )
            }
        },
        Literal::Number(n) => lower_number(n, p, sink),
        Literal::String(text) => lower_text(text, LiteralKind::String, sink, ctx),
        Literal::Path(text) => lower_text(text, LiteralKind::Path, sink, ctx),
        Literal::Regex { pattern, .. } => lower_text(pattern, LiteralKind::Regex, sink, ctx),
        Literal::Nil => Err(
            LowerError::LiteralTypeMismatch {
                kind: LiteralKind::Nil,
                ty: ResolvedType::Primitive(p),
            },
        ),
    }
}

fn find_payload(n: &NumberLiteral) -> (r: NumberPayload)
    ensures
        r == payload_of(*n),
{
    match n.value {
        NumberValue::Integer(v) => NumberPayload::Integer(v),
        NumberValue::Float => NumberPayload::Float(n.text.clone()),
    }
}

fn lower_number(n: &NumberLiteral, p: PrimitiveType, sink: &mut InstructionSink) -> (r: Result<
    (),
    LowerError,
>)
    ensures
        crate::lower::context::wrote(r, final(sink)@, number_code(*n, p, old(sink)@)),
{
    match p {
        PrimitiveType::I32 => match n.as_i32() {
            Some(v) => {
                sink.emit(Instr::I32Const(v));
                Ok(())
            },
            None => Err(LowerError::LiteralOutOfRange { payload: find_payload(n), target: p }),
        },
        PrimitiveType::I64 => match n.as_i64() {
            Some(v) => {
                sink.emit(Instr::I64Const(v));
                Ok(())
            },
            None => Err(LowerError::LiteralOutOfRange { payload: find_payload(n), target: p }),
        },
        PrimitiveType::F32 => {
            sink.emit(Instr::F32Const(n.f32_bits));
            Ok(())
        },
        PrimitiveType::F64 => {
            sink.emit(Instr::F64Const(n.f64_bits));
            Ok(())
        },
        _ => Err(
            LowerError::LiteralTypeMismatch {
                kind: LiteralKind::Number,
                ty: ResolvedType::Primitive(p),
            },
        ),
    }
}

fn lower_text(
    text: &String,
    kind: LiteralKind,
    sink: &mut InstructionSink,
    ctx: &LowerContext<'_>,
) -> (r: Result<(), LowerError>)
    ensures
        crate::lower::context::wrote(
            r,
            final(sink)@,
            text_code(*text, kind, ctx@, old(sink)@),
        ),
{
    match ctx.string_pool {
        None => Err(not_yet(Missing::Literal(kind))),
        Some(pool) => match pool.get(text) {
            Some(offset) => {
                sink.emit(Instr::I32Const(offset as i32));
                Ok(())
            },
            None => Err(not_yet(Missing::TextNotInterned(text.clone()))),
        },
    }
}

/// Lower `nil`. Its cell is the same whatever optional it flows into, since
/// only the tag is ever read.
fn lower_nil(ty: &ResolvedType, sink: &mut InstructionSink, ctx: &LowerContext<'_>) -> (r: Result<
    (),
    LowerError,
>)
    ensures
        crate::lower::context::wrote(r, final(sink)@, nil_code(*ty, ctx@, old(sink)@)),
{
    match ty {
        ResolvedType::Optional(_) => {},
        _ => {
            return Err(
                LowerError::LiteralTypeMismatch { kind: LiteralKind::Nil, ty: ty.clone() },
            );
        },
    }
    let alloc: u32 = ctx.bump_allocator()?;
    let base: u32 = sink.next_scratch_local(ValType::I32)?;
    sink.emit(Instr::I32Const(OPTIONAL_TAG_SIZE as i32));
    sink.emit(Instr::Call(alloc));
    sink.emit(Instr::LocalSet(base));
    sink.emit(Instr::LocalGet(base));
    sink.emit(Instr::I32Const(OPTIONAL_TAG_NIL as i32));
    sink.emit(Instr::Store(StoreOp::I32, mem_arg(0, OPTIONAL_TAG_ALIGN)));
    sink.emit(Instr::LocalGet(base));
    Ok(())
}

} // verus!
