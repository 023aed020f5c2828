//! Lowering of unary operators.

use vstd::prelude::*;

use crate::instr::{FloatOp, I32Op, Instr, IntOp};
use crate::ir::{IrExpr, PrimitiveType, ResolvedType, UnaryOperator};
use crate::lower::context::{Cx, InstructionSink, LowerContext, Out, SinkView};
use crate::lower::error::{not_yet, ExprKind, LowerError, Missing, Operator};
use crate::lower::lower_expr;

verus! {

/// Instruction written before the operand: integers are negated as `0 - x`.
pub open spec fn unary_prefix(op: UnaryOperator, p: PrimitiveType) -> Option<Instr> {
    match (op, p) {
        (UnaryOperator::Neg, PrimitiveType::I32) => Some(Instr::I32Const(0)),
        (UnaryOperator::Neg, PrimitiveType::I64) => Some(Instr::I64Const(0)),
        _ => None,
    }
}

/// Instruction written behind the operand; `None` where the operator does
/// not apply to the type.
pub open spec fn unary_instr(op: UnaryOperator, p: PrimitiveType) -> Option<Instr> {
    match (op, p) {
        (UnaryOperator::Neg, PrimitiveType::I32) => Some(Instr::I32(IntOp::Sub)),
        (UnaryOperator::Neg, PrimitiveType::I64) => Some(Instr::I64(IntOp::Sub)),
        (UnaryOperator::Neg, PrimitiveType::F32) => Some(Instr::F32(FloatOp::Neg)),
        (UnaryOperator::Neg, PrimitiveType::F64) => Some(Instr::F64(FloatOp::Neg)),
        (UnaryOperator::Not, PrimitiveType::Boolean) => Some(Instr::I32Bits(I32Op::Eqz)),
        _ => None,
    }
}

/// The code of a unary operator.
pub open spec fn unary_code(e: IrExpr, cx: Cx, s: SinkView) -> Out
    decreases e, 2int,
{
    match e {
        IrExpr::UnaryOp { op, operand, .. } => match operand.spec_ty() {
            ResolvedType::Primitive(p) => match unary_instr(op, p) {
                None => s.fail(
                    LowerError::UnsupportedOperator { op: Operator::Unary(op), operand: p },
                ),
                Some(behind) => {
                    let s1 = match unary_prefix(op, p) {
                        Some(before) => s.emit(before),
                        None => s,
                    };
                    let o = crate::lower::expr_code(*operand, cx, s1);
                    if o.err is Some {
                        o
                    } else {
                        o.sink.emit(behind).done()
                    }
                },
            },
            _ => s.fail(
                crate::lower::error::missing(Missing::UnaryOperand(operand.spec_ty())),
            ),
        },
        _ => s.fail(crate::lower::error::missing(Missing::NotA(ExprKind::UnaryOp))),
    }
}

/// Lower a unary operator. Wasm has no integer negation, so `-x` becomes
/// `0 - x`; logical negation is a test for zero.
pub fn lower_unary_op(expr: &IrExpr, sink: &mut InstructionSink, ctx: &LowerContext<'_>) -> (r:
    Result<(), LowerError>)
    ensures
        crate::lower::context::wrote(
            r,
            final(sink)@,
            unary_code(*expr, ctx@, old(sink)@),
        ),
    decreases *expr, 2int,
{
    match expr {
        IrExpr::UnaryOp { op, operand, .. } => {
            let p: PrimitiveType = match operand.ty() {
                ResolvedType::Primitive(p) => *p,
                other => {
                    return Err(not_yet(Missing::UnaryOperand(other.clone())));
                },
            };
            match (*op, p) {
                (UnaryOperator::Neg, PrimitiveType::I32) => {
                    sink.emit(Instr::I32Const(0));
                    lower_expr(operand, sink, ctx)?;
                    sink.emit(Instr::I32(IntOp::Sub));
                },
                (UnaryOperator::Neg, PrimitiveType::I64) => {
                    sink.emit(Instr::I64Const(0));
                    lower_expr(operand, sink, ctx)?;
                    sink.emit(Instr::I64(IntOp::Sub));
                },
                (UnaryOperator::Neg, PrimitiveType::F32) => {
                    lower_expr(operand, sink, ctx)?;
                    sink.emit(Instr::F32(FloatOp::Neg));
                },
                (UnaryOperator::Neg, PrimitiveType::F64) => {
                    lower_expr(operand, sink, ctx)?;
                    sink.emit(Instr::F64(FloatOp::Neg));
                },
                (UnaryOperator::Not, PrimitiveType::Boolean) => {
                    lower_expr(operand, sink, ctx)?;
                    sink.emit(Instr::I32Bits(I32Op::Eqz));
                },
                _ => {
                    return Err(
                        LowerError::UnsupportedOperator { op: Operator::Unary(*op), operand: p },
                    );
                },
            }
            Ok(())
        },
        _ => Err(not_yet(Missing::NotA(ExprKind::UnaryOp))),
    }
}

} // verus!
