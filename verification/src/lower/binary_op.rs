//! Lowering of binary operators.

use vstd::prelude::*;

use crate::compound::range_bound;
use crate::instr::{FloatOp, I32Op, Instr, IntOp};
use crate::ir::{BinaryOperator, IrExpr, PrimitiveType, ResolvedType};
use crate::lower::aggregate::lower_range;
use crate::lower::context::{Cx, InstructionSink, LowerContext, Out, SinkView};
use crate::lower::error::{not_yet, ExprKind, LowerError, Missing, Operator};
use crate::lower::lower_expr;

verus! {

/// The signed integer instruction of an operator.
pub open spec fn int_op(op: BinaryOperator) -> Option<IntOp> {
    match op {
        BinaryOperator::Add => Some(IntOp::Add),
        BinaryOperator::Sub => Some(IntOp::Sub),
        BinaryOperator::Mul => Some(IntOp::Mul),
        BinaryOperator::Div => Some(IntOp::DivS),
        BinaryOperator::Mod => Some(IntOp::RemS),
        BinaryOperator::Eq => Some(IntOp::Eq),
        BinaryOperator::Ne => Some(IntOp::Ne),
        BinaryOperator::Lt => Some(IntOp::LtS),
        BinaryOperator::Gt => Some(IntOp::GtS),
        BinaryOperator::Le => Some(IntOp::LeS),
        BinaryOperator::Ge => Some(IntOp::GeS),
        _ => None,
    }
}

/// The float instruction of an operator. There is no remainder.
pub open spec fn float_op(op: BinaryOperator) -> Option<FloatOp> {
    match op {
        BinaryOperator::Add => Some(FloatOp::Add),
        BinaryOperator::Sub => Some(FloatOp::Sub),
        BinaryOperator::Mul => Some(FloatOp::Mul),
        BinaryOperator::Div => Some(FloatOp::Div),
        BinaryOperator::Eq => Some(FloatOp::Eq),
        BinaryOperator::Ne => Some(FloatOp::Ne),
        BinaryOperator::Lt => Some(FloatOp::Lt),
        BinaryOperator::Gt => Some(FloatOp::Gt),
        BinaryOperator::Le => Some(FloatOp::Le),
        BinaryOperator::Ge => Some(FloatOp::Ge),
        _ => None,
    }
}

/// The instruction of a boolean operator.
pub open spec fn bool_instr(op: BinaryOperator) -> Option<Instr> {
    match op {
        BinaryOperator::Eq => Some(Instr::I32(IntOp::Eq)),
        BinaryOperator::Ne => Some(Instr::I32(IntOp::Ne)),
        BinaryOperator::And => Some(Instr::I32Bits(I32Op::And)),
        BinaryOperator::Or => Some(Instr::I32Bits(I32Op::Or)),
        _ => None,
    }
}

/// The instruction of an operator on operands of type `p`.
pub open spec fn binary_instr(op: BinaryOperator, p: PrimitiveType) -> Option<Instr> {
    match p {
        PrimitiveType::I32 => match int_op(op) {
            Some(i) => Some(Instr::I32(i)),
            None => None,
        },
        PrimitiveType::I64 => match int_op(op) {
            Some(i) => Some(Instr::I64(i)),
            None => None,
        },
        PrimitiveType::F32 => match float_op(op) {
            Some(i) => Some(Instr::F32(i)),
            None => None,
        },
        PrimitiveType::F64 => match float_op(op) {
            Some(i) => Some(Instr::F64(i)),
            None => None,
        },
        PrimitiveType::Boolean => bool_instr(op),
        _ => None,
    }
}

/// The error of an operator without an instruction for its operands.
pub open spec fn binary_error(op: BinaryOperator, p: PrimitiveType) -> LowerError {
    match op {
        BinaryOperator::Eq => crate::lower::error::missing(Missing::BinaryOn(op, p)),
        BinaryOperator::Ne => crate::lower::error::missing(Missing::BinaryOn(op, p)),
        BinaryOperator::Range => crate::lower::error::missing(Missing::BinaryOn(op, p)),
        _ => LowerError::UnsupportedOperator { op: Operator::Binary(op), operand: p },
    }
}

/// The code of a binary operator.
pub open spec fn binary_code(e: IrExpr, cx: Cx, s: SinkView) -> Out
    decreases e, 2int,
{
    match e {
        IrExpr::BinaryOp { left, op, right, ty } => if op == BinaryOperator::Range {
            match cx.spec_module() {
                Err(x) => s.fail(x),
                Ok(m) => match crate::compound::bound_type(ty, m) {
                    None => s.fail(crate::lower::error::missing(Missing::RangeResult(ty))),
                    Some(bound) => crate::lower::aggregate::range_code(bound, e, cx, s),
                },
            }
        } else {
            match left.spec_ty() {
                ResolvedType::Primitive(p) => if p == PrimitiveType::String {
                    string_binary_code(e, cx, s)
                } else {
                    let o1 = crate::lower::expr_code(*left, cx, s);
                    if o1.err is Some {
                        o1
                    } else {
                        let o2 = crate::lower::expr_code(*right, cx, o1.sink);
                        if o2.err is Some {
                            o2
                        } else {
                            match binary_instr(op, p) {
                                Some(i) => o2.sink.emit(i).done(),
                                None => o2.sink.fail(binary_error(op, p)),
                            }
                        }
                    }
                },
                _ => s.fail(
                    crate::lower::error::missing(Missing::BinaryOperand(left.spec_ty())),
                ),
            }
        },
        _ => s.fail(crate::lower::error::missing(Missing::NotA(ExprKind::BinaryOp))),
    }
}

/// The code of an operator on two strings: equality and concatenation call
/// runtime helpers.
pub open spec fn string_binary_code(e: IrExpr, cx: Cx, s: SinkView) -> Out
    decreases e, 1int,
{
    match e {
        IrExpr::BinaryOp { left, op, right, .. } => {
            let helper = match op {
                BinaryOperator::Eq => cx.spec_str_eq(),
                BinaryOperator::Ne => cx.spec_str_eq(),
                BinaryOperator::Add => cx.spec_str_concat(),
                _ => Err(
                    LowerError::UnsupportedOperator {
                        op: Operator::Binary(op),
                        operand: PrimitiveType::String,
                    },
                ),
            };
            match helper {
                Err(x) => s.fail(x),
                Ok(index) => {
                    let o1 = crate::lower::expr_code(*left, cx, s);
                    if o1.err is Some {
                        o1
                    } else {
                        let o2 = crate::lower::expr_code(*right, cx, o1.sink);
                        if o2.err is Some {
                            o2
                        } else if op == BinaryOperator::Ne {
                            o2.sink.emit(Instr::Call(index)).emit(
                                Instr::I32Bits(I32Op::Eqz),
                            ).done()
                        } else {
                            o2.sink.emit(Instr::Call(index)).done()
                        }
                    }
                },
            }
        },
        _ => s.fail(crate::lower::error::missing(Missing::NotA(ExprKind::BinaryOp))),
    }
}

/// Lower a binary operator. The left operand's type selects the
/// instruction; ranges allocate, strings call helpers.
pub fn lower_binary_op(expr: &IrExpr, sink: &mut InstructionSink, ctx: &LowerContext<'_>) -> (r:
    Result<(), LowerError>)
    ensures
        crate::lower::context::wrote(
            r,
            final(sink)@,
            binary_code(*expr, ctx@, old(sink)@),
        ),
    decreases *expr, 2int,
{
    match expr {
        IrExpr::BinaryOp { left, op, right, ty } => {
            if *op == BinaryOperator::Range {
                let module = ctx.module()?;
                return match range_bound(ty, module) {
                    None => Err(not_yet(Missing::RangeResult(ty.clone()))),
                    Some(bound) => lower_range(bound, expr, sink, ctx),
                };
            }
            let p: PrimitiveType = match left.ty() {
                ResolvedType::Primitive(p) => *p,
                other => {
                    return Err(not_yet(Missing::BinaryOperand(other.clone())));
                },
            };
            if p == PrimitiveType::String {
                return lower_string_binary_op(expr, sink, ctx);
            }
            lower_expr(left, sink, ctx)?;
            lower_expr(right, sink, ctx)?;
            emit_binary_op(*op, p, sink)
        },
        _ => Err(not_yet(Missing::NotA(ExprKind::BinaryOp))),
    }
}

/// Lower an operator on two strings.
fn lower_string_binary_op(
    expr: &IrExpr,
    sink: &mut InstructionSink,
    ctx: &LowerContext<'_>,
) -> (r: Result<(), LowerError>)
    ensures
        crate::lower::context::wrote(
            r,
            final(sink)@,
            string_binary_code(*expr, ctx@, old(sink)@),
        ),
    decreases *expr, 1int,
{
    match expr {
        IrExpr::BinaryOp { left, op, right, .. } => {
            let index: u32 = match *op {
                BinaryOperator::Eq | BinaryOperator::Ne => ctx.str_eq_index()?,
                BinaryOperator::Add => ctx.str_concat_index()?,
                _ => {
                    return Err(
                        LowerError::UnsupportedOperator {
                            op: Operator::Binary(*op),
                            operand: PrimitiveType::String,
                        },
                    );
                },
            };
            lower_expr(left, sink, ctx)?;
            lower_expr(right, sink, ctx)?;
            sink.emit(Instr::Call(index));
            if *op == BinaryOperator::Ne {
                sink.emit(Instr::I32Bits(I32Op::Eqz));
            }
            Ok(())
        },
        _ => Err(not_yet(Missing::NotA(ExprKind::BinaryOp))),
    }
}

/// Write the instruction of `op` on operands of type `operand`.
fn emit_binary_op(op: BinaryOperator, operand: PrimitiveType, sink: &mut InstructionSink) -> (r:
    Result<(), LowerError>)
    ensures
        crate::lower::context::wrote(
            r,
            final(sink)@,
            match binary_instr(op, operand) {
                Some(i) => old(sink)@.emit(i).done(),
                None => old(sink)@.fail(binary_error(op, operand)),
            },
        ),
{
    let instr: Instr = match (op, operand) {
        (BinaryOperator::Add, PrimitiveType::I32) => Instr::I32(IntOp::Add),
        (BinaryOperator::Sub, PrimitiveType::I32) => Instr::I32(IntOp::Sub),
        (BinaryOperator::Mul, PrimitiveType::I32) => Instr::I32(IntOp::Mul),
        (BinaryOperator::Div, PrimitiveType::I32) => Instr::I32(IntOp::DivS),
        (BinaryOperator::Mod, PrimitiveType::I32) => Instr::I32(IntOp::RemS),
        (BinaryOperator::Add, PrimitiveType::I64) => Instr::I64(IntOp::Add),
        (BinaryOperator::Sub, PrimitiveType::I64) => Instr::I64(IntOp::Sub),
        (BinaryOperator::Mul, PrimitiveType::I64) => Instr::I64(IntOp::Mul),
        (BinaryOperator::Div, PrimitiveType::I64) => Instr::I64(IntOp::DivS),
        (BinaryOperator::Mod, PrimitiveType::I64) => Instr::I64(IntOp::RemS),
        (BinaryOperator::Add, PrimitiveType::F32) => Instr::F32(FloatOp::Add),
        (BinaryOperator::Sub, PrimitiveType::F32) => Instr::F32(FloatOp::Sub),
        (BinaryOperator::Mul, PrimitiveType::F32) => Instr::F32(FloatOp::Mul),
        (BinaryOperator::Div, PrimitiveType::F32) => Instr::F32(FloatOp::Div),
        (BinaryOperator::Add, PrimitiveType::F64) => Instr::F64(FloatOp::Add),
        (BinaryOperator::Sub, PrimitiveType::F64) => Instr::F64(FloatOp::Sub),
        (BinaryOperator::Mul, PrimitiveType::F64) => Instr::F64(FloatOp::Mul),
        (BinaryOperator::Div, PrimitiveType::F64) => Instr::F64(FloatOp::Div),
        (BinaryOperator::Eq, PrimitiveType::I32 | PrimitiveType::Boolean) => Instr::I32(IntOp::Eq),
        (BinaryOperator::Ne, PrimitiveType::I32 | PrimitiveType::Boolean) => Instr::I32(IntOp::Ne),
        (BinaryOperator::Lt, PrimitiveType::I32) => Instr::I32(IntOp::LtS),
        (BinaryOperator::Gt, PrimitiveType::I32) => Instr::I32(IntOp::GtS),
        (BinaryOperator::Le, PrimitiveType::I32) => Instr::I32(IntOp::LeS),
        (BinaryOperator::Ge, PrimitiveType::I32) => Instr::I32(IntOp::GeS),
        (BinaryOperator::Eq, PrimitiveType::I64) => Instr::I64(IntOp::Eq),
        (BinaryOperator::Ne, PrimitiveType::I64) => Instr::I64(IntOp::Ne),
        (BinaryOperator::Lt, PrimitiveType::I64) => Instr::I64(IntOp::LtS),
        (BinaryOperator::Gt, PrimitiveType::I64) => Instr::I64(IntOp::GtS),
        (BinaryOperator::Le, PrimitiveType::I64) => Instr::I64(IntOp::LeS),
        (BinaryOperator::Ge, PrimitiveType::I64) => Instr::I64(IntOp::GeS),
        (BinaryOperator::Eq, PrimitiveType::F32) => Instr::F32(FloatOp::Eq),
        (BinaryOperator::Ne, PrimitiveType::F32) => Instr::F32(FloatOp::Ne),
        (BinaryOperator::Lt, PrimitiveType::F32) => Instr::F32(FloatOp::Lt),
        (BinaryOperator::Gt, PrimitiveType::F32) => Instr::F32(FloatOp::Gt),
        (BinaryOperator::Le, PrimitiveType::F32) => Instr::F32(FloatOp::Le),
        (BinaryOperator::Ge, PrimitiveType::F32) => Instr::F32(FloatOp::Ge),
        (BinaryOperator::Eq, PrimitiveType::F64) => Instr::F64(FloatOp::Eq),
        (BinaryOperator::Ne, PrimitiveType::F64) => Instr::F64(FloatOp::Ne),
        (BinaryOperator::Lt, PrimitiveType::F64) => Instr::F64(FloatOp::Lt),
        (BinaryOperator::Gt, PrimitiveType::F64) => Instr::F64(FloatOp::Gt),
        (BinaryOperator::Le, PrimitiveType::F64) => Instr::F64(FloatOp::Le),
        (BinaryOperator::Ge, PrimitiveType::F64) => Instr::F64(FloatOp::Ge),
        (BinaryOperator::And, PrimitiveType::Boolean) => Instr::I32Bits(I32Op::And),
        (BinaryOperator::Or, PrimitiveType::Boolean) => Instr::I32Bits(I32Op::Or),
        (BinaryOperator::Eq | BinaryOperator::Ne | BinaryOperator::Range, _) => {
            return Err(not_yet(Missing::BinaryOn(op, operand)));
        },
        _ => {
            return Err(
                LowerError::UnsupportedOperator { op: Operator::Binary(op), operand },
            );
        },
    };
    sink.emit(instr);
    Ok(())
}

} // verus!
