//! Lowering of typed expressions to core-wasm instructions.
//!
//! [`lower_expr`] dispatches on the expression; the submodules hold one
//! family of expressions each. What a lowering writes is a function of the
//! expression, the context and the scratch locals still available, stated by
//! the `*_code` spec functions.

pub mod access;
pub mod aggregate;
pub mod binary_op;
pub mod block;
pub mod branches;
pub mod call;
pub mod context;
pub mod control;
pub mod error;
pub mod literal;
pub mod loops;
pub mod maps;
pub mod operators;
pub mod optional;
pub mod progress;
pub mod ranges;
pub mod reference;
pub mod sequence;
pub mod storage;
pub mod unary_op;
pub mod values;

use vstd::prelude::*;

use crate::ir::IrExpr;
use crate::lower::aggregate::{
    lower_array, lower_closure_ref, lower_dict_access, lower_enum_inst, lower_field_access,
    lower_self_field_ref, lower_struct_inst, lower_tuple,
};
use crate::lower::binary_op::lower_binary_op;
use crate::lower::block::lower_block;
use crate::lower::call::{lower_call_closure, lower_function_call, lower_method_call};
use crate::lower::context::{Cx, InstructionSink, LowerContext, Out, SinkView};
use crate::lower::control::{lower_for, lower_if, lower_match};
use crate::lower::error::{not_yet, ExprKind, LowerError, Missing};
use crate::lower::literal::lower_literal;
use crate::lower::reference::{lower_let_ref, lower_reference};
use crate::lower::unary_op::lower_unary_op;

verus! {

/// The code of an expression.
pub open spec fn expr_code(e: IrExpr, cx: Cx, s: SinkView) -> Out
    decreases e, 3int,
{
    match e {
        IrExpr::Literal { .. } => crate::lower::literal::literal_code(e, cx, s),
        IrExpr::Reference { .. } => crate::lower::reference::reference_code(e, cx, s),
        IrExpr::LetRef { .. } => crate::lower::reference::let_ref_code(e, cx, s),
        IrExpr::BinaryOp { .. } => crate::lower::binary_op::binary_code(e, cx, s),
        IrExpr::UnaryOp { .. } => crate::lower::unary_op::unary_code(e, cx, s),
        IrExpr::If { .. } => crate::lower::control::if_code(e, cx, s),
        IrExpr::Match { .. } => crate::lower::control::match_code(e, cx, s),
        IrExpr::For { .. } => crate::lower::control::for_code(e, cx, s),
        IrExpr::Block { .. } => crate::lower::block::block_code(e, cx, s),
        IrExpr::FunctionCall { .. } => crate::lower::call::function_call_code(e, cx, s),
        IrExpr::CallClosure { .. } => crate::lower::call::closure_call_code(e, cx, s),
        IrExpr::MethodCall { .. } => crate::lower::call::method_call_code(e, cx, s),
        IrExpr::StructInst { .. } => crate::lower::aggregate::struct_code(e, cx, s),
        IrExpr::EnumInst { .. } => crate::lower::aggregate::enum_code(e, cx, s),
        IrExpr::Tuple { .. } => crate::lower::aggregate::tuple_code(e, cx, s),
        IrExpr::Array { .. } => crate::lower::aggregate::array_code(e, cx, s),
        IrExpr::FieldAccess { .. } => crate::lower::aggregate::field_access_code(e, cx, s),
        IrExpr::SelfFieldRef { .. } => crate::lower::aggregate::self_field_code(e, cx, s),
        IrExpr::DictAccess { .. } => crate::lower::aggregate::index_code(e, cx, s),
        IrExpr::ClosureRef { .. } => crate::lower::aggregate::closure_ref_code(e, cx, s),
        IrExpr::Closure { .. } => s.fail(
            crate::lower::error::missing(Missing::Expr(ExprKind::Closure)),
        ),
        IrExpr::DictLiteral { .. } => s.fail(
            crate::lower::error::missing(Missing::Expr(ExprKind::DictLiteral)),
        ),
    }
}

/// Lower an expression: write the instructions that leave its value on the
/// stack.
pub fn lower_expr(expr: &IrExpr, sink: &mut InstructionSink, ctx: &LowerContext<'_>) -> (r: Result<
    (),
    LowerError,
>)
    ensures
        crate::lower::context::wrote(r, final(sink)@, expr_code(*expr, ctx@, old(sink)@)),
    decreases *expr, 3int,
{
    match expr {
        IrExpr::Literal { .. } => lower_literal(expr, sink, ctx),
        IrExpr::Reference { .. } => lower_reference(expr, sink, ctx),
        IrExpr::LetRef { .. } => lower_let_ref(expr, sink, ctx),
        IrExpr::BinaryOp { .. } => lower_binary_op(expr, sink, ctx),
        IrExpr::UnaryOp { .. } => lower_unary_op(expr, sink, ctx),
        IrExpr::If { .. } => lower_if(expr, sink, ctx),
        IrExpr::Match { .. } => lower_match(expr, sink, ctx),
        IrExpr::For { .. } => lower_for(expr, sink, ctx),
        IrExpr::Block { .. } => lower_block(expr, sink, ctx),
        IrExpr::FunctionCall { .. } => lower_function_call(expr, sink, ctx),
        IrExpr::CallClosure { .. } => lower_call_closure(expr, sink, ctx),
        IrExpr::MethodCall { .. } => lower_method_call(expr, sink, ctx),
        IrExpr::StructInst { .. } => lower_struct_inst(expr, sink, ctx),
        IrExpr::EnumInst { .. } => lower_enum_inst(expr, sink, ctx),
        IrExpr::Tuple { .. } => lower_tuple(expr, sink, ctx),
        IrExpr::Array { .. } => lower_array(expr, sink, ctx),
        IrExpr::FieldAccess { .. } => lower_field_access(expr, sink, ctx),
        IrExpr::SelfFieldRef { .. } => lower_self_field_ref(expr, sink, ctx),
        IrExpr::DictAccess { .. } => lower_dict_access(expr, sink, ctx),
        IrExpr::ClosureRef { .. } => lower_closure_ref(expr, sink, ctx),
        IrExpr::Closure { .. } => Err(not_yet(Missing::Expr(ExprKind::Closure))),
        IrExpr::DictLiteral { .. } => Err(not_yet(Missing::Expr(ExprKind::DictLiteral))),
    }
}

} // verus!
