//! Lowering of calls: direct, through a closure value, and on a receiver.
//!
//! A static method call is a direct call with the receiver first. A virtual
//! one loads its table slot from the method table of the receiver's type,
//! whose place is known at compile time, and calls through the table.

use vstd::prelude::*;

use crate::instr::{Instr, LoadOp, MemArg, ValType};
use crate::ir::{
    DispatchKind, FunctionId, ImplId, ImplTarget, IrExpr, IrFunctionParam, MethodIdx, PrimitiveType,
    ResolvedType, TraitId,
};
use crate::layout::VTABLE_SLOT_SIZE;
use crate::lower::context::{Cx, InstructionSink, LowerContext, Out, SinkView};
use crate::lower::error::{not_yet, ContextField, ExprKind, LowerError, Missing};
use crate::lower::lower_expr;
use crate::lower::optional::lower_coerced;
use crate::module::MEMORY_INDEX;
use crate::types::{CLOSURE_ENV_OFFSET, CLOSURE_FUNCREF_OFFSET};

verus! {

/// The declared type of the first parameter called `name`, from position
/// `from` on.
pub open spec fn param_type(params: Seq<IrFunctionParam>, name: Seq<char>, from: int) -> Option<
    ResolvedType,
>
    decreases params.len() - from,
{
    if from < 0 || from >= params.len() {
        None
    } else if params[from].name@ == name {
        params[from].ty
    } else {
        param_type(params, name, from + 1)
    }
}

/// The type an argument flows into, where its label names a parameter of
/// known type.
pub open spec fn arg_target(params: Option<Seq<IrFunctionParam>>, label: Option<String>) -> Option<
    ResolvedType,
> {
    match (params, label) {
        (Some(ps), Some(name)) => param_type(ps, name@, 0),
        _ => None,
    }
}

/// `r` borrows the parameters that `s` says.
pub open spec fn borrows_params(
    r: Option<&Vec<IrFunctionParam>>,
    s: Option<Seq<IrFunctionParam>>,
) -> bool {
    match r {
        Some(ps) => s == Some(ps@),
        None => s is None,
    }
}

/// The parameters of a function of the module.
pub open spec fn function_params(m: Option<crate::ir::IrModule>, id: FunctionId) -> Option<
    Seq<IrFunctionParam>,
> {
    match m {
        None => None,
        Some(m) => match m.spec_function(id) {
            None => None,
            Some(f) => Some(f.params@),
        },
    }
}

/// The parameters of a method of the module.
pub open spec fn method_params(m: Option<crate::ir::IrModule>, id: ImplId, idx: MethodIdx) -> Option<
    Seq<IrFunctionParam>,
> {
    match m {
        None => None,
        Some(m) => match m.spec_method(id, idx) {
            None => None,
            Some(f) => Some(f.params@),
        },
    }
}

/// The parameters of a trait method of the module.
pub open spec fn trait_method_params(
    m: Option<crate::ir::IrModule>,
    id: TraitId,
    idx: MethodIdx,
) -> Option<Seq<IrFunctionParam>> {
    match m {
        None => None,
        Some(m) => match m.spec_trait_method(id, idx) {
            None => None,
            Some(f) => Some(f.params@),
        },
    }
}

/// The code of the arguments, from argument `i` on.
pub open spec fn args_code(
    args: Seq<(Option<String>, IrExpr)>,
    i: int,
    params: Option<Seq<IrFunctionParam>>,
    cx: Cx,
    s: SinkView,
) -> Out
    decreases args, args.len() - i,
{
    if i < 0 || i >= args.len() {
        s.done()
    } else {
        let o = match arg_target(params, args[i].0) {
            Some(t) => crate::lower::optional::coerced_code(args[i].1, t, cx, s),
            None => crate::lower::expr_code(args[i].1, cx, s),
        };
        if o.err is Some {
            o
        } else {
            args_code(args, i + 1, params, cx, o.sink)
        }
    }
}

/// The code of a direct call.
pub open spec fn function_call_code(e: IrExpr, cx: Cx, s: SinkView) -> Out
    decreases e, 2int,
{
    match e {
        IrExpr::FunctionCall { path, function_id, args, .. } => match function_id {
            None => s.fail(LowerError::UnresolvedFunctionCall { path }),
            Some(id) => match crate::lower::maps::lookup(cx.functions, id.0) {
                None => s.fail(LowerError::UnknownFunction(id)),
                Some(index) => {
                    let o = args_code(args@, 0, function_params(cx.module, id), cx, s);
                    if o.err is Some {
                        o
                    } else {
                        o.sink.emit(Instr::Call(index)).done()
                    }
                },
            },
        },
        _ => s.fail(crate::lower::error::missing(Missing::NotA(ExprKind::FunctionCall))),
    }
}

/// The read of one half of a closure value.
pub open spec fn closure_part(offset: u32) -> Instr {
    Instr::Load(
        LoadOp::I32,
        MemArg { offset: offset as u64, align: 2, memory_index: MEMORY_INDEX },
    )
}

/// The code of a call through a closure value.
pub open spec fn closure_call_code(e: IrExpr, cx: Cx, s: SinkView) -> Out
    decreases e, 2int,
{
    match e {
        IrExpr::CallClosure { closure, args, .. } => if !(closure.spec_ty() is Closure) {
            s.fail(crate::lower::error::missing(Missing::CallOfNonClosure(closure.spec_ty())))
        } else {
            match cx.spec_closure_table() {
                Err(x) => s.fail(x),
                Ok(table_index) => match cx.spec_closure_type(closure.spec_ty()) {
                    Err(x) => s.fail(x),
                    Ok(type_index) => match s.scratch_local(ValType::I32) {
                        Err(x) => s.fail(x),
                        Ok((base, s1)) => {
                            let o = crate::lower::expr_code(*closure, cx, s1);
                            if o.err is Some {
                                o
                            } else {
                                let a = args_code(
                                    args@,
                                    0,
                                    None,
                                    cx,
                                    o.sink.emit(Instr::LocalSet(base)).emit(
                                        Instr::LocalGet(base),
                                    ).emit(closure_part(CLOSURE_ENV_OFFSET)),
                                );
                                if a.err is Some {
                                    a
                                } else {
                                    a.sink.emit(Instr::LocalGet(base)).emit(
                                        closure_part(CLOSURE_FUNCREF_OFFSET),
                                    ).emit(Instr::CallIndirect { table_index, type_index }).done()
                                }
                            }
                        },
                    },
                },
            }
        },
        _ => s.fail(crate::lower::error::missing(Missing::NotA(ExprKind::CallClosure))),
    }
}

/// The code of a static method call.
pub open spec fn static_call_code(e: IrExpr, impl_id: ImplId, cx: Cx, s: SinkView) -> Out
    decreases e, 1int,
{
    match e {
        IrExpr::MethodCall { receiver, method_idx, args, .. } => match cx.methods {
            None => s.fail(LowerError::MissingContext { what: ContextField::Methods }),
            Some(methods) => match crate::lower::maps::lookup(
                methods,
                crate::lower::maps::pair_key(impl_id.0, method_idx.0),
            ) {
                None => s.fail(LowerError::UnknownMethod { impl_id, method_idx }),
                Some(index) => {
                    let o = crate::lower::expr_code(*receiver, cx, s);
                    if o.err is Some {
                        o
                    } else {
                        let a = args_code(
                            args@,
                            0,
                            method_params(cx.module, impl_id, method_idx),
                            cx,
                            o.sink,
                        );
                        if a.err is Some {
                            a
                        } else {
                            a.sink.emit(Instr::Call(index)).done()
                        }
                    }
                },
            },
        },
        _ => s.fail(crate::lower::error::missing(Missing::NotA(ExprKind::MethodCall))),
    }
}

/// A number that tells primitive types apart.
pub open spec fn primitive_id(p: PrimitiveType) -> u32 {
    match p {
        PrimitiveType::I32 => 0,
        PrimitiveType::I64 => 1,
        PrimitiveType::F32 => 2,
        PrimitiveType::F64 => 3,
        PrimitiveType::Boolean => 4,
        PrimitiveType::Never => 5,
        PrimitiveType::String => 6,
        PrimitiveType::Path => 7,
        PrimitiveType::Regex => 8,
    }
}

/// The key of an impl block's target type.
pub open spec fn target_key(target: ImplTarget) -> (u32, u32) {
    match target {
        ImplTarget::Struct(id) => (0, id.0),
        ImplTarget::Enum(id) => (1, id.0),
        ImplTarget::Primitive(p) => (2, primitive_id(p)),
    }
}

/// Different impl targets have different keys.
pub proof fn law_target_keys_are_distinct(a: ImplTarget, b: ImplTarget)
    requires
        target_key(a) == target_key(b),
    ensures
        a == b,
{
}

/// The key of a virtual call's receiver type.
pub open spec fn receiver_key(ty: ResolvedType) -> Result<(u32, u32), LowerError> {
    match ty {
        ResolvedType::Struct(id) => Ok(target_key(ImplTarget::Struct(id))),
        ResolvedType::Enum(id) => Ok(target_key(ImplTarget::Enum(id))),
        _ => Err(LowerError::UnsupportedVirtualReceiver { ty }),
    }
}

/// The read of the table slot of method `idx` in the method table at
/// `vtable`.
pub open spec fn slot_load(vtable: u32, idx: MethodIdx) -> Instr {
    Instr::Load(
        LoadOp::I32,
        MemArg {
            offset: (vtable + idx.0 * VTABLE_SLOT_SIZE) as u64,
            align: 2,
            memory_index: MEMORY_INDEX,
        },
    )
}

/// The code of a virtual method call.
pub open spec fn virtual_call_code(e: IrExpr, trait_id: TraitId, cx: Cx, s: SinkView) -> Out
    decreases e, 1int,
{
    match e {
        IrExpr::MethodCall { receiver, method_idx, args, .. } => match receiver_key(
            receiver.spec_ty(),
        ) {
            Err(x) => s.fail(x),
            Ok(target) => match cx.spec_method_table() {
                Err(x) => s.fail(x),
                Ok(table_index) => match cx.spec_virtual_call_type(trait_id, method_idx) {
                    Err(x) => s.fail(x),
                    Ok(type_index) => match cx.spec_vtable_offset(trait_id, target) {
                        Err(x) => s.fail(x),
                        Ok(vtable) => {
                            let o = crate::lower::expr_code(*receiver, cx, s);
                            if o.err is Some {
                                o
                            } else {
                                let a = args_code(
                                    args@,
                                    0,
                                    trait_method_params(cx.module, trait_id, method_idx),
                                    cx,
                                    o.sink,
                                );
                                if a.err is Some {
                                    a
                                } else {
                                    a.sink.emit(Instr::I32Const(0)).emit(
                                        slot_load(vtable, method_idx),
                                    ).emit(Instr::CallIndirect { table_index, type_index }).done()
                                }
                            }
                        },
                    },
                },
            },
        },
        _ => s.fail(crate::lower::error::missing(Missing::NotA(ExprKind::MethodCall))),
    }
}

/// The code of a method call.
pub open spec fn method_call_code(e: IrExpr, cx: Cx, s: SinkView) -> Out
    decreases e, 2int,
{
    match e {
        IrExpr::MethodCall { dispatch, .. } => match dispatch {
            DispatchKind::Static { impl_id } => static_call_code(e, impl_id, cx, s),
            DispatchKind::Virtual { trait_id, .. } => virtual_call_code(e, trait_id, cx, s),
        },
        _ => s.fail(crate::lower::error::missing(Missing::NotA(ExprKind::MethodCall))),
    }
}

/// The declared type of the parameter called `name`.
pub fn find_param_type<'a>(params: &'a Vec<IrFunctionParam>, name: &String) -> (r: Option<
    &'a ResolvedType,
>)
    ensures
        crate::compound::borrows(r, param_type(params@, name@, 0)),
{
    let mut i: usize = 0;
    while i < params.len()
        invariant
            i <= params@.len(),
            param_type(params@, name@, 0) == param_type(params@, name@, i as int),
        decreases params@.len() - i,
    {
        if params[i].name == *name {
            return match &params[i].ty {
                Some(t) => Some(t),
                None => None,
            };
        }
        i = i + 1;
    }
    None
}

/// The type an argument flows into.
pub fn find_arg_target<'a>(params: Option<&'a Vec<IrFunctionParam>>, label: &Option<String>) -> (r:
    Option<&'a ResolvedType>)
    ensures
        forall|s: Option<Seq<IrFunctionParam>>| #[trigger]
            borrows_params(params, s) ==> crate::compound::borrows(r, arg_target(s, *label)),
{
    match params {
        Some(ps) => match label {
            Some(name) => find_param_type(ps, name),
            None => None,
        },
        None => None,
    }
}

/// Write the arguments of a call.
fn lower_args(
    args: &Vec<(Option<String>, IrExpr)>,
    params: Option<&Vec<IrFunctionParam>>,
    sink: &mut InstructionSink,
    ctx: &LowerContext<'_>,
) -> (r: Result<(), LowerError>)
    ensures
        forall|s: Option<Seq<IrFunctionParam>>| #[trigger]
            borrows_params(params, s) ==> crate::lower::context::wrote(
                r,
                final(sink)@,
                args_code(args@, 0, s, ctx@, old(sink)@),
            ),
    decreases args@, args@.len(),
{
    let mut i: usize = 0;
    let ghost known: Option<Seq<IrFunctionParam>> = match params {
        Some(ps) => Some(ps@),
        None => None,
    };
    let ghost goal = args_code(args@, 0, known, ctx@, sink@);
    while i < args.len()
        invariant
            goal == args_code(args@, 0, known, ctx@, old(sink)@),
            i <= args@.len(),
            borrows_params(params, known),
            goal == args_code(args@, i as int, known, ctx@, sink@),
        decreases args@.len() - i,
    {
        match find_arg_target(params, &args[i].0) {
            Some(t) => lower_coerced(&args[i].1, t, sink, ctx)?,
            None => lower_expr(&args[i].1, sink, ctx)?,
        }
        i = i + 1;
    }
    Ok(())
}

/// Lower a direct call: the arguments in order, each flowing into the
/// parameter its label names, then the call.
pub fn lower_function_call(
    expr: &IrExpr,
    sink: &mut InstructionSink,
    ctx: &LowerContext<'_>,
) -> (r: Result<(), LowerError>)
    ensures
        crate::lower::context::wrote(r, final(sink)@, function_call_code(*expr, ctx@, old(sink)@)),
    decreases *expr, 2int,
{
    match expr {
        IrExpr::FunctionCall { path, function_id, args, .. } => {
            let id = match function_id {
                Some(id) => *id,
                None => {
                    return Err(
                        LowerError::UnresolvedFunctionCall { path: crate::ir::clone_names(path) },
                    );
                },
            };
            let index: u32 = match ctx.functions.get(id) {
                Some(i) => i,
                None => return Err(LowerError::UnknownFunction(id)),
            };
            let params: Option<&Vec<IrFunctionParam>> = match ctx.module {
                Some(m) => match m.get_function(id) {
                    Some(f) => Some(&f.params),
                    None => None,
                },
                None => None,
            };
            assert(borrows_params(params, function_params(ctx@.module, id)));
            lower_args(args, params, sink, ctx)?;
            sink.emit(Instr::Call(index));
            Ok(())
        },
        _ => Err(not_yet(Missing::NotA(ExprKind::FunctionCall))),
    }
}

/// Lower a call through a closure value. The environment pointer is the
/// first argument, the function is called through the closure table.
pub fn lower_call_closure(
    expr: &IrExpr,
    sink: &mut InstructionSink,
    ctx: &LowerContext<'_>,
) -> (r: Result<(), LowerError>)
    ensures
        crate::lower::context::wrote(r, final(sink)@, closure_call_code(*expr, ctx@, old(sink)@)),
    decreases *expr, 2int,
{
    match expr {
        IrExpr::CallClosure { closure, args, .. } => {
            match closure.ty() {
                ResolvedType::Closure { .. } => {},
                other => return Err(not_yet(Missing::CallOfNonClosure(other.clone()))),
            }
            let table_index: u32 = ctx.closure_table_index()?;
            let type_index: u32 = ctx.closure_type_index(closure.ty())?;
            let base: u32 = sink.next_scratch_local(ValType::I32)?;
            lower_expr(closure, sink, ctx)?;
            sink.emit(Instr::LocalSet(base));
            sink.emit(Instr::LocalGet(base));
            sink.emit(
                Instr::Load(
                    LoadOp::I32,
                    MemArg {
                        offset: CLOSURE_ENV_OFFSET as u64,
                        align: 2,
                        memory_index: MEMORY_INDEX,
                    },
                ),
            );
            assert(borrows_params(None, None));
            lower_args(args, None, sink, ctx)?;
            sink.emit(Instr::LocalGet(base));
            sink.emit(
                Instr::Load(
                    LoadOp::I32,
                    MemArg {
                        offset: CLOSURE_FUNCREF_OFFSET as u64,
                        align: 2,
                        memory_index: MEMORY_INDEX,
                    },
                ),
            );
            sink.emit(Instr::CallIndirect { table_index, type_index });
            Ok(())
        },
        _ => Err(not_yet(Missing::NotA(ExprKind::CallClosure))),
    }
}

/// Lower a method call, statically or virtually dispatched.
pub fn lower_method_call(
    expr: &IrExpr,
    sink: &mut InstructionSink,
    ctx: &LowerContext<'_>,
) -> (r: Result<(), LowerError>)
    ensures
        crate::lower::context::wrote(r, final(sink)@, method_call_code(*expr, ctx@, old(sink)@)),
    decreases *expr, 2int,
{
    match expr {
        IrExpr::MethodCall { dispatch, .. } => match dispatch {
            DispatchKind::Static { impl_id } => lower_static_method_call(expr, *impl_id, sink, ctx),
            DispatchKind::Virtual { trait_id, .. } => lower_virtual_method_call(
                expr,
                *trait_id,
                sink,
                ctx,
            ),
        },
        _ => Err(not_yet(Missing::NotA(ExprKind::MethodCall))),
    }
}

fn lower_static_method_call(
    expr: &IrExpr,
    impl_id: ImplId,
    sink: &mut InstructionSink,
    ctx: &LowerContext<'_>,
) -> (r: Result<(), LowerError>)
    ensures
        crate::lower::context::wrote(
            r,
            final(sink)@,
            static_call_code(*expr, impl_id, ctx@, old(sink)@),
        ),
    decreases *expr, 1int,
{
    match expr {
        IrExpr::MethodCall { receiver, method_idx, args, .. } => {
            let methods = match ctx.methods {
                Some(m) => m,
                None => {
                    return Err(LowerError::MissingContext { what: ContextField::Methods });
                },
            };
            let index: u32 = match methods.get((impl_id, *method_idx)) {
                Some(i) => i,
                None => {
                    return Err(LowerError::UnknownMethod { impl_id, method_idx: *method_idx });
                },
            };
            lower_expr(receiver, sink, ctx)?;
            let params: Option<&Vec<IrFunctionParam>> = match ctx.module {
                Some(m) => match m.get_method(impl_id, *method_idx) {
                    Some(f) => Some(&f.params),
                    None => None,
                },
                None => None,
            };
            assert(borrows_params(params, method_params(ctx@.module, impl_id, *method_idx)));
            lower_args(args, params, sink, ctx)?;
            sink.emit(Instr::Call(index));
            Ok(())
        },
        _ => Err(not_yet(Missing::NotA(ExprKind::MethodCall))),
    }
}

/// A number that tells primitive types apart.
fn primitive_number(p: PrimitiveType) -> (r: u32)
    ensures
        r == primitive_id(p),
{
    match p {
        PrimitiveType::I32 => 0,
        PrimitiveType::I64 => 1,
        PrimitiveType::F32 => 2,
        PrimitiveType::F64 => 3,
        PrimitiveType::Boolean => 4,
        PrimitiveType::Never => 5,
        PrimitiveType::String => 6,
        PrimitiveType::Path => 7,
        PrimitiveType::Regex => 8,
    }
}

/// The key of an impl block's target type: what it is and which one.
pub fn impl_target_key(target: ImplTarget) -> (r: (u32, u32))
    ensures
        r == target_key(target),
{
    match target {
        ImplTarget::Struct(id) => (0, id.0),
        ImplTarget::Enum(id) => (1, id.0),
        ImplTarget::Primitive(p) => (2, primitive_number(p)),
    }
}

fn lower_virtual_method_call(
    expr: &IrExpr,
    trait_id: TraitId,
    sink: &mut InstructionSink,
    ctx: &LowerContext<'_>,
) -> (r: Result<(), LowerError>)
    ensures
        crate::lower::context::wrote(
            r,
            final(sink)@,
            virtual_call_code(*expr, trait_id, ctx@, old(sink)@),
        ),
    decreases *expr, 1int,
{
    match expr {
        IrExpr::MethodCall { receiver, method_idx, args, .. } => {
            let target: (u32, u32) = match receiver.ty() {
                ResolvedType::Struct(id) => impl_target_key(ImplTarget::Struct(*id)),
                ResolvedType::Enum(id) => impl_target_key(ImplTarget::Enum(*id)),
                other => {
                    return Err(LowerError::UnsupportedVirtualReceiver { ty: other.clone() });
                },
            };
            let table_index: u32 = ctx.method_table_index()?;
            let type_index: u32 = ctx.virtual_call_type_index(trait_id, *method_idx)?;
            let vtable: u32 = ctx.vtable_offset(trait_id, target)?;
            let offset: u64 = vtable as u64 + method_idx.0 as u64 * VTABLE_SLOT_SIZE as u64;
            lower_expr(receiver, sink, ctx)?;
            let params: Option<&Vec<IrFunctionParam>> = match ctx.module {
                Some(m) => match m.get_trait_method(trait_id, *method_idx) {
                    Some(f) => Some(&f.params),
                    None => None,
                },
                None => None,
            };
            assert(borrows_params(params, trait_method_params(ctx@.module, trait_id, *method_idx)));
            lower_args(args, params, sink, ctx)?;
            sink.emit(Instr::I32Const(0));
            sink.emit(
                Instr::Load(
                    LoadOp::I32,
                    MemArg { offset, align: 2, memory_index: MEMORY_INDEX },
                ),
            );
            sink.emit(Instr::CallIndirect { table_index, type_index });
            Ok(())
        },
        _ => Err(not_yet(Missing::NotA(ExprKind::MethodCall))),
    }
}

} // verus!
