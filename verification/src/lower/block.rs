//! Lowering of blocks, and the assembly of function bodies.
//!
//! A function's locals are planned before its instructions are written:
//! parameters first, one local per binding that the body introduces, and a
//! run of scratch locals per value type.

use vstd::prelude::*;

use crate::instr::{Instr, ValType};
use crate::ir::{
    BinaryOperator, BindingId, DispatchKind, FieldIdx, IrBlockStatement, IrExpr, IrField,
    IrFunctionParam, IrMatchArm, IrModule, Literal, PrimitiveType, ResolvedType, StructId,
};
use crate::lower::aggregate::{assigned_field, self_field, store_primitive};
use crate::lower::call::find_arg_target;
use crate::lower::context::{
    Cx, InstructionSink, LowerContext, Out, Region, ScratchAllocator, SinkView,
};
use crate::lower::control::{find_wildcard, FOR_SCRATCH_LOCAL_COUNT};
use crate::lower::error::{not_yet, ExprKind, FieldOwner, LowerError, Missing};
use crate::lower::lower_expr;
use crate::lower::maps::{
    BindingMap, ClosureTypes, FunctionMap, MethodMap, VirtualCallTypes, VtableOffsets,
};
use crate::lower::optional::{coercion_scratch_counts, lower_coerced};
use crate::string_pool::TextOffsets;
use crate::types::body_value_type;

verus! {

// ── blocks and statements ────────────────────────────────────────────

/// The code of a block: its statements, then its result.
pub open spec fn block_code(e: IrExpr, cx: Cx, s: SinkView) -> Out
    decreases e, 2int,
{
    match e {
        IrExpr::Block { statements, result, .. } => {
            let o = statements_code(statements@, 0, cx, s);
            if o.err is Some {
                o
            } else {
                crate::lower::expr_code(*result, cx, o.sink)
            }
        },
        _ => s.fail(crate::lower::error::missing(Missing::NotA(ExprKind::Block))),
    }
}

/// The code of the statements, from statement `i` on.
pub open spec fn statements_code(
    statements: Seq<IrBlockStatement>,
    i: int,
    cx: Cx,
    s: SinkView,
) -> Out
    decreases statements, statements.len() - i,
{
    if i < 0 || i >= statements.len() {
        s.done()
    } else {
        let o = statement_code(statements[i], cx, s);
        if o.err is Some {
            o
        } else {
            statements_code(statements, i + 1, cx, o.sink)
        }
    }
}

/// The code of one statement. A value in statement position is dropped
/// unless its type is `Never`.
pub open spec fn statement_code(st: IrBlockStatement, cx: Cx, s: SinkView) -> Out
    decreases st, 1int,
{
    match st {
        IrBlockStatement::Let { binding_id, ty, value, .. } => match cx.local_of(binding_id) {
            Err(x) => s.fail(x),
            Ok(local) => {
                let o = match ty {
                    Some(target) => crate::lower::optional::coerced_code(value, target, cx, s),
                    None => crate::lower::expr_code(value, cx, s),
                };
                if o.err is Some {
                    o
                } else {
                    o.sink.emit(Instr::LocalSet(local)).done()
                }
            },
        },
        IrBlockStatement::Expr(e) => {
            let o = crate::lower::expr_code(e, cx, s);
            if o.err is Some || e.spec_ty() == ResolvedType::Primitive(PrimitiveType::Never) {
                o
            } else {
                o.sink.emit(Instr::Drop).done()
            }
        },
        IrBlockStatement::Assign { .. } => assign_code(st, cx, s),
    }
}

/// The code of an assignment to a field.
pub open spec fn assign_code(st: IrBlockStatement, cx: Cx, s: SinkView) -> Out
    decreases st, 0int,
{
    match st {
        IrBlockStatement::Assign { target, value } => match target {
            IrExpr::SelfFieldRef { field, field_idx, .. } => match crate::lower::aggregate::self_place(
                field_idx,
                field@,
                cx,
            ) {
                Err(x) => s.fail(x),
                Ok((place, p)) => {
                    let o = crate::lower::expr_code(value, cx, s.emit(Instr::LocalGet(0)));
                    if o.err is Some {
                        o
                    } else {
                        o.sink.emit(crate::lower::aggregate::primitive_store(p, place)).done()
                    }
                },
            },
            IrExpr::FieldAccess { object, field, field_idx, .. } => match crate::lower::aggregate::accessed_place(
                object.spec_ty(),
                field_idx,
                field@,
                FieldOwner::AssignTarget,
                cx,
            ) {
                Err(x) => s.fail(x),
                Ok((place, p)) => {
                    let o1 = crate::lower::expr_code(*object, cx, s);
                    if o1.err is Some {
                        o1
                    } else {
                        let o2 = crate::lower::expr_code(value, cx, o1.sink);
                        if o2.err is Some {
                            o2
                        } else {
                            o2.sink.emit(
                                crate::lower::aggregate::primitive_store(p, place),
                            ).done()
                        }
                    }
                },
            },
            _ => s.fail(crate::lower::error::missing(Missing::AssignTarget)),
        },
        _ => s.fail(crate::lower::error::missing(Missing::AssignTarget)),
    }
}

/// Lower a block. Statements run in order; the result's value stays on the
/// stack.
pub fn lower_block(expr: &IrExpr, sink: &mut InstructionSink, ctx: &LowerContext<'_>) -> (r: Result<
    (),
    LowerError,
>)
    ensures
        crate::lower::context::wrote(r, final(sink)@, block_code(*expr, ctx@, old(sink)@)),
    decreases *expr, 2int,
{
    match expr {
        IrExpr::Block { statements, result, .. } => {
            lower_statements(statements, sink, ctx)?;
            lower_expr(result, sink, ctx)
        },
        _ => Err(not_yet(Missing::NotA(ExprKind::Block))),
    }
}

fn lower_statements(
    statements: &Vec<IrBlockStatement>,
    sink: &mut InstructionSink,
    ctx: &LowerContext<'_>,
) -> (r: Result<(), LowerError>)
    ensures
        crate::lower::context::wrote(
            r,
            final(sink)@,
            statements_code(statements@, 0, ctx@, old(sink)@),
        ),
    decreases statements@, statements@.len(),
{
    let mut i: usize = 0;
    let ghost goal = statements_code(statements@, 0, ctx@, sink@);
    while i < statements.len()
        invariant
            goal == statements_code(statements@, 0, ctx@, old(sink)@),
            i <= statements@.len(),
            goal == statements_code(statements@, i as int, ctx@, sink@),
        decreases statements@.len() - i,
    {
        lower_block_statement(&statements[i], sink, ctx)?;
        i = i + 1;
    }
    Ok(())
}

fn lower_block_statement(
    stmt: &IrBlockStatement,
    sink: &mut InstructionSink,
    ctx: &LowerContext<'_>,
) -> (r: Result<(), LowerError>)
    ensures
        crate::lower::context::wrote(r, final(sink)@, statement_code(*stmt, ctx@, old(sink)@)),
    decreases *stmt, 1int,
{
    match stmt {
        IrBlockStatement::Let { binding_id, ty, value, .. } => {
            let local: u32 = ctx.binding_local(*binding_id)?;
            match ty {
                Some(target) => lower_coerced(value, target, sink, ctx)?,
                None => lower_expr(value, sink, ctx)?,
            }
            sink.emit(Instr::LocalSet(local));
            Ok(())
        },
        IrBlockStatement::Expr(e) => {
            let needs_drop = match e.ty() {
                ResolvedType::Primitive(PrimitiveType::Never) => false,
                _ => true,
            };
            lower_expr(e, sink, ctx)?;
            if needs_drop {
                sink.emit(Instr::Drop);
            }
            Ok(())
        },
        IrBlockStatement::Assign { .. } => lower_assign(stmt, sink, ctx),
    }
}

/// Lower an assignment. Only fields can be assigned.
fn lower_assign(stmt: &IrBlockStatement, sink: &mut InstructionSink, ctx: &LowerContext<'_>) -> (r:
    Result<(), LowerError>)
    ensures
        crate::lower::context::wrote(r, final(sink)@, assign_code(*stmt, ctx@, old(sink)@)),
    decreases *stmt, 0int,
{
    match stmt {
        IrBlockStatement::Assign { target, value } => match target {
            IrExpr::SelfFieldRef { field, field_idx, .. } => {
                let (place, p) = self_field(*field_idx, field, ctx)?;
                sink.emit(Instr::LocalGet(0));
                lower_expr(value, sink, ctx)?;
                store_primitive(p, place, sink);
                Ok(())
            },
            IrExpr::FieldAccess { object, field, field_idx, .. } => {
                let (place, p) = assigned_field(object, *field_idx, field, ctx)?;
                lower_expr(object, sink, ctx)?;
                lower_expr(value, sink, ctx)?;
                store_primitive(p, place, sink);
                Ok(())
            },
            _ => Err(not_yet(Missing::AssignTarget)),
        },
        _ => Err(not_yet(Missing::AssignTarget)),
    }
}

// ── locals of the bindings ───────────────────────────────────────────

/// A binding and the type of its local.
pub type Local = (BindingId, ValType);

/// The type of a binding's local.
pub open spec fn binding_type(name: String, ty: ResolvedType) -> Result<ValType, LowerError> {
    match crate::types::body_val(ty) {
        Err(x) => Err(LowerError::TypeMap(x)),
        Ok(None) => Err(LowerError::ZeroSizedLetBinding { name, ty }),
        Ok(Some(vt)) => Ok(vt),
    }
}

/// The bindings of an expression in order of declaration, appended to `out`.
pub open spec fn expr_locals(e: IrExpr, out: Seq<Local>) -> Result<Seq<Local>, LowerError>
    decreases e, 1int,
{
    match e {
        IrExpr::Block { statements, result, .. } => match statements_locals(statements@, 0, out) {
            Err(x) => Err(x),
            Ok(o) => expr_locals(*result, o),
        },
        IrExpr::BinaryOp { left, right, .. } => match expr_locals(*left, out) {
            Err(x) => Err(x),
            Ok(o) => expr_locals(*right, o),
        },
        IrExpr::UnaryOp { operand, .. } => expr_locals(*operand, out),
        IrExpr::If { condition, then_branch, else_branch, .. } => match expr_locals(
            *condition,
            out,
        ) {
            Err(x) => Err(x),
            Ok(o) => match expr_locals(*then_branch, o) {
                Err(x) => Err(x),
                Ok(o2) => match else_branch {
                    Some(other) => expr_locals(*other, o2),
                    None => Ok(o2),
                },
            },
        },
        IrExpr::FunctionCall { args, .. } => args_locals(args@, 0, out),
        IrExpr::CallClosure { closure, args, .. } => match expr_locals(*closure, out) {
            Err(x) => Err(x),
            Ok(o) => args_locals(args@, 0, o),
        },
        IrExpr::MethodCall { receiver, args, .. } => match expr_locals(*receiver, out) {
            Err(x) => Err(x),
            Ok(o) => args_locals(args@, 0, o),
        },
        IrExpr::FieldAccess { object, .. } => expr_locals(*object, out),
        IrExpr::DictAccess { dict, key, .. } => match expr_locals(*dict, out) {
            Err(x) => Err(x),
            Ok(o) => expr_locals(*key, o),
        },
        IrExpr::ClosureRef { env_struct, .. } => expr_locals(*env_struct, out),
        IrExpr::StructInst { fields, .. } => inits_locals(fields@, 0, out),
        IrExpr::EnumInst { fields, .. } => inits_locals(fields@, 0, out),
        IrExpr::Tuple { fields, .. } => tuple_locals(fields@, 0, out),
        IrExpr::Array { elements, .. } => elements_locals(elements@, 0, out),
        IrExpr::Match { scrutinee, arms, .. } => match expr_locals(*scrutinee, out) {
            Err(x) => Err(x),
            Ok(o) => arms_locals(arms@, 0, o),
        },
        IrExpr::For { var, var_ty, var_binding_id, collection, body, .. } => match binding_type(
            var,
            var_ty,
        ) {
            Err(x) => Err(x),
            Ok(vt) => match expr_locals(*collection, out.push((var_binding_id, vt))) {
                Err(x) => Err(x),
                Ok(o) => expr_locals(*body, o),
            },
        },
        IrExpr::Literal { .. } => Ok(out),
        IrExpr::Reference { .. } => Ok(out),
        IrExpr::LetRef { .. } => Ok(out),
        IrExpr::SelfFieldRef { .. } => Ok(out),
        IrExpr::Closure { .. } => Ok(out),
        IrExpr::DictLiteral { .. } => Ok(out),
    }
}

/// The bindings of the statements, from statement `i` on.
pub open spec fn statements_locals(
    statements: Seq<IrBlockStatement>,
    i: int,
    out: Seq<Local>,
) -> Result<Seq<Local>, LowerError>
    decreases statements, statements.len() - i,
{
    if i < 0 || i >= statements.len() {
        Ok(out)
    } else {
        match statement_locals(statements[i], out) {
            Err(x) => Err(x),
            Ok(o) => statements_locals(statements, i + 1, o),
        }
    }
}

/// The bindings of one statement: its own comes before those of its value.
pub open spec fn statement_locals(st: IrBlockStatement, out: Seq<Local>) -> Result<
    Seq<Local>,
    LowerError,
>
    decreases st, 0int,
{
    match st {
        IrBlockStatement::Let { binding_id, name, ty, value } => match binding_type(
            name,
            match ty {
                Some(t) => t,
                None => value.spec_ty(),
            },
        ) {
            Err(x) => Err(x),
            Ok(vt) => expr_locals(value, out.push((binding_id, vt))),
        },
        IrBlockStatement::Assign { target, value } => match expr_locals(target, out) {
            Err(x) => Err(x),
            Ok(o) => expr_locals(value, o),
        },
        IrBlockStatement::Expr(e) => expr_locals(e, out),
    }
}

/// The bindings of call arguments, from argument `i` on.
pub open spec fn args_locals(
    args: Seq<(Option<String>, IrExpr)>,
    i: int,
    out: Seq<Local>,
) -> Result<Seq<Local>, LowerError>
    decreases args, args.len() - i,
{
    if i < 0 || i >= args.len() {
        Ok(out)
    } else {
        match expr_locals(args[i].1, out) {
            Err(x) => Err(x),
            Ok(o) => args_locals(args, i + 1, o),
        }
    }
}

/// The bindings of field initialisers, from field `i` on.
pub open spec fn inits_locals(
    inits: Seq<(String, FieldIdx, IrExpr)>,
    i: int,
    out: Seq<Local>,
) -> Result<Seq<Local>, LowerError>
    decreases inits, inits.len() - i,
{
    if i < 0 || i >= inits.len() {
        Ok(out)
    } else {
        match expr_locals(inits[i].2, out) {
            Err(x) => Err(x),
            Ok(o) => inits_locals(inits, i + 1, o),
        }
    }
}

/// The bindings of tuple fields, from field `i` on.
pub open spec fn tuple_locals(fields: Seq<(String, IrExpr)>, i: int, out: Seq<Local>) -> Result<
    Seq<Local>,
    LowerError,
>
    decreases fields, fields.len() - i,
{
    if i < 0 || i >= fields.len() {
        Ok(out)
    } else {
        match expr_locals(fields[i].1, out) {
            Err(x) => Err(x),
            Ok(o) => tuple_locals(fields, i + 1, o),
        }
    }
}

/// The bindings of array elements, from element `i` on.
pub open spec fn elements_locals(elements: Seq<IrExpr>, i: int, out: Seq<Local>) -> Result<
    Seq<Local>,
    LowerError,
>
    decreases elements, elements.len() - i,
{
    if i < 0 || i >= elements.len() {
        Ok(out)
    } else {
        match expr_locals(elements[i], out) {
            Err(x) => Err(x),
            Ok(o) => elements_locals(elements, i + 1, o),
        }
    }
}

/// The payload names of an arm, from name `i` on.
pub open spec fn names_locals(
    names: Seq<(String, BindingId, ResolvedType)>,
    i: int,
    out: Seq<Local>,
) -> Result<Seq<Local>, LowerError>
    decreases names.len() - i,
{
    if i < 0 || i >= names.len() {
        Ok(out)
    } else {
        match binding_type(names[i].0, names[i].2) {
            Err(x) => Err(x),
            Ok(vt) => names_locals(names, i + 1, out.push((names[i].1, vt))),
        }
    }
}

/// The bindings of match arms, from arm `i` on: payload names, then those
/// of the body.
pub open spec fn arms_locals(arms: Seq<IrMatchArm>, i: int, out: Seq<Local>) -> Result<
    Seq<Local>,
    LowerError,
>
    decreases arms, arms.len() - i,
{
    if i < 0 || i >= arms.len() {
        Ok(out)
    } else {
        match names_locals(arms[i].bindings@, 0, out) {
            Err(x) => Err(x),
            Ok(o) => match expr_locals(arms[i].body, o) {
                Err(x) => Err(x),
                Ok(o2) => arms_locals(arms, i + 1, o2),
            },
        }
    }
}

/// A walk's result and the list after it are what `s` says.
pub open spec fn collected(
    r: Result<(), LowerError>,
    after: Seq<Local>,
    s: Result<Seq<Local>, LowerError>,
) -> bool {
    match r {
        Ok(_) => s == Ok::<Seq<Local>, LowerError>(after),
        Err(x) => s == Err::<Seq<Local>, LowerError>(x),
    }
}

/// The type of a binding's local.
fn local_type(name: &String, ty: &ResolvedType) -> (r: Result<ValType, LowerError>)
    ensures
        r == binding_type(*name, *ty),
{
    match body_value_type(ty) {
        Err(x) => Err(LowerError::TypeMap(x)),
        Ok(None) => Err(
            LowerError::ZeroSizedLetBinding { name: name.clone(), ty: ty.clone() },
        ),
        Ok(Some(vt)) => Ok(vt),
    }
}

/// Collect the bindings that an expression introduces, in order of
/// declaration.
fn walk_for_locals(expr: &IrExpr, out: &mut Vec<Local>) -> (r: Result<(), LowerError>)
    ensures
        collected(r, final(out)@, expr_locals(*expr, old(out)@)),
    decreases *expr, 1int,
{
    match expr {
        IrExpr::Block { statements, result, .. } => {
            walk_block_statements(statements, out)?;
            walk_for_locals(result, out)
        },
        IrExpr::BinaryOp { left, right, .. } => {
            walk_for_locals(left, out)?;
            walk_for_locals(right, out)
        },
        IrExpr::UnaryOp { operand, .. } => walk_for_locals(operand, out),
        IrExpr::If { condition, then_branch, else_branch, .. } => {
            walk_for_locals(condition, out)?;
            walk_for_locals(then_branch, out)?;
            match else_branch {
                Some(other) => walk_for_locals(other, out),
                None => Ok(()),
            }
        },
        IrExpr::FunctionCall { args, .. } => walk_args(args, out),
        IrExpr::CallClosure { closure, args, .. } => {
            walk_for_locals(closure, out)?;
            walk_args(args, out)
        },
        IrExpr::MethodCall { receiver, args, .. } => {
            walk_for_locals(receiver, out)?;
            walk_args(args, out)
        },
        IrExpr::FieldAccess { object, .. } => walk_for_locals(object, out),
        IrExpr::DictAccess { dict, key, .. } => {
            walk_for_locals(dict, out)?;
            walk_for_locals(key, out)
        },
        IrExpr::ClosureRef { env_struct, .. } => walk_for_locals(env_struct, out),
        IrExpr::StructInst { fields, .. } => walk_inits(fields, out),
        IrExpr::EnumInst { fields, .. } => walk_inits(fields, out),
        IrExpr::Tuple { fields, .. } => walk_tuple(fields, out),
        IrExpr::Array { elements, .. } => walk_elements(elements, out),
        IrExpr::Match { scrutinee, arms, .. } => {
            walk_for_locals(scrutinee, out)?;
            walk_arms(arms, out)
        },
        IrExpr::For { var, var_ty, var_binding_id, collection, body, .. } => {
            let vt: ValType = local_type(var, var_ty)?;
            out.push((*var_binding_id, vt));
            walk_for_locals(collection, out)?;
            walk_for_locals(body, out)
        },
        IrExpr::Literal { .. }
        | IrExpr::Reference { .. }
        | IrExpr::LetRef { .. }
        | IrExpr::SelfFieldRef { .. }
        | IrExpr::Closure { .. }
        | IrExpr::DictLiteral { .. } => Ok(()),
    }
}

fn walk_block_statements(statements: &Vec<IrBlockStatement>, out: &mut Vec<Local>) -> (r: Result<
    (),
    LowerError,
>)
    ensures
        collected(r, final(out)@, statements_locals(statements@, 0, old(out)@)),
    decreases statements@, statements@.len(),
{
    let mut i: usize = 0;
    let ghost goal = statements_locals(statements@, 0, out@);
    while i < statements.len()
        invariant
            goal == statements_locals(statements@, 0, old(out)@),
            i <= statements@.len(),
            goal == statements_locals(statements@, i as int, out@),
        decreases statements@.len() - i,
    {
        walk_statement(&statements[i], out)?;
        i = i + 1;
    }
    Ok(())
}

fn walk_statement(stmt: &IrBlockStatement, out: &mut Vec<Local>) -> (r: Result<(), LowerError>)
    ensures
        collected(r, final(out)@, statement_locals(*stmt, old(out)@)),
    decreases *stmt, 0int,
{
    match stmt {
        IrBlockStatement::Let { binding_id, name, ty, value } => {
            let resolved: &ResolvedType = match ty {
                Some(t) => t,
                None => value.ty(),
            };
            let vt: ValType = local_type(name, resolved)?;
            out.push((*binding_id, vt));
            walk_for_locals(value, out)
        },
        IrBlockStatement::Assign { target, value } => {
            walk_for_locals(target, out)?;
            walk_for_locals(value, out)
        },
        IrBlockStatement::Expr(e) => walk_for_locals(e, out),
    }
}

fn walk_args(args: &Vec<(Option<String>, IrExpr)>, out: &mut Vec<Local>) -> (r: Result<
    (),
    LowerError,
>)
    ensures
        collected(r, final(out)@, args_locals(args@, 0, old(out)@)),
    decreases args@, args@.len(),
{
    let mut i: usize = 0;
    let ghost goal = args_locals(args@, 0, out@);
    while i < args.len()
        invariant
            goal == args_locals(args@, 0, old(out)@),
            i <= args@.len(),
            goal == args_locals(args@, i as int, out@),
        decreases args@.len() - i,
    {
        walk_for_locals(&args[i].1, out)?;
        i = i + 1;
    }
    Ok(())
}

fn walk_inits(inits: &Vec<(String, FieldIdx, IrExpr)>, out: &mut Vec<Local>) -> (r: Result<
    (),
    LowerError,
>)
    ensures
        collected(r, final(out)@, inits_locals(inits@, 0, old(out)@)),
    decreases inits@, inits@.len(),
{
    let mut i: usize = 0;
    let ghost goal = inits_locals(inits@, 0, out@);
    while i < inits.len()
        invariant
            goal == inits_locals(inits@, 0, old(out)@),
            i <= inits@.len(),
            goal == inits_locals(inits@, i as int, out@),
        decreases inits@.len() - i,
    {
        walk_for_locals(&inits[i].2, out)?;
        i = i + 1;
    }
    Ok(())
}

fn walk_tuple(fields: &Vec<(String, IrExpr)>, out: &mut Vec<Local>) -> (r: Result<(), LowerError>)
    ensures
        collected(r, final(out)@, tuple_locals(fields@, 0, old(out)@)),
    decreases fields@, fields@.len(),
{
    let mut i: usize = 0;
    let ghost goal = tuple_locals(fields@, 0, out@);
    while i < fields.len()
        invariant
            goal == tuple_locals(fields@, 0, old(out)@),
            i <= fields@.len(),
            goal == tuple_locals(fields@, i as int, out@),
        decreases fields@.len() - i,
    {
        walk_for_locals(&fields[i].1, out)?;
        i = i + 1;
    }
    Ok(())
}

fn walk_elements(elements: &Vec<IrExpr>, out: &mut Vec<Local>) -> (r: Result<(), LowerError>)
    ensures
        collected(r, final(out)@, elements_locals(elements@, 0, old(out)@)),
    decreases elements@, elements@.len(),
{
    let mut i: usize = 0;
    let ghost goal = elements_locals(elements@, 0, out@);
    while i < elements.len()
        invariant
            goal == elements_locals(elements@, 0, old(out)@),
            i <= elements@.len(),
            goal == elements_locals(elements@, i as int, out@),
        decreases elements@.len() - i,
    {
        walk_for_locals(&elements[i], out)?;
        i = i + 1;
    }
    Ok(())
}

fn walk_names(names: &Vec<(String, BindingId, ResolvedType)>, out: &mut Vec<Local>) -> (r: Result<
    (),
    LowerError,
>)
    ensures
        collected(r, final(out)@, names_locals(names@, 0, old(out)@)),
{
    let mut i: usize = 0;
    let ghost goal = names_locals(names@, 0, out@);
    while i < names.len()
        invariant
            goal == names_locals(names@, 0, old(out)@),
            i <= names@.len(),
            goal == names_locals(names@, i as int, out@),
        decreases names@.len() - i,
    {
        let vt: ValType = local_type(&names[i].0, &names[i].2)?;
        out.push((names[i].1, vt));
        i = i + 1;
    }
    Ok(())
}

fn walk_arms(arms: &Vec<IrMatchArm>, out: &mut Vec<Local>) -> (r: Result<(), LowerError>)
    ensures
        collected(r, final(out)@, arms_locals(arms@, 0, old(out)@)),
    decreases arms@, arms@.len(),
{
    let mut i: usize = 0;
    let ghost goal = arms_locals(arms@, 0, out@);
    while i < arms.len()
        invariant
            goal == arms_locals(arms@, 0, old(out)@),
            i <= arms@.len(),
            goal == arms_locals(arms@, i as int, out@),
        decreases arms@.len() - i,
    {
        walk_names(&arms[i].bindings, out)?;
        walk_for_locals(&arms[i].body, out)?;
        i = i + 1;
    }
    Ok(())
}

// ── scratch locals ───────────────────────────────────────────────────

/// Scratch locals that a body needs, by value type.
#[derive(Clone, Copy, Debug, PartialEq, Eq, Structural)]
pub struct ScratchCounts {
    pub i32_slots: u32,
    pub i64_slots: u32,
    pub f32_slots: u32,
    pub f64_slots: u32,
}

impl ScratchCounts {
    /// The slots of a value type.
    pub open spec fn of(self, ty: ValType) -> u32 {
        match ty {
            ValType::I32 => self.i32_slots,
            ValType::I64 => self.i64_slots,
            ValType::F32 => self.f32_slots,
            ValType::F64 => self.f64_slots,
        }
    }

    /// The slots of all value types together.
    pub open spec fn total(self) -> int {
        self.i32_slots + self.i64_slots + self.f32_slots + self.f64_slots
    }
}

/// One more slot of type `ty`.
pub open spec fn bumped(c: ScratchCounts, ty: ValType) -> Result<ScratchCounts, LowerError> {
    if c.of(ty) == u32::MAX {
        Err(crate::lower::error::missing(Missing::TooManyScratch))
    } else {
        Ok(
            match ty {
                ValType::I32 => ScratchCounts { i32_slots: (c.i32_slots + 1) as u32, ..c },
                ValType::I64 => ScratchCounts { i64_slots: (c.i64_slots + 1) as u32, ..c },
                ValType::F32 => ScratchCounts { f32_slots: (c.f32_slots + 1) as u32, ..c },
                ValType::F64 => ScratchCounts { f64_slots: (c.f64_slots + 1) as u32, ..c },
            },
        )
    }
}

/// `n` more slots of type `ty`.
pub open spec fn bumped_by(c: ScratchCounts, ty: ValType, n: nat) -> Result<
    ScratchCounts,
    LowerError,
>
    decreases n,
{
    if n == 0 {
        Ok(c)
    } else {
        match bumped_by(c, ty, (n - 1) as nat) {
            Err(x) => Err(x),
            Ok(c1) => bumped(c1, ty),
        }
    }
}

/// One more slot of type `ty`.
pub fn bump_count(counts: ScratchCounts, ty: ValType) -> (r: Result<ScratchCounts, LowerError>)
    ensures
        r == bumped(counts, ty),
{
    let mut c: ScratchCounts = counts;
    let slots: u32 = match ty {
        ValType::I32 => c.i32_slots,
        ValType::I64 => c.i64_slots,
        ValType::F32 => c.f32_slots,
        ValType::F64 => c.f64_slots,
    };
    if slots == 0xffff_ffff {
        return Err(not_yet(Missing::TooManyScratch));
    }
    match ty {
        ValType::I32 => {
            c.i32_slots = slots + 1;
        },
        ValType::I64 => {
            c.i64_slots = slots + 1;
        },
        ValType::F32 => {
            c.f32_slots = slots + 1;
        },
        ValType::F64 => {
            c.f64_slots = slots + 1;
        },
    }
    Ok(c)
}

fn bump_count_by(counts: ScratchCounts, ty: ValType, n: u32) -> (r: Result<
    ScratchCounts,
    LowerError,
>)
    ensures
        r == bumped_by(counts, ty, n as nat),
    decreases n,
{
    if n == 0 {
        Ok(counts)
    } else {
        let c = bump_count_by(counts, ty, n - 1)?;
        bump_count(c, ty)
    }
}

/// The declared type of the field called `name`.
pub open spec fn field_type(fields: Seq<IrField>, name: Seq<char>) -> Option<ResolvedType> {
    match crate::lower::aggregate::field_position(fields, name, 0) {
        Some(i) => Some(fields[i].ty),
        None => None,
    }
}

/// The declared fields of a struct literal.
pub open spec fn struct_decl(id: Option<StructId>, m: IrModule) -> Option<Seq<IrField>> {
    match id {
        None => None,
        Some(id) => match m.spec_struct(id) {
            None => None,
            Some(d) => Some(d.fields@),
        },
    }
}

/// The declared fields of an enum literal's variant.
pub open spec fn variant_decl(
    id: Option<crate::ir::EnumId>,
    idx: crate::ir::VariantIdx,
    m: IrModule,
) -> Option<Seq<IrField>> {
    match id {
        None => None,
        Some(id) => match m.spec_enum(id) {
            None => None,
            Some(d) => if idx.0 < d.variants@.len() {
                Some(d.variants@[idx.0 as int].fields@)
            } else {
                None
            },
        },
    }
}

/// The parameters whose types a method call's arguments flow into.
pub open spec fn counted_params(dispatch: DispatchKind, idx: crate::ir::MethodIdx, m: IrModule) -> Option<
    Seq<IrFunctionParam>,
> {
    match dispatch {
        DispatchKind::Static { impl_id } => crate::lower::call::method_params(
            Some(m),
            impl_id,
            idx,
        ),
        DispatchKind::Virtual { trait_id, .. } => crate::lower::call::trait_method_params(
            Some(m),
            trait_id,
            idx,
        ),
    }
}

/// The scratch slots after reserving those of an expression.
pub open spec fn expr_counts(e: IrExpr, m: IrModule, c: ScratchCounts) -> Result<
    ScratchCounts,
    LowerError,
>
    decreases e, 1int,
{
    match e {
        IrExpr::StructInst { struct_id, fields, .. } => match bumped(c, ValType::I32) {
            Err(x) => Err(x),
            Ok(c1) => inits_counts(fields@, 0, struct_decl(struct_id, m), m, c1),
        },
        IrExpr::EnumInst { enum_id, variant_idx, fields, .. } => match bumped(c, ValType::I32) {
            Err(x) => Err(x),
            Ok(c1) => inits_counts(fields@, 0, variant_decl(enum_id, variant_idx, m), m, c1),
        },
        IrExpr::Tuple { fields, .. } => match bumped(c, ValType::I32) {
            Err(x) => Err(x),
            Ok(c1) => tuple_counts(fields@, 0, m, c1),
        },
        IrExpr::Block { statements, result, .. } => match statements_counts(
            statements@,
            0,
            m,
            c,
        ) {
            Err(x) => Err(x),
            Ok(c1) => expr_counts(*result, m, c1),
        },
        IrExpr::BinaryOp { left, op, right, .. } => match bumped_by(
            c,
            ValType::I32,
            if op == BinaryOperator::Range {
                1
            } else {
                0
            },
        ) {
            Err(x) => Err(x),
            Ok(c1) => match expr_counts(*left, m, c1) {
                Err(x) => Err(x),
                Ok(c2) => expr_counts(*right, m, c2),
            },
        },
        IrExpr::UnaryOp { operand, .. } => expr_counts(*operand, m, c),
        IrExpr::If { condition, then_branch, else_branch, ty } => match expr_counts(
            *condition,
            m,
            c,
        ) {
            Err(x) => Err(x),
            Ok(c1) => match coerced_counts(*then_branch, ty, m, c1) {
                Err(x) => Err(x),
                Ok(c2) => match else_branch {
                    Some(other) => coerced_counts(*other, ty, m, c2),
                    None => Ok(c2),
                },
            },
        },
        IrExpr::FunctionCall { function_id, args, .. } => args_counts(
            args@,
            0,
            match function_id {
                Some(id) => crate::lower::call::function_params(Some(m), id),
                None => None,
            },
            m,
            c,
        ),
        IrExpr::CallClosure { closure, args, .. } => match bumped(c, ValType::I32) {
            Err(x) => Err(x),
            Ok(c1) => match expr_counts(*closure, m, c1) {
                Err(x) => Err(x),
                Ok(c2) => args_counts(args@, 0, None, m, c2),
            },
        },
        IrExpr::MethodCall { receiver, method_idx, args, dispatch, .. } => match expr_counts(
            *receiver,
            m,
            c,
        ) {
            Err(x) => Err(x),
            Ok(c1) => args_counts(args@, 0, counted_params(dispatch, method_idx, m), m, c1),
        },
        IrExpr::FieldAccess { object, .. } => expr_counts(*object, m, c),
        IrExpr::DictAccess { dict, key, .. } => match expr_counts(*dict, m, c) {
            Err(x) => Err(x),
            Ok(c1) => expr_counts(*key, m, c1),
        },
        IrExpr::Match { scrutinee, arms, ty } => match bumped(c, ValType::I32) {
            Err(x) => Err(x),
            Ok(c1) => match expr_counts(*scrutinee, m, c1) {
                Err(x) => Err(x),
                Ok(c2) => match arms_counts(arms@, 0, ty, m, c2) {
                    Err(x) => Err(x),
                    Ok(c3) => {
                        proof {
                            crate::lower::control::lemma_last_wildcard_in_range(
                                arms@,
                                arms@.len(),
                            );
                        }
                        match crate::lower::control::last_wildcard(arms@, arms@.len()) {
                            None => Ok(c3),
                            Some(w) => coerced_counts(arms@[w].body, ty, m, c3),
                        }
                    },
                },
            },
        },
        IrExpr::ClosureRef { env_struct, .. } => match bumped(c, ValType::I32) {
            Err(x) => Err(x),
            Ok(c1) => expr_counts(*env_struct, m, c1),
        },
        IrExpr::Array { elements, .. } => match bumped_by(c, ValType::I32, 2) {
            Err(x) => Err(x),
            Ok(c1) => elements_counts(elements@, 0, m, c1),
        },
        IrExpr::For { collection, body, .. } => match bumped_by(
            c,
            ValType::I32,
            FOR_SCRATCH_LOCAL_COUNT as nat,
        ) {
            Err(x) => Err(x),
            Ok(c1) => match expr_counts(*collection, m, c1) {
                Err(x) => Err(x),
                Ok(c2) => expr_counts(*body, m, c2),
            },
        },
        IrExpr::Literal { value, .. } => bumped_by(
            c,
            ValType::I32,
            if value is Nil {
                1
            } else {
                0
            },
        ),
        IrExpr::Reference { .. } => Ok(c),
        IrExpr::LetRef { .. } => Ok(c),
        IrExpr::SelfFieldRef { .. } => Ok(c),
        IrExpr::Closure { .. } => Ok(c),
        IrExpr::DictLiteral { .. } => Ok(c),
    }
}

/// The scratch slots after reserving those of a value that flows into a
/// slot of type `target`.
pub open spec fn coerced_counts(
    e: IrExpr,
    target: ResolvedType,
    m: IrModule,
    c: ScratchCounts,
) -> Result<ScratchCounts, LowerError>
    decreases e, 2int,
{
    match crate::lower::optional::coercion_counts(target, e.spec_ty(), c) {
        Err(x) => Err(x),
        Ok(c1) => expr_counts(e, m, c1),
    }
}

/// The scratch slots after the field initialisers, from field `i` on.
pub open spec fn inits_counts(
    inits: Seq<(String, FieldIdx, IrExpr)>,
    i: int,
    decl: Option<Seq<IrField>>,
    m: IrModule,
    c: ScratchCounts,
) -> Result<ScratchCounts, LowerError>
    decreases inits, inits.len() - i,
{
    if i < 0 || i >= inits.len() {
        Ok(c)
    } else {
        let target = match decl {
            Some(fields) => field_type(fields, inits[i].0@),
            None => None,
        };
        match (match target {
            Some(t) => coerced_counts(inits[i].2, t, m, c),
            None => expr_counts(inits[i].2, m, c),
        }) {
            Err(x) => Err(x),
            Ok(c1) => inits_counts(inits, i + 1, decl, m, c1),
        }
    }
}

/// The scratch slots after the tuple fields, from field `i` on.
pub open spec fn tuple_counts(fields: Seq<(String, IrExpr)>, i: int, m: IrModule, c: ScratchCounts) -> Result<
    ScratchCounts,
    LowerError,
>
    decreases fields, fields.len() - i,
{
    if i < 0 || i >= fields.len() {
        Ok(c)
    } else {
        match expr_counts(fields[i].1, m, c) {
            Err(x) => Err(x),
            Ok(c1) => tuple_counts(fields, i + 1, m, c1),
        }
    }
}

/// The scratch slots after the array elements, from element `i` on.
pub open spec fn elements_counts(elements: Seq<IrExpr>, i: int, m: IrModule, c: ScratchCounts) -> Result<
    ScratchCounts,
    LowerError,
>
    decreases elements, elements.len() - i,
{
    if i < 0 || i >= elements.len() {
        Ok(c)
    } else {
        match expr_counts(elements[i], m, c) {
            Err(x) => Err(x),
            Ok(c1) => elements_counts(elements, i + 1, m, c1),
        }
    }
}

/// The scratch slots after the call arguments, from argument `i` on.
pub open spec fn args_counts(
    args: Seq<(Option<String>, IrExpr)>,
    i: int,
    params: Option<Seq<IrFunctionParam>>,
    m: IrModule,
    c: ScratchCounts,
) -> Result<ScratchCounts, LowerError>
    decreases args, args.len() - i,
{
    if i < 0 || i >= args.len() {
        Ok(c)
    } else {
        match (match crate::lower::call::arg_target(params, args[i].0) {
            Some(t) => coerced_counts(args[i].1, t, m, c),
            None => expr_counts(args[i].1, m, c),
        }) {
            Err(x) => Err(x),
            Ok(c1) => args_counts(args, i + 1, params, m, c1),
        }
    }
}

/// The scratch slots after the match arms, from arm `i` on.
pub open spec fn arms_counts(
    arms: Seq<IrMatchArm>,
    i: int,
    ty: ResolvedType,
    m: IrModule,
    c: ScratchCounts,
) -> Result<ScratchCounts, LowerError>
    decreases arms, arms.len() - i,
{
    if i < 0 || i >= arms.len() {
        Ok(c)
    } else {
        match coerced_counts(arms[i].body, ty, m, c) {
            Err(x) => Err(x),
            Ok(c1) => arms_counts(arms, i + 1, ty, m, c1),
        }
    }
}

/// The scratch slots after the statements, from statement `i` on.
pub open spec fn statements_counts(
    statements: Seq<IrBlockStatement>,
    i: int,
    m: IrModule,
    c: ScratchCounts,
) -> Result<ScratchCounts, LowerError>
    decreases statements, statements.len() - i,
{
    if i < 0 || i >= statements.len() {
        Ok(c)
    } else {
        match statement_counts(statements[i], m, c) {
            Err(x) => Err(x),
            Ok(c1) => statements_counts(statements, i + 1, m, c1),
        }
    }
}

/// The scratch slots after one statement.
pub open spec fn statement_counts(st: IrBlockStatement, m: IrModule, c: ScratchCounts) -> Result<
    ScratchCounts,
    LowerError,
>
    decreases st, 0int,
{
    match st {
        IrBlockStatement::Let { ty, value, .. } => match ty {
            Some(t) => coerced_counts(value, t, m, c),
            None => expr_counts(value, m, c),
        },
        IrBlockStatement::Assign { target, value } => match expr_counts(target, m, c) {
            Err(x) => Err(x),
            Ok(c1) => expr_counts(value, m, c1),
        },
        IrBlockStatement::Expr(e) => expr_counts(e, m, c),
    }
}

/// The scratch slots of a function body, whose value flows into the return
/// type.
pub open spec fn body_counts(e: IrExpr, return_ty: Option<ResolvedType>, m: IrModule) -> Result<
    ScratchCounts,
    LowerError,
> {
    let none = ScratchCounts { i32_slots: 0, i64_slots: 0, f32_slots: 0, f64_slots: 0 };
    match return_ty {
        Some(t) => coerced_counts(e, t, m, none),
        None => expr_counts(e, m, none),
    }
}

/// Count the scratch locals that a function body needs.
pub fn count_scratch_locals(
    expr: &IrExpr,
    return_ty: Option<&ResolvedType>,
    module: &IrModule,
) -> (r: Result<ScratchCounts, LowerError>)
    ensures
        r == body_counts(
            *expr,
            match return_ty {
                Some(t) => Some(*t),
                None => None,
            },
            *module,
        ),
{
    let none = ScratchCounts { i32_slots: 0, i64_slots: 0, f32_slots: 0, f64_slots: 0 };
    match return_ty {
        Some(t) => walk_count_coerced(expr, t, module, none),
        None => walk_count(expr, module, none),
    }
}

fn walk_count_coerced(
    expr: &IrExpr,
    target: &ResolvedType,
    module: &IrModule,
    counts: ScratchCounts,
) -> (r: Result<ScratchCounts, LowerError>)
    ensures
        r == coerced_counts(*expr, *target, *module, counts),
    decreases *expr, 2int,
{
    let c = coercion_scratch_counts(target, expr.ty(), counts)?;
    walk_count(expr, module, c)
}

fn walk_count(expr: &IrExpr, module: &IrModule, counts: ScratchCounts) -> (r: Result<
    ScratchCounts,
    LowerError,
>)
    ensures
        r == expr_counts(*expr, *module, counts),
    decreases *expr, 1int,
{
    match expr {
        IrExpr::StructInst { struct_id, fields, .. } => {
            let c = bump_count(counts, ValType::I32)?;
            let decl: Option<&Vec<IrField>> = match struct_id {
                Some(id) => match module.get_struct(*id) {
                    Some(d) => Some(&d.fields),
                    None => None,
                },
                None => None,
            };
            assert(borrows_fields(decl, struct_decl(*struct_id, *module)));
            count_inits(fields, decl, module, c)
        },
        IrExpr::EnumInst { enum_id, variant_idx, fields, .. } => {
            let c = bump_count(counts, ValType::I32)?;
            let decl: Option<&Vec<IrField>> = match enum_id {
                Some(id) => match module.get_enum(*id) {
                    Some(d) => if (variant_idx.0 as usize) < d.variants.len() {
                        Some(&d.variants[variant_idx.0 as usize].fields)
                    } else {
                        None
                    },
                    None => None,
                },
                None => None,
            };
            assert(borrows_fields(decl, variant_decl(*enum_id, *variant_idx, *module)));
            count_inits(fields, decl, module, c)
        },
        IrExpr::Tuple { fields, .. } => {
            let c = bump_count(counts, ValType::I32)?;
            count_tuple(fields, module, c)
        },
        IrExpr::Block { statements, result, .. } => {
            let c = count_statements(statements, module, counts)?;
            walk_count(result, module, c)
        },
        IrExpr::BinaryOp { left, op, right, .. } => {
            let n: u32 = if *op == BinaryOperator::Range {
                1
            } else {
                0
            };
            let c = bump_count_by(counts, ValType::I32, n)?;
            let c = walk_count(left, module, c)?;
            walk_count(right, module, c)
        },
        IrExpr::UnaryOp { operand, .. } => walk_count(operand, module, counts),
        IrExpr::If { condition, then_branch, else_branch, ty } => {
            let c = walk_count(condition, module, counts)?;
            let c = walk_count_coerced(then_branch, ty, module, c)?;
            match else_branch {
                Some(other) => walk_count_coerced(other, ty, module, c),
                None => Ok(c),
            }
        },
        IrExpr::FunctionCall { function_id, args, .. } => {
            let params: Option<&Vec<IrFunctionParam>> = match function_id {
                Some(id) => match module.get_function(*id) {
                    Some(f) => Some(&f.params),
                    None => None,
                },
                None => None,
            };
            assert(crate::lower::call::borrows_params(
                params,
                match *function_id {
                    Some(id) => crate::lower::call::function_params(Some(*module), id),
                    None => None,
                },
            ));
            count_args(args, params, module, counts)
        },
        IrExpr::CallClosure { closure, args, .. } => {
            let c = bump_count(counts, ValType::I32)?;
            let c = walk_count(closure, module, c)?;
            assert(crate::lower::call::borrows_params(None, None));
            count_args(args, None, module, c)
        },
        IrExpr::MethodCall { receiver, method_idx, args, dispatch, .. } => {
            let c = walk_count(receiver, module, counts)?;
            let params: Option<&Vec<IrFunctionParam>> = match dispatch {
                DispatchKind::Static { impl_id } => match module.get_method(*impl_id, *method_idx) {
                    Some(f) => Some(&f.params),
                    None => None,
                },
                DispatchKind::Virtual { trait_id, .. } => match module.get_trait_method(
                    *trait_id,
                    *method_idx,
                ) {
                    Some(f) => Some(&f.params),
                    None => None,
                },
            };
            assert(crate::lower::call::borrows_params(
                params,
                counted_params(*dispatch, *method_idx, *module),
            ));
            count_args(args, params, module, c)
        },
        IrExpr::FieldAccess { object, .. } => walk_count(object, module, counts),
        IrExpr::DictAccess { dict, key, .. } => {
            let c = walk_count(dict, module, counts)?;
            walk_count(key, module, c)
        },
        IrExpr::Match { scrutinee, arms, ty } => {
            let c = bump_count(counts, ValType::I32)?;
            let c = walk_count(scrutinee, module, c)?;
            let c = count_arms(arms, ty, module, c)?;
            match find_wildcard(arms) {
                None => Ok(c),
                Some(w) => walk_count_coerced(&arms[w].body, ty, module, c),
            }
        },
        IrExpr::ClosureRef { env_struct, .. } => {
            let c = bump_count(counts, ValType::I32)?;
            walk_count(env_struct, module, c)
        },
        IrExpr::Array { elements, .. } => {
            let c = bump_count_by(counts, ValType::I32, 2)?;
            count_elements(elements, module, c)
        },
        IrExpr::For { collection, body, .. } => {
            let c = bump_count_by(counts, ValType::I32, FOR_SCRATCH_LOCAL_COUNT)?;
            let c = walk_count(collection, module, c)?;
            walk_count(body, module, c)
        },
        IrExpr::Literal { value, .. } => {
            let n: u32 = match value {
                Literal::Nil => 1,
                _ => 0,
            };
            bump_count_by(counts, ValType::I32, n)
        },
        IrExpr::Reference { .. }
        | IrExpr::LetRef { .. }
        | IrExpr::SelfFieldRef { .. }
        | IrExpr::Closure { .. }
        | IrExpr::DictLiteral { .. } => Ok(counts),
    }
}

/// `r` borrows the fields that `s` says.
pub open spec fn borrows_fields(r: Option<&Vec<IrField>>, s: Option<Seq<IrField>>) -> bool {
    match r {
        Some(fields) => s == Some(fields@),
        None => s is None,
    }
}

/// The declared type of the field called `name`.
fn find_field_type<'a>(fields: &'a Vec<IrField>, name: &String) -> (r: Option<&'a ResolvedType>)
    ensures
        crate::compound::borrows(r, field_type(fields@, name@)),
{
    let mut i: usize = 0;
    while i < fields.len()
        invariant
            i <= fields@.len(),
            crate::lower::aggregate::field_position(fields@, name@, 0)
                == crate::lower::aggregate::field_position(fields@, name@, i as int),
        decreases fields@.len() - i,
    {
        if fields[i].name == *name {
            return Some(&fields[i].ty);
        }
        i = i + 1;
    }
    None
}

fn count_inits(
    inits: &Vec<(String, FieldIdx, IrExpr)>,
    decl: Option<&Vec<IrField>>,
    module: &IrModule,
    counts: ScratchCounts,
) -> (r: Result<ScratchCounts, LowerError>)
    ensures
        forall|s: Option<Seq<IrField>>| #[trigger]
            borrows_fields(decl, s) ==> r == inits_counts(inits@, 0, s, *module, counts),
    decreases inits@, inits@.len(),
{
    let mut i: usize = 0;
    let mut c: ScratchCounts = counts;
    let ghost known: Option<Seq<IrField>> = match decl {
        Some(fields) => Some(fields@),
        None => None,
    };
    let ghost goal = inits_counts(inits@, 0, known, *module, counts);
    while i < inits.len()
        invariant
            goal == inits_counts(inits@, 0, known, *module, counts),
            i <= inits@.len(),
            borrows_fields(decl, known),
            goal == inits_counts(inits@, i as int, known, *module, c),
        decreases inits@.len() - i,
    {
        let target: Option<&ResolvedType> = match decl {
            Some(fields) => find_field_type(fields, &inits[i].0),
            None => None,
        };
        c = match target {
            Some(t) => walk_count_coerced(&inits[i].2, t, module, c)?,
            None => walk_count(&inits[i].2, module, c)?,
        };
        i = i + 1;
    }
    Ok(c)
}

fn count_tuple(fields: &Vec<(String, IrExpr)>, module: &IrModule, counts: ScratchCounts) -> (r:
    Result<ScratchCounts, LowerError>)
    ensures
        r == tuple_counts(fields@, 0, *module, counts),
    decreases fields@, fields@.len(),
{
    let mut i: usize = 0;
    let mut c: ScratchCounts = counts;
    let ghost goal = tuple_counts(fields@, 0, *module, counts);
    while i < fields.len()
        invariant
            goal == tuple_counts(fields@, 0, *module, counts),
            i <= fields@.len(),
            goal == tuple_counts(fields@, i as int, *module, c),
        decreases fields@.len() - i,
    {
        c = walk_count(&fields[i].1, module, c)?;
        i = i + 1;
    }
    Ok(c)
}

fn count_elements(elements: &Vec<IrExpr>, module: &IrModule, counts: ScratchCounts) -> (r: Result<
    ScratchCounts,
    LowerError,
>)
    ensures
        r == elements_counts(elements@, 0, *module, counts),
    decreases elements@, elements@.len(),
{
    let mut i: usize = 0;
    let mut c: ScratchCounts = counts;
    let ghost goal = elements_counts(elements@, 0, *module, counts);
    while i < elements.len()
        invariant
            goal == elements_counts(elements@, 0, *module, counts),
            i <= elements@.len(),
            goal == elements_counts(elements@, i as int, *module, c),
        decreases elements@.len() - i,
    {
        c = walk_count(&elements[i], module, c)?;
        i = i + 1;
    }
    Ok(c)
}

fn count_args(
    args: &Vec<(Option<String>, IrExpr)>,
    params: Option<&Vec<IrFunctionParam>>,
    module: &IrModule,
    counts: ScratchCounts,
) -> (r: Result<ScratchCounts, LowerError>)
    ensures
        forall|s: Option<Seq<IrFunctionParam>>| #[trigger]
            crate::lower::call::borrows_params(params, s) ==> r == args_counts(
                args@,
                0,
                s,
                *module,
                counts,
            ),
    decreases args@, args@.len(),
{
    let mut i: usize = 0;
    let mut c: ScratchCounts = counts;
    let ghost known: Option<Seq<IrFunctionParam>> = match params {
        Some(ps) => Some(ps@),
        None => None,
    };
    let ghost goal = args_counts(args@, 0, known, *module, counts);
    while i < args.len()
        invariant
            goal == args_counts(args@, 0, known, *module, counts),
            i <= args@.len(),
            crate::lower::call::borrows_params(params, known),
            goal == args_counts(args@, i as int, known, *module, c),
        decreases args@.len() - i,
    {
        c = match find_arg_target(params, &args[i].0) {
            Some(t) => walk_count_coerced(&args[i].1, t, module, c)?,
            None => walk_count(&args[i].1, module, c)?,
        };
        i = i + 1;
    }
    Ok(c)
}

fn count_arms(
    arms: &Vec<IrMatchArm>,
    ty: &ResolvedType,
    module: &IrModule,
    counts: ScratchCounts,
) -> (r: Result<ScratchCounts, LowerError>)
    ensures
        r == arms_counts(arms@, 0, *ty, *module, counts),
    decreases arms@, arms@.len(),
{
    let mut i: usize = 0;
    let mut c: ScratchCounts = counts;
    let ghost goal = arms_counts(arms@, 0, *ty, *module, counts);
    while i < arms.len()
        invariant
            goal == arms_counts(arms@, 0, *ty, *module, counts),
            i <= arms@.len(),
            goal == arms_counts(arms@, i as int, *ty, *module, c),
        decreases arms@.len() - i,
    {
        c = walk_count_coerced(&arms[i].body, ty, module, c)?;
        i = i + 1;
    }
    Ok(c)
}

fn count_statements(
    statements: &Vec<IrBlockStatement>,
    module: &IrModule,
    counts: ScratchCounts,
) -> (r: Result<ScratchCounts, LowerError>)
    ensures
        r == statements_counts(statements@, 0, *module, counts),
    decreases statements@, statements@.len(),
{
    let mut i: usize = 0;
    let mut c: ScratchCounts = counts;
    let ghost goal = statements_counts(statements@, 0, *module, counts);
    while i < statements.len()
        invariant
            goal == statements_counts(statements@, 0, *module, counts),
            i <= statements@.len(),
            goal == statements_counts(statements@, i as int, *module, c),
        decreases statements@.len() - i,
    {
        c = walk_count_block_statement(&statements[i], module, c)?;
        i = i + 1;
    }
    Ok(c)
}

fn walk_count_block_statement(stmt: &IrBlockStatement, module: &IrModule, counts: ScratchCounts) -> (r:
    Result<ScratchCounts, LowerError>)
    ensures
        r == statement_counts(*stmt, *module, counts),
    decreases *stmt, 0int,
{
    match stmt {
        IrBlockStatement::Let { ty, value, .. } => match ty {
            Some(t) => walk_count_coerced(value, t, module, counts),
            None => walk_count(value, module, counts),
        },
        IrBlockStatement::Assign { target, value } => {
            let c = walk_count(target, module, counts)?;
            walk_count(value, module, c)
        },
        IrBlockStatement::Expr(e) => walk_count(e, module, counts),
    }
}

// ── function bodies ──────────────────────────────────────────────────

/// A function body: declared locals past the parameters, in runs of one
/// type, and instructions that end in the closing `end`.
#[derive(Debug, PartialEq, Eq)]
pub struct FunctionBody {
    pub locals: Vec<(u32, ValType)>,
    pub code: Vec<Instr>,
}

/// The content of a [`FunctionBody`].
#[verifier::ext_equal]
pub struct BodyView {
    pub locals: Seq<(u32, ValType)>,
    pub code: Seq<Instr>,
}

impl View for FunctionBody {
    type V = BodyView;

    open spec fn view(&self) -> BodyView {
        BodyView { locals: self.locals@, code: self.code@ }
    }
}

/// Tables needed to lower closure calls.
#[derive(Clone, Copy, Debug)]
pub struct ClosureCallContext<'a> {
    /// Table of closure functions.
    pub table_idx: u32,
    /// Table slot of each closure function.
    pub funcref_indices: &'a FunctionMap,
    /// Call signature of each closure type.
    pub type_indices: &'a ClosureTypes,
}

/// Tables needed to lower virtual calls.
#[derive(Clone, Copy, Debug)]
pub struct VTableContext<'a> {
    /// Table of trait methods.
    pub table_idx: u32,
    /// Method table of each trait implementation.
    pub vtable_offsets: &'a VtableOffsets,
    /// Call signature of each trait method.
    pub call_type_indices: &'a VirtualCallTypes,
}

/// Local index of the binding at position `i` behind `params` parameters.
/// Past 32 bits it stays at the largest index.
pub open spec fn local_index(params: nat, i: int) -> u32 {
    if params + i > u32::MAX {
        u32::MAX
    } else {
        (params + i) as u32
    }
}

/// Locals of the first `k` parameters.
pub open spec fn param_map(params: Seq<Local>, k: nat) -> Map<u32, u32>
    decreases k,
{
    if k == 0 {
        Map::empty()
    } else {
        param_map(params, (k - 1) as nat).insert((params[k - 1].0).0, (k - 1) as u32)
    }
}

/// Locals of the parameters and of the first `k` bindings. Where an
/// identity occurs again, the later local holds.
pub open spec fn binding_map(params: Seq<Local>, lets: Seq<Local>, k: nat) -> Map<u32, u32>
    decreases k,
{
    if k == 0 {
        param_map(params, params.len())
    } else {
        binding_map(params, lets, (k - 1) as nat).insert(
            (lets[k - 1].0).0,
            local_index(params.len(), k - 1),
        )
    }
}

/// The locals plan of a function body: the map of all bindings, and the
/// bindings that the body introduces.
pub open spec fn locals_plan(body: IrExpr, params: Seq<Local>) -> Result<
    (Map<u32, u32>, Seq<Local>),
    LowerError,
> {
    match expr_locals(body, Seq::empty()) {
        Err(x) => Err(x),
        Ok(lets) => if params.len() > u32::MAX + 1 || lets.len() > u32::MAX + 1 {
            Err(crate::lower::error::missing(Missing::TooManyLocals))
        } else {
            Ok((binding_map(params, lets, lets.len()), lets))
        },
    }
}

/// One declared local per binding.
pub open spec fn one_each(lets: Seq<Local>) -> Seq<(u32, ValType)> {
    Seq::new(lets.len(), |i: int| (1u32, lets[i].1))
}

/// Index of the first local behind the parameters and bindings.
pub open spec fn first_scratch(params: nat, lets: nat) -> Result<u32, LowerError> {
    if params > u32::MAX {
        Err(crate::lower::error::missing(Missing::TooManyParams))
    } else if lets > u32::MAX {
        Err(crate::lower::error::missing(Missing::TooManyLets))
    } else if params + lets > u32::MAX {
        Err(crate::lower::error::missing(Missing::ParamsAndLets))
    } else {
        Ok((params + lets) as u32)
    }
}

/// The declaration of a scratch run, if it is not empty.
pub open spec fn run(count: u32, ty: ValType) -> Seq<(u32, ValType)> {
    if count > 0 {
        seq![(count, ty)]
    } else {
        Seq::empty()
    }
}

/// The scratch runs from local `at` on: their allocator and declarations.
pub open spec fn scratch_plan(c: ScratchCounts, at: u32) -> Result<
    (ScratchAllocator, Seq<(u32, ValType)>),
    LowerError,
> {
    if at + c.total() > u32::MAX {
        Err(crate::lower::error::missing(Missing::ScratchLayout))
    } else {
        Ok(
            (
                ScratchAllocator {
                    i32_slots: Region { base: at, used: 0, count: c.i32_slots },
                    i64_slots: Region {
                        base: (at + c.i32_slots) as u32,
                        used: 0,
                        count: c.i64_slots,
                    },
                    f32_slots: Region {
                        base: (at + c.i32_slots + c.i64_slots) as u32,
                        used: 0,
                        count: c.f32_slots,
                    },
                    f64_slots: Region {
                        base: (at + c.i32_slots + c.i64_slots + c.f32_slots) as u32,
                        used: 0,
                        count: c.f64_slots,
                    },
                },
                run(c.i32_slots, ValType::I32) + run(c.i64_slots, ValType::I64) + run(
                    c.f32_slots,
                    ValType::F32,
                ) + run(c.f64_slots, ValType::F64),
            ),
        )
    }
}

/// The finished body: the code of the value, flowing into the return type,
/// and the closing `end`.
pub open spec fn finished_body(
    body: IrExpr,
    return_ty: Option<ResolvedType>,
    locals: Seq<(u32, ValType)>,
    cx: Cx,
    scratch: Option<ScratchAllocator>,
) -> Result<BodyView, LowerError> {
    let s = SinkView { code: Seq::empty(), scratch };
    let o = match return_ty {
        Some(t) => crate::lower::optional::coerced_code(body, t, cx, s),
        None => crate::lower::expr_code(body, cx, s),
    };
    match o.err {
        Some(x) => Err(x),
        None => Ok(BodyView { locals, code: o.sink.code.push(Instr::End) }),
    }
}

/// The body of a function that is lowered without a module.
pub open spec fn plain_body(body: IrExpr, params: Seq<Local>, functions: Map<u32, u32>) -> Result<
    BodyView,
    LowerError,
> {
    match locals_plan(body, params) {
        Err(x) => Err(x),
        Ok((bindings, lets)) => finished_body(
            body,
            None,
            one_each(lets),
            crate::lower::context::bare(bindings, functions),
            None,
        ),
    }
}

/// The body of a function of module `m`, lowered in surroundings `cx`
/// whose bindings are still to be planned.
pub open spec fn module_body(
    body: IrExpr,
    return_ty: Option<ResolvedType>,
    params: Seq<Local>,
    m: IrModule,
    cx: Cx,
) -> Result<BodyView, LowerError> {
    match locals_plan(body, params) {
        Err(x) => Err(x),
        Ok((bindings, lets)) => match body_counts(body, return_ty, m) {
            Err(x) => Err(x),
            Ok(counts) => match first_scratch(params.len(), lets.len()) {
                Err(x) => Err(x),
                Ok(at) => match scratch_plan(counts, at) {
                    Err(x) => Err(x),
                    Ok((scratch, runs)) => finished_body(
                        body,
                        return_ty,
                        one_each(lets) + runs,
                        Cx { bindings, ..cx },
                        Some(scratch),
                    ),
                },
            },
        },
    }
}

/// The surroundings of a function of a module.
pub open spec fn module_cx(
    functions: Map<u32, u32>,
    methods: Map<u64, u32>,
    module: IrModule,
    bump_allocator: u32,
    self_struct_id: Option<StructId>,
    closure: Option<ClosureCallContext<'_>>,
    vtable: Option<VTableContext<'_>>,
    string_pool: Seq<(Seq<char>, u32)>,
    str_eq: u32,
    str_concat: u32,
) -> Cx {
    Cx {
        bindings: Map::empty(),
        functions,
        methods: Some(methods),
        module: Some(module),
        bump_allocator: Some(bump_allocator),
        self_struct_id,
        closure_table: match closure {
            Some(c) => Some(c.table_idx),
            None => None,
        },
        closure_funcref_indices: match closure {
            Some(c) => Some(c.funcref_indices@),
            None => None,
        },
        closure_type_indices: match closure {
            Some(c) => Some(c.type_indices@),
            None => None,
        },
        method_table: match vtable {
            Some(v) => Some(v.table_idx),
            None => None,
        },
        virtual_call_types: match vtable {
            Some(v) => Some(v.call_type_indices@),
            None => None,
        },
        vtable_offsets: match vtable {
            Some(v) => Some(v.vtable_offsets@),
            None => None,
        },
        string_pool: Some(string_pool),
        str_eq: Some(str_eq),
        str_concat: Some(str_concat),
    }
}

/// The type behind an optional reference.
pub open spec fn deref_ty(ty: Option<&ResolvedType>) -> Option<ResolvedType> {
    match ty {
        Some(t) => Some(*t),
        None => None,
    }
}

/// `r` is what `s` says.
pub open spec fn body_outcome(
    r: Result<FunctionBody, LowerError>,
    s: Result<BodyView, LowerError>,
) -> bool {
    match r {
        Ok(f) => s == Ok::<BodyView, LowerError>(f@),
        Err(x) => s == Err::<BodyView, LowerError>(x),
    }
}

/// Lower a function body that needs neither module nor scratch locals.
pub fn lower_function_body(
    body: &IrExpr,
    param_bindings: &Vec<Local>,
    functions: &FunctionMap,
) -> (r: Result<FunctionBody, LowerError>)
    ensures
        body_outcome(r, plain_body(*body, param_bindings@, functions@)),
{
    let (bindings, locals) = plan_function_locals(body, param_bindings)?;
    let ctx = LowerContext::new(&bindings, functions);
    finish_function_body(body, None, locals, None, &ctx)
}

/// Lower a function body of a module, with scratch locals reserved for its
/// aggregate constructions.
pub fn lower_function_body_in_module(
    body: &IrExpr,
    return_ty: Option<&ResolvedType>,
    param_bindings: &Vec<Local>,
    functions: &FunctionMap,
    methods: &MethodMap,
    module: &IrModule,
    bump_allocator: u32,
    self_struct_id: Option<StructId>,
    closure_ctx: Option<ClosureCallContext<'_>>,
    vtable_ctx: Option<VTableContext<'_>>,
    string_pool: &TextOffsets,
    str_eq: u32,
    str_concat: u32,
) -> (r: Result<FunctionBody, LowerError>)
    ensures
        body_outcome(
            r,
            module_body(
                *body,
                deref_ty(return_ty),
                param_bindings@,
                *module,
                module_cx(
                    functions@,
                    methods@,
                    *module,
                    bump_allocator,
                    self_struct_id,
                    closure_ctx,
                    vtable_ctx,
                    string_pool@,
                    str_eq,
                    str_concat,
                ),
            ),
        ),
{
    let (bindings, mut locals) = plan_function_locals(body, param_bindings)?;
    let counts = count_scratch_locals(body, return_ty, module)?;
    let at: u32 = scratch_locals_offset(param_bindings.len(), locals.len())?;
    let allocator = reserve_scratch(counts, at, &mut locals)?;
    let mut ctx = LowerContext::new(&bindings, functions).with_methods(methods).with_module(
        module,
    ).with_bump_allocator(bump_allocator).with_strings(string_pool, str_eq, str_concat);
    if let Some(id) = self_struct_id {
        ctx = ctx.with_self_struct_id(id);
    }
    if let Some(c) = closure_ctx {
        ctx = ctx.with_closure_table(c.table_idx).with_closure_funcref_indices(
            c.funcref_indices,
        ).with_closure_type_indices(c.type_indices);
    }
    if let Some(v) = vtable_ctx {
        ctx = ctx.with_virtual_dispatch(v.table_idx, v.call_type_indices, v.vtable_offsets);
    }
    finish_function_body(body, return_ty, locals, Some(allocator), &ctx)
}

/// Declare the scratch runs and build their allocator.
fn reserve_scratch(counts: ScratchCounts, at: u32, locals: &mut Vec<(u32, ValType)>) -> (r: Result<
    ScratchAllocator,
    LowerError,
>)
    ensures
        match r {
            Ok(a) => scratch_plan(counts, at) matches Ok(p) && p.0 == a && final(locals)@ == old(
                locals,
            )@ + p.1,
            Err(x) => scratch_plan(counts, at) == Err::<
                (ScratchAllocator, Seq<(u32, ValType)>),
                LowerError,
            >(x),
        },
{
    let total: u64 = at as u64 + counts.i32_slots as u64 + counts.i64_slots as u64
        + counts.f32_slots as u64 + counts.f64_slots as u64;
    if total > 0xffff_ffff {
        return Err(not_yet(Missing::ScratchLayout));
    }
    push_run(counts.i32_slots, ValType::I32, locals);
    push_run(counts.i64_slots, ValType::I64, locals);
    push_run(counts.f32_slots, ValType::F32, locals);
    push_run(counts.f64_slots, ValType::F64, locals);
    Ok(
        ScratchAllocator {
            i32_slots: Region { base: at, used: 0, count: counts.i32_slots },
            i64_slots: Region {
                base: at + counts.i32_slots,
                used: 0,
                count: counts.i64_slots,
            },
            f32_slots: Region {
                base: at + counts.i32_slots + counts.i64_slots,
                used: 0,
                count: counts.f32_slots,
            },
            f64_slots: Region {
                base: at + counts.i32_slots + counts.i64_slots + counts.f32_slots,
                used: 0,
                count: counts.f64_slots,
            },
        },
    )
}

fn push_run(count: u32, ty: ValType, locals: &mut Vec<(u32, ValType)>)
    ensures
        final(locals)@ == old(locals)@ + run(count, ty),
{
    if count > 0 {
        locals.push((count, ty));
    }
}

fn scratch_locals_offset(params: usize, lets: usize) -> (r: Result<u32, LowerError>)
    ensures
        r == first_scratch(params as nat, lets as nat),
{
    if params > 0xffff_ffff {
        return Err(not_yet(Missing::TooManyParams));
    }
    if lets > 0xffff_ffff {
        return Err(not_yet(Missing::TooManyLets));
    }
    match (params as u32).checked_add(lets as u32) {
        Some(n) => Ok(n),
        None => Err(not_yet(Missing::ParamsAndLets)),
    }
}

/// Plan the locals of a function body.
fn plan_function_locals(body: &IrExpr, param_bindings: &Vec<Local>) -> (r: Result<
    (BindingMap, Vec<(u32, ValType)>),
    LowerError,
>)
    ensures
        match r {
            Ok((bindings, locals)) => locals_plan(*body, param_bindings@) matches Ok(p)
                && bindings@ == p.0 && locals@ == one_each(p.1),
            Err(x) => locals_plan(*body, param_bindings@) == Err::<
                (Map<u32, u32>, Seq<Local>),
                LowerError,
            >(x),
        },
{
    let mut lets: Vec<Local> = Vec::new();
    walk_for_locals(body, &mut lets)?;
    let mut bindings = BindingMap::new();
    let mut k: usize = 0;
    while k < param_bindings.len()
        invariant
            k <= param_bindings@.len(),
            k <= u32::MAX + 1,
            bindings@ == param_map(param_bindings@, k as nat),
            expr_locals(*body, Seq::empty()) == Ok::<Seq<Local>, LowerError>(lets@),
        decreases param_bindings@.len() - k,
    {
        if k > 0xffff_ffff {
            return Err(not_yet(Missing::TooManyLocals));
        }
        bindings.insert(param_bindings[k].0, k as u32);
        k = k + 1;
    }
    let offset: u32 = if param_bindings.len() > 0xffff_ffff {
        0xffff_ffff
    } else {
        param_bindings.len() as u32
    };
    let mut locals: Vec<(u32, ValType)> = Vec::new();
    let mut i: usize = 0;
    while i < lets.len()
        invariant
            i <= lets@.len(),
            i <= u32::MAX + 1,
            param_bindings@.len() <= u32::MAX + 1,
            offset == (if param_bindings@.len() > u32::MAX {
                u32::MAX as int
            } else {
                param_bindings@.len() as int
            }),
            bindings@ == binding_map(param_bindings@, lets@, i as nat),
            locals@ == one_each(lets@).take(i as int),
            expr_locals(*body, Seq::empty()) == Ok::<Seq<Local>, LowerError>(lets@),
        decreases lets@.len() - i,
    {
        if i > 0xffff_ffff {
            return Err(not_yet(Missing::TooManyLocals));
        }
        let index: u32 = match offset.checked_add(i as u32) {
            Some(n) => n,
            None => 0xffff_ffff,
        };
        let (id, vt) = lets[i];
        bindings.insert(id, index);
        locals.push((1, vt));
        proof {
            assert(locals@ =~= one_each(lets@).take(i + 1));
        }
        i = i + 1;
    }
    proof {
        assert(one_each(lets@).take(i as int) =~= one_each(lets@));
    }
    Ok((bindings, locals))
}

fn finish_function_body(
    body: &IrExpr,
    return_ty: Option<&ResolvedType>,
    locals: Vec<(u32, ValType)>,
    scratch: Option<ScratchAllocator>,
    ctx: &LowerContext<'_>,
) -> (r: Result<FunctionBody, LowerError>)
    ensures
        body_outcome(r, finished_body(*body, deref_ty(return_ty), locals@, ctx@, scratch)),
{
    let mut sink = InstructionSink::new(scratch);
    match return_ty {
        Some(target) => lower_coerced(body, target, &mut sink, ctx)?,
        None => lower_expr(body, &mut sink, ctx)?,
    }
    sink.emit(Instr::End);
    Ok(FunctionBody { locals, code: sink.code })
}

// ── laws ─────────────────────────────────────────────────────────────

proof fn lemma_binding_map(params: Seq<Local>, lets: Seq<Local>, k: nat, i: int) -> (j: int)
    requires
        0 <= i < k <= lets.len(),
        params.len() + lets.len() <= u32::MAX,
    ensures
        i <= j < k,
        lets[j].0 == lets[i].0,
        binding_map(params, lets, k).dom().contains((lets[i].0).0),
        binding_map(params, lets, k)[(lets[i].0).0] == params.len() + j,
    decreases k,
{
    if (lets[k - 1].0).0 == (lets[i].0).0 {
        k - 1
    } else {
        lemma_binding_map(params, lets, (k - 1) as nat, i)
    }
}

/// Every binding that a function body introduces has a local: the last one
/// that was declared for its identity, behind the parameters.
pub proof fn law_every_binding_has_a_local(body: IrExpr, params: Seq<Local>, i: int) -> (j: int)
    requires
        locals_plan(body, params) matches Ok((_, lets)) && 0 <= i < lets.len() && params.len()
            + lets.len() <= u32::MAX,
    ensures
        ({
            let (bindings, lets) = locals_plan(body, params)->Ok_0;
            &&& i <= j < lets.len()
            &&& lets[j].0 == lets[i].0
            &&& one_each(lets)[j] == (1u32, lets[j].1)
            &&& bindings.dom().contains((lets[i].0).0)
            &&& bindings[(lets[i].0).0] == params.len() + j
        }),
{
    let (_, lets) = locals_plan(body, params)->Ok_0;
    lemma_binding_map(params, lets, lets.len(), i)
}

} // verus!
