//! Tables and signatures for calls through closure values.

use vstd::prelude::*;

use crate::encode::SigView;
use crate::ident::has_prefix;
use crate::instr::ValType;
use crate::ir::{FunctionId, IrExpr, IrFunction, IrImpl, IrModule, List, ParamConvention, ResolvedType};
use crate::lower::maps::{ClosureTypes, FunctionMap};
use crate::module::{BuilderView, ModuleBuilder};
use crate::module_lowering::error::{not_supported, to_index, ModuleLowerError};
use crate::module_lowering::walk::children_of;
use crate::types::{body_value_type, UnsupportedKind};

verus! {

// ── call signatures ──────────────────────────────────────────────────

/// The value types of closure parameters, appended to `out`.
pub open spec fn closure_params(
    params: List<(ParamConvention, ResolvedType)>,
    out: Seq<ValType>,
) -> Result<Seq<ValType>, ModuleLowerError>
    decreases params,
{
    match params {
        List::Nil => Ok(out),
        List::Cons(head, tail) => match crate::types::body_val(head.1) {
            Err(x) => Err(ModuleLowerError::TypeMap(x)),
            Ok(None) => Err(
                crate::module_lowering::error::unsupported(
                    UnsupportedKind::ClosureParameter(head.1),
                ),
            ),
            Ok(Some(vt)) => closure_params(*tail, out.push(vt)),
        },
    }
}

/// The signature of calls through a closure type: the environment pointer,
/// then the parameters.
pub open spec fn call_signature(ty: ResolvedType) -> Result<SigView, ModuleLowerError> {
    match ty {
        ResolvedType::Closure { param_tys, return_ty } => match closure_params(
            param_tys,
            seq![ValType::I32],
        ) {
            Err(x) => Err(x),
            Ok(params) => match crate::types::body_val(*return_ty) {
                Err(x) => Err(ModuleLowerError::TypeMap(x)),
                Ok(v) => Ok(SigView { params, results: crate::types::one_or_none(v) }),
            },
        },
        _ => Err(
            crate::module_lowering::error::unsupported(UnsupportedKind::CallOfNonClosure(ty)),
        ),
    }
}

/// A builder, and the signature index of each closure type called so far.
#[verifier::ext_equal]
pub struct CallTypes {
    pub builder: BuilderView,
    pub types: Seq<(ResolvedType, u32)>,
}

/// With the signature of a closure type, which is registered once.
pub open spec fn with_call_type(ty: ResolvedType, st: CallTypes) -> Result<
    CallTypes,
    ModuleLowerError,
> {
    match crate::lower::maps::closure_index(st.types, ty, 0) {
        Some(_) => Ok(st),
        None => match call_signature(ty) {
            Err(x) => Err(x),
            Ok(sig) => Ok(
                CallTypes {
                    types: st.types.push((ty, st.builder.next_type())),
                    builder: st.builder.with_type(sig),
                },
            ),
        },
    }
}

/// With the signatures of all closure calls in an expression.
pub open spec fn expr_calls(e: IrExpr, st: CallTypes) -> Result<CallTypes, ModuleLowerError>
    decreases e, crate::module_lowering::walk::children(e).len() + 1,
{
    match (match e {
        IrExpr::CallClosure { closure, .. } => with_call_type(closure.spec_ty(), st),
        _ => Ok(st),
    }) {
        Err(x) => Err(x),
        Ok(st1) => children_calls(e, 0, st1),
    }
}

/// With the signatures of the sub-expressions, from position `i` on.
pub open spec fn children_calls(e: IrExpr, i: int, st: CallTypes) -> Result<
    CallTypes,
    ModuleLowerError,
>
    decreases e, crate::module_lowering::walk::children(e).len() - i,
{
    if i < 0 || i >= crate::module_lowering::walk::children(e).len() {
        Ok(st)
    } else {
        proof {
            crate::module_lowering::walk::lemma_child_is_smaller(e, i);
        }
        match expr_calls(crate::module_lowering::walk::children(e)[i], st) {
            Err(x) => Err(x),
            Ok(st1) => children_calls(e, i + 1, st1),
        }
    }
}

/// With the signatures of the functions' bodies, from function `i` on.
pub open spec fn functions_calls(fs: Seq<IrFunction>, i: int, st: CallTypes) -> Result<
    CallTypes,
    ModuleLowerError,
>
    decreases fs.len() - i,
{
    if i < 0 || i >= fs.len() {
        Ok(st)
    } else {
        match (match fs[i].body {
            Some(e) => expr_calls(e, st),
            None => Ok(st),
        }) {
            Err(x) => Err(x),
            Ok(st1) => functions_calls(fs, i + 1, st1),
        }
    }
}

/// With the signatures of the methods that the module defines, from impl
/// block `i` on.
pub open spec fn impls_calls(impls: Seq<IrImpl>, i: int, st: CallTypes) -> Result<
    CallTypes,
    ModuleLowerError,
>
    decreases impls.len() - i,
{
    if i < 0 || i >= impls.len() {
        Ok(st)
    } else if impls[i].is_extern {
        impls_calls(impls, i + 1, st)
    } else {
        match functions_calls(impls[i].functions@, 0, st) {
            Err(x) => Err(x),
            Ok(st1) => impls_calls(impls, i + 1, st1),
        }
    }
}

fn closure_param_types(params: &List<(ParamConvention, ResolvedType)>) -> (r: Result<
    Vec<ValType>,
    ModuleLowerError,
>)
    ensures
        crate::module_lowering::signature::types_outcome(
            r,
            closure_params(*params, seq![ValType::I32]),
        ),
{
    let mut out: Vec<ValType> = Vec::new();
    out.push(ValType::I32);
    proof {
        assert(out@ =~= seq![ValType::I32]);
    }
    let mut rest = params;
    loop
        invariant
            closure_params(*params, seq![ValType::I32]) == closure_params(*rest, out@),
        ensures
            closure_params(*params, seq![ValType::I32]) == Ok::<Seq<ValType>, ModuleLowerError>(
                out@,
            ),
        decreases *rest,
    {
        match rest {
            List::Nil => {
                break ;
            },
            List::Cons(head, tail) => {
                match body_value_type(&head.1) {
                    Err(x) => return Err(ModuleLowerError::TypeMap(x)),
                    Ok(None) => {
                        return Err(
                            not_supported(UnsupportedKind::ClosureParameter(head.1.clone())),
                        );
                    },
                    Ok(Some(vt)) => out.push(vt),
                }
                rest = tail;
            },
        }
    }
    Ok(out)
}

/// The state of a collection walk.
pub open spec fn collecting(builder: ModuleBuilder, types: ClosureTypes) -> CallTypes {
    CallTypes { builder: builder@, types: types@ }
}

/// A walk's result and the state after it are what `s` says.
pub open spec fn registered(
    r: Result<(), ModuleLowerError>,
    after: CallTypes,
    s: Result<CallTypes, ModuleLowerError>,
) -> bool {
    match r {
        Ok(_) => s == Ok::<CallTypes, ModuleLowerError>(after),
        Err(x) => s == Err::<CallTypes, ModuleLowerError>(x),
    }
}

fn register_closure_call_type(
    ty: &ResolvedType,
    builder: &mut ModuleBuilder,
    types: &mut ClosureTypes,
) -> (r: Result<(), ModuleLowerError>)
    ensures
        registered(
            r,
            collecting(*final(builder), *final(types)),
            with_call_type(*ty, collecting(*old(builder), *old(types))),
        ),
{
    if types.get(ty).is_some() {
        return Ok(());
    }
    match ty {
        ResolvedType::Closure { param_tys, return_ty } => {
            let params = closure_param_types(param_tys)?;
            let mut results: Vec<ValType> = Vec::new();
            match body_value_type(return_ty) {
                Err(x) => return Err(ModuleLowerError::TypeMap(x)),
                Ok(Some(vt)) => results.push(vt),
                Ok(None) => {},
            }
            proof {
                assert(results@ =~= crate::types::one_or_none(
                    crate::types::body_val(**return_ty)->Ok_0,
                ));
            }
            let idx: u32 = builder.declare_type(&params, &results);
            types.insert(ty.clone(), idx);
            Ok(())
        },
        _ => Err(not_supported(UnsupportedKind::CallOfNonClosure(ty.clone()))),
    }
}

/// Register the signature of every closure type called in an expression.
fn collect_call_closure_types(
    expr: &IrExpr,
    builder: &mut ModuleBuilder,
    types: &mut ClosureTypes,
) -> (r: Result<(), ModuleLowerError>)
    ensures
        registered(
            r,
            collecting(*final(builder), *final(types)),
            expr_calls(*expr, collecting(*old(builder), *old(types))),
        ),
    decreases *expr,
{
    if let IrExpr::CallClosure { closure, .. } = expr {
        register_closure_call_type(closure.ty(), builder, types)?;
    }
    let kids = children_of(expr);
    let mut i: usize = 0;
    while i < kids.len()
        invariant
            i <= kids@.len(),
            crate::module_lowering::walk::refers(
                kids@,
                crate::module_lowering::walk::children(*expr),
            ),
            expr_calls(*expr, collecting(*old(builder), *old(types))) == children_calls(
                *expr,
                i as int,
                collecting(*builder, *types),
            ),
        decreases kids@.len() - i,
    {
        proof {
            crate::module_lowering::walk::lemma_child_is_smaller(*expr, i as int);
        }
        collect_call_closure_types(kids[i], builder, types)?;
        i = i + 1;
    }
    Ok(())
}

fn collect_in_functions(
    fs: &Vec<IrFunction>,
    builder: &mut ModuleBuilder,
    types: &mut ClosureTypes,
) -> (r: Result<(), ModuleLowerError>)
    ensures
        registered(
            r,
            collecting(*final(builder), *final(types)),
            functions_calls(fs@, 0, collecting(*old(builder), *old(types))),
        ),
{
    let mut i: usize = 0;
    while i < fs.len()
        invariant
            i <= fs@.len(),
            functions_calls(fs@, 0, collecting(*old(builder), *old(types))) == functions_calls(
                fs@,
                i as int,
                collecting(*builder, *types),
            ),
        decreases fs@.len() - i,
    {
        if let Some(body) = &fs[i].body {
            collect_call_closure_types(body, builder, types)?;
        }
        i = i + 1;
    }
    Ok(())
}

fn collect_in_impls(
    impls: &Vec<IrImpl>,
    builder: &mut ModuleBuilder,
    types: &mut ClosureTypes,
) -> (r: Result<(), ModuleLowerError>)
    ensures
        registered(
            r,
            collecting(*final(builder), *final(types)),
            impls_calls(impls@, 0, collecting(*old(builder), *old(types))),
        ),
{
    let mut i: usize = 0;
    while i < impls.len()
        invariant
            i <= impls@.len(),
            impls_calls(impls@, 0, collecting(*old(builder), *old(types))) == impls_calls(
                impls@,
                i as int,
                collecting(*builder, *types),
            ),
        decreases impls@.len() - i,
    {
        if !impls[i].is_extern {
            collect_in_functions(&impls[i].functions, builder, types)?;
        }
        i = i + 1;
    }
    Ok(())
}

// ── the closure table ────────────────────────────────────────────────

/// The lifted closure functions and their indices, from function `i` on,
/// appended to `out`.
pub open spec fn lifted(
    fs: Seq<IrFunction>,
    i: int,
    indices: Map<u32, u32>,
    out: Seq<(u32, u32)>,
) -> Result<Seq<(u32, u32)>, ModuleLowerError>
    decreases fs.len() - i,
{
    if i < 0 || i >= fs.len() {
        Ok(out)
    } else if !"__closure"@.is_prefix_of(fs[i].name@) {
        lifted(fs, i + 1, indices, out)
    } else {
        match crate::module_lowering::error::checked_index(i) {
            Err(x) => Err(x),
            Ok(id) => match crate::lower::maps::lookup(indices, id) {
                None => Err(ModuleLowerError::TooManyFunctions),
                Some(wasm) => lifted(fs, i + 1, indices, out.push((id, wasm))),
            },
        }
    }
}

/// The indices of lifted functions.
pub open spec fn lifted_indices(l: Seq<(u32, u32)>) -> Seq<u32> {
    Seq::new(l.len(), |i: int| l[i].1)
}

/// The table slots of the first `k` lifted functions.
pub open spec fn slots(l: Seq<(u32, u32)>, k: nat) -> Map<u32, u32>
    decreases k,
{
    if k == 0 {
        Map::empty()
    } else {
        slots(l, (k - 1) as nat).insert(l[k - 1].0, (k - 1) as u32)
    }
}

/// What closure calls need to be lowered.
pub struct ClosureParts {
    pub table: u32,
    pub slots: Map<u32, u32>,
    pub types: Seq<(ResolvedType, u32)>,
}

/// The closure table and signatures of a module, if it has lifted closure
/// functions, and the builder with them.
pub open spec fn closure_parts(b: BuilderView, m: IrModule, indices: Map<u32, u32>) -> Result<
    (Option<ClosureParts>, BuilderView),
    ModuleLowerError,
> {
    match lifted(m.functions@, 0, indices, Seq::empty()) {
        Err(x) => Err(x),
        Ok(l) => if l.len() == 0 {
            Ok((None, b))
        } else {
            match crate::module_lowering::error::checked_index(l.len() as int) {
                Err(x) => Err(x),
                Ok(n) => {
                    let b1 = b.with_closure_table(n);
                    let b2 = b1.with_filled(b1.closure_table_idx, lifted_indices(l));
                    let none = Seq::<(ResolvedType, u32)>::empty();
                    match functions_calls(m.functions@, 0, CallTypes { builder: b2, types: none }) {
                        Err(x) => Err(x),
                        Ok(st) => match impls_calls(m.impls@, 0, st) {
                            Err(x) => Err(x),
                            Ok(st1) => Ok(
                                (
                                    Some(
                                        ClosureParts {
                                            table: b1.closure_table_idx->0,
                                            slots: slots(l, l.len()),
                                            types: st1.types,
                                        },
                                    ),
                                    st1.builder,
                                ),
                            ),
                        },
                    }
                },
            }
        },
    }
}

/// Tables for closure calls.
#[derive(Debug)]
pub struct ClosurePlumbing {
    pub table_idx: u32,
    pub funcref_indices: FunctionMap,
    pub type_indices: ClosureTypes,
}

impl View for ClosurePlumbing {
    type V = ClosureParts;

    open spec fn view(&self) -> ClosureParts {
        ClosureParts {
            table: self.table_idx,
            slots: self.funcref_indices@,
            types: self.type_indices@,
        }
    }
}

/// The view of an optional part.
pub open spec fn optional_view<T: View>(x: Option<T>) -> Option<T::V> {
    match x {
        Some(t) => Some(t@),
        None => None,
    }
}

fn lifted_functions(fs: &Vec<IrFunction>, function_map: &FunctionMap) -> (r: Result<
    Vec<(u32, u32)>,
    ModuleLowerError,
>)
    ensures
        match r {
            Ok(l) => lifted(fs@, 0, function_map@, Seq::empty()) == Ok::<
                Seq<(u32, u32)>,
                ModuleLowerError,
            >(l@),
            Err(x) => lifted(fs@, 0, function_map@, Seq::empty()) == Err::<
                Seq<(u32, u32)>,
                ModuleLowerError,
            >(x),
        },
{
    let mut out: Vec<(u32, u32)> = Vec::new();
    let mut i: usize = 0;
    while i < fs.len()
        invariant
            i <= fs@.len(),
            lifted(fs@, 0, function_map@, Seq::empty()) == lifted(
                fs@,
                i as int,
                function_map@,
                out@,
            ),
        decreases fs@.len() - i,
    {
        if has_prefix(&fs[i].name, "__closure") {
            let id: u32 = to_index(i)?;
            match function_map.get(FunctionId(id)) {
                None => return Err(ModuleLowerError::TooManyFunctions),
                Some(wasm) => out.push((id, wasm)),
            }
        }
        i = i + 1;
    }
    Ok(out)
}

/// Build the closure table and register the signatures of all closure calls.
/// A module without lifted closure functions has neither.
pub fn build_closure_plumbing(
    builder: &mut ModuleBuilder,
    module: &IrModule,
    function_map: &FunctionMap,
) -> (r: Result<Option<ClosurePlumbing>, ModuleLowerError>)
    ensures
        match r {
            Ok(p) => closure_parts(old(builder)@, *module, function_map@) == Ok::<
                (Option<ClosureParts>, BuilderView),
                ModuleLowerError,
            >((optional_view(p), final(builder)@)),
            Err(x) => closure_parts(old(builder)@, *module, function_map@) == Err::<
                (Option<ClosureParts>, BuilderView),
                ModuleLowerError,
            >(x),
        },
{
    let l = lifted_functions(&module.functions, function_map)?;
    if l.len() == 0 {
        return Ok(None);
    }
    let n: u32 = to_index(l.len())?;
    let table_idx: u32 = builder.declare_closure_table(n);
    let mut indices: Vec<u32> = Vec::new();
    let mut funcref_indices = FunctionMap::new();
    let mut k: usize = 0;
    while k < l.len()
        invariant
            k <= l@.len(),
            l@.len() <= u32::MAX,
            indices@ == lifted_indices(l@).take(k as int),
            funcref_indices@ == slots(l@, k as nat),
        decreases l@.len() - k,
    {
        let (id, wasm) = l[k];
        indices.push(wasm);
        funcref_indices.insert(FunctionId(id), k as u32);
        proof {
            assert(indices@ =~= lifted_indices(l@).take(k + 1));
        }
        k = k + 1;
    }
    proof {
        assert(indices@ =~= lifted_indices(l@));
    }
    builder.populate_closure_table(indices);
    let mut type_indices = ClosureTypes::new();
    collect_in_functions(&module.functions, builder, &mut type_indices)?;
    collect_in_impls(&module.impls, builder, &mut type_indices)?;
    Ok(Some(ClosurePlumbing { table_idx, funcref_indices, type_indices }))
}

} // verus!
