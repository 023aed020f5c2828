//! Imports, runtime helpers, and the function index of everything that can
//! be called.
//!
//! The index space of functions holds, in this order: host functions, host
//! methods, runtime helpers, trampolines, the module's own functions with
//! their export wrappers, and the module's own methods.

use vstd::prelude::*;

use crate::compound::{enum_is, struct_is};
use crate::encode::SigView;
use crate::ident::kebab_case;
use crate::instr::ValType;
use crate::ir::{
    FunctionId, ImplId, ImplTarget, IrFunction, IrImpl, IrModule, MethodIdx, PrimitiveType,
    ResolvedType, StructId,
};
use crate::lower::maps::{FunctionMap, MethodMap};
use crate::module::{BuilderView, ModuleBuilder, PreludeHelper, IMPORT_MODULE_NAME};
use crate::module_lowering::emit::export_winners;
use crate::module_lowering::error::{succ, to_index, ModuleLowerError};
use crate::module_lowering::signature::{
    canonical_abi_import_params, lower_params_with_self, lower_params_with_self_ty, lower_results,
    needs_canonical_abi_wrapper,
};
use crate::module_lowering::wrappers::{
    emit_canonical_abi_import_trampoline, forward_without_receiver,
};
use crate::string_pool::same_text;

verus! {

// ── host functions ───────────────────────────────────────────────────

/// The builder with imports for the host functions, from function `i` on,
/// and the position and import index of each, appended to `out`.
pub open spec fn host_functions(
    fs: Seq<IrFunction>,
    i: int,
    m: IrModule,
    b: BuilderView,
    out: Seq<(u32, u32)>,
) -> Result<(BuilderView, Seq<(u32, u32)>), ModuleLowerError>
    decreases fs.len() - i,
{
    if i < 0 || i >= fs.len() {
        Ok((b, out))
    } else if !fs[i].is_extern {
        host_functions(fs, i + 1, m, b, out)
    } else {
        match crate::module_lowering::error::checked_index(i) {
            Err(x) => Err(x),
            Ok(id) => match crate::module_lowering::signature::import_params(
                fs[i].params@,
                0,
                fs[i].name,
                m,
                Seq::empty(),
            ) {
                Err(x) => Err(x),
                Ok(params) => match crate::module_lowering::signature::results_of(fs[i]) {
                    Err(x) => Err(x),
                    Ok(results) => host_functions(
                        fs,
                        i + 1,
                        m,
                        b.with_import(
                            IMPORT_MODULE_NAME@,
                            crate::ident::kebab(fs[i].name@),
                            SigView { params, results },
                        ),
                        out.push((id, crate::survey::index_u32(b.imports.len() as int))),
                    ),
                },
            },
        }
    }
}

/// Import the host functions.
pub fn import_host_functions(module: &IrModule, builder: &mut ModuleBuilder) -> (r: Result<
    Vec<(u32, u32)>,
    ModuleLowerError,
>)
    ensures
        match r {
            Ok(l) => host_functions(module.functions@, 0, *module, old(builder)@, Seq::empty())
                == Ok::<(BuilderView, Seq<(u32, u32)>), ModuleLowerError>((final(builder)@, l@)),
            Err(x) => host_functions(module.functions@, 0, *module, old(builder)@, Seq::empty())
                == Err::<(BuilderView, Seq<(u32, u32)>), ModuleLowerError>(x),
        },
{
    let fs = &module.functions;
    let mut out: Vec<(u32, u32)> = Vec::new();
    let mut i: usize = 0;
    while i < fs.len()
        invariant
            *fs == module.functions,
            i <= fs@.len(),
            host_functions(fs@, 0, *module, old(builder)@, Seq::empty()) == host_functions(
                fs@,
                i as int,
                *module,
                builder@,
                out@,
            ),
        decreases fs@.len() - i,
    {
        if fs[i].is_extern {
            let id: u32 = to_index(i)?;
            let params = canonical_abi_import_params(&fs[i], module)?;
            let results = lower_results(&fs[i].return_type)?;
            let name = kebab_case(&fs[i].name);
            let idx: u32 = builder.declare_function_import(
                IMPORT_MODULE_NAME,
                &name,
                &params,
                &results,
            );
            out.push((id, idx));
        }
        i = i + 1;
    }
    Ok(out)
}

// ── host methods ─────────────────────────────────────────────────────

/// Whether an impl block is for a built-in type, whose methods are runtime
/// helpers.
pub open spec fn is_built_in(target: ImplTarget, m: IrModule) -> bool {
    match target {
        ImplTarget::Struct(id) => m.prelude_array == Some(id) || m.prelude_dictionary == Some(id)
            || m.prelude_range == Some(id),
        ImplTarget::Enum(id) => m.prelude_optional == Some(id),
        ImplTarget::Primitive(_) => true,
    }
}

/// The name of the type whose methods the host provides.
pub open spec fn target_name(target: ImplTarget, m: IrModule) -> Option<Seq<char>> {
    match target {
        ImplTarget::Struct(id) => match m.spec_struct(id) {
            Some(s) => Some(s.name@),
            None => None,
        },
        ImplTarget::Enum(id) => match m.spec_enum(id) {
            Some(e) => Some(e.name@),
            None => None,
        },
        ImplTarget::Primitive(_) => None,
    }
}

/// Whether the receiver is a struct without fields, which the boundary
/// leaves out.
pub open spec fn drops_receiver(target: ImplTarget, m: IrModule) -> bool {
    match target {
        ImplTarget::Struct(id) => match m.spec_struct(id) {
            Some(s) => s.fields@.len() == 0,
            None => false,
        },
        _ => false,
    }
}

/// The receiver type of an impl block's methods.
pub open spec fn receiver_type(target: ImplTarget) -> Option<ResolvedType> {
    match target {
        ImplTarget::Struct(id) => Some(ResolvedType::Struct(id)),
        ImplTarget::Enum(id) => Some(ResolvedType::Enum(id)),
        ImplTarget::Primitive(_) => None,
    }
}

/// A host method: its impl block, its position, and its import index.
pub type HostMethod = (u32, u32, u32);

/// The parameters of a method, without the receiver where it is left out.
pub open spec fn boundary_params(types: Seq<ValType>, drops: bool) -> Seq<ValType> {
    if drops && types.len() > 0 {
        types.drop_first()
    } else {
        types
    }
}

/// The builder with imports for the methods of a host impl block, from
/// method `j` on.
pub open spec fn impl_imports(
    imp: IrImpl,
    j: int,
    id: u32,
    name: Seq<char>,
    m: IrModule,
    b: BuilderView,
    out: Seq<HostMethod>,
) -> Result<(BuilderView, Seq<HostMethod>), ModuleLowerError>
    decreases imp.functions@.len() - j,
{
    if j < 0 || j >= imp.functions@.len() {
        Ok((b, out))
    } else {
        let f = imp.functions@[j];
        match crate::module_lowering::error::checked_index(j) {
            Err(x) => Err(x),
            Ok(idx) => match crate::module_lowering::signature::internal_params(
                f,
                receiver_type(imp.target),
            ) {
                Err(x) => Err(x),
                Ok(locals) => match crate::module_lowering::signature::results_of(f) {
                    Err(x) => Err(x),
                    Ok(results) => impl_imports(
                        imp,
                        j + 1,
                        id,
                        name,
                        m,
                        b.with_import(
                            IMPORT_MODULE_NAME@,
                            crate::ident::kebab(name) + "-"@ + crate::ident::kebab(f.name@),
                            SigView {
                                params: boundary_params(
                                    crate::module_lowering::signature::local_types(locals),
                                    drops_receiver(imp.target, m),
                                ),
                                results,
                            },
                        ),
                        out.push((id, idx, crate::survey::index_u32(b.imports.len() as int))),
                    ),
                },
            },
        }
    }
}

/// The builder with imports for all host methods, from impl block `i` on.
pub open spec fn host_methods(i: int, m: IrModule, b: BuilderView, out: Seq<HostMethod>) -> Result<
    (BuilderView, Seq<HostMethod>),
    ModuleLowerError,
>
    decreases m.impls@.len() - i,
{
    if i < 0 || i >= m.impls@.len() {
        Ok((b, out))
    } else {
        let imp = m.impls@[i];
        if !imp.is_extern || is_built_in(imp.target, m) {
            host_methods(i + 1, m, b, out)
        } else {
            match crate::module_lowering::error::checked_index(i) {
                Err(x) => Err(x),
                Ok(id) => match target_name(imp.target, m) {
                    None => host_methods(i + 1, m, b, out),
                    Some(name) => match impl_imports(imp, 0, id, name, m, b, out) {
                        Err(x) => Err(x),
                        Ok((b1, out1)) => host_methods(i + 1, m, b1, out1),
                    },
                },
            }
        }
    }
}

/// Whether an impl block is for a built-in type.
pub fn built_in(target: ImplTarget, module: &IrModule) -> (r: bool)
    ensures
        r == is_built_in(target, *module),
{
    match target {
        ImplTarget::Struct(id) => struct_is(module.prelude_array, id) || struct_is(
            module.prelude_dictionary,
            id,
        ) || struct_is(module.prelude_range, id),
        ImplTarget::Enum(id) => enum_is(module.prelude_optional, id),
        ImplTarget::Primitive(_) => true,
    }
}

/// The name of the type whose methods the host provides.
pub fn name_of_target(target: ImplTarget, module: &IrModule) -> (r: Option<&String>)
    ensures
        match r {
            Some(name) => target_name(target, *module) == Some(name@),
            None => target_name(target, *module) is None,
        },
{
    match target {
        ImplTarget::Struct(id) => match module.get_struct(id) {
            Some(s) => Some(&s.name),
            None => None,
        },
        ImplTarget::Enum(id) => match module.get_enum(id) {
            Some(e) => Some(&e.name),
            None => None,
        },
        ImplTarget::Primitive(_) => None,
    }
}

fn leaves_out_receiver(target: ImplTarget, module: &IrModule) -> (r: bool)
    ensures
        r == drops_receiver(target, *module),
{
    match target {
        ImplTarget::Struct(id) => match module.get_struct(id) {
            Some(s) => s.fields.len() == 0,
            None => false,
        },
        _ => false,
    }
}

fn method_params(f: &IrFunction, target: ImplTarget) -> (r: Result<Vec<ValType>, ModuleLowerError>)
    ensures
        match r {
            Ok(types) => crate::module_lowering::signature::internal_params(
                *f,
                receiver_type(target),
            ) matches Ok(locals) && types@ == crate::module_lowering::signature::local_types(
                locals,
            ),
            Err(x) => crate::module_lowering::signature::internal_params(
                *f,
                receiver_type(target),
            ) == Err::<Seq<crate::lower::block::Local>, ModuleLowerError>(x),
        },
{
    let receiver: Option<ResolvedType> = match target {
        ImplTarget::Struct(id) => Some(ResolvedType::Struct(id)),
        ImplTarget::Enum(id) => Some(ResolvedType::Enum(id)),
        ImplTarget::Primitive(_) => None,
    };
    let borrowed: Option<&ResolvedType> = match &receiver {
        Some(t) => Some(t),
        None => None,
    };
    let (types, _) = lower_params_with_self_ty(f, borrowed)?;
    Ok(types)
}

fn import_impl(
    imp: &IrImpl,
    id: u32,
    name: &String,
    module: &IrModule,
    builder: &mut ModuleBuilder,
    out: &mut Vec<HostMethod>,
) -> (r: Result<(), ModuleLowerError>)
    ensures
        match r {
            Ok(_) => impl_imports(*imp, 0, id, name@, *module, old(builder)@, old(out)@) == Ok::<
                (BuilderView, Seq<HostMethod>),
                ModuleLowerError,
            >((final(builder)@, final(out)@)),
            Err(x) => impl_imports(*imp, 0, id, name@, *module, old(builder)@, old(out)@) == Err::<
                (BuilderView, Seq<HostMethod>),
                ModuleLowerError,
            >(x),
        },
{
    let mut j: usize = 0;
    while j < imp.functions.len()
        invariant
            j <= imp.functions@.len(),
            impl_imports(*imp, 0, id, name@, *module, old(builder)@, old(out)@) == impl_imports(
                *imp,
                j as int,
                id,
                name@,
                *module,
                builder@,
                out@,
            ),
        decreases imp.functions@.len() - j,
    {
        let f = &imp.functions[j];
        let idx: u32 = to_index(j)?;
        let mut params = method_params(f, imp.target)?;
        if leaves_out_receiver(imp.target, module) && params.len() > 0 {
            let ghost before = params@;
            let _ = params.remove(0);
            proof {
                assert(params@ =~= before.drop_first());
            }
        }
        let results = lower_results(&f.return_type)?;
        let mut import_name = kebab_case(name);
        import_name.append("-");
        let own = kebab_case(&f.name);
        import_name.append(&own);
        let wasm: u32 = builder.declare_function_import(
            IMPORT_MODULE_NAME,
            &import_name,
            &params,
            &results,
        );
        out.push((id, idx, wasm));
        j = j + 1;
    }
    Ok(())
}

/// Import the host methods.
pub fn import_host_methods(module: &IrModule, builder: &mut ModuleBuilder) -> (r: Result<
    Vec<HostMethod>,
    ModuleLowerError,
>)
    ensures
        match r {
            Ok(l) => host_methods(0, *module, old(builder)@, Seq::empty()) == Ok::<
                (BuilderView, Seq<HostMethod>),
                ModuleLowerError,
            >((final(builder)@, l@)),
            Err(x) => host_methods(0, *module, old(builder)@, Seq::empty()) == Err::<
                (BuilderView, Seq<HostMethod>),
                ModuleLowerError,
            >(x),
        },
{
    let mut out: Vec<HostMethod> = Vec::new();
    let mut i: usize = 0;
    while i < module.impls.len()
        invariant
            i <= module.impls@.len(),
            host_methods(0, *module, old(builder)@, Seq::empty()) == host_methods(
                i as int,
                *module,
                builder@,
                out@,
            ),
        decreases module.impls@.len() - i,
    {
        let imp = &module.impls[i];
        if imp.is_extern && !built_in(imp.target, module) {
            let id: u32 = to_index(i)?;
            if let Some(name) = name_of_target(imp.target, module) {
                import_impl(imp, id, name, module, builder, &mut out)?;
            }
        }
        i = i + 1;
    }
    Ok(out)
}

// ── runtime helpers ──────────────────────────────────────────────────

/// The builder with all prelude helpers.
#[verifier::opaque]
pub open spec fn with_prelude_helpers(b: BuilderView) -> BuilderView {
    b.with_prelude(PreludeHelper::StrLen).with_prelude(PreludeHelper::StrIsEmpty).with_prelude(
        PreludeHelper::StrByteAt,
    ).with_prelude(PreludeHelper::StrSlice).with_prelude(
        PreludeHelper::StrStartsWith,
    ).with_prelude(PreludeHelper::StrContains).with_prelude(
        PreludeHelper::ArrayLen,
    ).with_prelude(PreludeHelper::ArrayIsEmpty).with_prelude(
        PreludeHelper::OptionalIsSome,
    ).with_prelude(PreludeHelper::OptionalIsNone).with_prelude(
        PreludeHelper::RangeLen,
    ).with_prelude(PreludeHelper::RangeIsEmpty).with_prelude(
        PreludeHelper::DictLen,
    ).with_prelude(PreludeHelper::DictIsEmpty)
}

/// The builder with all runtime helpers but the reallocation hook.
pub open spec fn with_runtime(b: BuilderView) -> BuilderView {
    with_prelude_helpers(b.with_bump().with_str_eq().with_str_concat())
}

/// Declare all prelude helpers.
pub fn declare_prelude_helpers(builder: &mut ModuleBuilder)
    ensures
        final(builder)@ == with_prelude_helpers(old(builder)@),
{
    proof {
        reveal(with_prelude_helpers);
    }
    let _ = builder.declare_prelude(PreludeHelper::StrLen);
    let _ = builder.declare_prelude(PreludeHelper::StrIsEmpty);
    let _ = builder.declare_prelude(PreludeHelper::StrByteAt);
    let _ = builder.declare_prelude(PreludeHelper::StrSlice);
    let _ = builder.declare_prelude(PreludeHelper::StrStartsWith);
    let _ = builder.declare_prelude(PreludeHelper::StrContains);
    let _ = builder.declare_prelude(PreludeHelper::ArrayLen);
    let _ = builder.declare_prelude(PreludeHelper::ArrayIsEmpty);
    let _ = builder.declare_prelude(PreludeHelper::OptionalIsSome);
    let _ = builder.declare_prelude(PreludeHelper::OptionalIsNone);
    let _ = builder.declare_prelude(PreludeHelper::RangeLen);
    let _ = builder.declare_prelude(PreludeHelper::RangeIsEmpty);
    let _ = builder.declare_prelude(PreludeHelper::DictLen);
    let _ = builder.declare_prelude(PreludeHelper::DictIsEmpty);
}

/// The runtime helper behind a method of a built-in type.
pub open spec fn helper_for(target: ImplTarget, name: Seq<char>, m: IrModule) -> Option<
    PreludeHelper,
> {
    match target {
        ImplTarget::Primitive(p) => if p != PrimitiveType::String {
            None
        } else if name == "len"@ {
            Some(PreludeHelper::StrLen)
        } else if name == "is_empty"@ {
            Some(PreludeHelper::StrIsEmpty)
        } else if name == "byte_at"@ {
            Some(PreludeHelper::StrByteAt)
        } else if name == "slice"@ {
            Some(PreludeHelper::StrSlice)
        } else if name == "starts_with"@ {
            Some(PreludeHelper::StrStartsWith)
        } else if name == "contains"@ {
            Some(PreludeHelper::StrContains)
        } else {
            None
        },
        ImplTarget::Struct(id) => if m.prelude_array == Some(id) {
            len_or_empty(name, PreludeHelper::ArrayLen, PreludeHelper::ArrayIsEmpty)
        } else if m.prelude_range == Some(id) {
            len_or_empty(name, PreludeHelper::RangeLen, PreludeHelper::RangeIsEmpty)
        } else if m.prelude_dictionary == Some(id) {
            len_or_empty(name, PreludeHelper::DictLen, PreludeHelper::DictIsEmpty)
        } else {
            None
        },
        ImplTarget::Enum(id) => if m.prelude_optional != Some(id) {
            None
        } else if name == "is_some"@ {
            Some(PreludeHelper::OptionalIsSome)
        } else if name == "is_none"@ {
            Some(PreludeHelper::OptionalIsNone)
        } else {
            None
        },
    }
}

/// The helper of `len` or `is_empty`.
pub open spec fn len_or_empty(name: Seq<char>, len: PreludeHelper, is_empty: PreludeHelper) -> Option<
    PreludeHelper,
> {
    if name == "len"@ {
        Some(len)
    } else if name == "is_empty"@ {
        Some(is_empty)
    } else {
        None
    }
}

fn pick_len_or_empty(name: &String, len: PreludeHelper, is_empty: PreludeHelper) -> (r: Option<
    PreludeHelper,
>)
    ensures
        r == len_or_empty(name@, len, is_empty),
{
    if same_text(name, "len") {
        Some(len)
    } else if same_text(name, "is_empty") {
        Some(is_empty)
    } else {
        None
    }
}

/// The runtime helper behind a method of a built-in type. Methods without
/// one have no index.
pub fn prelude_helper(target: ImplTarget, name: &String, module: &IrModule) -> (r: Option<
    PreludeHelper,
>)
    ensures
        r == helper_for(target, name@, *module),
{
    match target {
        ImplTarget::Primitive(p) => if p != PrimitiveType::String {
            None
        } else if same_text(name, "len") {
            Some(PreludeHelper::StrLen)
        } else if same_text(name, "is_empty") {
            Some(PreludeHelper::StrIsEmpty)
        } else if same_text(name, "byte_at") {
            Some(PreludeHelper::StrByteAt)
        } else if same_text(name, "slice") {
            Some(PreludeHelper::StrSlice)
        } else if same_text(name, "starts_with") {
            Some(PreludeHelper::StrStartsWith)
        } else if same_text(name, "contains") {
            Some(PreludeHelper::StrContains)
        } else {
            None
        },
        ImplTarget::Struct(id) => if struct_is(module.prelude_array, id) {
            pick_len_or_empty(name, PreludeHelper::ArrayLen, PreludeHelper::ArrayIsEmpty)
        } else if struct_is(module.prelude_range, id) {
            pick_len_or_empty(name, PreludeHelper::RangeLen, PreludeHelper::RangeIsEmpty)
        } else if struct_is(module.prelude_dictionary, id) {
            pick_len_or_empty(name, PreludeHelper::DictLen, PreludeHelper::DictIsEmpty)
        } else {
            None
        },
        ImplTarget::Enum(id) => if !enum_is(module.prelude_optional, id) {
            None
        } else if same_text(name, "is_some") {
            Some(PreludeHelper::OptionalIsSome)
        } else if same_text(name, "is_none") {
            Some(PreludeHelper::OptionalIsNone)
        } else {
            None
        },
    }
}

// ── trampolines ──────────────────────────────────────────────────────

/// Indices assigned so far, and the next one.
#[verifier::reject_recursive_types(K)]
pub struct Assigned<K> {
    pub next: u32,
    pub map: Map<K, u32>,
}

/// A builder, and the index that its next function is due to get.
pub struct Emitted {
    pub builder: BuilderView,
    pub next: u32,
}

/// The import indices of the first `k` host methods.
pub open spec fn raw_methods(l: Seq<HostMethod>, k: nat) -> Map<u64, u32>
    decreases k,
{
    if k == 0 {
        Map::empty()
    } else {
        raw_methods(l, (k - 1) as nat).insert(
            crate::lower::maps::pair_key(l[k - 1].0, l[k - 1].1),
            l[k - 1].2,
        )
    }
}

/// The struct that an impl block is for.
pub open spec fn target_struct(target: ImplTarget) -> Option<StructId> {
    match target {
        ImplTarget::Struct(id) => Some(id),
        _ => None,
    }
}

/// The host method, where its receiver is left out at the boundary.
pub open spec fn receiver_free(entry: HostMethod, m: IrModule) -> Option<IrFunction> {
    match m.spec_method(ImplId(entry.0), MethodIdx(entry.1)) {
        Some(f) => if drops_receiver(m.impls@[entry.0 as int].target, m) {
            Some(f)
        } else {
            None
        },
        None => None,
    }
}

/// The indices of trampolines for the host methods whose receiver the
/// boundary leaves out, from method `i` on. Calls go to the trampoline.
pub open spec fn method_slots(
    l: Seq<HostMethod>,
    i: int,
    m: IrModule,
    st: Assigned<u64>,
) -> Result<Assigned<u64>, ModuleLowerError>
    decreases l.len() - i,
{
    if i < 0 || i >= l.len() {
        Ok(st)
    } else if receiver_free(l[i], m) is None {
        method_slots(l, i + 1, m, st)
    } else {
        match crate::module_lowering::error::next_index(st.next) {
            Err(x) => Err(x),
            Ok(next) => method_slots(
                l,
                i + 1,
                m,
                Assigned {
                    next,
                    map: st.map.insert(crate::lower::maps::pair_key(l[i].0, l[i].1), st.next),
                },
            ),
        }
    }
}

/// With those trampolines, from method `i` on.
pub open spec fn method_trampolines(
    l: Seq<HostMethod>,
    i: int,
    m: IrModule,
    st: Emitted,
) -> Result<Emitted, ModuleLowerError>
    decreases l.len() - i,
{
    if i < 0 || i >= l.len() {
        Ok(st)
    } else {
        match receiver_free(l[i], m) {
            None => method_trampolines(l, i + 1, m, st),
            Some(f) => match crate::module_lowering::signature::internal_params(
                f,
                crate::module_lowering::signature::self_type(
                    target_struct(m.impls@[l[i].0 as int].target),
                ),
            ) {
                Err(x) => Err(x),
                Ok(locals) => match crate::module_lowering::signature::results_of(f) {
                    Err(x) => Err(x),
                    Ok(results) => if locals.len() > u32::MAX + 1 || st.builder.next_function()
                        != st.next || st.next == u32::MAX {
                        Err(ModuleLowerError::TooManyFunctions)
                    } else {
                        method_trampolines(
                            l,
                            i + 1,
                            m,
                            Emitted {
                                builder: st.builder.with_function(
                                    SigView {
                                        params: crate::module_lowering::signature::local_types(
                                            locals,
                                        ),
                                        results,
                                    },
                                    crate::module_lowering::wrappers::receiver_free_body(
                                        locals.len(),
                                        l[i].2,
                                    ),
                                ),
                                next: (st.next + 1) as u32,
                            },
                        )
                    },
                },
            },
        }
    }
}

/// The host method, where its receiver is left out at the boundary.
fn find_receiver_free<'a>(entry: HostMethod, module: &'a IrModule) -> (r: Option<&'a IrFunction>)
    ensures
        match r {
            Some(f) => receiver_free(entry, *module) == Some(*f),
            None => receiver_free(entry, *module) is None,
        },
        r is Some ==> entry.0 < module.impls@.len(),
{
    match module.get_method(ImplId(entry.0), MethodIdx(entry.1)) {
        Some(f) => {
            if leaves_out_receiver(module.impls[entry.0 as usize].target, module) {
                Some(f)
            } else {
                None
            }
        },
        None => None,
    }
}

/// Register the host methods' import indices.
pub fn register_raw_methods(l: &Vec<HostMethod>) -> (r: MethodMap)
    ensures
        r@ == raw_methods(l@, l@.len()),
{
    let mut map = MethodMap::new();
    let mut k: usize = 0;
    while k < l.len()
        invariant
            k <= l@.len(),
            map@ == raw_methods(l@, k as nat),
        decreases l@.len() - k,
    {
        let (id, idx, raw) = l[k];
        map.insert((ImplId(id), MethodIdx(idx)), raw);
        k = k + 1;
    }
    map
}

/// Give the trampolines of the host methods their indices.
fn assign_method_trampolines(
    l: &Vec<HostMethod>,
    module: &IrModule,
    start: u32,
    map: &mut MethodMap,
) -> (r: Result<u32, ModuleLowerError>)
    ensures
        match r {
            Ok(next) => method_slots(l@, 0, *module, Assigned { next: start, map: old(map)@ })
                == Ok::<Assigned<u64>, ModuleLowerError>(Assigned { next, map: final(map)@ }),
            Err(x) => method_slots(l@, 0, *module, Assigned { next: start, map: old(map)@ })
                == Err::<Assigned<u64>, ModuleLowerError>(x),
        },
{
    let mut next: u32 = start;
    let mut i: usize = 0;
    while i < l.len()
        invariant
            i <= l@.len(),
            method_slots(l@, 0, *module, Assigned { next: start, map: old(map)@ })
                == method_slots(l@, i as int, *module, Assigned { next, map: map@ }),
        decreases l@.len() - i,
    {
        let (id, idx, raw) = l[i];
        if let Some(_) = find_receiver_free((id, idx, raw), module) {
            let at: u32 = next;
            next = succ(next)?;
            map.insert((ImplId(id), MethodIdx(idx)), at);
        }
        i = i + 1;
    }
    Ok(next)
}

/// Emit the trampolines of the host methods.
fn emit_method_trampolines(
    l: &Vec<HostMethod>,
    module: &IrModule,
    builder: &mut ModuleBuilder,
    start: u32,
) -> (r: Result<u32, ModuleLowerError>)
    ensures
        match r {
            Ok(next) => method_trampolines(
                l@,
                0,
                *module,
                Emitted { builder: old(builder)@, next: start },
            ) == Ok::<Emitted, ModuleLowerError>(Emitted { builder: final(builder)@, next }),
            Err(x) => method_trampolines(
                l@,
                0,
                *module,
                Emitted { builder: old(builder)@, next: start },
            ) == Err::<Emitted, ModuleLowerError>(x),
        },
{
    let mut next: u32 = start;
    let mut i: usize = 0;
    while i < l.len()
        invariant
            i <= l@.len(),
            method_trampolines(l@, 0, *module, Emitted { builder: old(builder)@, next: start })
                == method_trampolines(
                l@,
                i as int,
                *module,
                Emitted { builder: builder@, next },
            ),
        decreases l@.len() - i,
    {
        let (id, idx, raw) = l[i];
        if let Some(f) = find_receiver_free((id, idx, raw), module) {
            let receiver: Option<StructId> = match module.impls[id as usize].target {
                ImplTarget::Struct(sid) => Some(sid),
                _ => None,
            };
            let (types, _) = lower_params_with_self(f, receiver)?;
            let results = lower_results(&f.return_type)?;
            let body = forward_without_receiver(types.len(), raw)?;
            let got: u32 = builder.declare_function_with_body(&types, &results, body);
            if got != next {
                return Err(ModuleLowerError::TooManyFunctions);
            }
            next = succ(next)?;
        }
        i = i + 1;
    }
    Ok(next)
}

/// The indices of the host functions, from entry `i` on: of a trampoline
/// where the function's form at the boundary differs, of the import itself
/// otherwise.
pub open spec fn function_slots(
    l: Seq<(u32, u32)>,
    i: int,
    m: IrModule,
    st: Assigned<u32>,
) -> Result<Assigned<u32>, ModuleLowerError>
    decreases l.len() - i,
{
    if i < 0 || i >= l.len() {
        Ok(st)
    } else {
        let (id, raw) = l[i];
        match m.spec_function(FunctionId(id)) {
            None => Err(ModuleLowerError::TooManyFunctions),
            Some(f) => if !crate::module_lowering::signature::needs_wrapper(f, m) {
                function_slots(l, i + 1, m, Assigned { map: st.map.insert(id, raw), ..st })
            } else {
                match crate::module_lowering::error::next_index(st.next) {
                    Err(x) => Err(x),
                    Ok(next) => function_slots(
                        l,
                        i + 1,
                        m,
                        Assigned { next, map: st.map.insert(id, st.next) },
                    ),
                }
            },
        }
    }
}

/// With those trampolines, from entry `i` on.
pub open spec fn function_trampolines(
    l: Seq<(u32, u32)>,
    i: int,
    m: IrModule,
    st: Emitted,
) -> Result<Emitted, ModuleLowerError>
    decreases l.len() - i,
{
    if i < 0 || i >= l.len() {
        Ok(st)
    } else {
        let (id, raw) = l[i];
        match m.spec_function(FunctionId(id)) {
            None => Err(ModuleLowerError::TooManyFunctions),
            Some(f) => if !crate::module_lowering::signature::needs_wrapper(f, m) {
                function_trampolines(l, i + 1, m, st)
            } else {
                match crate::module_lowering::wrappers::with_import_trampoline(
                    f,
                    raw,
                    st.builder,
                    m,
                    st.next,
                ) {
                    Err(x) => Err(x),
                    Ok((b, _)) => match crate::module_lowering::error::next_index(st.next) {
                        Err(x) => Err(x),
                        Ok(next) => function_trampolines(
                            l,
                            i + 1,
                            m,
                            Emitted { builder: b, next },
                        ),
                    },
                }
            },
        }
    }
}

/// Give the host functions their indices.
fn assign_function_trampolines(
    l: &Vec<(u32, u32)>,
    module: &IrModule,
    start: u32,
    map: &mut FunctionMap,
) -> (r: Result<u32, ModuleLowerError>)
    ensures
        match r {
            Ok(next) => function_slots(l@, 0, *module, Assigned { next: start, map: old(map)@ })
                == Ok::<Assigned<u32>, ModuleLowerError>(Assigned { next, map: final(map)@ }),
            Err(x) => function_slots(l@, 0, *module, Assigned { next: start, map: old(map)@ })
                == Err::<Assigned<u32>, ModuleLowerError>(x),
        },
{
    let mut next: u32 = start;
    let mut i: usize = 0;
    while i < l.len()
        invariant
            i <= l@.len(),
            function_slots(l@, 0, *module, Assigned { next: start, map: old(map)@ })
                == function_slots(l@, i as int, *module, Assigned { next, map: map@ }),
        decreases l@.len() - i,
    {
        let (id, raw) = l[i];
        let f = match module.get_function(FunctionId(id)) {
            None => return Err(ModuleLowerError::TooManyFunctions),
            Some(f) => f,
        };
        let mut idx: u32 = raw;
        if needs_canonical_abi_wrapper(f, module) {
            idx = next;
            next = succ(next)?;
        }
        map.insert(FunctionId(id), idx);
        i = i + 1;
    }
    Ok(next)
}

/// Emit the trampolines of the host functions.
fn emit_function_trampolines(
    l: &Vec<(u32, u32)>,
    module: &IrModule,
    builder: &mut ModuleBuilder,
    start: u32,
) -> (r: Result<u32, ModuleLowerError>)
    ensures
        match r {
            Ok(next) => function_trampolines(
                l@,
                0,
                *module,
                Emitted { builder: old(builder)@, next: start },
            ) == Ok::<Emitted, ModuleLowerError>(Emitted { builder: final(builder)@, next }),
            Err(x) => function_trampolines(
                l@,
                0,
                *module,
                Emitted { builder: old(builder)@, next: start },
            ) == Err::<Emitted, ModuleLowerError>(x),
        },
{
    let mut next: u32 = start;
    let mut i: usize = 0;
    while i < l.len()
        invariant
            i <= l@.len(),
            function_trampolines(l@, 0, *module, Emitted { builder: old(builder)@, next: start })
                == function_trampolines(
                l@,
                i as int,
                *module,
                Emitted { builder: builder@, next },
            ),
        decreases l@.len() - i,
    {
        let (id, raw) = l[i];
        let f = match module.get_function(FunctionId(id)) {
            None => return Err(ModuleLowerError::TooManyFunctions),
            Some(f) => f,
        };
        if needs_canonical_abi_wrapper(f, module) {
            let _ = emit_canonical_abi_import_trampoline(f, raw, builder, module, next)?;
            next = succ(next)?;
        }
        i = i + 1;
    }
    Ok(next)
}

// ── the module's own functions and methods ───────────────────────────

/// The index `by` past `base`.
pub open spec fn index_past(base: u32, by: u32) -> Result<u32, ModuleLowerError> {
    crate::module_lowering::error::checked_index(base + by)
}

/// How many indices function `i` takes: one, and one more where it is
/// exported through a wrapper.
pub open spec fn width(fs: Seq<IrFunction>, i: int, m: IrModule) -> int {
    if crate::module_lowering::emit::wins_export(fs, i)
        && crate::module_lowering::signature::needs_wrapper(fs[i], m) {
        2
    } else {
        1
    }
}

/// The indices of the module's own functions, from function `i` on, and how
/// many they take. `counter` were taken before, from `offset` on.
pub open spec fn own_functions(
    fs: Seq<IrFunction>,
    i: int,
    m: IrModule,
    offset: u32,
    counter: u32,
    map: Map<u32, u32>,
) -> Result<(Map<u32, u32>, u32), ModuleLowerError>
    decreases fs.len() - i,
{
    if i < 0 || i >= fs.len() {
        Ok((map, counter))
    } else if fs[i].is_extern {
        own_functions(fs, i + 1, m, offset, counter, map)
    } else {
        match crate::module_lowering::error::checked_index(i) {
            Err(x) => Err(x),
            Ok(id) => match index_past(offset, counter) {
                Err(x) => Err(x),
                Ok(idx) => match crate::module_lowering::error::checked_index(
                    counter + width(fs, i, m),
                ) {
                    Err(x) => Err(x),
                    Ok(next) => own_functions(fs, i + 1, m, offset, next, map.insert(id, idx)),
                },
            },
        }
    }
}

fn past(base: u32, by: u32) -> (r: Result<u32, ModuleLowerError>)
    ensures
        r == index_past(base, by),
{
    match base.checked_add(by) {
        Some(n) => Ok(n),
        None => Err(ModuleLowerError::TooManyFunctions),
    }
}

/// Assign indices to the module's own functions.
pub fn assign_functions(module: &IrModule, offset: u32, map: &mut FunctionMap) -> (r: Result<
    u32,
    ModuleLowerError,
>)
    ensures
        match r {
            Ok(counter) => own_functions(module.functions@, 0, *module, offset, 0, old(map)@)
                == Ok::<(Map<u32, u32>, u32), ModuleLowerError>((final(map)@, counter)),
            Err(x) => own_functions(module.functions@, 0, *module, offset, 0, old(map)@) == Err::<
                (Map<u32, u32>, u32),
                ModuleLowerError,
            >(x),
        },
{
    let fs = &module.functions;
    let winners = export_winners(fs);
    let mut counter: u32 = 0;
    let mut i: usize = 0;
    while i < fs.len()
        invariant
            *fs == module.functions,
            i <= fs@.len(),
            winners@.len() == fs@.len(),
            forall|k: int|
                0 <= k < fs@.len() ==> #[trigger] winners@[k]
                    == crate::module_lowering::emit::wins_export(fs@, k),
            own_functions(fs@, 0, *module, offset, 0, old(map)@) == own_functions(
                fs@,
                i as int,
                *module,
                offset,
                counter,
                map@,
            ),
        decreases fs@.len() - i,
    {
        if !fs[i].is_extern {
            let id: u32 = to_index(i)?;
            let idx: u32 = past(offset, counter)?;
            let wide = winners[i] && needs_canonical_abi_wrapper(&fs[i], module);
            counter = past(
                counter,
                if wide {
                    2
                } else {
                    1
                },
            )?;
            map.insert(FunctionId(id), idx);
        }
        i = i + 1;
    }
    Ok(counter)
}

/// The index behind the module's own functions, from function `i` on, where
/// that of function `i` is `at`.
pub open spec fn past_functions(fs: Seq<IrFunction>, i: int, m: IrModule, at: u32) -> Result<
    u32,
    ModuleLowerError,
>
    decreases fs.len() - i,
{
    if i < 0 || i >= fs.len() {
        Ok(at)
    } else if fs[i].is_extern {
        past_functions(fs, i + 1, m, at)
    } else {
        match crate::module_lowering::error::checked_index(at + width(fs, i, m)) {
            Err(x) => Err(x),
            Ok(next) => past_functions(fs, i + 1, m, next),
        }
    }
}

/// The index behind the module's own methods, from impl block `i` on, where
/// that of its first method is `at`.
pub open spec fn past_methods(impls: Seq<IrImpl>, i: int, at: u32) -> Result<u32, ModuleLowerError>
    decreases impls.len() - i,
{
    if i < 0 || i >= impls.len() {
        Ok(at)
    } else if impls[i].is_extern {
        past_methods(impls, i + 1, at)
    } else {
        match crate::module_lowering::error::checked_index(at + impls[i].functions@.len()) {
            Err(x) => Err(x),
            Ok(next) => past_methods(impls, i + 1, next),
        }
    }
}

/// Number of runtime helpers that stand behind the module's own functions and
/// methods: those of texts, those of built-in types, and the reallocation
/// hook.
pub const LATE_HELPERS: u32 = 17;

/// Position of a helper of a built-in type in the order of declaration.
pub open spec fn helper_position(h: PreludeHelper) -> int {
    match h {
        PreludeHelper::StrLen => 0,
        PreludeHelper::StrIsEmpty => 1,
        PreludeHelper::StrByteAt => 2,
        PreludeHelper::StrSlice => 3,
        PreludeHelper::StrStartsWith => 4,
        PreludeHelper::StrContains => 5,
        PreludeHelper::ArrayLen => 6,
        PreludeHelper::ArrayIsEmpty => 7,
        PreludeHelper::OptionalIsSome => 8,
        PreludeHelper::OptionalIsNone => 9,
        PreludeHelper::RangeLen => 10,
        PreludeHelper::RangeIsEmpty => 11,
        PreludeHelper::DictLen => 12,
        PreludeHelper::DictIsEmpty => 13,
    }
}

/// Index of a helper of a built-in type. The equality and concatenation of
/// texts are functions `late` and `late + 1`.
pub open spec fn helper_index(late: u32, h: PreludeHelper) -> u32 {
    (late + 2 + helper_position(h)) as u32
}

fn late_helper_index(late: u32, h: PreludeHelper) -> (r: u32)
    requires
        late + LATE_HELPERS <= u32::MAX,
    ensures
        r == helper_index(late, h),
{
    let position: u32 = match h {
        PreludeHelper::StrLen => 0,
        PreludeHelper::StrIsEmpty => 1,
        PreludeHelper::StrByteAt => 2,
        PreludeHelper::StrSlice => 3,
        PreludeHelper::StrStartsWith => 4,
        PreludeHelper::StrContains => 5,
        PreludeHelper::ArrayLen => 6,
        PreludeHelper::ArrayIsEmpty => 7,
        PreludeHelper::OptionalIsSome => 8,
        PreludeHelper::OptionalIsNone => 9,
        PreludeHelper::RangeLen => 10,
        PreludeHelper::RangeIsEmpty => 11,
        PreludeHelper::DictLen => 12,
        PreludeHelper::DictIsEmpty => 13,
    };
    late + 2 + position
}

/// Find the index behind the module's own functions and methods, the first of
/// which is `offset`.
fn find_late(module: &IrModule, offset: u32) -> (r: Result<u32, ModuleLowerError>)
    ensures
        r == (match past_functions(module.functions@, 0, *module, offset) {
            Err(x) => Err(x),
            Ok(at) => past_methods(module.impls@, 0, at),
        }),
{
    let fs = &module.functions;
    let winners = export_winners(fs);
    let mut at: u32 = offset;
    let mut i: usize = 0;
    while i < fs.len()
        invariant
            *fs == module.functions,
            i <= fs@.len(),
            winners@.len() == fs@.len(),
            forall|k: int|
                0 <= k < fs@.len() ==> #[trigger] winners@[k]
                    == crate::module_lowering::emit::wins_export(fs@, k),
            past_functions(fs@, 0, *module, offset) == past_functions(
                fs@,
                i as int,
                *module,
                at,
            ),
        decreases fs@.len() - i,
    {
        if !fs[i].is_extern {
            let wide = winners[i] && needs_canonical_abi_wrapper(&fs[i], module);
            at = past(
                at,
                if wide {
                    2
                } else {
                    1
                },
            )?;
        }
        i = i + 1;
    }
    let ghost first = at;
    let mut j: usize = 0;
    while j < module.impls.len()
        invariant
            j <= module.impls@.len(),
            past_functions(module.functions@, 0, *module, offset) == Ok::<u32, ModuleLowerError>(
                first,
            ),
            past_methods(module.impls@, 0, first) == past_methods(module.impls@, j as int, at),
        decreases module.impls@.len() - j,
    {
        let imp = &module.impls[j];
        if !imp.is_extern {
            let n: u32 = to_index(imp.functions.len())?;
            at = past(at, n)?;
        }
        j = j + 1;
    }
    Ok(at)
}

/// The indices of a built-in type's methods, from method `j` on.
pub open spec fn helper_methods(
    imp: IrImpl,
    j: int,
    id: u32,
    m: IrModule,
    late: u32,
    map: Map<u64, u32>,
) -> Result<Map<u64, u32>, ModuleLowerError>
    decreases imp.functions@.len() - j,
{
    if j < 0 || j >= imp.functions@.len() {
        Ok(map)
    } else {
        match crate::module_lowering::error::checked_index(j) {
            Err(x) => Err(x),
            Ok(idx) => helper_methods(
                imp,
                j + 1,
                id,
                m,
                late,
                match helper_for(imp.target, imp.functions@[j].name@, m) {
                    None => map,
                    Some(h) => map.insert(
                        crate::lower::maps::pair_key(id, idx),
                        helper_index(late, h),
                    ),
                },
            ),
        }
    }
}

/// The indices of an impl block's own methods, from method `j` on.
pub open spec fn impl_methods(
    n: nat,
    j: int,
    id: u32,
    offset: u32,
    counter: u32,
    map: Map<u64, u32>,
) -> Result<(Map<u64, u32>, u32), ModuleLowerError>
    decreases n - j,
{
    if j < 0 || j >= n {
        Ok((map, counter))
    } else {
        match crate::module_lowering::error::checked_index(j) {
            Err(x) => Err(x),
            Ok(idx) => match index_past(offset, counter) {
                Err(x) => Err(x),
                Ok(wasm) => match crate::module_lowering::error::next_index(counter) {
                    Err(x) => Err(x),
                    Ok(next) => impl_methods(
                        n,
                        j + 1,
                        id,
                        offset,
                        next,
                        map.insert(crate::lower::maps::pair_key(id, idx), wasm),
                    ),
                },
            },
        }
    }
}

/// The indices of all methods, from impl block `i` on: runtime helpers for
/// built-in types, and one function after the other for the module's own.
pub open spec fn own_methods(
    i: int,
    m: IrModule,
    late: u32,
    offset: u32,
    counter: u32,
    map: Map<u64, u32>,
) -> Result<Map<u64, u32>, ModuleLowerError>
    decreases m.impls@.len() - i,
{
    if i < 0 || i >= m.impls@.len() {
        Ok(map)
    } else {
        let imp = m.impls@[i];
        match crate::module_lowering::error::checked_index(i) {
            Err(x) => Err(x),
            Ok(id) => if imp.is_extern {
                if is_built_in(imp.target, m) {
                    match helper_methods(imp, 0, id, m, late, map) {
                        Err(x) => Err(x),
                        Ok(map1) => own_methods(i + 1, m, late, offset, counter, map1),
                    }
                } else {
                    own_methods(i + 1, m, late, offset, counter, map)
                }
            } else {
                match impl_methods(imp.functions@.len(), 0, id, offset, counter, map) {
                    Err(x) => Err(x),
                    Ok((map1, next)) => own_methods(i + 1, m, late, offset, next, map1),
                }
            },
        }
    }
}

fn assign_helper_methods(
    imp: &IrImpl,
    id: u32,
    module: &IrModule,
    late: u32,
    map: &mut MethodMap,
) -> (r: Result<(), ModuleLowerError>)
    requires
        late + LATE_HELPERS <= u32::MAX,
    ensures
        match r {
            Ok(_) => helper_methods(*imp, 0, id, *module, late, old(map)@) == Ok::<
                Map<u64, u32>,
                ModuleLowerError,
            >(final(map)@),
            Err(x) => helper_methods(*imp, 0, id, *module, late, old(map)@) == Err::<
                Map<u64, u32>,
                ModuleLowerError,
            >(x),
        },
{
    let mut j: usize = 0;
    while j < imp.functions.len()
        invariant
            late + LATE_HELPERS <= u32::MAX,
            j <= imp.functions@.len(),
            helper_methods(*imp, 0, id, *module, late, old(map)@) == helper_methods(
                *imp,
                j as int,
                id,
                *module,
                late,
                map@,
            ),
        decreases imp.functions@.len() - j,
    {
        let idx: u32 = to_index(j)?;
        if let Some(h) = prelude_helper(imp.target, &imp.functions[j].name, module) {
            map.insert((ImplId(id), MethodIdx(idx)), late_helper_index(late, h));
        }
        j = j + 1;
    }
    Ok(())
}

fn assign_impl_methods(imp: &IrImpl, id: u32, offset: u32, start: u32, map: &mut MethodMap) -> (r:
    Result<u32, ModuleLowerError>)
    ensures
        match r {
            Ok(counter) => impl_methods(imp.functions@.len(), 0, id, offset, start, old(map)@)
                == Ok::<(Map<u64, u32>, u32), ModuleLowerError>((final(map)@, counter)),
            Err(x) => impl_methods(imp.functions@.len(), 0, id, offset, start, old(map)@) == Err::<
                (Map<u64, u32>, u32),
                ModuleLowerError,
            >(x),
        },
{
    let mut counter: u32 = start;
    let mut j: usize = 0;
    while j < imp.functions.len()
        invariant
            j <= imp.functions@.len(),
            impl_methods(imp.functions@.len(), 0, id, offset, start, old(map)@) == impl_methods(
                imp.functions@.len(),
                j as int,
                id,
                offset,
                counter,
                map@,
            ),
        decreases imp.functions@.len() - j,
    {
        let idx: u32 = to_index(j)?;
        let wasm: u32 = past(offset, counter)?;
        counter = succ(counter)?;
        map.insert((ImplId(id), MethodIdx(idx)), wasm);
        j = j + 1;
    }
    Ok(counter)
}

/// Assign indices to all methods but those of the host.
pub fn assign_methods(
    module: &IrModule,
    late: u32,
    offset: u32,
    map: &mut MethodMap,
) -> (r: Result<(), ModuleLowerError>)
    requires
        late + LATE_HELPERS <= u32::MAX,
    ensures
        match r {
            Ok(_) => own_methods(0, *module, late, offset, 0, old(map)@) == Ok::<
                Map<u64, u32>,
                ModuleLowerError,
            >(final(map)@),
            Err(x) => own_methods(0, *module, late, offset, 0, old(map)@) == Err::<
                Map<u64, u32>,
                ModuleLowerError,
            >(x),
        },
{
    let mut counter: u32 = 0;
    let mut i: usize = 0;
    while i < module.impls.len()
        invariant
            late + LATE_HELPERS <= u32::MAX,
            i <= module.impls@.len(),
            own_methods(0, *module, late, offset, 0, old(map)@) == own_methods(
                i as int,
                *module,
                late,
                offset,
                counter,
                map@,
            ),
        decreases module.impls@.len() - i,
    {
        let id: u32 = to_index(i)?;
        let imp = &module.impls[i];
        if imp.is_extern {
            if built_in(imp.target, module) {
                assign_helper_methods(imp, id, module, late, map)?;
            }
        } else {
            counter = assign_impl_methods(imp, id, offset, counter, map)?;
        }
        i = i + 1;
    }
    Ok(())
}

// ── all together ─────────────────────────────────────────────────────

/// The indices that bodies refer to, and what is declared behind them: the
/// helpers from `late` on, and the trampolines of the host's functions and
/// methods, given with the indices of their imports.
pub struct Indices {
    pub functions: Map<u32, u32>,
    pub methods: Map<u64, u32>,
    pub bump_allocator: u32,
    pub str_eq: u32,
    pub str_concat: u32,
    pub late: u32,
    pub hosts: Seq<(u32, u32)>,
    pub host_methods: Seq<HostMethod>,
}

/// The indices, where the module's own functions begin at `offset` and the
/// helpers at `late`.
pub open spec fn numbered(
    m: IrModule,
    bump_allocator: u32,
    offset: u32,
    late: u32,
    hosts: Seq<(u32, u32)>,
    host_methods: Seq<HostMethod>,
) -> Result<Indices, ModuleLowerError> {
    match index_past(late, LATE_HELPERS) {
        Err(x) => Err(x),
        Ok(next) => match method_slots(
            host_methods,
            0,
            m,
            Assigned { next, map: raw_methods(host_methods, host_methods.len()) },
        ) {
            Err(x) => Err(x),
            Ok(ms) => match function_slots(
                hosts,
                0,
                m,
                Assigned { next: ms.next, map: Map::empty() },
            ) {
                Err(x) => Err(x),
                Ok(fs) => match own_functions(m.functions@, 0, m, offset, 0, fs.map) {
                    Err(x) => Err(x),
                    Ok((functions, counter)) => match index_past(offset, counter) {
                        Err(x) => Err(x),
                        Ok(start) => match own_methods(0, m, late, start, 0, ms.map) {
                            Err(x) => Err(x),
                            Ok(methods) => Ok(
                                Indices {
                                    functions,
                                    methods,
                                    bump_allocator,
                                    str_eq: late,
                                    str_concat: (late + 1) as u32,
                                    late,
                                    hosts,
                                    host_methods,
                                },
                            ),
                        },
                    },
                },
            },
        },
    }
}

/// All indices, and the builder with the allocation helper behind the
/// imports, which `b` holds. The module's own functions come next.
pub open spec fn arranged(
    m: IrModule,
    b: BuilderView,
    hosts: Seq<(u32, u32)>,
    host_methods: Seq<HostMethod>,
) -> Result<(Indices, BuilderView), ModuleLowerError> {
    let b1 = b.with_bump();
    match crate::module_lowering::error::next_index(b1.bump_allocator->0) {
        Err(x) => Err(x),
        Ok(offset) => match past_functions(m.functions@, 0, m, offset) {
            Err(x) => Err(x),
            Ok(at) => match past_methods(m.impls@, 0, at) {
                Err(x) => Err(x),
                Ok(late) => match numbered(
                    m,
                    b1.bump_allocator->0,
                    offset,
                    late,
                    hosts,
                    host_methods,
                ) {
                    Err(x) => Err(x),
                    Ok(at) => Ok((at, b1)),
                },
            },
        },
    }
}

/// The indices of everything in a module, and the builder with the imports
/// and the allocation helper.
pub open spec fn indexed(m: IrModule, b: BuilderView) -> Result<
    (Indices, BuilderView),
    ModuleLowerError,
> {
    match host_functions(m.functions@, 0, m, b, Seq::empty()) {
        Err(x) => Err(x),
        Ok((b1, hosts)) => match host_methods(0, m, b1, Seq::empty()) {
            Err(x) => Err(x),
            Ok((b2, methods)) => arranged(m, b2, hosts, methods),
        },
    }
}

/// The builder with the helpers and trampolines behind the module's own
/// functions and methods, which `b` holds.
#[verifier::opaque]
pub open spec fn with_late(m: IrModule, at: Indices, b: BuilderView) -> Result<
    BuilderView,
    ModuleLowerError,
> {
    match index_past(at.late, LATE_HELPERS) {
        Err(x) => Err(x),
        Ok(next) => if b.next_function() != at.late {
            Err(ModuleLowerError::TooManyFunctions)
        } else {
            match method_trampolines(
                at.host_methods,
                0,
                m,
                Emitted { builder: with_runtime(b).with_cabi_realloc(), next },
            ) {
                Err(x) => Err(x),
                Ok(ms) => match function_trampolines(at.hosts, 0, m, ms) {
                    Err(x) => Err(x),
                    Ok(fs) => Ok(fs.builder),
                },
            }
        },
    }
}

/// Index of everything that can be called, and what is declared behind it.
#[derive(Debug)]
pub struct IndexTables {
    pub functions: FunctionMap,
    pub methods: MethodMap,
    pub bump_allocator: u32,
    pub str_eq: u32,
    pub str_concat: u32,
    pub late: u32,
    pub hosts: Vec<(u32, u32)>,
    pub host_methods: Vec<HostMethod>,
}

impl View for IndexTables {
    type V = Indices;

    open spec fn view(&self) -> Indices {
        Indices {
            functions: self.functions@,
            methods: self.methods@,
            bump_allocator: self.bump_allocator,
            str_eq: self.str_eq,
            str_concat: self.str_concat,
            late: self.late,
            hosts: self.hosts@,
            host_methods: self.host_methods@,
        }
    }
}

fn number_all(
    module: &IrModule,
    bump_allocator: u32,
    offset: u32,
    late: u32,
    hosts: Vec<(u32, u32)>,
    host_methods: Vec<HostMethod>,
) -> (r: Result<IndexTables, ModuleLowerError>)
    ensures
        match r {
            Ok(t) => numbered(*module, bump_allocator, offset, late, hosts@, host_methods@)
                == Ok::<Indices, ModuleLowerError>(t@),
            Err(x) => numbered(*module, bump_allocator, offset, late, hosts@, host_methods@)
                == Err::<Indices, ModuleLowerError>(x),
        },
{
    let next: u32 = past(late, LATE_HELPERS)?;
    let mut methods = register_raw_methods(&host_methods);
    let after: u32 = assign_method_trampolines(&host_methods, module, next, &mut methods)?;
    let mut functions = FunctionMap::new();
    let _ = assign_function_trampolines(&hosts, module, after, &mut functions)?;
    let counter: u32 = assign_functions(module, offset, &mut functions)?;
    let start: u32 = past(offset, counter)?;
    assign_methods(module, late, start, &mut methods)?;
    Ok(
        IndexTables {
            functions,
            methods,
            bump_allocator,
            str_eq: late,
            str_concat: late + 1,
            late,
            hosts,
            host_methods,
        },
    )
}

/// Declare the imports and the allocation helper, and give everything that can
/// be called its index.
pub fn build_indices(module: &IrModule, builder: &mut ModuleBuilder) -> (r: Result<
    IndexTables,
    ModuleLowerError,
>)
    ensures
        match r {
            Ok(t) => indexed(*module, old(builder)@) == Ok::<
                (Indices, BuilderView),
                ModuleLowerError,
            >((t@, final(builder)@)),
            Err(x) => indexed(*module, old(builder)@) == Err::<
                (Indices, BuilderView),
                ModuleLowerError,
            >(x),
        },
{
    let hosts = import_host_functions(module, builder)?;
    let host_methods = import_host_methods(module, builder)?;
    let bump_allocator: u32 = builder.declare_bump_allocator();
    let offset: u32 = succ(bump_allocator)?;
    let late: u32 = find_late(module, offset)?;
    number_all(module, bump_allocator, offset, late, hosts, host_methods)
}

/// Declare the helpers and trampolines behind the module's own functions and
/// methods.
pub fn declare_late(module: &IrModule, at: &IndexTables, builder: &mut ModuleBuilder) -> (r: Result<
    (),
    ModuleLowerError,
>)
    ensures
        crate::module_lowering::emit::built(
            r,
            final(builder)@,
            with_late(*module, at@, old(builder)@),
        ),
{
    proof {
        reveal(with_late);
    }
    let next: u32 = past(at.late, LATE_HELPERS)?;
    if builder.function_count() != at.late {
        return Err(ModuleLowerError::TooManyFunctions);
    }
    let _ = builder.declare_bump_allocator();
    let _ = builder.declare_str_eq();
    let _ = builder.declare_str_concat();
    declare_prelude_helpers(builder);
    let _ = builder.declare_cabi_realloc();
    let after: u32 = emit_method_trampolines(&at.host_methods, module, builder, next)?;
    let _ = emit_function_trampolines(&at.hosts, module, builder, after)?;
    Ok(())
}

} // verus!
