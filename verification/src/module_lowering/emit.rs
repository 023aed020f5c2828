//! Emission of functions with their bodies.

use vstd::prelude::*;

use crate::encode::SigView;
use crate::ident::{has_prefix, kebab_case};
use crate::ir::{ImplTarget, IrFunction, IrImpl, IrModule, ResolvedType, StructId};
use crate::lower::block::{lower_function_body_in_module, ClosureCallContext, VTableContext};
use crate::lower::context::Cx;
use crate::lower::maps::{FunctionMap, MethodMap};
use crate::module::{BuilderView, ModuleBuilder};
use crate::module_lowering::error::ModuleLowerError;
use crate::module_lowering::signature::{
    detect_self_struct, lower_params_with_self, lower_results, needs_canonical_abi_wrapper,
};
use crate::module_lowering::wrappers::emit_canonical_abi_wrapper;
use crate::string_pool::TextOffsets;

verus! {

/// Everything that bodies of one module are lowered with.
#[derive(Clone, Copy, Debug)]
pub struct Surroundings<'a> {
    pub functions: &'a FunctionMap,
    pub methods: &'a MethodMap,
    pub module: &'a IrModule,
    pub bump_allocator: u32,
    pub closures: Option<ClosureCallContext<'a>>,
    pub vtables: Option<VTableContext<'a>>,
    pub string_pool: &'a TextOffsets,
    pub str_eq: u32,
    pub str_concat: u32,
}

impl<'a> View for Surroundings<'a> {
    type V = Cx;

    open spec fn view(&self) -> Cx {
        crate::lower::block::module_cx(
            self.functions@,
            self.methods@,
            *self.module,
            self.bump_allocator,
            None,
            self.closures,
            self.vtables,
            self.string_pool@,
            self.str_eq,
            self.str_concat,
        )
    }
}

/// The name of a function for debugging tools. Methods carry that of their
/// struct.
pub open spec fn debug_name(f: IrFunction, receiver: Option<StructId>, m: IrModule) -> Seq<char> {
    match receiver {
        Some(id) => match m.spec_struct(id) {
            Some(s) => crate::ident::kebab(s.name@) + "::"@ + crate::ident::kebab(f.name@),
            None => crate::ident::kebab(f.name@),
        },
        None => crate::ident::kebab(f.name@),
    }
}

/// The struct whose `self` a body reads.
pub open spec fn self_struct(f: IrFunction, receiver: Option<StructId>) -> Option<StructId> {
    match receiver {
        Some(id) => Some(id),
        None => crate::module_lowering::signature::looks_like_method_of(f),
    }
}

/// The builder with a function, exported where `exported` says so and it is
/// neither a method nor internal.
pub open spec fn with_emitted(
    f: IrFunction,
    b: BuilderView,
    cx: Cx,
    m: IrModule,
    receiver: Option<StructId>,
    exported: bool,
) -> Result<BuilderView, ModuleLowerError> {
    match f.body {
        None => Err(ModuleLowerError::MissingFunctionBody { name: f.name }),
        Some(e) => match crate::module_lowering::signature::internal_params(
            f,
            crate::module_lowering::signature::self_type(receiver),
        ) {
            Err(x) => Err(x),
            Ok(locals) => match crate::module_lowering::signature::results_of(f) {
                Err(x) => Err(x),
                Ok(results) => match crate::lower::block::module_body(
                    e,
                    f.return_type,
                    locals,
                    m,
                    Cx { self_struct_id: self_struct(f, receiver), ..cx },
                ) {
                    Err(x) => Err(ModuleLowerError::Lower(x)),
                    Ok(body) => {
                        let idx = b.next_function();
                        let b1 = b.with_helper(
                            SigView {
                                params: crate::module_lowering::signature::local_types(locals),
                                results,
                            },
                            body,
                            debug_name(f, receiver, m),
                        );
                        if receiver is None && !"__"@.is_prefix_of(f.name@) && exported {
                            with_exported(f, idx, b1, m)
                        } else {
                            Ok(b1)
                        }
                    },
                },
            },
        },
    }
}

/// The builder with the export of function `idx`, through a wrapper where
/// the boundary's form differs.
pub open spec fn with_exported(f: IrFunction, idx: u32, b: BuilderView, m: IrModule) -> Result<
    BuilderView,
    ModuleLowerError,
> {
    if crate::module_lowering::signature::needs_wrapper(f, m) {
        match crate::module_lowering::wrappers::with_wrapper(f, idx, b, m) {
            Err(x) => Err(x),
            Ok((b1, wrapper)) => Ok(b1.with_export(crate::ident::kebab(f.name@), wrapper)),
        }
    } else {
        Ok(b.with_export(crate::ident::kebab(f.name@), idx))
    }
}

/// `r` and the builder after it are what `s` says.
pub open spec fn built(
    r: Result<(), ModuleLowerError>,
    after: BuilderView,
    s: Result<BuilderView, ModuleLowerError>,
) -> bool {
    match r {
        Ok(_) => s == Ok::<BuilderView, ModuleLowerError>(after),
        Err(x) => s == Err::<BuilderView, ModuleLowerError>(x),
    }
}

/// Lower a function's body, declare it, and export it where asked.
pub fn emit_function(
    f: &IrFunction,
    builder: &mut ModuleBuilder,
    env: &Surroundings<'_>,
    receiver: Option<StructId>,
    allow_export: bool,
) -> (r: Result<(), ModuleLowerError>)
    ensures
        built(
            r,
            final(builder)@,
            with_emitted(*f, old(builder)@, env@, *env.module, receiver, allow_export),
        ),
{
    let body_expr = match &f.body {
        None => return Err(ModuleLowerError::MissingFunctionBody { name: f.name.clone() }),
        Some(e) => e,
    };
    let (types, locals) = lower_params_with_self(f, receiver)?;
    let results = lower_results(&f.return_type)?;
    let self_struct_id: Option<StructId> = match receiver {
        Some(id) => Some(id),
        None => detect_self_struct(f),
    };
    let return_ty: Option<&ResolvedType> = match &f.return_type {
        Some(t) => Some(t),
        None => None,
    };
    let body = match lower_function_body_in_module(
        body_expr,
        return_ty,
        &locals,
        env.functions,
        env.methods,
        env.module,
        env.bump_allocator,
        self_struct_id,
        env.closures,
        env.vtables,
        env.string_pool,
        env.str_eq,
        env.str_concat,
    ) {
        Ok(body) => body,
        Err(x) => return Err(ModuleLowerError::Lower(x)),
    };
    let idx: u32 = builder.declare_function_with_body(&types, &results, body);
    let mut name: String = String::new();
    if let Some(id) = receiver {
        if let Some(s) = env.module.get_struct(id) {
            name = kebab_case(&s.name);
            name.append("::");
        }
    }
    let own = kebab_case(&f.name);
    name.append(&own);
    proof {
        assert(name@ =~= debug_name(*f, receiver, *env.module));
    }
    builder.set_function_name(idx, &name);
    if receiver.is_none() && !has_prefix(&f.name, "__") && allow_export {
        let export_idx: u32 = if needs_canonical_abi_wrapper(f, env.module) {
            emit_canonical_abi_wrapper(f, idx, builder, env.module)?
        } else {
            idx
        };
        builder.export_function(&own, export_idx);
    }
    Ok(())
}

/// The receiver struct of an impl block's methods.
pub open spec fn receiver_of(target: ImplTarget) -> Option<StructId> {
    match target {
        ImplTarget::Struct(id) => Some(id),
        _ => None,
    }
}

/// The builder with the methods of an impl block, from method `j` on. None
/// is exported.
pub open spec fn with_methods(
    fs: Seq<IrFunction>,
    j: int,
    b: BuilderView,
    cx: Cx,
    m: IrModule,
    receiver: Option<StructId>,
) -> Result<BuilderView, ModuleLowerError>
    decreases fs.len() - j,
{
    if j < 0 || j >= fs.len() {
        Ok(b)
    } else {
        match with_emitted(fs[j], b, cx, m, receiver, false) {
            Err(x) => Err(x),
            Ok(b1) => with_methods(fs, j + 1, b1, cx, m, receiver),
        }
    }
}

/// Emit the methods of an impl block.
pub fn emit_impl(imp: &IrImpl, builder: &mut ModuleBuilder, env: &Surroundings<'_>) -> (r: Result<
    (),
    ModuleLowerError,
>)
    ensures
        built(
            r,
            final(builder)@,
            with_methods(
                imp.functions@,
                0,
                old(builder)@,
                env@,
                *env.module,
                receiver_of(imp.target),
            ),
        ),
{
    let receiver: Option<StructId> = match imp.target {
        ImplTarget::Struct(id) => Some(id),
        ImplTarget::Enum(_) | ImplTarget::Primitive(_) => None,
    };
    let mut j: usize = 0;
    while j < imp.functions.len()
        invariant
            j <= imp.functions@.len(),
            receiver == receiver_of(imp.target),
            with_methods(imp.functions@, 0, old(builder)@, env@, *env.module, receiver)
                == with_methods(
                imp.functions@,
                j as int,
                builder@,
                env@,
                *env.module,
                receiver,
            ),
        decreases imp.functions@.len() - j,
    {
        emit_function(&imp.functions[j], builder, env, receiver, false)?;
        j = j + 1;
    }
    Ok(())
}

/// Whether a function may be exported: it has a body of its own and its name
/// is not internal.
pub open spec fn is_candidate(f: IrFunction) -> bool {
    !f.is_extern && !"__"@.is_prefix_of(f.name@)
}

/// Whether one of the first `k` functions is a candidate with the exported
/// name `name`.
pub open spec fn name_taken(fs: Seq<IrFunction>, k: nat, name: Seq<char>) -> bool
    decreases k,
{
    if k == 0 {
        false
    } else {
        name_taken(fs, (k - 1) as nat, name) || (is_candidate(fs[k - 1]) && crate::ident::kebab(
            fs[k - 1].name@,
        ) == name)
    }
}

/// Whether a function is the first candidate with its exported name.
pub open spec fn wins_export(fs: Seq<IrFunction>, i: int) -> bool {
    is_candidate(fs[i]) && !name_taken(fs, i as nat, crate::ident::kebab(fs[i].name@))
}

/// The builder with the functions that the module defines, from function `i`
/// on.
pub open spec fn with_functions(
    fs: Seq<IrFunction>,
    i: int,
    b: BuilderView,
    cx: Cx,
    m: IrModule,
) -> Result<BuilderView, ModuleLowerError>
    decreases fs.len() - i,
{
    if i < 0 || i >= fs.len() {
        Ok(b)
    } else if fs[i].is_extern {
        with_functions(fs, i + 1, b, cx, m)
    } else {
        match with_emitted(fs[i], b, cx, m, None, wins_export(fs, i)) {
            Err(x) => Err(x),
            Ok(b1) => with_functions(fs, i + 1, b1, cx, m),
        }
    }
}

/// The exported name of a candidate.
pub open spec fn candidate_name(f: IrFunction) -> Option<Seq<char>> {
    if is_candidate(f) {
        Some(crate::ident::kebab(f.name@))
    } else {
        None
    }
}

/// `names` holds the exported names of the candidates among the functions.
pub open spec fn names_candidates(names: Seq<Option<String>>, fs: Seq<IrFunction>) -> bool {
    &&& names.len() <= fs.len()
    &&& forall|k: int|
        0 <= k < names.len() ==> match #[trigger] names[k] {
            Some(name) => candidate_name(fs[k]) == Some(name@),
            None => candidate_name(fs[k]) is None,
        }
}

/// Whether one of the candidates listed so far has the exported name `name`.
fn is_taken(names: &Vec<Option<String>>, name: &String, Ghost(fs): Ghost<Seq<IrFunction>>) -> (r:
    bool)
    requires
        names_candidates(names@, fs),
    ensures
        r == name_taken(fs, names@.len(), name@),
{
    let mut found = false;
    let mut j: usize = 0;
    while j < names.len()
        invariant
            j <= names@.len(),
            names_candidates(names@, fs),
            found == name_taken(fs, j as nat, name@),
        decreases names@.len() - j,
    {
        if let Some(other) = &names[j] {
            if *other == *name {
                found = true;
            }
        }
        j = j + 1;
    }
    found
}

/// Which functions are exported: the first candidate of each exported name.
pub fn export_winners(fs: &Vec<IrFunction>) -> (r: Vec<bool>)
    ensures
        r@.len() == fs@.len(),
        forall|i: int| 0 <= i < fs@.len() ==> #[trigger] r@[i] == wins_export(fs@, i),
{
    let mut names: Vec<Option<String>> = Vec::new();
    let mut winners: Vec<bool> = Vec::new();
    let mut i: usize = 0;
    while i < fs.len()
        invariant
            i <= fs@.len(),
            names@.len() == i,
            winners@.len() == i,
            names_candidates(names@, fs@),
            forall|k: int| 0 <= k < i ==> #[trigger] winners@[k] == wins_export(fs@, k),
        decreases fs@.len() - i,
    {
        let f = &fs[i];
        if !f.is_extern && !has_prefix(&f.name, "__") {
            let name = kebab_case(&f.name);
            let taken = is_taken(&names, &name, Ghost(fs@));
            winners.push(!taken);
            names.push(Some(name));
        } else {
            winners.push(false);
            names.push(None);
        }
        i = i + 1;
    }
    winners
}

/// Emit the functions that the module defines. Of functions with one
/// exported name only the first is exported.
pub fn emit_functions(builder: &mut ModuleBuilder, env: &Surroundings<'_>) -> (r: Result<
    (),
    ModuleLowerError,
>)
    ensures
        built(
            r,
            final(builder)@,
            with_functions(env.module.functions@, 0, old(builder)@, env@, *env.module),
        ),
{
    let fs = &env.module.functions;
    let winners = export_winners(fs);
    let mut i: usize = 0;
    while i < fs.len()
        invariant
            *fs == env.module.functions,
            i <= fs@.len(),
            winners@.len() == fs@.len(),
            forall|k: int| 0 <= k < fs@.len() ==> #[trigger] winners@[k] == wins_export(fs@, k),
            with_functions(fs@, 0, old(builder)@, env@, *env.module) == with_functions(
                fs@,
                i as int,
                builder@,
                env@,
                *env.module,
            ),
        decreases fs@.len() - i,
    {
        if !fs[i].is_extern {
            emit_function(&fs[i], builder, env, None, winners[i])?;
        }
        i = i + 1;
    }
    Ok(())
}

/// The builder with the methods that the module defines, from impl block `i`
/// on.
pub open spec fn with_impls(
    impls: Seq<IrImpl>,
    i: int,
    b: BuilderView,
    cx: Cx,
    m: IrModule,
) -> Result<BuilderView, ModuleLowerError>
    decreases impls.len() - i,
{
    if i < 0 || i >= impls.len() {
        Ok(b)
    } else if impls[i].is_extern {
        with_impls(impls, i + 1, b, cx, m)
    } else {
        match with_methods(impls[i].functions@, 0, b, cx, m, receiver_of(impls[i].target)) {
            Err(x) => Err(x),
            Ok(b1) => with_impls(impls, i + 1, b1, cx, m),
        }
    }
}

/// Emit the methods that the module defines.
pub fn emit_impls(builder: &mut ModuleBuilder, env: &Surroundings<'_>) -> (r: Result<
    (),
    ModuleLowerError,
>)
    ensures
        built(
            r,
            final(builder)@,
            with_impls(env.module.impls@, 0, old(builder)@, env@, *env.module),
        ),
{
    let impls = &env.module.impls;
    let mut i: usize = 0;
    while i < impls.len()
        invariant
            *impls == env.module.impls,
            i <= impls@.len(),
            with_impls(impls@, 0, old(builder)@, env@, *env.module) == with_impls(
                impls@,
                i as int,
                builder@,
                env@,
                *env.module,
            ),
        decreases impls@.len() - i,
    {
        if !impls[i].is_extern {
            emit_impl(&impls[i], builder, env)?;
        }
        i = i + 1;
    }
    Ok(())
}

} // verus!
