//! From a module of the intermediate representation to a core-wasm module.

use vstd::prelude::*;

use crate::ir::IrModule;
use crate::lower::block::{ClosureCallContext, VTableContext};
use crate::lower::context::Cx;
use crate::module::{BuilderView, ModuleBuilder};
use crate::module_lowering::closures::{build_closure_plumbing, ClosureParts};
use crate::module_lowering::emit::{emit_functions, emit_impls, Surroundings};
use crate::module_lowering::error::ModuleLowerError;
use crate::module_lowering::indices::{build_indices, declare_late, Indices};
use crate::module_lowering::vtables::{build_vtable_plumbing, VTablePlumbing, VtableParts};
use crate::module_lowering::walk::collect_string_literals;
use crate::string_pool::{PoolView, StringPool};

pub mod boundary;
pub mod building;
pub mod cabi;
pub mod closures;
pub mod emit;
pub mod error;
pub mod exports;
pub mod helpers;
pub mod indices;
pub mod inheritance;
pub mod nesting;
pub mod order;
pub mod placement;
pub mod signature;
pub mod slots;
pub mod tables;
pub mod texts;
pub mod vtables;
pub mod walk;
pub mod wrappers;

verus! {

/// What the bodies of a module are lowered with.
pub open spec fn surroundings(
    m: IrModule,
    pool: PoolView,
    at: Indices,
    closures: Option<ClosureParts>,
    vtables: Option<VtableParts>,
) -> Cx {
    Cx {
        bindings: Map::empty(),
        functions: at.functions,
        methods: Some(at.methods),
        module: Some(m),
        bump_allocator: Some(at.bump_allocator),
        self_struct_id: None,
        closure_table: match closures {
            Some(c) => Some(c.table),
            None => None,
        },
        closure_funcref_indices: match closures {
            Some(c) => Some(c.slots),
            None => None,
        },
        closure_type_indices: match closures {
            Some(c) => Some(c.types),
            None => None,
        },
        method_table: match vtables {
            Some(v) => Some(v.table),
            None => None,
        },
        virtual_call_types: match vtables {
            Some(v) => Some(v.types),
            None => None,
        },
        vtable_offsets: match vtables {
            Some(v) => Some(v.offsets),
            None => None,
        },
        string_pool: Some(pool.offsets),
        str_eq: Some(at.str_eq),
        str_concat: Some(at.str_concat),
    }
}

/// The static data: the text literals, and behind them the method tables at
/// their base.
pub open spec fn static_data(texts: Seq<u8>, vtables: Option<VtableParts>) -> Seq<u8> {
    match vtables {
        None => texts,
        Some(v) => if texts.len() < v.base {
            texts + crate::string_pool::zeros((v.base - texts.len()) as nat) + v.data
        } else {
            texts + v.data
        },
    }
}

/// The builder with all functions and methods that the module defines, the
/// helpers and trampolines behind them, and the static data.
pub open spec fn with_bodies(
    m: IrModule,
    pool: PoolView,
    at: Indices,
    cx: Cx,
    vtables: Option<VtableParts>,
    b: BuilderView,
) -> Result<BuilderView, ModuleLowerError> {
    match crate::module_lowering::emit::with_functions(m.functions@, 0, b, cx, m) {
        Err(x) => Err(x),
        Ok(b1) => match crate::module_lowering::emit::with_impls(m.impls@, 0, b1, cx, m) {
            Err(x) => Err(x),
            Ok(b2) => match crate::module_lowering::indices::with_late(m, at, b2) {
                Err(x) => Err(x),
                Ok(b3) => Ok(
                    BuilderView { static_data: static_data(pool.data, vtables), ..b3 },
                ),
            },
        },
    }
}

/// The builder with the tables for closure and virtual calls, and all bodies.
pub open spec fn with_tables(m: IrModule, pool: PoolView, at: Indices, b: BuilderView) -> Result<
    BuilderView,
    ModuleLowerError,
> {
    match crate::module_lowering::closures::closure_parts(b, m, at.functions) {
        Err(x) => Err(x),
        Ok((closures, b1)) => if pool.data.len() > u32::MAX {
            Err(ModuleLowerError::VtableDataOverflow)
        } else {
            match crate::module_lowering::vtables::vtable_parts(
                b1,
                m,
                at.methods,
                pool.data.len() as u32,
            ) {
                Err(x) => Err(x),
                Ok((vtables, b2)) => with_bodies(
                    m,
                    pool,
                    at,
                    surroundings(m, pool, at, closures, vtables),
                    vtables,
                    b2,
                ),
            }
        },
    }
}

/// The content of the core-wasm module that a module is lowered to.
pub open spec fn lowered(m: IrModule) -> Result<BuilderView, ModuleLowerError> {
    match crate::module_lowering::walk::module_texts(m, PoolView::empty()) {
        Err(x) => Err(x),
        Ok(pool) => match crate::module_lowering::indices::indexed(m, crate::module::fresh()) {
            Err(x) => Err(x),
            Ok((at, b)) => with_tables(m, pool, at, b),
        },
    }
}

fn join_static_data(texts: &Vec<u8>, vtables: &Option<VTablePlumbing>) -> (r: Vec<u8>)
    ensures
        r@ == static_data(texts@, crate::module_lowering::closures::optional_view(*vtables)),
{
    let mut data: Vec<u8> = Vec::new();
    data.extend_from_slice(texts.as_slice());
    proof {
        assert(data@ =~= texts@);
    }
    if let Some(v) = vtables {
        while data.len() < v.vtable_data_base as usize
            invariant
                data@ == texts@ + crate::string_pool::zeros((data@.len() - texts@.len()) as nat),
                data@.len() >= texts@.len(),
                data@.len() <= v.vtable_data_base || data@.len() == texts@.len(),
            decreases v.vtable_data_base - data@.len(),
        {
            data.push(0);
            proof {
                assert(data@ =~= texts@ + crate::string_pool::zeros(
                    (data@.len() - texts@.len()) as nat,
                ));
            }
        }
        proof {
            assert(texts@ + crate::string_pool::zeros(0) =~= texts@);
        }
        let ghost padded = data@;
        data.extend_from_slice(v.vtable_data.as_slice());
        proof {
            assert(data@ =~= padded + v.vtable_data@);
        }
    }
    data
}

fn lower_bodies(
    module: &IrModule,
    texts: &StringPool,
    builder: &mut ModuleBuilder,
) -> (r: Result<(), ModuleLowerError>)
    ensures
        crate::module_lowering::emit::built(
            r,
            final(builder)@,
            match crate::module_lowering::indices::indexed(*module, old(builder)@) {
                Err(x) => Err(x),
                Ok((at, b)) => with_tables(*module, texts@, at, b),
            },
        ),
{
    let at = build_indices(module, builder)?;
    let closure_plumbing = build_closure_plumbing(builder, module, &at.functions)?;
    let closures: Option<ClosureCallContext<'_>> = match &closure_plumbing {
        Some(p) => Some(
            ClosureCallContext {
                table_idx: p.table_idx,
                funcref_indices: &p.funcref_indices,
                type_indices: &p.type_indices,
            },
        ),
        None => None,
    };
    let len: usize = texts.data().len();
    if len > 0xffff_ffff {
        return Err(ModuleLowerError::VtableDataOverflow);
    }
    let vtable_plumbing = build_vtable_plumbing(builder, module, &at.methods, len as u32)?;
    let vtables: Option<VTableContext<'_>> = match &vtable_plumbing {
        Some(p) => Some(
            VTableContext {
                table_idx: p.table_idx,
                vtable_offsets: &p.vtable_offsets,
                call_type_indices: &p.call_type_indices,
            },
        ),
        None => None,
    };
    let env = Surroundings {
        functions: &at.functions,
        methods: &at.methods,
        module,
        bump_allocator: at.bump_allocator,
        closures,
        vtables,
        string_pool: texts.lookup_map(),
        str_eq: at.str_eq,
        str_concat: at.str_concat,
    };
    proof {
        assert(env@ == surroundings(
            *module,
            texts@,
            at@,
            crate::module_lowering::closures::optional_view(closure_plumbing),
            crate::module_lowering::closures::optional_view(vtable_plumbing),
        ));
    }
    emit_functions(builder, &env)?;
    emit_impls(builder, &env)?;
    declare_late(module, &at, builder)?;
    builder.set_static_data(join_static_data(texts.data(), &vtable_plumbing));
    Ok(())
}

/// The bytes of the core-wasm module that a module is lowered to.
pub open spec fn lowered_bytes(m: IrModule) -> Result<Seq<u8>, ModuleLowerError> {
    match lowered(m) {
        Err(x) => Err(x),
        Ok(b) => if crate::encode::fits(b.parts()) {
            Ok(crate::encode::module_bytes(crate::encode::sections(b.parts())))
        } else {
            Err(ModuleLowerError::ModuleTooLarge)
        },
    }
}

/// Whether the names under which the core module of `m` imports and exports
/// have no brackets, and none is exported that begins like the host's module.
pub open spec fn has_plain_names(m: IrModule) -> bool {
    lowered(m) matches Ok(b) && crate::encode::own_exports(b.exports) && forall|i: int|
        0 <= i < b.imports.len() ==> !(#[trigger] b.imports[i]).name.contains('[')
}

/// Lower a module to the bytes of a core-wasm module. Where its names are
/// plain, the bytes carry only what core modules of this library carry.
pub fn lower_module(module: &IrModule) -> (r: Result<Vec<u8>, ModuleLowerError>)
    ensures
        match r {
            Ok(bytes) => {
                &&& lowered_bytes(*module) == Ok::<Seq<u8>, ModuleLowerError>(bytes@)
                &&& crate::encode::module_header().is_prefix_of(bytes@)
                &&& has_plain_names(*module) ==> crate::binary::is_own(bytes@)
            },
            Err(x) => lowered_bytes(*module) == Err::<Seq<u8>, ModuleLowerError>(x),
        },
{
    let mut texts = StringPool::new();
    collect_string_literals(module, &mut texts)?;
    let mut builder = ModuleBuilder::new();
    lower_bodies(module, &texts, &mut builder)?;
    proof {
        crate::module_lowering::order::law_imports_come_from_the_host(*module);
    }
    if !builder.fits() {
        return Err(ModuleLowerError::ModuleTooLarge);
    }
    Ok(builder.finish())
}

} // verus!
