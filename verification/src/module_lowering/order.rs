//! The order of functions in a core module: imports, the allocation helper,
//! the module's own functions, its own methods, and the other helpers.

use vstd::prelude::*;

use crate::encode::SigView;
use crate::ir::{IrFunction, IrImpl, IrModule, StructId};
use crate::lower::context::Cx;
use crate::module::BuilderView;
use crate::module_lowering::error::ModuleLowerError;
use crate::module_lowering::indices::HostMethod;
use crate::string_pool::PoolView;

verus! {

/// How many indices the module's own functions take, from function `i` up to
/// function `k`.
pub open spec fn taken_by_functions(fs: Seq<IrFunction>, i: int, k: int, m: IrModule) -> nat
    decreases k - i,
{
    if i >= k {
        0
    } else {
        taken_by_functions(fs, i + 1, k, m) + if fs[i].is_extern {
            0
        } else {
            crate::module_lowering::indices::width(fs, i, m) as nat
        }
    }
}

/// How many indices the module's own methods take, from impl block `i` on.
pub open spec fn taken_by_methods(impls: Seq<IrImpl>, i: int) -> nat
    decreases impls.len() - i,
{
    if i < 0 || i >= impls.len() {
        0
    } else {
        taken_by_methods(impls, i + 1) + if impls[i].is_extern {
            0
        } else {
            impls[i].functions@.len()
        }
    }
}

proof fn lemma_own_functions(
    fs: Seq<IrFunction>,
    i: int,
    m: IrModule,
    offset: u32,
    counter: u32,
    map: Map<u32, u32>,
)
    requires
        0 <= i <= fs.len(),
    ensures
        crate::module_lowering::indices::own_functions(fs, i, m, offset, counter, map) matches Ok(x)
            ==> {
            &&& x.1 == counter + taken_by_functions(fs, i, fs.len() as int, m)
            &&& forall|k: u32| k < i && #[trigger] map.dom().contains(k) ==> x.0.dom().contains(k)
                && x.0[k] == map[k]
            &&& forall|k: int|
                i <= k < fs.len() && !(#[trigger] fs[k]).is_extern ==> {
                    &&& k <= u32::MAX
                    &&& x.0.dom().contains(k as u32)
                    &&& x.0[k as u32] == offset + counter + taken_by_functions(fs, i, k, m)
                }
        },
    decreases fs.len() - i,
{
    if let Ok(x) = crate::module_lowering::indices::own_functions(
        fs,
        i,
        m,
        offset,
        counter,
        map,
    ) {
        if i < fs.len() {
            if fs[i].is_extern {
                lemma_own_functions(fs, i + 1, m, offset, counter, map);
            } else {
                let w = crate::module_lowering::indices::width(fs, i, m);
                let map1 = map.insert(i as u32, (offset + counter) as u32);
                lemma_own_functions(fs, i + 1, m, offset, (counter + w) as u32, map1);
                assert(map1.dom().contains(i as u32));
                assert forall|k: u32| k < i && #[trigger] map.dom().contains(k) implies x.0.dom().contains(
                    k,
                ) && x.0[k] == map[k] by {
                    assert(map1.dom().contains(k));
                }
            }
        }
    }
}

proof fn lemma_past_functions(fs: Seq<IrFunction>, i: int, m: IrModule, at: u32)
    requires
        0 <= i <= fs.len(),
    ensures
        crate::module_lowering::indices::past_functions(fs, i, m, at) matches Ok(x) ==> x == at
            + taken_by_functions(fs, i, fs.len() as int, m),
    decreases fs.len() - i,
{
    if i < fs.len() {
        if fs[i].is_extern {
            lemma_past_functions(fs, i + 1, m, at);
        } else {
            let w = crate::module_lowering::indices::width(fs, i, m);
            if at + w <= u32::MAX {
                lemma_past_functions(fs, i + 1, m, (at + w) as u32);
            }
        }
    }
}

proof fn lemma_past_methods(impls: Seq<IrImpl>, i: int, at: u32)
    requires
        0 <= i <= impls.len(),
    ensures
        crate::module_lowering::indices::past_methods(impls, i, at) matches Ok(x) ==> x == at
            + taken_by_methods(impls, i),
    decreases impls.len() - i,
{
    if i < impls.len() {
        let n = impls[i].functions@.len();
        if impls[i].is_extern {
            lemma_past_methods(impls, i + 1, at);
        } else if at + n <= u32::MAX {
            lemma_past_methods(impls, i + 1, (at + n) as u32);
        }
    }
}

/// The helpers behind functions and methods begin where these end.
proof fn lemma_late_index(m: IrModule)
    requires
        crate::module_lowering::indices::indexed(m, crate::module::fresh()) is Ok,
    ensures
        ({
            let (at, b) = crate::module_lowering::indices::indexed(
                m,
                crate::module::fresh(),
            )->Ok_0;
            &&& at.bump_allocator == b.imports.len()
            &&& at.late == at.bump_allocator + 1 + taken_by_functions(
                m.functions@,
                0,
                m.functions@.len() as int,
                m,
            ) + taken_by_methods(m.impls@, 0)
        }),
{
    let s = crate::module_lowering::placement::lemma_indexed(m);
    let (at, b) = crate::module_lowering::indices::indexed(m, crate::module::fresh())->Ok_0;
    lemma_past_functions(m.functions@, 0, m, s.offset);
    if let Ok(past) = crate::module_lowering::indices::past_functions(
        m.functions@,
        0,
        m,
        s.offset,
    ) {
        lemma_past_methods(m.impls@, 0, past);
    }
}

/// Functions stand in this order: the imports; the allocation helper; the
/// module's own functions as it lists them, each with its wrapper where it has
/// one; its own methods; the other helpers.
pub proof fn law_functions_are_numbered_in_order(m: IrModule)
    requires
        crate::module_lowering::lowered(m) is Ok,
    ensures
        ({
            let at = crate::module_lowering::placement::call_indices(m);
            let first = crate::module_lowering::lowered(m)->Ok_0.imports.len() + 1;
            let fs = m.functions@;
            &&& at.bump_allocator + 1 == first
            &&& forall|k: int|
                0 <= k < fs.len() && !(#[trigger] fs[k]).is_extern ==> {
                    &&& k <= u32::MAX
                    &&& at.functions.dom().contains(k as u32)
                    &&& at.functions[k as u32] == first + taken_by_functions(fs, 0, k, m)
                }
            &&& at.late == first + taken_by_functions(fs, 0, fs.len() as int, m)
                + taken_by_methods(m.impls@, 0)
            &&& at.str_eq == at.late
        }),
{
    let (at, b) = crate::module_lowering::indices::indexed(m, crate::module::fresh())->Ok_0;
    let s = crate::module_lowering::placement::lemma_indexed(m);
    lemma_late_index(m);
    lemma_own_functions(m.functions@, 0, m, s.offset, 0, s.functions);
    lemma_imports_stay(m);
}

/// In a module without host functions, host methods and wrappers, the function
/// at position `i` has the index `i + 1`: the allocation helper has 0.
pub proof fn law_plain_functions_follow_the_allocator(m: IrModule, i: int)
    requires
        crate::module_lowering::lowered(m) is Ok,
        forall|k: int|
            0 <= k < m.functions@.len() ==> !(#[trigger] m.functions@[k]).is_extern
                && crate::module_lowering::indices::width(m.functions@, k, m) == 1,
        forall|k: int| 0 <= k < m.impls@.len() ==> !(#[trigger] m.impls@[k]).is_extern,
        0 <= i < m.functions@.len(),
    ensures
        i <= u32::MAX,
        crate::module_lowering::placement::call_indices(m).functions.dom().contains(i as u32),
        crate::module_lowering::placement::call_indices(m).functions[i as u32] == i + 1,
{
    law_functions_are_numbered_in_order(m);
    lemma_imports_stay(m);
    lemma_no_host_functions(m.functions@, 0, m, crate::module::fresh(), Seq::empty());
    lemma_no_host_methods(0, m, crate::module::fresh(), Seq::empty());
    lemma_one_each(m.functions@, 0, i, m);
    assert(!m.functions@[i].is_extern);
}

proof fn lemma_one_each(fs: Seq<IrFunction>, i: int, k: int, m: IrModule)
    requires
        0 <= i <= k <= fs.len(),
        forall|j: int|
            0 <= j < fs.len() ==> !(#[trigger] fs[j]).is_extern
                && crate::module_lowering::indices::width(fs, j, m) == 1,
    ensures
        taken_by_functions(fs, i, k, m) == k - i,
    decreases k - i,
{
    if i < k {
        lemma_one_each(fs, i + 1, k, m);
        assert(!fs[i].is_extern);
    }
}

proof fn lemma_no_host_functions(
    fs: Seq<IrFunction>,
    i: int,
    m: IrModule,
    b: BuilderView,
    out: Seq<(u32, u32)>,
)
    requires
        0 <= i <= fs.len(),
        forall|k: int| 0 <= k < fs.len() ==> !(#[trigger] fs[k]).is_extern,
    ensures
        crate::module_lowering::indices::host_functions(fs, i, m, b, out) == Ok::<
            (BuilderView, Seq<(u32, u32)>),
            ModuleLowerError,
        >((b, out)),
    decreases fs.len() - i,
{
    if i < fs.len() {
        lemma_no_host_functions(fs, i + 1, m, b, out);
    }
}

proof fn lemma_no_host_methods(i: int, m: IrModule, b: BuilderView, out: Seq<HostMethod>)
    requires
        0 <= i <= m.impls@.len(),
        forall|k: int| 0 <= k < m.impls@.len() ==> !(#[trigger] m.impls@[k]).is_extern,
    ensures
        crate::module_lowering::indices::host_methods(i, m, b, out) == Ok::<
            (BuilderView, Seq<HostMethod>),
            ModuleLowerError,
        >((b, out)),
    decreases m.impls@.len() - i,
{
    if i < m.impls@.len() {
        lemma_no_host_methods(i + 1, m, b, out);
    }
}

/// Everything that a core module imports comes from the host's module.
pub proof fn law_imports_come_from_the_host(m: IrModule)
    ensures
        crate::module_lowering::lowered(m) matches Ok(b) ==> forall|i: int|
            0 <= i < b.imports.len() ==> (#[trigger] b.imports[i]).module
                == crate::module::IMPORT_MODULE_NAME@,
{
    if crate::module_lowering::lowered(m) is Ok {
        lemma_imports_stay(m);
        let b0 = crate::module::fresh();
        lemma_host_functions_from(m.functions@, 0, m, b0, Seq::empty());
        if let Ok((b1, _)) = crate::module_lowering::indices::host_functions(
            m.functions@,
            0,
            m,
            b0,
            Seq::empty(),
        ) {
            lemma_host_methods_from(0, m, b1, Seq::empty());
        }
    }
}

/// Everything that a builder imports comes from the host's module.
spec fn from_host(b: BuilderView) -> bool {
    forall|i: int|
        0 <= i < b.imports.len() ==> (#[trigger] b.imports[i]).module
            == crate::module::IMPORT_MODULE_NAME@
}

proof fn lemma_host_functions_from(
    fs: Seq<IrFunction>,
    i: int,
    m: IrModule,
    b: BuilderView,
    out: Seq<(u32, u32)>,
)
    requires
        0 <= i <= fs.len(),
        from_host(b),
    ensures
        crate::module_lowering::indices::host_functions(fs, i, m, b, out) matches Ok((end, _))
            ==> from_host(end),
    decreases fs.len() - i,
{
    if i < fs.len() {
        if !fs[i].is_extern {
            lemma_host_functions_from(fs, i + 1, m, b, out);
        } else {
            let params = crate::module_lowering::signature::import_params(
                fs[i].params@,
                0,
                fs[i].name,
                m,
                Seq::empty(),
            );
            let results = crate::module_lowering::signature::results_of(fs[i]);
            if params is Ok && results is Ok && i <= u32::MAX {
                let b1 = b.with_import(
                    crate::module::IMPORT_MODULE_NAME@,
                    crate::ident::kebab(fs[i].name@),
                    SigView { params: params->Ok_0, results: results->Ok_0 },
                );
                assert(from_host(b1));
                lemma_host_functions_from(
                    fs,
                    i + 1,
                    m,
                    b1,
                    out.push((i as u32, crate::survey::index_u32(b.imports.len() as int))),
                );
            }
        }
    }
}

proof fn lemma_impl_imports_from(
    imp: IrImpl,
    j: int,
    id: u32,
    name: Seq<char>,
    m: IrModule,
    b: BuilderView,
    out: Seq<HostMethod>,
)
    requires
        0 <= j <= imp.functions@.len(),
        from_host(b),
    ensures
        crate::module_lowering::indices::impl_imports(imp, j, id, name, m, b, out) matches Ok(
            (end, _),
        ) ==> from_host(end),
    decreases imp.functions@.len() - j,
{
    if j < imp.functions@.len() {
        let f = imp.functions@[j];
        let locals = crate::module_lowering::signature::internal_params(
            f,
            crate::module_lowering::indices::receiver_type(imp.target),
        );
        let results = crate::module_lowering::signature::results_of(f);
        if locals is Ok && results is Ok && j <= u32::MAX {
            let b1 = b.with_import(
                crate::module::IMPORT_MODULE_NAME@,
                crate::ident::kebab(name) + "-"@ + crate::ident::kebab(f.name@),
                SigView {
                    params: crate::module_lowering::indices::boundary_params(
                        crate::module_lowering::signature::local_types(locals->Ok_0),
                        crate::module_lowering::indices::drops_receiver(imp.target, m),
                    ),
                    results: results->Ok_0,
                },
            );
            assert(from_host(b1));
            lemma_impl_imports_from(
                imp,
                j + 1,
                id,
                name,
                m,
                b1,
                out.push((id, j as u32, crate::survey::index_u32(b.imports.len() as int))),
            );
        }
    }
}

proof fn lemma_host_methods_from(i: int, m: IrModule, b: BuilderView, out: Seq<HostMethod>)
    requires
        0 <= i <= m.impls@.len(),
        from_host(b),
    ensures
        crate::module_lowering::indices::host_methods(i, m, b, out) matches Ok((end, _))
            ==> from_host(end),
    decreases m.impls@.len() - i,
{
    if i < m.impls@.len() {
        let imp = m.impls@[i];
        if !imp.is_extern || crate::module_lowering::indices::is_built_in(imp.target, m) {
            lemma_host_methods_from(i + 1, m, b, out);
        } else if i <= u32::MAX {
            match crate::module_lowering::indices::target_name(imp.target, m) {
                None => lemma_host_methods_from(i + 1, m, b, out),
                Some(name) => {
                    lemma_impl_imports_from(imp, 0, i as u32, name, m, b, out);
                    if let Ok((b1, out1)) = crate::module_lowering::indices::impl_imports(
                        imp,
                        0,
                        i as u32,
                        name,
                        m,
                        b,
                        out,
                    ) {
                        lemma_host_methods_from(i + 1, m, b1, out1);
                    }
                },
            }
        }
    }
}

/// A core module imports what was imported when the indices were assigned.
proof fn lemma_imports_stay(m: IrModule)
    requires
        crate::module_lowering::lowered(m) is Ok,
    ensures
        crate::module_lowering::lowered(m)->Ok_0.imports == (crate::module_lowering::indices::indexed(
            m,
            crate::module::fresh(),
        )->Ok_0).1.imports,
{
    let pool = crate::module_lowering::walk::module_texts(m, PoolView::empty())->Ok_0;
    let (at, b) = crate::module_lowering::indices::indexed(m, crate::module::fresh())->Ok_0;
    let s = crate::module_lowering::placement::lemma_indexed(m);
    crate::module_lowering::placement::lemma_closure_parts(b, m, at.functions);
    let (closures, b1) = crate::module_lowering::closures::closure_parts(
        b,
        m,
        at.functions,
    )->Ok_0;
    crate::module_lowering::placement::lemma_vtable_parts(
        b1,
        m,
        at.methods,
        pool.data.len() as u32,
    );
    let (vtables, b2) = crate::module_lowering::vtables::vtable_parts(
        b1,
        m,
        at.methods,
        pool.data.len() as u32,
    )->Ok_0;
    let cx = crate::module_lowering::placement::context(m);
    crate::module_lowering::placement::lemma_bodies_stand(m, cx, at, b, s, b2);
    let b3 = crate::module_lowering::emit::with_functions(m.functions@, 0, b2, cx, m)->Ok_0;
    let b4 = crate::module_lowering::emit::with_impls(m.impls@, 0, b3, cx, m)->Ok_0;
    crate::module_lowering::helpers::lemma_late(m, at, b4);
}

proof fn lemma_methods_emitted(
    fs: Seq<IrFunction>,
    j: int,
    b: BuilderView,
    cx: Cx,
    m: IrModule,
    receiver: Option<StructId>,
)
    requires
        0 <= j <= fs.len(),
        crate::module_lowering::placement::is_ready(b),
    ensures
        crate::module_lowering::emit::with_methods(fs, j, b, cx, m, receiver) matches Ok(end) ==> {
            &&& crate::module_lowering::placement::is_ready(end)
            &&& end.imports == b.imports
            &&& end.functions.len() == b.functions.len() + fs.len() - j
        },
    decreases fs.len() - j,
{
    if j < fs.len() {
        crate::module_lowering::placement::lemma_emitted(fs[j], b, cx, m, receiver, false);
        if let Ok(b1) = crate::module_lowering::emit::with_emitted(
            fs[j],
            b,
            cx,
            m,
            receiver,
            false,
        ) {
            lemma_methods_emitted(fs, j + 1, b1, cx, m, receiver);
        }
    }
}

proof fn lemma_impls_emitted(impls: Seq<IrImpl>, i: int, b: BuilderView, cx: Cx, m: IrModule)
    requires
        0 <= i <= impls.len(),
        crate::module_lowering::placement::is_ready(b),
    ensures
        crate::module_lowering::emit::with_impls(impls, i, b, cx, m) matches Ok(end) ==> {
            &&& end.imports == b.imports
            &&& end.functions.len() == b.functions.len() + taken_by_methods(impls, i)
        },
    decreases impls.len() - i,
{
    if i < impls.len() {
        if impls[i].is_extern {
            lemma_impls_emitted(impls, i + 1, b, cx, m);
        } else {
            let fs = impls[i].functions@;
            let receiver = crate::module_lowering::emit::receiver_of(impls[i].target);
            lemma_methods_emitted(fs, 0, b, cx, m, receiver);
            if let Ok(b1) = crate::module_lowering::emit::with_methods(fs, 0, b, cx, m, receiver) {
                lemma_impls_emitted(impls, i + 1, b1, cx, m);
            }
        }
    }
}

/// Wherever the functions and methods of a module can be lowered, the other
/// helpers come right behind them: their indices are those that were counted
/// beforehand.
pub proof fn law_helpers_come_right_behind(m: IrModule, cx: Cx, b: BuilderView)
    requires
        crate::module_lowering::indices::indexed(m, crate::module::fresh()) matches Ok((_, start))
            && crate::module_lowering::placement::same_functions(start, b),
    ensures
        crate::module_lowering::emit::with_functions(m.functions@, 0, b, cx, m) matches Ok(b1) ==> (
        crate::module_lowering::emit::with_impls(m.impls@, 0, b1, cx, m) matches Ok(b2) ==> {
            &&& b2.imports.len() + b2.functions.len()
                == crate::module_lowering::placement::call_indices(m).late
            &&& b2.next_function() == crate::module_lowering::placement::call_indices(m).late
        }),
{
    let s = crate::module_lowering::placement::lemma_indexed(m);
    lemma_late_index(m);
    lemma_own_functions(m.functions@, 0, m, s.offset, 0, s.functions);
    crate::module_lowering::placement::lemma_functions_stand(
        m.functions@,
        0,
        b,
        cx,
        m,
        s.offset,
        0,
        s.functions,
    );
    if let Ok(b1) = crate::module_lowering::emit::with_functions(m.functions@, 0, b, cx, m) {
        lemma_impls_emitted(m.impls@, 0, b1, cx, m);
    }
}

} // verus!
