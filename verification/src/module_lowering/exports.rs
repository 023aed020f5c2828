//! Laws: what a core module exports.

use vstd::prelude::*;

use crate::encode::{ExportTarget, ExportView};
use crate::ir::{IrFunction, IrImpl, IrModule, StructId};
use crate::lower::context::Cx;
use crate::module::BuilderView;
use crate::string_pool::PoolView;

verus! {

/// The exports of the functions that win their names, from function `i` on:
/// each under its kebab-case name, at its own index, or at that of the
/// wrapper behind it.
pub open spec fn function_exports(
    fs: Seq<IrFunction>,
    i: int,
    m: IrModule,
    indices: Map<u32, u32>,
) -> Seq<ExportView>
    decreases fs.len() - i,
{
    if i < 0 || i >= fs.len() {
        Seq::empty()
    } else {
        let rest = function_exports(fs, i + 1, m, indices);
        if crate::module_lowering::emit::wins_export(fs, i) {
            seq![
                ExportView {
                    name: crate::ident::kebab(fs[i].name@),
                    target: ExportTarget::Function,
                    index: if crate::module_lowering::signature::needs_wrapper(fs[i], m) {
                        (indices[i as u32] + 1) as u32
                    } else {
                        indices[i as u32]
                    },
                },
            ] + rest
        } else {
            rest
        }
    }
}

proof fn lemma_name_taken(fs: Seq<IrFunction>, i: int, k: nat)
    requires
        0 <= i < k <= fs.len(),
        crate::module_lowering::emit::is_candidate(fs[i]),
    ensures
        crate::module_lowering::emit::name_taken(fs, k, crate::ident::kebab(fs[i].name@)),
    decreases k,
{
    if i < k - 1 {
        lemma_name_taken(fs, i, (k - 1) as nat);
    }
}

/// A function that wins its name has an export of that name.
pub proof fn lemma_winner_is_exported(
    fs: Seq<IrFunction>,
    i: int,
    m: IrModule,
    indices: Map<u32, u32>,
    w: int,
) -> (j: int)
    requires
        0 <= i <= w < fs.len(),
        crate::module_lowering::emit::wins_export(fs, w),
    ensures
        0 <= j < function_exports(fs, i, m, indices).len(),
        function_exports(fs, i, m, indices)[j].name == crate::ident::kebab(fs[w].name@),
        function_exports(fs, i, m, indices)[j].target == ExportTarget::Function,
    decreases fs.len() - i,
{
    let rest = function_exports(fs, i + 1, m, indices);
    let all = function_exports(fs, i, m, indices);
    if i == w {
        0
    } else {
        let j = lemma_winner_is_exported(fs, i + 1, m, indices, w);
        if crate::module_lowering::emit::wins_export(fs, i) {
            assert(all[j + 1] == rest[j]);
            j + 1
        } else {
            j
        }
    }
}

/// No two functions are exported under one name.
pub proof fn law_exported_names_are_distinct(fs: Seq<IrFunction>, i: int, j: int)
    requires
        0 <= i < fs.len(),
        0 <= j < fs.len(),
        i != j,
        crate::module_lowering::emit::wins_export(fs, i),
        crate::module_lowering::emit::wins_export(fs, j),
    ensures
        crate::ident::kebab(fs[i].name@) != crate::ident::kebab(fs[j].name@),
{
    if i < j {
        lemma_name_taken(fs, i, j as nat);
    } else {
        lemma_name_taken(fs, j, i as nat);
    }
}

/// Every name that some function could be exported under belongs to exactly
/// the first of them: a function that loses its name lost it to an earlier
/// one that wins it.
pub proof fn law_lost_names_are_won_earlier(fs: Seq<IrFunction>, j: int) -> (i: int)
    requires
        0 <= j < fs.len(),
        crate::module_lowering::emit::is_candidate(fs[j]),
        !crate::module_lowering::emit::wins_export(fs, j),
    ensures
        0 <= i < j,
        crate::module_lowering::emit::wins_export(fs, i),
        crate::ident::kebab(fs[i].name@) == crate::ident::kebab(fs[j].name@),
{
    lemma_first_taker(fs, j as nat, crate::ident::kebab(fs[j].name@))
}

proof fn lemma_first_taker(fs: Seq<IrFunction>, k: nat, name: Seq<char>) -> (i: int)
    requires
        k <= fs.len(),
        crate::module_lowering::emit::name_taken(fs, k, name),
    ensures
        0 <= i < k,
        crate::module_lowering::emit::wins_export(fs, i),
        crate::ident::kebab(fs[i].name@) == name,
    decreases k,
{
    if crate::module_lowering::emit::name_taken(fs, (k - 1) as nat, name) {
        lemma_first_taker(fs, (k - 1) as nat, name)
    } else {
        k - 1
    }
}

// ── the exports of a core module ─────────────────────────────────────

proof fn lemma_emitted_exports(
    f: IrFunction,
    b: BuilderView,
    cx: Cx,
    m: IrModule,
    receiver: Option<StructId>,
    exported: bool,
    at: int,
)
    requires
        crate::module_lowering::placement::is_ready(b),
        b.imports.len() + b.functions.len() == at,
        at + crate::module_lowering::placement::emitted_width(f, m, receiver, exported)
            <= u32::MAX,
    ensures
        crate::module_lowering::emit::with_emitted(f, b, cx, m, receiver, exported) matches Ok(b1)
            ==> b1.exports == (if receiver is None && !"__"@.is_prefix_of(f.name@) && exported {
            b.exports.push(
                ExportView {
                    name: crate::ident::kebab(f.name@),
                    target: ExportTarget::Function,
                    index: if crate::module_lowering::signature::needs_wrapper(f, m) {
                        (at + 1) as u32
                    } else {
                        at as u32
                    },
                },
            )
        } else {
            b.exports
        }),
{
}

/// The export of one function, and those behind it.
proof fn lemma_one_export(
    fs: Seq<IrFunction>,
    i: int,
    m: IrModule,
    indices: Map<u32, u32>,
    before: Seq<ExportView>,
    after: Seq<ExportView>,
)
    requires
        0 <= i < fs.len(),
        after == (if crate::module_lowering::emit::wins_export(fs, i) {
            before.push(
                ExportView {
                    name: crate::ident::kebab(fs[i].name@),
                    target: ExportTarget::Function,
                    index: if crate::module_lowering::signature::needs_wrapper(fs[i], m) {
                        (indices[i as u32] + 1) as u32
                    } else {
                        indices[i as u32]
                    },
                },
            )
        } else {
            before
        }),
    ensures
        after + function_exports(fs, i + 1, m, indices) == before + function_exports(
            fs,
            i,
            m,
            indices,
        ),
{
    assert(after + function_exports(fs, i + 1, m, indices) =~= before + function_exports(
        fs,
        i,
        m,
        indices,
    ));
}

/// The exports of the functions from `i` on, behind those that stand.
proof fn lemma_function_exports(
    fs: Seq<IrFunction>,
    i: int,
    b: BuilderView,
    cx: Cx,
    m: IrModule,
    offset: u32,
    counter: u32,
    map: Map<u32, u32>,
)
    requires
        0 <= i <= fs.len(),
        crate::module_lowering::placement::is_ready(b),
        b.imports.len() + b.functions.len() == offset + counter,
    ensures
        crate::module_lowering::emit::with_functions(fs, i, b, cx, m) matches Ok(end) ==> (
        crate::module_lowering::indices::own_functions(fs, i, m, offset, counter, map) matches Ok(x)
            ==> (offset + x.1 <= u32::MAX ==> end.exports == b.exports + function_exports(
            fs,
            i,
            m,
            x.0,
        ))),
    decreases fs.len() - i,
{
    let emitted = crate::module_lowering::emit::with_functions(fs, i, b, cx, m);
    let assigned = crate::module_lowering::indices::own_functions(fs, i, m, offset, counter, map);
    if i < fs.len() && emitted is Ok && assigned is Ok {
        let end = emitted->Ok_0;
        let x = assigned->Ok_0;
        if fs[i].is_extern {
            lemma_function_exports(fs, i + 1, b, cx, m, offset, counter, map);
        } else if offset + x.1 <= u32::MAX {
            let exported = crate::module_lowering::emit::wins_export(fs, i);
            let w = crate::module_lowering::indices::width(fs, i, m);
            let next = (counter + w) as u32;
            let idx = (offset + counter) as u32;
            let map1 = map.insert(i as u32, idx);
            crate::module_lowering::placement::lemma_emitted(fs[i], b, cx, m, None, exported);
            let b1 = crate::module_lowering::emit::with_emitted(
                fs[i],
                b,
                cx,
                m,
                None,
                exported,
            )->Ok_0;
            crate::module_lowering::placement::lemma_functions_stand(
                fs,
                i + 1,
                b1,
                cx,
                m,
                offset,
                next,
                map1,
            );
            assert(map1.dom().contains(i as u32));
            assert(x.0[i as u32] == idx);
            lemma_emitted_exports(fs[i], b, cx, m, None, exported, offset + counter);
            lemma_function_exports(fs, i + 1, b1, cx, m, offset, next, map1);
            lemma_one_export(fs, i, m, x.0, b.exports, b1.exports);
        }
    } else if i == fs.len() {
        assert(b.exports + Seq::<ExportView>::empty() =~= b.exports);
    }
}

proof fn lemma_method_exports(
    fs: Seq<IrFunction>,
    j: int,
    b: BuilderView,
    cx: Cx,
    m: IrModule,
    receiver: Option<StructId>,
)
    ensures
        crate::module_lowering::emit::with_methods(fs, j, b, cx, m, receiver) matches Ok(end)
            ==> end.exports == b.exports,
    decreases fs.len() - j,
{
    if 0 <= j < fs.len() {
        if let Ok(b1) = crate::module_lowering::emit::with_emitted(
            fs[j],
            b,
            cx,
            m,
            receiver,
            false,
        ) {
            lemma_method_exports(fs, j + 1, b1, cx, m, receiver);
        }
    }
}

proof fn lemma_impl_exports(impls: Seq<IrImpl>, i: int, b: BuilderView, cx: Cx, m: IrModule)
    ensures
        crate::module_lowering::emit::with_impls(impls, i, b, cx, m) matches Ok(end)
            ==> end.exports == b.exports,
    decreases impls.len() - i,
{
    if 0 <= i < impls.len() {
        if impls[i].is_extern {
            lemma_impl_exports(impls, i + 1, b, cx, m);
        } else {
            let receiver = crate::module_lowering::emit::receiver_of(impls[i].target);
            lemma_method_exports(impls[i].functions@, 0, b, cx, m, receiver);
            if let Ok(b1) = crate::module_lowering::emit::with_methods(
                impls[i].functions@,
                0,
                b,
                cx,
                m,
                receiver,
            ) {
                lemma_impl_exports(impls, i + 1, b1, cx, m);
            }
        }
    }
}

/// The index of the reallocation hook.
pub open spec fn realloc_index(m: IrModule) -> u32 {
    (crate::module_lowering::placement::call_indices(m).late + 16) as u32
}

/// A core module exports its memory, every function that wins its name, and
/// the reallocation hook, and nothing else.
pub proof fn law_exports_are_the_winners(m: IrModule)
    requires
        crate::module_lowering::lowered(m) is Ok,
    ensures
        crate::module_lowering::lowered(m)->Ok_0.exports == (crate::module::fresh().exports
            + function_exports(
            m.functions@,
            0,
            m,
            crate::module_lowering::placement::call_indices(m).functions,
        )).push(crate::module_lowering::helpers::realloc_export(realloc_index(m))),
        crate::module_lowering::helpers::held(
            crate::module_lowering::lowered(m)->Ok_0,
            realloc_index(m),
            crate::module::realloc_body(
                crate::module_lowering::placement::call_indices(m).bump_allocator,
            ),
        ),
{
    let pool = crate::module_lowering::walk::module_texts(m, PoolView::empty())->Ok_0;
    let (at, b) = crate::module_lowering::indices::indexed(m, crate::module::fresh())->Ok_0;
    let s = crate::module_lowering::placement::lemma_indexed(m);
    crate::module_lowering::placement::lemma_closure_parts(b, m, at.functions);
    let (closures, b1) = crate::module_lowering::closures::closure_parts(
        b,
        m,
        at.functions,
    )->Ok_0;
    crate::module_lowering::placement::lemma_vtable_parts(
        b1,
        m,
        at.methods,
        pool.data.len() as u32,
    );
    let (vtables, b2) = crate::module_lowering::vtables::vtable_parts(
        b1,
        m,
        at.methods,
        pool.data.len() as u32,
    )->Ok_0;
    let cx = crate::module_lowering::placement::context(m);
    lemma_function_exports(m.functions@, 0, b2, cx, m, s.offset, 0, s.functions);
    let b3 = crate::module_lowering::emit::with_functions(m.functions@, 0, b2, cx, m)->Ok_0;
    lemma_impl_exports(m.impls@, 0, b3, cx, m);
    crate::module_lowering::placement::lemma_bodies_stand(m, cx, at, b, s, b2);
    let b4 = crate::module_lowering::emit::with_impls(m.impls@, 0, b3, cx, m)->Ok_0;
    crate::module_lowering::helpers::lemma_late(m, at, b4);
}

} // verus!
