//! Laws: every function and method stands where calls expect it.

use vstd::prelude::*;

use crate::ir::{IrExpr, IrFunction, IrImpl, IrModule, StructId};
use crate::lower::block::BodyView;
use crate::lower::context::Cx;
use crate::module::BuilderView;
use crate::module_lowering::closures::CallTypes;
use crate::module_lowering::error::ModuleLowerError;
use crate::module_lowering::indices::{Assigned, Emitted, HostMethod, Indices};
use crate::module_lowering::vtables::{MethodTypes, Owned};
use crate::string_pool::PoolView;

verus! {

/// A builder that every function of which has a body, with the allocation
/// helper declared.
pub open spec fn is_ready(b: BuilderView) -> bool {
    b.functions.len() == b.code.len() && b.bump_allocator is Some
}

/// `after` has the tables of `before`, filled as there.
pub open spec fn same_tables(before: BuilderView, after: BuilderView) -> bool {
    &&& after.tables == before.tables
    &&& after.elements == before.elements
    &&& after.closure_table_idx == before.closure_table_idx
    &&& after.method_table_idx == before.method_table_idx
}

/// `after` declares the helpers behind functions and methods that `before`
/// declares.
pub open spec fn same_helpers(before: BuilderView, after: BuilderView) -> bool {
    &&& after.str_eq == before.str_eq
    &&& after.str_concat == before.str_concat
    &&& after.prelude == before.prelude
}

/// `after` is `before` with more functions behind the others.
pub open spec fn extends(before: BuilderView, after: BuilderView) -> bool {
    &&& is_ready(after)
    &&& after.imports == before.imports
    &&& before.code.is_prefix_of(after.code)
    &&& after.bump_allocator == before.bump_allocator
    &&& same_tables(before, after)
}

/// `after` is `before` with `n` more functions behind the others, none of them
/// a helper.
pub open spec fn grew(before: BuilderView, after: BuilderView, n: int) -> bool {
    &&& extends(before, after)
    &&& after.functions.len() == before.functions.len() + n
    &&& same_helpers(before, after)
}

/// The body that a function or method is lowered to.
pub open spec fn body_of(f: IrFunction, cx: Cx, m: IrModule, receiver: Option<StructId>) -> Result<
    BodyView,
    ModuleLowerError,
> {
    match f.body {
        None => Err(ModuleLowerError::MissingFunctionBody { name: f.name }),
        Some(e) => match crate::module_lowering::signature::internal_params(
            f,
            crate::module_lowering::signature::self_type(receiver),
        ) {
            Err(x) => Err(x),
            Ok(locals) => match crate::lower::block::module_body(
                e,
                f.return_type,
                locals,
                m,
                Cx {
                    self_struct_id: crate::module_lowering::emit::self_struct(f, receiver),
                    ..cx
                },
            ) {
                Err(x) => Err(ModuleLowerError::Lower(x)),
                Ok(body) => Ok(body),
            },
        },
    }
}

/// How many functions the emission of `f` declares.
pub open spec fn emitted_width(
    f: IrFunction,
    m: IrModule,
    receiver: Option<StructId>,
    exported: bool,
) -> int {
    if receiver is None && !"__"@.is_prefix_of(f.name@) && exported
        && crate::module_lowering::signature::needs_wrapper(f, m) {
        2
    } else {
        1
    }
}

/// `body` is that of the export wrapper of `f`, which calls `inner`.
pub open spec fn is_wrapper(body: BodyView, f: IrFunction, inner: u32, alloc: u32, m: IrModule) -> bool {
    crate::module_lowering::wrappers::wrapper_of(f, inner, alloc, m) matches Ok((_, b)) && b == body
}

proof fn lemma_wrapper_grows(f: IrFunction, inner: u32, b: BuilderView, m: IrModule)
    requires
        is_ready(b),
    ensures
        crate::module_lowering::wrappers::with_wrapper(f, inner, b, m) matches Ok(x) ==> grew(
            b,
            x.0,
            1,
        ) && is_wrapper(x.0.code[b.code.len() as int], f, inner, b.bump_allocator->0, m),
{
    if let Ok((b1, _)) = crate::module_lowering::wrappers::with_wrapper(f, inner, b, m) {
        assert(b.code =~= b1.code.subrange(0, b.code.len() as int));
    }
}

/// Emitting a function declares it, and its wrapper where it has one.
pub proof fn lemma_emitted(
    f: IrFunction,
    b: BuilderView,
    cx: Cx,
    m: IrModule,
    receiver: Option<StructId>,
    exported: bool,
)
    requires
        is_ready(b),
    ensures
        crate::module_lowering::emit::with_emitted(f, b, cx, m, receiver, exported) matches Ok(b1)
            ==> {
            &&& grew(b, b1, emitted_width(f, m, receiver, exported))
            &&& body_of(f, cx, m, receiver) == Ok::<BodyView, ModuleLowerError>(
                b1.code[b.code.len() as int],
            )
            &&& emitted_width(f, m, receiver, exported) == 2 ==> is_wrapper(
                b1.code[b.code.len() as int + 1],
                f,
                b.next_function(),
                b.bump_allocator->0,
                m,
            )
        },
{
    if let Ok(b1) = crate::module_lowering::emit::with_emitted(f, b, cx, m, receiver, exported) {
        let locals = crate::module_lowering::signature::internal_params(
            f,
            crate::module_lowering::signature::self_type(receiver),
        )->Ok_0;
        let results = crate::module_lowering::signature::results_of(f)->Ok_0;
        let body = body_of(f, cx, m, receiver)->Ok_0;
        let idx = b.next_function();
        let inner = b.with_helper(
            crate::encode::SigView {
                params: crate::module_lowering::signature::local_types(locals),
                results,
            },
            body,
            crate::module_lowering::emit::debug_name(f, receiver, m),
        );
        assert(inner.code[b.code.len() as int] == body);
        assert(b.code =~= inner.code.subrange(0, b.code.len() as int));
        assert(grew(b, inner, 1));
        lemma_wrapper_grows(f, idx, inner, m);
        if receiver is None && !"__"@.is_prefix_of(f.name@) && exported {
            if crate::module_lowering::signature::needs_wrapper(f, m) {
                let wrapped = (crate::module_lowering::wrappers::with_wrapper(
                    f,
                    idx,
                    inner,
                    m,
                )->Ok_0).0;
                assert(grew(inner, wrapped, 1));
                assert(b1.code == wrapped.code);
                assert(inner.code[b.code.len() as int] == wrapped.code.subrange(
                    0,
                    inner.code.len() as int,
                )[b.code.len() as int]);
                assert(b.code =~= b1.code.subrange(0, b.code.len() as int)) by {
                    assert forall|k: int| 0 <= k < b.code.len() implies b.code[k] == b1.code[k] by {
                        assert(inner.code.subrange(0, b.code.len() as int)[k] == b.code[k]);
                        assert(wrapped.code.subrange(0, inner.code.len() as int)[k]
                            == inner.code[k]);
                    }
                }
            }
        }
    }
}

proof fn lemma_grew_twice(a: BuilderView, b: BuilderView, c: BuilderView, n: int, k: int)
    requires
        grew(a, b, n),
        grew(b, c, k),
        n >= 0,
        k >= 0,
        is_ready(a),
    ensures
        grew(a, c, n + k),
        forall|i: int| 0 <= i < b.code.len() ==> #[trigger] c.code[i] == b.code[i],
{
    assert forall|i: int| 0 <= i < b.code.len() implies #[trigger] c.code[i] == b.code[i] by {
        assert(c.code.subrange(0, b.code.len() as int)[i] == b.code[i]);
    }
    assert forall|i: int| 0 <= i < a.code.len() implies #[trigger] c.code[i] == a.code[i] by {
        assert(b.code.subrange(0, a.code.len() as int)[i] == a.code[i]);
    }
    assert(a.code =~= c.code.subrange(0, a.code.len() as int));
}

/// Function `wasm` is defined by the module, and its body is that of `f`.
pub open spec fn stands_at(
    f: IrFunction,
    cx: Cx,
    m: IrModule,
    receiver: Option<StructId>,
    wasm: u32,
    b: BuilderView,
) -> bool {
    &&& b.imports.len() <= wasm < b.imports.len() + b.code.len()
    &&& body_of(f, cx, m, receiver) == Ok::<BodyView, ModuleLowerError>(
        b.code[wasm - b.imports.len()],
    )
}

/// Where function `k` is exported through a wrapper, the wrapper stands behind
/// the function and calls it.
pub open spec fn wrapper_stands(
    fs: Seq<IrFunction>,
    k: int,
    m: IrModule,
    wasm: u32,
    b: BuilderView,
) -> bool {
    crate::module_lowering::emit::wins_export(fs, k)
        && crate::module_lowering::signature::needs_wrapper(fs[k], m) ==> {
        &&& wasm + 1 < b.imports.len() + b.code.len()
        &&& is_wrapper(b.code[wasm + 1 - b.imports.len()], fs[k], wasm, b.bump_allocator->0, m)
    }
}

/// The functions from number `i` on stand where `map` says, and the wrappers
/// of exported ones behind them.
pub open spec fn functions_stand(
    fs: Seq<IrFunction>,
    i: int,
    cx: Cx,
    m: IrModule,
    map: Map<u32, u32>,
    b: BuilderView,
) -> bool {
    forall|k: int|
        i <= k < fs.len() && !(#[trigger] fs[k]).is_extern ==> {
            &&& k <= u32::MAX
            &&& map.dom().contains(k as u32)
            &&& stands_at(fs[k], cx, m, None, map[k as u32], b)
            &&& wrapper_stands(fs, k, m, map[k as u32], b)
        }
}

/// Emission puts functions where their indices were assigned.
pub proof fn lemma_functions_stand(
    fs: Seq<IrFunction>,
    i: int,
    b: BuilderView,
    cx: Cx,
    m: IrModule,
    offset: u32,
    counter: u32,
    map: Map<u32, u32>,
)
    requires
        0 <= i <= fs.len(),
        is_ready(b),
        b.imports.len() + b.functions.len() == offset + counter,
    ensures
        crate::module_lowering::emit::with_functions(fs, i, b, cx, m) matches Ok(end) ==> (
        crate::module_lowering::indices::own_functions(fs, i, m, offset, counter, map) matches Ok(x)
            ==> {
            &&& grew(b, end, x.1 - counter)
            &&& x.1 >= counter
            &&& functions_stand(fs, i, cx, m, x.0, end)
            &&& forall|k: u32| k < i && #[trigger] map.dom().contains(k) ==> x.0.dom().contains(k)
                && x.0[k] == map[k]
        }),
    decreases fs.len() - i,
{
    let emitted = crate::module_lowering::emit::with_functions(fs, i, b, cx, m);
    let assigned = crate::module_lowering::indices::own_functions(fs, i, m, offset, counter, map);
    if i < fs.len() && emitted is Ok && assigned is Ok {
        let end = emitted->Ok_0;
        let x = assigned->Ok_0;
        if fs[i].is_extern {
            lemma_functions_stand(fs, i + 1, b, cx, m, offset, counter, map);
        } else {
            let exported = crate::module_lowering::emit::wins_export(fs, i);
            lemma_emitted(fs[i], b, cx, m, None, exported);
            let b1 = crate::module_lowering::emit::with_emitted(
                fs[i],
                b,
                cx,
                m,
                None,
                exported,
            )->Ok_0;
            let w = crate::module_lowering::indices::width(fs, i, m);
            assert(emitted_width(fs[i], m, None, exported) == w);
            let idx = (offset + counter) as u32;
            let next = (counter + w) as u32;
            let map1 = map.insert(i as u32, idx);
            lemma_functions_stand(fs, i + 1, b1, cx, m, offset, next, map1);
            lemma_grew_twice(b, b1, end, w, x.1 - next);
            assert(map1.dom().contains(i as u32));
            assert(x.0[i as u32] == idx);
            assert(end.code[b.code.len() as int] == b1.code[b.code.len() as int]);
            assert(stands_at(fs[i], cx, m, None, idx, end));
            if w == 2 {
                assert(end.code[b.code.len() as int + 1] == b1.code[b.code.len() as int + 1]);
            }
            assert(wrapper_stands(fs, i, m, idx, end));
            assert forall|k: u32| k < i && #[trigger] map.dom().contains(k) implies x.0.dom().contains(
                k,
            ) && x.0[k] == map[k] by {
                assert(map1.dom().contains(k));
            }
        }
    } else if i == fs.len() {
        assert(b.code =~= b.code.subrange(0, b.code.len() as int));
    }
}

// ── methods ──────────────────────────────────────────────────────────

/// Method `k` of impl block `id` stands where `map` says.
pub open spec fn method_stands(
    fs: Seq<IrFunction>,
    k: int,
    id: u32,
    cx: Cx,
    m: IrModule,
    receiver: Option<StructId>,
    map: Map<u64, u32>,
    b: BuilderView,
) -> bool {
    let key = crate::lower::maps::pair_key(id, k as u32);
    &&& k <= u32::MAX
    &&& map.dom().contains(key)
    &&& stands_at(fs[k], cx, m, receiver, map[key], b)
}

/// The methods of impl block `id`, from method `j` on, stand where `map`
/// says.
pub open spec fn methods_stand(
    fs: Seq<IrFunction>,
    j: int,
    id: u32,
    cx: Cx,
    m: IrModule,
    receiver: Option<StructId>,
    map: Map<u64, u32>,
    b: BuilderView,
) -> bool {
    forall|k: int|
        j <= k < fs.len() ==> #[trigger] method_stands(fs, k, id, cx, m, receiver, map, b)
}

/// Keys of impl blocks before `i`, and of the first `j` methods of block
/// `i`.
pub open spec fn key_before(key: u64, i: int, j: int) -> bool {
    key < i * 0x1_0000_0000 + j
}

/// `after` says of the keys before `i` and `j` what `before` says.
pub open spec fn keeps(before: Map<u64, u32>, after: Map<u64, u32>, i: int, j: int) -> bool {
    forall|key: u64| #[trigger]
        before.dom().contains(key) && key_before(key, i, j) ==> after.dom().contains(key)
            && after[key] == before[key]
}

proof fn lemma_methods_stand(
    fs: Seq<IrFunction>,
    j: int,
    id: u32,
    b: BuilderView,
    cx: Cx,
    m: IrModule,
    receiver: Option<StructId>,
    offset: u32,
    counter: u32,
    map: Map<u64, u32>,
)
    requires
        0 <= j <= fs.len(),
        is_ready(b),
        b.imports.len() + b.functions.len() == offset + counter,
    ensures
        crate::module_lowering::emit::with_methods(fs, j, b, cx, m, receiver) matches Ok(end) ==> (
        crate::module_lowering::indices::impl_methods(fs.len(), j, id, offset, counter, map) matches Ok(
            x,
        ) ==> {
            &&& grew(b, end, x.1 - counter)
            &&& x.1 >= counter
            &&& methods_stand(fs, j, id, cx, m, receiver, x.0, end)
            &&& keeps(map, x.0, id as int, j)
        }),
    decreases fs.len() - j,
{
    let emitted = crate::module_lowering::emit::with_methods(fs, j, b, cx, m, receiver);
    let assigned = crate::module_lowering::indices::impl_methods(
        fs.len(),
        j,
        id,
        offset,
        counter,
        map,
    );
    if j < fs.len() && emitted is Ok && assigned is Ok {
        let end = emitted->Ok_0;
        let x = assigned->Ok_0;
        lemma_emitted(fs[j], b, cx, m, receiver, false);
        let b1 = crate::module_lowering::emit::with_emitted(fs[j], b, cx, m, receiver, false)->Ok_0;
        let wasm = (offset + counter) as u32;
        let next = (counter + 1) as u32;
        let key = crate::lower::maps::pair_key(id, j as u32);
        let map1 = map.insert(key, wasm);
        lemma_methods_stand(fs, j + 1, id, b1, cx, m, receiver, offset, next, map1);
        lemma_grew_twice(b, b1, end, 1, x.1 - next);
        assert(key_before(key, id as int, j + 1));
        assert(map1.dom().contains(key));
        assert(x.0.dom().contains(key) && x.0[key] == wasm);
        assert(end.code[b.code.len() as int] == b1.code[b.code.len() as int]);
        assert(method_stands(fs, j, id, cx, m, receiver, x.0, end));
        assert forall|k: u64| #[trigger]
            map.dom().contains(k) && key_before(k, id as int, j) implies x.0.dom().contains(k)
            && x.0[k] == map[k] by {
            assert(map1.dom().contains(k));
            assert(key_before(k, id as int, j + 1));
        }
    } else if j == fs.len() {
        assert(b.code =~= b.code.subrange(0, b.code.len() as int));
    }
}

/// The methods that the module defines, from impl block `i` on, stand where
/// `map` says.
pub open spec fn impls_stand(i: int, cx: Cx, m: IrModule, map: Map<u64, u32>, b: BuilderView) -> bool {
    forall|k: int|
        #![trigger m.impls@[k]]
        i <= k < m.impls@.len() && !m.impls@[k].is_extern ==> k <= u32::MAX && methods_stand(
            m.impls@[k].functions@,
            0,
            k as u32,
            cx,
            m,
            crate::module_lowering::emit::receiver_of(m.impls@[k].target),
            map,
            b,
        )
}

proof fn lemma_methods_survive(
    fs: Seq<IrFunction>,
    id: u32,
    cx: Cx,
    m: IrModule,
    receiver: Option<StructId>,
    map: Map<u64, u32>,
    after: Map<u64, u32>,
    b: BuilderView,
    end: BuilderView,
)
    requires
        methods_stand(fs, 0, id, cx, m, receiver, map, b),
        keeps(map, after, id + 1, 0),
        is_ready(b),
        extends(b, end),
    ensures
        methods_stand(fs, 0, id, cx, m, receiver, after, end),
{
    assert forall|k: int| 0 <= k < fs.len() implies #[trigger] method_stands(
        fs,
        k,
        id,
        cx,
        m,
        receiver,
        after,
        end,
    ) by {
        assert(method_stands(fs, k, id, cx, m, receiver, map, b));
        let key = crate::lower::maps::pair_key(id, k as u32);
        assert(map.dom().contains(key));
        assert(key_before(key, id + 1, 0));
        let at = map[key] - b.imports.len();
        assert(end.code.subrange(0, b.code.len() as int)[at] == b.code[at]);
    }
}

proof fn lemma_impls_stand(
    i: int,
    m: IrModule,
    b: BuilderView,
    cx: Cx,
    late: u32,
    offset: u32,
    counter: u32,
    map: Map<u64, u32>,
)
    requires
        0 <= i <= m.impls@.len(),
        is_ready(b),
        b.imports.len() + b.functions.len() == offset + counter,
    ensures
        crate::module_lowering::emit::with_impls(m.impls@, i, b, cx, m) matches Ok(end) ==> (
        crate::module_lowering::indices::own_methods(i, m, late, offset, counter, map) matches Ok(
            after,
        ) ==> {
            &&& impls_stand(i, cx, m, after, end)
            &&& keeps(map, after, i, 0)
            &&& grew(b, end, end.functions.len() - b.functions.len())
            &&& end.functions.len() >= b.functions.len()
        }),
    decreases m.impls@.len() - i,
{
    let emitted = crate::module_lowering::emit::with_impls(m.impls@, i, b, cx, m);
    let assigned = crate::module_lowering::indices::own_methods(
        i,
        m,
        late,
        offset,
        counter,
        map,
    );
    if i < m.impls@.len() && emitted is Ok && assigned is Ok {
        let end = emitted->Ok_0;
        let after = assigned->Ok_0;
        let imp = m.impls@[i];
        let id = i as u32;
        if imp.is_extern {
            let map1 = if crate::module_lowering::indices::is_built_in(imp.target, m) {
                crate::module_lowering::helpers::lemma_helper_methods(imp, 0, id, m, late, map);
                crate::module_lowering::indices::helper_methods(imp, 0, id, m, late, map)->Ok_0
            } else {
                map
            };
            lemma_impls_stand(i + 1, m, b, cx, late, offset, counter, map1);
            assert forall|key: u64| #[trigger]
                map.dom().contains(key) && key_before(key, i, 0) implies after.dom().contains(key)
                && after[key] == map[key] by {
                assert(map1.dom().contains(key));
                assert(key_before(key, i + 1, 0));
            }
        } else {
            let receiver = crate::module_lowering::emit::receiver_of(imp.target);
            let fs = imp.functions@;
            lemma_methods_stand(fs, 0, id, b, cx, m, receiver, offset, counter, map);
            let b1 = crate::module_lowering::emit::with_methods(fs, 0, b, cx, m, receiver)->Ok_0;
            let (map1, next) = crate::module_lowering::indices::impl_methods(
                fs.len(),
                0,
                id,
                offset,
                counter,
                map,
            )->Ok_0;
            lemma_impls_stand(i + 1, m, b1, cx, late, offset, next, map1);
            lemma_grew_twice(
                b,
                b1,
                end,
                next - counter,
                end.functions.len() - b1.functions.len(),
            );
            lemma_methods_survive(
                fs,
                id,
                cx,
                m,
                receiver,
                map1,
                after,
                b1,
                end,
            );
            assert forall|key: u64| #[trigger]
                map.dom().contains(key) && key_before(key, i, 0) implies after.dom().contains(key)
                && after[key] == map[key] by {
                assert(map1.dom().contains(key));
                assert(key_before(key, i + 1, 0));
            }
        }
    } else if i == m.impls@.len() {
        assert(b.code =~= b.code.subrange(0, b.code.len() as int));
    }
}

// ── before the bodies ────────────────────────────────────────────────

/// `after` has the functions and exports of `before`.
pub open spec fn same_functions(before: BuilderView, after: BuilderView) -> bool {
    &&& after.imports == before.imports
    &&& after.functions == before.functions
    &&& after.code == before.code
    &&& after.exports == before.exports
    &&& after.bump_allocator == before.bump_allocator
    &&& same_helpers(before, after)
}

/// `after` defines and exports what `before` does, but may import more.
pub open spec fn only_imported(before: BuilderView, after: BuilderView) -> bool {
    &&& after.functions == before.functions
    &&& after.code == before.code
    &&& after.exports == before.exports
    &&& after.bump_allocator == before.bump_allocator
    &&& same_helpers(before, after)
    &&& before.imports.len() <= after.imports.len()
    &&& same_tables(before, after)
}

/// `after` is `before` with more types.
pub open spec fn only_types(before: BuilderView, after: BuilderView) -> bool {
    same_functions(before, after) && same_tables(before, after)
}

proof fn lemma_host_functions(
    fs: Seq<IrFunction>,
    i: int,
    m: IrModule,
    b: BuilderView,
    out: Seq<(u32, u32)>,
)
    ensures
        crate::module_lowering::indices::host_functions(fs, i, m, b, out) matches Ok(x)
            ==> only_imported(b, x.0),
    decreases fs.len() - i,
{
    if 0 <= i < fs.len() {
        if !fs[i].is_extern {
            lemma_host_functions(fs, i + 1, m, b, out);
        } else if crate::module_lowering::indices::host_functions(fs, i, m, b, out) is Ok {
            let params = crate::module_lowering::signature::import_params(
                fs[i].params@,
                0,
                fs[i].name,
                m,
                Seq::empty(),
            )->Ok_0;
            let results = crate::module_lowering::signature::results_of(fs[i])->Ok_0;
            lemma_host_functions(
                fs,
                i + 1,
                m,
                b.with_import(
                    crate::module::IMPORT_MODULE_NAME@,
                    crate::ident::kebab(fs[i].name@),
                    crate::encode::SigView { params, results },
                ),
                out.push((i as u32, crate::survey::index_u32(b.imports.len() as int))),
            );
        }
    }
}

proof fn lemma_impl_imports(
    imp: IrImpl,
    j: int,
    id: u32,
    name: Seq<char>,
    m: IrModule,
    b: BuilderView,
    out: Seq<HostMethod>,
)
    ensures
        crate::module_lowering::indices::impl_imports(imp, j, id, name, m, b, out) matches Ok(x)
            ==> only_imported(b, x.0),
    decreases imp.functions@.len() - j,
{
    if 0 <= j < imp.functions@.len() && crate::module_lowering::indices::impl_imports(
        imp,
        j,
        id,
        name,
        m,
        b,
        out,
    ) is Ok {
        let f = imp.functions@[j];
        let locals = crate::module_lowering::signature::internal_params(
            f,
            crate::module_lowering::indices::receiver_type(imp.target),
        )->Ok_0;
        let results = crate::module_lowering::signature::results_of(f)->Ok_0;
        lemma_impl_imports(
            imp,
            j + 1,
            id,
            name,
            m,
            b.with_import(
                crate::module::IMPORT_MODULE_NAME@,
                crate::ident::kebab(name) + "-"@ + crate::ident::kebab(f.name@),
                crate::encode::SigView {
                    params: crate::module_lowering::indices::boundary_params(
                        crate::module_lowering::signature::local_types(locals),
                        crate::module_lowering::indices::drops_receiver(imp.target, m),
                    ),
                    results,
                },
            ),
            out.push((id, j as u32, crate::survey::index_u32(b.imports.len() as int))),
        );
    }
}

proof fn lemma_host_methods(i: int, m: IrModule, b: BuilderView, out: Seq<HostMethod>)
    ensures
        crate::module_lowering::indices::host_methods(i, m, b, out) matches Ok(x)
            ==> only_imported(b, x.0),
    decreases m.impls@.len() - i,
{
    if 0 <= i < m.impls@.len() {
        let imp = m.impls@[i];
        if !imp.is_extern || crate::module_lowering::indices::is_built_in(imp.target, m) {
            lemma_host_methods(i + 1, m, b, out);
        } else if i <= u32::MAX {
            match crate::module_lowering::indices::target_name(imp.target, m) {
                None => lemma_host_methods(i + 1, m, b, out),
                Some(name) => {
                    lemma_impl_imports(imp, 0, i as u32, name, m, b, out);
                    if let Ok((b1, out1)) = crate::module_lowering::indices::impl_imports(
                        imp,
                        0,
                        i as u32,
                        name,
                        m,
                        b,
                        out,
                    ) {
                        lemma_host_methods(i + 1, m, b1, out1);
                    }
                },
            }
        }
    }
}

/// A builder whose next function has the index `next`.
pub open spec fn continues_at(b: BuilderView, next: u32) -> bool {
    is_ready(b) && b.imports.len() + b.functions.len() == next
}

proof fn lemma_extends_as_is(b: BuilderView)
    requires
        is_ready(b),
    ensures
        extends(b, b),
{
    assert(b.code =~= b.code.subrange(0, b.code.len() as int));
}

/// Growing twice is growing.
pub proof fn lemma_extends_twice(a: BuilderView, b: BuilderView, c: BuilderView)
    requires
        extends(a, b),
        extends(b, c),
    ensures
        extends(a, c),
{
    assert forall|i: int| 0 <= i < a.code.len() implies #[trigger] c.code[i] == a.code[i] by {
        assert(b.code.subrange(0, a.code.len() as int)[i] == a.code[i]);
        assert(c.code.subrange(0, b.code.len() as int)[i] == b.code[i]);
    }
    assert(a.code =~= c.code.subrange(0, a.code.len() as int));
}

proof fn lemma_one_more(b: BuilderView, after: BuilderView)
    requires
        is_ready(b),
        after.imports == b.imports,
        after.bump_allocator == b.bump_allocator,
        same_tables(b, after),
        after.functions.len() == b.functions.len() + 1,
        after.code == b.code.push(after.code.last()),
    ensures
        extends(b, after),
{
    assert(b.code =~= after.code.subrange(0, b.code.len() as int));
}

/// Trampolines come behind what is there.
pub proof fn lemma_method_trampolines(l: Seq<HostMethod>, i: int, m: IrModule, st: Emitted)
    requires
        is_ready(st.builder),
    ensures
        crate::module_lowering::indices::method_trampolines(l, i, m, st) matches Ok(x) ==> extends(
            st.builder,
            x.builder,
        ) && x.builder.exports == st.builder.exports,
    decreases l.len() - i,
{
    if 0 <= i < l.len() && crate::module_lowering::indices::method_trampolines(l, i, m, st) is Ok {
        match crate::module_lowering::indices::receiver_free(l[i], m) {
            None => lemma_method_trampolines(l, i + 1, m, st),
            Some(f) => {
                let locals = crate::module_lowering::signature::internal_params(
                    f,
                    crate::module_lowering::signature::self_type(
                        crate::module_lowering::indices::target_struct(
                            m.impls@[l[i].0 as int].target,
                        ),
                    ),
                )->Ok_0;
                let results = crate::module_lowering::signature::results_of(f)->Ok_0;
                let st1 = Emitted {
                    builder: st.builder.with_function(
                        crate::encode::SigView {
                            params: crate::module_lowering::signature::local_types(locals),
                            results,
                        },
                        crate::module_lowering::wrappers::receiver_free_body(
                            locals.len(),
                            l[i].2,
                        ),
                    ),
                    next: (st.next + 1) as u32,
                };
                lemma_one_more(st.builder, st1.builder);
                lemma_method_trampolines(l, i + 1, m, st1);
                lemma_extends_twice(
                    st.builder,
                    st1.builder,
                    (crate::module_lowering::indices::method_trampolines(
                        l,
                        i,
                        m,
                        st,
                    )->Ok_0).builder,
                );
            },
        }
    } else {
        lemma_extends_as_is(st.builder);
    }
}

/// So do those of host functions.
pub proof fn lemma_function_trampolines(l: Seq<(u32, u32)>, i: int, m: IrModule, st: Emitted)
    requires
        is_ready(st.builder),
    ensures
        crate::module_lowering::indices::function_trampolines(l, i, m, st) matches Ok(x)
            ==> extends(st.builder, x.builder) && x.builder.exports == st.builder.exports,
    decreases l.len() - i,
{
    if 0 <= i < l.len() && crate::module_lowering::indices::function_trampolines(
        l,
        i,
        m,
        st,
    ) is Ok {
        let (id, raw) = l[i];
        let f = m.spec_function(crate::ir::FunctionId(id))->Some_0;
        if !crate::module_lowering::signature::needs_wrapper(f, m) {
            lemma_function_trampolines(l, i + 1, m, st);
        } else {
            let (b, _) = crate::module_lowering::wrappers::with_import_trampoline(
                f,
                raw,
                st.builder,
                m,
                st.next,
            )->Ok_0;
            lemma_one_more(st.builder, b);
            lemma_function_trampolines(
                l,
                i + 1,
                m,
                Emitted { builder: b, next: (st.next + 1) as u32 },
            );
            lemma_extends_twice(
                st.builder,
                b,
                (crate::module_lowering::indices::function_trampolines(l, i, m, st)->Ok_0).builder,
            );
        }
    } else {
        lemma_extends_as_is(st.builder);
    }
}

/// Where the module's own functions begin, how many indices they take, and the
/// indices of host functions and methods.
pub struct Start {
    pub offset: u32,
    pub width: u32,
    pub functions: Map<u32, u32>,
    pub methods: Map<u64, u32>,
}

/// No helper is declared but the allocation helper.
pub open spec fn no_helpers(b: BuilderView) -> bool {
    b.str_eq is None && b.str_concat is None && b.prelude.len() == 0
}

/// `s` is where the own functions of `m` begin behind `b`, and `at` holds
/// the indices assigned from there on.
pub open spec fn starts(m: IrModule, at: Indices, b: BuilderView, s: Start) -> bool {
    &&& continues_at(b, s.offset)
    &&& b.exports == crate::module::fresh().exports
    &&& same_tables(crate::module::fresh(), b)
    &&& b.bump_allocator == Some(at.bump_allocator)
    &&& s.offset == at.bump_allocator + 1
    &&& at.bump_allocator == b.imports.len()
    &&& b.code == seq![crate::module::bump_body()]
    &&& no_helpers(b)
    &&& s.offset + s.width <= u32::MAX
    &&& crate::module_lowering::indices::own_functions(
        m.functions@,
        0,
        m,
        s.offset,
        0,
        s.functions,
    ) == Ok::<(Map<u32, u32>, u32), ModuleLowerError>((at.functions, s.width))
    &&& crate::module_lowering::indices::own_methods(
        0,
        m,
        at.late,
        (s.offset + s.width) as u32,
        0,
        s.methods,
    ) == Ok::<Map<u64, u32>, ModuleLowerError>(at.methods)
}

proof fn lemma_arranged(
    m: IrModule,
    b: BuilderView,
    hosts: Seq<(u32, u32)>,
    methods: Seq<HostMethod>,
) -> (s: Start)
    requires
        only_imported(crate::module::fresh(), b),
        crate::module_lowering::indices::arranged(m, b, hosts, methods) is Ok,
    ensures
        ({
            let (at, end) = crate::module_lowering::indices::arranged(m, b, hosts, methods)->Ok_0;
            starts(m, at, end, s)
        }),
{
    let (at, end) = crate::module_lowering::indices::arranged(m, b, hosts, methods)->Ok_0;
    let offset = (end.bump_allocator->0 + 1) as u32;
    let next = (at.late + crate::module_lowering::indices::LATE_HELPERS) as u32;
    let ms = crate::module_lowering::indices::method_slots(
        methods,
        0,
        m,
        Assigned {
            next,
            map: crate::module_lowering::indices::raw_methods(methods, methods.len()),
        },
    )->Ok_0;
    let fs = crate::module_lowering::indices::function_slots(
        hosts,
        0,
        m,
        Assigned { next: ms.next, map: Map::<u32, u32>::empty() },
    )->Ok_0;
    let (functions, counter) = crate::module_lowering::indices::own_functions(
        m.functions@,
        0,
        m,
        offset,
        0,
        fs.map,
    )->Ok_0;
    assert(end.code =~= seq![crate::module::bump_body()]);
    Start { offset, width: counter, functions: fs.map, methods: ms.map }
}

/// The builder is ready where the module's own functions begin.
pub proof fn lemma_indexed(m: IrModule) -> (s: Start)
    requires
        crate::module_lowering::indices::indexed(m, crate::module::fresh()) is Ok,
    ensures
        ({
            let (at, b) = crate::module_lowering::indices::indexed(
                m,
                crate::module::fresh(),
            )->Ok_0;
            starts(m, at, b, s)
        }),
{
    let b0 = crate::module::fresh();
    lemma_host_functions(m.functions@, 0, m, b0, Seq::empty());
    let (b1, hosts) = crate::module_lowering::indices::host_functions(
        m.functions@,
        0,
        m,
        b0,
        Seq::empty(),
    )->Ok_0;
    lemma_host_methods(0, m, b1, Seq::empty());
    let (b2, methods) = crate::module_lowering::indices::host_methods(
        0,
        m,
        b1,
        Seq::empty(),
    )->Ok_0;
    lemma_arranged(m, b2, hosts, methods)
}

proof fn lemma_expr_calls(e: IrExpr, st: CallTypes)
    ensures
        crate::module_lowering::closures::expr_calls(e, st) matches Ok(x) ==> only_types(
            st.builder,
            x.builder,
        ),
    decreases e, crate::module_lowering::walk::children(e).len() + 1,
{
    let first = match e {
        IrExpr::CallClosure { closure, .. } => crate::module_lowering::closures::with_call_type(
            closure.spec_ty(),
            st,
        ),
        _ => Ok(st),
    };
    if let Ok(st1) = first {
        lemma_children_calls(e, 0, st1);
    }
}

proof fn lemma_children_calls(e: IrExpr, i: int, st: CallTypes)
    ensures
        crate::module_lowering::closures::children_calls(e, i, st) matches Ok(x)
            ==> only_types(st.builder, x.builder),
    decreases e, crate::module_lowering::walk::children(e).len() - i,
{
    if 0 <= i < crate::module_lowering::walk::children(e).len() {
        crate::module_lowering::walk::lemma_child_is_smaller(e, i);
        let child = crate::module_lowering::walk::children(e)[i];
        lemma_expr_calls(child, st);
        if let Ok(st1) = crate::module_lowering::closures::expr_calls(child, st) {
            lemma_children_calls(e, i + 1, st1);
        }
    }
}

proof fn lemma_functions_calls(fs: Seq<IrFunction>, i: int, st: CallTypes)
    ensures
        crate::module_lowering::closures::functions_calls(fs, i, st) matches Ok(x)
            ==> only_types(st.builder, x.builder),
    decreases fs.len() - i,
{
    if 0 <= i < fs.len() {
        let first = match fs[i].body {
            Some(e) => {
                lemma_expr_calls(e, st);
                crate::module_lowering::closures::expr_calls(e, st)
            },
            None => Ok(st),
        };
        if let Ok(st1) = first {
            lemma_functions_calls(fs, i + 1, st1);
        }
    }
}

proof fn lemma_impls_calls(impls: Seq<IrImpl>, i: int, st: CallTypes)
    ensures
        crate::module_lowering::closures::impls_calls(impls, i, st) matches Ok(x)
            ==> only_types(st.builder, x.builder),
    decreases impls.len() - i,
{
    if 0 <= i < impls.len() {
        if impls[i].is_extern {
            lemma_impls_calls(impls, i + 1, st);
        } else {
            lemma_functions_calls(impls[i].functions@, 0, st);
            if let Ok(st1) = crate::module_lowering::closures::functions_calls(
                impls[i].functions@,
                0,
                st,
            ) {
                lemma_impls_calls(impls, i + 1, st1);
            }
        }
    }
}

/// The closure table declares and exports no functions.
pub proof fn lemma_closure_parts(b: BuilderView, m: IrModule, indices: Map<u32, u32>)
    ensures
        crate::module_lowering::closures::closure_parts(b, m, indices) matches Ok(x)
            ==> same_functions(b, x.1),
{
    if let Ok(x) = crate::module_lowering::closures::closure_parts(b, m, indices) {
        let l = crate::module_lowering::closures::lifted(
            m.functions@,
            0,
            indices,
            Seq::empty(),
        )->Ok_0;
        if l.len() > 0 {
            let b1 = b.with_closure_table(l.len() as u32);
            let b2 = b1.with_filled(
                b1.closure_table_idx,
                crate::module_lowering::closures::lifted_indices(l),
            );
            let st = CallTypes { builder: b2, types: Seq::empty() };
            lemma_functions_calls(m.functions@, 0, st);
            let st1 = crate::module_lowering::closures::functions_calls(
                m.functions@,
                0,
                st,
            )->Ok_0;
            lemma_impls_calls(m.impls@, 0, st1);
        }
    }
}

proof fn lemma_trait_types(methods: Seq<Owned>, j: int, id: u32, st: MethodTypes)
    ensures
        crate::module_lowering::vtables::trait_types(methods, j, id, st) matches Ok(x)
            ==> only_types(st.builder, x.builder),
    decreases methods.len() - j,
{
    if 0 <= j < methods.len() && j <= u32::MAX {
        if let Ok(sig) = crate::module_lowering::vtables::method_signature(methods[j].1) {
            lemma_trait_types(
                methods,
                j + 1,
                id,
                MethodTypes {
                    types: st.types.insert(
                        crate::lower::maps::pair_key(id, j as u32),
                        st.builder.next_type(),
                    ),
                    builder: st.builder.with_type(sig),
                },
            );
        }
    }
}

proof fn lemma_all_types(i: int, m: IrModule, st: MethodTypes)
    ensures
        crate::module_lowering::vtables::all_types(i, m, st) matches Ok(x) ==> only_types(
            st.builder,
            x.builder,
        ),
    decreases m.traits@.len() - i,
{
    if 0 <= i < m.traits@.len() && i <= u32::MAX {
        if let Ok(methods) = crate::module_lowering::vtables::trait_methods(
            crate::ir::TraitId(i as u32),
            m,
        ) {
            lemma_trait_types(methods, 0, i as u32, st);
            if let Ok(st1) = crate::module_lowering::vtables::trait_types(
                methods,
                0,
                i as u32,
                st,
            ) {
                lemma_all_types(i + 1, m, st1);
            }
        }
    }
}

/// The method tables declare and export no functions.
pub proof fn lemma_vtable_parts(b: BuilderView, m: IrModule, methods: Map<u64, u32>, text_len: u32)
    ensures
        crate::module_lowering::vtables::vtable_parts(b, m, methods, text_len) matches Ok(x)
            ==> same_functions(b, x.1),
{
    if let Ok(x) = crate::module_lowering::vtables::vtable_parts(b, m, methods, text_len) {
        let s = crate::module_lowering::vtables::all_slots(
            m.impls@,
            0,
            methods,
            crate::module_lowering::vtables::no_slots(),
        )->Ok_0;
        if s.functions.len() > 0 {
            let b1 = b.with_method_table(s.functions.len() as u32);
            let b2 = b1.with_filled(b1.method_table_idx, s.functions);
            lemma_all_types(0, m, MethodTypes { builder: b2, types: Map::empty() });
        }
    }
}

/// How the closure table is filled.
pub proof fn lemma_closure_content(b: BuilderView, m: IrModule, indices: Map<u32, u32>)
    ensures
        crate::module_lowering::closures::closure_parts(b, m, indices) matches Ok((parts, after))
            ==> {
            let l = crate::module_lowering::closures::lifted(
                m.functions@,
                0,
                indices,
                Seq::empty(),
            )->Ok_0;
            let b1 = b.with_closure_table(l.len() as u32);
            &&& parts is Some <==> l.len() > 0
            &&& parts is None ==> after == b
            &&& parts matches Some(p) ==> l.len() <= u32::MAX && p.table == b1.closure_table_idx->0
                && same_tables(
                b1.with_filled(
                    b1.closure_table_idx,
                    crate::module_lowering::closures::lifted_indices(l),
                ),
                after,
            )
        },
{
    if let Ok(x) = crate::module_lowering::closures::closure_parts(b, m, indices) {
        let l = crate::module_lowering::closures::lifted(
            m.functions@,
            0,
            indices,
            Seq::empty(),
        )->Ok_0;
        if l.len() > 0 {
            let b1 = b.with_closure_table(l.len() as u32);
            let b2 = b1.with_filled(
                b1.closure_table_idx,
                crate::module_lowering::closures::lifted_indices(l),
            );
            let st = CallTypes { builder: b2, types: Seq::empty() };
            lemma_functions_calls(m.functions@, 0, st);
            let st1 = crate::module_lowering::closures::functions_calls(
                m.functions@,
                0,
                st,
            )->Ok_0;
            lemma_impls_calls(m.impls@, 0, st1);
        }
    }
}

/// How the method table is filled.
pub proof fn lemma_vtable_content(
    b: BuilderView,
    m: IrModule,
    methods: Map<u64, u32>,
    text_len: u32,
)
    ensures
        crate::module_lowering::vtables::vtable_parts(b, m, methods, text_len) matches Ok(
            (parts, after),
        ) ==> {
            let s = crate::module_lowering::vtables::all_slots(
                m.impls@,
                0,
                methods,
                crate::module_lowering::vtables::no_slots(),
            )->Ok_0;
            let b1 = b.with_method_table(s.functions.len() as u32);
            &&& parts is Some <==> s.functions.len() > 0
            &&& parts is None ==> after == b
            &&& parts matches Some(p) ==> p.table == b1.method_table_idx->0 && same_tables(
                b1.with_filled(b1.method_table_idx, s.functions),
                after,
            )
        },
{
    if let Ok(x) = crate::module_lowering::vtables::vtable_parts(b, m, methods, text_len) {
        let s = crate::module_lowering::vtables::all_slots(
            m.impls@,
            0,
            methods,
            crate::module_lowering::vtables::no_slots(),
        )->Ok_0;
        if s.functions.len() > 0 {
            let b1 = b.with_method_table(s.functions.len() as u32);
            let b2 = b1.with_filled(b1.method_table_idx, s.functions);
            lemma_all_types(0, m, MethodTypes { builder: b2, types: Map::empty() });
        }
    }
}

// ── the laws ─────────────────────────────────────────────────────────

/// The indices by which the bodies of a module call.
pub open spec fn call_indices(m: IrModule) -> Indices {
    (crate::module_lowering::indices::indexed(m, crate::module::fresh())->Ok_0).0
}

/// What the bodies of a module are lowered with.
pub open spec fn context(m: IrModule) -> Cx {
    let pool = crate::module_lowering::walk::module_texts(m, PoolView::empty())->Ok_0;
    let (at, b) = crate::module_lowering::indices::indexed(m, crate::module::fresh())->Ok_0;
    let (closures, b1) = crate::module_lowering::closures::closure_parts(
        b,
        m,
        at.functions,
    )->Ok_0;
    let (vtables, _) = crate::module_lowering::vtables::vtable_parts(
        b1,
        m,
        at.methods,
        pool.data.len() as u32,
    )->Ok_0;
    crate::module_lowering::surroundings(m, pool, at, closures, vtables)
}

proof fn lemma_code_survives(b: BuilderView, end: BuilderView, i: int)
    requires
        extends(b, end),
        0 <= i < b.code.len(),
    ensures
        end.code[i] == b.code[i],
        b.code.len() <= end.code.len(),
{
    assert(end.code.subrange(0, b.code.len() as int)[i] == b.code[i]);
}

proof fn lemma_function_survives(
    fs: Seq<IrFunction>,
    k: int,
    cx: Cx,
    m: IrModule,
    wasm: u32,
    b: BuilderView,
    end: BuilderView,
)
    requires
        stands_at(fs[k], cx, m, None, wasm, b),
        wrapper_stands(fs, k, m, wasm, b),
        extends(b, end),
    ensures
        stands_at(fs[k], cx, m, None, wasm, end),
        wrapper_stands(fs, k, m, wasm, end),
{
    let i = wasm - b.imports.len();
    lemma_code_survives(b, end, i);
    if i + 1 < b.code.len() {
        lemma_code_survives(b, end, i + 1);
    }
}

proof fn lemma_functions_survive(
    fs: Seq<IrFunction>,
    cx: Cx,
    m: IrModule,
    map: Map<u32, u32>,
    b: BuilderView,
    end: BuilderView,
)
    requires
        functions_stand(fs, 0, cx, m, map, b),
        extends(b, end),
    ensures
        functions_stand(fs, 0, cx, m, map, end),
{
    assert forall|k: int| 0 <= k < fs.len() && !(#[trigger] fs[k]).is_extern implies {
        &&& k <= u32::MAX
        &&& map.dom().contains(k as u32)
        &&& stands_at(fs[k], cx, m, None, map[k as u32], end)
        &&& wrapper_stands(fs, k, m, map[k as u32], end)
    } by {
        lemma_function_survives(fs, k, cx, m, map[k as u32], b, end);
    }
}

proof fn lemma_impls_survive(
    cx: Cx,
    m: IrModule,
    map: Map<u64, u32>,
    b: BuilderView,
    end: BuilderView,
)
    requires
        impls_stand(0, cx, m, map, b),
        is_ready(b),
        extends(b, end),
    ensures
        impls_stand(0, cx, m, map, end),
{
    assert forall|k: int|
        #![trigger m.impls@[k]]
        0 <= k < m.impls@.len() && !m.impls@[k].is_extern implies k <= u32::MAX && methods_stand(
        m.impls@[k].functions@,
        0,
        k as u32,
        cx,
        m,
        crate::module_lowering::emit::receiver_of(m.impls@[k].target),
        map,
        end,
    ) by {
        lemma_methods_survive(
            m.impls@[k].functions@,
            k as u32,
            cx,
            m,
            crate::module_lowering::emit::receiver_of(m.impls@[k].target),
            map,
            map,
            b,
            end,
        );
    }
}

pub proof fn lemma_bodies_stand(
    m: IrModule,
    cx: Cx,
    at: Indices,
    start: BuilderView,
    s: Start,
    b: BuilderView,
)
    requires
        starts(m, at, start, s),
        same_functions(start, b),
    ensures
        crate::module_lowering::emit::with_functions(m.functions@, 0, b, cx, m) matches Ok(b1) ==> (
        crate::module_lowering::emit::with_impls(m.impls@, 0, b1, cx, m) matches Ok(end) ==> {
            &&& functions_stand(m.functions@, 0, cx, m, at.functions, end)
            &&& impls_stand(0, cx, m, at.methods, end)
            &&& extends(b, end)
            &&& same_helpers(b, end)
        }),
{
    lemma_functions_stand(m.functions@, 0, b, cx, m, s.offset, 0, s.functions);
    if let Ok(b1) = crate::module_lowering::emit::with_functions(m.functions@, 0, b, cx, m) {
        lemma_impls_stand(0, m, b1, cx, at.late, (s.offset + s.width) as u32, 0, s.methods);
        if let Ok(end) = crate::module_lowering::emit::with_impls(m.impls@, 0, b1, cx, m) {
            lemma_functions_survive(
                m.functions@,
                cx,
                m,
                at.functions,
                b1,
                end,
            );
            lemma_grew_twice(
                b,
                b1,
                end,
                b1.functions.len() - b.functions.len(),
                end.functions.len() - b1.functions.len(),
            );
        }
    }
}

/// Every function and every method that a module defines stands in its core
/// module at the index by which it is called: the body there is its own. Where
/// a function is exported through a wrapper, the wrapper stands behind it and
/// calls it.
pub proof fn law_functions_stand_where_they_are_called(m: IrModule)
    requires
        crate::module_lowering::lowered(m) is Ok,
    ensures
        functions_stand(
            m.functions@,
            0,
            context(m),
            m,
            call_indices(m).functions,
            crate::module_lowering::lowered(m)->Ok_0,
        ),
        impls_stand(
            0,
            context(m),
            m,
            call_indices(m).methods,
            crate::module_lowering::lowered(m)->Ok_0,
        ),
{
    let pool = crate::module_lowering::walk::module_texts(m, PoolView::empty())->Ok_0;
    let (at, b) = crate::module_lowering::indices::indexed(m, crate::module::fresh())->Ok_0;
    let s = lemma_indexed(m);
    lemma_closure_parts(b, m, at.functions);
    let (closures, b1) = crate::module_lowering::closures::closure_parts(
        b,
        m,
        at.functions,
    )->Ok_0;
    lemma_vtable_parts(b1, m, at.methods, pool.data.len() as u32);
    let (vtables, b2) = crate::module_lowering::vtables::vtable_parts(
        b1,
        m,
        at.methods,
        pool.data.len() as u32,
    )->Ok_0;
    let cx = context(m);
    lemma_bodies_stand(m, cx, at, b, s, b2);
    let b3 = crate::module_lowering::emit::with_functions(m.functions@, 0, b2, cx, m)->Ok_0;
    let b4 = crate::module_lowering::emit::with_impls(m.impls@, 0, b3, cx, m)->Ok_0;
    let end = crate::module_lowering::lowered(m)->Ok_0;
    crate::module_lowering::helpers::lemma_late(m, at, b4);
    assert(extends(b4, end));
    lemma_functions_survive(m.functions@, cx, m, at.functions, b4, end);
    lemma_impls_survive(cx, m, at.methods, b4, end);
}

} // verus!
