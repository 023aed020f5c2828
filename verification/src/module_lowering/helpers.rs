//! Laws: every runtime helper stands where calls expect it.

use vstd::prelude::*;

use crate::encode::{ExportTarget, ExportView};
use crate::ir::{IrImpl, IrModule};
use crate::lower::block::BodyView;
use crate::module::{BuilderView, PreludeHelper, CABI_REALLOC_NAME};
use crate::module_lowering::indices::{Emitted, Indices};

verus! {

/// Function `idx` is defined by the module, and its body is `body`.
pub open spec fn held(b: BuilderView, idx: u32, body: BodyView) -> bool {
    &&& b.imports.len() <= idx < b.imports.len() + b.code.len()
    &&& b.code[idx - b.imports.len()] == body
}

/// More code behind leaves a function where it is.
pub proof fn lemma_held(before: BuilderView, after: BuilderView, idx: u32, body: BodyView)
    requires
        held(before, idx, body),
        after.imports == before.imports,
        before.code.is_prefix_of(after.code),
    ensures
        held(after, idx, body),
{
    let k = idx - before.imports.len();
    assert(after.code.subrange(0, before.code.len() as int)[k] == before.code[k]);
}

// ── declaration ──────────────────────────────────────────────────────

/// The helper of a built-in type that is declared at position `k`.
pub open spec fn helper_at(k: int) -> PreludeHelper {
    if k == 0 {
        PreludeHelper::StrLen
    } else if k == 1 {
        PreludeHelper::StrIsEmpty
    } else if k == 2 {
        PreludeHelper::StrByteAt
    } else if k == 3 {
        PreludeHelper::StrSlice
    } else if k == 4 {
        PreludeHelper::StrStartsWith
    } else if k == 5 {
        PreludeHelper::StrContains
    } else if k == 6 {
        PreludeHelper::ArrayLen
    } else if k == 7 {
        PreludeHelper::ArrayIsEmpty
    } else if k == 8 {
        PreludeHelper::OptionalIsSome
    } else if k == 9 {
        PreludeHelper::OptionalIsNone
    } else if k == 10 {
        PreludeHelper::RangeLen
    } else if k == 11 {
        PreludeHelper::RangeIsEmpty
    } else if k == 12 {
        PreludeHelper::DictLen
    } else {
        PreludeHelper::DictIsEmpty
    }
}

/// `b` with the first `k` helpers of built-in types.
pub open spec fn with_list(b: BuilderView, k: nat) -> BuilderView
    decreases k,
{
    if k == 0 {
        b
    } else {
        with_list(b, (k - 1) as nat).with_prelude(helper_at(k - 1))
    }
}

proof fn lemma_all_helpers(b: BuilderView)
    ensures
        crate::module_lowering::indices::with_prelude_helpers(b) == with_list(b, 14),
{
    reveal(crate::module_lowering::indices::with_prelude_helpers);
    reveal_with_fuel(with_list, 15);
}

/// What is not listed has no index.
proof fn lemma_not_listed(s: Seq<(PreludeHelper, u32)>, h: PreludeHelper, from: int)
    requires
        0 <= from,
        forall|j: int| from <= j < s.len() ==> (#[trigger] s[j]).0 != h,
    ensures
        crate::module::prelude_index(s, h, from) is None,
    decreases s.len() - from,
{
    if from < s.len() {
        lemma_not_listed(s, h, from + 1);
    }
}

/// `c` is `b` with the bodies of the first `k` helpers behind the others.
pub open spec fn lists(b: BuilderView, c: BuilderView, k: nat) -> bool {
    &&& crate::module_lowering::placement::extends(b, c)
    &&& c.exports == b.exports
    &&& c.code.len() == b.code.len() + k
    &&& c.prelude.len() == k
    &&& forall|j: int|
        0 <= j < k ==> (#[trigger] c.prelude[j]).0 == helper_at(j) && c.code[b.code.len() + j]
            == crate::module::prelude_body(helper_at(j), b.bump_allocator->0)
}

proof fn lemma_with_list(b: BuilderView, k: nat)
    requires
        crate::module_lowering::placement::is_ready(b),
        k <= 14,
        b.prelude.len() == 0,
    ensures
        lists(b, with_list(b, k), k),
    decreases k,
{
    if k == 0 {
        assert(b.code =~= b.code.subrange(0, b.code.len() as int));
    } else {
        let before = with_list(b, (k - 1) as nat);
        let c = with_list(b, k);
        let h = helper_at(k - 1);
        lemma_with_list(b, (k - 1) as nat);
        assert forall|j: int| 0 <= j < before.prelude.len() implies (#[trigger] before.prelude[j]).0
            != h by {
            assert(crate::module_lowering::indices::helper_position(helper_at(j)) == j);
            assert(crate::module_lowering::indices::helper_position(h) == k - 1);
        }
        lemma_not_listed(before.prelude, h, 0);
        assert(c.code == before.code.push(
            crate::module::prelude_body(h, before.bump_allocator->0),
        ));
        assert(before.code =~= c.code.subrange(0, before.code.len() as int));
        crate::module_lowering::placement::lemma_extends_twice(b, before, c);
        assert forall|j: int| 0 <= j < k implies (#[trigger] c.prelude[j]).0 == helper_at(j)
            && c.code[b.code.len() + j] == crate::module::prelude_body(
            helper_at(j),
            b.bump_allocator->0,
        ) by {
            if j < k - 1 {
                assert(c.prelude[j] == before.prelude[j]);
                assert(c.code[b.code.len() + j] == before.code[b.code.len() + j]);
            }
        }
    }
}

/// The runtime helpers stand at the indices by which they are called.
pub open spec fn helpers_stand(at: Indices, b: BuilderView) -> bool {
    &&& held(b, at.str_eq, crate::module::str_eq_body())
    &&& held(b, at.str_concat, crate::module::str_concat_body(at.bump_allocator))
    &&& forall|h: PreludeHelper|
        held(
            b,
            #[trigger] crate::module_lowering::indices::helper_index(at.late, h),
            crate::module::prelude_body(h, at.bump_allocator),
        )
    &&& held(
        b,
        (at.late + 16) as u32,
        crate::module::realloc_body(at.bump_allocator),
    )
}

/// The export of the reallocation hook.
pub open spec fn realloc_export(index: u32) -> ExportView {
    ExportView { name: CABI_REALLOC_NAME@, target: ExportTarget::Function, index }
}

/// The helpers of texts are declared.
proof fn lemma_text_helpers(at: Indices, b: BuilderView)
    requires
        crate::module_lowering::placement::is_ready(b),
        crate::module_lowering::placement::no_helpers(b),
        b.bump_allocator == Some(at.bump_allocator),
    ensures
        ({
            let c = b.with_bump().with_str_eq().with_str_concat();
            &&& crate::module_lowering::placement::extends(b, c)
            &&& c.exports == b.exports
            &&& c.prelude.len() == 0
            &&& c.code.len() == b.code.len() + 2
            &&& c.code[b.code.len() as int] == crate::module::str_eq_body()
            &&& c.code[b.code.len() as int + 1] == crate::module::str_concat_body(at.bump_allocator)
        }),
{
    let c = b.with_bump().with_str_eq().with_str_concat();
    assert(b.code =~= c.code.subrange(0, b.code.len() as int));
}

/// The reallocation hook is declared.
proof fn lemma_realloc(b: BuilderView)
    requires
        crate::module_lowering::placement::is_ready(b),
        b.imports.len() + b.functions.len() <= u32::MAX,
    ensures
        ({
            let c = b.with_cabi_realloc();
            &&& crate::module_lowering::placement::extends(b, c)
            &&& c.exports == b.exports.push(
                realloc_export((b.imports.len() + b.functions.len()) as u32),
            )
            &&& c.code == b.code.push(crate::module::realloc_body(b.bump_allocator->0))
        }),
{
    let c = b.with_cabi_realloc();
    assert(b.code =~= c.code.subrange(0, b.code.len() as int));
}

proof fn lemma_runtime(at: Indices, b: BuilderView)
    requires
        crate::module_lowering::placement::is_ready(b),
        crate::module_lowering::placement::no_helpers(b),
        b.bump_allocator == Some(at.bump_allocator),
        b.imports.len() + b.functions.len() == at.late,
        at.late + 17 <= u32::MAX,
        at.str_eq == at.late,
        at.str_concat == at.late + 1,
    ensures
        ({
            let c = crate::module_lowering::indices::with_runtime(b).with_cabi_realloc();
            &&& crate::module_lowering::placement::extends(b, c)
            &&& c.exports == b.exports.push(realloc_export((at.late + 16) as u32))
            &&& helpers_stand(at, c)
        }),
{
    let b2 = b.with_bump().with_str_eq().with_str_concat();
    let b3 = with_list(b2, 14);
    let c = b3.with_cabi_realloc();
    lemma_text_helpers(at, b);
    lemma_all_helpers(b2);
    lemma_with_list(b2, 14);
    lemma_realloc(b3);
    crate::module_lowering::placement::lemma_extends_twice(b, b2, b3);
    crate::module_lowering::placement::lemma_extends_twice(b, b3, c);
    lemma_runtime_stands(at, b, b2, b3, c);
}

proof fn lemma_runtime_stands(
    at: Indices,
    b: BuilderView,
    b2: BuilderView,
    b3: BuilderView,
    c: BuilderView,
)
    requires
        b.imports.len() + b.code.len() == at.late,
        at.late + 17 <= u32::MAX,
        at.str_eq == at.late,
        at.str_concat == at.late + 1,
        c.imports == b.imports,
        b2.code.len() == b.code.len() + 2,
        b2.code[b.code.len() as int] == crate::module::str_eq_body(),
        b2.code[b.code.len() as int + 1] == crate::module::str_concat_body(at.bump_allocator),
        b2.bump_allocator == Some(at.bump_allocator),
        lists(b2, b3, 14),
        c.code == b3.code.push(crate::module::realloc_body(at.bump_allocator)),
    ensures
        helpers_stand(at, c),
{
    let n = b.code.len() as int;
    assert(b3.code.subrange(0, b2.code.len() as int)[n] == b2.code[n]);
    assert(b3.code.subrange(0, b2.code.len() as int)[n + 1] == b2.code[n + 1]);
    assert forall|h: PreludeHelper|
        held(
            c,
            #[trigger] crate::module_lowering::indices::helper_index(at.late, h),
            crate::module::prelude_body(h, at.bump_allocator),
        ) by {
        let j = crate::module_lowering::indices::helper_position(h);
        assert(helper_at(j) == h);
        assert(b3.prelude[j].0 == helper_at(j));
        assert(c.code[n + 2 + j] == b3.code[n + 2 + j]);
    }
}

/// What is declared behind the module's own functions and methods stands where
/// it is called, and leaves the others where they are.
pub proof fn lemma_late(m: IrModule, at: Indices, b: BuilderView)
    requires
        crate::module_lowering::placement::is_ready(b),
        crate::module_lowering::placement::no_helpers(b),
        b.bump_allocator == Some(at.bump_allocator),
        at.str_eq == at.late,
        at.str_concat == at.late + 1,
    ensures
        crate::module_lowering::indices::with_late(m, at, b) matches Ok(end) ==> {
            &&& crate::module_lowering::placement::extends(b, end)
            &&& end.exports == b.exports.push(realloc_export((at.late + 16) as u32))
            &&& helpers_stand(at, end)
        },
{
    reveal(crate::module_lowering::indices::with_late);
    if let Ok(end) = crate::module_lowering::indices::with_late(m, at, b) {
        lemma_runtime(at, b);
        let c = crate::module_lowering::indices::with_runtime(b).with_cabi_realloc();
        let st = Emitted { builder: c, next: (at.late + 17) as u32 };
        lemma_method_trampolines_behind(m, at, st);
        crate::module_lowering::placement::lemma_extends_twice(b, c, end);
        lemma_held(c, end, at.str_eq, crate::module::str_eq_body());
        lemma_held(
            c,
            end,
            at.str_concat,
            crate::module::str_concat_body(at.bump_allocator),
        );
        lemma_held(
            c,
            end,
            (at.late + 16) as u32,
            crate::module::realloc_body(at.bump_allocator),
        );
        assert forall|h: PreludeHelper|
            held(
                end,
                #[trigger] crate::module_lowering::indices::helper_index(at.late, h),
                crate::module::prelude_body(h, at.bump_allocator),
            ) by {
            lemma_held(
                c,
                end,
                crate::module_lowering::indices::helper_index(at.late, h),
                crate::module::prelude_body(h, at.bump_allocator),
            );
        }
    }
}

proof fn lemma_method_trampolines_behind(m: IrModule, at: Indices, st: Emitted)
    requires
        crate::module_lowering::placement::is_ready(st.builder),
    ensures
        crate::module_lowering::indices::method_trampolines(at.host_methods, 0, m, st) matches Ok(x)
            ==> (crate::module_lowering::indices::function_trampolines(
            at.hosts,
            0,
            m,
            x,
        ) matches Ok(y) ==> crate::module_lowering::placement::extends(st.builder, y.builder)
            && y.builder.exports == st.builder.exports),
{
    crate::module_lowering::placement::lemma_method_trampolines(at.host_methods, 0, m, st);
    if let Ok(x) = crate::module_lowering::indices::method_trampolines(
        at.host_methods,
        0,
        m,
        st,
    ) {
        crate::module_lowering::placement::lemma_function_trampolines(at.hosts, 0, m, x);
        if let Ok(y) = crate::module_lowering::indices::function_trampolines(at.hosts, 0, m, x) {
            crate::module_lowering::placement::lemma_extends_twice(
                st.builder,
                x.builder,
                y.builder,
            );
        }
    }
}

// ── methods of built-in types ────────────────────────────────────────

/// The helper behind method `j` of an impl block.
pub open spec fn helper_of(imp: IrImpl, j: int, m: IrModule) -> Option<PreludeHelper> {
    crate::module_lowering::indices::helper_for(imp.target, imp.functions@[j].name@, m)
}

/// The methods of impl block `id`, from method `j` on, are called by the
/// indices of the helpers behind them.
pub open spec fn helpers_assigned(
    imp: IrImpl,
    j: int,
    id: u32,
    m: IrModule,
    late: u32,
    map: Map<u64, u32>,
) -> bool {
    forall|k: int|
        #![trigger helper_of(imp, k, m)]
        j <= k < imp.functions@.len() ==> (helper_of(imp, k, m) matches Some(h) ==> {
            let key = crate::lower::maps::pair_key(id, k as u32);
            &&& k <= u32::MAX
            &&& map.dom().contains(key)
            &&& map[key] == crate::module_lowering::indices::helper_index(late, h)
        })
}

/// The indices of helpers are assigned, and those of other impl blocks and
/// earlier methods are kept.
pub proof fn lemma_helper_methods(
    imp: IrImpl,
    j: int,
    id: u32,
    m: IrModule,
    late: u32,
    map: Map<u64, u32>,
)
    requires
        0 <= j,
    ensures
        crate::module_lowering::indices::helper_methods(imp, j, id, m, late, map) matches Ok(after)
            ==> crate::module_lowering::placement::keeps(map, after, id as int, j)
            && helpers_assigned(imp, j, id, m, late, after),
    decreases imp.functions@.len() - j,
{
    if j < imp.functions@.len() && j <= u32::MAX {
        let key = crate::lower::maps::pair_key(id, j as u32);
        let map1 = match helper_of(imp, j, m) {
            None => map,
            Some(h) => map.insert(
                key,
                crate::module_lowering::indices::helper_index(late, h),
            ),
        };
        lemma_helper_methods(imp, j + 1, id, m, late, map1);
        if let Ok(after) = crate::module_lowering::indices::helper_methods(
            imp,
            j,
            id,
            m,
            late,
            map,
        ) {
            assert(crate::module_lowering::placement::key_before(key, id as int, j + 1));
            assert(map1.dom().contains(key) ==> after.dom().contains(key) && after[key]
                == map1[key]);
            assert forall|x: u64| #[trigger]
                map.dom().contains(x) && crate::module_lowering::placement::key_before(
                    x,
                    id as int,
                    j,
                ) implies after.dom().contains(x) && after[x] == map[x] by {
                assert(map1.dom().contains(x));
                assert(crate::module_lowering::placement::key_before(x, id as int, j + 1));
            }
        }
    }
}

proof fn lemma_impl_methods(
    n: nat,
    j: int,
    id: u32,
    offset: u32,
    counter: u32,
    map: Map<u64, u32>,
)
    requires
        0 <= j,
    ensures
        crate::module_lowering::indices::impl_methods(n, j, id, offset, counter, map) matches Ok(x)
            ==> crate::module_lowering::placement::keeps(map, x.0, id as int, j),
    decreases n - j,
{
    if j < n && crate::module_lowering::indices::impl_methods(
        n,
        j,
        id,
        offset,
        counter,
        map,
    ) is Ok {
        let map1 = map.insert(
            crate::lower::maps::pair_key(id, j as u32),
            (offset + counter) as u32,
        );
        lemma_impl_methods(n, j + 1, id, offset, (counter + 1) as u32, map1);
        let after = (crate::module_lowering::indices::impl_methods(
            n,
            j,
            id,
            offset,
            counter,
            map,
        )->Ok_0).0;
        assert forall|x: u64| #[trigger]
            map.dom().contains(x) && crate::module_lowering::placement::key_before(
                x,
                id as int,
                j,
            ) implies after.dom().contains(x) && after[x] == map[x] by {
            assert(map1.dom().contains(x));
            assert(crate::module_lowering::placement::key_before(x, id as int, j + 1));
        }
    }
}

/// Impl block `k` extends a built-in type.
pub open spec fn extends_built_in(m: IrModule, k: int) -> bool {
    m.impls@[k].is_extern && crate::module_lowering::indices::is_built_in(m.impls@[k].target, m)
}

proof fn lemma_own_methods(
    i: int,
    m: IrModule,
    late: u32,
    offset: u32,
    counter: u32,
    map: Map<u64, u32>,
)
    requires
        0 <= i,
    ensures
        crate::module_lowering::indices::own_methods(i, m, late, offset, counter, map) matches Ok(
            after,
        ) ==> {
            &&& crate::module_lowering::placement::keeps(map, after, i, 0)
            &&& forall|k: int|
                #![trigger extends_built_in(m, k)]
                i <= k < m.impls@.len() && extends_built_in(m, k) ==> k <= u32::MAX
                    && helpers_assigned(m.impls@[k], 0, k as u32, m, late, after)
        },
    decreases m.impls@.len() - i,
{
    let assigned = crate::module_lowering::indices::own_methods(i, m, late, offset, counter, map);
    if i < m.impls@.len() && assigned is Ok {
        let after = assigned->Ok_0;
        let imp = m.impls@[i];
        let id = i as u32;
        let map1 = if extends_built_in(m, i) {
            lemma_helper_methods(imp, 0, id, m, late, map);
            let map1 = crate::module_lowering::indices::helper_methods(
                imp,
                0,
                id,
                m,
                late,
                map,
            )->Ok_0;
            lemma_own_methods(i + 1, m, late, offset, counter, map1);
            map1
        } else if imp.is_extern {
            lemma_own_methods(i + 1, m, late, offset, counter, map);
            map
        } else {
            let n = imp.functions@.len();
            lemma_impl_methods(n, 0, id, offset, counter, map);
            let (map1, next) = crate::module_lowering::indices::impl_methods(
                n,
                0,
                id,
                offset,
                counter,
                map,
            )->Ok_0;
            lemma_own_methods(i + 1, m, late, offset, next, map1);
            map1
        };
        assert forall|x: u64| #[trigger]
            map.dom().contains(x) && crate::module_lowering::placement::key_before(
                x,
                i,
                0,
            ) implies after.dom().contains(x) && after[x] == map[x] by {
            assert(map1.dom().contains(x));
            assert(crate::module_lowering::placement::key_before(x, i + 1, 0));
        }
        if extends_built_in(m, i) {
            assert forall|k: int|
                #![trigger helper_of(imp, k, m)]
                0 <= k < imp.functions@.len() implies (helper_of(imp, k, m) matches Some(h) ==> {
                let key = crate::lower::maps::pair_key(id, k as u32);
                &&& k <= u32::MAX
                &&& after.dom().contains(key)
                &&& after[key] == crate::module_lowering::indices::helper_index(late, h)
            }) by {
                let key = crate::lower::maps::pair_key(id, k as u32);
                if map1.dom().contains(key) && k <= u32::MAX {
                    assert(crate::module_lowering::placement::key_before(key, i + 1, 0));
                }
            }
        }
    }
}

/// The runtime helpers stand in a core module at the indices by which its
/// bodies call them. So do the helpers behind the methods of built-in types:
/// a call of such a method reaches the code of its helper.
pub proof fn law_helpers_stand_where_they_are_called(m: IrModule)
    requires
        crate::module_lowering::lowered(m) is Ok,
    ensures
        ({
            let end = crate::module_lowering::lowered(m)->Ok_0;
            let cx = crate::module_lowering::placement::context(m);
            let at = crate::module_lowering::placement::call_indices(m);
            let alloc = at.bump_allocator;
            &&& cx.bump_allocator == Some(alloc)
            &&& cx.str_eq == Some(at.str_eq)
            &&& cx.str_concat == Some(at.str_concat)
            &&& held(end, alloc, crate::module::bump_body())
            &&& held(end, at.str_eq, crate::module::str_eq_body())
            &&& held(end, at.str_concat, crate::module::str_concat_body(alloc))
            &&& forall|i: int, j: int|
                #![trigger helper_of(m.impls@[i], j, m)]
                0 <= i < m.impls@.len() && 0 <= j < m.impls@[i].functions@.len()
                    && extends_built_in(m, i) ==> (helper_of(m.impls@[i], j, m) matches Some(h)
                    ==> {
                    let key = crate::lower::maps::pair_key(i as u32, j as u32);
                    &&& i <= u32::MAX && j <= u32::MAX
                    &&& at.methods.dom().contains(key)
                    &&& held(end, at.methods[key], crate::module::prelude_body(h, alloc))
                })
        }),
{
    let pool = crate::module_lowering::walk::module_texts(
        m,
        crate::string_pool::PoolView::empty(),
    )->Ok_0;
    let (at, b) = crate::module_lowering::indices::indexed(m, crate::module::fresh())->Ok_0;
    let s = crate::module_lowering::placement::lemma_indexed(m);
    crate::module_lowering::placement::lemma_closure_parts(b, m, at.functions);
    let (closures, b1) = crate::module_lowering::closures::closure_parts(
        b,
        m,
        at.functions,
    )->Ok_0;
    crate::module_lowering::placement::lemma_vtable_parts(
        b1,
        m,
        at.methods,
        pool.data.len() as u32,
    );
    let (vtables, b2) = crate::module_lowering::vtables::vtable_parts(
        b1,
        m,
        at.methods,
        pool.data.len() as u32,
    )->Ok_0;
    let cx = crate::module_lowering::placement::context(m);
    crate::module_lowering::placement::lemma_bodies_stand(m, cx, at, b, s, b2);
    let b3 = crate::module_lowering::emit::with_functions(m.functions@, 0, b2, cx, m)->Ok_0;
    let b4 = crate::module_lowering::emit::with_impls(m.impls@, 0, b3, cx, m)->Ok_0;
    let end = crate::module_lowering::lowered(m)->Ok_0;
    lemma_late(m, at, b4);
    assert(held(b, at.bump_allocator, crate::module::bump_body()));
    lemma_held(b, b4, at.bump_allocator, crate::module::bump_body());
    lemma_held(b4, end, at.bump_allocator, crate::module::bump_body());
    lemma_own_methods(0, m, at.late, (s.offset + s.width) as u32, 0, s.methods);
    assert forall|i: int, j: int|
        #![trigger helper_of(m.impls@[i], j, m)]
        0 <= i < m.impls@.len() && 0 <= j < m.impls@[i].functions@.len() && extends_built_in(
            m,
            i,
        ) implies (helper_of(m.impls@[i], j, m) matches Some(h) ==> {
        let key = crate::lower::maps::pair_key(i as u32, j as u32);
        &&& i <= u32::MAX && j <= u32::MAX
        &&& at.methods.dom().contains(key)
        &&& held(end, at.methods[key], crate::module::prelude_body(h, at.bump_allocator))
    }) by {
        if let Some(h) = helper_of(m.impls@[i], j, m) {
            assert(held(
                end,
                crate::module_lowering::indices::helper_index(at.late, h),
                crate::module::prelude_body(h, at.bump_allocator),
            ));
        }
    }
}

} // verus!
