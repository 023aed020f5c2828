//! Laws: indirect calls reach the functions that they mean.

use vstd::prelude::*;

use crate::encode::ElementsView;
use crate::ir::{IrImpl, IrModule, TraitId};
use crate::module::BuilderView;
use crate::module_lowering::closures::ClosureParts;
use crate::module_lowering::error::ModuleLowerError;
use crate::module_lowering::vtables::{Owned, Slots, Tables, VtableParts};
use crate::string_pool::PoolView;

verus! {

// ── the steps of a lowering ──────────────────────────────────────────

/// The text data of a module.
pub open spec fn text_data(m: IrModule) -> Seq<u8> {
    (crate::module_lowering::walk::module_texts(m, PoolView::empty())->Ok_0).data
}

/// The closure table of a module, and the builder with it.
pub open spec fn closure_step(m: IrModule) -> (Option<ClosureParts>, BuilderView) {
    let (at, b) = crate::module_lowering::indices::indexed(m, crate::module::fresh())->Ok_0;
    crate::module_lowering::closures::closure_parts(b, m, at.functions)->Ok_0
}

/// The method tables of a module, and the builder with them.
pub open spec fn vtable_step(m: IrModule) -> (Option<VtableParts>, BuilderView) {
    crate::module_lowering::vtables::vtable_parts(
        closure_step(m).1,
        m,
        crate::module_lowering::placement::call_indices(m).methods,
        text_data(m).len() as u32,
    )->Ok_0
}

proof fn lemma_steps(m: IrModule)
    requires
        crate::module_lowering::lowered(m) is Ok,
    ensures
        ({
            let (at, b) = crate::module_lowering::indices::indexed(
                m,
                crate::module::fresh(),
            )->Ok_0;
            let cx = crate::module_lowering::placement::context(m);
            let end = crate::module_lowering::lowered(m)->Ok_0;
            let closures = crate::module_lowering::closures::closure_parts(b, m, at.functions);
            let vtables = crate::module_lowering::vtables::vtable_parts(
                closure_step(m).1,
                m,
                at.methods,
                text_data(m).len() as u32,
            );
            let (c, v) = (closure_step(m).0, vtable_step(m).0);
            &&& crate::module_lowering::placement::same_tables(crate::module::fresh(), b)
            &&& crate::module_lowering::placement::same_tables(vtable_step(m).1, end)
            &&& closures is Ok
            &&& vtables is Ok
            &&& text_data(m).len() <= u32::MAX
            &&& end.static_data == crate::module_lowering::static_data(text_data(m), v)
            &&& cx.closure_table == (match c {
                Some(p) => Some(p.table),
                None => None,
            })
            &&& cx.closure_funcref_indices == (match c {
                Some(p) => Some(p.slots),
                None => None,
            })
            &&& cx.method_table == (match v {
                Some(p) => Some(p.table),
                None => None,
            })
            &&& cx.vtable_offsets == (match v {
                Some(p) => Some(p.offsets),
                None => None,
            })
        }),
{
    let (at, b) = crate::module_lowering::indices::indexed(m, crate::module::fresh())->Ok_0;
    let s = crate::module_lowering::placement::lemma_indexed(m);
    crate::module_lowering::placement::lemma_closure_parts(b, m, at.functions);
    let b1 = closure_step(m).1;
    crate::module_lowering::placement::lemma_vtable_parts(
        b1,
        m,
        at.methods,
        text_data(m).len() as u32,
    );
    let b2 = vtable_step(m).1;
    crate::module_lowering::placement::lemma_bodies_stand(
        m,
        crate::module_lowering::placement::context(m),
        at,
        b,
        s,
        b2,
    );
    let cx = crate::module_lowering::placement::context(m);
    let b3 = crate::module_lowering::emit::with_functions(m.functions@, 0, b2, cx, m)->Ok_0;
    let b4 = crate::module_lowering::emit::with_impls(m.impls@, 0, b3, cx, m)->Ok_0;
    crate::module_lowering::helpers::lemma_late(m, at, b4);
}

// ── how the tables are filled ────────────────────────────────────────

/// The lifted closure functions of a module, each with its index.
pub open spec fn closure_functions(m: IrModule) -> Seq<(u32, u32)> {
    crate::module_lowering::closures::lifted(
        m.functions@,
        0,
        crate::module_lowering::placement::call_indices(m).functions,
        Seq::empty(),
    )->Ok_0
}

/// The methods of a module that can be called virtually.
pub open spec fn method_slots(m: IrModule) -> Slots {
    crate::module_lowering::vtables::all_slots(
        m.impls@,
        0,
        crate::module_lowering::placement::call_indices(m).methods,
        crate::module_lowering::vtables::no_slots(),
    )->Ok_0
}

/// The content of one table, where there is a table.
pub open spec fn content(table: Option<u32>, functions: Seq<u32>) -> Seq<ElementsView> {
    match table {
        None => Seq::empty(),
        Some(t) => seq![ElementsView { table: t, offset: 0, functions }],
    }
}

/// The tables of a core module are filled from their start: the closure
/// table with the lifted closure functions, the method table with the methods
/// that can be called virtually. Nothing else is in them, and each is as long
/// as its content.
pub proof fn law_tables_are_filled(m: IrModule)
    requires
        crate::module_lowering::lowered(m) is Ok,
    ensures
        ({
            let end = crate::module_lowering::lowered(m)->Ok_0;
            let cx = crate::module_lowering::placement::context(m);
            let closures = crate::module_lowering::closures::lifted_indices(closure_functions(m));
            let methods = method_slots(m).functions;
            &&& end.elements == content(cx.closure_table, closures) + content(
                cx.method_table,
                methods,
            )
            &&& cx.closure_table is Some <==> closures.len() > 0
            &&& cx.method_table is Some <==> methods.len() > 0
            &&& cx.closure_table matches Some(t) ==> t < end.tables.len()
                && end.tables[t as int] == crate::module::exact_table(closures.len() as u32)
            &&& cx.method_table matches Some(t) ==> t < end.tables.len() && end.tables[t as int]
                == crate::module::exact_table(methods.len() as u32)
            &&& closures.len() <= u32::MAX
            &&& methods.len() <= u32::MAX
            &&& cx.closure_table is Some && cx.method_table is Some ==> cx.closure_table
                != cx.method_table
        }),
{
    lemma_steps(m);
    let at = crate::module_lowering::placement::call_indices(m);
    let b = (crate::module_lowering::indices::indexed(m, crate::module::fresh())->Ok_0).1;
    let b1 = closure_step(m).1;
    crate::module_lowering::placement::lemma_closure_content(b, m, at.functions);
    crate::module_lowering::placement::lemma_vtable_content(
        b1,
        m,
        at.methods,
        text_data(m).len() as u32,
    );
    crate::module_lowering::vtables::lemma_slots_fit(
        m.impls@,
        0,
        at.methods,
        crate::module_lowering::vtables::no_slots(),
    );
    let end = crate::module_lowering::lowered(m)->Ok_0;
    let cx = crate::module_lowering::placement::context(m);
    assert(end.elements =~= content(
        cx.closure_table,
        crate::module_lowering::closures::lifted_indices(closure_functions(m)),
    ) + content(cx.method_table, method_slots(m).functions));
}

// ── closures ─────────────────────────────────────────────────────────

proof fn lemma_lifted(
    fs: Seq<crate::ir::IrFunction>,
    i: int,
    indices: Map<u32, u32>,
    out: Seq<(u32, u32)>,
)
    requires
        forall|k: int|
            0 <= k < out.len() ==> indices.dom().contains((#[trigger] out[k]).0)
                && indices[out[k].0] == out[k].1,
    ensures
        crate::module_lowering::closures::lifted(fs, i, indices, out) matches Ok(l) ==> forall|
            k: int,
        |
            0 <= k < l.len() ==> indices.dom().contains((#[trigger] l[k]).0) && indices[l[k].0]
                == l[k].1,
    decreases fs.len() - i,
{
    if 0 <= i < fs.len() {
        if !"__closure"@.is_prefix_of(fs[i].name@) {
            lemma_lifted(fs, i + 1, indices, out);
        } else if i <= u32::MAX && indices.dom().contains(i as u32) {
            lemma_lifted(fs, i + 1, indices, out.push((i as u32, indices[i as u32])));
        }
    }
}

proof fn lemma_slots(l: Seq<(u32, u32)>, k: nat, id: u32)
    requires
        k <= l.len() <= u32::MAX,
    ensures
        ({
            let map = crate::module_lowering::closures::slots(l, k);
            map.dom().contains(id) ==> map[id] < k && l[map[id] as int].0 == id
        }),
    decreases k,
{
    if k > 0 {
        lemma_slots(l, (k - 1) as nat, id);
    }
}

/// The slot that a reference to a closure function holds leads to that
/// function: the closure table has the function's index there.
pub proof fn law_closure_slots_hold_their_functions(m: IrModule, id: u32)
    requires
        crate::module_lowering::lowered(m) is Ok,
        crate::module_lowering::placement::context(m).closure_funcref_indices matches Some(slots)
            && slots.dom().contains(id),
    ensures
        ({
            let cx = crate::module_lowering::placement::context(m);
            let slot = (cx.closure_funcref_indices->0)[id];
            let table = crate::module_lowering::closures::lifted_indices(closure_functions(m));
            let functions = crate::module_lowering::placement::call_indices(m).functions;
            &&& cx.closure_table is Some
            &&& slot < table.len()
            &&& functions.dom().contains(id)
            &&& table[slot as int] == functions[id]
        }),
{
    lemma_steps(m);
    let l = closure_functions(m);
    lemma_slots(l, l.len(), id);
    lemma_lifted(
        m.functions@,
        0,
        crate::module_lowering::placement::call_indices(m).functions,
        Seq::empty(),
    );
    let slot = (crate::module_lowering::placement::context(m).closure_funcref_indices->0)[id];
    assert(l[slot as int].0 == id);
}

// ── methods ──────────────────────────────────────────────────────────

/// Each slot has the index of its method.
pub open spec fn slots_lead(st: Slots, methods: Map<u64, u32>) -> bool {
    forall|key: u64| #[trigger]
        st.slots.dom().contains(key) ==> {
            &&& st.slots[key] < st.functions.len()
            &&& methods.dom().contains(key)
            &&& st.functions[st.slots[key] as int] == methods[key]
        }
}

proof fn lemma_impl_slots_lead(n: nat, impl_id: u32, j: int, methods: Map<u64, u32>, st: Slots)
    requires
        slots_lead(st, methods),
    ensures
        crate::module_lowering::vtables::impl_slots(n, impl_id, j, methods, st) matches Ok(s)
            ==> slots_lead(s, methods),
    decreases n - j,
{
    if 0 <= j < n && j <= u32::MAX && st.functions.len() < u32::MAX {
        let key = crate::lower::maps::pair_key(impl_id, j as u32);
        if methods.dom().contains(key) {
            lemma_impl_slots_lead(
                n,
                impl_id,
                j + 1,
                methods,
                Slots {
                    slots: st.slots.insert(key, st.functions.len() as u32),
                    functions: st.functions.push(methods[key]),
                },
            );
        }
    }
}

proof fn lemma_slots_lead(impls: Seq<IrImpl>, i: int, methods: Map<u64, u32>, st: Slots)
    requires
        slots_lead(st, methods),
    ensures
        crate::module_lowering::vtables::all_slots(impls, i, methods, st) matches Ok(s)
            ==> slots_lead(s, methods),
    decreases impls.len() - i,
{
    if 0 <= i < impls.len() {
        if impls[i].is_extern || impls[i].trait_ref is None {
            lemma_slots_lead(impls, i + 1, methods, st);
        } else if i <= u32::MAX {
            let n = impls[i].functions@.len();
            lemma_impl_slots_lead(n, i as u32, 0, methods, st);
            if let Ok(st1) = crate::module_lowering::vtables::impl_slots(
                n,
                i as u32,
                0,
                methods,
                st,
            ) {
                lemma_slots_lead(impls, i + 1, methods, st1);
            }
        }
    }
}

/// Where the method that impl block `k` has for a method of its trait
/// stands: the block, and the position in it.
pub open spec fn implementation(method: Owned, k: int, m: IrModule) -> Option<(int, int)> {
    let imp = m.impls@[k];
    if method.0 == imp.trait_ref->0.trait_id {
        match crate::module_lowering::vtables::function_position(
            imp.functions@,
            method.1.name@,
            0,
        ) {
            Some(j) => Some((k, j)),
            None => None,
        }
    } else {
        crate::module_lowering::vtables::provider(
            m.impls@,
            0,
            method.0,
            imp.target,
            method.1.name@,
        )
    }
}

/// `table` has in `slot` the index of the method that implements `method` in
/// impl block `k`.
pub open spec fn slot_leads(
    method: Owned,
    k: int,
    m: IrModule,
    slot: int,
    table: Seq<u32>,
    indices: Map<u64, u32>,
) -> bool {
    match implementation(method, k, m) {
        None => false,
        Some((i, f)) => {
            let key = crate::lower::maps::pair_key(i as u32, f as u32);
            &&& 0 <= i <= u32::MAX
            &&& 0 <= f <= u32::MAX
            &&& 0 <= slot < table.len()
            &&& indices.dom().contains(key)
            &&& table[slot] == indices[key]
        },
    }
}

/// The bytes at `at` are a method table of impl block `k`: for each method of
/// its trait the slot of the method that implements it.
pub open spec fn is_method_table(data: Seq<u8>, at: int, k: int, m: IrModule, slots: Map<u64, u32>) -> bool {
    let id = m.impls@[k].trait_ref->0.trait_id;
    &&& 0 <= k < m.impls@.len()
    &&& !m.impls@[k].is_extern
    &&& m.impls@[k].trait_ref is Some
    &&& crate::module_lowering::vtables::trait_methods(id, m) matches Ok(methods) && 0 <= at && at
        + 4 * methods.len() <= data.len() && forall|j: int|
        #![trigger methods[j]]
        0 <= j < methods.len() ==> crate::module_lowering::vtables::cell(methods[j], k, m, slots)
            == Ok::<u32, ModuleLowerError>(
            crate::string_pool::read_le32(data, at + 4 * j) as u32,
        ) && 0 <= crate::string_pool::read_le32(data, at + 4 * j) <= u32::MAX
}

proof fn lemma_read_at(data: Seq<u8>, at: int, x: u32)
    requires
        0 <= at,
        at + 4 <= data.len(),
        data.subrange(at, at + 4) == crate::string_pool::le32(x),
    ensures
        crate::string_pool::read_le32(data, at) == x,
{
    crate::string_pool::law_le32_round_trip(x);
    let word = data.subrange(at, at + 4);
    assert(word[0] == data[at] && word[1] == data[at + 1] && word[2] == data[at + 2] && word[3]
        == data[at + 3]);
}

proof fn lemma_read_of_prefix(a: Seq<u8>, b: Seq<u8>, at: int)
    requires
        a.is_prefix_of(b),
        0 <= at,
        at + 4 <= a.len(),
    ensures
        crate::string_pool::read_le32(b, at) == crate::string_pool::read_le32(a, at),
{
    assert forall|q: int| 0 <= q < a.len() implies a[q] == b[q] by {
        assert(b.subrange(0, a.len() as int)[q] == a[q]);
    }
}

proof fn lemma_cells(
    methods: Seq<Owned>,
    i: int,
    at: int,
    m: IrModule,
    slots: Map<u64, u32>,
    data: Seq<u8>,
)
    requires
        0 <= i <= methods.len(),
    ensures
        crate::module_lowering::vtables::cells(methods, i, at, m, slots, data) matches Ok(d) ==> {
            &&& data.is_prefix_of(d)
            &&& d.len() == data.len() + 4 * (methods.len() - i)
            &&& forall|j: int|
                #![trigger methods[j]]
                i <= j < methods.len() ==> crate::module_lowering::vtables::cell(
                    methods[j],
                    at,
                    m,
                    slots,
                ) == Ok::<u32, ModuleLowerError>(
                    crate::string_pool::read_le32(d, data.len() + 4 * (j - i)) as u32,
                ) && 0 <= crate::string_pool::read_le32(d, data.len() + 4 * (j - i)) <= u32::MAX
        },
    decreases methods.len() - i,
{
    if i < methods.len() {
        if let Ok(slot) = crate::module_lowering::vtables::cell(methods[i], at, m, slots) {
            let more = data + crate::string_pool::le32(slot);
            lemma_cells(methods, i + 1, at, m, slots, more);
            if let Ok(d) = crate::module_lowering::vtables::cells(
                methods,
                i + 1,
                at,
                m,
                slots,
                more,
            ) {
                assert forall|q: int| 0 <= q < more.len() implies more[q] == d[q] by {
                    assert(d.subrange(0, more.len() as int)[q] == more[q]);
                }
                assert(d.subrange(0, data.len() as int) =~= data);
                assert(d.subrange(data.len() as int, data.len() as int + 4) =~= crate::string_pool::le32(
                    slot,
                ));
                lemma_read_at(d, data.len() as int, slot);
                assert forall|j: int| #![trigger methods[j]] i <= j < methods.len() implies {
                    &&& crate::module_lowering::vtables::cell(methods[j], at, m, slots) == Ok::<
                        u32,
                        ModuleLowerError,
                    >(crate::string_pool::read_le32(d, data.len() + 4 * (j - i)) as u32)
                    &&& 0 <= crate::string_pool::read_le32(d, data.len() + 4 * (j - i)) <= u32::MAX
                } by {
                    assert(data.len() + 4 * (j - i) == more.len() + 4 * (j - (i + 1)));
                }
            }
        }
    } else {
        assert(data.subrange(0, data.len() as int) =~= data);
    }
}

/// Each entry leads to a method table of an impl block with its trait and
/// target.
pub open spec fn entry_leads(
    entry: (TraitId, (u32, u32), u32),
    base: int,
    data: Seq<u8>,
    m: IrModule,
    slots: Map<u64, u32>,
) -> bool {
    exists|k: int| #[trigger]
        is_method_table(data, entry.2 - base, k, m, slots) && m.impls@[k].trait_ref->0.trait_id
            == entry.0 && crate::lower::call::target_key(m.impls@[k].target) == entry.1
}

proof fn lemma_entry_survives(
    entry: (TraitId, (u32, u32), u32),
    base: int,
    data: Seq<u8>,
    grown: Seq<u8>,
    m: IrModule,
    slots: Map<u64, u32>,
)
    requires
        entry_leads(entry, base, data, m, slots),
        data.is_prefix_of(grown),
    ensures
        entry_leads(entry, base, grown, m, slots),
{
    let k = choose|k: int| #[trigger]
        is_method_table(data, entry.2 - base, k, m, slots) && m.impls@[k].trait_ref->0.trait_id
            == entry.0 && crate::lower::call::target_key(m.impls@[k].target) == entry.1;
    let methods = crate::module_lowering::vtables::trait_methods(entry.0, m)->Ok_0;
    let at = entry.2 - base;
    assert forall|j: int| #![trigger methods[j]] 0 <= j < methods.len() implies {
        &&& crate::module_lowering::vtables::cell(methods[j], k, m, slots) == Ok::<
            u32,
            ModuleLowerError,
        >(crate::string_pool::read_le32(grown, at + 4 * j) as u32)
        &&& 0 <= crate::string_pool::read_le32(grown, at + 4 * j) <= u32::MAX
    } by {
        lemma_read_of_prefix(data, grown, at + 4 * j);
    }
    assert(is_method_table(grown, at, k, m, slots));
}

proof fn lemma_all_tables(i: int, base: u32, m: IrModule, slots: Map<u64, u32>, st: Tables)
    requires
        0 <= i,
        forall|n: int|
            0 <= n < st.offsets.len() ==> entry_leads(
                #[trigger] st.offsets[n],
                base as int,
                st.data,
                m,
                slots,
            ),
    ensures
        crate::module_lowering::vtables::all_tables(i, base, m, slots, st) matches Ok(t) ==> forall|
            n: int,
        |
            0 <= n < t.offsets.len() ==> entry_leads(
                #[trigger] t.offsets[n],
                base as int,
                t.data,
                m,
                slots,
            ),
    decreases m.impls@.len() - i,
{
    if i < m.impls@.len() {
        let imp = m.impls@[i];
        if imp.is_extern || imp.trait_ref is None {
            lemma_all_tables(i + 1, base, m, slots, st);
        } else if crate::module_lowering::vtables::all_tables(i, base, m, slots, st) is Ok {
            let id = imp.trait_ref->0.trait_id;
            let methods = crate::module_lowering::vtables::trait_methods(id, m)->Ok_0;
            lemma_cells(methods, 0, i, m, slots, st.data);
            let data = crate::module_lowering::vtables::cells(
                methods,
                0,
                i,
                m,
                slots,
                st.data,
            )->Ok_0;
            let entry = (
                id,
                crate::lower::call::target_key(imp.target),
                (base + st.data.len()) as u32,
            );
            let next = Tables { offsets: st.offsets.push(entry), data };
            assert forall|n: int| 0 <= n < next.offsets.len() implies entry_leads(
                #[trigger] next.offsets[n],
                base as int,
                data,
                m,
                slots,
            ) by {
                if n < st.offsets.len() {
                    assert(next.offsets[n] == st.offsets[n]);
                    lemma_entry_survives(st.offsets[n], base as int, st.data, data, m, slots);
                } else {
                    assert(entry.2 - base == st.data.len());
                    assert(is_method_table(data, entry.2 - base, i, m, slots)) by {
                        assert forall|j: int| #![trigger methods[j]] 0 <= j < methods.len() implies {
                            &&& crate::module_lowering::vtables::cell(methods[j], i, m, slots)
                                == Ok::<u32, ModuleLowerError>(
                                crate::string_pool::read_le32(data, st.data.len() + 4 * j) as u32,
                            )
                            &&& 0 <= crate::string_pool::read_le32(data, st.data.len() + 4 * j)
                                <= u32::MAX
                        } by {
                            assert(st.data.len() + 4 * (j - 0) == st.data.len() + 4 * j);
                        }
                    }
                }
            }
            lemma_all_tables(i + 1, base, m, slots, next);
        }
    }
}

proof fn lemma_vtable_at(entries: Seq<(TraitId, (u32, u32), u32)>, t: TraitId, target: (u32, u32))
    requires
        crate::lower::maps::vtable_at(entries, t, target) is Some,
    ensures
        exists|n: int|
            0 <= n < entries.len() && #[trigger] entries[n] == (
                t,
                target,
                crate::lower::maps::vtable_at(entries, t, target)->0,
            ),
    decreases entries.len(),
{
    let at = crate::lower::maps::vtable_at(entries, t, target)->0;
    if entries.last().0 == t && entries.last().1 == target {
        assert(entries[entries.len() - 1] == (t, target, at));
    } else {
        lemma_vtable_at(entries.drop_last(), t, target);
        let n = choose|n: int|
            0 <= n < entries.drop_last().len() && #[trigger] entries.drop_last()[n] == (
                t,
                target,
                at,
            );
        assert(entries[n] == (t, target, at));
    }
}

/// A virtual call reaches the implementation for its receiver's type. Where a
/// trait has a method table for a target, there is an impl block of that trait
/// for that target, and for every method of the trait the table has a word
/// which is the slot where the method table of the core module holds the
/// index of the implementing method.
pub proof fn law_method_tables_hold_their_methods(
    m: IrModule,
    t: TraitId,
    target: (u32, u32),
) -> (k: int)
    requires
        crate::module_lowering::lowered(m) is Ok,
        crate::module_lowering::placement::context(m).spec_vtable_offset(t, target) is Ok,
    ensures
        ({
            let data = (crate::module_lowering::lowered(m)->Ok_0).static_data;
            let at = crate::module_lowering::placement::context(m).spec_vtable_offset(
                t,
                target,
            )->Ok_0;
            let table = method_slots(m).functions;
            let indices = crate::module_lowering::placement::call_indices(m).methods;
            &&& 0 <= k < m.impls@.len()
            &&& !m.impls@[k].is_extern
            &&& m.impls@[k].trait_ref matches Some(r) && r.trait_id == t
            &&& crate::lower::call::target_key(m.impls@[k].target) == target
            &&& crate::module_lowering::vtables::trait_methods(t, m) matches Ok(methods) && at + 4
                * methods.len() <= data.len() && forall|j: int|
                #![trigger methods[j]]
                0 <= j < methods.len() ==> slot_leads(
                    methods[j],
                    k,
                    m,
                    crate::string_pool::read_le32(data, at + 4 * j),
                    table,
                    indices,
                )
        }),
{
    lemma_steps(m);
    let v = vtable_step(m).0->0;
    let s = method_slots(m);
    let indices = crate::module_lowering::placement::call_indices(m).methods;
    let at = crate::module_lowering::placement::context(m).spec_vtable_offset(t, target)->Ok_0;
    let data = (crate::module_lowering::lowered(m)->Ok_0).static_data;
    lemma_slots_lead(m.impls@, 0, indices, crate::module_lowering::vtables::no_slots());
    lemma_all_tables(
        0,
        v.base,
        m,
        s.slots,
        Tables { offsets: Seq::empty(), data: Seq::empty() },
    );
    lemma_vtable_at(v.offsets, t, target);
    let n = choose|n: int| 0 <= n < v.offsets.len() && #[trigger] v.offsets[n] == (t, target, at);
    assert(entry_leads(v.offsets[n], v.base as int, v.data, m, s.slots));
    let k = choose|k: int| #[trigger]
        is_method_table(v.data, at - v.base, k, m, s.slots) && m.impls@[k].trait_ref->0.trait_id
            == t && crate::lower::call::target_key(m.impls@[k].target) == target;
    let methods = crate::module_lowering::vtables::trait_methods(t, m)->Ok_0;
    crate::layout::lemma_round_up(text_data(m).len() as int, 4);
    assert(data.len() == v.base + v.data.len());
    assert forall|q: int| 0 <= q < v.data.len() implies data[v.base + q] == #[trigger] v.data[q] by {
    }
    assert forall|j: int| #![trigger methods[j]] 0 <= j < methods.len() implies slot_leads(
        methods[j],
        k,
        m,
        crate::string_pool::read_le32(data, at + 4 * j),
        s.functions,
        indices,
    ) by {
        lemma_method_cell(m, k, methods[j], s, indices);
        let p = at - v.base + 4 * j;
        assert(data[v.base + p] == v.data[p]);
        assert(data[v.base + (p + 1)] == v.data[p + 1]);
        assert(data[v.base + (p + 2)] == v.data[p + 2]);
        assert(data[v.base + (p + 3)] == v.data[p + 3]);
        assert(crate::string_pool::read_le32(data, at + 4 * j) == crate::string_pool::read_le32(
            v.data,
            p,
        ));
    }
    k
}

proof fn lemma_method_cell(m: IrModule, k: int, method: Owned, s: Slots, indices: Map<u64, u32>)
    requires
        0 <= k < m.impls@.len(),
        crate::module_lowering::vtables::cell(method, k, m, s.slots) is Ok,
        slots_lead(s, indices),
    ensures
        slot_leads(
            method,
            k,
            m,
            crate::module_lowering::vtables::cell(method, k, m, s.slots)->Ok_0 as int,
            s.functions,
            indices,
        ),
{
    lemma_position(m.impls@[k].functions@, method.1.name@, 0);
    lemma_provider(m.impls@, 0, method.0, m.impls@[k].target, method.1.name@);
}

proof fn lemma_position(fs: Seq<crate::ir::IrFunction>, name: Seq<char>, from: int)
    ensures
        crate::module_lowering::vtables::function_position(fs, name, from) matches Some(j) ==> 0
            <= j < fs.len(),
    decreases fs.len() - from,
{
    if 0 <= from < fs.len() {
        lemma_position(fs, name, from + 1);
    }
}

proof fn lemma_provider(
    impls: Seq<IrImpl>,
    i: int,
    owner: TraitId,
    target: crate::ir::ImplTarget,
    name: Seq<char>,
)
    ensures
        crate::module_lowering::vtables::provider(impls, i, owner, target, name) matches Some((a, j))
            ==> 0 <= a < impls.len() && 0 <= j < impls[a].functions@.len(),
    decreases impls.len() - i,
{
    if 0 <= i < impls.len() {
        lemma_position(impls[i].functions@, name, 0);
        lemma_provider(impls, i + 1, owner, target, name);
    }
}

} // verus!
