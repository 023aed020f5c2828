//! Laws: what a component exports.

use vstd::prelude::*;

use crate::ir::{FunctionId, IrFunction, IrModule};
use crate::wit::Written;

verus! {

/// The functions that are exported, from number `i` on: of the candidates
/// with one exported name the first; `taken` are the names so far.
pub open spec fn chosen(ids: Seq<FunctionId>, i: int, m: IrModule, taken: Seq<Seq<char>>) -> Seq<
    FunctionId,
>
    decreases ids.len() - i,
{
    if i < 0 || i >= ids.len() {
        Seq::empty()
    } else {
        match m.spec_function(ids[i]) {
            None => chosen(ids, i + 1, m, taken),
            Some(f) => if !crate::wit::crosses(f, m) || taken.contains(
                crate::ident::kebab(f.name@),
            ) {
                chosen(ids, i + 1, m, taken)
            } else {
                seq![ids[i]] + chosen(ids, i + 1, m, taken.push(crate::ident::kebab(f.name@)))
            },
        }
    }
}

/// `out` and an export line for each function.
pub open spec fn with_each(ids: Seq<FunctionId>, m: IrModule, out: Seq<char>) -> Written
    decreases ids.len(),
{
    if ids.len() == 0 {
        Ok(out)
    } else {
        match crate::wit::with_function(m.functions@[ids[0].0 as int], "export"@, m, out) {
            Err(x) => Err(x),
            Ok(text) => with_each(ids.drop_first(), m, text),
        }
    }
}

/// The exported name of a function.
pub open spec fn name_of(id: FunctionId, m: IrModule) -> Seq<char> {
    crate::ident::kebab(m.functions@[id.0 as int].name@)
}

/// The exports are those of the chosen functions.
pub proof fn lemma_exports_are_chosen(
    ids: Seq<FunctionId>,
    i: int,
    m: IrModule,
    taken: Seq<Seq<char>>,
    out: Seq<char>,
)
    requires
        0 <= i,
        forall|k: int| 0 <= k < ids.len() ==> (#[trigger] ids[k]).0 < m.functions@.len(),
    ensures
        crate::wit::with_exports(ids, i, m, taken, out) == with_each(
            chosen(ids, i, m, taken),
            m,
            out,
        ),
    decreases ids.len() - i,
{
    if i < ids.len() {
        let f = m.functions@[ids[i].0 as int];
        assert(m.spec_function(ids[i]) == Some(f));
        let name = crate::ident::kebab(f.name@);
        if !crate::wit::crosses(f, m) || taken.contains(name) {
            lemma_exports_are_chosen(ids, i + 1, m, taken, out);
        } else {
            let rest = chosen(ids, i + 1, m, taken.push(name));
            let all = seq![ids[i]] + rest;
            assert(all.drop_first() =~= rest);
            assert(all[0] == ids[i]);
            if let Ok(text) = crate::wit::with_function(f, "export"@, m, out) {
                lemma_exports_are_chosen(ids, i + 1, m, taken.push(name), text);
            }
        }
    }
}

proof fn lemma_chosen(ids: Seq<FunctionId>, i: int, m: IrModule, taken: Seq<Seq<char>>)
    requires
        0 <= i,
        forall|k: int| 0 <= k < ids.len() ==> (#[trigger] ids[k]).0 < m.functions@.len(),
    ensures
        ({
            let all = chosen(ids, i, m, taken);
            &&& forall|n: int|
                0 <= n < all.len() ==> {
                    &&& ids.contains(#[trigger] all[n])
                    &&& crate::wit::crosses(m.functions@[all[n].0 as int], m)
                    &&& !taken.contains(name_of(all[n], m))
                }
            &&& forall|n: int, k: int|
                0 <= n < k < all.len() ==> name_of(#[trigger] all[n], m) != name_of(
                    #[trigger] all[k],
                    m,
                )
        }),
    decreases ids.len() - i,
{
    if i < ids.len() {
        let f = m.functions@[ids[i].0 as int];
        assert(m.spec_function(ids[i]) == Some(f));
        let name = crate::ident::kebab(f.name@);
        if !crate::wit::crosses(f, m) || taken.contains(name) {
            lemma_chosen(ids, i + 1, m, taken);
            assert(chosen(ids, i, m, taken) == chosen(ids, i + 1, m, taken));
        } else {
            let more = taken.push(name);
            lemma_chosen(ids, i + 1, m, more);
            let rest = chosen(ids, i + 1, m, more);
            let all = chosen(ids, i, m, taken);
            assert(all == seq![ids[i]] + rest);
            assert(more[taken.len() as int] == name);
            assert(more.contains(name));
            assert forall|n: int| 0 <= n < all.len() implies {
                &&& ids.contains(#[trigger] all[n])
                &&& crate::wit::crosses(m.functions@[all[n].0 as int], m)
                &&& !taken.contains(name_of(all[n], m))
            } by {
                if n > 0 {
                    assert(all[n] == rest[n - 1]);
                    if taken.contains(name_of(all[n], m)) {
                        let w = choose|w: int| 0 <= w < taken.len() && taken[w] == name_of(all[n], m);
                        assert(more[w] == name_of(all[n], m));
                    }
                } else {
                    assert(all[0] == ids[i]);
                }
            }
            assert forall|n: int, k: int| 0 <= n < k < all.len() implies name_of(
                #[trigger] all[n],
                m,
            ) != name_of(#[trigger] all[k], m) by {
                assert(all[k] == rest[k - 1]);
                if n > 0 {
                    assert(all[n] == rest[n - 1]);
                }
            }
        }
    }
}

proof fn lemma_name_is_chosen(ids: Seq<FunctionId>, i: int, m: IrModule, taken: Seq<Seq<char>>, k: int)
    requires
        0 <= i <= k < ids.len(),
        forall|j: int| 0 <= j < ids.len() ==> (#[trigger] ids[j]).0 < m.functions@.len(),
        crate::wit::crosses(m.functions@[ids[k].0 as int], m),
    ensures
        taken.contains(name_of(ids[k], m)) || exists|n: int|
            0 <= n < chosen(ids, i, m, taken).len() && name_of(
                #[trigger] chosen(ids, i, m, taken)[n],
                m,
            ) == name_of(ids[k], m),
    decreases ids.len() - i,
{
    let f = m.functions@[ids[i].0 as int];
    assert(m.spec_function(ids[i]) == Some(f));
    let name = crate::ident::kebab(f.name@);
    let all = chosen(ids, i, m, taken);
    if !crate::wit::crosses(f, m) || taken.contains(name) {
        if i < k {
            lemma_name_is_chosen(ids, i + 1, m, taken, k);
        }
    } else {
        assert(all[0] == ids[i]);
        if name_of(ids[k], m) != name {
            let more = taken.push(name);
            let rest = chosen(ids, i + 1, m, more);
            lemma_name_is_chosen(ids, i + 1, m, more, k);
            if more.contains(name_of(ids[k], m)) {
                let w = choose|w: int| 0 <= w < more.len() && more[w] == name_of(ids[k], m);
                assert(w < taken.len());
                assert(taken[w] == name_of(ids[k], m));
            } else {
                let n = choose|n: int|
                    0 <= n < rest.len() && name_of(#[trigger] rest[n], m) == name_of(ids[k], m);
                assert(all[n + 1] == rest[n]);
            }
        }
    }
}

/// Whether a function is a candidate for an export: its signature crosses the
/// boundary, and it is no helper that an earlier pass made.
pub open spec fn can_export(f: IrFunction, m: IrModule) -> bool {
    crate::wit::crosses(f, m) && !"__"@.is_prefix_of(f.name@)
}

/// The functions that outsiders may see.
pub open spec fn offered(m: IrModule) -> Seq<FunctionId> {
    crate::survey::outward(crate::survey::surveyed(m), m).exports
}

/// The functions that the document of a module exports.
pub open spec fn exported(m: IrModule) -> Seq<FunctionId> {
    chosen(offered(m), 0, m, Seq::empty())
}

proof fn lemma_offered(m: IrModule, id: FunctionId)
    requires
        m.functions@.len() <= u32::MAX,
    ensures
        offered(m).contains(id) <==> id.0 < m.functions@.len() && !m.functions@[id.0 as int].is_extern
            && !"__"@.is_prefix_of(m.functions@[id.0 as int].name@),
{
    let ids = crate::survey::surveyed(m).exports;
    crate::survey::lemma_without_helpers(ids, ids.len(), m, id);
    assert(ids.take(ids.len() as int) =~= ids);
    crate::survey::lemma_functions_bounded(m.functions@, m.functions@.len(), false);
    if id.0 < m.functions@.len() {
        crate::survey::law_functions_are_partitioned(m, id.0 as int);
        assert(FunctionId(id.0) == id);
    } else {
        assert(!ids.contains(id));
    }
}

/// The exports in the document of a module are candidates that it defines,
/// each under a name of its own.
pub proof fn law_document_exports_are_distinct(m: IrModule, out: Seq<char>)
    requires
        m.functions@.len() <= u32::MAX,
    ensures
        crate::wit::with_exports(offered(m), 0, m, Seq::empty(), out) == with_each(
            exported(m),
            m,
            out,
        ),
        forall|n: int|
            0 <= n < exported(m).len() ==> {
                &&& (#[trigger] exported(m)[n]).0 < m.functions@.len()
                &&& !m.functions@[exported(m)[n].0 as int].is_extern
                &&& can_export(m.functions@[exported(m)[n].0 as int], m)
            },
        forall|n: int, k: int|
            0 <= n < k < exported(m).len() ==> name_of(#[trigger] exported(m)[n], m) != name_of(
                #[trigger] exported(m)[k],
                m,
            ),
{
    let ids = offered(m);
    assert forall|k: int| 0 <= k < ids.len() implies (#[trigger] ids[k]).0 < m.functions@.len() by {
        assert(ids.contains(ids[k]));
        lemma_offered(m, ids[k]);
    }
    lemma_exports_are_chosen(ids, 0, m, Seq::empty(), out);
    lemma_chosen(ids, 0, m, Seq::empty());
    assert forall|n: int| 0 <= n < exported(m).len() implies {
        &&& (#[trigger] exported(m)[n]).0 < m.functions@.len()
        &&& !m.functions@[exported(m)[n].0 as int].is_extern
        &&& can_export(m.functions@[exported(m)[n].0 as int], m)
    } by {
        assert(ids.contains(exported(m)[n]));
        lemma_offered(m, exported(m)[n]);
    }
}

/// Every candidate that a module defines can be reached from outside under its
/// name: the document exports a function of that name.
pub proof fn law_document_exports_every_name(m: IrModule, i: int) -> (n: int)
    requires
        m.functions@.len() <= u32::MAX,
        0 <= i < m.functions@.len(),
        !m.functions@[i].is_extern,
        can_export(m.functions@[i], m),
    ensures
        0 <= n < exported(m).len(),
        name_of(exported(m)[n], m) == crate::ident::kebab(m.functions@[i].name@),
{
    let ids = offered(m);
    assert forall|k: int| 0 <= k < ids.len() implies (#[trigger] ids[k]).0 < m.functions@.len() by {
        assert(ids.contains(ids[k]));
        lemma_offered(m, ids[k]);
    }
    lemma_offered(m, FunctionId(i as u32));
    let k = choose|k: int| 0 <= k < ids.len() && ids[k] == FunctionId(i as u32);
    lemma_name_is_chosen(ids, 0, m, Seq::empty(), k);
    choose|n: int|
        0 <= n < exported(m).len() && name_of(#[trigger] exported(m)[n], m) == name_of(ids[k], m)
}

/// What the document exports the core module exports too: each exported
/// function has an export of its name in the core module.
pub proof fn law_document_exports_are_core_exports(m: IrModule, n: int) -> (k: int)
    requires
        m.functions@.len() <= u32::MAX,
        crate::module_lowering::lowered(m) is Ok,
        0 <= n < exported(m).len(),
    ensures
        ({
            let exports = (crate::module_lowering::lowered(m)->Ok_0).exports;
            &&& 0 <= k < exports.len()
            &&& exports[k].name == name_of(exported(m)[n], m)
            &&& exports[k].target == crate::encode::ExportTarget::Function
        }),
{
    crate::module_lowering::exports::law_exports_are_the_winners(m);
    lemma_core_export(
        m,
        n,
        (crate::module_lowering::lowered(m)->Ok_0).exports,
        crate::module_lowering::helpers::realloc_export(
            crate::module_lowering::exports::realloc_index(m),
        ),
    )
}

/// The same over the list of exports.
proof fn lemma_core_export(
    m: IrModule,
    n: int,
    exports: Seq<crate::encode::ExportView>,
    last: crate::encode::ExportView,
) -> (k: int)
    requires
        m.functions@.len() <= u32::MAX,
        0 <= n < exported(m).len(),
        exports == (crate::module::fresh().exports
            + crate::module_lowering::exports::function_exports(
            m.functions@,
            0,
            m,
            crate::module_lowering::placement::call_indices(m).functions,
        )).push(last),
    ensures
        0 <= k < exports.len(),
        exports[k].name == name_of(exported(m)[n], m),
        exports[k].target == crate::encode::ExportTarget::Function,
{
    law_document_exports_are_distinct(m, Seq::empty());
    let i = exported(m)[n].0 as int;
    let w = if crate::module_lowering::emit::wins_export(m.functions@, i) {
        i
    } else {
        crate::module_lowering::exports::law_lost_names_are_won_earlier(m.functions@, i)
    };
    let indices = crate::module_lowering::placement::call_indices(m).functions;
    let j = crate::module_lowering::exports::lemma_winner_is_exported(
        m.functions@,
        0,
        m,
        indices,
        w,
    );
    let front = crate::module::fresh().exports;
    let back = crate::module_lowering::exports::function_exports(m.functions@, 0, m, indices);
    assert((front + back)[front.len() + j] == back[j]);
    front.len() + j
}

} // verus!
