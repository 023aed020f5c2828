//! Method tables for virtual calls.
//!
//! Every trait implementation has a method table in the static data: one
//! 32-bit cell per method of the trait, inherited ones after its own, that
//! holds the method's slot in the module's method table.

use vstd::prelude::*;

use crate::encode::SigView;
use crate::instr::ValType;
use crate::ir::{
    ImplId, ImplTarget, IrFunction, IrFunctionParam, IrFunctionSig, IrImpl, IrModule, IrTrait,
    MethodIdx, TraitId,
};
use crate::layout::{align_up, VTABLE_SLOT_ALIGN};
use crate::lower::call::impl_target_key;
use crate::lower::maps::{MethodMap, VirtualCallTypes, VtableOffsets};
use crate::module::{BuilderView, ModuleBuilder};
use crate::module_lowering::error::{not_supported, to_index, ModuleLowerError};
use crate::module_lowering::signature::lower_results;
use crate::string_pool::{push_le32, same_text};
use crate::types::{body_value_type, UnsupportedKind};

verus! {

// ── methods of a trait ───────────────────────────────────────────────

/// A method and the trait that declares it.
pub type Owned = (TraitId, IrFunctionSig);

/// Whether a method called `name` is listed, from entry `from` on.
pub open spec fn lists(out: Seq<Owned>, name: Seq<char>, from: int) -> bool
    decreases out.len() - from,
{
    if from < 0 || from >= out.len() {
        false
    } else {
        out[from].1.name@ == name || lists(out, name, from + 1)
    }
}

/// The list with a trait's own methods, from method `i` on. A name that is
/// listed already is left out.
pub open spec fn with_methods(
    sigs: Seq<IrFunctionSig>,
    i: int,
    id: TraitId,
    out: Seq<Owned>,
) -> Seq<Owned>
    decreases sigs.len() - i,
{
    if i < 0 || i >= sigs.len() {
        out
    } else {
        with_methods(
            sigs,
            i + 1,
            id,
            if lists(out, sigs[i].name@, 0) {
                out
            } else {
                out.push((id, sigs[i]))
            },
        )
    }
}

/// How many of the first `k` flags are not set.
pub open spec fn unset(flags: Seq<bool>, k: nat) -> nat
    decreases k,
{
    if k == 0 {
        0
    } else {
        unset(flags, (k - 1) as nat) + if flags[k - 1] {
            0nat
        } else {
            1nat
        }
    }
}

/// Setting a flag leaves one fewer.
pub proof fn lemma_set_one(flags: Seq<bool>, i: int, k: nat)
    requires
        k <= flags.len(),
        0 <= i < flags.len(),
        !flags[i],
    ensures
        unset(flags.update(i, true), k) == unset(flags, k) - if i < k {
            1int
        } else {
            0int
        },
    decreases k,
{
    if k > 0 {
        lemma_set_one(flags, i, (k - 1) as nat);
    }
}

/// The methods of the traits in the queue and of all they inherit from,
/// breadth first, each trait once.
pub open spec fn gathered(
    queue: Seq<TraitId>,
    visited: Seq<bool>,
    out: Seq<Owned>,
    m: IrModule,
) -> Result<Seq<Owned>, ModuleLowerError>
    decreases unset(visited, visited.len()), queue.len(),
{
    if queue.len() == 0 {
        Ok(out)
    } else {
        let id = queue[0];
        let rest = queue.drop_first();
        if id.0 >= m.traits@.len() || id.0 >= visited.len() {
            Err(ModuleLowerError::UnknownTrait(id))
        } else if visited[id.0 as int] {
            gathered(rest, visited, out, m)
        } else {
            proof {
                lemma_set_one(visited, id.0 as int, visited.len());
            }
            let t = m.traits@[id.0 as int];
            gathered(
                rest + t.composed_traits@,
                visited.update(id.0 as int, true),
                with_methods(t.methods@, 0, id, out),
                m,
            )
        }
    }
}

/// No trait visited.
pub open spec fn none_visited(m: IrModule) -> Seq<bool> {
    Seq::new(m.traits@.len(), |i: int| false)
}

/// The methods of a trait: its own, then inherited ones.
pub open spec fn trait_methods(id: TraitId, m: IrModule) -> Result<Seq<Owned>, ModuleLowerError> {
    gathered(seq![id], none_visited(m), Seq::empty(), m)
}

/// `refs` refers to the methods of `s`.
pub open spec fn refers(refs: Seq<(TraitId, &IrFunctionSig)>, s: Seq<Owned>) -> bool {
    &&& refs.len() == s.len()
    &&& forall|i: int| 0 <= i < s.len() ==> s[i] == ((#[trigger] refs[i]).0, *refs[i].1)
}

fn is_listed(out: &Vec<(TraitId, &IrFunctionSig)>, name: &String, Ghost(s): Ghost<Seq<Owned>>) -> (r:
    bool)
    requires
        refers(out@, s),
    ensures
        r == lists(s, name@, 0),
{
    let mut i: usize = 0;
    while i < out.len()
        invariant
            i <= out@.len(),
            refers(out@, s),
            lists(s, name@, 0) == lists(s, name@, i as int),
        decreases out@.len() - i,
    {
        let entry = out[i];
        proof {
            assert(s[i as int] == (out@[i as int].0, *out@[i as int].1));
        }
        if entry.1.name == *name {
            return true;
        }
        i = i + 1;
    }
    false
}

/// The methods of a trait: its own first, then those of the traits that it
/// is composed of, breadth first. Of methods with one name the first counts.
pub fn effective_trait_methods<'a>(trait_id: TraitId, module: &'a IrModule) -> (r: Result<
    Vec<(TraitId, &'a IrFunctionSig)>,
    ModuleLowerError,
>)
    ensures
        match r {
            Ok(l) => trait_methods(trait_id, *module) matches Ok(s) && refers(l@, s),
            Err(x) => trait_methods(trait_id, *module) == Err::<Seq<Owned>, ModuleLowerError>(x),
        },
{
    let mut out: Vec<(TraitId, &'a IrFunctionSig)> = Vec::new();
    let ghost mut listed: Seq<Owned> = Seq::empty();
    let mut visited: Vec<bool> = Vec::new();
    let mut v: usize = 0;
    while v < module.traits.len()
        invariant
            v <= module.traits@.len(),
            visited@ == none_visited(*module).take(v as int),
        decreases module.traits@.len() - v,
    {
        visited.push(false);
        proof {
            assert(visited@ =~= none_visited(*module).take(v + 1));
        }
        v = v + 1;
    }
    let mut queue: Vec<TraitId> = Vec::new();
    queue.push(trait_id);
    let mut head: usize = 0;
    proof {
        assert(visited@ =~= none_visited(*module));
        assert(queue@.skip(0) =~= seq![trait_id]);
    }
    while head < queue.len()
        invariant
            head <= queue@.len(),
            visited@.len() == module.traits@.len(),
            refers(out@, listed),
            trait_methods(trait_id, *module) == gathered(
                queue@.skip(head as int),
                visited@,
                listed,
                *module,
            ),
        decreases unset(visited@, visited@.len()), queue@.len() - head,
    {
        let id: TraitId = queue[head];
        let ghost before = queue@;
        proof {
            assert(queue@.skip(head as int).drop_first() =~= queue@.skip(head + 1));
            assert(queue@.skip(head as int)[0] == id);
        }
        head = head + 1;
        let t: &IrTrait = match module.get_trait(id) {
            None => return Err(ModuleLowerError::UnknownTrait(id)),
            Some(t) => t,
        };
        if !visited[id.0 as usize] {
            proof {
                lemma_set_one(visited@, id.0 as int, visited@.len());
            }
            let ghost marked = visited@.update(id.0 as int, true);
            visited.set(id.0 as usize, true);
            let mut i: usize = 0;
            let ghost start = listed;
            while i < t.methods.len()
                invariant
                    i <= t.methods@.len(),
                    refers(out@, listed),
                    with_methods(t.methods@, 0, id, start) == with_methods(
                        t.methods@,
                        i as int,
                        id,
                        listed,
                    ),
                decreases t.methods@.len() - i,
            {
                if !is_listed(&out, &t.methods[i].name, Ghost(listed)) {
                    out.push((id, &t.methods[i]));
                    proof {
                        listed = listed.push((id, t.methods@[i as int]));
                    }
                }
                i = i + 1;
            }
            let mut k: usize = 0;
            while k < t.composed_traits.len()
                invariant
                    k <= t.composed_traits@.len(),
                    head <= before.len(),
                    queue@ == before + t.composed_traits@.take(k as int),
                decreases t.composed_traits@.len() - k,
            {
                queue.push(t.composed_traits[k]);
                proof {
                    assert(queue@ =~= before + t.composed_traits@.take(k + 1));
                }
                k = k + 1;
            }
            proof {
                assert(queue@.skip(head as int) =~= before.skip(head as int)
                    + t.composed_traits@);
            }
        }
    }
    proof {
        assert(queue@.skip(head as int) =~= Seq::empty());
    }
    Ok(out)
}

// ── slots of the methods ─────────────────────────────────────────────

/// The methods that can be called virtually: the slot of each, and their
/// indices in slot order.
#[verifier::ext_equal]
pub struct Slots {
    pub slots: Map<u64, u32>,
    pub functions: Seq<u32>,
}

/// With the methods of one impl block, from method `j` on.
pub open spec fn impl_slots(
    n: nat,
    impl_id: u32,
    j: int,
    methods: Map<u64, u32>,
    st: Slots,
) -> Result<Slots, ModuleLowerError>
    decreases n - j,
{
    if j < 0 || j >= n {
        Ok(st)
    } else {
        match crate::module_lowering::error::checked_index(j) {
            Err(x) => Err(x),
            Ok(idx) => match crate::lower::maps::lookup(
                methods,
                crate::lower::maps::pair_key(impl_id, idx),
            ) {
                None => Err(ModuleLowerError::TooManyFunctions),
                Some(wasm) => if st.functions.len() >= u32::MAX {
                    Err(ModuleLowerError::TooManyFunctions)
                } else {
                    impl_slots(
                        n,
                        impl_id,
                        j + 1,
                        methods,
                        Slots {
                            slots: st.slots.insert(
                                crate::lower::maps::pair_key(impl_id, idx),
                                st.functions.len() as u32,
                            ),
                            functions: st.functions.push(wasm),
                        },
                    )
                },
            },
        }
    }
}

/// With the methods of all trait implementations that the module defines,
/// from impl block `i` on.
pub open spec fn all_slots(impls: Seq<IrImpl>, i: int, methods: Map<u64, u32>, st: Slots) -> Result<
    Slots,
    ModuleLowerError,
>
    decreases impls.len() - i,
{
    if i < 0 || i >= impls.len() {
        Ok(st)
    } else if impls[i].is_extern || impls[i].trait_ref is None {
        all_slots(impls, i + 1, methods, st)
    } else {
        match crate::module_lowering::error::checked_index(i) {
            Err(x) => Err(x),
            Ok(id) => match impl_slots(impls[i].functions@.len(), id, 0, methods, st) {
                Err(x) => Err(x),
                Ok(st1) => all_slots(impls, i + 1, methods, st1),
            },
        }
    }
}

/// No method yet.
pub open spec fn no_slots() -> Slots {
    Slots { slots: Map::empty(), functions: Seq::empty() }
}

fn collect_slots(impls: &Vec<IrImpl>, method_map: &MethodMap) -> (r: Result<
    (MethodMap, Vec<u32>),
    ModuleLowerError,
>)
    ensures
        match r {
            Ok((slots, functions)) => all_slots(impls@, 0, method_map@, no_slots()) == Ok::<
                Slots,
                ModuleLowerError,
            >(Slots { slots: slots@, functions: functions@ }),
            Err(x) => all_slots(impls@, 0, method_map@, no_slots()) == Err::<
                Slots,
                ModuleLowerError,
            >(x),
        },
{
    let mut slots = MethodMap::new();
    let mut functions: Vec<u32> = Vec::new();
    let mut i: usize = 0;
    while i < impls.len()
        invariant
            i <= impls@.len(),
            all_slots(impls@, 0, method_map@, no_slots()) == all_slots(
                impls@,
                i as int,
                method_map@,
                Slots { slots: slots@, functions: functions@ },
            ),
        decreases impls@.len() - i,
    {
        let imp = &impls[i];
        if !imp.is_extern && imp.trait_ref.is_some() {
            let id: u32 = to_index(i)?;
            let ghost before = Slots { slots: slots@, functions: functions@ };
            let mut j: usize = 0;
            while j < imp.functions.len()
                invariant
                    i < impls@.len(),
                    i <= u32::MAX,
                    id == i as u32,
                    *imp == impls@[i as int],
                    !imp.is_extern,
                    imp.trait_ref is Some,
                    j <= imp.functions@.len(),
                    all_slots(impls@, 0, method_map@, no_slots()) == all_slots(
                        impls@,
                        i as int,
                        method_map@,
                        before,
                    ),
                    impl_slots(imp.functions@.len(), id, 0, method_map@, before) == impl_slots(
                        imp.functions@.len(),
                        id,
                        j as int,
                        method_map@,
                        Slots { slots: slots@, functions: functions@ },
                    ),
                decreases imp.functions@.len() - j,
            {
                let idx: u32 = to_index(j)?;
                let wasm: u32 = match method_map.get((ImplId(id), MethodIdx(idx))) {
                    None => return Err(ModuleLowerError::TooManyFunctions),
                    Some(w) => w,
                };
                if functions.len() >= 0xffff_ffff {
                    return Err(ModuleLowerError::TooManyFunctions);
                }
                slots.insert((ImplId(id), MethodIdx(idx)), functions.len() as u32);
                functions.push(wasm);
                j = j + 1;
            }
        }
        i = i + 1;
    }
    Ok((slots, functions))
}

// ── method tables ────────────────────────────────────────────────────

/// Position of the function called `name`, from position `from` on.
pub open spec fn function_position(fs: Seq<IrFunction>, name: Seq<char>, from: int) -> Option<int>
    decreases fs.len() - from,
{
    if from < 0 || from >= fs.len() {
        None
    } else if fs[from].name@ == name {
        Some(from)
    } else {
        function_position(fs, name, from + 1)
    }
}

/// The impl block, from block `i` on, that implements trait `owner` for
/// `target` with a method called `name`, and the method's position.
pub open spec fn provider(
    impls: Seq<IrImpl>,
    i: int,
    owner: TraitId,
    target: ImplTarget,
    name: Seq<char>,
) -> Option<(int, int)>
    decreases impls.len() - i,
{
    if i < 0 || i >= impls.len() {
        None
    } else if !impls[i].is_extern && impls[i].trait_ref is Some && impls[i].trait_ref->0.trait_id
        == owner && impls[i].target == target && function_position(
        impls[i].functions@,
        name,
        0,
    ) is Some {
        Some((i, function_position(impls[i].functions@, name, 0)->0))
    } else {
        provider(impls, i + 1, owner, target, name)
    }
}

/// The slot of the method at a position of an impl block.
pub open spec fn slot_at(i: int, j: int, slots: Map<u64, u32>) -> Result<u32, ModuleLowerError> {
    match (
        crate::module_lowering::error::checked_index(i),
        crate::module_lowering::error::checked_index(j),
    ) {
        (Ok(impl_id), Ok(idx)) => match crate::lower::maps::lookup(
            slots,
            crate::lower::maps::pair_key(impl_id, idx),
        ) {
            Some(slot) => Ok(slot),
            None => Err(ModuleLowerError::TooManyFunctions),
        },
        _ => Err(ModuleLowerError::TooManyFunctions),
    }
}

/// The cell of one method in the table of impl block `at`: the block's own
/// method, or that of the block that implements the inherited trait for the
/// same type.
pub open spec fn cell(method: Owned, at: int, m: IrModule, slots: Map<u64, u32>) -> Result<
    u32,
    ModuleLowerError,
> {
    let imp = m.impls@[at];
    let id = imp.trait_ref->0.trait_id;
    let lacking = ModuleLowerError::MissingTraitMethod {
        trait_name: m.traits@[id.0 as int].name,
        method: method.1.name,
        target: imp.target,
    };
    if method.0 == id {
        match function_position(imp.functions@, method.1.name@, 0) {
            None => Err(lacking),
            Some(j) => slot_at(at, j, slots),
        }
    } else {
        match provider(m.impls@, 0, method.0, imp.target, method.1.name@) {
            None => Err(lacking),
            Some((i, j)) => slot_at(i, j, slots),
        }
    }
}

/// The bytes of a method table, from method `i` on, appended to `data`.
pub open spec fn cells(
    methods: Seq<Owned>,
    i: int,
    at: int,
    m: IrModule,
    slots: Map<u64, u32>,
    data: Seq<u8>,
) -> Result<Seq<u8>, ModuleLowerError>
    decreases methods.len() - i,
{
    if i < 0 || i >= methods.len() {
        Ok(data)
    } else {
        match cell(methods[i], at, m, slots) {
            Err(x) => Err(x),
            Ok(slot) => cells(
                methods,
                i + 1,
                at,
                m,
                slots,
                data + crate::string_pool::le32(slot),
            ),
        }
    }
}

/// The method tables of a module: where each begins, and their bytes.
#[verifier::ext_equal]
pub struct Tables {
    pub offsets: Seq<(TraitId, (u32, u32), u32)>,
    pub data: Seq<u8>,
}

/// With the tables of the trait implementations that the module defines,
/// from impl block `i` on.
pub open spec fn all_tables(
    i: int,
    base: u32,
    m: IrModule,
    slots: Map<u64, u32>,
    st: Tables,
) -> Result<Tables, ModuleLowerError>
    decreases m.impls@.len() - i,
{
    if i < 0 || i >= m.impls@.len() {
        Ok(st)
    } else if m.impls@[i].is_extern || m.impls@[i].trait_ref is None {
        all_tables(i + 1, base, m, slots, st)
    } else {
        let id = m.impls@[i].trait_ref->0.trait_id;
        if id.0 >= m.traits@.len() {
            Err(ModuleLowerError::UnknownTrait(id))
        } else if base + st.data.len() > u32::MAX {
            Err(ModuleLowerError::VtableDataOverflow)
        } else if i > u32::MAX {
            Err(ModuleLowerError::TooManyFunctions)
        } else {
            match trait_methods(id, m) {
                Err(x) => Err(x),
                Ok(methods) => match cells(methods, 0, i, m, slots, st.data) {
                    Err(x) => Err(x),
                    Ok(data) => all_tables(
                        i + 1,
                        base,
                        m,
                        slots,
                        Tables {
                            offsets: st.offsets.push(
                                (
                                    id,
                                    crate::lower::call::target_key(m.impls@[i].target),
                                    (base + st.data.len()) as u32,
                                ),
                            ),
                            data,
                        },
                    ),
                },
            }
        }
    }
}

/// Find a function by name.
fn find_function(fs: &Vec<IrFunction>, name: &String) -> (r: Option<usize>)
    ensures
        match r {
            Some(j) => j < fs@.len() && function_position(fs@, name@, 0) == Some(j as int),
            None => function_position(fs@, name@, 0) is None,
        },
{
    let mut i: usize = 0;
    while i < fs.len()
        invariant
            i <= fs@.len(),
            function_position(fs@, name@, 0) == function_position(fs@, name@, i as int),
        decreases fs@.len() - i,
    {
        if fs[i].name == *name {
            return Some(i);
        }
        i = i + 1;
    }
    None
}

/// Find the impl block that provides an inherited method.
fn find_provider(impls: &Vec<IrImpl>, owner: TraitId, target: ImplTarget, name: &String) -> (r:
    Option<(usize, usize)>)
    ensures
        match r {
            Some((i, j)) => provider(impls@, 0, owner, target, name@) == Some(
                (i as int, j as int),
            ),
            None => provider(impls@, 0, owner, target, name@) is None,
        },
{
    let mut i: usize = 0;
    while i < impls.len()
        invariant
            i <= impls@.len(),
            provider(impls@, 0, owner, target, name@) == provider(
                impls@,
                i as int,
                owner,
                target,
                name@,
            ),
        decreases impls@.len() - i,
    {
        let imp = &impls[i];
        if !imp.is_extern && imp.target == target {
            if let Some(t) = imp.trait_ref {
                if t.trait_id == owner {
                    if let Some(j) = find_function(&imp.functions, name) {
                        return Some((i, j));
                    }
                }
            }
        }
        i = i + 1;
    }
    None
}

fn find_slot(i: usize, j: usize, slots: &MethodMap) -> (r: Result<u32, ModuleLowerError>)
    ensures
        r == slot_at(i as int, j as int, slots@),
{
    let impl_id: u32 = to_index(i)?;
    let idx: u32 = to_index(j)?;
    match slots.get((ImplId(impl_id), MethodIdx(idx))) {
        Some(slot) => Ok(slot),
        None => Err(ModuleLowerError::TooManyFunctions),
    }
}

/// Append the method table of impl block `at`.
fn write_vtable_cells(
    at: usize,
    trait_id: TraitId,
    module: &IrModule,
    slots: &MethodMap,
    data: &mut Vec<u8>,
) -> (r: Result<(), ModuleLowerError>)
    requires
        at < module.impls@.len(),
        module.impls@[at as int].trait_ref == Some(crate::ir::IrTraitRef { trait_id }),
        trait_id.0 < module.traits@.len(),
    ensures
        match r {
            Ok(_) => trait_methods(trait_id, *module) matches Ok(methods) && cells(
                methods,
                0,
                at as int,
                *module,
                slots@,
                old(data)@,
            ) == Ok::<Seq<u8>, ModuleLowerError>(final(data)@),
            Err(x) => match trait_methods(trait_id, *module) {
                Err(y) => x == y,
                Ok(methods) => cells(methods, 0, at as int, *module, slots@, old(data)@) == Err::<
                    Seq<u8>,
                    ModuleLowerError,
                >(x),
            },
        },
{
    let methods = effective_trait_methods(trait_id, module)?;
    let ghost all = trait_methods(trait_id, *module)->Ok_0;
    let imp = &module.impls[at];
    let mut i: usize = 0;
    while i < methods.len()
        invariant
            at < module.impls@.len(),
            *imp == module.impls@[at as int],
            imp.trait_ref == Some(crate::ir::IrTraitRef { trait_id }),
            trait_id.0 < module.traits@.len(),
            trait_methods(trait_id, *module) == Ok::<Seq<Owned>, ModuleLowerError>(all),
            refers(methods@, all),
            i <= methods@.len(),
            cells(all, 0, at as int, *module, slots@, old(data)@) == cells(
                all,
                i as int,
                at as int,
                *module,
                slots@,
                data@,
            ),
        decreases methods@.len() - i,
    {
        let (owner, sig) = methods[i];
        proof {
            assert(all[i as int] == (methods@[i as int].0, *methods@[i as int].1));
        }
        let found: Option<(usize, usize)> = if owner == trait_id {
            match find_function(&imp.functions, &sig.name) {
                Some(j) => Some((at, j)),
                None => None,
            }
        } else {
            find_provider(&module.impls, owner, imp.target, &sig.name)
        };
        let slot: u32 = match found {
            None => {
                return Err(
                    ModuleLowerError::MissingTraitMethod {
                        trait_name: module.traits[trait_id.0 as usize].name.clone(),
                        method: sig.name.clone(),
                        target: imp.target,
                    },
                );
            },
            Some((a, b)) => find_slot(a, b, slots)?,
        };
        push_le32(data, slot);
        i = i + 1;
    }
    Ok(())
}

fn build_tables(base: u32, module: &IrModule, slots: &MethodMap) -> (r: Result<
    (VtableOffsets, Vec<u8>),
    ModuleLowerError,
>)
    ensures
        match r {
            Ok((offsets, data)) => all_tables(
                0,
                base,
                *module,
                slots@,
                Tables { offsets: Seq::empty(), data: Seq::empty() },
            ) == Ok::<Tables, ModuleLowerError>(Tables { offsets: offsets@, data: data@ }),
            Err(x) => all_tables(
                0,
                base,
                *module,
                slots@,
                Tables { offsets: Seq::empty(), data: Seq::empty() },
            ) == Err::<Tables, ModuleLowerError>(x),
        },
{
    let mut offsets = VtableOffsets::new();
    let mut data: Vec<u8> = Vec::new();
    let mut i: usize = 0;
    while i < module.impls.len()
        invariant
            i <= module.impls@.len(),
            all_tables(
                0,
                base,
                *module,
                slots@,
                Tables { offsets: Seq::empty(), data: Seq::empty() },
            ) == all_tables(
                i as int,
                base,
                *module,
                slots@,
                Tables { offsets: offsets@, data: data@ },
            ),
        decreases module.impls@.len() - i,
    {
        let imp = &module.impls[i];
        if !imp.is_extern {
            if let Some(t) = imp.trait_ref {
                let id: TraitId = t.trait_id;
                if id.0 as usize >= module.traits.len() {
                    return Err(ModuleLowerError::UnknownTrait(id));
                }
                if data.len() > 0xffff_ffff {
                    return Err(ModuleLowerError::VtableDataOverflow);
                }
                let offset: u32 = match base.checked_add(data.len() as u32) {
                    None => return Err(ModuleLowerError::VtableDataOverflow),
                    Some(n) => n,
                };
                if i > 0xffff_ffff {
                    return Err(ModuleLowerError::TooManyFunctions);
                }
                write_vtable_cells(i, id, module, slots, &mut data)?;
                offsets.insert(id, impl_target_key(imp.target), offset);
            }
        }
        i = i + 1;
    }
    Ok((offsets, data))
}

// ── call signatures ──────────────────────────────────────────────────

/// The parameters of a trait method's call, from parameter `i` on, appended
/// to `out`. A leading `self` is a pointer.
pub open spec fn method_params(
    params: Seq<IrFunctionParam>,
    i: int,
    function: String,
    out: Seq<ValType>,
) -> Result<Seq<ValType>, ModuleLowerError>
    decreases params.len() - i,
{
    if i < 0 || i >= params.len() {
        Ok(out)
    } else if i == 0 && params[i].name@ == "self"@ {
        method_params(params, i + 1, function, out.push(ValType::I32))
    } else {
        match params[i].ty {
            None => Err(ModuleLowerError::MissingParamType { function, name: params[i].name }),
            Some(ty) => match crate::types::body_val(ty) {
                Err(x) => Err(ModuleLowerError::TypeMap(x)),
                Ok(None) => Err(
                    crate::module_lowering::error::unsupported(
                        UnsupportedKind::TraitMethodParameter(ty),
                    ),
                ),
                Ok(Some(vt)) => method_params(params, i + 1, function, out.push(vt)),
            },
        }
    }
}

/// The signature of a trait method's calls.
pub open spec fn method_signature(sig: IrFunctionSig) -> Result<SigView, ModuleLowerError> {
    match method_params(sig.params@, 0, sig.name, Seq::empty()) {
        Err(x) => Err(x),
        Ok(params) => match crate::module_lowering::signature::results_for(sig.return_type) {
            Err(x) => Err(x),
            Ok(results) => Ok(SigView { params, results }),
        },
    }
}

/// A builder, and the signature index of each trait method.
#[verifier::ext_equal]
pub struct MethodTypes {
    pub builder: BuilderView,
    pub types: Map<u64, u32>,
}

/// With the signatures of a trait's methods, from method `j` on.
pub open spec fn trait_types(methods: Seq<Owned>, j: int, id: u32, st: MethodTypes) -> Result<
    MethodTypes,
    ModuleLowerError,
>
    decreases methods.len() - j,
{
    if j < 0 || j >= methods.len() {
        Ok(st)
    } else {
        match crate::module_lowering::error::checked_index(j) {
            Err(x) => Err(x),
            Ok(idx) => match method_signature(methods[j].1) {
                Err(x) => Err(x),
                Ok(sig) => trait_types(
                    methods,
                    j + 1,
                    id,
                    MethodTypes {
                        types: st.types.insert(
                            crate::lower::maps::pair_key(id, idx),
                            st.builder.next_type(),
                        ),
                        builder: st.builder.with_type(sig),
                    },
                ),
            },
        }
    }
}

/// With the signatures of all traits' methods, from trait `i` on.
pub open spec fn all_types(i: int, m: IrModule, st: MethodTypes) -> Result<
    MethodTypes,
    ModuleLowerError,
>
    decreases m.traits@.len() - i,
{
    if i < 0 || i >= m.traits@.len() {
        Ok(st)
    } else {
        match crate::module_lowering::error::checked_index(i) {
            Err(x) => Err(x),
            Ok(id) => match trait_methods(TraitId(id), m) {
                Err(x) => Err(x),
                Ok(methods) => match trait_types(methods, 0, id, st) {
                    Err(x) => Err(x),
                    Ok(st1) => all_types(i + 1, m, st1),
                },
            },
        }
    }
}

fn method_param_types(sig: &IrFunctionSig) -> (r: Result<Vec<ValType>, ModuleLowerError>)
    ensures
        crate::module_lowering::signature::types_outcome(
            r,
            method_params(sig.params@, 0, sig.name, Seq::empty()),
        ),
{
    let mut out: Vec<ValType> = Vec::new();
    let mut i: usize = 0;
    while i < sig.params.len()
        invariant
            i <= sig.params@.len(),
            method_params(sig.params@, 0, sig.name, Seq::empty()) == method_params(
                sig.params@,
                i as int,
                sig.name,
                out@,
            ),
        decreases sig.params@.len() - i,
    {
        let p = &sig.params[i];
        if i == 0 && same_text(&p.name, "self") {
            out.push(ValType::I32);
        } else {
            match &p.ty {
                None => {
                    return Err(
                        ModuleLowerError::MissingParamType {
                            function: sig.name.clone(),
                            name: p.name.clone(),
                        },
                    );
                },
                Some(ty) => match body_value_type(ty) {
                    Err(x) => return Err(ModuleLowerError::TypeMap(x)),
                    Ok(None) => {
                        return Err(
                            not_supported(UnsupportedKind::TraitMethodParameter(ty.clone())),
                        );
                    },
                    Ok(Some(vt)) => out.push(vt),
                },
            }
        }
        i = i + 1;
    }
    Ok(out)
}

fn register_trait_method_call_type(sig: &IrFunctionSig, builder: &mut ModuleBuilder) -> (r: Result<
    u32,
    ModuleLowerError,
>)
    ensures
        match r {
            Ok(idx) => method_signature(*sig) matches Ok(s) && idx == old(builder)@.next_type()
                && final(builder)@ == old(builder)@.with_type(s),
            Err(x) => method_signature(*sig) == Err::<SigView, ModuleLowerError>(x),
        },
{
    let params = method_param_types(sig)?;
    let results = lower_results(&sig.return_type)?;
    Ok(builder.declare_type(&params, &results))
}

fn register_trait(
    id: u32,
    module: &IrModule,
    builder: &mut ModuleBuilder,
    types: &mut VirtualCallTypes,
) -> (r: Result<(), ModuleLowerError>)
    ensures
        match (r, trait_methods(TraitId(id), *module)) {
            (Ok(_), Ok(methods)) => trait_types(
                methods,
                0,
                id,
                MethodTypes { builder: old(builder)@, types: old(types)@ },
            ) == Ok::<MethodTypes, ModuleLowerError>(
                MethodTypes { builder: final(builder)@, types: final(types)@ },
            ),
            (Ok(_), Err(_)) => false,
            (Err(x), Err(y)) => x == y,
            (Err(x), Ok(methods)) => trait_types(
                methods,
                0,
                id,
                MethodTypes { builder: old(builder)@, types: old(types)@ },
            ) == Err::<MethodTypes, ModuleLowerError>(x),
        },
{
    let methods = effective_trait_methods(TraitId(id), module)?;
    let ghost all = trait_methods(TraitId(id), *module)->Ok_0;
    let mut j: usize = 0;
    while j < methods.len()
        invariant
            trait_methods(TraitId(id), *module) == Ok::<Seq<Owned>, ModuleLowerError>(all),
            refers(methods@, all),
            j <= methods@.len(),
            trait_types(all, 0, id, MethodTypes { builder: old(builder)@, types: old(types)@ })
                == trait_types(
                all,
                j as int,
                id,
                MethodTypes { builder: builder@, types: types@ },
            ),
        decreases methods@.len() - j,
    {
        proof {
            assert(all[j as int] == (methods@[j as int].0, *methods@[j as int].1));
        }
        let idx: u32 = to_index(j)?;
        let type_idx: u32 = register_trait_method_call_type(methods[j].1, builder)?;
        types.insert(TraitId(id), MethodIdx(idx), type_idx);
        j = j + 1;
    }
    Ok(())
}

// ── all together ─────────────────────────────────────────────────────

/// What virtual calls need to be lowered, and the bytes of the method
/// tables.
pub struct VtableParts {
    pub table: u32,
    pub offsets: Seq<(TraitId, (u32, u32), u32)>,
    pub types: Map<u64, u32>,
    pub data: Seq<u8>,
    /// Where the bytes begin in the static data.
    pub base: u32,
}

/// The method tables of a module, if it has trait implementations, and the
/// builder with the table of their methods. They go behind `text_len` bytes
/// of text data.
pub open spec fn vtable_parts(b: BuilderView, m: IrModule, methods: Map<u64, u32>, text_len: u32) -> Result<
    (Option<VtableParts>, BuilderView),
    ModuleLowerError,
> {
    match all_slots(m.impls@, 0, methods, no_slots()) {
        Err(x) => Err(x),
        Ok(s) => if s.functions.len() == 0 {
            Ok((None, b))
        } else {
            let b1 = b.with_method_table(s.functions.len() as u32);
            let b2 = b1.with_filled(b1.method_table_idx, s.functions);
            let base = crate::layout::round_up(text_len as int, VTABLE_SLOT_ALIGN as int);
            if base > u32::MAX {
                Err(ModuleLowerError::VtableDataOverflow)
            } else {
                match all_tables(
                    0,
                    base as u32,
                    m,
                    s.slots,
                    Tables { offsets: Seq::empty(), data: Seq::empty() },
                ) {
                    Err(x) => Err(x),
                    Ok(t) => match all_types(
                        0,
                        m,
                        MethodTypes { builder: b2, types: Map::empty() },
                    ) {
                        Err(x) => Err(x),
                        Ok(st) => Ok(
                            (
                                Some(
                                    VtableParts {
                                        table: b1.method_table_idx->0,
                                        offsets: t.offsets,
                                        types: st.types,
                                        data: t.data,
                                        base: base as u32,
                                    },
                                ),
                                st.builder,
                            ),
                        ),
                    },
                }
            }
        },
    }
}

/// Tables for virtual calls.
#[derive(Debug)]
pub struct VTablePlumbing {
    pub table_idx: u32,
    pub vtable_offsets: VtableOffsets,
    pub call_type_indices: VirtualCallTypes,
    pub vtable_data: Vec<u8>,
    pub vtable_data_base: u32,
}

impl View for VTablePlumbing {
    type V = VtableParts;

    open spec fn view(&self) -> VtableParts {
        VtableParts {
            table: self.table_idx,
            offsets: self.vtable_offsets@,
            types: self.call_type_indices@,
            data: self.vtable_data@,
            base: self.vtable_data_base,
        }
    }
}

/// Build the method table, the method tables of all trait implementations
/// and the signatures of virtual calls. A module without trait
/// implementations has none of them.
pub fn build_vtable_plumbing(
    builder: &mut ModuleBuilder,
    module: &IrModule,
    method_map: &MethodMap,
    string_data_len: u32,
) -> (r: Result<Option<VTablePlumbing>, ModuleLowerError>)
    ensures
        match r {
            Ok(p) => vtable_parts(old(builder)@, *module, method_map@, string_data_len) == Ok::<
                (Option<VtableParts>, BuilderView),
                ModuleLowerError,
            >((crate::module_lowering::closures::optional_view(p), final(builder)@)),
            Err(x) => vtable_parts(old(builder)@, *module, method_map@, string_data_len) == Err::<
                (Option<VtableParts>, BuilderView),
                ModuleLowerError,
            >(x),
        },
{
    let (slots, functions) = collect_slots(&module.impls, method_map)?;
    if functions.len() == 0 {
        return Ok(None);
    }
    proof {
        lemma_slots_fit(module.impls@, 0, method_map@, no_slots());
    }
    let table_idx: u32 = builder.declare_method_table(functions.len() as u32);
    builder.populate_method_table(functions);
    let base: u32 = match align_up(string_data_len, VTABLE_SLOT_ALIGN) {
        None => return Err(ModuleLowerError::VtableDataOverflow),
        Some(n) => n,
    };
    let (vtable_offsets, vtable_data) = build_tables(base, module, &slots)?;
    let mut call_type_indices = VirtualCallTypes::new();
    let ghost start = MethodTypes { builder: builder@, types: Map::empty() };
    let mut i: usize = 0;
    while i < module.traits.len()
        invariant
            i <= module.traits@.len(),
            all_types(0, *module, start) == all_types(
                i as int,
                *module,
                MethodTypes { builder: builder@, types: call_type_indices@ },
            ),
            vtable_parts(old(builder)@, *module, method_map@, string_data_len) == match all_types(
                0,
                *module,
                start,
            ) {
                Err(x) => Err::<(Option<VtableParts>, BuilderView), ModuleLowerError>(x),
                Ok(st) => Ok(
                    (
                        Some(
                            VtableParts {
                                table: table_idx,
                                offsets: vtable_offsets@,
                                types: st.types,
                                data: vtable_data@,
                                base,
                            },
                        ),
                        st.builder,
                    ),
                ),
            },
        decreases module.traits@.len() - i,
    {
        let id: u32 = to_index(i)?;
        register_trait(id, module, builder, &mut call_type_indices)?;
        i = i + 1;
    }
    Ok(
        Some(
            VTablePlumbing {
                table_idx,
                vtable_offsets,
                call_type_indices,
                vtable_data,
                vtable_data_base: base,
            },
        ),
    )
}

proof fn lemma_impl_slots_fit(n: nat, impl_id: u32, j: int, methods: Map<u64, u32>, st: Slots)
    requires
        st.functions.len() <= u32::MAX,
    ensures
        impl_slots(n, impl_id, j, methods, st) matches Ok(s) ==> s.functions.len() <= u32::MAX,
    decreases n - j,
{
    if 0 <= j < n && j <= u32::MAX && st.functions.len() < u32::MAX {
        let key = crate::lower::maps::pair_key(impl_id, j as u32);
        if methods.dom().contains(key) {
            lemma_impl_slots_fit(
                n,
                impl_id,
                j + 1,
                methods,
                Slots {
                    slots: st.slots.insert(key, st.functions.len() as u32),
                    functions: st.functions.push(methods[key]),
                },
            );
        }
    }
}

/// The slots are 32-bit.
pub proof fn lemma_slots_fit(impls: Seq<IrImpl>, i: int, methods: Map<u64, u32>, st: Slots)
    requires
        st.functions.len() <= u32::MAX,
    ensures
        all_slots(impls, i, methods, st) matches Ok(s) ==> s.functions.len() <= u32::MAX,
    decreases impls.len() - i,
{
    if 0 <= i < impls.len() {
        if impls[i].is_extern || impls[i].trait_ref is None {
            lemma_slots_fit(impls, i + 1, methods, st);
        } else if i <= u32::MAX {
            lemma_impl_slots_fit(impls[i].functions@.len(), i as u32, 0, methods, st);
            if let Ok(st1) = impl_slots(impls[i].functions@.len(), i as u32, 0, methods, st) {
                lemma_slots_fit(impls, i + 1, methods, st1);
            }
        }
    }
}

} // verus!
