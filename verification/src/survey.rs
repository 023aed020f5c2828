//! Classification of a module's top-level items into exports, imports and
//! exported types.
//!
//! Methods declared inside impl blocks are not listed: they are reachable
//! only through method dispatch.

use vstd::prelude::*;

use crate::ident::has_prefix;
use crate::ir::{EnumId, FunctionId, IrEnum, IrFunction, IrModule, IrStruct, StructId, Visibility};

verus! {

/// The module's items at the component boundary.
#[derive(Debug, PartialEq, Eq)]
pub struct PublicSurface {
    /// Functions with a body, candidates for component exports.
    pub exports: Vec<FunctionId>,
    /// Functions the host provides.
    pub imports: Vec<FunctionId>,
    /// Public structs with fields. The boundary has no records without
    /// fields.
    pub exported_structs: Vec<StructId>,
    /// Public enums.
    pub exported_enums: Vec<EnumId>,
}

/// A position as a 32-bit index, saturating.
pub open spec fn index_u32(i: int) -> u32 {
    if i > u32::MAX {
        u32::MAX
    } else {
        i as u32
    }
}

/// Positions among the first `k` functions whose host flag is `host`.
pub open spec fn functions_where(fs: Seq<IrFunction>, k: nat, host: bool) -> Seq<FunctionId>
    decreases k,
{
    if k == 0 {
        Seq::empty()
    } else {
        let before = functions_where(fs, (k - 1) as nat, host);
        if fs[k - 1].is_extern == host {
            before.push(FunctionId(index_u32(k - 1)))
        } else {
            before
        }
    }
}

/// Whether a struct becomes a record at the boundary.
pub open spec fn is_record(s: IrStruct) -> bool {
    s.visibility == Visibility::Public && s.fields@.len() > 0
}

/// Positions of the public structs with fields among the first `k`.
pub open spec fn public_structs(ss: Seq<IrStruct>, k: nat) -> Seq<StructId>
    decreases k,
{
    if k == 0 {
        Seq::empty()
    } else {
        let before = public_structs(ss, (k - 1) as nat);
        if is_record(ss[k - 1]) {
            before.push(StructId(index_u32(k - 1)))
        } else {
            before
        }
    }
}

/// Positions of the public enums among the first `k`.
pub open spec fn public_enums(es: Seq<IrEnum>, k: nat) -> Seq<EnumId>
    decreases k,
{
    if k == 0 {
        Seq::empty()
    } else {
        let before = public_enums(es, (k - 1) as nat);
        if es[k - 1].visibility == Visibility::Public {
            before.push(EnumId(index_u32(k - 1)))
        } else {
            before
        }
    }
}

/// The lists of a [`PublicSurface`].
#[verifier::ext_equal]
pub struct SurfaceView {
    pub exports: Seq<FunctionId>,
    pub imports: Seq<FunctionId>,
    pub exported_structs: Seq<StructId>,
    pub exported_enums: Seq<EnumId>,
}

impl View for PublicSurface {
    type V = SurfaceView;

    open spec fn view(&self) -> SurfaceView {
        SurfaceView {
            exports: self.exports@,
            imports: self.imports@,
            exported_structs: self.exported_structs@,
            exported_enums: self.exported_enums@,
        }
    }
}

/// The surface of a module: exactly its items, in declaration order.
pub open spec fn surveyed(module: IrModule) -> SurfaceView {
    SurfaceView {
        exports: functions_where(module.functions@, module.functions@.len(), false),
        imports: functions_where(module.functions@, module.functions@.len(), true),
        exported_structs: public_structs(module.structs@, module.structs@.len()),
        exported_enums: public_enums(module.enums@, module.enums@.len()),
    }
}

/// A vector position as a 32-bit index, saturating.
fn u32_from_index(idx: usize) -> (r: u32)
    ensures
        r == index_u32(idx as int),
{
    if idx > 0xffff_ffff {
        0xffff_ffff
    } else {
        idx as u32
    }
}

/// Classify every top-level item in `module`.
pub fn survey(module: &IrModule) -> (surface: PublicSurface)
    ensures
        surface@ == surveyed(*module),
{
    let mut exports: Vec<FunctionId> = Vec::new();
    let mut imports: Vec<FunctionId> = Vec::new();
    let mut i: usize = 0;
    while i < module.functions.len()
        invariant
            i <= module.functions@.len(),
            exports@ == functions_where(module.functions@, i as nat, false),
            imports@ == functions_where(module.functions@, i as nat, true),
        decreases module.functions@.len() - i,
    {
        let id = FunctionId(u32_from_index(i));
        if module.functions[i].is_extern {
            imports.push(id);
        } else {
            exports.push(id);
        }
        i = i + 1;
    }
    let mut exported_structs: Vec<StructId> = Vec::new();
    let mut j: usize = 0;
    while j < module.structs.len()
        invariant
            j <= module.structs@.len(),
            exported_structs@ == public_structs(module.structs@, j as nat),
        decreases module.structs@.len() - j,
    {
        if module.structs[j].visibility == Visibility::Public && module.structs[j].fields.len()
            > 0 {
            exported_structs.push(StructId(u32_from_index(j)));
        }
        j = j + 1;
    }
    let mut exported_enums: Vec<EnumId> = Vec::new();
    let mut k: usize = 0;
    while k < module.enums.len()
        invariant
            k <= module.enums@.len(),
            exported_enums@ == public_enums(module.enums@, k as nat),
        decreases module.enums@.len() - k,
    {
        if module.enums[k].visibility == Visibility::Public {
            exported_enums.push(EnumId(u32_from_index(k)));
        }
        k = k + 1;
    }
    PublicSurface { exports, imports, exported_structs, exported_enums }
}

/// Whether a function is a helper that an earlier pass made.
pub open spec fn is_helper(id: FunctionId, m: IrModule) -> bool {
    m.spec_function(id) matches Some(f) && "__"@.is_prefix_of(f.name@)
}

/// The first `k` of `ids` without helpers.
pub open spec fn without_helpers(ids: Seq<FunctionId>, k: nat, m: IrModule) -> Seq<FunctionId>
    decreases k,
{
    if k == 0 {
        Seq::empty()
    } else {
        let before = without_helpers(ids, (k - 1) as nat, m);
        if is_helper(ids[k - 1], m) {
            before
        } else {
            before.push(ids[k - 1])
        }
    }
}

/// The part of a surface that outsiders see: helpers stay private.
pub open spec fn outward(surface: SurfaceView, m: IrModule) -> SurfaceView {
    SurfaceView {
        exports: without_helpers(surface.exports, surface.exports.len(), m),
        ..surface
    }
}

/// Leave the helpers that earlier passes made out of the exports. A core
/// module does not export them.
pub fn keep_helpers_private(surface: PublicSurface, module: &IrModule) -> (r: PublicSurface)
    ensures
        r@ == outward(surface@, *module),
{
    let mut exports: Vec<FunctionId> = Vec::new();
    let mut i: usize = 0;
    while i < surface.exports.len()
        invariant
            i <= surface.exports@.len(),
            exports@ == without_helpers(surface.exports@, i as nat, *module),
        decreases surface.exports@.len() - i,
    {
        let id = surface.exports[i];
        let private = match module.get_function(id) {
            Some(f) => has_prefix(&f.name, "__"),
            None => false,
        };
        if !private {
            exports.push(id);
        }
        i = i + 1;
    }
    PublicSurface {
        exports,
        imports: surface.imports,
        exported_structs: surface.exported_structs,
        exported_enums: surface.exported_enums,
    }
}

/// What is left is what was there and is no helper.
pub proof fn lemma_without_helpers(ids: Seq<FunctionId>, k: nat, m: IrModule, id: FunctionId)
    requires
        k <= ids.len(),
    ensures
        without_helpers(ids, k, m).contains(id) <==> ids.take(k as int).contains(id) && !is_helper(
            id,
            m,
        ),
    decreases k,
{
    let now = ids.take(k as int);
    if k > 0 {
        lemma_without_helpers(ids, (k - 1) as nat, m, id);
        let then = ids.take(k - 1);
        let before = without_helpers(ids, (k - 1) as nat, m);
        let all = without_helpers(ids, k, m);
        assert(now =~= then.push(ids[k - 1]));
        if then.contains(id) {
            let w = choose|w: int| 0 <= w < then.len() && then[w] == id;
            assert(now[w] == id);
        }
        if now.contains(id) {
            let w = choose|w: int| 0 <= w < now.len() && now[w] == id;
            assert(w < k - 1 ==> then[w] == id);
        }
        if before.contains(id) {
            let w = choose|w: int| 0 <= w < before.len() && before[w] == id;
            assert(all[w] == id);
        }
        if all.contains(id) {
            let w = choose|w: int| 0 <= w < all.len() && all[w] == id;
            assert(w < before.len() ==> before[w] == id);
        }
        if id == ids[k - 1] {
            assert(now[k - 1] == id);
            if !is_helper(id, m) {
                assert(all[all.len() - 1] == id);
            }
        }
    }
}

proof fn lemma_functions_where(fs: Seq<IrFunction>, k: nat, host: bool, i: int)
    requires
        k <= fs.len() <= u32::MAX,
        0 <= i < k,
    ensures
        functions_where(fs, k, host).contains(FunctionId(i as u32)) <==> fs[i].is_extern == host,
        forall|id: FunctionId|
            functions_where(fs, k, host).contains(id) ==> (#[trigger] id.0) < k,
    decreases k,
{
    lemma_functions_bounded(fs, k, host);
    let before = functions_where(fs, (k - 1) as nat, host);
    let all = functions_where(fs, k, host);
    lemma_functions_bounded(fs, (k - 1) as nat, host);
    if i < k - 1 {
        lemma_functions_where(fs, (k - 1) as nat, host, i);
        if fs[k - 1].is_extern == host {
            let id = FunctionId(i as u32);
            if before.contains(id) {
                let w = choose|w: int| 0 <= w < before.len() && before[w] == id;
                assert(all[w] == id);
            }
            if all.contains(id) {
                let w = choose|w: int| 0 <= w < all.len() && all[w] == id;
                assert(w < before.len());
                assert(before[w] == id);
            }
        }
    } else {
        let id = FunctionId(i as u32);
        if fs[k - 1].is_extern == host {
            assert(all[all.len() - 1] == id);
        } else {
            assert(id.0 == i);
            assert(!before.contains(id));
        }
    }
}

/// The classified functions are functions of the module.
pub proof fn lemma_functions_bounded(fs: Seq<IrFunction>, k: nat, host: bool)
    requires
        k <= fs.len() <= u32::MAX,
    ensures
        forall|id: FunctionId|
            functions_where(fs, k, host).contains(id) ==> (#[trigger] id.0) < k,
    decreases k,
{
    if k > 0 {
        lemma_functions_bounded(fs, (k - 1) as nat, host);
        let before = functions_where(fs, (k - 1) as nat, host);
        let all = functions_where(fs, k, host);
        assert forall|id: FunctionId| all.contains(id) implies (#[trigger] id.0) < k by {
            let w = choose|w: int| 0 <= w < all.len() && all[w] == id;
            if w < before.len() {
                assert(before[w] == id);
                assert(before.contains(id));
            }
        }
    }
}

/// Every function is either an export or an import, and not both.
pub proof fn law_functions_are_partitioned(module: IrModule, i: int)
    requires
        module.functions@.len() <= u32::MAX,
        0 <= i < module.functions@.len(),
    ensures
        surveyed(module).imports.contains(FunctionId(i as u32)) <==> module.functions@[i].is_extern,
        surveyed(module).exports.contains(FunctionId(i as u32)) <==> !module.functions@[i].is_extern,
{
    lemma_functions_where(module.functions@, module.functions@.len(), true, i);
    lemma_functions_where(module.functions@, module.functions@.len(), false, i);
}

} // verus!
