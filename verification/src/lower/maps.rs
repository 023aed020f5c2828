//! Index maps handed to the lowering walkers.

use vstd::prelude::*;

use std::collections::HashMap;

use crate::ir::{BindingId, FunctionId, ImplId, MethodIdx, ResolvedType, TraitId};

verus! {

broadcast use vstd::std_specs::hash::group_hash_axioms;

/// The value under `key`.
pub open spec fn lookup<K>(m: Map<K, u32>, key: K) -> Option<u32> {
    if m.dom().contains(key) {
        Some(m[key])
    } else {
        None
    }
}

/// Wasm function index of each module-scope function.
#[derive(Debug)]
pub struct FunctionMap {
    by_id: HashMap<u32, u32>,
}

impl View for FunctionMap {
    type V = Map<u32, u32>;

    closed spec fn view(&self) -> Map<u32, u32> {
        self.by_id@
    }
}

impl FunctionMap {
    /// Build an empty map.
    pub fn new() -> (r: Self)
        ensures
            r@ == Map::<u32, u32>::empty(),
    {
        FunctionMap { by_id: HashMap::new() }
    }

    /// Register a function's wasm index.
    pub fn insert(&mut self, id: FunctionId, wasm_index: u32)
        ensures
            final(self)@ == old(self)@.insert(id.0, wasm_index),
    {
        self.by_id.insert(id.0, wasm_index);
    }

    /// Look up a function's wasm index.
    pub fn get(&self, id: FunctionId) -> (r: Option<u32>)
        ensures
            r == lookup(self@, id.0),
    {
        match self.by_id.get(&id.0) {
            Some(i) => Some(*i),
            None => None,
        }
    }

    /// Number of functions recorded.
    pub fn len(&self) -> (r: usize)
        ensures
            r == self@.len(),
    {
        self.by_id.len()
    }

    /// Whether the map is empty.
    pub fn is_empty(&self) -> (r: bool)
        ensures
            r == (self@.len() == 0),
    {
        self.by_id.len() == 0
    }
}

/// Wasm-local index of each function-local binding. Parameters come first,
/// then `let` bindings in declaration order.
#[derive(Debug)]
pub struct BindingMap {
    by_id: HashMap<u32, u32>,
}

impl View for BindingMap {
    type V = Map<u32, u32>;

    closed spec fn view(&self) -> Map<u32, u32> {
        self.by_id@
    }
}

impl BindingMap {
    /// Build an empty map.
    pub fn new() -> (r: Self)
        ensures
            r@ == Map::<u32, u32>::empty(),
    {
        BindingMap { by_id: HashMap::new() }
    }

    /// Register a binding's wasm-local index.
    pub fn insert(&mut self, id: BindingId, local_index: u32)
        ensures
            final(self)@ == old(self)@.insert(id.0, local_index),
    {
        self.by_id.insert(id.0, local_index);
    }

    /// Look up a binding's wasm-local index.
    pub fn get(&self, id: BindingId) -> (r: Option<u32>)
        ensures
            r == lookup(self@, id.0),
    {
        match self.by_id.get(&id.0) {
            Some(i) => Some(*i),
            None => None,
        }
    }

    /// Number of bindings recorded.
    pub fn len(&self) -> (r: usize)
        ensures
            r == self@.len(),
    {
        self.by_id.len()
    }

    /// Whether the map is empty.
    pub fn is_empty(&self) -> (r: bool)
        ensures
            r == (self@.len() == 0),
    {
        self.by_id.len() == 0
    }
}

/// Two 32-bit indices as one key.
pub open spec fn pair_key(a: u32, b: u32) -> u64 {
    (a * 0x1_0000_0000 + b) as u64
}

/// Different index pairs have different keys.
pub proof fn law_pair_keys_are_distinct(a: u32, b: u32, c: u32, d: u32)
    requires
        pair_key(a, b) == pair_key(c, d),
    ensures
        a == c && b == d,
{
}

/// Wasm function index of each method, by impl block and position.
#[derive(Debug)]
pub struct MethodMap {
    by_id: HashMap<u64, u32>,
}

impl View for MethodMap {
    type V = Map<u64, u32>;

    closed spec fn view(&self) -> Map<u64, u32> {
        self.by_id@
    }
}

impl MethodMap {
    /// Build an empty map.
    pub fn new() -> (r: Self)
        ensures
            r@ == Map::<u64, u32>::empty(),
    {
        MethodMap { by_id: HashMap::new() }
    }

    /// Register a method's wasm function index.
    pub fn insert(&mut self, key: (ImplId, MethodIdx), wasm_index: u32)
        ensures
            final(self)@ == old(self)@.insert(pair_key((key.0).0, (key.1).0), wasm_index),
    {
        let (i, m) = key;
        self.by_id.insert(i.0 as u64 * 0x1_0000_0000 + m.0 as u64, wasm_index);
    }

    /// Look up a method's wasm function index.
    pub fn get(&self, key: (ImplId, MethodIdx)) -> (r: Option<u32>)
        ensures
            r == lookup(self@, pair_key((key.0).0, (key.1).0)),
    {
        let (i, m) = key;
        match self.by_id.get(&(i.0 as u64 * 0x1_0000_0000 + m.0 as u64)) {
            Some(i) => Some(*i),
            None => None,
        }
    }

    /// Number of methods recorded.
    pub fn len(&self) -> (r: usize)
        ensures
            r == self@.len(),
    {
        self.by_id.len()
    }

    /// Whether the map is empty.
    pub fn is_empty(&self) -> (r: bool)
        ensures
            r == (self@.len() == 0),
    {
        self.by_id.len() == 0
    }
}

/// Wasm type index of each trait method's call signature.
#[derive(Debug)]
pub struct VirtualCallTypes {
    by_id: HashMap<u64, u32>,
}

impl View for VirtualCallTypes {
    type V = Map<u64, u32>;

    closed spec fn view(&self) -> Map<u64, u32> {
        self.by_id@
    }
}

impl VirtualCallTypes {
    /// Build an empty map.
    pub fn new() -> (r: Self)
        ensures
            r@ == Map::<u64, u32>::empty(),
    {
        VirtualCallTypes { by_id: HashMap::new() }
    }

    /// Register a signature's type index.
    pub fn insert(&mut self, trait_id: TraitId, method: MethodIdx, type_index: u32)
        ensures
            final(self)@ == old(self)@.insert(pair_key(trait_id.0, method.0), type_index),
    {
        self.by_id.insert(trait_id.0 as u64 * 0x1_0000_0000 + method.0 as u64, type_index);
    }

    /// Look up a signature's type index.
    pub fn get(&self, trait_id: TraitId, method: MethodIdx) -> (r: Option<u32>)
        ensures
            r == lookup(self@, pair_key(trait_id.0, method.0)),
    {
        match self.by_id.get(&(trait_id.0 as u64 * 0x1_0000_0000 + method.0 as u64)) {
            Some(i) => Some(*i),
            None => None,
        }
    }
}

/// Wasm type index of each closure type's call signature.
#[derive(Debug)]
pub struct ClosureTypes {
    entries: Vec<(ResolvedType, u32)>,
}

/// The index recorded first for a type.
pub open spec fn closure_index(entries: Seq<(ResolvedType, u32)>, ty: ResolvedType, from: int) -> Option<
    u32,
>
    decreases entries.len() - from,
{
    if from < 0 || from >= entries.len() {
        None
    } else if crate::ir::same_type(entries[from].0, ty) {
        Some(entries[from].1)
    } else {
        closure_index(entries, ty, from + 1)
    }
}

impl View for ClosureTypes {
    type V = Seq<(ResolvedType, u32)>;

    closed spec fn view(&self) -> Seq<(ResolvedType, u32)> {
        self.entries@
    }
}

impl ClosureTypes {
    /// Build an empty table.
    pub fn new() -> (r: Self)
        ensures
            r@ == Seq::<(ResolvedType, u32)>::empty(),
    {
        ClosureTypes { entries: Vec::new() }
    }

    /// Register a closure type's signature.
    pub fn insert(&mut self, ty: ResolvedType, type_index: u32)
        ensures
            final(self)@ == old(self)@.push((ty, type_index)),
    {
        self.entries.push((ty, type_index));
    }

    /// Look up a closure type's signature.
    pub fn get(&self, ty: &ResolvedType) -> (r: Option<u32>)
        ensures
            r == closure_index(self@, *ty, 0),
    {
        let mut i: usize = 0;
        while i < self.entries.len()
            invariant
                i <= self.entries@.len(),
                closure_index(self@, *ty, 0) == closure_index(self@, *ty, i as int),
            decreases self.entries@.len() - i,
        {
            if crate::ir::types_equal(&self.entries[i].0, ty) {
                return Some(self.entries[i].1);
            }
            i = i + 1;
        }
        None
    }
}

/// Byte offset of each trait implementation's method table, by trait and
/// encoded target.
#[derive(Debug)]
pub struct VtableOffsets {
    entries: Vec<(TraitId, (u32, u32), u32)>,
}

/// The offset recorded last for a trait and a target.
pub open spec fn vtable_at(
    entries: Seq<(TraitId, (u32, u32), u32)>,
    trait_id: TraitId,
    target: (u32, u32),
) -> Option<u32>
    decreases entries.len(),
{
    if entries.len() == 0 {
        None
    } else if entries.last().0 == trait_id && entries.last().1 == target {
        Some(entries.last().2)
    } else {
        vtable_at(entries.drop_last(), trait_id, target)
    }
}

impl View for VtableOffsets {
    type V = Seq<(TraitId, (u32, u32), u32)>;

    closed spec fn view(&self) -> Seq<(TraitId, (u32, u32), u32)> {
        self.entries@
    }
}

impl VtableOffsets {
    /// Build an empty table.
    pub fn new() -> (r: Self)
        ensures
            r@ == Seq::<(TraitId, (u32, u32), u32)>::empty(),
    {
        VtableOffsets { entries: Vec::new() }
    }

    /// Register a method table's offset. A later entry hides an earlier one.
    pub fn insert(&mut self, trait_id: TraitId, target: (u32, u32), offset: u32)
        ensures
            final(self)@ == old(self)@.push((trait_id, target, offset)),
    {
        self.entries.push((trait_id, target, offset));
    }

    /// Look up a method table's offset.
    pub fn get(&self, trait_id: TraitId, target: (u32, u32)) -> (r: Option<u32>)
        ensures
            r == vtable_at(self@, trait_id, target),
    {
        let mut n: usize = self.entries.len();
        proof {
            assert(self@.take(n as int) =~= self@);
        }
        while n > 0
            invariant
                n <= self.entries@.len(),
                vtable_at(self@, trait_id, target) == vtable_at(
                    self@.take(n as int),
                    trait_id,
                    target,
                ),
            decreases n,
        {
            proof {
                assert(self@.take(n as int).drop_last() =~= self@.take(n as int - 1));
            }
            let (t, k, offset) = self.entries[n - 1];
            if t == trait_id && k.0 == target.0 && k.1 == target.1 {
                return Some(offset);
            }
            n = n - 1;
        }
        None
    }
}

} // verus!
