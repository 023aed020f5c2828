//! State shared by the lowering walkers: the instruction sink with its
//! scratch locals, and the read-only context.

use vstd::prelude::*;

use crate::instr::{Instr, ValType};
use crate::ir::{
    BindingId, FunctionId, IrModule, MethodIdx, ResolvedType, StructId, TraitId,
};
use crate::lower::error::{not_yet, ContextField, LowerError, Missing};
use crate::lower::maps::{
    BindingMap, ClosureTypes, FunctionMap, MethodMap, VirtualCallTypes, VtableOffsets,
};
use crate::string_pool::TextOffsets;

verus! {

/// A run of scratch locals of one type.
#[derive(Clone, Copy, Debug, PartialEq, Eq, Structural)]
pub struct Region {
    /// Local index of the first slot.
    pub base: u32,
    /// Slots handed out so far.
    pub used: u32,
    /// Slots reserved.
    pub count: u32,
}

/// Base index and slot count of each scratch region.
#[derive(Clone, Copy, Debug, PartialEq, Eq)]
pub struct ScratchRegions {
    pub i32_slots: (u32, u32),
    pub i64_slots: (u32, u32),
    pub f32_slots: (u32, u32),
    pub f64_slots: (u32, u32),
}

/// Hands out scratch locals, one region per value type.
#[derive(Clone, Copy, Debug, PartialEq, Eq, Structural)]
pub struct ScratchAllocator {
    pub i32_slots: Region,
    pub i64_slots: Region,
    pub f32_slots: Region,
    pub f64_slots: Region,
}

impl ScratchAllocator {
    /// The region of a value type.
    pub open spec fn region(self, ty: ValType) -> Region {
        match ty {
            ValType::I32 => self.i32_slots,
            ValType::I64 => self.i64_slots,
            ValType::F32 => self.f32_slots,
            ValType::F64 => self.f64_slots,
        }
    }

    /// The allocator with one region replaced.
    pub open spec fn with_region(self, ty: ValType, r: Region) -> ScratchAllocator {
        match ty {
            ValType::I32 => ScratchAllocator { i32_slots: r, ..self },
            ValType::I64 => ScratchAllocator { i64_slots: r, ..self },
            ValType::F32 => ScratchAllocator { f32_slots: r, ..self },
            ValType::F64 => ScratchAllocator { f64_slots: r, ..self },
        }
    }

    /// The next slot of type `ty` and the allocator without it.
    pub open spec fn taken(self, ty: ValType) -> Result<(u32, ScratchAllocator), LowerError> {
        let r = self.region(ty);
        if r.used >= r.count {
            Err(
                crate::lower::error::missing(
                    Missing::ScratchUnderCounted {
                        ty,
                        reserved: r.count,
                        asked: if r.used == u32::MAX {
                            u32::MAX
                        } else {
                            (r.used + 1) as u32
                        },
                    },
                ),
            )
        } else if r.base + r.used > u32::MAX {
            Err(crate::lower::error::missing(Missing::ScratchIndex(ty)))
        } else {
            Ok(
                (
                    (r.base + r.used) as u32,
                    self.with_region(ty, Region { used: (r.used + 1) as u32, ..r }),
                ),
            )
        }
    }

    /// Build an allocator with no slot handed out.
    pub fn new(regions: ScratchRegions) -> (r: Self)
        ensures
            r == (ScratchAllocator {
                i32_slots: Region { base: regions.i32_slots.0, used: 0, count: regions.i32_slots.1 },
                i64_slots: Region { base: regions.i64_slots.0, used: 0, count: regions.i64_slots.1 },
                f32_slots: Region { base: regions.f32_slots.0, used: 0, count: regions.f32_slots.1 },
                f64_slots: Region { base: regions.f64_slots.0, used: 0, count: regions.f64_slots.1 },
            }),
    {
        let (i32_base, i32_count) = regions.i32_slots;
        let (i64_base, i64_count) = regions.i64_slots;
        let (f32_base, f32_count) = regions.f32_slots;
        let (f64_base, f64_count) = regions.f64_slots;
        ScratchAllocator {
            i32_slots: Region { base: i32_base, used: 0, count: i32_count },
            i64_slots: Region { base: i64_base, used: 0, count: i64_count },
            f32_slots: Region { base: f32_base, used: 0, count: f32_count },
            f64_slots: Region { base: f64_base, used: 0, count: f64_count },
        }
    }

    /// Hand out the next slot of type `ty`.
    pub fn allocate(&mut self, ty: ValType) -> (r: Result<u32, LowerError>)
        ensures
            match r {
                Ok(slot) => old(self).taken(ty) == Ok::<(u32, ScratchAllocator), LowerError>(
                    (slot, *final(self)),
                ),
                Err(e) => *final(self) == *old(self) && old(self).taken(ty) == Err::<
                    (u32, ScratchAllocator),
                    LowerError,
                >(e),
            },
    {
        let region: Region = match ty {
            ValType::I32 => self.i32_slots,
            ValType::I64 => self.i64_slots,
            ValType::F32 => self.f32_slots,
            ValType::F64 => self.f64_slots,
        };
        if region.used >= region.count {
            let asked: u32 = if region.used == 0xffff_ffff {
                0xffff_ffff
            } else {
                region.used + 1
            };
            return Err(
                not_yet(Missing::ScratchUnderCounted { ty, reserved: region.count, asked }),
            );
        }
        let slot: u32 = match region.base.checked_add(region.used) {
            Some(s) => s,
            None => return Err(not_yet(Missing::ScratchIndex(ty))),
        };
        let next = Region { base: region.base, used: region.used + 1, count: region.count };
        match ty {
            ValType::I32 => {
                self.i32_slots = next;
            },
            ValType::I64 => {
                self.i64_slots = next;
            },
            ValType::F32 => {
                self.f32_slots = next;
            },
            ValType::F64 => {
                self.f64_slots = next;
            },
        }
        Ok(slot)
    }
}

/// Two slots handed out one after the other never coincide, whatever their
/// types, as long as the regions do not overlap.
pub proof fn law_scratch_slots_are_distinct(a: ScratchAllocator, first: ValType, second: ValType)
    requires
        a.taken(first) is Ok,
        (a.taken(first)->Ok_0).1.taken(second) is Ok,
        first != second ==> (a.region(first).base + a.region(first).count <= a.region(second).base
            || a.region(second).base + a.region(second).count <= a.region(first).base),
    ensures
        (a.taken(first)->Ok_0).0 != ((a.taken(first)->Ok_0).1.taken(second)->Ok_0).0,
{
}

/// Instructions written so far, and the scratch locals still available.
#[derive(Debug, PartialEq, Eq)]
pub struct InstructionSink {
    pub code: Vec<Instr>,
    /// Absent when the surrounding function reserved no scratch locals.
    pub scratch: Option<ScratchAllocator>,
}

/// The content of an [`InstructionSink`].
#[verifier::ext_equal]
pub struct SinkView {
    pub code: Seq<Instr>,
    pub scratch: Option<ScratchAllocator>,
}

/// What a lowering leaves behind: the sink it wrote to, and its error.
#[verifier::ext_equal]
pub struct Out {
    pub sink: SinkView,
    pub err: Option<LowerError>,
}

impl SinkView {
    /// One more instruction.
    pub open spec fn emit(self, i: Instr) -> SinkView {
        SinkView { code: self.code.push(i), ..self }
    }

    /// Success with this sink.
    pub open spec fn done(self) -> Out {
        Out { sink: self, err: None }
    }

    /// Failure with this sink.
    pub open spec fn fail(self, e: LowerError) -> Out {
        Out { sink: self, err: Some(e) }
    }

    /// The next scratch local of type `ty`.
    pub open spec fn scratch_local(self, ty: ValType) -> Result<(u32, SinkView), LowerError> {
        match self.scratch {
            None => Err(LowerError::MissingContext { what: ContextField::ScratchLocals }),
            Some(a) => match a.taken(ty) {
                Err(e) => Err(e),
                Ok((slot, rest)) => Ok((slot, SinkView { scratch: Some(rest), ..self })),
            },
        }
    }
}

/// A lowering's result and the sink after it are what `out` says.
pub open spec fn wrote(r: Result<(), LowerError>, after: SinkView, out: Out) -> bool {
    &&& after == out.sink
    &&& match r {
        Ok(_) => out.err is None,
        Err(e) => out.err == Some(e),
    }
}

/// A helper returned `slot` and the sink, or failed and left the sink alone.
pub open spec fn slot_wrote(
    r: Result<u32, LowerError>,
    before: SinkView,
    after: SinkView,
    out: Result<(u32, SinkView), LowerError>,
) -> bool {
    match r {
        Ok(slot) => out == Ok::<(u32, SinkView), LowerError>((slot, after)),
        Err(e) => after == before && out == Err::<(u32, SinkView), LowerError>(e),
    }
}

impl View for InstructionSink {
    type V = SinkView;

    open spec fn view(&self) -> SinkView {
        SinkView { code: self.code@, scratch: self.scratch }
    }
}

impl InstructionSink {
    /// An empty sink with the given scratch locals.
    pub fn new(scratch: Option<ScratchAllocator>) -> (r: Self)
        ensures
            r@ == (SinkView { code: Seq::empty(), scratch }),
    {
        InstructionSink { code: Vec::new(), scratch }
    }

    /// Attach the scratch locals that the surrounding function reserved.
    pub fn with_scratch_locals(self, allocator: ScratchAllocator) -> (r: Self)
        ensures
            r@ == (SinkView { code: self@.code, scratch: Some(allocator) }),
    {
        InstructionSink { code: self.code, scratch: Some(allocator) }
    }

    /// Append an instruction.
    pub fn emit(&mut self, i: Instr)
        ensures
            final(self)@ == old(self)@.emit(i),
    {
        self.code.push(i);
    }

    /// Hand out the next scratch local of type `ty`.
    pub fn next_scratch_local(&mut self, ty: ValType) -> (r: Result<u32, LowerError>)
        ensures
            slot_wrote(r, old(self)@, final(self)@, old(self)@.scratch_local(ty)),
    {
        match self.scratch {
            None => Err(LowerError::MissingContext { what: ContextField::ScratchLocals }),
            Some(a) => {
                let mut allocator: ScratchAllocator = a;
                let r = allocator.allocate(ty);
                self.scratch = Some(allocator);
                r
            },
        }
    }
}

/// Read-only context of the lowering walkers. `bindings` and `functions`
/// are always there; a lowering that needs another field and does not find
/// it reports [`LowerError::MissingContext`].
#[derive(Clone, Copy, Debug)]
pub struct LowerContext<'a> {
    /// Function-local bindings.
    pub bindings: &'a BindingMap,
    /// Module-scope functions.
    pub functions: &'a FunctionMap,
    /// Methods by impl block and position.
    pub methods: Option<&'a MethodMap>,
    /// The module being lowered.
    pub module: Option<&'a IrModule>,
    /// Wasm index of the allocation helper.
    pub bump_allocator: Option<u32>,
    /// The struct whose method is being lowered.
    pub self_struct_id: Option<StructId>,
    /// Table of closure functions.
    pub closure_table: Option<u32>,
    /// Table slot of each closure function.
    pub closure_funcref_indices: Option<&'a FunctionMap>,
    /// Call signature of each closure type.
    pub closure_type_indices: Option<&'a ClosureTypes>,
    /// Table of trait methods.
    pub method_table: Option<u32>,
    /// Call signature of each trait method.
    pub virtual_call_types: Option<&'a VirtualCallTypes>,
    /// Method table of each trait implementation.
    pub vtable_offsets: Option<&'a VtableOffsets>,
    /// Header offsets of the interned texts.
    pub string_pool: Option<&'a TextOffsets>,
    /// Wasm index of the string-equality helper.
    pub str_eq: Option<u32>,
    /// Wasm index of the string-concatenation helper.
    pub str_concat: Option<u32>,
}

/// Shorthand for a missing context field.
pub open spec fn lacks<T>(what: ContextField) -> Result<T, LowerError> {
    Err(LowerError::MissingContext { what })
}

/// What the lowering walkers know of their surroundings.
pub struct Cx {
    pub bindings: Map<u32, u32>,
    pub functions: Map<u32, u32>,
    pub methods: Option<Map<u64, u32>>,
    pub module: Option<IrModule>,
    pub bump_allocator: Option<u32>,
    pub self_struct_id: Option<StructId>,
    pub closure_table: Option<u32>,
    pub closure_funcref_indices: Option<Map<u32, u32>>,
    pub closure_type_indices: Option<Seq<(ResolvedType, u32)>>,
    pub method_table: Option<u32>,
    pub virtual_call_types: Option<Map<u64, u32>>,
    pub vtable_offsets: Option<Seq<(TraitId, (u32, u32), u32)>>,
    pub string_pool: Option<Seq<(Seq<char>, u32)>>,
    pub str_eq: Option<u32>,
    pub str_concat: Option<u32>,
}

/// The view of an optional part.
pub open spec fn part<T: View>(x: Option<&T>) -> Option<T::V> {
    match x {
        Some(t) => Some(t@),
        None => None,
    }
}

impl<'a> View for LowerContext<'a> {
    type V = Cx;

    open spec fn view(&self) -> Cx {
        Cx {
            bindings: self.bindings@,
            functions: self.functions@,
            methods: part(self.methods),
            module: match self.module {
                Some(m) => Some(*m),
                None => None,
            },
            bump_allocator: self.bump_allocator,
            self_struct_id: self.self_struct_id,
            closure_table: self.closure_table,
            closure_funcref_indices: part(self.closure_funcref_indices),
            closure_type_indices: part(self.closure_type_indices),
            method_table: self.method_table,
            virtual_call_types: part(self.virtual_call_types),
            vtable_offsets: part(self.vtable_offsets),
            string_pool: part(self.string_pool),
            str_eq: self.str_eq,
            str_concat: self.str_concat,
        }
    }
}

/// The surroundings of a walker that has only its two maps.
pub open spec fn bare(bindings: Map<u32, u32>, functions: Map<u32, u32>) -> Cx {
    Cx {
        bindings,
        functions,
        methods: None,
        module: None,
        bump_allocator: None,
        self_struct_id: None,
        closure_table: None,
        closure_funcref_indices: None,
        closure_type_indices: None,
        method_table: None,
        virtual_call_types: None,
        vtable_offsets: None,
        string_pool: None,
        str_eq: None,
        str_concat: None,
    }
}

impl Cx {
    /// The module, or the error for its absence.
    pub open spec fn spec_module(self) -> Result<IrModule, LowerError> {
        match self.module {
            Some(m) => Ok(m),
            None => lacks(ContextField::Module),
        }
    }

    /// The allocation helper, or the error for its absence.
    pub open spec fn spec_bump_allocator(self) -> Result<u32, LowerError> {
        match self.bump_allocator {
            Some(i) => Ok(i),
            None => lacks(ContextField::BumpAllocator),
        }
    }

    /// The local of a binding, or the error for its absence.
    pub open spec fn local_of(self, id: BindingId) -> Result<u32, LowerError> {
        match crate::lower::maps::lookup(self.bindings, id.0) {
            Some(i) => Ok(i),
            None => Err(LowerError::UnknownBinding(id)),
        }
    }

    /// The closure table, or the error for its absence.
    pub open spec fn spec_closure_table(self) -> Result<u32, LowerError> {
        match self.closure_table {
            Some(i) => Ok(i),
            None => lacks(ContextField::ClosureTable),
        }
    }

    /// A closure type's signature, or the error for its absence.
    pub open spec fn spec_closure_type(self, ty: ResolvedType) -> Result<u32, LowerError> {
        match self.closure_type_indices {
            None => lacks(ContextField::ClosureTypeIndices),
            Some(m) => match crate::lower::maps::closure_index(m, ty, 0) {
                Some(i) => Ok(i),
                None => Err(crate::lower::error::missing(Missing::ClosureSignature(ty))),
            },
        }
    }

    /// A closure function's table slot, or the error for its absence.
    pub open spec fn spec_closure_funcref(self, id: FunctionId) -> Result<u32, LowerError> {
        match self.closure_funcref_indices {
            None => lacks(ContextField::ClosureFuncrefIndices),
            Some(m) => match crate::lower::maps::lookup(m, id.0) {
                Some(i) => Ok(i),
                None => Err(LowerError::UnknownFunction(id)),
            },
        }
    }

    /// The method table, or the error for its absence.
    pub open spec fn spec_method_table(self) -> Result<u32, LowerError> {
        match self.method_table {
            Some(i) => Ok(i),
            None => lacks(ContextField::MethodTable),
        }
    }

    /// A trait method's signature, or the error for its absence.
    pub open spec fn spec_virtual_call_type(self, t: TraitId, m: MethodIdx) -> Result<
        u32,
        LowerError,
    > {
        match self.virtual_call_types {
            None => lacks(ContextField::VirtualCallTypes),
            Some(map) => match crate::lower::maps::lookup(
                map,
                crate::lower::maps::pair_key(t.0, m.0),
            ) {
                Some(i) => Ok(i),
                None => Err(crate::lower::error::missing(Missing::VirtualSignature(t, m))),
            },
        }
    }

    /// A trait implementation's method table, or the error for its absence.
    pub open spec fn spec_vtable_offset(self, t: TraitId, target: (u32, u32)) -> Result<
        u32,
        LowerError,
    > {
        match self.vtable_offsets {
            None => lacks(ContextField::VtableOffsets),
            Some(map) => match crate::lower::maps::vtable_at(map, t, target) {
                Some(i) => Ok(i),
                None => Err(crate::lower::error::missing(Missing::Vtable(t, target))),
            },
        }
    }

    /// The string-equality helper, or the error for its absence.
    pub open spec fn spec_str_eq(self) -> Result<u32, LowerError> {
        match self.str_eq {
            Some(i) => Ok(i),
            None => lacks(ContextField::StrEq),
        }
    }

    /// The string-concatenation helper, or the error for its absence.
    pub open spec fn spec_str_concat(self) -> Result<u32, LowerError> {
        match self.str_concat {
            Some(i) => Ok(i),
            None => lacks(ContextField::StrConcat),
        }
    }
}

impl<'a> LowerContext<'a> {
    /// A context with the two maps every walker needs.
    pub fn new(bindings: &'a BindingMap, functions: &'a FunctionMap) -> (r: Self)
        ensures
            r@ == bare(bindings@, functions@),
    {
        LowerContext {
            bindings,
            functions,
            methods: None,
            module: None,
            bump_allocator: None,
            self_struct_id: None,
            closure_table: None,
            closure_funcref_indices: None,
            closure_type_indices: None,
            method_table: None,
            virtual_call_types: None,
            vtable_offsets: None,
            string_pool: None,
            str_eq: None,
            str_concat: None,
        }
    }

    /// Attach the method map.
    pub fn with_methods(self, methods: &'a MethodMap) -> (r: Self)
        ensures
            r@ == (Cx { methods: Some(methods@), ..self@ }),
    {
        LowerContext { methods: Some(methods), ..self }
    }

    /// Attach the module.
    pub fn with_module(self, module: &'a IrModule) -> (r: Self)
        ensures
            r@ == (Cx { module: Some(*module), ..self@ }),
    {
        LowerContext { module: Some(module), ..self }
    }

    /// Attach the allocation helper.
    pub fn with_bump_allocator(self, idx: u32) -> (r: Self)
        ensures
            r@ == (Cx { bump_allocator: Some(idx), ..self@ }),
    {
        LowerContext { bump_allocator: Some(idx), ..self }
    }

    /// Attach the struct whose method is being lowered.
    pub fn with_self_struct_id(self, id: StructId) -> (r: Self)
        ensures
            r@ == (Cx { self_struct_id: Some(id), ..self@ }),
    {
        LowerContext { self_struct_id: Some(id), ..self }
    }

    /// Attach the closure table.
    pub fn with_closure_table(self, idx: u32) -> (r: Self)
        ensures
            r@ == (Cx { closure_table: Some(idx), ..self@ }),
    {
        LowerContext { closure_table: Some(idx), ..self }
    }

    /// Attach the table slots of the closure functions.
    pub fn with_closure_funcref_indices(self, indices: &'a FunctionMap) -> (r: Self)
        ensures
            r@ == (Cx { closure_funcref_indices: Some(indices@), ..self@ }),
    {
        LowerContext { closure_funcref_indices: Some(indices), ..self }
    }

    /// Attach the call signatures of the closure types.
    pub fn with_closure_type_indices(self, indices: &'a ClosureTypes) -> (r: Self)
        ensures
            r@ == (Cx { closure_type_indices: Some(indices@), ..self@ }),
    {
        LowerContext { closure_type_indices: Some(indices), ..self }
    }

    /// Attach the virtual-dispatch tables.
    pub fn with_virtual_dispatch(
        self,
        table_idx: u32,
        call_types: &'a VirtualCallTypes,
        vtables: &'a VtableOffsets,
    ) -> (r: Self)
        ensures
            r@ == (Cx {
                method_table: Some(table_idx),
                virtual_call_types: Some(call_types@),
                vtable_offsets: Some(vtables@),
                ..self@
            }),
    {
        LowerContext {
            method_table: Some(table_idx),
            virtual_call_types: Some(call_types),
            vtable_offsets: Some(vtables),
            ..self
        }
    }

    /// Attach the interned texts and the string helpers.
    pub fn with_strings(self, pool: &'a TextOffsets, str_eq: u32, str_concat: u32) -> (r: Self)
        ensures
            r@ == (Cx {
                string_pool: Some(pool@),
                str_eq: Some(str_eq),
                str_concat: Some(str_concat),
                ..self@
            }),
    {
        LowerContext {
            string_pool: Some(pool),
            str_eq: Some(str_eq),
            str_concat: Some(str_concat),
            ..self
        }
    }

    /// The module or [`LowerError::MissingContext`].
    pub fn module(&self) -> (r: Result<&'a IrModule, LowerError>)
        ensures
            match r {
                Ok(m) => self@.spec_module() == Ok::<IrModule, LowerError>(*m),
                Err(e) => self@.spec_module() == Err::<IrModule, LowerError>(e),
            },
    {
        match self.module {
            Some(m) => Ok(m),
            None => Err(LowerError::MissingContext { what: ContextField::Module }),
        }
    }

    /// The allocation helper or [`LowerError::MissingContext`].
    pub fn bump_allocator(&self) -> (r: Result<u32, LowerError>)
        ensures
            r == self@.spec_bump_allocator(),
    {
        match self.bump_allocator {
            Some(i) => Ok(i),
            None => Err(LowerError::MissingContext { what: ContextField::BumpAllocator }),
        }
    }

    /// The local of a binding or [`LowerError::UnknownBinding`].
    pub fn binding_local(&self, id: BindingId) -> (r: Result<u32, LowerError>)
        ensures
            r == self@.local_of(id),
    {
        match self.bindings.get(id) {
            Some(i) => Ok(i),
            None => Err(LowerError::UnknownBinding(id)),
        }
    }

    /// The closure table or [`LowerError::MissingContext`].
    pub fn closure_table_index(&self) -> (r: Result<u32, LowerError>)
        ensures
            r == self@.spec_closure_table(),
    {
        match self.closure_table {
            Some(i) => Ok(i),
            None => Err(LowerError::MissingContext { what: ContextField::ClosureTable }),
        }
    }

    /// The call signature of a closure type.
    pub fn closure_type_index(&self, ty: &ResolvedType) -> (r: Result<u32, LowerError>)
        ensures
            r == self@.spec_closure_type(*ty),
    {
        match self.closure_type_indices {
            None => Err(LowerError::MissingContext { what: ContextField::ClosureTypeIndices }),
            Some(m) => match m.get(ty) {
                Some(i) => Ok(i),
                None => Err(not_yet(Missing::ClosureSignature(ty.clone()))),
            },
        }
    }

    /// The table slot of a closure function.
    pub fn closure_funcref_index(&self, id: FunctionId) -> (r: Result<u32, LowerError>)
        ensures
            r == self@.spec_closure_funcref(id),
    {
        match self.closure_funcref_indices {
            None => Err(LowerError::MissingContext { what: ContextField::ClosureFuncrefIndices }),
            Some(m) => match m.get(id) {
                Some(i) => Ok(i),
                None => Err(LowerError::UnknownFunction(id)),
            },
        }
    }

    /// The method table or [`LowerError::MissingContext`].
    pub fn method_table_index(&self) -> (r: Result<u32, LowerError>)
        ensures
            r == self@.spec_method_table(),
    {
        match self.method_table {
            Some(i) => Ok(i),
            None => Err(LowerError::MissingContext { what: ContextField::MethodTable }),
        }
    }

    /// The call signature of a trait method.
    pub fn virtual_call_type_index(&self, trait_id: TraitId, method: MethodIdx) -> (r: Result<
        u32,
        LowerError,
    >)
        ensures
            r == self@.spec_virtual_call_type(trait_id, method),
    {
        match self.virtual_call_types {
            None => Err(LowerError::MissingContext { what: ContextField::VirtualCallTypes }),
            Some(map) => match map.get(trait_id, method) {
                Some(i) => Ok(i),
                None => Err(not_yet(Missing::VirtualSignature(trait_id, method))),
            },
        }
    }

    /// The method table of a trait implementation.
    pub fn vtable_offset(&self, trait_id: TraitId, target: (u32, u32)) -> (r: Result<
        u32,
        LowerError,
    >)
        ensures
            r == self@.spec_vtable_offset(trait_id, target),
    {
        match self.vtable_offsets {
            None => Err(LowerError::MissingContext { what: ContextField::VtableOffsets }),
            Some(map) => match map.get(trait_id, target) {
                Some(i) => Ok(i),
                None => Err(not_yet(Missing::Vtable(trait_id, target))),
            },
        }
    }

    /// The string-equality helper or [`LowerError::MissingContext`].
    pub fn str_eq_index(&self) -> (r: Result<u32, LowerError>)
        ensures
            r == self@.spec_str_eq(),
    {
        match self.str_eq {
            Some(i) => Ok(i),
            None => Err(LowerError::MissingContext { what: ContextField::StrEq }),
        }
    }

    /// The string-concatenation helper or [`LowerError::MissingContext`].
    pub fn str_concat_index(&self) -> (r: Result<u32, LowerError>)
        ensures
            r == self@.spec_str_concat(),
    {
        match self.str_concat {
            Some(i) => Ok(i),
            None => Err(LowerError::MissingContext { what: ContextField::StrConcat }),
        }
    }
}

} // verus!
