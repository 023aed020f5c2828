//! Lowering of aggregate constructors and field access.
//!
//! A constructor reserves the aggregate's bytes through the allocation
//! helper, parks the base pointer in a scratch local, stores each field at
//! its offset and leaves the base pointer as its value.

use vstd::prelude::*;

use crate::instr::{Instr, IntOp, LoadOp, MemArg, StoreOp, ValType};
use crate::ir::{
    FieldIdx, FunctionId, IrEnum, IrExpr, IrField, IrFunction, IrModule, IrStruct, PrimitiveType,
    ResolvedType,
};
use crate::layout::{
    plan_array, plan_enum, plan_fields, plan_range, plan_struct, tuple_struct_fields, ArrayLayout,
    EnumPlan, FieldLayout, LayoutError, LayoutOwner, RangeLayout, StructLayout, StructPlan,
    ARRAY_HEADER_ALIGN, ARRAY_HEADER_CAP_OFFSET, ARRAY_HEADER_LEN_OFFSET, ARRAY_HEADER_PTR_OFFSET,
    ENUM_TAG_ALIGN,
};
use crate::lower::context::{Cx, InstructionSink, LowerContext, Out, SinkView};
use crate::lower::error::{not_yet, ExprKind, FieldOwner, LowerError, Missing};
use crate::lower::lower_expr;
use crate::module::MEMORY_INDEX;
use crate::types::{CLOSURE_ENV_OFFSET, CLOSURE_FUNCREF_OFFSET, CLOSURE_VALUE_SIZE};

verus! {

// ── memory immediates and primitive accesses ─────────────────────────

/// Base-two logarithm of an alignment of 1, 2, 4 or 8 bytes; 0 otherwise.
pub open spec fn log2_align(align: u32) -> u32 {
    if align == 2 {
        1
    } else if align == 4 {
        2
    } else if align == 8 {
        3
    } else {
        0
    }
}

/// The immediate of an access at `offset` with the given alignment.
pub open spec fn mem_arg_at(offset: u32, align: u32) -> MemArg {
    MemArg { offset: offset as u64, align: log2_align(align), memory_index: MEMORY_INDEX }
}

/// The immediate of an access to a field.
pub open spec fn field_arg(f: FieldLayout) -> MemArg {
    mem_arg_at(f.offset, f.align)
}

/// The store of a primitive field. Booleans take one byte.
pub open spec fn primitive_store(p: PrimitiveType, f: FieldLayout) -> Instr {
    match p {
        PrimitiveType::Boolean => Instr::Store(StoreOp::I32Byte, field_arg(f)),
        PrimitiveType::I32 => Instr::Store(StoreOp::I32, field_arg(f)),
        PrimitiveType::I64 => Instr::Store(StoreOp::I64, field_arg(f)),
        PrimitiveType::F32 => Instr::Store(StoreOp::F32, field_arg(f)),
        PrimitiveType::F64 => Instr::Store(StoreOp::F64, field_arg(f)),
        _ => Instr::Unreachable,
    }
}

/// The load of a primitive field.
pub open spec fn primitive_load(p: PrimitiveType, f: FieldLayout) -> Instr {
    match p {
        PrimitiveType::Boolean => Instr::Load(LoadOp::I32Byte, field_arg(f)),
        PrimitiveType::I32 => Instr::Load(LoadOp::I32, field_arg(f)),
        PrimitiveType::I64 => Instr::Load(LoadOp::I64, field_arg(f)),
        PrimitiveType::F32 => Instr::Load(LoadOp::F32, field_arg(f)),
        PrimitiveType::F64 => Instr::Load(LoadOp::F64, field_arg(f)),
        _ => Instr::Unreachable,
    }
}

/// The primitive a field type is.
pub open spec fn as_primitive(ty: ResolvedType) -> Result<PrimitiveType, LowerError> {
    match ty {
        ResolvedType::Primitive(p) => Ok(p),
        _ => Err(LowerError::FieldAccessOnNonAggregate { ty }),
    }
}

/// `x` as a signed constant, if it fits.
pub open spec fn signed(x: u32) -> Option<i32> {
    if x <= i32::MAX {
        Some(x as i32)
    } else {
        None
    }
}

/// The code of an allocation, and the local its pointer is parked in.
pub open spec fn allocation(size: u32, cx: Cx, s: SinkView) -> Result<
    (u32, SinkView),
    LowerError,
> {
    match cx.spec_bump_allocator() {
        Err(x) => Err(x),
        Ok(alloc) => match signed(size) {
            None => Err(
                LowerError::Layout(LayoutError::SizeOverflow { name: LayoutOwner::Aggregate }),
            ),
            Some(n) => match s.scratch_local(ValType::I32) {
                Err(x) => Err(x),
                Ok((base, s1)) => Ok(
                    (
                        base,
                        s1.emit(Instr::I32Const(n)).emit(Instr::Call(alloc)).emit(
                            Instr::LocalSet(base),
                        ),
                    ),
                ),
            },
        },
    }
}

/// Base-two logarithm of an alignment.
fn align_to_log2(align: u32) -> (r: u32)
    ensures
        r == log2_align(align),
{
    match align {
        2 => 1,
        4 => 2,
        8 => 3,
        _ => 0,
    }
}

/// The immediate of an access at `offset`.
pub fn mem_arg(offset: u32, align: u32) -> (r: MemArg)
    ensures
        r == mem_arg_at(offset, align),
{
    MemArg { offset: offset as u64, align: align_to_log2(align), memory_index: MEMORY_INDEX }
}

/// The immediate of an access to a field.
pub fn field_mem_arg(f: FieldLayout) -> (r: MemArg)
    ensures
        r == field_arg(f),
{
    mem_arg(f.offset, f.align)
}

/// Write the store of a primitive field.
pub fn store_primitive(p: PrimitiveType, f: FieldLayout, sink: &mut InstructionSink)
    ensures
        final(sink)@ == old(sink)@.emit(primitive_store(p, f)),
{
    let arg = field_mem_arg(f);
    match p {
        PrimitiveType::Boolean => sink.emit(Instr::Store(StoreOp::I32Byte, arg)),
        PrimitiveType::I32 => sink.emit(Instr::Store(StoreOp::I32, arg)),
        PrimitiveType::I64 => sink.emit(Instr::Store(StoreOp::I64, arg)),
        PrimitiveType::F32 => sink.emit(Instr::Store(StoreOp::F32, arg)),
        PrimitiveType::F64 => sink.emit(Instr::Store(StoreOp::F64, arg)),
        _ => sink.emit(Instr::Unreachable),
    }
}

/// Write the load of a primitive field.
pub fn load_primitive(p: PrimitiveType, f: FieldLayout, sink: &mut InstructionSink)
    ensures
        final(sink)@ == old(sink)@.emit(primitive_load(p, f)),
{
    let arg = field_mem_arg(f);
    match p {
        PrimitiveType::Boolean => sink.emit(Instr::Load(LoadOp::I32Byte, arg)),
        PrimitiveType::I32 => sink.emit(Instr::Load(LoadOp::I32, arg)),
        PrimitiveType::I64 => sink.emit(Instr::Load(LoadOp::I64, arg)),
        PrimitiveType::F32 => sink.emit(Instr::Load(LoadOp::F32, arg)),
        PrimitiveType::F64 => sink.emit(Instr::Load(LoadOp::F64, arg)),
        _ => sink.emit(Instr::Unreachable),
    }
}

/// The primitive a field type is.
pub fn primitive_of(ty: &ResolvedType) -> (r: Result<PrimitiveType, LowerError>)
    ensures
        r == as_primitive(*ty),
{
    match ty {
        ResolvedType::Primitive(p) => Ok(*p),
        _ => Err(LowerError::FieldAccessOnNonAggregate { ty: ty.clone() }),
    }
}

/// `x` as a signed constant, if it fits.
pub fn to_signed(x: u32) -> (r: Option<i32>)
    ensures
        r == signed(x),
{
    if x <= 0x7fff_ffff {
        Some(x as i32)
    } else {
        None
    }
}

/// Reserve `size` bytes and park the pointer in a fresh scratch local.
pub fn allocate_aggregate(size: u32, sink: &mut InstructionSink, ctx: &LowerContext<'_>) -> (r:
    Result<u32, LowerError>)
    ensures
        crate::lower::context::slot_wrote(
            r,
            old(sink)@,
            final(sink)@,
            allocation(size, ctx@, old(sink)@),
        ),
{
    let alloc: u32 = ctx.bump_allocator()?;
    let n: i32 = match to_signed(size) {
        Some(n) => n,
        None => {
            return Err(
                LowerError::Layout(LayoutError::SizeOverflow { name: LayoutOwner::Aggregate }),
            );
        },
    };
    let base: u32 = sink.next_scratch_local(ValType::I32)?;
    sink.emit(Instr::I32Const(n));
    sink.emit(Instr::Call(alloc));
    sink.emit(Instr::LocalSet(base));
    Ok(base)
}

// ── field lookup ─────────────────────────────────────────────────────

/// Position of the first field called `name`, at or after `from`.
pub open spec fn field_position(fields: Seq<IrField>, name: Seq<char>, from: int) -> Option<int>
    decreases fields.len() - from,
{
    if from < 0 || from >= fields.len() {
        None
    } else if fields[from].name@ == name {
        Some(from)
    } else {
        field_position(fields, name, from + 1)
    }
}

/// A field's place and declared type, found by name.
pub open spec fn named_field(
    fields: Seq<IrField>,
    places: Seq<FieldLayout>,
    name: Seq<char>,
    owner: FieldOwner,
) -> Result<(FieldLayout, ResolvedType), LowerError> {
    match field_position(fields, name, 0) {
        Some(i) => if i < places.len() {
            Ok((places[i], fields[i].ty))
        } else {
            Err(
                LowerError::FieldIndexOutOfRange {
                    struct_name: owner,
                    field_count: fields.len() as usize,
                    field_idx: crate::survey::index_u32(i),
                },
            )
        },
        None => Err(
            LowerError::FieldIndexOutOfRange {
                struct_name: owner,
                field_count: fields.len() as usize,
                field_idx: u32::MAX,
            },
        ),
    }
}

/// A field found by position, or by name where the position is out of
/// range.
pub open spec fn resolved_field(
    fields: Seq<IrField>,
    places: Seq<FieldLayout>,
    idx: FieldIdx,
    name: Seq<char>,
    owner: FieldOwner,
) -> Result<(FieldLayout, ResolvedType), LowerError> {
    if idx.0 < places.len() && idx.0 < fields.len() {
        Ok((places[idx.0 as int], fields[idx.0 as int].ty))
    } else {
        named_field(fields, places, name, owner)
    }
}

/// `r` borrows the field that `s` finds.
pub open spec fn found_field(
    r: Result<(FieldLayout, &ResolvedType), LowerError>,
    s: Result<(FieldLayout, ResolvedType), LowerError>,
) -> bool {
    match r {
        Ok((place, ty)) => s == Ok::<(FieldLayout, ResolvedType), LowerError>((place, *ty)),
        Err(e) => s == Err::<(FieldLayout, ResolvedType), LowerError>(e),
    }
}

/// Find a field by name.
pub fn lookup_field_by_name<'a>(
    fields: &'a Vec<IrField>,
    places: &Vec<FieldLayout>,
    name: &String,
    owner: &FieldOwner,
) -> (r: Result<(FieldLayout, &'a ResolvedType), LowerError>)
    ensures
        found_field(r, named_field(fields@, places@, name@, *owner)),
{
    let mut i: usize = 0;
    while i < fields.len()
        invariant
            i <= fields@.len(),
            field_position(fields@, name@, 0) == field_position(fields@, name@, i as int),
        decreases fields@.len() - i,
    {
        if fields[i].name == *name {
            if i < places.len() {
                return Ok((places[i], &fields[i].ty));
            }
            return Err(
                LowerError::FieldIndexOutOfRange {
                    struct_name: owner.clone(),
                    field_count: fields.len(),
                    field_idx: if i > 0xffff_ffff {
                        0xffff_ffff
                    } else {
                        i as u32
                    },
                },
            );
        }
        i = i + 1;
    }
    Err(
        LowerError::FieldIndexOutOfRange {
            struct_name: owner.clone(),
            field_count: fields.len(),
            field_idx: 0xffff_ffff,
        },
    )
}

/// Find a field by position, falling back to its name.
pub fn resolve_field<'a>(
    fields: &'a Vec<IrField>,
    places: &Vec<FieldLayout>,
    idx: FieldIdx,
    name: &String,
    owner: &FieldOwner,
) -> (r: Result<(FieldLayout, &'a ResolvedType), LowerError>)
    ensures
        found_field(r, resolved_field(fields@, places@, idx, name@, *owner)),
{
    let i: usize = idx.0 as usize;
    if i < places.len() && i < fields.len() {
        Ok((places[i], &fields[i].ty))
    } else {
        lookup_field_by_name(fields, places, name, owner)
    }
}

// ── layouts of struct-like types ─────────────────────────────────────

/// The fields and the plan of a struct or tuple type.
pub open spec fn aggregate_plan(ty: ResolvedType, m: IrModule) -> Result<
    (Seq<IrField>, StructPlan),
    LowerError,
> {
    match ty {
        ResolvedType::Struct(id) => match m.spec_struct(id) {
            None => Err(LowerError::UnknownStruct(id)),
            Some(d) => match crate::layout::struct_plan(d) {
                Err(x) => Err(LowerError::Layout(x)),
                Ok(p) => Ok((d.fields@, p)),
            },
        },
        ResolvedType::Tuple(_) => tuple_plan(ty),
        _ => Err(LowerError::FieldAccessOnNonAggregate { ty }),
    }
}

/// The fields and the plan of a tuple type.
pub open spec fn tuple_plan(ty: ResolvedType) -> Result<(Seq<IrField>, StructPlan), LowerError> {
    match ty {
        ResolvedType::Tuple(fields) => match crate::layout::fields_plan(
            LayoutOwner::Tuple,
            crate::layout::tuple_fields(fields),
        ) {
            Err(x) => Err(LowerError::Layout(x)),
            Ok(p) => Ok((crate::layout::tuple_fields(fields), p)),
        },
        _ => Err(LowerError::FieldAccessOnNonAggregate { ty }),
    }
}

/// The plan of a struct stored in the module.
pub open spec fn struct_plan_of(id: crate::ir::StructId, m: IrModule) -> Result<
    (IrStruct, StructPlan),
    LowerError,
> {
    match m.spec_struct(id) {
        None => Err(LowerError::UnknownStruct(id)),
        Some(d) => match crate::layout::struct_plan(d) {
            Err(x) => Err(LowerError::Layout(x)),
            Ok(p) => Ok((d, p)),
        },
    }
}

/// Build a tuple's fields and plan its layout.
pub fn layout_for_tuple(ty: &ResolvedType) -> (r: Result<(Vec<IrField>, StructLayout), LowerError>)
    ensures
        match r {
            Ok((fields, layout)) => tuple_plan(*ty) == Ok::<(Seq<IrField>, StructPlan), LowerError>(
                (fields@, layout@),
            ),
            Err(e) => tuple_plan(*ty) == Err::<(Seq<IrField>, StructPlan), LowerError>(e),
        },
{
    match ty {
        ResolvedType::Tuple(list) => {
            let fields = tuple_struct_fields(list);
            match plan_fields(&LayoutOwner::Tuple, &fields) {
                Ok(layout) => Ok((fields, layout)),
                Err(x) => Err(LowerError::Layout(x)),
            }
        },
        _ => Err(LowerError::FieldAccessOnNonAggregate { ty: ty.clone() }),
    }
}

/// A struct of the module and its layout.
pub fn layout_for_struct<'a>(id: crate::ir::StructId, module: &'a IrModule) -> (r: Result<
    (&'a IrStruct, StructLayout),
    LowerError,
>)
    ensures
        match r {
            Ok((d, layout)) => struct_plan_of(id, *module) == Ok::<
                (IrStruct, StructPlan),
                LowerError,
            >((*d, layout@)),
            Err(e) => struct_plan_of(id, *module) == Err::<(IrStruct, StructPlan), LowerError>(e),
        },
{
    match module.get_struct(id) {
        None => Err(LowerError::UnknownStruct(id)),
        Some(d) => match plan_struct(d, module) {
            Ok(layout) => Ok((d, layout)),
            Err(x) => Err(LowerError::Layout(x)),
        },
    }
}

/// Find the place and the primitive type of a field of an object.
fn object_field(
    ty: &ResolvedType,
    idx: FieldIdx,
    name: &String,
    owner: &FieldOwner,
    module: &IrModule,
) -> (r: Result<(FieldLayout, PrimitiveType), LowerError>)
    ensures
        r == object_place(*ty, idx, name@, *owner, *module),
{
    match ty {
        ResolvedType::Struct(id) => {
            let (d, layout) = layout_for_struct(*id, module)?;
            let (place, field_ty) = resolve_field(&d.fields, &layout.fields, idx, name, owner)?;
            Ok((place, primitive_of(field_ty)?))
        },
        ResolvedType::Tuple(_) => {
            let (fields, layout) = layout_for_tuple(ty)?;
            let (place, field_ty) = resolve_field(&fields, &layout.fields, idx, name, owner)?;
            Ok((place, primitive_of(field_ty)?))
        },
        _ => Err(LowerError::FieldAccessOnNonAggregate { ty: ty.clone() }),
    }
}

/// The place and the primitive type of a field of an object.
pub open spec fn object_place(
    ty: ResolvedType,
    idx: FieldIdx,
    name: Seq<char>,
    owner: FieldOwner,
    m: IrModule,
) -> Result<(FieldLayout, PrimitiveType), LowerError> {
    match aggregate_plan(ty, m) {
        Err(x) => Err(x),
        Ok((fields, p)) => primitive_place(resolved_field(fields, p.fields, idx, name, owner)),
    }
}

/// A found field, if it is a primitive.
pub open spec fn primitive_place(found: Result<(FieldLayout, ResolvedType), LowerError>) -> Result<
    (FieldLayout, PrimitiveType),
    LowerError,
> {
    match found {
        Err(x) => Err(x),
        Ok((place, ty)) => match as_primitive(ty) {
            Err(x) => Err(x),
            Ok(p) => Ok((place, p)),
        },
    }
}

/// The place and the primitive type of a field of `self`.
pub open spec fn self_place(idx: FieldIdx, name: Seq<char>, cx: Cx) -> Result<
    (FieldLayout, PrimitiveType),
    LowerError,
> {
    match cx.self_struct_id {
        None => Err(LowerError::MissingSelfStruct),
        Some(id) => match cx.spec_module() {
            Err(x) => Err(x),
            Ok(m) => match struct_plan_of(id, m) {
                Err(x) => Err(x),
                Ok((d, p)) => primitive_place(
                    resolved_field(d.fields@, p.fields, idx, name, FieldOwner::Named(d.name)),
                ),
            },
        },
    }
}

/// Find the place and the primitive type of a field of `self`.
pub fn self_field(idx: FieldIdx, name: &String, ctx: &LowerContext<'_>) -> (r: Result<
    (FieldLayout, PrimitiveType),
    LowerError,
>)
    ensures
        r == self_place(idx, name@, ctx@),
{
    let id = match ctx.self_struct_id {
        Some(id) => id,
        None => return Err(LowerError::MissingSelfStruct),
    };
    let module = ctx.module()?;
    let (d, layout) = layout_for_struct(id, module)?;
    let owner = FieldOwner::Named(d.name.clone());
    let (place, ty) = resolve_field(&d.fields, &layout.fields, idx, name, &owner)?;
    Ok((place, primitive_of(ty)?))
}

/// The label under which a failed lookup on an object is reported.
pub open spec fn object_owner(ty: ResolvedType) -> FieldOwner {
    match ty {
        ResolvedType::Tuple(_) => FieldOwner::Tuple,
        _ => FieldOwner::StructObject,
    }
}

/// Find the place of an accessed field.
pub fn accessed_field(
    object: &IrExpr,
    idx: FieldIdx,
    name: &String,
    ctx: &LowerContext<'_>,
) -> (r: Result<(FieldLayout, PrimitiveType), LowerError>)
    ensures
        r == accessed_place(object.spec_ty(), idx, name@, object_owner(object.spec_ty()), ctx@),
{
    let module = ctx.module()?;
    let owner = match object.ty() {
        ResolvedType::Tuple(_) => FieldOwner::Tuple,
        _ => FieldOwner::StructObject,
    };
    object_field(object.ty(), idx, name, &owner, module)
}

/// Find the place of an assigned field.
pub fn assigned_field(
    object: &IrExpr,
    idx: FieldIdx,
    name: &String,
    ctx: &LowerContext<'_>,
) -> (r: Result<(FieldLayout, PrimitiveType), LowerError>)
    ensures
        r == accessed_place(object.spec_ty(), idx, name@, FieldOwner::AssignTarget, ctx@),
{
    let module = ctx.module()?;
    object_field(object.ty(), idx, name, &FieldOwner::AssignTarget, module)
}

/// The place of a field of an object expression.
pub open spec fn accessed_place(
    ty: ResolvedType,
    idx: FieldIdx,
    name: Seq<char>,
    owner: FieldOwner,
    cx: Cx,
) -> Result<(FieldLayout, PrimitiveType), LowerError> {
    match cx.spec_module() {
        Err(x) => Err(x),
        Ok(m) => object_place(ty, idx, name, owner, m),
    }
}

// ── struct, enum and tuple literals ──────────────────────────────────

/// The code of the stores of a struct or variant literal, from field `i` on.
pub open spec fn init_code(
    inits: Seq<(String, FieldIdx, IrExpr)>,
    i: int,
    fields: Seq<IrField>,
    places: Seq<FieldLayout>,
    owner: FieldOwner,
    base: u32,
    cx: Cx,
    s: SinkView,
) -> Out
    decreases inits, inits.len() - i,
{
    if i < 0 || i >= inits.len() {
        s.done()
    } else {
        match primitive_place(named_field(fields, places, inits[i].0@, owner)) {
            Err(x) => s.fail(x),
            Ok((place, p)) => {
                let o = crate::lower::expr_code(inits[i].2, cx, s.emit(Instr::LocalGet(base)));
                if o.err is Some {
                    o
                } else {
                    init_code(
                        inits,
                        i + 1,
                        fields,
                        places,
                        owner,
                        base,
                        cx,
                        o.sink.emit(primitive_store(p, place)),
                    )
                }
            },
        }
    }
}

/// The code of the stores of a tuple literal, from field `i` on.
pub open spec fn tuple_init_code(
    inits: Seq<(String, IrExpr)>,
    i: int,
    fields: Seq<IrField>,
    places: Seq<FieldLayout>,
    base: u32,
    cx: Cx,
    s: SinkView,
) -> Out
    decreases inits, inits.len() - i,
{
    if i < 0 || i >= inits.len() {
        s.done()
    } else {
        match primitive_place(named_field(fields, places, inits[i].0@, FieldOwner::Tuple)) {
            Err(x) => s.fail(x),
            Ok((place, p)) => {
                let o = crate::lower::expr_code(inits[i].1, cx, s.emit(Instr::LocalGet(base)));
                if o.err is Some {
                    o
                } else {
                    tuple_init_code(
                        inits,
                        i + 1,
                        fields,
                        places,
                        base,
                        cx,
                        o.sink.emit(primitive_store(p, place)),
                    )
                }
            },
        }
    }
}

/// The code of a struct literal.
pub open spec fn struct_code(e: IrExpr, cx: Cx, s: SinkView) -> Out
    decreases e, 2int,
{
    match e {
        IrExpr::StructInst { struct_id, fields, .. } => match struct_id {
            None => s.fail(LowerError::ExternalStructInst),
            Some(id) => match cx.spec_module() {
                Err(x) => s.fail(x),
                Ok(m) => match struct_plan_of(id, m) {
                    Err(x) => s.fail(x),
                    Ok((d, p)) => match allocation(p.size, cx, s) {
                        Err(x) => s.fail(x),
                        Ok((base, s1)) => {
                            let o = init_code(
                                fields@,
                                0,
                                d.fields@,
                                p.fields,
                                FieldOwner::Named(d.name),
                                base,
                                cx,
                                s1,
                            );
                            if o.err is Some {
                                o
                            } else {
                                o.sink.emit(Instr::LocalGet(base)).done()
                            }
                        },
                    },
                },
            },
        },
        _ => s.fail(crate::lower::error::missing(Missing::NotA(ExprKind::StructInst))),
    }
}

/// Position of the first variant called `name`, at or after `from`.
pub open spec fn variant_position(e: IrEnum, name: Seq<char>, from: int) -> Option<int>
    decreases e.variants@.len() - from,
{
    if from < 0 || from >= e.variants@.len() {
        None
    } else if e.variants@[from].name@ == name {
        Some(from)
    } else {
        variant_position(e, name, from + 1)
    }
}

/// The variant an enum literal builds: by position, or by name where the
/// position is out of range.
pub open spec fn chosen_variant(e: IrEnum, idx: u32, name: String) -> Result<int, LowerError> {
    if idx < e.variants@.len() {
        Ok(idx as int)
    } else {
        match variant_position(e, name@, 0) {
            Some(i) => Ok(i),
            None => Err(
                LowerError::UnknownVariant { enum_name: Some(e.name), variant: name },
            ),
        }
    }
}

/// An enum of the module and its plan.
pub open spec fn enum_plan_of(id: crate::ir::EnumId, m: IrModule) -> Result<
    (IrEnum, EnumPlan),
    LowerError,
> {
    match m.spec_enum(id) {
        None => Err(LowerError::UnknownEnum(id)),
        Some(d) => match crate::layout::enum_plan(d) {
            Err(x) => Err(LowerError::Layout(x)),
            Ok(p) => Ok((d, p)),
        },
    }
}

/// The tag as a signed constant, saturating.
pub open spec fn tag_const(tag: u32) -> i32 {
    match signed(tag) {
        Some(n) => n,
        None => i32::MAX,
    }
}

/// The code of an enum literal.
pub open spec fn enum_code(e: IrExpr, cx: Cx, s: SinkView) -> Out
    decreases e, 2int,
{
    match e {
        IrExpr::EnumInst { enum_id, variant, variant_idx, fields, .. } => match enum_id {
            None => s.fail(LowerError::ExternalEnumInst),
            Some(id) => match cx.spec_module() {
                Err(x) => s.fail(x),
                Ok(m) => match enum_plan_of(id, m) {
                    Err(x) => s.fail(x),
                    Ok((d, p)) => match chosen_variant(d, variant_idx.0, variant) {
                        Err(x) => s.fail(x),
                        Ok(v) => match allocation(p.size, cx, s) {
                            Err(x) => s.fail(x),
                            Ok((base, s1)) => {
                                let o = init_code(
                                    fields@,
                                    0,
                                    d.variants@[v].fields@,
                                    p.variants[v].fields,
                                    FieldOwner::Named(d.variants@[v].name),
                                    base,
                                    cx,
                                    s1.emit(Instr::LocalGet(base)).emit(
                                        Instr::I32Const(tag_const(p.variants[v].tag)),
                                    ).emit(
                                        Instr::Store(
                                            StoreOp::I32,
                                            mem_arg_at(p.tag_offset, ENUM_TAG_ALIGN),
                                        ),
                                    ),
                                );
                                if o.err is Some {
                                    o
                                } else {
                                    o.sink.emit(Instr::LocalGet(base)).done()
                                }
                            },
                        },
                    },
                },
            },
        },
        _ => s.fail(crate::lower::error::missing(Missing::NotA(ExprKind::EnumInst))),
    }
}

/// The code of a tuple literal.
pub open spec fn tuple_code(e: IrExpr, cx: Cx, s: SinkView) -> Out
    decreases e, 2int,
{
    match e {
        IrExpr::Tuple { fields, ty } => match cx.spec_module() {
            Err(x) => s.fail(x),
            Ok(_) => match tuple_plan(ty) {
                Err(x) => s.fail(x),
                Ok((decl, p)) => match allocation(p.size, cx, s) {
                    Err(x) => s.fail(x),
                    Ok((base, s1)) => {
                        let o = tuple_init_code(fields@, 0, decl, p.fields, base, cx, s1);
                        if o.err is Some {
                            o
                        } else {
                            o.sink.emit(Instr::LocalGet(base)).done()
                        }
                    },
                },
            },
        },
        _ => s.fail(crate::lower::error::missing(Missing::NotA(ExprKind::Tuple))),
    }
}

/// Write the stores of a struct or variant literal.
fn lower_inits(
    inits: &Vec<(String, FieldIdx, IrExpr)>,
    fields: &Vec<IrField>,
    places: &Vec<FieldLayout>,
    owner: &FieldOwner,
    base: u32,
    sink: &mut InstructionSink,
    ctx: &LowerContext<'_>,
) -> (r: Result<(), LowerError>)
    ensures
        crate::lower::context::wrote(
            r,
            final(sink)@,
            init_code(inits@, 0, fields@, places@, *owner, base, ctx@, old(sink)@),
        ),
    decreases inits@, inits@.len(),
{
    let mut i: usize = 0;
    let ghost goal = init_code(inits@, 0, fields@, places@, *owner, base, ctx@, sink@);
    while i < inits.len()
        invariant
            goal == init_code(inits@, 0, fields@, places@, *owner, base, ctx@, old(sink)@),
            i <= inits@.len(),
            goal == init_code(
                inits@,
                i as int,
                fields@,
                places@,
                *owner,
                base,
                ctx@,
                sink@,
            ),
        decreases inits@.len() - i,
    {
        let (place, ty) = lookup_field_by_name(fields, places, &inits[i].0, owner)?;
        let p: PrimitiveType = primitive_of(ty)?;
        sink.emit(Instr::LocalGet(base));
        lower_expr(&inits[i].2, sink, ctx)?;
        store_primitive(p, place, sink);
        i = i + 1;
    }
    Ok(())
}

/// Write the stores of a tuple literal.
fn lower_tuple_inits(
    inits: &Vec<(String, IrExpr)>,
    fields: &Vec<IrField>,
    places: &Vec<FieldLayout>,
    base: u32,
    sink: &mut InstructionSink,
    ctx: &LowerContext<'_>,
) -> (r: Result<(), LowerError>)
    ensures
        crate::lower::context::wrote(
            r,
            final(sink)@,
            tuple_init_code(inits@, 0, fields@, places@, base, ctx@, old(sink)@),
        ),
    decreases inits@, inits@.len(),
{
    let mut i: usize = 0;
    let ghost goal = tuple_init_code(inits@, 0, fields@, places@, base, ctx@, sink@);
    while i < inits.len()
        invariant
            goal == tuple_init_code(inits@, 0, fields@, places@, base, ctx@, old(sink)@),
            i <= inits@.len(),
            goal == tuple_init_code(inits@, i as int, fields@, places@, base, ctx@, sink@),
        decreases inits@.len() - i,
    {
        let (place, ty) = lookup_field_by_name(
            fields,
            places,
            &inits[i].0,
            &FieldOwner::Tuple,
        )?;
        let p: PrimitiveType = primitive_of(ty)?;
        sink.emit(Instr::LocalGet(base));
        lower_expr(&inits[i].1, sink, ctx)?;
        store_primitive(p, place, sink);
        i = i + 1;
    }
    Ok(())
}

/// Lower a struct literal. Initialisers run in source order and are matched
/// to the declared fields by name.
pub fn lower_struct_inst(expr: &IrExpr, sink: &mut InstructionSink, ctx: &LowerContext<'_>) -> (r:
    Result<(), LowerError>)
    ensures
        crate::lower::context::wrote(
            r,
            final(sink)@,
            struct_code(*expr, ctx@, old(sink)@),
        ),
    decreases *expr, 2int,
{
    match expr {
        IrExpr::StructInst { struct_id, fields, .. } => {
            let id = match struct_id {
                Some(id) => *id,
                None => return Err(LowerError::ExternalStructInst),
            };
            let module = ctx.module()?;
            let (d, layout) = layout_for_struct(id, module)?;
            let base: u32 = allocate_aggregate(layout.size, sink, ctx)?;
            let owner = FieldOwner::Named(d.name.clone());
            lower_inits(fields, &d.fields, &layout.fields, &owner, base, sink, ctx)?;
            sink.emit(Instr::LocalGet(base));
            Ok(())
        },
        _ => Err(not_yet(Missing::NotA(ExprKind::StructInst))),
    }
}

/// Find the variant an enum literal builds.
fn resolve_variant(e: &IrEnum, idx: u32, name: &String) -> (r: Result<usize, LowerError>)
    ensures
        match r {
            Ok(i) => i < e.variants@.len() && chosen_variant(*e, idx, *name) == Ok::<
                int,
                LowerError,
            >(i as int),
            Err(x) => chosen_variant(*e, idx, *name) == Err::<int, LowerError>(x),
        },
{
    if (idx as usize) < e.variants.len() {
        return Ok(idx as usize);
    }
    let mut i: usize = 0;
    while i < e.variants.len()
        invariant
            i <= e.variants@.len(),
            idx >= e.variants@.len(),
            variant_position(*e, name@, 0) == variant_position(*e, name@, i as int),
        decreases e.variants@.len() - i,
    {
        if e.variants[i].name == *name {
            return Ok(i);
        }
        i = i + 1;
    }
    Err(LowerError::UnknownVariant { enum_name: Some(e.name.clone()), variant: name.clone() })
}

/// Lower an enum literal: the tag, then the payload fields of the variant.
pub fn lower_enum_inst(expr: &IrExpr, sink: &mut InstructionSink, ctx: &LowerContext<'_>) -> (r:
    Result<(), LowerError>)
    ensures
        crate::lower::context::wrote(
            r,
            final(sink)@,
            enum_code(*expr, ctx@, old(sink)@),
        ),
    decreases *expr, 2int,
{
    match expr {
        IrExpr::EnumInst { enum_id, variant, variant_idx, fields, .. } => {
            let id = match enum_id {
                Some(id) => *id,
                None => return Err(LowerError::ExternalEnumInst),
            };
            let module = ctx.module()?;
            let d = match module.get_enum(id) {
                Some(d) => d,
                None => return Err(LowerError::UnknownEnum(id)),
            };
            let layout = match plan_enum(d, module) {
                Ok(l) => l,
                Err(x) => return Err(LowerError::Layout(x)),
            };
            let v: usize = resolve_variant(d, variant_idx.0, variant)?;
            proof {
                crate::layout::law_enum_layout(*d);
                assert(layout@.variants.len() == d.variants@.len());
                assert(layout@.variants[v as int] == layout.variants@[v as int]@);
            }
            let base: u32 = allocate_aggregate(layout.size, sink, ctx)?;
            sink.emit(Instr::LocalGet(base));
            let tag: i32 = match to_signed(layout.variants[v].tag) {
                Some(n) => n,
                None => 0x7fff_ffff,
            };
            sink.emit(Instr::I32Const(tag));
            sink.emit(Instr::Store(StoreOp::I32, mem_arg(layout.tag_offset, ENUM_TAG_ALIGN)));
            let owner = FieldOwner::Named(d.variants[v].name.clone());
            lower_inits(
                fields,
                &d.variants[v].fields,
                &layout.variants[v].fields,
                &owner,
                base,
                sink,
                ctx,
            )?;
            sink.emit(Instr::LocalGet(base));
            Ok(())
        },
        _ => Err(not_yet(Missing::NotA(ExprKind::EnumInst))),
    }
}

/// Lower a tuple literal, laid out like a struct with the same fields.
pub fn lower_tuple(expr: &IrExpr, sink: &mut InstructionSink, ctx: &LowerContext<'_>) -> (r: Result<
    (),
    LowerError,
>)
    ensures
        crate::lower::context::wrote(
            r,
            final(sink)@,
            tuple_code(*expr, ctx@, old(sink)@),
        ),
    decreases *expr, 2int,
{
    match expr {
        IrExpr::Tuple { fields, ty } => {
            let _module = ctx.module()?;
            let (decl, layout) = layout_for_tuple(ty)?;
            let base: u32 = allocate_aggregate(layout.size, sink, ctx)?;
            lower_tuple_inits(fields, &decl, &layout.fields, base, sink, ctx)?;
            sink.emit(Instr::LocalGet(base));
            Ok(())
        },
        _ => Err(not_yet(Missing::NotA(ExprKind::Tuple))),
    }
}

// ── closures ─────────────────────────────────────────────────────────

/// Position of the first function called `name`, at or after `from`.
pub open spec fn function_position(fs: Seq<IrFunction>, name: Seq<char>, from: int) -> Option<int>
    decreases fs.len() - from,
{
    if from < 0 || from >= fs.len() {
        None
    } else if fs[from].name@ == name {
        Some(from)
    } else {
        function_position(fs, name, from + 1)
    }
}

/// The table slot of the function a closure value names.
pub open spec fn funcref_slot(funcref: Seq<String>, m: IrModule, cx: Cx) -> Result<
    i32,
    LowerError,
> {
    if funcref.len() == 0 {
        Err(crate::lower::error::missing(Missing::EmptyFuncref))
    } else {
        match function_position(m.functions@, funcref.last()@, 0) {
            None => Err(
                crate::lower::error::missing(Missing::UnknownFuncref(funcref.last())),
            ),
            Some(i) => if i > u32::MAX {
                Err(crate::lower::error::missing(Missing::FuncrefIndex))
            } else {
                match cx.spec_closure_funcref(FunctionId(i as u32)) {
                    Err(x) => Err(x),
                    Ok(slot) => match signed(slot) {
                        Some(n) => Ok(n),
                        None => Err(crate::lower::error::missing(Missing::FuncrefSlot)),
                    },
                }
            },
        }
    }
}

/// The code of a closure value: a table slot and an env pointer.
pub open spec fn closure_ref_code(e: IrExpr, cx: Cx, s: SinkView) -> Out
    decreases e, 2int,
{
    match e {
        IrExpr::ClosureRef { funcref, env_struct, .. } => match cx.spec_module() {
            Err(x) => s.fail(x),
            Ok(m) => match funcref_slot(funcref@, m, cx) {
                Err(x) => s.fail(x),
                Ok(slot) => match allocation(CLOSURE_VALUE_SIZE, cx, s) {
                    Err(x) => s.fail(x),
                    Ok((base, s1)) => {
                        let o = crate::lower::expr_code(
                            *env_struct,
                            cx,
                            s1.emit(Instr::LocalGet(base)).emit(Instr::I32Const(slot)).emit(
                                Instr::Store(
                                    StoreOp::I32,
                                    mem_arg_at(CLOSURE_FUNCREF_OFFSET, 4),
                                ),
                            ).emit(Instr::LocalGet(base)),
                        );
                        if o.err is Some {
                            o
                        } else {
                            o.sink.emit(
                                Instr::Store(StoreOp::I32, mem_arg_at(CLOSURE_ENV_OFFSET, 4)),
                            ).emit(Instr::LocalGet(base)).done()
                        }
                    },
                },
            },
        },
        _ => s.fail(crate::lower::error::missing(Missing::NotA(ExprKind::ClosureRef))),
    }
}

/// Find the table slot of the function a closure value names.
fn closure_slot(funcref: &Vec<String>, module: &IrModule, ctx: &LowerContext<'_>) -> (r: Result<
    i32,
    LowerError,
>)
    ensures
        r == funcref_slot(funcref@, *module, ctx@),
{
    if funcref.len() == 0 {
        return Err(not_yet(Missing::EmptyFuncref));
    }
    let last = &funcref[funcref.len() - 1];
    let mut i: usize = 0;
    while i < module.functions.len()
        invariant
            i <= module.functions@.len(),
            funcref@.len() > 0,
            *last == funcref@.last(),
            function_position(module.functions@, last@, 0) == function_position(
                module.functions@,
                last@,
                i as int,
            ),
        decreases module.functions@.len() - i,
    {
        if module.functions[i].name == *last {
            if i > 0xffff_ffff {
                return Err(not_yet(Missing::FuncrefIndex));
            }
            let slot: u32 = ctx.closure_funcref_index(FunctionId(i as u32))?;
            return match to_signed(slot) {
                Some(n) => Ok(n),
                None => Err(not_yet(Missing::FuncrefSlot)),
            };
        }
        i = i + 1;
    }
    Err(not_yet(Missing::UnknownFuncref(last.clone())))
}

/// Lower a closure value: the table slot of the lifted function at offset 0
/// and the pointer to the captured environment at offset 4.
pub fn lower_closure_ref(expr: &IrExpr, sink: &mut InstructionSink, ctx: &LowerContext<'_>) -> (r:
    Result<(), LowerError>)
    ensures
        crate::lower::context::wrote(
            r,
            final(sink)@,
            closure_ref_code(*expr, ctx@, old(sink)@),
        ),
    decreases *expr, 2int,
{
    match expr {
        IrExpr::ClosureRef { funcref, env_struct, .. } => {
            let module = ctx.module()?;
            let slot: i32 = closure_slot(funcref, module, ctx)?;
            let base: u32 = allocate_aggregate(CLOSURE_VALUE_SIZE, sink, ctx)?;
            sink.emit(Instr::LocalGet(base));
            sink.emit(Instr::I32Const(slot));
            sink.emit(Instr::Store(StoreOp::I32, mem_arg(CLOSURE_FUNCREF_OFFSET, 4)));
            sink.emit(Instr::LocalGet(base));
            lower_expr(env_struct, sink, ctx)?;
            sink.emit(Instr::Store(StoreOp::I32, mem_arg(CLOSURE_ENV_OFFSET, 4)));
            sink.emit(Instr::LocalGet(base));
            Ok(())
        },
        _ => Err(not_yet(Missing::NotA(ExprKind::ClosureRef))),
    }
}

// ── arrays ───────────────────────────────────────────────────────────

/// Where an array header takes its length from.
#[derive(Clone, Copy, Debug, PartialEq, Eq, Structural)]
pub enum HeaderLen {
    Const(i32),
    Local(u32),
}

/// The instruction that pushes the length.
pub open spec fn push_len(len: HeaderLen) -> Instr {
    match len {
        HeaderLen::Const(n) => Instr::I32Const(n),
        HeaderLen::Local(i) => Instr::LocalGet(i),
    }
}

/// The code that fills an array header and leaves its pointer.
pub open spec fn header_code(header: u32, buf: u32, len: HeaderLen, s: SinkView) -> SinkView {
    s.emit(Instr::LocalGet(header)).emit(Instr::LocalGet(buf)).emit(
        Instr::Store(StoreOp::I32, mem_arg_at(ARRAY_HEADER_PTR_OFFSET, ARRAY_HEADER_ALIGN)),
    ).emit(Instr::LocalGet(header)).emit(push_len(len)).emit(
        Instr::Store(StoreOp::I32, mem_arg_at(ARRAY_HEADER_LEN_OFFSET, ARRAY_HEADER_ALIGN)),
    ).emit(Instr::LocalGet(header)).emit(push_len(len)).emit(
        Instr::Store(StoreOp::I32, mem_arg_at(ARRAY_HEADER_CAP_OFFSET, ARRAY_HEADER_ALIGN)),
    ).emit(Instr::LocalGet(header))
}

/// Whether elements of the type are stored as pointers.
pub open spec fn is_pointer_element(ty: ResolvedType) -> bool {
    match ty {
        ResolvedType::Struct(_) => true,
        ResolvedType::Enum(_) => true,
        ResolvedType::Tuple(_) => true,
        ResolvedType::Array(_) => true,
        _ => false,
    }
}

/// The store of an array element.
pub open spec fn element_store(ty: ResolvedType, f: FieldLayout) -> Result<Instr, LowerError> {
    match ty {
        ResolvedType::Primitive(p) => Ok(primitive_store(p, f)),
        _ => if is_pointer_element(ty) {
            Ok(Instr::Store(StoreOp::I32, field_arg(f)))
        } else {
            Err(crate::lower::error::missing(Missing::ArrayElement(ty)))
        },
    }
}

/// The load of an array element.
pub open spec fn element_load(ty: ResolvedType, f: FieldLayout) -> Result<Instr, LowerError> {
    match ty {
        ResolvedType::Primitive(p) => Ok(primitive_load(p, f)),
        _ => if is_pointer_element(ty) {
            Ok(Instr::Load(LoadOp::I32, field_arg(f)))
        } else {
            Err(crate::lower::error::missing(Missing::ArrayElement(ty)))
        },
    }
}

/// The code of the element stores of an array literal, from element `i` on.
pub open spec fn elements_code(
    elements: Seq<IrExpr>,
    i: int,
    elem_ty: ResolvedType,
    layout: ArrayLayout,
    buf: u32,
    cx: Cx,
    s: SinkView,
) -> Out
    decreases elements, elements.len() - i,
{
    if i < 0 || i >= elements.len() {
        s.done()
    } else {
        let at = FieldLayout {
            offset: (layout.element_size * i) as u32,
            size: layout.element_size,
            align: layout.element_align,
        };
        let o = crate::lower::expr_code(elements[i], cx, s.emit(Instr::LocalGet(buf)));
        if o.err is Some {
            o
        } else {
            match element_store(elem_ty, at) {
                Err(x) => o.sink.fail(x),
                Ok(store) => elements_code(
                    elements,
                    i + 1,
                    elem_ty,
                    layout,
                    buf,
                    cx,
                    o.sink.emit(store),
                ),
            }
        }
    }
}

/// Bytes of an array literal's element buffer.
pub open spec fn buffer_size(layout: ArrayLayout, len: int) -> Result<u32, LowerError> {
    if len > u32::MAX {
        Err(crate::lower::error::missing(Missing::ArrayTooLong))
    } else if len > i32::MAX {
        Err(crate::lower::error::missing(Missing::ArrayLengthSign))
    } else if layout.element_size * len > u32::MAX {
        Err(LowerError::Layout(LayoutError::SizeOverflow { name: LayoutOwner::ArrayBuffer }))
    } else {
        Ok((layout.element_size * len) as u32)
    }
}

/// The code of an array literal.
pub open spec fn array_code(e: IrExpr, cx: Cx, s: SinkView) -> Out
    decreases e, 2int,
{
    match e {
        IrExpr::Array { elements, ty } => match ty {
            ResolvedType::Array(elem) => match cx.spec_module() {
                Err(x) => s.fail(x),
                Ok(_) => match crate::layout::array_plan(*elem) {
                    Err(x) => s.fail(LowerError::Layout(x)),
                    Ok(layout) => match buffer_size(layout, elements@.len() as int) {
                        Err(x) => s.fail(x),
                        Ok(size) => match allocation(size, cx, s) {
                            Err(x) => s.fail(x),
                            Ok((buf, s1)) => {
                                let o = elements_code(elements@, 0, *elem, layout, buf, cx, s1);
                                if o.err is Some {
                                    o
                                } else {
                                    match allocation(layout.header_size, cx, o.sink) {
                                        Err(x) => o.sink.fail(x),
                                        Ok((header, s2)) => header_code(
                                            header,
                                            buf,
                                            HeaderLen::Const(elements@.len() as i32),
                                            s2,
                                        ).done(),
                                    }
                                }
                            },
                        },
                    },
                },
            },
            _ => s.fail(crate::lower::error::missing(Missing::ArrayResult(ty))),
        },
        _ => s.fail(crate::lower::error::missing(Missing::NotA(ExprKind::Array))),
    }
}

/// The code of an indexed access.
pub open spec fn index_code(e: IrExpr, cx: Cx, s: SinkView) -> Out
    decreases e, 2int,
{
    match e {
        IrExpr::DictAccess { dict, key, .. } => match dict.spec_ty() {
            ResolvedType::Array(elem) => match cx.spec_module() {
                Err(x) => s.fail(x),
                Ok(_) => match crate::layout::array_plan(*elem) {
                    Err(x) => s.fail(LowerError::Layout(x)),
                    Ok(layout) => match signed(layout.element_size) {
                        None => s.fail(
                            LowerError::Layout(
                                LayoutError::SizeOverflow { name: LayoutOwner::ArrayElement },
                            ),
                        ),
                        Some(size) => {
                            let o1 = crate::lower::expr_code(*dict, cx, s);
                            if o1.err is Some {
                                o1
                            } else {
                                let o2 = crate::lower::expr_code(
                                    *key,
                                    cx,
                                    o1.sink.emit(
                                        Instr::Load(
                                            LoadOp::I32,
                                            mem_arg_at(
                                                ARRAY_HEADER_PTR_OFFSET,
                                                ARRAY_HEADER_ALIGN,
                                            ),
                                        ),
                                    ),
                                );
                                if o2.err is Some {
                                    o2
                                } else {
                                    let s3 = o2.sink.emit(Instr::I32Const(size)).emit(
                                        Instr::I32(IntOp::Mul),
                                    ).emit(Instr::I32(IntOp::Add));
                                    match element_load(*elem, element_slot(layout)) {
                                        Err(x) => s3.fail(x),
                                        Ok(load) => s3.emit(load).done(),
                                    }
                                }
                            }
                        },
                    },
                },
            },
            _ => s.fail(
                crate::lower::error::missing(Missing::IndexedCollection(dict.spec_ty())),
            ),
        },
        _ => s.fail(crate::lower::error::missing(Missing::NotA(ExprKind::DictAccess))),
    }
}

/// An array element at an address that is already computed.
pub open spec fn element_slot(layout: ArrayLayout) -> FieldLayout {
    FieldLayout { offset: 0, size: layout.element_size, align: layout.element_align }
}

/// An array element at an address that is already computed.
pub fn output_field_layout(layout: ArrayLayout) -> (r: FieldLayout)
    ensures
        r == element_slot(layout),
{
    FieldLayout { offset: 0, size: layout.element_size, align: layout.element_align }
}

/// Fill the `{ ptr, len, cap }` header of an array and leave its pointer.
/// Capacity equals length.
pub fn finalize_array_header(header: u32, buf: u32, len: HeaderLen, sink: &mut InstructionSink)
    ensures
        final(sink)@ == header_code(header, buf, len, old(sink)@),
{
    sink.emit(Instr::LocalGet(header));
    sink.emit(Instr::LocalGet(buf));
    sink.emit(Instr::Store(StoreOp::I32, mem_arg(ARRAY_HEADER_PTR_OFFSET, ARRAY_HEADER_ALIGN)));
    sink.emit(Instr::LocalGet(header));
    emit_len(len, sink);
    sink.emit(Instr::Store(StoreOp::I32, mem_arg(ARRAY_HEADER_LEN_OFFSET, ARRAY_HEADER_ALIGN)));
    sink.emit(Instr::LocalGet(header));
    emit_len(len, sink);
    sink.emit(Instr::Store(StoreOp::I32, mem_arg(ARRAY_HEADER_CAP_OFFSET, ARRAY_HEADER_ALIGN)));
    sink.emit(Instr::LocalGet(header));
}

fn emit_len(len: HeaderLen, sink: &mut InstructionSink)
    ensures
        final(sink)@ == old(sink)@.emit(push_len(len)),
{
    match len {
        HeaderLen::Const(n) => sink.emit(Instr::I32Const(n)),
        HeaderLen::Local(i) => sink.emit(Instr::LocalGet(i)),
    }
}

/// Write the store of an array element.
fn store_array_element(elem_ty: &ResolvedType, at: FieldLayout, sink: &mut InstructionSink) -> (r:
    Result<(), LowerError>)
    ensures
        crate::lower::context::wrote(
            r,
            final(sink)@,
            match element_store(*elem_ty, at) {
                Ok(i) => old(sink)@.emit(i).done(),
                Err(x) => old(sink)@.fail(x),
            },
        ),
{
    match elem_ty {
        ResolvedType::Primitive(p) => {
            store_primitive(*p, at, sink);
            Ok(())
        },
        ResolvedType::Struct(_)
        | ResolvedType::Enum(_)
        | ResolvedType::Tuple(_)
        | ResolvedType::Array(_) => {
            sink.emit(Instr::Store(StoreOp::I32, field_mem_arg(at)));
            Ok(())
        },
        _ => Err(not_yet(Missing::ArrayElement(elem_ty.clone()))),
    }
}

/// Write the load of an array element.
fn load_array_element(elem_ty: &ResolvedType, at: FieldLayout, sink: &mut InstructionSink) -> (r:
    Result<(), LowerError>)
    ensures
        crate::lower::context::wrote(
            r,
            final(sink)@,
            match element_load(*elem_ty, at) {
                Ok(i) => old(sink)@.emit(i).done(),
                Err(x) => old(sink)@.fail(x),
            },
        ),
{
    match elem_ty {
        ResolvedType::Primitive(p) => {
            load_primitive(*p, at, sink);
            Ok(())
        },
        ResolvedType::Struct(_)
        | ResolvedType::Enum(_)
        | ResolvedType::Tuple(_)
        | ResolvedType::Array(_) => {
            sink.emit(Instr::Load(LoadOp::I32, field_mem_arg(at)));
            Ok(())
        },
        _ => Err(not_yet(Missing::ArrayElement(elem_ty.clone()))),
    }
}

/// Write the element stores of an array literal.
fn lower_elements(
    elements: &Vec<IrExpr>,
    elem_ty: &ResolvedType,
    layout: ArrayLayout,
    buf: u32,
    sink: &mut InstructionSink,
    ctx: &LowerContext<'_>,
) -> (r: Result<(), LowerError>)
    requires
        elements@.len() <= i32::MAX,
        layout.element_size * elements@.len() <= u32::MAX,
    ensures
        crate::lower::context::wrote(
            r,
            final(sink)@,
            elements_code(elements@, 0, *elem_ty, layout, buf, ctx@, old(sink)@),
        ),
    decreases elements@, elements@.len(),
{
    let mut i: usize = 0;
    let ghost goal = elements_code(elements@, 0, *elem_ty, layout, buf, ctx@, sink@);
    while i < elements.len()
        invariant
            goal == elements_code(elements@, 0, *elem_ty, layout, buf, ctx@, old(sink)@),
            i <= elements@.len(),
            elements@.len() <= i32::MAX,
            layout.element_size * elements@.len() <= u32::MAX,
            goal == elements_code(elements@, i as int, *elem_ty, layout, buf, ctx@, sink@),
        decreases elements@.len() - i,
    {
        proof {
            assert(0 <= layout.element_size * i <= layout.element_size * elements@.len())
                by (nonlinear_arith)
                requires
                    0 <= i <= elements@.len(),
                    0 <= layout.element_size,
            ;
        }
        let offset: u32 = layout.element_size * (i as u32);
        sink.emit(Instr::LocalGet(buf));
        lower_expr(&elements[i], sink, ctx)?;
        store_array_element(
            elem_ty,
            FieldLayout { offset, size: layout.element_size, align: layout.element_align },
            sink,
        )?;
        i = i + 1;
    }
    Ok(())
}

/// Lower an array literal: an element buffer, then a header that points at
/// it.
pub fn lower_array(expr: &IrExpr, sink: &mut InstructionSink, ctx: &LowerContext<'_>) -> (r: Result<
    (),
    LowerError,
>)
    ensures
        crate::lower::context::wrote(
            r,
            final(sink)@,
            array_code(*expr, ctx@, old(sink)@),
        ),
    decreases *expr, 2int,
{
    match expr {
        IrExpr::Array { elements, ty } => {
            let elem_ty = match ty {
                ResolvedType::Array(t) => t,
                _ => return Err(not_yet(Missing::ArrayResult(ty.clone()))),
            };
            let module = ctx.module()?;
            let layout = match plan_array(elem_ty, module) {
                Ok(l) => l,
                Err(x) => return Err(LowerError::Layout(x)),
            };
            if elements.len() > 0xffff_ffff {
                return Err(not_yet(Missing::ArrayTooLong));
            }
            if elements.len() > 0x7fff_ffff {
                return Err(not_yet(Missing::ArrayLengthSign));
            }
            let len: u32 = elements.len() as u32;
            let size: u32 = match layout.element_size.checked_mul(len) {
                Some(n) => n,
                None => {
                    return Err(
                        LowerError::Layout(
                            LayoutError::SizeOverflow { name: LayoutOwner::ArrayBuffer },
                        ),
                    );
                },
            };
            let buf: u32 = allocate_aggregate(size, sink, ctx)?;
            lower_elements(elements, elem_ty, layout, buf, sink, ctx)?;
            let header: u32 = allocate_aggregate(layout.header_size, sink, ctx)?;
            finalize_array_header(header, buf, HeaderLen::Const(len as i32), sink);
            Ok(())
        },
        _ => Err(not_yet(Missing::NotA(ExprKind::Array))),
    }
}

/// Lower an indexed access into an array. There is no bounds check.
pub fn lower_dict_access(expr: &IrExpr, sink: &mut InstructionSink, ctx: &LowerContext<'_>) -> (r:
    Result<(), LowerError>)
    ensures
        crate::lower::context::wrote(
            r,
            final(sink)@,
            index_code(*expr, ctx@, old(sink)@),
        ),
    decreases *expr, 2int,
{
    match expr {
        IrExpr::DictAccess { dict, key, .. } => {
            let elem_ty = match dict.ty() {
                ResolvedType::Array(t) => t,
                other => return Err(not_yet(Missing::IndexedCollection(other.clone()))),
            };
            let module = ctx.module()?;
            let layout = match plan_array(elem_ty, module) {
                Ok(l) => l,
                Err(x) => return Err(LowerError::Layout(x)),
            };
            let size: i32 = match to_signed(layout.element_size) {
                Some(n) => n,
                None => {
                    return Err(
                        LowerError::Layout(
                            LayoutError::SizeOverflow { name: LayoutOwner::ArrayElement },
                        ),
                    );
                },
            };
            lower_expr(dict, sink, ctx)?;
            sink.emit(
                Instr::Load(LoadOp::I32, mem_arg(ARRAY_HEADER_PTR_OFFSET, ARRAY_HEADER_ALIGN)),
            );
            lower_expr(key, sink, ctx)?;
            sink.emit(Instr::I32Const(size));
            sink.emit(Instr::I32(IntOp::Mul));
            sink.emit(Instr::I32(IntOp::Add));
            load_array_element(elem_ty, output_field_layout(layout), sink)
        },
        _ => Err(not_yet(Missing::NotA(ExprKind::DictAccess))),
    }
}

// ── ranges ───────────────────────────────────────────────────────────

/// A bound of a range.
pub open spec fn bound_slot(layout: RangeLayout, offset: u32) -> FieldLayout {
    FieldLayout { offset, size: layout.bound_size, align: layout.bound_align }
}

/// The code of a range `left..right` with bounds of type `bound`.
pub open spec fn range_code(bound: ResolvedType, e: IrExpr, cx: Cx, s: SinkView) -> Out
    decreases e, 1int,
{
    match e {
        IrExpr::BinaryOp { left, right, .. } => match cx.spec_module() {
            Err(x) => s.fail(x),
            Ok(_) => match crate::layout::range_plan(bound) {
                Err(x) => s.fail(LowerError::Layout(x)),
                Ok(layout) => match as_primitive(bound) {
                    Err(x) => s.fail(x),
                    Ok(p) => match allocation(layout.size, cx, s) {
                        Err(x) => s.fail(x),
                        Ok((base, s1)) => {
                            let o1 = crate::lower::expr_code(
                                *left,
                                cx,
                                s1.emit(Instr::LocalGet(base)),
                            );
                            if o1.err is Some {
                                o1
                            } else {
                                let o2 = crate::lower::expr_code(
                                    *right,
                                    cx,
                                    o1.sink.emit(primitive_store(p, bound_slot(layout, 0))).emit(
                                        Instr::LocalGet(base),
                                    ),
                                );
                                if o2.err is Some {
                                    o2
                                } else {
                                    o2.sink.emit(
                                        primitive_store(
                                            p,
                                            bound_slot(layout, layout.end_offset),
                                        ),
                                    ).emit(Instr::LocalGet(base)).done()
                                }
                            }
                        },
                    },
                },
            },
        },
        _ => s.fail(crate::lower::error::missing(Missing::NotA(ExprKind::BinaryOp))),
    }
}

/// A bound of a range.
fn range_field_layout(layout: RangeLayout, offset: u32) -> (r: FieldLayout)
    ensures
        r == bound_slot(layout, offset),
{
    FieldLayout { offset, size: layout.bound_size, align: layout.bound_align }
}

/// Lower the range expression `expr` as a `{ start, end }` aggregate with
/// bounds of type `bound`.
pub fn lower_range(
    bound: &ResolvedType,
    expr: &IrExpr,
    sink: &mut InstructionSink,
    ctx: &LowerContext<'_>,
) -> (r: Result<(), LowerError>)
    ensures
        crate::lower::context::wrote(
            r,
            final(sink)@,
            range_code(*bound, *expr, ctx@, old(sink)@),
        ),
    decreases *expr, 1int,
{
    match expr {
        IrExpr::BinaryOp { left, right, .. } => {
            let module = ctx.module()?;
            let layout = match plan_range(bound, module) {
                Ok(l) => l,
                Err(x) => return Err(LowerError::Layout(x)),
            };
            let p: PrimitiveType = primitive_of(bound)?;
            let base: u32 = allocate_aggregate(layout.size, sink, ctx)?;
            sink.emit(Instr::LocalGet(base));
            lower_expr(left, sink, ctx)?;
            store_primitive(p, range_field_layout(layout, 0), sink);
            sink.emit(Instr::LocalGet(base));
            lower_expr(right, sink, ctx)?;
            store_primitive(p, range_field_layout(layout, layout.end_offset), sink);
            sink.emit(Instr::LocalGet(base));
            Ok(())
        },
        _ => Err(not_yet(Missing::NotA(ExprKind::BinaryOp))),
    }
}

// ── field access ─────────────────────────────────────────────────────

/// The code of `self.field`: `self` is local 0.
pub open spec fn self_field_code(e: IrExpr, cx: Cx, s: SinkView) -> Out {
    match e {
        IrExpr::SelfFieldRef { field, field_idx, .. } => match self_place(
            field_idx,
            field@,
            cx,
        ) {
            Err(x) => s.fail(x),
            Ok((place, p)) => s.emit(Instr::LocalGet(0)).emit(primitive_load(p, place)).done(),
        },
        _ => s.fail(crate::lower::error::missing(Missing::NotA(ExprKind::SelfFieldRef))),
    }
}

/// The code of `object.field`.
pub open spec fn field_access_code(e: IrExpr, cx: Cx, s: SinkView) -> Out
    decreases e, 2int,
{
    match e {
        IrExpr::FieldAccess { object, field, field_idx, .. } => match accessed_place(
            object.spec_ty(),
            field_idx,
            field@,
            object_owner(object.spec_ty()),
            cx,
        ) {
            Err(x) => s.fail(x),
            Ok((place, p)) => {
                let o = crate::lower::expr_code(*object, cx, s);
                if o.err is Some {
                    o
                } else {
                    o.sink.emit(primitive_load(p, place)).done()
                }
            },
        },
        _ => s.fail(crate::lower::error::missing(Missing::NotA(ExprKind::FieldAccess))),
    }
}

/// Lower `self.field`.
pub fn lower_self_field_ref(
    expr: &IrExpr,
    sink: &mut InstructionSink,
    ctx: &LowerContext<'_>,
) -> (r: Result<(), LowerError>)
    ensures
        crate::lower::context::wrote(
            r,
            final(sink)@,
            self_field_code(*expr, ctx@, old(sink)@),
        ),
{
    match expr {
        IrExpr::SelfFieldRef { field, field_idx, .. } => {
            let (place, p) = self_field(*field_idx, field, ctx)?;
            sink.emit(Instr::LocalGet(0));
            load_primitive(p, place, sink);
            Ok(())
        },
        _ => Err(not_yet(Missing::NotA(ExprKind::SelfFieldRef))),
    }
}

/// Lower `object.field` on a struct or tuple.
pub fn lower_field_access(expr: &IrExpr, sink: &mut InstructionSink, ctx: &LowerContext<'_>) -> (r:
    Result<(), LowerError>)
    ensures
        crate::lower::context::wrote(
            r,
            final(sink)@,
            field_access_code(*expr, ctx@, old(sink)@),
        ),
    decreases *expr, 2int,
{
    match expr {
        IrExpr::FieldAccess { object, field, field_idx, .. } => {
            let (place, p) = accessed_field(object, *field_idx, field, ctx)?;
            lower_expr(object, sink, ctx)?;
            load_primitive(p, place, sink);
            Ok(())
        },
        _ => Err(not_yet(Missing::NotA(ExprKind::FieldAccess))),
    }
}

} // verus!
