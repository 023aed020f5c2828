//! Functions at the component boundary.
//!
//! The canonical ABI passes a text or a list as pointer and length, and an
//! aggregate as the concatenation of its parts. Inside the module each of
//! them is one pointer. A wrapper takes the boundary's flat parameters,
//! builds headers and aggregates in memory, and forwards their pointers.

use vstd::prelude::*;

use crate::compound::{enum_id_of, generic_args_for_enum, struct_id_of, substitute_enum, Compound};
use crate::instr::{Instr, MemArg, StoreOp, ValType};
use crate::ir::{EnumId, IrEnum, IrField, IrModule, List, PrimitiveType, ResolvedType};
use crate::layout::{
    plan_enum, plan_fields, plan_optional, tuple_struct_fields, FieldLayout, LayoutOwner,
    VariantShape, ARRAY_HEADER_CAP_OFFSET, ARRAY_HEADER_SIZE, STRING_HEADER_SIZE, STRING_LEN_OFFSET,
    STRING_PTR_OFFSET,
};
use crate::lower::context::{InstructionSink, SinkView};
use crate::module::MEMORY_INDEX;
use crate::module_lowering::error::{not_supported, ModuleLowerError};
use crate::types::{body_value_type, UnsupportedKind};

verus! {

// ── flattening ───────────────────────────────────────────────────────

/// The types of the variants of an enum instance.
pub open spec fn instance_of(ty: ResolvedType, id: EnumId, e: IrEnum) -> Seq<VariantShape> {
    crate::compound::instance_shapes(e, crate::compound::enum_args(ty, id).seq())
}

/// The flat value types of a type at the boundary, with `depth` levels of
/// nesting left.
pub open spec fn flat(ty: ResolvedType, m: IrModule, depth: nat) -> Result<
    Seq<ValType>,
    ModuleLowerError,
>
    decreases depth, 0int, 0int,
{
    if depth == 0 {
        Err(crate::module_lowering::error::unsupported(UnsupportedKind::NestingTooDeep))
    } else {
        match ty {
            ResolvedType::Primitive(p) => if crate::module_lowering::signature::is_text(ty) {
                Ok(seq![ValType::I32, ValType::I32])
            } else {
                Ok(crate::types::one_or_none(crate::types::primitive_val(p)))
            },
            ResolvedType::Optional(payload) => match flat(*payload, m, (depth - 1) as nat) {
                Err(x) => Err(x),
                Ok(s) => Ok(seq![ValType::I32] + s),
            },
            ResolvedType::Tuple(fields) => flat_fields(
                crate::layout::tuple_fields(fields),
                0,
                m,
                (depth - 1) as nat,
                Seq::empty(),
            ),
            _ => if crate::compound::shape_of(ty, m) is Array {
                Ok(seq![ValType::I32, ValType::I32])
            } else {
                match (crate::compound::struct_id(ty), crate::compound::enum_id(ty)) {
                    (Some(id), _) => match m.spec_struct(id) {
                        None => Err(
                            crate::module_lowering::error::unsupported(
                                UnsupportedKind::StructOutOfRange(id),
                            ),
                        ),
                        Some(s) => flat_fields(
                            s.fields@,
                            0,
                            m,
                            (depth - 1) as nat,
                            Seq::empty(),
                        ),
                    },
                    (None, Some(id)) => match m.spec_enum(id) {
                        None => Err(
                            crate::module_lowering::error::unsupported(
                                UnsupportedKind::EnumOutOfRange(id),
                            ),
                        ),
                        Some(e) => match largest_payload(
                            instance_of(ty, id, e),
                            0,
                            m,
                            (depth - 1) as nat,
                            Seq::empty(),
                        ) {
                            Err(x) => Err(x),
                            Ok(s) => Ok(seq![ValType::I32] + s),
                        },
                    },
                    (None, None) => match crate::types::body_val(ty) {
                        Err(x) => Err(ModuleLowerError::TypeMap(x)),
                        Ok(Some(vt)) => Ok(seq![vt]),
                        Ok(None) => Ok(seq![ValType::I32]),
                    },
                }
            },
        }
    }
}

/// The flat value types of fields, from field `i` on, appended to `out`.
pub open spec fn flat_fields(
    fields: Seq<IrField>,
    i: int,
    m: IrModule,
    depth: nat,
    out: Seq<ValType>,
) -> Result<Seq<ValType>, ModuleLowerError>
    decreases depth, 1int, fields.len() - i,
{
    if i < 0 || i >= fields.len() {
        Ok(out)
    } else {
        match flat(fields[i].ty, m, depth) {
            Err(x) => Err(x),
            Ok(s) => flat_fields(fields, i + 1, m, depth, out + s),
        }
    }
}

/// The longest flat payload of the variants, from variant `i` on, where none
/// is longer than `best`. Of equally long ones the first counts.
pub open spec fn largest_payload(
    shapes: Seq<VariantShape>,
    i: int,
    m: IrModule,
    depth: nat,
    best: Seq<ValType>,
) -> Result<Seq<ValType>, ModuleLowerError>
    decreases depth, 2int, shapes.len() - i,
{
    if i < 0 || i >= shapes.len() {
        Ok(best)
    } else {
        match flat_fields(shapes[i].fields, 0, m, depth, Seq::empty()) {
            Err(x) => Err(x),
            Ok(s) => largest_payload(
                shapes,
                i + 1,
                m,
                depth,
                if s.len() > best.len() {
                    s
                } else {
                    best
                },
            ),
        }
    }
}

/// Append a list to another.
fn extend(out: &mut Vec<ValType>, more: Vec<ValType>)
    ensures
        final(out)@ == old(out)@ + more@,
{
    let mut i: usize = 0;
    while i < more.len()
        invariant
            i <= more@.len(),
            out@ == old(out)@ + more@.take(i as int),
        decreases more@.len() - i,
    {
        out.push(more[i]);
        proof {
            assert(out@ =~= old(out)@ + more@.take(i + 1));
        }
        i = i + 1;
    }
    proof {
        assert(more@.take(i as int) =~= more@);
    }
}

fn words(n: usize) -> (r: Vec<ValType>)
    requires
        n <= 2,
    ensures
        n == 1 ==> r@ == seq![ValType::I32],
        n == 2 ==> r@ == seq![ValType::I32, ValType::I32],
{
    let mut out: Vec<ValType> = Vec::new();
    if n >= 1 {
        out.push(ValType::I32);
    }
    if n >= 2 {
        out.push(ValType::I32);
    }
    proof {
        assert(n == 1 ==> out@ =~= seq![ValType::I32]);
        assert(n == 2 ==> out@ =~= seq![ValType::I32, ValType::I32]);
    }
    out
}

/// The flat value types of a type at the boundary.
pub fn flatten_canonical_abi(ty: &ResolvedType, module: &IrModule, depth: u32) -> (r: Result<
    Vec<ValType>,
    ModuleLowerError,
>)
    ensures
        crate::module_lowering::signature::types_outcome(r, flat(*ty, *module, depth as nat)),
    decreases depth, 0int, 0int,
{
    if depth == 0 {
        return Err(not_supported(UnsupportedKind::NestingTooDeep));
    }
    match ty {
        ResolvedType::Primitive(p) => {
            if *p == PrimitiveType::String || *p == PrimitiveType::Path || *p
                == PrimitiveType::Regex {
                return Ok(words(2));
            }
            let mut out: Vec<ValType> = Vec::new();
            match body_value_type(ty) {
                Err(x) => return Err(ModuleLowerError::TypeMap(x)),
                Ok(Some(vt)) => out.push(vt),
                Ok(None) => {},
            }
            proof {
                assert(out@ =~= crate::types::one_or_none(crate::types::primitive_val(*p)));
            }
            return Ok(out);
        },
        ResolvedType::Optional(payload) => {
            let mut out = words(1);
            extend(&mut out, flatten_canonical_abi(payload, module, depth - 1)?);
            return Ok(out);
        },
        ResolvedType::Tuple(fields) => {
            let decl = tuple_struct_fields(fields);
            return flatten_fields(&decl, module, depth - 1);
        },
        _ => {},
    }
    match Compound::of(ty, module) {
        Compound::Array(_) => {
            return Ok(words(2));
        },
        _ => {},
    }
    if let Some(id) = struct_id_of(ty) {
        return match module.get_struct(id) {
            None => Err(not_supported(UnsupportedKind::StructOutOfRange(id))),
            Some(s) => flatten_fields(&s.fields, module, depth - 1),
        };
    }
    if let Some(id) = enum_id_of(ty) {
        let e = match module.get_enum(id) {
            None => return Err(not_supported(UnsupportedKind::EnumOutOfRange(id))),
            Some(e) => e,
        };
        let args = generic_args_for_enum(ty, id);
        let instance = substitute_enum(e, &args);
        let mut out = words(1);
        extend(&mut out, flatten_largest(&instance, module, depth - 1)?);
        return Ok(out);
    }
    let mut out: Vec<ValType> = Vec::new();
    match body_value_type(ty) {
        Err(x) => return Err(ModuleLowerError::TypeMap(x)),
        Ok(Some(vt)) => out.push(vt),
        Ok(None) => out.push(ValType::I32),
    }
    proof {
        assert(out@ =~= seq![out@[0]]);
    }
    Ok(out)
}

fn flatten_fields(fields: &Vec<IrField>, module: &IrModule, depth: u32) -> (r: Result<
    Vec<ValType>,
    ModuleLowerError,
>)
    ensures
        crate::module_lowering::signature::types_outcome(
            r,
            flat_fields(fields@, 0, *module, depth as nat, Seq::empty()),
        ),
    decreases depth, 1int, fields@.len(),
{
    let mut out: Vec<ValType> = Vec::new();
    let mut i: usize = 0;
    while i < fields.len()
        invariant
            i <= fields@.len(),
            flat_fields(fields@, 0, *module, depth as nat, Seq::empty()) == flat_fields(
                fields@,
                i as int,
                *module,
                depth as nat,
                out@,
            ),
        decreases fields@.len() - i,
    {
        let more = flatten_canonical_abi(&fields[i].ty, module, depth)?;
        extend(&mut out, more);
        i = i + 1;
    }
    Ok(out)
}

fn flatten_largest(e: &IrEnum, module: &IrModule, depth: u32) -> (r: Result<
    Vec<ValType>,
    ModuleLowerError,
>)
    ensures
        crate::module_lowering::signature::types_outcome(
            r,
            largest_payload(
                crate::layout::variant_shapes(*e),
                0,
                *module,
                depth as nat,
                Seq::empty(),
            ),
        ),
    decreases depth, 2int, e.variants@.len(),
{
    let mut best: Vec<ValType> = Vec::new();
    let mut i: usize = 0;
    while i < e.variants.len()
        invariant
            i <= e.variants@.len(),
            largest_payload(
                crate::layout::variant_shapes(*e),
                0,
                *module,
                depth as nat,
                Seq::empty(),
            ) == largest_payload(
                crate::layout::variant_shapes(*e),
                i as int,
                *module,
                depth as nat,
                best@,
            ),
        decreases e.variants@.len() - i,
    {
        let s = flatten_fields(&e.variants[i].fields, module, depth)?;
        if s.len() > best.len() {
            best = s;
        }
        i = i + 1;
    }
    Ok(best)
}

// ── plans ────────────────────────────────────────────────────────────

/// How a value is built in memory from flat slots.
#[allow(inconsistent_fields)]
#[derive(Debug, PartialEq, Eq)]
pub enum CabiMaterialisationOps {
    /// A string header.
    StringFromSlots { ptr_slot: u32, len_slot: u32 },
    /// An array header whose capacity is its length.
    ListFromSlots { ptr_slot: u32, len_slot: u32 },
    /// A struct or tuple, each field stored at its offset.
    Struct { size: u32, fields: List<CabiStructFieldOp> },
    /// An enum cell: the tag, then all flat payload words.
    Variant { size: u32, tag_slot: u32, payload_offset: u32, payload_slots: List<u32> },
}

/// A field of a struct under construction.
#[derive(Debug, PartialEq, Eq)]
pub struct CabiStructFieldOp {
    pub offset: u32,
    pub value: CabiFieldValue,
}

/// Where a value comes from.
#[derive(Debug, PartialEq, Eq)]
pub enum CabiFieldValue {
    /// One flat slot.
    DirectSlot { slot: u32, valtype: ValType },
    /// A pointer that is built first and parked in a scratch local.
    MaterialisedScratch { scratch: u32, ops: Box<CabiMaterialisationOps> },
}

/// The next flat slot, and the scratch locals taken so far.
#[derive(Clone, Copy, Debug, PartialEq, Eq, Structural)]
pub struct Cursor {
    pub slot: u32,
    pub scratch: u32,
}

/// A value's plan and the cursor behind it.
pub type Planned = (CabiFieldValue, Cursor);

/// The cursor with `n` more slots taken.
pub open spec fn advanced(c: Cursor, n: nat) -> Result<Cursor, ModuleLowerError> {
    if c.slot + n > u32::MAX {
        Err(ModuleLowerError::TooManyFunctions)
    } else {
        Ok(Cursor { slot: (c.slot + n) as u32, ..c })
    }
}

/// Park a pointer built by `ops` in the next scratch local.
pub open spec fn parked(ops: CabiMaterialisationOps, c: Cursor, base: u32) -> Result<
    Planned,
    ModuleLowerError,
> {
    if base + c.scratch > u32::MAX || c.scratch == u32::MAX {
        Err(ModuleLowerError::TooManyFunctions)
    } else {
        Ok(
            (
                CabiFieldValue::MaterialisedScratch {
                    scratch: (base + c.scratch) as u32,
                    ops: Box::new(ops),
                },
                Cursor { scratch: (c.scratch + 1) as u32, ..c },
            ),
        )
    }
}

/// `n` slots from slot `from` on.
pub open spec fn slots_from(from: int, n: nat) -> Seq<u32> {
    Seq::new(n, |i: int| (from + i) as u32)
}

/// The plan of a value of type `ty`, with `depth` levels of nesting left.
pub open spec fn value_plan(
    ty: ResolvedType,
    c: Cursor,
    base: u32,
    m: IrModule,
    depth: nat,
) -> Result<Planned, ModuleLowerError>
    decreases depth, 0int, 0int,
{
    if depth == 0 {
        Err(crate::module_lowering::error::unsupported(UnsupportedKind::NestingTooDeep))
    } else if crate::module_lowering::signature::is_text(ty) || crate::compound::shape_of(
        ty,
        m,
    ) is Array {
        match advanced(c, 2) {
            Err(x) => Err(x),
            Ok(c1) => parked(
                if crate::module_lowering::signature::is_text(ty) {
                    CabiMaterialisationOps::StringFromSlots {
                        ptr_slot: c.slot,
                        len_slot: (c.slot + 1) as u32,
                    }
                } else {
                    CabiMaterialisationOps::ListFromSlots {
                        ptr_slot: c.slot,
                        len_slot: (c.slot + 1) as u32,
                    }
                },
                c1,
                base,
            ),
        }
    } else {
        match ty {
            ResolvedType::Tuple(fields) => aggregate_plan(
                crate::layout::tuple_fields(fields),
                LayoutOwner::Tuple,
                c,
                base,
                m,
                (depth - 1) as nat,
            ),
            ResolvedType::Optional(payload) => match crate::layout::optional_plan(*payload) {
                Err(x) => Err(ModuleLowerError::Layout(x)),
                Ok(layout) => match flat(*payload, m, (depth - 1) as nat) {
                    Err(x) => Err(x),
                    Ok(s) => cell_plan(layout.size, layout.payload_offset, s.len(), c, base),
                },
            },
            _ => match (crate::compound::struct_id(ty), crate::compound::enum_id(ty)) {
                (Some(id), _) => match m.spec_struct(id) {
                    None => Err(
                        crate::module_lowering::error::unsupported(
                            UnsupportedKind::StructOutOfRange(id),
                        ),
                    ),
                    Some(s) => aggregate_plan(
                        s.fields@,
                        LayoutOwner::Struct(s.name),
                        c,
                        base,
                        m,
                        (depth - 1) as nat,
                    ),
                },
                (None, Some(id)) => match m.spec_enum(id) {
                    None => Err(
                        crate::module_lowering::error::unsupported(
                            UnsupportedKind::EnumOutOfRange(id),
                        ),
                    ),
                    Some(e) => match crate::layout::shapes_plan(e.name, instance_of(ty, id, e)) {
                        Err(x) => Err(ModuleLowerError::Layout(x)),
                        Ok(layout) => match largest_payload(
                            instance_of(ty, id, e),
                            0,
                            m,
                            (depth - 1) as nat,
                            Seq::empty(),
                        ) {
                            Err(x) => Err(x),
                            Ok(s) => cell_plan(
                                layout.size,
                                layout.payload_offset,
                                s.len(),
                                c,
                                base,
                            ),
                        },
                    },
                },
                (None, None) => match crate::types::body_val(ty) {
                    Err(x) => Err(ModuleLowerError::TypeMap(x)),
                    Ok(None) => Err(
                        crate::module_lowering::error::unsupported(
                            UnsupportedKind::BoundaryParameter(ty),
                        ),
                    ),
                    Ok(Some(valtype)) => match advanced(c, 1) {
                        Err(x) => Err(x),
                        Ok(c1) => Ok((CabiFieldValue::DirectSlot { slot: c.slot, valtype }, c1)),
                    },
                },
            },
        }
    }
}

/// The plan of a tagged cell: one slot for the tag, `payload` slots behind
/// it.
pub open spec fn cell_plan(
    size: u32,
    payload_offset: u32,
    payload: nat,
    c: Cursor,
    base: u32,
) -> Result<Planned, ModuleLowerError> {
    match advanced(c, 1 + payload) {
        Err(x) => Err(x),
        Ok(c1) => parked(
            CabiMaterialisationOps::Variant {
                size,
                tag_slot: c.slot,
                payload_offset,
                payload_slots: List::of_seq(slots_from(c.slot + 1, payload)),
            },
            c1,
            base,
        ),
    }
}

/// The plan of a struct or tuple with the given fields. Its own scratch
/// local comes after those of its fields.
pub open spec fn aggregate_plan(
    fields: Seq<IrField>,
    owner: LayoutOwner,
    c: Cursor,
    base: u32,
    m: IrModule,
    depth: nat,
) -> Result<Planned, ModuleLowerError>
    decreases depth, 2int, 0int,
{
    match crate::layout::fields_plan(owner, fields) {
        Err(x) => Err(ModuleLowerError::Layout(x)),
        Ok(layout) => match fields_plan(
            fields,
            layout.fields,
            0,
            c,
            base,
            m,
            depth,
            Seq::empty(),
        ) {
            Err(x) => Err(x),
            Ok((ops, c1)) => parked(
                CabiMaterialisationOps::Struct { size: layout.size, fields: List::of_seq(ops) },
                c1,
                base,
            ),
        },
    }
}

/// The plans of fields, from field `i` on, appended to `out`.
pub open spec fn fields_plan(
    fields: Seq<IrField>,
    places: Seq<FieldLayout>,
    i: int,
    c: Cursor,
    base: u32,
    m: IrModule,
    depth: nat,
    out: Seq<CabiStructFieldOp>,
) -> Result<(Seq<CabiStructFieldOp>, Cursor), ModuleLowerError>
    decreases depth, 1int, fields.len() - i,
{
    if i < 0 || i >= fields.len() || i >= places.len() {
        Ok((out, c))
    } else {
        match value_plan(fields[i].ty, c, base, m, depth) {
            Err(x) => Err(x),
            Ok((value, c1)) => fields_plan(
                fields,
                places,
                i + 1,
                c1,
                base,
                m,
                depth,
                out.push(CabiStructFieldOp { offset: places[i].offset, value }),
            ),
        }
    }
}

fn advance(c: Cursor, n: usize) -> (r: Result<Cursor, ModuleLowerError>)
    ensures
        r == advanced(c, n as nat),
{
    if n > 0xffff_ffff {
        return Err(ModuleLowerError::TooManyFunctions);
    }
    match c.slot.checked_add(n as u32) {
        Some(slot) => Ok(Cursor { slot, scratch: c.scratch }),
        None => Err(ModuleLowerError::TooManyFunctions),
    }
}

fn park(ops: CabiMaterialisationOps, c: Cursor, base: u32) -> (r: Result<Planned, ModuleLowerError>)
    ensures
        r == parked(ops, c, base),
{
    if c.scratch == 0xffff_ffff {
        return Err(ModuleLowerError::TooManyFunctions);
    }
    match base.checked_add(c.scratch) {
        None => Err(ModuleLowerError::TooManyFunctions),
        Some(scratch) => Ok(
            (
                CabiFieldValue::MaterialisedScratch { scratch, ops: Box::new(ops) },
                Cursor { slot: c.slot, scratch: c.scratch + 1 },
            ),
        ),
    }
}

/// Plan a value of type `ty`, taking flat slots and scratch locals from the
/// cursor.
pub fn build_cabi_field_value(
    ty: &ResolvedType,
    c: Cursor,
    scratch_base: u32,
    module: &IrModule,
    depth: u32,
) -> (r: Result<Planned, ModuleLowerError>)
    ensures
        r == value_plan(*ty, c, scratch_base, *module, depth as nat),
    decreases depth, 0int, 0int,
{
    if depth == 0 {
        return Err(not_supported(UnsupportedKind::NestingTooDeep));
    }
    let text = match ty {
        ResolvedType::Primitive(p) => *p == PrimitiveType::String || *p == PrimitiveType::Path
            || *p == PrimitiveType::Regex,
        _ => false,
    };
    let list = match Compound::of(ty, module) {
        Compound::Array(_) => true,
        _ => false,
    };
    if text || list {
        let c1 = advance(c, 2)?;
        let ops = if text {
            CabiMaterialisationOps::StringFromSlots { ptr_slot: c.slot, len_slot: c.slot + 1 }
        } else {
            CabiMaterialisationOps::ListFromSlots { ptr_slot: c.slot, len_slot: c.slot + 1 }
        };
        return park(ops, c1, scratch_base);
    }
    match ty {
        ResolvedType::Tuple(fields) => {
            let decl = tuple_struct_fields(fields);
            return build_cabi_struct_value(
                &decl,
                &LayoutOwner::Tuple,
                c,
                scratch_base,
                module,
                depth - 1,
            );
        },
        ResolvedType::Optional(payload) => {
            let layout = match plan_optional(payload, module) {
                Ok(l) => l,
                Err(x) => return Err(ModuleLowerError::Layout(x)),
            };
            let s = flatten_canonical_abi(payload, module, depth - 1)?;
            return build_cell(layout.size, layout.payload_offset, s.len(), c, scratch_base);
        },
        _ => {},
    }
    if let Some(id) = struct_id_of(ty) {
        return match module.get_struct(id) {
            None => Err(not_supported(UnsupportedKind::StructOutOfRange(id))),
            Some(s) => {
                let owner = LayoutOwner::Struct(s.name.clone());
                build_cabi_struct_value(&s.fields, &owner, c, scratch_base, module, depth - 1)
            },
        };
    }
    if let Some(id) = enum_id_of(ty) {
        return build_cabi_variant_value(ty, id, c, scratch_base, module, depth);
    }
    match body_value_type(ty) {
        Err(x) => Err(ModuleLowerError::TypeMap(x)),
        Ok(None) => Err(not_supported(UnsupportedKind::BoundaryParameter(ty.clone()))),
        Ok(Some(valtype)) => {
            let c1 = advance(c, 1)?;
            Ok((CabiFieldValue::DirectSlot { slot: c.slot, valtype }, c1))
        },
    }
}

fn build_cell(size: u32, payload_offset: u32, payload: usize, c: Cursor, base: u32) -> (r: Result<
    Planned,
    ModuleLowerError,
>)
    ensures
        r == cell_plan(size, payload_offset, payload as nat, c, base),
{
    if payload > 0xffff_fffe {
        return Err(ModuleLowerError::TooManyFunctions);
    }
    let c1 = advance(c, payload + 1)?;
    let mut slots: Vec<u32> = Vec::new();
    let mut i: usize = 0;
    while i < payload
        invariant
            i <= payload,
            c.slot + 1 + payload <= u32::MAX,
            slots@.len() == i,
            forall|k: int| 0 <= k < i ==> slots@[k] == (c.slot + 1 + k) as u32,
        decreases payload - i,
    {
        slots.push(c.slot + 1 + i as u32);
        i = i + 1;
    }
    proof {
        assert(slots@ =~= slots_from(c.slot + 1, payload as nat));
    }
    park(
        CabiMaterialisationOps::Variant {
            size,
            tag_slot: c.slot,
            payload_offset,
            payload_slots: List::from_vec(slots),
        },
        c1,
        base,
    )
}

fn build_cabi_variant_value(
    ty: &ResolvedType,
    id: EnumId,
    c: Cursor,
    scratch_base: u32,
    module: &IrModule,
    depth: u32,
) -> (r: Result<Planned, ModuleLowerError>)
    requires
        depth > 0,
        crate::compound::enum_id(*ty) == Some(id),
        !(crate::compound::shape_of(*ty, *module) is Array),
    ensures
        r == value_plan(*ty, c, scratch_base, *module, depth as nat),
{
    let e = match module.get_enum(id) {
        None => return Err(not_supported(UnsupportedKind::EnumOutOfRange(id))),
        Some(e) => e,
    };
    let args = generic_args_for_enum(ty, id);
    let instance = substitute_enum(e, &args);
    let layout = match plan_enum(&instance, module) {
        Ok(l) => l,
        Err(x) => return Err(ModuleLowerError::Layout(x)),
    };
    let s = flatten_largest(&instance, module, depth - 1)?;
    build_cell(layout.size, layout.payload_offset, s.len(), c, scratch_base)
}

fn build_cabi_struct_value(
    fields: &Vec<IrField>,
    owner: &LayoutOwner,
    c: Cursor,
    scratch_base: u32,
    module: &IrModule,
    depth: u32,
) -> (r: Result<Planned, ModuleLowerError>)
    ensures
        r == aggregate_plan(fields@, *owner, c, scratch_base, *module, depth as nat),
    decreases depth, 2int, 0int,
{
    let layout = match plan_fields(owner, fields) {
        Ok(l) => l,
        Err(x) => return Err(ModuleLowerError::Layout(x)),
    };
    let (ops, c1) = build_cabi_fields(fields, &layout.fields, c, scratch_base, module, depth)?;
    park(
        CabiMaterialisationOps::Struct { size: layout.size, fields: List::from_vec(ops) },
        c1,
        scratch_base,
    )
}

fn build_cabi_fields(
    fields: &Vec<IrField>,
    places: &Vec<FieldLayout>,
    c: Cursor,
    scratch_base: u32,
    module: &IrModule,
    depth: u32,
) -> (r: Result<(Vec<CabiStructFieldOp>, Cursor), ModuleLowerError>)
    ensures
        match r {
            Ok((ops, c1)) => fields_plan(
                fields@,
                places@,
                0,
                c,
                scratch_base,
                *module,
                depth as nat,
                Seq::empty(),
            ) == Ok::<(Seq<CabiStructFieldOp>, Cursor), ModuleLowerError>((ops@, c1)),
            Err(x) => fields_plan(
                fields@,
                places@,
                0,
                c,
                scratch_base,
                *module,
                depth as nat,
                Seq::empty(),
            ) == Err::<(Seq<CabiStructFieldOp>, Cursor), ModuleLowerError>(x),
        },
    decreases depth, 1int, fields@.len(),
{
    let mut out: Vec<CabiStructFieldOp> = Vec::new();
    let mut at: Cursor = c;
    let mut i: usize = 0;
    while i < fields.len() && i < places.len()
        invariant
            i <= fields@.len(),
            fields_plan(
                fields@,
                places@,
                0,
                c,
                scratch_base,
                *module,
                depth as nat,
                Seq::empty(),
            ) == fields_plan(
                fields@,
                places@,
                i as int,
                at,
                scratch_base,
                *module,
                depth as nat,
                out@,
            ),
        decreases fields@.len() - i,
    {
        let (value, next) = build_cabi_field_value(
            &fields[i].ty,
            at,
            scratch_base,
            module,
            depth,
        )?;
        out.push(CabiStructFieldOp { offset: places[i].offset, value });
        at = next;
        i = i + 1;
    }
    Ok((out, at))
}

// ── code ─────────────────────────────────────────────────────────────

/// Store a local at `offset` behind the pointer in `scratch`.
pub open spec fn store_slot(
    scratch: u32,
    slot: u32,
    op: StoreOp,
    offset: u32,
    s: SinkView,
) -> SinkView {
    s.emit(Instr::LocalGet(scratch)).emit(Instr::LocalGet(slot)).emit(
        Instr::Store(op, crate::module::word_at(offset)),
    )
}

/// The store of a value type.
pub open spec fn store_of(vt: ValType) -> StoreOp {
    match vt {
        ValType::I32 => StoreOp::I32,
        ValType::I64 => StoreOp::I64,
        ValType::F32 => StoreOp::F32,
        ValType::F64 => StoreOp::F64,
    }
}

/// Allocate `size` bytes and park their address.
pub open spec fn allocate(size: i32, alloc: u32, scratch: u32, s: SinkView) -> SinkView {
    s.emit(Instr::I32Const(size)).emit(Instr::Call(alloc)).emit(Instr::LocalSet(scratch))
}

/// `size` as a signed constant, 0 where it does not fit.
pub open spec fn size_const(size: u32) -> i32 {
    if size > i32::MAX {
        0
    } else {
        size as i32
    }
}

/// Where word `i` of a payload goes.
pub open spec fn word_offset(payload_offset: u32, i: int) -> u32 {
    let by = if crate::survey::index_u32(i) == i {
        if i * 4 > u32::MAX {
            u32::MAX as int
        } else {
            i * 4
        }
    } else {
        0
    };
    if payload_offset + by > u32::MAX {
        payload_offset
    } else {
        (payload_offset + by) as u32
    }
}

/// The stores of the payload words, from word `i` on.
pub open spec fn payload_code(
    slots: Seq<u32>,
    i: int,
    payload_offset: u32,
    scratch: u32,
    s: SinkView,
) -> SinkView
    decreases slots.len() - i,
{
    if i < 0 || i >= slots.len() {
        s
    } else {
        payload_code(
            slots,
            i + 1,
            payload_offset,
            scratch,
            store_slot(scratch, slots[i], StoreOp::I32, word_offset(payload_offset, i), s),
        )
    }
}

/// The code that builds a value in memory and parks its address in
/// `scratch`.
pub open spec fn materialised(
    ops: CabiMaterialisationOps,
    scratch: u32,
    alloc: u32,
    s: SinkView,
) -> SinkView
    decreases ops,
{
    match ops {
        CabiMaterialisationOps::StringFromSlots { ptr_slot, len_slot } => header_code(
            STRING_HEADER_SIZE,
            ptr_slot,
            len_slot,
            scratch,
            alloc,
            s,
        ),
        CabiMaterialisationOps::ListFromSlots { ptr_slot, len_slot } => store_slot(
            scratch,
            len_slot,
            StoreOp::I32,
            ARRAY_HEADER_CAP_OFFSET,
            header_code(ARRAY_HEADER_SIZE, ptr_slot, len_slot, scratch, alloc, s),
        ),
        CabiMaterialisationOps::Struct { size, fields } => fields_code(
            fields,
            scratch,
            alloc,
            allocate(size_const(size), alloc, scratch, s),
        ),
        CabiMaterialisationOps::Variant { size, tag_slot, payload_offset, payload_slots } => payload_code(
            payload_slots.seq(),
            0,
            payload_offset,
            scratch,
            store_slot(
                scratch,
                tag_slot,
                StoreOp::I32,
                0,
                allocate(size_const(size), alloc, scratch, s),
            ),
        ),
    }
}

/// The code of a header of pointer and length.
pub open spec fn header_code(
    size: u32,
    ptr_slot: u32,
    len_slot: u32,
    scratch: u32,
    alloc: u32,
    s: SinkView,
) -> SinkView {
    store_slot(
        scratch,
        len_slot,
        StoreOp::I32,
        STRING_LEN_OFFSET,
        store_slot(
            scratch,
            ptr_slot,
            StoreOp::I32,
            STRING_PTR_OFFSET,
            allocate(size as i32, alloc, scratch, s),
        ),
    )
}

/// The code that fills a struct's fields.
pub open spec fn fields_code(
    fields: List<CabiStructFieldOp>,
    scratch: u32,
    alloc: u32,
    s: SinkView,
) -> SinkView
    decreases fields,
{
    match fields {
        List::Nil => s,
        List::Cons(f, rest) => fields_code(
            *rest,
            scratch,
            alloc,
            match f.value {
                CabiFieldValue::DirectSlot { slot, valtype } => store_slot(
                    scratch,
                    slot,
                    store_of(valtype),
                    f.offset,
                    s,
                ),
                CabiFieldValue::MaterialisedScratch { scratch: sub, ops } => store_slot(
                    scratch,
                    sub,
                    StoreOp::I32,
                    f.offset,
                    materialised(*ops, sub, alloc, s),
                ),
            },
        ),
    }
}

fn emit_store_slot(scratch: u32, slot: u32, op: StoreOp, offset: u32, sink: &mut InstructionSink)
    ensures
        final(sink)@ == store_slot(scratch, slot, op, offset, old(sink)@),
{
    sink.emit(Instr::LocalGet(scratch));
    sink.emit(Instr::LocalGet(slot));
    sink.emit(
        Instr::Store(
            op,
            MemArg { offset: offset as u64, align: 2, memory_index: MEMORY_INDEX },
        ),
    );
}

fn emit_allocate(size: i32, alloc: u32, scratch: u32, sink: &mut InstructionSink)
    ensures
        final(sink)@ == allocate(size, alloc, scratch, old(sink)@),
{
    sink.emit(Instr::I32Const(size));
    sink.emit(Instr::Call(alloc));
    sink.emit(Instr::LocalSet(scratch));
}

fn signed_size(size: u32) -> (r: i32)
    ensures
        r == size_const(size),
{
    if size > 0x7fff_ffff {
        0
    } else {
        size as i32
    }
}

fn payload_word(payload_offset: u32, i: usize) -> (r: u32)
    ensures
        r == word_offset(payload_offset, i as int),
{
    let by: u32 = if i > 0xffff_ffff {
        0
    } else if i > 0x3fff_ffff {
        0xffff_ffff
    } else {
        i as u32 * 4
    };
    match payload_offset.checked_add(by) {
        Some(n) => n,
        None => payload_offset,
    }
}

/// Write the code that builds a value in memory.
pub fn emit_cabi_materialise(
    ops: &CabiMaterialisationOps,
    scratch: u32,
    sink: &mut InstructionSink,
    alloc: u32,
)
    ensures
        final(sink)@ == materialised(*ops, scratch, alloc, old(sink)@),
    decreases *ops,
{
    match ops {
        CabiMaterialisationOps::StringFromSlots { ptr_slot, len_slot } => {
            emit_allocate(STRING_HEADER_SIZE as i32, alloc, scratch, sink);
            emit_store_slot(scratch, *ptr_slot, StoreOp::I32, STRING_PTR_OFFSET, sink);
            emit_store_slot(scratch, *len_slot, StoreOp::I32, STRING_LEN_OFFSET, sink);
        },
        CabiMaterialisationOps::ListFromSlots { ptr_slot, len_slot } => {
            emit_allocate(ARRAY_HEADER_SIZE as i32, alloc, scratch, sink);
            emit_store_slot(scratch, *ptr_slot, StoreOp::I32, STRING_PTR_OFFSET, sink);
            emit_store_slot(scratch, *len_slot, StoreOp::I32, STRING_LEN_OFFSET, sink);
            emit_store_slot(scratch, *len_slot, StoreOp::I32, ARRAY_HEADER_CAP_OFFSET, sink);
        },
        CabiMaterialisationOps::Struct { size, fields } => {
            emit_allocate(signed_size(*size), alloc, scratch, sink);
            emit_cabi_fields(fields, scratch, sink, alloc);
        },
        CabiMaterialisationOps::Variant { size, tag_slot, payload_offset, payload_slots } => {
            emit_allocate(signed_size(*size), alloc, scratch, sink);
            emit_store_slot(scratch, *tag_slot, StoreOp::I32, 0, sink);
            let slots = payload_slots.to_vec_u32();
            let ghost before = sink@;
            let mut i: usize = 0;
            while i < slots.len()
                invariant
                    i <= slots@.len(),
                    payload_code(slots@, 0, *payload_offset, scratch, before) == payload_code(
                        slots@,
                        i as int,
                        *payload_offset,
                        scratch,
                        sink@,
                    ),
                decreases slots@.len() - i,
            {
                emit_store_slot(
                    scratch,
                    slots[i],
                    StoreOp::I32,
                    payload_word(*payload_offset, i),
                    sink,
                );
                i = i + 1;
            }
        },
    }
}

fn emit_cabi_fields(
    fields: &List<CabiStructFieldOp>,
    scratch: u32,
    sink: &mut InstructionSink,
    alloc: u32,
)
    ensures
        final(sink)@ == fields_code(*fields, scratch, alloc, old(sink)@),
    decreases *fields,
{
    match fields {
        List::Nil => {},
        List::Cons(f, rest) => {
            match &f.value {
                CabiFieldValue::DirectSlot { slot, valtype } => {
                    let op: StoreOp = match *valtype {
                        ValType::I32 => StoreOp::I32,
                        ValType::I64 => StoreOp::I64,
                        ValType::F32 => StoreOp::F32,
                        ValType::F64 => StoreOp::F64,
                    };
                    emit_store_slot(scratch, *slot, op, f.offset, sink);
                },
                CabiFieldValue::MaterialisedScratch { scratch: sub, ops } => {
                    emit_cabi_materialise(ops, *sub, sink, alloc);
                    emit_store_slot(scratch, *sub, StoreOp::I32, f.offset, sink);
                },
            }
            emit_cabi_fields(rest, scratch, sink, alloc);
        },
    }
}

// ── laws ─────────────────────────────────────────────────────────────

/// A plan took `n` flat slots.
pub open spec fn took(before: Cursor, after: Cursor, n: nat) -> bool {
    after.slot == before.slot + n && before.scratch <= after.scratch
}

proof fn lemma_flat_fields(
    fields: Seq<IrField>,
    i: int,
    m: IrModule,
    depth: nat,
    out: Seq<ValType>,
    other: Seq<ValType>,
)
    ensures
        match (flat_fields(fields, i, m, depth, out), flat_fields(fields, i, m, depth, other)) {
            (Ok(a), Ok(b)) => a.len() - out.len() == b.len() - other.len() && a.len() >= out.len(),
            (Err(a), Err(b)) => a == b,
            _ => false,
        },
    decreases fields.len() - i,
{
    if 0 <= i < fields.len() {
        if let Ok(s) = flat(fields[i].ty, m, depth) {
            lemma_flat_fields(fields, i + 1, m, depth, out + s, other + s);
        }
    }
}

/// Planning a value takes exactly the slots that flattening its type gives.
pub proof fn law_planning_takes_every_slot(
    ty: ResolvedType,
    c: Cursor,
    base: u32,
    m: IrModule,
    depth: nat,
)
    ensures
        value_plan(ty, c, base, m, depth) matches Ok(x) ==> {
            &&& flat(ty, m, depth) matches Ok(s)
            &&& took(c, x.1, s.len())
        },
    decreases depth, 0int, 0int,
{
    if depth > 0 && value_plan(ty, c, base, m, depth) is Ok {
        let inner = (depth - 1) as nat;
        if !(crate::module_lowering::signature::is_text(ty) || crate::compound::shape_of(
            ty,
            m,
        ) is Array) {
            match ty {
                ResolvedType::Tuple(fields) => {
                    lemma_aggregate_takes_every_slot(
                        crate::layout::tuple_fields(fields),
                        LayoutOwner::Tuple,
                        c,
                        base,
                        m,
                        inner,
                    );
                },
                ResolvedType::Optional(_) => {},
                _ => {
                    if let Some(id) = crate::compound::struct_id(ty) {
                        let s = m.spec_struct(id)->Some_0;
                        lemma_aggregate_takes_every_slot(
                            s.fields@,
                            LayoutOwner::Struct(s.name),
                            c,
                            base,
                            m,
                            inner,
                        );
                    }
                },
            }
        }
    }
}

proof fn lemma_aggregate_takes_every_slot(
    fields: Seq<IrField>,
    owner: LayoutOwner,
    c: Cursor,
    base: u32,
    m: IrModule,
    depth: nat,
)
    ensures
        aggregate_plan(fields, owner, c, base, m, depth) matches Ok(x) ==> {
            &&& flat_fields(fields, 0, m, depth, Seq::empty()) matches Ok(s)
            &&& took(c, x.1, s.len())
        },
    decreases depth, 2int, 0int,
{
    if aggregate_plan(fields, owner, c, base, m, depth) is Ok {
        crate::layout::lemma_plan_well(owner, fields);
        let layout = crate::layout::fields_plan(owner, fields)->Ok_0;
        lemma_fields_take_every_slot(
            fields,
            layout.fields,
            0,
            c,
            base,
            m,
            depth,
            Seq::empty(),
        );
    }
}

proof fn lemma_fields_take_every_slot(
    fields: Seq<IrField>,
    places: Seq<FieldLayout>,
    i: int,
    c: Cursor,
    base: u32,
    m: IrModule,
    depth: nat,
    out: Seq<CabiStructFieldOp>,
)
    requires
        0 <= i <= fields.len(),
        places.len() == fields.len(),
    ensures
        fields_plan(fields, places, i, c, base, m, depth, out) matches Ok(x) ==> {
            &&& flat_fields(fields, i, m, depth, Seq::empty()) matches Ok(s)
            &&& took(c, x.1, s.len())
        },
    decreases depth, 1int, fields.len() - i,
{
    if i < fields.len() && fields_plan(fields, places, i, c, base, m, depth, out) is Ok {
        law_planning_takes_every_slot(fields[i].ty, c, base, m, depth);
        let (value, c1) = value_plan(fields[i].ty, c, base, m, depth)->Ok_0;
        let s = flat(fields[i].ty, m, depth)->Ok_0;
        lemma_fields_take_every_slot(
            fields,
            places,
            i + 1,
            c1,
            base,
            m,
            depth,
            out.push(CabiStructFieldOp { offset: places[i].offset, value }),
        );
        lemma_flat_fields(fields, i + 1, m, depth, Seq::empty(), Seq::empty() + s);
    }
}

} // verus!
