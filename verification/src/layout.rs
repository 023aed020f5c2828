//! Memory-layout planner.
//!
//! Decides where each field of an aggregate lives in linear memory:
//!
//! | type          | size | align |
//! | ------------- | ---: | ----: |
//! | `bool`        | 1    | 1     |
//! | `s32` / `f32` | 4    | 4     |
//! | `s64` / `f64` | 8    | 8     |
//!
//! Each field starts at the next offset rounded up to the field's
//! alignment; the total size is rounded up to the aggregate's alignment,
//! the maximum of its field alignments (1 when there are no fields).

use vstd::prelude::*;

use crate::ir::{IrEnum, IrField, IrModule, IrStruct, List, PrimitiveType, ResolvedType};
use crate::types::{unsupported_kind, UnsupportedKind};

verus! {

/// The aggregate a layout error is about.
#[derive(Debug, PartialEq, Eq)]
pub enum LayoutOwner {
    Struct(String),
    Enum(String),
    Variant { enum_name: String, variant: String },
    Tuple,
    Range,
    Optional,
    Aggregate,
    ArrayBuffer,
    ArrayElementOffset,
    ArrayElement,
    ForHeader,
    ForElement,
}

impl Clone for LayoutOwner {
    fn clone(&self) -> (r: Self)
        ensures
            r == *self,
    {
        match self {
            LayoutOwner::Struct(name) => LayoutOwner::Struct(name.clone()),
            LayoutOwner::Enum(name) => LayoutOwner::Enum(name.clone()),
            LayoutOwner::Variant { enum_name, variant } => LayoutOwner::Variant {
                enum_name: enum_name.clone(),
                variant: variant.clone(),
            },
            LayoutOwner::Tuple => LayoutOwner::Tuple,
            LayoutOwner::Range => LayoutOwner::Range,
            LayoutOwner::Optional => LayoutOwner::Optional,
            LayoutOwner::Aggregate => LayoutOwner::Aggregate,
            LayoutOwner::ArrayBuffer => LayoutOwner::ArrayBuffer,
            LayoutOwner::ArrayElementOffset => LayoutOwner::ArrayElementOffset,
            LayoutOwner::ArrayElement => LayoutOwner::ArrayElement,
            LayoutOwner::ForHeader => LayoutOwner::ForHeader,
            LayoutOwner::ForElement => LayoutOwner::ForElement,
        }
    }
}

/// Errors produced by the planners.
#[allow(inconsistent_fields)]
#[derive(Debug, PartialEq, Eq)]
pub enum LayoutError {
    /// The type has no inline storage.
    NotYetSupported { kind: UnsupportedKind },
    /// A field is marked optional.
    OptionalField { owner: LayoutOwner, field: String },
    /// The padded size does not fit in 32 bits.
    SizeOverflow { name: LayoutOwner },
    /// The tag cannot number every variant.
    TooManyVariants { name: String },
    /// The enum has no variants, so it has no values.
    UninhabitedEnum { name: String },
}

/// Where a single field lives inside its aggregate.
#[derive(Clone, Copy, Debug, PartialEq, Eq, Structural)]
pub struct FieldLayout {
    /// Byte offset from the start of the aggregate.
    pub offset: u32,
    /// Size in bytes, without padding.
    pub size: u32,
    /// Alignment in bytes.
    pub align: u32,
}

/// Layout of a struct or tuple.
#[derive(Debug, PartialEq, Eq)]
pub struct StructLayout {
    /// Total size in bytes, trailing padding counted.
    pub size: u32,
    /// Maximum field alignment, or 1 without fields.
    pub align: u32,
    /// One entry per field, in declaration order.
    pub fields: Vec<FieldLayout>,
}

/// Layout of one variant inside an [`EnumLayout`].
#[derive(Debug, PartialEq, Eq)]
pub struct VariantLayout {
    pub name: String,
    /// Discriminant stored in the tag slot: the declaration position.
    pub tag: u32,
    /// Payload fields, at offsets from the enum value's base.
    pub fields: Vec<FieldLayout>,
}

/// Layout of an enum. Every variant takes the same number of bytes.
#[derive(Debug, PartialEq, Eq)]
pub struct EnumLayout {
    pub size: u32,
    pub align: u32,
    /// Offset of the tag, always 0.
    pub tag_offset: u32,
    /// Offset where every variant's payload starts.
    pub payload_offset: u32,
    pub variants: Vec<VariantLayout>,
}

/// Layout of an array: a `{ ptr, len, cap }` header and an element buffer.
#[derive(Clone, Copy, Debug, PartialEq, Eq, Structural)]
pub struct ArrayLayout {
    pub header_size: u32,
    pub header_align: u32,
    pub element_size: u32,
    pub element_align: u32,
}

/// Layout of a range: `{ start, end }`.
#[derive(Clone, Copy, Debug, PartialEq, Eq, Structural)]
pub struct RangeLayout {
    pub size: u32,
    pub align: u32,
    pub bound_size: u32,
    pub bound_align: u32,
    /// Offset of `end`; `start` is at 0.
    pub end_offset: u32,
}

/// Layout of an optional: a tag followed by the payload.
#[derive(Clone, Copy, Debug, PartialEq, Eq, Structural)]
pub struct OptionalLayout {
    pub size: u32,
    pub align: u32,
    pub tag_offset: u32,
    pub payload_offset: u32,
    pub payload_size: u32,
    pub payload_align: u32,
}

/// Size of an enum's discriminant tag.
pub const ENUM_TAG_SIZE: u32 = 4;

/// Alignment of an enum's discriminant tag.
pub const ENUM_TAG_ALIGN: u32 = 4;

/// Size of an optional's discriminant tag.
pub const OPTIONAL_TAG_SIZE: u32 = 4;

/// Alignment of an optional's discriminant tag.
pub const OPTIONAL_TAG_ALIGN: u32 = 4;

/// Tag of an absent value.
pub const OPTIONAL_TAG_NIL: u32 = 0;

/// Tag of a present value.
pub const OPTIONAL_TAG_SOME: u32 = 1;

/// Size of an array header: `{ ptr: i32, len: i32, cap: i32 }`.
pub const ARRAY_HEADER_SIZE: u32 = 12;

/// Alignment of an array header.
pub const ARRAY_HEADER_ALIGN: u32 = 4;

/// Offset of the buffer pointer in an array header.
pub const ARRAY_HEADER_PTR_OFFSET: u32 = 0;

/// Offset of the length in an array header.
pub const ARRAY_HEADER_LEN_OFFSET: u32 = 4;

/// Offset of the capacity in an array header.
pub const ARRAY_HEADER_CAP_OFFSET: u32 = 8;

/// Size of a string header: `{ ptr: i32, len: i32 }`.
pub const STRING_HEADER_SIZE: u32 = 8;

/// Alignment of a string header.
pub const STRING_HEADER_ALIGN: u32 = 4;

/// Offset of the byte pointer in a string header.
pub const STRING_PTR_OFFSET: u32 = 0;

/// Offset of the byte length in a string header.
pub const STRING_LEN_OFFSET: u32 = 4;

/// Size of one method-table cell.
pub const VTABLE_SLOT_SIZE: u32 = 4;

/// Alignment of one method-table cell.
pub const VTABLE_SLOT_ALIGN: u32 = 4;

/// Size of a pointer stored in an aggregate.
pub const POINTER_SIZE: u32 = 4;

/// Alignment of a pointer stored in an aggregate.
pub const POINTER_ALIGN: u32 = 4;

// ── models ───────────────────────────────────────────────────────────

/// The least multiple of `align` that is not below `n`.
pub open spec fn round_up(n: int, align: int) -> int {
    if align <= 1 {
        n
    } else {
        ((n + align - 1) / align) * align
    }
}

/// The larger of two numbers.
pub open spec fn larger(a: int, b: int) -> int {
    if a >= b {
        a
    } else {
        b
    }
}

/// Size and alignment of a primitive stored inline.
pub open spec fn primitive_storage(p: PrimitiveType) -> Option<(u32, u32)> {
    match p {
        PrimitiveType::Boolean => Some((1, 1)),
        PrimitiveType::I32 => Some((4, 4)),
        PrimitiveType::F32 => Some((4, 4)),
        PrimitiveType::I64 => Some((8, 8)),
        PrimitiveType::F64 => Some((8, 8)),
        _ => None,
    }
}

/// The rejection of `ty` as a stored type.
pub open spec fn not_stored(ty: ResolvedType) -> LayoutError {
    LayoutError::NotYetSupported { kind: crate::types::kind_of(ty) }
}

/// Size and alignment of a field type: storable primitives only.
pub open spec fn field_storage(ty: ResolvedType) -> Result<(u32, u32), LayoutError> {
    match ty {
        ResolvedType::Primitive(p) => match primitive_storage(p) {
            Some(sa) => Ok(sa),
            None => Err(not_stored(ty)),
        },
        _ => Err(not_stored(ty)),
    }
}

/// Size and alignment of an array element: storable primitives inline,
/// structs, enums, tuples and arrays as pointers.
pub open spec fn element_storage(ty: ResolvedType) -> Result<(u32, u32), LayoutError> {
    match ty {
        ResolvedType::Primitive(_) => field_storage(ty),
        ResolvedType::Struct(_) => Ok((POINTER_SIZE, POINTER_ALIGN)),
        ResolvedType::Enum(_) => Ok((POINTER_SIZE, POINTER_ALIGN)),
        ResolvedType::Tuple(_) => Ok((POINTER_SIZE, POINTER_ALIGN)),
        ResolvedType::Array(_) => Ok((POINTER_SIZE, POINTER_ALIGN)),
        _ => Err(not_stored(ty)),
    }
}

/// Fields placed so far: where they end, their joint alignment, and the
/// place of each.
pub struct Placed {
    pub end: int,
    pub align: int,
    pub fields: Seq<FieldLayout>,
}

/// Place the first `k` of `fields` one after the other.
pub open spec fn place(owner: LayoutOwner, fields: Seq<IrField>, k: nat) -> Result<
    Placed,
    LayoutError,
>
    decreases k,
{
    if k == 0 {
        Ok(Placed { end: 0, align: 1, fields: Seq::empty() })
    } else {
        match place(owner, fields, (k - 1) as nat) {
            Err(e) => Err(e),
            Ok(p) => place_next(owner, p, fields[k - 1]),
        }
    }
}

/// Place `f` after what `p` already holds.
pub open spec fn place_next(owner: LayoutOwner, p: Placed, f: IrField) -> Result<
    Placed,
    LayoutError,
> {
    if f.optional {
        Err(LayoutError::OptionalField { owner, field: f.name })
    } else {
        match field_storage(f.ty) {
            Err(e) => Err(e),
            Ok((size, align)) => {
                let start = round_up(p.end, align as int);
                if start + size > u32::MAX {
                    Err(LayoutError::SizeOverflow { name: owner })
                } else {
                    Ok(
                        Placed {
                            end: start + size,
                            align: larger(p.align, align as int),
                            fields: p.fields.push(
                                FieldLayout { offset: start as u32, size, align },
                            ),
                        },
                    )
                }
            },
        }
    }
}

/// The content of a [`StructLayout`].
pub struct StructPlan {
    pub size: u32,
    pub align: u32,
    pub fields: Seq<FieldLayout>,
}

impl View for StructLayout {
    type V = StructPlan;

    open spec fn view(&self) -> StructPlan {
        StructPlan { size: self.size, align: self.align, fields: self.fields@ }
    }
}

/// Layout of an aggregate with the given fields.
pub open spec fn fields_plan(owner: LayoutOwner, fields: Seq<IrField>) -> Result<
    StructPlan,
    LayoutError,
> {
    match place(owner, fields, fields.len()) {
        Err(e) => Err(e),
        Ok(p) => {
            let size = round_up(p.end, p.align);
            if size > u32::MAX {
                Err(LayoutError::SizeOverflow { name: owner })
            } else {
                Ok(StructPlan { size: size as u32, align: p.align as u32, fields: p.fields })
            }
        },
    }
}

/// Layout of a struct.
pub open spec fn struct_plan(s: IrStruct) -> Result<StructPlan, LayoutError> {
    fields_plan(LayoutOwner::Struct(s.name), s.fields@)
}

/// The content of a [`VariantLayout`].
pub struct VariantPlan {
    pub name: String,
    pub tag: u32,
    pub fields: Seq<FieldLayout>,
}

impl View for VariantLayout {
    type V = VariantPlan;

    open spec fn view(&self) -> VariantPlan {
        VariantPlan { name: self.name, tag: self.tag, fields: self.fields@ }
    }
}

/// The content of an [`EnumLayout`].
pub struct EnumPlan {
    pub size: u32,
    pub align: u32,
    pub tag_offset: u32,
    pub payload_offset: u32,
    pub variants: Seq<VariantPlan>,
}

impl View for EnumLayout {
    type V = EnumPlan;

    open spec fn view(&self) -> EnumPlan {
        EnumPlan {
            size: self.size,
            align: self.align,
            tag_offset: self.tag_offset,
            payload_offset: self.payload_offset,
            variants: Seq::new(self.variants@.len(), |i: int| self.variants@[i]@),
        }
    }
}

/// What the planner reads of one variant.
#[verifier::ext_equal]
pub struct VariantShape {
    pub name: String,
    pub fields: Seq<IrField>,
}

/// What the planner reads of an enum's variants.
pub open spec fn variant_shapes(e: IrEnum) -> Seq<VariantShape> {
    Seq::new(
        e.variants@.len(),
        |i: int| VariantShape { name: e.variants@[i].name, fields: e.variants@[i].fields@ },
    )
}

/// The owner under which the payload of a variant is planned.
pub open spec fn variant_owner(name: String, v: VariantShape) -> LayoutOwner {
    LayoutOwner::Variant { enum_name: name, variant: v.name }
}

/// The first `k` variants' payloads, each laid out like a struct.
pub open spec fn payload_plans(name: String, shapes: Seq<VariantShape>, k: nat) -> Result<
    Seq<StructPlan>,
    LayoutError,
>
    decreases k,
{
    if k == 0 {
        Ok(Seq::empty())
    } else {
        match payload_plans(name, shapes, (k - 1) as nat) {
            Err(x) => Err(x),
            Ok(done) => match fields_plan(
                variant_owner(name, shapes[k - 1]),
                shapes[k - 1].fields,
            ) {
                Err(x) => Err(x),
                Ok(p) => Ok(done.push(p)),
            },
        }
    }
}

/// The largest payload alignment, at least 1.
pub open spec fn max_payload_align(plans: Seq<StructPlan>) -> int
    decreases plans.len(),
{
    if plans.len() == 0 {
        1
    } else {
        larger(max_payload_align(plans.drop_last()), plans.last().align as int)
    }
}

/// The largest payload size.
pub open spec fn max_payload_size(plans: Seq<StructPlan>) -> int
    decreases plans.len(),
{
    if plans.len() == 0 {
        0
    } else {
        larger(max_payload_size(plans.drop_last()), plans.last().size as int)
    }
}

/// `fields` moved `by` bytes up.
pub open spec fn shifted(fields: Seq<FieldLayout>, by: int) -> Seq<FieldLayout> {
    Seq::new(
        fields.len(),
        |i: int|
            FieldLayout {
                offset: (by + fields[i].offset) as u32,
                size: fields[i].size,
                align: fields[i].align,
            },
    )
}

/// Layout of an enum.
pub open spec fn enum_plan(e: IrEnum) -> Result<EnumPlan, LayoutError> {
    shapes_plan(e.name, variant_shapes(e))
}

/// Layout of an enum with the given variants: the tag, then the payload
/// area every variant shares.
pub open spec fn shapes_plan(name: String, shapes: Seq<VariantShape>) -> Result<
    EnumPlan,
    LayoutError,
> {
    if shapes.len() == 0 {
        Err(LayoutError::UninhabitedEnum { name })
    } else {
        match payload_plans(name, shapes, shapes.len()) {
            Err(x) => Err(x),
            Ok(plans) => {
                let payload_align = max_payload_align(plans);
                let align = larger(payload_align, ENUM_TAG_ALIGN as int);
                let payload_offset = round_up(ENUM_TAG_SIZE as int, payload_align);
                let size = round_up(payload_offset + max_payload_size(plans), align);
                if size > u32::MAX {
                    Err(LayoutError::SizeOverflow { name: LayoutOwner::Enum(name) })
                } else if plans.len() > u32::MAX + 1 {
                    Err(LayoutError::TooManyVariants { name })
                } else {
                    Ok(
                        EnumPlan {
                            size: size as u32,
                            align: align as u32,
                            tag_offset: 0,
                            payload_offset: payload_offset as u32,
                            variants: Seq::new(
                                plans.len(),
                                |i: int|
                                    VariantPlan {
                                        name: shapes[i].name,
                                        tag: i as u32,
                                        fields: shifted(plans[i].fields, payload_offset),
                                    },
                            ),
                        },
                    )
                }
            },
        }
    }
}

/// Layout of `Array<elem>`.
pub open spec fn array_plan(elem: ResolvedType) -> Result<ArrayLayout, LayoutError> {
    match element_storage(elem) {
        Err(e) => Err(e),
        Ok((size, align)) => Ok(
            ArrayLayout {
                header_size: ARRAY_HEADER_SIZE,
                header_align: ARRAY_HEADER_ALIGN,
                element_size: size,
                element_align: align,
            },
        ),
    }
}

/// Layout of `Range<bound>`: two bounds back to back.
pub open spec fn range_plan(bound: ResolvedType) -> Result<RangeLayout, LayoutError> {
    match bound {
        ResolvedType::Primitive(_) => match field_storage(bound) {
            Err(e) => Err(e),
            Ok((size, align)) => Ok(
                RangeLayout {
                    size: (2 * size) as u32,
                    align,
                    bound_size: size,
                    bound_align: align,
                    end_offset: size,
                },
            ),
        },
        _ => Err(LayoutError::NotYetSupported { kind: UnsupportedKind::RangeOver(bound) }),
    }
}

/// Layout of `Optional<payload>`: the tag, then the payload at its own
/// alignment.
pub open spec fn optional_plan(payload: ResolvedType) -> Result<OptionalLayout, LayoutError> {
    match field_storage(payload) {
        Err(e) => Err(e),
        Ok((size, align)) => {
            let whole = larger(align as int, OPTIONAL_TAG_ALIGN as int);
            let at = round_up(OPTIONAL_TAG_SIZE as int, align as int);
            Ok(
                OptionalLayout {
                    size: round_up(at + size, whole) as u32,
                    align: whole as u32,
                    tag_offset: 0,
                    payload_offset: at as u32,
                    payload_size: size,
                    payload_align: align,
                },
            )
        },
    }
}

// ── arithmetic ───────────────────────────────────────────────────────

/// `round_up` is the least multiple of `align` at or above `n`.
pub proof fn lemma_round_up(n: int, align: int)
    requires
        0 <= n,
        0 < align,
    ensures
        n <= round_up(n, align) < n + align,
        round_up(n, align) % align == 0,
        round_up(n, align) == (n + align - 1) - (n + align - 1) % align,
{
    if align == 1 {
        assert(n % 1 == 0) by (nonlinear_arith);
        assert(((n + align - 1) as int) % 1 == 0) by (nonlinear_arith);
    } else {
        let m = n + align - 1;
        vstd::arithmetic::div_mod::lemma_fundamental_div_mod(m, align);
        assert(align * (m / align) == (m / align) * align) by (nonlinear_arith);
        vstd::arithmetic::div_mod::lemma_mod_multiples_basic(m / align, align);
    }
}

/// A multiple of a power-of-two alignment is a multiple of every smaller
/// one.
proof fn lemma_aligned_to_smaller(n: int, big: int, small: int)
    requires
        n % big == 0,
        big == 1 || big == 4 || big == 8,
        small == 1 || small == 4 || small == 8,
        small <= big,
    ensures
        n % small == 0,
{
}

/// The sum of two multiples is a multiple.
proof fn lemma_sum_aligned(a: int, b: int, align: int)
    requires
        a % align == 0,
        b % align == 0,
        align == 1 || align == 4 || align == 8,
    ensures
        (a + b) % align == 0,
{
}

/// A number is a multiple of itself.
proof fn lemma_self_multiple(n: int)
    requires
        n > 0,
    ensures
        n % n == 0,
{
    vstd::arithmetic::div_mod::lemma_mod_self_0(n);
}

/// A storable primitive is as wide as it is aligned.
proof fn lemma_storage(ty: ResolvedType)
    requires
        field_storage(ty) is Ok,
    ensures
        ({
            let (size, align) = field_storage(ty)->Ok_0;
            size == align && (size == 1 || size == 4 || size == 8)
        }),
{
}

/// Roundings that occur for tags and bounds.
proof fn lemma_small_rounds()
    ensures
        round_up(1, 1) == 1,
        round_up(2, 1) == 2,
        round_up(4, 4) == 4,
        round_up(8, 4) == 8,
        round_up(8, 8) == 8,
        round_up(16, 8) == 16,
        round_up(4, 1) == 4,
        round_up(4, 8) == 8,
        round_up(5, 4) == 8,
{
}

// ── planners ─────────────────────────────────────────────────────────

/// Round `offset` up to the next multiple of `align`, a power of two.
/// `None` when the result does not fit.
pub fn align_up(offset: u32, align: u32) -> (r: Option<u32>)
    ensures
        r == (if round_up(offset as int, align as int) <= u32::MAX {
            Some(round_up(offset as int, align as int) as u32)
        } else {
            None
        }),
{
    if align <= 1 {
        return Some(offset);
    }
    proof {
        lemma_round_up(offset as int, align as int);
    }
    let sum: u64 = offset as u64 + (align - 1) as u64;
    let rounded: u64 = sum - sum % (align as u64);
    if rounded <= 0xffff_ffff {
        Some(rounded as u32)
    } else {
        None
    }
}

/// Size and alignment of a primitive stored inline.
fn primitive_size_align(p: PrimitiveType) -> (r: Result<(u32, u32), LayoutError>)
    ensures
        r == field_storage(ResolvedType::Primitive(p)),
{
    match p {
        PrimitiveType::Boolean => Ok((1, 1)),
        PrimitiveType::I32 | PrimitiveType::F32 => Ok((4, 4)),
        PrimitiveType::I64 | PrimitiveType::F64 => Ok((8, 8)),
        _ => Err(LayoutError::NotYetSupported { kind: UnsupportedKind::Primitive(p) }),
    }
}

/// Size and alignment of a field type.
fn type_size_align(ty: &ResolvedType) -> (r: Result<(u32, u32), LayoutError>)
    ensures
        r == field_storage(*ty),
{
    match ty {
        ResolvedType::Primitive(p) => primitive_size_align(*p),
        _ => Err(LayoutError::NotYetSupported { kind: unsupported_kind(ty) }),
    }
}

/// Size and alignment of an array element.
fn array_element_size_align(ty: &ResolvedType) -> (r: Result<(u32, u32), LayoutError>)
    ensures
        r == element_storage(*ty),
{
    match ty {
        ResolvedType::Primitive(p) => primitive_size_align(*p),
        ResolvedType::Struct(_)
        | ResolvedType::Enum(_)
        | ResolvedType::Tuple(_)
        | ResolvedType::Array(_) => Ok((POINTER_SIZE, POINTER_ALIGN)),
        _ => Err(LayoutError::NotYetSupported { kind: unsupported_kind(ty) }),
    }
}

/// Once placing fails it stays failed.
proof fn lemma_place_stops(owner: LayoutOwner, fields: Seq<IrField>, k: nat, n: nat)
    requires
        k <= n,
        place(owner, fields, k) is Err,
    ensures
        place(owner, fields, n) == place(owner, fields, k),
    decreases n,
{
    if k < n {
        lemma_place_stops(owner, fields, k, (n - 1) as nat);
    }
}

/// The fields are aligned, in order and disjoint, and lie below `end`.
pub open spec fn fields_well(end: int, align: int, fields: Seq<FieldLayout>) -> bool {
    &&& align == 1 || align == 4 || align == 8
    &&& 0 <= end <= u32::MAX
    &&& forall|i: int| 0 <= i < fields.len() ==> field_well(end, align, #[trigger] fields[i])
    &&& forall|i: int, j: int|
        0 <= i < j < fields.len() ==> (#[trigger] fields[i]).offset + fields[i].size <= (
        #[trigger] fields[j]).offset
}

/// One field lies below `end` at a multiple of its own alignment.
pub open spec fn field_well(end: int, align: int, f: FieldLayout) -> bool {
    &&& f.align == 1 || f.align == 4 || f.align == 8
    &&& f.align <= align
    &&& f.offset as int % f.align as int == 0
    &&& f.offset + f.size <= end
    &&& f.size >= 1
}

/// Placing keeps [`fields_well`].
proof fn lemma_placed_well(owner: LayoutOwner, fields: Seq<IrField>, k: nat)
    requires
        k <= fields.len(),
        place(owner, fields, k) is Ok,
    ensures
        ({
            let p = place(owner, fields, k)->Ok_0;
            fields_well(p.end, p.align, p.fields)
        }),
        place(owner, fields, k)->Ok_0.fields.len() == k,
    decreases k,
{
    if k > 0 {
        lemma_placed_well(owner, fields, (k - 1) as nat);
        let p = place(owner, fields, (k - 1) as nat)->Ok_0;
        let align = (field_storage(fields[k - 1].ty)->Ok_0).1;
        lemma_storage(fields[k - 1].ty);
        lemma_round_up(p.end, align as int);
    }
}

/// Lay the fields of an aggregate out.
pub fn plan_fields(owner: &LayoutOwner, fields: &Vec<IrField>) -> (r: Result<
    StructLayout,
    LayoutError,
>)
    ensures
        match r {
            Ok(layout) => fields_plan(*owner, fields@) == Ok::<StructPlan, LayoutError>(layout@),
            Err(e) => fields_plan(*owner, fields@) == Err::<StructPlan, LayoutError>(e),
        },
{
    let mut offset: u32 = 0;
    let mut max_align: u32 = 1;
    let mut placed: Vec<FieldLayout> = Vec::new();
    let mut i: usize = 0;
    while i < fields.len()
        invariant
            i <= fields@.len(),
            place(*owner, fields@, i as nat) == Ok::<Placed, LayoutError>(
                Placed { end: offset as int, align: max_align as int, fields: placed@ },
            ),
        decreases fields@.len() - i,
    {
        proof {
            lemma_placed_well(*owner, fields@, i as nat);
            if place(*owner, fields@, (i + 1) as nat) is Err {
                lemma_place_stops(*owner, fields@, (i + 1) as nat, fields@.len());
            }
        }
        let f = &fields[i];
        if f.optional {
            return Err(
                LayoutError::OptionalField { owner: owner.clone(), field: f.name.clone() },
            );
        }
        let (size, align) = type_size_align(&f.ty)?;
        proof {
            lemma_storage(f.ty);
            lemma_round_up(offset as int, align as int);
        }
        let start: u32 = match align_up(offset, align) {
            Some(s) => s,
            None => return Err(LayoutError::SizeOverflow { name: owner.clone() }),
        };
        let next: u32 = match start.checked_add(size) {
            Some(n) => n,
            None => return Err(LayoutError::SizeOverflow { name: owner.clone() }),
        };
        placed.push(FieldLayout { offset: start, size, align });
        offset = next;
        if align > max_align {
            max_align = align;
        }
        i = i + 1;
    }
    match align_up(offset, max_align) {
        Some(size) => Ok(StructLayout { size, align: max_align, fields: placed }),
        None => Err(LayoutError::SizeOverflow { name: owner.clone() }),
    }
}

/// Compute the layout of `s`.
pub fn plan_struct(s: &IrStruct, module: &IrModule) -> (r: Result<StructLayout, LayoutError>)
    ensures
        match r {
            Ok(layout) => struct_plan(*s) == Ok::<StructPlan, LayoutError>(layout@),
            Err(e) => struct_plan(*s) == Err::<StructPlan, LayoutError>(e),
        },
{
    let owner = LayoutOwner::Struct(s.name.clone());
    plan_fields(&owner, &s.fields)
}

/// Once a payload fails the enum fails with the same error.
proof fn lemma_payloads_stop(name: String, shapes: Seq<VariantShape>, k: nat, n: nat)
    requires
        k <= n,
        payload_plans(name, shapes, k) is Err,
    ensures
        payload_plans(name, shapes, n) == payload_plans(name, shapes, k),
    decreases n,
{
    if k < n {
        lemma_payloads_stop(name, shapes, k, (n - 1) as nat);
    }
}

/// A finished struct plan keeps every field inside its size.
pub open spec fn plan_well(p: StructPlan) -> bool {
    &&& p.align == 1 || p.align == 4 || p.align == 8
    &&& p.size as int % p.align as int == 0
    &&& fields_well(p.size as int, p.align as int, p.fields)
}

/// A plan has a place for every field, in bounds, aligned and apart from the
/// others.
pub proof fn lemma_plan_well(owner: LayoutOwner, fields: Seq<IrField>)
    requires
        fields_plan(owner, fields) is Ok,
    ensures
        plan_well(fields_plan(owner, fields)->Ok_0),
        fields_plan(owner, fields)->Ok_0.fields.len() == fields.len(),
{
    lemma_placed_well(owner, fields, fields.len());
    let p = place(owner, fields, fields.len())->Ok_0;
    lemma_round_up(p.end, p.align);
}

/// Every payload plan is well formed and bounded by the maxima.
pub proof fn lemma_payloads_well(name: String, shapes: Seq<VariantShape>, k: nat)
    requires
        k <= shapes.len(),
        payload_plans(name, shapes, k) is Ok,
    ensures
        ({
            let plans = payload_plans(name, shapes, k)->Ok_0;
            let a = max_payload_align(plans);
            &&& plans.len() == k
            &&& a == 1 || a == 4 || a == 8
            &&& 0 <= max_payload_size(plans) <= u32::MAX
            &&& forall|i: int|
                0 <= i < k ==> {
                    &&& plan_well(#[trigger] plans[i])
                    &&& plans[i].align <= a
                    &&& plans[i].size <= max_payload_size(plans)
                    &&& plans[i].fields.len() == shapes[i].fields.len()
                }
        }),
    decreases k,
{
    if k > 0 {
        lemma_payloads_well(name, shapes, (k - 1) as nat);
        lemma_plan_well(variant_owner(name, shapes[k - 1]), shapes[k - 1].fields);
        let plans = payload_plans(name, shapes, k)->Ok_0;
        let done = payload_plans(name, shapes, (k - 1) as nat)->Ok_0;
        assert(plans.drop_last() =~= done);
        assert forall|i: int| 0 <= i < k implies {
            &&& plan_well(#[trigger] plans[i])
            &&& plans[i].align <= max_payload_align(plans)
            &&& plans[i].size <= max_payload_size(plans)
            &&& plans[i].fields.len() == shapes[i].fields.len()
        } by {
            if i < k - 1 {
                assert(plans[i] == done[i]);
            }
        }
    }
}

/// Move a variant's fields past the tag.
fn shift_fields(fields: &Vec<FieldLayout>, by: u32) -> (r: Vec<FieldLayout>)
    requires
        forall|i: int| 0 <= i < fields@.len() ==> by + (#[trigger] fields@[i]).offset <= u32::MAX,
    ensures
        r@ == shifted(fields@, by as int),
{
    let mut out: Vec<FieldLayout> = Vec::new();
    let mut i: usize = 0;
    while i < fields.len()
        invariant
            i <= fields@.len(),
            forall|j: int|
                0 <= j < fields@.len() ==> by + (#[trigger] fields@[j]).offset <= u32::MAX,
            out@ == shifted(fields@, by as int).take(i as int),
        decreases fields@.len() - i,
    {
        let f = fields[i];
        out.push(FieldLayout { offset: by + f.offset, size: f.size, align: f.align });
        proof {
            assert(shifted(fields@, by as int).take(i as int + 1) =~= shifted(
                fields@,
                by as int,
            ).take(i as int).push(shifted(fields@, by as int)[i as int]));
        }
        i = i + 1;
    }
    proof {
        assert(out@ =~= shifted(fields@, by as int));
    }
    out
}

/// Compute the layout of `e`.
pub fn plan_enum(e: &IrEnum, module: &IrModule) -> (r: Result<EnumLayout, LayoutError>)
    ensures
        match r {
            Ok(layout) => enum_plan(*e) == Ok::<EnumPlan, LayoutError>(layout@),
            Err(x) => enum_plan(*e) == Err::<EnumPlan, LayoutError>(x),
        },
{
    if e.variants.len() == 0 {
        return Err(LayoutError::UninhabitedEnum { name: e.name.clone() });
    }
    let mut payloads: Vec<StructLayout> = Vec::new();
    let mut payload_align: u32 = 1;
    let mut payload_size: u32 = 0;
    let ghost shapes = variant_shapes(*e);
    let ghost mut plans: Seq<StructPlan> = Seq::empty();
    let mut k: usize = 0;
    while k < e.variants.len()
        invariant
            k <= e.variants@.len(),
            shapes == variant_shapes(*e),
            enum_plan(*e) == shapes_plan(e.name, shapes),
            payload_plans(e.name, shapes, k as nat) == Ok::<Seq<StructPlan>, LayoutError>(plans),
            payloads@.len() == k,
            plans.len() == k,
            forall|i: int| 0 <= i < k ==> (#[trigger] payloads@[i])@ == plans[i],
            payload_align == max_payload_align(plans),
            payload_size == max_payload_size(plans),
        decreases e.variants@.len() - k,
    {
        let v = &e.variants[k];
        let owner = LayoutOwner::Variant { enum_name: e.name.clone(), variant: v.name.clone() };
        proof {
            if payload_plans(e.name, shapes, (k + 1) as nat) is Err {
                lemma_payloads_stop(e.name, shapes, (k + 1) as nat, shapes.len());
            }
        }
        let payload = plan_fields(&owner, &v.fields)?;
        if payload.align > payload_align {
            payload_align = payload.align;
        }
        if payload.size > payload_size {
            payload_size = payload.size;
        }
        proof {
            let grown = plans.push(payload@);
            assert(grown.drop_last() =~= plans);
            plans = grown;
        }
        payloads.push(payload);
        k = k + 1;
    }
    proof {
        lemma_payloads_well(e.name, shapes, shapes.len());
        lemma_round_up(ENUM_TAG_SIZE as int, payload_align as int);
    }
    let align: u32 = if payload_align > ENUM_TAG_ALIGN {
        payload_align
    } else {
        ENUM_TAG_ALIGN
    };
    let payload_offset: u32 = match align_up(ENUM_TAG_SIZE, payload_align) {
        Some(o) => o,
        None => return Err(LayoutError::SizeOverflow { name: LayoutOwner::Enum(e.name.clone()) }),
    };
    proof {
        lemma_round_up(payload_offset + payload_size, align as int);
    }
    let raw: u32 = match payload_offset.checked_add(payload_size) {
        Some(n) => n,
        None => return Err(LayoutError::SizeOverflow { name: LayoutOwner::Enum(e.name.clone()) }),
    };
    let size: u32 = match align_up(raw, align) {
        Some(n) => n,
        None => return Err(LayoutError::SizeOverflow { name: LayoutOwner::Enum(e.name.clone()) }),
    };
    if payloads.len() - 1 > 0xffff_ffff {
        return Err(LayoutError::TooManyVariants { name: e.name.clone() });
    }
    let mut variants: Vec<VariantLayout> = Vec::new();
    let mut i: usize = 0;
    while i < payloads.len()
        invariant
            i <= payloads@.len(),
            payloads@.len() == plans.len(),
            payloads@.len() == e.variants@.len(),
            payloads@.len() <= u32::MAX + 1,
            forall|j: int| 0 <= j < plans.len() ==> (#[trigger] payloads@[j])@ == plans[j],
            forall|j: int|
                0 <= j < plans.len() ==> plan_well(#[trigger] plans[j]) && plans[j].size
                    <= payload_size,
            payload_offset + payload_size <= u32::MAX,
            variants@.len() == i,
            forall|j: int|
                0 <= j < i ==> (#[trigger] variants@[j])@ == (VariantPlan {
                    name: e.variants@[j].name,
                    tag: j as u32,
                    fields: shifted(plans[j].fields, payload_offset as int),
                }),
        decreases payloads@.len() - i,
    {
        proof {
            assert(plan_well(plans[i as int]));
            assert(payloads@[i as int]@ == plans[i as int]);
        }
        let fields = shift_fields(&payloads[i].fields, payload_offset);
        variants.push(
            VariantLayout { name: e.variants[i].name.clone(), tag: i as u32, fields },
        );
        i = i + 1;
    }
    let layout = EnumLayout { size, align, tag_offset: 0, payload_offset, variants };
    proof {
        assert(enum_plan(*e) is Ok);
        assert(layout@.variants =~= enum_plan(*e)->Ok_0.variants);
    }
    Ok(layout)
}

/// Compute the layout of `Array<elem>`.
pub fn plan_array(elem: &ResolvedType, module: &IrModule) -> (r: Result<ArrayLayout, LayoutError>)
    ensures
        r == array_plan(*elem),
{
    let (element_size, element_align) = array_element_size_align(elem)?;
    Ok(
        ArrayLayout {
            header_size: ARRAY_HEADER_SIZE,
            header_align: ARRAY_HEADER_ALIGN,
            element_size,
            element_align,
        },
    )
}

/// Compute the layout of `Range<bound>`. The bound must be a primitive.
pub fn plan_range(bound: &ResolvedType, module: &IrModule) -> (r: Result<RangeLayout, LayoutError>)
    ensures
        r == range_plan(*bound),
{
    let (bound_size, bound_align) = match bound {
        ResolvedType::Primitive(p) => primitive_size_align(*p)?,
        _ => {
            return Err(
                LayoutError::NotYetSupported { kind: UnsupportedKind::RangeOver(bound.clone()) },
            );
        },
    };
    proof {
        lemma_storage(*bound);
        lemma_small_rounds();
    }
    let end_offset: u32 = match align_up(bound_size, bound_align) {
        Some(o) => o,
        None => return Err(LayoutError::SizeOverflow { name: LayoutOwner::Range }),
    };
    let raw: u32 = match end_offset.checked_add(bound_size) {
        Some(n) => n,
        None => return Err(LayoutError::SizeOverflow { name: LayoutOwner::Range }),
    };
    let size: u32 = match align_up(raw, bound_align) {
        Some(n) => n,
        None => return Err(LayoutError::SizeOverflow { name: LayoutOwner::Range }),
    };
    Ok(RangeLayout { size, align: bound_align, bound_size, bound_align, end_offset })
}

/// Compute the layout of `Optional<payload>`. The payload must be a
/// storable primitive.
pub fn plan_optional(payload: &ResolvedType, module: &IrModule) -> (r: Result<
    OptionalLayout,
    LayoutError,
>)
    ensures
        r == optional_plan(*payload),
{
    let (payload_size, payload_align) = type_size_align(payload)?;
    proof {
        lemma_storage(*payload);
        lemma_small_rounds();
    }
    let align: u32 = if payload_align > OPTIONAL_TAG_ALIGN {
        payload_align
    } else {
        OPTIONAL_TAG_ALIGN
    };
    let payload_offset: u32 = match align_up(OPTIONAL_TAG_SIZE, payload_align) {
        Some(o) => o,
        None => return Err(LayoutError::SizeOverflow { name: LayoutOwner::Optional }),
    };
    let raw: u32 = match payload_offset.checked_add(payload_size) {
        Some(n) => n,
        None => return Err(LayoutError::SizeOverflow { name: LayoutOwner::Optional }),
    };
    let size: u32 = match align_up(raw, align) {
        Some(n) => n,
        None => return Err(LayoutError::SizeOverflow { name: LayoutOwner::Optional }),
    };
    Ok(
        OptionalLayout {
            size,
            align,
            tag_offset: 0,
            payload_offset,
            payload_size,
            payload_align,
        },
    )
}

// ── tuples ───────────────────────────────────────────────────────────

/// The fields of a tuple type, seen as struct fields.
pub open spec fn tuple_fields(fields: List<(String, ResolvedType)>) -> Seq<IrField>
    decreases fields,
{
    match fields {
        List::Nil => Seq::empty(),
        List::Cons(head, tail) => seq![
            IrField { name: head.0, ty: head.1, optional: false, default: None },
        ] + tuple_fields(*tail),
    }
}

/// Build the struct fields of a tuple type.
pub fn tuple_struct_fields(fields: &List<(String, ResolvedType)>) -> (r: Vec<IrField>)
    ensures
        r@ == tuple_fields(*fields),
{
    let mut out: Vec<IrField> = Vec::new();
    let mut rest = fields;
    loop
        invariant
            out@ + tuple_fields(*rest) == tuple_fields(*fields),
        ensures
            out@ == tuple_fields(*fields),
        decreases rest,
    {
        match rest {
            List::Nil => {
                break;
            },
            List::Cons(head, tail) => {
                let ghost before = out@;
                out.push(
                    IrField {
                        name: head.0.clone(),
                        ty: head.1.clone(),
                        optional: false,
                        default: None,
                    },
                );
                proof {
                    assert(out@ + tuple_fields(**tail) =~= before + tuple_fields(*rest));
                }
                rest = tail;
            },
        }
    }
    out
}

// ── laws ─────────────────────────────────────────────────────────────

/// A struct's fields are aligned, do not overlap, follow declaration order
/// and fit in its size, which is a multiple of its alignment.
pub proof fn law_struct_layout(s: IrStruct)
    requires
        struct_plan(s) is Ok,
    ensures
        plan_well(struct_plan(s)->Ok_0),
        struct_plan(s)->Ok_0.fields.len() == s.fields@.len(),
{
    lemma_plan_well(LayoutOwner::Struct(s.name), s.fields@);
}

/// Every variant of an enum is numbered by its position and keeps its
/// payload past the tag, aligned, disjoint and inside the size that all
/// variants share.
pub proof fn law_enum_layout(e: IrEnum)
    requires
        enum_plan(e) is Ok,
    ensures
        ({
            let p = enum_plan(e)->Ok_0;
            &&& p.tag_offset == 0
            &&& p.payload_offset >= ENUM_TAG_SIZE
            &&& p.size as int % p.align as int == 0
            &&& p.align >= ENUM_TAG_ALIGN
            &&& p.variants.len() == e.variants@.len()
            &&& forall|i: int|
                0 <= i < p.variants.len() ==> {
                    let v = #[trigger] p.variants[i];
                    &&& v.tag == i
                    &&& v.name == e.variants@[i].name
                    &&& v.fields.len() == e.variants@[i].fields@.len()
                    &&& fields_well(p.size as int, p.align as int, v.fields)
                    &&& forall|j: int|
                        0 <= j < v.fields.len() ==> (#[trigger] v.fields[j]).offset
                            >= p.payload_offset
                }
        }),
{
    let shapes = variant_shapes(e);
    lemma_payloads_well(e.name, shapes, shapes.len());
    let plans = payload_plans(e.name, shapes, shapes.len())->Ok_0;
    let p = enum_plan(e)->Ok_0;
    let a = max_payload_align(plans);
    let at = round_up(ENUM_TAG_SIZE as int, a);
    lemma_round_up(ENUM_TAG_SIZE as int, a);
    lemma_round_up(at + max_payload_size(plans), p.align as int);
    assert forall|i: int| 0 <= i < p.variants.len() implies ({
        let v = #[trigger] p.variants[i];
        &&& v.tag == i
        &&& v.name == e.variants@[i].name
        &&& v.fields.len() == e.variants@[i].fields@.len()
        &&& fields_well(p.size as int, p.align as int, v.fields)
        &&& forall|j: int|
            0 <= j < v.fields.len() ==> (#[trigger] v.fields[j]).offset >= p.payload_offset
    }) by {
        let plan = plans[i];
        assert(plan_well(plan));
        let v = p.variants[i];
        assert forall|j: int| 0 <= j < v.fields.len() implies ({
            let f = #[trigger] v.fields[j];
            &&& field_well(p.size as int, p.align as int, f)
            &&& f.offset == at + plan.fields[j].offset
        }) by {
            let g = plan.fields[j];
            assert(field_well(plan.size as int, plan.align as int, g));
            lemma_aligned_to_smaller(at, a, g.align as int);
            lemma_sum_aligned(at, g.offset as int, g.align as int);
        }
        assert forall|j: int, k: int| 0 <= j < k < v.fields.len() implies (
        #[trigger] v.fields[j]).offset + v.fields[j].size <= (#[trigger] v.fields[k]).offset by {
            assert(plan.fields[j].offset + plan.fields[j].size <= plan.fields[k].offset);
        }
    }
}

/// The two bounds of a range do not overlap and fill it.
pub proof fn law_range_layout(bound: ResolvedType)
    requires
        range_plan(bound) is Ok,
    ensures
        ({
            let r = range_plan(bound)->Ok_0;
            &&& r.end_offset >= r.bound_size
            &&& r.end_offset as int % r.bound_align as int == 0
            &&& r.end_offset + r.bound_size == r.size
        }),
{
    lemma_storage(bound);
    lemma_self_multiple(field_storage(bound)->Ok_0.1 as int);
}

/// An optional's payload lies past its tag, aligned and inside its size.
pub proof fn law_optional_layout(payload: ResolvedType)
    requires
        optional_plan(payload) is Ok,
    ensures
        ({
            let o = optional_plan(payload)->Ok_0;
            &&& o.tag_offset + OPTIONAL_TAG_SIZE <= o.payload_offset
            &&& o.payload_offset as int % o.payload_align as int == 0
            &&& o.payload_offset + o.payload_size <= o.size
            &&& o.size as int % o.align as int == 0
        }),
{
    lemma_storage(payload);
    lemma_small_rounds();
    let (size, align) = field_storage(payload)->Ok_0;
    lemma_self_multiple(align as int);
    lemma_self_multiple(larger(align as int, OPTIONAL_TAG_ALIGN as int));
    assert(4int % 1 == 0 && 8int % 4 == 0 && 16int % 8 == 0);
    if align == 1 {
    } else if align == 4 {
    } else {
    }
}

} // verus!
