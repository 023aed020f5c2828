//! Mapping from [`ResolvedType`] and [`PrimitiveType`] to core-wasm value
//! types.
//!
//! Two surfaces:
//!
//! - [`resolved_value_type`] / [`result_types`]: the strict mapping, which
//!   accepts primitives only. Everything else is reported as
//!   [`TypeMapError::NotYetSupported`].
//! - [`body_value_type`] / [`body_result_types`]: the in-body convention.
//!   Aggregates live in linear memory and are handled through `i32`
//!   pointers.

use vstd::prelude::*;

use crate::instr::ValType;
use crate::ir::{EnumId, PrimitiveType, ResolvedType, StructId};

verus! {

/// The shape a mapping or a layout planner could not handle.
#[derive(Debug, PartialEq, Eq)]
pub enum UnsupportedKind {
    Primitive(PrimitiveType),
    Struct,
    Trait,
    Enum,
    Array,
    Range,
    Optional,
    Tuple,
    Generic,
    TypeParam(String),
    External(String),
    Dictionary,
    Closure,
    Error,
    /// `Range<bound>` with a bound that is not a primitive.
    RangeOver(ResolvedType),
    /// A closure-call signature was asked of a type that is no closure.
    CallOfNonClosure(ResolvedType),
    /// A closure parameter that carries no value.
    ClosureParameter(ResolvedType),
    /// A trait-method parameter that carries no value.
    TraitMethodParameter(ResolvedType),
    /// A parameter of a host function that carries no value.
    HostParameter,
    /// A boundary parameter that carries no value.
    BoundaryParameter(ResolvedType),
    /// A struct id past the end of the module's table.
    StructOutOfRange(StructId),
    /// An enum id past the end of the module's table.
    EnumOutOfRange(EnumId),
    /// A boundary type nested past the supported depth.
    NestingTooDeep,
    /// Planning a parameter took another number of flat slots than
    /// flattening it.
    SlotMismatch { param: String, ty: ResolvedType, consumed: u32, expected: u32 },
    /// A list whose element carries no value.
    ArrayOfNever,
    /// An optional whose payload carries no value.
    OptionalOfNever,
    /// A dictionary whose key carries no value.
    DictionaryKeyNever,
    /// A dictionary whose value type carries no value.
    DictionaryValueNever,
    /// A record without fields cannot be named at the boundary.
    EmptyStruct(String),
    /// A tuple position that carries no value.
    NeverInTuple(usize),
}

/// Errors produced by the type-mapping helpers.
#[derive(Debug, PartialEq, Eq)]
pub enum TypeMapError {
    /// The type has no mapping on this surface.
    NotYetSupported { kind: UnsupportedKind },
}

/// Bytes of a closure value: `(i32 table slot, i32 env pointer)`.
pub const CLOSURE_VALUE_SIZE: u32 = 8;

/// Alignment of a closure value.
pub const CLOSURE_VALUE_ALIGN: u32 = 4;

/// Offset of the table-slot field inside a closure value.
pub const CLOSURE_FUNCREF_OFFSET: u32 = 0;

/// Offset of the env-pointer field inside a closure value.
pub const CLOSURE_ENV_OFFSET: u32 = 4;

/// `r` is the vector form of `s`, or the same error.
pub open spec fn vec_outcome<T, E>(r: Result<Vec<T>, E>, s: Result<Seq<T>, E>) -> bool {
    match r {
        Ok(v) => s == Ok::<Seq<T>, E>(v@),
        Err(e) => s == Err::<Seq<T>, E>(e),
    }
}

/// The value type of a primitive; `None` for `Never`, which has no value.
/// Booleans are `i32`, text types are header pointers.
pub open spec fn primitive_val(p: PrimitiveType) -> Option<ValType> {
    match p {
        PrimitiveType::I32 => Some(ValType::I32),
        PrimitiveType::Boolean => Some(ValType::I32),
        PrimitiveType::I64 => Some(ValType::I64),
        PrimitiveType::F32 => Some(ValType::F32),
        PrimitiveType::F64 => Some(ValType::F64),
        PrimitiveType::String => Some(ValType::I32),
        PrimitiveType::Path => Some(ValType::I32),
        PrimitiveType::Regex => Some(ValType::I32),
        PrimitiveType::Never => None,
    }
}

/// The tag under which a mapping reports the shape of `ty`.
pub open spec fn kind_of(ty: ResolvedType) -> UnsupportedKind {
    match ty {
        ResolvedType::Primitive(p) => UnsupportedKind::Primitive(p),
        ResolvedType::Struct(_) => UnsupportedKind::Struct,
        ResolvedType::Trait(_) => UnsupportedKind::Trait,
        ResolvedType::Enum(_) => UnsupportedKind::Enum,
        ResolvedType::Array(_) => UnsupportedKind::Array,
        ResolvedType::Range(_) => UnsupportedKind::Range,
        ResolvedType::Optional(_) => UnsupportedKind::Optional,
        ResolvedType::Tuple(_) => UnsupportedKind::Tuple,
        ResolvedType::Generic { .. } => UnsupportedKind::Generic,
        ResolvedType::TypeParam(name) => UnsupportedKind::TypeParam(name),
        ResolvedType::External { name, .. } => UnsupportedKind::External(name),
        ResolvedType::Dictionary { .. } => UnsupportedKind::Dictionary,
        ResolvedType::Closure { .. } => UnsupportedKind::Closure,
        ResolvedType::Error => UnsupportedKind::Error,
    }
}

/// The rejection of `ty` by a mapping.
pub open spec fn rejected(ty: ResolvedType) -> TypeMapError {
    TypeMapError::NotYetSupported { kind: kind_of(ty) }
}

/// Strict mapping: primitives only.
pub open spec fn strict_val(ty: ResolvedType) -> Result<Option<ValType>, TypeMapError> {
    match ty {
        ResolvedType::Primitive(p) => Ok(primitive_val(p)),
        _ => Err(rejected(ty)),
    }
}

/// Whether values of `ty` live in linear memory behind an `i32` pointer.
pub open spec fn is_pointer(ty: ResolvedType) -> bool {
    match ty {
        ResolvedType::Struct(_) => true,
        ResolvedType::Tuple(_) => true,
        ResolvedType::Enum(_) => true,
        ResolvedType::Array(_) => true,
        ResolvedType::Range(_) => true,
        ResolvedType::Optional(_) => true,
        ResolvedType::Dictionary { .. } => true,
        ResolvedType::Closure { .. } => true,
        _ => false,
    }
}

/// In-body mapping: primitives by value, aggregates by pointer.
pub open spec fn body_val(ty: ResolvedType) -> Result<Option<ValType>, TypeMapError> {
    match ty {
        ResolvedType::Primitive(p) => Ok(primitive_val(p)),
        _ => if is_pointer(ty) {
            Ok(Some(ValType::I32))
        } else {
            Err(rejected(ty))
        },
    }
}

/// The result list for one mapped return value.
pub open spec fn one_or_none(v: Option<ValType>) -> Seq<ValType> {
    match v {
        Some(vt) => seq![vt],
        None => Seq::empty(),
    }
}

/// Strict result list of an optional return type.
pub open spec fn strict_results(ty: Option<ResolvedType>) -> Result<Seq<ValType>, TypeMapError> {
    match ty {
        None => Ok(Seq::empty()),
        Some(t) => match strict_val(t) {
            Ok(v) => Ok(one_or_none(v)),
            Err(e) => Err(e),
        },
    }
}

/// In-body result list of an optional return type.
pub open spec fn body_results(ty: Option<ResolvedType>) -> Result<Seq<ValType>, TypeMapError> {
    match ty {
        None => Ok(Seq::empty()),
        Some(t) => match body_val(t) {
            Ok(v) => Ok(one_or_none(v)),
            Err(e) => Err(e),
        },
    }
}

/// The tag of `ty`, with names copied out of it.
pub fn unsupported_kind(ty: &ResolvedType) -> (r: UnsupportedKind)
    ensures
        r == kind_of(*ty),
{
    match ty {
        ResolvedType::Primitive(p) => UnsupportedKind::Primitive(*p),
        ResolvedType::Struct(_) => UnsupportedKind::Struct,
        ResolvedType::Trait(_) => UnsupportedKind::Trait,
        ResolvedType::Enum(_) => UnsupportedKind::Enum,
        ResolvedType::Array(_) => UnsupportedKind::Array,
        ResolvedType::Range(_) => UnsupportedKind::Range,
        ResolvedType::Optional(_) => UnsupportedKind::Optional,
        ResolvedType::Tuple(_) => UnsupportedKind::Tuple,
        ResolvedType::Generic { .. } => UnsupportedKind::Generic,
        ResolvedType::TypeParam(name) => UnsupportedKind::TypeParam(name.clone()),
        ResolvedType::External { name, .. } => UnsupportedKind::External(name.clone()),
        ResolvedType::Dictionary { .. } => UnsupportedKind::Dictionary,
        ResolvedType::Closure { .. } => UnsupportedKind::Closure,
        ResolvedType::Error => UnsupportedKind::Error,
    }
}

/// Map a primitive to its value type. `Ok(None)` stands for `Never`.
pub fn primitive_value_type(p: PrimitiveType) -> (r: Result<Option<ValType>, TypeMapError>)
    ensures
        r == Ok::<Option<ValType>, TypeMapError>(primitive_val(p)),
{
    match p {
        PrimitiveType::I32 | PrimitiveType::Boolean => Ok(Some(ValType::I32)),
        PrimitiveType::I64 => Ok(Some(ValType::I64)),
        PrimitiveType::F32 => Ok(Some(ValType::F32)),
        PrimitiveType::F64 => Ok(Some(ValType::F64)),
        PrimitiveType::Never => Ok(None),
        PrimitiveType::String | PrimitiveType::Path | PrimitiveType::Regex => Ok(
            Some(ValType::I32),
        ),
    }
}

/// Strict mapping of a type to its value type. Only primitives map.
pub fn resolved_value_type(ty: &ResolvedType) -> (r: Result<Option<ValType>, TypeMapError>)
    ensures
        r == strict_val(*ty),
{
    match ty {
        ResolvedType::Primitive(p) => primitive_value_type(*p),
        _ => Err(TypeMapError::NotYetSupported { kind: unsupported_kind(ty) }),
    }
}

/// In-body mapping of a type to its value type.
pub fn body_value_type(ty: &ResolvedType) -> (r: Result<Option<ValType>, TypeMapError>)
    ensures
        r == body_val(*ty),
{
    match ty {
        ResolvedType::Primitive(p) => primitive_value_type(*p),
        ResolvedType::Struct(_)
        | ResolvedType::Tuple(_)
        | ResolvedType::Enum(_)
        | ResolvedType::Array(_)
        | ResolvedType::Range(_)
        | ResolvedType::Optional(_)
        | ResolvedType::Dictionary { .. }
        | ResolvedType::Closure { .. } => Ok(Some(ValType::I32)),
        _ => Err(TypeMapError::NotYetSupported { kind: unsupported_kind(ty) }),
    }
}

/// The list holding `v`'s value, if it has one.
fn value_list(v: Option<ValType>) -> (r: Vec<ValType>)
    ensures
        r@ == one_or_none(v),
{
    let mut out: Vec<ValType> = Vec::new();
    if let Some(vt) = v {
        out.push(vt);
    }
    out
}

/// Strict result list of a function. No return type and `Never` both give
/// the empty list.
pub fn result_types(return_ty: Option<&ResolvedType>) -> (r: Result<Vec<ValType>, TypeMapError>)
    ensures
        vec_outcome(
            r,
            strict_results(
                match return_ty {
                    Some(t) => Some(*t),
                    None => None,
                },
            ),
        ),
{
    match return_ty {
        None => Ok(value_list(None)),
        Some(ty) => Ok(value_list(resolved_value_type(ty)?)),
    }
}

/// In-body result list of a function.
pub fn body_result_types(return_ty: Option<&ResolvedType>) -> (r: Result<
    Vec<ValType>,
    TypeMapError,
>)
    ensures
        vec_outcome(
            r,
            body_results(
                match return_ty {
                    Some(t) => Some(*t),
                    None => None,
                },
            ),
        ),
{
    match return_ty {
        None => Ok(value_list(None)),
        Some(ty) => Ok(value_list(body_value_type(ty)?)),
    }
}

/// The strict mapping agrees with the in-body one wherever it succeeds.
pub proof fn law_strict_mapping_is_a_restriction(ty: ResolvedType)
    requires
        strict_val(ty) is Ok,
    ensures
        body_val(ty) == strict_val(ty),
{
}

} // verus!
