//! Type mapping.

use formawasm::instr::ValType;
use formawasm::ir::{EnumId, List, ParamConvention, PrimitiveType, ResolvedType, StructId, TraitId};
use formawasm::types::{
    body_result_types, body_value_type, primitive_value_type, resolved_value_type, result_types,
    TypeMapError, UnsupportedKind,
};

fn primitive(p: PrimitiveType) -> ResolvedType {
    ResolvedType::Primitive(p)
}

fn unsupported<T>(kind: UnsupportedKind) -> Result<T, TypeMapError> {
    Err(TypeMapError::NotYetSupported { kind })
}

#[test]
fn primitives_have_their_value_types() {
    assert_eq!(primitive_value_type(PrimitiveType::I32), Ok(Some(ValType::I32)));
    assert_eq!(primitive_value_type(PrimitiveType::I64), Ok(Some(ValType::I64)));
    assert_eq!(primitive_value_type(PrimitiveType::F32), Ok(Some(ValType::F32)));
    assert_eq!(primitive_value_type(PrimitiveType::F64), Ok(Some(ValType::F64)));
    assert_eq!(primitive_value_type(PrimitiveType::Boolean), Ok(Some(ValType::I32)));
    assert_eq!(primitive_value_type(PrimitiveType::String), Ok(Some(ValType::I32)));
    assert_eq!(primitive_value_type(PrimitiveType::Path), Ok(Some(ValType::I32)));
    assert_eq!(primitive_value_type(PrimitiveType::Regex), Ok(Some(ValType::I32)));
    assert_eq!(primitive_value_type(PrimitiveType::Never), Ok(None));
}

fn aggregates() -> Vec<(ResolvedType, UnsupportedKind)> {
    let unit = || Box::new(primitive(PrimitiveType::I32));
    vec![
        (ResolvedType::Struct(StructId(0)), UnsupportedKind::Struct),
        (ResolvedType::Enum(EnumId(0)), UnsupportedKind::Enum),
        (ResolvedType::Array(unit()), UnsupportedKind::Array),
        (ResolvedType::Range(unit()), UnsupportedKind::Range),
        (ResolvedType::Optional(unit()), UnsupportedKind::Optional),
        (ResolvedType::Tuple(List::from_vec(vec![])), UnsupportedKind::Tuple),
        (
            ResolvedType::Dictionary { key_ty: unit(), value_ty: unit() },
            UnsupportedKind::Dictionary,
        ),
        (
            ResolvedType::Closure {
                param_tys: List::from_vec(vec![(ParamConvention::Let, *unit())]),
                return_ty: unit(),
            },
            UnsupportedKind::Closure,
        ),
    ]
}

#[test]
fn aggregates_are_pointers_inside_bodies_only() {
    for (ty, kind) in aggregates() {
        assert_eq!(body_value_type(&ty), Ok(Some(ValType::I32)));
        assert_eq!(resolved_value_type(&ty), unsupported(kind));
    }
}

#[test]
fn unresolved_types_have_no_value_type() {
    let param = ResolvedType::TypeParam("T".to_string());
    assert_eq!(
        body_value_type(&param),
        unsupported(UnsupportedKind::TypeParam("T".to_string()))
    );
    assert_eq!(body_value_type(&ResolvedType::Error), unsupported(UnsupportedKind::Error));
    assert_eq!(
        body_value_type(&ResolvedType::Trait(TraitId(0))),
        unsupported(UnsupportedKind::Trait)
    );
}

#[test]
fn results_are_values_or_nothing() {
    assert_eq!(result_types(None), Ok(vec![]));
    assert_eq!(result_types(Some(&primitive(PrimitiveType::Never))), Ok(vec![]));
    assert_eq!(result_types(Some(&primitive(PrimitiveType::F64))), Ok(vec![ValType::F64]));
    let array = ResolvedType::Array(Box::new(primitive(PrimitiveType::I32)));
    assert_eq!(result_types(Some(&array)), unsupported(UnsupportedKind::Array));
    assert_eq!(body_result_types(Some(&array)), Ok(vec![ValType::I32]));
    assert_eq!(body_result_types(None), Ok(vec![]));
}
