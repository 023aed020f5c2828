//! Built-in compounds and generic instantiations.

use formawasm::compound::{
    array_elem, dictionary_kv, generic_args_for_enum, optional_inner, range_bound, substitute_enum,
    substitute_type_params, Compound,
};
use formawasm::ir::{
    EnumId, GenericBase, IrEnum, IrEnumVariant, IrField, IrGenericParam, IrModule, List,
    PrimitiveType, ResolvedType, StructId, Visibility,
};

fn module() -> IrModule {
    IrModule {
        structs: vec![],
        traits: vec![],
        enums: vec![],
        lets: vec![],
        functions: vec![],
        impls: vec![],
        prelude_optional: None,
        prelude_array: None,
        prelude_range: None,
        prelude_dictionary: None,
    }
}

fn i32_ty() -> ResolvedType {
    ResolvedType::Primitive(PrimitiveType::I32)
}

fn string_ty() -> ResolvedType {
    ResolvedType::Primitive(PrimitiveType::String)
}

fn array_ty(t: ResolvedType) -> ResolvedType {
    ResolvedType::Array(Box::new(t))
}

fn optional_ty(t: ResolvedType) -> ResolvedType {
    ResolvedType::Optional(Box::new(t))
}

fn field(name: &str, ty: ResolvedType) -> IrField {
    IrField { name: name.to_string(), ty, optional: false, default: None }
}

fn prelude() -> IrModule {
    let mut m = module();
    m.prelude_optional = Some(EnumId(0));
    m.prelude_array = Some(StructId(0));
    m.prelude_range = Some(StructId(1));
    m.prelude_dictionary = Some(StructId(2));
    m
}

fn of_struct(id: u32, args: Vec<ResolvedType>) -> ResolvedType {
    ResolvedType::Generic {
        base: GenericBase::Struct(StructId(id)),
        args: List::from_vec(args),
    }
}

fn of_enum(id: u32, args: Vec<ResolvedType>) -> ResolvedType {
    ResolvedType::Generic { base: GenericBase::Enum(EnumId(id)), args: List::from_vec(args) }
}

#[test]
fn both_spellings_are_recognised() {
    let m = prelude();
    for ty in [array_ty(i32_ty()), of_struct(0, vec![i32_ty()])] {
        assert_eq!(Compound::of(&ty, &m), Compound::Array(&i32_ty()));
        assert_eq!(array_elem(&ty, &m), Some(&i32_ty()));
    }
    for ty in [optional_ty(i32_ty()), of_enum(0, vec![i32_ty()])] {
        assert_eq!(Compound::of(&ty, &m), Compound::Optional(&i32_ty()));
        assert_eq!(optional_inner(&ty, &m), Some(&i32_ty()));
    }
    for ty in [ResolvedType::Range(Box::new(i32_ty())), of_struct(1, vec![i32_ty()])] {
        assert_eq!(Compound::of(&ty, &m), Compound::Range(&i32_ty()));
        assert_eq!(range_bound(&ty, &m), Some(&i32_ty()));
    }
    let dictionary = ResolvedType::Dictionary {
        key_ty: Box::new(string_ty()),
        value_ty: Box::new(i32_ty()),
    };
    for ty in [dictionary, of_struct(2, vec![string_ty(), i32_ty()])] {
        assert_eq!(
            Compound::of(&ty, &m),
            Compound::Dictionary { key: &string_ty(), value: &i32_ty() }
        );
        assert_eq!(dictionary_kv(&ty, &m), Some((&string_ty(), &i32_ty())));
    }
}

#[test]
fn other_types_are_no_compounds() {
    let m = prelude();
    let others = [
        i32_ty(),
        ResolvedType::Struct(StructId(0)),
        of_struct(7, vec![i32_ty()]),
        of_struct(0, vec![]),
        of_struct(2, vec![i32_ty()]),
        of_enum(3, vec![i32_ty()]),
    ];
    for ty in others {
        assert_eq!(Compound::of(&ty, &m), Compound::Other);
        assert_eq!(array_elem(&ty, &m), None);
        assert_eq!(optional_inner(&ty, &m), None);
    }
    assert_eq!(Compound::of(&of_struct(0, vec![i32_ty()]), &module()), Compound::Other);
}

fn named(name: &str) -> ResolvedType {
    ResolvedType::TypeParam(name.to_string())
}

fn params() -> Vec<IrGenericParam> {
    vec![
        IrGenericParam { name: "T".to_string() },
        IrGenericParam { name: "U".to_string() },
    ]
}

#[test]
fn parameters_are_replaced_everywhere() {
    let args = List::from_vec(vec![i32_ty(), string_ty()]);
    let ty = ResolvedType::Tuple(List::from_vec(vec![
        ("a".to_string(), array_ty(named("T"))),
        ("b".to_string(), of_struct(4, vec![named("U"), named("V")])),
    ]));
    assert_eq!(
        substitute_type_params(&ty, &params(), &args),
        ResolvedType::Tuple(List::from_vec(vec![
            ("a".to_string(), array_ty(i32_ty())),
            ("b".to_string(), of_struct(4, vec![string_ty(), named("V")])),
        ]))
    );
}

#[test]
fn concrete_types_stay() {
    let args = List::from_vec(vec![string_ty(), string_ty()]);
    for ty in [i32_ty(), array_ty(optional_ty(i32_ty())), of_enum(1, vec![i32_ty()])] {
        assert_eq!(substitute_type_params(&ty, &params(), &args), ty);
    }
}

#[test]
fn enums_are_instantiated() {
    let e = IrEnum {
        name: "Either".to_string(),
        visibility: Visibility::Private,
        variants: vec![
            IrEnumVariant { name: "l".to_string(), fields: vec![field("v", named("T"))] },
            IrEnumVariant { name: "r".to_string(), fields: vec![field("v", named("U"))] },
        ],
        generic_params: params(),
    };
    let made = substitute_enum(&e, &List::from_vec(vec![i32_ty(), string_ty()]));
    assert_eq!(made.name, "Either");
    assert_eq!(made.generic_params, vec![]);
    assert_eq!(made.variants[0].fields, vec![field("v", i32_ty())]);
    assert_eq!(made.variants[1].fields, vec![field("v", string_ty())]);
}

#[test]
fn arguments_belong_to_their_enum() {
    let ty = of_enum(3, vec![i32_ty()]);
    assert_eq!(generic_args_for_enum(&ty, EnumId(3)), List::from_vec(vec![i32_ty()]));
    assert_eq!(generic_args_for_enum(&ty, EnumId(4)), List::Nil);
    assert_eq!(generic_args_for_enum(&i32_ty(), EnumId(3)), List::Nil);
}
