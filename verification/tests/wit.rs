//! The WIT document of a module.

use formawasm::ir::{
    BindingId, EnumId, ImplTarget, IrEnum, IrEnumVariant, IrExpr, IrField, IrFunction,
    IrFunctionParam, IrImpl, IrModule, IrStruct, List, Literal, NumberLiteral, NumberValue,
    ParamConvention, PrimitiveType, ResolvedType, StructId, TraitId, Visibility,
};
use formawasm::survey::{survey, PublicSurface};
use formawasm::types::{TypeMapError, UnsupportedKind};
use formawasm::wit::{
    emit_wit, function_signature_crosses_boundary, resolved_wit_type, write_document, WitEmitError,
};

fn module() -> IrModule {
    IrModule {
        structs: vec![],
        traits: vec![],
        enums: vec![],
        lets: vec![],
        functions: vec![],
        impls: vec![],
        prelude_optional: None,
        prelude_array: None,
        prelude_range: None,
        prelude_dictionary: None,
    }
}

fn i32_ty() -> ResolvedType {
    ResolvedType::Primitive(PrimitiveType::I32)
}

fn bool_ty() -> ResolvedType {
    ResolvedType::Primitive(PrimitiveType::Boolean)
}

fn string_ty() -> ResolvedType {
    ResolvedType::Primitive(PrimitiveType::String)
}

fn array_ty(t: ResolvedType) -> ResolvedType {
    ResolvedType::Array(Box::new(t))
}

fn optional_ty(t: ResolvedType) -> ResolvedType {
    ResolvedType::Optional(Box::new(t))
}

fn number(v: i32) -> IrExpr {
    IrExpr::Literal {
        value: Literal::Number(NumberLiteral {
            value: NumberValue::Integer(v as i128),
            f32_bits: (v as f32).to_bits(),
            f64_bits: (v as f64).to_bits(),
            text: v.to_string(),
        }),
        ty: i32_ty(),
    }
}

fn param(id: u32, name: &str, ty: ResolvedType) -> IrFunctionParam {
    IrFunctionParam { binding_id: BindingId(id), name: name.to_string(), ty: Some(ty) }
}

fn function(
    name: &str,
    params: Vec<IrFunctionParam>,
    result: Option<ResolvedType>,
    body: IrExpr,
) -> IrFunction {
    IrFunction {
        name: name.to_string(),
        params,
        return_type: result,
        body: Some(body),
        is_extern: false,
    }
}

fn host(name: &str, params: Vec<IrFunctionParam>, result: Option<ResolvedType>) -> IrFunction {
    IrFunction {
        name: name.to_string(),
        params,
        return_type: result,
        body: None,
        is_extern: true,
    }
}

fn field(name: &str, ty: ResolvedType) -> IrField {
    IrField { name: name.to_string(), ty, optional: false, default: None }
}

fn structure(name: &str, fields: Vec<IrField>) -> IrStruct {
    IrStruct {
        name: name.to_string(),
        visibility: Visibility::Public,
        fields,
        generic_params: vec![],
    }
}

fn emit(m: &IrModule) -> Result<String, WitEmitError> {
    emit_wit(m, &survey(m))
}

fn wit(ty: ResolvedType, m: &IrModule) -> String {
    resolved_wit_type(&ty, m).unwrap().unwrap()
}

#[test]
fn an_identity_function_is_exported() {
    let mut m = module();
    m.functions.push(function("id", vec![param(0, "x", i32_ty())], Some(i32_ty()), number(0)));
    assert_eq!(
        emit(&m).unwrap(),
        "package formawasm:generated;\n\nworld component {\n  export id: func(x: s32) -> s32;\n}\n"
    );
}

#[test]
fn an_empty_module_has_an_empty_world() {
    assert_eq!(
        emit(&module()).unwrap(),
        "package formawasm:generated;\n\nworld component {\n}\n"
    );
}

#[test]
fn types_have_wit_names() {
    let mut m = module();
    m.structs.push(structure("RgbColor", vec![field("r", i32_ty())]));
    m.enums.push(IrEnum {
        name: "MyShape".to_string(),
        visibility: Visibility::Public,
        variants: vec![],
        generic_params: vec![],
    });
    let primitive = ResolvedType::Primitive;
    assert_eq!(wit(primitive(PrimitiveType::I32), &m), "s32");
    assert_eq!(wit(primitive(PrimitiveType::I64), &m), "s64");
    assert_eq!(wit(primitive(PrimitiveType::F32), &m), "f32");
    assert_eq!(wit(primitive(PrimitiveType::F64), &m), "f64");
    assert_eq!(wit(primitive(PrimitiveType::Boolean), &m), "bool");
    assert_eq!(wit(primitive(PrimitiveType::String), &m), "string");
    assert_eq!(wit(primitive(PrimitiveType::Path), &m), "string");
    assert_eq!(wit(primitive(PrimitiveType::Regex), &m), "string");
    assert_eq!(wit(ResolvedType::Struct(StructId(0)), &m), "rgb-color");
    assert_eq!(wit(ResolvedType::Enum(EnumId(0)), &m), "my-shape");
    assert_eq!(wit(array_ty(optional_ty(i32_ty())), &m), "list<option<s32>>");
    assert_eq!(
        wit(
            ResolvedType::Dictionary {
                key_ty: Box::new(string_ty()),
                value_ty: Box::new(bool_ty()),
            },
            &m,
        ),
        "list<tuple<string, bool>>"
    );
    assert_eq!(
        wit(
            ResolvedType::Tuple(List::from_vec(vec![
                ("a".to_string(), i32_ty()),
                ("b".to_string(), string_ty()),
            ])),
            &m,
        ),
        "tuple<s32, string>"
    );
    assert_eq!(resolved_wit_type(&primitive(PrimitiveType::Never), &m), Ok(None));
}

#[test]
fn some_types_do_not_cross() {
    let mut m = module();
    m.structs.push(structure("Canvas", vec![]));
    let never = || ResolvedType::Primitive(PrimitiveType::Never);
    let cases = [
        (
            ResolvedType::Closure {
                param_tys: List::from_vec(vec![(ParamConvention::Let, i32_ty())]),
                return_ty: Box::new(i32_ty()),
            },
            UnsupportedKind::Closure,
        ),
        (ResolvedType::Range(Box::new(i32_ty())), UnsupportedKind::Range),
        (ResolvedType::Trait(TraitId(0)), UnsupportedKind::Trait),
        (ResolvedType::Struct(StructId(0)), UnsupportedKind::EmptyStruct("Canvas".to_string())),
        (ResolvedType::Struct(StructId(9)), UnsupportedKind::StructOutOfRange(StructId(9))),
        (ResolvedType::Enum(EnumId(9)), UnsupportedKind::EnumOutOfRange(EnumId(9))),
        (array_ty(never()), UnsupportedKind::ArrayOfNever),
        (optional_ty(never()), UnsupportedKind::OptionalOfNever),
        (
            ResolvedType::Dictionary {
                key_ty: Box::new(never()),
                value_ty: Box::new(i32_ty()),
            },
            UnsupportedKind::DictionaryKeyNever,
        ),
        (
            ResolvedType::Dictionary {
                key_ty: Box::new(i32_ty()),
                value_ty: Box::new(never()),
            },
            UnsupportedKind::DictionaryValueNever,
        ),
        (
            ResolvedType::Tuple(List::from_vec(vec![("a".to_string(), never())])),
            UnsupportedKind::NeverInTuple(0),
        ),
        (ResolvedType::Tuple(List::from_vec(vec![])), UnsupportedKind::Tuple),
        (
            array_ty(ResolvedType::Tuple(List::from_vec(vec![]))),
            UnsupportedKind::Tuple,
        ),
    ];
    for (ty, kind) in cases {
        assert_eq!(
            resolved_wit_type(&ty, &m),
            Err(TypeMapError::NotYetSupported { kind })
        );
    }
}

#[test]
fn public_types_are_declared() {
    let mut m = module();
    m.structs.push(structure("Point", vec![field("x", i32_ty()), field("y_pos", i32_ty())]));
    m.enums.push(IrEnum {
        name: "Shape".to_string(),
        visibility: Visibility::Public,
        variants: vec![
            IrEnumVariant { name: "Empty".to_string(), fields: vec![] },
            IrEnumVariant { name: "square".to_string(), fields: vec![field("side", i32_ty())] },
            IrEnumVariant {
                name: "rect".to_string(),
                fields: vec![field("w", i32_ty()), field("h", bool_ty())],
            },
        ],
        generic_params: vec![],
    });
    assert_eq!(
        emit(&m).unwrap(),
        "package formawasm:generated;\n\n\
         interface types {\n\
         \x20 record point {\n\
         \x20   x: s32,\n\
         \x20   y-pos: s32,\n\
         \x20 }\n\
         \x20 variant shape {\n\
         \x20   empty,\n\
         \x20   square(s32),\n\
         \x20   rect(tuple<s32, bool>),\n\
         \x20 }\n\
         }\n\n\
         world component {\n\
         \x20 use types.{point, shape};\n\
         }\n"
    );
}

#[test]
fn host_items_are_imported() {
    let mut m = module();
    m.structs.push(structure("Canvas", vec![]));
    m.structs.push(structure("Pen", vec![field("width", i32_ty())]));
    m.functions.push(host("log_line", vec![param(0, "line", string_ty())], None));
    let method = |name: &str| IrFunction {
        name: name.to_string(),
        params: vec![
            IrFunctionParam { binding_id: BindingId(0), name: "self".to_string(), ty: None },
            param(1, "to_x", i32_ty()),
        ],
        return_type: Some(bool_ty()),
        body: None,
        is_extern: true,
    };
    for (i, name) in [(0, "clear"), (1, "move_to")] {
        m.impls.push(IrImpl {
            target: ImplTarget::Struct(StructId(i)),
            trait_ref: None,
            functions: vec![method(name)],
            is_extern: true,
        });
    }
    assert_eq!(
        emit(&m).unwrap(),
        "package formawasm:generated;\n\n\
         interface types {\n\
         \x20 record pen {\n\
         \x20   width: s32,\n\
         \x20 }\n\
         }\n\n\
         world component {\n\
         \x20 use types.{pen};\n\
         \x20 import log-line: func(line: string);\n\
         \x20 import canvas-clear: func(to-x: s32) -> bool;\n\
         \x20 import pen-move-to: func(self: pen, to-x: s32) -> bool;\n\
         }\n"
    );
}

#[test]
fn the_first_of_one_name_is_exported() {
    let mut m = module();
    let range = ResolvedType::Range(Box::new(i32_ty()));
    m.functions.push(function("do_it", vec![param(0, "r", range)], None, number(0)));
    m.functions.push(function("do_it", vec![param(0, "a", i32_ty())], None, number(0)));
    m.functions.push(function("doIt", vec![param(0, "b", i32_ty())], None, number(0)));
    assert!(!function_signature_crosses_boundary(&m.functions[0], &m));
    assert!(function_signature_crosses_boundary(&m.functions[1], &m));
    assert_eq!(
        emit(&m).unwrap(),
        "package formawasm:generated;\n\nworld component {\n  export do-it: func(a: s32);\n}\n"
    );
}

#[test]
fn an_empty_tuple_does_not_cross() {
    let mut m = module();
    let empty = ResolvedType::Tuple(List::from_vec(vec![]));
    m.functions.push(function("f", vec![param(0, "t", empty)], None, number(0)));
    assert!(!function_signature_crosses_boundary(&m.functions[0], &m));
    assert_eq!(
        emit(&m).unwrap(),
        "package formawasm:generated;\n\nworld component {\n}\n"
    );
}

#[test]
fn every_function_of_the_surface_is_written() {
    let mut m = module();
    m.functions.push(function("__made", vec![], None, number(0)));
    assert_eq!(
        emit(&m).unwrap(),
        "package formawasm:generated;\n\nworld component {\n  export made: func();\n}\n"
    );
}

#[test]
fn a_missing_parameter_type_is_reported() {
    let mut m = module();
    let mut f = host("h", vec![param(0, "x", i32_ty())], None);
    f.params[0].ty = None;
    m.functions.push(f);
    assert_eq!(
        emit(&m),
        Err(WitEmitError::MissingParamType { function: "h".to_string(), param: "x".to_string() })
    );
}

#[test]
fn a_parameter_without_values_is_reported() {
    let mut m = module();
    let never = ResolvedType::Primitive(PrimitiveType::Never);
    m.functions.push(host("h", vec![param(0, "x", never)], None));
    assert_eq!(
        emit(&m),
        Err(WitEmitError::NeverParam { function: "h".to_string(), param: "x".to_string() })
    );
}

#[test]
fn a_host_function_with_a_closure_is_reported() {
    let mut m = module();
    let range = ResolvedType::Range(Box::new(i32_ty()));
    m.functions.push(host("h", vec![param(0, "x", range)], None));
    assert_eq!(
        emit(&m),
        Err(WitEmitError::TypeMap(TypeMapError::NotYetSupported { kind: UnsupportedKind::Range }))
    );
}

#[test]
fn a_surface_past_the_module_is_reported() {
    let m = module();
    let surface = PublicSurface {
        exports: vec![],
        imports: vec![],
        exported_structs: vec![StructId(3)],
        exported_enums: vec![],
    };
    assert_eq!(emit_wit(&m, &surface), Err(WitEmitError::ExportOutOfRange { index: 3, len: 0 }));
}

#[test]
fn a_document_that_does_not_parse_is_reported() {
    let mut m = module();
    m.functions.push(function("1st", vec![], None, number(0)));
    let text = write_document(&m, &survey(&m)).unwrap();
    assert!(text.contains("export 1st: func();"));
    match emit(&m) {
        Err(WitEmitError::Invalid { reason }) => assert!(!reason.is_empty()),
        other => panic!("{other:?}"),
    }
}
