//! The public surface of a module.

use formawasm::ir::{
    EnumId, FunctionId, IrEnum, IrExpr, IrField, IrFunction, IrFunctionParam, IrModule, IrStruct,
    Literal, NumberLiteral, NumberValue, PrimitiveType, ResolvedType, StructId, Visibility,
};
use formawasm::survey::{keep_helpers_private, survey, PublicSurface};

fn module() -> IrModule {
    IrModule {
        structs: vec![],
        traits: vec![],
        enums: vec![],
        lets: vec![],
        functions: vec![],
        impls: vec![],
        prelude_optional: None,
        prelude_array: None,
        prelude_range: None,
        prelude_dictionary: None,
    }
}

fn i32_ty() -> ResolvedType {
    ResolvedType::Primitive(PrimitiveType::I32)
}

fn number(v: i32) -> IrExpr {
    IrExpr::Literal {
        value: Literal::Number(NumberLiteral {
            value: NumberValue::Integer(v as i128),
            f32_bits: (v as f32).to_bits(),
            f64_bits: (v as f64).to_bits(),
            text: v.to_string(),
        }),
        ty: i32_ty(),
    }
}

fn function(
    name: &str,
    params: Vec<IrFunctionParam>,
    result: Option<ResolvedType>,
    body: IrExpr,
) -> IrFunction {
    IrFunction {
        name: name.to_string(),
        params,
        return_type: result,
        body: Some(body),
        is_extern: false,
    }
}

fn host(name: &str, params: Vec<IrFunctionParam>, result: Option<ResolvedType>) -> IrFunction {
    IrFunction {
        name: name.to_string(),
        params,
        return_type: result,
        body: None,
        is_extern: true,
    }
}

fn field(name: &str, ty: ResolvedType) -> IrField {
    IrField { name: name.to_string(), ty, optional: false, default: None }
}

fn structure(name: &str, fields: Vec<IrField>) -> IrStruct {
    IrStruct {
        name: name.to_string(),
        visibility: Visibility::Public,
        fields,
        generic_params: vec![],
    }
}

fn enumeration(visibility: Visibility) -> IrEnum {
    IrEnum { name: "E".to_string(), visibility, variants: vec![], generic_params: vec![] }
}

#[test]
fn an_empty_module_has_no_surface() {
    assert_eq!(
        survey(&module()),
        PublicSurface {
            exports: vec![],
            imports: vec![],
            exported_structs: vec![],
            exported_enums: vec![],
        }
    );
}

#[test]
fn functions_are_exports_or_imports() {
    let mut m = module();
    m.functions.push(function("a", vec![], None, number(0)));
    m.functions.push(host("b", vec![], None));
    m.functions.push(function("c", vec![], None, number(0)));
    let surface = survey(&m);
    assert_eq!(surface.exports, vec![FunctionId(0), FunctionId(2)]);
    assert_eq!(surface.imports, vec![FunctionId(1)]);
}

#[test]
fn public_types_are_exported() {
    let mut m = module();
    m.structs.push(structure("A", vec![field("x", i32_ty())]));
    let mut hidden = structure("B", vec![field("x", i32_ty())]);
    hidden.visibility = Visibility::Private;
    m.structs.push(hidden);
    m.structs.push(structure("C", vec![field("x", i32_ty())]));
    m.enums.push(enumeration(Visibility::Private));
    m.enums.push(enumeration(Visibility::Public));
    let surface = survey(&m);
    assert_eq!(surface.exported_structs, vec![StructId(0), StructId(2)]);
    assert_eq!(surface.exported_enums, vec![EnumId(1)]);
}

#[test]
fn structs_without_fields_are_no_records() {
    let mut m = module();
    m.structs.push(structure("Canvas", vec![]));
    assert_eq!(survey(&m).exported_structs, vec![]);
}

#[test]
fn helpers_stay_private() {
    let mut m = module();
    m.functions.push(function("__closure0", vec![], None, number(0)));
    m.functions.push(function("_a", vec![], None, number(0)));
    m.functions.push(host("__b", vec![], None));
    let surface = survey(&m);
    assert_eq!(surface.exports, vec![FunctionId(0), FunctionId(1)]);
    let kept = keep_helpers_private(surface, &m);
    assert_eq!(kept.exports, vec![FunctionId(1)]);
    assert_eq!(kept.imports, vec![FunctionId(2)]);
}
