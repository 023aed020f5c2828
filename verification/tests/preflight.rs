//! The preflight check.

use formawasm::ir::{
    BindingId, EnumId, GenericBase, ImplTarget, IrBlockStatement, IrEnum, IrEnumVariant, IrExpr,
    IrField, IrFunction, IrFunctionParam, IrFunctionSig, IrGenericParam, IrImpl, IrLet, IrMatchArm,
    IrModule, IrStruct, IrTrait, List, Literal, NumberLiteral, NumberValue, ParamConvention,
    PrimitiveType, ResolvedType, StructId, VariantIdx, Visibility,
};
use formawasm::preflight::{check, PreflightError};

fn module() -> IrModule {
    IrModule {
        structs: vec![],
        traits: vec![],
        enums: vec![],
        lets: vec![],
        functions: vec![],
        impls: vec![],
        prelude_optional: None,
        prelude_array: None,
        prelude_range: None,
        prelude_dictionary: None,
    }
}

fn i32_ty() -> ResolvedType {
    ResolvedType::Primitive(PrimitiveType::I32)
}

fn number(v: i32) -> IrExpr {
    IrExpr::Literal {
        value: Literal::Number(NumberLiteral {
            value: NumberValue::Integer(v as i128),
            f32_bits: (v as f32).to_bits(),
            f64_bits: (v as f64).to_bits(),
            text: v.to_string(),
        }),
        ty: i32_ty(),
    }
}

fn param(id: u32, name: &str, ty: ResolvedType) -> IrFunctionParam {
    IrFunctionParam { binding_id: BindingId(id), name: name.to_string(), ty: Some(ty) }
}

fn function(
    name: &str,
    params: Vec<IrFunctionParam>,
    result: Option<ResolvedType>,
    body: IrExpr,
) -> IrFunction {
    IrFunction {
        name: name.to_string(),
        params,
        return_type: result,
        body: Some(body),
        is_extern: false,
    }
}

fn field(name: &str, ty: ResolvedType) -> IrField {
    IrField { name: name.to_string(), ty, optional: false, default: None }
}

fn structure(name: &str, fields: Vec<IrField>) -> IrStruct {
    IrStruct {
        name: name.to_string(),
        visibility: Visibility::Public,
        fields,
        generic_params: vec![],
    }
}

fn type_param() -> ResolvedType {
    ResolvedType::TypeParam("T".to_string())
}

fn found(location: &str) -> Result<(), PreflightError> {
    Err(PreflightError::UnresolvedTypeParam {
        name: "T".to_string(),
        location: location.to_string(),
    })
}

fn closure_type() -> ResolvedType {
    ResolvedType::Closure {
        param_tys: List::from_vec(vec![(ParamConvention::Let, i32_ty())]),
        return_ty: Box::new(i32_ty()),
    }
}

fn bad_value() -> IrExpr {
    IrExpr::Literal { value: Literal::Nil, ty: type_param() }
}

fn trait_of(fields: Vec<IrField>, methods: Vec<IrFunctionSig>) -> IrTrait {
    IrTrait {
        name: "Shown".to_string(),
        composed_traits: vec![],
        fields,
        methods,
        generic_params: vec![],
    }
}

#[test]
fn clean_modules_pass() {
    let mut m = module();
    m.structs.push(structure("S", vec![field("a", i32_ty())]));
    m.functions.push(function("f", vec![param(0, "x", i32_ty())], Some(i32_ty()), number(1)));
    assert_eq!(check(&m), Ok(()));
    assert_eq!(check(&module()), Ok(()));
}

#[test]
fn type_parameters_are_found_inside_types() {
    let wrapped = [
        ResolvedType::Array(Box::new(type_param())),
        ResolvedType::Range(Box::new(type_param())),
        ResolvedType::Optional(Box::new(type_param())),
        ResolvedType::Tuple(List::from_vec(vec![("a".to_string(), type_param())])),
        ResolvedType::Generic {
            base: GenericBase::Struct(StructId(0)),
            args: List::from_vec(vec![i32_ty(), type_param()]),
        },
        ResolvedType::Dictionary {
            key_ty: Box::new(i32_ty()),
            value_ty: Box::new(type_param()),
        },
        ResolvedType::Closure {
            param_tys: List::from_vec(vec![(ParamConvention::Let, type_param())]),
            return_ty: Box::new(i32_ty()),
        },
    ];
    for ty in wrapped {
        let mut m = module();
        m.functions.push(function("f", vec![param(0, "x", ty)], None, number(0)));
        assert_eq!(check(&m), found("function 'f' parameter 'x'"));
    }
}

#[test]
fn places_are_named() {
    let mut m = module();
    m.structs.push(structure("S", vec![field("a", type_param())]));
    assert_eq!(check(&m), found("struct 'S' field 'a'"));

    let mut m = module();
    let mut f = field("a", i32_ty());
    f.default = Some(bad_value());
    m.structs.push(structure("S", vec![f]));
    assert_eq!(check(&m), found("default for S::a"));

    let mut m = module();
    m.traits.push(trait_of(vec![field("a", type_param())], vec![]));
    assert_eq!(check(&m), found("trait 'Shown' field 'a'"));

    let mut m = module();
    m.traits.push(trait_of(vec![], vec![IrFunctionSig {
        name: "show".to_string(),
        params: vec![],
        return_type: Some(type_param()),
    }]));
    assert_eq!(check(&m), found("trait 'Shown' method 'show' return type"));

    let mut m = module();
    m.enums.push(IrEnum {
        name: "E".to_string(),
        visibility: Visibility::Private,
        variants: vec![IrEnumVariant { name: "v".to_string(), fields: vec![field("a", type_param())] }],
        generic_params: vec![],
    });
    assert_eq!(check(&m), found("enum 'E' variant 'v' field 'a'"));

    let mut m = module();
    m.lets.push(IrLet { name: "l".to_string(), ty: i32_ty(), value: bad_value() });
    assert_eq!(check(&m), found("let 'l'"));

    let mut m = module();
    m.functions.push(function("f", vec![], None, bad_value()));
    assert_eq!(check(&m), found("function 'f' body"));
}

#[test]
fn methods_are_checked_in_their_impl() {
    let targets = [
        (ImplTarget::Struct(StructId(0)), "impl 'S' method 'go' body"),
        (ImplTarget::Struct(StructId(7)), "impl 'struct#7' method 'go' body"),
        (ImplTarget::Enum(EnumId(3)), "impl 'enum#3' method 'go' body"),
        (
            ImplTarget::Primitive(PrimitiveType::String),
            "impl 'primitive String' method 'go' body",
        ),
    ];
    for (target, place) in targets {
        let mut m = module();
        m.structs.push(structure("S", vec![]));
        m.impls.push(IrImpl {
            target,
            trait_ref: None,
            functions: vec![function("go", vec![], None, bad_value())],
            is_extern: false,
        });
        assert_eq!(check(&m), found(place));
    }
}

#[test]
fn values_are_checked_deep_inside() {
    let inner = IrExpr::Block {
        statements: vec![IrBlockStatement::Let {
            binding_id: BindingId(1),
            name: "x".to_string(),
            ty: Some(type_param()),
            value: number(1),
        }],
        result: Box::new(number(2)),
        ty: i32_ty(),
    };
    let mut m = module();
    m.functions.push(function("f", vec![], None, IrExpr::Match {
        scrutinee: Box::new(number(0)),
        arms: vec![IrMatchArm {
            variant: "a".to_string(),
            variant_idx: VariantIdx(0),
            is_wildcard: false,
            bindings: vec![],
            body: inner,
        }],
        ty: i32_ty(),
    }));
    assert_eq!(check(&m), found("function 'f' body"));
}

#[test]
fn closures_must_be_converted() {
    let mut m = module();
    m.functions.push(function("f", vec![], None, IrExpr::Closure {
        body: Box::new(number(1)),
        ty: closure_type(),
    }));
    assert_eq!(
        check(&m),
        Err(PreflightError::UnconvertedClosure { location: "function 'f' body".to_string() })
    );
}

#[test]
fn public_structs_have_no_closure_fields() {
    let mut m = module();
    m.structs.push(structure("S", vec![field("go", closure_type())]));
    assert_eq!(
        check(&m),
        Err(PreflightError::PublicClosureField {
            struct_name: "S".to_string(),
            field: "go".to_string(),
        })
    );
    m.structs[0].visibility = Visibility::Private;
    assert_eq!(check(&m), Ok(()));
}

#[test]
fn traits_must_not_be_generic() {
    let mut m = module();
    let mut t = trait_of(vec![], vec![]);
    t.generic_params.push(IrGenericParam { name: "T".to_string() });
    t.generic_params.push(IrGenericParam { name: "U".to_string() });
    m.traits.push(t);
    assert_eq!(
        check(&m),
        Err(PreflightError::GenericTrait { trait_name: "Shown".to_string(), param_count: 2 })
    );
}

#[test]
fn placeholders_are_rejected() {
    let mut m = module();
    m.functions.push(function("f", vec![], Some(ResolvedType::Error), number(0)));
    assert_eq!(
        check(&m),
        Err(PreflightError::ErrorTypePlaceholder {
            location: "function 'f' return type".to_string(),
        })
    );
}

#[test]
fn structs_come_before_functions() {
    let mut m = module();
    m.functions.push(function("f", vec![], None, bad_value()));
    m.structs.push(structure("S", vec![field("a", type_param())]));
    assert_eq!(check(&m), found("struct 'S' field 'a'"));
}
