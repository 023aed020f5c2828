//! Whole modules, from the intermediate representation to components.

use formawasm::backend::{WasmBackend, WasmBackendError};
use formawasm::ir::{
    BinaryOperator, BindingId, DispatchKind, EnumId, FieldIdx, FunctionId, ImplId, ImplTarget,
    IrBlockStatement, IrEnum, IrEnumVariant, IrExpr, IrField, IrFunction, IrFunctionParam,
    IrFunctionSig, IrImpl, IrMatchArm, IrModule, IrStruct, IrTrait, IrTraitRef, List, Literal,
    MethodIdx, NumberLiteral, NumberValue, ParamConvention, PrimitiveType, ReferenceTarget,
    ResolvedType, StructId, TraitId, VariantIdx, Visibility,
};
use formawasm::module_lowering::error::ModuleLowerError;
use formawasm::preflight::PreflightError;

fn module() -> IrModule {
    IrModule {
        structs: vec![],
        traits: vec![],
        enums: vec![],
        lets: vec![],
        functions: vec![],
        impls: vec![],
        prelude_optional: None,
        prelude_array: None,
        prelude_range: None,
        prelude_dictionary: None,
    }
}

fn i32_ty() -> ResolvedType {
    ResolvedType::Primitive(PrimitiveType::I32)
}

fn bool_ty() -> ResolvedType {
    ResolvedType::Primitive(PrimitiveType::Boolean)
}

fn string_ty() -> ResolvedType {
    ResolvedType::Primitive(PrimitiveType::String)
}

fn array_ty(t: ResolvedType) -> ResolvedType {
    ResolvedType::Array(Box::new(t))
}

fn optional_ty(t: ResolvedType) -> ResolvedType {
    ResolvedType::Optional(Box::new(t))
}

fn number(v: i32) -> IrExpr {
    IrExpr::Literal {
        value: Literal::Number(NumberLiteral {
            value: NumberValue::Integer(v as i128),
            f32_bits: (v as f32).to_bits(),
            f64_bits: (v as f64).to_bits(),
            text: v.to_string(),
        }),
        ty: i32_ty(),
    }
}

fn text(t: &str) -> IrExpr {
    IrExpr::Literal { value: Literal::String(t.to_string()), ty: string_ty() }
}

fn param(id: u32, name: &str, ty: ResolvedType) -> IrFunctionParam {
    IrFunctionParam { binding_id: BindingId(id), name: name.to_string(), ty: Some(ty) }
}

fn use_param(id: u32, name: &str, ty: ResolvedType) -> IrExpr {
    IrExpr::Reference {
        path: List::from_vec(vec![name.to_string()]),
        target: ReferenceTarget::Param(BindingId(id)),
        ty,
    }
}

fn binary(left: IrExpr, op: BinaryOperator, right: IrExpr, ty: ResolvedType) -> IrExpr {
    IrExpr::BinaryOp { left: Box::new(left), op, right: Box::new(right), ty }
}

fn function(
    name: &str,
    params: Vec<IrFunctionParam>,
    result: Option<ResolvedType>,
    body: IrExpr,
) -> IrFunction {
    IrFunction {
        name: name.to_string(),
        params,
        return_type: result,
        body: Some(body),
        is_extern: false,
    }
}

fn host(name: &str, params: Vec<IrFunctionParam>, result: Option<ResolvedType>) -> IrFunction {
    IrFunction {
        name: name.to_string(),
        params,
        return_type: result,
        body: None,
        is_extern: true,
    }
}

fn call(id: u32, name: &str, args: Vec<IrExpr>, ty: ResolvedType) -> IrExpr {
    IrExpr::FunctionCall {
        path: List::from_vec(vec![name.to_string()]),
        function_id: Some(FunctionId(id)),
        args: args.into_iter().map(|a| (None, a)).collect(),
        ty,
    }
}

fn field(name: &str, ty: ResolvedType) -> IrField {
    IrField { name: name.to_string(), ty, optional: false, default: None }
}

fn structure(name: &str, fields: Vec<IrField>) -> IrStruct {
    IrStruct {
        name: name.to_string(),
        visibility: Visibility::Public,
        fields,
        generic_params: vec![],
    }
}

fn is_component(bytes: &[u8]) -> bool {
    bytes.starts_with(&[0x00, 0x61, 0x73, 0x6d, 0x0d, 0x00, 0x01, 0x00])
}

fn generate(m: &IrModule) -> Vec<u8> {
    match WasmBackend::new().generate(m) {
        Ok(bytes) => bytes,
        Err(e) => panic!("{e:?}"),
    }
}

#[test]
fn an_empty_module_is_a_component() {
    assert!(is_component(&generate(&module())));
}

#[test]
fn arithmetic_compiles() {
    let mut m = module();
    let sum = binary(
        use_param(0, "a", i32_ty()),
        BinaryOperator::Add,
        use_param(1, "b", i32_ty()),
        i32_ty(),
    );
    m.functions.push(function(
        "add_numbers",
        vec![param(0, "a", i32_ty()), param(1, "b", i32_ty())],
        Some(i32_ty()),
        sum,
    ));
    assert!(is_component(&generate(&m)));
}

#[test]
fn strings_cross_the_boundary() {
    let mut m = module();
    let joined = binary(
        text("hello, "),
        BinaryOperator::Add,
        use_param(0, "who", string_ty()),
        string_ty(),
    );
    m.functions.push(function(
        "greet",
        vec![param(0, "who", string_ty())],
        Some(string_ty()),
        joined,
    ));
    assert!(is_component(&generate(&m)));
}

#[test]
fn host_functions_are_imported() {
    let mut m = module();
    m.functions.push(host("log_line", vec![param(0, "line", string_ty())], None));
    m.functions.push(host("now", vec![], Some(i32_ty())));
    m.functions.push(function(
        "run",
        vec![],
        Some(i32_ty()),
        IrExpr::Block {
            statements: vec![],
            result: Box::new(call(1, "now", vec![], i32_ty())),
            ty: i32_ty(),
        },
    ));
    assert!(is_component(&generate(&m)));
}

fn point() -> ResolvedType {
    ResolvedType::Struct(StructId(0))
}

#[test]
fn structs_cross_the_boundary() {
    let mut m = module();
    m.structs.push(structure("Point", vec![field("x", i32_ty()), field("y_pos", i32_ty())]));
    let x = IrExpr::FieldAccess {
        object: Box::new(use_param(0, "p", point())),
        field: "x".to_string(),
        field_idx: FieldIdx(0),
        ty: i32_ty(),
    };
    m.functions.push(function("get_x", vec![param(0, "p", point())], Some(i32_ty()), x));
    let made = IrExpr::StructInst {
        struct_id: Some(StructId(0)),
        fields: vec![
            ("x".to_string(), FieldIdx(0), number(1)),
            ("y_pos".to_string(), FieldIdx(1), number(2)),
        ],
        ty: point(),
    };
    m.functions.push(function("origin", vec![], Some(point()), made));
    assert!(is_component(&generate(&m)));
}

#[test]
fn enums_are_matched() {
    let mut m = module();
    let shape = ResolvedType::Enum(EnumId(0));
    m.enums.push(IrEnum {
        name: "Shape".to_string(),
        visibility: Visibility::Public,
        variants: vec![
            IrEnumVariant { name: "empty".to_string(), fields: vec![] },
            IrEnumVariant { name: "square".to_string(), fields: vec![field("side", i32_ty())] },
        ],
        generic_params: vec![],
    });
    let matched = IrExpr::Match {
        scrutinee: Box::new(use_param(0, "s", ResolvedType::Enum(EnumId(0)))),
        arms: vec![
            IrMatchArm {
                variant: "empty".to_string(),
                variant_idx: VariantIdx(0),
                is_wildcard: false,
                bindings: vec![],
                body: number(0),
            },
            IrMatchArm {
                variant: "square".to_string(),
                variant_idx: VariantIdx(1),
                is_wildcard: false,
                bindings: vec![("side".to_string(), BindingId(7), i32_ty())],
                body: IrExpr::LetRef {
                    name: "side".to_string(),
                    binding_id: BindingId(7),
                    ty: i32_ty(),
                },
            },
        ],
        ty: i32_ty(),
    };
    m.functions.push(function("area", vec![param(0, "s", shape)], Some(i32_ty()), matched));
    assert!(is_component(&generate(&m)));
}

#[test]
fn arrays_are_walked() {
    let mut m = module();
    let doubled = IrExpr::For {
        var: "x".to_string(),
        var_ty: i32_ty(),
        var_binding_id: BindingId(5),
        collection: Box::new(use_param(0, "xs", array_ty(i32_ty()))),
        body: Box::new(binary(
            IrExpr::LetRef { name: "x".to_string(), binding_id: BindingId(5), ty: i32_ty() },
            BinaryOperator::Mul,
            number(2),
            i32_ty(),
        )),
        ty: array_ty(i32_ty()),
    };
    m.functions.push(function(
        "double_all",
        vec![param(0, "xs", array_ty(i32_ty()))],
        Some(array_ty(i32_ty())),
        doubled,
    ));
    assert!(is_component(&generate(&m)));
}

#[test]
fn optionals_cross_the_boundary() {
    let mut m = module();
    m.functions.push(function(
        "maybe",
        vec![param(0, "x", optional_ty(i32_ty()))],
        Some(optional_ty(i32_ty())),
        use_param(0, "x", optional_ty(i32_ty())),
    ));
    assert!(is_component(&generate(&m)));
}

#[test]
fn branches_compile() {
    let mut m = module();
    let larger = IrExpr::If {
        condition: Box::new(binary(
            use_param(0, "a", i32_ty()),
            BinaryOperator::Gt,
            number(0),
            bool_ty(),
        )),
        then_branch: Box::new(use_param(0, "a", i32_ty())),
        else_branch: Some(Box::new(number(0))),
        ty: i32_ty(),
    };
    m.functions.push(function(
        "positive",
        vec![param(0, "a", i32_ty())],
        Some(i32_ty()),
        IrExpr::Block {
            statements: vec![IrBlockStatement::Let {
                binding_id: BindingId(3),
                name: "r".to_string(),
                ty: Some(i32_ty()),
                value: larger,
            }],
            result: Box::new(IrExpr::LetRef {
                name: "r".to_string(),
                binding_id: BindingId(3),
                ty: i32_ty(),
            }),
            ty: i32_ty(),
        },
    ));
    assert!(is_component(&generate(&m)));
}

fn counter_module() -> IrModule {
    let mut m = module();
    m.structs.push(structure("Counter", vec![field("value", i32_ty())]));
    m.traits.push(IrTrait {
        name: "Shown".to_string(),
        composed_traits: vec![],
        fields: vec![],
        methods: vec![IrFunctionSig {
            name: "show".to_string(),
            params: vec![IrFunctionParam {
                binding_id: BindingId(0),
                name: "self".to_string(),
                ty: None,
            }],
            return_type: Some(i32_ty()),
        }],
        generic_params: vec![],
    });
    m.impls.push(IrImpl {
        target: ImplTarget::Struct(StructId(0)),
        trait_ref: Some(IrTraitRef { trait_id: TraitId(0) }),
        functions: vec![IrFunction {
            name: "show".to_string(),
            params: vec![IrFunctionParam {
                binding_id: BindingId(0),
                name: "self".to_string(),
                ty: None,
            }],
            return_type: Some(i32_ty()),
            body: Some(IrExpr::SelfFieldRef {
                field: "value".to_string(),
                field_idx: FieldIdx(0),
                ty: i32_ty(),
            }),
            is_extern: false,
        }],
        is_extern: false,
    });
    m
}

#[test]
fn methods_are_called_statically() {
    let mut m = counter_module();
    let receiver = use_param(0, "c", point());
    m.functions.push(function(
        "read",
        vec![param(0, "c", point())],
        Some(i32_ty()),
        IrExpr::MethodCall {
            receiver: Box::new(receiver),
            method: "show".to_string(),
            method_idx: MethodIdx(0),
            args: vec![],
            dispatch: DispatchKind::Static { impl_id: ImplId(0) },
            ty: i32_ty(),
        },
    ));
    assert!(is_component(&generate(&m)));
}

#[test]
fn methods_are_called_through_traits() {
    let mut m = counter_module();
    m.functions.push(function(
        "read",
        vec![param(0, "c", point())],
        Some(i32_ty()),
        IrExpr::MethodCall {
            receiver: Box::new(use_param(0, "c", point())),
            method: "show".to_string(),
            method_idx: MethodIdx(0),
            args: vec![],
            dispatch: DispatchKind::Virtual {
                trait_id: TraitId(0),
                method_name: "show".to_string(),
            },
            ty: i32_ty(),
        },
    ));
    assert!(is_component(&generate(&m)));
}

fn unary_closure() -> ResolvedType {
    ResolvedType::Closure {
        param_tys: List::from_vec(vec![(ParamConvention::Let, i32_ty())]),
        return_ty: Box::new(i32_ty()),
    }
}

#[test]
fn closures_are_called() {
    let mut m = module();
    m.structs.push(IrStruct {
        name: "__ClosureEnv0".to_string(),
        visibility: Visibility::Private,
        fields: vec![],
        generic_params: vec![],
    });
    m.functions.push(function(
        "__closure0",
        vec![param(0, "__env", point()), param(1, "x", i32_ty())],
        Some(i32_ty()),
        binary(use_param(1, "x", i32_ty()), BinaryOperator::Add, number(1), i32_ty()),
    ));
    m.functions.push(function(
        "apply",
        vec![param(2, "y", i32_ty())],
        Some(i32_ty()),
        IrExpr::CallClosure {
            closure: Box::new(IrExpr::ClosureRef {
                funcref: vec!["__closure0".to_string()],
                env_struct: Box::new(IrExpr::StructInst {
                    struct_id: Some(StructId(0)),
                    fields: vec![],
                    ty: point(),
                }),
                ty: unary_closure(),
            }),
            args: vec![(None, use_param(2, "y", i32_ty()))],
            ty: i32_ty(),
        },
    ));
    assert!(is_component(&generate(&m)));
}

#[test]
fn an_unfit_module_is_rejected_first() {
    let mut m = module();
    m.functions.push(function(
        "bad",
        vec![param(0, "x", ResolvedType::TypeParam("T".to_string()))],
        None,
        number(0),
    ));
    assert_eq!(
        WasmBackend::new().generate(&m),
        Err(WasmBackendError::Preflight(PreflightError::UnresolvedTypeParam {
            name: "T".to_string(),
            location: "function 'bad' parameter 'x'".to_string(),
        }))
    );
}

#[test]
fn a_function_without_a_body_is_rejected() {
    let mut m = module();
    let mut f = function("lost", vec![], None, number(0));
    f.body = None;
    m.functions.push(f);
    assert_eq!(
        WasmBackend::new().generate(&m),
        Err(WasmBackendError::ModuleLower(ModuleLowerError::MissingFunctionBody {
            name: "lost".to_string(),
        }))
    );
}
