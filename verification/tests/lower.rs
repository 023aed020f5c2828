//! Lowering of single expressions.

use formawasm::instr::{BlockType, FloatOp, I32Op, Instr, IntOp, LoadOp, MemArg, StoreOp, ValType};
use formawasm::ir::{
    BinaryOperator, BindingId, DispatchKind, EnumId, FieldIdx, FunctionId, ImplId,
    IrBlockStatement, IrEnum, IrEnumVariant, IrExpr, IrField, IrFunction, IrFunctionParam,
    IrMatchArm, IrModule, IrStruct, LetId, List, Literal, MethodIdx, NumberLiteral, NumberValue,
    ParamConvention, PrimitiveType, ReferenceTarget, ResolvedType, StructId, TraitId,
    UnaryOperator, VariantIdx, Visibility,
};
use formawasm::layout::LayoutError;
use formawasm::lower::block::{
    count_scratch_locals, lower_function_body, lower_function_body_in_module, FunctionBody,
    ScratchCounts,
};
use formawasm::lower::context::{InstructionSink, LowerContext, ScratchAllocator, ScratchRegions};
use formawasm::lower::error::{
    ContextField, ExprKind, FieldOwner, LiteralKind, LowerError, Missing, NumberPayload, Operator,
    TargetKind,
};
use formawasm::lower::lower_expr;
use formawasm::lower::maps::{BindingMap, FunctionMap, MethodMap};
use formawasm::lower::optional::{some_wrap_payload, some_wrap_scratch_valtype};
use formawasm::string_pool::StringPool;
use formawasm::types::{TypeMapError, UnsupportedKind};

fn module() -> IrModule {
    IrModule {
        structs: vec![],
        traits: vec![],
        enums: vec![],
        lets: vec![],
        functions: vec![],
        impls: vec![],
        prelude_optional: None,
        prelude_array: None,
        prelude_range: None,
        prelude_dictionary: None,
    }
}

fn i32_ty() -> ResolvedType {
    ResolvedType::Primitive(PrimitiveType::I32)
}

fn bool_ty() -> ResolvedType {
    ResolvedType::Primitive(PrimitiveType::Boolean)
}

fn string_ty() -> ResolvedType {
    ResolvedType::Primitive(PrimitiveType::String)
}

fn array_ty(t: ResolvedType) -> ResolvedType {
    ResolvedType::Array(Box::new(t))
}

fn optional_ty(t: ResolvedType) -> ResolvedType {
    ResolvedType::Optional(Box::new(t))
}

fn number(v: i32) -> IrExpr {
    IrExpr::Literal {
        value: Literal::Number(NumberLiteral {
            value: NumberValue::Integer(v as i128),
            f32_bits: (v as f32).to_bits(),
            f64_bits: (v as f64).to_bits(),
            text: v.to_string(),
        }),
        ty: i32_ty(),
    }
}

fn text(t: &str) -> IrExpr {
    IrExpr::Literal { value: Literal::String(t.to_string()), ty: string_ty() }
}

fn param(id: u32, name: &str, ty: ResolvedType) -> IrFunctionParam {
    IrFunctionParam { binding_id: BindingId(id), name: name.to_string(), ty: Some(ty) }
}

fn use_param(id: u32, name: &str, ty: ResolvedType) -> IrExpr {
    IrExpr::Reference {
        path: List::from_vec(vec![name.to_string()]),
        target: ReferenceTarget::Param(BindingId(id)),
        ty,
    }
}

fn binary(left: IrExpr, op: BinaryOperator, right: IrExpr, ty: ResolvedType) -> IrExpr {
    IrExpr::BinaryOp { left: Box::new(left), op, right: Box::new(right), ty }
}

fn function(
    name: &str,
    params: Vec<IrFunctionParam>,
    result: Option<ResolvedType>,
    body: IrExpr,
) -> IrFunction {
    IrFunction {
        name: name.to_string(),
        params,
        return_type: result,
        body: Some(body),
        is_extern: false,
    }
}

fn call(id: u32, name: &str, args: Vec<IrExpr>, ty: ResolvedType) -> IrExpr {
    IrExpr::FunctionCall {
        path: List::from_vec(vec![name.to_string()]),
        function_id: Some(FunctionId(id)),
        args: args.into_iter().map(|a| (None, a)).collect(),
        ty,
    }
}

fn field(name: &str, ty: ResolvedType) -> IrField {
    IrField { name: name.to_string(), ty, optional: false, default: None }
}

fn structure(name: &str, fields: Vec<IrField>) -> IrStruct {
    IrStruct {
        name: name.to_string(),
        visibility: Visibility::Public,
        fields,
        generic_params: vec![],
    }
}

fn primitive(p: PrimitiveType) -> ResolvedType {
    ResolvedType::Primitive(p)
}

fn with_type(v: i64, p: PrimitiveType) -> IrExpr {
    IrExpr::Literal {
        value: Literal::Number(NumberLiteral {
            value: NumberValue::Integer(v as i128),
            f32_bits: (v as f32).to_bits(),
            f64_bits: (v as f64).to_bits(),
            text: v.to_string(),
        }),
        ty: primitive(p),
    }
}

/// The code of an expression with parameters 0 and 1, without a module.
fn plain(e: &IrExpr) -> Result<Vec<Instr>, LowerError> {
    let params = vec![(BindingId(0), ValType::I32), (BindingId(1), ValType::I32)];
    lower_function_body(e, &params, &FunctionMap::new()).map(|b| b.code)
}

/// The body of an expression in a module.
fn in_module(e: &IrExpr, m: &IrModule) -> Result<FunctionBody, LowerError> {
    let params = vec![(BindingId(0), ValType::I32), (BindingId(1), ValType::I32)];
    let mut pool = StringPool::new();
    pool.intern("known").unwrap();
    lower_function_body_in_module(
        e,
        None,
        &params,
        &FunctionMap::new(),
        &MethodMap::new(),
        m,
        9,
        None,
        None,
        None,
        pool.lookup_map(),
        10,
        11,
    )
}

fn not_yet(what: Missing) -> LowerError {
    LowerError::NotYetImplemented { what }
}

fn word(offset: u64) -> MemArg {
    MemArg { offset, align: 2, memory_index: 0 }
}

#[test]
fn constants_have_the_type_of_the_literal() {
    assert_eq!(plain(&number(-3)), Ok(vec![Instr::I32Const(-3), Instr::End]));
    assert_eq!(
        plain(&with_type(i64::MAX, PrimitiveType::I64)),
        Ok(vec![Instr::I64Const(i64::MAX), Instr::End])
    );
    assert_eq!(
        plain(&with_type(1, PrimitiveType::F32)),
        Ok(vec![Instr::F32Const(0x3f80_0000), Instr::End])
    );
    assert_eq!(
        plain(&with_type(1, PrimitiveType::F64)),
        Ok(vec![Instr::F64Const(0x3ff0_0000_0000_0000), Instr::End])
    );
    let yes = IrExpr::Literal { value: Literal::Boolean(true), ty: bool_ty() };
    assert_eq!(plain(&yes), Ok(vec![Instr::I32Const(1), Instr::End]));
}

#[test]
fn a_number_must_fit_its_type() {
    assert_eq!(
        plain(&with_type(1 << 40, PrimitiveType::I32)),
        Err(LowerError::LiteralOutOfRange {
            payload: NumberPayload::Integer(1 << 40),
            target: PrimitiveType::I32,
        })
    );
    for v in [0, 7, -1, 1 << 40, i128::MAX, i128::MIN] {
        assert_eq!(NumberPayload::Integer(v).spelling(), v.to_string());
    }
    let half = IrExpr::Literal {
        value: Literal::Number(NumberLiteral {
            value: NumberValue::Float,
            f32_bits: 0.5f32.to_bits(),
            f64_bits: 0.5f64.to_bits(),
            text: "0.5".to_string(),
        }),
        ty: i32_ty(),
    };
    match plain(&half) {
        Err(LowerError::LiteralOutOfRange { payload, .. }) => {
            assert_eq!(payload.spelling(), "0.5")
        },
        other => panic!("{other:?}"),
    }
    assert_eq!(
        plain(&with_type(1, PrimitiveType::String)),
        Err(LowerError::LiteralTypeMismatch { kind: LiteralKind::Number, ty: string_ty() })
    );
    let wrong = IrExpr::Literal { value: Literal::Boolean(true), ty: array_ty(i32_ty()) };
    assert_eq!(
        plain(&wrong),
        Err(LowerError::LiteralTypeMismatch {
            kind: LiteralKind::Boolean,
            ty: array_ty(i32_ty()),
        })
    );
}

#[test]
fn texts_are_offsets_of_interned_headers() {
    let m = module();
    assert_eq!(
        in_module(&text("known"), &m).map(|b| b.code),
        Ok(vec![Instr::I32Const(8), Instr::End])
    );
    assert_eq!(
        in_module(&text("new"), &m),
        Err(not_yet(Missing::TextNotInterned("new".to_string())))
    );
    assert_eq!(plain(&text("known")), Err(not_yet(Missing::Literal(LiteralKind::String))));
}

#[test]
fn operands_come_before_their_operator() {
    let e = binary(
        use_param(0, "a", i32_ty()),
        BinaryOperator::Add,
        use_param(1, "b", i32_ty()),
        i32_ty(),
    );
    assert_eq!(
        plain(&e),
        Ok(vec![
            Instr::LocalGet(0),
            Instr::LocalGet(1),
            Instr::I32(IntOp::Add),
            Instr::End,
        ])
    );
}

#[test]
fn operators_follow_the_operand_type() {
    let cases = [
        (PrimitiveType::I64, BinaryOperator::Mod, Instr::I64(IntOp::RemS)),
        (PrimitiveType::F32, BinaryOperator::Div, Instr::F32(FloatOp::Div)),
        (PrimitiveType::F64, BinaryOperator::Lt, Instr::F64(FloatOp::Lt)),
    ];
    for (p, op, instr) in cases {
        let e = binary(with_type(1, p), op, with_type(2, p), primitive(p));
        assert_eq!(plain(&e).unwrap()[2], instr);
    }
}

#[test]
fn operators_without_an_instruction_are_rejected() {
    let rem = binary(
        with_type(1, PrimitiveType::F32),
        BinaryOperator::Mod,
        with_type(2, PrimitiveType::F32),
        primitive(PrimitiveType::F32),
    );
    assert_eq!(
        plain(&rem),
        Err(LowerError::UnsupportedOperator {
            op: Operator::Binary(BinaryOperator::Mod),
            operand: PrimitiveType::F32,
        })
    );
    let array = || use_param(0, "a", array_ty(i32_ty()));
    assert_eq!(
        plain(&binary(array(), BinaryOperator::Add, array(), i32_ty())),
        Err(not_yet(Missing::BinaryOperand(array_ty(i32_ty()))))
    );
    let not = IrExpr::UnaryOp {
        op: UnaryOperator::Not,
        operand: Box::new(number(1)),
        ty: i32_ty(),
    };
    assert_eq!(
        plain(&not),
        Err(LowerError::UnsupportedOperator {
            op: Operator::Unary(UnaryOperator::Not),
            operand: PrimitiveType::I32,
        })
    );
    let neg = IrExpr::UnaryOp {
        op: UnaryOperator::Neg,
        operand: Box::new(array()),
        ty: i32_ty(),
    };
    assert_eq!(plain(&neg), Err(not_yet(Missing::UnaryOperand(array_ty(i32_ty())))));
    let path = |t: &str| IrExpr::Literal {
        value: Literal::Path(t.to_string()),
        ty: primitive(PrimitiveType::Path),
    };
    assert_eq!(
        in_module(
            &binary(path("known"), BinaryOperator::Eq, path("known"), bool_ty()),
            &module(),
        ),
        Err(not_yet(Missing::BinaryOn(BinaryOperator::Eq, PrimitiveType::Path)))
    );
}

#[test]
fn texts_call_the_runtime() {
    let m = module();
    let code = |op| {
        in_module(&binary(text("known"), op, text("known"), string_ty()), &m).map(|b| b.code)
    };
    let operands = || vec![Instr::I32Const(8), Instr::I32Const(8)];
    let mut eq = operands();
    eq.extend([Instr::Call(10), Instr::End]);
    assert_eq!(code(BinaryOperator::Eq), Ok(eq));
    let mut ne = operands();
    ne.extend([Instr::Call(10), Instr::I32Bits(I32Op::Eqz), Instr::End]);
    assert_eq!(code(BinaryOperator::Ne), Ok(ne));
    let mut add = operands();
    add.extend([Instr::Call(11), Instr::End]);
    assert_eq!(code(BinaryOperator::Add), Ok(add));
    assert_eq!(
        code(BinaryOperator::Sub),
        Err(LowerError::UnsupportedOperator {
            op: Operator::Binary(BinaryOperator::Sub),
            operand: PrimitiveType::String,
        })
    );
    assert_eq!(
        plain(&binary(text("a"), BinaryOperator::Eq, text("b"), bool_ty())),
        Err(LowerError::MissingContext { what: ContextField::StrEq })
    );
}

#[test]
fn references_read_locals() {
    assert_eq!(
        plain(&use_param(1, "b", i32_ty())),
        Ok(vec![Instr::LocalGet(1), Instr::End])
    );
    let to = |target| IrExpr::Reference {
        path: List::from_vec(vec!["x".to_string()]),
        target,
        ty: i32_ty(),
    };
    let cases = [
        (ReferenceTarget::Param(BindingId(7)), LowerError::UnknownBinding(BindingId(7))),
        (ReferenceTarget::Unresolved, LowerError::UnresolvedReference),
        (
            ReferenceTarget::Function(FunctionId(0)),
            not_yet(Missing::Reference(TargetKind::Function)),
        ),
        (
            ReferenceTarget::ModuleLet(LetId(0)),
            not_yet(Missing::Reference(TargetKind::ModuleLet)),
        ),
        (
            ReferenceTarget::Struct(StructId(0)),
            not_yet(Missing::Reference(TargetKind::TypeDefinition)),
        ),
        (
            ReferenceTarget::External { name: "x".to_string() },
            not_yet(Missing::Reference(TargetKind::External)),
        ),
    ];
    for (target, error) in cases {
        assert_eq!(plain(&to(target)), Err(error));
    }
}

#[test]
fn branches_are_blocks() {
    let e = IrExpr::If {
        condition: Box::new(use_param(0, "c", bool_ty())),
        then_branch: Box::new(number(1)),
        else_branch: Some(Box::new(number(2))),
        ty: i32_ty(),
    };
    assert_eq!(
        plain(&e),
        Ok(vec![
            Instr::LocalGet(0),
            Instr::If(BlockType::Result(ValType::I32)),
            Instr::I32Const(1),
            Instr::Else,
            Instr::I32Const(2),
            Instr::End,
            Instr::End,
        ])
    );
    let optional = IrExpr::If {
        condition: Box::new(use_param(0, "c", bool_ty())),
        then_branch: Box::new(number(1)),
        else_branch: None,
        ty: optional_ty(i32_ty()),
    };
    assert_eq!(
        in_module(&optional, &module()),
        Err(LowerError::TypeMap(TypeMapError::NotYetSupported {
            kind: UnsupportedKind::Optional,
        }))
    );
}

#[test]
fn bindings_follow_the_parameters() {
    let e = IrExpr::Block {
        statements: vec![IrBlockStatement::Let {
            binding_id: BindingId(4),
            name: "x".to_string(),
            ty: None,
            value: number(5),
        }],
        result: Box::new(IrExpr::LetRef {
            name: "x".to_string(),
            binding_id: BindingId(4),
            ty: i32_ty(),
        }),
        ty: i32_ty(),
    };
    let params = vec![(BindingId(0), ValType::I32), (BindingId(1), ValType::I32)];
    assert_eq!(
        lower_function_body(&e, &params, &FunctionMap::new()),
        Ok(FunctionBody {
            locals: vec![(1, ValType::I32)],
            code: vec![
                Instr::I32Const(5),
                Instr::LocalSet(2),
                Instr::LocalGet(2),
                Instr::End,
            ],
        })
    );
    let never = IrExpr::Block {
        statements: vec![IrBlockStatement::Let {
            binding_id: BindingId(4),
            name: "x".to_string(),
            ty: Some(primitive(PrimitiveType::Never)),
            value: number(5),
        }],
        result: Box::new(number(0)),
        ty: i32_ty(),
    };
    assert_eq!(
        plain(&never),
        Err(LowerError::ZeroSizedLetBinding {
            name: "x".to_string(),
            ty: primitive(PrimitiveType::Never),
        })
    );
}

#[test]
fn only_fields_are_assigned() {
    let e = IrExpr::Block {
        statements: vec![IrBlockStatement::Assign {
            target: use_param(0, "a", i32_ty()),
            value: number(1),
        }],
        result: Box::new(number(0)),
        ty: i32_ty(),
    };
    assert_eq!(in_module(&e, &module()), Err(not_yet(Missing::AssignTarget)));
}

fn pair() -> ResolvedType {
    ResolvedType::Struct(StructId(0))
}

fn pair_module() -> IrModule {
    let mut m = module();
    m.structs.push(structure("Pair", vec![field("a", i32_ty()), field("b", i32_ty())]));
    m
}

#[test]
fn structs_are_allocated_and_filled() {
    let e = IrExpr::StructInst {
        struct_id: Some(StructId(0)),
        fields: vec![
            ("b".to_string(), FieldIdx(1), number(2)),
            ("a".to_string(), FieldIdx(0), number(1)),
        ],
        ty: pair(),
    };
    assert_eq!(
        in_module(&e, &pair_module()),
        Ok(FunctionBody {
            locals: vec![(1, ValType::I32)],
            code: vec![
                Instr::I32Const(8),
                Instr::Call(9),
                Instr::LocalSet(2),
                Instr::LocalGet(2),
                Instr::I32Const(2),
                Instr::Store(StoreOp::I32, word(4)),
                Instr::LocalGet(2),
                Instr::I32Const(1),
                Instr::Store(StoreOp::I32, word(0)),
                Instr::LocalGet(2),
                Instr::End,
            ],
        })
    );
}

#[test]
fn struct_errors_are_told_apart() {
    let made = |id, name: &str| IrExpr::StructInst {
        struct_id: id,
        fields: vec![(name.to_string(), FieldIdx(0), number(2))],
        ty: pair(),
    };
    let m = pair_module();
    assert_eq!(in_module(&made(None, "a"), &m), Err(LowerError::ExternalStructInst));
    assert_eq!(
        in_module(&made(Some(StructId(5)), "a"), &m),
        Err(LowerError::UnknownStruct(StructId(5)))
    );
    match in_module(&made(Some(StructId(0)), "zz"), &m) {
        Err(LowerError::FieldIndexOutOfRange { struct_name, field_count, .. }) => {
            assert_eq!(struct_name, FieldOwner::Named("Pair".to_string()));
            assert_eq!(field_count, 2);
        },
        other => panic!("{other:?}"),
    }
    assert_eq!(
        plain(&made(Some(StructId(0)), "a")),
        Err(LowerError::MissingContext { what: ContextField::Module })
    );
}

fn access(object: IrExpr, name: &str, idx: u32) -> IrExpr {
    IrExpr::FieldAccess {
        object: Box::new(object),
        field: name.to_string(),
        field_idx: FieldIdx(idx),
        ty: i32_ty(),
    }
}

#[test]
fn fields_are_loaded_at_their_offset() {
    let m = pair_module();
    assert_eq!(
        in_module(&access(use_param(0, "p", pair()), "b", 1), &m).map(|b| b.code),
        Ok(vec![Instr::LocalGet(0), Instr::Load(LoadOp::I32, word(4)), Instr::End])
    );
    assert_eq!(
        in_module(&access(number(1), "b", 1), &m),
        Err(LowerError::FieldAccessOnNonAggregate { ty: i32_ty() })
    );
    let own = IrExpr::SelfFieldRef {
        field: "a".to_string(),
        field_idx: FieldIdx(0),
        ty: i32_ty(),
    };
    assert_eq!(in_module(&own, &m), Err(LowerError::MissingSelfStruct));
}

fn shape_module() -> IrModule {
    let mut m = module();
    m.enums.push(IrEnum {
        name: "Shape".to_string(),
        visibility: Visibility::Public,
        variants: vec![
            IrEnumVariant { name: "dot".to_string(), fields: vec![] },
            IrEnumVariant { name: "square".to_string(), fields: vec![field("side", i32_ty())] },
        ],
        generic_params: vec![],
    });
    m
}

fn enum_value(id: Option<EnumId>, name: &str, idx: u32) -> IrExpr {
    IrExpr::EnumInst {
        enum_id: id,
        variant: name.to_string(),
        variant_idx: VariantIdx(idx),
        fields: vec![],
        ty: ResolvedType::Enum(EnumId(0)),
    }
}

#[test]
fn enums_store_their_tag() {
    let m = shape_module();
    assert_eq!(
        in_module(&enum_value(Some(EnumId(0)), "dot", 0), &m).map(|b| b.code),
        Ok(vec![
            Instr::I32Const(8),
            Instr::Call(9),
            Instr::LocalSet(2),
            Instr::LocalGet(2),
            Instr::I32Const(0),
            Instr::Store(StoreOp::I32, word(0)),
            Instr::LocalGet(2),
            Instr::End,
        ])
    );
    assert_eq!(
        in_module(&enum_value(None, "dot", 0), &m),
        Err(LowerError::ExternalEnumInst)
    );
    assert_eq!(
        in_module(&enum_value(Some(EnumId(4)), "dot", 0), &m),
        Err(LowerError::UnknownEnum(EnumId(4)))
    );
    assert_eq!(
        in_module(&enum_value(Some(EnumId(0)), "blob", 9), &m),
        Err(LowerError::UnknownVariant {
            enum_name: Some("Shape".to_string()),
            variant: "blob".to_string(),
        })
    );
}

#[test]
fn an_empty_enum_cannot_be_matched() {
    let mut m = shape_module();
    m.enums[0].variants.clear();
    let e = IrExpr::Match {
        scrutinee: Box::new(use_param(0, "s", ResolvedType::Enum(EnumId(0)))),
        arms: vec![],
        ty: i32_ty(),
    };
    assert_eq!(
        in_module(&e, &m),
        Err(LowerError::Layout(LayoutError::UninhabitedEnum { name: "Shape".to_string() }))
    );
}

#[test]
fn a_match_is_a_jump_table() {
    let m = shape_module();
    let arm = |idx, body| IrMatchArm {
        variant: String::new(),
        variant_idx: VariantIdx(idx),
        is_wildcard: false,
        bindings: vec![],
        body,
    };
    let e = IrExpr::Match {
        scrutinee: Box::new(use_param(0, "s", ResolvedType::Enum(EnumId(0)))),
        arms: vec![arm(1, number(10)), arm(0, number(20))],
        ty: i32_ty(),
    };
    let b = BlockType::Empty;
    assert_eq!(
        in_module(&e, &m).map(|b| b.code),
        Ok(vec![
            Instr::LocalGet(0),
            Instr::LocalSet(2),
            Instr::Block(BlockType::Result(ValType::I32)),
            Instr::Block(b),
            Instr::Block(b),
            Instr::Block(b),
            Instr::LocalGet(2),
            Instr::Load(LoadOp::I32, word(0)),
            Instr::BrTable { targets: List::from_vec(vec![1, 0]), default: 2 },
            Instr::End,
            Instr::I32Const(10),
            Instr::Br(2),
            Instr::End,
            Instr::I32Const(20),
            Instr::Br(1),
            Instr::End,
            Instr::Unreachable,
            Instr::End,
            Instr::End,
        ])
    );
}

#[test]
fn blocks_are_balanced() {
    let m = shape_module();
    let body = IrExpr::For {
        var: "x".to_string(),
        var_ty: i32_ty(),
        var_binding_id: BindingId(5),
        collection: Box::new(use_param(0, "xs", array_ty(i32_ty()))),
        body: Box::new(IrExpr::If {
            condition: Box::new(use_param(1, "c", bool_ty())),
            then_branch: Box::new(number(1)),
            else_branch: Some(Box::new(number(2))),
            ty: i32_ty(),
        }),
        ty: array_ty(i32_ty()),
    };
    let code = in_module(&body, &m).unwrap().code;
    let mut open = 1;
    for (at, i) in code.iter().enumerate() {
        match i {
            Instr::Block(_) | Instr::Loop(_) | Instr::If(_) => open += 1,
            Instr::End => open -= 1,
            Instr::Br(n) | Instr::BrIf(n) => assert!((*n as i32) < open),
            _ => {},
        }
        assert_eq!(open == 0, at == code.len() - 1);
    }
}

#[test]
fn named_locals_are_declared() {
    let m = shape_module();
    let body = IrExpr::For {
        var: "x".to_string(),
        var_ty: i32_ty(),
        var_binding_id: BindingId(5),
        collection: Box::new(use_param(0, "xs", array_ty(i32_ty()))),
        body: Box::new(use_param(5, "x", i32_ty())),
        ty: array_ty(i32_ty()),
    };
    let lowered = in_module(&body, &m).unwrap();
    // Two parameters, the loop variable and the seven locals of the loop.
    let total = 2 + lowered.locals.iter().map(|l| l.0).sum::<u32>();
    assert_eq!(total, 10);
    let mut highest = 0;
    for i in &lowered.code {
        if let Instr::LocalGet(x) | Instr::LocalSet(x) | Instr::LocalTee(x) = i {
            assert!(*x < total);
            highest = highest.max(*x);
        }
    }
    assert_eq!(highest, total - 1);
}

#[test]
fn loops_need_a_range_or_an_array() {
    let m = module();
    let over = |collection: IrExpr, var_ty: ResolvedType, ty: ResolvedType| IrExpr::For {
        var: "x".to_string(),
        var_ty,
        var_binding_id: BindingId(5),
        collection: Box::new(collection),
        body: Box::new(number(1)),
        ty,
    };
    assert_eq!(
        in_module(&over(number(1), i32_ty(), array_ty(i32_ty())), &m),
        Err(not_yet(Missing::ForCollection(i32_ty())))
    );
    assert_eq!(
        in_module(&over(use_param(0, "a", array_ty(i32_ty())), i32_ty(), i32_ty()), &m),
        Err(not_yet(Missing::ForResult(i32_ty())))
    );
    let long = || primitive(PrimitiveType::I64);
    let range = |t: ResolvedType| ResolvedType::Range(Box::new(t));
    assert_eq!(
        in_module(&over(use_param(0, "r", range(long())), long(), array_ty(i32_ty())), &m),
        Err(not_yet(Missing::ForRangeBound(long())))
    );
    assert_eq!(
        in_module(&over(use_param(0, "r", range(i32_ty())), long(), array_ty(i32_ty())), &m),
        Err(not_yet(Missing::ForVariable(long())))
    );
}

#[test]
fn calls_need_their_function() {
    let m = module();
    assert_eq!(
        in_module(&call(3, "f", vec![], i32_ty()), &m),
        Err(LowerError::UnknownFunction(FunctionId(3)))
    );
    let unresolved = IrExpr::FunctionCall {
        path: List::from_vec(vec!["f".to_string()]),
        function_id: None,
        args: vec![],
        ty: i32_ty(),
    };
    assert_eq!(
        in_module(&unresolved, &m),
        Err(LowerError::UnresolvedFunctionCall { path: List::from_vec(vec!["f".to_string()]) })
    );
    let method = |dispatch, receiver| IrExpr::MethodCall {
        receiver: Box::new(receiver),
        method: "go".to_string(),
        method_idx: MethodIdx(2),
        args: vec![],
        dispatch,
        ty: i32_ty(),
    };
    assert_eq!(
        in_module(&method(DispatchKind::Static { impl_id: ImplId(1) }, number(0)), &m),
        Err(LowerError::UnknownMethod { impl_id: ImplId(1), method_idx: MethodIdx(2) })
    );
    let through = || DispatchKind::Virtual { trait_id: TraitId(0), method_name: "go".to_string() };
    assert_eq!(
        in_module(&method(through(), number(0)), &m),
        Err(LowerError::UnsupportedVirtualReceiver { ty: i32_ty() })
    );
    assert_eq!(
        in_module(&method(through(), use_param(0, "s", pair())), &m),
        Err(LowerError::MissingContext { what: ContextField::MethodTable })
    );
}

#[test]
fn closures_need_their_table() {
    let m = module();
    let ty = || ResolvedType::Closure {
        param_tys: List::from_vec(vec![(ParamConvention::Let, i32_ty())]),
        return_ty: Box::new(i32_ty()),
    };
    let called = |closure| IrExpr::CallClosure {
        closure: Box::new(closure),
        args: vec![],
        ty: i32_ty(),
    };
    assert_eq!(
        in_module(&called(number(1)), &m),
        Err(not_yet(Missing::CallOfNonClosure(i32_ty())))
    );
    assert_eq!(
        in_module(&called(use_param(0, "f", ty())), &m),
        Err(LowerError::MissingContext { what: ContextField::ClosureTable })
    );
    let named = |path: Vec<String>| IrExpr::ClosureRef {
        funcref: path,
        env_struct: Box::new(number(0)),
        ty: ty(),
    };
    assert_eq!(in_module(&named(vec![]), &m), Err(not_yet(Missing::EmptyFuncref)));
    assert_eq!(
        in_module(&named(vec!["nope".to_string()]), &m),
        Err(not_yet(Missing::UnknownFuncref("nope".to_string())))
    );
}

#[test]
fn some_expressions_have_no_lowering() {
    let m = module();
    let dict = IrExpr::DictLiteral { entries: vec![], ty: i32_ty() };
    assert_eq!(in_module(&dict, &m), Err(not_yet(Missing::Expr(ExprKind::DictLiteral))));
    let indexed = IrExpr::DictAccess {
        dict: Box::new(number(1)),
        key: Box::new(number(0)),
        ty: i32_ty(),
    };
    assert_eq!(in_module(&indexed, &m), Err(not_yet(Missing::IndexedCollection(i32_ty()))));
    let array = IrExpr::Array { elements: vec![], ty: i32_ty() };
    assert_eq!(in_module(&array, &m), Err(not_yet(Missing::ArrayResult(i32_ty()))));
    let range = binary(number(0), BinaryOperator::Range, number(1), i32_ty());
    assert_eq!(in_module(&range, &m), Err(not_yet(Missing::RangeResult(i32_ty()))));
}

#[test]
fn scratch_locals_are_counted_before() {
    let m = pair_module();
    let made = || IrExpr::StructInst {
        struct_id: Some(StructId(0)),
        fields: vec![],
        ty: pair(),
    };
    let counts = |i32_slots, i64_slots| ScratchCounts {
        i32_slots,
        i64_slots,
        f32_slots: 0,
        f64_slots: 0,
    };
    assert_eq!(count_scratch_locals(&number(1), None, &m), Ok(counts(0, 0)));
    assert_eq!(count_scratch_locals(&made(), None, &m), Ok(counts(1, 0)));
    assert_eq!(count_scratch_locals(&number(1), Some(&optional_ty(i32_ty())), &m), Ok(counts(2, 0)));
    assert_eq!(
        count_scratch_locals(
            &with_type(1, PrimitiveType::I64),
            Some(&optional_ty(primitive(PrimitiveType::I64))),
            &m,
        ),
        Ok(counts(1, 1))
    );
}

#[test]
fn scratch_locals_are_handed_out_once() {
    let regions = ScratchRegions {
        i32_slots: (2, 2),
        i64_slots: (4, 1),
        f32_slots: (5, 0),
        f64_slots: (5, 1),
    };
    let mut a = ScratchAllocator::new(regions);
    assert_eq!(a.allocate(ValType::I32), Ok(2));
    assert_eq!(a.allocate(ValType::I64), Ok(4));
    assert_eq!(a.allocate(ValType::I32), Ok(3));
    assert_eq!(a.allocate(ValType::F64), Ok(5));
    assert_eq!(
        a.allocate(ValType::I32),
        Err(not_yet(Missing::ScratchUnderCounted { ty: ValType::I32, reserved: 2, asked: 3 }))
    );
}

#[test]
fn without_scratch_locals_nothing_is_allocated() {
    let m = pair_module();
    let (bindings, functions) = (BindingMap::new(), FunctionMap::new());
    let ctx = LowerContext::new(&bindings, &functions).with_module(&m).with_bump_allocator(0);
    let mut sink = InstructionSink::new(None);
    let made = IrExpr::StructInst { struct_id: Some(StructId(0)), fields: vec![], ty: pair() };
    assert_eq!(
        lower_expr(&made, &mut sink, &ctx),
        Err(LowerError::MissingContext { what: ContextField::ScratchLocals })
    );
    assert_eq!(sink.code, vec![]);
    let regions = ScratchRegions {
        i32_slots: (4, 1),
        i64_slots: (5, 0),
        f32_slots: (5, 0),
        f64_slots: (5, 0),
    };
    let mut sink = sink.with_scratch_locals(ScratchAllocator::new(regions));
    assert_eq!(lower_expr(&made, &mut sink, &ctx), Ok(()));
    assert_eq!(
        sink.code,
        vec![
            Instr::I32Const(8),
            Instr::Call(0),
            Instr::LocalSet(4),
            Instr::LocalGet(4),
        ]
    );
}

#[test]
fn values_are_wrapped_only_where_needed() {
    let opt = optional_ty(i32_ty());
    assert_eq!(some_wrap_payload(&opt, &i32_ty()), Some(&i32_ty()));
    assert_eq!(some_wrap_payload(&opt, &opt), None);
    assert_eq!(some_wrap_payload(&i32_ty(), &i32_ty()), None);
    assert_eq!(
        some_wrap_scratch_valtype(&primitive(PrimitiveType::F64)),
        Ok(ValType::F64)
    );
    assert_eq!(
        some_wrap_scratch_valtype(&array_ty(i32_ty())),
        Err(not_yet(Missing::SomePayload(array_ty(i32_ty()))))
    );
}
