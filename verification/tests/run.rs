//! Lowered modules, executed.

use formawasm::backend::WasmBackend;
use formawasm::ir::{
    BinaryOperator, BindingId, DispatchKind, EnumId, FieldIdx, FunctionId, ImplId, ImplTarget,
    IrBlockStatement, IrEnum, IrEnumVariant, IrExpr, IrField, IrFunction, IrFunctionParam,
    IrFunctionSig, IrImpl, IrMatchArm, IrModule, IrStruct, IrTrait, IrTraitRef, List, Literal,
    MethodIdx, NumberLiteral, NumberValue, ParamConvention, PrimitiveType, ReferenceTarget,
    ResolvedType, StructId, TraitId, UnaryOperator, VariantIdx, Visibility,
};
use formawasm::module::IMPORT_MODULE_NAME;
use wasmi::{Engine, Instance, Linker, Memory, Module, Store, WasmParams, WasmResults};

fn module() -> IrModule {
    IrModule {
        structs: vec![],
        traits: vec![],
        enums: vec![],
        lets: vec![],
        functions: vec![],
        impls: vec![],
        prelude_optional: None,
        prelude_array: None,
        prelude_range: None,
        prelude_dictionary: None,
    }
}

fn i32_ty() -> ResolvedType {
    ResolvedType::Primitive(PrimitiveType::I32)
}

fn bool_ty() -> ResolvedType {
    ResolvedType::Primitive(PrimitiveType::Boolean)
}

fn string_ty() -> ResolvedType {
    ResolvedType::Primitive(PrimitiveType::String)
}

fn array_ty(t: ResolvedType) -> ResolvedType {
    ResolvedType::Array(Box::new(t))
}

fn optional_ty(t: ResolvedType) -> ResolvedType {
    ResolvedType::Optional(Box::new(t))
}

fn number(v: i32) -> IrExpr {
    IrExpr::Literal {
        value: Literal::Number(NumberLiteral {
            value: NumberValue::Integer(v as i128),
            f32_bits: (v as f32).to_bits(),
            f64_bits: (v as f64).to_bits(),
            text: v.to_string(),
        }),
        ty: i32_ty(),
    }
}

fn text(t: &str) -> IrExpr {
    IrExpr::Literal { value: Literal::String(t.to_string()), ty: string_ty() }
}

fn param(id: u32, name: &str, ty: ResolvedType) -> IrFunctionParam {
    IrFunctionParam { binding_id: BindingId(id), name: name.to_string(), ty: Some(ty) }
}

fn use_param(id: u32, name: &str, ty: ResolvedType) -> IrExpr {
    IrExpr::Reference {
        path: List::from_vec(vec![name.to_string()]),
        target: ReferenceTarget::Param(BindingId(id)),
        ty,
    }
}

fn binary(left: IrExpr, op: BinaryOperator, right: IrExpr, ty: ResolvedType) -> IrExpr {
    IrExpr::BinaryOp { left: Box::new(left), op, right: Box::new(right), ty }
}

fn function(
    name: &str,
    params: Vec<IrFunctionParam>,
    result: Option<ResolvedType>,
    body: IrExpr,
) -> IrFunction {
    IrFunction {
        name: name.to_string(),
        params,
        return_type: result,
        body: Some(body),
        is_extern: false,
    }
}

fn host(name: &str, params: Vec<IrFunctionParam>, result: Option<ResolvedType>) -> IrFunction {
    IrFunction {
        name: name.to_string(),
        params,
        return_type: result,
        body: None,
        is_extern: true,
    }
}

fn call(id: u32, name: &str, args: Vec<IrExpr>, ty: ResolvedType) -> IrExpr {
    IrExpr::FunctionCall {
        path: List::from_vec(vec![name.to_string()]),
        function_id: Some(FunctionId(id)),
        args: args.into_iter().map(|a| (None, a)).collect(),
        ty,
    }
}

fn field(name: &str, ty: ResolvedType) -> IrField {
    IrField { name: name.to_string(), ty, optional: false, default: None }
}

fn structure(name: &str, fields: Vec<IrField>) -> IrStruct {
    IrStruct {
        name: name.to_string(),
        visibility: Visibility::Public,
        fields,
        generic_params: vec![],
    }
}


fn i64_ty() -> ResolvedType {
    ResolvedType::Primitive(PrimitiveType::I64)
}

fn f64_ty() -> ResolvedType {
    ResolvedType::Primitive(PrimitiveType::F64)
}

fn long(v: i64) -> IrExpr {
    IrExpr::Literal {
        value: Literal::Number(NumberLiteral {
            value: NumberValue::Integer(v as i128),
            f32_bits: (v as f32).to_bits(),
            f64_bits: (v as f64).to_bits(),
            text: v.to_string(),
        }),
        ty: i64_ty(),
    }
}

fn boolean(v: bool) -> IrExpr {
    IrExpr::Literal { value: Literal::Boolean(v), ty: bool_ty() }
}

fn local(id: u32, name: &str, ty: ResolvedType) -> IrExpr {
    IrExpr::LetRef { name: name.to_string(), binding_id: BindingId(id), ty }
}

fn let_(id: u32, name: &str, ty: ResolvedType, value: IrExpr) -> IrBlockStatement {
    IrBlockStatement::Let {
        binding_id: BindingId(id),
        name: name.to_string(),
        ty: Some(ty),
        value,
    }
}

fn block(statements: Vec<IrBlockStatement>, result: IrExpr, ty: ResolvedType) -> IrExpr {
    IrExpr::Block { statements, result: Box::new(result), ty }
}

fn branch(condition: IrExpr, yes: IrExpr, no: IrExpr, ty: ResolvedType) -> IrExpr {
    IrExpr::If {
        condition: Box::new(condition),
        then_branch: Box::new(yes),
        else_branch: Some(Box::new(no)),
        ty,
    }
}

fn self_param() -> IrFunctionParam {
    IrFunctionParam { binding_id: BindingId(0), name: "self".to_string(), ty: None }
}

struct Running {
    store: Store<i64>,
    instance: Instance,
}

impl Running {
    fn of(m: &IrModule) -> Running {
        Running::linked(m, |_| {})
    }

    fn linked(m: &IrModule, host: impl FnOnce(&mut Linker<i64>)) -> Running {
        let bytes = match WasmBackend::new().lower(m) {
            Ok(bytes) => bytes,
            Err(e) => panic!("{e:?}"),
        };
        let engine = Engine::default();
        let code = match Module::new(&engine, &bytes) {
            Ok(code) => code,
            Err(e) => panic!("{e}"),
        };
        let mut store = Store::new(&engine, 0i64);
        let mut linker = Linker::<i64>::new(&engine);
        host(&mut linker);
        let instance =
            linker.instantiate(&mut store, &code).unwrap().start(&mut store).unwrap();
        Running { store, instance }
    }

    fn call<P: WasmParams, R: WasmResults>(&mut self, name: &str, args: P) -> R {
        let f = self.instance.get_typed_func::<P, R>(&self.store, name).unwrap();
        f.call(&mut self.store, args).unwrap()
    }

    fn memory(&self) -> Memory {
        self.instance.get_memory(&self.store, "memory").unwrap()
    }

    fn word(&self, at: i32) -> i32 {
        let mut bytes = [0u8; 4];
        self.memory().read(&self.store, at as usize, &mut bytes).unwrap();
        i32::from_le_bytes(bytes)
    }

    fn bytes(&self, at: i32, len: i32) -> Vec<u8> {
        let mut out = vec![0u8; len as usize];
        self.memory().read(&self.store, at as usize, &mut out).unwrap();
        out
    }

    /// The text behind a header.
    fn read_text(&self, header: i32) -> String {
        let (ptr, len) = (self.word(header), self.word(header + 4));
        String::from_utf8(self.bytes(ptr, len)).unwrap()
    }

    /// Room for bytes that the host writes.
    fn put(&mut self, data: &[u8]) -> i32 {
        let at: i32 = self.call("cabi_realloc", (0i32, 0i32, 4i32, data.len() as i32));
        let memory = self.memory();
        memory.write(&mut self.store, at as usize, data).unwrap();
        at
    }

    fn put_words(&mut self, words: &[i32]) -> i32 {
        let mut data = Vec::new();
        for w in words {
            data.extend_from_slice(&w.to_le_bytes());
        }
        self.put(&data)
    }
}

fn two_numbers(op: BinaryOperator, result: ResolvedType) -> IrModule {
    let mut m = module();
    m.functions.push(function(
        "f",
        vec![param(0, "a", i32_ty()), param(1, "b", i32_ty())],
        Some(result.clone()),
        binary(use_param(0, "a", i32_ty()), op, use_param(1, "b", i32_ty()), result),
    ));
    m
}

fn apply(op: BinaryOperator, result: ResolvedType, a: i32, b: i32) -> i32 {
    Running::of(&two_numbers(op, result)).call("f", (a, b))
}

#[test]
fn integer_operators_compute() {
    assert_eq!(apply(BinaryOperator::Add, i32_ty(), 40, 2), 42);
    assert_eq!(apply(BinaryOperator::Sub, i32_ty(), 1, 3), -2);
    assert_eq!(apply(BinaryOperator::Mul, i32_ty(), -6, 7), -42);
    assert_eq!(apply(BinaryOperator::Div, i32_ty(), -7, 2), -3);
    assert_eq!(apply(BinaryOperator::Mod, i32_ty(), -7, 2), -1);
}

#[test]
fn integer_comparisons_are_signed() {
    assert_eq!(apply(BinaryOperator::Lt, bool_ty(), -1, 1), 1);
    assert_eq!(apply(BinaryOperator::Lt, bool_ty(), 1, -1), 0);
    assert_eq!(apply(BinaryOperator::Gt, bool_ty(), 1, -1), 1);
    assert_eq!(apply(BinaryOperator::Le, bool_ty(), 3, 3), 1);
    assert_eq!(apply(BinaryOperator::Ge, bool_ty(), 2, 3), 0);
    assert_eq!(apply(BinaryOperator::Eq, bool_ty(), 5, 5), 1);
    assert_eq!(apply(BinaryOperator::Ne, bool_ty(), 5, 5), 0);
}

#[test]
fn long_integers_compute() {
    let mut m = module();
    m.functions.push(function(
        "f",
        vec![param(0, "a", i64_ty())],
        Some(i64_ty()),
        binary(use_param(0, "a", i64_ty()), BinaryOperator::Add, long(1 << 40), i64_ty()),
    ));
    assert_eq!(Running::of(&m).call::<_, i64>("f", (1i64,)), (1i64 << 40) + 1);
}

#[test]
fn negation_works_on_every_number_type() {
    let mut m = module();
    for (i, (name, ty)) in
        [("a", i32_ty()), ("b", i64_ty()), ("c", f64_ty())].into_iter().enumerate()
    {
        let id = i as u32;
        m.functions.push(function(
            name,
            vec![param(id, "x", ty.clone())],
            Some(ty.clone()),
            IrExpr::UnaryOp {
                op: UnaryOperator::Neg,
                operand: Box::new(use_param(id, "x", ty.clone())),
                ty,
            },
        ));
    }
    let mut r = Running::of(&m);
    assert_eq!(r.call::<_, i32>("a", (5i32,)), -5);
    assert_eq!(r.call::<_, i64>("b", (5i64,)), -5);
    assert_eq!(f64::from(r.call::<_, wasmi::core::F64>("c", (wasmi::core::F64::from(2.5),))), -2.5);
}

#[test]
fn logical_not_flips() {
    let mut m = module();
    m.functions.push(function(
        "f",
        vec![param(0, "x", bool_ty())],
        Some(bool_ty()),
        IrExpr::UnaryOp {
            op: UnaryOperator::Not,
            operand: Box::new(use_param(0, "x", bool_ty())),
            ty: bool_ty(),
        },
    ));
    let mut r = Running::of(&m);
    assert_eq!(r.call::<_, i32>("f", (0i32,)), 1);
    assert_eq!(r.call::<_, i32>("f", (1i32,)), 0);
}

#[test]
fn recursion_computes_fibonacci() {
    let mut m = module();
    let n = || use_param(0, "n", i32_ty());
    let smaller = |k: i32| {
        call(0, "fib", vec![binary(n(), BinaryOperator::Sub, number(k), i32_ty())], i32_ty())
    };
    let body = branch(
        binary(n(), BinaryOperator::Lt, number(2), bool_ty()),
        n(),
        binary(smaller(1), BinaryOperator::Add, smaller(2), i32_ty()),
        i32_ty(),
    );
    m.functions.push(function("fib", vec![param(0, "n", i32_ty())], Some(i32_ty()), body));
    assert_eq!(Running::of(&m).call::<_, i32>("fib", (10i32,)), 55);
}

#[test]
fn blocks_bind_names() {
    let mut m = module();
    let body = block(
        vec![
            let_(1, "a", i32_ty(), number(3)),
            let_(2, "b", i32_ty(), binary(
                local(1, "a", i32_ty()),
                BinaryOperator::Mul,
                use_param(0, "x", i32_ty()),
                i32_ty(),
            )),
            IrBlockStatement::Expr(number(99)),
        ],
        binary(local(2, "b", i32_ty()), BinaryOperator::Add, local(1, "a", i32_ty()), i32_ty()),
        i32_ty(),
    );
    m.functions.push(function("f", vec![param(0, "x", i32_ty())], Some(i32_ty()), body));
    assert_eq!(Running::of(&m).call::<_, i32>("f", (5i32,)), 18);
}

fn shape_module() -> IrModule {
    let mut m = module();
    m.enums.push(IrEnum {
        name: "Shape".to_string(),
        visibility: Visibility::Public,
        variants: vec![
            IrEnumVariant { name: "dot".to_string(), fields: vec![] },
            IrEnumVariant { name: "square".to_string(), fields: vec![field("side", i32_ty())] },
            IrEnumVariant {
                name: "rect".to_string(),
                fields: vec![field("w", i32_ty()), field("h", i32_ty())],
            },
        ],
        generic_params: vec![],
    });
    m
}

fn shape() -> ResolvedType {
    ResolvedType::Enum(EnumId(0))
}

fn variant(idx: u32, name: &str, fields: Vec<(&str, IrExpr)>) -> IrExpr {
    IrExpr::EnumInst {
        enum_id: Some(EnumId(0)),
        variant: name.to_string(),
        variant_idx: VariantIdx(idx),
        fields: fields
            .into_iter()
            .enumerate()
            .map(|(i, (n, e))| (n.to_string(), FieldIdx(i as u32), e))
            .collect(),
        ty: shape(),
    }
}

fn arm(idx: u32, name: &str, bindings: Vec<(&str, u32)>, body: IrExpr) -> IrMatchArm {
    IrMatchArm {
        variant: name.to_string(),
        variant_idx: VariantIdx(idx),
        is_wildcard: false,
        bindings: bindings
            .into_iter()
            .map(|(n, id)| (n.to_string(), BindingId(id), i32_ty()))
            .collect(),
        body,
    }
}

fn wildcard(body: IrExpr) -> IrMatchArm {
    IrMatchArm {
        variant: String::new(),
        variant_idx: VariantIdx(0),
        is_wildcard: true,
        bindings: vec![],
        body,
    }
}

fn area_of(e: IrExpr, arms: Vec<IrMatchArm>) -> i32 {
    let mut m = shape_module();
    m.functions.push(function(
        "f",
        vec![],
        Some(i32_ty()),
        IrExpr::Match { scrutinee: Box::new(e), arms, ty: i32_ty() },
    ));
    Running::of(&m).call("f", ())
}

fn area_arms() -> Vec<IrMatchArm> {
    vec![
        arm(2, "rect", vec![("w", 5), ("h", 6)], binary(
            local(5, "w", i32_ty()),
            BinaryOperator::Mul,
            local(6, "h", i32_ty()),
            i32_ty(),
        )),
        arm(0, "dot", vec![], number(0)),
        arm(1, "square", vec![("side", 7)], binary(
            local(7, "side", i32_ty()),
            BinaryOperator::Mul,
            local(7, "side", i32_ty()),
            i32_ty(),
        )),
    ]
}

#[test]
fn matches_go_by_the_tag() {
    assert_eq!(area_of(variant(0, "dot", vec![]), area_arms()), 0);
    assert_eq!(area_of(variant(1, "square", vec![("side", number(4))]), area_arms()), 16);
    assert_eq!(
        area_of(variant(2, "rect", vec![("w", number(3)), ("h", number(5))]), area_arms()),
        15
    );
}

#[test]
fn a_wildcard_takes_the_other_tags() {
    let arms = || vec![arm(0, "dot", vec![], number(1)), wildcard(number(2))];
    assert_eq!(area_of(variant(0, "dot", vec![]), arms()), 1);
    assert_eq!(area_of(variant(1, "square", vec![("side", number(4))]), arms()), 2);
}

#[test]
fn a_wildcard_with_scratch_locals_compiles() {
    let boxed = || variant(1, "square", vec![("side", number(8))]);
    let inner = IrExpr::Match {
        scrutinee: Box::new(boxed()),
        arms: vec![arm(1, "square", vec![("side", 9)], local(9, "side", i32_ty())), wildcard(number(0))],
        ty: i32_ty(),
    };
    assert_eq!(
        area_of(
            variant(2, "rect", vec![("w", number(3)), ("h", number(5))]),
            vec![arm(0, "dot", vec![], number(1)), wildcard(inner)],
        ),
        8
    );
}

fn pair_module() -> IrModule {
    let mut m = module();
    m.structs.push(structure("Pair", vec![field("small", i32_ty()), field("big", i64_ty())]));
    m
}

fn pair() -> ResolvedType {
    ResolvedType::Struct(StructId(0))
}

fn make_pair(small: IrExpr, big: IrExpr) -> IrExpr {
    IrExpr::StructInst {
        struct_id: Some(StructId(0)),
        fields: vec![
            ("small".to_string(), FieldIdx(0), small),
            ("big".to_string(), FieldIdx(1), big),
        ],
        ty: pair(),
    }
}

fn access(object: IrExpr, name: &str, idx: u32, ty: ResolvedType) -> IrExpr {
    IrExpr::FieldAccess {
        object: Box::new(object),
        field: name.to_string(),
        field_idx: FieldIdx(idx),
        ty,
    }
}

#[test]
fn struct_fields_are_read_and_written() {
    let mut m = pair_module();
    let body = block(
        vec![
            let_(1, "p", pair(), make_pair(number(1), long(2))),
            IrBlockStatement::Assign {
                target: access(local(1, "p", pair()), "big", 1, i64_ty()),
                value: use_param(0, "x", i64_ty()),
            },
        ],
        access(local(1, "p", pair()), "big", 1, i64_ty()),
        i64_ty(),
    );
    m.functions.push(function("f", vec![param(0, "x", i64_ty())], Some(i64_ty()), body));
    assert_eq!(Running::of(&m).call::<_, i64>("f", (77i64,)), 77);
}

#[test]
fn struct_params_are_flattened() {
    let mut m = pair_module();
    m.functions.push(function(
        "f",
        vec![param(0, "p", pair())],
        Some(i64_ty()),
        access(use_param(0, "p", pair()), "big", 1, i64_ty()),
    ));
    assert_eq!(Running::of(&m).call::<_, i64>("f", (1i32, 123i64)), 123);
}

#[test]
fn struct_results_lie_in_memory() {
    let mut m = pair_module();
    m.functions.push(function("f", vec![], Some(pair()), make_pair(number(7), long(9))));
    let mut r = Running::of(&m);
    let at: i32 = r.call("f", ());
    assert_eq!(at % 8, 0);
    assert_eq!(r.word(at), 7);
    assert_eq!(r.word(at + 8), 9);
    assert_eq!(r.word(at + 12), 0);
}

#[test]
fn tuples_have_named_positions() {
    let mut m = module();
    let ty = ResolvedType::Tuple(List::from_vec(vec![
        ("a".to_string(), i32_ty()),
        ("b".to_string(), i32_ty()),
    ]));
    let made = IrExpr::Tuple {
        fields: vec![("a".to_string(), number(3)), ("b".to_string(), number(4))],
        ty,
    };
    m.functions.push(function("f", vec![], Some(i32_ty()), access(made, "b", 1, i32_ty())));
    assert_eq!(Running::of(&m).call::<_, i32>("f", ()), 4);
}

#[test]
fn array_literals_are_indexed() {
    let mut m = module();
    m.functions.push(function(
        "f",
        vec![param(0, "i", i32_ty())],
        Some(i32_ty()),
        IrExpr::DictAccess {
            dict: Box::new(IrExpr::Array {
                elements: vec![number(10), number(20), number(30)],
                ty: array_ty(i32_ty()),
            }),
            key: Box::new(use_param(0, "i", i32_ty())),
            ty: i32_ty(),
        },
    ));
    let mut r = Running::of(&m);
    assert_eq!(r.call::<_, i32>("f", (0i32,)), 10);
    assert_eq!(r.call::<_, i32>("f", (2i32,)), 30);
}

fn doubled(collection: IrExpr) -> IrExpr {
    IrExpr::For {
        var: "x".to_string(),
        var_ty: i32_ty(),
        var_binding_id: BindingId(5),
        collection: Box::new(collection),
        body: Box::new(binary(
            local(5, "x", i32_ty()),
            BinaryOperator::Mul,
            number(2),
            i32_ty(),
        )),
        ty: array_ty(i32_ty()),
    }
}

#[test]
fn loops_map_arrays() {
    let mut m = module();
    m.functions.push(function(
        "f",
        vec![param(0, "xs", array_ty(i32_ty()))],
        Some(array_ty(i32_ty())),
        doubled(use_param(0, "xs", array_ty(i32_ty()))),
    ));
    let mut r = Running::of(&m);
    let ptr = r.put_words(&[1, 2, 3]);
    let header: i32 = r.call("f", (ptr, 3i32));
    let out = r.word(header);
    assert_eq!(r.word(header + 4), 3);
    assert_eq!((r.word(out), r.word(out + 4), r.word(out + 8)), (2, 4, 6));
}

#[test]
fn loops_map_ranges() {
    let mut m = module();
    let range = ResolvedType::Range(Box::new(i32_ty()));
    m.functions.push(function(
        "f",
        vec![param(0, "n", i32_ty())],
        Some(array_ty(i32_ty())),
        doubled(binary(
            number(1),
            BinaryOperator::Range,
            use_param(0, "n", i32_ty()),
            range,
        )),
    ));
    let mut r = Running::of(&m);
    let header: i32 = r.call("f", (4i32,));
    let out = r.word(header);
    assert_eq!(r.word(header + 4), 3);
    assert_eq!((r.word(out), r.word(out + 4), r.word(out + 8)), (2, 4, 6));
}

#[test]
fn loops_over_descending_ranges_build_nothing() {
    let mut m = module();
    let range = ResolvedType::Range(Box::new(i32_ty()));
    m.functions.push(function(
        "f",
        vec![param(0, "a", i32_ty()), param(1, "b", i32_ty())],
        Some(array_ty(i32_ty())),
        doubled(binary(
            use_param(0, "a", i32_ty()),
            BinaryOperator::Range,
            use_param(1, "b", i32_ty()),
            range,
        )),
    ));
    let mut r = Running::of(&m);
    for (a, b, len) in [
        (3i32, 1i32, 0),
        (3, 3, 0),
        (i32::MAX, i32::MIN, 0),
        (i32::MIN, i32::MAX, 0),
        (-2, 1, 3),
    ] {
        let header: i32 = r.call("f", (a, b));
        assert_eq!((r.word(header + 4), r.word(header + 8)), (len, len));
    }
}

#[test]
fn text_literals_and_concatenation() {
    let mut m = module();
    m.functions.push(function(
        "f",
        vec![param(0, "who", string_ty())],
        Some(string_ty()),
        binary(
            text("h\u{e9}llo, "),
            BinaryOperator::Add,
            use_param(0, "who", string_ty()),
            string_ty(),
        ),
    ));
    let mut r = Running::of(&m);
    let ptr = r.put(b"you");
    let header: i32 = r.call("f", (ptr, 3i32));
    assert_eq!(r.read_text(header), "h\u{e9}llo, you");
}

#[test]
fn texts_compare_by_content() {
    let mut m = module();
    for (name, op) in [("same", BinaryOperator::Eq), ("differs", BinaryOperator::Ne)] {
        m.functions.push(function(
            name,
            vec![param(0, "a", string_ty())],
            Some(bool_ty()),
            binary(use_param(0, "a", string_ty()), op, text("abc"), bool_ty()),
        ));
    }
    let mut r = Running::of(&m);
    for (given, same) in [("abc", 1), ("abd", 0), ("ab", 0), ("", 0)] {
        let ptr = r.put(given.as_bytes());
        assert_eq!(r.call::<_, i32>("same", (ptr, given.len() as i32)), same);
        assert_eq!(r.call::<_, i32>("differs", (ptr, given.len() as i32)), 1 - same);
    }
}

#[test]
fn values_become_optionals_where_one_is_due() {
    let mut m = module();
    m.functions.push(function(
        "f",
        vec![param(0, "x", i32_ty())],
        Some(optional_ty(i32_ty())),
        use_param(0, "x", i32_ty()),
    ));
    let mut r = Running::of(&m);
    let at: i32 = r.call("f", (9i32,));
    assert_eq!((r.word(at), r.word(at + 4)), (1, 9));
}

#[test]
fn arms_become_optionals_where_one_is_due() {
    let mut m = shape_module();
    let nil = || IrExpr::Literal { value: Literal::Nil, ty: optional_ty(i32_ty()) };
    for (name, e) in [
        ("some", variant(1, "square", vec![("side", number(4))])),
        ("none", variant(0, "dot", vec![])),
    ] {
        m.functions.push(function(
            name,
            vec![],
            Some(optional_ty(i32_ty())),
            IrExpr::Match {
                scrutinee: Box::new(e),
                arms: vec![
                    arm(1, "square", vec![("side", 7)], local(7, "side", i32_ty())),
                    wildcard(nil()),
                ],
                ty: optional_ty(i32_ty()),
            },
        ));
    }
    let mut r = Running::of(&m);
    let some: i32 = r.call("some", ());
    assert_eq!((r.word(some), r.word(some + 4)), (1, 4));
    let none: i32 = r.call("none", ());
    assert_eq!(r.word(none), 0);
}

#[test]
fn arguments_become_optionals_where_one_is_due() {
    let mut m = module();
    m.functions.push(function(
        "id",
        vec![param(0, "x", optional_ty(i32_ty()))],
        Some(optional_ty(i32_ty())),
        use_param(0, "x", optional_ty(i32_ty())),
    ));
    m.functions.push(function(
        "f",
        vec![],
        Some(optional_ty(i32_ty())),
        IrExpr::FunctionCall {
            path: List::from_vec(vec!["id".to_string()]),
            function_id: Some(FunctionId(0)),
            args: vec![(Some("x".to_string()), number(3))],
            ty: optional_ty(i32_ty()),
        },
    ));
    let mut r = Running::of(&m);
    let at: i32 = r.call("f", ());
    assert_eq!((r.word(at), r.word(at + 4)), (1, 3));
}

fn talker(value: i32) -> IrImpl {
    IrImpl {
        target: ImplTarget::Struct(StructId(0)),
        trait_ref: Some(IrTraitRef { trait_id: TraitId(0) }),
        functions: vec![
            IrFunction {
                name: "loud".to_string(),
                params: vec![self_param(), param(1, "by", i32_ty())],
                return_type: Some(i32_ty()),
                body: Some(binary(
                    IrExpr::SelfFieldRef {
                        field: "value".to_string(),
                        field_idx: FieldIdx(0),
                        ty: i32_ty(),
                    },
                    BinaryOperator::Mul,
                    use_param(1, "by", i32_ty()),
                    i32_ty(),
                )),
                is_extern: false,
            },
            IrFunction {
                name: "quiet".to_string(),
                params: vec![self_param()],
                return_type: Some(i32_ty()),
                body: Some(number(value)),
                is_extern: false,
            },
        ],
        is_extern: false,
    }
}

fn talking_module() -> IrModule {
    let mut m = module();
    m.structs.push(structure("Dog", vec![field("value", i32_ty())]));
    m.structs.push(structure("Cat", vec![field("value", i32_ty())]));
    m.traits.push(IrTrait {
        name: "Talk".to_string(),
        composed_traits: vec![],
        fields: vec![],
        methods: vec![
            IrFunctionSig {
                name: "quiet".to_string(),
                params: vec![self_param()],
                return_type: Some(i32_ty()),
            },
            IrFunctionSig {
                name: "loud".to_string(),
                params: vec![self_param(), param(1, "by", i32_ty())],
                return_type: Some(i32_ty()),
            },
        ],
        generic_params: vec![],
    });
    m.impls.push(talker(1));
    let mut cat = talker(2);
    cat.target = ImplTarget::Struct(StructId(1));
    m.impls.push(cat);
    m
}

fn talk(target: u32, idx: u32, name: &str, args: Vec<IrExpr>, dispatch: DispatchKind) -> IrExpr {
    IrExpr::MethodCall {
        receiver: Box::new(IrExpr::StructInst {
            struct_id: Some(StructId(target)),
            fields: vec![("value".to_string(), FieldIdx(0), number(10))],
            ty: ResolvedType::Struct(StructId(target)),
        }),
        method: name.to_string(),
        method_idx: MethodIdx(idx),
        args: args.into_iter().map(|a| (None, a)).collect(),
        dispatch,
        ty: i32_ty(),
    }
}

fn virtually(name: &str) -> DispatchKind {
    DispatchKind::Virtual { trait_id: TraitId(0), method_name: name.to_string() }
}

#[test]
fn static_calls_reach_their_method() {
    let mut m = talking_module();
    m.functions.push(function(
        "f",
        vec![],
        Some(i32_ty()),
        talk(1, 0, "loud", vec![number(4)], DispatchKind::Static { impl_id: ImplId(1) }),
    ));
    m.functions.push(function(
        "g",
        vec![],
        Some(i32_ty()),
        talk(1, 1, "quiet", vec![], DispatchKind::Static { impl_id: ImplId(1) }),
    ));
    let mut r = Running::of(&m);
    assert_eq!(r.call::<_, i32>("f", ()), 40);
    assert_eq!(r.call::<_, i32>("g", ()), 2);
}

#[test]
fn virtual_calls_reach_the_receivers_method() {
    let mut m = talking_module();
    m.functions.push(function(
        "dog",
        vec![],
        Some(i32_ty()),
        talk(0, 0, "quiet", vec![], virtually("quiet")),
    ));
    m.functions.push(function(
        "cat",
        vec![],
        Some(i32_ty()),
        talk(1, 0, "quiet", vec![], virtually("quiet")),
    ));
    m.functions.push(function(
        "loud",
        vec![],
        Some(i32_ty()),
        talk(1, 1, "loud", vec![number(3)], virtually("loud")),
    ));
    m.functions.push(function("text", vec![], Some(string_ty()), text("odd")));
    let mut r = Running::of(&m);
    assert_eq!(r.call::<_, i32>("dog", ()), 1);
    assert_eq!(r.call::<_, i32>("cat", ()), 2);
    assert_eq!(r.call::<_, i32>("loud", ()), 30);
    let header: i32 = r.call("text", ());
    assert_eq!(r.read_text(header), "odd");
}

#[test]
fn inherited_methods_are_in_the_table() {
    let mut m = talking_module();
    m.traits.push(IrTrait {
        name: "Sing".to_string(),
        composed_traits: vec![TraitId(0)],
        fields: vec![],
        methods: vec![IrFunctionSig {
            name: "sing".to_string(),
            params: vec![self_param()],
            return_type: Some(i32_ty()),
        }],
        generic_params: vec![],
    });
    m.impls.push(IrImpl {
        target: ImplTarget::Struct(StructId(1)),
        trait_ref: Some(IrTraitRef { trait_id: TraitId(1) }),
        functions: vec![IrFunction {
            name: "sing".to_string(),
            params: vec![self_param()],
            return_type: Some(i32_ty()),
            body: Some(number(6)),
            is_extern: false,
        }],
        is_extern: false,
    });
    let sing = |name: &str| DispatchKind::Virtual {
        trait_id: TraitId(1),
        method_name: name.to_string(),
    };
    m.functions.push(function("a", vec![], Some(i32_ty()), talk(1, 0, "sing", vec![], sing("sing"))));
    m.functions.push(function("b", vec![], Some(i32_ty()), talk(1, 1, "quiet", vec![], sing("quiet"))));
    m.functions.push(function(
        "c",
        vec![],
        Some(i32_ty()),
        talk(1, 2, "loud", vec![number(5)], sing("loud")),
    ));
    let mut r = Running::of(&m);
    assert_eq!(r.call::<_, i32>("a", ()), 6);
    assert_eq!(r.call::<_, i32>("b", ()), 2);
    assert_eq!(r.call::<_, i32>("c", ()), 50);
}

fn unary() -> ResolvedType {
    ResolvedType::Closure {
        param_tys: List::from_vec(vec![(ParamConvention::Let, i32_ty())]),
        return_ty: Box::new(i32_ty()),
    }
}

fn env(id: u32) -> ResolvedType {
    ResolvedType::Struct(StructId(id))
}

fn closure_module() -> IrModule {
    let mut m = module();
    for i in 0..2 {
        m.structs.push(IrStruct {
            name: format!("__ClosureEnv{i}"),
            visibility: Visibility::Private,
            fields: vec![field("k", i32_ty())],
            generic_params: vec![],
        });
    }
    for (i, op) in [BinaryOperator::Add, BinaryOperator::Mul].into_iter().enumerate() {
        m.functions.push(function(
            &format!("__closure{i}"),
            vec![param(0, "__env", env(i as u32)), param(1, "x", i32_ty())],
            Some(i32_ty()),
            binary(
                use_param(1, "x", i32_ty()),
                op,
                access(use_param(0, "__env", env(i as u32)), "k", 0, i32_ty()),
                i32_ty(),
            ),
        ));
    }
    m
}

fn capture(i: u32, k: i32) -> IrExpr {
    IrExpr::ClosureRef {
        funcref: vec![format!("__closure{i}")],
        env_struct: Box::new(IrExpr::StructInst {
            struct_id: Some(StructId(i)),
            fields: vec![("k".to_string(), FieldIdx(0), number(k))],
            ty: env(i),
        }),
        ty: unary(),
    }
}

fn apply_closure(closure: IrExpr, x: IrExpr) -> IrExpr {
    IrExpr::CallClosure { closure: Box::new(closure), args: vec![(None, x)], ty: i32_ty() }
}

#[test]
fn closures_see_what_they_captured() {
    let mut m = closure_module();
    m.functions.push(function(
        "f",
        vec![param(2, "y", i32_ty())],
        Some(i32_ty()),
        block(
            vec![let_(9, "g", unary(), capture(1, 7))],
            apply_closure(local(9, "g", unary()), apply_closure(
                capture(0, 100),
                use_param(2, "y", i32_ty()),
            )),
            i32_ty(),
        ),
    ));
    assert_eq!(Running::of(&m).call::<_, i32>("f", (1i32,)), 707);
    assert!(WasmBackend::new().generate(&m).is_ok());
}

#[test]
fn host_functions_are_called() {
    let mut m = module();
    m.functions.push(host("host_double", vec![param(0, "x", i32_ty())], Some(i32_ty())));
    m.functions.push(function(
        "call_host",
        vec![param(1, "x", i32_ty())],
        Some(i32_ty()),
        call(0, "host_double", vec![use_param(1, "x", i32_ty())], i32_ty()),
    ));
    let mut r = Running::linked(&m, |l| {
        l.func_wrap(IMPORT_MODULE_NAME, "host-double", |x: i32| -> i32 { x * 2 }).unwrap();
    });
    assert_eq!(r.call::<_, i32>("call-host", (21i32,)), 42);
}

#[test]
fn texts_reach_the_host_flattened() {
    let mut m = module();
    m.functions.push(host("measure", vec![param(0, "t", string_ty())], Some(i32_ty())));
    m.functions.push(function(
        "f",
        vec![],
        Some(i32_ty()),
        call(0, "measure", vec![text("seven77")], i32_ty()),
    ));
    let mut r = Running::linked(&m, |l| {
        l.func_wrap(IMPORT_MODULE_NAME, "measure", |_ptr: i32, len: i32| -> i32 { len }).unwrap();
    });
    assert_eq!(r.call::<_, i32>("f", ()), 7);
}

fn prelude_module() -> IrModule {
    let mut m = module();
    m.impls.push(IrImpl {
        target: ImplTarget::Primitive(PrimitiveType::String),
        trait_ref: None,
        functions: ["len", "is_empty", "byte_at", "slice", "starts_with", "contains"]
            .into_iter()
            .map(|n| IrFunction {
                name: n.to_string(),
                params: vec![self_param()],
                return_type: Some(i32_ty()),
                body: None,
                is_extern: true,
            })
            .collect(),
        is_extern: true,
    });
    m
}

fn on_text(t: &str, idx: u32, name: &str, args: Vec<IrExpr>, ty: ResolvedType) -> IrExpr {
    IrExpr::MethodCall {
        receiver: Box::new(text(t)),
        method: name.to_string(),
        method_idx: MethodIdx(idx),
        args: args.into_iter().map(|a| (None, a)).collect(),
        dispatch: DispatchKind::Static { impl_id: ImplId(0) },
        ty,
    }
}

#[test]
fn built_in_text_methods_compute() {
    let cases: Vec<(IrExpr, i32)> = vec![
        (on_text("hello", 0, "len", vec![], i32_ty()), 5),
        (on_text("", 0, "len", vec![], i32_ty()), 0),
        (on_text("", 1, "is_empty", vec![], bool_ty()), 1),
        (on_text("x", 1, "is_empty", vec![], bool_ty()), 0),
        (on_text("abc", 2, "byte_at", vec![number(1)], i32_ty()), 98),
        (on_text("hello", 4, "starts_with", vec![text("he")], bool_ty()), 1),
        (on_text("hello", 4, "starts_with", vec![text("lo")], bool_ty()), 0),
        (on_text("he", 4, "starts_with", vec![text("hello")], bool_ty()), 0),
        (on_text("hello", 5, "contains", vec![text("ell")], bool_ty()), 1),
        (on_text("hello", 5, "contains", vec![text("lo")], bool_ty()), 1),
        (on_text("hello", 5, "contains", vec![text("")], bool_ty()), 1),
        (on_text("hello", 5, "contains", vec![text("lol")], bool_ty()), 0),
        (on_text("he", 5, "contains", vec![text("hello")], bool_ty()), 0),
    ];
    for (e, expected) in cases {
        let label = format!("{e:?}");
        let mut m = prelude_module();
        m.functions.push(function("f", vec![], Some(e.ty().clone()), e));
        assert_eq!(Running::of(&m).call::<_, i32>("f", ()), expected, "{label}");
    }
}

#[test]
fn slices_share_the_text() {
    let mut m = prelude_module();
    m.functions.push(function(
        "f",
        vec![],
        Some(string_ty()),
        on_text("hello", 3, "slice", vec![number(1), number(3)], string_ty()),
    ));
    let mut r = Running::of(&m);
    let header: i32 = r.call("f", ());
    assert_eq!(r.read_text(header), "el");
}

#[test]
fn logical_operators_compute() {
    for (op, a, b, expected) in [
        (BinaryOperator::And, true, true, 1),
        (BinaryOperator::And, true, false, 0),
        (BinaryOperator::Or, false, true, 1),
        (BinaryOperator::Or, false, false, 0),
    ] {
        let mut m = module();
        m.functions.push(function(
            "f",
            vec![],
            Some(bool_ty()),
            binary(boolean(a), op, boolean(b), bool_ty()),
        ));
        assert_eq!(Running::of(&m).call::<_, i32>("f", ()), expected);
    }
}

fn collections_module() -> IrModule {
    let mut m = module();
    for name in ["Array", "Range", "Dictionary"] {
        m.structs.push(IrStruct {
            name: name.to_string(),
            visibility: Visibility::Private,
            fields: vec![],
            generic_params: vec![],
        });
    }
    m.enums.push(IrEnum {
        name: "Optional".to_string(),
        visibility: Visibility::Private,
        variants: vec![],
        generic_params: vec![],
    });
    m.prelude_array = Some(StructId(0));
    m.prelude_range = Some(StructId(1));
    m.prelude_dictionary = Some(StructId(2));
    m.prelude_optional = Some(EnumId(0));
    let methods = |names: [&str; 2]| -> Vec<IrFunction> {
        names
            .into_iter()
            .map(|n| IrFunction {
                name: n.to_string(),
                params: vec![self_param()],
                return_type: Some(i32_ty()),
                body: None,
                is_extern: true,
            })
            .collect()
    };
    for (target, names) in [
        (ImplTarget::Struct(StructId(0)), ["len", "is_empty"]),
        (ImplTarget::Struct(StructId(1)), ["len", "is_empty"]),
        (ImplTarget::Enum(EnumId(0)), ["is_some", "is_none"]),
    ] {
        m.impls.push(IrImpl {
            target,
            trait_ref: None,
            functions: methods(names),
            is_extern: true,
        });
    }
    m
}

fn on(receiver: IrExpr, impl_id: u32, idx: u32, name: &str) -> IrExpr {
    IrExpr::MethodCall {
        receiver: Box::new(receiver),
        method: name.to_string(),
        method_idx: MethodIdx(idx),
        args: vec![],
        dispatch: DispatchKind::Static { impl_id: ImplId(impl_id) },
        ty: i32_ty(),
    }
}

#[test]
fn built_in_collection_methods_compute() {
    let array = |items: Vec<IrExpr>| IrExpr::Array { elements: items, ty: array_ty(i32_ty()) };
    let range = |a: i32, b: i32| {
        binary(
            number(a),
            BinaryOperator::Range,
            number(b),
            ResolvedType::Range(Box::new(i32_ty())),
        )
    };
    let nil = || IrExpr::Literal { value: Literal::Nil, ty: optional_ty(i32_ty()) };
    let cases: Vec<(IrExpr, i32)> = vec![
        (on(array(vec![number(1), number(2)]), 0, 0, "len"), 2),
        (on(array(vec![]), 0, 0, "len"), 0),
        (on(array(vec![]), 0, 1, "is_empty"), 1),
        (on(array(vec![number(1)]), 0, 1, "is_empty"), 0),
        (on(range(2, 7), 1, 0, "len"), 5),
        (on(range(3, 3), 1, 1, "is_empty"), 1),
        (on(range(3, 4), 1, 1, "is_empty"), 0),
        (on(nil(), 2, 0, "is_some"), 0),
        (on(nil(), 2, 1, "is_none"), 1),
    ];
    for (e, expected) in cases {
        let label = format!("{e:?}");
        let mut m = collections_module();
        m.functions.push(function("f", vec![], Some(i32_ty()), e));
        assert_eq!(Running::of(&m).call::<_, i32>("f", ()), expected, "{label}");
    }
}

#[test]
fn enum_params_are_flattened() {
    let mut m = shape_module();
    m.functions.push(function(
        "f",
        vec![param(0, "s", shape())],
        Some(i32_ty()),
        IrExpr::Match {
            scrutinee: Box::new(use_param(0, "s", shape())),
            arms: area_arms(),
            ty: i32_ty(),
        },
    ));
    let mut r = Running::of(&m);
    assert_eq!(r.call::<_, i32>("f", (0i32, 0i32, 0i32)), 0);
    assert_eq!(r.call::<_, i32>("f", (1i32, 6i32, 0i32)), 36);
    assert_eq!(r.call::<_, i32>("f", (2i32, 6i32, 7i32)), 42);
}

#[test]
fn optional_params_are_flattened() {
    let mut m = module();
    m.functions.push(function(
        "f",
        vec![param(0, "x", optional_ty(i32_ty()))],
        Some(optional_ty(i32_ty())),
        use_param(0, "x", optional_ty(i32_ty())),
    ));
    let mut r = Running::of(&m);
    let some: i32 = r.call("f", (1i32, 5i32));
    assert_eq!((r.word(some), r.word(some + 4)), (1, 5));
    let none: i32 = r.call("f", (0i32, 0i32));
    assert_eq!(r.word(none), 0);
}
