//! Whole core modules.

use formawasm::instr::ValType;
use formawasm::ir::{
    BindingId, DispatchKind, FieldIdx, FunctionId, ImplTarget, IrEnum, IrEnumVariant,
    IrExpr, IrField, IrFunction, IrFunctionParam, IrFunctionSig, IrImpl, IrModule, IrStruct,
    IrTrait, IrTraitRef, List, Literal, MethodIdx, NumberLiteral, NumberValue, PrimitiveType,
    ReferenceTarget, ResolvedType, StructId, TraitId, Visibility,
};
use formawasm::lower::error::{ContextField, LowerError};
use formawasm::module_lowering::cabi::{
    build_cabi_field_value, flatten_canonical_abi, CabiFieldValue, CabiMaterialisationOps,
    CabiStructFieldOp, Cursor,
};
use formawasm::module_lowering::emit::export_winners;
use formawasm::module_lowering::error::ModuleLowerError;
use formawasm::module_lowering::lower_module;
use formawasm::module_lowering::nesting::find_nesting_limit;
use formawasm::module_lowering::signature::{
    canonical_abi_import_params, needs_canonical_abi_wrapper, param_needs_split,
};
use formawasm::module_lowering::vtables::effective_trait_methods;
use formawasm::module_lowering::walk::collect_string_literals;
use formawasm::string_pool::StringPool;
use formawasm::types::{TypeMapError, UnsupportedKind};
use wasmi::{Engine, ExternType, Module};

fn module() -> IrModule {
    IrModule {
        structs: vec![],
        traits: vec![],
        enums: vec![],
        lets: vec![],
        functions: vec![],
        impls: vec![],
        prelude_optional: None,
        prelude_array: None,
        prelude_range: None,
        prelude_dictionary: None,
    }
}

fn i32_ty() -> ResolvedType {
    ResolvedType::Primitive(PrimitiveType::I32)
}

fn bool_ty() -> ResolvedType {
    ResolvedType::Primitive(PrimitiveType::Boolean)
}

fn string_ty() -> ResolvedType {
    ResolvedType::Primitive(PrimitiveType::String)
}

fn array_ty(t: ResolvedType) -> ResolvedType {
    ResolvedType::Array(Box::new(t))
}

fn optional_ty(t: ResolvedType) -> ResolvedType {
    ResolvedType::Optional(Box::new(t))
}

fn number(v: i32) -> IrExpr {
    IrExpr::Literal {
        value: Literal::Number(NumberLiteral {
            value: NumberValue::Integer(v as i128),
            f32_bits: (v as f32).to_bits(),
            f64_bits: (v as f64).to_bits(),
            text: v.to_string(),
        }),
        ty: i32_ty(),
    }
}

fn text(t: &str) -> IrExpr {
    IrExpr::Literal { value: Literal::String(t.to_string()), ty: string_ty() }
}

fn param(id: u32, name: &str, ty: ResolvedType) -> IrFunctionParam {
    IrFunctionParam { binding_id: BindingId(id), name: name.to_string(), ty: Some(ty) }
}

fn use_param(id: u32, name: &str, ty: ResolvedType) -> IrExpr {
    IrExpr::Reference {
        path: List::from_vec(vec![name.to_string()]),
        target: ReferenceTarget::Param(BindingId(id)),
        ty,
    }
}

fn function(
    name: &str,
    params: Vec<IrFunctionParam>,
    result: Option<ResolvedType>,
    body: IrExpr,
) -> IrFunction {
    IrFunction {
        name: name.to_string(),
        params,
        return_type: result,
        body: Some(body),
        is_extern: false,
    }
}

fn host(name: &str, params: Vec<IrFunctionParam>, result: Option<ResolvedType>) -> IrFunction {
    IrFunction {
        name: name.to_string(),
        params,
        return_type: result,
        body: None,
        is_extern: true,
    }
}

fn call(id: u32, name: &str, args: Vec<IrExpr>, ty: ResolvedType) -> IrExpr {
    IrExpr::FunctionCall {
        path: List::from_vec(vec![name.to_string()]),
        function_id: Some(FunctionId(id)),
        args: args.into_iter().map(|a| (None, a)).collect(),
        ty,
    }
}

fn field(name: &str, ty: ResolvedType) -> IrField {
    IrField { name: name.to_string(), ty, optional: false, default: None }
}

fn structure(name: &str, fields: Vec<IrField>) -> IrStruct {
    IrStruct {
        name: name.to_string(),
        visibility: Visibility::Public,
        fields,
        generic_params: vec![],
    }
}

fn parsed(m: &IrModule) -> Module {
    let bytes = match lower_module(m) {
        Ok(bytes) => bytes,
        Err(e) => panic!("{e:?}"),
    };
    match Module::new(&Engine::default(), &bytes) {
        Ok(code) => code,
        Err(e) => panic!("{e}"),
    }
}

fn exported(m: &IrModule) -> Vec<String> {
    parsed(m)
        .exports()
        .filter(|e| matches!(e.ty(), ExternType::Func(_)))
        .map(|e| e.name().to_string())
        .collect()
}

#[test]
fn the_first_of_one_name_wins_it() {
    let mut m = module();
    m.functions.push(function("do_it", vec![], Some(i32_ty()), number(1)));
    m.functions.push(function("doIt", vec![param(0, "x", i32_ty())], Some(i32_ty()), number(2)));
    m.functions.push(function("__helper", vec![], Some(i32_ty()), number(3)));
    m.functions.push(host("outside", vec![], None));
    m.functions.push(function("other", vec![], Some(i32_ty()), number(4)));
    assert_eq!(export_winners(&m.functions), vec![true, false, false, false, true]);
    let mut names = exported(&m);
    names.sort();
    assert_eq!(names, vec!["cabi_realloc", "do-it", "other"]);
}

#[test]
fn host_functions_come_first() {
    let mut m = module();
    m.functions.push(function("f", vec![], Some(i32_ty()), number(1)));
    m.functions.push(host("log_line", vec![param(0, "t", string_ty())], None));
    let code = parsed(&m);
    let names: Vec<(String, String)> =
        code.imports().map(|i| (i.module().to_string(), i.name().to_string())).collect();
    assert_eq!(names, vec![("cm32p2".to_string(), "log-line".to_string())]);
}

/// The function exports of a core module: their names and indices.
fn export_indices(m: &IrModule) -> Vec<(String, u8)> {
    let bytes = lower_module(m).unwrap();
    let mut at = 8;
    loop {
        let id = bytes[at];
        let mut size = 0;
        let mut shift = 0;
        at += 1;
        loop {
            let b = bytes[at];
            at += 1;
            size |= ((b & 0x7f) as usize) << shift;
            shift += 7;
            if b < 0x80 {
                break;
            }
        }
        if id == 7 {
            break;
        }
        at += size;
    }
    let count = bytes[at];
    at += 1;
    let mut out = vec![];
    for _ in 0..count {
        let len = bytes[at] as usize;
        let name = String::from_utf8(bytes[at + 1..at + 1 + len].to_vec()).unwrap();
        at += 1 + len;
        if bytes[at] == 0 {
            out.push((name, bytes[at + 1]));
        }
        at += 2;
    }
    out
}

#[test]
fn own_functions_follow_the_allocator() {
    let mut m = module();
    m.functions.push(function("f", vec![], Some(i32_ty()), number(1)));
    assert_eq!(export_indices(&m)[0], ("f".to_string(), 1));
    m.functions.push(function("g", vec![], Some(i32_ty()), number(2)));
    assert_eq!(export_indices(&m)[1], ("g".to_string(), 2));
    // The equality and concatenation of texts, then the prelude's helpers.
    assert_eq!(export_indices(&m)[2], ("cabi_realloc".to_string(), 19));
    m.functions.push(host("log", vec![], None));
    let indices = export_indices(&m);
    assert_eq!(indices[0], ("f".to_string(), 2));
    assert_eq!(indices[1], ("g".to_string(), 3));
}

#[test]
fn only_texts_and_lists_are_handed_to_the_host_as_two_words() {
    let mut m = module();
    m.structs.push(structure("Pair", vec![field("a", i32_ty()), field("b", i32_ty())]));
    let wide = ResolvedType::Primitive(PrimitiveType::I64);
    m.functions.push(host(
        "h",
        vec![
            param(0, "p", ResolvedType::Struct(StructId(0))),
            param(1, "t", string_ty()),
            param(2, "n", wide),
            param(3, "o", optional_ty(i32_ty())),
            param(4, "l", array_ty(i32_ty())),
        ],
        None,
    ));
    let expected = vec![
        ValType::I32,
        ValType::I32,
        ValType::I32,
        ValType::I64,
        ValType::I32,
        ValType::I32,
        ValType::I32,
    ];
    assert_eq!(canonical_abi_import_params(&m.functions[0], &m), Ok(expected));
    let code = parsed(&m);
    let params: Vec<usize> = code
        .imports()
        .map(|i| match i.ty() {
            ExternType::Func(f) => f.params().len(),
            _ => 0,
        })
        .collect();
    assert_eq!(params, vec![7]);
}

#[test]
fn plans_name_every_slot_once() {
    let mut m = module();
    let wide = ResolvedType::Primitive(PrimitiveType::I64);
    m.structs.push(structure("Pair", vec![field("a", i32_ty()), field("b", wide)]));
    let c = Cursor { slot: 5, scratch: 2 };
    let plan = |ty: ResolvedType| {
        build_cabi_field_value(&ty, c, 10, &m, find_nesting_limit(&ty, &m))
    };
    let slot = |slot: u32, valtype: ValType| CabiFieldValue::DirectSlot { slot, valtype };
    let built = |ops: CabiMaterialisationOps| CabiFieldValue::MaterialisedScratch {
        scratch: 12,
        ops: Box::new(ops),
    };
    assert_eq!(
        plan(i32_ty()),
        Ok((slot(5, ValType::I32), Cursor { slot: 6, scratch: 2 }))
    );
    assert_eq!(
        plan(string_ty()),
        Ok((
            built(CabiMaterialisationOps::StringFromSlots { ptr_slot: 5, len_slot: 6 }),
            Cursor { slot: 7, scratch: 3 },
        ))
    );
    let fields = vec![
        CabiStructFieldOp { offset: 0, value: slot(5, ValType::I32) },
        CabiStructFieldOp { offset: 8, value: slot(6, ValType::I64) },
    ];
    assert_eq!(
        plan(ResolvedType::Struct(StructId(0))),
        Ok((
            built(CabiMaterialisationOps::Struct { size: 16, fields: List::from_vec(fields) }),
            Cursor { slot: 7, scratch: 3 },
        ))
    );
    assert_eq!(
        plan(optional_ty(i32_ty())),
        Ok((
            built(CabiMaterialisationOps::Variant {
                size: 8,
                tag_slot: 5,
                payload_offset: 4,
                payload_slots: List::from_vec(vec![6]),
            }),
            Cursor { slot: 7, scratch: 3 },
        ))
    );
}

#[test]
fn wrappers_are_needed_for_texts_and_lists() {
    let m = module();
    for (ty, needed) in [
        (i32_ty(), false),
        (bool_ty(), false),
        (string_ty(), true),
        (array_ty(i32_ty()), true),
        (optional_ty(i32_ty()), true),
    ] {
        assert_eq!(param_needs_split(&ty, &m), needed);
        let f = function("f", vec![param(0, "x", ty)], None, number(0));
        assert_eq!(needs_canonical_abi_wrapper(&f, &m), needed);
    }
}

#[test]
fn types_flatten_to_core_values() {
    let mut m = module();
    m.structs.push(structure(
        "Pair",
        vec![field("a", i32_ty()), field("b", ResolvedType::Primitive(PrimitiveType::F64))],
    ));
    m.enums.push(IrEnum {
        name: "Shape".to_string(),
        visibility: Visibility::Public,
        variants: vec![
            IrEnumVariant { name: "dot".to_string(), fields: vec![] },
            IrEnumVariant { name: "square".to_string(), fields: vec![field("s", i32_ty())] },
        ],
        generic_params: vec![],
    });
    let flat = |ty: ResolvedType| flatten_canonical_abi(&ty, &m, 8);
    assert_eq!(flat(i32_ty()), Ok(vec![ValType::I32]));
    assert_eq!(flat(string_ty()), Ok(vec![ValType::I32, ValType::I32]));
    assert_eq!(flat(array_ty(i32_ty())), Ok(vec![ValType::I32, ValType::I32]));
    assert_eq!(
        flat(ResolvedType::Struct(StructId(0))),
        Ok(vec![ValType::I32, ValType::F64])
    );
    assert_eq!(
        flat(ResolvedType::Struct(StructId(4))),
        Err(ModuleLowerError::TypeMap(TypeMapError::NotYetSupported {
            kind: UnsupportedKind::StructOutOfRange(StructId(4)),
        }))
    );
    assert_eq!(
        flatten_canonical_abi(&optional_ty(i32_ty()), &m, 0),
        Err(ModuleLowerError::TypeMap(TypeMapError::NotYetSupported {
            kind: UnsupportedKind::NestingTooDeep,
        }))
    );
}

#[test]
fn only_types_that_contain_themselves_are_too_deep() {
    let mut m = module();
    let too_deep = Err(ModuleLowerError::TypeMap(TypeMapError::NotYetSupported {
        kind: UnsupportedKind::NestingTooDeep,
    }));
    let flat = |ty: &ResolvedType, m: &IrModule| {
        flatten_canonical_abi(ty, m, find_nesting_limit(ty, m))
    };
    // A chain of structs, each in the next one.
    m.structs.push(structure("S0", vec![field("x", i32_ty())]));
    for i in 1..1500u32 {
        let inner = optional_ty(optional_ty(ResolvedType::Struct(StructId(i - 1))));
        m.structs.push(structure(&format!("S{i}"), vec![field("x", inner)]));
    }
    let last = ResolvedType::Struct(StructId(1499));
    assert_eq!(flat(&last, &m).map(|l| l.len()), Ok(1 + 2 * 1499));
    let mut r = module();
    r.structs.push(structure("R", vec![field("x", optional_ty(ResolvedType::Struct(StructId(0))))]));
    assert_eq!(find_nesting_limit(&i32_ty(), &r), 1 + 3 + 4096);
    assert_eq!(flat(&ResolvedType::Struct(StructId(0)), &r), too_deep);
}

#[test]
fn texts_are_collected_once() {
    let mut m = module();
    m.functions.push(function("f", vec![], None, text("a")));
    m.functions.push(function("g", vec![], None, IrExpr::Block {
        statements: vec![],
        result: Box::new(text("b")),
        ty: string_ty(),
    }));
    m.functions.push(function("h", vec![], None, text("a")));
    let mut pool = StringPool::new();
    assert_eq!(collect_string_literals(&m, &mut pool), Ok(()));
    assert_eq!(pool.lookup_map().get("a"), Some(4));
    assert_eq!(pool.lookup_map().get("b"), Some(16));
    assert_eq!(pool.data().len(), 24);
}

fn sig(name: &str) -> IrFunctionSig {
    IrFunctionSig { name: name.to_string(), params: vec![], return_type: None }
}

fn trait_of(name: &str, parents: Vec<u32>, methods: Vec<&str>) -> IrTrait {
    IrTrait {
        name: name.to_string(),
        composed_traits: parents.into_iter().map(TraitId).collect(),
        fields: vec![],
        methods: methods.into_iter().map(sig).collect(),
        generic_params: vec![],
    }
}

#[test]
fn inherited_methods_follow_own_ones() {
    let mut m = module();
    m.traits.push(trait_of("A", vec![1, 2], vec!["own", "shared"]));
    m.traits.push(trait_of("B", vec![0], vec!["b", "shared"]));
    m.traits.push(trait_of("C", vec![], vec!["c"]));
    let methods = effective_trait_methods(TraitId(0), &m).unwrap();
    let names: Vec<(u32, &str)> = methods.iter().map(|(t, s)| (t.0, s.name.as_str())).collect();
    assert_eq!(names, vec![(0, "own"), (0, "shared"), (1, "b"), (2, "c")]);
    m.traits.push(trait_of("D", vec![9], vec![]));
    assert_eq!(
        effective_trait_methods(TraitId(3), &m).map(|l| l.len()),
        Err(ModuleLowerError::UnknownTrait(TraitId(9)))
    );
}

fn implementing(trait_id: u32, names: Vec<&str>) -> IrImpl {
    IrImpl {
        target: ImplTarget::Struct(StructId(0)),
        trait_ref: Some(IrTraitRef { trait_id: TraitId(trait_id) }),
        functions: names
            .into_iter()
            .map(|n| function(n, vec![param(0, "self", ResolvedType::Struct(StructId(0)))], None, number(0)))
            .collect(),
        is_extern: false,
    }
}

#[test]
fn an_impl_must_have_every_method() {
    let mut m = module();
    m.structs.push(structure("S", vec![field("a", i32_ty())]));
    m.traits.push(trait_of("A", vec![], vec!["one", "two"]));
    m.impls.push(implementing(0, vec!["one"]));
    assert_eq!(
        lower_module(&m),
        Err(ModuleLowerError::MissingTraitMethod {
            trait_name: "A".to_string(),
            method: "two".to_string(),
            target: ImplTarget::Struct(StructId(0)),
        })
    );
    m.impls.clear();
    m.impls.push(implementing(7, vec!["one"]));
    assert_eq!(lower_module(&m), Err(ModuleLowerError::UnknownTrait(TraitId(7))));
}

#[test]
fn parameters_need_types() {
    let mut m = module();
    let mut f = function("f", vec![param(0, "x", i32_ty())], None, number(0));
    f.params[0].ty = None;
    m.functions.push(f);
    assert_eq!(
        lower_module(&m),
        Err(ModuleLowerError::MissingParamType {
            function: "f".to_string(),
            name: "x".to_string(),
        })
    );
}

#[test]
fn signatures_need_value_types() {
    let mut m = module();
    let shown = ResolvedType::Trait(TraitId(0));
    m.functions.push(function("f", vec![param(0, "x", shown)], None, number(0)));
    assert_eq!(
        lower_module(&m),
        Err(ModuleLowerError::TypeMap(TypeMapError::NotYetSupported {
            kind: UnsupportedKind::Trait,
        }))
    );
}

#[test]
fn bodies_report_their_errors() {
    let mut m = module();
    m.functions.push(function("f", vec![], None, call(8, "g", vec![], i32_ty())));
    assert_eq!(
        lower_module(&m),
        Err(ModuleLowerError::Lower(LowerError::UnknownFunction(FunctionId(8))))
    );
    let mut m = module();
    m.structs.push(structure("S", vec![field("a", i32_ty())]));
    m.functions.push(function(
        "f",
        vec![param(0, "s", ResolvedType::Struct(StructId(0)))],
        None,
        IrExpr::MethodCall {
            receiver: Box::new(use_param(0, "s", ResolvedType::Struct(StructId(0)))),
            method: "go".to_string(),
            method_idx: MethodIdx(0),
            args: vec![],
            dispatch: DispatchKind::Virtual {
                trait_id: TraitId(0),
                method_name: "go".to_string(),
            },
            ty: i32_ty(),
        },
    ));
    assert_eq!(
        lower_module(&m),
        Err(ModuleLowerError::Lower(LowerError::MissingContext {
            what: ContextField::MethodTable,
        }))
    );
}

#[test]
fn methods_of_the_host_drop_empty_receivers() {
    let mut m = module();
    m.structs.push(structure("Canvas", vec![]));
    m.impls.push(IrImpl {
        target: ImplTarget::Struct(StructId(0)),
        trait_ref: None,
        functions: vec![host("clear", vec![param(0, "self", ResolvedType::Struct(StructId(0)))], None)],
        is_extern: true,
    });
    let code = parsed(&m);
    let import = code.imports().next().unwrap();
    assert_eq!(import.name(), "canvas-clear");
    match import.ty() {
        ExternType::Func(ty) => assert_eq!((ty.params().len(), ty.results().len()), (0, 0)),
        other => panic!("{other:?}"),
    }
    let made = IrExpr::StructInst {
        struct_id: Some(StructId(0)),
        fields: Vec::<(String, FieldIdx, IrExpr)>::new(),
        ty: ResolvedType::Struct(StructId(0)),
    };
    m.functions.push(function("f", vec![], Some(ResolvedType::Struct(StructId(0))), made));
    parsed(&m);
}
