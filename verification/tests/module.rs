//! The module builder.

use formawasm::instr::{
    BlockType, FloatOp, I32Op, Instr, IntOp, LoadOp, MemArg, StoreOp, ValType,
};
use formawasm::ir::List;
use formawasm::lower::block::FunctionBody;
use formawasm::module::{ModuleBuilder, PreludeHelper};
use wasmi::{Engine, ExternType, Linker, Module, Store};

fn parsed(b: ModuleBuilder) -> Module {
    assert!(b.fits());
    match Module::new(&Engine::default(), &b.finish()) {
        Ok(m) => m,
        Err(e) => panic!("{e}"),
    }
}

fn constant(v: i32) -> FunctionBody {
    FunctionBody { locals: vec![], code: vec![Instr::I32Const(v), Instr::End] }
}

#[test]
fn an_empty_builder_makes_a_module_with_a_memory() {
    let bytes = ModuleBuilder::new().finish();
    assert_eq!(&bytes[..8], &[0x00, 0x61, 0x73, 0x6d, 0x01, 0x00, 0x00, 0x00]);
    let m = parsed(ModuleBuilder::new());
    let exports: Vec<String> = m.exports().map(|e| e.name().to_string()).collect();
    assert_eq!(exports, vec!["memory".to_string()]);
    assert!(matches!(m.exports().next().unwrap().ty(), ExternType::Memory(_)));
}

#[test]
fn imports_come_before_functions() {
    let mut b = ModuleBuilder::new();
    assert_eq!(
        b.declare_function_import("env", "f", &vec![ValType::I32], &vec![ValType::I64]),
        0
    );
    assert_eq!(b.function_count(), 1);
    assert_eq!(b.declare_function_with_body(&vec![], &vec![ValType::I32], constant(4)), 1);
    b.export_function("g", 1);
    assert_eq!(b.function_count(), 2);
    let m = parsed(b);
    let import = m.imports().next().unwrap();
    assert_eq!((import.module(), import.name()), ("env", "f"));
    assert!(m.get_export("g").is_some());
}

#[test]
fn declared_functions_run() {
    let mut b = ModuleBuilder::new();
    let idx = b.declare_function_with_body(&vec![], &vec![ValType::I32], constant(77));
    b.set_function_name(idx, "seventy_seven");
    b.export_function("f", idx);
    b.set_static_data(vec![1, 2, 3]);
    let engine = Engine::default();
    let m = Module::new(&engine, &b.finish()).unwrap();
    let mut store = Store::new(&engine, ());
    let instance = Linker::<()>::new(&engine)
        .instantiate(&mut store, &m)
        .unwrap()
        .start(&mut store)
        .unwrap();
    let f = instance.get_typed_func::<(), i32>(&store, "f").unwrap();
    assert_eq!(f.call(&mut store, ()).unwrap(), 77);
    let memory = instance.get_memory(&store, "memory").unwrap();
    assert_eq!(&memory.data(&store)[..4], &[1, 2, 3, 0]);
}

#[test]
fn helpers_are_declared_once() {
    let mut b = ModuleBuilder::new();
    assert_eq!(b.bump_allocator_index(), None);
    let bump = b.declare_bump_allocator();
    assert_eq!(b.declare_bump_allocator(), bump);
    assert_eq!(b.bump_allocator_index(), Some(bump));
    let eq = b.declare_str_eq();
    assert_eq!(b.declare_str_eq(), eq);
    assert_eq!(b.str_eq_index(), Some(eq));
    let concat = b.declare_str_concat();
    assert_eq!(b.declare_str_concat(), concat);
    assert_eq!(b.str_concat_index(), Some(concat));
    assert_eq!(b.prelude_helper_index(PreludeHelper::StrLen), None);
    let len = b.declare_prelude(PreludeHelper::StrLen);
    assert_eq!(b.declare_prelude(PreludeHelper::StrLen), len);
    assert_eq!(b.prelude_helper_index(PreludeHelper::StrLen), Some(len));
    assert_eq!(vec![bump, eq, concat, len], vec![0, 1, 2, 3]);
    assert_eq!(b.function_count(), 4);
    parsed(b);
}

#[test]
fn tables_are_declared_once() {
    let mut b = ModuleBuilder::new();
    assert_eq!(b.closure_table_index(), None);
    let f = b.declare_function_with_body(&vec![], &vec![ValType::I32], constant(1));
    assert_eq!(b.declare_closure_table(1), 0);
    assert_eq!(b.declare_closure_table(5), 0);
    assert_eq!(b.declare_method_table(2), 1);
    assert_eq!(b.declare_method_table(2), 1);
    b.populate_closure_table(vec![f]);
    b.populate_method_table(vec![f, f]);
    assert_eq!((b.closure_table_index(), b.method_table_index()), (Some(0), Some(1)));
    parsed(b);
}

#[test]
fn every_prelude_helper_is_valid() {
    let mut b = ModuleBuilder::new();
    for h in [
        PreludeHelper::StrLen,
        PreludeHelper::StrIsEmpty,
        PreludeHelper::StrByteAt,
        PreludeHelper::StrSlice,
        PreludeHelper::StrStartsWith,
        PreludeHelper::StrContains,
        PreludeHelper::ArrayLen,
        PreludeHelper::ArrayIsEmpty,
        PreludeHelper::OptionalIsSome,
        PreludeHelper::OptionalIsNone,
        PreludeHelper::RangeLen,
        PreludeHelper::RangeIsEmpty,
        PreludeHelper::DictLen,
        PreludeHelper::DictIsEmpty,
    ] {
        b.declare_prelude(h);
    }
    let realloc = b.declare_cabi_realloc();
    assert_eq!(b.function_count(), realloc + 1);
    let m = parsed(b);
    assert!(m.get_export("cabi_realloc").is_some());
}

#[test]
fn a_function_without_a_body_traps() {
    let mut b = ModuleBuilder::new();
    let idx = b.declare_function(&vec![ValType::I64], &vec![ValType::I32]);
    b.export_function("f", idx);
    let engine = Engine::default();
    let m = Module::new(&engine, &b.finish()).unwrap();
    let mut store = Store::new(&engine, ());
    let instance = Linker::<()>::new(&engine)
        .instantiate(&mut store, &m)
        .unwrap()
        .start(&mut store)
        .unwrap();
    let f = instance.get_typed_func::<i64, i32>(&store, "f").unwrap();
    assert!(f.call(&mut store, 1).is_err());
}

/// The bytes of a module whose one function has the given code.
fn with_code(code: Vec<Instr>) -> Vec<u8> {
    let mut b = ModuleBuilder::new();
    b.declare_function_with_body(&vec![], &vec![], FunctionBody { locals: vec![], code });
    b.finish()
}

fn holds(bytes: &[u8], part: &[u8]) -> bool {
    bytes.windows(part.len()).any(|w| w == part)
}

#[test]
fn instructions_have_their_opcodes() {
    let at = |offset, align| MemArg { offset, align, memory_index: 0 };
    let mut cases: Vec<(Instr, Vec<u8>)> = vec![
        (Instr::Unreachable, vec![0x00]),
        (Instr::Block(BlockType::Empty), vec![0x02, 0x40]),
        (Instr::Block(BlockType::Result(ValType::I32)), vec![0x02, 0x7f]),
        (Instr::Loop(BlockType::Result(ValType::I64)), vec![0x03, 0x7e]),
        (Instr::Loop(BlockType::Empty), vec![0x03, 0x40]),
        (Instr::If(BlockType::Result(ValType::F32)), vec![0x04, 0x7d]),
        (Instr::If(BlockType::Result(ValType::F64)), vec![0x04, 0x7c]),
        (Instr::Else, vec![0x05]),
        (Instr::Br(3), vec![0x0c, 0x03]),
        (Instr::BrIf(200), vec![0x0d, 0xc8, 0x01]),
        (
            Instr::BrTable { targets: List::from_vec(vec![1, 0]), default: 2 },
            vec![0x0e, 0x02, 0x01, 0x00, 0x02],
        ),
        (Instr::Return, vec![0x0f]),
        (Instr::Call(5), vec![0x10, 0x05]),
        (Instr::CallIndirect { table_index: 1, type_index: 4 }, vec![0x11, 0x04, 0x01]),
        (Instr::Drop, vec![0x1a]),
        (Instr::LocalGet(6), vec![0x20, 0x06]),
        (Instr::LocalSet(7), vec![0x21, 0x07]),
        (Instr::LocalTee(8), vec![0x22, 0x08]),
        (Instr::GlobalGet(0), vec![0x23, 0x00]),
        (Instr::GlobalSet(0), vec![0x24, 0x00]),
        (Instr::I32Const(-1), vec![0x41, 0x7f]),
        (Instr::I64Const(64), vec![0x42, 0xc0, 0x00]),
        (Instr::F32Const(0x3f80_0000), vec![0x43, 0x00, 0x00, 0x80, 0x3f]),
        (Instr::F64Const(1 << 62), vec![0x44, 0, 0, 0, 0, 0, 0, 0, 0x40]),
        (Instr::Load(LoadOp::I32, at(4, 2)), vec![0x28, 0x02, 0x04]),
        (Instr::Load(LoadOp::I64, at(8, 3)), vec![0x29, 0x03, 0x08]),
        (Instr::Load(LoadOp::F32, at(0, 2)), vec![0x2a, 0x02, 0x00]),
        (Instr::Load(LoadOp::F64, at(0, 3)), vec![0x2b, 0x03, 0x00]),
        (Instr::Load(LoadOp::I32Byte, at(1, 0)), vec![0x2d, 0x00, 0x01]),
        (Instr::Store(StoreOp::I32, at(4, 2)), vec![0x36, 0x02, 0x04]),
        (Instr::Store(StoreOp::I64, at(8, 3)), vec![0x37, 0x03, 0x08]),
        (Instr::Store(StoreOp::F32, at(0, 2)), vec![0x38, 0x02, 0x00]),
        (Instr::Store(StoreOp::F64, at(0, 3)), vec![0x39, 0x03, 0x00]),
        (Instr::Store(StoreOp::I32Byte, at(1, 0)), vec![0x3a, 0x00, 0x01]),
        (Instr::MemoryCopy { src_mem: 0, dst_mem: 0 }, vec![0xfc, 0x0a, 0x00, 0x00]),
        (Instr::I32Bits(I32Op::Eqz), vec![0x45]),
        (Instr::I32Bits(I32Op::GtU), vec![0x4b]),
        (Instr::I32Bits(I32Op::GeU), vec![0x4f]),
        (Instr::I32Bits(I32Op::And), vec![0x71]),
        (Instr::I32Bits(I32Op::Or), vec![0x72]),
    ];
    for (op, short, long) in [
        (IntOp::Add, 0x6a, 0x7c),
        (IntOp::Sub, 0x6b, 0x7d),
        (IntOp::Mul, 0x6c, 0x7e),
        (IntOp::DivS, 0x6d, 0x7f),
        (IntOp::RemS, 0x6f, 0x81),
        (IntOp::Eq, 0x46, 0x51),
        (IntOp::Ne, 0x47, 0x52),
        (IntOp::LtS, 0x48, 0x53),
        (IntOp::GtS, 0x4a, 0x55),
        (IntOp::LeS, 0x4c, 0x57),
        (IntOp::GeS, 0x4e, 0x59),
    ] {
        cases.push((Instr::I32(op), vec![short]));
        cases.push((Instr::I64(op), vec![long]));
    }
    for (op, short, long) in [
        (FloatOp::Add, 0x92, 0xa0),
        (FloatOp::Sub, 0x93, 0xa1),
        (FloatOp::Mul, 0x94, 0xa2),
        (FloatOp::Div, 0x95, 0xa3),
        (FloatOp::Eq, 0x5b, 0x61),
        (FloatOp::Ne, 0x5c, 0x62),
        (FloatOp::Lt, 0x5d, 0x63),
        (FloatOp::Gt, 0x5e, 0x64),
        (FloatOp::Le, 0x5f, 0x65),
        (FloatOp::Ge, 0x60, 0x66),
        (FloatOp::Neg, 0x8c, 0x9a),
    ] {
        cases.push((Instr::F32(op), vec![short]));
        cases.push((Instr::F64(op), vec![long]));
    }
    for (instr, opcode) in cases {
        let label = format!("{instr:?}");
        // A body without locals, and the section around it.
        let mut body = vec![0x00u8];
        body.extend(&opcode);
        body.push(0x0b);
        let mut expected = vec![0x0au8, body.len() as u8 + 2, 0x01, body.len() as u8];
        expected.extend(&body);
        assert!(holds(&with_code(vec![instr, Instr::End]), &expected), "{label}");
    }
}

#[test]
fn sections_hold_what_was_declared() {
    let mut b = ModuleBuilder::new();
    b.declare_function_import("env", "f", &vec![ValType::I32, ValType::F64], &vec![ValType::I64]);
    let f = b.declare_function_with_body(&vec![], &vec![], FunctionBody {
        locals: vec![(2, ValType::F32), (1, ValType::I64)],
        code: vec![Instr::End],
    });
    b.declare_closure_table(1);
    b.populate_closure_table(vec![f]);
    b.set_function_name(f, "nm");
    b.set_static_data(vec![9, 8, 7]);
    let bytes = b.finish();
    // Types: (i32, f64) -> i64 and () -> ().
    assert!(holds(&bytes, &[0x01, 0x0a, 0x02, 0x60, 0x02, 0x7f, 0x7c, 0x01, 0x7e, 0x60, 0x00, 0x00]));
    // The import, of type 0.
    assert!(holds(&bytes, &[0x02, 0x09, 0x01, 0x03, b'e', b'n', b'v', 0x01, b'f', 0x00, 0x00]));
    // One function, of type 1.
    assert!(holds(&bytes, &[0x03, 0x02, 0x01, 0x01]));
    // One table of function references with exactly one slot.
    assert!(holds(&bytes, &[0x04, 0x05, 0x01, 0x70, 0x01, 0x01, 0x01]));
    // One memory of one page.
    assert!(holds(&bytes, &[0x05, 0x03, 0x01, 0x00, 0x01]));
    // The heap pointer, a mutable word.
    assert!(holds(&bytes, &[0x01, 0x7f, 0x01, 0x41]));
    // The export of the memory.
    assert!(holds(&bytes, &[0x07, 0x0a, 0x01, 0x06, b'm', b'e', b'm', b'o', b'r', b'y', 0x02, 0x00]));
    // The body with its locals.
    assert!(holds(&bytes, &[0x0a, 0x08, 0x01, 0x06, 0x02, 0x02, 0x7d, 0x01, 0x7e, 0x0b]));
    // The static data at address 0.
    assert!(holds(&bytes, &[0x0b, 0x09, 0x01, 0x00, 0x41, 0x00, 0x0b, 0x03, 9, 8, 7]));
    // The function name.
    assert!(holds(&bytes, &[0x01, 0x02, b'n', b'm']));
}
