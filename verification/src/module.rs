//! Builder for the core-wasm module that code generation assembles.
//!
//! A builder starts with the runtime's memory and its export. Types,
//! functions, tables and data are added in any order; [`ModuleBuilder::finish`]
//! encodes them in the order that the format prescribes. The heap pointer is
//! placed behind the static data.

use vstd::prelude::*;

use crate::encode::{
    encode_module, parts_fit, ElementsView, Export, ExportTarget, ExportView, FuncImport,
    FuncSig, ImportView, Limits, Parts, SigView, TableElements,
};
use crate::instr::{BlockType, I32Op, Instr, IntOp, LoadOp, MemArg, StoreOp, ValType};
use crate::layout::{
    OPTIONAL_TAG_SOME, STRING_HEADER_SIZE, STRING_LEN_OFFSET, STRING_PTR_OFFSET,
};
use crate::lower::block::{BodyView, FunctionBody};
use crate::lower::context::{InstructionSink, SinkView};

verus! {

/// Alignment, in bytes, of every address that the allocation helper returns.
pub const BUMP_ALLOCATOR_ALIGN: u32 = 8;

/// What the allocation helper adds before it rounds down.
pub const BUMP_ALIGN_ROUND_UP_ADDEND: i32 = 7;

/// Mask that clears the low bits of an address.
pub const BUMP_ALIGN_KEEP_MASK: i32 = -8;

/// Name of the allocation helper.
pub const BUMP_ALLOCATOR_NAME: &'static str = "__alloc";

/// Name of the string-equality helper.
pub const STR_EQ_NAME: &'static str = "__str_eq";

/// Name of the string-concatenation helper.
pub const STR_CONCAT_NAME: &'static str = "__str_concat";

/// Export under which the host allocates buffers in the module's memory.
pub const CABI_REALLOC_NAME: &'static str = "cabi_realloc";

/// Export under which the memory is published.
pub const MEMORY_EXPORT_NAME: &'static str = "memory";

/// Module name of every function import.
pub const IMPORT_MODULE_NAME: &'static str = "cm32p2";

/// Index of the single linear memory.
pub const MEMORY_INDEX: u32 = 0;

/// Index of the heap-pointer global.
pub const HEAP_PTR_GLOBAL_INDEX: u32 = 0;

/// Heap pointer of a module without static data.
pub const HEAP_BASE: i32 = 0;

/// Initial size of the memory, in pages.
pub const INITIAL_MEMORY_PAGES: u64 = 1;

// ── the builder and its content ──────────────────────────────────────

/// Runtime helpers behind the built-in methods of texts and collections.
#[derive(Clone, Copy, Debug, PartialEq, Eq, Structural)]
pub enum PreludeHelper {
    StrLen,
    StrIsEmpty,
    StrByteAt,
    StrSlice,
    StrStartsWith,
    StrContains,
    ArrayLen,
    ArrayIsEmpty,
    OptionalIsSome,
    OptionalIsNone,
    RangeLen,
    RangeIsEmpty,
    DictLen,
    DictIsEmpty,
}

/// A module under construction.
#[derive(Debug, PartialEq, Eq)]
pub struct ModuleBuilder {
    types: Vec<FuncSig>,
    imports: Vec<FuncImport>,
    /// Type index of each function that the module defines.
    functions: Vec<u32>,
    tables: Vec<Limits>,
    exports: Vec<Export>,
    elements: Vec<TableElements>,
    code: Vec<FunctionBody>,
    bump_allocator: Option<u32>,
    str_eq: Option<u32>,
    str_concat: Option<u32>,
    prelude: Vec<(PreludeHelper, u32)>,
    closure_table_idx: Option<u32>,
    method_table_idx: Option<u32>,
    static_data: Vec<u8>,
    function_names: Vec<Option<String>>,
}

/// The content of a [`ModuleBuilder`].
#[verifier::ext_equal]
pub struct BuilderView {
    pub types: Seq<SigView>,
    pub imports: Seq<ImportView>,
    pub functions: Seq<u32>,
    pub tables: Seq<Limits>,
    pub exports: Seq<ExportView>,
    pub elements: Seq<ElementsView>,
    pub code: Seq<BodyView>,
    pub bump_allocator: Option<u32>,
    pub str_eq: Option<u32>,
    pub str_concat: Option<u32>,
    pub prelude: Seq<(PreludeHelper, u32)>,
    pub closure_table_idx: Option<u32>,
    pub method_table_idx: Option<u32>,
    pub static_data: Seq<u8>,
    pub function_names: Seq<Option<Seq<char>>>,
}

impl View for ModuleBuilder {
    type V = BuilderView;

    closed spec fn view(&self) -> BuilderView {
        BuilderView {
            types: crate::encode::views(self.types@),
            imports: crate::encode::views(self.imports@),
            functions: self.functions@,
            tables: self.tables@,
            exports: crate::encode::views(self.exports@),
            elements: crate::encode::views(self.elements@),
            code: crate::encode::views(self.code@),
            bump_allocator: self.bump_allocator,
            str_eq: self.str_eq,
            str_concat: self.str_concat,
            prelude: self.prelude@,
            closure_table_idx: self.closure_table_idx,
            method_table_idx: self.method_table_idx,
            static_data: self.static_data@,
            function_names: crate::encode::name_views(self.function_names@),
        }
    }
}

/// A table of exactly `n` slots.
pub open spec fn exact_table(n: u32) -> Limits {
    Limits { minimum: n as u64, maximum: Some(n as u64) }
}

/// Names with that of function `idx` set. Functions before it that have no
/// slot yet get an empty one.
pub open spec fn names_with(names: Seq<Option<Seq<char>>>, idx: int, name: Seq<char>) -> Seq<
    Option<Seq<char>>,
> {
    Seq::new(
        if names.len() > idx {
            names.len()
        } else {
            (idx + 1) as nat
        },
        |i: int|
            if i == idx {
                Some(name)
            } else if i < names.len() {
                names[i]
            } else {
                None
            },
    )
}

/// The index of a prelude helper, from entry `from` on.
pub open spec fn prelude_index(s: Seq<(PreludeHelper, u32)>, h: PreludeHelper, from: int) -> Option<
    u32,
>
    decreases s.len() - from,
{
    if from < 0 || from >= s.len() {
        None
    } else if s[from].0 == h {
        Some(s[from].1)
    } else {
        prelude_index(s, h, from + 1)
    }
}

impl BuilderView {
    /// Index of the next type.
    pub open spec fn next_type(self) -> u32 {
        crate::survey::index_u32(self.types.len() as int)
    }

    /// Index of the next function that the module defines. Imports come
    /// first in the index space.
    pub open spec fn next_function(self) -> u32 {
        crate::survey::index_u32((self.imports.len() + self.functions.len()) as int)
    }

    /// With one more type.
    pub open spec fn with_type(self, sig: SigView) -> BuilderView {
        BuilderView { types: self.types.push(sig), ..self }
    }

    /// With one more function.
    pub open spec fn with_function(self, sig: SigView, body: BodyView) -> BuilderView {
        BuilderView {
            types: self.types.push(sig),
            functions: self.functions.push(self.next_type()),
            code: self.code.push(body),
            ..self
        }
    }

    /// With the name of a function set.
    pub open spec fn with_name(self, idx: u32, name: Seq<char>) -> BuilderView {
        BuilderView { function_names: names_with(self.function_names, idx as int, name), ..self }
    }

    /// With one more import.
    pub open spec fn with_import(self, module: Seq<char>, name: Seq<char>, sig: SigView) -> BuilderView {
        BuilderView {
            types: self.types.push(sig),
            imports: self.imports.push(ImportView { module, name, type_index: self.next_type() }),
            ..self
        }.with_name(crate::survey::index_u32(self.imports.len() as int), name)
    }

    /// With one more named function.
    pub open spec fn with_helper(self, sig: SigView, body: BodyView, name: Seq<char>) -> BuilderView {
        self.with_function(sig, body).with_name(self.next_function(), name)
    }

    /// With one more function export.
    pub open spec fn with_export(self, name: Seq<char>, idx: u32) -> BuilderView {
        BuilderView {
            exports: self.exports.push(
                ExportView { name, target: ExportTarget::Function, index: idx },
            ),
            ..self
        }
    }

    /// With the allocation helper, which is declared once.
    pub open spec fn with_bump(self) -> BuilderView {
        match self.bump_allocator {
            Some(_) => self,
            None => BuilderView {
                bump_allocator: Some(self.next_function()),
                ..self.with_helper(words(1, 1), bump_body(), BUMP_ALLOCATOR_NAME@)
            },
        }
    }

    /// With the string-equality helper, which is declared once.
    pub open spec fn with_str_eq(self) -> BuilderView {
        match self.str_eq {
            Some(_) => self,
            None => BuilderView {
                str_eq: Some(self.next_function()),
                ..self.with_helper(words(2, 1), str_eq_body(), STR_EQ_NAME@)
            },
        }
    }

    /// With the string-concatenation helper, which is declared once, behind
    /// the allocation helper.
    pub open spec fn with_str_concat(self) -> BuilderView {
        match self.str_concat {
            Some(_) => self,
            None => {
                let b = self.with_bump();
                BuilderView {
                    str_concat: Some(b.next_function()),
                    ..b.with_helper(
                        words(2, 1),
                        str_concat_body(b.bump_allocator->0),
                        STR_CONCAT_NAME@,
                    )
                }
            },
        }
    }

    /// With a prelude helper, which is declared once, behind the allocation
    /// helper.
    pub open spec fn with_prelude(self, h: PreludeHelper) -> BuilderView {
        match prelude_index(self.prelude, h, 0) {
            Some(_) => self,
            None => {
                let b = self.with_bump();
                BuilderView {
                    prelude: b.prelude.push((h, b.next_function())),
                    ..b.with_helper(
                        words(prelude_arity(h), 1),
                        prelude_body(h, b.bump_allocator->0),
                        prelude_name(h),
                    )
                }
            },
        }
    }

    /// With the exported reallocation hook, behind the allocation helper.
    pub open spec fn with_cabi_realloc(self) -> BuilderView {
        let b = self.with_bump();
        b.with_helper(
            words(4, 1),
            realloc_body(b.bump_allocator->0),
            CABI_REALLOC_NAME@,
        ).with_export(CABI_REALLOC_NAME@, b.next_function())
    }

    /// With the closure table, which is declared once.
    pub open spec fn with_closure_table(self, n: u32) -> BuilderView {
        match self.closure_table_idx {
            Some(_) => self,
            None => BuilderView {
                closure_table_idx: Some(crate::survey::index_u32(self.tables.len() as int)),
                tables: self.tables.push(exact_table(n)),
                ..self
            },
        }
    }

    /// With the method table, which is declared once.
    pub open spec fn with_method_table(self, n: u32) -> BuilderView {
        match self.method_table_idx {
            Some(_) => self,
            None => BuilderView {
                method_table_idx: Some(crate::survey::index_u32(self.tables.len() as int)),
                tables: self.tables.push(exact_table(n)),
                ..self
            },
        }
    }

    /// With a table filled from its start, if there is one.
    pub open spec fn with_filled(self, table: Option<u32>, functions: Seq<u32>) -> BuilderView {
        match table {
            None => self,
            Some(t) => BuilderView {
                elements: self.elements.push(ElementsView { table: t, offset: 0, functions }),
                ..self
            },
        }
    }

    /// Everything that the module's bytes depend on.
    pub open spec fn parts(self) -> Parts {
        Parts {
            types: self.types,
            imports: self.imports,
            functions: self.functions,
            tables: self.tables,
            memory: Limits { minimum: INITIAL_MEMORY_PAGES, maximum: None },
            heap_base: heap_base(self.static_data.len() as int),
            exports: self.exports,
            elements: self.elements,
            code: self.code,
            static_data: self.static_data,
            function_names: self.function_names,
        }
    }
}

/// The content of a fresh builder: nothing but the memory's export.
pub open spec fn fresh() -> BuilderView {
    BuilderView {
        types: Seq::empty(),
        imports: Seq::empty(),
        functions: Seq::empty(),
        tables: Seq::empty(),
        exports: seq![
            ExportView {
                name: MEMORY_EXPORT_NAME@,
                target: ExportTarget::Memory,
                index: MEMORY_INDEX,
            },
        ],
        elements: Seq::empty(),
        code: Seq::empty(),
        bump_allocator: None,
        str_eq: None,
        str_concat: None,
        prelude: Seq::empty(),
        closure_table_idx: None,
        method_table_idx: None,
        static_data: Seq::empty(),
        function_names: Seq::empty(),
    }
}

/// The heap pointer's initial value: the first aligned address behind `len`
/// bytes of static data, as far as signed 32 bits reach.
pub open spec fn heap_base(len: int) -> i32 {
    if len <= 0 {
        HEAP_BASE
    } else {
        let raised = if len + 7 > u32::MAX {
            u32::MAX as int
        } else {
            len + 7
        };
        let aligned = raised - raised % 8;
        if aligned > i32::MAX {
            i32::MAX
        } else {
            aligned as i32
        }
    }
}

/// The heap starts behind the static data, aligned, wherever the data leaves
/// room for it in signed 32 bits.
pub proof fn law_heap_starts_behind_data(len: nat)
    requires
        len <= i32::MAX - 7,
    ensures
        heap_base(len as int) >= len,
        heap_base(len as int) < len + BUMP_ALLOCATOR_ALIGN,
        (heap_base(len as int) as int) % BUMP_ALLOCATOR_ALIGN as int == 0,
{
}

/// The initial heap pointer.
fn compute_heap_base(data_len: usize) -> (r: i32)
    ensures
        r == heap_base(data_len as int),
{
    if data_len == 0 {
        return HEAP_BASE;
    }
    let raw: u32 = if data_len > 0xffff_ffff {
        0xffff_ffff
    } else {
        data_len as u32
    };
    let raised: u32 = match raw.checked_add(BUMP_ALLOCATOR_ALIGN - 1) {
        Some(n) => n,
        None => 0xffff_ffff,
    };
    let aligned: u32 = raised - raised % BUMP_ALLOCATOR_ALIGN;
    if aligned > 0x7fff_ffff {
        0x7fff_ffff
    } else {
        aligned as i32
    }
}

// ── runtime helper bodies ────────────────────────────────────────────

/// A signature of `params` parameters and `results` results, all `i32`.
pub open spec fn words(params: nat, results: nat) -> SigView {
    SigView {
        params: Seq::new(params, |i: int| ValType::I32),
        results: Seq::new(results, |i: int| ValType::I32),
    }
}

/// No code yet.
pub open spec fn nothing() -> SinkView {
    SinkView { code: Seq::empty(), scratch: None }
}

/// A body with `n` locals of type `i32`.
pub open spec fn word_body(n: u32, s: SinkView) -> BodyView {
    BodyView {
        locals: if n == 0 {
            Seq::empty()
        } else {
            seq![(n, ValType::I32)]
        },
        code: s.code,
    }
}

/// The access to a 32-bit word at `offset`.
pub open spec fn word_at(offset: u32) -> MemArg {
    MemArg { offset: offset as u64, align: 2, memory_index: MEMORY_INDEX }
}

/// Push the word at `offset` behind the pointer in a local.
pub open spec fn push_word(local: u32, offset: u32, s: SinkView) -> SinkView {
    s.emit(Instr::LocalGet(local)).emit(Instr::Load(LoadOp::I32, word_at(offset)))
}

/// Push the byte at the sum of two locals.
pub open spec fn push_byte(base: u32, index: u32, s: SinkView) -> SinkView {
    s.emit(Instr::LocalGet(base)).emit(Instr::LocalGet(index)).emit(Instr::I32(IntOp::Add)).emit(
        Instr::Load(
            LoadOp::I32Byte,
            MemArg { offset: 0, align: 0, memory_index: MEMORY_INDEX },
        ),
    )
}

/// Return a constant if the value on the stack is not zero.
pub open spec fn return_if(value: i32, s: SinkView) -> SinkView {
    s.emit(Instr::If(BlockType::Empty)).emit(Instr::I32Const(value)).emit(Instr::Return).emit(
        Instr::End,
    )
}

/// Add one to a local.
pub open spec fn step(local: u32, s: SinkView) -> SinkView {
    s.emit(Instr::LocalGet(local)).emit(Instr::I32Const(1)).emit(Instr::I32(IntOp::Add)).emit(
        Instr::LocalSet(local),
    )
}

/// Set a local to zero.
pub open spec fn clear(local: u32, s: SinkView) -> SinkView {
    s.emit(Instr::I32Const(0)).emit(Instr::LocalSet(local))
}

/// Replace the string header pointers in locals 0 and 1 by their byte
/// pointers.
pub open spec fn to_bytes(s: SinkView) -> SinkView {
    push_word(
        1,
        STRING_PTR_OFFSET,
        push_word(0, STRING_PTR_OFFSET, s).emit(Instr::LocalSet(0)),
    ).emit(Instr::LocalSet(1))
}

/// Compare the bytes that locals 0 and 1 point at, as many as local 2 says,
/// counting in local 3. Return 0 at the first difference, 1 at the end.
pub open spec fn compare_bytes(s: SinkView) -> SinkView {
    let head = s.emit(Instr::Block(BlockType::Empty)).emit(Instr::Loop(BlockType::Empty)).emit(
        Instr::LocalGet(3),
    ).emit(Instr::LocalGet(2)).emit(Instr::I32Bits(I32Op::GeU)).emit(Instr::BrIf(1));
    let test = push_byte(1, 3, push_byte(0, 3, head)).emit(Instr::I32(IntOp::Ne));
    step(3, return_if(0, test)).emit(Instr::Br(0)).emit(Instr::End).emit(Instr::End).emit(
        Instr::I32Const(1),
    ).emit(Instr::End)
}

/// Body of the allocation helper: round the heap pointer up, advance it past
/// the allocation, return the rounded address.
pub open spec fn bump_body() -> BodyView {
    word_body(
        1,
        nothing().emit(Instr::GlobalGet(HEAP_PTR_GLOBAL_INDEX)).emit(Instr::I32Const(BUMP_ALIGN_ROUND_UP_ADDEND)).emit(
            Instr::I32(IntOp::Add),
        ).emit(Instr::I32Const(BUMP_ALIGN_KEEP_MASK)).emit(Instr::I32Bits(I32Op::And)).emit(
            Instr::LocalTee(1),
        ).emit(Instr::LocalGet(0)).emit(Instr::I32(IntOp::Add)).emit(
            Instr::GlobalSet(HEAP_PTR_GLOBAL_INDEX),
        ).emit(Instr::LocalGet(1)).emit(Instr::End),
    )
}

/// Body of the string-equality helper: compare the lengths, then the bytes.
pub open spec fn str_eq_body() -> BodyView {
    let lens = push_word(
        1,
        STRING_LEN_OFFSET,
        push_word(0, STRING_LEN_OFFSET, nothing()).emit(Instr::LocalTee(2)),
    ).emit(Instr::I32(IntOp::Ne));
    word_body(2, compare_bytes(to_bytes(clear(3, return_if(0, lens)))))
}

/// Body of the string-concatenation helper: copy both texts into a fresh
/// buffer and point a fresh header at it.
pub open spec fn str_concat_body(alloc: u32) -> BodyView {
    let a = push_word(0, STRING_LEN_OFFSET, nothing()).emit(Instr::LocalSet(2));
    let b = push_word(1, STRING_LEN_OFFSET, a).emit(Instr::LocalSet(3));
    let total = b.emit(Instr::LocalGet(2)).emit(Instr::LocalGet(3)).emit(
        Instr::I32(IntOp::Add),
    ).emit(Instr::LocalSet(4));
    let buffer = total.emit(Instr::LocalGet(4)).emit(Instr::Call(alloc)).emit(Instr::LocalSet(5));
    let first = push_word(0, STRING_PTR_OFFSET, buffer.emit(Instr::LocalGet(5))).emit(
        Instr::LocalGet(2),
    ).emit(Instr::MemoryCopy { src_mem: MEMORY_INDEX, dst_mem: MEMORY_INDEX });
    let second = push_word(
        1,
        STRING_PTR_OFFSET,
        first.emit(Instr::LocalGet(5)).emit(Instr::LocalGet(2)).emit(Instr::I32(IntOp::Add)),
    ).emit(Instr::LocalGet(3)).emit(
        Instr::MemoryCopy { src_mem: MEMORY_INDEX, dst_mem: MEMORY_INDEX },
    );
    word_body(5, string_header(alloc, 6, 5, 4, second).emit(Instr::LocalGet(6)).emit(Instr::End))
}

/// Allocate a string header in a local and fill it from two others.
pub open spec fn string_header(alloc: u32, header: u32, ptr: u32, len: u32, s: SinkView) -> SinkView {
    s.emit(Instr::I32Const(STRING_HEADER_SIZE as i32)).emit(Instr::Call(alloc)).emit(
        Instr::LocalSet(header),
    ).emit(Instr::LocalGet(header)).emit(Instr::LocalGet(ptr)).emit(
        Instr::Store(StoreOp::I32, word_at(STRING_PTR_OFFSET)),
    ).emit(Instr::LocalGet(header)).emit(Instr::LocalGet(len)).emit(
        Instr::Store(StoreOp::I32, word_at(STRING_LEN_OFFSET)),
    )
}

/// Body of the reallocation hook: allocate afresh.
pub open spec fn realloc_body(alloc: u32) -> BodyView {
    word_body(
        0,
        nothing().emit(Instr::LocalGet(3)).emit(Instr::Call(alloc)).emit(Instr::End),
    )
}

/// Number of parameters of a prelude helper.
pub open spec fn prelude_arity(h: PreludeHelper) -> nat {
    match h {
        PreludeHelper::StrByteAt => 2,
        PreludeHelper::StrSlice => 3,
        PreludeHelper::StrStartsWith => 2,
        PreludeHelper::StrContains => 2,
        _ => 1,
    }
}

/// Name of a prelude helper.
pub open spec fn prelude_name(h: PreludeHelper) -> Seq<char> {
    match h {
        PreludeHelper::StrLen => "__str_len"@,
        PreludeHelper::StrIsEmpty => "__str_is_empty"@,
        PreludeHelper::StrByteAt => "__str_byte_at"@,
        PreludeHelper::StrSlice => "__str_slice"@,
        PreludeHelper::StrStartsWith => "__str_starts_with"@,
        PreludeHelper::StrContains => "__str_contains"@,
        PreludeHelper::ArrayLen => "__array_len"@,
        PreludeHelper::ArrayIsEmpty => "__array_is_empty"@,
        PreludeHelper::OptionalIsSome => "__optional_is_some"@,
        PreludeHelper::OptionalIsNone => "__optional_is_none"@,
        PreludeHelper::RangeLen => "__range_len"@,
        PreludeHelper::RangeIsEmpty => "__range_is_empty"@,
        PreludeHelper::DictLen => "__dict_len"@,
        PreludeHelper::DictIsEmpty => "__dict_is_empty"@,
    }
}

/// Return 0 if the second string is longer than the first; its length stays
/// in local 2.
pub open spec fn reject_longer(s: SinkView) -> SinkView {
    return_if(
        0,
        push_word(
            0,
            STRING_LEN_OFFSET,
            push_word(1, STRING_LEN_OFFSET, s).emit(Instr::LocalTee(2)),
        ).emit(Instr::I32Bits(I32Op::GtU)),
    )
}

/// Body of the substring test: try every start from which the second string
/// fits into the first.
pub open spec fn contains_body() -> BodyView {
    let last = push_word(0, STRING_LEN_OFFSET, reject_longer(nothing())).emit(
        Instr::LocalGet(2),
    ).emit(Instr::I32(IntOp::Sub)).emit(Instr::LocalSet(3));
    let outer = clear(4, to_bytes(last)).emit(Instr::Block(BlockType::Empty)).emit(
        Instr::Loop(BlockType::Empty),
    ).emit(Instr::LocalGet(4)).emit(Instr::LocalGet(3)).emit(Instr::I32Bits(I32Op::GtU)).emit(
        Instr::BrIf(1),
    );
    let inner = clear(5, outer).emit(Instr::Block(BlockType::Empty)).emit(
        Instr::Loop(BlockType::Empty),
    ).emit(Instr::LocalGet(5)).emit(Instr::LocalGet(2)).emit(Instr::I32Bits(I32Op::GeU));
    let found = return_if(1, inner).emit(Instr::LocalGet(0)).emit(Instr::LocalGet(4)).emit(
        Instr::I32(IntOp::Add),
    ).emit(Instr::LocalSet(6));
    let test = push_byte(1, 5, push_byte(6, 5, found)).emit(
        Instr::I32(IntOp::Ne),
    ).emit(Instr::BrIf(1));
    let next = step(5, test).emit(Instr::Br(0)).emit(Instr::End).emit(Instr::End);
    word_body(
        5,
        step(4, next).emit(Instr::Br(0)).emit(Instr::End).emit(Instr::End).emit(
            Instr::I32Const(0),
        ).emit(Instr::End),
    )
}

/// Body of a prelude helper.
pub open spec fn prelude_body(h: PreludeHelper, alloc: u32) -> BodyView {
    match h {
        PreludeHelper::StrLen => word_body(
            0,
            push_word(0, STRING_LEN_OFFSET, nothing()).emit(Instr::End),
        ),
        PreludeHelper::StrIsEmpty => word_body(
            0,
            push_word(0, STRING_LEN_OFFSET, nothing()).emit(Instr::I32Bits(I32Op::Eqz)).emit(
                Instr::End,
            ),
        ),
        PreludeHelper::StrByteAt => word_body(
            0,
            push_byte(
                0,
                1,
                push_word(0, STRING_PTR_OFFSET, nothing()).emit(Instr::LocalSet(0)),
            ).emit(Instr::End),
        ),
        PreludeHelper::StrSlice => {
            let ptr = push_word(0, STRING_PTR_OFFSET, nothing()).emit(Instr::LocalGet(1)).emit(
                Instr::I32(IntOp::Add),
            ).emit(Instr::LocalSet(3));
            let len = ptr.emit(Instr::LocalGet(2)).emit(Instr::LocalGet(1)).emit(
                Instr::I32(IntOp::Sub),
            ).emit(Instr::LocalSet(4));
            word_body(
                3,
                string_header(alloc, 5, 3, 4, len).emit(Instr::LocalGet(5)).emit(Instr::End),
            )
        },
        PreludeHelper::StrStartsWith => word_body(
            2,
            compare_bytes(to_bytes(clear(3, reject_longer(nothing())))),
        ),
        PreludeHelper::StrContains => contains_body(),
        PreludeHelper::ArrayLen | PreludeHelper::DictLen => word_body(
            0,
            push_word(0, 4, nothing()).emit(Instr::End),
        ),
        PreludeHelper::ArrayIsEmpty | PreludeHelper::DictIsEmpty => word_body(
            0,
            push_word(0, 4, nothing()).emit(Instr::I32Bits(I32Op::Eqz)).emit(Instr::End),
        ),
        PreludeHelper::OptionalIsSome => word_body(
            0,
            push_word(0, 0, nothing()).emit(Instr::I32Const(OPTIONAL_TAG_SOME as i32)).emit(
                Instr::I32(IntOp::Eq),
            ).emit(Instr::End),
        ),
        PreludeHelper::OptionalIsNone => word_body(
            0,
            push_word(0, 0, nothing()).emit(Instr::I32Const(OPTIONAL_TAG_SOME as i32)).emit(
                Instr::I32(IntOp::Ne),
            ).emit(Instr::End),
        ),
        PreludeHelper::RangeLen => word_body(
            0,
            push_word(0, 0, push_word(0, 4, nothing())).emit(Instr::I32(IntOp::Sub)).emit(
                Instr::End,
            ),
        ),
        PreludeHelper::RangeIsEmpty => word_body(
            0,
            push_word(0, 0, push_word(0, 4, nothing())).emit(Instr::I32(IntOp::LeS)).emit(
                Instr::End,
            ),
        ),
    }
}

pub(crate) fn emit_word(local: u32, offset: u32, sink: &mut InstructionSink)
    ensures
        final(sink)@ == push_word(local, offset, old(sink)@),
{
    sink.emit(Instr::LocalGet(local));
    sink.emit(
        Instr::Load(
            LoadOp::I32,
            MemArg { offset: offset as u64, align: 2, memory_index: MEMORY_INDEX },
        ),
    );
}

fn emit_byte(base: u32, index: u32, sink: &mut InstructionSink)
    ensures
        final(sink)@ == push_byte(base, index, old(sink)@),
{
    sink.emit(Instr::LocalGet(base));
    sink.emit(Instr::LocalGet(index));
    sink.emit(Instr::I32(IntOp::Add));
    sink.emit(
        Instr::Load(
            LoadOp::I32Byte,
            MemArg { offset: 0, align: 0, memory_index: MEMORY_INDEX },
        ),
    );
}

fn emit_return_if(value: i32, sink: &mut InstructionSink)
    ensures
        final(sink)@ == return_if(value, old(sink)@),
{
    sink.emit(Instr::If(BlockType::Empty));
    sink.emit(Instr::I32Const(value));
    sink.emit(Instr::Return);
    sink.emit(Instr::End);
}

fn emit_step(local: u32, sink: &mut InstructionSink)
    ensures
        final(sink)@ == step(local, old(sink)@),
{
    sink.emit(Instr::LocalGet(local));
    sink.emit(Instr::I32Const(1));
    sink.emit(Instr::I32(IntOp::Add));
    sink.emit(Instr::LocalSet(local));
}

fn emit_clear(local: u32, sink: &mut InstructionSink)
    ensures
        final(sink)@ == clear(local, old(sink)@),
{
    sink.emit(Instr::I32Const(0));
    sink.emit(Instr::LocalSet(local));
}

fn emit_to_bytes(sink: &mut InstructionSink)
    ensures
        final(sink)@ == to_bytes(old(sink)@),
{
    emit_word(0, STRING_PTR_OFFSET, sink);
    sink.emit(Instr::LocalSet(0));
    emit_word(1, STRING_PTR_OFFSET, sink);
    sink.emit(Instr::LocalSet(1));
}

fn emit_compare_bytes(sink: &mut InstructionSink)
    ensures
        final(sink)@ == compare_bytes(old(sink)@),
{
    sink.emit(Instr::Block(BlockType::Empty));
    sink.emit(Instr::Loop(BlockType::Empty));
    sink.emit(Instr::LocalGet(3));
    sink.emit(Instr::LocalGet(2));
    sink.emit(Instr::I32Bits(I32Op::GeU));
    sink.emit(Instr::BrIf(1));
    emit_byte(0, 3, sink);
    emit_byte(1, 3, sink);
    sink.emit(Instr::I32(IntOp::Ne));
    emit_return_if(0, sink);
    emit_step(3, sink);
    sink.emit(Instr::Br(0));
    sink.emit(Instr::End);
    sink.emit(Instr::End);
    sink.emit(Instr::I32Const(1));
    sink.emit(Instr::End);
}

fn emit_string_header(alloc: u32, header: u32, ptr: u32, len: u32, sink: &mut InstructionSink)
    ensures
        final(sink)@ == string_header(alloc, header, ptr, len, old(sink)@),
{
    sink.emit(Instr::I32Const(STRING_HEADER_SIZE as i32));
    sink.emit(Instr::Call(alloc));
    sink.emit(Instr::LocalSet(header));
    sink.emit(Instr::LocalGet(header));
    sink.emit(Instr::LocalGet(ptr));
    sink.emit(
        Instr::Store(
            StoreOp::I32,
            MemArg { offset: STRING_PTR_OFFSET as u64, align: 2, memory_index: MEMORY_INDEX },
        ),
    );
    sink.emit(Instr::LocalGet(header));
    sink.emit(Instr::LocalGet(len));
    sink.emit(
        Instr::Store(
            StoreOp::I32,
            MemArg { offset: STRING_LEN_OFFSET as u64, align: 2, memory_index: MEMORY_INDEX },
        ),
    );
}

/// A body with `n` locals of type `i32`.
pub(crate) fn finish_words(n: u32, sink: InstructionSink) -> (r: FunctionBody)
    ensures
        r@ == word_body(n, sink@),
{
    let mut locals: Vec<(u32, ValType)> = Vec::new();
    if n > 0 {
        locals.push((n, ValType::I32));
    }
    let r = FunctionBody { locals, code: sink.code };
    proof {
        assert(r@.locals =~= word_body(n, sink@).locals);
    }
    r
}

fn bump_function() -> (r: FunctionBody)
    ensures
        r@ == bump_body(),
{
    let mut sink = InstructionSink::new(None);
    sink.emit(Instr::GlobalGet(HEAP_PTR_GLOBAL_INDEX));
    sink.emit(Instr::I32Const(BUMP_ALIGN_ROUND_UP_ADDEND));
    sink.emit(Instr::I32(IntOp::Add));
    sink.emit(Instr::I32Const(BUMP_ALIGN_KEEP_MASK));
    sink.emit(Instr::I32Bits(I32Op::And));
    sink.emit(Instr::LocalTee(1));
    sink.emit(Instr::LocalGet(0));
    sink.emit(Instr::I32(IntOp::Add));
    sink.emit(Instr::GlobalSet(HEAP_PTR_GLOBAL_INDEX));
    sink.emit(Instr::LocalGet(1));
    sink.emit(Instr::End);
    finish_words(1, sink)
}

fn str_eq_function() -> (r: FunctionBody)
    ensures
        r@ == str_eq_body(),
{
    let mut sink = InstructionSink::new(None);
    emit_word(0, STRING_LEN_OFFSET, &mut sink);
    sink.emit(Instr::LocalTee(2));
    emit_word(1, STRING_LEN_OFFSET, &mut sink);
    sink.emit(Instr::I32(IntOp::Ne));
    emit_return_if(0, &mut sink);
    emit_clear(3, &mut sink);
    emit_to_bytes(&mut sink);
    emit_compare_bytes(&mut sink);
    finish_words(2, sink)
}

fn str_concat_function(alloc: u32) -> (r: FunctionBody)
    ensures
        r@ == str_concat_body(alloc),
{
    let mut sink = InstructionSink::new(None);
    emit_word(0, STRING_LEN_OFFSET, &mut sink);
    sink.emit(Instr::LocalSet(2));
    emit_word(1, STRING_LEN_OFFSET, &mut sink);
    sink.emit(Instr::LocalSet(3));
    sink.emit(Instr::LocalGet(2));
    sink.emit(Instr::LocalGet(3));
    sink.emit(Instr::I32(IntOp::Add));
    sink.emit(Instr::LocalSet(4));
    sink.emit(Instr::LocalGet(4));
    sink.emit(Instr::Call(alloc));
    sink.emit(Instr::LocalSet(5));
    sink.emit(Instr::LocalGet(5));
    emit_word(0, STRING_PTR_OFFSET, &mut sink);
    sink.emit(Instr::LocalGet(2));
    sink.emit(Instr::MemoryCopy { src_mem: MEMORY_INDEX, dst_mem: MEMORY_INDEX });
    sink.emit(Instr::LocalGet(5));
    sink.emit(Instr::LocalGet(2));
    sink.emit(Instr::I32(IntOp::Add));
    emit_word(1, STRING_PTR_OFFSET, &mut sink);
    sink.emit(Instr::LocalGet(3));
    sink.emit(Instr::MemoryCopy { src_mem: MEMORY_INDEX, dst_mem: MEMORY_INDEX });
    emit_string_header(alloc, 6, 5, 4, &mut sink);
    sink.emit(Instr::LocalGet(6));
    sink.emit(Instr::End);
    finish_words(5, sink)
}

fn realloc_function(alloc: u32) -> (r: FunctionBody)
    ensures
        r@ == realloc_body(alloc),
{
    let mut sink = InstructionSink::new(None);
    sink.emit(Instr::LocalGet(3));
    sink.emit(Instr::Call(alloc));
    sink.emit(Instr::End);
    finish_words(0, sink)
}

fn emit_reject_longer(sink: &mut InstructionSink)
    ensures
        final(sink)@ == reject_longer(old(sink)@),
{
    emit_word(1, STRING_LEN_OFFSET, sink);
    sink.emit(Instr::LocalTee(2));
    emit_word(0, STRING_LEN_OFFSET, sink);
    sink.emit(Instr::I32Bits(I32Op::GtU));
    emit_return_if(0, sink);
}

fn contains_function() -> (r: FunctionBody)
    ensures
        r@ == contains_body(),
{
    let mut sink = InstructionSink::new(None);
    emit_reject_longer(&mut sink);
    emit_word(0, STRING_LEN_OFFSET, &mut sink);
    sink.emit(Instr::LocalGet(2));
    sink.emit(Instr::I32(IntOp::Sub));
    sink.emit(Instr::LocalSet(3));
    emit_to_bytes(&mut sink);
    emit_clear(4, &mut sink);
    sink.emit(Instr::Block(BlockType::Empty));
    sink.emit(Instr::Loop(BlockType::Empty));
    sink.emit(Instr::LocalGet(4));
    sink.emit(Instr::LocalGet(3));
    sink.emit(Instr::I32Bits(I32Op::GtU));
    sink.emit(Instr::BrIf(1));
    emit_clear(5, &mut sink);
    sink.emit(Instr::Block(BlockType::Empty));
    sink.emit(Instr::Loop(BlockType::Empty));
    sink.emit(Instr::LocalGet(5));
    sink.emit(Instr::LocalGet(2));
    sink.emit(Instr::I32Bits(I32Op::GeU));
    emit_return_if(1, &mut sink);
    sink.emit(Instr::LocalGet(0));
    sink.emit(Instr::LocalGet(4));
    sink.emit(Instr::I32(IntOp::Add));
    sink.emit(Instr::LocalSet(6));
    emit_byte(6, 5, &mut sink);
    emit_byte(1, 5, &mut sink);
    sink.emit(Instr::I32(IntOp::Ne));
    sink.emit(Instr::BrIf(1));
    emit_step(5, &mut sink);
    sink.emit(Instr::Br(0));
    sink.emit(Instr::End);
    sink.emit(Instr::End);
    emit_step(4, &mut sink);
    sink.emit(Instr::Br(0));
    sink.emit(Instr::End);
    sink.emit(Instr::End);
    sink.emit(Instr::I32Const(0));
    sink.emit(Instr::End);
    finish_words(5, sink)
}

fn slice_function(alloc: u32) -> (r: FunctionBody)
    ensures
        r@ == prelude_body(PreludeHelper::StrSlice, alloc),
{
    let mut sink = InstructionSink::new(None);
    emit_word(0, STRING_PTR_OFFSET, &mut sink);
    sink.emit(Instr::LocalGet(1));
    sink.emit(Instr::I32(IntOp::Add));
    sink.emit(Instr::LocalSet(3));
    sink.emit(Instr::LocalGet(2));
    sink.emit(Instr::LocalGet(1));
    sink.emit(Instr::I32(IntOp::Sub));
    sink.emit(Instr::LocalSet(4));
    emit_string_header(alloc, 5, 3, 4, &mut sink);
    sink.emit(Instr::LocalGet(5));
    sink.emit(Instr::End);
    finish_words(3, sink)
}

fn prelude_function(h: PreludeHelper, alloc: u32) -> (r: FunctionBody)
    ensures
        r@ == prelude_body(h, alloc),
{
    let mut sink = InstructionSink::new(None);
    match h {
        PreludeHelper::StrLen => {
            emit_word(0, STRING_LEN_OFFSET, &mut sink);
        },
        PreludeHelper::StrIsEmpty => {
            emit_word(0, STRING_LEN_OFFSET, &mut sink);
            sink.emit(Instr::I32Bits(I32Op::Eqz));
        },
        PreludeHelper::StrByteAt => {
            emit_word(0, STRING_PTR_OFFSET, &mut sink);
            sink.emit(Instr::LocalSet(0));
            emit_byte(0, 1, &mut sink);
        },
        PreludeHelper::StrSlice => {
            return slice_function(alloc);
        },
        PreludeHelper::StrStartsWith => {
            emit_reject_longer(&mut sink);
            emit_clear(3, &mut sink);
            emit_to_bytes(&mut sink);
            emit_compare_bytes(&mut sink);
            return finish_words(2, sink);
        },
        PreludeHelper::StrContains => {
            return contains_function();
        },
        PreludeHelper::ArrayLen | PreludeHelper::DictLen => {
            emit_word(0, 4, &mut sink);
        },
        PreludeHelper::ArrayIsEmpty | PreludeHelper::DictIsEmpty => {
            emit_word(0, 4, &mut sink);
            sink.emit(Instr::I32Bits(I32Op::Eqz));
        },
        PreludeHelper::OptionalIsSome => {
            emit_word(0, 0, &mut sink);
            sink.emit(Instr::I32Const(OPTIONAL_TAG_SOME as i32));
            sink.emit(Instr::I32(IntOp::Eq));
        },
        PreludeHelper::OptionalIsNone => {
            emit_word(0, 0, &mut sink);
            sink.emit(Instr::I32Const(OPTIONAL_TAG_SOME as i32));
            sink.emit(Instr::I32(IntOp::Ne));
        },
        PreludeHelper::RangeLen => {
            emit_word(0, 4, &mut sink);
            emit_word(0, 0, &mut sink);
            sink.emit(Instr::I32(IntOp::Sub));
        },
        PreludeHelper::RangeIsEmpty => {
            emit_word(0, 4, &mut sink);
            emit_word(0, 0, &mut sink);
            sink.emit(Instr::I32(IntOp::LeS));
        },
    }
    sink.emit(Instr::End);
    finish_words(0, sink)
}

fn prelude_text(h: PreludeHelper) -> (r: &'static str)
    ensures
        r@ == prelude_name(h),
{
    match h {
        PreludeHelper::StrLen => "__str_len",
        PreludeHelper::StrIsEmpty => "__str_is_empty",
        PreludeHelper::StrByteAt => "__str_byte_at",
        PreludeHelper::StrSlice => "__str_slice",
        PreludeHelper::StrStartsWith => "__str_starts_with",
        PreludeHelper::StrContains => "__str_contains",
        PreludeHelper::ArrayLen => "__array_len",
        PreludeHelper::ArrayIsEmpty => "__array_is_empty",
        PreludeHelper::OptionalIsSome => "__optional_is_some",
        PreludeHelper::OptionalIsNone => "__optional_is_none",
        PreludeHelper::RangeLen => "__range_len",
        PreludeHelper::RangeIsEmpty => "__range_is_empty",
        PreludeHelper::DictLen => "__dict_len",
        PreludeHelper::DictIsEmpty => "__dict_is_empty",
    }
}

/// `n` times `i32`.
fn word_types(n: usize) -> (r: Vec<ValType>)
    ensures
        r@ == Seq::new(n as nat, |i: int| ValType::I32),
{
    let mut out: Vec<ValType> = Vec::new();
    let mut i: usize = 0;
    while i < n
        invariant
            i <= n,
            out@.len() == i,
            forall|k: int| 0 <= k < i ==> out@[k] == ValType::I32,
        decreases n - i,
    {
        out.push(ValType::I32);
        i = i + 1;
    }
    proof {
        assert(out@ =~= Seq::new(n as nat, |i: int| ValType::I32));
    }
    out
}

/// A list's length as an index.
fn index_of(len: usize) -> (r: u32)
    ensures
        r == crate::survey::index_u32(len as int),
{
    if len > 0xffff_ffff {
        0xffff_ffff
    } else {
        len as u32
    }
}

/// A copy of a list of value types.
pub fn copy_types(types: &Vec<ValType>) -> (r: Vec<ValType>)
    ensures
        r@ == types@,
{
    let mut out: Vec<ValType> = Vec::new();
    let mut i: usize = 0;
    while i < types.len()
        invariant
            i <= types@.len(),
            out@ == types@.take(i as int),
        decreases types@.len() - i,
    {
        out.push(types[i]);
        proof {
            assert(out@ =~= types@.take(i + 1));
        }
        i = i + 1;
    }
    proof {
        assert(out@ =~= types@);
    }
    out
}

// ── operations ───────────────────────────────────────────────────────

impl ModuleBuilder {
    /// An empty module with the runtime's memory.
    pub fn new() -> (r: Self)
        ensures
            r@ == fresh(),
    {
        let mut exports: Vec<Export> = Vec::new();
        exports.push(
            Export {
                name: MEMORY_EXPORT_NAME.to_owned(),
                target: ExportTarget::Memory,
                index: MEMORY_INDEX,
            },
        );
        let r = ModuleBuilder {
            types: Vec::new(),
            imports: Vec::new(),
            functions: Vec::new(),
            tables: Vec::new(),
            exports,
            elements: Vec::new(),
            code: Vec::new(),
            bump_allocator: None,
            str_eq: None,
            str_concat: None,
            prelude: Vec::new(),
            closure_table_idx: None,
            method_table_idx: None,
            static_data: Vec::new(),
            function_names: Vec::new(),
        };
        proof {
            assert(r@ =~= fresh());
        }
        r
    }

    /// Record the name of a function, for debugging tools.
    pub fn set_function_name(&mut self, function_index: u32, name: &str)
        ensures
            final(self)@ == old(self)@.with_name(function_index, name@),
    {
        let idx: usize = function_index as usize;
        let ghost before = *self;
        while self.function_names.len() <= idx
            invariant
                self.types == before.types,
                self.imports == before.imports,
                self.functions == before.functions,
                self.tables == before.tables,
                self.exports == before.exports,
                self.elements == before.elements,
                self.code == before.code,
                self.bump_allocator == before.bump_allocator,
                self.str_eq == before.str_eq,
                self.str_concat == before.str_concat,
                self.prelude == before.prelude,
                self.closure_table_idx == before.closure_table_idx,
                self.method_table_idx == before.method_table_idx,
                self.static_data == before.static_data,
                idx == function_index,
                before.function_names@.len() <= self.function_names@.len(),
                self.function_names@.len() <= (if before.function_names@.len() > idx {
                    before.function_names@.len() as int
                } else {
                    idx + 1
                }),
                forall|i: int|
                    0 <= i < before.function_names@.len() ==> self.function_names@[i]
                        == before.function_names@[i],
                forall|i: int|
                    before.function_names@.len() <= i < self.function_names@.len()
                        ==> self.function_names@[i] is None,
            decreases idx + 1 - self.function_names@.len(),
        {
            self.function_names.push(None);
        }
        self.function_names.set(idx, Some(name.to_owned()));
        proof {
            assert(self@.function_names =~= names_with(
                before@.function_names,
                idx as int,
                name@,
            ));
            assert(self@ =~= before@.with_name(function_index, name@));
        }
    }

    /// Install the static data, which goes to the start of the memory.
    /// Earlier data is replaced.
    pub fn set_static_data(&mut self, bytes: Vec<u8>)
        ensures
            final(self)@ == (BuilderView { static_data: bytes@, ..old(self)@ }),
    {
        self.static_data = bytes;
    }

    /// Declare a signature and return its index.
    pub fn declare_type(&mut self, params: &Vec<ValType>, results: &Vec<ValType>) -> (r: u32)
        ensures
            r == old(self)@.next_type(),
            final(self)@ == old(self)@.with_type(SigView { params: params@, results: results@ }),
    {
        let idx: u32 = index_of(self.types.len());
        let sig = FuncSig { params: copy_types(params), results: copy_types(results) };
        proof {
            crate::encode::lemma_views_push(self.types@, sig);
        }
        self.types.push(sig);
        idx
    }

    /// Declare the table of closure functions and return its index. Only the
    /// first call declares it.
    pub fn declare_closure_table(&mut self, num_closures: u32) -> (r: u32)
        ensures
            final(self)@ == old(self)@.with_closure_table(num_closures),
            final(self)@.closure_table_idx == Some(r),
    {
        if let Some(idx) = self.closure_table_idx {
            return idx;
        }
        let idx: u32 = index_of(self.tables.len());
        self.tables.push(
            Limits { minimum: num_closures as u64, maximum: Some(num_closures as u64) },
        );
        self.closure_table_idx = Some(idx);
        idx
    }

    /// Fill the closure table from its start, if it is declared.
    pub fn populate_closure_table(&mut self, wasm_func_indices: Vec<u32>)
        ensures
            final(self)@ == old(self)@.with_filled(
                old(self)@.closure_table_idx,
                wasm_func_indices@,
            ),
    {
        if let Some(table) = self.closure_table_idx {
            let e = TableElements { table, offset: 0, functions: wasm_func_indices };
            proof {
                crate::encode::lemma_views_push(self.elements@, e);
            }
            self.elements.push(e);
        }
    }

    /// Index of the closure table, if it is declared.
    pub fn closure_table_index(&self) -> (r: Option<u32>)
        ensures
            r == self@.closure_table_idx,
    {
        self.closure_table_idx
    }

    /// Declare the table of trait methods and return its index. Only the
    /// first call declares it.
    pub fn declare_method_table(&mut self, num_methods: u32) -> (r: u32)
        ensures
            final(self)@ == old(self)@.with_method_table(num_methods),
            final(self)@.method_table_idx == Some(r),
    {
        if let Some(idx) = self.method_table_idx {
            return idx;
        }
        let idx: u32 = index_of(self.tables.len());
        self.tables.push(
            Limits { minimum: num_methods as u64, maximum: Some(num_methods as u64) },
        );
        self.method_table_idx = Some(idx);
        idx
    }

    /// Fill the method table from its start, if it is declared.
    pub fn populate_method_table(&mut self, wasm_func_indices: Vec<u32>)
        ensures
            final(self)@ == old(self)@.with_filled(
                old(self)@.method_table_idx,
                wasm_func_indices@,
            ),
    {
        if let Some(table) = self.method_table_idx {
            let e = TableElements { table, offset: 0, functions: wasm_func_indices };
            proof {
                crate::encode::lemma_views_push(self.elements@, e);
            }
            self.elements.push(e);
        }
    }

    /// Index of the method table, if it is declared.
    pub fn method_table_index(&self) -> (r: Option<u32>)
        ensures
            r == self@.method_table_idx,
    {
        self.method_table_idx
    }

    /// Export a function.
    pub fn export_function(&mut self, name: &str, function_index: u32)
        ensures
            final(self)@ == old(self)@.with_export(name@, function_index),
    {
        let e = Export {
            name: name.to_owned(),
            target: ExportTarget::Function,
            index: function_index,
        };
        proof {
            crate::encode::lemma_views_push(self.exports@, e);
        }
        self.exports.push(e);
    }

    /// Declare a function with its body, which ends in the closing `end`,
    /// and return its index.
    pub fn declare_function_with_body(
        &mut self,
        param_types: &Vec<ValType>,
        result_types: &Vec<ValType>,
        body: FunctionBody,
    ) -> (r: u32)
        ensures
            r == old(self)@.next_function(),
            final(self)@ == old(self)@.with_function(
                SigView { params: param_types@, results: result_types@ },
                body@,
            ),
    {
        let func_index: u32 = self.function_count();
        proof {
            crate::encode::lemma_views_push(self.code@, body);
        }
        let type_index: u32 = self.declare_type(param_types, result_types);
        self.functions.push(type_index);
        self.code.push(body);
        func_index
    }

    /// Declare a function import and return its index. Indices of functions
    /// that the module defines start behind those of all imports.
    pub fn declare_function_import(
        &mut self,
        module_name: &str,
        fn_name: &str,
        param_types: &Vec<ValType>,
        result_types: &Vec<ValType>,
    ) -> (r: u32)
        ensures
            r == crate::survey::index_u32(old(self)@.imports.len() as int),
            final(self)@ == old(self)@.with_import(
                module_name@,
                fn_name@,
                SigView { params: param_types@, results: result_types@ },
            ),
    {
        let func_index: u32 = index_of(self.imports.len());
        let type_index: u32 = self.declare_type(param_types, result_types);
        let import = FuncImport {
            module: module_name.to_owned(),
            name: fn_name.to_owned(),
            type_index,
        };
        proof {
            crate::encode::lemma_views_push(self.imports@, import);
        }
        self.imports.push(import);
        self.set_function_name(func_index, fn_name);
        func_index
    }

    /// Declare a function whose body traps.
    pub fn declare_function(&mut self, param_types: &Vec<ValType>, result_types: &Vec<ValType>) -> (r:
        u32)
        ensures
            r == old(self)@.next_function(),
            final(self)@ == old(self)@.with_function(
                SigView { params: param_types@, results: result_types@ },
                word_body(0, nothing().emit(Instr::Unreachable).emit(Instr::End)),
            ),
    {
        let mut sink = InstructionSink::new(None);
        sink.emit(Instr::Unreachable);
        sink.emit(Instr::End);
        let body = finish_words(0, sink);
        self.declare_function_with_body(param_types, result_types, body)
    }

    /// Declare a named helper over words.
    fn declare_helper(&mut self, params: usize, body: FunctionBody, name: &str) -> (r: u32)
        ensures
            r == old(self)@.next_function(),
            final(self)@ == old(self)@.with_helper(words(params as nat, 1), body@, name@),
    {
        let param_types = word_types(params);
        let result_types = word_types(1);
        let idx: u32 = self.declare_function_with_body(&param_types, &result_types, body);
        self.set_function_name(idx, name);
        idx
    }

    /// Declare the allocation helper, `__alloc(size) -> address`, and return
    /// its index. Only the first call declares it.
    pub fn declare_bump_allocator(&mut self) -> (r: u32)
        ensures
            final(self)@ == old(self)@.with_bump(),
            final(self)@.bump_allocator == Some(r),
    {
        if let Some(idx) = self.bump_allocator {
            return idx;
        }
        let idx: u32 = self.declare_helper(1, bump_function(), BUMP_ALLOCATOR_NAME);
        self.bump_allocator = Some(idx);
        idx
    }

    /// Index of the allocation helper, if it is declared.
    pub fn bump_allocator_index(&self) -> (r: Option<u32>)
        ensures
            r == self@.bump_allocator,
    {
        self.bump_allocator
    }

    /// Declare the string-equality helper and return its index. Only the
    /// first call declares it.
    pub fn declare_str_eq(&mut self) -> (r: u32)
        ensures
            final(self)@ == old(self)@.with_str_eq(),
            final(self)@.str_eq == Some(r),
    {
        if let Some(idx) = self.str_eq {
            return idx;
        }
        let idx: u32 = self.declare_helper(2, str_eq_function(), STR_EQ_NAME);
        self.str_eq = Some(idx);
        idx
    }

    /// Index of the string-equality helper, if it is declared.
    pub fn str_eq_index(&self) -> (r: Option<u32>)
        ensures
            r == self@.str_eq,
    {
        self.str_eq
    }

    /// Declare the string-concatenation helper and return its index. Only
    /// the first call declares it.
    pub fn declare_str_concat(&mut self) -> (r: u32)
        ensures
            final(self)@ == old(self)@.with_str_concat(),
            final(self)@.str_concat == Some(r),
    {
        if let Some(idx) = self.str_concat {
            return idx;
        }
        let alloc: u32 = self.declare_bump_allocator();
        let idx: u32 = self.declare_helper(2, str_concat_function(alloc), STR_CONCAT_NAME);
        self.str_concat = Some(idx);
        idx
    }

    /// Index of the string-concatenation helper, if it is declared.
    pub fn str_concat_index(&self) -> (r: Option<u32>)
        ensures
            r == self@.str_concat,
    {
        self.str_concat
    }

    /// Declare a prelude helper and return its index. Only the first call
    /// declares it.
    pub fn declare_prelude(&mut self, h: PreludeHelper) -> (r: u32)
        ensures
            final(self)@ == old(self)@.with_prelude(h),
            prelude_index(final(self)@.prelude, h, 0) == Some(r),
    {
        if let Some(idx) = self.prelude_helper_index(h) {
            return idx;
        }
        let alloc: u32 = self.declare_bump_allocator();
        let params: usize = match h {
            PreludeHelper::StrByteAt => 2,
            PreludeHelper::StrSlice => 3,
            PreludeHelper::StrStartsWith => 2,
            PreludeHelper::StrContains => 2,
            _ => 1,
        };
        let idx: u32 = self.declare_helper(params, prelude_function(h, alloc), prelude_text(h));
        proof {
            lemma_prelude_pushed(self.prelude@, h, idx, 0);
        }
        self.prelude.push((h, idx));
        idx
    }

    /// Index of a prelude helper, if it is declared.
    pub fn prelude_helper_index(&self, h: PreludeHelper) -> (r: Option<u32>)
        ensures
            r == prelude_index(self@.prelude, h, 0),
    {
        let mut i: usize = 0;
        while i < self.prelude.len()
            invariant
                i <= self.prelude@.len(),
                prelude_index(self.prelude@, h, 0) == prelude_index(self.prelude@, h, i as int),
            decreases self.prelude@.len() - i,
        {
            let (helper, idx) = self.prelude[i];
            if helper == h {
                return Some(idx);
            }
            i = i + 1;
        }
        None
    }

    /// Declare and export the reallocation hook of the canonical ABI and
    /// return its index. It always allocates afresh.
    pub fn declare_cabi_realloc(&mut self) -> (r: u32)
        ensures
            r == old(self)@.with_bump().next_function(),
            final(self)@ == old(self)@.with_cabi_realloc(),
    {
        let alloc: u32 = self.declare_bump_allocator();
        let idx: u32 = self.declare_helper(4, realloc_function(alloc), CABI_REALLOC_NAME);
        self.export_function(CABI_REALLOC_NAME, idx);
        idx
    }

    /// Number of functions: imports and those that the module defines.
    pub fn function_count(&self) -> (r: u32)
        ensures
            r == self@.next_function(),
    {
        let a: u32 = index_of(self.imports.len());
        let b: u32 = index_of(self.functions.len());
        match a.checked_add(b) {
            Some(n) => n,
            None => 0xffff_ffff,
        }
    }

    /// Whether the module is small enough to be encoded.
    pub fn fits(&self) -> (r: bool)
        ensures
            r == crate::encode::fits(self@.parts()),
    {
        parts_fit(
            &self.types,
            &self.imports,
            &self.functions,
            &self.tables,
            &self.exports,
            &self.elements,
            &self.code,
            &self.static_data,
            &self.function_names,
        )
    }

    /// Encode the module.
    pub fn finish(self) -> (r: Vec<u8>)
        requires
            crate::encode::fits(self@.parts()),
        ensures
            r@ == crate::encode::module_bytes(crate::encode::sections(self@.parts())),
            crate::encode::module_header().is_prefix_of(r@),
            crate::encode::own_imports(self@.imports) && crate::encode::own_exports(self@.exports)
                ==> crate::binary::is_own(r@),
    {
        let heap_base: i32 = compute_heap_base(self.static_data.len());
        encode_module(
            &self.types,
            &self.imports,
            &self.functions,
            &self.tables,
            Limits { minimum: INITIAL_MEMORY_PAGES, maximum: None },
            heap_base,
            &self.exports,
            &self.elements,
            &self.code,
            &self.static_data,
            &self.function_names,
        )
    }
}

impl Default for ModuleBuilder {
    fn default() -> (r: Self)
        ensures
            r@ == fresh(),
    {
        ModuleBuilder::new()
    }
}

proof fn lemma_prelude_pushed(s: Seq<(PreludeHelper, u32)>, h: PreludeHelper, idx: u32, from: int)
    requires
        0 <= from <= s.len(),
        prelude_index(s, h, from) is None,
    ensures
        prelude_index(s.push((h, idx)), h, from) == Some(idx),
    decreases s.len() - from,
{
    if from < s.len() {
        lemma_prelude_pushed(s, h, idx, from + 1);
    }
}

/// Declaring a helper or a table again changes nothing: each is in a module
/// at most once.
pub proof fn law_declarations_are_idempotent(b: BuilderView, h: PreludeHelper, n: u32, k: u32)
    ensures
        b.with_bump().with_bump() == b.with_bump(),
        b.with_str_eq().with_str_eq() == b.with_str_eq(),
        b.with_str_concat().with_str_concat() == b.with_str_concat(),
        b.with_prelude(h).with_prelude(h) == b.with_prelude(h),
        b.with_closure_table(n).with_closure_table(k) == b.with_closure_table(n),
        b.with_method_table(n).with_method_table(k) == b.with_method_table(n),
{
    if prelude_index(b.prelude, h, 0) is None {
        lemma_prelude_pushed(b.prelude, h, b.with_bump().next_function(), 0);
    }
}

} // verus!
