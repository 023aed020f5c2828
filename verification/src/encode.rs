//! Encoding of a module's sections with the `wasm-encoder` crate.
//!
//! The crate's section encoders are filled item by item. What an encoder
//! holds is named here (`types_in`, `bodies_in`, ...), and so are the bytes
//! that a module of given sections has (`module_bytes`). The encoders count
//! items and measure lengths in 32 bits and panic past that, so everything
//! handed to them is bounded first: [`size_bound`] is an upper bound of the
//! bytes that a module takes.

use vstd::prelude::*;

use wasm_encoder::{
    CodeSection, ConstExpr, DataSection, ElementSection, Elements, EntityType, ExportKind,
    ExportSection, Function, FunctionSection, GlobalSection, GlobalType, Ieee32, Ieee64,
    ImportSection, Instruction, MemArgTarget, MemorySection, MemoryType, Module, NameMap, NameSection, RefType,
    TableSection, TableType, TypeSection,
};

use crate::instr::{BlockType, FloatOp, I32Op, Instr, IntOp, LoadOp, MemArg, StoreOp, ValType};
use crate::ir::List;
use crate::lower::block::{BodyView, FunctionBody};
use crate::module::IMPORT_MODULE_NAME;

verus! {

// ── plain values of a module ─────────────────────────────────────────

/// A function signature.
#[derive(Debug, PartialEq, Eq)]
pub struct FuncSig {
    pub params: Vec<ValType>,
    pub results: Vec<ValType>,
}

/// The content of a [`FuncSig`].
#[verifier::ext_equal]
pub struct SigView {
    pub params: Seq<ValType>,
    pub results: Seq<ValType>,
}

impl View for FuncSig {
    type V = SigView;

    open spec fn view(&self) -> SigView {
        SigView { params: self.params@, results: self.results@ }
    }
}

/// A function import.
#[derive(Debug, PartialEq, Eq)]
pub struct FuncImport {
    pub module: String,
    pub name: String,
    pub type_index: u32,
}

/// The content of a [`FuncImport`].
#[verifier::ext_equal]
pub struct ImportView {
    pub module: Seq<char>,
    pub name: Seq<char>,
    pub type_index: u32,
}

impl View for FuncImport {
    type V = ImportView;

    open spec fn view(&self) -> ImportView {
        ImportView { module: self.module@, name: self.name@, type_index: self.type_index }
    }
}

/// What an export refers to.
#[derive(Clone, Copy, Debug, PartialEq, Eq, Structural)]
pub enum ExportTarget {
    Function,
    Memory,
}

/// An export.
#[derive(Debug, PartialEq, Eq)]
pub struct Export {
    pub name: String,
    pub target: ExportTarget,
    pub index: u32,
}

/// The content of an [`Export`].
#[verifier::ext_equal]
pub struct ExportView {
    pub name: Seq<char>,
    pub target: ExportTarget,
    pub index: u32,
}

impl View for Export {
    type V = ExportView;

    open spec fn view(&self) -> ExportView {
        ExportView { name: self.name@, target: self.target, index: self.index }
    }
}

/// An active segment of function indices.
#[derive(Debug, PartialEq, Eq)]
pub struct TableElements {
    pub table: u32,
    pub offset: i32,
    pub functions: Vec<u32>,
}

/// The content of a [`TableElements`].
#[verifier::ext_equal]
pub struct ElementsView {
    pub table: u32,
    pub offset: i32,
    pub functions: Seq<u32>,
}

impl View for TableElements {
    type V = ElementsView;

    open spec fn view(&self) -> ElementsView {
        ElementsView { table: self.table, offset: self.offset, functions: self.functions@ }
    }
}

/// Smallest and largest size of a table or a memory.
#[derive(Clone, Copy, Debug, PartialEq, Eq)]
pub struct Limits {
    pub minimum: u64,
    pub maximum: Option<u64>,
}

/// An active data segment.
#[verifier::ext_equal]
pub struct DataView {
    pub memory: u32,
    pub offset: i32,
    pub bytes: Seq<u8>,
}

/// The views of a sequence's items.
pub open spec fn views<T: View>(s: Seq<T>) -> Seq<T::V> {
    Seq::new(s.len(), |i: int| s[i]@)
}

/// One more item.
pub proof fn lemma_views_push<T: View>(s: Seq<T>, x: T)
    ensures
        views(s.push(x)) == views(s).push(x@),
{
    assert(views(s.push(x)) =~= views(s).push(x@));
}

/// One section of a module.
pub enum SectionView {
    Types(Seq<SigView>),
    Imports(Seq<ImportView>),
    Functions(Seq<u32>),
    Tables(Seq<Limits>),
    Memories(Seq<Limits>),
    Globals(Seq<(bool, i32)>),
    Exports(Seq<ExportView>),
    Elements(Seq<ElementsView>),
    Code(Seq<BodyView>),
    Data(Seq<DataView>),
    FunctionNames(Seq<(u32, Seq<char>)>),
}

// ── the encoders and what they hold ──────────────────────────────────

/// The crate's `TypeSection`, an encoder.
#[verifier::external_type_specification]
#[verifier::external_body]
pub struct ExTypeSection(wasm_encoder::TypeSection);

/// The signatures that the encoder holds.
pub uninterp spec fn types_in(s: wasm_encoder::TypeSection) -> Seq<SigView>;

/// The crate's `ImportSection`, an encoder.
#[verifier::external_type_specification]
#[verifier::external_body]
pub struct ExImportSection(wasm_encoder::ImportSection);

/// The function imports that the encoder holds.
pub uninterp spec fn imports_in(s: wasm_encoder::ImportSection) -> Seq<ImportView>;

/// The crate's `FunctionSection`, an encoder.
#[verifier::external_type_specification]
#[verifier::external_body]
pub struct ExFunctionSection(wasm_encoder::FunctionSection);

/// The type indices of the functions that the encoder holds.
pub uninterp spec fn functions_in(s: wasm_encoder::FunctionSection) -> Seq<u32>;

/// The crate's `TableSection`, an encoder.
#[verifier::external_type_specification]
#[verifier::external_body]
pub struct ExTableSection(wasm_encoder::TableSection);

/// The limits of the tables, all 32-bit unshared function tables that the encoder holds.
pub uninterp spec fn tables_in(s: wasm_encoder::TableSection) -> Seq<Limits>;

/// The crate's `MemorySection`, an encoder.
#[verifier::external_type_specification]
#[verifier::external_body]
pub struct ExMemorySection(wasm_encoder::MemorySection);

/// The limits of the memories, all 32-bit unshared with the default page size that the encoder holds.
pub uninterp spec fn memories_in(s: wasm_encoder::MemorySection) -> Seq<Limits>;

/// The crate's `GlobalSection`, an encoder.
#[verifier::external_type_specification]
#[verifier::external_body]
pub struct ExGlobalSection(wasm_encoder::GlobalSection);

/// The mutability and initial value of the globals, all unshared `i32` that the encoder holds.
pub uninterp spec fn globals_in(s: wasm_encoder::GlobalSection) -> Seq<(bool, i32)>;

/// The crate's `ExportSection`, an encoder.
#[verifier::external_type_specification]
#[verifier::external_body]
pub struct ExExportSection(wasm_encoder::ExportSection);

/// The exports that the encoder holds.
pub uninterp spec fn exports_in(s: wasm_encoder::ExportSection) -> Seq<ExportView>;

/// The crate's `ElementSection`, an encoder.
#[verifier::external_type_specification]
#[verifier::external_body]
pub struct ExElementSection(wasm_encoder::ElementSection);

/// The active segments of function indices that the encoder holds.
pub uninterp spec fn elements_in(s: wasm_encoder::ElementSection) -> Seq<ElementsView>;

/// The crate's `CodeSection`, an encoder.
#[verifier::external_type_specification]
#[verifier::external_body]
pub struct ExCodeSection(wasm_encoder::CodeSection);

/// The function bodies that the encoder holds.
pub uninterp spec fn bodies_in(s: wasm_encoder::CodeSection) -> Seq<BodyView>;

/// The crate's `DataSection`, an encoder.
#[verifier::external_type_specification]
#[verifier::external_body]
pub struct ExDataSection(wasm_encoder::DataSection);

/// The active data segments that the encoder holds.
pub uninterp spec fn data_in(s: wasm_encoder::DataSection) -> Seq<DataView>;

/// The crate's `NameMap`, an encoder.
#[verifier::external_type_specification]
#[verifier::external_body]
pub struct ExNameMap(wasm_encoder::NameMap);

/// The named indices that the encoder holds.
pub uninterp spec fn name_map_in(s: wasm_encoder::NameMap) -> Seq<(u32, Seq<char>)>;

/// The crate's `NameSection`, an encoder.
#[verifier::external_type_specification]
#[verifier::external_body]
pub struct ExNameSection(wasm_encoder::NameSection);

/// The function names that the encoder holds.
pub uninterp spec fn names_in(s: wasm_encoder::NameSection) -> Seq<(u32, Seq<char>)>;

/// The crate's `Function`, an encoder.
#[verifier::external_type_specification]
#[verifier::external_body]
pub struct ExFunction(wasm_encoder::Function);

/// The declared locals and instructions that the encoder holds.
pub uninterp spec fn body_in(s: wasm_encoder::Function) -> BodyView;

/// The crate's `Module`, an encoder.
#[verifier::external_type_specification]
#[verifier::external_body]
pub struct ExModule(wasm_encoder::Module);

/// The sections that the encoder holds.
pub uninterp spec fn sections_in(s: wasm_encoder::Module) -> Seq<SectionView>;

/// The bytes of a module of the given sections, as the crate's encoders
/// write them.
pub uninterp spec fn module_bytes(sections: Seq<SectionView>) -> Seq<u8>;

/// Magic number and version, the first bytes of every module.
pub open spec fn module_header() -> Seq<u8> {
    seq![0x00u8, 0x61u8, 0x73u8, 0x6Du8, 0x01u8, 0x00u8, 0x00u8, 0x00u8]
}

/// Functions that are imported from the host's module, by names without
/// brackets.
pub open spec fn own_imports(imports: Seq<ImportView>) -> bool {
    forall|i: int|
        0 <= i < imports.len() ==> (#[trigger] imports[i]).module == IMPORT_MODULE_NAME@
            && !imports[i].name.contains('[')
}

/// Names without brackets that begin otherwise than that of the host's module.
pub open spec fn own_exports(exports: Seq<ExportView>) -> bool {
    forall|i: int|
        0 <= i < exports.len() ==> !(#[trigger] exports[i]).name.contains('[')
            && !IMPORT_MODULE_NAME@.is_prefix_of(exports[i].name)
}

/// All imports and exports in a list of sections are of that kind.
pub open spec fn own_sections(sections: Seq<SectionView>) -> bool {
    forall|i: int|
        0 <= i < sections.len() ==> match #[trigger] sections[i] {
            SectionView::Imports(imports) => own_imports(imports),
            SectionView::Exports(exports) => own_exports(exports),
            _ => true,
        }
}

// ── size bounds ──────────────────────────────────────────────────────
//
// A 32-bit number takes at most five bytes, a 64-bit number ten, a
// character four. The bounds below are rounded up from those.

/// The sum of a sequence.
pub open spec fn sum(s: Seq<nat>) -> nat
    decreases s.len(),
{
    if s.len() == 0 {
        0
    } else {
        sum(s.drop_last()) + s.last()
    }
}

/// A prefix sums to no more than the whole.
pub proof fn lemma_sum_of_prefix(s: Seq<nat>, i: int)
    requires
        0 <= i <= s.len(),
    ensures
        sum(s.take(i)) <= sum(s),
    decreases s.len() - i,
{
    if i < s.len() {
        lemma_sum_step(s, i);
        lemma_sum_of_prefix(s, i + 1);
    } else {
        assert(s.take(i) =~= s);
    }
}

/// One more item adds itself.
pub proof fn lemma_sum_step(s: Seq<nat>, i: int)
    requires
        0 <= i < s.len(),
    ensures
        sum(s.take(i + 1)) == sum(s.take(i)) + s[i],
{
    assert(s.take(i + 1).drop_last() =~= s.take(i));
}

/// An item is no more than the sum, and so are the items before it together.
pub proof fn lemma_sum_holds_item(s: Seq<nat>, i: int)
    requires
        0 <= i < s.len(),
    ensures
        sum(s.take(i)) + s[i] <= sum(s),
{
    lemma_sum_step(s, i);
    lemma_sum_of_prefix(s, i + 1);
}

/// Where every item is at least one, the sum is at least the length.
pub proof fn lemma_sum_holds_length(s: Seq<nat>)
    requires
        forall|i: int| 0 <= i < s.len() ==> s[i] >= 1,
    ensures
        sum(s) >= s.len(),
    decreases s.len(),
{
    if s.len() > 0 {
        lemma_sum_holds_length(s.drop_last());
    }
}

/// Bound of a name's bytes.
pub open spec fn name_size(name: Seq<char>) -> nat {
    8 + 4 * name.len()
}

/// Bound of a signature's bytes.
pub open spec fn sig_size(s: SigView) -> nat {
    16 + s.params.len() + s.results.len()
}

/// Bound of an import's bytes.
pub open spec fn import_size(i: ImportView) -> nat {
    8 + name_size(i.module) + name_size(i.name)
}

/// Bound of an export's bytes.
pub open spec fn export_size(e: ExportView) -> nat {
    8 + name_size(e.name)
}

/// Bound of an element segment's bytes.
pub open spec fn segment_size(e: ElementsView) -> nat {
    32 + 8 * e.functions.len()
}

/// Bound of an instruction's bytes.
pub open spec fn instr_size(i: Instr) -> nat {
    match i {
        Instr::BrTable { targets, .. } => 16 + 8 * targets.seq().len(),
        _ => 32,
    }
}

/// Bound of a named index's bytes.
pub open spec fn entry_size(e: (u32, Seq<char>)) -> nat {
    8 + name_size(e.1)
}

pub open spec fn sig_sizes(s: Seq<SigView>) -> Seq<nat> {
    Seq::new(s.len(), |i: int| sig_size(s[i]))
}

pub open spec fn import_sizes(s: Seq<ImportView>) -> Seq<nat> {
    Seq::new(s.len(), |i: int| import_size(s[i]))
}

pub open spec fn export_sizes(s: Seq<ExportView>) -> Seq<nat> {
    Seq::new(s.len(), |i: int| export_size(s[i]))
}

pub open spec fn segment_sizes(s: Seq<ElementsView>) -> Seq<nat> {
    Seq::new(s.len(), |i: int| segment_size(s[i]))
}

pub open spec fn instr_sizes(s: Seq<Instr>) -> Seq<nat> {
    Seq::new(s.len(), |i: int| instr_size(s[i]))
}

/// Bound of a function body's bytes.
pub open spec fn body_size(b: BodyView) -> nat {
    16 + 8 * b.locals.len() + sum(instr_sizes(b.code))
}

pub open spec fn body_sizes(s: Seq<BodyView>) -> Seq<nat> {
    Seq::new(s.len(), |i: int| body_size(s[i]))
}

pub open spec fn entry_sizes(s: Seq<(u32, Seq<char>)>) -> Seq<nat> {
    Seq::new(s.len(), |i: int| entry_size(s[i]))
}

/// The largest number of bytes that the encoders can measure, less room for
/// a section's own framing.
pub const SIZE_LIMIT: u32 = 0xffff_0000;

// ── calls of the crate ───────────────────────────────────────────────

/// `TypeSection::new` gives an encoder that holds nothing.
#[verifier::external_body]
fn new_types() -> (r: TypeSection)
    ensures
        types_in(r) == Seq::<SigView>::empty(),
{
    TypeSection::new()
}

/// `ImportSection::new` gives an encoder that holds nothing.
#[verifier::external_body]
fn new_imports() -> (r: ImportSection)
    ensures
        imports_in(r) == Seq::<ImportView>::empty(),
{
    ImportSection::new()
}

/// `FunctionSection::new` gives an encoder that holds nothing.
#[verifier::external_body]
fn new_functions() -> (r: FunctionSection)
    ensures
        functions_in(r) == Seq::<u32>::empty(),
{
    FunctionSection::new()
}

/// `TableSection::new` gives an encoder that holds nothing.
#[verifier::external_body]
fn new_tables() -> (r: TableSection)
    ensures
        tables_in(r) == Seq::<Limits>::empty(),
{
    TableSection::new()
}

/// `MemorySection::new` gives an encoder that holds nothing.
#[verifier::external_body]
fn new_memories() -> (r: MemorySection)
    ensures
        memories_in(r) == Seq::<Limits>::empty(),
{
    MemorySection::new()
}

/// `GlobalSection::new` gives an encoder that holds nothing.
#[verifier::external_body]
fn new_globals() -> (r: GlobalSection)
    ensures
        globals_in(r) == Seq::<(bool, i32)>::empty(),
{
    GlobalSection::new()
}

/// `ExportSection::new` gives an encoder that holds nothing.
#[verifier::external_body]
fn new_exports() -> (r: ExportSection)
    ensures
        exports_in(r) == Seq::<ExportView>::empty(),
{
    ExportSection::new()
}

/// `ElementSection::new` gives an encoder that holds nothing.
#[verifier::external_body]
fn new_elements() -> (r: ElementSection)
    ensures
        elements_in(r) == Seq::<ElementsView>::empty(),
{
    ElementSection::new()
}

/// `CodeSection::new` gives an encoder that holds nothing.
#[verifier::external_body]
fn new_code() -> (r: CodeSection)
    ensures
        bodies_in(r) == Seq::<BodyView>::empty(),
{
    CodeSection::new()
}

/// `DataSection::new` gives an encoder that holds nothing.
#[verifier::external_body]
fn new_data() -> (r: DataSection)
    ensures
        data_in(r) == Seq::<DataView>::empty(),
{
    DataSection::new()
}

/// `NameMap::new` gives an encoder that holds nothing.
#[verifier::external_body]
fn new_name_map() -> (r: NameMap)
    ensures
        name_map_in(r) == Seq::<(u32, Seq<char>)>::empty(),
{
    NameMap::new()
}

/// `NameSection::new` gives an encoder that holds nothing.
#[verifier::external_body]
fn new_names() -> (r: NameSection)
    ensures
        names_in(r) == Seq::<(u32, Seq<char>)>::empty(),
{
    NameSection::new()
}

/// `Module::new` gives a module without sections.
#[verifier::external_body]
fn new_module() -> (r: Module)
    ensures
        sections_in(r) == Seq::<SectionView>::empty(),
{
    Module::new()
}

/// `Function::new` starts a body with the given runs of locals.
#[verifier::external_body]
fn new_body(locals: &Vec<(u32, ValType)>) -> (r: Function)
    requires
        locals@.len() <= u32::MAX,
    ensures
        body_in(r) == (BodyView { locals: locals@, code: Seq::empty() }),
{
    Function::new(
        locals.iter().map(|l| (l.0, match l.1 {
            ValType::I32 => wasm_encoder::ValType::I32,
            ValType::I64 => wasm_encoder::ValType::I64,
            ValType::F32 => wasm_encoder::ValType::F32,
            ValType::F64 => wasm_encoder::ValType::F64,
        })),
    )
}

/// `TypeSection::ty` with `CoreTypeEncoder::function` appends a signature.
#[verifier::external_body]
fn put_type(s: &mut TypeSection, params: &Vec<ValType>, results: &Vec<ValType>)
    requires
        types_in(*old(s)).len() < u32::MAX,
        params@.len() <= u32::MAX,
        results@.len() <= u32::MAX,
    ensures
        types_in(*final(s)) == types_in(*old(s)).push(
            SigView { params: params@, results: results@ },
        ),
{
    let convert = |v: &ValType| match v {
        ValType::I32 => wasm_encoder::ValType::I32,
        ValType::I64 => wasm_encoder::ValType::I64,
        ValType::F32 => wasm_encoder::ValType::F32,
        ValType::F64 => wasm_encoder::ValType::F64,
    };
    s.ty().function(params.iter().map(convert), results.iter().map(convert));
}

/// `ImportSection::import` appends a function import.
#[verifier::external_body]
fn put_import(s: &mut ImportSection, module: &String, name: &String, type_index: u32)
    requires
        imports_in(*old(s)).len() < u32::MAX,
        name_size(module@) <= u32::MAX,
        name_size(name@) <= u32::MAX,
    ensures
        imports_in(*final(s)) == imports_in(*old(s)).push(
            ImportView { module: module@, name: name@, type_index },
        ),
{
    s.import(module, name, EntityType::Function(type_index));
}

/// `FunctionSection::function` appends a function by its type.
#[verifier::external_body]
fn put_function(s: &mut FunctionSection, type_index: u32)
    requires
        functions_in(*old(s)).len() < u32::MAX,
    ensures
        functions_in(*final(s)) == functions_in(*old(s)).push(type_index),
{
    s.function(type_index);
}

/// `TableSection::table` appends a 32-bit unshared table of functions.
#[verifier::external_body]
fn put_table(s: &mut TableSection, limits: Limits)
    requires
        tables_in(*old(s)).len() < u32::MAX,
    ensures
        tables_in(*final(s)) == tables_in(*old(s)).push(limits),
{
    s.table(
        TableType {
            element_type: RefType::FUNCREF,
            minimum: limits.minimum,
            maximum: limits.maximum,
            table64: false,
            shared: false,
        },
    );
}

/// `MemorySection::memory` appends a 32-bit unshared memory with pages of
/// the default size.
#[verifier::external_body]
fn put_memory(s: &mut MemorySection, limits: Limits)
    requires
        memories_in(*old(s)).len() < u32::MAX,
    ensures
        memories_in(*final(s)) == memories_in(*old(s)).push(limits),
{
    s.memory(
        MemoryType {
            minimum: limits.minimum,
            maximum: limits.maximum,
            memory64: false,
            shared: false,
            page_size_log2: None,
        },
    );
}

/// `GlobalSection::global` appends an unshared `i32` global with a constant
/// initial value.
#[verifier::external_body]
fn put_global(s: &mut GlobalSection, mutable: bool, init: i32)
    requires
        globals_in(*old(s)).len() < u32::MAX,
    ensures
        globals_in(*final(s)) == globals_in(*old(s)).push((mutable, init)),
{
    s.global(
        GlobalType { val_type: wasm_encoder::ValType::I32, mutable, shared: false },
        &ConstExpr::i32_const(init),
    );
}

/// `ExportSection::export` appends an export.
#[verifier::external_body]
fn put_export(s: &mut ExportSection, name: &String, target: ExportTarget, index: u32)
    requires
        exports_in(*old(s)).len() < u32::MAX,
        name_size(name@) <= u32::MAX,
    ensures
        exports_in(*final(s)) == exports_in(*old(s)).push(ExportView { name: name@, target, index }),
{
    let kind = match target {
        ExportTarget::Function => ExportKind::Func,
        ExportTarget::Memory => ExportKind::Memory,
    };
    s.export(name, kind, index);
}

/// `ElementSection::active` appends a segment of function indices that is
/// placed at a constant offset of a table.
#[verifier::external_body]
fn put_elements(s: &mut ElementSection, table: u32, offset: i32, functions: &Vec<u32>)
    requires
        elements_in(*old(s)).len() < u32::MAX,
        functions@.len() <= u32::MAX,
    ensures
        elements_in(*final(s)) == elements_in(*old(s)).push(
            ElementsView { table, offset, functions: functions@ },
        ),
{
    let items = Elements::Functions(std::borrow::Cow::Borrowed(functions));
    s.active(Some(table), &ConstExpr::i32_const(offset), items);
}

/// `CodeSection::function` appends a body.
#[verifier::external_body]
fn put_body(s: &mut CodeSection, body: &Function)
    requires
        bodies_in(*old(s)).len() < u32::MAX,
        body_size(body_in(*body)) <= u32::MAX,
    ensures
        bodies_in(*final(s)) == bodies_in(*old(s)).push(body_in(*body)),
{
    s.function(body);
}

/// `DataSection::active` appends bytes that are placed at a constant offset
/// of a memory.
#[verifier::external_body]
fn put_data(s: &mut DataSection, memory: u32, offset: i32, bytes: &Vec<u8>)
    requires
        data_in(*old(s)).len() < u32::MAX,
        bytes@.len() <= u32::MAX,
    ensures
        data_in(*final(s)) == data_in(*old(s)).push(DataView { memory, offset, bytes: bytes@ }),
{
    s.active(memory, &ConstExpr::i32_const(offset), bytes.iter().copied());
}

/// `NameMap::append` appends a named index.
#[verifier::external_body]
fn put_name(s: &mut NameMap, index: u32, name: &String)
    requires
        name_map_in(*old(s)).len() < u32::MAX,
        name_size(name@) <= u32::MAX,
    ensures
        name_map_in(*final(s)) == name_map_in(*old(s)).push((index, name@)),
{
    s.append(index, name);
}

/// `NameSection::functions`, called once on a fresh section with a map that
/// holds names, makes the function names those of the map.
#[verifier::external_body]
fn put_names(s: &mut NameSection, names: &NameMap)
    requires
        names_in(*old(s)).len() == 0,
        name_map_in(*names).len() > 0,
        sum(entry_sizes(name_map_in(*names))) <= SIZE_LIMIT,
    ensures
        names_in(*final(s)) == name_map_in(*names),
{
    s.functions(names);
}

/// `Module::section` appends the section.
#[verifier::external_body]
fn add_types(m: &mut Module, s: &TypeSection)
    requires
        sum(sig_sizes(types_in(*s))) <= SIZE_LIMIT,
    ensures
        sections_in(*final(m)) == sections_in(*old(m)).push(SectionView::Types(types_in(*s))),
{
    m.section(s);
}

/// `Module::section` appends the section.
#[verifier::external_body]
fn add_imports(m: &mut Module, s: &ImportSection)
    requires
        sum(import_sizes(imports_in(*s))) <= SIZE_LIMIT,
    ensures
        sections_in(*final(m)) == sections_in(*old(m)).push(SectionView::Imports(imports_in(*s))),
{
    m.section(s);
}

/// `Module::section` appends the section.
#[verifier::external_body]
fn add_functions(m: &mut Module, s: &FunctionSection)
    requires
        8 * functions_in(*s).len() <= SIZE_LIMIT,
    ensures
        sections_in(*final(m)) == sections_in(*old(m)).push(SectionView::Functions(functions_in(*s))),
{
    m.section(s);
}

/// `Module::section` appends the section.
#[verifier::external_body]
fn add_tables(m: &mut Module, s: &TableSection)
    requires
        32 * tables_in(*s).len() <= SIZE_LIMIT,
    ensures
        sections_in(*final(m)) == sections_in(*old(m)).push(SectionView::Tables(tables_in(*s))),
{
    m.section(s);
}

/// `Module::section` appends the section.
#[verifier::external_body]
fn add_memories(m: &mut Module, s: &MemorySection)
    requires
        32 * memories_in(*s).len() <= SIZE_LIMIT,
    ensures
        sections_in(*final(m)) == sections_in(*old(m)).push(SectionView::Memories(memories_in(*s))),
{
    m.section(s);
}

/// `Module::section` appends the section.
#[verifier::external_body]
fn add_globals(m: &mut Module, s: &GlobalSection)
    requires
        16 * globals_in(*s).len() <= SIZE_LIMIT,
    ensures
        sections_in(*final(m)) == sections_in(*old(m)).push(SectionView::Globals(globals_in(*s))),
{
    m.section(s);
}

/// `Module::section` appends the section.
#[verifier::external_body]
fn add_exports(m: &mut Module, s: &ExportSection)
    requires
        sum(export_sizes(exports_in(*s))) <= SIZE_LIMIT,
    ensures
        sections_in(*final(m)) == sections_in(*old(m)).push(SectionView::Exports(exports_in(*s))),
{
    m.section(s);
}

/// `Module::section` appends the section.
#[verifier::external_body]
fn add_elements(m: &mut Module, s: &ElementSection)
    requires
        sum(segment_sizes(elements_in(*s))) <= SIZE_LIMIT,
    ensures
        sections_in(*final(m)) == sections_in(*old(m)).push(SectionView::Elements(elements_in(*s))),
{
    m.section(s);
}

/// `Module::section` appends the section.
#[verifier::external_body]
fn add_code(m: &mut Module, s: &CodeSection)
    requires
        sum(body_sizes(bodies_in(*s))) <= SIZE_LIMIT,
    ensures
        sections_in(*final(m)) == sections_in(*old(m)).push(SectionView::Code(bodies_in(*s))),
{
    m.section(s);
}

/// `Module::section` appends the section.
#[verifier::external_body]
fn add_data(m: &mut Module, s: &DataSection)
    requires
        data_in(*s).len() == 1 && 32 + data_in(*s)[0].bytes.len() <= SIZE_LIMIT,
    ensures
        sections_in(*final(m)) == sections_in(*old(m)).push(SectionView::Data(data_in(*s))),
{
    m.section(s);
}

/// `Module::section` appends the section.
#[verifier::external_body]
fn add_names(m: &mut Module, s: &NameSection)
    requires
        names_in(*s).len() > 0,
        sum(entry_sizes(names_in(*s))) <= SIZE_LIMIT,
    ensures
        sections_in(*final(m)) == sections_in(*old(m)).push(SectionView::FunctionNames(names_in(*s))),
{
    m.section(s);
}

/// `Module::finish` gives the bytes, which begin with magic number and
/// version. Behind them the sections stand one after the other, each with its
/// length, and its names as UTF-8: no bracket and no import stands there that
/// does not stand in the sections, and the only custom section is that of the
/// function names.
#[verifier::external_body]
fn finish_module(m: Module) -> (r: Vec<u8>)
    ensures
        r@ == module_bytes(sections_in(m)),
        module_header().is_prefix_of(r@),
        own_sections(sections_in(m)) ==> crate::binary::is_own(r@),
{
    m.finish()
}

// ── instructions ─────────────────────────────────────────────────────

/// A body with one more instruction.
pub open spec fn with_instr(b: BodyView, i: Instr) -> BodyView {
    BodyView { code: b.code.push(i), ..b }
}

/// `Function::instruction` appends `unreachable`.
#[verifier::external_body]
fn put_unreachable(f: &mut Function)
    ensures
        body_in(*final(f)) == with_instr(body_in(*old(f)), Instr::Unreachable),
{
    f.instruction(&Instruction::Unreachable);
}

/// `Function::instruction` appends `else`.
#[verifier::external_body]
fn put_else(f: &mut Function)
    ensures
        body_in(*final(f)) == with_instr(body_in(*old(f)), Instr::Else),
{
    f.instruction(&Instruction::Else);
}

/// `Function::instruction` appends `end`.
#[verifier::external_body]
fn put_end(f: &mut Function)
    ensures
        body_in(*final(f)) == with_instr(body_in(*old(f)), Instr::End),
{
    f.instruction(&Instruction::End);
}

/// `Function::instruction` appends `return`.
#[verifier::external_body]
fn put_return(f: &mut Function)
    ensures
        body_in(*final(f)) == with_instr(body_in(*old(f)), Instr::Return),
{
    f.instruction(&Instruction::Return);
}

/// `Function::instruction` appends `drop`.
#[verifier::external_body]
fn put_drop(f: &mut Function)
    ensures
        body_in(*final(f)) == with_instr(body_in(*old(f)), Instr::Drop),
{
    f.instruction(&Instruction::Drop);
}

/// `Function::instruction` appends a `block`.
#[verifier::external_body]
fn put_block(f: &mut Function, ty: BlockType)
    ensures
        body_in(*final(f)) == with_instr(body_in(*old(f)), Instr::Block(ty)),
{
    let block = match ty {
        BlockType::Empty => wasm_encoder::BlockType::Empty,
        BlockType::Result(ValType::I32) => wasm_encoder::BlockType::Result(wasm_encoder::ValType::I32),
        BlockType::Result(ValType::I64) => wasm_encoder::BlockType::Result(wasm_encoder::ValType::I64),
        BlockType::Result(ValType::F32) => wasm_encoder::BlockType::Result(wasm_encoder::ValType::F32),
        BlockType::Result(ValType::F64) => wasm_encoder::BlockType::Result(wasm_encoder::ValType::F64),
    };
    f.instruction(&Instruction::Block(block));
}

/// `Function::instruction` appends a `loop`.
#[verifier::external_body]
fn put_loop(f: &mut Function, ty: BlockType)
    ensures
        body_in(*final(f)) == with_instr(body_in(*old(f)), Instr::Loop(ty)),
{
    let block = match ty {
        BlockType::Empty => wasm_encoder::BlockType::Empty,
        BlockType::Result(ValType::I32) => wasm_encoder::BlockType::Result(wasm_encoder::ValType::I32),
        BlockType::Result(ValType::I64) => wasm_encoder::BlockType::Result(wasm_encoder::ValType::I64),
        BlockType::Result(ValType::F32) => wasm_encoder::BlockType::Result(wasm_encoder::ValType::F32),
        BlockType::Result(ValType::F64) => wasm_encoder::BlockType::Result(wasm_encoder::ValType::F64),
    };
    f.instruction(&Instruction::Loop(block));
}

/// `Function::instruction` appends a `if`.
#[verifier::external_body]
fn put_if(f: &mut Function, ty: BlockType)
    ensures
        body_in(*final(f)) == with_instr(body_in(*old(f)), Instr::If(ty)),
{
    let block = match ty {
        BlockType::Empty => wasm_encoder::BlockType::Empty,
        BlockType::Result(ValType::I32) => wasm_encoder::BlockType::Result(wasm_encoder::ValType::I32),
        BlockType::Result(ValType::I64) => wasm_encoder::BlockType::Result(wasm_encoder::ValType::I64),
        BlockType::Result(ValType::F32) => wasm_encoder::BlockType::Result(wasm_encoder::ValType::F32),
        BlockType::Result(ValType::F64) => wasm_encoder::BlockType::Result(wasm_encoder::ValType::F64),
    };
    f.instruction(&Instruction::If(block));
}

/// `Function::instruction` appends `br`.
#[verifier::external_body]
fn put_br(f: &mut Function, index: u32)
    ensures
        body_in(*final(f)) == with_instr(body_in(*old(f)), Instr::Br(index)),
{
    f.instruction(&Instruction::Br(index));
}

/// `Function::instruction` appends `br_if`.
#[verifier::external_body]
fn put_br_if(f: &mut Function, index: u32)
    ensures
        body_in(*final(f)) == with_instr(body_in(*old(f)), Instr::BrIf(index)),
{
    f.instruction(&Instruction::BrIf(index));
}

/// `Function::instruction` appends `call`.
#[verifier::external_body]
fn put_call(f: &mut Function, index: u32)
    ensures
        body_in(*final(f)) == with_instr(body_in(*old(f)), Instr::Call(index)),
{
    f.instruction(&Instruction::Call(index));
}

/// `Function::instruction` appends `local.get`.
#[verifier::external_body]
fn put_local_get(f: &mut Function, index: u32)
    ensures
        body_in(*final(f)) == with_instr(body_in(*old(f)), Instr::LocalGet(index)),
{
    f.instruction(&Instruction::LocalGet(index));
}

/// `Function::instruction` appends `local.set`.
#[verifier::external_body]
fn put_local_set(f: &mut Function, index: u32)
    ensures
        body_in(*final(f)) == with_instr(body_in(*old(f)), Instr::LocalSet(index)),
{
    f.instruction(&Instruction::LocalSet(index));
}

/// `Function::instruction` appends `local.tee`.
#[verifier::external_body]
fn put_local_tee(f: &mut Function, index: u32)
    ensures
        body_in(*final(f)) == with_instr(body_in(*old(f)), Instr::LocalTee(index)),
{
    f.instruction(&Instruction::LocalTee(index));
}

/// `Function::instruction` appends `global.get`.
#[verifier::external_body]
fn put_global_get(f: &mut Function, index: u32)
    ensures
        body_in(*final(f)) == with_instr(body_in(*old(f)), Instr::GlobalGet(index)),
{
    f.instruction(&Instruction::GlobalGet(index));
}

/// `Function::instruction` appends `global.set`.
#[verifier::external_body]
fn put_global_set(f: &mut Function, index: u32)
    ensures
        body_in(*final(f)) == with_instr(body_in(*old(f)), Instr::GlobalSet(index)),
{
    f.instruction(&Instruction::GlobalSet(index));
}

/// `Function::instruction` appends `br_table`.
#[verifier::external_body]
fn put_br_table(f: &mut Function, targets: &Vec<u32>, default: u32)
    requires
        targets@.len() <= u32::MAX,
    ensures
        body_in(*final(f)) == with_instr(body_in(*old(f)), Instr::BrTable { targets: List::of_seq(targets@), default }),
{
    f.instruction(&Instruction::BrTable(std::borrow::Cow::Borrowed(targets), default));
}

/// `Function::instruction` appends `call_indirect`.
#[verifier::external_body]
fn put_call_indirect(f: &mut Function, table_index: u32, type_index: u32)
    ensures
        body_in(*final(f)) == with_instr(body_in(*old(f)), Instr::CallIndirect { table_index, type_index }),
{
    f.instruction(&Instruction::CallIndirect { type_index, table_index });
}

/// `Function::instruction` appends `i32.const`.
#[verifier::external_body]
fn put_i32_const(f: &mut Function, value: i32)
    ensures
        body_in(*final(f)) == with_instr(body_in(*old(f)), Instr::I32Const(value)),
{
    f.instruction(&Instruction::I32Const(value));
}

/// `Function::instruction` appends `i64.const`.
#[verifier::external_body]
fn put_i64_const(f: &mut Function, value: i64)
    ensures
        body_in(*final(f)) == with_instr(body_in(*old(f)), Instr::I64Const(value)),
{
    f.instruction(&Instruction::I64Const(value));
}

/// `Function::instruction` appends `f32.const`, given by its bit pattern.
#[verifier::external_body]
fn put_f32_const(f: &mut Function, bits: u32)
    ensures
        body_in(*final(f)) == with_instr(body_in(*old(f)), Instr::F32Const(bits)),
{
    f.instruction(&Instruction::F32Const(Ieee32::new(bits)));
}

/// `Function::instruction` appends `f64.const`, given by its bit pattern.
#[verifier::external_body]
fn put_f64_const(f: &mut Function, bits: u64)
    ensures
        body_in(*final(f)) == with_instr(body_in(*old(f)), Instr::F64Const(bits)),
{
    f.instruction(&Instruction::F64Const(Ieee64::new(bits)));
}

/// `Function::instruction` appends a load.
#[verifier::external_body]
fn put_load(f: &mut Function, op: LoadOp, at: MemArg)
    ensures
        body_in(*final(f)) == with_instr(body_in(*old(f)), Instr::Load(op, at)),
{
    let arg = wasm_encoder::MemArg {
        offset: at.offset,
        align: at.align,
        target: MemArgTarget::Memory(at.memory_index),
        ordering: None,
    };
    f.instruction(&match op {
        LoadOp::I32 => Instruction::I32Load(arg),
        LoadOp::I32Byte => Instruction::I32Load8U(arg),
        LoadOp::I64 => Instruction::I64Load(arg),
        LoadOp::F32 => Instruction::F32Load(arg),
        LoadOp::F64 => Instruction::F64Load(arg),
    });
}

/// `Function::instruction` appends a store.
#[verifier::external_body]
fn put_store(f: &mut Function, op: StoreOp, at: MemArg)
    ensures
        body_in(*final(f)) == with_instr(body_in(*old(f)), Instr::Store(op, at)),
{
    let arg = wasm_encoder::MemArg {
        offset: at.offset,
        align: at.align,
        target: MemArgTarget::Memory(at.memory_index),
        ordering: None,
    };
    f.instruction(&match op {
        StoreOp::I32 => Instruction::I32Store(arg),
        StoreOp::I32Byte => Instruction::I32Store8(arg),
        StoreOp::I64 => Instruction::I64Store(arg),
        StoreOp::F32 => Instruction::F32Store(arg),
        StoreOp::F64 => Instruction::F64Store(arg),
    });
}

/// `Function::instruction` appends `memory.copy`.
#[verifier::external_body]
fn put_memory_copy(f: &mut Function, src_mem: u32, dst_mem: u32)
    ensures
        body_in(*final(f)) == with_instr(body_in(*old(f)), Instr::MemoryCopy { src_mem, dst_mem }),
{
    f.instruction(&Instruction::MemoryCopy { src_mem, dst_mem });
}

/// `Function::instruction` appends an `i32` operation.
#[verifier::external_body]
fn put_i32(f: &mut Function, op: IntOp)
    ensures
        body_in(*final(f)) == with_instr(body_in(*old(f)), Instr::I32(op)),
{
    f.instruction(&match op {
        IntOp::Add => Instruction::I32Add,
        IntOp::Sub => Instruction::I32Sub,
        IntOp::Mul => Instruction::I32Mul,
        IntOp::DivS => Instruction::I32DivS,
        IntOp::RemS => Instruction::I32RemS,
        IntOp::Eq => Instruction::I32Eq,
        IntOp::Ne => Instruction::I32Ne,
        IntOp::LtS => Instruction::I32LtS,
        IntOp::GtS => Instruction::I32GtS,
        IntOp::LeS => Instruction::I32LeS,
        IntOp::GeS => Instruction::I32GeS,
    });
}

/// `Function::instruction` appends an `i32` operation.
#[verifier::external_body]
fn put_i32_bits(f: &mut Function, op: I32Op)
    ensures
        body_in(*final(f)) == with_instr(body_in(*old(f)), Instr::I32Bits(op)),
{
    f.instruction(&match op {
        I32Op::And => Instruction::I32And,
        I32Op::Or => Instruction::I32Or,
        I32Op::Eqz => Instruction::I32Eqz,
        I32Op::GeU => Instruction::I32GeU,
        I32Op::GtU => Instruction::I32GtU,
    });
}

/// `Function::instruction` appends an `i64` operation.
#[verifier::external_body]
fn put_i64(f: &mut Function, op: IntOp)
    ensures
        body_in(*final(f)) == with_instr(body_in(*old(f)), Instr::I64(op)),
{
    f.instruction(&match op {
        IntOp::Add => Instruction::I64Add,
        IntOp::Sub => Instruction::I64Sub,
        IntOp::Mul => Instruction::I64Mul,
        IntOp::DivS => Instruction::I64DivS,
        IntOp::RemS => Instruction::I64RemS,
        IntOp::Eq => Instruction::I64Eq,
        IntOp::Ne => Instruction::I64Ne,
        IntOp::LtS => Instruction::I64LtS,
        IntOp::GtS => Instruction::I64GtS,
        IntOp::LeS => Instruction::I64LeS,
        IntOp::GeS => Instruction::I64GeS,
    });
}

/// `Function::instruction` appends an `f32` operation.
#[verifier::external_body]
fn put_f32(f: &mut Function, op: FloatOp)
    ensures
        body_in(*final(f)) == with_instr(body_in(*old(f)), Instr::F32(op)),
{
    f.instruction(&match op {
        FloatOp::Add => Instruction::F32Add,
        FloatOp::Sub => Instruction::F32Sub,
        FloatOp::Mul => Instruction::F32Mul,
        FloatOp::Div => Instruction::F32Div,
        FloatOp::Eq => Instruction::F32Eq,
        FloatOp::Ne => Instruction::F32Ne,
        FloatOp::Lt => Instruction::F32Lt,
        FloatOp::Gt => Instruction::F32Gt,
        FloatOp::Le => Instruction::F32Le,
        FloatOp::Ge => Instruction::F32Ge,
        FloatOp::Neg => Instruction::F32Neg,
    });
}

/// `Function::instruction` appends an `f64` operation.
#[verifier::external_body]
fn put_f64(f: &mut Function, op: FloatOp)
    ensures
        body_in(*final(f)) == with_instr(body_in(*old(f)), Instr::F64(op)),
{
    f.instruction(&match op {
        FloatOp::Add => Instruction::F64Add,
        FloatOp::Sub => Instruction::F64Sub,
        FloatOp::Mul => Instruction::F64Mul,
        FloatOp::Div => Instruction::F64Div,
        FloatOp::Eq => Instruction::F64Eq,
        FloatOp::Ne => Instruction::F64Ne,
        FloatOp::Lt => Instruction::F64Lt,
        FloatOp::Gt => Instruction::F64Gt,
        FloatOp::Le => Instruction::F64Le,
        FloatOp::Ge => Instruction::F64Ge,
        FloatOp::Neg => Instruction::F64Neg,
    });
}

/// Append one instruction.
fn put_instr(f: &mut Function, i: &Instr)
    requires
        instr_size(*i) <= u32::MAX,
    ensures
        body_in(*final(f)) == with_instr(body_in(*old(f)), *i),
{
    match i {
        Instr::Unreachable => put_unreachable(f),
        Instr::Block(ty) => put_block(f, *ty),
        Instr::Loop(ty) => put_loop(f, *ty),
        Instr::If(ty) => put_if(f, *ty),
        Instr::Else => put_else(f),
        Instr::End => put_end(f),
        Instr::Br(n) => put_br(f, *n),
        Instr::BrIf(n) => put_br_if(f, *n),
        Instr::BrTable { targets, default } => {
            let all = targets.to_vec_u32();
            proof {
                crate::ir::lemma_list_of_its_seq(*targets);
            }
            put_br_table(f, &all, *default)
        },
        Instr::Return => put_return(f),
        Instr::Call(n) => put_call(f, *n),
        Instr::CallIndirect { table_index, type_index } => put_call_indirect(
            f,
            *table_index,
            *type_index,
        ),
        Instr::Drop => put_drop(f),
        Instr::LocalGet(n) => put_local_get(f, *n),
        Instr::LocalSet(n) => put_local_set(f, *n),
        Instr::LocalTee(n) => put_local_tee(f, *n),
        Instr::GlobalGet(n) => put_global_get(f, *n),
        Instr::GlobalSet(n) => put_global_set(f, *n),
        Instr::I32Const(v) => put_i32_const(f, *v),
        Instr::I64Const(v) => put_i64_const(f, *v),
        Instr::F32Const(v) => put_f32_const(f, *v),
        Instr::F64Const(v) => put_f64_const(f, *v),
        Instr::Load(op, at) => put_load(f, *op, *at),
        Instr::Store(op, at) => put_store(f, *op, *at),
        Instr::MemoryCopy { src_mem, dst_mem } => put_memory_copy(f, *src_mem, *dst_mem),
        Instr::I32(op) => put_i32(f, *op),
        Instr::I32Bits(op) => put_i32_bits(f, *op),
        Instr::I64(op) => put_i64(f, *op),
        Instr::F32(op) => put_f32(f, *op),
        Instr::F64(op) => put_f64(f, *op),
    }
}

/// Encode a function body.
fn encode_body(b: &FunctionBody) -> (r: Function)
    requires
        body_size(b@) <= u32::MAX,
    ensures
        body_in(r) == b@,
{
    let mut f = new_body(&b.locals);
    let mut i: usize = 0;
    proof {
        assert(b.code@.take(0) =~= Seq::empty());
    }
    while i < b.code.len()
        invariant
            i <= b.code@.len(),
            body_size(b@) <= u32::MAX,
            body_in(f) == (BodyView { locals: b.locals@, code: b.code@.take(i as int) }),
        decreases b.code@.len() - i,
    {
        proof {
            lemma_sum_holds_item(instr_sizes(b.code@), i as int);
            assert(b.code@.take(i as int).push(b.code@[i as int]) =~= b.code@.take(i + 1));
        }
        put_instr(&mut f, &b.code[i]);
        i = i + 1;
    }
    proof {
        assert(b.code@.take(i as int) =~= b.code@);
    }
    f
}

/// Encode the signatures.
fn type_section(items: &Vec<FuncSig>) -> (r: TypeSection)
    requires
        sum(sig_sizes(views(items@))) <= SIZE_LIMIT,
    ensures
        types_in(r) == views(items@),
{
    let mut s = new_types();
    let mut i: usize = 0;
    proof {
        assert(views(items@).take(0) =~= Seq::empty());
        lemma_sum_holds_length(sig_sizes(views(items@)));
    }
    while i < items.len()
        invariant
            i <= items@.len(),
            items@.len() <= SIZE_LIMIT,
            sum(sig_sizes(views(items@))) <= SIZE_LIMIT,
            types_in(s) == views(items@).take(i as int),
        decreases items@.len() - i,
    {
        proof {
            lemma_sum_holds_item(sig_sizes(views(items@)), i as int);
            assert(views(items@).take(i as int).push(items@[i as int]@) =~= views(items@).take(i + 1));
        }
        put_type(&mut s, &items[i].params, &items[i].results);
        i = i + 1;
    }
    proof {
        assert(views(items@).take(i as int) =~= views(items@));
    }
    s
}

/// Encode the imports.
fn import_section(items: &Vec<FuncImport>) -> (r: ImportSection)
    requires
        sum(import_sizes(views(items@))) <= SIZE_LIMIT,
    ensures
        imports_in(r) == views(items@),
{
    let mut s = new_imports();
    let mut i: usize = 0;
    proof {
        assert(views(items@).take(0) =~= Seq::empty());
        lemma_sum_holds_length(import_sizes(views(items@)));
    }
    while i < items.len()
        invariant
            i <= items@.len(),
            items@.len() <= SIZE_LIMIT,
            sum(import_sizes(views(items@))) <= SIZE_LIMIT,
            imports_in(s) == views(items@).take(i as int),
        decreases items@.len() - i,
    {
        proof {
            lemma_sum_holds_item(import_sizes(views(items@)), i as int);
            assert(views(items@).take(i as int).push(items@[i as int]@) =~= views(items@).take(i + 1));
        }
        put_import(&mut s, &items[i].module, &items[i].name, items[i].type_index);
        i = i + 1;
    }
    proof {
        assert(views(items@).take(i as int) =~= views(items@));
    }
    s
}

/// Encode the exports.
fn export_section(items: &Vec<Export>) -> (r: ExportSection)
    requires
        sum(export_sizes(views(items@))) <= SIZE_LIMIT,
    ensures
        exports_in(r) == views(items@),
{
    let mut s = new_exports();
    let mut i: usize = 0;
    proof {
        assert(views(items@).take(0) =~= Seq::empty());
        lemma_sum_holds_length(export_sizes(views(items@)));
    }
    while i < items.len()
        invariant
            i <= items@.len(),
            items@.len() <= SIZE_LIMIT,
            sum(export_sizes(views(items@))) <= SIZE_LIMIT,
            exports_in(s) == views(items@).take(i as int),
        decreases items@.len() - i,
    {
        proof {
            lemma_sum_holds_item(export_sizes(views(items@)), i as int);
            assert(views(items@).take(i as int).push(items@[i as int]@) =~= views(items@).take(i + 1));
        }
        put_export(&mut s, &items[i].name, items[i].target, items[i].index);
        i = i + 1;
    }
    proof {
        assert(views(items@).take(i as int) =~= views(items@));
    }
    s
}

/// Encode the element segments.
fn element_section(items: &Vec<TableElements>) -> (r: ElementSection)
    requires
        sum(segment_sizes(views(items@))) <= SIZE_LIMIT,
    ensures
        elements_in(r) == views(items@),
{
    let mut s = new_elements();
    let mut i: usize = 0;
    proof {
        assert(views(items@).take(0) =~= Seq::empty());
        lemma_sum_holds_length(segment_sizes(views(items@)));
    }
    while i < items.len()
        invariant
            i <= items@.len(),
            items@.len() <= SIZE_LIMIT,
            sum(segment_sizes(views(items@))) <= SIZE_LIMIT,
            elements_in(s) == views(items@).take(i as int),
        decreases items@.len() - i,
    {
        proof {
            lemma_sum_holds_item(segment_sizes(views(items@)), i as int);
            assert(views(items@).take(i as int).push(items@[i as int]@) =~= views(items@).take(i + 1));
        }
        put_elements(&mut s, items[i].table, items[i].offset, &items[i].functions);
        i = i + 1;
    }
    proof {
        assert(views(items@).take(i as int) =~= views(items@));
    }
    s
}

/// Encode the function bodies.
fn code_section(items: &Vec<FunctionBody>) -> (r: CodeSection)
    requires
        sum(body_sizes(views(items@))) <= SIZE_LIMIT,
    ensures
        bodies_in(r) == views(items@),
{
    let mut s = new_code();
    let mut i: usize = 0;
    proof {
        assert(views(items@).take(0) =~= Seq::empty());
        lemma_sum_holds_length(body_sizes(views(items@)));
    }
    while i < items.len()
        invariant
            i <= items@.len(),
            items@.len() <= SIZE_LIMIT,
            sum(body_sizes(views(items@))) <= SIZE_LIMIT,
            bodies_in(s) == views(items@).take(i as int),
        decreases items@.len() - i,
    {
        proof {
            lemma_sum_holds_item(body_sizes(views(items@)), i as int);
            assert(views(items@).take(i as int).push(items@[i as int]@) =~= views(items@).take(i + 1));
        }
        let body = encode_body(&items[i]);
        put_body(&mut s, &body);
        i = i + 1;
    }
    proof {
        assert(views(items@).take(i as int) =~= views(items@));
    }
    s
}

/// Encode the functions' types.
fn function_section(items: &Vec<u32>) -> (r: FunctionSection)
    requires
        8 * items@.len() <= SIZE_LIMIT,
    ensures
        functions_in(r) == items@,
{
    let mut s = new_functions();
    let mut i: usize = 0;
    proof {
        assert(items@.take(0) =~= Seq::empty());
    }
    while i < items.len()
        invariant
            i <= items@.len(),
            items@.len() <= SIZE_LIMIT,
            functions_in(s) == items@.take(i as int),
        decreases items@.len() - i,
    {
        proof {
            assert(items@.take(i as int).push(items@[i as int]) =~= items@.take(i + 1));
        }
        put_function(&mut s, items[i]);
        i = i + 1;
    }
    proof {
        assert(items@.take(i as int) =~= items@);
    }
    s
}

/// Encode the tables.
fn table_section(items: &Vec<Limits>) -> (r: TableSection)
    requires
        32 * items@.len() <= SIZE_LIMIT,
    ensures
        tables_in(r) == items@,
{
    let mut s = new_tables();
    let mut i: usize = 0;
    proof {
        assert(items@.take(0) =~= Seq::empty());
    }
    while i < items.len()
        invariant
            i <= items@.len(),
            items@.len() <= SIZE_LIMIT,
            tables_in(s) == items@.take(i as int),
        decreases items@.len() - i,
    {
        proof {
            assert(items@.take(i as int).push(items@[i as int]) =~= items@.take(i + 1));
        }
        put_table(&mut s, items[i]);
        i = i + 1;
    }
    proof {
        assert(items@.take(i as int) =~= items@);
    }
    s
}

// ── measuring ────────────────────────────────────────────────────────

/// A bound that the encoders can measure.
pub open spec fn capped(n: nat) -> Option<u64> {
    if n <= SIZE_LIMIT {
        Some(n as u64)
    } else {
        None
    }
}

/// Add two bounds.
fn plus(a: Option<u64>, b: Option<u64>) -> (r: Option<u64>)
    requires
        a matches Some(x) ==> x <= SIZE_LIMIT,
        b matches Some(y) ==> y <= SIZE_LIMIT,
    ensures
        match (a, b) {
            (Some(x), Some(y)) => r == capped((x + y) as nat),
            _ => r is None,
        },
{
    match (a, b) {
        (Some(x), Some(y)) => if x + y <= SIZE_LIMIT as u64 {
            Some(x + y)
        } else {
            None
        },
        _ => None,
    }
}

/// The bound of `base` bytes and `count` items of `each` bytes.
fn scaled(base: u64, each: u64, count: usize) -> (r: Option<u64>)
    requires
        base <= 64,
        1 <= each <= 64,
    ensures
        r == capped((base + each * count) as nat),
{
    if count > SIZE_LIMIT as usize {
        proof {
            assert(each * count >= count) by (nonlinear_arith)
                requires
                    each >= 1,
            ;
        }
        return None;
    }
    proof {
        assert(each * count <= 64 * SIZE_LIMIT) by (nonlinear_arith)
            requires
                each <= 64,
                count <= SIZE_LIMIT,
        ;
    }
    let n: u64 = base + each * count as u64;
    if n <= SIZE_LIMIT as u64 {
        Some(n)
    } else {
        None
    }
}

fn measure_sig(s: &FuncSig) -> (r: Option<u64>)
    ensures
        r == capped(sig_size(s@)),
{
    plus(scaled(16, 1, s.params.len()), scaled(0, 1, s.results.len()))
}

fn measure_import(i: &FuncImport) -> (r: Option<u64>)
    ensures
        r == capped(import_size(i@)),
{
    plus(
        scaled(16, 4, i.module.as_str().unicode_len()),
        scaled(8, 4, i.name.as_str().unicode_len()),
    )
}

fn measure_export(e: &Export) -> (r: Option<u64>)
    ensures
        r == capped(export_size(e@)),
{
    scaled(16, 4, e.name.as_str().unicode_len())
}

fn measure_segment(e: &TableElements) -> (r: Option<u64>)
    ensures
        r == capped(segment_size(e@)),
{
    scaled(32, 8, e.functions.len())
}

fn measure_instr(i: &Instr) -> (r: Option<u64>)
    ensures
        r == capped(instr_size(*i)),
{
    match i {
        Instr::BrTable { targets, .. } => {
            let all = targets.to_vec_u32();
            scaled(16, 8, all.len())
        },
        _ => Some(32),
    }
}

fn measure_code(items: &Vec<Instr>) -> (r: Option<u64>)
    ensures
        r == capped(sum(instr_sizes(items@))),
{
    let mut acc: u64 = 0;
    let mut i: usize = 0;
    let ghost sizes = instr_sizes(items@);
    proof {
        assert(sizes.take(0) =~= Seq::empty());
    }
    while i < items.len()
        invariant
            i <= items@.len(),
            sizes == instr_sizes(items@),
            acc == sum(sizes.take(i as int)),
            acc <= SIZE_LIMIT,
        decreases items@.len() - i,
    {
        proof {
            lemma_sum_step(sizes, i as int);
            lemma_sum_holds_item(sizes, i as int);
        }
        match measure_instr(&items[i]) {
            None => return None,
            Some(n) => {
                acc = acc + n;
                if acc > SIZE_LIMIT as u64 {
                    return None;
                }
            },
        }
        i = i + 1;
    }
    proof {
        assert(sizes.take(i as int) =~= sizes);
    }
    Some(acc)
}

fn measure_body(b: &FunctionBody) -> (r: Option<u64>)
    ensures
        r == capped(body_size(b@)),
{
    plus(scaled(16, 8, b.locals.len()), measure_code(&b.code))
}

/// Measure the list: its bound, if the encoders can measure it.
fn measure_types(items: &Vec<FuncSig>) -> (r: Option<u64>)
    ensures
        r == capped(sum(sig_sizes(views(items@)))),
{
    let mut acc: u64 = 0;
    let mut i: usize = 0;
    let ghost sizes = sig_sizes(views(items@));
    proof {
        assert(sizes.take(0) =~= Seq::empty());
    }
    while i < items.len()
        invariant
            i <= items@.len(),
            sizes == sig_sizes(views(items@)),
            acc == sum(sizes.take(i as int)),
            acc <= SIZE_LIMIT,
        decreases items@.len() - i,
    {
        proof {
            lemma_sum_step(sizes, i as int);
            lemma_sum_holds_item(sizes, i as int);
        }
        let item = &items[i];
        match measure_sig(item) {
            None => return None,
            Some(n) => {
                acc = acc + n;
                if acc > SIZE_LIMIT as u64 {
                    return None;
                }
            },
        }
        i = i + 1;
    }
    proof {
        assert(sizes.take(i as int) =~= sizes);
    }
    Some(acc)
}

/// Measure the list: its bound, if the encoders can measure it.
fn measure_imports(items: &Vec<FuncImport>) -> (r: Option<u64>)
    ensures
        r == capped(sum(import_sizes(views(items@)))),
{
    let mut acc: u64 = 0;
    let mut i: usize = 0;
    let ghost sizes = import_sizes(views(items@));
    proof {
        assert(sizes.take(0) =~= Seq::empty());
    }
    while i < items.len()
        invariant
            i <= items@.len(),
            sizes == import_sizes(views(items@)),
            acc == sum(sizes.take(i as int)),
            acc <= SIZE_LIMIT,
        decreases items@.len() - i,
    {
        proof {
            lemma_sum_step(sizes, i as int);
            lemma_sum_holds_item(sizes, i as int);
        }
        let item = &items[i];
        match measure_import(item) {
            None => return None,
            Some(n) => {
                acc = acc + n;
                if acc > SIZE_LIMIT as u64 {
                    return None;
                }
            },
        }
        i = i + 1;
    }
    proof {
        assert(sizes.take(i as int) =~= sizes);
    }
    Some(acc)
}

/// Measure the list: its bound, if the encoders can measure it.
fn measure_exports(items: &Vec<Export>) -> (r: Option<u64>)
    ensures
        r == capped(sum(export_sizes(views(items@)))),
{
    let mut acc: u64 = 0;
    let mut i: usize = 0;
    let ghost sizes = export_sizes(views(items@));
    proof {
        assert(sizes.take(0) =~= Seq::empty());
    }
    while i < items.len()
        invariant
            i <= items@.len(),
            sizes == export_sizes(views(items@)),
            acc == sum(sizes.take(i as int)),
            acc <= SIZE_LIMIT,
        decreases items@.len() - i,
    {
        proof {
            lemma_sum_step(sizes, i as int);
            lemma_sum_holds_item(sizes, i as int);
        }
        let item = &items[i];
        match measure_export(item) {
            None => return None,
            Some(n) => {
                acc = acc + n;
                if acc > SIZE_LIMIT as u64 {
                    return None;
                }
            },
        }
        i = i + 1;
    }
    proof {
        assert(sizes.take(i as int) =~= sizes);
    }
    Some(acc)
}

/// Measure the list: its bound, if the encoders can measure it.
fn measure_elements(items: &Vec<TableElements>) -> (r: Option<u64>)
    ensures
        r == capped(sum(segment_sizes(views(items@)))),
{
    let mut acc: u64 = 0;
    let mut i: usize = 0;
    let ghost sizes = segment_sizes(views(items@));
    proof {
        assert(sizes.take(0) =~= Seq::empty());
    }
    while i < items.len()
        invariant
            i <= items@.len(),
            sizes == segment_sizes(views(items@)),
            acc == sum(sizes.take(i as int)),
            acc <= SIZE_LIMIT,
        decreases items@.len() - i,
    {
        proof {
            lemma_sum_step(sizes, i as int);
            lemma_sum_holds_item(sizes, i as int);
        }
        let item = &items[i];
        match measure_segment(item) {
            None => return None,
            Some(n) => {
                acc = acc + n;
                if acc > SIZE_LIMIT as u64 {
                    return None;
                }
            },
        }
        i = i + 1;
    }
    proof {
        assert(sizes.take(i as int) =~= sizes);
    }
    Some(acc)
}

/// Measure the list: its bound, if the encoders can measure it.
fn measure_bodies(items: &Vec<FunctionBody>) -> (r: Option<u64>)
    ensures
        r == capped(sum(body_sizes(views(items@)))),
{
    let mut acc: u64 = 0;
    let mut i: usize = 0;
    let ghost sizes = body_sizes(views(items@));
    proof {
        assert(sizes.take(0) =~= Seq::empty());
    }
    while i < items.len()
        invariant
            i <= items@.len(),
            sizes == body_sizes(views(items@)),
            acc == sum(sizes.take(i as int)),
            acc <= SIZE_LIMIT,
        decreases items@.len() - i,
    {
        proof {
            lemma_sum_step(sizes, i as int);
            lemma_sum_holds_item(sizes, i as int);
        }
        let item = &items[i];
        match measure_body(item) {
            None => return None,
            Some(n) => {
                acc = acc + n;
                if acc > SIZE_LIMIT as u64 {
                    return None;
                }
            },
        }
        i = i + 1;
    }
    proof {
        assert(sizes.take(i as int) =~= sizes);
    }
    Some(acc)
}

// ── names ────────────────────────────────────────────────────────────

/// The views of optional names.
pub open spec fn name_views(names: Seq<Option<String>>) -> Seq<Option<Seq<char>>> {
    Seq::new(
        names.len(),
        |i: int|
            match names[i] {
                Some(name) => Some(name@),
                None => None,
            },
    )
}

/// The named ones among the first `k` functions.
pub open spec fn named(names: Seq<Option<Seq<char>>>, k: nat) -> Seq<(u32, Seq<char>)>
    decreases k,
{
    if k == 0 {
        Seq::empty()
    } else {
        match names[k - 1] {
            Some(name) => named(names, (k - 1) as nat).push(
                (crate::survey::index_u32(k - 1), name),
            ),
            None => named(names, (k - 1) as nat),
        }
    }
}

/// All named functions.
pub open spec fn all_named(names: Seq<Option<Seq<char>>>) -> Seq<(u32, Seq<char>)> {
    named(names, names.len())
}

/// Naming one more function adds its entry.
proof fn lemma_named_sizes(names: Seq<Option<Seq<char>>>, k: nat, n: nat)
    requires
        k <= n <= names.len(),
    ensures
        sum(entry_sizes(named(names, k))) <= sum(entry_sizes(named(names, n))),
        named(names, k).len() <= k,
        named(names, k).len() <= sum(entry_sizes(named(names, k))),
        k < n && names[k as int] is Some ==> sum(entry_sizes(named(names, k))) + entry_size(
            (crate::survey::index_u32(k as int), names[k as int]->0),
        ) == sum(entry_sizes(named(names, k + 1))),
    decreases n, k,
{
    lemma_sum_holds_length(entry_sizes(named(names, k)));
    if k > 0 {
        lemma_named_sizes(names, (k - 1) as nat, (k - 1) as nat);
    }
    if k < n {
        let all = named(names, n);
        lemma_named_sizes(names, k, (n - 1) as nat);
        if names[n - 1] is Some {
            assert(entry_sizes(all).drop_last() =~= entry_sizes(named(names, (n - 1) as nat)));
        }
        let next = named(names, k + 1);
        if names[k as int] is Some {
            assert(entry_sizes(next).drop_last() =~= entry_sizes(named(names, k)));
        }
    }
}

/// Measure the named functions.
fn measure_names(names: &Vec<Option<String>>) -> (r: Option<u64>)
    ensures
        r == capped(sum(entry_sizes(all_named(name_views(names@))))),
{
    let ghost views = name_views(names@);
    let mut acc: u64 = 0;
    let mut i: usize = 0;
    while i < names.len()
        invariant
            i <= names@.len(),
            views == name_views(names@),
            acc == sum(entry_sizes(named(views, i as nat))),
            acc <= SIZE_LIMIT,
        decreases names@.len() - i,
    {
        proof {
            lemma_named_sizes(views, i as nat, names@.len());
            lemma_named_sizes(views, (i + 1) as nat, names@.len());
        }
        match &names[i] {
            None => {},
            Some(name) => match scaled(16, 4, name.as_str().unicode_len()) {
                None => return None,
                Some(n) => {
                    acc = acc + n;
                    if acc > SIZE_LIMIT as u64 {
                        return None;
                    }
                },
            },
        }
        i = i + 1;
    }
    Some(acc)
}

/// Collect the named functions.
fn name_map(names: &Vec<Option<String>>) -> (r: NameMap)
    requires
        sum(entry_sizes(all_named(name_views(names@)))) <= SIZE_LIMIT,
    ensures
        name_map_in(r) == all_named(name_views(names@)),
{
    let ghost views = name_views(names@);
    let mut s = new_name_map();
    let mut i: usize = 0;
    while i < names.len()
        invariant
            i <= names@.len(),
            views == name_views(names@),
            sum(entry_sizes(all_named(views))) <= SIZE_LIMIT,
            name_map_in(s) == named(views, i as nat),
        decreases names@.len() - i,
    {
        proof {
            lemma_named_sizes(views, i as nat, names@.len());
            lemma_named_sizes(views, (i + 1) as nat, names@.len());
        }
        match &names[i] {
            None => {},
            Some(name) => {
                let index: u32 = if i > 0xffff_ffff {
                    0xffff_ffff
                } else {
                    i as u32
                };
                put_name(&mut s, index, name);
            },
        }
        i = i + 1;
    }
    s
}

/// Whether a function has a name.
fn any_named(names: &Vec<Option<String>>) -> (r: bool)
    ensures
        r == (all_named(name_views(names@)).len() > 0),
{
    let ghost views = name_views(names@);
    let mut i: usize = 0;
    while i < names.len()
        invariant
            i <= names@.len(),
            views == name_views(names@),
            named(views, i as nat).len() == 0,
        decreases names@.len() - i,
    {
        if let Some(_) = &names[i] {
            proof {
                lemma_named_grows(views, (i + 1) as nat, names@.len());
            }
            return true;
        }
        i = i + 1;
    }
    false
}

proof fn lemma_named_grows(names: Seq<Option<Seq<char>>>, k: nat, n: nat)
    requires
        k <= n <= names.len(),
    ensures
        named(names, k).len() <= named(names, n).len(),
    decreases n,
{
    if k < n {
        lemma_named_grows(names, k, (n - 1) as nat);
    }
}

// ── modules ──────────────────────────────────────────────────────────

/// Everything that a module's bytes depend on.
#[verifier::ext_equal]
pub struct Parts {
    pub types: Seq<SigView>,
    pub imports: Seq<ImportView>,
    pub functions: Seq<u32>,
    pub tables: Seq<Limits>,
    pub memory: Limits,
    pub heap_base: i32,
    pub exports: Seq<ExportView>,
    pub elements: Seq<ElementsView>,
    pub code: Seq<BodyView>,
    pub static_data: Seq<u8>,
    pub function_names: Seq<Option<Seq<char>>>,
}

/// Append a section unless it is empty.
pub open spec fn unless_empty(s: Seq<SectionView>, is_empty: bool, section: SectionView) -> Seq<
    SectionView,
> {
    if is_empty {
        s
    } else {
        s.push(section)
    }
}

/// The sections of a module, in the order that the format prescribes. There
/// is always a memory and a global; other sections are left out where they
/// would be empty. Static data goes to the start of the memory. The names
/// come last.
pub open spec fn sections(p: Parts) -> Seq<SectionView> {
    let s = Seq::<SectionView>::empty();
    let s = unless_empty(s, p.types.len() == 0, SectionView::Types(p.types));
    let s = unless_empty(s, p.imports.len() == 0, SectionView::Imports(p.imports));
    let s = unless_empty(s, p.functions.len() == 0, SectionView::Functions(p.functions));
    let s = unless_empty(s, p.tables.len() == 0, SectionView::Tables(p.tables));
    let s = s.push(SectionView::Memories(seq![p.memory]));
    let s = s.push(SectionView::Globals(seq![(true, p.heap_base)]));
    let s = unless_empty(s, p.exports.len() == 0, SectionView::Exports(p.exports));
    let s = unless_empty(s, p.elements.len() == 0, SectionView::Elements(p.elements));
    let s = unless_empty(s, p.code.len() == 0, SectionView::Code(p.code));
    let s = unless_empty(
        s,
        p.static_data.len() == 0,
        SectionView::Data(seq![DataView { memory: 0, offset: 0, bytes: p.static_data }]),
    );
    unless_empty(
        s,
        all_named(p.function_names).len() == 0,
        SectionView::FunctionNames(all_named(p.function_names)),
    )
}

/// Sections are of this library's kind where imports and exports are.
proof fn lemma_own_sections(p: Parts)
    requires
        own_imports(p.imports),
        own_exports(p.exports),
    ensures
        own_sections(sections(p)),
{
}

/// Bound of the bytes of all parts together.
pub open spec fn total_size(
    types: Seq<SigView>,
    imports: Seq<ImportView>,
    functions: Seq<u32>,
    tables: Seq<Limits>,
    exports: Seq<ExportView>,
    elements: Seq<ElementsView>,
    code: Seq<BodyView>,
    static_data: Seq<u8>,
    function_names: Seq<Option<Seq<char>>>,
) -> nat {
    sum(sig_sizes(types)) + sum(import_sizes(imports)) + 8 * functions.len() + 32 * tables.len()
        + sum(export_sizes(exports)) + sum(segment_sizes(elements)) + sum(body_sizes(code)) + (64
        + static_data.len()) + sum(entry_sizes(all_named(function_names)))
}

/// Bound of a module's bytes.
pub open spec fn size_bound(p: Parts) -> nat {
    total_size(
        p.types,
        p.imports,
        p.functions,
        p.tables,
        p.exports,
        p.elements,
        p.code,
        p.static_data,
        p.function_names,
    )
}

/// Whether the encoders can measure every part of the module.
pub open spec fn fits(p: Parts) -> bool {
    size_bound(p) <= SIZE_LIMIT
}

/// Decide [`fits`].
pub(crate) fn parts_fit(
    types: &Vec<FuncSig>,
    imports: &Vec<FuncImport>,
    functions: &Vec<u32>,
    tables: &Vec<Limits>,
    exports: &Vec<Export>,
    elements: &Vec<TableElements>,
    code: &Vec<FunctionBody>,
    static_data: &Vec<u8>,
    function_names: &Vec<Option<String>>,
) -> (r: bool)
    ensures
        r == (total_size(
            views(types@),
            views(imports@),
            functions@,
            tables@,
            views(exports@),
            views(elements@),
            views(code@),
            static_data@,
            name_views(function_names@),
        ) <= SIZE_LIMIT),
{
    let a = plus(measure_types(types), measure_imports(imports));
    let b = plus(a, scaled(0, 8, functions.len()));
    let c = plus(b, scaled(0, 32, tables.len()));
    let d = plus(c, measure_exports(exports));
    let e = plus(d, measure_elements(elements));
    let f = plus(e, measure_bodies(code));
    let g = plus(f, scaled(64, 1, static_data.len()));
    let h = plus(g, measure_names(function_names));
    h.is_some()
}

/// Encode a module.
pub(crate) fn encode_module(
    types: &Vec<FuncSig>,
    imports: &Vec<FuncImport>,
    functions: &Vec<u32>,
    tables: &Vec<Limits>,
    memory: Limits,
    heap_base: i32,
    exports: &Vec<Export>,
    elements: &Vec<TableElements>,
    code: &Vec<FunctionBody>,
    static_data: &Vec<u8>,
    function_names: &Vec<Option<String>>,
) -> (r: Vec<u8>)
    requires
        fits(
            (Parts {
            types: views(types@),
            imports: views(imports@),
            functions: functions@,
            tables: tables@,
            memory,
            heap_base,
            exports: views(exports@),
            elements: views(elements@),
            code: views(code@),
            static_data: static_data@,
            function_names: name_views(function_names@),
        }),
        ),
    ensures
        r@ == module_bytes(
            sections(
                (Parts {
            types: views(types@),
            imports: views(imports@),
            functions: functions@,
            tables: tables@,
            memory,
            heap_base,
            exports: views(exports@),
            elements: views(elements@),
            code: views(code@),
            static_data: static_data@,
            function_names: name_views(function_names@),
        }),
            ),
        ),
        module_header().is_prefix_of(r@),
        own_imports(views(imports@)) && own_exports(views(exports@)) ==> crate::binary::is_own(r@),
{
    let mut m = new_module();
    if types.len() > 0 {
        let s = type_section(types);
        add_types(&mut m, &s);
    }
    if imports.len() > 0 {
        let s = import_section(imports);
        add_imports(&mut m, &s);
    }
    if functions.len() > 0 {
        let s = function_section(functions);
        add_functions(&mut m, &s);
    }
    if tables.len() > 0 {
        let s = table_section(tables);
        add_tables(&mut m, &s);
    }
    let mut memories = new_memories();
    put_memory(&mut memories, memory);
    proof {
        assert(memories_in(memories) =~= seq![memory]);
    }
    add_memories(&mut m, &memories);
    let mut globals = new_globals();
    put_global(&mut globals, true, heap_base);
    proof {
        assert(globals_in(globals) =~= seq![(true, heap_base)]);
    }
    add_globals(&mut m, &globals);
    if exports.len() > 0 {
        let s = export_section(exports);
        add_exports(&mut m, &s);
    }
    if elements.len() > 0 {
        let s = element_section(elements);
        add_elements(&mut m, &s);
    }
    if code.len() > 0 {
        let s = code_section(code);
        add_code(&mut m, &s);
    }
    if static_data.len() > 0 {
        let mut s = new_data();
        put_data(&mut s, 0, 0, static_data);
        proof {
            assert(data_in(s) =~= seq![DataView { memory: 0, offset: 0, bytes: static_data@ }]);
        }
        add_data(&mut m, &s);
    }
    if any_named(function_names) {
        let map = name_map(function_names);
        let mut s = new_names();
        put_names(&mut s, &map);
        add_names(&mut m, &s);
    }
    proof {
        if own_imports(views(imports@)) && own_exports(views(exports@)) {
            lemma_own_sections(
                Parts {
                    types: views(types@),
                    imports: views(imports@),
                    functions: functions@,
                    tables: tables@,
                    memory,
                    heap_base,
                    exports: views(exports@),
                    elements: views(elements@),
                    code: views(code@),
                    static_data: static_data@,
                    function_names: name_views(function_names@),
                },
            );
        }
    }
    finish_module(m)
}

} // verus!
