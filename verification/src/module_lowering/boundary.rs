//! Laws: texts cross the boundary.

use vstd::prelude::*;

use crate::instr::Instr;
use crate::ir::{IrFunction, IrModule};
use crate::layout::{STRING_LEN_OFFSET, STRING_PTR_OFFSET};
use crate::machine::{Code, Machine, Routine, State};
use crate::module::BuilderView;
use crate::module_lowering::cabi::{CabiFieldValue, CabiMaterialisationOps};

verus! {

/// The plan of a text in slots 0 and 1, with its header in local 2.
pub open spec fn text_plan() -> CabiFieldValue {
    CabiFieldValue::MaterialisedScratch {
        scratch: 2,
        ops: Box::new(CabiMaterialisationOps::StringFromSlots { ptr_slot: 0, len_slot: 1 }),
    }
}

/// The function takes one text.
pub open spec fn takes_one_text(f: IrFunction) -> bool {
    &&& f.params@.len() == 1
    &&& f.params@[0].ty matches Some(t) && crate::module_lowering::signature::is_text(t)
}

/// The wrapper of a function that takes one text.
proof fn lemma_text_wrapper(f: IrFunction, inner: u32, alloc: u32, m: IrModule)
    requires
        takes_one_text(f),
        crate::module_lowering::signature::results_of(f) is Ok,
    ensures
        crate::module_lowering::wrappers::wrapper_of(f, inner, alloc, m) matches Ok(x) && x.1
            == crate::module_lowering::wrappers::wrapper_body(
            seq![text_plan()],
            1,
            alloc,
            inner,
        ),
{
    reveal_with_fuel(crate::module_lowering::wrappers::flat_params, 2);
    reveal_with_fuel(crate::module_lowering::wrappers::param_plans, 2);
    let ty = f.params@[0].ty->Some_0;
    let two = seq![crate::instr::ValType::I32, crate::instr::ValType::I32];
    assert(crate::module_lowering::nesting::depth_of(ty) >= 1);
    let depth = crate::module_lowering::nesting::nesting_limit(ty, m) as nat;
    assert(crate::module_lowering::cabi::flat(ty, m, depth)
        == Ok::<_, crate::module_lowering::error::ModuleLowerError>(two));
    assert(Seq::empty() + two =~= two);
    let c = crate::module_lowering::cabi::Cursor { slot: 0, scratch: 0 };
    assert(crate::module_lowering::cabi::value_plan(ty, c, 2, m, depth) == Ok::<
        _,
        crate::module_lowering::error::ModuleLowerError,
    >((text_plan(), crate::module_lowering::cabi::Cursor { slot: 2, scratch: 1 })));
    assert(Seq::empty().push(text_plan()) =~= seq![text_plan()]);
}

/// The structure of that wrapper: make a header, then call the function.
pub open spec fn wrapper_code(alloc: u32, inner: u32) -> Code {
    crate::runtime::header_code(
        alloc,
        2,
        0,
        1,
        Code::op2(Instr::LocalGet(2), Instr::Call(inner), Code::Done),
    )
}

proof fn lemma_wrapper_reads(alloc: u32, inner: u32)
    ensures
        crate::machine::reads_as(
            crate::module_lowering::wrappers::wrapper_body(
                seq![text_plan()],
                1,
                alloc,
                inner,
            ).code,
            wrapper_code(alloc, inner),
        ),
{
    broadcast use crate::machine::group_written;

    reveal_with_fuel(crate::module_lowering::wrappers::build_code, 2);
    reveal_with_fuel(crate::module_lowering::wrappers::push_code, 2);
    reveal_with_fuel(crate::module_lowering::cabi::materialised, 2);
    let plans = seq![text_plan()];
    assert(crate::machine::written(
        wrapper_code(alloc, inner),
        crate::module::nothing(),
    ).emit(Instr::End).code == crate::module_lowering::wrappers::wrapper_body(
        plans,
        1,
        alloc,
        inner,
    ).code);
}

/// The bytes of a text that the host wrote into memory that it asked for.
pub open spec fn host_wrote(m: Machine, ptr: u32, x: Seq<u8>) -> bool {
    &&& ptr + x.len() <= m.heap
    &&& ptr + x.len() <= m.mem.len()
    &&& m.mem.subrange(ptr as int, ptr + x.len()) == x
}

proof fn lemma_wrapper_runs(
    fs: Map<u32, Routine>,
    alloc: u32,
    inner: u32,
    ptr: u32,
    x: Seq<u8>,
    m: Machine,
    fuel: nat,
)
    requires
        crate::runtime::provides_alloc(fs, alloc),
        fs.dom().contains(inner),
        fs[inner].params == 1,
        fuel > 0,
        host_wrote(m, ptr, x),
        crate::runtime::next_address(m.heap) + 8 <= u32::MAX,
        crate::runtime::next_address(m.heap) + 8 <= m.mem.len(),
    ensures
        ({
            let at = crate::runtime::next_address(m.heap) as u32;
            let after = crate::runtime::with_header(m, ptr, x.len() as u32);
            crate::machine::run(
                fs,
                Routine { params: 2, locals: 1, code: wrapper_code(alloc, inner) },
                seq![ptr, x.len() as u32],
                m,
                fuel,
            ) == crate::machine::run(fs, fs[inner], seq![at], after, (fuel - 1) as nat)
        }),
{
    broadcast use crate::machine::group_steps;

    let r = Routine { params: 2, locals: 1, code: wrapper_code(alloc, inner) };
    let args = seq![ptr, x.len() as u32];
    let start = crate::machine::entered(r, args, m);
    assert(start.locals =~= seq![ptr, x.len() as u32, 0]);
    let rest = Code::op2(Instr::LocalGet(2), Instr::Call(inner), Code::Done);
    crate::runtime::lemma_header_code(fs, alloc, 2, 0, 1, rest, start, fuel);
    let at = crate::runtime::next_address(m.heap) as u32;
    let after = crate::runtime::with_header(m, ptr, x.len() as u32);
    let st = State { machine: after, locals: start.locals.update(2, at), stack: start.stack };
    crate::machine::lemma_call(fs, inner, Code::Done, st, at, fuel);
    assert(crate::machine::exec(fs, rest, st, fuel) == crate::machine::exec(
        fs,
        Code::op(Instr::Call(inner), Code::Done),
        st.push(at),
        fuel,
    ));
}

/// Where the host calls an exported function that takes one text with the
/// address and the length of some bytes, the function is called with a header
/// that describes these bytes, and its result is returned. What was in use
/// stays as it was.
pub proof fn law_host_texts_reach_functions(
    f: IrFunction,
    m: IrModule,
    fs: Map<u32, Routine>,
    alloc: u32,
    inner: u32,
    ptr: u32,
    x: Seq<u8>,
    start: Machine,
    fuel: nat,
)
    requires
        takes_one_text(f),
        crate::module_lowering::signature::results_of(f) is Ok,
        crate::runtime::provides_alloc(fs, alloc),
        fs.dom().contains(inner),
        fs[inner].params == 1,
        fuel > 0,
        host_wrote(start, ptr, x),
        crate::runtime::next_address(start.heap) + 8 <= u32::MAX,
        crate::runtime::next_address(start.heap) + 8 <= start.mem.len(),
    ensures
        crate::module_lowering::wrappers::wrapper_of(f, inner, alloc, m) is Ok,
        ({
            let body = (crate::module_lowering::wrappers::wrapper_of(f, inner, alloc, m)->Ok_0).1;
            let at = crate::runtime::next_address(start.heap) as u32;
            exists|entry: Machine|
                {
                    &&& crate::runtime::text_in_use(entry, at, x)
                    &&& #[trigger] crate::runtime::keeps_the_heap(start, entry)
                    &&& crate::machine::run(
                        fs,
                        fs[inner],
                        seq![at],
                        entry,
                        (fuel - 1) as nat,
                    ) matches Some(end) ==> crate::runtime::computes(
                        fs,
                        body,
                        seq![ptr, x.len() as u32],
                        start,
                        fuel,
                        end.0,
                        end.1,
                    )
                }
        }),
{
    lemma_text_wrapper(f, inner, alloc, m);
    lemma_wrapper_reads(alloc, inner);
    lemma_wrapper_runs(fs, alloc, inner, ptr, x, start, fuel);
    reveal_with_fuel(crate::lower::progress::declared, 2);
    crate::runtime::lemma_new_header(start, ptr, x);
    let entry = crate::runtime::with_header(start, ptr, x.len() as u32);
    assert(crate::runtime::keeps_the_heap(start, entry));
}

/// The structure of the trampoline of an import that takes one text: push the
/// address and the length of its bytes, then call the import.
pub open spec fn trampoline_code(raw: u32) -> Code {
    crate::runtime::word_code(
        0,
        STRING_PTR_OFFSET,
        crate::runtime::word_code(
            0,
            STRING_LEN_OFFSET,
            Code::op(Instr::Call(raw), Code::Done),
        ),
    )
}

proof fn lemma_trampoline_reads(f: IrFunction, raw: u32, m: IrModule)
    requires
        takes_one_text(f),
    ensures
        crate::machine::reads_as(
            crate::module_lowering::wrappers::forward_code(
                f.params@,
                0,
                m,
                crate::module::nothing(),
            ).emit(Instr::Call(raw)).emit(Instr::End).code,
            trampoline_code(raw),
        ),
{
    broadcast use crate::machine::group_written;

    reveal_with_fuel(crate::module_lowering::wrappers::forward_code, 2);
    let ty = f.params@[0].ty->Some_0;
    assert(crate::module_lowering::signature::is_two_words(ty, m));
}

/// Where the module calls a host function that takes one text, the host gets
/// the address and the length of the bytes that the text's header describes,
/// and its result is returned.
pub proof fn law_texts_reach_the_host(
    f: IrFunction,
    m: IrModule,
    b: BuilderView,
    expected: u32,
    fs: Map<u32, Routine>,
    raw: u32,
    a: u32,
    x: Seq<u8>,
    start: Machine,
    fuel: nat,
)
    requires
        takes_one_text(f),
        crate::module_lowering::wrappers::with_import_trampoline(f, raw, b, m, expected) is Ok,
        fs.dom().contains(raw),
        fs[raw].params == 2,
        fuel > 0,
        crate::string_pool::header_selects(start.mem, a, x),
    ensures
        ({
            let ptr = crate::string_pool::read_le32(start.mem, a as int);
            let after = (crate::module_lowering::wrappers::with_import_trampoline(
                f,
                raw,
                b,
                m,
                expected,
            )->Ok_0).0;
            &&& start.mem.subrange(ptr, ptr + x.len()) == x
            &&& crate::machine::run(
                fs,
                fs[raw],
                seq![ptr as u32, x.len() as u32],
                start,
                (fuel - 1) as nat,
            ) matches Some(end) ==> crate::runtime::computes(
                fs,
                after.code.last(),
                seq![a],
                start,
                fuel,
                end.0,
                end.1,
            )
        }),
{
    broadcast use crate::machine::group_steps;

    lemma_trampoline_reads(f, raw, m);
    let body = (crate::module_lowering::wrappers::with_import_trampoline(
        f,
        raw,
        b,
        m,
        expected,
    )->Ok_0).0.code.last();
    assert(crate::machine::reads_as(body.code, trampoline_code(raw)));
    assert(crate::lower::progress::declared(body.locals) == 0);
    let ptr = crate::string_pool::read_le32(start.mem, a as int) as u32;
    let len = x.len() as u32;
    let r = Routine { params: 1, locals: 0, code: trampoline_code(raw) };
    let st = crate::machine::entered(r, seq![a], start);
    assert(st.locals =~= seq![a]);
    let call = Code::op(Instr::Call(raw), Code::Done);
    assert(crate::machine::exec(fs, trampoline_code(raw), st, fuel) == crate::machine::exec(
        fs,
        call,
        st.push(ptr).push(len),
        fuel,
    ));
    crate::machine::lemma_call_two(fs, raw, Code::Done, st, ptr, len, fuel);
}

} // verus!
