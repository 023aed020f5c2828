//! What the runtime helpers of a core module compute.

use vstd::prelude::*;

use crate::instr::{I32Op, Instr, IntOp, LoadOp, MemArg, StoreOp};
use crate::ir::IrModule;
use crate::layout::{OPTIONAL_TAG_SOME, STRING_HEADER_SIZE, STRING_LEN_OFFSET, STRING_PTR_OFFSET};
use crate::lower::block::BodyView;
use crate::machine::{Code, Machine, Outcome, Routine, State};
use crate::module::{
    PreludeHelper, BUMP_ALIGN_KEEP_MASK, BUMP_ALIGN_ROUND_UP_ADDEND, BUMP_ALLOCATOR_ALIGN,
    HEAP_PTR_GLOBAL_INDEX, INITIAL_MEMORY_PAGES, MEMORY_INDEX,
};

verus! {

/// A function body that is called with `args` where the memory and the heap
/// pointer are `m` returns `v` and leaves `after` behind.
pub open spec fn computes(
    fs: Map<u32, Routine>,
    body: BodyView,
    args: Seq<u32>,
    m: Machine,
    fuel: nat,
    v: u32,
    after: Machine,
) -> bool {
    exists|c: Code| #[trigger]
        crate::machine::reads_as(body.code, c) && crate::machine::run(
            fs,
            Routine {
                params: args.len(),
                locals: crate::lower::progress::declared(body.locals) as nat,
                code: c,
            },
            args,
            m,
            fuel,
        ) == Some((v, after))
}

// ── allocation ───────────────────────────────────────────────────────

/// The structure of the allocation helper.
pub open spec fn alloc_code() -> Code {
    Code::op3(
        Instr::GlobalGet(HEAP_PTR_GLOBAL_INDEX),
        Instr::I32Const(BUMP_ALIGN_ROUND_UP_ADDEND),
        Instr::I32(IntOp::Add),
        Code::op3(
            Instr::I32Const(BUMP_ALIGN_KEEP_MASK),
            Instr::I32Bits(I32Op::And),
            Instr::LocalTee(1),
            Code::op4(
                Instr::LocalGet(0),
                Instr::I32(IntOp::Add),
                Instr::GlobalSet(HEAP_PTR_GLOBAL_INDEX),
                Instr::LocalGet(1),
                Code::Done,
            ),
        ),
    )
}

/// The allocation helper as a routine.
pub open spec fn alloc_routine() -> Routine {
    Routine { params: 1, locals: 1, code: alloc_code() }
}

/// The address of the next allocation: the heap pointer, rounded up.
pub open spec fn next_address(heap: u32) -> int {
    crate::layout::round_up(heap as int, BUMP_ALLOCATOR_ALIGN as int)
}

proof fn lemma_mask(x: u32)
    ensures
        x & 0xffff_fff8 == x - x % 8,
{
    assert(x & 0xffff_fff8 == x - x % 8) by (bit_vector);
}

proof fn lemma_alloc(fs: Map<u32, Routine>, size: u32, m: Machine, fuel: nat)
    requires
        next_address(m.heap) + size <= u32::MAX,
    ensures
        crate::machine::run(fs, alloc_routine(), seq![size], m, fuel) == Some(
            (
                next_address(m.heap) as u32,
                Machine { heap: (next_address(m.heap) + size) as u32, ..m },
            ),
        ),
{
    broadcast use crate::machine::group_steps;

    lemma_mask((m.heap + 7) as u32);
    crate::layout::lemma_round_up(m.heap as int, 8);
    let start = crate::machine::entered(alloc_routine(), seq![size], m);
    assert(start.locals =~= seq![size, 0u32]);
    let end = crate::machine::exec(fs, alloc_code(), start, fuel);
    assert(end is Next);
}

proof fn lemma_alloc_reads()
    ensures
        crate::machine::reads_as(crate::module::bump_body().code, alloc_code()),
{
    broadcast use crate::machine::group_written;

    assert(crate::machine::written(alloc_code(), crate::module::nothing()).emit(Instr::End).code
        == crate::module::bump_body().code);
}

/// The allocation helper returns the heap pointer, rounded up to the
/// alignment of allocations, and advances the heap pointer past the
/// allocation. It leaves the memory alone.
pub proof fn law_allocations_are_aligned_and_fresh(
    fs: Map<u32, Routine>,
    size: u32,
    m: Machine,
    fuel: nat,
)
    requires
        next_address(m.heap) + size <= u32::MAX,
    ensures
        computes(
            fs,
            crate::module::bump_body(),
            seq![size],
            m,
            fuel,
            next_address(m.heap) as u32,
            Machine { heap: (next_address(m.heap) + size) as u32, ..m },
        ),
        next_address(m.heap) % BUMP_ALLOCATOR_ALIGN as int == 0,
        m.heap <= next_address(m.heap) < m.heap + BUMP_ALLOCATOR_ALIGN,
{
    lemma_alloc(fs, size, m, fuel);
    lemma_alloc_reads();
    crate::layout::lemma_round_up(m.heap as int, 8);
    reveal_with_fuel(crate::lower::progress::declared, 2);
}

// ── pieces of code ───────────────────────────────────────────────────

/// Push the word at `offset` behind the pointer in a local.
pub open spec fn word_code(local: u32, offset: u32, rest: Code) -> Code {
    Code::op2(
        Instr::LocalGet(local),
        Instr::Load(LoadOp::I32, crate::module::word_at(offset)),
        rest,
    )
}

/// Push the byte at the sum of two locals.
pub open spec fn byte_code(base: u32, index: u32, rest: Code) -> Code {
    Code::op4(
        Instr::LocalGet(base),
        Instr::LocalGet(index),
        Instr::I32(IntOp::Add),
        Instr::Load(
            LoadOp::I32Byte,
            MemArg { offset: 0, align: 0, memory_index: MEMORY_INDEX },
        ),
        rest,
    )
}

/// Return a constant if the value on the stack is not zero.
pub open spec fn return_code(value: i32, rest: Code) -> Code {
    Code::when(Code::op2(Instr::I32Const(value), Instr::Return, Code::Done), rest)
}

/// Add one to a local.
pub open spec fn step_code(local: u32, rest: Code) -> Code {
    Code::op4(
        Instr::LocalGet(local),
        Instr::I32Const(1),
        Instr::I32(IntOp::Add),
        Instr::LocalSet(local),
        rest,
    )
}

/// Set a local to zero.
pub open spec fn clear_code(local: u32, rest: Code) -> Code {
    Code::op2(Instr::I32Const(0), Instr::LocalSet(local), rest)
}

/// Replace the string header pointers in locals 0 and 1 by their byte
/// pointers.
pub open spec fn bytes_code(rest: Code) -> Code {
    word_code(
        0,
        STRING_PTR_OFFSET,
        Code::op(
            Instr::LocalSet(0),
            word_code(1, STRING_PTR_OFFSET, Code::op(Instr::LocalSet(1), rest)),
        ),
    )
}

// ── comparison ───────────────────────────────────────────────────────

/// One round of the comparison of bytes.
pub open spec fn compare_round() -> Code {
    Code::op4(
        Instr::LocalGet(3),
        Instr::LocalGet(2),
        Instr::I32Bits(I32Op::GeU),
        Instr::BrIf(1),
        byte_code(
            0,
            3,
            byte_code(
                1,
                3,
                Code::op(
                    Instr::I32(IntOp::Ne),
                    return_code(0, step_code(3, Code::op(Instr::Br(0), Code::Done))),
                ),
            ),
        ),
    )
}

/// The comparison of bytes.
pub open spec fn compare_code() -> Code {
    Code::block(
        Code::repeat(compare_round(), Code::Done),
        Code::op(Instr::I32Const(1), Code::Done),
    )
}

/// The state of a comparison: locals 0 and 1 point at the bytes, local 2 is
/// their number.
pub open spec fn comparing(st: State) -> bool {
    &&& st.locals.len() == 4
    &&& st.locals[0] + st.locals[2] <= st.machine.mem.len()
    &&& st.locals[1] + st.locals[2] <= st.machine.mem.len()
    &&& st.machine.is_addressable()
}

/// The bytes from `k` on are the same.
pub open spec fn same_from(st: State, k: int) -> bool {
    forall|j: int|
        k <= j < st.locals[2] ==> #[trigger] st.machine.mem[st.locals[0] + j]
            == st.machine.mem[st.locals[1] + j]
}

/// One round: the end of the bytes, a difference, or the next byte.
proof fn lemma_compare_round(fs: Map<u32, Routine>, st: State, fuel: nat)
    requires
        comparing(st),
        st.locals[3] <= st.locals[2],
    ensures
        crate::machine::exec(fs, compare_round(), st, fuel) == if st.locals[3] >= st.locals[2] {
            Outcome::Branch(1, st)
        } else if st.machine.mem[st.locals[0] + st.locals[3]] != st.machine.mem[st.locals[1]
            + st.locals[3]] {
            Outcome::Return(st.push(0))
        } else {
            Outcome::Branch(0, st.with_local(3, (st.locals[3] + 1) as u32))
        },
{
    broadcast use crate::machine::group_steps;

    let k = st.locals[3];
    let round = crate::machine::exec(fs, compare_round(), st, fuel);
    if k >= st.locals[2] {
        assert(round is Branch);
    } else if st.machine.mem[st.locals[0] + k] != st.machine.mem[st.locals[1] + k] {
        assert(round is Return);
    } else {
        assert(round is Branch);
    }
}

proof fn lemma_compare_rounds(fs: Map<u32, Routine>, st: State, fuel: nat)
    requires
        comparing(st),
        st.locals[3] <= st.locals[2] <= fuel + st.locals[3],
    ensures
        match crate::machine::exec(
            fs,
            Code::repeat(compare_round(), Code::Done),
            st,
            fuel,
        ) {
            Outcome::Branch(n, s) => n == 0 && s.machine == st.machine && same_from(
                st,
                st.locals[3] as int,
            ),
            Outcome::Return(s) => s.machine == st.machine && s.pop() is Some && (s.pop()->0).0 == 0
                && !same_from(st, st.locals[3] as int),
            _ => false,
        },
    decreases st.locals[2] - st.locals[3],
{
    crate::machine::lemma_repeat(fs, compare_round(), Code::Done, st, fuel);
    lemma_compare_round(fs, st, fuel);
    let k = st.locals[3];
    if k < st.locals[2] && st.machine.mem[st.locals[0] + k] == st.machine.mem[st.locals[1] + k] {
        let next = st.with_local(3, (k + 1) as u32);
        lemma_compare_rounds(fs, next, (fuel - 1) as nat);
        assert(same_from(next, k + 1) ==> same_from(st, k as int));
        assert(same_from(st, k as int) ==> same_from(next, k + 1));
    }
}

proof fn lemma_compare(fs: Map<u32, Routine>, st: State, fuel: nat)
    requires
        comparing(st),
        st.locals[3] == 0,
        st.locals[2] <= fuel,
    ensures
        crate::machine::result_of(crate::machine::exec(fs, compare_code(), st, fuel)) == Some(
            (crate::machine::flag(same_from(st, 0)), st.machine),
        ),
{
    broadcast use crate::machine::group_steps;

    lemma_compare_rounds(fs, st, fuel);
    crate::machine::lemma_block(
        fs,
        Code::repeat(compare_round(), Code::Done),
        Code::op(Instr::I32Const(1), Code::Done),
        st,
        fuel,
    );
}

proof fn lemma_word_is_small(mem: Seq<u8>, at: int)
    ensures
        0 <= crate::string_pool::read_le32(mem, at) <= u32::MAX,
{
}

/// The bytes that a comparison sees are those of two texts.
proof fn lemma_same_texts(st: State, x: Seq<u8>, y: Seq<u8>)
    requires
        comparing(st),
        st.machine.mem.subrange(st.locals[0] as int, st.locals[0] + st.locals[2]) == x,
        st.machine.mem.subrange(st.locals[1] as int, st.locals[1] + st.locals[2]) == y,
    ensures
        same_from(st, 0) == (x == y),
{
    if same_from(st, 0) {
        assert forall|j: int| 0 <= j < x.len() implies x[j] == y[j] by {
            assert(st.machine.mem[st.locals[0] + j] == st.machine.mem[st.locals[1] + j]);
        }
        assert(x =~= y);
    }
    if x == y {
        assert forall|j: int| 0 <= j < st.locals[2] implies #[trigger] st.machine.mem[st.locals[0]
            + j] == st.machine.mem[st.locals[1] + j] by {
            assert(x[j] == y[j]);
        }
    }
}

/// The structure of the equality helper.
pub open spec fn str_eq_code() -> Code {
    word_code(
        0,
        STRING_LEN_OFFSET,
        Code::op(
            Instr::LocalTee(2),
            word_code(
                1,
                STRING_LEN_OFFSET,
                Code::op(
                    Instr::I32(IntOp::Ne),
                    return_code(0, clear_code(3, bytes_code(compare_code()))),
                ),
            ),
        ),
    )
}

proof fn lemma_str_eq_reads()
    ensures
        crate::machine::reads_as(crate::module::str_eq_body().code, str_eq_code()),
{
    broadcast use crate::machine::group_written;

    assert(crate::machine::written(str_eq_code(), crate::module::nothing()).emit(Instr::End).code
        == crate::module::str_eq_body().code);
}

/// The equality helper returns 1 where two texts have the same bytes, and 0
/// otherwise. It leaves the memory and the heap alone.
pub proof fn law_str_eq_compares_texts(
    fs: Map<u32, Routine>,
    a: u32,
    x: Seq<u8>,
    b: u32,
    y: Seq<u8>,
    m: Machine,
    fuel: nat,
)
    requires
        m.is_addressable(),
        crate::string_pool::header_selects(m.mem, a, x),
        crate::string_pool::header_selects(m.mem, b, y),
        x.len() <= fuel,
    ensures
        computes(
            fs,
            crate::module::str_eq_body(),
            seq![a, b],
            m,
            fuel,
            crate::machine::flag(x == y),
            m,
        ),
{
    broadcast use crate::machine::group_steps;

    lemma_str_eq_reads();
    reveal_with_fuel(crate::lower::progress::declared, 2);
    lemma_word_is_small(m.mem, a as int);
    lemma_word_is_small(m.mem, b as int);
    lemma_word_is_small(m.mem, a + 4);
    lemma_word_is_small(m.mem, b + 4);
    let r = Routine { params: 2, locals: 2, code: str_eq_code() };
    let start = crate::machine::entered(r, seq![a, b], m);
    assert(start.locals =~= seq![a, b, 0, 0]);
    let p = crate::string_pool::read_le32(m.mem, a as int) as u32;
    let q = crate::string_pool::read_le32(m.mem, b as int) as u32;
    if x.len() == y.len() {
        let st = State { locals: seq![p, q, x.len() as u32, 0], ..start };
        assert(start.with_local(2, x.len() as u32).with_local(3, 0).with_local(0, p).with_local(
            1,
            q,
        ).locals =~= st.locals);
        lemma_compare(fs, st, fuel);
        lemma_same_texts(st, x, y);
        assert(crate::machine::exec(fs, str_eq_code(), start, fuel) == crate::machine::exec(
            fs,
            compare_code(),
            st,
            fuel,
        ));
    } else {
        assert(crate::machine::exec(fs, str_eq_code(), start, fuel) is Return);
    }
    assert(crate::machine::run(fs, r, seq![a, b], m, fuel) == Some(
        (crate::machine::flag(x == y), m),
    ));
}

/// Return 0 if the second string is longer than the first; its length stays
/// in local 2.
pub open spec fn reject_code(rest: Code) -> Code {
    word_code(
        1,
        STRING_LEN_OFFSET,
        Code::op(
            Instr::LocalTee(2),
            word_code(
                0,
                STRING_LEN_OFFSET,
                Code::op(Instr::I32Bits(I32Op::GtU), return_code(0, rest)),
            ),
        ),
    )
}

/// The structure of the prefix test.
pub open spec fn starts_with_code() -> Code {
    reject_code(clear_code(3, bytes_code(compare_code())))
}

proof fn lemma_starts_with_reads(alloc: u32)
    ensures
        crate::machine::reads_as(
            crate::module::prelude_body(PreludeHelper::StrStartsWith, alloc).code,
            starts_with_code(),
        ),
{
    broadcast use crate::machine::group_written;

    assert(crate::machine::written(starts_with_code(), crate::module::nothing()).emit(
        Instr::End,
    ).code == crate::module::prelude_body(PreludeHelper::StrStartsWith, alloc).code);
}

/// The prefix test returns 1 where the first text begins with the second, and
/// 0 otherwise. It leaves the memory and the heap alone.
pub proof fn law_starts_with_finds_prefixes(
    fs: Map<u32, Routine>,
    alloc: u32,
    a: u32,
    x: Seq<u8>,
    b: u32,
    y: Seq<u8>,
    m: Machine,
    fuel: nat,
)
    requires
        m.is_addressable(),
        crate::string_pool::header_selects(m.mem, a, x),
        crate::string_pool::header_selects(m.mem, b, y),
        y.len() <= fuel,
    ensures
        computes(
            fs,
            crate::module::prelude_body(PreludeHelper::StrStartsWith, alloc),
            seq![a, b],
            m,
            fuel,
            crate::machine::flag(y.is_prefix_of(x)),
            m,
        ),
{
    broadcast use crate::machine::group_steps;

    lemma_starts_with_reads(alloc);
    reveal_with_fuel(crate::lower::progress::declared, 2);
    lemma_word_is_small(m.mem, a as int);
    lemma_word_is_small(m.mem, b as int);
    lemma_word_is_small(m.mem, a + 4);
    lemma_word_is_small(m.mem, b + 4);
    let r = Routine { params: 2, locals: 2, code: starts_with_code() };
    let start = crate::machine::entered(r, seq![a, b], m);
    assert(start.locals =~= seq![a, b, 0, 0]);
    let p = crate::string_pool::read_le32(m.mem, a as int) as u32;
    let q = crate::string_pool::read_le32(m.mem, b as int) as u32;
    if y.len() <= x.len() {
        let st = State { locals: seq![p, q, y.len() as u32, 0], ..start };
        assert(start.with_local(2, y.len() as u32).with_local(3, 0).with_local(0, p).with_local(
            1,
            q,
        ).locals =~= st.locals);
        lemma_compare(fs, st, fuel);
        let front = x.subrange(0, y.len() as int);
        assert(m.mem.subrange(p as int, p + y.len()) =~= front);
        lemma_same_texts(st, front, y);
        assert(crate::machine::exec(fs, starts_with_code(), start, fuel) == crate::machine::exec(
            fs,
            compare_code(),
            st,
            fuel,
        ));
    } else {
        assert(crate::machine::exec(fs, starts_with_code(), start, fuel) is Return);
    }
    assert(crate::machine::run(fs, r, seq![a, b], m, fuel) == Some(
        (crate::machine::flag(y.is_prefix_of(x)), m),
    ));
}

// ── substrings ───────────────────────────────────────────────────────

/// The comparison of one byte at the start in local 4.
pub open spec fn inner_test() -> Code {
    Code::op4(
        Instr::LocalGet(0),
        Instr::LocalGet(4),
        Instr::I32(IntOp::Add),
        Instr::LocalSet(6),
        byte_code(
            6,
            5,
            byte_code(
                1,
                5,
                Code::op2(
                    Instr::I32(IntOp::Ne),
                    Instr::BrIf(1),
                    step_code(5, Code::op(Instr::Br(0), Code::Done)),
                ),
            ),
        ),
    )
}

/// One round of the comparison at that start.
pub open spec fn inner_round() -> Code {
    Code::op3(
        Instr::LocalGet(5),
        Instr::LocalGet(2),
        Instr::I32Bits(I32Op::GeU),
        return_code(1, inner_test()),
    )
}

/// One start: the comparison, then the next start.
pub open spec fn outer_round() -> Code {
    Code::op4(
        Instr::LocalGet(4),
        Instr::LocalGet(3),
        Instr::I32Bits(I32Op::GtU),
        Instr::BrIf(1),
        clear_code(
            5,
            Code::block(
                Code::repeat(inner_round(), Code::Done),
                step_code(4, Code::op(Instr::Br(0), Code::Done)),
            ),
        ),
    )
}

/// All starts.
pub open spec fn search_code() -> Code {
    Code::block(
        Code::repeat(outer_round(), Code::Done),
        Code::op(Instr::I32Const(0), Code::Done),
    )
}

/// The structure of the substring test.
pub open spec fn contains_code() -> Code {
    reject_code(
        word_code(
            0,
            STRING_LEN_OFFSET,
            Code::op3(
                Instr::LocalGet(2),
                Instr::I32(IntOp::Sub),
                Instr::LocalSet(3),
                bytes_code(clear_code(4, search_code())),
            ),
        ),
    )
}

proof fn lemma_contains_reads()
    ensures
        crate::machine::reads_as(crate::module::contains_body().code, contains_code()),
{
    broadcast use crate::machine::group_written;

    assert(crate::machine::written(contains_code(), crate::module::nothing()).emit(
        Instr::End,
    ).code == crate::module::contains_body().code);
}

/// The state of a search: local 0 points at the first text, local 1 at the
/// second, local 2 is the length of the second, local 3 the last start.
pub open spec fn searching(st: State) -> bool {
    &&& st.locals.len() == 7
    &&& st.locals[0] + st.locals[3] + st.locals[2] <= st.machine.mem.len()
    &&& st.locals[1] + st.locals[2] <= st.machine.mem.len()
    &&& st.machine.is_addressable()
}

/// From byte `k` on, the second text stands at start `at` of the first.
pub open spec fn stands_at(st: State, at: int, k: int) -> bool {
    forall|j: int|
        k <= j < st.locals[2] ==> #[trigger] st.machine.mem[st.locals[1] + j]
            == st.machine.mem[st.locals[0] + at + j]
}

/// Two states of one search at one start.
pub open spec fn same_search(s: State, t: State) -> bool {
    &&& s.machine == t.machine
    &&& s.locals.len() == t.locals.len()
    &&& forall|i: int| 0 <= i < 5 ==> #[trigger] s.locals[i] == t.locals[i]
}

/// One byte more that is the same.
proof fn lemma_stands_step(s: State, t: State, at: int, k: int)
    requires
        s.machine == t.machine,
        s.locals[0] == t.locals[0],
        s.locals[1] == t.locals[1],
        s.locals[2] == t.locals[2],
        s.machine.mem[s.locals[1] + k] == s.machine.mem[s.locals[0] + at + k],
    ensures
        stands_at(t, at, k + 1) == stands_at(s, at, k),
{
    if stands_at(t, at, k + 1) {
        assert forall|j: int| k <= j < s.locals[2] implies #[trigger] s.machine.mem[s.locals[1]
            + j] == s.machine.mem[s.locals[0] + at + j] by {
            if j > k {
                assert(t.machine.mem[t.locals[1] + j] == t.machine.mem[t.locals[0] + at + j]);
            }
        }
    }
    if stands_at(s, at, k) {
        assert forall|j: int| k + 1 <= j < t.locals[2] implies #[trigger] t.machine.mem[t.locals[1]
            + j] == t.machine.mem[t.locals[0] + at + j] by {
            assert(s.machine.mem[s.locals[1] + j] == s.machine.mem[s.locals[0] + at + j]);
        }
    }
}

proof fn lemma_inner_test(fs: Map<u32, Routine>, st: State, fuel: nat)
    requires
        searching(st),
        st.locals[4] <= st.locals[3],
        st.locals[5] < st.locals[2],
    ensures
        ({
            let k = st.locals[5];
            let from = (st.locals[0] + st.locals[4]) as u32;
            let there = st.with_local(6, from);
            crate::machine::exec(fs, inner_test(), st, fuel) == if st.machine.mem[st.locals[1] + k]
                != st.machine.mem[from + k] {
                Outcome::Branch(1, there)
            } else {
                Outcome::Branch(0, there.with_local(5, (k + 1) as u32))
            }
        }),
{
    broadcast use crate::machine::group_steps;

    let from = (st.locals[0] + st.locals[4]) as u32;
    let there = st.with_local(6, from);
    assert(there.locals[5] == st.locals[5] && there.locals[1] == st.locals[1]);
}

proof fn lemma_inner_round(fs: Map<u32, Routine>, st: State, fuel: nat)
    requires
        searching(st),
    ensures
        crate::machine::exec(fs, inner_round(), st, fuel) == if st.locals[5] >= st.locals[2] {
            Outcome::Return(st.push(1))
        } else {
            crate::machine::exec(fs, inner_test(), st, fuel)
        },
{
    broadcast use crate::machine::group_steps;

}

proof fn lemma_inner_rounds(fs: Map<u32, Routine>, st: State, fuel: nat)
    requires
        searching(st),
        st.locals[4] <= st.locals[3],
        st.locals[5] <= st.locals[2] <= fuel + st.locals[5],
    ensures
        match crate::machine::exec(fs, Code::repeat(inner_round(), Code::Done), st, fuel) {
            Outcome::Branch(n, s) => n == 0 && same_search(s, st) && !stands_at(
                st,
                st.locals[4] as int,
                st.locals[5] as int,
            ),
            Outcome::Return(s) => s.machine == st.machine && s.pop() is Some && (s.pop()->0).0 == 1
                && stands_at(st, st.locals[4] as int, st.locals[5] as int),
            _ => false,
        },
    decreases st.locals[2] - st.locals[5],
{
    crate::machine::lemma_repeat(fs, inner_round(), Code::Done, st, fuel);
    lemma_inner_round(fs, st, fuel);
    let k = st.locals[5];
    let at = st.locals[4] as int;
    if k < st.locals[2] {
        lemma_inner_test(fs, st, fuel);
        if st.machine.mem[st.locals[1] + k] != st.machine.mem[st.locals[0] + at + k] {
            assert(!stands_at(st, at, k as int));
        } else {
            let next = st.with_local(6, (st.locals[0] + at) as u32).with_local(5, (k + 1) as u32);
            lemma_inner_rounds(fs, next, (fuel - 1) as nat);
            lemma_stands_step(st, next, at, k as int);
        }
    }
}

/// The second text stands at one of the starts from `k` on.
pub open spec fn stands_behind(st: State, k: int) -> bool {
    exists|at: int| k <= at <= st.locals[3] && #[trigger] stands_at(st, at, 0)
}

proof fn lemma_outer_rounds(fs: Map<u32, Routine>, st: State, fuel: nat)
    requires
        searching(st),
        st.locals[4] <= st.locals[3] + 1,
        st.locals[3] < u32::MAX || st.locals[2] == 0,
        st.locals[3] + 1 - st.locals[4] + st.locals[2] <= fuel,
    ensures
        match crate::machine::exec(fs, Code::repeat(outer_round(), Code::Done), st, fuel) {
            Outcome::Branch(n, s) => n == 0 && s.machine == st.machine && !stands_behind(
                st,
                st.locals[4] as int,
            ),
            Outcome::Return(s) => s.machine == st.machine && s.pop() is Some && (s.pop()->0).0 == 1
                && stands_behind(st, st.locals[4] as int),
            _ => false,
        },
    decreases st.locals[3] + 1 - st.locals[4],
{
    broadcast use crate::machine::group_steps;

    crate::machine::lemma_repeat(fs, outer_round(), Code::Done, st, fuel);
    let at = st.locals[4];
    let round = crate::machine::exec(fs, outer_round(), st, fuel);
    if at > st.locals[3] {
        assert(round is Branch);
    } else {
        let begun = st.with_local(5, 0);
        let next_code = step_code(4, Code::op(Instr::Br(0), Code::Done));
        let inner = crate::machine::exec(
            fs,
            Code::repeat(inner_round(), Code::Done),
            begun,
            fuel,
        );
        lemma_inner_rounds(fs, begun, fuel);
        crate::machine::lemma_block(
            fs,
            Code::repeat(inner_round(), Code::Done),
            next_code,
            begun,
            fuel,
        );
        assert(stands_at(begun, at as int, 0) == stands_at(st, at as int, 0));
        if let Outcome::Branch(_, s) = inner {
            let left = State { stack: begun.stack, ..s };
            let next = left.with_local(4, (at + 1) as u32);
            assert(round == Outcome::Branch(0, next));
            lemma_outer_rounds(fs, next, (fuel - 1) as nat);
            lemma_same_starts(st, next, at + 1);
        }
    }
}

/// What a search finds does not depend on where it is.
proof fn lemma_same_starts(s: State, t: State, k: int)
    requires
        s.machine == t.machine,
        forall|i: int| 0 <= i < 4 ==> #[trigger] s.locals[i] == t.locals[i],
    ensures
        stands_behind(s, k) == stands_behind(t, k),
{
    assert forall|at: int| #[trigger] stands_at(s, at, 0) == stands_at(t, at, 0) by {
        assert(s.locals[0] == t.locals[0] && s.locals[1] == t.locals[1] && s.locals[2]
            == t.locals[2]);
    }
    assert(s.locals[3] == t.locals[3]);
    if stands_behind(s, k) {
        let at = choose|at: int| k <= at <= s.locals[3] && #[trigger] stands_at(s, at, 0);
        assert(stands_at(t, at, 0));
    }
    if stands_behind(t, k) {
        let at = choose|at: int| k <= at <= t.locals[3] && #[trigger] stands_at(t, at, 0);
        assert(stands_at(s, at, 0));
    }
}

/// A text occurs in another one.
pub open spec fn occurs(y: Seq<u8>, x: Seq<u8>) -> bool {
    exists|at: int|
        0 <= at && at + y.len() <= x.len() && #[trigger] x.subrange(at, at + y.len()) == y
}

proof fn lemma_search(fs: Map<u32, Routine>, st: State, x: Seq<u8>, y: Seq<u8>, fuel: nat)
    requires
        searching(st),
        st.locals[4] == 0,
        x.len() <= u32::MAX,
        y.len() == st.locals[2],
        x.len() == st.locals[3] + st.locals[2],
        st.machine.mem.subrange(st.locals[0] as int, st.locals[0] + x.len()) == x,
        st.machine.mem.subrange(st.locals[1] as int, st.locals[1] + y.len()) == y,
        x.len() < fuel,
    ensures
        crate::machine::result_of(crate::machine::exec(fs, search_code(), st, fuel)) == Some(
            (crate::machine::flag(occurs(y, x)), st.machine),
        ),
{
    broadcast use crate::machine::group_steps;

    lemma_outer_rounds(fs, st, fuel);
    crate::machine::lemma_block(
        fs,
        Code::repeat(outer_round(), Code::Done),
        Code::op(Instr::I32Const(0), Code::Done),
        st,
        fuel,
    );
    if stands_behind(st, 0) {
        let at = choose|at: int| 0 <= at <= st.locals[3] && #[trigger] stands_at(st, at, 0);
        assert forall|j: int| 0 <= j < y.len() implies x.subrange(at, at + y.len())[j] == y[j] by {
            assert(st.machine.mem[st.locals[1] + j] == st.machine.mem[st.locals[0] + at + j]);
            assert(x[at + j] == st.machine.mem[st.locals[0] + at + j]);
        }
        assert(x.subrange(at, at + y.len()) =~= y);
    }
    if occurs(y, x) {
        let at = choose|at: int|
            0 <= at && at + y.len() <= x.len() && #[trigger] x.subrange(at, at + y.len()) == y;
        assert forall|j: int| 0 <= j < st.locals[2] implies #[trigger] st.machine.mem[st.locals[1]
            + j] == st.machine.mem[st.locals[0] + at + j] by {
            assert(y[j] == x.subrange(at, at + y.len())[j]);
            assert(x[at + j] == st.machine.mem[st.locals[0] + at + j]);
        }
        assert(stands_at(st, at, 0));
    }
}

/// The substring test returns 1 where the second text occurs in the first, and
/// 0 otherwise. It leaves the memory and the heap alone.
pub proof fn law_contains_finds_substrings(
    fs: Map<u32, Routine>,
    alloc: u32,
    a: u32,
    x: Seq<u8>,
    b: u32,
    y: Seq<u8>,
    m: Machine,
    fuel: nat,
)
    requires
        m.is_addressable(),
        crate::string_pool::header_selects(m.mem, a, x),
        crate::string_pool::header_selects(m.mem, b, y),
        x.len() < fuel,
    ensures
        computes(
            fs,
            crate::module::prelude_body(PreludeHelper::StrContains, alloc),
            seq![a, b],
            m,
            fuel,
            crate::machine::flag(occurs(y, x)),
            m,
        ),
{
    broadcast use crate::machine::group_steps;

    lemma_contains_reads();
    reveal_with_fuel(crate::lower::progress::declared, 2);
    lemma_word_is_small(m.mem, a as int);
    lemma_word_is_small(m.mem, b as int);
    lemma_word_is_small(m.mem, a + 4);
    lemma_word_is_small(m.mem, b + 4);
    let r = Routine { params: 2, locals: 5, code: contains_code() };
    let start = crate::machine::entered(r, seq![a, b], m);
    assert(start.locals =~= seq![a, b, 0, 0, 0, 0, 0]);
    let p = crate::string_pool::read_le32(m.mem, a as int) as u32;
    let q = crate::string_pool::read_le32(m.mem, b as int) as u32;
    if y.len() <= x.len() {
        let n = y.len() as u32;
        let last = (x.len() - y.len()) as u32;
        let st = State { locals: seq![p, q, n, last, 0, 0, 0], ..start };
        assert(start.with_local(2, n).with_local(3, last).with_local(0, p).with_local(
            1,
            q,
        ).with_local(4, 0).locals =~= st.locals);
        lemma_search(fs, st, x, y, fuel);
        assert(crate::machine::exec(fs, contains_code(), start, fuel) == crate::machine::exec(
            fs,
            search_code(),
            st,
            fuel,
        ));
    } else {
        assert(crate::machine::exec(fs, contains_code(), start, fuel) is Return);
        assert(!occurs(y, x));
    }
    assert(crate::machine::run(fs, r, seq![a, b], m, fuel) == Some(
        (crate::machine::flag(occurs(y, x)), m),
    ));
}

// ── lengths, tags and bytes ──────────────────────────────────────────

/// The helpers on texts see what the header of a text describes: its length,
/// whether it is empty, and each of its bytes.
pub proof fn law_text_helpers_read_the_header(
    fs: Map<u32, Routine>,
    alloc: u32,
    a: u32,
    x: Seq<u8>,
    i: u32,
    m: Machine,
    fuel: nat,
)
    requires
        m.is_addressable(),
        crate::string_pool::header_selects(m.mem, a, x),
    ensures
        computes(
            fs,
            crate::module::prelude_body(PreludeHelper::StrLen, alloc),
            seq![a],
            m,
            fuel,
            x.len() as u32,
            m,
        ),
        computes(
            fs,
            crate::module::prelude_body(PreludeHelper::StrIsEmpty, alloc),
            seq![a],
            m,
            fuel,
            crate::machine::flag(x.len() == 0),
            m,
        ),
        i < x.len() ==> computes(
            fs,
            crate::module::prelude_body(PreludeHelper::StrByteAt, alloc),
            seq![a, i],
            m,
            fuel,
            x[i as int] as u32,
            m,
        ),
{
    broadcast use {crate::machine::group_steps, crate::machine::group_written};

    lemma_word_is_small(m.mem, a as int);
    lemma_word_is_small(m.mem, a + 4);
    let len = word_code(0, STRING_LEN_OFFSET, Code::Done);
    assert(crate::machine::reads_as(
        crate::module::prelude_body(PreludeHelper::StrLen, alloc).code,
        len,
    ));
    let r = Routine { params: 1, locals: 0, code: len };
    assert(crate::machine::run(fs, r, seq![a], m, fuel) == Some((x.len() as u32, m)));
    let empty = word_code(
        0,
        STRING_LEN_OFFSET,
        Code::op(Instr::I32Bits(I32Op::Eqz), Code::Done),
    );
    assert(crate::machine::reads_as(
        crate::module::prelude_body(PreludeHelper::StrIsEmpty, alloc).code,
        empty,
    ));
    let r = Routine { params: 1, locals: 0, code: empty };
    assert(crate::machine::run(fs, r, seq![a], m, fuel) == Some(
        (crate::machine::flag(x.len() == 0), m),
    ));
    let byte = word_code(
        0,
        STRING_PTR_OFFSET,
        Code::op(Instr::LocalSet(0), byte_code(0, 1, Code::Done)),
    );
    assert(crate::machine::reads_as(
        crate::module::prelude_body(PreludeHelper::StrByteAt, alloc).code,
        byte,
    ));
    if i < x.len() {
        let p = crate::string_pool::read_le32(m.mem, a as int);
        let r = Routine { params: 2, locals: 0, code: byte };
        assert(x[i as int] == m.mem[p + i]);
        assert(crate::machine::run(fs, r, seq![a, i], m, fuel) == Some((x[i as int] as u32, m)));
    }
}

/// A helper that reads two words at its argument at most.
proof fn lemma_reader(
    fs: Map<u32, Routine>,
    body: BodyView,
    c: Code,
    a: u32,
    m: Machine,
    fuel: nat,
    v: u32,
)
    requires
        crate::machine::reads_as(body.code, c),
        body.locals.len() == 0,
        crate::machine::result_of(
            crate::machine::exec(
                fs,
                c,
                State {
                    machine: m,
                    locals: seq![a],
                    stack: crate::machine::Stack::Empty,
                },
                fuel,
            ),
        ) == Some((v, m)),
    ensures
        computes(fs, body, seq![a], m, fuel, v, m),
{
    let r = Routine { params: 1, locals: 0, code: c };
    assert(crate::machine::entered(r, seq![a], m).locals =~= seq![a]);
    assert(crate::machine::run(fs, r, seq![a], m, fuel) == Some((v, m)));
}

/// The helpers on arrays and dictionaries read the length behind the header's
/// pointer.
pub proof fn law_collection_helpers_read_the_length(
    fs: Map<u32, Routine>,
    alloc: u32,
    h: PreludeHelper,
    a: u32,
    m: Machine,
    fuel: nat,
)
    requires
        a + 8 <= m.mem.len(),
    ensures
        h is ArrayLen || h is DictLen ==> computes(
            fs,
            crate::module::prelude_body(h, alloc),
            seq![a],
            m,
            fuel,
            crate::string_pool::read_le32(m.mem, a + 4) as u32,
            m,
        ),
        h is ArrayIsEmpty || h is DictIsEmpty ==> computes(
            fs,
            crate::module::prelude_body(h, alloc),
            seq![a],
            m,
            fuel,
            crate::machine::flag(crate::string_pool::read_le32(m.mem, a + 4) == 0),
            m,
        ),
{
    broadcast use {crate::machine::group_steps, crate::machine::group_written};

    lemma_word_is_small(m.mem, a + 4);
    let body = crate::module::prelude_body(h, alloc);
    let n = crate::string_pool::read_le32(m.mem, a + 4) as u32;
    if h is ArrayLen || h is DictLen {
        let c = word_code(0, 4, Code::Done);
        assert(crate::machine::reads_as(body.code, c));
        lemma_reader(fs, body, c, a, m, fuel, n);
    }
    if h is ArrayIsEmpty || h is DictIsEmpty {
        let c = word_code(0, 4, Code::op(Instr::I32Bits(I32Op::Eqz), Code::Done));
        assert(crate::machine::reads_as(body.code, c));
        lemma_reader(fs, body, c, a, m, fuel, crate::machine::flag(n == 0));
    }
}

/// The helpers on optional values test the tag.
pub proof fn law_optional_helpers_test_the_tag(
    fs: Map<u32, Routine>,
    alloc: u32,
    a: u32,
    m: Machine,
    fuel: nat,
)
    requires
        a + 4 <= m.mem.len(),
    ensures
        computes(
            fs,
            crate::module::prelude_body(PreludeHelper::OptionalIsSome, alloc),
            seq![a],
            m,
            fuel,
            crate::machine::flag(
                crate::string_pool::read_le32(m.mem, a as int) == OPTIONAL_TAG_SOME,
            ),
            m,
        ),
        computes(
            fs,
            crate::module::prelude_body(PreludeHelper::OptionalIsNone, alloc),
            seq![a],
            m,
            fuel,
            crate::machine::flag(
                crate::string_pool::read_le32(m.mem, a as int) != OPTIONAL_TAG_SOME,
            ),
            m,
        ),
{
    broadcast use {crate::machine::group_steps, crate::machine::group_written};

    lemma_word_is_small(m.mem, a as int);
    let tag = crate::string_pool::read_le32(m.mem, a as int) as u32;
    let some = crate::module::prelude_body(PreludeHelper::OptionalIsSome, alloc);
    let c = word_code(
        0,
        0,
        Code::op2(
            Instr::I32Const(OPTIONAL_TAG_SOME as i32),
            Instr::I32(IntOp::Eq),
            Code::Done,
        ),
    );
    assert(crate::machine::reads_as(some.code, c));
    lemma_reader(fs, some, c, a, m, fuel, crate::machine::flag(tag == OPTIONAL_TAG_SOME));
    let nil = crate::module::prelude_body(PreludeHelper::OptionalIsNone, alloc);
    let d = word_code(
        0,
        0,
        Code::op2(
            Instr::I32Const(OPTIONAL_TAG_SOME as i32),
            Instr::I32(IntOp::Ne),
            Code::Done,
        ),
    );
    assert(crate::machine::reads_as(nil.code, d));
    lemma_reader(fs, nil, d, a, m, fuel, crate::machine::flag(tag != OPTIONAL_TAG_SOME));
}

/// The helpers on ranges of 32-bit bounds: the length is the distance of the
/// bounds, and a range is empty where its end is not behind its start.
pub proof fn law_range_helpers_compare_the_bounds(
    fs: Map<u32, Routine>,
    alloc: u32,
    a: u32,
    m: Machine,
    fuel: nat,
)
    requires
        a + 8 <= m.mem.len(),
    ensures
        ({
            let first = crate::string_pool::read_le32(m.mem, a as int) as u32;
            let last = crate::string_pool::read_le32(m.mem, a + 4) as u32;
            &&& computes(
                fs,
                crate::module::prelude_body(PreludeHelper::RangeLen, alloc),
                seq![a],
                m,
                fuel,
                crate::machine::wrap(
                    crate::machine::signed(last) - crate::machine::signed(first),
                ),
                m,
            )
            &&& computes(
                fs,
                crate::module::prelude_body(PreludeHelper::RangeIsEmpty, alloc),
                seq![a],
                m,
                fuel,
                crate::machine::flag(
                    crate::machine::signed(last) <= crate::machine::signed(first),
                ),
                m,
            )
        }),
{
    broadcast use {crate::machine::group_steps, crate::machine::group_written};

    lemma_word_is_small(m.mem, a as int);
    lemma_word_is_small(m.mem, a + 4);
    let first = crate::string_pool::read_le32(m.mem, a as int) as u32;
    let last = crate::string_pool::read_le32(m.mem, a + 4) as u32;
    assert(crate::machine::wrap(crate::machine::signed(last) - crate::machine::signed(first))
        == crate::machine::wrap(last - first));
    let len = crate::module::prelude_body(PreludeHelper::RangeLen, alloc);
    let c = word_code(
        0,
        4,
        word_code(0, 0, Code::op(Instr::I32(IntOp::Sub), Code::Done)),
    );
    assert(crate::machine::reads_as(len.code, c));
    lemma_reader(fs, len, c, a, m, fuel, crate::machine::wrap(last - first));
    let empty = crate::module::prelude_body(PreludeHelper::RangeIsEmpty, alloc);
    let d = word_code(
        0,
        4,
        word_code(0, 0, Code::op(Instr::I32(IntOp::LeS), Code::Done)),
    );
    assert(crate::machine::reads_as(empty.code, d));
    lemma_reader(
        fs,
        empty,
        d,
        a,
        m,
        fuel,
        crate::machine::flag(crate::machine::signed(last) <= crate::machine::signed(first)),
    );
}

// ── new texts ────────────────────────────────────────────────────────

/// Function `alloc` is the allocation helper.
pub open spec fn provides_alloc(fs: Map<u32, Routine>, alloc: u32) -> bool {
    &&& fs.dom().contains(alloc)
    &&& fs[alloc].params == 1
    &&& fs[alloc].locals == 1
    &&& crate::machine::reads_as(crate::module::bump_body().code, fs[alloc].code)
}

/// A text that lies below the heap pointer, with its header.
pub open spec fn text_in_use(m: Machine, a: u32, x: Seq<u8>) -> bool {
    &&& crate::string_pool::header_selects(m.mem, a, x)
    &&& a + 8 <= m.heap
    &&& crate::string_pool::read_le32(m.mem, a as int) + x.len() <= m.heap
}

/// What lay below the heap pointer is as it was, and still lies below it.
pub open spec fn keeps_the_heap(m: Machine, after: Machine) -> bool {
    &&& m.heap <= after.heap
    &&& m.mem.len() == after.mem.len()
    &&& forall|i: int| 0 <= i < m.heap && i < m.mem.len() ==> #[trigger] after.mem[i] == m.mem[i]
}

/// Texts in use stay as they are where the heap is kept.
pub proof fn law_kept_texts_stay(m: Machine, after: Machine, a: u32, x: Seq<u8>)
    requires
        text_in_use(m, a, x),
        keeps_the_heap(m, after),
    ensures
        text_in_use(after, a, x),
{
    let p = crate::string_pool::read_le32(m.mem, a as int);
    lemma_word_is_small(m.mem, a as int);
    assert(crate::string_pool::read_le32(after.mem, a as int) == p);
    assert(crate::string_pool::read_le32(after.mem, a + 4) == x.len());
    assert(after.mem.subrange(p, p + x.len()) =~= m.mem.subrange(p, p + x.len()));
}

proof fn lemma_call_alloc(
    fs: Map<u32, Routine>,
    alloc: u32,
    rest: Code,
    st: State,
    size: u32,
    fuel: nat,
)
    requires
        provides_alloc(fs, alloc),
        fuel > 0,
        next_address(st.machine.heap) + size <= u32::MAX,
    ensures
        crate::machine::exec(fs, Code::op(Instr::Call(alloc), rest), st.push(size), fuel)
            == crate::machine::exec(
            fs,
            rest,
            st.with_heap((next_address(st.machine.heap) + size) as u32).push(
                next_address(st.machine.heap) as u32,
            ),
            fuel,
        ),
{
    lemma_alloc_reads();
    crate::machine::law_code_reads_in_one_way(
        crate::module::bump_body().code,
        fs[alloc].code,
        alloc_code(),
    );
    crate::machine::lemma_call(fs, alloc, rest, st, size, fuel);
    lemma_alloc(fs, size, st.machine, (fuel - 1) as nat);
}

/// Allocate a string header in a local and fill it from two others.
pub open spec fn header_code(alloc: u32, header: u32, ptr: u32, len: u32, rest: Code) -> Code {
    Code::op3(
        Instr::I32Const(STRING_HEADER_SIZE as i32),
        Instr::Call(alloc),
        Instr::LocalSet(header),
        Code::op3(
            Instr::LocalGet(header),
            Instr::LocalGet(ptr),
            Instr::Store(StoreOp::I32, crate::module::word_at(STRING_PTR_OFFSET)),
            Code::op3(
                Instr::LocalGet(header),
                Instr::LocalGet(len),
                Instr::Store(StoreOp::I32, crate::module::word_at(STRING_LEN_OFFSET)),
                rest,
            ),
        ),
    )
}

/// The machine with a new header at the next address.
pub open spec fn with_header(m: Machine, ptr: u32, len: u32) -> Machine {
    let at = next_address(m.heap);
    Machine {
        mem: crate::machine::overwritten(
            crate::machine::overwritten(m.mem, at, crate::string_pool::le32(ptr)),
            at + 4,
            crate::string_pool::le32(len),
        ),
        heap: (at + 8) as u32,
    }
}

/// A header is allocated and filled.
pub proof fn lemma_header_code(
    fs: Map<u32, Routine>,
    alloc: u32,
    header: u32,
    ptr: u32,
    len: u32,
    rest: Code,
    st: State,
    fuel: nat,
)
    requires
        provides_alloc(fs, alloc),
        fuel > 0,
        header < st.locals.len(),
        ptr < st.locals.len(),
        len < st.locals.len(),
        header != ptr,
        header != len,
        next_address(st.machine.heap) + 8 <= u32::MAX,
        next_address(st.machine.heap) + 8 <= st.machine.mem.len(),
    ensures
        crate::machine::exec(fs, header_code(alloc, header, ptr, len, rest), st, fuel)
            == crate::machine::exec(
            fs,
            rest,
            State {
                machine: with_header(
                    st.machine,
                    st.locals[ptr as int],
                    st.locals[len as int],
                ),
                locals: st.locals.update(header as int, next_address(st.machine.heap) as u32),
                stack: st.stack,
            },
            fuel,
        ),
{
    broadcast use crate::machine::group_steps;

    crate::layout::lemma_round_up(st.machine.heap as int, 8);
    let at = next_address(st.machine.heap) as u32;
    let fill = Code::op3(
        Instr::LocalGet(header),
        Instr::LocalGet(ptr),
        Instr::Store(StoreOp::I32, crate::module::word_at(STRING_PTR_OFFSET)),
        Code::op3(
            Instr::LocalGet(header),
            Instr::LocalGet(len),
            Instr::Store(StoreOp::I32, crate::module::word_at(STRING_LEN_OFFSET)),
            rest,
        ),
    );
    lemma_call_alloc(fs, alloc, Code::op(Instr::LocalSet(header), fill), st, 8, fuel);
    let s1 = st.with_heap((at + 8) as u32).with_local(header, at);
    assert(crate::machine::exec(fs, header_code(alloc, header, ptr, len, rest), st, fuel)
        == crate::machine::exec(fs, fill, s1, fuel));
    let m1 = crate::machine::overwritten(
        st.machine.mem,
        at as int,
        crate::string_pool::le32(st.locals[ptr as int]),
    );
    let s2 = s1.with_memory(m1);
    let m2 = crate::machine::overwritten(
        m1,
        at + 4,
        crate::string_pool::le32(st.locals[len as int]),
    );
    assert(crate::machine::exec(fs, fill, s1, fuel) == crate::machine::exec(
        fs,
        rest,
        s2.with_memory(m2),
        fuel,
    ));
}

/// A new header describes the bytes that it points at, and leaves everything
/// below the heap pointer alone.
pub proof fn lemma_new_header(m: Machine, ptr: u32, x: Seq<u8>)
    requires
        next_address(m.heap) + 8 <= u32::MAX,
        next_address(m.heap) + 8 <= m.mem.len(),
        ptr + x.len() <= m.heap,
        m.mem.subrange(ptr as int, ptr + x.len()) == x,
    ensures
        text_in_use(
            with_header(m, ptr, x.len() as u32),
            next_address(m.heap) as u32,
            x,
        ),
        keeps_the_heap(m, with_header(m, ptr, x.len() as u32)),
{
    crate::layout::lemma_round_up(m.heap as int, 8);
    let at = next_address(m.heap);
    let n = x.len() as u32;
    let after = with_header(m, ptr, n);
    let p4 = crate::string_pool::le32(ptr);
    let n4 = crate::string_pool::le32(n);
    crate::string_pool::law_le32_round_trip(ptr);
    crate::string_pool::law_le32_round_trip(n);
    assert(after.mem[at] == p4[0] && after.mem[at + 1] == p4[1] && after.mem[at + 2] == p4[2]
        && after.mem[at + 3] == p4[3]);
    assert(after.mem[at + 4] == n4[0] && after.mem[at + 5] == n4[1] && after.mem[at + 6] == n4[2]
        && after.mem[at + 7] == n4[3]);
    assert(crate::string_pool::read_le32(after.mem, at) == ptr);
    assert(crate::string_pool::read_le32(after.mem, at + 4) == n);
    assert(after.mem.subrange(ptr as int, ptr + x.len()) =~= m.mem.subrange(
        ptr as int,
        ptr + x.len(),
    ));
}

/// The structure of the slice helper.
pub open spec fn slice_code(alloc: u32) -> Code {
    word_code(
        0,
        STRING_PTR_OFFSET,
        Code::op3(
            Instr::LocalGet(1),
            Instr::I32(IntOp::Add),
            Instr::LocalSet(3),
            Code::op4(
                Instr::LocalGet(2),
                Instr::LocalGet(1),
                Instr::I32(IntOp::Sub),
                Instr::LocalSet(4),
                header_code(alloc, 5, 3, 4, Code::op(Instr::LocalGet(5), Code::Done)),
            ),
        ),
    )
}

/// The slice helper returns a fresh header for the bytes from `from` up to
/// `to` of a text. What was in use stays as it was.
pub proof fn law_slices_share_their_bytes(
    fs: Map<u32, Routine>,
    alloc: u32,
    a: u32,
    x: Seq<u8>,
    from: u32,
    to: u32,
    m: Machine,
    fuel: nat,
)
    requires
        provides_alloc(fs, alloc),
        fuel > 0,
        m.is_addressable(),
        text_in_use(m, a, x),
        from <= to <= x.len(),
        next_address(m.heap) + 8 <= u32::MAX,
        next_address(m.heap) + 8 <= m.mem.len(),
    ensures
        exists|after: Machine|
            {
                &&& computes(
                    fs,
                    crate::module::prelude_body(PreludeHelper::StrSlice, alloc),
                    seq![a, from, to],
                    m,
                    fuel,
                    next_address(m.heap) as u32,
                    after,
                )
                &&& text_in_use(
                    after,
                    next_address(m.heap) as u32,
                    x.subrange(from as int, to as int),
                )
                &&& #[trigger] keeps_the_heap(m, after)
            },
{
    broadcast use {crate::machine::group_steps, crate::machine::group_written};

    let body = crate::module::prelude_body(PreludeHelper::StrSlice, alloc);
    assert(crate::machine::reads_as(body.code, slice_code(alloc)));
    reveal_with_fuel(crate::lower::progress::declared, 2);
    lemma_word_is_small(m.mem, a as int);
    let r = Routine { params: 3, locals: 3, code: slice_code(alloc) };
    let start = crate::machine::entered(r, seq![a, from, to], m);
    assert(start.locals =~= seq![a, from, to, 0, 0, 0]);
    let p = crate::string_pool::read_le32(m.mem, a as int);
    let ptr = (p + from) as u32;
    let len = (to - from) as u32;
    let st = start.with_local(3, ptr).with_local(4, len);
    let rest = Code::op(Instr::LocalGet(5), Code::Done);
    assert(crate::machine::exec(fs, slice_code(alloc), start, fuel) == crate::machine::exec(
        fs,
        header_code(alloc, 5, 3, 4, rest),
        st,
        fuel,
    ));
    lemma_header_code(fs, alloc, 5, 3, 4, rest, st, fuel);
    let part = x.subrange(from as int, to as int);
    assert(m.mem.subrange(ptr as int, ptr + part.len()) =~= part);
    lemma_new_header(m, ptr, part);
    let after = with_header(m, ptr, len);
    assert(crate::machine::run(fs, r, seq![a, from, to], m, fuel) == Some(
        (next_address(m.heap) as u32, after),
    ));
    assert(computes(
        fs,
        body,
        seq![a, from, to],
        m,
        fuel,
        next_address(m.heap) as u32,
        after,
    ));
}

/// The structure of the concatenation helper.
pub open spec fn concat_code(alloc: u32) -> Code {
    word_code(
        0,
        STRING_LEN_OFFSET,
        Code::op(
            Instr::LocalSet(2),
            word_code(1, STRING_LEN_OFFSET, Code::op(Instr::LocalSet(3), total_code(alloc))),
        ),
    )
}

/// The concatenation from the sum of the lengths on.
pub open spec fn total_code(alloc: u32) -> Code {
    Code::op4(
        Instr::LocalGet(2),
        Instr::LocalGet(3),
        Instr::I32(IntOp::Add),
        Instr::LocalSet(4),
        Code::op3(
            Instr::LocalGet(4),
            Instr::Call(alloc),
            Instr::LocalSet(5),
            copy_code(alloc),
        ),
    )
}

/// The concatenation from the first copy on.
pub open spec fn copy_code(alloc: u32) -> Code {
    let copy = Instr::MemoryCopy { src_mem: MEMORY_INDEX, dst_mem: MEMORY_INDEX };
    Code::op(
        Instr::LocalGet(5),
        word_code(
            0,
            STRING_PTR_OFFSET,
            Code::op2(
                Instr::LocalGet(2),
                copy,
                Code::op3(
                    Instr::LocalGet(5),
                    Instr::LocalGet(2),
                    Instr::I32(IntOp::Add),
                    word_code(
                        1,
                        STRING_PTR_OFFSET,
                        Code::op2(
                            Instr::LocalGet(3),
                            copy,
                            header_code(
                                alloc,
                                6,
                                5,
                                4,
                                Code::op(Instr::LocalGet(6), Code::Done),
                            ),
                        ),
                    ),
                ),
            ),
        ),
    )
}

proof fn lemma_concat_reads(alloc: u32)
    ensures
        crate::machine::reads_as(crate::module::str_concat_body(alloc).code, concat_code(alloc)),
{
    broadcast use crate::machine::group_written;

    assert(crate::machine::written(concat_code(alloc), crate::module::nothing()).emit(
        Instr::End,
    ).code == crate::module::str_concat_body(alloc).code);
}

/// The memory with `x` and `y` copied to `at`, one behind the other.
pub open spec fn joined(mem: Seq<u8>, at: int, x: Seq<u8>, y: Seq<u8>) -> Seq<u8> {
    crate::machine::overwritten(
        crate::machine::overwritten(mem, at, x),
        at + x.len(),
        y,
    )
}

/// The machine behind the copies of a concatenation.
pub open spec fn with_joined(m: Machine, x: Seq<u8>, y: Seq<u8>) -> Machine {
    let at = next_address(m.heap);
    Machine { mem: joined(m.mem, at, x, y), heap: (at + x.len() + y.len()) as u32 }
}

/// There is room for a text of `n` bytes and its header.
pub open spec fn has_room(m: Machine, n: nat) -> bool {
    let at = next_address(m.heap) + n;
    let header = crate::layout::round_up(at, BUMP_ALLOCATOR_ALIGN as int);
    header + 8 <= u32::MAX && header + 8 <= m.mem.len()
}

proof fn lemma_copies(
    fs: Map<u32, Routine>,
    alloc: u32,
    a: u32,
    x: Seq<u8>,
    b: u32,
    y: Seq<u8>,
    m: Machine,
    st: State,
    fuel: nat,
)
    requires
        provides_alloc(fs, alloc),
        fuel > 0,
        m.is_addressable(),
        text_in_use(m, a, x),
        text_in_use(m, b, y),
        has_room(m, x.len() + y.len()),
        st.machine == (Machine { heap: (next_address(m.heap) + x.len() + y.len()) as u32, ..m }),
        st.locals == seq![
            a,
            b,
            x.len() as u32,
            y.len() as u32,
            (x.len() + y.len()) as u32,
            next_address(m.heap) as u32,
            0,
        ],
    ensures
        crate::machine::exec(fs, copy_code(alloc), st, fuel) == crate::machine::exec(
            fs,
            header_code(alloc, 6, 5, 4, Code::op(Instr::LocalGet(6), Code::Done)),
            State { machine: with_joined(m, x, y), ..st },
            fuel,
        ),
{
    broadcast use crate::machine::group_steps;

    crate::layout::lemma_round_up(m.heap as int, 8);
    crate::layout::lemma_round_up(next_address(m.heap) + x.len() + y.len(), 8);
    lemma_word_is_small(m.mem, a as int);
    lemma_word_is_small(m.mem, b as int);
    let at = next_address(m.heap);
    let p = crate::string_pool::read_le32(m.mem, a as int) as u32;
    let q = crate::string_pool::read_le32(m.mem, b as int) as u32;
    let one = crate::machine::overwritten(m.mem, at, x);
    assert(crate::string_pool::read_le32(one, b as int) == q);
    assert(one.subrange(q as int, q + y.len()) =~= y);
    assert(crate::machine::exec(fs, copy_code(alloc), st, fuel) == crate::machine::exec(
        fs,
        header_code(alloc, 6, 5, 4, Code::op(Instr::LocalGet(6), Code::Done)),
        st.with_memory(one).with_memory(joined(m.mem, at, x, y)),
        fuel,
    ));
}

/// The copies of a concatenation, and what they leave alone.
proof fn lemma_joined(m: Machine, x: Seq<u8>, y: Seq<u8>)
    requires
        has_room(m, x.len() + y.len()),
    ensures
        keeps_the_heap(m, with_joined(m, x, y)),
        with_joined(m, x, y).mem.subrange(
            next_address(m.heap),
            next_address(m.heap) + x.len() + y.len(),
        ) == x + y,
{
    crate::layout::lemma_round_up(m.heap as int, 8);
    crate::layout::lemma_round_up(next_address(m.heap) + x.len() + y.len(), 8);
    let at = next_address(m.heap);
    assert(with_joined(m, x, y).mem.subrange(at, at + x.len() + y.len()) =~= x + y);
}

/// The concatenation reads both lengths and asks for room for their sum.
proof fn lemma_concat_lengths(
    fs: Map<u32, Routine>,
    alloc: u32,
    a: u32,
    x: Seq<u8>,
    b: u32,
    y: Seq<u8>,
    start: State,
    fuel: nat,
)
    requires
        start.locals == seq![a, b, 0u32, 0u32, 0u32, 0u32, 0u32],
        start.machine.is_addressable(),
        crate::string_pool::header_selects(start.machine.mem, a, x),
        crate::string_pool::header_selects(start.machine.mem, b, y),
        x.len() + y.len() <= u32::MAX,
    ensures
        crate::machine::exec(fs, concat_code(alloc), start, fuel) == crate::machine::exec(
            fs,
            Code::op(Instr::Call(alloc), Code::op(Instr::LocalSet(5), copy_code(alloc))),
            start.with_local(2, x.len() as u32).with_local(3, y.len() as u32).with_local(
                4,
                (x.len() + y.len()) as u32,
            ).push((x.len() + y.len()) as u32),
            fuel,
        ),
{
    broadcast use crate::machine::group_steps;

    lemma_word_is_small(start.machine.mem, a + 4);
    lemma_word_is_small(start.machine.mem, b + 4);
}

proof fn lemma_concat(
    fs: Map<u32, Routine>,
    alloc: u32,
    a: u32,
    x: Seq<u8>,
    b: u32,
    y: Seq<u8>,
    m: Machine,
    fuel: nat,
)
    requires
        provides_alloc(fs, alloc),
        fuel > 0,
        m.is_addressable(),
        text_in_use(m, a, x),
        text_in_use(m, b, y),
        has_room(m, x.len() + y.len()),
    ensures
        crate::machine::run(
            fs,
            Routine { params: 2, locals: 5, code: concat_code(alloc) },
            seq![a, b],
            m,
            fuel,
        ) == Some(
            (
                next_address(with_joined(m, x, y).heap) as u32,
                with_header(
                    with_joined(m, x, y),
                    next_address(m.heap) as u32,
                    (x.len() + y.len()) as u32,
                ),
            ),
        ),
{
    broadcast use crate::machine::group_steps;

    crate::layout::lemma_round_up(m.heap as int, 8);
    crate::layout::lemma_round_up(next_address(m.heap) + x.len() + y.len(), 8);
    let r = Routine { params: 2, locals: 5, code: concat_code(alloc) };
    let start = crate::machine::entered(r, seq![a, b], m);
    assert(start.locals =~= seq![a, b, 0, 0, 0, 0, 0]);
    let at = next_address(m.heap) as u32;
    let (i, j, n) = (x.len() as u32, y.len() as u32, (x.len() + y.len()) as u32);
    let s1 = start.with_local(2, i).with_local(3, j).with_local(4, n);
    let rest = Code::op(Instr::LocalSet(5), copy_code(alloc));
    lemma_concat_lengths(fs, alloc, a, x, b, y, start, fuel);
    lemma_call_alloc(fs, alloc, rest, s1, n, fuel);
    let s2 = s1.with_heap((at + n) as u32).with_local(5, at);
    assert(crate::machine::exec(fs, concat_code(alloc), start, fuel) == crate::machine::exec(
        fs,
        copy_code(alloc),
        s2,
        fuel,
    ));
    assert(s2.locals =~= seq![a, b, i, j, n, at, 0]);
    lemma_copies(fs, alloc, a, x, b, y, m, s2, fuel);
    let s3 = State { machine: with_joined(m, x, y), ..s2 };
    lemma_header_code(
        fs,
        alloc,
        6,
        5,
        4,
        Code::op(Instr::LocalGet(6), Code::Done),
        s3,
        fuel,
    );
}

/// The concatenation helper returns a fresh text with the bytes of the first
/// text followed by those of the second. What was in use stays as it was.
pub proof fn law_str_concat_joins_texts(
    fs: Map<u32, Routine>,
    alloc: u32,
    a: u32,
    x: Seq<u8>,
    b: u32,
    y: Seq<u8>,
    m: Machine,
    fuel: nat,
)
    requires
        provides_alloc(fs, alloc),
        fuel > 0,
        m.is_addressable(),
        text_in_use(m, a, x),
        text_in_use(m, b, y),
        has_room(m, x.len() + y.len()),
    ensures
        exists|r: u32, after: Machine|
            {
                &&& computes(
                    fs,
                    crate::module::str_concat_body(alloc),
                    seq![a, b],
                    m,
                    fuel,
                    r,
                    after,
                )
                &&& #[trigger] text_in_use(after, r, x + y)
                &&& r >= m.heap
                &&& keeps_the_heap(m, after)
            },
{
    lemma_concat(fs, alloc, a, x, b, y, m, fuel);
    lemma_concat_reads(alloc);
    lemma_joined(m, x, y);
    reveal_with_fuel(crate::lower::progress::declared, 2);
    let at = next_address(m.heap) as u32;
    let between = with_joined(m, x, y);
    crate::layout::lemma_round_up(m.heap as int, 8);
    crate::layout::lemma_round_up(at + x.len() + y.len(), 8);
    lemma_new_header(between, at, x + y);
    let after = with_header(between, at, (x.len() + y.len()) as u32);
    let r = next_address(between.heap) as u32;
    assert(keeps_the_heap(m, after)) by {
        assert forall|i: int| 0 <= i < m.heap && i < m.mem.len() implies #[trigger] after.mem[i]
            == m.mem[i] by {
            assert(after.mem[i] == between.mem[i]);
        }
    }
    assert(computes(fs, crate::module::str_concat_body(alloc), seq![a, b], m, fuel, r, after));
    assert(text_in_use(after, r, x + y));
}

/// The reallocation hook allocates afresh, whatever was there before.
pub proof fn law_realloc_allocates_afresh(
    fs: Map<u32, Routine>,
    alloc: u32,
    args: Seq<u32>,
    m: Machine,
    fuel: nat,
)
    requires
        provides_alloc(fs, alloc),
        fuel > 0,
        args.len() == 4,
        next_address(m.heap) + args[3] <= u32::MAX,
    ensures
        computes(
            fs,
            crate::module::realloc_body(alloc),
            args,
            m,
            fuel,
            next_address(m.heap) as u32,
            Machine { heap: (next_address(m.heap) + args[3]) as u32, ..m },
        ),
{
    broadcast use {crate::machine::group_steps, crate::machine::group_written};

    let c = Code::op2(Instr::LocalGet(3), Instr::Call(alloc), Code::Done);
    assert(crate::machine::reads_as(crate::module::realloc_body(alloc).code, c));
    let r = Routine { params: 4, locals: 0, code: c };
    let start = crate::machine::entered(r, args, m);
    assert(start.locals =~= args);
    lemma_call_alloc(fs, alloc, Code::Done, start, args[3], fuel);
    assert(crate::machine::run(fs, r, args, m, fuel) == Some(
        (
            next_address(m.heap) as u32,
            Machine { heap: (next_address(m.heap) + args[3]) as u32, ..m },
        ),
    ));
}

// ── the start ────────────────────────────────────────────────────────

/// Bytes of the memory with which a core module starts.
pub open spec fn initial_size() -> nat {
    (INITIAL_MEMORY_PAGES * 65536) as nat
}

/// A core module when it starts: its static data, zeros up to the end of the
/// memory, and the heap pointer behind the data.
pub open spec fn instantiated(data: Seq<u8>) -> Machine {
    Machine {
        mem: data + crate::string_pool::zeros((initial_size() - data.len()) as nat),
        heap: crate::module::heap_base(data.len() as int) as u32,
    }
}

/// When a core module starts, every text literal in the body of a function or
/// method that it defines is in use: what the helpers do to texts, they do to
/// literals, and no allocation overwrites one.
pub proof fn law_literals_are_in_use_at_the_start(m: IrModule, text: Seq<char>)
    requires
        crate::module_lowering::lowered(m) is Ok,
        crate::module_lowering::texts::module_mentions(m, text),
        (crate::module_lowering::lowered(m)->Ok_0).static_data.len() <= initial_size(),
    ensures
        crate::module_lowering::placement::context(m).string_pool matches Some(pool)
            && crate::string_pool::offset_of(pool, text) matches Some(at) && text_in_use(
            instantiated((crate::module_lowering::lowered(m)->Ok_0).static_data),
            at,
            vstd::utf8::encode_utf8(text),
        ),
{
    crate::module_lowering::texts::law_text_literals_are_in_the_static_data(m, text);
    let data = (crate::module_lowering::lowered(m)->Ok_0).static_data;
    let pool = crate::module_lowering::placement::context(m).string_pool->0;
    let at = crate::string_pool::offset_of(pool, text)->0;
    let start = instantiated(data);
    crate::module::law_heap_starts_behind_data(data.len());
    assert(start.mem.subrange(0, data.len() as int) =~= data);
    crate::string_pool::lemma_header_survives(
        data,
        start.mem,
        at,
        vstd::utf8::encode_utf8(text),
    );
    lemma_word_is_small(data, at as int);
    assert(crate::string_pool::read_le32(start.mem, at as int) == crate::string_pool::read_le32(
        data,
        at as int,
    ));
}

} // verus!
