//! What code does when it runs: a machine for the instructions that work on
//! 32-bit integers and on memory.

use vstd::prelude::*;

use crate::instr::{BlockType, I32Op, Instr, IntOp, LoadOp, MemArg, StoreOp};
use crate::lower::context::SinkView;
use crate::module::{HEAP_PTR_GLOBAL_INDEX, MEMORY_INDEX};

verus! {

// ── structured code ──────────────────────────────────────────────────

/// Code as a tree: an instruction, a block, a loop or a condition, each
/// followed by the rest.
pub enum Code {
    Done,
    Op(Instr, Box<Code>),
    Block(Box<Code>, Box<Code>),
    Loop(Box<Code>, Box<Code>),
    If(Box<Code>, Box<Code>),
}

impl Code {
    /// One instruction and the rest.
    pub open spec fn op(i: Instr, rest: Code) -> Code {
        Code::Op(i, Box::new(rest))
    }

    /// Two instructions and the rest.
    pub open spec fn op2(i: Instr, j: Instr, rest: Code) -> Code {
        Code::op(i, Code::op(j, rest))
    }

    /// Three instructions and the rest.
    pub open spec fn op3(i: Instr, j: Instr, k: Instr, rest: Code) -> Code {
        Code::op(i, Code::op(j, Code::op(k, rest)))
    }

    /// Four instructions and the rest.
    pub open spec fn op4(i: Instr, j: Instr, k: Instr, l: Instr, rest: Code) -> Code {
        Code::op(i, Code::op(j, Code::op(k, Code::op(l, rest))))
    }

    /// A block and the rest.
    pub open spec fn block(body: Code, rest: Code) -> Code {
        Code::Block(Box::new(body), Box::new(rest))
    }

    /// A loop and the rest.
    pub open spec fn repeat(body: Code, rest: Code) -> Code {
        Code::Loop(Box::new(body), Box::new(rest))
    }

    /// A conditional part and the rest.
    pub open spec fn when(body: Code, rest: Code) -> Code {
        Code::If(Box::new(body), Box::new(rest))
    }
}

/// An instruction that begins, divides or ends a block.
pub open spec fn is_bracket(i: Instr) -> bool {
    i is Block || i is Loop || i is If || i is Else || i is End
}

/// Blocks appear as branches of the tree only.
#[verifier::opaque]
pub open spec fn proper(c: Code) -> bool
    decreases c,
{
    match c {
        Code::Done => true,
        Code::Op(i, rest) => !is_bracket(i) && proper(*rest),
        Code::Block(body, rest) => proper(*body) && proper(*rest),
        Code::Loop(body, rest) => proper(*body) && proper(*rest),
        Code::If(body, rest) => proper(*body) && proper(*rest),
    }
}

/// The tree, written behind what is there.
#[verifier::opaque]
pub open spec fn written(c: Code, s: SinkView) -> SinkView
    decreases c,
{
    match c {
        Code::Done => s,
        Code::Op(i, rest) => written(*rest, s.emit(i)),
        Code::Block(body, rest) => written(
            *rest,
            written(*body, s.emit(Instr::Block(BlockType::Empty))).emit(Instr::End),
        ),
        Code::Loop(body, rest) => written(
            *rest,
            written(*body, s.emit(Instr::Loop(BlockType::Empty))).emit(Instr::End),
        ),
        Code::If(body, rest) => written(
            *rest,
            written(*body, s.emit(Instr::If(BlockType::Empty))).emit(Instr::End),
        ),
    }
}

/// The instructions of a function body have the structure of the tree `c`.
pub open spec fn reads_as(code: Seq<Instr>, c: Code) -> bool {
    proper(c) && code == written(c, crate::module::nothing()).emit(Instr::End).code
}

/// The end of the code is written.
pub broadcast proof fn lemma_written_done(s: SinkView)
    ensures
        #[trigger] written(Code::Done, s) == s,
        proper(Code::Done),
{
    reveal_with_fuel(written, 2);
    reveal_with_fuel(proper, 2);
}

/// An instruction is written.
pub broadcast proof fn lemma_written_op(i: Instr, rest: Code, s: SinkView)
    ensures
        #[trigger] written(Code::op(i, rest), s) == written(rest, s.emit(i)),
        proper(Code::op(i, rest)) == (!is_bracket(i) && proper(rest)),
{
    reveal_with_fuel(written, 2);
    reveal_with_fuel(proper, 2);
}

/// A block is written.
pub broadcast proof fn lemma_written_block(body: Code, rest: Code, s: SinkView)
    ensures
        #[trigger] written(Code::block(body, rest), s) == written(
            rest,
            written(body, s.emit(Instr::Block(BlockType::Empty))).emit(Instr::End),
        ),
        proper(Code::block(body, rest)) == (proper(body) && proper(rest)),
{
    reveal_with_fuel(written, 2);
    reveal_with_fuel(proper, 2);
}

/// A loop is written.
pub broadcast proof fn lemma_written_repeat(body: Code, rest: Code, s: SinkView)
    ensures
        #[trigger] written(Code::repeat(body, rest), s) == written(
            rest,
            written(body, s.emit(Instr::Loop(BlockType::Empty))).emit(Instr::End),
        ),
        proper(Code::repeat(body, rest)) == (proper(body) && proper(rest)),
{
    reveal_with_fuel(written, 2);
    reveal_with_fuel(proper, 2);
}

/// A condition is written.
pub broadcast proof fn lemma_written_when(body: Code, rest: Code, s: SinkView)
    ensures
        #[trigger] written(Code::when(body, rest), s) == written(
            rest,
            written(body, s.emit(Instr::If(BlockType::Empty))).emit(Instr::End),
        ),
        proper(Code::when(body, rest)) == (proper(body) && proper(rest)),
{
    reveal_with_fuel(written, 2);
    reveal_with_fuel(proper, 2);
}

/// How code is written.
pub broadcast group group_written {
    lemma_written_done,
    lemma_written_op,
    lemma_written_block,
    lemma_written_repeat,
    lemma_written_when,
}

/// The instructions of `c`, the end of the block that they fill, and what
/// stands behind it.
spec fn listed(c: Code, behind: Seq<Instr>) -> Seq<Instr>
    decreases c,
{
    match c {
        Code::Done => seq![Instr::End] + behind,
        Code::Op(i, rest) => seq![i] + listed(*rest, behind),
        Code::Block(body, rest) => seq![Instr::Block(BlockType::Empty)] + listed(
            *body,
            listed(*rest, behind),
        ),
        Code::Loop(body, rest) => seq![Instr::Loop(BlockType::Empty)] + listed(
            *body,
            listed(*rest, behind),
        ),
        Code::If(body, rest) => seq![Instr::If(BlockType::Empty)] + listed(
            *body,
            listed(*rest, behind),
        ),
    }
}

proof fn lemma_listed(c: Code, s: SinkView, behind: Seq<Instr>)
    ensures
        written(c, s).emit(Instr::End).code + behind == s.code + listed(c, behind),
    decreases c,
{
    reveal_with_fuel(written, 2);
    match c {
        Code::Done => {
            assert(s.code.push(Instr::End) + behind =~= s.code + (seq![Instr::End] + behind));
        },
        Code::Op(i, rest) => {
            lemma_listed(*rest, s.emit(i), behind);
            let tail = listed(*rest, behind);
            assert(s.code.push(i) + tail =~= s.code + (seq![i] + tail));
        },
        Code::Block(body, rest) => {
            let i = Instr::Block(BlockType::Empty);
            lemma_listed(*body, s.emit(i), listed(*rest, behind));
            lemma_listed(*rest, written(*body, s.emit(i)).emit(Instr::End), behind);
            let all = listed(*body, listed(*rest, behind));
            assert(s.code.push(i) + all =~= s.code + (seq![i] + all));
        },
        Code::Loop(body, rest) => {
            let i = Instr::Loop(BlockType::Empty);
            lemma_listed(*body, s.emit(i), listed(*rest, behind));
            lemma_listed(*rest, written(*body, s.emit(i)).emit(Instr::End), behind);
            let all = listed(*body, listed(*rest, behind));
            assert(s.code.push(i) + all =~= s.code + (seq![i] + all));
        },
        Code::If(body, rest) => {
            let i = Instr::If(BlockType::Empty);
            lemma_listed(*body, s.emit(i), listed(*rest, behind));
            lemma_listed(*rest, written(*body, s.emit(i)).emit(Instr::End), behind);
            let all = listed(*body, listed(*rest, behind));
            assert(s.code.push(i) + all =~= s.code + (seq![i] + all));
        },
    }
}

proof fn lemma_one_list(c: Code, x: Seq<Instr>, d: Code, y: Seq<Instr>)
    requires
        proper(c),
        proper(d),
        listed(c, x) == listed(d, y),
    ensures
        c == d,
        x == y,
    decreases c,
{
    reveal_with_fuel(proper, 2);
    let head = listed(c, x)[0];
    assert(head == listed(d, y)[0]);
    let tail = listed(c, x).subrange(1, listed(c, x).len() as int);
    match (c, d) {
        (Code::Done, Code::Done) => {
            assert(tail =~= x);
            assert(tail =~= y);
        },
        (Code::Op(_, r), Code::Op(_, q)) => {
            assert(tail =~= listed(*r, x));
            assert(tail =~= listed(*q, y));
            lemma_one_list(*r, x, *q, y);
        },
        (Code::Block(b, r), Code::Block(e, q)) => {
            assert(tail =~= listed(*b, listed(*r, x)));
            assert(tail =~= listed(*e, listed(*q, y)));
            lemma_one_list(*b, listed(*r, x), *e, listed(*q, y));
            lemma_one_list(*r, x, *q, y);
        },
        (Code::Loop(b, r), Code::Loop(e, q)) => {
            assert(tail =~= listed(*b, listed(*r, x)));
            assert(tail =~= listed(*e, listed(*q, y)));
            lemma_one_list(*b, listed(*r, x), *e, listed(*q, y));
            lemma_one_list(*r, x, *q, y);
        },
        (Code::If(b, r), Code::If(e, q)) => {
            assert(tail =~= listed(*b, listed(*r, x)));
            assert(tail =~= listed(*e, listed(*q, y)));
            lemma_one_list(*b, listed(*r, x), *e, listed(*q, y));
            lemma_one_list(*r, x, *q, y);
        },
        _ => {},
    }
}

/// The instructions of a body have one structure at most.
pub proof fn law_code_reads_in_one_way(code: Seq<Instr>, c: Code, d: Code)
    requires
        reads_as(code, c),
        reads_as(code, d),
    ensures
        c == d,
{
    let none = Seq::<Instr>::empty();
    lemma_listed(c, crate::module::nothing(), none);
    lemma_listed(d, crate::module::nothing(), none);
    assert(code + none =~= code);
    assert(none + listed(c, none) =~= listed(c, none));
    assert(none + listed(d, none) =~= listed(d, none));
    lemma_one_list(c, none, d, none);
}

// ── states ───────────────────────────────────────────────────────────

/// What all functions share: the memory and the heap pointer.
pub struct Machine {
    pub mem: Seq<u8>,
    pub heap: u32,
}

impl Machine {
    /// Every byte of the memory has a 32-bit address.
    pub open spec fn is_addressable(self) -> bool {
        self.mem.len() <= 0x1_0000_0000
    }
}

/// The operands, the last one on top.
pub enum Stack {
    Empty,
    Push(u32, Box<Stack>),
}

/// A function while it runs.
pub struct State {
    pub machine: Machine,
    pub locals: Seq<u32>,
    pub stack: Stack,
}

impl State {
    /// One more operand.
    pub open spec fn push(self, v: u32) -> State {
        State { stack: Stack::Push(v, Box::new(self.stack)), ..self }
    }

    /// The operand on top, and the state without it.
    pub open spec fn pop(self) -> Option<(u32, State)> {
        match self.stack {
            Stack::Empty => None,
            Stack::Push(v, rest) => Some((v, State { stack: *rest, ..self })),
        }
    }

    /// Local `x` is `v`.
    pub open spec fn with_local(self, x: u32, v: u32) -> State {
        State { locals: self.locals.update(x as int, v), ..self }
    }

    /// The heap pointer is `v`.
    pub open spec fn with_heap(self, v: u32) -> State {
        State { machine: Machine { heap: v, ..self.machine }, ..self }
    }

    /// The memory is `mem`.
    pub open spec fn with_memory(self, mem: Seq<u8>) -> State {
        State { machine: Machine { mem, ..self.machine }, ..self }
    }
}

// ── arithmetic ───────────────────────────────────────────────────────

/// The 32 low bits of a number.
pub open spec fn wrap(x: int) -> u32 {
    (x % 0x1_0000_0000) as u32
}

/// The signed number with the bits of `x`.
pub open spec fn signed(x: u32) -> int {
    if x < 0x8000_0000 {
        x as int
    } else {
        x - 0x1_0000_0000
    }
}

/// A truth value.
pub open spec fn flag(b: bool) -> u32 {
    if b {
        1
    } else {
        0
    }
}

/// The result of an operation on `a` and `b`. Division is left out.
pub open spec fn int_result(o: IntOp, a: u32, b: u32) -> Option<u32> {
    match o {
        IntOp::Add => Some(wrap(a + b)),
        IntOp::Sub => Some(wrap(a - b)),
        IntOp::Mul => Some(wrap(a * b)),
        IntOp::DivS => None,
        IntOp::RemS => None,
        IntOp::Eq => Some(flag(a == b)),
        IntOp::Ne => Some(flag(a != b)),
        IntOp::LtS => Some(flag(signed(a) < signed(b))),
        IntOp::GtS => Some(flag(signed(a) > signed(b))),
        IntOp::LeS => Some(flag(signed(a) <= signed(b))),
        IntOp::GeS => Some(flag(signed(a) >= signed(b))),
    }
}

/// The result of an operation on bits or unsigned numbers.
pub open spec fn bits_result(o: I32Op, a: u32, b: u32) -> u32 {
    match o {
        I32Op::And => a & b,
        I32Op::Or => a | b,
        I32Op::Eqz => flag(b == 0),
        I32Op::GeU => flag(a >= b),
        I32Op::GtU => flag(a > b),
    }
}

/// `mem` with `bytes` at `at`.
pub open spec fn overwritten(mem: Seq<u8>, at: int, bytes: Seq<u8>) -> Seq<u8> {
    Seq::new(
        mem.len(),
        |i: int|
            if at <= i < at + bytes.len() {
                bytes[i - at]
            } else {
                mem[i]
            },
    )
}

// ── steps ────────────────────────────────────────────────────────────

/// An operation on the two topmost operands.
pub open spec fn on_two(f: spec_fn(u32, u32) -> Option<u32>, st: State) -> Option<State> {
    match st.pop() {
        None => None,
        Some((b, s1)) => match s1.pop() {
            None => None,
            Some((a, s2)) => match f(a, b) {
                None => None,
                Some(v) => Some(s2.push(v)),
            },
        },
    }
}

/// A read of the memory at the address on top.
pub open spec fn loaded(o: LoadOp, arg: MemArg, st: State) -> Option<State> {
    match st.pop() {
        None => None,
        Some((base, s1)) => {
            let at = base + arg.offset;
            match o {
                LoadOp::I32 => if at + 4 <= st.machine.mem.len() {
                    Some(s1.push(crate::string_pool::read_le32(st.machine.mem, at) as u32))
                } else {
                    None
                },
                LoadOp::I32Byte => if at < st.machine.mem.len() {
                    Some(s1.push(st.machine.mem[at] as u32))
                } else {
                    None
                },
                _ => None,
            }
        },
    }
}

/// A write of the value on top to the address below it.
pub open spec fn stored(o: StoreOp, arg: MemArg, st: State) -> Option<State> {
    match st.pop() {
        None => None,
        Some((v, s1)) => match s1.pop() {
            None => None,
            Some((base, s2)) => {
                let at = base + arg.offset;
                if o == StoreOp::I32 && at + 4 <= st.machine.mem.len() {
                    Some(
                        s2.with_memory(
                            overwritten(st.machine.mem, at, crate::string_pool::le32(v)),
                        ),
                    )
                } else {
                    None
                }
            },
        },
    }
}

/// A copy within the memory. The operands are the target, the source and,
/// on top, the number of bytes.
pub open spec fn copied(st: State) -> Option<State> {
    match st.pop() {
        None => None,
        Some((n, s1)) => match s1.pop() {
            None => None,
            Some((src, s2)) => match s2.pop() {
                None => None,
                Some((dst, s3)) => {
                    let mem = st.machine.mem;
                    if src + n <= mem.len() && dst + n <= mem.len() {
                        Some(
                            s3.with_memory(
                                overwritten(mem, dst as int, mem.subrange(src as int, src + n)),
                            ),
                        )
                    } else {
                        None
                    }
                },
            },
        },
    }
}

/// The state behind an instruction that goes on with the next one. `None`
/// where it traps, and for the instructions that the machine does not know.
pub open spec fn step(i: Instr, st: State) -> Option<State> {
    match i {
        Instr::Drop => match st.pop() {
            None => None,
            Some((_, s1)) => Some(s1),
        },
        Instr::LocalGet(x) => if x < st.locals.len() {
            Some(st.push(st.locals[x as int]))
        } else {
            None
        },
        Instr::LocalSet(x) => match st.pop() {
            None => None,
            Some((v, s1)) => if x < st.locals.len() {
                Some(s1.with_local(x, v))
            } else {
                None
            },
        },
        Instr::LocalTee(x) => match st.pop() {
            None => None,
            Some((v, _)) => if x < st.locals.len() {
                Some(st.with_local(x, v))
            } else {
                None
            },
        },
        Instr::GlobalGet(x) => if x == HEAP_PTR_GLOBAL_INDEX {
            Some(st.push(st.machine.heap))
        } else {
            None
        },
        Instr::GlobalSet(x) => match st.pop() {
            None => None,
            Some((v, s1)) => if x == HEAP_PTR_GLOBAL_INDEX {
                Some(s1.with_heap(v))
            } else {
                None
            },
        },
        Instr::I32Const(c) => Some(st.push(wrap(c as int))),
        Instr::Load(o, arg) => if arg.memory_index == MEMORY_INDEX {
            loaded(o, arg, st)
        } else {
            None
        },
        Instr::Store(o, arg) => if arg.memory_index == MEMORY_INDEX {
            stored(o, arg, st)
        } else {
            None
        },
        Instr::MemoryCopy { src_mem, dst_mem } => if src_mem == MEMORY_INDEX && dst_mem
            == MEMORY_INDEX {
            copied(st)
        } else {
            None
        },
        Instr::I32(o) => on_two(|a: u32, b: u32| int_result(o, a, b), st),
        Instr::I32Bits(o) => if o == I32Op::Eqz {
            match st.pop() {
                None => None,
                Some((v, s1)) => Some(s1.push(bits_result(o, 0, v))),
            }
        } else {
            on_two(|a: u32, b: u32| Some(bits_result(o, a, b)), st)
        },
        _ => None,
    }
}

// ── runs ─────────────────────────────────────────────────────────────

/// How code ends: behind its last instruction, with a branch to an outer
/// block, with a return, or not at all.
pub enum Outcome {
    Next(State),
    Branch(nat, State),
    Return(State),
    Stuck,
}

/// A function that can be called. It gives one result.
pub struct Routine {
    pub params: nat,
    pub locals: nat,
    pub code: Code,
}

/// `n` operands, the last one on top, and the state below them.
pub open spec fn taken(st: State, n: nat) -> Option<(Seq<u32>, State)>
    decreases n,
{
    if n == 0 {
        Some((Seq::empty(), st))
    } else {
        match st.pop() {
            None => None,
            Some((v, s1)) => match taken(s1, (n - 1) as nat) {
                None => None,
                Some((args, s2)) => Some((args.push(v), s2)),
            },
        }
    }
}

/// The state in which a function begins: its arguments, and zero in its other
/// locals.
pub open spec fn entered(r: Routine, args: Seq<u32>, m: Machine) -> State {
    State {
        machine: m,
        locals: args + Seq::new(r.locals, |i: int| 0u32),
        stack: Stack::Empty,
    }
}

/// The result of a function and what it leaves behind.
pub open spec fn result_of(o: Outcome) -> Option<(u32, Machine)> {
    match o {
        Outcome::Next(s) => match s.pop() {
            None => None,
            Some((v, _)) => Some((v, s.machine)),
        },
        Outcome::Return(s) => match s.pop() {
            None => None,
            Some((v, _)) => Some((v, s.machine)),
        },
        _ => None,
    }
}

/// What code does from a state on, where it goes round loops and calls
/// functions at most `fuel` times on each path.
#[verifier::opaque]
pub open spec fn exec(fs: Map<u32, Routine>, c: Code, st: State, fuel: nat) -> Outcome
    decreases fuel, c,
{
    match c {
        Code::Done => Outcome::Next(st),
        Code::Op(i, rest) => match i {
            Instr::Br(n) => Outcome::Branch(n as nat, st),
            Instr::BrIf(n) => match st.pop() {
                None => Outcome::Stuck,
                Some((v, s1)) => if v != 0 {
                    Outcome::Branch(n as nat, s1)
                } else {
                    exec(fs, *rest, s1, fuel)
                },
            },
            Instr::Return => Outcome::Return(st),
            Instr::Call(f) => if fuel == 0 || !fs.dom().contains(f) {
                Outcome::Stuck
            } else {
                match taken(st, fs[f].params) {
                    None => Outcome::Stuck,
                    Some((args, s1)) => match result_of(
                        exec(
                            fs,
                            fs[f].code,
                            entered(fs[f], args, st.machine),
                            (fuel - 1) as nat,
                        ),
                    ) {
                        None => Outcome::Stuck,
                        Some((v, m)) => exec(
                            fs,
                            *rest,
                            (State { machine: m, ..s1 }).push(v),
                            fuel,
                        ),
                    },
                }
            },
            _ => match step(i, st) {
                None => Outcome::Stuck,
                Some(s1) => exec(fs, *rest, s1, fuel),
            },
        },
        Code::Block(body, rest) => match exec(fs, *body, st, fuel) {
            Outcome::Next(s1) => exec(fs, *rest, s1, fuel),
            Outcome::Branch(n, s1) => if n == 0 {
                exec(fs, *rest, State { stack: st.stack, ..s1 }, fuel)
            } else {
                Outcome::Branch((n - 1) as nat, s1)
            },
            o => o,
        },
        Code::Loop(body, rest) => match exec(fs, *body, st, fuel) {
            Outcome::Next(s1) => exec(fs, *rest, s1, fuel),
            Outcome::Branch(n, s1) => if n > 0 {
                Outcome::Branch((n - 1) as nat, s1)
            } else if fuel == 0 {
                Outcome::Stuck
            } else {
                exec(fs, c, State { stack: st.stack, ..s1 }, (fuel - 1) as nat)
            },
            o => o,
        },
        Code::If(body, rest) => match st.pop() {
            None => Outcome::Stuck,
            Some((v, s0)) => if v == 0 {
                exec(fs, *rest, s0, fuel)
            } else {
                match exec(fs, *body, s0, fuel) {
                    Outcome::Next(s1) => exec(fs, *rest, s1, fuel),
                    Outcome::Branch(n, s1) => if n == 0 {
                        exec(fs, *rest, State { stack: s0.stack, ..s1 }, fuel)
                    } else {
                        Outcome::Branch((n - 1) as nat, s1)
                    },
                    o => o,
                }
            },
        },
    }
}

/// The result of a function that is called with `args`.
pub open spec fn run(
    fs: Map<u32, Routine>,
    r: Routine,
    args: Seq<u32>,
    m: Machine,
    fuel: nat,
) -> Option<(u32, Machine)> {
    result_of(exec(fs, r.code, entered(r, args, m), fuel))
}

// ── unfolding ────────────────────────────────────────────────────────

/// The end of the code.
pub broadcast proof fn lemma_done(fs: Map<u32, Routine>, st: State, fuel: nat)
    ensures
        #[trigger] exec(fs, Code::Done, st, fuel) == Outcome::Next(st),
{
    reveal_with_fuel(exec, 2);
}

/// A local is read.
pub broadcast proof fn lemma_get(fs: Map<u32, Routine>, x: u32, rest: Code, st: State, fuel: nat)
    requires
        x < st.locals.len(),
    ensures
        #[trigger] exec(fs, Code::op(Instr::LocalGet(x), rest), st, fuel) == exec(
            fs,
            rest,
            st.push(st.locals[x as int]),
            fuel,
        ),
{
    reveal_with_fuel(exec, 2);
}

/// A local is set.
pub broadcast proof fn lemma_set(
    fs: Map<u32, Routine>,
    x: u32,
    rest: Code,
    st: State,
    v: u32,
    fuel: nat,
)
    requires
        x < st.locals.len(),
    ensures
        #[trigger] exec(fs, Code::op(Instr::LocalSet(x), rest), st.push(v), fuel) == exec(
            fs,
            rest,
            st.with_local(x, v),
            fuel,
        ),
{
    reveal_with_fuel(exec, 2);
}

/// A local is set, and its value stays.
pub broadcast proof fn lemma_tee(
    fs: Map<u32, Routine>,
    x: u32,
    rest: Code,
    st: State,
    v: u32,
    fuel: nat,
)
    requires
        x < st.locals.len(),
    ensures
        #[trigger] exec(fs, Code::op(Instr::LocalTee(x), rest), st.push(v), fuel) == exec(
            fs,
            rest,
            st.with_local(x, v).push(v),
            fuel,
        ),
{
    reveal_with_fuel(exec, 2);
}

/// The heap pointer is read.
pub broadcast proof fn lemma_heap_get(fs: Map<u32, Routine>, rest: Code, st: State, fuel: nat)
    ensures
        #[trigger] exec(
            fs,
            Code::op(Instr::GlobalGet(HEAP_PTR_GLOBAL_INDEX), rest),
            st,
            fuel,
        ) == exec(fs, rest, st.push(st.machine.heap), fuel),
{
    reveal_with_fuel(exec, 2);
}

/// The heap pointer is set.
pub broadcast proof fn lemma_heap_set(
    fs: Map<u32, Routine>,
    rest: Code,
    st: State,
    v: u32,
    fuel: nat,
)
    ensures
        #[trigger] exec(
            fs,
            Code::op(Instr::GlobalSet(HEAP_PTR_GLOBAL_INDEX), rest),
            st.push(v),
            fuel,
        ) == exec(fs, rest, st.with_heap(v), fuel),
{
    reveal_with_fuel(exec, 2);
}

/// A constant.
pub broadcast proof fn lemma_const(fs: Map<u32, Routine>, c: i32, rest: Code, st: State, fuel: nat)
    ensures
        #[trigger] exec(fs, Code::op(Instr::I32Const(c), rest), st, fuel) == exec(
            fs,
            rest,
            st.push(wrap(c as int)),
            fuel,
        ),
{
    reveal_with_fuel(exec, 2);
}

/// An operation on two numbers.
pub broadcast proof fn lemma_int(
    fs: Map<u32, Routine>,
    o: IntOp,
    rest: Code,
    st: State,
    a: u32,
    b: u32,
    fuel: nat,
)
    requires
        int_result(o, a, b) is Some,
    ensures
        #[trigger] exec(fs, Code::op(Instr::I32(o), rest), st.push(a).push(b), fuel) == exec(
            fs,
            rest,
            st.push(int_result(o, a, b)->0),
            fuel,
        ),
{
    reveal_with_fuel(exec, 2);
}

/// An operation on the bits of two numbers, or their order.
pub broadcast proof fn lemma_bits(
    fs: Map<u32, Routine>,
    o: I32Op,
    rest: Code,
    st: State,
    a: u32,
    b: u32,
    fuel: nat,
)
    requires
        o != I32Op::Eqz,
    ensures
        #[trigger] exec(fs, Code::op(Instr::I32Bits(o), rest), st.push(a).push(b), fuel) == exec(
            fs,
            rest,
            st.push(bits_result(o, a, b)),
            fuel,
        ),
{
    reveal_with_fuel(exec, 2);
}

/// A test for zero.
pub broadcast proof fn lemma_eqz(fs: Map<u32, Routine>, rest: Code, st: State, v: u32, fuel: nat)
    ensures
        #[trigger] exec(fs, Code::op(Instr::I32Bits(I32Op::Eqz), rest), st.push(v), fuel) == exec(
            fs,
            rest,
            st.push(flag(v == 0)),
            fuel,
        ),
{
    reveal_with_fuel(exec, 2);
}

/// A word is read.
pub broadcast proof fn lemma_load(
    fs: Map<u32, Routine>,
    arg: MemArg,
    rest: Code,
    st: State,
    base: u32,
    fuel: nat,
)
    requires
        arg.memory_index == MEMORY_INDEX,
        base + arg.offset + 4 <= st.machine.mem.len(),
    ensures
        #[trigger] exec(
            fs,
            Code::op(Instr::Load(LoadOp::I32, arg), rest),
            st.push(base),
            fuel,
        ) == exec(
            fs,
            rest,
            st.push(crate::string_pool::read_le32(st.machine.mem, base + arg.offset) as u32),
            fuel,
        ),
{
    reveal_with_fuel(exec, 2);
}

/// A byte is read.
pub broadcast proof fn lemma_load_byte(
    fs: Map<u32, Routine>,
    arg: MemArg,
    rest: Code,
    st: State,
    base: u32,
    fuel: nat,
)
    requires
        arg.memory_index == MEMORY_INDEX,
        base + arg.offset < st.machine.mem.len(),
    ensures
        #[trigger] exec(
            fs,
            Code::op(Instr::Load(LoadOp::I32Byte, arg), rest),
            st.push(base),
            fuel,
        ) == exec(fs, rest, st.push(st.machine.mem[base + arg.offset] as u32), fuel),
{
    reveal_with_fuel(exec, 2);
}

/// A word is written.
pub broadcast proof fn lemma_store(
    fs: Map<u32, Routine>,
    arg: MemArg,
    rest: Code,
    st: State,
    base: u32,
    v: u32,
    fuel: nat,
)
    requires
        arg.memory_index == MEMORY_INDEX,
        base + arg.offset + 4 <= st.machine.mem.len(),
    ensures
        #[trigger] exec(
            fs,
            Code::op(Instr::Store(StoreOp::I32, arg), rest),
            st.push(base).push(v),
            fuel,
        ) == exec(
            fs,
            rest,
            st.with_memory(
                overwritten(st.machine.mem, base + arg.offset, crate::string_pool::le32(v)),
            ),
            fuel,
        ),
{
    reveal_with_fuel(exec, 2);
}

/// Bytes are copied.
pub broadcast proof fn lemma_copy(
    fs: Map<u32, Routine>,
    rest: Code,
    st: State,
    dst: u32,
    src: u32,
    n: u32,
    fuel: nat,
)
    requires
        src + n <= st.machine.mem.len(),
        dst + n <= st.machine.mem.len(),
    ensures
        #[trigger] exec(
            fs,
            Code::op(
                Instr::MemoryCopy { src_mem: MEMORY_INDEX, dst_mem: MEMORY_INDEX },
                rest,
            ),
            st.push(dst).push(src).push(n),
            fuel,
        ) == exec(
            fs,
            rest,
            st.with_memory(
                overwritten(
                    st.machine.mem,
                    dst as int,
                    st.machine.mem.subrange(src as int, src + n),
                ),
            ),
            fuel,
        ),
{
    reveal_with_fuel(exec, 2);
}

/// A function with one parameter is called.
pub proof fn lemma_call(
    fs: Map<u32, Routine>,
    f: u32,
    rest: Code,
    st: State,
    v: u32,
    fuel: nat,
)
    requires
        fuel > 0,
        fs.dom().contains(f),
        fs[f].params == 1,
    ensures
        exec(fs, Code::op(Instr::Call(f), rest), st.push(v), fuel) == match run(
            fs,
            fs[f],
            seq![v],
            st.machine,
            (fuel - 1) as nat,
        ) {
            None => Outcome::Stuck,
            Some((r, m)) => exec(fs, rest, (State { machine: m, ..st }).push(r), fuel),
        },
{
    reveal_with_fuel(exec, 2);
    reveal_with_fuel(taken, 2);
    assert(Seq::<u32>::empty().push(v) =~= seq![v]);
}

/// A function with two parameters is called.
pub proof fn lemma_call_two(
    fs: Map<u32, Routine>,
    f: u32,
    rest: Code,
    st: State,
    a: u32,
    b: u32,
    fuel: nat,
)
    requires
        fuel > 0,
        fs.dom().contains(f),
        fs[f].params == 2,
    ensures
        exec(fs, Code::op(Instr::Call(f), rest), st.push(a).push(b), fuel) == match run(
            fs,
            fs[f],
            seq![a, b],
            st.machine,
            (fuel - 1) as nat,
        ) {
            None => Outcome::Stuck,
            Some((r, m)) => exec(fs, rest, (State { machine: m, ..st }).push(r), fuel),
        },
{
    reveal_with_fuel(exec, 2);
    reveal_with_fuel(taken, 3);
    assert(Seq::<u32>::empty().push(a).push(b) =~= seq![a, b]);
}

/// A branch.
pub broadcast proof fn lemma_br(fs: Map<u32, Routine>, n: u32, rest: Code, st: State, fuel: nat)
    ensures
        #[trigger] exec(fs, Code::op(Instr::Br(n), rest), st, fuel) == Outcome::Branch(n as nat, st),
{
    reveal_with_fuel(exec, 2);
}

/// A conditional branch.
pub broadcast proof fn lemma_br_if(fs: Map<u32, Routine>, n: u32, rest: Code, st: State, fuel: nat)
    ensures
        #[trigger] exec(fs, Code::op(Instr::BrIf(n), rest), st, fuel) == match st.pop() {
            None => Outcome::Stuck,
            Some((v, s1)) => if v != 0 {
                Outcome::Branch(n as nat, s1)
            } else {
                exec(fs, rest, s1, fuel)
            },
        },
{
    reveal_with_fuel(exec, 2);
}

/// A return.
pub broadcast proof fn lemma_return(fs: Map<u32, Routine>, rest: Code, st: State, fuel: nat)
    ensures
        #[trigger] exec(fs, Code::op(Instr::Return, rest), st, fuel) == Outcome::Return(st),
{
    reveal_with_fuel(exec, 2);
}

/// A condition.
pub broadcast proof fn lemma_when(
    fs: Map<u32, Routine>,
    body: Code,
    rest: Code,
    st: State,
    fuel: nat,
)
    ensures
        #[trigger] exec(fs, Code::when(body, rest), st, fuel) == match st.pop() {
            None => Outcome::Stuck,
            Some((v, s0)) => if v == 0 {
                exec(fs, rest, s0, fuel)
            } else {
                match exec(fs, body, s0, fuel) {
                    Outcome::Next(s1) => exec(fs, rest, s1, fuel),
                    Outcome::Branch(n, s1) => if n == 0 {
                        exec(fs, rest, State { stack: s0.stack, ..s1 }, fuel)
                    } else {
                        Outcome::Branch((n - 1) as nat, s1)
                    },
                    o => o,
                }
            },
        },
{
    reveal_with_fuel(exec, 2);
}

/// A block.
pub proof fn lemma_block(fs: Map<u32, Routine>, body: Code, rest: Code, st: State, fuel: nat)
    ensures
        exec(fs, Code::block(body, rest), st, fuel) == match exec(fs, body, st, fuel) {
            Outcome::Next(s1) => exec(fs, rest, s1, fuel),
            Outcome::Branch(n, s1) => if n == 0 {
                exec(fs, rest, State { stack: st.stack, ..s1 }, fuel)
            } else {
                Outcome::Branch((n - 1) as nat, s1)
            },
            o => o,
        },
{
    reveal_with_fuel(exec, 2);
}

/// A round of a loop.
pub proof fn lemma_repeat(fs: Map<u32, Routine>, body: Code, rest: Code, st: State, fuel: nat)
    ensures
        exec(fs, Code::repeat(body, rest), st, fuel) == match exec(fs, body, st, fuel) {
            Outcome::Next(s1) => exec(fs, rest, s1, fuel),
            Outcome::Branch(n, s1) => if n > 0 {
                Outcome::Branch((n - 1) as nat, s1)
            } else if fuel == 0 {
                Outcome::Stuck
            } else {
                exec(fs, Code::repeat(body, rest), State { stack: st.stack, ..s1 }, (fuel - 1) as nat)
            },
            o => o,
        },
{
    reveal_with_fuel(exec, 2);
}

/// All steps but blocks, loops and calls.
pub broadcast group group_steps {
    lemma_done,
    lemma_get,
    lemma_set,
    lemma_tee,
    lemma_heap_get,
    lemma_heap_set,
    lemma_const,
    lemma_int,
    lemma_bits,
    lemma_eqz,
    lemma_load,
    lemma_load_byte,
    lemma_store,
    lemma_copy,
    lemma_br,
    lemma_br_if,
    lemma_return,
    lemma_when,
}

} // verus!
