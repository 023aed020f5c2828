//! What code does with values of every type.
//!
//! [`crate::machine`] runs the helpers, which know words only. Here code has
//! integers and floats of both widths, and holes: the code of an expression
//! inside the code of another one is a [`Piece`] that does something unknown.
//! What is shown of code with such pieces holds whatever they do.

use vstd::arithmetic::power2::pow2;
use vstd::prelude::*;

use crate::instr::{BlockType, FloatOp, I32Op, Instr, IntOp, LoadOp, MemArg, StoreOp, ValType};
use crate::ir::{IrExpr, List, ResolvedType};
use crate::lower::context::{Cx, SinkView};
use crate::module::{HEAP_PTR_GLOBAL_INDEX, MEMORY_INDEX};

verus! {

// ── values ───────────────────────────────────────────────────────────

/// A value, by its bits.
pub enum Value {
    I32(u32),
    I64(u64),
    F32(u32),
    F64(u64),
}

impl Value {
    /// The bits as a number.
    pub open spec fn bits(self) -> nat {
        match self {
            Value::I32(v) => v as nat,
            Value::I64(v) => v as nat,
            Value::F32(v) => v as nat,
            Value::F64(v) => v as nat,
        }
    }

    /// The type.
    pub open spec fn ty(self) -> ValType {
        match self {
            Value::I32(_) => ValType::I32,
            Value::I64(_) => ValType::I64,
            Value::F32(_) => ValType::F32,
            Value::F64(_) => ValType::F64,
        }
    }
}

/// The value of a type with the given bits.
pub open spec fn value_of(ty: ValType, bits: nat) -> Value {
    match ty {
        ValType::I32 => Value::I32(bits as u32),
        ValType::I64 => Value::I64(bits as u64),
        ValType::F32 => Value::F32(bits as u32),
        ValType::F64 => Value::F64(bits as u64),
    }
}

/// A truth value.
pub open spec fn truth(b: bool) -> Value {
    Value::I32(
        if b {
            1
        } else {
            0
        },
    )
}

// ── integers ─────────────────────────────────────────────────────────

/// The signed number with the bits of a word.
pub open spec fn signed32(x: u32) -> int {
    if x < 0x8000_0000 {
        x as int
    } else {
        x - 0x1_0000_0000
    }
}

/// The signed number with the bits of a double word.
pub open spec fn signed64(x: u64) -> int {
    if x < 0x8000_0000_0000_0000 {
        x as int
    } else {
        x - 0x1_0000_0000_0000_0000
    }
}

/// The word with the low bits of a number.
pub open spec fn word(x: int) -> u32 {
    (x % 0x1_0000_0000) as u32
}

/// The double word with the low bits of a number.
pub open spec fn double_word(x: int) -> u64 {
    (x % 0x1_0000_0000_0000_0000) as u64
}

/// The quotient of two numbers, rounded towards zero.
pub open spec fn quotient(a: int, b: int) -> int {
    if a >= 0 && b > 0 {
        a / b
    } else if a >= 0 {
        -(a / (-b))
    } else if b > 0 {
        -((-a) / b)
    } else {
        (-a) / (-b)
    }
}

/// What a division leaves over; it has the sign of the dividend.
pub open spec fn left_over(a: int, b: int) -> int {
    a - b * quotient(a, b)
}

/// The exact result of an arithmetic instruction on signed numbers of which
/// `limit` is the first that is too large. `None` where it traps, and for
/// comparisons.
pub open spec fn exact(o: IntOp, a: int, b: int, limit: int) -> Option<int> {
    match o {
        IntOp::Add => Some(a + b),
        IntOp::Sub => Some(a - b),
        IntOp::Mul => Some(a * b),
        IntOp::DivS => if b == 0 || quotient(a, b) == limit {
            None
        } else {
            Some(quotient(a, b))
        },
        IntOp::RemS => if b == 0 {
            None
        } else {
            Some(left_over(a, b))
        },
        _ => None,
    }
}

/// The outcome of a comparing instruction on signed numbers; `None` for the
/// others.
pub open spec fn compared(o: IntOp, a: int, b: int) -> Option<bool> {
    match o {
        IntOp::Eq => Some(a == b),
        IntOp::Ne => Some(a != b),
        IntOp::LtS => Some(a < b),
        IntOp::GtS => Some(a > b),
        IntOp::LeS => Some(a <= b),
        IntOp::GeS => Some(a >= b),
        _ => None,
    }
}

/// The result of an integer instruction on two values of its type.
pub open spec fn int_result(o: IntOp, a: Value, b: Value) -> Option<Value> {
    match (a, b) {
        (Value::I32(x), Value::I32(y)) => match compared(o, signed32(x), signed32(y)) {
            Some(c) => Some(truth(c)),
            None => match exact(o, signed32(x), signed32(y), 0x8000_0000) {
                Some(r) => Some(Value::I32(word(r))),
                None => None,
            },
        },
        (Value::I64(x), Value::I64(y)) => match compared(o, signed64(x), signed64(y)) {
            Some(c) => Some(truth(c)),
            None => match exact(o, signed64(x), signed64(y), 0x8000_0000_0000_0000) {
                Some(r) => Some(Value::I64(double_word(r))),
                None => None,
            },
        },
        _ => None,
    }
}

// ── floats ───────────────────────────────────────────────────────────

/// A float format: bits of the fraction, and the number of exponents.
pub struct Format {
    pub fraction: nat,
    pub exponents: nat,
}

/// Single precision.
pub open spec fn single() -> Format {
    Format { fraction: 23, exponents: 256 }
}

/// Double precision.
pub open spec fn double() -> Format {
    Format { fraction: 52, exponents: 2048 }
}

/// The exponent field of a float.
pub open spec fn exponent(f: Format, bits: nat) -> nat {
    (bits / pow2(f.fraction)) % f.exponents
}

/// Whether a float is negative.
pub open spec fn is_negative(f: Format, bits: nat) -> bool {
    bits >= pow2(f.fraction) * f.exponents
}

/// The bits of a float without its sign.
pub open spec fn magnitude(f: Format, bits: nat) -> int {
    if is_negative(f, bits) {
        bits - pow2(f.fraction) * f.exponents
    } else {
        bits as int
    }
}

/// Whether a float is a number, and not too large to be one.
pub open spec fn is_finite(f: Format, bits: nat) -> bool {
    exponent(f, bits) + 1 < f.exponents && bits < 2 * (pow2(f.fraction) * f.exponents)
}

/// Whether a float is no number at all.
pub open spec fn is_nan(f: Format, bits: nat) -> bool {
    exponent(f, bits) + 1 == f.exponents && bits % pow2(f.fraction) != 0
}

/// The number that a finite float is, counted in the smallest positive one.
pub open spec fn number(f: Format, bits: nat) -> int {
    let fraction = (bits % pow2(f.fraction)) as int;
    let size = if exponent(f, bits) == 0 {
        fraction
    } else {
        (pow2(f.fraction) + fraction) * pow2((exponent(f, bits) - 1) as nat)
    };
    if is_negative(f, bits) {
        -size
    } else {
        size
    }
}

/// A number that orders floats: larger floats have larger ones, and both zeros
/// have the same.
pub open spec fn rank(f: Format, bits: nat) -> int {
    if is_negative(f, bits) {
        -magnitude(f, bits)
    } else {
        magnitude(f, bits)
    }
}

/// The distance of two numbers.
pub open spec fn distance(a: int, b: int) -> int {
    if a < b {
        b - a
    } else {
        a - b
    }
}

/// `bits` is the float nearest to `num / den`, the even one of two.
pub open spec fn is_nearest(f: Format, bits: nat, num: int, den: int) -> bool {
    &&& is_finite(f, bits)
    &&& forall|c: nat| #[trigger]
        is_finite(f, c) ==> {
            &&& distance(number(f, bits) * den, num) <= distance(number(f, c) * den, num)
            &&& distance(number(f, bits) * den, num) == distance(number(f, c) * den, num) && number(
                f,
                bits,
            ) != number(f, c) ==> bits % 2 == 0
        }
}

/// The float arithmetic of a machine, on bits.
pub struct Floats {
    pub sum: spec_fn(Format, nat, nat) -> nat,
    pub difference: spec_fn(Format, nat, nat) -> nat,
    pub product: spec_fn(Format, nat, nat) -> nat,
    pub quotient: spec_fn(Format, nat, nat) -> nat,
}

/// The outcome of a comparing float instruction; `None` for the others.
pub open spec fn float_compared(o: FloatOp, f: Format, a: nat, b: nat) -> Option<bool> {
    let ordered = !is_nan(f, a) && !is_nan(f, b);
    match o {
        FloatOp::Eq => Some(ordered && rank(f, a) == rank(f, b)),
        FloatOp::Ne => Some(!(ordered && rank(f, a) == rank(f, b))),
        FloatOp::Lt => Some(ordered && rank(f, a) < rank(f, b)),
        FloatOp::Gt => Some(ordered && rank(f, a) > rank(f, b)),
        FloatOp::Le => Some(ordered && rank(f, a) <= rank(f, b)),
        FloatOp::Ge => Some(ordered && rank(f, a) >= rank(f, b)),
        _ => None,
    }
}

/// The result of an arithmetic float instruction on two floats; `None` for
/// the others.
pub open spec fn float_computed(o: FloatOp, f: Format, a: nat, b: nat, m: Floats) -> Option<nat> {
    match o {
        FloatOp::Add => Some((m.sum)(f, a, b)),
        FloatOp::Sub => Some((m.difference)(f, a, b)),
        FloatOp::Mul => Some((m.product)(f, a, b)),
        FloatOp::Div => Some((m.quotient)(f, a, b)),
        _ => None,
    }
}

/// The float with the other sign.
pub open spec fn negated(f: Format, bits: nat) -> nat {
    if is_negative(f, bits) {
        magnitude(f, bits) as nat
    } else {
        bits + pow2(f.fraction) * f.exponents
    }
}

/// The result of a float instruction on two values of its type.
pub open spec fn float_result(o: FloatOp, a: Value, b: Value, m: Floats) -> Option<Value> {
    match (a, b) {
        (Value::F32(x), Value::F32(y)) => match float_compared(o, single(), x as nat, y as nat) {
            Some(c) => Some(truth(c)),
            None => match float_computed(o, single(), x as nat, y as nat, m) {
                Some(r) => Some(Value::F32(r as u32)),
                None => None,
            },
        },
        (Value::F64(x), Value::F64(y)) => match float_compared(o, double(), x as nat, y as nat) {
            Some(c) => Some(truth(c)),
            None => match float_computed(o, double(), x as nat, y as nat, m) {
                Some(r) => Some(Value::F64(r as u64)),
                None => None,
            },
        },
        _ => None,
    }
}

// ── memory ───────────────────────────────────────────────────────────

/// The number in the `n` bytes at `at`, least significant first.
pub open spec fn read(mem: Seq<u8>, at: int, n: nat) -> nat {
    crate::lower::storage::byte_number(mem.subrange(at, at + n))
}

/// The memory with the `n` low bytes of `v` at `at`.
pub open spec fn write(mem: Seq<u8>, at: int, v: nat, n: nat) -> Seq<u8> {
    crate::machine::overwritten(mem, at, crate::lower::storage::low_bytes(v, n))
}

/// The type of the value that a load gives.
pub open spec fn load_type(o: LoadOp) -> ValType {
    match o {
        LoadOp::I32 => ValType::I32,
        LoadOp::I32Byte => ValType::I32,
        LoadOp::I64 => ValType::I64,
        LoadOp::F32 => ValType::F32,
        LoadOp::F64 => ValType::F64,
    }
}

/// The type of the value that a store takes.
pub open spec fn store_type(o: StoreOp) -> ValType {
    match o {
        StoreOp::I32 => ValType::I32,
        StoreOp::I32Byte => ValType::I32,
        StoreOp::I64 => ValType::I64,
        StoreOp::F32 => ValType::F32,
        StoreOp::F64 => ValType::F64,
    }
}

// ── states ───────────────────────────────────────────────────────────

/// The operands, the last one on top.
pub enum Stack {
    Empty,
    Push(Value, Box<Stack>),
}

/// A function while it runs, with the memory and the heap pointer.
pub struct State {
    pub mem: Seq<u8>,
    pub heap: u32,
    pub locals: Seq<Value>,
    pub stack: Stack,
}

impl State {
    /// One more operand.
    pub open spec fn push(self, v: Value) -> State {
        State { stack: Stack::Push(v, Box::new(self.stack)), ..self }
    }

    /// The operand on top, and the state without it.
    pub open spec fn pop(self) -> Option<(Value, State)> {
        match self.stack {
            Stack::Empty => None,
            Stack::Push(v, rest) => Some((v, State { stack: *rest, ..self })),
        }
    }

    /// Local `x` is `v`.
    pub open spec fn with_local(self, x: u32, v: Value) -> State {
        State { locals: self.locals.update(x as int, v), ..self }
    }

    /// The memory is `mem`.
    pub open spec fn with_memory(self, mem: Seq<u8>) -> State {
        State { mem, ..self }
    }
}

/// What code finds around it: float arithmetic, and functions to call. A call
/// takes its arguments off the stack and leaves its result there.
pub struct Env {
    pub floats: Floats,
    pub call: spec_fn(u32, State) -> Option<State>,
    pub call_indirect: spec_fn(u32, u32, u32, State) -> Option<State>,
}

/// A load through the pointer on top.
pub open spec fn loaded(o: LoadOp, arg: MemArg, st: State) -> Option<State> {
    match st.pop() {
        Some((Value::I32(base), s1)) => {
            let n = crate::lower::storage::load_width(o);
            if arg.memory_index == MEMORY_INDEX && base + arg.offset + n <= st.mem.len() {
                Some(s1.push(value_of(load_type(o), read(st.mem, base + arg.offset, n))))
            } else {
                None
            }
        },
        _ => None,
    }
}

/// A store of the operand on top through the pointer below it.
pub open spec fn stored(o: StoreOp, arg: MemArg, st: State) -> Option<State> {
    match st.pop() {
        Some((v, s1)) => match s1.pop() {
            Some((Value::I32(base), s2)) => {
                let n = crate::lower::storage::store_width(o);
                if arg.memory_index == MEMORY_INDEX && v.ty() == store_type(o) && base + arg.offset
                    + n <= st.mem.len() {
                    Some(s2.with_memory(write(st.mem, base + arg.offset, v.bits(), n)))
                } else {
                    None
                }
            },
            _ => None,
        },
        None => None,
    }
}

/// The two operands on top, the last one on top, and the state without them.
pub open spec fn pop_two(st: State) -> Option<(Value, Value, State)> {
    match st.pop() {
        Some((b, s1)) => match s1.pop() {
            Some((a, s2)) => Some((a, b, s2)),
            None => None,
        },
        None => None,
    }
}

/// A state with a result, if there is one.
pub open spec fn pushed(v: Option<Value>, st: State) -> Option<State> {
    match v {
        Some(v) => Some(st.push(v)),
        None => None,
    }
}

/// The result of an instruction on bits or unsigned words.
pub open spec fn word_result(o: I32Op, a: Value, b: Value) -> Option<Value> {
    match (a, b) {
        (Value::I32(x), Value::I32(y)) => match o {
            I32Op::And => Some(Value::I32(x & y)),
            I32Op::Or => Some(Value::I32(x | y)),
            I32Op::GeU => Some(truth(x >= y)),
            I32Op::GtU => Some(truth(x > y)),
            I32Op::Eqz => None,
        },
        _ => None,
    }
}

/// The state behind an instruction that goes on with the next one; `None`
/// where it traps.
pub open spec fn step(i: Instr, st: State, env: Env) -> Option<State> {
    match i {
        Instr::Drop => match st.pop() {
            Some((_, s1)) => Some(s1),
            None => None,
        },
        Instr::LocalGet(x) => if x < st.locals.len() {
            Some(st.push(st.locals[x as int]))
        } else {
            None
        },
        Instr::LocalSet(x) => match st.pop() {
            Some((v, s1)) => if x < st.locals.len() {
                Some(s1.with_local(x, v))
            } else {
                None
            },
            None => None,
        },
        Instr::LocalTee(x) => match st.pop() {
            Some((v, _)) => if x < st.locals.len() {
                Some(st.with_local(x, v))
            } else {
                None
            },
            None => None,
        },
        Instr::GlobalGet(x) => if x == HEAP_PTR_GLOBAL_INDEX {
            Some(st.push(Value::I32(st.heap)))
        } else {
            None
        },
        Instr::GlobalSet(x) => match st.pop() {
            Some((Value::I32(v), s1)) => if x == HEAP_PTR_GLOBAL_INDEX {
                Some(State { heap: v, ..s1 })
            } else {
                None
            },
            _ => None,
        },
        Instr::I32Const(c) => Some(st.push(Value::I32(word(c as int)))),
        Instr::I64Const(c) => Some(st.push(Value::I64(double_word(c as int)))),
        Instr::F32Const(bits) => Some(st.push(Value::F32(bits))),
        Instr::F64Const(bits) => Some(st.push(Value::F64(bits))),
        Instr::Load(o, arg) => loaded(o, arg, st),
        Instr::Store(o, arg) => stored(o, arg, st),
        Instr::I32(o) => match pop_two(st) {
            Some((a, b, s1)) => if a is I32 {
                pushed(int_result(o, a, b), s1)
            } else {
                None
            },
            None => None,
        },
        Instr::I64(o) => match pop_two(st) {
            Some((a, b, s1)) => if a is I64 {
                pushed(int_result(o, a, b), s1)
            } else {
                None
            },
            None => None,
        },
        Instr::F32(o) => if o == FloatOp::Neg {
            match st.pop() {
                Some((Value::F32(x), s1)) => Some(
                    s1.push(Value::F32(negated(single(), x as nat) as u32)),
                ),
                _ => None,
            }
        } else {
            match pop_two(st) {
                Some((a, b, s1)) => if a is F32 {
                    pushed(float_result(o, a, b, env.floats), s1)
                } else {
                    None
                },
                None => None,
            }
        },
        Instr::F64(o) => if o == FloatOp::Neg {
            match st.pop() {
                Some((Value::F64(x), s1)) => Some(
                    s1.push(Value::F64(negated(double(), x as nat) as u64)),
                ),
                _ => None,
            }
        } else {
            match pop_two(st) {
                Some((a, b, s1)) => if a is F64 {
                    pushed(float_result(o, a, b, env.floats), s1)
                } else {
                    None
                },
                None => None,
            }
        },
        Instr::I32Bits(o) => if o == I32Op::Eqz {
            match st.pop() {
                Some((Value::I32(x), s1)) => Some(s1.push(truth(x == 0))),
                _ => None,
            }
        } else {
            match pop_two(st) {
                Some((a, b, s1)) => pushed(word_result(o, a, b), s1),
                None => None,
            }
        },
        Instr::Call(f) => (env.call)(f, st),
        Instr::CallIndirect { table_index, type_index } => match st.pop() {
            Some((Value::I32(k), s1)) => (env.call_indirect)(table_index, type_index, k, s1),
            _ => None,
        },
        _ => None,
    }
}

// ── code ─────────────────────────────────────────────────────────────

/// How code ends: behind its last instruction, with a branch to an outer
/// block, or not at all.
pub enum Outcome {
    Next(State),
    Branch(nat, State),
    Trap,
}

/// The code of an expression inside that of another one, and what it does.
/// With `into` the expression flows into a slot of that type.
pub struct Piece {
    pub e: IrExpr,
    pub into: Option<ResolvedType>,
    pub effect: spec_fn(State) -> Outcome,
}

/// Code by its structure. Taking a scratch local is no instruction, but other
/// code may take the next one.
pub enum Tree {
    Done,
    Step(Instr, Box<Tree>),
    Scratch(ValType, Box<Tree>),
    Piece(Piece, Box<Tree>),
    Block(BlockType, Box<Tree>, Box<Tree>),
    Loop(Box<Tree>, Box<Tree>),
    When(BlockType, Box<Tree>, Box<Tree>),
    Either(BlockType, Box<Tree>, Box<Tree>, Box<Tree>),
}

impl Tree {
    /// An instruction and what follows.
    pub open spec fn op(i: Instr, rest: Tree) -> Tree {
        Tree::Step(i, Box::new(rest))
    }

    /// Two instructions and what follows.
    pub open spec fn op2(i: Instr, j: Instr, rest: Tree) -> Tree {
        Tree::op(i, Tree::op(j, rest))
    }

    /// Three instructions and what follows.
    pub open spec fn op3(i: Instr, j: Instr, k: Instr, rest: Tree) -> Tree {
        Tree::op(i, Tree::op(j, Tree::op(k, rest)))
    }

    /// A scratch local and what follows.
    pub open spec fn take(ty: ValType, rest: Tree) -> Tree {
        Tree::Scratch(ty, Box::new(rest))
    }

    /// A piece and what follows.
    pub open spec fn piece(p: Piece, rest: Tree) -> Tree {
        Tree::Piece(p, Box::new(rest))
    }

    /// A block and what follows.
    pub open spec fn block(bt: BlockType, body: Tree, rest: Tree) -> Tree {
        Tree::Block(bt, Box::new(body), Box::new(rest))
    }

    /// A loop and what follows.
    pub open spec fn repeat(body: Tree, rest: Tree) -> Tree {
        Tree::Loop(Box::new(body), Box::new(rest))
    }

    /// Code under a condition and what follows.
    pub open spec fn when(bt: BlockType, body: Tree, rest: Tree) -> Tree {
        Tree::When(bt, Box::new(body), Box::new(rest))
    }

    /// One code or another and what follows.
    pub open spec fn either(bt: BlockType, yes: Tree, no: Tree, rest: Tree) -> Tree {
        Tree::Either(bt, Box::new(yes), Box::new(no), Box::new(rest))
    }
}

/// The sink behind a piece of code that begins at `s`.
pub open spec fn written_piece(p: Piece, s: SinkView, cx: Cx) -> SinkView {
    match p.into {
        Some(ty) => crate::lower::optional::coerced_code(p.e, ty, cx, s).sink,
        None => crate::lower::expr_code(p.e, cx, s).sink,
    }
}

/// The sink behind the code of `t` that begins at `s`.
pub open spec fn written(t: Tree, s: SinkView, cx: Cx) -> SinkView
    decreases t,
{
    match t {
        Tree::Done => s,
        Tree::Step(i, rest) => written(*rest, s.emit(i), cx),
        Tree::Scratch(ty, rest) => match s.scratch_local(ty) {
            Ok((_, s1)) => written(*rest, s1, cx),
            Err(_) => s,
        },
        Tree::Piece(p, rest) => written(*rest, written_piece(p, s, cx), cx),
        Tree::Block(bt, body, rest) => written(
            *rest,
            written(*body, s.emit(Instr::Block(bt)), cx).emit(Instr::End),
            cx,
        ),
        Tree::Loop(body, rest) => written(
            *rest,
            written(*body, s.emit(Instr::Loop(BlockType::Empty)), cx).emit(Instr::End),
            cx,
        ),
        Tree::When(bt, body, rest) => written(
            *rest,
            written(*body, s.emit(Instr::If(bt)), cx).emit(Instr::End),
            cx,
        ),
        Tree::Either(bt, yes, no, rest) => written(
            *rest,
            written(*no, written(*yes, s.emit(Instr::If(bt)), cx).emit(Instr::Else), cx).emit(
                Instr::End,
            ),
            cx,
        ),
    }
}

/// The pieces of code, in order.
pub open spec fn pieces(t: Tree) -> Seq<Piece>
    decreases t,
{
    match t {
        Tree::Done => Seq::empty(),
        Tree::Step(_, rest) => pieces(*rest),
        Tree::Scratch(_, rest) => pieces(*rest),
        Tree::Piece(p, rest) => seq![p] + pieces(*rest),
        Tree::Block(_, body, rest) => pieces(*body) + pieces(*rest),
        Tree::Loop(body, rest) => pieces(*body) + pieces(*rest),
        Tree::When(_, body, rest) => pieces(*body) + pieces(*rest),
        Tree::Either(_, yes, no, rest) => pieces(*yes) + pieces(*no) + pieces(*rest),
    }
}

/// The state behind a block that was left by a branch: its operands are those
/// from before it, and its result where it has one.
pub open spec fn left(bt: BlockType, before: State, at: State) -> Option<State> {
    match bt {
        BlockType::Empty => Some(State { stack: before.stack, ..at }),
        BlockType::Result(_) => match at.stack {
            Stack::Empty => None,
            Stack::Push(v, _) => Some(
                State { stack: Stack::Push(v, Box::new(before.stack)), ..at },
            ),
        },
    }
}

/// Whether an instruction decides where code goes on.
pub open spec fn is_jump(i: Instr) -> bool {
    i is Br || i is BrIf || i is BrTable || i is Unreachable || i is Return
}

/// What code does from a state on, where it goes round each loop at most `fuel`
/// times.
#[verifier::opaque]
pub open spec fn exec(t: Tree, st: State, env: Env, fuel: nat) -> Outcome
    decreases fuel, t,
{
    match t {
        Tree::Done => Outcome::Next(st),
        Tree::Step(i, rest) => match i {
            Instr::Br(n) => Outcome::Branch(n as nat, st),
            Instr::BrIf(n) => match st.pop() {
                Some((Value::I32(c), s1)) => if c != 0 {
                    Outcome::Branch(n as nat, s1)
                } else {
                    exec(*rest, s1, env, fuel)
                },
                _ => Outcome::Trap,
            },
            Instr::BrTable { targets, default } => match st.pop() {
                Some((Value::I32(k), s1)) => Outcome::Branch(
                    if k < targets.seq().len() {
                        targets.seq()[k as int] as nat
                    } else {
                        default as nat
                    },
                    s1,
                ),
                _ => Outcome::Trap,
            },
            Instr::Unreachable => Outcome::Trap,
            Instr::Return => Outcome::Trap,
            _ => match step(i, st, env) {
                Some(s1) => exec(*rest, s1, env, fuel),
                None => Outcome::Trap,
            },
        },
        Tree::Scratch(_, rest) => exec(*rest, st, env, fuel),
        Tree::Piece(p, rest) => match (p.effect)(st) {
            Outcome::Next(s1) => exec(*rest, s1, env, fuel),
            o => o,
        },
        Tree::Block(bt, body, rest) => match exec(*body, st, env, fuel) {
            Outcome::Next(s1) => exec(*rest, s1, env, fuel),
            Outcome::Branch(n, s1) => if n == 0 {
                match left(bt, st, s1) {
                    Some(s2) => exec(*rest, s2, env, fuel),
                    None => Outcome::Trap,
                }
            } else {
                Outcome::Branch((n - 1) as nat, s1)
            },
            Outcome::Trap => Outcome::Trap,
        },
        Tree::Loop(body, rest) => match exec(*body, st, env, fuel) {
            Outcome::Next(s1) => exec(*rest, s1, env, fuel),
            Outcome::Branch(n, s1) => if n > 0 {
                Outcome::Branch((n - 1) as nat, s1)
            } else if fuel == 0 {
                Outcome::Trap
            } else {
                exec(t, State { stack: st.stack, ..s1 }, env, (fuel - 1) as nat)
            },
            Outcome::Trap => Outcome::Trap,
        },
        Tree::When(bt, body, rest) => match st.pop() {
            Some((Value::I32(c), s0)) => if c == 0 {
                exec(*rest, s0, env, fuel)
            } else {
                match exec(*body, s0, env, fuel) {
                    Outcome::Next(s1) => exec(*rest, s1, env, fuel),
                    Outcome::Branch(n, s1) => if n == 0 {
                        match left(bt, s0, s1) {
                            Some(s2) => exec(*rest, s2, env, fuel),
                            None => Outcome::Trap,
                        }
                    } else {
                        Outcome::Branch((n - 1) as nat, s1)
                    },
                    Outcome::Trap => Outcome::Trap,
                }
            },
            _ => Outcome::Trap,
        },
        Tree::Either(bt, yes, no, rest) => match st.pop() {
            Some((Value::I32(c), s0)) => match if c != 0 {
                exec(*yes, s0, env, fuel)
            } else {
                exec(*no, s0, env, fuel)
            } {
                Outcome::Next(s1) => exec(*rest, s1, env, fuel),
                Outcome::Branch(n, s1) => if n == 0 {
                    match left(bt, s0, s1) {
                        Some(s2) => exec(*rest, s2, env, fuel),
                        None => Outcome::Trap,
                    }
                } else {
                    Outcome::Branch((n - 1) as nat, s1)
                },
                Outcome::Trap => Outcome::Trap,
            },
            _ => Outcome::Trap,
        },
    }
}

/// The code between two sinks, in which the code of the given pieces is all
/// that is unknown, does what `outcome` says.
pub open spec fn behaves(
    s: SinkView,
    end: SinkView,
    cx: Cx,
    parts: Seq<Piece>,
    st: State,
    env: Env,
    fuel: nat,
    outcome: Outcome,
) -> bool {
    exists|t: Tree| #[trigger]
        written(t, s, cx) == end && pieces(t) == parts && exec(t, st, env, fuel) == outcome
}

/// Every loop and branch of code is that of `t`.
pub proof fn lemma_behaves(
    t: Tree,
    s: SinkView,
    cx: Cx,
    parts: Seq<Piece>,
    st: State,
    env: Env,
    fuel: nat,
)
    requires
        pieces(t) =~= parts,
    ensures
        behaves(s, written(t, s, cx), cx, parts, st, env, fuel, exec(t, st, env, fuel)),
{
}

/// How code ends that ends with a call.
pub open spec fn called(env: Env, f: u32, st: State) -> Outcome {
    match (env.call)(f, st) {
        Some(s1) => Outcome::Next(s1),
        None => Outcome::Trap,
    }
}

/// How code ends that ends with a call through a table.
pub open spec fn called_through(env: Env, table: u32, ty: u32, slot: u32, st: State) -> Outcome {
    match (env.call_indirect)(table, ty, slot, st) {
        Some(s1) => Outcome::Next(s1),
        None => Outcome::Trap,
    }
}

// ── allocation ───────────────────────────────────────────────────────

/// The address of the next allocation: the heap pointer, rounded up.
pub open spec fn next_address(heap: u32) -> int {
    crate::layout::round_up(heap as int, crate::module::BUMP_ALLOCATOR_ALIGN as int)
}

/// Function `alloc` takes a number of bytes and gives the address of as many,
/// from the next aligned one on.
pub open spec fn allocates(env: Env, alloc: u32) -> bool {
    forall|st: State, size: u32|
        next_address(st.heap) + size <= u32::MAX ==> #[trigger] (env.call)(
            alloc,
            st.push(Value::I32(size)),
        ) == Some(
            (State { heap: (next_address(st.heap) + size) as u32, ..st }).push(
                Value::I32(next_address(st.heap) as u32),
            ),
        )
}

/// What lay below the heap pointer is as it was, and still lies below it.
pub open spec fn keeps_heap(a: State, b: State) -> bool {
    &&& a.heap <= b.heap
    &&& a.mem.len() == b.mem.len()
    &&& forall|i: int| 0 <= i < a.heap && i < a.mem.len() ==> #[trigger] b.mem[i] == a.mem[i]
}

// ── unfolding ────────────────────────────────────────────────────────

/// The end of the code.
pub broadcast proof fn lemma_done(st: State, env: Env, fuel: nat)
    ensures
        #[trigger] exec(Tree::Done, st, env, fuel) == Outcome::Next(st),
{
    reveal_with_fuel(exec, 2);
}

/// An instruction that is no jump.
pub broadcast proof fn lemma_op(i: Instr, rest: Tree, st: State, env: Env, fuel: nat)
    requires
        !is_jump(i),
    ensures
        #[trigger] exec(Tree::op(i, rest), st, env, fuel) == match step(i, st, env) {
            Some(s1) => exec(rest, s1, env, fuel),
            None => Outcome::Trap,
        },
{
    reveal_with_fuel(exec, 2);
}

/// A scratch local.
pub broadcast proof fn lemma_take(ty: ValType, rest: Tree, st: State, env: Env, fuel: nat)
    ensures
        #[trigger] exec(Tree::take(ty, rest), st, env, fuel) == exec(rest, st, env, fuel),
{
    reveal_with_fuel(exec, 2);
}

/// A piece.
pub broadcast proof fn lemma_piece(p: Piece, rest: Tree, st: State, env: Env, fuel: nat)
    ensures
        #[trigger] exec(Tree::piece(p, rest), st, env, fuel) == match (p.effect)(st) {
            Outcome::Next(s1) => exec(rest, s1, env, fuel),
            o => o,
        },
{
    reveal_with_fuel(exec, 2);
}

/// A branch.
pub broadcast proof fn lemma_br(n: u32, rest: Tree, st: State, env: Env, fuel: nat)
    ensures
        #[trigger] exec(Tree::op(Instr::Br(n), rest), st, env, fuel) == Outcome::Branch(
            n as nat,
            st,
        ),
{
    reveal_with_fuel(exec, 2);
}

/// A branch on a condition.
pub broadcast proof fn lemma_br_if(n: u32, rest: Tree, st: State, env: Env, fuel: nat)
    ensures
        #[trigger] exec(Tree::op(Instr::BrIf(n), rest), st, env, fuel) == match st.pop() {
            Some((Value::I32(c), s1)) => if c != 0 {
                Outcome::Branch(n as nat, s1)
            } else {
                exec(rest, s1, env, fuel)
            },
            _ => Outcome::Trap,
        },
{
    reveal_with_fuel(exec, 2);
}

/// A block.
pub proof fn lemma_block(bt: BlockType, body: Tree, rest: Tree, st: State, env: Env, fuel: nat)
    ensures
        exec(Tree::block(bt, body, rest), st, env, fuel) == match exec(body, st, env, fuel) {
            Outcome::Next(s1) => exec(rest, s1, env, fuel),
            Outcome::Branch(n, s1) => if n == 0 {
                match left(bt, st, s1) {
                    Some(s2) => exec(rest, s2, env, fuel),
                    None => Outcome::Trap,
                }
            } else {
                Outcome::Branch((n - 1) as nat, s1)
            },
            Outcome::Trap => Outcome::Trap,
        },
{
    reveal_with_fuel(exec, 2);
}

/// A round of a loop.
pub proof fn lemma_repeat(body: Tree, rest: Tree, st: State, env: Env, fuel: nat)
    ensures
        exec(Tree::repeat(body, rest), st, env, fuel) == match exec(body, st, env, fuel) {
            Outcome::Next(s1) => exec(rest, s1, env, fuel),
            Outcome::Branch(n, s1) => if n > 0 {
                Outcome::Branch((n - 1) as nat, s1)
            } else if fuel == 0 {
                Outcome::Trap
            } else {
                exec(
                    Tree::repeat(body, rest),
                    State { stack: st.stack, ..s1 },
                    env,
                    (fuel - 1) as nat,
                )
            },
            Outcome::Trap => Outcome::Trap,
        },
{
    reveal_with_fuel(exec, 2);
}

/// A branch by a table.
pub proof fn lemma_br_table(
    targets: List<u32>,
    default: u32,
    rest: Tree,
    st: State,
    env: Env,
    fuel: nat,
)
    ensures
        exec(Tree::op(Instr::BrTable { targets, default }, rest), st, env, fuel)
            == match st.pop() {
            Some((Value::I32(k), s1)) => Outcome::Branch(
                if k < targets.seq().len() {
                    targets.seq()[k as int] as nat
                } else {
                    default as nat
                },
                s1,
            ),
            _ => Outcome::Trap,
        },
{
    reveal_with_fuel(exec, 2);
}

/// An instruction that is not to be reached.
pub proof fn lemma_unreachable(rest: Tree, st: State, env: Env, fuel: nat)
    ensures
        exec(Tree::op(Instr::Unreachable, rest), st, env, fuel) == Outcome::Trap,
{
    reveal_with_fuel(exec, 2);
}

/// Code under a condition.
pub proof fn lemma_when(bt: BlockType, body: Tree, rest: Tree, st: State, env: Env, fuel: nat)
    ensures
        exec(Tree::when(bt, body, rest), st, env, fuel) == match st.pop() {
            Some((Value::I32(c), s0)) => if c == 0 {
                exec(rest, s0, env, fuel)
            } else {
                match exec(body, s0, env, fuel) {
                    Outcome::Next(s1) => exec(rest, s1, env, fuel),
                    Outcome::Branch(n, s1) => if n == 0 {
                        match left(bt, s0, s1) {
                            Some(s2) => exec(rest, s2, env, fuel),
                            None => Outcome::Trap,
                        }
                    } else {
                        Outcome::Branch((n - 1) as nat, s1)
                    },
                    Outcome::Trap => Outcome::Trap,
                }
            },
            _ => Outcome::Trap,
        },
{
    reveal_with_fuel(exec, 2);
}

/// One code or another.
pub proof fn lemma_either(
    bt: BlockType,
    yes: Tree,
    no: Tree,
    rest: Tree,
    st: State,
    env: Env,
    fuel: nat,
)
    ensures
        exec(Tree::either(bt, yes, no, rest), st, env, fuel) == match st.pop() {
            Some((Value::I32(c), s0)) => match if c != 0 {
                exec(yes, s0, env, fuel)
            } else {
                exec(no, s0, env, fuel)
            } {
                Outcome::Next(s1) => exec(rest, s1, env, fuel),
                Outcome::Branch(n, s1) => if n == 0 {
                    match left(bt, s0, s1) {
                        Some(s2) => exec(rest, s2, env, fuel),
                        None => Outcome::Trap,
                    }
                } else {
                    Outcome::Branch((n - 1) as nat, s1)
                },
                Outcome::Trap => Outcome::Trap,
            },
            _ => Outcome::Trap,
        },
{
    reveal_with_fuel(exec, 2);
}

/// All steps but blocks and loops.
pub broadcast group group_exec {
    lemma_done,
    lemma_op,
    lemma_take,
    lemma_piece,
    lemma_br,
    lemma_br_if,
}

/// The code of an instruction.
pub broadcast proof fn lemma_written_op(i: Instr, rest: Tree, s: SinkView, cx: Cx)
    ensures
        #[trigger] written(Tree::op(i, rest), s, cx) == written(rest, s.emit(i), cx),
{
}

/// A scratch local.
pub broadcast proof fn lemma_written_take(ty: ValType, rest: Tree, s: SinkView, cx: Cx)
    ensures
        #[trigger] written(Tree::take(ty, rest), s, cx) == match s.scratch_local(ty) {
            Ok((_, s1)) => written(rest, s1, cx),
            Err(_) => s,
        },
{
}

/// The code of a piece.
pub broadcast proof fn lemma_written_piece(p: Piece, rest: Tree, s: SinkView, cx: Cx)
    ensures
        #[trigger] written(Tree::piece(p, rest), s, cx) == written(
            rest,
            written_piece(p, s, cx),
            cx,
        ),
{
}

/// The code of a block.
pub broadcast proof fn lemma_written_block(
    bt: BlockType,
    body: Tree,
    rest: Tree,
    s: SinkView,
    cx: Cx,
)
    ensures
        #[trigger] written(Tree::block(bt, body, rest), s, cx) == written(
            rest,
            written(body, s.emit(Instr::Block(bt)), cx).emit(Instr::End),
            cx,
        ),
{
}

/// The code of a loop.
pub broadcast proof fn lemma_written_repeat(body: Tree, rest: Tree, s: SinkView, cx: Cx)
    ensures
        #[trigger] written(Tree::repeat(body, rest), s, cx) == written(
            rest,
            written(body, s.emit(Instr::Loop(BlockType::Empty)), cx).emit(Instr::End),
            cx,
        ),
{
}

/// The code under a condition.
pub broadcast proof fn lemma_written_when(bt: BlockType, body: Tree, rest: Tree, s: SinkView, cx: Cx)
    ensures
        #[trigger] written(Tree::when(bt, body, rest), s, cx) == written(
            rest,
            written(body, s.emit(Instr::If(bt)), cx).emit(Instr::End),
            cx,
        ),
{
}

/// The code of one or another.
pub broadcast proof fn lemma_written_either(
    bt: BlockType,
    yes: Tree,
    no: Tree,
    rest: Tree,
    s: SinkView,
    cx: Cx,
)
    ensures
        #[trigger] written(Tree::either(bt, yes, no, rest), s, cx) == written(
            rest,
            written(no, written(yes, s.emit(Instr::If(bt)), cx).emit(Instr::Else), cx).emit(
                Instr::End,
            ),
            cx,
        ),
{
}

/// The code of nothing.
pub broadcast proof fn lemma_written_done(s: SinkView, cx: Cx)
    ensures
        #[trigger] written(Tree::Done, s, cx) == s,
{
}

/// The code of all steps.
pub broadcast group group_code {
    lemma_written_op,
    lemma_written_take,
    lemma_written_piece,
    lemma_written_block,
    lemma_written_repeat,
    lemma_written_when,
    lemma_written_either,
    lemma_written_done,
}

/// The pieces of an instruction and what follows.
pub broadcast proof fn lemma_pieces_op(i: Instr, rest: Tree)
    ensures
        #[trigger] pieces(Tree::op(i, rest)) == pieces(rest),
{
}

/// The pieces of a scratch local and what follows.
pub broadcast proof fn lemma_pieces_take(ty: ValType, rest: Tree)
    ensures
        #[trigger] pieces(Tree::take(ty, rest)) == pieces(rest),
{
}

/// The pieces of a piece and what follows.
pub broadcast proof fn lemma_pieces_piece(p: Piece, rest: Tree)
    ensures
        #[trigger] pieces(Tree::piece(p, rest)) == seq![p] + pieces(rest),
{
}

/// The pieces of a block and what follows.
pub broadcast proof fn lemma_pieces_block(bt: BlockType, body: Tree, rest: Tree)
    ensures
        #[trigger] pieces(Tree::block(bt, body, rest)) == pieces(body) + pieces(rest),
{
}

/// The pieces of a loop and what follows.
pub broadcast proof fn lemma_pieces_repeat(body: Tree, rest: Tree)
    ensures
        #[trigger] pieces(Tree::repeat(body, rest)) == pieces(body) + pieces(rest),
{
}

/// The pieces of code under a condition and what follows.
pub broadcast proof fn lemma_pieces_when(bt: BlockType, body: Tree, rest: Tree)
    ensures
        #[trigger] pieces(Tree::when(bt, body, rest)) == pieces(body) + pieces(rest),
{
}

/// The pieces of one code or another and what follows.
pub broadcast proof fn lemma_pieces_either(bt: BlockType, yes: Tree, no: Tree, rest: Tree)
    ensures
        #[trigger] pieces(Tree::either(bt, yes, no, rest)) == pieces(yes) + pieces(no) + pieces(
            rest,
        ),
{
}

/// The pieces of nothing.
pub broadcast proof fn lemma_pieces_done()
    ensures
        #[trigger] pieces(Tree::Done) == Seq::<Piece>::empty(),
{
}

/// The pieces of all steps.
pub broadcast group group_pieces {
    lemma_pieces_op,
    lemma_pieces_take,
    lemma_pieces_piece,
    lemma_pieces_block,
    lemma_pieces_repeat,
    lemma_pieces_when,
    lemma_pieces_either,
    lemma_pieces_done,
}

// ── reading what was written ─────────────────────────────────────────

/// The limits of one, four and eight bytes.
pub proof fn lemma_limits()
    ensures
        crate::lower::storage::byte_limit(1) == 0x100,
        crate::lower::storage::byte_limit(4) == 0x1_0000_0000,
        crate::lower::storage::byte_limit(8) == 0x1_0000_0000_0000_0000,
{
    reveal_with_fuel(crate::lower::storage::byte_limit, 9);
}

/// What was written is read back.
pub proof fn lemma_read_back(mem: Seq<u8>, at: int, v: nat, n: nat)
    requires
        0 <= at,
        at + n <= mem.len(),
        v < crate::lower::storage::byte_limit(n),
    ensures
        read(write(mem, at, v, n), at, n) == v,
{
    crate::lower::storage::lemma_byte_round_trip(v, n);
    assert(write(mem, at, v, n).subrange(at, at + n) =~= crate::lower::storage::low_bytes(v, n));
}

/// The first byte of what was written.
pub proof fn lemma_read_low(mem: Seq<u8>, at: int, v: nat, n: nat)
    requires
        0 <= at,
        n > 0,
        at + n <= mem.len(),
    ensures
        read(write(mem, at, v, n), at, 1) == v % 256,
{
    crate::lower::storage::lemma_byte_count(v, n);
    let low = crate::lower::storage::low_bytes(v, n);
    let after = write(mem, at, v, n);
    assert(after.subrange(at, at + 1) =~= seq![low[0]]);
    reveal_with_fuel(crate::lower::storage::byte_number, 2);
    assert(seq![low[0]].subrange(1, 1).len() == 0);
}

/// What lies beside a write is as it was.
pub proof fn lemma_read_apart(mem: Seq<u8>, at: int, v: nat, n: nat, other: int, k: nat)
    requires
        0 <= at,
        at + n <= mem.len(),
        0 <= other,
        other + k <= mem.len(),
        at + n <= other || other + k <= at,
    ensures
        read(write(mem, at, v, n), other, k) == read(mem, other, k),
{
    crate::lower::storage::lemma_byte_count(v, n);
    assert(write(mem, at, v, n).subrange(other, other + k) =~= mem.subrange(other, other + k));
}

/// A byte beside a write is as it was.
pub proof fn lemma_byte_apart(mem: Seq<u8>, at: int, v: nat, n: nat)
    requires
        0 <= at,
        at + n <= mem.len(),
    ensures
        forall|i: int|
            0 <= i < mem.len() && (i < at || i >= at + n) ==> #[trigger] write(mem, at, v, n)[i]
                == mem[i],
{
    crate::lower::storage::lemma_byte_count(v, n);
}

/// What is read below the heap pointer stays.
pub proof fn lemma_read_kept(a: State, b: State, at: int, n: nat)
    requires
        keeps_heap(a, b),
        0 <= at,
        at + n <= a.heap,
        at + n <= a.mem.len(),
    ensures
        read(b.mem, at, n) == read(a.mem, at, n),
{
    assert(b.mem.subrange(at, at + n) =~= a.mem.subrange(at, at + n));
}

} // verus!
