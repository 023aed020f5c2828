//! Laws: what loops run through, and what they leave.

use vstd::prelude::*;

use crate::execution::{Env, Outcome, Piece, Stack, State, Tree, Value};
use crate::instr::{BlockType, Instr, IntOp, LoadOp, StoreOp, ValType};
use crate::ir::{IrExpr, ResolvedType};
use crate::layout::{
    ArrayLayout, ARRAY_HEADER_ALIGN, ARRAY_HEADER_CAP_OFFSET, ARRAY_HEADER_LEN_OFFSET,
    ARRAY_HEADER_PTR_OFFSET, ARRAY_HEADER_SIZE,
};
use crate::lower::branches::Effect;
use crate::lower::context::{Cx, SinkView};
use crate::lower::control::ForLocals;

verus! {

broadcast use {
    crate::execution::group_exec,
    crate::execution::group_code,
    crate::execution::group_pieces,
};

// ── arithmetic ───────────────────────────────────────────────────────

/// Sums and products of words that stay words.
pub proof fn lemma_words(a: u32, b: u32)
    ensures
        a + b <= u32::MAX ==> crate::execution::word(
            crate::execution::signed32(a) + crate::execution::signed32(b),
        ) == a + b,
        a <= i32::MAX && b <= i32::MAX && a * b <= u32::MAX ==> crate::execution::word(
            crate::execution::signed32(a) * crate::execution::signed32(b),
        ) == a * b,
{
    if a + b <= u32::MAX {
        let s = crate::execution::signed32(a) + crate::execution::signed32(b);
        assert(s == a + b || s == a + b - 0x1_0000_0000);
    }
}

/// The product of a position and a size.
pub proof fn lemma_scaled(k: int, len: int, size: int)
    requires
        0 <= k < len,
        0 < size,
    ensures
        0 <= k * size,
        k * size + size <= len * size,
        (k + 1) * size == k * size + size,
{
    assert(0 <= k * size) by (nonlinear_arith)
        requires
            0 <= k,
            0 < size,
    ;
    assert((k + 1) * size <= len * size) by (nonlinear_arith)
        requires
            k + 1 <= len,
            0 < size,
    ;
    assert((k + 1) * size == k * size + size) by (nonlinear_arith);
}

/// Entries lie apart.
pub proof fn lemma_entries_apart(j: int, k: int, size: int)
    requires
        0 <= j < k,
        0 < size,
    ensures
        0 <= j * size,
        j * size + size <= k * size,
{
    lemma_scaled(j, k, size);
}

// ── lists ────────────────────────────────────────────────────────────

/// The value type of a list's entries.
pub open spec fn entry_type(ty: ResolvedType) -> ValType {
    match ty {
        ResolvedType::Primitive(p) => crate::lower::values::value_type(p),
        _ => ValType::I32,
    }
}

/// Entry number `k` of the list whose entries lie at `buf` is `v`: its low
/// byte, where entries are bytes.
pub open spec fn entry_is(mem: Seq<u8>, buf: int, k: int, size: u32, v: Value) -> bool {
    crate::execution::read(mem, buf + k * size, size as nat) == v.bits()
        % crate::lower::storage::byte_limit(size as nat)
}

/// The list at `header` has the entries at `buf`, which are the given values.
pub open spec fn list_is(
    mem: Seq<u8>,
    header: int,
    buf: int,
    size: u32,
    values: Seq<Value>,
) -> bool {
    &&& crate::execution::read(mem, header + ARRAY_HEADER_PTR_OFFSET, 4) == buf
    &&& crate::execution::read(mem, header + ARRAY_HEADER_LEN_OFFSET, 4) == values.len()
    &&& crate::execution::read(mem, header + ARRAY_HEADER_CAP_OFFSET, 4) == values.len()
    &&& forall|k: int| 0 <= k < values.len() ==> entry_is(mem, buf, k, size, #[trigger] values[k])
}

/// The store of an entry at an address on the stack.
proof fn lemma_store_entry(
    ty: ResolvedType,
    layout: ArrayLayout,
    st: State,
    env: Env,
    at: u32,
    v: Value,
    stack: Stack,
)
    requires
        crate::layout::array_plan(ty) == Ok::<_, crate::layout::LayoutError>(layout),
        crate::lower::control::body_store(
            ty,
            crate::lower::aggregate::element_slot(layout),
        ) is Ok,
        st.stack == Stack::Push(v, Box::new(Stack::Push(Value::I32(at), Box::new(stack)))),
        v.ty() == entry_type(ty),
        at + layout.element_size <= st.mem.len(),
    ensures
        ({
            let store = crate::lower::control::body_store(
                ty,
                crate::lower::aggregate::element_slot(layout),
            )->Ok_0;
            let mem = crate::execution::write(
                st.mem,
                at as int,
                v.bits(),
                layout.element_size as nat,
            );
            let size = layout.element_size;
            &&& !crate::execution::is_jump(store)
            &&& crate::execution::step(store, st, env) == Some(State { mem, stack, ..st })
            &&& crate::execution::read(mem, at as int, size as nat) == v.bits()
                % crate::lower::storage::byte_limit(size as nat)
            &&& size == 1 || size == 4 || size == 8
        }),
{
    let place = crate::lower::aggregate::element_slot(layout);
    if let ResolvedType::Primitive(p) = ty {
        crate::lower::values::lemma_store_field(p, place, st, env, at, v, stack);
    } else {
        let store = Instr::Store(StoreOp::I32, crate::lower::aggregate::field_arg(place));
        let s1 = (st.pop()->0).1;
        assert(st.pop() == Some((v, s1)));
        assert(s1.pop() == Some((Value::I32(at), State { stack, ..st })));
        assert(crate::execution::step(store, st, env) is Some);
    }
    crate::lower::values::lemma_field_stored(st.mem, at as int, place, v);
}

/// The code that fills a header and leaves its address.
pub open spec fn header_tree(header: u32, buf: u32, len: Instr, rest: Tree) -> Tree {
    Tree::op3(
        Instr::LocalGet(header),
        Instr::LocalGet(buf),
        Instr::Store(
            StoreOp::I32,
            crate::lower::aggregate::mem_arg_at(ARRAY_HEADER_PTR_OFFSET, ARRAY_HEADER_ALIGN),
        ),
        Tree::op3(
            Instr::LocalGet(header),
            len,
            Instr::Store(
                StoreOp::I32,
                crate::lower::aggregate::mem_arg_at(ARRAY_HEADER_LEN_OFFSET, ARRAY_HEADER_ALIGN),
            ),
            Tree::op3(
                Instr::LocalGet(header),
                len,
                Instr::Store(
                    StoreOp::I32,
                    crate::lower::aggregate::mem_arg_at(
                        ARRAY_HEADER_CAP_OFFSET,
                        ARRAY_HEADER_ALIGN,
                    ),
                ),
                Tree::op(Instr::LocalGet(header), rest),
            ),
        ),
    )
}

/// The memory with a header.
pub open spec fn with_header(mem: Seq<u8>, header: u32, buf: u32, len: u32) -> Seq<u8> {
    crate::execution::write(
        crate::execution::write(
            crate::execution::write(mem, header as int, buf as nat, 4),
            header + 4,
            len as nat,
            4,
        ),
        header + 8,
        len as nat,
        4,
    )
}

/// The words of a header.
pub proof fn lemma_with_header(mem: Seq<u8>, header: u32, buf: u32, len: u32)
    requires
        header + 12 <= mem.len(),
    ensures
        ({
            let after = with_header(mem, header, buf, len);
            &&& after.len() == mem.len()
            &&& crate::execution::read(after, header + ARRAY_HEADER_PTR_OFFSET, 4) == buf
            &&& crate::execution::read(after, header + ARRAY_HEADER_LEN_OFFSET, 4) == len
            &&& crate::execution::read(after, header + ARRAY_HEADER_CAP_OFFSET, 4) == len
            &&& forall|b: int|
                0 <= b < mem.len() && (b < header || b >= header + 12) ==> #[trigger] after[b]
                    == mem[b]
        }),
{
    crate::execution::lemma_limits();
    let m1 = crate::execution::write(mem, header as int, buf as nat, 4);
    let m2 = crate::execution::write(m1, header + 4, len as nat, 4);
    crate::execution::lemma_read_back(mem, header as int, buf as nat, 4);
    crate::execution::lemma_read_back(m1, header + 4, len as nat, 4);
    crate::execution::lemma_read_back(m2, header + 8, len as nat, 4);
    crate::execution::lemma_read_apart(m1, header + 4, len as nat, 4, header as int, 4);
    crate::execution::lemma_read_apart(m2, header + 8, len as nat, 4, header as int, 4);
    crate::execution::lemma_read_apart(m2, header + 8, len as nat, 4, header + 4, 4);
    crate::execution::lemma_byte_apart(mem, header as int, buf as nat, 4);
    crate::execution::lemma_byte_apart(m1, header + 4, len as nat, 4);
    crate::execution::lemma_byte_apart(m2, header + 8, len as nat, 4);
}

/// The code of a header, run.
pub proof fn lemma_header(
    header: u32,
    buf: u32,
    len: Instr,
    rest: Tree,
    st: State,
    env: Env,
    fuel: nat,
    p: u32,
    b: u32,
    n: u32,
)
    requires
        header < st.locals.len(),
        buf < st.locals.len(),
        st.locals[header as int] == Value::I32(p),
        st.locals[buf as int] == Value::I32(b),
        match len {
            Instr::LocalGet(x) => x < st.locals.len() && st.locals[x as int] == Value::I32(n),
            Instr::I32Const(c) => crate::execution::word(c as int) == n,
            _ => false,
        },
        p + 12 <= st.mem.len(),
    ensures
        crate::execution::exec(header_tree(header, buf, len, rest), st, env, fuel)
            == crate::execution::exec(
            rest,
            st.with_memory(with_header(st.mem, p, b, n)).push(Value::I32(p)),
            env,
            fuel,
        ),
{
    let ptr = Instr::Store(
        StoreOp::I32,
        crate::lower::aggregate::mem_arg_at(ARRAY_HEADER_PTR_OFFSET, ARRAY_HEADER_ALIGN),
    );
    let m1 = crate::execution::write(st.mem, p as int, b as nat, 4);
    let s1 = st.with_memory(m1);
    assert(crate::execution::step(ptr, st.push(Value::I32(p)).push(Value::I32(b)), env) == Some(
        s1,
    ));
    let second = Instr::Store(
        StoreOp::I32,
        crate::lower::aggregate::mem_arg_at(ARRAY_HEADER_LEN_OFFSET, ARRAY_HEADER_ALIGN),
    );
    let m2 = crate::execution::write(m1, p + 4, n as nat, 4);
    let s2 = st.with_memory(m2);
    assert(crate::execution::step(len, s1.push(Value::I32(p)), env) == Some(
        s1.push(Value::I32(p)).push(Value::I32(n)),
    ));
    assert(crate::execution::step(second, s1.push(Value::I32(p)).push(Value::I32(n)), env) == Some(
        s2,
    ));
    let third = Instr::Store(
        StoreOp::I32,
        crate::lower::aggregate::mem_arg_at(ARRAY_HEADER_CAP_OFFSET, ARRAY_HEADER_ALIGN),
    );
    let s3 = st.with_memory(with_header(st.mem, p, b, n));
    assert(crate::execution::step(len, s2.push(Value::I32(p)), env) == Some(
        s2.push(Value::I32(p)).push(Value::I32(n)),
    ));
    assert(crate::execution::step(third, s2.push(Value::I32(p)).push(Value::I32(n)), env) == Some(
        s3,
    ));
}

// ── rounds ───────────────────────────────────────────────────────────

/// What a loop runs over: the numbers from a start on, or the entries of a
/// list.
pub enum Source {
    Numbers(u32),
    Entries(u32, u32, Instr, ResolvedType),
}

spec fn address_tree(buf: u32, i: u32, size: i32, rest: Tree) -> Tree {
    Tree::op3(
        Instr::LocalGet(buf),
        Instr::LocalGet(i),
        Instr::I32Const(size),
        Tree::op2(Instr::I32(IntOp::Mul), Instr::I32(IntOp::Add), rest),
    )
}

spec fn set_tree(source: Source, l: ForLocals, var: u32, rest: Tree) -> Tree {
    match source {
        Source::Numbers(_) => Tree::op3(
            Instr::LocalGet(l.first),
            Instr::LocalGet(l.i),
            Instr::I32(IntOp::Add),
            Tree::op(Instr::LocalSet(var), rest),
        ),
        Source::Entries(_, size, load, _) => address_tree(
            l.first,
            l.i,
            size as i32,
            Tree::op2(load, Instr::LocalSet(var), rest),
        ),
    }
}

spec fn tail_tree(l: ForLocals) -> Tree {
    Tree::op3(
        Instr::LocalGet(l.i),
        Instr::I32Const(1),
        Instr::I32(IntOp::Add),
        Tree::op2(Instr::LocalSet(l.i), Instr::Br(0), Tree::Done),
    )
}

spec fn round_tree(
    source: Source,
    l: ForLocals,
    var: u32,
    size: i32,
    body: Piece,
    store: Instr,
) -> Tree {
    Tree::op3(
        Instr::LocalGet(l.i),
        Instr::LocalGet(l.len),
        Instr::I32(IntOp::GeS),
        Tree::op(
            Instr::BrIf(1),
            set_tree(
                source,
                l,
                var,
                address_tree(
                    l.out_buf,
                    l.i,
                    size,
                    Tree::piece(body, Tree::op(store, tail_tree(l))),
                ),
            ),
        ),
    )
}

/// The loop variable's value in round `k`.
pub open spec fn nth(source: Source, mem: Seq<u8>, k: int) -> Value {
    match source {
        Source::Numbers(start) => Value::I32(
            crate::execution::word(crate::execution::signed32(start) + k),
        ),
        Source::Entries(buf, size, _, ty) => crate::execution::value_of(
            entry_type(ty),
            crate::execution::read(mem, buf + k * size, size as nat),
        ),
    }
}

/// The bits in the local `first` of a loop.
spec fn first_of(source: Source) -> u32 {
    match source {
        Source::Numbers(start) => start,
        Source::Entries(buf, _, _, _) => buf,
    }
}

/// The entries that a loop runs over lie in memory that stays.
spec fn readable(source: Source, len: u32, x: State) -> bool {
    match source {
        Source::Numbers(_) => true,
        Source::Entries(buf, size, load, ty) => {
            &&& crate::layout::array_plan(ty) matches Ok(layout)
            &&& size == layout.element_size
            &&& crate::lower::control::for_element_load(
                ty,
                crate::lower::aggregate::element_slot(layout),
            ) == Ok::<_, crate::lower::error::LowerError>(load)
            &&& buf + len * size <= x.heap
            &&& x.heap <= x.mem.len()
        },
    }
}

/// Locals in a row, and the loop variable elsewhere.
pub open spec fn in_a_row(l: ForLocals, var: u32, n: nat) -> bool {
    &&& l.first == l.source + 1
    &&& l.second == l.source + 2
    &&& l.len == l.source + 3
    &&& l.out_buf == l.source + 4
    &&& l.out_header == l.source + 5
    &&& l.i == l.source + 6
    &&& l.i < n
    &&& var < n
    &&& var < l.source || var > l.i
}

/// What the body does in one round: it leaves a value that is good, keeps the
/// loop's own locals and what is in memory, and takes memory up to `top` at
/// most.
pub open spec fn rounds_off(
    body: Effect,
    x: State,
    l: ForLocals,
    ty: ValType,
    top: int,
    good: spec_fn(Value) -> bool,
) -> bool {
    body(x) matches Outcome::Next(y) && {
        &&& y.stack matches Stack::Push(v, rest) && *rest == x.stack && good(v) && v.ty() == ty
        &&& y.locals.len() == x.locals.len()
        &&& forall|i: int| l.source <= i <= l.i ==> #[trigger] y.locals[i] == x.locals[i]
        &&& crate::execution::keeps_heap(x, y)
        &&& y.heap <= top
    }
}

/// A state in which round `k` begins: the loop variable has its value, and what
/// was in memory before the loop is there.
pub open spec fn begins_round(
    y: State,
    start: State,
    var: u32,
    value: Value,
    top: int,
) -> bool {
    &&& y.locals.len() == start.locals.len()
    &&& y.locals[var as int] == value
    &&& crate::execution::keeps_heap(start, y)
    &&& y.heap <= top
}

/// In every round the body does that, when the loop variable holds the value of
/// the round.
pub open spec fn body_runs(
    body: Effect,
    start: State,
    l: ForLocals,
    var: u32,
    ty: ValType,
    len: int,
    values: spec_fn(int) -> Value,
    tops: spec_fn(int) -> int,
    goods: spec_fn(int, Value) -> bool,
) -> bool {
    forall|k: int, y: State|
        0 <= k < len && #[trigger] begins_round(y, start, var, values(k), tops(k)) ==> rounds_off(
            body,
            y,
            l,
            ty,
            tops(k + 1),
            |v: Value| goods(k, v),
        )
}

/// The loop variable gets its value.
proof fn lemma_set(
    source: Source,
    l: ForLocals,
    var: u32,
    rest: Tree,
    x: State,
    y: State,
    env: Env,
    fuel: nat,
    k: u32,
    len: u32,
)
    requires
        in_a_row(l, var, y.locals.len()),
        readable(source, len, x),
        k < len <= i32::MAX,
        crate::execution::keeps_heap(x, y),
        y.locals[l.first as int] == Value::I32(first_of(source)),
        y.locals[l.i as int] == Value::I32(k),
    ensures
        crate::execution::exec(set_tree(source, l, var, rest), y, env, fuel)
            == crate::execution::exec(
            rest,
            y.with_local(var, nth(source, x.mem, k as int)),
            env,
            fuel,
        ),
{
    let i = Value::I32(k);
    match source {
        Source::Numbers(start) => {
            let s1 = y.push(Value::I32(start)).push(i);
            assert(crate::execution::pop_two(s1) == Some((Value::I32(start), i, y)));
            assert(crate::execution::step(Instr::I32(IntOp::Add), s1, env) == Some(
                y.push(nth(source, x.mem, k as int)),
            ));
        },
        Source::Entries(buf, size, load, ty) => {
            lemma_scaled(k as int, len as int, size as int);
            lemma_address(
                l.first,
                l.i,
                size,
                Tree::op2(load, Instr::LocalSet(var), rest),
                y,
                env,
                fuel,
                buf,
                k,
            );
            let at = (buf + k * size) as u32;
            let v = nth(source, x.mem, k as int);
            crate::execution::lemma_read_kept(x, y, at as int, size as nat);
            assert(load is Load);
            let s1 = y.push(Value::I32(at));
            assert(s1.pop() == Some((Value::I32(at), y)));
            assert(crate::execution::step(load, s1, env) == Some(y.push(v)));
        },
    }
}

proof fn lemma_address(
    buf: u32,
    i: u32,
    size: u32,
    rest: Tree,
    y: State,
    env: Env,
    fuel: nat,
    b: u32,
    k: u32,
)
    requires
        buf < y.locals.len(),
        i < y.locals.len(),
        y.locals[buf as int] == Value::I32(b),
        y.locals[i as int] == Value::I32(k),
        k <= i32::MAX,
        size <= i32::MAX,
        0 <= k * size,
        b + k * size <= u32::MAX,
    ensures
        crate::execution::exec(address_tree(buf, i, size as i32, rest), y, env, fuel)
            == crate::execution::exec(
            rest,
            y.push(Value::I32((b + k * size) as u32)),
            env,
            fuel,
        ),
{
    lemma_words(k, size);
    lemma_words(b, (k * size) as u32);
    let base = y.push(Value::I32(b));
    let s1 = base.push(Value::I32(k)).push(Value::I32(size));
    assert(crate::execution::word(size as i32 as int) == size);
    assert(crate::execution::pop_two(s1) == Some((Value::I32(k), Value::I32(size), base)));
    let product = Value::I32((k * size) as u32);
    assert(crate::execution::step(Instr::I32(IntOp::Mul), s1, env) == Some(base.push(product)));
    assert(crate::execution::pop_two(base.push(product)) == Some((Value::I32(b), product, y)));
    assert(crate::execution::step(Instr::I32(IntOp::Add), base.push(product), env) == Some(
        y.push(Value::I32((b + k * size) as u32)),
    ));
}

/// The state of a loop before round `k`: everything is in its local, and the
/// entries so far are in the buffer.
spec fn at_round(
    y: State,
    x: State,
    source: Source,
    l: ForLocals,
    len: u32,
    buf: u32,
    header: u32,
    size: u32,
    k: u32,
    top: int,
    values: Seq<Value>,
    goods: spec_fn(int, Value) -> bool,
) -> bool {
    &&& y.stack == x.stack
    &&& y.locals.len() == x.locals.len()
    &&& y.locals[l.first as int] == Value::I32(first_of(source))
    &&& y.locals[l.len as int] == Value::I32(len)
    &&& y.locals[l.out_buf as int] == Value::I32(buf)
    &&& y.locals[l.out_header as int] == Value::I32(header)
    &&& y.locals[l.i as int] == Value::I32(k)
    &&& crate::execution::keeps_heap(x, y)
    &&& header + ARRAY_HEADER_SIZE <= y.heap <= top
    &&& values.len() == k
    &&& forall|j: int|
        0 <= j < k ==> goods(j, #[trigger] values[j]) && entry_is(
            y.mem,
            buf as int,
            j,
            size,
            values[j],
        )
}

/// The rounds from round `k` on.
proof fn lemma_rounds(
    source: Source,
    l: ForLocals,
    var: u32,
    layout: ArrayLayout,
    ty: ResolvedType,
    body: Piece,
    x: State,
    y: State,
    env: Env,
    fuel: nat,
    len: u32,
    buf: u32,
    header: u32,
    k: u32,
    tops: spec_fn(int) -> int,
    goods: spec_fn(int, Value) -> bool,
    values: Seq<Value>,
) -> (r: (State, Seq<Value>))
    requires
        crate::layout::array_plan(ty) == Ok::<_, crate::layout::LayoutError>(layout),
        crate::lower::control::body_store(
            ty,
            crate::lower::aggregate::element_slot(layout),
        ) is Ok,
        in_a_row(l, var, x.locals.len()),
        readable(source, len, x),
        k <= len <= i32::MAX,
        fuel >= len - k,
        x.heap <= buf,
        buf + len * layout.element_size <= header,
        tops(len as int) <= x.mem.len(),
        tops(len as int) <= u32::MAX,
        forall|j: int| 0 <= j < len ==> #[trigger] tops(j) <= tops(j + 1),
        body_runs(
            body.effect,
            x,
            l,
            var,
            entry_type(ty),
            len as int,
            |j: int| nth(source, x.mem, j),
            tops,
            goods,
        ),
        at_round(
            y,
            x,
            source,
            l,
            len,
            buf,
            header,
            layout.element_size,
            k,
            tops(k as int),
            values,
            goods,
        ),
    ensures
        ({
            let store = crate::lower::control::body_store(
                ty,
                crate::lower::aggregate::element_slot(layout),
            )->Ok_0;
            let t = round_tree(source, l, var, layout.element_size as i32, body, store);
            &&& crate::execution::exec(Tree::repeat(t, Tree::Done), y, env, fuel)
                == Outcome::Branch(0, r.0)
            &&& at_round(
                r.0,
                x,
                source,
                l,
                len,
                buf,
                header,
                layout.element_size,
                len,
                tops(len as int),
                r.1,
                goods,
            )
        }),
    decreases len - k,
{
    let size = layout.element_size;
    let store = crate::lower::control::body_store(
        ty,
        crate::lower::aggregate::element_slot(layout),
    )->Ok_0;
    let t = round_tree(source, l, var, size as i32, body, store);
    crate::execution::lemma_repeat(t, Tree::Done, y, env, fuel);
    let finished = y.push(crate::execution::truth(k >= len));
    let storing = Tree::op(store, tail_tree(l));
    let working = address_tree(l.out_buf, l.i, size as i32, Tree::piece(body, storing));
    let setting = set_tree(source, l, var, working);
    let s1 = y.push(Value::I32(k)).push(Value::I32(len));
    assert(crate::execution::pop_two(s1) == Some((Value::I32(k), Value::I32(len), y)));
    assert(crate::execution::step(Instr::I32(IntOp::GeS), s1, env) == Some(finished));
    assert(crate::execution::exec(t, y, env, fuel) == crate::execution::exec(
        Tree::op(Instr::BrIf(1), setting),
        finished,
        env,
        fuel,
    ));
    assert(finished.pop() == Some((crate::execution::truth(k >= len), y)));
    if k == len {
        (y, values)
    } else {
        let (z, more) = lemma_round(
            source,
            l,
            var,
            layout,
            ty,
            body,
            x,
            y,
            env,
            fuel,
            len,
            buf,
            header,
            k,
            tops,
            goods,
            values,
        );
        assert(State { stack: y.stack, ..z } == z);
        lemma_rounds(
            source,
            l,
            var,
            layout,
            ty,
            body,
            x,
            z,
            env,
            (fuel - 1) as nat,
            len,
            buf,
            header,
            (k + 1) as u32,
            tops,
            goods,
            more,
        )
    }
}

/// The bounds on memory rise.
proof fn lemma_tops(tops: spec_fn(int) -> int, k: int, len: int)
    requires
        0 <= k <= len,
        forall|j: int| 0 <= j < len ==> #[trigger] tops(j) <= tops(j + 1),
    ensures
        tops(k) <= tops(len),
    decreases len - k,
{
    if k < len {
        lemma_tops(tops, k + 1, len);
        assert(tops(k) <= tops(k + 1));
    }
}

/// Round `k`.
proof fn lemma_round(
    source: Source,
    l: ForLocals,
    var: u32,
    layout: ArrayLayout,
    ty: ResolvedType,
    body: Piece,
    x: State,
    y: State,
    env: Env,
    fuel: nat,
    len: u32,
    buf: u32,
    header: u32,
    k: u32,
    tops: spec_fn(int) -> int,
    goods: spec_fn(int, Value) -> bool,
    values: Seq<Value>,
) -> (r: (State, Seq<Value>))
    requires
        crate::layout::array_plan(ty) == Ok::<_, crate::layout::LayoutError>(layout),
        crate::lower::control::body_store(
            ty,
            crate::lower::aggregate::element_slot(layout),
        ) is Ok,
        in_a_row(l, var, x.locals.len()),
        readable(source, len, x),
        k < len <= i32::MAX,
        x.heap <= buf,
        buf + len * layout.element_size <= header,
        tops(len as int) <= x.mem.len(),
        tops(len as int) <= u32::MAX,
        forall|j: int| 0 <= j < len ==> #[trigger] tops(j) <= tops(j + 1),
        body_runs(
            body.effect,
            x,
            l,
            var,
            entry_type(ty),
            len as int,
            |j: int| nth(source, x.mem, j),
            tops,
            goods,
        ),
        at_round(
            y,
            x,
            source,
            l,
            len,
            buf,
            header,
            layout.element_size,
            k,
            tops(k as int),
            values,
            goods,
        ),
    ensures
        ({
            let store = crate::lower::control::body_store(
                ty,
                crate::lower::aggregate::element_slot(layout),
            )->Ok_0;
            let size = layout.element_size;
            let working = address_tree(
                l.out_buf,
                l.i,
                size as i32,
                Tree::piece(body, Tree::op(store, tail_tree(l))),
            );
            &&& crate::execution::exec(set_tree(source, l, var, working), y, env, fuel)
                == Outcome::Branch(0, r.0)
            &&& at_round(
                r.0,
                x,
                source,
                l,
                len,
                buf,
                header,
                size,
                (k + 1) as u32,
                tops(k + 1),
                r.1,
                goods,
            )
        }),
{
    let size = layout.element_size;
    let store = crate::lower::control::body_store(
        ty,
        crate::lower::aggregate::element_slot(layout),
    )->Ok_0;
    let storing = Tree::op(store, tail_tree(l));
    let working = address_tree(l.out_buf, l.i, size as i32, Tree::piece(body, storing));
    assert(size == 1 || size == 4 || size == 8);
    lemma_scaled(k as int, len as int, size as int);
    lemma_tops(tops, k + 1, len as int);
    assert(tops(k as int) <= tops(k + 1));
    lemma_set(source, l, var, working, x, y, env, fuel, k, len);
    let y1 = y.with_local(var, nth(source, x.mem, k as int));
    lemma_address(
        l.out_buf,
        l.i,
        size,
        Tree::piece(body, storing),
        y1,
        env,
        fuel,
        buf,
        k,
    );
    let at = (buf + k * size) as u32;
    let y2 = y1.push(Value::I32(at));
    let nths = |j: int| nth(source, x.mem, j);
    assert(begins_round(y2, x, var, nths(k as int), tops(k as int)));
    let good = |v: Value| goods(k as int, v);
    assert(rounds_off(body.effect, y2, l, entry_type(ty), tops(k + 1), good));
    let z = (body.effect)(y2)->Next_0;
    let v = z.stack->Push_0;
    assert(z.stack == Stack::Push(v, Box::new(Stack::Push(Value::I32(at), Box::new(y.stack)))));
    assert(goods(k as int, v));
    lemma_store_entry(ty, layout, z, env, at, v, y.stack);
    let n = size as nat;
    let z1 = State {
        mem: crate::execution::write(z.mem, at as int, v.bits(), n),
        stack: y.stack,
        ..z
    };
    crate::execution::lemma_byte_apart(z.mem, at as int, v.bits(), n);
    assert(z.locals[l.i as int] == y2.locals[l.i as int]);
    assert(z.locals[l.first as int] == y2.locals[l.first as int]);
    assert(z.locals[l.len as int] == y2.locals[l.len as int]);
    assert(z.locals[l.out_buf as int] == y2.locals[l.out_buf as int]);
    assert(z.locals[l.out_header as int] == y2.locals[l.out_header as int]);
    let z2 = lemma_tail(l, z1, env, fuel, k);
    let more = values.push(v);
    assert forall|j: int| 0 <= j < k + 1 implies goods(j, #[trigger] more[j]) && entry_is(
        z2.mem,
        buf as int,
        j,
        size,
        more[j],
    ) by {
        if j < k {
            assert(goods(j, values[j]));
            lemma_entries_apart(j, k as int, size as int);
            crate::execution::lemma_read_kept(y2, z, buf + j * size, n);
            crate::execution::lemma_read_apart(
                z.mem,
                at as int,
                v.bits(),
                n,
                buf + j * size,
                n,
            );
        }
    }
    (z2, more)
}

/// The end of a round.
proof fn lemma_tail(l: ForLocals, z: State, env: Env, fuel: nat, k: u32) -> (end: State)
    requires
        l.i < z.locals.len(),
        z.locals[l.i as int] == Value::I32(k),
        k < i32::MAX,
    ensures
        end == z.with_local(l.i, Value::I32((k + 1) as u32)),
        crate::execution::exec(tail_tree(l), z, env, fuel) == Outcome::Branch(0, end),
{
    let s1 = z.push(Value::I32(k)).push(Value::I32(1));
    assert(crate::execution::word(1) == 1);
    assert(crate::execution::pop_two(s1) == Some((Value::I32(k), Value::I32(1), z)));
    let next = Value::I32((k + 1) as u32);
    assert(crate::execution::step(Instr::I32(IntOp::Add), s1, env) == Some(z.push(next)));
    z.with_local(l.i, next)
}

// ── whole loops ──────────────────────────────────────────────────────

/// The locals of a loop stand in a row.
proof fn lemma_locals(s: SinkView)
    ensures
        crate::lower::control::for_locals(s).0 matches Ok(l) ==> {
            &&& l.first == l.source + 1
            &&& l.second == l.source + 2
            &&& l.len == l.source + 3
            &&& l.out_buf == l.source + 4
            &&& l.out_header == l.source + 5
            &&& l.i == l.source + 6
        },
{
}

spec fn slot_tree(source: u32, offset: u32, align: u32, into: u32, rest: Tree) -> Tree {
    Tree::op3(
        Instr::LocalGet(source),
        Instr::Load(LoadOp::I32, crate::lower::aggregate::mem_arg_at(offset, align)),
        Instr::LocalSet(into),
        rest,
    )
}

proof fn lemma_slot(
    source: u32,
    offset: u32,
    align: u32,
    into: u32,
    rest: Tree,
    st: State,
    env: Env,
    fuel: nat,
    r: u32,
)
    requires
        source < st.locals.len(),
        into < st.locals.len(),
        st.locals[source as int] == Value::I32(r),
        r + offset + 4 <= st.mem.len(),
    ensures
        crate::execution::exec(slot_tree(source, offset, align, into, rest), st, env, fuel)
            == crate::execution::exec(
            rest,
            st.with_local(
                into,
                Value::I32(crate::execution::read(st.mem, r + offset, 4) as u32),
            ),
            env,
            fuel,
        ),
{
    let load = Instr::Load(LoadOp::I32, crate::lower::aggregate::mem_arg_at(offset, align));
    let v = Value::I32(crate::execution::read(st.mem, r + offset, 4) as u32);
    let s1 = st.push(Value::I32(r));
    assert(s1.pop() == Some((Value::I32(r), st)));
    assert(crate::execution::step(load, s1, env) == Some(st.push(v)));
}

spec fn count_tree(l: ForLocals, rest: Tree) -> Tree {
    Tree::op3(
        Instr::LocalGet(l.second),
        Instr::LocalGet(l.first),
        Instr::I32(IntOp::Sub),
        Tree::op3(
            Instr::LocalTee(l.len),
            Instr::LocalGet(l.len),
            Instr::I32Const(0),
            Tree::op2(
                Instr::I32(IntOp::GtS),
                Instr::I32(IntOp::Mul),
                Tree::op3(
                    Instr::LocalGet(l.second),
                    Instr::LocalGet(l.first),
                    Instr::I32(IntOp::GtS),
                    Tree::op2(Instr::I32(IntOp::Mul), Instr::LocalSet(l.len), rest),
                ),
            ),
        ),
    )
}

/// The length of a range.
proof fn lemma_count(
    l: ForLocals,
    rest: Tree,
    st: State,
    env: Env,
    fuel: nat,
    a: u32,
    b: u32,
)
    requires
        l.first < st.locals.len(),
        l.second < st.locals.len(),
        l.len < st.locals.len(),
        l.first != l.len,
        l.second != l.len,
        st.locals[l.first as int] == Value::I32(a),
        st.locals[l.second as int] == Value::I32(b),
    ensures
        crate::execution::exec(count_tree(l, rest), st, env, fuel) == crate::execution::exec(
            rest,
            st.with_local(
                l.len,
                Value::I32(
                    crate::lower::ranges::range_len(
                        crate::execution::signed32(a),
                        crate::execution::signed32(b),
                    ) as u32,
                ),
            ),
            env,
            fuel,
        ),
{
    let va = Value::I32(a);
    let vb = Value::I32(b);
    let sa = crate::execution::signed32(a);
    let sb = crate::execution::signed32(b);
    let d = crate::execution::word(sb - sa);
    let sd = crate::execution::signed32(d);
    let s1 = st.push(vb).push(va);
    assert(crate::execution::pop_two(s1) == Some((vb, va, st)));
    assert(crate::execution::step(Instr::I32(IntOp::Sub), s1, env) == Some(
        st.push(Value::I32(d)),
    ));
    let x = st.with_local(l.len, Value::I32(d));
    let s2 = x.push(Value::I32(d));
    assert(crate::execution::step(Instr::LocalTee(l.len), st.push(Value::I32(d)), env) == Some(s2));
    let zero = Value::I32(0);
    assert(crate::execution::word(0) == 0);
    let s3 = s2.push(Value::I32(d)).push(zero);
    assert(crate::execution::pop_two(s3) == Some((Value::I32(d), zero, s2)));
    let positive = crate::execution::truth(sd > 0);
    assert(crate::execution::step(Instr::I32(IntOp::GtS), s3, env) == Some(s2.push(positive)));
    assert(crate::execution::pop_two(s2.push(positive)) == Some((Value::I32(d), positive, x)));
    let e = if sd > 0 {
        d
    } else {
        0
    };
    assert(sd * 1 == sd && sd * 0 == 0);
    assert(crate::execution::step(Instr::I32(IntOp::Mul), s2.push(positive), env) == Some(
        x.push(Value::I32(e)),
    ));
    let s4 = x.push(Value::I32(e));
    let s5 = s4.push(vb).push(va);
    assert(crate::execution::pop_two(s5) == Some((vb, va, s4)));
    let behind = crate::execution::truth(sb > sa);
    assert(crate::execution::step(Instr::I32(IntOp::GtS), s5, env) == Some(s4.push(behind)));
    assert(crate::execution::pop_two(s4.push(behind)) == Some((Value::I32(e), behind, x)));
    let se = crate::execution::signed32(e);
    assert(se * 1 == se && se * 0 == 0);
    let n = crate::lower::ranges::range_len(sa, sb) as u32;
    assert(crate::execution::step(Instr::I32(IntOp::Mul), s4.push(behind), env) == Some(
        x.push(Value::I32(n)),
    ));
    assert(x.with_local(l.len, Value::I32(n)) == st.with_local(l.len, Value::I32(n))) by {
        assert(x.with_local(l.len, Value::I32(n)).locals =~= st.with_local(
            l.len,
            Value::I32(n),
        ).locals);
    }
}

spec fn output_tree(l: ForLocals, size: i32, alloc: u32, rest: Tree) -> Tree {
    Tree::op3(
        Instr::LocalGet(l.len),
        Instr::I32Const(size),
        Instr::I32(IntOp::Mul),
        Tree::op3(
            Instr::Call(alloc),
            Instr::LocalSet(l.out_buf),
            Instr::I32Const(ARRAY_HEADER_SIZE as i32),
            Tree::op2(
                Instr::Call(alloc),
                Instr::LocalSet(l.out_header),
                Tree::op2(Instr::I32Const(0), Instr::LocalSet(l.i), rest),
            ),
        ),
    )
}

/// The output of a loop: a buffer, a header behind it, and no entries yet.
proof fn lemma_output(
    l: ForLocals,
    var: u32,
    size: u32,
    alloc: u32,
    rest: Tree,
    st: State,
    env: Env,
    fuel: nat,
    len: u32,
) -> (r: (State, u32, u32))
    requires
        crate::execution::allocates(env, alloc),
        in_a_row(l, var, st.locals.len()),
        st.locals[l.len as int] == Value::I32(len),
        len <= i32::MAX,
        0 < size <= i32::MAX,
        0 <= len * size,
        st.heap + 14 + len * size + ARRAY_HEADER_SIZE <= u32::MAX,
    ensures
        ({
            let (end, buf, header) = r;
            &&& crate::execution::exec(output_tree(l, size as i32, alloc, rest), st, env, fuel)
                == crate::execution::exec(rest, end, env, fuel)
            &&& st.heap <= buf
            &&& buf + len * size <= header
            &&& header + ARRAY_HEADER_SIZE == end.heap
            &&& end.heap <= st.heap + 14 + len * size + ARRAY_HEADER_SIZE
            &&& end.mem == st.mem
            &&& end.stack == st.stack
            &&& end.locals.len() == st.locals.len()
            &&& end.locals[l.out_buf as int] == Value::I32(buf)
            &&& end.locals[l.out_header as int] == Value::I32(header)
            &&& end.locals[l.i as int] == Value::I32(0)
            &&& end.locals[l.first as int] == st.locals[l.first as int]
            &&& end.locals[l.len as int] == st.locals[l.len as int]
        }),
{
    lemma_words(len, size);
    let bytes = (len * size) as u32;
    let s1 = st.push(Value::I32(len)).push(Value::I32(size));
    assert(crate::execution::word(size as i32 as int) == size);
    assert(crate::execution::pop_two(s1) == Some((Value::I32(len), Value::I32(size), st)));
    assert(crate::execution::step(Instr::I32(IntOp::Mul), s1, env) == Some(
        st.push(Value::I32(bytes)),
    ));
    crate::layout::lemma_round_up(st.heap as int, 8);
    let buf = crate::execution::next_address(st.heap) as u32;
    let a = State { heap: (buf + bytes) as u32, ..st };
    assert((env.call)(alloc, st.push(Value::I32(bytes))) == Some(a.push(Value::I32(buf))));
    let b = a.with_local(l.out_buf, Value::I32(buf));
    crate::layout::lemma_round_up(b.heap as int, 8);
    let header = crate::execution::next_address(b.heap) as u32;
    let c = State { heap: (header + ARRAY_HEADER_SIZE) as u32, ..b };
    assert(crate::execution::word(ARRAY_HEADER_SIZE as i32 as int) == ARRAY_HEADER_SIZE);
    assert((env.call)(alloc, b.push(Value::I32(ARRAY_HEADER_SIZE))) == Some(
        c.push(Value::I32(header)),
    ));
    let d = c.with_local(l.out_header, Value::I32(header));
    assert(crate::execution::word(0) == 0);
    (d.with_local(l.i, Value::I32(0)), buf, header)
}

spec fn loop_tree(
    source: Source,
    l: ForLocals,
    var: u32,
    size: i32,
    body: Piece,
    store: Instr,
    alloc: u32,
) -> Tree {
    output_tree(
        l,
        size,
        alloc,
        Tree::block(
            BlockType::Empty,
            Tree::repeat(round_tree(source, l, var, size, body, store), Tree::Done),
            header_tree(l.out_header, l.out_buf, Instr::LocalGet(l.len), Tree::Done),
        ),
    )
}

/// From the length to the finished list.
proof fn lemma_loop(
    source: Source,
    l: ForLocals,
    var: u32,
    layout: ArrayLayout,
    ty: ResolvedType,
    body: Piece,
    alloc: u32,
    x: State,
    st: State,
    env: Env,
    fuel: nat,
    len: u32,
    tops: spec_fn(int) -> int,
    goods: spec_fn(int, Value) -> bool,
) -> (r: (State, u32, u32, Seq<Value>))
    requires
        crate::execution::allocates(env, alloc),
        crate::layout::array_plan(ty) == Ok::<_, crate::layout::LayoutError>(layout),
        crate::lower::control::body_store(
            ty,
            crate::lower::aggregate::element_slot(layout),
        ) is Ok,
        in_a_row(l, var, x.locals.len()),
        readable(source, len, x),
        len <= i32::MAX,
        fuel >= len,
        st == (State { locals: st.locals, ..x }),
        st.locals.len() == x.locals.len(),
        st.locals[l.first as int] == Value::I32(first_of(source)),
        st.locals[l.len as int] == Value::I32(len),
        x.heap + 14 + len * layout.element_size + ARRAY_HEADER_SIZE <= tops(0),
        tops(len as int) <= x.mem.len(),
        tops(len as int) <= u32::MAX,
        forall|j: int| 0 <= j < len ==> #[trigger] tops(j) <= tops(j + 1),
        body_runs(
            body.effect,
            x,
            l,
            var,
            entry_type(ty),
            len as int,
            |j: int| nth(source, x.mem, j),
            tops,
            goods,
        ),
    ensures
        ({
            let store = crate::lower::control::body_store(
                ty,
                crate::lower::aggregate::element_slot(layout),
            )->Ok_0;
            let size = layout.element_size;
            let (end, header, buf, values) = r;
            &&& crate::execution::exec(
                loop_tree(source, l, var, size as i32, body, store, alloc),
                st,
                env,
                fuel,
            ) == Outcome::Next(end.push(Value::I32(header)))
            &&& end.stack == x.stack
            &&& crate::execution::keeps_heap(x, end)
            &&& x.heap <= buf
            &&& buf + len * size <= header
            &&& header + ARRAY_HEADER_SIZE <= end.heap
            &&& values.len() == len
            &&& forall|k: int| 0 <= k < len ==> goods(k, #[trigger] values[k])
            &&& list_is(end.mem, header as int, buf as int, size, values)
        }),
{
    let size = layout.element_size;
    assert(size == 1 || size == 4 || size == 8);
    assert(0 <= len * size) by (nonlinear_arith);
    lemma_tops(tops, 0, len as int);
    let store = crate::lower::control::body_store(
        ty,
        crate::lower::aggregate::element_slot(layout),
    )->Ok_0;
    let round = round_tree(source, l, var, size as i32, body, store);
    let looping = Tree::repeat(round, Tree::Done);
    let finish = header_tree(l.out_header, l.out_buf, Instr::LocalGet(l.len), Tree::Done);
    let whole = Tree::block(BlockType::Empty, looping, finish);
    let (y, buf, header) = lemma_output(l, var, size, alloc, whole, st, env, fuel, len);
    let none: Seq<Value> = Seq::empty();
    assert(at_round(
        y,
        x,
        source,
        l,
        len,
        buf,
        header,
        size,
        0,
        tops(0),
        none,
        goods,
    ));
    let (z, values) = lemma_rounds(
        source,
        l,
        var,
        layout,
        ty,
        body,
        x,
        y,
        env,
        fuel,
        len,
        buf,
        header,
        0,
        tops,
        goods,
        none,
    );
    crate::execution::lemma_block(BlockType::Empty, looping, finish, y, env, fuel);
    assert(crate::execution::left(BlockType::Empty, y, z) == Some(z));
    lemma_header(
        l.out_header,
        l.out_buf,
        Instr::LocalGet(l.len),
        Tree::Done,
        z,
        env,
        fuel,
        header,
        buf,
        len,
    );
    lemma_with_header(z.mem, header, buf, len);
    let end = z.with_memory(with_header(z.mem, header, buf, len));
    assert forall|k: int| 0 <= k < len implies goods(k, #[trigger] values[k]) && entry_is(
        end.mem,
        buf as int,
        k,
        size,
        values[k],
    ) by {
        lemma_scaled(k, len as int, size as int);
        assert(entry_is(z.mem, buf as int, k, size, values[k]));
        let at = buf + k * size;
        assert(end.mem.subrange(at, at + size) =~= z.mem.subrange(at, at + size));
    }
    (end, header, buf, values)
}

/// The pieces of a loop.
pub open spec fn for_pieces(e: IrExpr, collection: Effect, body: Effect) -> Seq<Piece> {
    seq![
        Piece { e: *e->For_collection, into: None, effect: collection },
        Piece { e: *e->For_body, into: None, effect: body },
    ]
}

/// The local of a loop's variable.
pub open spec fn loop_variable(e: IrExpr, cx: Cx) -> u32 {
    cx.local_of(e->For_var_binding_id)->Ok_0
}

/// The locals that a loop takes.
pub open spec fn loop_locals(s: SinkView) -> ForLocals {
    crate::lower::control::for_locals(s).0->Ok_0
}

/// The type of the entries that a loop makes.
pub open spec fn made_type(e: IrExpr) -> ResolvedType {
    *e->For_ty->Array_0
}

/// The size of the entries that a loop makes.
pub open spec fn made_size(e: IrExpr) -> u32 {
    crate::layout::array_plan(made_type(e))->Ok_0.element_size
}

/// Code with seven scratch locals first.
spec fn taking(rest: Tree) -> Tree {
    let ty = ValType::I32;
    Tree::take(
        ty,
        Tree::take(
            ty,
            Tree::take(
                ty,
                Tree::take(ty, Tree::take(ty, Tree::take(ty, Tree::take(ty, rest)))),
            ),
        ),
    )
}

proof fn lemma_taking_written(rest: Tree, s: SinkView, cx: Cx)
    requires
        crate::lower::control::for_locals(s).0 is Ok,
    ensures
        crate::execution::written(taking(rest), s, cx) == crate::execution::written(
            rest,
            crate::lower::control::for_locals(s).1,
            cx,
        ),
        crate::execution::pieces(taking(rest)) == crate::execution::pieces(rest),
{
}

proof fn lemma_taking(rest: Tree, st: State, env: Env, fuel: nat)
    ensures
        crate::execution::exec(taking(rest), st, env, fuel) == crate::execution::exec(
            rest,
            st,
            env,
            fuel,
        ),
{
}

/// The code of the loop from the output on.
proof fn lemma_loop_written(
    source: Source,
    l: ForLocals,
    var: u32,
    layout: ArrayLayout,
    ty: ResolvedType,
    e: IrExpr,
    effect: Effect,
    cx: Cx,
    s: SinkView,
    set: SinkView,
)
    requires
        crate::layout::array_plan(ty) == Ok::<_, crate::layout::LayoutError>(layout),
        crate::lower::control::output_code(layout, l, cx, s).err is None,
        crate::lower::control::for_body_code(
            e,
            ty,
            layout,
            layout.element_size as i32,
            l,
            cx,
            set,
        ).err is None,
        set == match source {
            Source::Numbers(_) => crate::lower::control::loop_head(
                l,
                crate::lower::control::output_code(layout, l, cx, s).sink,
            ).emit(Instr::LocalGet(l.first)).emit(Instr::LocalGet(l.i)).emit(
                Instr::I32(IntOp::Add),
            ).emit(Instr::LocalSet(var)),
            Source::Entries(_, size, load, _) => crate::lower::control::element_address(
                l.first,
                l.i,
                size as i32,
                crate::lower::control::loop_head(
                    l,
                    crate::lower::control::output_code(layout, l, cx, s).sink,
                ),
            ).emit(load).emit(Instr::LocalSet(var)),
        },
    ensures
        ({
            let store = crate::lower::control::body_store(
                ty,
                crate::lower::aggregate::element_slot(layout),
            );
            let body = Piece { e, into: None, effect };
            let t = loop_tree(
                source,
                l,
                var,
                layout.element_size as i32,
                body,
                store->Ok_0,
                cx.spec_bump_allocator()->Ok_0,
            );
            &&& store is Ok
            &&& crate::execution::written(t, s, cx) == crate::lower::control::for_body_code(
                e,
                ty,
                layout,
                layout.element_size as i32,
                l,
                cx,
                set,
            ).sink
            &&& crate::execution::pieces(t) =~= seq![body]
        }),
{
    let body = Piece { e, into: None, effect };
    let store = crate::lower::control::body_store(
        ty,
        crate::lower::aggregate::element_slot(layout),
    )->Ok_0;
    let size = layout.element_size as i32;
    let tail = tail_tree(l);
    assert(crate::execution::pieces(Tree::piece(body, Tree::op(store, tail))) =~= seq![body]);
    let round = round_tree(source, l, var, size, body, store);
    assert(crate::execution::pieces(round) =~= seq![body]);
    let finish = header_tree(l.out_header, l.out_buf, Instr::LocalGet(l.len), Tree::Done);
    assert(crate::execution::pieces(finish) =~= Seq::empty());
    assert(crate::execution::pieces(Tree::repeat(round, Tree::Done)) =~= seq![body]);
}

/// The code of a loop over a range, part by part.
spec fn range_prefix(e: IrExpr, cx: Cx, s: SinkView) -> SinkView {
    let l = loop_locals(s);
    let range = crate::layout::range_plan(*(*e->For_collection).spec_ty()->Range_0)->Ok_0;
    let s1 = crate::lower::control::for_locals(s).1;
    let s2 = crate::lower::expr_code(*e->For_collection, cx, s1).sink.emit(
        Instr::LocalSet(l.source),
    );
    let s3 = crate::lower::control::read_slot(l.source, 0, range.bound_align, l.first, s2);
    let s4 = crate::lower::control::read_slot(
        l.source,
        range.end_offset,
        range.bound_align,
        l.second,
        s3,
    );
    crate::lower::control::range_len_code(l, s4)
}

/// The code of a loop over a range, up to the body.
spec fn range_set(e: IrExpr, cx: Cx, s: SinkView) -> SinkView {
    let l = loop_locals(s);
    let layout = crate::layout::array_plan(made_type(e))->Ok_0;
    let o = crate::lower::control::output_code(layout, l, cx, range_prefix(e, cx, s));
    crate::lower::control::loop_head(l, o.sink).emit(Instr::LocalGet(l.first)).emit(
        Instr::LocalGet(l.i),
    ).emit(Instr::I32(IntOp::Add)).emit(Instr::LocalSet(loop_variable(e, cx)))
}

proof fn lemma_range_code(e: IrExpr, cx: Cx, s: SinkView)
    requires
        e is For,
        (*e->For_collection).spec_ty() is Range,
        crate::lower::expr_code(e, cx, s).err is None,
    ensures
        ({
            let l = loop_locals(s);
            let ty = made_type(e);
            let layout = crate::layout::array_plan(ty)->Ok_0;
            let bound = *(*e->For_collection).spec_ty()->Range_0;
            &&& crate::layout::array_plan(ty) is Ok
            &&& crate::layout::range_plan(bound) is Ok
            &&& crate::layout::range_plan(bound)->Ok_0.end_offset == 4
            &&& crate::lower::control::for_locals(s).0 is Ok
            &&& crate::lower::control::output_code(
                layout,
                l,
                cx,
                range_prefix(e, cx, s),
            ).err is None
            &&& crate::lower::expr_code(e, cx, s) == crate::lower::control::for_body_code(
                *e->For_body,
                ty,
                layout,
                layout.element_size as i32,
                l,
                cx,
                range_set(e, cx, s),
            )
        }),
{
    let ty = made_type(e);
    let var = loop_variable(e, cx);
    let bound = *(*e->For_collection).spec_ty()->Range_0;
    assert(crate::lower::expr_code(e, cx, s) == crate::lower::control::for_code(e, cx, s));
    assert(e->For_ty is Array);
    assert(crate::lower::control::for_code(e, cx, s) == crate::lower::control::for_range_code(
        e,
        bound,
        ty,
        var,
        cx,
        s,
    ));
}

/// The structure of a loop over a range.
spec fn range_tree(
    e: IrExpr,
    cx: Cx,
    s: SinkView,
    collection: Effect,
    body: Effect,
    start: u32,
) -> Tree {
    let l = loop_locals(s);
    let ty = made_type(e);
    let layout = crate::layout::array_plan(ty)->Ok_0;
    let range = crate::layout::range_plan(*(*e->For_collection).spec_ty()->Range_0)->Ok_0;
    let store = crate::lower::control::body_store(
        ty,
        crate::lower::aggregate::element_slot(layout),
    )->Ok_0;
    let looping = loop_tree(
        Source::Numbers(start),
        l,
        loop_variable(e, cx),
        layout.element_size as i32,
        Piece { e: *e->For_body, into: None, effect: body },
        store,
        cx.spec_bump_allocator()->Ok_0,
    );
    taking(
        Tree::piece(
            Piece { e: *e->For_collection, into: None, effect: collection },
            Tree::op(
                Instr::LocalSet(l.source),
                slot_tree(
                    l.source,
                    0,
                    range.bound_align,
                    l.first,
                    slot_tree(
                        l.source,
                        range.end_offset,
                        range.bound_align,
                        l.second,
                        count_tree(l, looping),
                    ),
                ),
            ),
        ),
    )
}

proof fn lemma_range_tree(
    e: IrExpr,
    cx: Cx,
    s: SinkView,
    collection: Effect,
    body: Effect,
    start: u32,
)
    requires
        e is For,
        (*e->For_collection).spec_ty() is Range,
        crate::lower::expr_code(e, cx, s).err is None,
    ensures
        crate::execution::written(range_tree(e, cx, s, collection, body, start), s, cx)
            == crate::lower::expr_code(e, cx, s).sink,
        crate::execution::pieces(range_tree(e, cx, s, collection, body, start)) =~= for_pieces(
            e,
            collection,
            body,
        ),
        crate::lower::control::body_store(
            made_type(e),
            crate::lower::aggregate::element_slot(
                crate::layout::array_plan(made_type(e))->Ok_0,
            ),
        ) is Ok,
{
    lemma_range_code(e, cx, s);
    let l = loop_locals(s);
    let var = loop_variable(e, cx);
    let ty = made_type(e);
    let layout = crate::layout::array_plan(ty)->Ok_0;
    let range = crate::layout::range_plan(*(*e->For_collection).spec_ty()->Range_0)->Ok_0;
    let prefix = range_prefix(e, cx, s);
    let set = range_set(e, cx, s);
    let source = Source::Numbers(start);
    lemma_loop_written(source, l, var, layout, ty, *e->For_body, body, cx, prefix, set);
    let store = crate::lower::control::body_store(
        ty,
        crate::lower::aggregate::element_slot(layout),
    )->Ok_0;
    let piece = Piece { e: *e->For_body, into: None, effect: body };
    let alloc = cx.spec_bump_allocator()->Ok_0;
    let looping = loop_tree(source, l, var, layout.element_size as i32, piece, store, alloc);
    let counting = count_tree(l, looping);
    let second = slot_tree(l.source, range.end_offset, range.bound_align, l.second, counting);
    let first = slot_tree(l.source, 0, range.bound_align, l.first, second);
    let given = Piece { e: *e->For_collection, into: None, effect: collection };
    let rest = Tree::piece(given, Tree::op(Instr::LocalSet(l.source), first));
    lemma_taking_written(rest, s, cx);
    assert(crate::execution::pieces(rest) =~= for_pieces(e, collection, body));
}

/// Running a loop over a range.
proof fn lemma_range_run(
    e: IrExpr,
    cx: Cx,
    s: SinkView,
    st: State,
    env: Env,
    fuel: nat,
    collection: Effect,
    body: Effect,
    x: State,
    r: u32,
    a: u32,
    b: u32,
    len: u32,
)
    requires
        (*e->For_collection).spec_ty() is Range,
        crate::layout::range_plan(
            *(*e->For_collection).spec_ty()->Range_0,
        )->Ok_0.end_offset == 4,
        collection(st) == Outcome::Next(x.push(Value::I32(r))),
        r + 8 <= x.mem.len(),
        crate::execution::read(x.mem, r as int, 4) == a,
        crate::execution::read(x.mem, r + 4, 4) == b,
        in_a_row(loop_locals(s), loop_variable(e, cx), x.locals.len()),
        len == crate::lower::ranges::range_len(
            crate::execution::signed32(a),
            crate::execution::signed32(b),
        ),
    ensures
        ({
            let l = loop_locals(s);
            let ty = made_type(e);
            let layout = crate::layout::array_plan(ty)->Ok_0;
            let store = crate::lower::control::body_store(
                ty,
                crate::lower::aggregate::element_slot(layout),
            )->Ok_0;
            let looping = loop_tree(
                Source::Numbers(a),
                l,
                loop_variable(e, cx),
                layout.element_size as i32,
                Piece { e: *e->For_body, into: None, effect: body },
                store,
                cx.spec_bump_allocator()->Ok_0,
            );
            crate::execution::exec(range_tree(e, cx, s, collection, body, a), st, env, fuel)
                == crate::execution::exec(
                looping,
                x.with_local(l.source, Value::I32(r)).with_local(
                    l.first,
                    Value::I32(a),
                ).with_local(l.second, Value::I32(b)).with_local(l.len, Value::I32(len)),
                env,
                fuel,
            )
        }),
{
    let l = loop_locals(s);
    let ty = made_type(e);
    let layout = crate::layout::array_plan(ty)->Ok_0;
    let range = crate::layout::range_plan(*(*e->For_collection).spec_ty()->Range_0)->Ok_0;
    let store = crate::lower::control::body_store(
        ty,
        crate::lower::aggregate::element_slot(layout),
    )->Ok_0;
    let looping = loop_tree(
        Source::Numbers(a),
        l,
        loop_variable(e, cx),
        layout.element_size as i32,
        Piece { e: *e->For_body, into: None, effect: body },
        store,
        cx.spec_bump_allocator()->Ok_0,
    );
    let counting = count_tree(l, looping);
    let second = slot_tree(l.source, range.end_offset, range.bound_align, l.second, counting);
    let first = slot_tree(l.source, 0, range.bound_align, l.first, second);
    let given = Piece { e: *e->For_collection, into: None, effect: collection };
    let rest = Tree::piece(given, Tree::op(Instr::LocalSet(l.source), first));
    lemma_taking(rest, st, env, fuel);
    let x1 = x.with_local(l.source, Value::I32(r));
    lemma_start(collection, given, l, first, st, x, env, fuel, r);
    lemma_slot(l.source, 0, range.bound_align, l.first, second, x1, env, fuel, r);
    let x2 = x1.with_local(l.first, Value::I32(a));
    lemma_slot(
        l.source,
        range.end_offset,
        range.bound_align,
        l.second,
        counting,
        x2,
        env,
        fuel,
        r,
    );
    let x3 = x2.with_local(l.second, Value::I32(b));
    lemma_count(l, looping, x3, env, fuel, a, b);
}

/// The beginning of a loop: what it runs over is parked.
proof fn lemma_start(
    collection: Effect,
    given: Piece,
    l: ForLocals,
    rest: Tree,
    st: State,
    x: State,
    env: Env,
    fuel: nat,
    r: u32,
)
    requires
        given.effect == collection,
        collection(st) == Outcome::Next(x.push(Value::I32(r))),
        l.source < x.locals.len(),
    ensures
        crate::execution::exec(
            Tree::piece(given, Tree::op(Instr::LocalSet(l.source), rest)),
            st,
            env,
            fuel,
        ) == crate::execution::exec(rest, x.with_local(l.source, Value::I32(r)), env, fuel),
{
}

/// A loop over a range leaves a list with as many entries as the range has
/// numbers. When the body begins in round `k`, the loop variable holds the
/// start plus `k`; what the body leaves is entry `k`.
pub proof fn law_range_loops_count_from_the_start(
    e: IrExpr,
    cx: Cx,
    s: SinkView,
    st: State,
    env: Env,
    fuel: nat,
    collection: Effect,
    body: Effect,
    x: State,
    r: u32,
    start: i32,
    end: i32,
    tops: spec_fn(int) -> int,
    goods: spec_fn(int, Value) -> bool,
) -> (result: (State, u32, u32, Seq<Value>))
    requires
        e is For,
        (*e->For_collection).spec_ty() is Range,
        crate::lower::expr_code(e, cx, s).err is None,
        crate::execution::allocates(env, cx.spec_bump_allocator()->Ok_0),
        collection(st) == Outcome::Next(x.push(Value::I32(r))),
        r + 8 <= x.mem.len(),
        crate::execution::read(x.mem, r as int, 4) == crate::execution::word(start as int),
        crate::execution::read(x.mem, r + 4, 4) == crate::execution::word(end as int),
        loop_locals(s).i < x.locals.len(),
        loop_variable(e, cx) < x.locals.len(),
        loop_variable(e, cx) < loop_locals(s).source || loop_variable(e, cx) > loop_locals(s).i,
        ({
            let len = crate::lower::ranges::range_len(start as int, end as int);
            &&& fuel >= len
            &&& x.heap + 14 + len * made_size(e) + ARRAY_HEADER_SIZE <= tops(0)
            &&& tops(len) <= x.mem.len()
            &&& tops(len) <= u32::MAX
            &&& forall|j: int| 0 <= j < len ==> #[trigger] tops(j) <= tops(j + 1)
            &&& body_runs(
                body,
                x,
                loop_locals(s),
                loop_variable(e, cx),
                entry_type(made_type(e)),
                len,
                |k: int| Value::I32(crate::execution::word(start + k)),
                tops,
                goods,
            )
        }),
    ensures
        ({
            let len = crate::lower::ranges::range_len(start as int, end as int);
            let (after, header, buf, values) = result;
            &&& crate::execution::behaves(
                s,
                crate::lower::expr_code(e, cx, s).sink,
                cx,
                for_pieces(e, collection, body),
                st,
                env,
                fuel,
                Outcome::Next(after.push(Value::I32(header))),
            )
            &&& after.stack == x.stack
            &&& crate::execution::keeps_heap(x, after)
            &&& x.heap <= buf
            &&& buf + len * made_size(e) <= header
            &&& header + ARRAY_HEADER_SIZE <= after.heap
            &&& values.len() == len
            &&& forall|k: int| 0 <= k < len ==> goods(k, #[trigger] values[k])
            &&& list_is(after.mem, header as int, buf as int, made_size(e), values)
        }),
{
    let ty = made_type(e);
    let layout = crate::layout::array_plan(ty)->Ok_0;
    let l = loop_locals(s);
    let var = loop_variable(e, cx);
    let a = crate::execution::word(start as int);
    let b = crate::execution::word(end as int);
    assert(crate::execution::signed32(a) == start);
    assert(crate::execution::signed32(b) == end);
    let source = Source::Numbers(a);
    let len = crate::lower::ranges::range_len(start as int, end as int) as u32;
    lemma_range_facts(e, cx, s);
    lemma_range_tree(e, cx, s, collection, body, a);
    lemma_range_run(e, cx, s, st, env, fuel, collection, body, x, r, a, b, len);
    let x1 = x.with_local(l.source, Value::I32(r)).with_local(l.first, Value::I32(a)).with_local(
        l.second,
        Value::I32(b),
    ).with_local(l.len, Value::I32(len));
    let numbers = |k: int| Value::I32(crate::execution::word(start + k));
    let nths = |k: int| nth(source, x.mem, k);
    lemma_same_values(body, x, l, var, entry_type(ty), len as int, numbers, nths, tops, goods);
    let result = lemma_loop(
        source,
        l,
        var,
        layout,
        ty,
        Piece { e: *e->For_body, into: None, effect: body },
        cx.spec_bump_allocator()->Ok_0,
        x,
        x1,
        env,
        fuel,
        len,
        tops,
        goods,
    );
    crate::execution::lemma_behaves(
        range_tree(e, cx, s, collection, body, a),
        s,
        cx,
        for_pieces(e, collection, body),
        st,
        env,
        fuel,
    );
    result
}

/// What is known of a loop over a range that has code.
proof fn lemma_range_facts(e: IrExpr, cx: Cx, s: SinkView)
    requires
        e is For,
        (*e->For_collection).spec_ty() is Range,
        crate::lower::expr_code(e, cx, s).err is None,
    ensures
        crate::layout::array_plan(made_type(e)) is Ok,
        crate::layout::range_plan(
            *(*e->For_collection).spec_ty()->Range_0,
        )->Ok_0.end_offset == 4,
        ({
            let l = loop_locals(s);
            &&& l.first == l.source + 1
            &&& l.second == l.source + 2
            &&& l.len == l.source + 3
            &&& l.out_buf == l.source + 4
            &&& l.out_header == l.source + 5
            &&& l.i == l.source + 6
        }),
{
    lemma_range_code(e, cx, s);
    lemma_locals(s);
}

/// The same values of the loop variable, written otherwise.
proof fn lemma_same_values(
    body: Effect,
    start: State,
    l: ForLocals,
    var: u32,
    ty: ValType,
    len: int,
    values: spec_fn(int) -> Value,
    others: spec_fn(int) -> Value,
    tops: spec_fn(int) -> int,
    goods: spec_fn(int, Value) -> bool,
)
    requires
        body_runs(body, start, l, var, ty, len, values, tops, goods),
        forall|k: int| 0 <= k < len ==> #[trigger] others(k) == values(k),
    ensures
        body_runs(body, start, l, var, ty, len, others, tops, goods),
{
    assert forall|k: int, y: State|
        0 <= k < len && #[trigger] begins_round(
            y,
            start,
            var,
            others(k),
            tops(k),
        ) implies rounds_off(body, y, l, ty, tops(k + 1), |v: Value| goods(k, v)) by {
        assert(others(k) == values(k));
        assert(begins_round(y, start, var, values(k), tops(k)));
    }
}

/// The type of the entries that a loop runs through.
pub open spec fn given_type(e: IrExpr) -> ResolvedType {
    *(*e->For_collection).spec_ty()->Array_0
}

/// The code of a loop over a list, up to the length.
spec fn list_prefix(e: IrExpr, cx: Cx, s: SinkView) -> SinkView {
    let l = loop_locals(s);
    let s1 = crate::lower::control::for_locals(s).1;
    let s2 = crate::lower::expr_code(*e->For_collection, cx, s1).sink.emit(
        Instr::LocalSet(l.source),
    );
    let s3 = crate::lower::control::read_slot(
        l.source,
        ARRAY_HEADER_PTR_OFFSET,
        ARRAY_HEADER_ALIGN,
        l.first,
        s2,
    );
    crate::lower::control::read_slot(
        l.source,
        ARRAY_HEADER_LEN_OFFSET,
        ARRAY_HEADER_ALIGN,
        l.len,
        s3,
    )
}

/// The load of an entry.
spec fn list_load(e: IrExpr) -> Instr {
    crate::lower::control::for_element_load(
        given_type(e),
        crate::lower::aggregate::element_slot(crate::layout::array_plan(given_type(e))->Ok_0),
    )->Ok_0
}

/// The code of a loop over a list, up to the body.
spec fn list_set(e: IrExpr, cx: Cx, s: SinkView) -> SinkView {
    let l = loop_locals(s);
    let layout = crate::layout::array_plan(made_type(e))->Ok_0;
    let input = crate::layout::array_plan(given_type(e))->Ok_0;
    let o = crate::lower::control::output_code(layout, l, cx, list_prefix(e, cx, s));
    crate::lower::control::element_address(
        l.first,
        l.i,
        input.element_size as i32,
        crate::lower::control::loop_head(l, o.sink),
    ).emit(list_load(e)).emit(Instr::LocalSet(loop_variable(e, cx)))
}

proof fn lemma_list_code(e: IrExpr, cx: Cx, s: SinkView)
    requires
        e is For,
        (*e->For_collection).spec_ty() is Array,
        crate::lower::expr_code(e, cx, s).err is None,
    ensures
        ({
            let l = loop_locals(s);
            let ty = made_type(e);
            let layout = crate::layout::array_plan(ty)->Ok_0;
            &&& crate::layout::array_plan(ty) is Ok
            &&& crate::layout::array_plan(given_type(e)) is Ok
            &&& crate::lower::control::for_locals(s).0 is Ok
            &&& crate::lower::control::for_element_load(
                given_type(e),
                crate::lower::aggregate::element_slot(
                    crate::layout::array_plan(given_type(e))->Ok_0,
                ),
            ) is Ok
            &&& crate::lower::control::output_code(
                layout,
                l,
                cx,
                list_prefix(e, cx, s),
            ).err is None
            &&& crate::lower::expr_code(e, cx, s) == crate::lower::control::for_body_code(
                *e->For_body,
                ty,
                layout,
                layout.element_size as i32,
                l,
                cx,
                list_set(e, cx, s),
            )
        }),
{
    let ty = made_type(e);
    let var = loop_variable(e, cx);
    assert(crate::lower::expr_code(e, cx, s) == crate::lower::control::for_code(e, cx, s));
    assert(e->For_ty is Array);
    assert(crate::lower::control::for_code(e, cx, s) == crate::lower::control::for_array_code(
        e,
        given_type(e),
        ty,
        var,
        cx,
        s,
    ));
    let l = loop_locals(s);
    let layout = crate::layout::array_plan(ty)->Ok_0;
    let o = crate::lower::control::output_code(layout, l, cx, list_prefix(e, cx, s));
    assert(crate::lower::expr_code(e, cx, s) == crate::lower::control::for_array_loop_code(
        *e->For_body,
        given_type(e),
        ty,
        crate::layout::array_plan(given_type(e))->Ok_0,
        layout,
        var,
        l,
        cx,
        o.sink,
    ));
}

/// The structure of a loop over a list.
spec fn list_tree(
    e: IrExpr,
    cx: Cx,
    s: SinkView,
    collection: Effect,
    body: Effect,
    buf: u32,
) -> Tree {
    let l = loop_locals(s);
    let ty = made_type(e);
    let layout = crate::layout::array_plan(ty)->Ok_0;
    let input = crate::layout::array_plan(given_type(e))->Ok_0;
    let store = crate::lower::control::body_store(
        ty,
        crate::lower::aggregate::element_slot(layout),
    )->Ok_0;
    let looping = loop_tree(
        Source::Entries(buf, input.element_size, list_load(e), given_type(e)),
        l,
        loop_variable(e, cx),
        layout.element_size as i32,
        Piece { e: *e->For_body, into: None, effect: body },
        store,
        cx.spec_bump_allocator()->Ok_0,
    );
    taking(
        Tree::piece(
            Piece { e: *e->For_collection, into: None, effect: collection },
            Tree::op(
                Instr::LocalSet(l.source),
                slot_tree(
                    l.source,
                    ARRAY_HEADER_PTR_OFFSET,
                    ARRAY_HEADER_ALIGN,
                    l.first,
                    slot_tree(
                        l.source,
                        ARRAY_HEADER_LEN_OFFSET,
                        ARRAY_HEADER_ALIGN,
                        l.len,
                        looping,
                    ),
                ),
            ),
        ),
    )
}

proof fn lemma_list_tree(
    e: IrExpr,
    cx: Cx,
    s: SinkView,
    collection: Effect,
    body: Effect,
    buf: u32,
)
    requires
        e is For,
        (*e->For_collection).spec_ty() is Array,
        crate::lower::expr_code(e, cx, s).err is None,
    ensures
        crate::execution::written(list_tree(e, cx, s, collection, body, buf), s, cx)
            == crate::lower::expr_code(e, cx, s).sink,
        crate::execution::pieces(list_tree(e, cx, s, collection, body, buf)) =~= for_pieces(
            e,
            collection,
            body,
        ),
        crate::lower::control::body_store(
            made_type(e),
            crate::lower::aggregate::element_slot(
                crate::layout::array_plan(made_type(e))->Ok_0,
            ),
        ) is Ok,
{
    lemma_list_code(e, cx, s);
    let l = loop_locals(s);
    let var = loop_variable(e, cx);
    let ty = made_type(e);
    let layout = crate::layout::array_plan(ty)->Ok_0;
    let input = crate::layout::array_plan(given_type(e))->Ok_0;
    let prefix = list_prefix(e, cx, s);
    let set = list_set(e, cx, s);
    let source = Source::Entries(buf, input.element_size, list_load(e), given_type(e));
    lemma_loop_written(source, l, var, layout, ty, *e->For_body, body, cx, prefix, set);
    let store = crate::lower::control::body_store(
        ty,
        crate::lower::aggregate::element_slot(layout),
    )->Ok_0;
    let piece = Piece { e: *e->For_body, into: None, effect: body };
    let alloc = cx.spec_bump_allocator()->Ok_0;
    let looping = loop_tree(source, l, var, layout.element_size as i32, piece, store, alloc);
    let second = slot_tree(
        l.source,
        ARRAY_HEADER_LEN_OFFSET,
        ARRAY_HEADER_ALIGN,
        l.len,
        looping,
    );
    let first = slot_tree(
        l.source,
        ARRAY_HEADER_PTR_OFFSET,
        ARRAY_HEADER_ALIGN,
        l.first,
        second,
    );
    let given = Piece { e: *e->For_collection, into: None, effect: collection };
    let rest = Tree::piece(given, Tree::op(Instr::LocalSet(l.source), first));
    lemma_taking_written(rest, s, cx);
    assert(crate::execution::pieces(rest) =~= for_pieces(e, collection, body));
}

/// Running a loop over a list.
proof fn lemma_list_run(
    e: IrExpr,
    cx: Cx,
    s: SinkView,
    st: State,
    env: Env,
    fuel: nat,
    collection: Effect,
    body: Effect,
    x: State,
    r: u32,
    buf: u32,
    len: u32,
)
    requires
        collection(st) == Outcome::Next(x.push(Value::I32(r))),
        r + ARRAY_HEADER_SIZE <= x.mem.len(),
        crate::execution::read(x.mem, r + ARRAY_HEADER_PTR_OFFSET, 4) == buf,
        crate::execution::read(x.mem, r + ARRAY_HEADER_LEN_OFFSET, 4) == len,
        in_a_row(loop_locals(s), loop_variable(e, cx), x.locals.len()),
    ensures
        ({
            let l = loop_locals(s);
            let ty = made_type(e);
            let layout = crate::layout::array_plan(ty)->Ok_0;
            let input = crate::layout::array_plan(given_type(e))->Ok_0;
            let store = crate::lower::control::body_store(
                ty,
                crate::lower::aggregate::element_slot(layout),
            )->Ok_0;
            let looping = loop_tree(
                Source::Entries(buf, input.element_size, list_load(e), given_type(e)),
                l,
                loop_variable(e, cx),
                layout.element_size as i32,
                Piece { e: *e->For_body, into: None, effect: body },
                store,
                cx.spec_bump_allocator()->Ok_0,
            );
            crate::execution::exec(list_tree(e, cx, s, collection, body, buf), st, env, fuel)
                == crate::execution::exec(
                looping,
                x.with_local(l.source, Value::I32(r)).with_local(
                    l.first,
                    Value::I32(buf),
                ).with_local(l.len, Value::I32(len)),
                env,
                fuel,
            )
        }),
{
    let l = loop_locals(s);
    let ty = made_type(e);
    let layout = crate::layout::array_plan(ty)->Ok_0;
    let input = crate::layout::array_plan(given_type(e))->Ok_0;
    let store = crate::lower::control::body_store(
        ty,
        crate::lower::aggregate::element_slot(layout),
    )->Ok_0;
    let looping = loop_tree(
        Source::Entries(buf, input.element_size, list_load(e), given_type(e)),
        l,
        loop_variable(e, cx),
        layout.element_size as i32,
        Piece { e: *e->For_body, into: None, effect: body },
        store,
        cx.spec_bump_allocator()->Ok_0,
    );
    let second = slot_tree(
        l.source,
        ARRAY_HEADER_LEN_OFFSET,
        ARRAY_HEADER_ALIGN,
        l.len,
        looping,
    );
    let first = slot_tree(
        l.source,
        ARRAY_HEADER_PTR_OFFSET,
        ARRAY_HEADER_ALIGN,
        l.first,
        second,
    );
    let given = Piece { e: *e->For_collection, into: None, effect: collection };
    let rest = Tree::piece(given, Tree::op(Instr::LocalSet(l.source), first));
    lemma_taking(rest, st, env, fuel);
    lemma_start(collection, given, l, first, st, x, env, fuel, r);
    let x1 = x.with_local(l.source, Value::I32(r));
    lemma_slot(
        l.source,
        ARRAY_HEADER_PTR_OFFSET,
        ARRAY_HEADER_ALIGN,
        l.first,
        second,
        x1,
        env,
        fuel,
        r,
    );
    let x2 = x1.with_local(l.first, Value::I32(buf));
    lemma_slot(
        l.source,
        ARRAY_HEADER_LEN_OFFSET,
        ARRAY_HEADER_ALIGN,
        l.len,
        looping,
        x2,
        env,
        fuel,
        r,
    );
}

/// What is known of a loop over a list that has code.
proof fn lemma_list_facts(e: IrExpr, cx: Cx, s: SinkView)
    requires
        e is For,
        (*e->For_collection).spec_ty() is Array,
        crate::lower::expr_code(e, cx, s).err is None,
    ensures
        crate::layout::array_plan(made_type(e)) is Ok,
        crate::layout::array_plan(given_type(e)) is Ok,
        crate::lower::control::for_element_load(
            given_type(e),
            crate::lower::aggregate::element_slot(
                crate::layout::array_plan(given_type(e))->Ok_0,
            ),
        ) is Ok,
        ({
            let l = loop_locals(s);
            &&& l.first == l.source + 1
            &&& l.second == l.source + 2
            &&& l.len == l.source + 3
            &&& l.out_buf == l.source + 4
            &&& l.out_header == l.source + 5
            &&& l.i == l.source + 6
        }),
{
    lemma_list_code(e, cx, s);
    lemma_locals(s);
}

/// A loop over a list leaves a list of the same length. When the body begins in
/// round `k`, the loop variable holds entry `k` of the first list; what the body
/// leaves is entry `k` of the second one.
pub proof fn law_list_loops_run_through_the_entries(
    e: IrExpr,
    cx: Cx,
    s: SinkView,
    st: State,
    env: Env,
    fuel: nat,
    collection: Effect,
    body: Effect,
    x: State,
    r: u32,
    given_buf: u32,
    inputs: Seq<Value>,
    tops: spec_fn(int) -> int,
    goods: spec_fn(int, Value) -> bool,
) -> (result: (State, u32, u32, Seq<Value>))
    requires
        e is For,
        (*e->For_collection).spec_ty() is Array,
        crate::lower::expr_code(e, cx, s).err is None,
        crate::execution::allocates(env, cx.spec_bump_allocator()->Ok_0),
        collection(st) == Outcome::Next(x.push(Value::I32(r))),
        r + ARRAY_HEADER_SIZE <= x.mem.len(),
        x.heap <= x.mem.len(),
        ({
            let elem = given_type(e);
            let size = crate::layout::array_plan(elem)->Ok_0.element_size;
            &&& list_is(x.mem, r as int, given_buf as int, size, inputs)
            &&& given_buf + inputs.len() * size <= x.heap
            &&& forall|k: int|
                0 <= k < inputs.len() ==> (#[trigger] inputs[k]).ty() == entry_type(elem)
                    && inputs[k].bits() < crate::lower::storage::byte_limit(size as nat)
        }),
        inputs.len() <= i32::MAX,
        loop_locals(s).i < x.locals.len(),
        loop_variable(e, cx) < x.locals.len(),
        loop_variable(e, cx) < loop_locals(s).source || loop_variable(e, cx) > loop_locals(s).i,
        ({
            let len = inputs.len() as int;
            &&& fuel >= len
            &&& x.heap + 14 + len * made_size(e) + ARRAY_HEADER_SIZE <= tops(0)
            &&& tops(len) <= x.mem.len()
            &&& tops(len) <= u32::MAX
            &&& forall|j: int| 0 <= j < len ==> #[trigger] tops(j) <= tops(j + 1)
            &&& body_runs(
                body,
                x,
                loop_locals(s),
                loop_variable(e, cx),
                entry_type(made_type(e)),
                len,
                |k: int| inputs[k],
                tops,
                goods,
            )
        }),
    ensures
        ({
            let len = inputs.len() as int;
            let (after, header, buf, values) = result;
            &&& crate::execution::behaves(
                s,
                crate::lower::expr_code(e, cx, s).sink,
                cx,
                for_pieces(e, collection, body),
                st,
                env,
                fuel,
                Outcome::Next(after.push(Value::I32(header))),
            )
            &&& after.stack == x.stack
            &&& crate::execution::keeps_heap(x, after)
            &&& x.heap <= buf
            &&& buf + len * made_size(e) <= header
            &&& header + ARRAY_HEADER_SIZE <= after.heap
            &&& values.len() == len
            &&& forall|k: int| 0 <= k < len ==> goods(k, #[trigger] values[k])
            &&& list_is(after.mem, header as int, buf as int, made_size(e), values)
        }),
{
    let ty = made_type(e);
    let layout = crate::layout::array_plan(ty)->Ok_0;
    let l = loop_locals(s);
    let var = loop_variable(e, cx);
    let elem = given_type(e);
    let in_size = crate::layout::array_plan(elem)->Ok_0.element_size;
    let source = Source::Entries(given_buf, in_size, list_load(e), elem);
    let len = inputs.len() as u32;
    lemma_list_facts(e, cx, s);
    lemma_list_tree(e, cx, s, collection, body, given_buf);
    lemma_list_run(e, cx, s, st, env, fuel, collection, body, x, r, given_buf, len);
    let x1 = x.with_local(l.source, Value::I32(r)).with_local(
        l.first,
        Value::I32(given_buf),
    ).with_local(l.len, Value::I32(len));
    let entries = |k: int| inputs[k];
    let nths = |k: int| nth(source, x.mem, k);
    assert forall|k: int| 0 <= k < len implies #[trigger] nths(k) == entries(k) by {
        assert(entry_is(x.mem, given_buf as int, k, in_size, inputs[k]));
        lemma_entry(x.mem, given_buf as int, k, in_size, elem, inputs[k]);
    }
    lemma_same_values(body, x, l, var, entry_type(ty), len as int, entries, nths, tops, goods);
    let result = lemma_loop(
        source,
        l,
        var,
        layout,
        ty,
        Piece { e: *e->For_body, into: None, effect: body },
        cx.spec_bump_allocator()->Ok_0,
        x,
        x1,
        env,
        fuel,
        len,
        tops,
        goods,
    );
    crate::execution::lemma_behaves(
        list_tree(e, cx, s, collection, body, given_buf),
        s,
        cx,
        for_pieces(e, collection, body),
        st,
        env,
        fuel,
    );
    result
}

/// An entry, as it is loaded.
pub proof fn lemma_entry(
    mem: Seq<u8>,
    buf: int,
    k: int,
    size: u32,
    ty: ResolvedType,
    v: Value,
)
    requires
        entry_is(mem, buf, k, size, v),
        v.ty() == entry_type(ty),
        v.bits() < crate::lower::storage::byte_limit(size as nat),
    ensures
        crate::execution::value_of(
            entry_type(ty),
            crate::execution::read(mem, buf + k * size, size as nat),
        ) == v,
{
    let n = crate::lower::storage::byte_limit(size as nat);
    assert(v.bits() % n == v.bits()) by (nonlinear_arith)
        requires
            v.bits() < n,
    ;
}

} // verus!
