//! Laws: what is read from values, and what other literals leave in memory.

use vstd::prelude::*;

use crate::execution::{Env, Outcome, Piece, Stack, State, Tree, Value};
use crate::instr::{Instr, IntOp, LoadOp, StoreOp, ValType};
use crate::ir::{BinaryOperator, IrExpr, Literal, PrimitiveType, ResolvedType};
use crate::layout::{
    ArrayLayout, FieldLayout, ARRAY_HEADER_ALIGN, ARRAY_HEADER_PTR_OFFSET, ARRAY_HEADER_SIZE, OPTIONAL_TAG_ALIGN, OPTIONAL_TAG_NIL,
    OPTIONAL_TAG_SIZE, OPTIONAL_TAG_SOME,
};
use crate::lower::branches::Effect;
use crate::lower::context::{Cx, SinkView};
use crate::module::MEMORY_INDEX;
use crate::types::{CLOSURE_ENV_OFFSET, CLOSURE_FUNCREF_OFFSET, CLOSURE_VALUE_SIZE};

verus! {

broadcast use {
    crate::execution::group_exec,
    crate::execution::group_code,
    crate::execution::group_pieces,
};

// ── fields ───────────────────────────────────────────────────────────

/// The load of a field that holds `v`.
proof fn lemma_load_field(
    p: PrimitiveType,
    place: FieldLayout,
    st: State,
    env: Env,
    r: u32,
    v: Value,
)
    requires
        crate::lower::storage::stored_width(p) == Some(place.size as nat),
        r + place.offset + place.size <= st.mem.len(),
        crate::lower::values::field_is(st.mem, r as int, place, v),
        v.ty() == crate::lower::values::value_type(p),
        v.bits() < crate::lower::storage::byte_limit(place.size as nat),
    ensures
        crate::lower::aggregate::primitive_load(p, place) is Load,
        crate::execution::step(
            crate::lower::aggregate::primitive_load(p, place),
            st.push(Value::I32(r)),
            env,
        ) == Some(st.push(v)),
{
    crate::lower::branches::lemma_loaded(st.mem, r as int, place, p, v);
    assert(st.push(Value::I32(r)).pop() == Some((Value::I32(r), st)));
}

/// An access to a field leaves the value of that field of the object.
pub proof fn law_field_accesses_read_their_field(
    e: IrExpr,
    cx: Cx,
    s: SinkView,
    st: State,
    env: Env,
    fuel: nat,
    object: Effect,
    x: State,
    r: u32,
    v: Value,
)
    requires
        e is FieldAccess,
        crate::lower::expr_code(e, cx, s).err is None,
        crate::lower::sequence::has_field(e, cx),
        object(st) == Outcome::Next(x.push(Value::I32(r))),
        ({
            let (ty, place) = crate::lower::sequence::object_field(e, cx);
            &&& r + place.offset + place.size <= x.mem.len()
            &&& crate::lower::values::field_is(x.mem, r as int, place, v)
            &&& v.ty() == crate::lower::values::value_type(ty->Primitive_0)
            &&& v.bits() < crate::lower::storage::byte_limit(place.size as nat)
        }),
    ensures
        crate::execution::behaves(
            s,
            crate::lower::expr_code(e, cx, s).sink,
            cx,
            seq![Piece { e: *e->FieldAccess_object, into: None, effect: object }],
            st,
            env,
            fuel,
            Outcome::Next(x.push(v)),
        ),
{
    let (ty, place) = crate::lower::sequence::object_field(e, cx);
    let p = ty->Primitive_0;
    assert(crate::lower::expr_code(e, cx, s) == crate::lower::aggregate::field_access_code(
        e,
        cx,
        s,
    ));
    crate::lower::sequence::lemma_stored_field(e, cx);
    lemma_load_field(p, place, x, env, r, v);
    let piece = Piece { e: *e->FieldAccess_object, into: None, effect: object };
    let load = crate::lower::aggregate::primitive_load(p, place);
    let t = Tree::piece(piece, Tree::op(load, Tree::Done));
    assert(crate::execution::pieces(t) =~= seq![piece]);
    crate::execution::lemma_behaves(t, s, cx, seq![piece], st, env, fuel);
    assert(crate::execution::written(t, s, cx) == crate::lower::expr_code(e, cx, s).sink);
}

/// A field of `self` is that field of the value in the first local.
pub proof fn law_self_fields_read_their_field(
    e: IrExpr,
    cx: Cx,
    s: SinkView,
    st: State,
    env: Env,
    fuel: nat,
    r: u32,
    v: Value,
)
    requires
        e is SelfFieldRef,
        crate::lower::expr_code(e, cx, s).err is None,
        crate::lower::sequence::has_field(e, cx),
        st.locals.len() > 0,
        st.locals[0] == Value::I32(r),
        ({
            let (ty, place) = crate::lower::sequence::self_field(e, cx);
            &&& r + place.offset + place.size <= st.mem.len()
            &&& crate::lower::values::field_is(st.mem, r as int, place, v)
            &&& v.ty() == crate::lower::values::value_type(ty->Primitive_0)
            &&& v.bits() < crate::lower::storage::byte_limit(place.size as nat)
        }),
    ensures
        crate::execution::behaves(
            s,
            crate::lower::expr_code(e, cx, s).sink,
            cx,
            Seq::empty(),
            st,
            env,
            fuel,
            Outcome::Next(st.push(v)),
        ),
{
    let (ty, place) = crate::lower::sequence::self_field(e, cx);
    let p = ty->Primitive_0;
    assert(crate::lower::expr_code(e, cx, s) == crate::lower::aggregate::self_field_code(e, cx, s));
    crate::lower::sequence::lemma_stored_field(e, cx);
    lemma_load_field(p, place, st, env, r, v);
    let load = crate::lower::aggregate::primitive_load(p, place);
    let t = Tree::op2(Instr::LocalGet(0), load, Tree::Done);
    crate::execution::lemma_behaves(t, s, cx, Seq::empty(), st, env, fuel);
    assert(crate::execution::written(t, s, cx) == crate::lower::expr_code(e, cx, s).sink);
}

// ── entries ──────────────────────────────────────────────────────────

/// Indexing a list with `k` leaves its entry number `k`.
#[verifier::rlimit(20)]
pub proof fn law_indexing_reads_the_entry(
    e: IrExpr,
    cx: Cx,
    s: SinkView,
    st: State,
    env: Env,
    fuel: nat,
    list: Effect,
    key: Effect,
    x: State,
    r: u32,
    buf: u32,
    y: State,
    k: u32,
    v: Value,
)
    requires
        e is DictAccess,
        (*e->DictAccess_dict).spec_ty() is Array,
        crate::lower::expr_code(e, cx, s).err is None,
        list(st) == Outcome::Next(x.push(Value::I32(r))),
        r + 4 <= x.mem.len(),
        crate::execution::read(x.mem, r + ARRAY_HEADER_PTR_OFFSET, 4) == buf,
        key(x.push(Value::I32(buf))) == Outcome::Next(y.push(Value::I32(buf)).push(Value::I32(k))),
        k <= i32::MAX,
        ({
            let elem = *(*e->DictAccess_dict).spec_ty()->Array_0;
            let size = crate::layout::array_plan(elem)->Ok_0.element_size;
            &&& buf + k * size + size <= y.mem.len()
            &&& buf + k * size + size <= u32::MAX
            &&& crate::lower::loops::entry_is(y.mem, buf as int, k as int, size, v)
            &&& v.ty() == crate::lower::loops::entry_type(elem)
            &&& v.bits() < crate::lower::storage::byte_limit(size as nat)
        }),
    ensures
        crate::execution::behaves(
            s,
            crate::lower::expr_code(e, cx, s).sink,
            cx,
            seq![
                Piece { e: *e->DictAccess_dict, into: None, effect: list },
                Piece { e: *e->DictAccess_key, into: None, effect: key },
            ],
            st,
            env,
            fuel,
            Outcome::Next(y.push(v)),
        ),
{
    let elem = *(*e->DictAccess_dict).spec_ty()->Array_0;
    assert(crate::lower::expr_code(e, cx, s) == crate::lower::aggregate::index_code(e, cx, s));
    let layout = crate::layout::array_plan(elem)->Ok_0;
    let size = layout.element_size;
    assert(size == 1 || size == 4 || size == 8);
    let first = Piece { e: *e->DictAccess_dict, into: None, effect: list };
    let second = Piece { e: *e->DictAccess_key, into: None, effect: key };
    let ptr = Instr::Load(
        LoadOp::I32,
        crate::lower::aggregate::mem_arg_at(ARRAY_HEADER_PTR_OFFSET, ARRAY_HEADER_ALIGN),
    );
    let load = crate::lower::aggregate::element_load(
        elem,
        crate::lower::aggregate::element_slot(layout),
    )->Ok_0;
    let last = Tree::op(load, Tree::Done);
    let scaling = Tree::op3(
        Instr::I32Const(size as i32),
        Instr::I32(IntOp::Mul),
        Instr::I32(IntOp::Add),
        last,
    );
    let t = Tree::piece(first, Tree::op(ptr, Tree::piece(second, scaling)));
    assert(crate::execution::pieces(t) =~= seq![first, second]);
    assert(crate::execution::written(t, s, cx) == crate::lower::expr_code(e, cx, s).sink);
    assert(x.push(Value::I32(r)).pop() == Some((Value::I32(r), x)));
    assert(crate::execution::step(ptr, x.push(Value::I32(r)), env) == Some(
        x.push(Value::I32(buf)),
    ));
    let z = y.push(Value::I32(buf)).push(Value::I32(k));
    lemma_scaled(size, y, env, buf, k);
    let at = (buf + k * size) as u32;
    crate::lower::loops::lemma_entry(y.mem, buf as int, k as int, size, elem, v);
    assert(y.push(Value::I32(at)).pop() == Some((Value::I32(at), y)));
    assert(load is Load);
    assert(crate::execution::step(load, y.push(Value::I32(at)), env) == Some(y.push(v)));
    lemma_scaling(scaling, last, size, y, env, fuel, buf, k);
    crate::execution::lemma_behaves(t, s, cx, seq![first, second], st, env, fuel);
}

/// A position times a size, behind an address.
proof fn lemma_scaled(size: u32, y: State, env: Env, buf: u32, k: u32)
    requires
        k <= i32::MAX,
        0 < size <= 8,
        buf + k * size <= u32::MAX,
    ensures
        ({
            let z = y.push(Value::I32(buf)).push(Value::I32(k)).push(Value::I32(size));
            let product = y.push(Value::I32(buf)).push(Value::I32((k * size) as u32));
            &&& 0 <= k * size
            &&& crate::execution::word(size as i32 as int) == size
            &&& crate::execution::step(Instr::I32(IntOp::Mul), z, env) == Some(product)
            &&& crate::execution::step(Instr::I32(IntOp::Add), product, env) == Some(
                y.push(Value::I32((buf + k * size) as u32)),
            )
        }),
{
    assert(0 <= k * size) by (nonlinear_arith);
    crate::lower::loops::lemma_words(k, size);
    crate::lower::loops::lemma_words(buf, (k * size) as u32);
    let base = y.push(Value::I32(buf));
    let z = base.push(Value::I32(k)).push(Value::I32(size));
    assert(crate::execution::pop_two(z) == Some((Value::I32(k), Value::I32(size), base)));
    let product = Value::I32((k * size) as u32);
    assert(crate::execution::pop_two(base.push(product)) == Some((Value::I32(buf), product, y)));
}

proof fn lemma_scaling(
    scaling: Tree,
    last: Tree,
    size: u32,
    y: State,
    env: Env,
    fuel: nat,
    buf: u32,
    k: u32,
)
    requires
        k <= i32::MAX,
        0 < size <= 8,
        buf + k * size <= u32::MAX,
        scaling == Tree::op3(
            Instr::I32Const(size as i32),
            Instr::I32(IntOp::Mul),
            Instr::I32(IntOp::Add),
            last,
        ),
    ensures
        crate::execution::exec(
            scaling,
            y.push(Value::I32(buf)).push(Value::I32(k)),
            env,
            fuel,
        ) == crate::execution::exec(
            last,
            y.push(Value::I32((buf + k * size) as u32)),
            env,
            fuel,
        ),
{
    lemma_scaled(size, y, env, buf, k);
}

// ── optional values ──────────────────────────────────────────────────

/// The scratch local of a wrapped value, and that of its cell.
pub open spec fn wrap_locals(e: IrExpr, payload: ResolvedType, cx: Cx, s: SinkView) -> (u32, u32) {
    let vt = crate::lower::values::value_type(payload->Primitive_0);
    let (value, s1) = s.scratch_local(vt)->Ok_0;
    let s2 = crate::lower::expr_code(e, cx, s1).sink.emit(Instr::LocalSet(value));
    (value, crate::lower::values::next_scratch(s2))
}

/// A value that flows into an optional slot of its type leaves the address of a
/// new cell with the tag of a value, and the value behind it.
#[verifier::rlimit(30)]
pub proof fn law_wrapped_values_are_in_their_cell(
    e: IrExpr,
    payload: ResolvedType,
    cx: Cx,
    s: SinkView,
    st: State,
    env: Env,
    fuel: nat,
    effect: Effect,
    x: State,
    v: Value,
) -> (r: (State, u32))
    requires
        crate::lower::optional::wrap_code(e, payload, cx, s).err is None,
        crate::execution::allocates(env, cx.spec_bump_allocator()->Ok_0),
        effect(st) == Outcome::Next(x.push(v)),
        v.ty() == crate::lower::values::value_type(payload->Primitive_0),
        ({
            let (value, base) = wrap_locals(e, payload, cx, s);
            &&& value < x.locals.len()
            &&& base < x.locals.len()
            &&& value != base
        }),
        x.heap + 7 + crate::layout::optional_plan(payload)->Ok_0.size <= x.mem.len(),
        x.heap + 7 + crate::layout::optional_plan(payload)->Ok_0.size <= u32::MAX,
    ensures
        ({
            let o = crate::layout::optional_plan(payload)->Ok_0;
            let (end, p) = r;
            &&& crate::execution::behaves(
                s,
                crate::lower::optional::wrap_code(e, payload, cx, s).sink,
                cx,
                seq![Piece { e, into: None, effect }],
                st,
                env,
                fuel,
                Outcome::Next(end.push(Value::I32(p))),
            )
            &&& end.stack == x.stack
            &&& crate::execution::keeps_heap(x, end)
            &&& x.heap <= p
            &&& p + o.size <= end.heap
            &&& crate::execution::read(end.mem, p + o.tag_offset, 4) == OPTIONAL_TAG_SOME
            &&& crate::lower::values::field_is(
                end.mem,
                p as int,
                FieldLayout {
                    offset: o.payload_offset,
                    size: o.payload_size,
                    align: o.payload_align,
                },
                v,
            )
        }),
{
    let prim = payload->Primitive_0;
    let o = crate::layout::optional_plan(payload)->Ok_0;
    let alloc = cx.spec_bump_allocator()->Ok_0;
    let (value, base) = wrap_locals(e, payload, cx, s);
    let piece = Piece { e, into: None, effect };
    let place = FieldLayout {
        offset: o.payload_offset,
        size: o.payload_size,
        align: o.payload_align,
    };
    crate::layout::law_optional_layout(payload);
    let vt = crate::lower::values::value_type(prim);
    assert(crate::lower::optional::payload_scratch(payload) == Ok::<
        _,
        crate::lower::error::LowerError,
    >(vt));
    assert(crate::lower::storage::stored_width(prim) == Some(place.size as nat));
    let tag = Instr::Store(
        StoreOp::I32,
        crate::lower::aggregate::mem_arg_at(o.tag_offset, OPTIONAL_TAG_ALIGN),
    );
    let store = crate::lower::aggregate::primitive_store(prim, place);
    let finish = Tree::op(Instr::LocalGet(base), Tree::Done);
    let filling = Tree::op3(Instr::LocalGet(base), Instr::LocalGet(value), store, finish);
    let tagging = Tree::op3(
        Instr::LocalGet(base),
        Instr::I32Const(OPTIONAL_TAG_SOME as i32),
        tag,
        filling,
    );
    let allocating = crate::lower::values::allocation_tree(o.size, alloc, base, tagging);
    let t = Tree::take(vt, Tree::piece(piece, Tree::op(Instr::LocalSet(value), allocating)));
    assert(crate::execution::pieces(t) =~= seq![piece]);
    assert(crate::execution::written(t, s, cx) == crate::lower::optional::wrap_code(
        e,
        payload,
        cx,
        s,
    ).sink);
    let x1 = x.with_local(value, v);
    assert(x.push(v).pop() == Some((v, x)));
    crate::lower::values::lemma_allocation(o.size, alloc, base, tagging, x1, env, fuel);
    let y = crate::lower::values::given(x1, o.size, base);
    let p = y.locals[base as int]->I32_0;
    let some = OPTIONAL_TAG_SOME as u32;
    assert(crate::execution::word(OPTIONAL_TAG_SOME as i32 as int) == some);
    let y1 = y.push(Value::I32(p)).push(Value::I32(some));
    let y2 = y.with_memory(crate::execution::write(y.mem, p + o.tag_offset, some as nat, 4));
    assert(y1.pop() == Some((Value::I32(some), y.push(Value::I32(p)))));
    assert(y.push(Value::I32(p)).pop() == Some((Value::I32(p), y)));
    assert(crate::execution::step(tag, y1, env) == Some(y2));
    crate::execution::lemma_limits();
    crate::execution::lemma_read_back(y.mem, p + o.tag_offset, some as nat, 4);
    crate::execution::lemma_byte_apart(y.mem, p + o.tag_offset, some as nat, 4);
    let y3 = y2.push(Value::I32(p)).push(v);
    crate::lower::values::lemma_store_field(prim, place, y3, env, p, v, y2.stack);
    let n = place.size as nat;
    let end = y2.with_memory(
        crate::execution::write(y2.mem, p + place.offset, v.bits(), n),
    );
    crate::lower::values::lemma_field_stored(y2.mem, p as int, place, v);
    crate::execution::lemma_byte_apart(y2.mem, p + place.offset, v.bits(), n);
    crate::execution::lemma_read_apart(
        y2.mem,
        p + place.offset,
        v.bits(),
        n,
        p + o.tag_offset,
        4,
    );
    assert(store is Store);
    crate::execution::lemma_behaves(t, s, cx, seq![piece], st, env, fuel);
    (end, p)
}

/// The literal for no value leaves the address of a new cell with the tag of no
/// value.
pub proof fn law_nil_is_a_cell_without_a_value(
    ty: ResolvedType,
    cx: Cx,
    s: SinkView,
    st: State,
    env: Env,
    fuel: nat,
) -> (r: (State, u32))
    requires
        crate::lower::expr_code(
            IrExpr::Literal { value: Literal::Nil, ty },
            cx,
            s,
        ).err is None,
        crate::execution::allocates(env, cx.spec_bump_allocator()->Ok_0),
        crate::lower::values::next_scratch(s) < st.locals.len(),
        st.heap + 7 + OPTIONAL_TAG_SIZE <= st.mem.len(),
        st.heap + 7 + OPTIONAL_TAG_SIZE <= u32::MAX,
    ensures
        ({
            let (end, p) = r;
            &&& crate::execution::behaves(
                s,
                crate::lower::expr_code(
                    IrExpr::Literal { value: Literal::Nil, ty },
                    cx,
                    s,
                ).sink,
                cx,
                Seq::empty(),
                st,
                env,
                fuel,
                Outcome::Next(end.push(Value::I32(p))),
            )
            &&& end.stack == st.stack
            &&& crate::execution::keeps_heap(st, end)
            &&& st.heap <= p
            &&& p + OPTIONAL_TAG_SIZE <= end.heap
            &&& crate::execution::read(end.mem, p as int, 4) == OPTIONAL_TAG_NIL
        }),
{
    let e = IrExpr::Literal { value: Literal::Nil, ty };
    let alloc = cx.spec_bump_allocator()->Ok_0;
    let base = crate::lower::values::next_scratch(s);
    assert(crate::lower::expr_code(e, cx, s) == crate::lower::literal::literal_code(e, cx, s));
    assert(crate::lower::expr_code(e, cx, s) == crate::lower::literal::nil_code(ty, cx, s));
    let tag = Instr::Store(
        StoreOp::I32,
        crate::lower::aggregate::mem_arg_at(0, OPTIONAL_TAG_ALIGN),
    );
    let finish = Tree::op(Instr::LocalGet(base), Tree::Done);
    let tagging = Tree::op3(
        Instr::LocalGet(base),
        Instr::I32Const(OPTIONAL_TAG_NIL as i32),
        tag,
        finish,
    );
    let t = crate::lower::values::allocation_tree(OPTIONAL_TAG_SIZE, alloc, base, tagging);
    assert(crate::execution::written(t, s, cx) == crate::lower::expr_code(e, cx, s).sink);
    crate::lower::values::lemma_allocation(OPTIONAL_TAG_SIZE, alloc, base, tagging, st, env, fuel);
    let y = crate::lower::values::given(st, OPTIONAL_TAG_SIZE, base);
    let p = y.locals[base as int]->I32_0;
    let nil = OPTIONAL_TAG_NIL as u32;
    assert(crate::execution::word(OPTIONAL_TAG_NIL as i32 as int) == nil);
    let y1 = y.push(Value::I32(p)).push(Value::I32(nil));
    let end = y.with_memory(crate::execution::write(y.mem, p as int, nil as nat, 4));
    assert(y1.pop() == Some((Value::I32(nil), y.push(Value::I32(p)))));
    assert(y.push(Value::I32(p)).pop() == Some((Value::I32(p), y)));
    assert(crate::execution::step(tag, y1, env) == Some(end));
    crate::execution::lemma_limits();
    crate::execution::lemma_read_back(y.mem, p as int, nil as nat, 4);
    crate::execution::lemma_byte_apart(y.mem, p as int, nil as nat, 4);
    crate::execution::lemma_behaves(t, s, cx, Seq::empty(), st, env, fuel);
    (end, p)
}

// ── ranges and lists ─────────────────────────────────────────────────

/// A store of `n` bytes of a value of a type at an offset.
spec fn writes(store: Instr, offset: int, n: nat, vt: ValType) -> bool {
    store matches Instr::Store(op, arg) && arg.offset == offset && arg.memory_index
        == MEMORY_INDEX && crate::lower::storage::store_width(op) == n
        && crate::execution::store_type(op) == vt
}

/// The part at an offset of the value at `p` is `v`: its low byte, where the
/// part is a byte.
pub open spec fn part_is(mem: Seq<u8>, p: int, offset: int, n: nat, v: Value) -> bool {
    crate::execution::read(mem, p + offset, n) == v.bits() % crate::lower::storage::byte_limit(n)
}

spec fn fill_tree(base: u32, piece: Piece, store: Instr, rest: Tree) -> Tree {
    Tree::op(Instr::LocalGet(base), Tree::piece(piece, Tree::op(store, rest)))
}

/// One part of a value is computed and stored.
proof fn lemma_fill(
    base: u32,
    piece: Piece,
    store: Instr,
    rest: Tree,
    st: State,
    x: State,
    env: Env,
    fuel: nat,
    p: u32,
    offset: int,
    n: nat,
    vt: ValType,
    from: int,
    top: int,
    good: spec_fn(Value) -> bool,
) -> (r: (State, Value))
    requires
        writes(store, offset, n, vt),
        n == 1 || n == 4 || n == 8,
        n == 4 ==> vt == ValType::I32 || vt == ValType::F32,
        0 <= offset,
        p + offset + n <= x.heap <= from,
        top <= x.mem.len(),
        base < x.locals.len(),
        x.locals[base as int] == Value::I32(p),
        x.locals.len() == st.locals.len(),
        x.mem.len() == st.mem.len(),
        crate::lower::values::computes(piece.effect, st, base, vt, from, top, good),
    ensures
        ({
            let (z, v) = r;
            &&& crate::execution::exec(fill_tree(base, piece, store, rest), x, env, fuel)
                == crate::execution::exec(rest, z, env, fuel)
            &&& good(v)
            &&& z.stack == x.stack
            &&& z.locals.len() == x.locals.len()
            &&& z.locals[base as int] == Value::I32(p)
            &&& z.mem.len() == x.mem.len()
            &&& x.heap <= z.heap <= top
            &&& part_is(z.mem, p as int, offset, n, v)
            &&& forall|b: int|
                0 <= b < x.heap && (b < p + offset || b >= p + offset + n)
                    ==> #[trigger] z.mem[b] == x.mem[b]
        }),
{
    let x1 = x.push(Value::I32(p));
    assert(crate::lower::values::yields(piece.effect, x1, base, vt, top, good));
    let y = (piece.effect)(x1)->Next_0;
    let v = y.stack->Push_0;
    assert(y.stack == Stack::Push(v, Box::new(Stack::Push(Value::I32(p), Box::new(x.stack)))));
    let at = p + offset;
    let z = State {
        mem: crate::execution::write(y.mem, at, v.bits(), n),
        stack: x.stack,
        ..y
    };
    let y1 = (y.pop()->0).1;
    assert(y.pop() == Some((v, y1)));
    assert(y1.pop() == Some((Value::I32(p), State { stack: x.stack, ..y })));
    assert(crate::execution::step(store, y, env) == Some(z));
    crate::execution::lemma_byte_apart(y.mem, at, v.bits(), n);
    let place = FieldLayout { offset: 0, size: n as u32, align: 1 };
    crate::lower::values::lemma_field_stored(y.mem, at, place, v);
    (z, v)
}

/// A part that a later one leaves alone.
proof fn lemma_part_kept(
    a: Seq<u8>,
    b: Seq<u8>,
    p: int,
    offset: int,
    n: nat,
    v: Value,
    heap: int,
    low: int,
    high: int,
)
    requires
        part_is(a, p, offset, n, v),
        0 <= p + offset,
        p + offset + n <= heap,
        heap <= a.len(),
        a.len() == b.len(),
        p + offset + n <= low || high <= p + offset,
        forall|i: int| 0 <= i < heap && (i < low || i >= high) ==> #[trigger] b[i] == a[i],
    ensures
        part_is(b, p, offset, n, v),
{
    let at = p + offset;
    assert(b.subrange(at, at + n) =~= a.subrange(at, at + n));
}

/// The bound type of a range.
pub open spec fn range_bound(e: IrExpr, cx: Cx) -> ResolvedType {
    crate::compound::bound_type(e->BinaryOp_ty, cx.spec_module()->Ok_0)->0
}

/// A range leaves the address of new memory with its start, and its end behind
/// that.
#[verifier::rlimit(30)]
pub proof fn law_ranges_hold_their_bounds(
    e: IrExpr,
    cx: Cx,
    s: SinkView,
    st: State,
    env: Env,
    fuel: nat,
    left: Effect,
    right: Effect,
    first_top: int,
    second_top: int,
    last_top: int,
    good_start: spec_fn(Value) -> bool,
    good_end: spec_fn(Value) -> bool,
) -> (r: (State, u32, Value, Value))
    requires
        e is BinaryOp,
        e->BinaryOp_op == BinaryOperator::Range,
        crate::lower::expr_code(e, cx, s).err is None,
        crate::execution::allocates(env, cx.spec_bump_allocator()->Ok_0),
        crate::lower::values::next_scratch(s) < st.locals.len(),
        ({
            let layout = crate::layout::range_plan(range_bound(e, cx))->Ok_0;
            let vt = crate::lower::values::value_type(range_bound(e, cx)->Primitive_0);
            let base = crate::lower::values::next_scratch(s);
            &&& st.heap + 7 + layout.size <= first_top <= second_top <= last_top
            &&& last_top <= st.mem.len()
            &&& last_top <= u32::MAX
            &&& crate::lower::values::computes(
                left,
                st,
                base,
                vt,
                first_top,
                second_top,
                good_start,
            )
            &&& crate::lower::values::computes(right, st, base, vt, second_top, last_top, good_end)
        }),
    ensures
        ({
            let layout = crate::layout::range_plan(range_bound(e, cx))->Ok_0;
            let n = layout.bound_size as nat;
            let (end, p, a, b) = r;
            &&& crate::execution::behaves(
                s,
                crate::lower::expr_code(e, cx, s).sink,
                cx,
                seq![
                    Piece { e: *e->BinaryOp_left, into: None, effect: left },
                    Piece { e: *e->BinaryOp_right, into: None, effect: right },
                ],
                st,
                env,
                fuel,
                Outcome::Next(end.push(Value::I32(p))),
            )
            &&& end.stack == st.stack
            &&& crate::execution::keeps_heap(st, end)
            &&& st.heap <= p
            &&& p + layout.size <= end.heap
            &&& good_start(a)
            &&& good_end(b)
            &&& part_is(end.mem, p as int, 0, n, a)
            &&& part_is(end.mem, p as int, layout.end_offset as int, n, b)
        }),
{
    let bound = range_bound(e, cx);
    let prim = bound->Primitive_0;
    let layout = crate::layout::range_plan(bound)->Ok_0;
    let n = layout.bound_size as nat;
    let vt = crate::lower::values::value_type(prim);
    let base = crate::lower::values::next_scratch(s);
    let alloc = cx.spec_bump_allocator()->Ok_0;
    assert(crate::lower::expr_code(e, cx, s) == crate::lower::binary_op::binary_code(e, cx, s));
    assert(crate::lower::expr_code(e, cx, s) == crate::lower::aggregate::range_code(
        bound,
        e,
        cx,
        s,
    ));
    let first = Piece { e: *e->BinaryOp_left, into: None, effect: left };
    let second = Piece { e: *e->BinaryOp_right, into: None, effect: right };
    let store = crate::lower::aggregate::primitive_store(
        prim,
        crate::lower::aggregate::bound_slot(layout, 0),
    );
    let other = crate::lower::aggregate::primitive_store(
        prim,
        crate::lower::aggregate::bound_slot(layout, layout.end_offset),
    );
    assert(writes(store, 0, n, vt));
    assert(writes(other, layout.end_offset as int, n, vt));
    let finish = Tree::op(Instr::LocalGet(base), Tree::Done);
    let behind = fill_tree(base, second, other, finish);
    let filling = fill_tree(base, first, store, behind);
    let t = crate::lower::values::allocation_tree(layout.size, alloc, base, filling);
    assert(crate::execution::pieces(behind) =~= seq![second]);
    assert(crate::execution::pieces(t) =~= seq![first, second]);
    assert(crate::execution::written(t, s, cx) == crate::lower::expr_code(e, cx, s).sink);
    crate::lower::values::lemma_allocation(layout.size, alloc, base, filling, st, env, fuel);
    let x = crate::lower::values::given(st, layout.size, base);
    let p = x.locals[base as int]->I32_0;
    let (y, a) = lemma_fill(
        base,
        first,
        store,
        behind,
        st,
        x,
        env,
        fuel,
        p,
        0,
        n,
        vt,
        first_top,
        second_top,
        good_start,
    );
    let (end, b) = lemma_fill(
        base,
        second,
        other,
        finish,
        st,
        y,
        env,
        fuel,
        p,
        layout.end_offset as int,
        n,
        vt,
        second_top,
        last_top,
        good_end,
    );
    lemma_part_kept(
        y.mem,
        end.mem,
        p as int,
        0,
        n,
        a,
        y.heap as int,
        p + layout.end_offset,
        p + layout.end_offset + n,
    );
    crate::execution::lemma_behaves(t, s, cx, seq![first, second], st, env, fuel);
    (end, p, a, b)
}

/// The pieces of a list's entries.
pub open spec fn entry_pieces(elements: Seq<IrExpr>, effects: Seq<Effect>) -> Seq<Piece> {
    Seq::new(elements.len(), |i: int| Piece { e: elements[i], into: None, effect: effects[i] })
}

/// The store of entry `i`.
spec fn entry_store(elem: ResolvedType, size: u32, align: u32, i: int) -> Instr {
    crate::lower::aggregate::element_store(
        elem,
        FieldLayout { offset: (size * i) as u32, size, align },
    )->Ok_0
}

spec fn entries_tree(
    elements: Seq<IrExpr>,
    effects: Seq<Effect>,
    i: int,
    elem: ResolvedType,
    layout: ArrayLayout,
    base: u32,
    rest: Tree,
) -> Tree
    decreases elements.len() - i,
{
    if i < 0 || i >= elements.len() {
        rest
    } else {
        fill_tree(
            base,
            Piece { e: elements[i], into: None, effect: effects[i] },
            entry_store(elem, layout.element_size, layout.element_align, i),
            entries_tree(elements, effects, i + 1, elem, layout, base, rest),
        )
    }
}

proof fn lemma_entries_written(
    elements: Seq<IrExpr>,
    effects: Seq<Effect>,
    i: int,
    elem: ResolvedType,
    layout: ArrayLayout,
    base: u32,
    rest: Tree,
    cx: Cx,
    s: SinkView,
)
    requires
        0 <= i <= elements.len(),
        crate::lower::aggregate::elements_code(
            elements,
            i,
            elem,
            layout,
            base,
            cx,
            s,
        ).err is None,
    ensures
        crate::execution::written(
            entries_tree(elements, effects, i, elem, layout, base, rest),
            s,
            cx,
        ) == crate::execution::written(
            rest,
            crate::lower::aggregate::elements_code(elements, i, elem, layout, base, cx, s).sink,
            cx,
        ),
        crate::execution::pieces(entries_tree(elements, effects, i, elem, layout, base, rest))
            == entry_pieces(elements, effects).skip(i) + crate::execution::pieces(rest),
        i < elements.len() ==> elem is Primitive || crate::lower::aggregate::is_pointer_element(
            elem,
        ),
    decreases elements.len() - i,
{
    let all = entry_pieces(elements, effects);
    if i < elements.len() {
        let store = entry_store(elem, layout.element_size, layout.element_align, i);
        let s1 = crate::lower::expr_code(
            elements[i],
            cx,
            s.emit(Instr::LocalGet(base)),
        ).sink.emit(store);
        lemma_entries_written(elements, effects, i + 1, elem, layout, base, rest, cx, s1);
        assert(seq![all[i]] + (all.skip(i + 1) + crate::execution::pieces(rest)) =~= all.skip(i)
            + crate::execution::pieces(rest));
    } else {
        assert(all.skip(i) + crate::execution::pieces(rest) =~= crate::execution::pieces(rest));
    }
}

/// The state behind the first `i` entries, and their values.
#[verifier::rlimit(20)]
proof fn lemma_entries(
    elements: Seq<IrExpr>,
    effects: Seq<Effect>,
    i: int,
    elem: ResolvedType,
    layout: ArrayLayout,
    base: u32,
    rest: Tree,
    st: State,
    x: State,
    env: Env,
    fuel: nat,
    p: u32,
    tops: Seq<int>,
    goods: spec_fn(int, Value) -> bool,
) -> (r: (State, Seq<Value>))
    requires
        0 <= i <= elements.len(),
        effects.len() == elements.len(),
        crate::layout::array_plan(elem) == Ok::<_, crate::layout::LayoutError>(layout),
        elem is Primitive || crate::lower::aggregate::is_pointer_element(elem),
        base < x.locals.len(),
        x.locals[base as int] == Value::I32(p),
        x.locals.len() == st.locals.len(),
        x.mem.len() == st.mem.len(),
        elements.len() * layout.element_size <= u32::MAX,
        p + elements.len() * layout.element_size <= x.heap <= tops[0],
        tops.len() == elements.len() + 1,
        forall|j: int| 0 <= j <= elements.len() ==> #[trigger] tops[j] <= x.mem.len(),
        forall|j: int|
            0 <= j < elements.len() ==> crate::lower::values::computes(
                #[trigger] effects[j],
                st,
                base,
                crate::lower::loops::entry_type(elem),
                tops[j],
                tops[j + 1],
                |v: Value| goods(j, v),
            ),
    ensures
        ({
            let (end, values) = r;
            &&& crate::execution::exec(
                entries_tree(elements, effects, 0, elem, layout, base, rest),
                x,
                env,
                fuel,
            ) == crate::execution::exec(
                entries_tree(elements, effects, i, elem, layout, base, rest),
                end,
                env,
                fuel,
            )
            &&& end.stack == x.stack
            &&& end.locals.len() == x.locals.len()
            &&& end.locals[base as int] == Value::I32(p)
            &&& end.mem.len() == x.mem.len()
            &&& x.heap <= end.heap <= tops[i]
            &&& forall|b: int| 0 <= b < p && b < x.heap ==> #[trigger] end.mem[b] == x.mem[b]
            &&& values.len() == i
            &&& forall|j: int|
                0 <= j < i ==> goods(j, #[trigger] values[j]) && crate::lower::loops::entry_is(
                    end.mem,
                    p as int,
                    j,
                    layout.element_size,
                    values[j],
                )
        }),
    decreases i,
{
    if i == 0 {
        (x, Seq::empty())
    } else {
        let k = i - 1;
        let (y, before) = lemma_entries(
            elements,
            effects,
            k,
            elem,
            layout,
            base,
            rest,
            st,
            x,
            env,
            fuel,
            p,
            tops,
            goods,
        );
        let size = layout.element_size;
        let vt = crate::lower::loops::entry_type(elem);
        let piece = Piece { e: elements[k], into: None, effect: effects[k] };
        let store = entry_store(elem, size, layout.element_align, k);
        assert(size == 1 || size == 4 || size == 8);
        crate::lower::loops::lemma_scaled(k, elements.len() as int, size as int);
        assert(size * k == k * size) by (nonlinear_arith);
        assert(writes(store, k * size, size as nat, vt));
        let good = |v: Value| goods(k, v);
        assert(crate::lower::values::computes(
            effects[k],
            st,
            base,
            vt,
            tops[k],
            tops[k + 1],
            good,
        ));
        assert(tops[i] <= x.mem.len());
        let behind = entries_tree(elements, effects, i, elem, layout, base, rest);
        let (z, v) = lemma_fill(
            base,
            piece,
            store,
            behind,
            st,
            y,
            env,
            fuel,
            p,
            k * size,
            size as nat,
            vt,
            tops[k],
            tops[k + 1],
            good,
        );
        let values = before.push(v);
        assert forall|j: int| 0 <= j < i implies goods(j, #[trigger] values[j])
            && crate::lower::loops::entry_is(z.mem, p as int, j, size, values[j]) by {
            if j < k {
                assert(goods(j, before[j]));
                crate::lower::loops::lemma_entries_apart(j, k, size as int);
                lemma_part_kept(
                    y.mem,
                    z.mem,
                    p as int,
                    j * size,
                    size as nat,
                    before[j],
                    y.heap as int,
                    p + k * size,
                    p + k * size + size,
                );
            }
        }
        (z, values)
    }
}

/// The element type of a list literal.
pub open spec fn literal_type(e: IrExpr) -> ResolvedType {
    *e->Array_ty->Array_0
}

/// The scratch local of a list literal's header.
pub open spec fn header_local(e: IrExpr, cx: Cx, s: SinkView) -> u32 {
    let layout = crate::layout::array_plan(literal_type(e))->Ok_0;
    let size = crate::lower::aggregate::buffer_size(layout, e->Array_elements@.len() as int)->Ok_0;
    let (buf, s1) = crate::lower::aggregate::allocation(size, cx, s)->Ok_0;
    crate::lower::values::next_scratch(
        crate::lower::aggregate::elements_code(
            e->Array_elements@,
            0,
            literal_type(e),
            layout,
            buf,
            cx,
            s1,
        ).sink,
    )
}

/// A list literal leaves the address of a new list with as many entries as it
/// has elements, and entry `k` is what element `k` computed.
#[verifier::rlimit(40)]
pub proof fn law_list_literals_hold_their_elements(
    e: IrExpr,
    cx: Cx,
    s: SinkView,
    st: State,
    env: Env,
    fuel: nat,
    effects: Seq<Effect>,
    tops: Seq<int>,
    goods: spec_fn(int, Value) -> bool,
) -> (r: (State, u32, u32, Seq<Value>))
    requires
        e is Array,
        e->Array_elements@.len() > 0,
        crate::lower::expr_code(e, cx, s).err is None,
        crate::execution::allocates(env, cx.spec_bump_allocator()->Ok_0),
        crate::lower::values::next_scratch(s) < st.locals.len(),
        header_local(e, cx, s) < st.locals.len(),
        header_local(e, cx, s) != crate::lower::values::next_scratch(s),
        effects.len() == e->Array_elements@.len(),
        ({
            let n = e->Array_elements@.len();
            let size = crate::layout::array_plan(literal_type(e))->Ok_0.element_size;
            &&& tops.len() == n + 1
            &&& st.heap + 7 + n * size <= tops[0]
            &&& forall|j: int|
                0 <= j <= n ==> #[trigger] tops[j] + 7 + ARRAY_HEADER_SIZE <= st.mem.len()
                    && tops[j] + 7 + ARRAY_HEADER_SIZE <= u32::MAX
            &&& forall|j: int|
                0 <= j < n ==> crate::lower::values::computes(
                    #[trigger] effects[j],
                    st,
                    crate::lower::values::next_scratch(s),
                    crate::lower::loops::entry_type(literal_type(e)),
                    tops[j],
                    tops[j + 1],
                    |v: Value| goods(j, v),
                )
        }),
    ensures
        ({
            let n = e->Array_elements@.len();
            let size = crate::layout::array_plan(literal_type(e))->Ok_0.element_size;
            let (end, header, buf, values) = r;
            &&& crate::execution::behaves(
                s,
                crate::lower::expr_code(e, cx, s).sink,
                cx,
                entry_pieces(e->Array_elements@, effects),
                st,
                env,
                fuel,
                Outcome::Next(end.push(Value::I32(header))),
            )
            &&& end.stack == st.stack
            &&& crate::execution::keeps_heap(st, end)
            &&& st.heap <= buf
            &&& buf + n * size <= header
            &&& header + ARRAY_HEADER_SIZE <= end.heap
            &&& values.len() == n
            &&& forall|k: int| 0 <= k < n ==> goods(k, #[trigger] values[k])
            &&& crate::lower::loops::list_is(end.mem, header as int, buf as int, size, values)
        }),
{
    let elements = e->Array_elements@;
    let n = elements.len();
    let elem = literal_type(e);
    let layout = crate::layout::array_plan(elem)->Ok_0;
    let size = layout.element_size;
    let base = crate::lower::values::next_scratch(s);
    let second = header_local(e, cx, s);
    let alloc = cx.spec_bump_allocator()->Ok_0;
    assert(crate::lower::expr_code(e, cx, s) == crate::lower::aggregate::array_code(e, cx, s));
    let bytes = crate::lower::aggregate::buffer_size(layout, n as int)->Ok_0;
    assert(size * n == n * size) by (nonlinear_arith);
    assert(bytes == n * size);
    let (_, s1) = crate::lower::aggregate::allocation(bytes, cx, s)->Ok_0;
    let finish = crate::lower::loops::header_tree(
        second,
        base,
        Instr::I32Const(n as i32),
        Tree::Done,
    );
    let heading = crate::lower::values::allocation_tree(ARRAY_HEADER_SIZE, alloc, second, finish);
    let filling = entries_tree(elements, effects, 0, elem, layout, base, heading);
    let t = crate::lower::values::allocation_tree(bytes, alloc, base, filling);
    lemma_entries_written(elements, effects, 0, elem, layout, base, heading, cx, s1);
    let all = entry_pieces(elements, effects);
    assert(all.skip(0) + crate::execution::pieces(heading) =~= all);
    assert(crate::execution::written(t, s, cx) == crate::lower::expr_code(e, cx, s).sink);
    assert(tops[0] + 7 + ARRAY_HEADER_SIZE <= u32::MAX);
    crate::lower::values::lemma_allocation(bytes, alloc, base, filling, st, env, fuel);
    let x = crate::lower::values::given(st, bytes, base);
    let buf = x.locals[base as int]->I32_0;
    let (y, values) = lemma_entries(
        elements,
        effects,
        n as int,
        elem,
        layout,
        base,
        heading,
        st,
        x,
        env,
        fuel,
        buf,
        tops,
        goods,
    );
    assert(tops[n as int] + 7 + ARRAY_HEADER_SIZE <= u32::MAX);
    crate::lower::values::lemma_allocation(ARRAY_HEADER_SIZE, alloc, second, finish, y, env, fuel);
    let z = crate::lower::values::given(y, ARRAY_HEADER_SIZE, second);
    let header = z.locals[second as int]->I32_0;
    assert(crate::execution::word(n as i32 as int) == n);
    crate::lower::loops::lemma_header(
        second,
        base,
        Instr::I32Const(n as i32),
        Tree::Done,
        z,
        env,
        fuel,
        header,
        buf,
        n as u32,
    );
    crate::lower::loops::lemma_with_header(z.mem, header, buf, n as u32);
    let end = z.with_memory(crate::lower::loops::with_header(z.mem, header, buf, n as u32));
    assert forall|k: int| 0 <= k < n implies goods(k, #[trigger] values[k])
        && crate::lower::loops::entry_is(end.mem, buf as int, k, size, values[k]) by {
        crate::lower::loops::lemma_scaled(k, n as int, size as int);
        assert(crate::lower::loops::entry_is(y.mem, buf as int, k, size, values[k]));
        let at = buf + k * size;
        assert(end.mem.subrange(at, at + size) =~= y.mem.subrange(at, at + size));
    }
    crate::execution::lemma_behaves(t, s, cx, all, st, env, fuel);
    (end, header, buf, values)
}

/// A closure leaves the address of a new pair: the table slot of its function,
/// and what its environment computed.
#[verifier::rlimit(30)]
pub proof fn law_closures_hold_their_function_and_environment(
    e: IrExpr,
    cx: Cx,
    s: SinkView,
    st: State,
    env: Env,
    fuel: nat,
    captured: Effect,
    first_top: int,
    last_top: int,
    good: spec_fn(Value) -> bool,
) -> (r: (State, u32, Value))
    requires
        e is ClosureRef,
        crate::lower::expr_code(e, cx, s).err is None,
        crate::execution::allocates(env, cx.spec_bump_allocator()->Ok_0),
        crate::lower::values::next_scratch(s) < st.locals.len(),
        st.heap + 7 + CLOSURE_VALUE_SIZE <= first_top <= last_top,
        last_top <= st.mem.len(),
        last_top <= u32::MAX,
        crate::lower::values::computes(
            captured,
            st,
            crate::lower::values::next_scratch(s),
            ValType::I32,
            first_top,
            last_top,
            good,
        ),
    ensures
        ({
            let slot = crate::lower::aggregate::funcref_slot(
                e->ClosureRef_funcref@,
                cx.spec_module()->Ok_0,
                cx,
            )->Ok_0;
            let (end, p, v) = r;
            &&& crate::execution::behaves(
                s,
                crate::lower::expr_code(e, cx, s).sink,
                cx,
                seq![Piece { e: *e->ClosureRef_env_struct, into: None, effect: captured }],
                st,
                env,
                fuel,
                Outcome::Next(end.push(Value::I32(p))),
            )
            &&& end.stack == st.stack
            &&& crate::execution::keeps_heap(st, end)
            &&& st.heap <= p
            &&& p + CLOSURE_VALUE_SIZE <= end.heap
            &&& good(v)
            &&& crate::execution::read(end.mem, p + CLOSURE_FUNCREF_OFFSET, 4) == slot
            &&& part_is(end.mem, p as int, CLOSURE_ENV_OFFSET as int, 4, v)
        }),
{
    let slot = crate::lower::aggregate::funcref_slot(
        e->ClosureRef_funcref@,
        cx.spec_module()->Ok_0,
        cx,
    )->Ok_0;
    let base = crate::lower::values::next_scratch(s);
    let alloc = cx.spec_bump_allocator()->Ok_0;
    assert(crate::lower::expr_code(e, cx, s) == crate::lower::aggregate::closure_ref_code(
        e,
        cx,
        s,
    ));
    let piece = Piece { e: *e->ClosureRef_env_struct, into: None, effect: captured };
    let first = Instr::Store(
        StoreOp::I32,
        crate::lower::aggregate::mem_arg_at(CLOSURE_FUNCREF_OFFSET, 4),
    );
    let second = Instr::Store(
        StoreOp::I32,
        crate::lower::aggregate::mem_arg_at(CLOSURE_ENV_OFFSET, 4),
    );
    assert(writes(second, CLOSURE_ENV_OFFSET as int, 4, ValType::I32));
    let finish = Tree::op(Instr::LocalGet(base), Tree::Done);
    let filling = fill_tree(base, piece, second, finish);
    let naming = Tree::op3(Instr::LocalGet(base), Instr::I32Const(slot), first, filling);
    let t = crate::lower::values::allocation_tree(CLOSURE_VALUE_SIZE, alloc, base, naming);
    assert(crate::execution::pieces(t) =~= seq![piece]);
    assert(crate::execution::written(t, s, cx) == crate::lower::expr_code(e, cx, s).sink);
    crate::lower::values::lemma_allocation(CLOSURE_VALUE_SIZE, alloc, base, naming, st, env, fuel);
    let x = crate::lower::values::given(st, CLOSURE_VALUE_SIZE, base);
    let p = x.locals[base as int]->I32_0;
    let f = slot as u32;
    assert(crate::execution::word(slot as int) == f);
    let x1 = x.push(Value::I32(p)).push(Value::I32(f));
    let y = x.with_memory(
        crate::execution::write(x.mem, p + CLOSURE_FUNCREF_OFFSET, f as nat, 4),
    );
    assert(x1.pop() == Some((Value::I32(f), x.push(Value::I32(p)))));
    assert(x.push(Value::I32(p)).pop() == Some((Value::I32(p), x)));
    assert(crate::execution::step(first, x1, env) == Some(y));
    crate::execution::lemma_limits();
    crate::execution::lemma_read_back(x.mem, p + CLOSURE_FUNCREF_OFFSET, f as nat, 4);
    crate::execution::lemma_byte_apart(x.mem, p + CLOSURE_FUNCREF_OFFSET, f as nat, 4);
    let (end, v) = lemma_fill(
        base,
        piece,
        second,
        finish,
        st,
        y,
        env,
        fuel,
        p,
        CLOSURE_ENV_OFFSET as int,
        4,
        ValType::I32,
        first_top,
        last_top,
        good,
    );
    let at = p + CLOSURE_FUNCREF_OFFSET;
    assert(end.mem.subrange(at, at + 4) =~= y.mem.subrange(at, at + 4));
    crate::execution::lemma_behaves(t, s, cx, seq![piece], st, env, fuel);
    (end, p, v)
}

} // verus!
