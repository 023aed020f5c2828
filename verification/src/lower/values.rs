//! Laws: what literals with fields leave in memory.

use vstd::prelude::*;

use crate::execution::{Env, Outcome, Piece, Stack, State, Tree, Value};
use crate::instr::{Instr, StoreOp, ValType};
use crate::ir::{FieldIdx, IrExpr, IrField, PrimitiveType};
use crate::layout::{FieldLayout, LayoutOwner, ENUM_TAG_ALIGN};
use crate::lower::context::{Cx, SinkView};
use crate::lower::error::FieldOwner;

verus! {

broadcast use {
    crate::execution::group_exec,
    crate::execution::group_code,
    crate::execution::group_pieces,
};

// ── what a field holds ───────────────────────────────────────────────

/// The field at a place of the value at `p` is `v`: its low byte, where the
/// field is a byte.
pub open spec fn field_is(mem: Seq<u8>, p: int, place: FieldLayout, v: Value) -> bool {
    crate::execution::read(mem, p + place.offset, place.size as nat) == v.bits()
        % crate::lower::storage::byte_limit(place.size as nat)
}

/// What the code of an expression does from `x` on: it leaves a value that is
/// good, keeps what is in memory and in local `base`, and takes memory up to
/// `top` at most.
pub open spec fn yields(
    effect: spec_fn(State) -> Outcome,
    x: State,
    base: u32,
    ty: ValType,
    top: int,
    good: spec_fn(Value) -> bool,
) -> bool {
    effect(x) matches Outcome::Next(y) && {
        &&& y.stack matches Stack::Push(v, rest) && *rest == x.stack && good(v) && v.ty() == ty
        &&& y.locals.len() == x.locals.len()
        &&& y.locals[base as int] == x.locals[base as int]
        &&& crate::execution::keeps_heap(x, y)
        &&& y.heap <= top
    }
}

/// The same from every state with the locals and the memory of `st` that has
/// taken memory up to `from`.
pub open spec fn computes(
    effect: spec_fn(State) -> Outcome,
    st: State,
    base: u32,
    ty: ValType,
    from: int,
    top: int,
    good: spec_fn(Value) -> bool,
) -> bool {
    forall|x: State|
        x.mem.len() == st.mem.len() && x.locals.len() == st.locals.len() && x.heap <= from
            ==> #[trigger] yields(effect, x, base, ty, top, good)
}

/// The value type of a primitive that is stored.
pub open spec fn value_type(p: PrimitiveType) -> ValType {
    match p {
        PrimitiveType::I64 => ValType::I64,
        PrimitiveType::F32 => ValType::F32,
        PrimitiveType::F64 => ValType::F64,
        _ => ValType::I32,
    }
}

/// A store to a field, read back.
pub proof fn lemma_field_stored(mem: Seq<u8>, p: int, place: FieldLayout, v: Value)
    requires
        0 <= p,
        p + place.offset + place.size <= mem.len(),
        place.size == 1 || place.size == 4 || place.size == 8,
        place.size == 4 ==> v is I32 || v is F32,
    ensures
        field_is(
            crate::execution::write(mem, p + place.offset, v.bits(), place.size as nat),
            p,
            place,
            v,
        ),
{
    crate::execution::lemma_limits();
    let at = p + place.offset;
    if place.size == 1 {
        crate::execution::lemma_read_low(mem, at, v.bits(), 1);
    } else if place.size == 4 {
        crate::execution::lemma_read_back(mem, at, v.bits(), 4);
        assert(v.bits() % 0x1_0000_0000 == v.bits());
    } else {
        crate::execution::lemma_read_back(mem, at, v.bits(), 8);
        assert(v.bits() % 0x1_0000_0000_0000_0000 == v.bits());
    }
}

/// The store of a field.
pub proof fn lemma_store_field(
    p: PrimitiveType,
    place: FieldLayout,
    st: State,
    env: Env,
    base: u32,
    v: Value,
    stack: Stack,
)
    requires
        crate::lower::storage::stored_width(p) == Some(place.size as nat),
        st.stack == Stack::Push(v, Box::new(Stack::Push(Value::I32(base), Box::new(stack)))),
        v.ty() == value_type(p),
        base + place.offset + place.size <= st.mem.len(),
    ensures
        crate::execution::step(crate::lower::aggregate::primitive_store(p, place), st, env)
            == Some(
            State {
                mem: crate::execution::write(
                    st.mem,
                    base + place.offset,
                    v.bits(),
                    place.size as nat,
                ),
                stack,
                ..st
            },
        ),
{
    let i = crate::lower::aggregate::primitive_store(p, place);
    assert(i is Store);
    let s1 = (st.pop()->0).1;
    assert(st.pop() == Some((v, s1)));
    assert(s1.pop() == Some((Value::I32(base), State { stack, ..st })));
}

// ── initialisers ─────────────────────────────────────────────────────

/// Initialisers by their names.
spec fn field_of(fields: Seq<IrField>, name: Seq<char>) -> int {
    crate::lower::aggregate::field_position(fields, name, 0)->0
}

/// Each initialiser has a field that lies in the value, behind `low`, and no
/// two have the same.
spec fn placed(
    inits: Seq<(Seq<char>, IrExpr)>,
    fields: Seq<IrField>,
    places: Seq<FieldLayout>,
    low: int,
    size: u32,
) -> bool {
    &&& forall|i: int|
        0 <= i < inits.len() ==> {
            let k = field_of(fields, (#[trigger] inits[i]).0);
            &&& 0 <= k < fields.len()
            &&& k < places.len()
            &&& crate::lower::storage::fits_exactly(fields[k], places[k])
            &&& low <= places[k].offset
            &&& places[k].offset + places[k].size <= size
        }
    &&& forall|i: int, j: int|
        0 <= i < inits.len() && 0 <= j < inits.len() && i != j ==> {
            let k = field_of(fields, (#[trigger] inits[i]).0);
            let l = field_of(fields, (#[trigger] inits[j]).0);
            ||| places[k].offset + places[k].size <= places[l].offset
            ||| places[l].offset + places[l].size <= places[k].offset
        }
}

/// The pieces of initialisers.
pub open spec fn init_pieces(
    inits: Seq<(Seq<char>, IrExpr)>,
    effects: Seq<spec_fn(State) -> Outcome>,
) -> Seq<Piece> {
    Seq::new(inits.len(), |i: int| Piece { e: inits[i].1, into: None, effect: effects[i] })
}

spec fn inits_tree(
    inits: Seq<(Seq<char>, IrExpr)>,
    effects: Seq<spec_fn(State) -> Outcome>,
    i: int,
    fields: Seq<IrField>,
    places: Seq<FieldLayout>,
    base: u32,
    rest: Tree,
) -> Tree
    decreases inits.len() - i,
{
    if i < 0 || i >= inits.len() {
        rest
    } else {
        let k = field_of(fields, inits[i].0);
        Tree::op(
            Instr::LocalGet(base),
            Tree::piece(
                Piece { e: inits[i].1, into: None, effect: effects[i] },
                Tree::op(
                    crate::lower::aggregate::primitive_store(
                        fields[k].ty->Primitive_0,
                        places[k],
                    ),
                    inits_tree(inits, effects, i + 1, fields, places, base, rest),
                ),
            ),
        )
    }
}

proof fn lemma_inits_pieces(
    inits: Seq<(Seq<char>, IrExpr)>,
    effects: Seq<spec_fn(State) -> Outcome>,
    i: int,
    fields: Seq<IrField>,
    places: Seq<FieldLayout>,
    base: u32,
    rest: Tree,
)
    requires
        0 <= i <= inits.len(),
    ensures
        crate::execution::pieces(inits_tree(inits, effects, i, fields, places, base, rest))
            == init_pieces(inits, effects).skip(i) + crate::execution::pieces(rest),
    decreases inits.len() - i,
{
    let all = init_pieces(inits, effects);
    if i < inits.len() {
        lemma_inits_pieces(inits, effects, i + 1, fields, places, base, rest);
        assert(seq![all[i]] + (all.skip(i + 1) + crate::execution::pieces(rest)) =~= all.skip(i)
            + crate::execution::pieces(rest));
    } else {
        assert(all.skip(i) + crate::execution::pieces(rest) =~= crate::execution::pieces(rest));
    }
}

/// The initialisers of a struct or a variant.
pub open spec fn struct_inits(inits: Seq<(String, FieldIdx, IrExpr)>) -> Seq<(Seq<char>, IrExpr)> {
    Seq::new(inits.len(), |i: int| (inits[i].0@, inits[i].2))
}

/// The initialisers of a tuple.
pub open spec fn tuple_inits(inits: Seq<(String, IrExpr)>) -> Seq<(Seq<char>, IrExpr)> {
    Seq::new(inits.len(), |i: int| (inits[i].0@, inits[i].1))
}

/// Where a field was found.
proof fn lemma_position(fields: Seq<IrField>, name: Seq<char>, from: int)
    requires
        0 <= from,
    ensures
        crate::lower::aggregate::field_position(fields, name, from) matches Some(k) ==> from <= k
            < fields.len() && fields[k].name@ == name,
    decreases fields.len() - from,
{
    if from < fields.len() {
        lemma_position(fields, name, from + 1);
    }
}

proof fn lemma_inits_written(
    inits: Seq<(String, FieldIdx, IrExpr)>,
    effects: Seq<spec_fn(State) -> Outcome>,
    i: int,
    fields: Seq<IrField>,
    places: Seq<FieldLayout>,
    owner: FieldOwner,
    base: u32,
    rest: Tree,
    s: SinkView,
    cx: Cx,
)
    requires
        0 <= i <= inits.len(),
        crate::lower::aggregate::init_code(
            inits,
            i,
            fields,
            places,
            owner,
            base,
            cx,
            s,
        ).err is None,
    ensures
        crate::execution::written(
            inits_tree(struct_inits(inits), effects, i, fields, places, base, rest),
            s,
            cx,
        ) == crate::execution::written(
            rest,
            crate::lower::aggregate::init_code(inits, i, fields, places, owner, base, cx, s).sink,
            cx,
        ),
        forall|j: int|
            i <= j < inits.len() ==> {
                let k = field_of(fields, (#[trigger] struct_inits(inits)[j]).0);
                &&& 0 <= k < fields.len()
                &&& k < places.len()
                &&& fields[k].ty is Primitive
                &&& fields[k].name@ == inits[j].0@
            },
    decreases inits.len() - i,
{
    if i < inits.len() {
        lemma_position(fields, inits[i].0@, 0);
        let k = field_of(fields, inits[i].0@);
        let o = crate::lower::expr_code(inits[i].2, cx, s.emit(Instr::LocalGet(base)));
        let store = crate::lower::aggregate::primitive_store(fields[k].ty->Primitive_0, places[k]);
        lemma_inits_written(
            inits,
            effects,
            i + 1,
            fields,
            places,
            owner,
            base,
            rest,
            o.sink.emit(store),
            cx,
        );
    }
}

proof fn lemma_tuple_written(
    inits: Seq<(String, IrExpr)>,
    effects: Seq<spec_fn(State) -> Outcome>,
    i: int,
    fields: Seq<IrField>,
    places: Seq<FieldLayout>,
    base: u32,
    rest: Tree,
    s: SinkView,
    cx: Cx,
)
    requires
        0 <= i <= inits.len(),
        crate::lower::aggregate::tuple_init_code(
            inits,
            i,
            fields,
            places,
            base,
            cx,
            s,
        ).err is None,
    ensures
        crate::execution::written(
            inits_tree(tuple_inits(inits), effects, i, fields, places, base, rest),
            s,
            cx,
        ) == crate::execution::written(
            rest,
            crate::lower::aggregate::tuple_init_code(inits, i, fields, places, base, cx, s).sink,
            cx,
        ),
        forall|j: int|
            i <= j < inits.len() ==> {
                let k = field_of(fields, (#[trigger] tuple_inits(inits)[j]).0);
                &&& 0 <= k < fields.len()
                &&& k < places.len()
                &&& fields[k].ty is Primitive
                &&& fields[k].name@ == inits[j].0@
            },
    decreases inits.len() - i,
{
    if i < inits.len() {
        lemma_position(fields, inits[i].0@, 0);
        let k = field_of(fields, inits[i].0@);
        let o = crate::lower::expr_code(inits[i].1, cx, s.emit(Instr::LocalGet(base)));
        let store = crate::lower::aggregate::primitive_store(fields[k].ty->Primitive_0, places[k]);
        lemma_tuple_written(
            inits,
            effects,
            i + 1,
            fields,
            places,
            base,
            rest,
            o.sink.emit(store),
            cx,
        );
    }
}

/// Memory that initialisers may take, in turn: from one bound to the next.
pub open spec fn bounded(tops: Seq<int>, n: nat, st: State, size: u32) -> bool {
    &&& tops.len() == n + 1
    &&& st.heap + 7 + size <= tops[0]
    &&& tops[n as int] <= st.mem.len()
    &&& tops[n as int] <= u32::MAX
    &&& forall|i: int| 0 <= i < n ==> #[trigger] tops[i] <= tops[i + 1]
}

proof fn lemma_bounded(tops: Seq<int>, n: nat, st: State, size: u32, i: int)
    requires
        bounded(tops, n, st, size),
        0 <= i <= n,
    ensures
        tops[0] <= tops[i] <= tops[n as int],
    decreases n - i,
{
    if i < n {
        lemma_bounded(tops, n, st, size, i + 1);
        lemma_rising(tops, n, i);
    } else {
        lemma_rising(tops, n, i);
    }
}

proof fn lemma_rising(tops: Seq<int>, n: nat, i: int)
    requires
        tops.len() == n + 1,
        forall|i: int| 0 <= i < n ==> #[trigger] tops[i] <= tops[i + 1],
        0 <= i <= n,
    ensures
        tops[0] <= tops[i],
    decreases i,
{
    if i > 0 {
        lemma_rising(tops, n, i - 1);
        assert(tops[i - 1] <= tops[i - 1 + 1]);
    }
}

/// The state behind the first `i` initialisers, and their values.
#[verifier::rlimit(40)]
proof fn lemma_inits(
    inits: Seq<(Seq<char>, IrExpr)>,
    effects: Seq<spec_fn(State) -> Outcome>,
    i: int,
    fields: Seq<IrField>,
    places: Seq<FieldLayout>,
    low: int,
    size: u32,
    base: u32,
    rest: Tree,
    st: State,
    env: Env,
    fuel: nat,
    p: u32,
    tops: Seq<int>,
    goods: spec_fn(int, Value) -> bool,
) -> (r: (State, Seq<Value>))
    requires
        0 <= i <= inits.len(),
        effects.len() == inits.len(),
        placed(inits, fields, places, low, size),
        base < st.locals.len(),
        st.locals[base as int] == Value::I32(p),
        0 <= low,
        p + size <= st.heap <= tops[0],
        tops.len() == inits.len() + 1,
        forall|j: int| 0 <= j <= inits.len() ==> #[trigger] tops[j] <= st.mem.len(),
        forall|j: int|
            0 <= j < inits.len() ==> computes(
                #[trigger] effects[j],
                st,
                base,
                value_type(fields[field_of(fields, inits[j].0)].ty->Primitive_0),
                tops[j],
                tops[j + 1],
                |v: Value| goods(j, v),
            ),
    ensures
        ({
            let (end, values) = r;
            &&& crate::execution::exec(
                inits_tree(inits, effects, 0, fields, places, base, rest),
                st,
                env,
                fuel,
            ) == crate::execution::exec(
                inits_tree(inits, effects, i, fields, places, base, rest),
                end,
                env,
                fuel,
            )
            &&& end.stack == st.stack
            &&& end.locals.len() == st.locals.len()
            &&& end.locals[base as int] == Value::I32(p)
            &&& end.mem.len() == st.mem.len()
            &&& st.heap <= end.heap <= tops[i]
            &&& forall|b: int|
                0 <= b < st.heap && (b < p + low || b >= p + size) ==> #[trigger] end.mem[b]
                    == st.mem[b]
            &&& values.len() == i
            &&& forall|j: int|
                0 <= j < i ==> goods(j, #[trigger] values[j]) && field_is(
                    end.mem,
                    p as int,
                    places[field_of(fields, inits[j].0)],
                    values[j],
                )
        }),
    decreases i,
{
    if i == 0 {
        (st, Seq::empty())
    } else {
        let (x, before) = lemma_inits(
            inits,
            effects,
            i - 1,
            fields,
            places,
            low,
            size,
            base,
            rest,
            st,
            env,
            fuel,
            p,
            tops,
            goods,
        );
        let k = field_of(fields, inits[i - 1].0);
        let prim = fields[k].ty->Primitive_0;
        let place = places[k];
        let x1 = x.push(Value::I32(p));
        let good = |v: Value| goods(i - 1, v);
        assert(computes(
            effects[i - 1],
            st,
            base,
            value_type(prim),
            tops[i - 1],
            tops[i - 1 + 1],
            good,
        ));
        assert(yields(effects[i - 1], x1, base, value_type(prim), tops[i], good));
        assert(tops[i] <= st.mem.len());
        let y = effects[i - 1](x1)->Next_0;
        let v = y.stack->Push_0;
        assert(y.stack == Stack::Push(
            v,
            Box::new(Stack::Push(Value::I32(p), Box::new(x.stack))),
        ));
        assert(crate::lower::storage::fits_exactly(fields[k], place));
        lemma_store_field(prim, place, y, env, p, v, x.stack);
        let n = place.size as nat;
        let at = p + place.offset;
        let z = State {
            mem: crate::execution::write(y.mem, at, v.bits(), n),
            stack: x.stack,
            ..y
        };
        lemma_field_stored(y.mem, p as int, place, v);
        crate::execution::lemma_byte_apart(y.mem, at, v.bits(), n);
        let values = before.push(v);
        assert forall|j: int| 0 <= j < i implies goods(j, #[trigger] values[j]) && field_is(
            z.mem,
            p as int,
            places[field_of(fields, inits[j].0)],
            values[j],
        ) by {
            if j < i - 1 {
                assert(goods(j, before[j]));
                let other = places[field_of(fields, inits[j].0)];
                assert(inits[j].0 == inits[j].0 && inits[i - 1].0 == inits[i - 1].0);
                assert(other.offset + other.size <= place.offset || place.offset + place.size
                    <= other.offset);
                assert(other.offset + other.size <= size);
                crate::execution::lemma_read_kept(
                    x1,
                    y,
                    p + other.offset,
                    other.size as nat,
                );
                crate::execution::lemma_read_apart(
                    y.mem,
                    at,
                    v.bits(),
                    n,
                    p + other.offset,
                    other.size as nat,
                );
            }
        }
        assert forall|b: int|
            0 <= b < st.heap && (b < p + low || b >= p + size) implies #[trigger] z.mem[b]
            == st.mem[b] by {
            assert(y.mem[b] == x1.mem[b]);
        }
        (z, values)
    }
}

/// The code of an allocation.
pub open spec fn allocation_tree(size: u32, alloc: u32, base: u32, rest: Tree) -> Tree {
    Tree::take(
        ValType::I32,
        Tree::op3(
            Instr::I32Const(size as i32),
            Instr::Call(alloc),
            Instr::LocalSet(base),
            rest,
        ),
    )
}

/// The state behind an allocation.
pub open spec fn given(st: State, size: u32, base: u32) -> State {
    (State { heap: (crate::execution::next_address(st.heap) + size) as u32, ..st }).with_local(
        base,
        Value::I32(crate::execution::next_address(st.heap) as u32),
    )
}

/// Code that begins with an allocation.
pub proof fn lemma_allocation(
    size: u32,
    alloc: u32,
    base: u32,
    rest: Tree,
    st: State,
    env: Env,
    fuel: nat,
)
    requires
        crate::execution::allocates(env, alloc),
        base < st.locals.len(),
        size <= i32::MAX,
        st.heap + 7 + size <= u32::MAX,
    ensures
        crate::execution::exec(allocation_tree(size, alloc, base, rest), st, env, fuel)
            == crate::execution::exec(rest, given(st, size, base), env, fuel),
        st.heap <= crate::execution::next_address(st.heap) <= st.heap + 7,
{
    crate::layout::lemma_round_up(st.heap as int, 8);
    assert(crate::execution::word(size as i32 as int) == size);
    let at = st.push(Value::I32(size));
    assert((env.call)(alloc, at) is Some);
}

/// Names are those of different fields.
pub open spec fn distinct_names(fields: Seq<IrField>) -> bool {
    forall|i: int, j: int|
        0 <= i < j < fields.len() ==> (#[trigger] fields[i]).name@ != (#[trigger] fields[j]).name@
}

/// Initialisers are for different fields.
pub open spec fn distinct_inits(inits: Seq<(Seq<char>, IrExpr)>) -> bool {
    forall|i: int, j: int|
        0 <= i < j < inits.len() ==> (#[trigger] inits[i]).0 != (#[trigger] inits[j]).0
}

/// The scratch local that comes next.
pub open spec fn next_scratch(s: SinkView) -> u32 {
    (s.scratch_local(ValType::I32)->Ok_0).0
}

/// Each initialiser computes a value of the type of the field with its name.
pub open spec fn inits_compute(
    inits: Seq<(Seq<char>, IrExpr)>,
    effects: Seq<spec_fn(State) -> Outcome>,
    fields: Seq<IrField>,
    st: State,
    base: u32,
    tops: Seq<int>,
    goods: spec_fn(int, Value) -> bool,
) -> bool {
    forall|j: int, k: int|
        0 <= j < inits.len() && 0 <= k < fields.len() && (#[trigger] fields[k]).name@ == inits[j].0
            ==> computes(
            #[trigger] effects[j],
            st,
            base,
            value_type(fields[k].ty->Primitive_0),
            tops[j],
            tops[j + 1],
            |v: Value| goods(j, v),
        )
}

/// The value at `p` has for each initialiser the value that this one computed,
/// in the field with its name.
pub open spec fn has_fields(
    inits: Seq<(Seq<char>, IrExpr)>,
    fields: Seq<IrField>,
    places: Seq<FieldLayout>,
    mem: Seq<u8>,
    p: int,
    values: Seq<Value>,
    goods: spec_fn(int, Value) -> bool,
) -> bool {
    &&& values.len() == inits.len()
    &&& forall|j: int| 0 <= j < inits.len() ==> goods(j, #[trigger] values[j])
    &&& forall|j: int, k: int|
        0 <= j < inits.len() && 0 <= k < fields.len() && (#[trigger] fields[k]).name@ == inits[j].0
            ==> field_is(mem, p, places[k], #[trigger] values[j])
}

proof fn lemma_placed(
    inits: Seq<(Seq<char>, IrExpr)>,
    fields: Seq<IrField>,
    places: Seq<FieldLayout>,
    low: int,
    size: u32,
)
    requires
        distinct_names(fields),
        distinct_inits(inits),
        places.len() == fields.len(),
        crate::layout::fields_well(size as int, 8, places),
        forall|k: int|
            0 <= k < fields.len() ==> #[trigger] crate::lower::storage::fits_exactly(
                fields[k],
                places[k],
            ) && low <= places[k].offset,
        forall|j: int|
            0 <= j < inits.len() ==> {
                let k = field_of(fields, (#[trigger] inits[j]).0);
                0 <= k < fields.len() && fields[k].name@ == inits[j].0
            },
    ensures
        placed(inits, fields, places, low, size),
{
    assert forall|i: int| 0 <= i < inits.len() implies {
        let k = field_of(fields, (#[trigger] inits[i]).0);
        &&& 0 <= k < fields.len()
        &&& k < places.len()
        &&& crate::lower::storage::fits_exactly(fields[k], places[k])
        &&& low <= places[k].offset
        &&& places[k].offset + places[k].size <= size
    } by {
        let k = field_of(fields, inits[i].0);
        assert(crate::lower::storage::fits_exactly(fields[k], places[k]));
        assert(crate::layout::field_well(size as int, 8, places[k]));
    }
    assert forall|i: int, j: int|
        0 <= i < inits.len() && 0 <= j < inits.len() && i != j implies {
        let k = field_of(fields, (#[trigger] inits[i]).0);
        let l = field_of(fields, (#[trigger] inits[j]).0);
        ||| places[k].offset + places[k].size <= places[l].offset
        ||| places[l].offset + places[l].size <= places[k].offset
    } by {
        let k = field_of(fields, inits[i].0);
        let l = field_of(fields, inits[j].0);
        assert(fields[k].name@ == inits[i].0 && fields[l].name@ == inits[j].0);
        if i < j {
            assert(inits[i].0 != inits[j].0);
        } else {
            assert(inits[j].0 != inits[i].0);
        }
        assert(k != l);
        if k < l {
            assert(places[k].offset + places[k].size <= places[l].offset);
        } else {
            assert(places[l].offset + places[l].size <= places[k].offset);
        }
    }
}

/// All initialisers, by the fields with their names.
#[verifier::rlimit(30)]
proof fn lemma_all_inits(
    inits: Seq<(Seq<char>, IrExpr)>,
    effects: Seq<spec_fn(State) -> Outcome>,
    fields: Seq<IrField>,
    places: Seq<FieldLayout>,
    low: int,
    size: u32,
    base: u32,
    rest: Tree,
    start: State,
    st: State,
    env: Env,
    fuel: nat,
    p: u32,
    tops: Seq<int>,
    goods: spec_fn(int, Value) -> bool,
) -> (r: (State, Seq<Value>))
    requires
        effects.len() == inits.len(),
        placed(inits, fields, places, low, size),
        distinct_names(fields),
        forall|j: int|
            0 <= j < inits.len() ==> fields[field_of(fields, (#[trigger] inits[j]).0)].name@
                == inits[j].0,
        base < st.locals.len(),
        st.locals.len() == start.locals.len(),
        st.mem.len() == start.mem.len(),
        st.locals[base as int] == Value::I32(p),
        0 <= low,
        p + size <= st.heap <= tops[0],
        bounded(tops, inits.len(), start, size),
        inits_compute(inits, effects, fields, start, base, tops, goods),
    ensures
        ({
            let (end, values) = r;
            &&& crate::execution::exec(
                inits_tree(inits, effects, 0, fields, places, base, rest),
                st,
                env,
                fuel,
            ) == crate::execution::exec(rest, end, env, fuel)
            &&& end.stack == st.stack
            &&& end.locals.len() == st.locals.len()
            &&& end.locals[base as int] == Value::I32(p)
            &&& end.mem.len() == st.mem.len()
            &&& st.heap <= end.heap <= tops[inits.len() as int]
            &&& forall|b: int|
                0 <= b < st.heap && (b < p + low || b >= p + size) ==> #[trigger] end.mem[b]
                    == st.mem[b]
            &&& has_fields(inits, fields, places, end.mem, p as int, values, goods)
        }),
{
    assert forall|j: int| 0 <= j <= inits.len() implies #[trigger] tops[j] <= st.mem.len() by {
        lemma_bounded(tops, inits.len(), start, size, j);
    }
    assert forall|j: int| 0 <= j < inits.len() implies computes(
        #[trigger] effects[j],
        st,
        base,
        value_type(fields[field_of(fields, inits[j].0)].ty->Primitive_0),
        tops[j],
        tops[j + 1],
        |v: Value| goods(j, v),
    ) by {
        let k = field_of(fields, inits[j].0);
        assert(fields[k].name@ == inits[j].0);
        let good = |v: Value| goods(j, v);
        let ty = value_type(fields[k].ty->Primitive_0);
        assert(computes(effects[j], start, base, ty, tops[j], tops[j + 1], good));
        assert forall|x: State|
            x.mem.len() == st.mem.len() && x.locals.len() == st.locals.len() && x.heap
                <= tops[j] implies #[trigger] yields(
            effects[j],
            x,
            base,
            ty,
            tops[j + 1],
            good,
        ) by {
        }
    }
    let (end, values) = lemma_inits(
        inits,
        effects,
        inits.len() as int,
        fields,
        places,
        low,
        size,
        base,
        rest,
        st,
        env,
        fuel,
        p,
        tops,
        goods,
    );
    assert forall|j: int, k: int|
        0 <= j < inits.len() && 0 <= k < fields.len() && (#[trigger] fields[k]).name@
            == inits[j].0 implies field_is(
        end.mem,
        p as int,
        places[k],
        #[trigger] values[j],
    ) by {
        let l = field_of(fields, inits[j].0);
        assert(fields[l].name@ == inits[j].0);
        assert(k == l);
    }
    (end, values)
}

/// A struct literal leaves the address of new memory that has, in the field of
/// each name, what the initialiser of that name computed.
#[verifier::rlimit(40)]
pub proof fn law_struct_literals_hold_their_fields(
    e: IrExpr,
    cx: Cx,
    s: SinkView,
    st: State,
    env: Env,
    fuel: nat,
    effects: Seq<spec_fn(State) -> Outcome>,
    tops: Seq<int>,
    goods: spec_fn(int, Value) -> bool,
) -> (r: (State, u32, Seq<Value>))
    requires
        e is StructInst,
        crate::lower::expr_code(e, cx, s).err is None,
        crate::execution::allocates(env, cx.spec_bump_allocator()->Ok_0),
        next_scratch(s) < st.locals.len(),
        ({
            let m = cx.spec_module()->Ok_0;
            let (d, plan) = crate::lower::aggregate::struct_plan_of(
                e->StructInst_struct_id->0,
                m,
            )->Ok_0;
            let inits = struct_inits(e->StructInst_fields@);
            &&& distinct_names(d.fields@)
            &&& distinct_inits(inits)
            &&& effects.len() == inits.len()
            &&& bounded(tops, inits.len(), st, plan.size)
            &&& inits_compute(inits, effects, d.fields@, st, next_scratch(s), tops, goods)
        }),
    ensures
        ({
            let m = cx.spec_module()->Ok_0;
            let (d, plan) = crate::lower::aggregate::struct_plan_of(
                e->StructInst_struct_id->0,
                m,
            )->Ok_0;
            let inits = struct_inits(e->StructInst_fields@);
            let (end, p, values) = r;
            &&& crate::execution::behaves(
                s,
                crate::lower::expr_code(e, cx, s).sink,
                cx,
                init_pieces(inits, effects),
                st,
                env,
                fuel,
                Outcome::Next(end.push(Value::I32(p))),
            )
            &&& end.stack == st.stack
            &&& crate::execution::keeps_heap(st, end)
            &&& st.heap <= p
            &&& p + plan.size <= end.heap
            &&& has_fields(inits, d.fields@, plan.fields, end.mem, p as int, values, goods)
        }),
{
    let m = cx.spec_module()->Ok_0;
    let (d, plan) = crate::lower::aggregate::struct_plan_of(e->StructInst_struct_id->0, m)->Ok_0;
    let given_inits = e->StructInst_fields@;
    let inits = struct_inits(given_inits);
    let owner = FieldOwner::Named(d.name);
    let alloc = cx.spec_bump_allocator()->Ok_0;
    let base = next_scratch(s);
    let fields = d.fields@;
    let size = plan.size;
    let (_, s1) = crate::lower::aggregate::allocation(size, cx, s)->Ok_0;
    let finish = Tree::op(Instr::LocalGet(base), Tree::Done);
    let filling = inits_tree(inits, effects, 0, fields, plan.fields, base, finish);
    let t = allocation_tree(size, alloc, base, filling);
    lemma_inits_written(
        given_inits,
        effects,
        0,
        fields,
        plan.fields,
        owner,
        base,
        finish,
        s1,
        cx,
    );
    crate::layout::lemma_plan_well(LayoutOwner::Struct(d.name), fields);
    crate::lower::storage::lemma_sizes(LayoutOwner::Struct(d.name), fields, fields.len());
    lemma_placed(inits, fields, plan.fields, 0, size);
    lemma_bounded(tops, inits.len(), st, size, 0);
    lemma_allocation(size, alloc, base, filling, st, env, fuel);
    let x = given(st, size, base);
    let p = x.locals[base as int]->I32_0;
    let (end, values) = lemma_all_inits(
        inits,
        effects,
        fields,
        plan.fields,
        0,
        size,
        base,
        finish,
        st,
        x,
        env,
        fuel,
        p,
        tops,
        goods,
    );
    lemma_inits_pieces(inits, effects, 0, fields, plan.fields, base, finish);
    assert(init_pieces(inits, effects).skip(0) =~= init_pieces(inits, effects));
    crate::execution::lemma_behaves(t, s, cx, init_pieces(inits, effects), st, env, fuel);
    assert(crate::execution::written(t, s, cx) == crate::lower::expr_code(e, cx, s).sink);
    (end, p, values)
}

/// A tuple literal does the same for its positions.
#[verifier::rlimit(40)]
pub proof fn law_tuple_literals_hold_their_fields(
    e: IrExpr,
    cx: Cx,
    s: SinkView,
    st: State,
    env: Env,
    fuel: nat,
    effects: Seq<spec_fn(State) -> Outcome>,
    tops: Seq<int>,
    goods: spec_fn(int, Value) -> bool,
) -> (r: (State, u32, Seq<Value>))
    requires
        e is Tuple,
        crate::lower::expr_code(e, cx, s).err is None,
        crate::execution::allocates(env, cx.spec_bump_allocator()->Ok_0),
        next_scratch(s) < st.locals.len(),
        ({
            let (fields, plan) = crate::lower::aggregate::tuple_plan(e->Tuple_ty)->Ok_0;
            let inits = tuple_inits(e->Tuple_fields@);
            &&& distinct_names(fields)
            &&& distinct_inits(inits)
            &&& effects.len() == inits.len()
            &&& bounded(tops, inits.len(), st, plan.size)
            &&& inits_compute(inits, effects, fields, st, next_scratch(s), tops, goods)
        }),
    ensures
        ({
            let (fields, plan) = crate::lower::aggregate::tuple_plan(e->Tuple_ty)->Ok_0;
            let inits = tuple_inits(e->Tuple_fields@);
            let (end, p, values) = r;
            &&& crate::execution::behaves(
                s,
                crate::lower::expr_code(e, cx, s).sink,
                cx,
                init_pieces(inits, effects),
                st,
                env,
                fuel,
                Outcome::Next(end.push(Value::I32(p))),
            )
            &&& end.stack == st.stack
            &&& crate::execution::keeps_heap(st, end)
            &&& st.heap <= p
            &&& p + plan.size <= end.heap
            &&& has_fields(inits, fields, plan.fields, end.mem, p as int, values, goods)
        }),
{
    let (fields, plan) = crate::lower::aggregate::tuple_plan(e->Tuple_ty)->Ok_0;
    let given_inits = e->Tuple_fields@;
    let inits = tuple_inits(given_inits);
    let alloc = cx.spec_bump_allocator()->Ok_0;
    let base = next_scratch(s);
    let size = plan.size;
    let (_, s1) = crate::lower::aggregate::allocation(size, cx, s)->Ok_0;
    let finish = Tree::op(Instr::LocalGet(base), Tree::Done);
    let filling = inits_tree(inits, effects, 0, fields, plan.fields, base, finish);
    let t = allocation_tree(size, alloc, base, filling);
    lemma_tuple_written(given_inits, effects, 0, fields, plan.fields, base, finish, s1, cx);
    crate::layout::lemma_plan_well(LayoutOwner::Tuple, fields);
    crate::lower::storage::lemma_sizes(LayoutOwner::Tuple, fields, fields.len());
    lemma_placed(inits, fields, plan.fields, 0, size);
    lemma_bounded(tops, inits.len(), st, size, 0);
    lemma_allocation(size, alloc, base, filling, st, env, fuel);
    let x = given(st, size, base);
    let p = x.locals[base as int]->I32_0;
    let (end, values) = lemma_all_inits(
        inits,
        effects,
        fields,
        plan.fields,
        0,
        size,
        base,
        finish,
        st,
        x,
        env,
        fuel,
        p,
        tops,
        goods,
    );
    lemma_inits_pieces(inits, effects, 0, fields, plan.fields, base, finish);
    assert(init_pieces(inits, effects).skip(0) =~= init_pieces(inits, effects));
    crate::execution::lemma_behaves(t, s, cx, init_pieces(inits, effects), st, env, fuel);
    assert(crate::execution::written(t, s, cx) == crate::lower::expr_code(e, cx, s).sink);
    (end, p, values)
}

/// An enum literal leaves the address of new memory that has the number of the
/// variant as its tag, and, in the field of each name of that variant, what the
/// initialiser of that name computed.
#[verifier::rlimit(40)]
pub proof fn law_enum_literals_hold_their_variant(
    e: IrExpr,
    cx: Cx,
    s: SinkView,
    st: State,
    env: Env,
    fuel: nat,
    effects: Seq<spec_fn(State) -> Outcome>,
    tops: Seq<int>,
    goods: spec_fn(int, Value) -> bool,
    v: int,
) -> (r: (State, u32, Seq<Value>))
    requires
        e is EnumInst,
        crate::lower::expr_code(e, cx, s).err is None,
        crate::execution::allocates(env, cx.spec_bump_allocator()->Ok_0),
        next_scratch(s) < st.locals.len(),
        v == e->EnumInst_variant_idx.0,
        ({
            let m = cx.spec_module()->Ok_0;
            let (d, plan) = crate::lower::aggregate::enum_plan_of(
                e->EnumInst_enum_id->0,
                m,
            )->Ok_0;
            let inits = struct_inits(e->EnumInst_fields@);
            &&& v < d.variants@.len() <= i32::MAX
            &&& distinct_names(d.variants@[v].fields@)
            &&& distinct_inits(inits)
            &&& effects.len() == inits.len()
            &&& bounded(tops, inits.len(), st, plan.size)
            &&& inits_compute(
                inits,
                effects,
                d.variants@[v].fields@,
                st,
                next_scratch(s),
                tops,
                goods,
            )
        }),
    ensures
        ({
            let m = cx.spec_module()->Ok_0;
            let (d, plan) = crate::lower::aggregate::enum_plan_of(
                e->EnumInst_enum_id->0,
                m,
            )->Ok_0;
            let inits = struct_inits(e->EnumInst_fields@);
            let (end, p, values) = r;
            &&& crate::execution::behaves(
                s,
                crate::lower::expr_code(e, cx, s).sink,
                cx,
                init_pieces(inits, effects),
                st,
                env,
                fuel,
                Outcome::Next(end.push(Value::I32(p))),
            )
            &&& end.stack == st.stack
            &&& crate::execution::keeps_heap(st, end)
            &&& st.heap <= p
            &&& p + plan.size <= end.heap
            &&& crate::execution::read(end.mem, p + plan.tag_offset, 4) == v
            &&& has_fields(
                inits,
                d.variants@[v].fields@,
                plan.variants[v].fields,
                end.mem,
                p as int,
                values,
                goods,
            )
        }),
{
    let m = cx.spec_module()->Ok_0;
    let (d, plan) = crate::lower::aggregate::enum_plan_of(e->EnumInst_enum_id->0, m)->Ok_0;
    let given_inits = e->EnumInst_fields@;
    let inits = struct_inits(given_inits);
    let owner = FieldOwner::Named(d.variants@[v].name);
    let alloc = cx.spec_bump_allocator()->Ok_0;
    let base = next_scratch(s);
    let fields = d.variants@[v].fields@;
    let places = plan.variants[v].fields;
    let size = plan.size;
    let (_, s1) = crate::lower::aggregate::allocation(size, cx, s)->Ok_0;
    let tag = Instr::I32Const(crate::lower::aggregate::tag_const(plan.variants[v].tag));
    let store = Instr::Store(
        StoreOp::I32,
        crate::lower::aggregate::mem_arg_at(plan.tag_offset, ENUM_TAG_ALIGN),
    );
    let s2 = s1.emit(Instr::LocalGet(base)).emit(tag).emit(store);
    let finish = Tree::op(Instr::LocalGet(base), Tree::Done);
    let filling = inits_tree(inits, effects, 0, fields, places, base, finish);
    let tagging = Tree::op3(Instr::LocalGet(base), tag, store, filling);
    let t = allocation_tree(size, alloc, base, tagging);
    lemma_inits_written(given_inits, effects, 0, fields, places, owner, base, finish, s2, cx);
    crate::layout::law_enum_layout(d);
    assert(plan.variants[v].tag == v);
    assert forall|k: int| 0 <= k < fields.len() implies
        #[trigger] crate::lower::storage::fits_exactly(fields[k], places[k])
        && 4 <= places[k].offset by {
        crate::lower::storage::lemma_variant_sizes(d, v, k);
    }
    assert(crate::layout::fields_well(size as int, 8, places)) by {
        assert(crate::layout::fields_well(size as int, plan.align as int, places));
        assert forall|k: int| 0 <= k < places.len() implies crate::layout::field_well(
            size as int,
            8,
            #[trigger] places[k],
        ) by {
            assert(crate::layout::field_well(size as int, plan.align as int, places[k]));
        }
    }
    lemma_placed(inits, fields, places, 4, size);
    lemma_bounded(tops, inits.len(), st, size, 0);
    lemma_allocation(size, alloc, base, tagging, st, env, fuel);
    let x = given(st, size, base);
    let p = x.locals[base as int]->I32_0;
    lemma_enum_size(d);
    let x1 = x.push(Value::I32(p)).push(Value::I32(v as u32));
    let x2 = x.with_memory(crate::execution::write(x.mem, p as int, v as nat, 4));
    assert(crate::execution::step(store, x1, env) == Some(x2));
    crate::execution::lemma_limits();
    crate::execution::lemma_read_back(x.mem, p as int, v as nat, 4);
    crate::execution::lemma_byte_apart(x.mem, p as int, v as nat, 4);
    let (end, values) = lemma_all_inits(
        inits,
        effects,
        fields,
        places,
        4,
        size,
        base,
        finish,
        st,
        x2,
        env,
        fuel,
        p,
        tops,
        goods,
    );
    assert(end.mem.subrange(p as int, p + 4) =~= x2.mem.subrange(p as int, p + 4));
    lemma_inits_pieces(inits, effects, 0, fields, places, base, finish);
    assert(init_pieces(inits, effects).skip(0) =~= init_pieces(inits, effects));
    crate::execution::lemma_behaves(t, s, cx, init_pieces(inits, effects), st, env, fuel);
    assert(crate::execution::written(t, s, cx) == crate::lower::expr_code(e, cx, s).sink);
    (end, p, values)
}

/// The tag lies in the value.
pub proof fn lemma_enum_size(d: crate::ir::IrEnum)
    requires
        crate::layout::enum_plan(d) is Ok,
    ensures
        crate::layout::enum_plan(d)->Ok_0.size >= 4,
{
    let shapes = crate::layout::variant_shapes(d);
    crate::layout::lemma_payloads_well(d.name, shapes, shapes.len());
    let plans = crate::layout::payload_plans(d.name, shapes, shapes.len())->Ok_0;
    let a = crate::layout::max_payload_align(plans);
    let at = crate::layout::round_up(4, a);
    crate::layout::lemma_round_up(4, a);
    crate::layout::lemma_round_up(
        at + crate::layout::max_payload_size(plans),
        crate::layout::larger(a, 4),
    );
}

} // verus!
