//! Laws: what the wrappers at the boundary build in memory.

use vstd::prelude::*;

use crate::encode::SigView;
use crate::execution::{Env, Outcome, Stack, State, Tree, Value};
use crate::instr::{Instr, LoadOp, StoreOp, ValType};
use crate::ir::{IrField, IrFunction, IrFunctionParam, IrModule, List, ResolvedType};
use crate::layout::{
    FieldLayout, LayoutOwner, ARRAY_HEADER_CAP_OFFSET, ARRAY_HEADER_LEN_OFFSET, ARRAY_HEADER_PTR_OFFSET, ARRAY_HEADER_SIZE,
    STRING_HEADER_SIZE, STRING_LEN_OFFSET, STRING_PTR_OFFSET,
};
use crate::lower::block::BodyView;
use crate::lower::context::{Cx, SinkView};
use crate::module::BuilderView;
use crate::module_lowering::cabi::{
    CabiFieldValue, CabiMaterialisationOps, CabiStructFieldOp, Cursor,
};
use crate::module_lowering::wrappers::Span;

verus! {

broadcast use {
    crate::execution::group_exec,
    crate::execution::group_code,
    crate::execution::group_pieces,
};

// ── what is built ────────────────────────────────────────────────────

/// Slot `x` of the flat arguments is a word.
pub open spec fn is_word(args: Seq<Value>, x: u32) -> bool {
    x < args.len() && args[x as int] is I32
}

/// The low bytes of a value lie at `at`, as many of them as there is room for.
pub open spec fn lies(mem: Seq<u8>, at: int, v: Value, n: nat, room: int) -> bool {
    forall|j: int|
        0 <= j < n && j < room ==> #[trigger] mem[at + j] == crate::lower::storage::low_bytes(
            v.bits(),
            n,
        )[j]
}

/// How many bytes the store of a field writes.
pub open spec fn stored_bytes(value: CabiFieldValue) -> nat {
    match value {
        CabiFieldValue::DirectSlot { valtype: ValType::I64, .. } => 8,
        CabiFieldValue::DirectSlot { valtype: ValType::F64, .. } => 8,
        _ => 4,
    }
}

/// Where the first of some fields begins: behind them the value ends.
pub open spec fn first_offset(fields: List<CabiStructFieldOp>, size: u32) -> u32 {
    match fields {
        List::Nil => size,
        List::Cons(f, _) => f.offset,
    }
}

/// The value that a plan describes lies at `p`, somewhere in the memory from
/// `low` to `top`: each field has the flat argument that is meant for it at
/// its own offset, or the address of the value that is.
pub open spec fn built(
    ops: CabiMaterialisationOps,
    args: Seq<Value>,
    mem: Seq<u8>,
    low: int,
    top: int,
    p: int,
) -> bool
    decreases ops,
{
    &&& low <= p
    &&& match ops {
        CabiMaterialisationOps::StringFromSlots { ptr_slot, len_slot } => {
            &&& p + STRING_HEADER_SIZE <= top
            &&& crate::execution::read(mem, p + STRING_PTR_OFFSET, 4)
                == args[ptr_slot as int].bits()
            &&& crate::execution::read(mem, p + STRING_LEN_OFFSET, 4)
                == args[len_slot as int].bits()
        },
        CabiMaterialisationOps::ListFromSlots { ptr_slot, len_slot } => {
            &&& p + ARRAY_HEADER_SIZE <= top
            &&& crate::execution::read(mem, p + ARRAY_HEADER_PTR_OFFSET, 4)
                == args[ptr_slot as int].bits()
            &&& crate::execution::read(mem, p + ARRAY_HEADER_LEN_OFFSET, 4)
                == args[len_slot as int].bits()
            &&& crate::execution::read(mem, p + ARRAY_HEADER_CAP_OFFSET, 4)
                == args[len_slot as int].bits()
        },
        CabiMaterialisationOps::Struct { size, fields } => {
            &&& p + size <= top
            &&& fields_built(fields, size, args, mem, top, p)
        },
        CabiMaterialisationOps::Variant { size, tag_slot, payload_offset, payload_slots } => {
            &&& p + size <= top
            &&& 4 <= size
            &&& crate::execution::read(mem, p, 4) == args[tag_slot as int].bits()
            &&& words_built(payload_slots.seq(), payload_offset, size, args, mem, p)
        },
    }
}

/// The words of a payload lie one behind the other, those that fit.
pub open spec fn words_built(
    slots: Seq<u32>,
    payload_offset: u32,
    size: u32,
    args: Seq<Value>,
    mem: Seq<u8>,
    p: int,
) -> bool {
    forall|i: int|
        0 <= i < slots.len() && payload_offset + 4 * i + 4 <= size ==> crate::execution::read(
            mem,
            p + payload_offset + 4 * i,
            4,
        ) == args[#[trigger] slots[i] as int].bits()
}

/// The fields of the value at `p` hold what is meant for them.
pub open spec fn fields_built(
    fields: List<CabiStructFieldOp>,
    size: u32,
    args: Seq<Value>,
    mem: Seq<u8>,
    top: int,
    p: int,
) -> bool
    decreases fields,
{
    match fields {
        List::Nil => true,
        List::Cons(f, rest) => {
            &&& match f.value {
                CabiFieldValue::DirectSlot { slot, .. } => lies(
                    mem,
                    p + f.offset,
                    args[slot as int],
                    stored_bytes(f.value),
                    first_offset(*rest, size) - f.offset,
                ),
                CabiFieldValue::MaterialisedScratch { ops, .. } => built(
                    *ops,
                    args,
                    mem,
                    p + size,
                    top,
                    crate::execution::read(mem, p + f.offset, 4) as int,
                ),
            }
            &&& fields_built(*rest, size, args, mem, top, p)
        },
    }
}

// ── plans that can be built ──────────────────────────────────────────

/// No store of a field reaches past the value.
pub open spec fn within(fields: List<CabiStructFieldOp>, size: u32) -> bool
    decreases fields,
{
    match fields {
        List::Nil => true,
        List::Cons(f, rest) => f.offset + stored_bytes(f.value) <= size && within(*rest, size),
    }
}

/// A plan reads flat arguments of the types that it needs, parks addresses in
/// scratch locals from `from` on, each before the one it is stored in, and has
/// its fields in the order of their offsets.
pub open spec fn sound(ops: CabiMaterialisationOps, scratch: u32, from: int, args: Seq<Value>) -> bool
    decreases ops,
{
    &&& args.len() <= from <= scratch
    &&& match ops {
        CabiMaterialisationOps::StringFromSlots { ptr_slot, len_slot } => is_word(args, ptr_slot)
            && is_word(args, len_slot),
        CabiMaterialisationOps::ListFromSlots { ptr_slot, len_slot } => is_word(args, ptr_slot)
            && is_word(args, len_slot),
        CabiMaterialisationOps::Struct { size, fields } => size <= i32::MAX && sound_fields(
            fields,
            size,
            scratch,
            from,
            args,
        ),
        CabiMaterialisationOps::Variant { size, tag_slot, payload_offset, payload_slots } => {
            &&& 4 <= size <= i32::MAX
            &&& is_word(args, tag_slot)
            &&& 4 <= payload_offset
            &&& payload_offset + 4 * payload_slots.seq().len() <= u32::MAX
            &&& forall|i: int|
                0 <= i < payload_slots.seq().len() ==> is_word(
                    args,
                    #[trigger] payload_slots.seq()[i],
                )
        },
    }
}

/// The fields of such a plan.
pub open spec fn sound_fields(
    fields: List<CabiStructFieldOp>,
    size: u32,
    scratch: u32,
    from: int,
    args: Seq<Value>,
) -> bool
    decreases fields,
{
    match fields {
        List::Nil => true,
        List::Cons(f, rest) => {
            &&& f.offset <= first_offset(*rest, size)
            &&& f.offset <= size
            &&& match f.value {
                CabiFieldValue::DirectSlot { slot, valtype } => slot < args.len()
                    && args[slot as int].ty() == valtype,
                CabiFieldValue::MaterialisedScratch { scratch: sub, ops } => {
                    &&& sub < scratch
                    &&& sound(*ops, sub, from, args)
                    &&& f.offset + 4 <= first_offset(*rest, size)
                    &&& within(*rest, size)
                    &&& f.offset + 4 <= size
                },
            }
            &&& sound_fields(*rest, size, scratch, from, args)
        },
    }
}

/// How far building may reach past the heap pointer.
pub open spec fn reach(ops: CabiMaterialisationOps) -> int
    decreases ops,
{
    match ops {
        CabiMaterialisationOps::StringFromSlots { .. } => 7 + STRING_HEADER_SIZE,
        CabiMaterialisationOps::ListFromSlots { .. } => 7 + ARRAY_HEADER_SIZE,
        CabiMaterialisationOps::Struct { size, fields } => 15 + size + fields_reach(fields),
        CabiMaterialisationOps::Variant { size, payload_offset, payload_slots, .. } => 7 + size
            + payload_offset + 4 * payload_slots.seq().len(),
    }
}

/// How far building fields may reach past the heap pointer.
pub open spec fn fields_reach(fields: List<CabiStructFieldOp>) -> int
    decreases fields,
{
    match fields {
        List::Nil => 0,
        List::Cons(f, rest) => fields_reach(*rest) + match f.value {
            CabiFieldValue::DirectSlot { .. } => 0,
            CabiFieldValue::MaterialisedScratch { ops, .. } => reach(*ops),
        },
    }
}

proof fn lemma_reach(ops: CabiMaterialisationOps)
    ensures
        reach(ops) >= 0,
    decreases ops,
{
    if let CabiMaterialisationOps::Struct { size, fields } = ops {
        lemma_fields_reach(fields);
    }
}

proof fn lemma_fields_reach(fields: List<CabiStructFieldOp>)
    ensures
        fields_reach(fields) >= 0,
    decreases fields,
{
    if let List::Cons(f, rest) = fields {
        lemma_fields_reach(*rest);
        if let CabiFieldValue::MaterialisedScratch { ops, .. } = f.value {
            lemma_reach(*ops);
        }
    }
}

// ── code by its structure ────────────────────────────────────────────

spec fn store_tree(scratch: u32, slot: u32, op: StoreOp, offset: u32, rest: Tree) -> Tree {
    Tree::op3(
        Instr::LocalGet(scratch),
        Instr::LocalGet(slot),
        Instr::Store(op, crate::module::word_at(offset)),
        rest,
    )
}

spec fn allocate_tree(size: i32, alloc: u32, scratch: u32, rest: Tree) -> Tree {
    Tree::op3(Instr::I32Const(size), Instr::Call(alloc), Instr::LocalSet(scratch), rest)
}

spec fn payload_tree(
    slots: Seq<u32>,
    i: int,
    payload_offset: u32,
    scratch: u32,
    rest: Tree,
) -> Tree
    decreases slots.len() - i,
{
    if i < 0 || i >= slots.len() {
        rest
    } else {
        store_tree(
            scratch,
            slots[i],
            StoreOp::I32,
            crate::module_lowering::cabi::word_offset(payload_offset, i),
            payload_tree(slots, i + 1, payload_offset, scratch, rest),
        )
    }
}

spec fn tree(ops: CabiMaterialisationOps, scratch: u32, alloc: u32, rest: Tree) -> Tree
    decreases ops,
{
    match ops {
        CabiMaterialisationOps::StringFromSlots { ptr_slot, len_slot } => allocate_tree(
            STRING_HEADER_SIZE as i32,
            alloc,
            scratch,
            store_tree(
                scratch,
                ptr_slot,
                StoreOp::I32,
                STRING_PTR_OFFSET,
                store_tree(scratch, len_slot, StoreOp::I32, STRING_LEN_OFFSET, rest),
            ),
        ),
        CabiMaterialisationOps::ListFromSlots { ptr_slot, len_slot } => allocate_tree(
            ARRAY_HEADER_SIZE as i32,
            alloc,
            scratch,
            store_tree(
                scratch,
                ptr_slot,
                StoreOp::I32,
                STRING_PTR_OFFSET,
                store_tree(
                    scratch,
                    len_slot,
                    StoreOp::I32,
                    STRING_LEN_OFFSET,
                    store_tree(scratch, len_slot, StoreOp::I32, ARRAY_HEADER_CAP_OFFSET, rest),
                ),
            ),
        ),
        CabiMaterialisationOps::Struct { size, fields } => allocate_tree(
            crate::module_lowering::cabi::size_const(size),
            alloc,
            scratch,
            fields_tree(fields, scratch, alloc, rest),
        ),
        CabiMaterialisationOps::Variant { size, tag_slot, payload_offset, payload_slots } => allocate_tree(
            crate::module_lowering::cabi::size_const(size),
            alloc,
            scratch,
            store_tree(
                scratch,
                tag_slot,
                StoreOp::I32,
                0,
                payload_tree(payload_slots.seq(), 0, payload_offset, scratch, rest),
            ),
        ),
    }
}

spec fn fields_tree(fields: List<CabiStructFieldOp>, scratch: u32, alloc: u32, rest: Tree) -> Tree
    decreases fields,
{
    match fields {
        List::Nil => rest,
        List::Cons(f, more) => {
            let behind = fields_tree(*more, scratch, alloc, rest);
            match f.value {
                CabiFieldValue::DirectSlot { slot, valtype } => store_tree(
                    scratch,
                    slot,
                    crate::module_lowering::cabi::store_of(valtype),
                    f.offset,
                    behind,
                ),
                CabiFieldValue::MaterialisedScratch { scratch: sub, ops } => tree(
                    *ops,
                    sub,
                    alloc,
                    store_tree(scratch, sub, StoreOp::I32, f.offset, behind),
                ),
            }
        },
    }
}

proof fn lemma_payload_written(
    slots: Seq<u32>,
    i: int,
    payload_offset: u32,
    scratch: u32,
    rest: Tree,
    s: SinkView,
    cx: Cx,
)
    ensures
        crate::execution::written(payload_tree(slots, i, payload_offset, scratch, rest), s, cx)
            == crate::execution::written(
            rest,
            crate::module_lowering::cabi::payload_code(slots, i, payload_offset, scratch, s),
            cx,
        ),
        crate::execution::pieces(payload_tree(slots, i, payload_offset, scratch, rest))
            == crate::execution::pieces(rest),
    decreases slots.len() - i,
{
    if 0 <= i < slots.len() {
        let s1 = crate::module_lowering::cabi::store_slot(
            scratch,
            slots[i],
            StoreOp::I32,
            crate::module_lowering::cabi::word_offset(payload_offset, i),
            s,
        );
        lemma_payload_written(slots, i + 1, payload_offset, scratch, rest, s1, cx);
    }
}

proof fn lemma_written(
    ops: CabiMaterialisationOps,
    scratch: u32,
    alloc: u32,
    rest: Tree,
    s: SinkView,
    cx: Cx,
)
    ensures
        crate::execution::written(tree(ops, scratch, alloc, rest), s, cx)
            == crate::execution::written(
            rest,
            crate::module_lowering::cabi::materialised(ops, scratch, alloc, s),
            cx,
        ),
        crate::execution::pieces(tree(ops, scratch, alloc, rest)) == crate::execution::pieces(rest),
    decreases ops,
{
    match ops {
        CabiMaterialisationOps::Struct { size, fields } => {
            let s1 = crate::module_lowering::cabi::allocate(
                crate::module_lowering::cabi::size_const(size),
                alloc,
                scratch,
                s,
            );
            lemma_fields_written(fields, scratch, alloc, rest, s1, cx);
        },
        CabiMaterialisationOps::Variant { size, tag_slot, payload_offset, payload_slots } => {
            let s1 = crate::module_lowering::cabi::allocate(
                crate::module_lowering::cabi::size_const(size),
                alloc,
                scratch,
                s,
            );
            let s2 = crate::module_lowering::cabi::store_slot(
                scratch,
                tag_slot,
                StoreOp::I32,
                0,
                s1,
            );
            lemma_payload_written(payload_slots.seq(), 0, payload_offset, scratch, rest, s2, cx);
        },
        _ => {},
    }
}

proof fn lemma_fields_written(
    fields: List<CabiStructFieldOp>,
    scratch: u32,
    alloc: u32,
    rest: Tree,
    s: SinkView,
    cx: Cx,
)
    ensures
        crate::execution::written(fields_tree(fields, scratch, alloc, rest), s, cx)
            == crate::execution::written(
            rest,
            crate::module_lowering::cabi::fields_code(fields, scratch, alloc, s),
            cx,
        ),
        crate::execution::pieces(fields_tree(fields, scratch, alloc, rest))
            == crate::execution::pieces(rest),
    decreases fields,
{
    if let List::Cons(f, more) = fields {
        let behind = fields_tree(*more, scratch, alloc, rest);
        match f.value {
            CabiFieldValue::DirectSlot { slot, valtype } => {
                let s1 = crate::module_lowering::cabi::store_slot(
                    scratch,
                    slot,
                    crate::module_lowering::cabi::store_of(valtype),
                    f.offset,
                    s,
                );
                lemma_fields_written(*more, scratch, alloc, rest, s1, cx);
            },
            CabiFieldValue::MaterialisedScratch { scratch: sub, ops } => {
                let storing = store_tree(scratch, sub, StoreOp::I32, f.offset, behind);
                lemma_written(*ops, sub, alloc, storing, s, cx);
                let s1 = crate::module_lowering::cabi::store_slot(
                    scratch,
                    sub,
                    StoreOp::I32,
                    f.offset,
                    crate::module_lowering::cabi::materialised(*ops, sub, alloc, s),
                );
                lemma_fields_written(*more, scratch, alloc, rest, s1, cx);
            },
        }
    }
}

// ── running it ───────────────────────────────────────────────────────

/// A store of a local through a pointer in another one.
proof fn lemma_store(
    scratch: u32,
    slot: u32,
    op: StoreOp,
    offset: u32,
    rest: Tree,
    st: State,
    env: Env,
    fuel: nat,
    p: u32,
)
    requires
        scratch < st.locals.len(),
        slot < st.locals.len(),
        st.locals[scratch as int] == Value::I32(p),
        st.locals[slot as int].ty() == crate::execution::store_type(op),
        p + offset + crate::lower::storage::store_width(op) <= st.mem.len(),
    ensures
        crate::execution::exec(store_tree(scratch, slot, op, offset, rest), st, env, fuel)
            == crate::execution::exec(
            rest,
            st.with_memory(
                crate::execution::write(
                    st.mem,
                    p + offset,
                    st.locals[slot as int].bits(),
                    crate::lower::storage::store_width(op),
                ),
            ),
            env,
            fuel,
        ),
{
    let got = st.push(Value::I32(p)).push(st.locals[slot as int]);
    let behind = st.with_memory(
        crate::execution::write(
            st.mem,
            p + offset,
            st.locals[slot as int].bits(),
            crate::lower::storage::store_width(op),
        ),
    );
    assert(crate::execution::step(Instr::Store(op, crate::module::word_at(offset)), got, env)
        == Some(behind));
}

/// The state behind an allocation.
spec fn given(st: State, size: u32, scratch: u32) -> State {
    (State { heap: (crate::execution::next_address(st.heap) + size) as u32, ..st }).with_local(
        scratch,
        Value::I32(crate::execution::next_address(st.heap) as u32),
    )
}

proof fn lemma_allocate(
    size: u32,
    alloc: u32,
    scratch: u32,
    rest: Tree,
    st: State,
    env: Env,
    fuel: nat,
)
    requires
        crate::execution::allocates(env, alloc),
        scratch < st.locals.len(),
        size <= i32::MAX,
        st.heap + 7 + size <= u32::MAX,
    ensures
        crate::execution::exec(allocate_tree(size as i32, alloc, scratch, rest), st, env, fuel)
            == crate::execution::exec(rest, given(st, size, scratch), env, fuel),
        st.heap <= crate::execution::next_address(st.heap) <= st.heap + 7,
{
    crate::layout::lemma_round_up(st.heap as int, 8);
    assert(crate::execution::word(size as i32 as int) == size);
    let at = st.push(Value::I32(size));
    assert((env.call)(alloc, at) is Some);
}

/// Words in memory, one written and the others as they were.
proof fn lemma_word(mem: Seq<u8>, at: int, v: Value)
    requires
        0 <= at,
        at + 4 <= mem.len(),
        v is I32,
    ensures
        crate::execution::read(crate::execution::write(mem, at, v.bits(), 4), at, 4) == v.bits(),
        forall|i: int|
            0 <= i < mem.len() && (i < at || i >= at + 4) ==> #[trigger] crate::execution::write(
                mem,
                at,
                v.bits(),
                4,
            )[i] == mem[i],
        forall|other: int|
            0 <= other && other + 4 <= mem.len() && (at + 4 <= other || other + 4 <= at)
                ==> #[trigger] crate::execution::read(
                crate::execution::write(mem, at, v.bits(), 4),
                other,
                4,
            ) == crate::execution::read(mem, other, 4),
{
    crate::execution::lemma_limits();
    crate::execution::lemma_read_back(mem, at, v.bits(), 4);
    crate::execution::lemma_byte_apart(mem, at, v.bits(), 4);
    assert forall|other: int|
        0 <= other && other + 4 <= mem.len() && (at + 4 <= other || other + 4 <= at) implies
        #[trigger] crate::execution::read(
        crate::execution::write(mem, at, v.bits(), 4),
        other,
        4,
    ) == crate::execution::read(mem, other, 4) by {
        crate::execution::lemma_read_apart(mem, at, v.bits(), 4, other, 4);
    }
}

/// Building leaves the operands and the locals alone, but for the scratch
/// locals, and the memory below the heap pointer too.
pub open spec fn apart_from(a: State, b: State, from: int, scratch: u32) -> bool {
    &&& b.stack == a.stack
    &&& b.locals.len() == a.locals.len()
    &&& forall|i: int|
        0 <= i < a.locals.len() && (i < from || i > scratch) ==> #[trigger] b.locals[i]
            == a.locals[i]
    &&& crate::execution::keeps_heap(a, b)
}

/// The first locals are the flat arguments.
pub open spec fn begins_with(locals: Seq<Value>, args: Seq<Value>) -> bool {
    &&& args.len() <= locals.len()
    &&& forall|i: int| 0 <= i < args.len() ==> #[trigger] locals[i] == args[i]
}

/// What lies in memory that stays is still there.
proof fn lemma_kept(
    ops: CabiMaterialisationOps,
    args: Seq<Value>,
    a: Seq<u8>,
    b: Seq<u8>,
    low: int,
    lower: int,
    top: int,
    higher: int,
    p: int,
)
    requires
        built(ops, args, a, low, top, p),
        0 <= lower <= low,
        top <= higher,
        top <= a.len(),
        a.len() == b.len(),
        forall|i: int| low <= i < top ==> #[trigger] a[i] == b[i],
        shaped(ops),
    ensures
        built(ops, args, b, lower, higher, p),
    decreases ops,
{
    match ops {
        CabiMaterialisationOps::StringFromSlots { ptr_slot, len_slot } => {
            lemma_same(a, b, p + STRING_PTR_OFFSET, 4, low, top);
            lemma_same(a, b, p + STRING_LEN_OFFSET, 4, low, top);
        },
        CabiMaterialisationOps::ListFromSlots { ptr_slot, len_slot } => {
            lemma_same(a, b, p + ARRAY_HEADER_PTR_OFFSET, 4, low, top);
            lemma_same(a, b, p + ARRAY_HEADER_LEN_OFFSET, 4, low, top);
            lemma_same(a, b, p + ARRAY_HEADER_CAP_OFFSET, 4, low, top);
        },
        CabiMaterialisationOps::Struct { size, fields } => {
            lemma_fields_kept(fields, size, args, a, b, low, top, higher, p);
        },
        CabiMaterialisationOps::Variant { size, tag_slot, payload_offset, payload_slots } => {
            lemma_same(a, b, p, 4, low, top);
            let slots = payload_slots.seq();
            assert forall|i: int|
                0 <= i < slots.len() && payload_offset + 4 * i + 4 <= size implies
                crate::execution::read(b, p + payload_offset + 4 * i, 4)
                == args[#[trigger] slots[i] as int].bits() by {
                lemma_same(a, b, p + payload_offset + 4 * i, 4, low, top);
            }
        },
    }
}

/// The fields of a plan lie inside the value, one behind the other.
pub open spec fn shaped(ops: CabiMaterialisationOps) -> bool
    decreases ops,
{
    match ops {
        CabiMaterialisationOps::Struct { size, fields } => shaped_fields(fields, size),
        _ => true,
    }
}

/// The fields of such a plan.
pub open spec fn shaped_fields(fields: List<CabiStructFieldOp>, size: u32) -> bool
    decreases fields,
{
    match fields {
        List::Nil => true,
        List::Cons(f, rest) => {
            &&& f.offset <= first_offset(*rest, size) <= size
            &&& match f.value {
                CabiFieldValue::DirectSlot { .. } => true,
                CabiFieldValue::MaterialisedScratch { ops, .. } => f.offset + 4 <= size && shaped(
                    *ops,
                ),
            }
            &&& shaped_fields(*rest, size)
        },
    }
}

proof fn lemma_shaped(ops: CabiMaterialisationOps, scratch: u32, from: int, args: Seq<Value>)
    requires
        sound(ops, scratch, from, args),
    ensures
        shaped(ops),
    decreases ops,
{
    if let CabiMaterialisationOps::Struct { size, fields } = ops {
        lemma_shaped_fields(fields, size, scratch, from, args);
    }
}

proof fn lemma_shaped_fields(
    fields: List<CabiStructFieldOp>,
    size: u32,
    scratch: u32,
    from: int,
    args: Seq<Value>,
)
    requires
        sound_fields(fields, size, scratch, from, args),
    ensures
        shaped_fields(fields, size),
        first_offset(fields, size) <= size,
    decreases fields,
{
    if let List::Cons(f, rest) = fields {
        lemma_shaped_fields(*rest, size, scratch, from, args);
        if let CabiFieldValue::MaterialisedScratch { scratch: sub, ops } = f.value {
            lemma_shaped(*ops, sub, from, args);
        }
    }
}

proof fn lemma_same(a: Seq<u8>, b: Seq<u8>, at: int, n: nat, low: int, top: int)
    requires
        0 <= low <= at,
        at + n <= top,
        top <= a.len(),
        a.len() == b.len(),
        forall|i: int| low <= i < top ==> #[trigger] a[i] == b[i],
    ensures
        crate::execution::read(b, at, n) == crate::execution::read(a, at, n),
{
    assert(b.subrange(at, at + n) =~= a.subrange(at, at + n));
}

proof fn lemma_fields_kept(
    fields: List<CabiStructFieldOp>,
    size: u32,
    args: Seq<Value>,
    a: Seq<u8>,
    b: Seq<u8>,
    low: int,
    top: int,
    higher: int,
    p: int,
)
    requires
        fields_built(fields, size, args, a, top, p),
        0 <= low <= p,
        p + size <= top <= higher,
        top <= a.len(),
        a.len() == b.len(),
        forall|i: int| low <= i < top ==> #[trigger] a[i] == b[i],
        shaped_fields(fields, size),
    ensures
        fields_built(fields, size, args, b, higher, p),
    decreases fields,
{
    if let List::Cons(f, rest) = fields {
        lemma_fields_kept(*rest, size, args, a, b, low, top, higher, p);
        match f.value {
            CabiFieldValue::DirectSlot { slot, valtype } => {
                assert forall|j: int|
                    0 <= j < stored_bytes(f.value) && j < first_offset(*rest, size)
                        - f.offset implies #[trigger] b[p + f.offset + j]
                    == crate::lower::storage::low_bytes(
                    args[slot as int].bits(),
                    stored_bytes(f.value),
                )[j] by {
                    assert(a[p + f.offset + j] == b[p + f.offset + j]);
                }
            },
            CabiFieldValue::MaterialisedScratch { scratch: sub, ops } => {
                lemma_same(a, b, p + f.offset, 4, low, top);
                let q = crate::execution::read(a, p + f.offset, 4) as int;
                lemma_kept(*ops, args, a, b, p + size, p + size, top, higher, q);
            },
        }
    }
}

/// The words of a payload.
proof fn lemma_payload_run(
    slots: Seq<u32>,
    i: int,
    payload_offset: u32,
    scratch: u32,
    rest: Tree,
    st: State,
    env: Env,
    fuel: nat,
    args: Seq<Value>,
    p: u32,
) -> (end: State)
    requires
        0 <= i <= slots.len(),
        begins_with(st.locals, args),
        args.len() <= scratch < st.locals.len(),
        st.locals[scratch as int] == Value::I32(p),
        p + payload_offset + 4 * slots.len() <= st.mem.len(),
        payload_offset + 4 * slots.len() <= u32::MAX,
        forall|k: int| 0 <= k < slots.len() ==> is_word(args, #[trigger] slots[k]),
    ensures
        crate::execution::exec(
            payload_tree(slots, i, payload_offset, scratch, rest),
            st,
            env,
            fuel,
        ) == crate::execution::exec(rest, end, env, fuel),
        end == st.with_memory(end.mem),
        end.mem.len() == st.mem.len(),
        forall|j: int|
            0 <= j < st.mem.len() && j < p + payload_offset + 4 * i ==> #[trigger] end.mem[j]
                == st.mem[j],
        forall|k: int|
            i <= k < slots.len() ==> crate::execution::read(
                end.mem,
                p + payload_offset + 4 * k,
                4,
            ) == args[#[trigger] slots[k] as int].bits(),
    decreases slots.len() - i,
{
    if i < slots.len() {
        let at = crate::module_lowering::cabi::word_offset(payload_offset, i);
        assert(at == payload_offset + 4 * i);
        let behind = payload_tree(slots, i + 1, payload_offset, scratch, rest);
        assert(is_word(args, slots[i]));
        lemma_store(scratch, slots[i], StoreOp::I32, at, behind, st, env, fuel, p);
        let v = args[slots[i] as int];
        lemma_word(st.mem, p + at, v);
        let s1 = st.with_memory(crate::execution::write(st.mem, p + at, v.bits(), 4));
        let end = lemma_payload_run(
            slots,
            i + 1,
            payload_offset,
            scratch,
            rest,
            s1,
            env,
            fuel,
            args,
            p,
        );
        let low = p + payload_offset + 4 * i;
        assert forall|j: int| low <= j < low + 4 implies #[trigger] end.mem[j] == s1.mem[j] by {
        }
        lemma_same(s1.mem, end.mem, low, 4, low, low + 4);
        end
    } else {
        st
    }
}

/// A plan, when its code has run.
#[verifier::rlimit(40)]
proof fn lemma_build(
    ops: CabiMaterialisationOps,
    scratch: u32,
    from: int,
    alloc: u32,
    rest: Tree,
    st: State,
    env: Env,
    fuel: nat,
    args: Seq<Value>,
) -> (end: State)
    requires
        crate::execution::allocates(env, alloc),
        sound(ops, scratch, from, args),
        begins_with(st.locals, args),
        scratch < st.locals.len(),
        st.heap + reach(ops) <= st.mem.len(),
        st.heap + reach(ops) <= u32::MAX,
    ensures
        crate::execution::exec(tree(ops, scratch, alloc, rest), st, env, fuel)
            == crate::execution::exec(rest, end, env, fuel),
        apart_from(st, end, from, scratch),
        end.heap <= st.heap + reach(ops),
        end.locals[scratch as int] is I32,
        built(
            ops,
            args,
            end.mem,
            st.heap as int,
            end.heap as int,
            end.locals[scratch as int]->I32_0 as int,
        ),
    decreases ops,
{
    match ops {
        CabiMaterialisationOps::StringFromSlots { ptr_slot, len_slot } => {
            lemma_build_text(ptr_slot, len_slot, scratch, alloc, rest, st, env, fuel, args)
        },
        CabiMaterialisationOps::ListFromSlots { ptr_slot, len_slot } => {
            lemma_build_list(ptr_slot, len_slot, scratch, alloc, rest, st, env, fuel, args)
        },
        CabiMaterialisationOps::Struct { size, fields } => {
            lemma_fields_reach(fields);
            lemma_allocate(
                size,
                alloc,
                scratch,
                fields_tree(fields, scratch, alloc, rest),
                st,
                env,
                fuel,
            );
            let s1 = given(st, size, scratch);
            let p = s1.locals[scratch as int]->I32_0;
            lemma_fill(fields, size, scratch, from, alloc, rest, s1, env, fuel, args, p)
        },
        CabiMaterialisationOps::Variant { size, tag_slot, payload_offset, payload_slots } => {
            let slots = payload_slots.seq();
            let words = payload_tree(slots, 0, payload_offset, scratch, rest);
            let storing = store_tree(scratch, tag_slot, StoreOp::I32, 0, words);
            lemma_allocate(size, alloc, scratch, storing, st, env, fuel);
            let s1 = given(st, size, scratch);
            let p = s1.locals[scratch as int]->I32_0;
            lemma_store(scratch, tag_slot, StoreOp::I32, 0, words, s1, env, fuel, p);
            let tag = args[tag_slot as int];
            lemma_word(s1.mem, p as int, tag);
            let s2 = s1.with_memory(crate::execution::write(s1.mem, p as int, tag.bits(), 4));
            let end = lemma_payload_run(
                slots,
                0,
                payload_offset,
                scratch,
                rest,
                s2,
                env,
                fuel,
                args,
                p,
            );
            lemma_same(s2.mem, end.mem, p as int, 4, p as int, p + 4);
            end
        },
    }
}

proof fn lemma_build_text(
    ptr_slot: u32,
    len_slot: u32,
    scratch: u32,
    alloc: u32,
    rest: Tree,
    st: State,
    env: Env,
    fuel: nat,
    args: Seq<Value>,
) -> (end: State)
    requires
        crate::execution::allocates(env, alloc),
        is_word(args, ptr_slot),
        is_word(args, len_slot),
        begins_with(st.locals, args),
        args.len() <= scratch < st.locals.len(),
        st.heap + 7 + STRING_HEADER_SIZE <= st.mem.len(),
        st.heap + 7 + STRING_HEADER_SIZE <= u32::MAX,
    ensures
        ({
            let ops = CabiMaterialisationOps::StringFromSlots { ptr_slot, len_slot };
            &&& crate::execution::exec(tree(ops, scratch, alloc, rest), st, env, fuel)
                == crate::execution::exec(rest, end, env, fuel)
            &&& apart_from(st, end, scratch as int, scratch)
            &&& end.heap <= st.heap + 7 + STRING_HEADER_SIZE
            &&& end.locals[scratch as int] is I32
            &&& built(
                ops,
                args,
                end.mem,
                st.heap as int,
                end.heap as int,
                end.locals[scratch as int]->I32_0 as int,
            )
        }),
{
    let second = store_tree(scratch, len_slot, StoreOp::I32, STRING_LEN_OFFSET, rest);
    let first = store_tree(scratch, ptr_slot, StoreOp::I32, STRING_PTR_OFFSET, second);
    lemma_allocate(STRING_HEADER_SIZE, alloc, scratch, first, st, env, fuel);
    let s1 = given(st, STRING_HEADER_SIZE, scratch);
    let p = s1.locals[scratch as int]->I32_0;
    lemma_store(scratch, ptr_slot, StoreOp::I32, STRING_PTR_OFFSET, second, s1, env, fuel, p);
    let ptr = args[ptr_slot as int];
    lemma_word(s1.mem, p + STRING_PTR_OFFSET, ptr);
    let s2 = s1.with_memory(
        crate::execution::write(s1.mem, p + STRING_PTR_OFFSET, ptr.bits(), 4),
    );
    lemma_store(scratch, len_slot, StoreOp::I32, STRING_LEN_OFFSET, rest, s2, env, fuel, p);
    let len = args[len_slot as int];
    lemma_word(s2.mem, p + STRING_LEN_OFFSET, len);
    s2.with_memory(crate::execution::write(s2.mem, p + STRING_LEN_OFFSET, len.bits(), 4))
}

proof fn lemma_build_list(
    ptr_slot: u32,
    len_slot: u32,
    scratch: u32,
    alloc: u32,
    rest: Tree,
    st: State,
    env: Env,
    fuel: nat,
    args: Seq<Value>,
) -> (end: State)
    requires
        crate::execution::allocates(env, alloc),
        is_word(args, ptr_slot),
        is_word(args, len_slot),
        begins_with(st.locals, args),
        args.len() <= scratch < st.locals.len(),
        st.heap + 7 + ARRAY_HEADER_SIZE <= st.mem.len(),
        st.heap + 7 + ARRAY_HEADER_SIZE <= u32::MAX,
    ensures
        ({
            let ops = CabiMaterialisationOps::ListFromSlots { ptr_slot, len_slot };
            &&& crate::execution::exec(tree(ops, scratch, alloc, rest), st, env, fuel)
                == crate::execution::exec(rest, end, env, fuel)
            &&& apart_from(st, end, scratch as int, scratch)
            &&& end.heap <= st.heap + 7 + ARRAY_HEADER_SIZE
            &&& end.locals[scratch as int] is I32
            &&& built(
                ops,
                args,
                end.mem,
                st.heap as int,
                end.heap as int,
                end.locals[scratch as int]->I32_0 as int,
            )
        }),
{
    let third = store_tree(scratch, len_slot, StoreOp::I32, ARRAY_HEADER_CAP_OFFSET, rest);
    let second = store_tree(scratch, len_slot, StoreOp::I32, STRING_LEN_OFFSET, third);
    let first = store_tree(scratch, ptr_slot, StoreOp::I32, STRING_PTR_OFFSET, second);
    lemma_allocate(ARRAY_HEADER_SIZE, alloc, scratch, first, st, env, fuel);
    let s1 = given(st, ARRAY_HEADER_SIZE, scratch);
    let p = s1.locals[scratch as int]->I32_0;
    lemma_store(scratch, ptr_slot, StoreOp::I32, STRING_PTR_OFFSET, second, s1, env, fuel, p);
    let ptr = args[ptr_slot as int];
    lemma_word(s1.mem, p + STRING_PTR_OFFSET, ptr);
    let s2 = s1.with_memory(
        crate::execution::write(s1.mem, p + STRING_PTR_OFFSET, ptr.bits(), 4),
    );
    lemma_store(scratch, len_slot, StoreOp::I32, STRING_LEN_OFFSET, third, s2, env, fuel, p);
    let len = args[len_slot as int];
    lemma_word(s2.mem, p + STRING_LEN_OFFSET, len);
    let s3 = s2.with_memory(
        crate::execution::write(s2.mem, p + STRING_LEN_OFFSET, len.bits(), 4),
    );
    lemma_store(scratch, len_slot, StoreOp::I32, ARRAY_HEADER_CAP_OFFSET, rest, s3, env, fuel, p);
    lemma_word(s3.mem, p + ARRAY_HEADER_CAP_OFFSET, len);
    s3.with_memory(crate::execution::write(s3.mem, p + ARRAY_HEADER_CAP_OFFSET, len.bits(), 4))
}

/// The fields of the value at `p`, when their code has run.
#[verifier::rlimit(60)]
proof fn lemma_fill(
    fields: List<CabiStructFieldOp>,
    size: u32,
    scratch: u32,
    from: int,
    alloc: u32,
    rest: Tree,
    st: State,
    env: Env,
    fuel: nat,
    args: Seq<Value>,
    p: u32,
) -> (end: State)
    requires
        crate::execution::allocates(env, alloc),
        args.len() <= from <= scratch < st.locals.len(),
        sound_fields(fields, size, scratch, from, args),
        within(fields, size) || p + size == st.heap,
        begins_with(st.locals, args),
        st.locals[scratch as int] == Value::I32(p),
        p + size <= st.heap,
        st.heap + 8 + fields_reach(fields) <= st.mem.len(),
        st.heap + 8 + fields_reach(fields) <= u32::MAX,
    ensures
        crate::execution::exec(fields_tree(fields, scratch, alloc, rest), st, env, fuel)
            == crate::execution::exec(rest, end, env, fuel),
        end.stack == st.stack,
        end.locals.len() == st.locals.len(),
        forall|i: int|
            0 <= i < st.locals.len() && (i < from || i >= scratch) ==> #[trigger] end.locals[i]
                == st.locals[i],
        end.mem.len() == st.mem.len(),
        st.heap <= end.heap <= st.heap + fields_reach(fields),
        forall|i: int|
            0 <= i < st.heap && (i < p + first_offset(fields, size) || i >= p + size)
                ==> #[trigger] end.mem[i] == st.mem[i],
        fields_built(fields, size, args, end.mem, end.heap as int, p as int),
    decreases fields,
{
    if let List::Cons(f, more) = fields {
        lemma_shaped_fields(fields, size, scratch, from, args);
        lemma_fields_reach(*more);
        let behind = fields_tree(*more, scratch, alloc, rest);
        match f.value {
            CabiFieldValue::DirectSlot { slot, valtype } => {
                let op = crate::module_lowering::cabi::store_of(valtype);
                let v = args[slot as int];
                let n = stored_bytes(f.value);
                assert(n == crate::lower::storage::store_width(op));
                lemma_store(scratch, slot, op, f.offset, behind, st, env, fuel, p);
                crate::lower::storage::lemma_byte_count(v.bits(), n);
                crate::execution::lemma_byte_apart(st.mem, p + f.offset, v.bits(), n);
                let s1 = st.with_memory(
                    crate::execution::write(st.mem, p + f.offset, v.bits(), n),
                );
                let end = lemma_fill(
                    *more,
                    size,
                    scratch,
                    from,
                    alloc,
                    rest,
                    s1,
                    env,
                    fuel,
                    args,
                    p,
                );
                assert forall|j: int|
                    0 <= j < n && j < first_offset(*more, size) - f.offset implies
                    #[trigger] end.mem[p + f.offset + j] == crate::lower::storage::low_bytes(
                    v.bits(),
                    n,
                )[j] by {
                    assert(s1.mem[p + f.offset + j] == crate::lower::storage::low_bytes(
                        v.bits(),
                        n,
                    )[j]);
                }
                assert forall|i: int|
                    0 <= i < st.heap && (i < p + first_offset(fields, size) || i >= p
                        + size) implies #[trigger] end.mem[i] == st.mem[i] by {
                    assert(s1.mem[i] == st.mem[i]);
                }
                end
            },
            CabiFieldValue::MaterialisedScratch { scratch: sub, ops } => {
                let storing = store_tree(scratch, sub, StoreOp::I32, f.offset, behind);
                lemma_reach(*ops);
                lemma_shaped(*ops, sub, from, args);
                let s1 = lemma_build(*ops, sub, from, alloc, storing, st, env, fuel, args);
                let q = s1.locals[sub as int]->I32_0;
                lemma_store(scratch, sub, StoreOp::I32, f.offset, behind, s1, env, fuel, p);
                let at = p + f.offset;
                lemma_word(s1.mem, at, s1.locals[sub as int]);
                let s2 = s1.with_memory(crate::execution::write(s1.mem, at, q as nat, 4));
                let end = lemma_fill(
                    *more,
                    size,
                    scratch,
                    from,
                    alloc,
                    rest,
                    s2,
                    env,
                    fuel,
                    args,
                    p,
                );
                lemma_same(s2.mem, end.mem, at, 4, at, at + 4);
                assert forall|i: int| st.heap <= i < s1.heap implies #[trigger] s1.mem[i]
                    == end.mem[i] by {
                    assert(s2.mem[i] == s1.mem[i]);
                }
                lemma_kept(
                    *ops,
                    args,
                    s1.mem,
                    end.mem,
                    st.heap as int,
                    p + size,
                    s1.heap as int,
                    end.heap as int,
                    q as int,
                );
                assert forall|i: int|
                    0 <= i < st.heap && (i < p + first_offset(fields, size) || i >= p
                        + size) implies #[trigger] end.mem[i] == st.mem[i] by {
                    assert(s2.mem[i] == s1.mem[i]);
                }
                end
            },
        }
    } else {
        st
    }
}

/// Running the code of a plan leaves the planned value in memory, its address
/// in the plan's scratch local, and all else as it was.
pub proof fn law_a_plan_is_built(
    ops: CabiMaterialisationOps,
    scratch: u32,
    from: int,
    alloc: u32,
    st: State,
    env: Env,
    fuel: nat,
    args: Seq<Value>,
    s: SinkView,
    cx: Cx,
) -> (end: State)
    requires
        crate::execution::allocates(env, alloc),
        sound(ops, scratch, from, args),
        begins_with(st.locals, args),
        scratch < st.locals.len(),
        st.heap + reach(ops) <= st.mem.len(),
        st.heap + reach(ops) <= u32::MAX,
    ensures
        crate::execution::behaves(
            s,
            crate::module_lowering::cabi::materialised(ops, scratch, alloc, s),
            cx,
            Seq::empty(),
            st,
            env,
            fuel,
            Outcome::Next(end),
        ),
        apart_from(st, end, from, scratch),
        end.locals[scratch as int] is I32,
        built(
            ops,
            args,
            end.mem,
            st.heap as int,
            end.heap as int,
            end.locals[scratch as int]->I32_0 as int,
        ),
{
    let t = tree(ops, scratch, alloc, Tree::Done);
    lemma_written(ops, scratch, alloc, Tree::Done, s, cx);
    let end = lemma_build(ops, scratch, from, alloc, Tree::Done, st, env, fuel, args);
    crate::execution::lemma_behaves(t, s, cx, Seq::empty(), st, env, fuel);
    end
}

// ── what a parameter is ──────────────────────────────────────────────

/// The forms in which parameters lie in memory.
pub enum Form {
    /// As it is, without memory.
    Direct,
    /// A text.
    Text,
    /// A list.
    List,
    /// A value with fields.
    Record(LayoutOwner, Seq<IrField>),
    /// A tag and words behind it.
    Cell(u32, u32),
}

/// The form of a type's values.
pub open spec fn form_of(ty: ResolvedType, m: IrModule) -> Form {
    if crate::module_lowering::signature::is_text(ty) {
        Form::Text
    } else if crate::compound::shape_of(ty, m) is Array {
        Form::List
    } else {
        match ty {
            ResolvedType::Tuple(fields) => Form::Record(
                LayoutOwner::Tuple,
                crate::layout::tuple_fields(fields),
            ),
            ResolvedType::Optional(payload) => {
                let o = crate::layout::optional_plan(*payload)->Ok_0;
                Form::Cell(o.size, o.payload_offset)
            },
            _ => match (crate::compound::struct_id(ty), crate::compound::enum_id(ty)) {
                (Some(id), _) => {
                    let s = m.structs@[id.0 as int];
                    Form::Record(LayoutOwner::Struct(s.name), s.fields@)
                },
                (None, Some(id)) => {
                    let e = m.enums@[id.0 as int];
                    let plan = crate::layout::shapes_plan(
                        e.name,
                        crate::module_lowering::cabi::instance_of(ty, id, e),
                    )->Ok_0;
                    Form::Cell(plan.size, plan.payload_offset)
                },
                (None, None) => Form::Direct,
            },
        }
    }
}

/// The value `v` of a type, with the memory from `low` to `top`, is what the
/// flat arguments from number `from` on say: the argument itself, or the
/// address of a header with the pointer and the length, of a value that has
/// the argument of each field at the place of that field, or of a tag with
/// words behind it.
pub open spec fn represents(
    form: Form,
    args: Seq<Value>,
    from: int,
    n: nat,
    v: Value,
    mem: Seq<u8>,
    low: int,
    top: int,
) -> bool {
    match form {
        Form::Direct => v == args[from],
        _ => {
            &&& v is I32
            &&& low <= v->I32_0
            &&& match form {
                Form::Direct => true,
                Form::Text => {
                    let p = v->I32_0;
                    &&& p + STRING_HEADER_SIZE <= top
                    &&& crate::execution::read(mem, p + STRING_PTR_OFFSET, 4) == args[from].bits()
                    &&& crate::execution::read(mem, p + STRING_LEN_OFFSET, 4)
                        == args[from + 1].bits()
                },
                Form::List => {
                    let p = v->I32_0;
                    &&& p + ARRAY_HEADER_SIZE <= top
                    &&& crate::execution::read(mem, p + ARRAY_HEADER_PTR_OFFSET, 4)
                        == args[from].bits()
                    &&& crate::execution::read(mem, p + ARRAY_HEADER_LEN_OFFSET, 4)
                        == args[from + 1].bits()
                    &&& crate::execution::read(mem, p + ARRAY_HEADER_CAP_OFFSET, 4)
                        == args[from + 1].bits()
                },
                Form::Record(owner, fields) => {
                    let p = v->I32_0 as int;
                    let plan = crate::layout::fields_plan(owner, fields)->Ok_0;
                    &&& p + plan.size <= top
                    &&& forall|k: int|
                        0 <= k < fields.len() ==> has_field(
                            mem,
                            p,
                            #[trigger] plan.fields[k],
                            args[from + k],
                        )
                },
                Form::Cell(size, payload_offset) => {
                    let p = v->I32_0 as int;
                    &&& p + size <= top
                    &&& crate::execution::read(mem, p, 4) == args[from].bits()
                    &&& forall|i: int|
                        1 <= i < n && payload_offset + 4 * i <= size ==> crate::execution::read(
                            mem,
                            p + payload_offset + 4 * (i - 1),
                            4,
                        ) == (#[trigger] args[from + i]).bits()
                },
            }
        },
    }
}

/// The field at a place of the value at `p` is `v`: its low byte, where the
/// field is a byte.
pub open spec fn has_field(mem: Seq<u8>, p: int, place: FieldLayout, v: Value) -> bool {
    crate::execution::read(mem, p + place.offset, place.size as nat) == v.bits()
        % crate::lower::storage::byte_limit(place.size as nat)
}

/// How much memory the value of a form may take.
pub open spec fn need(form: Form, n: nat) -> int {
    match form {
        Form::Direct => 0,
        Form::Text => 7 + STRING_HEADER_SIZE,
        Form::List => 7 + ARRAY_HEADER_SIZE,
        Form::Record(owner, fields) => 15 + crate::layout::fields_plan(owner, fields)->Ok_0.size,
        Form::Cell(size, payload_offset) => 7 + size + payload_offset + 4 * (n - 1),
    }
}

/// The flat types of a type.
pub open spec fn flat_of(ty: ResolvedType, m: IrModule) -> Seq<ValType> {
    crate::module_lowering::cabi::flat(
        ty,
        m,
        crate::module_lowering::nesting::nesting_limit(ty, m) as nat,
    )->Ok_0
}

/// Cells hold words only, and values have sizes that are constants.
pub open spec fn passable(ty: ResolvedType, m: IrModule) -> bool {
    let types = flat_of(ty, m);
    &&& need(form_of(ty, m), types.len()) <= i32::MAX
    &&& form_of(ty, m) is Cell ==> forall|i: int|
        0 <= i < types.len() ==> #[trigger] types[i] == ValType::I32
}

/// The flat arguments from number `from` on have the given types.
pub open spec fn typed(args: Seq<Value>, from: int, types: Seq<ValType>) -> bool {
    &&& 0 <= from
    &&& from + types.len() <= args.len()
    &&& forall|i: int| 0 <= i < types.len() ==> (#[trigger] args[from + i]).ty() == types[i]
}

// ── plans of records ─────────────────────────────────────────────────

proof fn lemma_place_sizes(owner: LayoutOwner, fields: Seq<IrField>, n: nat)
    requires
        crate::layout::place(owner, fields, n) is Ok,
        n <= fields.len(),
    ensures
        ({
            let places = crate::layout::place(owner, fields, n)->Ok_0.fields;
            &&& places.len() == n
            &&& forall|k: int|
                0 <= k < n ==> (crate::layout::field_storage(#[trigger] fields[k].ty) matches Ok(x)
                    && places[k].size == x.0)
        }),
    decreases n,
{
    if n > 0 {
        lemma_place_sizes(owner, fields, (n - 1) as nat);
        let before = crate::layout::place(owner, fields, (n - 1) as nat)->Ok_0.fields;
        let places = crate::layout::place(owner, fields, n)->Ok_0.fields;
        assert forall|k: int| 0 <= k < n implies (crate::layout::field_storage(
            #[trigger] fields[k].ty,
        ) matches Ok(x) && places[k].size == x.0) by {
            if k < n - 1 {
                assert(places[k] == before[k]);
            }
        }
    }
}

/// Every field that has a place is a flat slot of its own.
#[verifier::rlimit(40)]
proof fn lemma_direct(
    fields: Seq<IrField>,
    places: Seq<FieldLayout>,
    i: int,
    c: Cursor,
    base: u32,
    m: IrModule,
    depth: nat,
    out: Seq<CabiStructFieldOp>,
    types: Seq<ValType>,
)
    requires
        0 <= i <= fields.len(),
        out.len() == i,
        places.len() == fields.len(),
        forall|k: int|
            0 <= k < fields.len() ==> crate::layout::field_storage(#[trigger] fields[k].ty) is Ok,
    ensures
        crate::module_lowering::cabi::fields_plan(
            fields,
            places,
            i,
            c,
            base,
            m,
            depth,
            out,
        ) matches Ok((ops, c1)) ==> {
            &&& c1.scratch == c.scratch
            &&& ops.len() == fields.len()
            &&& forall|k: int| 0 <= k < i ==> #[trigger] ops[k] == out[k]
            &&& forall|k: int|
                i <= k < fields.len() ==> #[trigger] ops[k] == (CabiStructFieldOp {
                    offset: places[k].offset,
                    value: CabiFieldValue::DirectSlot {
                        slot: (c.slot + k - i) as u32,
                        valtype: crate::types::body_val(fields[k].ty)->Ok_0->0,
                    },
                })
            &&& c.slot + fields.len() - i <= u32::MAX
            &&& crate::module_lowering::cabi::flat_fields(fields, i, m, depth, types) matches Ok(
                all,
            )
            &&& all.len() == types.len() + fields.len() - i
            &&& forall|k: int| 0 <= k < types.len() ==> #[trigger] all[k] == types[k]
            &&& forall|k: int|
                i <= k < fields.len() ==> all[types.len() + k - i] == crate::types::body_val(
                    #[trigger] fields[k].ty,
                )->Ok_0->0
        },
    decreases fields.len() - i,
{
    if i < fields.len() && crate::module_lowering::cabi::fields_plan(
        fields,
        places,
        i,
        c,
        base,
        m,
        depth,
        out,
    ) is Ok {
        let ty = fields[i].ty;
        let (value, c1) = crate::module_lowering::cabi::value_plan(ty, c, base, m, depth)->Ok_0;
        let vt = crate::types::body_val(ty)->Ok_0->0;
        assert(crate::layout::field_storage(ty) is Ok);
        assert(!(crate::compound::shape_of(ty, m) is Array));
        assert(crate::compound::struct_id(ty) is None && crate::compound::enum_id(ty) is None);
        assert(value == CabiFieldValue::DirectSlot { slot: c.slot, valtype: vt });
        assert(c1 == Cursor { slot: (c.slot + 1) as u32, ..c });
        assert(crate::module_lowering::cabi::flat(ty, m, depth)->Ok_0 =~= seq![vt]);
        let f = CabiStructFieldOp { offset: places[i].offset, value };
        lemma_direct(fields, places, i + 1, c1, base, m, depth, out.push(f), types + seq![vt]);
        let ops = (crate::module_lowering::cabi::fields_plan(
            fields,
            places,
            i,
            c,
            base,
            m,
            depth,
            out,
        )->Ok_0).0;
        let all = crate::module_lowering::cabi::flat_fields(fields, i, m, depth, types)->Ok_0;
        assert(ops[i] == out.push(f)[i]);
        assert forall|k: int| 0 <= k < i implies #[trigger] ops[k] == out[k] by {
            assert(ops[k] == out.push(f)[k]);
        }
        assert forall|k: int| 0 <= k < types.len() implies #[trigger] all[k] == types[k] by {
            assert(all[k] == (types + seq![vt])[k]);
        }
        assert(all[types.len() as int] == (types + seq![vt])[types.len() as int]);
        assert forall|k: int| i <= k < fields.len() implies all[types.len() + k - i]
            == crate::types::body_val(#[trigger] fields[k].ty)->Ok_0->0 by {
            if k > i {
                assert(all[(types + seq![vt]).len() + k - (i + 1)] == crate::types::body_val(
                    fields[k].ty,
                )->Ok_0->0);
            }
        }
    }
}

/// Fields that are flat slots, in the order of their offsets.
spec fn flat_ops(ops: Seq<CabiStructFieldOp>, size: u32, args: Seq<Value>) -> bool {
    &&& forall|k: int|
        0 <= k < ops.len() ==> {
            &&& (#[trigger] ops[k]).offset <= size
            &&& ops[k].value matches CabiFieldValue::DirectSlot { slot, valtype }
            &&& slot < args.len()
            &&& args[slot as int].ty() == valtype
        }
    &&& forall|j: int, k: int|
        0 <= j < k < ops.len() ==> (#[trigger] ops[j]).offset <= (#[trigger] ops[k]).offset
}

proof fn lemma_flat_ops(
    ops: Seq<CabiStructFieldOp>,
    size: u32,
    scratch: u32,
    from: int,
    args: Seq<Value>,
)
    requires
        flat_ops(ops, size, args),
    ensures
        sound_fields(List::of_seq(ops), size, scratch, from, args),
        fields_reach(List::of_seq(ops)) == 0,
    decreases ops.len(),
{
    if ops.len() > 0 {
        let more = ops.drop_first();
        assert forall|k: int| 0 <= k < more.len() implies #[trigger] more[k] == ops[k + 1] by {
        }
        lemma_flat_ops(more, size, scratch, from, args);
        if more.len() > 0 {
            assert(ops[0].offset <= ops[1].offset);
        }
    }
}

/// Field `k` of a record that was built.
proof fn lemma_field_at(
    ops: Seq<CabiStructFieldOp>,
    size: u32,
    args: Seq<Value>,
    mem: Seq<u8>,
    top: int,
    p: int,
    k: int,
)
    requires
        flat_ops(ops, size, args),
        fields_built(List::of_seq(ops), size, args, mem, top, p),
        0 <= k < ops.len(),
    ensures
        lies(
            mem,
            p + ops[k].offset,
            args[ops[k].value->DirectSlot_slot as int],
            stored_bytes(ops[k].value),
            (if k + 1 < ops.len() {
                ops[k + 1].offset
            } else {
                size
            }) - ops[k].offset,
        ),
    decreases ops.len(),
{
    let more = ops.drop_first();
    assert forall|i: int| 0 <= i < more.len() implies #[trigger] more[i] == ops[i + 1] by {
    }
    if k > 0 {
        lemma_field_at(more, size, args, mem, top, p, k - 1);
    }
}

/// A value that lies in memory, read back.
proof fn lemma_lies(mem: Seq<u8>, at: int, v: Value, n: nat, room: int, w: nat)
    requires
        lies(mem, at, v, n, room),
        0 <= at,
        at + w <= mem.len(),
        w <= room,
        w == n || (w == 1 && n == 4),
        (v is I32 || v is F32) && n == 4 || (v is I64 || v is F64) && n == 8,
    ensures
        crate::execution::read(mem, at, w) == v.bits() % crate::lower::storage::byte_limit(w),
{
    crate::execution::lemma_limits();
    crate::lower::storage::lemma_byte_count(v.bits(), n);
    let low = crate::lower::storage::low_bytes(v.bits(), n);
    if w == n {
        assert forall|j: int| 0 <= j < w implies mem.subrange(at, at + w)[j] == low[j] by {
            assert(mem[at + j] == low[j]);
        }
        assert(mem.subrange(at, at + w) =~= low);
        crate::lower::storage::lemma_byte_round_trip(v.bits(), n);
        if n == 4 {
            assert(v.bits() % 0x1_0000_0000 == v.bits());
        } else {
            assert(v.bits() % 0x1_0000_0000_0000_0000 == v.bits());
        }
    } else {
        assert(mem[at + 0] == low[0]);
        assert(mem.subrange(at, at + 1) =~= seq![low[0]]);
        reveal_with_fuel(crate::lower::storage::byte_number, 2);
        assert(seq![low[0]].subrange(1, 1).len() == 0);
    }
}

/// The plan of a record can be built, and what is built is the record.
#[verifier::rlimit(40)]
proof fn lemma_record(
    fields: Seq<IrField>,
    owner: LayoutOwner,
    c: Cursor,
    base: u32,
    m: IrModule,
    depth: nat,
    args: Seq<Value>,
)
    requires
        crate::module_lowering::cabi::aggregate_plan(fields, owner, c, base, m, depth) is Ok,
        typed(
            args,
            c.slot as int,
            crate::module_lowering::cabi::flat_fields(fields, 0, m, depth, Seq::empty())->Ok_0,
        ),
        args.len() == base,
        need(Form::Record(owner, fields), 0) <= i32::MAX,
    ensures
        ({
            let (value, c1) = crate::module_lowering::cabi::aggregate_plan(
                fields,
                owner,
                c,
                base,
                m,
                depth,
            )->Ok_0;
            &&& c1.scratch == c.scratch + 1
            &&& value matches CabiFieldValue::MaterialisedScratch { scratch, ops }
            &&& scratch == base + c.scratch
            &&& sound(*ops, scratch, scratch as int, args)
            &&& reach(*ops) == need(Form::Record(owner, fields), 0)
            &&& forall|mem: Seq<u8>, low: int, top: int, p: u32, n: nat|
                0 <= low && top <= mem.len() && #[trigger] built(
                    *ops,
                    args,
                    mem,
                    low,
                    top,
                    p as int,
                ) ==> #[trigger] represents(
                    Form::Record(owner, fields),
                    args,
                    c.slot as int,
                    n,
                    Value::I32(p),
                    mem,
                    low,
                    top,
                )
        }),
{
    let layout = crate::layout::fields_plan(owner, fields)->Ok_0;
    let places = layout.fields;
    crate::layout::lemma_plan_well(owner, fields);
    lemma_place_sizes(owner, fields, fields.len());
    let none: Seq<CabiStructFieldOp> = Seq::empty();
    let no_types: Seq<ValType> = Seq::empty();
    assert forall|k: int| 0 <= k < fields.len() implies crate::layout::field_storage(
        #[trigger] fields[k].ty,
    ) is Ok by {
    }
    lemma_direct(fields, places, 0, c, base, m, depth, none, no_types);
    let (list, c1) = crate::module_lowering::cabi::fields_plan(
        fields,
        places,
        0,
        c,
        base,
        m,
        depth,
        none,
    )->Ok_0;
    let types = crate::module_lowering::cabi::flat_fields(fields, 0, m, depth, no_types)->Ok_0;
    let size = layout.size;
    let scratch = (base + c.scratch) as u32;
    let ops = CabiMaterialisationOps::Struct { size, fields: List::of_seq(list) };
    assert forall|k: int| 0 <= k < list.len() implies {
        &&& (#[trigger] list[k]).offset <= size
        &&& list[k].value matches CabiFieldValue::DirectSlot { slot, valtype }
        &&& slot == c.slot + k
        &&& slot < args.len()
        &&& args[slot as int].ty() == valtype
    } by {
        assert(crate::layout::field_well(size as int, layout.align as int, places[k]));
        assert(types[no_types.len() + k - 0] == crate::types::body_val(fields[k].ty)->Ok_0->0);
        assert(args[c.slot + k].ty() == types[k]);
    }
    assert forall|j: int, k: int| 0 <= j < k < list.len() implies (#[trigger] list[j]).offset <= (
    #[trigger] list[k]).offset by {
        assert(places[j].offset + places[j].size <= places[k].offset);
    }
    assert(flat_ops(list, size, args));
    lemma_flat_ops(list, size, scratch, scratch as int, args);
    assert forall|mem: Seq<u8>, low: int, top: int, p: u32, n: nat|
        0 <= low && top <= mem.len() && #[trigger] built(ops, args, mem, low, top, p as int) implies
        #[trigger] represents(
        Form::Record(owner, fields),
        args,
        c.slot as int,
        n,
        Value::I32(p),
        mem,
        low,
        top,
    ) by {
        assert forall|k: int| 0 <= k < fields.len() implies has_field(
            mem,
            p as int,
            #[trigger] places[k],
            args[c.slot + k],
        ) by {
            assert(crate::layout::field_well(size as int, layout.align as int, places[k]));
            assert(crate::layout::field_storage(fields[k].ty) is Ok);
            lemma_field_at(list, size, args, mem, top, p as int, k);
            let room = (if k + 1 < list.len() {
                list[k + 1].offset
            } else {
                size
            }) - list[k].offset;
            if k + 1 < list.len() {
                assert(places[k].offset + places[k].size <= places[k + 1].offset);
            }
            assert(list[k].offset == places[k].offset);
            lemma_lies(
                mem,
                p + places[k].offset,
                args[c.slot + k],
                stored_bytes(list[k].value),
                room,
                places[k].size as nat,
            );
        }
    }
}

// ── plans of cells and of parameters ─────────────────────────────────

/// The plan of a cell can be built, and what is built is the cell.
proof fn lemma_cell(size: u32, payload_offset: u32, payload: nat, c: Cursor, base: u32, args: Seq<Value>)
    requires
        crate::module_lowering::cabi::cell_plan(size, payload_offset, payload, c, base) is Ok,
        c.slot + 1 + payload <= args.len(),
        forall|i: int| 0 <= i < 1 + payload ==> (#[trigger] args[c.slot + i]).ty() == ValType::I32,
        args.len() == base,
        4 <= payload_offset,
        4 <= size,
        need(Form::Cell(size, payload_offset), 1 + payload) <= i32::MAX,
    ensures
        ({
            let (value, c1) = crate::module_lowering::cabi::cell_plan(
                size,
                payload_offset,
                payload,
                c,
                base,
            )->Ok_0;
            &&& c1.scratch == c.scratch + 1
            &&& value matches CabiFieldValue::MaterialisedScratch { scratch, ops }
            &&& scratch == base + c.scratch
            &&& sound(*ops, scratch, scratch as int, args)
            &&& reach(*ops) == need(Form::Cell(size, payload_offset), 1 + payload)
            &&& forall|mem: Seq<u8>, low: int, top: int, p: u32|
                #[trigger] built(*ops, args, mem, low, top, p as int) ==> represents(
                    Form::Cell(size, payload_offset),
                    args,
                    c.slot as int,
                    1 + payload,
                    Value::I32(p),
                    mem,
                    low,
                    top,
                )
        }),
{
    let slots = crate::module_lowering::cabi::slots_from(c.slot + 1, payload);
    crate::ir::lemma_list_round_trip(slots);
    let ops = CabiMaterialisationOps::Variant {
        size,
        tag_slot: c.slot,
        payload_offset,
        payload_slots: List::of_seq(slots),
    };
    assert(args[c.slot + 0].ty() == ValType::I32);
    assert forall|i: int| 0 <= i < slots.len() implies is_word(args, #[trigger] slots[i]) by {
        assert(args[c.slot + (i + 1)].ty() == ValType::I32);
    }
    assert forall|mem: Seq<u8>, low: int, top: int, p: u32|
        #[trigger] built(ops, args, mem, low, top, p as int) implies represents(
        Form::Cell(size, payload_offset),
        args,
        c.slot as int,
        1 + payload,
        Value::I32(p),
        mem,
        low,
        top,
    ) by {
        assert forall|i: int| 1 <= i < 1 + payload && payload_offset + 4 * i <= size implies
            crate::execution::read(mem, p + payload_offset + 4 * (i - 1), 4) == (
        #[trigger] args[c.slot + i]).bits() by {
            assert(slots[i - 1] == c.slot + i);
        }
    }
}

/// What the plan of a parameter says.
spec fn planned(
    value: CabiFieldValue,
    c: Cursor,
    c1: Cursor,
    base: u32,
    form: Form,
    n: nat,
    args: Seq<Value>,
) -> bool {
    match value {
        CabiFieldValue::DirectSlot { slot, .. } => {
            &&& form is Direct
            &&& slot == c.slot
            &&& slot < args.len()
            &&& c1.scratch == c.scratch
        },
        CabiFieldValue::MaterialisedScratch { scratch, ops } => {
            &&& !(form is Direct)
            &&& c1.scratch == c.scratch + 1
            &&& scratch == base + c.scratch
            &&& sound(*ops, scratch, scratch as int, args)
            &&& reach(*ops) == need(form, n)
            &&& forall|mem: Seq<u8>, low: int, top: int, p: u32|
                0 <= low && top <= mem.len() && #[trigger] built(
                    *ops,
                    args,
                    mem,
                    low,
                    top,
                    p as int,
                ) ==> represents(form, args, c.slot as int, n, Value::I32(p), mem, low, top)
        },
    }
}

#[verifier::rlimit(40)]
proof fn lemma_planned(ty: ResolvedType, c: Cursor, base: u32, m: IrModule, args: Seq<Value>)
    requires
        crate::module_lowering::cabi::value_plan(
            ty,
            c,
            base,
            m,
            crate::module_lowering::nesting::nesting_limit(ty, m) as nat,
        ) is Ok,
        crate::module_lowering::cabi::flat(
            ty,
            m,
            crate::module_lowering::nesting::nesting_limit(ty, m) as nat,
        ) is Ok,
        typed(args, c.slot as int, flat_of(ty, m)),
        args.len() == base,
        passable(ty, m),
    ensures
        ({
            let (value, c1) = crate::module_lowering::cabi::value_plan(
                ty,
                c,
                base,
                m,
                crate::module_lowering::nesting::nesting_limit(ty, m) as nat,
            )->Ok_0;
            planned(value, c, c1, base, form_of(ty, m), flat_of(ty, m).len(), args)
        }),
{
    let depth = crate::module_lowering::nesting::nesting_limit(ty, m) as nat;
    let inner = (depth - 1) as nat;
    let (value, c1) = crate::module_lowering::cabi::value_plan(ty, c, base, m, depth)->Ok_0;
    let form = form_of(ty, m);
    let types = flat_of(ty, m);
    let n = types.len();
    match form {
        Form::Text => {
            assert(types =~= seq![ValType::I32, ValType::I32]);
            assert(args[c.slot + 0].ty() == types[0] && args[c.slot + 1].ty() == types[1]);
        },
        Form::List => {
            lemma_list_types(ty, m);
            assert(types =~= seq![ValType::I32, ValType::I32]);
            assert(args[c.slot + 0].ty() == types[0] && args[c.slot + 1].ty() == types[1]);
        },
        Form::Direct => {
            assert(ty is Primitive ==> types =~= seq![types[0]]);
        },
        Form::Record(owner, fields) => {
            lemma_record(fields, owner, c, base, m, inner, args);
            let ops = *(value->MaterialisedScratch_ops);
            assert forall|mem: Seq<u8>, low: int, top: int, p: u32|
                0 <= low && top <= mem.len() && #[trigger] built(
                    ops,
                    args,
                    mem,
                    low,
                    top,
                    p as int,
                ) implies represents(
                form,
                args,
                c.slot as int,
                n,
                Value::I32(p),
                mem,
                low,
                top,
            ) by {
            }
        },
        Form::Cell(size, payload_offset) => {
            assert forall|i: int| 0 <= i < n implies (#[trigger] args[c.slot + i]).ty()
                == ValType::I32 by {
                assert(types[i] == ValType::I32);
            }
            lemma_cell_layout(ty, m);
            lemma_cell(size, payload_offset, (n - 1) as nat, c, base, args);
        },
    }
}

/// Lists are two words.
proof fn lemma_list_types(ty: ResolvedType, m: IrModule)
    requires
        form_of(ty, m) is List,
        crate::module_lowering::nesting::nesting_limit(ty, m) > 0,
    ensures
        flat_of(ty, m) == seq![ValType::I32, ValType::I32],
{
}

/// A cell begins with its tag.
proof fn lemma_cell_layout(ty: ResolvedType, m: IrModule)
    requires
        form_of(ty, m) is Cell,
        match ty {
            ResolvedType::Optional(payload) => crate::layout::optional_plan(*payload) is Ok,
            _ => {
                let id = crate::compound::enum_id(ty)->0;
                let e = m.enums@[id.0 as int];
                crate::layout::shapes_plan(
                    e.name,
                    crate::module_lowering::cabi::instance_of(ty, id, e),
                ) is Ok
            },
        },
    ensures
        form_of(ty, m)->Cell_0 >= 4,
        form_of(ty, m)->Cell_1 >= 4,
{
    match ty {
        ResolvedType::Optional(payload) => {
            crate::layout::law_optional_layout(*payload);
        },
        _ => {
            let id = crate::compound::enum_id(ty)->0;
            let e = m.enums@[id.0 as int];
            let shapes = crate::module_lowering::cabi::instance_of(ty, id, e);
            crate::layout::lemma_payloads_well(e.name, shapes, shapes.len());
            let plans = crate::layout::payload_plans(e.name, shapes, shapes.len())->Ok_0;
            let a = crate::layout::max_payload_align(plans);
            let at = crate::layout::round_up(4, a);
            crate::layout::lemma_round_up(4, a);
            crate::layout::lemma_round_up(
                at + crate::layout::max_payload_size(plans),
                crate::layout::larger(a, 4),
            );
        },
    }
}

// ── wrappers ─────────────────────────────────────────────────────────

/// Operands on top of others, the last one on top.
pub open spec fn stacked(stack: Stack, values: Seq<Value>) -> Stack
    decreases values.len(),
{
    if values.len() == 0 {
        stack
    } else {
        Stack::Push(values.last(), Box::new(stacked(stack, values.drop_last())))
    }
}

/// A state with more operands.
pub open spec fn with_operands(st: State, values: Seq<Value>) -> State {
    State { stack: stacked(st.stack, values), ..st }
}

/// The type of a parameter.
pub open spec fn param_type(params: Seq<IrFunctionParam>, k: int) -> ResolvedType {
    params[k].ty->Some_0
}

/// How many flat arguments come before those of parameter `k`.
pub open spec fn flat_before(params: Seq<IrFunctionParam>, k: int, m: IrModule) -> nat
    decreases k,
{
    if k <= 0 {
        0
    } else {
        flat_before(params, k - 1, m) + flat_of(param_type(params, k - 1), m).len()
    }
}

/// How much memory the parameters from number `i` on may take.
pub open spec fn needed(params: Seq<IrFunctionParam>, i: int, m: IrModule) -> int
    decreases params.len() - i,
{
    if i < 0 || i >= params.len() {
        0
    } else {
        let ty = param_type(params, i);
        need(form_of(ty, m), flat_of(ty, m).len()) + needed(params, i + 1, m)
    }
}

proof fn lemma_needed(params: Seq<IrFunctionParam>, i: int, m: IrModule)
    requires
        forall|k: int|
            0 <= k < params.len() ==> #[trigger] need(
                form_of(param_type(params, k), m),
                flat_of(param_type(params, k), m).len(),
            ) >= 0,
    ensures
        needed(params, i, m) >= 0,
    decreases params.len() - i,
{
    if 0 <= i < params.len() {
        lemma_needed(params, i + 1, m);
        let ty = param_type(params, i);
        assert(need(form_of(ty, m), flat_of(ty, m).len()) >= 0);
    }
}

spec fn builds_tree(plans: Seq<CabiFieldValue>, i: int, alloc: u32, rest: Tree) -> Tree
    decreases plans.len() - i,
{
    if i < 0 || i >= plans.len() {
        rest
    } else {
        let behind = builds_tree(plans, i + 1, alloc, rest);
        match plans[i] {
            CabiFieldValue::DirectSlot { .. } => behind,
            CabiFieldValue::MaterialisedScratch { scratch, ops } => tree(
                *ops,
                scratch,
                alloc,
                behind,
            ),
        }
    }
}

proof fn lemma_builds_written(
    plans: Seq<CabiFieldValue>,
    i: int,
    alloc: u32,
    rest: Tree,
    s: SinkView,
    cx: Cx,
)
    ensures
        crate::execution::written(builds_tree(plans, i, alloc, rest), s, cx)
            == crate::execution::written(
            rest,
            crate::module_lowering::wrappers::build_code(plans, i, alloc, s),
            cx,
        ),
        crate::execution::pieces(builds_tree(plans, i, alloc, rest)) == crate::execution::pieces(
            rest,
        ),
    decreases plans.len() - i,
{
    if 0 <= i < plans.len() {
        match plans[i] {
            CabiFieldValue::DirectSlot { .. } => {
                lemma_builds_written(plans, i + 1, alloc, rest, s, cx);
            },
            CabiFieldValue::MaterialisedScratch { scratch, ops } => {
                let behind = builds_tree(plans, i + 1, alloc, rest);
                lemma_written(*ops, scratch, alloc, behind, s, cx);
                let s1 = crate::module_lowering::cabi::materialised(*ops, scratch, alloc, s);
                lemma_builds_written(plans, i + 1, alloc, rest, s1, cx);
            },
        }
    }
}

/// The local that holds a planned parameter.
spec fn local_of(plan: CabiFieldValue) -> u32 {
    match plan {
        CabiFieldValue::DirectSlot { slot, .. } => slot,
        CabiFieldValue::MaterialisedScratch { scratch, .. } => scratch,
    }
}

spec fn push_tree(plans: Seq<CabiFieldValue>, i: int, rest: Tree) -> Tree
    decreases plans.len() - i,
{
    if i < 0 || i >= plans.len() {
        rest
    } else {
        Tree::op(Instr::LocalGet(local_of(plans[i])), push_tree(plans, i + 1, rest))
    }
}

proof fn lemma_push_written(
    plans: Seq<CabiFieldValue>,
    i: int,
    rest: Tree,
    s: SinkView,
    cx: Cx,
)
    ensures
        crate::execution::written(push_tree(plans, i, rest), s, cx) == crate::execution::written(
            rest,
            crate::module_lowering::wrappers::push_code(plans, i, s),
            cx,
        ),
        crate::execution::pieces(push_tree(plans, i, rest)) == crate::execution::pieces(rest),
    decreases plans.len() - i,
{
    if 0 <= i < plans.len() {
        lemma_push_written(plans, i + 1, rest, s.emit(Instr::LocalGet(local_of(plans[i]))), cx);
    }
}

proof fn lemma_push(
    plans: Seq<CabiFieldValue>,
    i: int,
    rest: Tree,
    st: State,
    env: Env,
    fuel: nat,
    values: Seq<Value>,
)
    requires
        0 <= i <= plans.len(),
        values.len() == plans.len(),
        forall|k: int|
            0 <= k < plans.len() ==> local_of(#[trigger] plans[k]) < st.locals.len() && values[k]
                == st.locals[local_of(plans[k]) as int],
    ensures
        crate::execution::exec(
            push_tree(plans, i, rest),
            with_operands(st, values.take(i)),
            env,
            fuel,
        ) == crate::execution::exec(rest, with_operands(st, values), env, fuel),
    decreases plans.len() - i,
{
    if i < plans.len() {
        lemma_push(plans, i + 1, rest, st, env, fuel, values);
        assert(local_of(plans[i]) < st.locals.len());
        assert(values.take(i + 1).drop_last() =~= values.take(i));
        assert(values.take(i + 1).last() == values[i]);
        assert(with_operands(st, values.take(i)).push(values[i]) == with_operands(
            st,
            values.take(i + 1),
        ));
    } else {
        assert(values.take(i) =~= values);
    }
}

/// Plans that stand are not changed by those behind them.
proof fn lemma_plans_begin(
    params: Seq<IrFunctionParam>,
    i: int,
    function: String,
    spans: Seq<Span>,
    base: u32,
    m: IrModule,
    scratch: u32,
    out: Seq<CabiFieldValue>,
)
    requires
        0 <= i <= params.len(),
        out.len() == i,
    ensures
        crate::module_lowering::wrappers::param_plans(
            params,
            i,
            function,
            spans,
            base,
            m,
            scratch,
            out,
        ) matches Ok((plans, all)) ==> {
            &&& plans.len() == params.len()
            &&& forall|k: int| 0 <= k < i ==> #[trigger] plans[k] == out[k]
        },
    decreases params.len() - i,
{
    if i < params.len() && crate::module_lowering::wrappers::param_plans(
        params,
        i,
        function,
        spans,
        base,
        m,
        scratch,
        out,
    ) is Ok {
        let ty = param_type(params, i);
        let (value, c) = crate::module_lowering::cabi::value_plan(
            ty,
            Cursor { slot: spans[i].0, scratch },
            base,
            m,
            crate::module_lowering::nesting::nesting_limit(ty, m) as nat,
        )->Ok_0;
        lemma_plans_begin(
            params,
            i + 1,
            function,
            spans,
            base,
            m,
            c.scratch,
            out.push(value),
        );
        let plans = (crate::module_lowering::wrappers::param_plans(
            params,
            i,
            function,
            spans,
            base,
            m,
            scratch,
            out,
        )->Ok_0).0;
        assert forall|k: int| 0 <= k < i implies #[trigger] plans[k] == out[k] by {
            assert(plans[k] == out.push(value)[k]);
        }
    }
}

/// The span of each parameter: behind those of the ones before it, with the
/// flat types of its own type.
spec fn spanned(
    params: Seq<IrFunctionParam>,
    k: int,
    m: IrModule,
    spans: Seq<Span>,
    types: Seq<ValType>,
) -> bool {
    let ty = param_type(params, k);
    &&& spans[k].0 == flat_before(params, k, m)
    &&& crate::module_lowering::cabi::flat(
        ty,
        m,
        crate::module_lowering::nesting::nesting_limit(ty, m) as nat,
    ) is Ok
    &&& spans[k].0 + flat_of(ty, m).len() <= types.len()
    &&& types.subrange(spans[k].0 as int, spans[k].0 + flat_of(ty, m).len()) == flat_of(ty, m)
}

proof fn lemma_spans(
    params: Seq<IrFunctionParam>,
    i: int,
    function: String,
    m: IrModule,
    types: Seq<ValType>,
    spans: Seq<Span>,
)
    requires
        0 <= i <= params.len(),
        spans.len() == i,
        types.len() == flat_before(params, i, m),
        forall|k: int| 0 <= k < i ==> #[trigger] spanned(params, k, m, spans, types),
    ensures
        crate::module_lowering::wrappers::flat_params(
            params,
            i,
            function,
            m,
            types,
            spans,
        ) matches Ok((all_types, all_spans)) ==> {
            &&& all_spans.len() == params.len()
            &&& forall|k: int|
                0 <= k < params.len() ==> #[trigger] spanned(params, k, m, all_spans, all_types)
        },
    decreases params.len() - i,
{
    if i < params.len() && crate::module_lowering::wrappers::flat_params(
        params,
        i,
        function,
        m,
        types,
        spans,
    ) is Ok {
        let ty = param_type(params, i);
        let s = flat_of(ty, m);
        let more = spans.push((types.len() as u32, s.len() as u32));
        assert forall|k: int| 0 <= k < i + 1 implies #[trigger] spanned(
            params,
            k,
            m,
            more,
            types + s,
        ) by {
            let other = flat_of(param_type(params, k), m);
            if k < i {
                assert(spanned(params, k, m, spans, types));
                assert((types + s).subrange(more[k].0 as int, more[k].0 + other.len())
                    =~= types.subrange(spans[k].0 as int, spans[k].0 + other.len()));
            } else {
                assert((types + s).subrange(more[k].0 as int, more[k].0 + other.len()) =~= s);
            }
        }
        lemma_spans(params, i + 1, function, m, types + s, more);
    }
}

/// The parameters from number `i` on, when they have been built.
#[verifier::rlimit(40)]
proof fn lemma_builds(
    params: Seq<IrFunctionParam>,
    i: int,
    function: String,
    spans: Seq<Span>,
    base: u32,
    m: IrModule,
    scratch: u32,
    out: Seq<CabiFieldValue>,
    types: Seq<ValType>,
    alloc: u32,
    rest: Tree,
    st: State,
    env: Env,
    fuel: nat,
    args: Seq<Value>,
) -> (end: State)
    requires
        0 <= i <= params.len(),
        out.len() == i,
        crate::module_lowering::wrappers::param_plans(
            params,
            i,
            function,
            spans,
            base,
            m,
            scratch,
            out,
        ) is Ok,
        crate::execution::allocates(env, alloc),
        args.len() == base,
        base == types.len(),
        begins_with(st.locals, args),
        forall|k: int| 0 <= k < types.len() ==> (#[trigger] args[k]).ty() == types[k],
        spans.len() == params.len(),
        forall|k: int| 0 <= k < params.len() ==> #[trigger] spanned(params, k, m, spans, types),
        forall|k: int| 0 <= k < params.len() ==> passable(#[trigger] param_type(params, k), m),
        forall|k: int|
            0 <= k < params.len() ==> #[trigger] need(
                form_of(param_type(params, k), m),
                flat_of(param_type(params, k), m).len(),
            ) >= 0,
        st.locals.len() >= base + (crate::module_lowering::wrappers::param_plans(
            params,
            i,
            function,
            spans,
            base,
            m,
            scratch,
            out,
        )->Ok_0).1,
        st.heap + needed(params, i, m) <= st.mem.len(),
        st.heap + needed(params, i, m) <= u32::MAX,
    ensures
        ({
            let (plans, all) = crate::module_lowering::wrappers::param_plans(
                params,
                i,
                function,
                spans,
                base,
                m,
                scratch,
                out,
            )->Ok_0;
            &&& crate::execution::exec(builds_tree(plans, i, alloc, rest), st, env, fuel)
                == crate::execution::exec(rest, end, env, fuel)
            &&& end.stack == st.stack
            &&& end.locals.len() == st.locals.len()
            &&& forall|k: int|
                0 <= k < base + scratch && k < st.locals.len() ==> #[trigger] end.locals[k]
                    == st.locals[k]
            &&& crate::execution::keeps_heap(st, end)
            &&& end.heap <= st.heap + needed(params, i, m)
            &&& scratch <= all
            &&& plans.len() == params.len()
            &&& forall|k: int|
                i <= k < params.len() ==> local_of(#[trigger] plans[k]) < end.locals.len()
            &&& forall|k: int|
                i <= k < params.len() ==> represents(
                    form_of(param_type(params, k), m),
                    args,
                    flat_before(params, k, m) as int,
                    flat_of(param_type(params, k), m).len(),
                    end.locals[local_of(#[trigger] plans[k]) as int],
                    end.mem,
                    st.heap as int,
                    end.heap as int,
                )
        }),
    decreases params.len() - i,
{
    lemma_plans_begin(params, i, function, spans, base, m, scratch, out);
    if i < params.len() {
        lemma_needed(params, i + 1, m);
        let ty = param_type(params, i);
        let form = form_of(ty, m);
        let n = flat_of(ty, m).len();
        let c = Cursor { slot: spans[i].0, scratch };
        let (value, c1) = crate::module_lowering::cabi::value_plan(
            ty,
            c,
            base,
            m,
            crate::module_lowering::nesting::nesting_limit(ty, m) as nat,
        )->Ok_0;
        assert(spanned(params, i, m, spans, types));
        assert(passable(ty, m));
        assert(need(form, n) >= 0);
        assert forall|j: int| 0 <= j < n implies (#[trigger] args[c.slot + j]).ty() == flat_of(
            ty,
            m,
        )[j] by {
            assert(types.subrange(c.slot as int, c.slot + n)[j] == types[c.slot + j]);
        }
        lemma_planned(ty, c, base, m, args);
        let more = out.push(value);
        lemma_plans_begin(params, i + 1, function, spans, base, m, c1.scratch, more);
        let (plans, all) = crate::module_lowering::wrappers::param_plans(
            params,
            i,
            function,
            spans,
            base,
            m,
            scratch,
            out,
        )->Ok_0;
        assert(plans[i] == more[i]);
        let behind = builds_tree(plans, i + 1, alloc, rest);
        lemma_total(params, i + 1, function, spans, base, m, c1.scratch, more);
        match value {
            CabiFieldValue::DirectSlot { slot, valtype } => {
                let end = lemma_builds(
                    params,
                    i + 1,
                    function,
                    spans,
                    base,
                    m,
                    c1.scratch,
                    more,
                    types,
                    alloc,
                    rest,
                    st,
                    env,
                    fuel,
                    args,
                );
                assert(end.locals[slot as int] == args[slot as int]);
                end
            },
            CabiFieldValue::MaterialisedScratch { scratch: own, ops } => {
                let s1 = lemma_build(
                    *ops,
                    own,
                    own as int,
                    alloc,
                    behind,
                    st,
                    env,
                    fuel,
                    args,
                );
                lemma_shaped(*ops, own, own as int, args);
                let end = lemma_builds(
                    params,
                    i + 1,
                    function,
                    spans,
                    base,
                    m,
                    c1.scratch,
                    more,
                    types,
                    alloc,
                    rest,
                    s1,
                    env,
                    fuel,
                    args,
                );
                let p = s1.locals[own as int]->I32_0;
                assert(end.locals[own as int] == Value::I32(p));
                lemma_kept(
                    *ops,
                    args,
                    s1.mem,
                    end.mem,
                    st.heap as int,
                    st.heap as int,
                    s1.heap as int,
                    end.heap as int,
                    p as int,
                );
                assert forall|k: int| i <= k < params.len() implies represents(
                    form_of(param_type(params, k), m),
                    args,
                    flat_before(params, k, m) as int,
                    flat_of(param_type(params, k), m).len(),
                    end.locals[local_of(#[trigger] plans[k]) as int],
                    end.mem,
                    st.heap as int,
                    end.heap as int,
                ) by {
                }
                end
            },
        }
    } else {
        st
    }
}

/// Planning takes scratch locals and gives none back.
proof fn lemma_total(
    params: Seq<IrFunctionParam>,
    i: int,
    function: String,
    spans: Seq<Span>,
    base: u32,
    m: IrModule,
    scratch: u32,
    out: Seq<CabiFieldValue>,
)
    requires
        0 <= i <= params.len(),
        out.len() == i,
    ensures
        crate::module_lowering::wrappers::param_plans(
            params,
            i,
            function,
            spans,
            base,
            m,
            scratch,
            out,
        ) matches Ok((plans, all)) ==> scratch <= all,
    decreases params.len() - i,
{
    if i < params.len() && crate::module_lowering::wrappers::param_plans(
        params,
        i,
        function,
        spans,
        base,
        m,
        scratch,
        out,
    ) is Ok {
        let ty = param_type(params, i);
        let depth = crate::module_lowering::nesting::nesting_limit(ty, m) as nat;
        let c = Cursor { slot: spans[i].0, scratch };
        crate::module_lowering::cabi::law_planning_takes_every_slot(ty, c, base, m, depth);
        let (value, c1) = crate::module_lowering::cabi::value_plan(ty, c, base, m, depth)->Ok_0;
        lemma_total(params, i + 1, function, spans, base, m, c1.scratch, out.push(value));
    }
}

/// How many locals a body has besides its parameters.
pub open spec fn own_locals(body: BodyView) -> nat {
    if body.locals.len() == 0 {
        0
    } else {
        body.locals[0].0 as nat
    }
}

/// The wrapper of a function calls the function with as many operands as it
/// has parameters, and each of them is what the host's arguments say: the
/// argument itself, or the address of a text, a list, a record or a cell that
/// holds them. A record has at the place of each field the argument for that
/// field. What lay in memory is as it was.
pub proof fn law_wrappers_pass_what_the_host_gave(
    f: IrFunction,
    inner: u32,
    alloc: u32,
    m: IrModule,
    st: State,
    env: Env,
    fuel: nat,
    cx: Cx,
) -> (r: (Seq<Value>, State))
    requires
        crate::module_lowering::wrappers::wrapper_of(f, inner, alloc, m) is Ok,
        crate::execution::allocates(env, alloc),
        forall|k: int| 0 <= k < f.params@.len() ==> passable(#[trigger] param_type(f.params@, k), m),
        ({
            let (sig, body) = crate::module_lowering::wrappers::wrapper_of(
                f,
                inner,
                alloc,
                m,
            )->Ok_0;
            &&& st.locals.len() == sig.params.len() + own_locals(body)
            &&& forall|k: int|
                0 <= k < sig.params.len() ==> (#[trigger] st.locals[k]).ty() == sig.params[k]
        }),
        st.heap + needed(f.params@, 0, m) <= st.mem.len(),
        st.heap + needed(f.params@, 0, m) <= u32::MAX,
    ensures
        ({
            let (sig, body) = crate::module_lowering::wrappers::wrapper_of(
                f,
                inner,
                alloc,
                m,
            )->Ok_0;
            let (values, end) = r;
            &&& values.len() == f.params@.len()
            &&& forall|k: int|
                0 <= k < values.len() ==> represents(
                    form_of(param_type(f.params@, k), m),
                    st.locals.take(sig.params.len() as int),
                    flat_before(f.params@, k, m) as int,
                    flat_of(param_type(f.params@, k), m).len(),
                    #[trigger] values[k],
                    end.mem,
                    st.heap as int,
                    end.heap as int,
                )
            &&& end.stack == st.stack
            &&& crate::execution::keeps_heap(st, end)
            &&& exists|sink: SinkView|
                body.code == sink.code.push(Instr::End) && #[trigger] crate::execution::behaves(
                    crate::module::nothing(),
                    sink,
                    cx,
                    Seq::empty(),
                    st,
                    env,
                    fuel,
                    crate::execution::called(env, inner, with_operands(end, values)),
                )
        }),
{
    let params = f.params@;
    let no_types: Seq<ValType> = Seq::empty();
    let no_spans: Seq<Span> = Seq::empty();
    let none: Seq<CabiFieldValue> = Seq::empty();
    let (sig, body) = crate::module_lowering::wrappers::wrapper_of(f, inner, alloc, m)->Ok_0;
    lemma_spans(params, 0, f.name, m, no_types, no_spans);
    let (types, spans) = crate::module_lowering::wrappers::flat_params(
        params,
        0,
        f.name,
        m,
        no_types,
        no_spans,
    )->Ok_0;
    let base = types.len() as u32;
    let (plans, all) = crate::module_lowering::wrappers::param_plans(
        params,
        0,
        f.name,
        spans,
        base,
        m,
        0,
        none,
    )->Ok_0;
    let args = st.locals.take(base as int);
    assert forall|k: int| 0 <= k < params.len() implies #[trigger] need(
        form_of(param_type(params, k), m),
        flat_of(param_type(params, k), m).len(),
    ) >= 0 by {
        assert(spanned(params, k, m, spans, types));
        lemma_need(param_type(params, k), m);
    }
    let calling = Tree::op(Instr::Call(inner), Tree::Done);
    let pushing = push_tree(plans, 0, calling);
    let end = lemma_builds(
        params,
        0,
        f.name,
        spans,
        base,
        m,
        0,
        none,
        types,
        alloc,
        pushing,
        st,
        env,
        fuel,
        args,
    );
    let values = Seq::new(plans.len(), |k: int| end.locals[local_of(plans[k]) as int]);
    lemma_push(plans, 0, calling, end, env, fuel, values);
    assert(values.take(0) =~= Seq::empty());
    assert(with_operands(end, values.take(0)) == end);
    let t = builds_tree(plans, 0, alloc, pushing);
    let s = crate::module::nothing();
    lemma_builds_written(plans, 0, alloc, pushing, s, cx);
    let s1 = crate::module_lowering::wrappers::build_code(plans, 0, alloc, s);
    lemma_push_written(plans, 0, calling, s1, cx);
    let sink = crate::module_lowering::wrappers::push_code(plans, 0, s1).emit(Instr::Call(inner));
    crate::execution::lemma_behaves(t, s, cx, Seq::empty(), st, env, fuel);
    assert(crate::execution::written(t, s, cx) == sink);
    assert forall|k: int| 0 <= k < values.len() implies represents(
        form_of(param_type(params, k), m),
        args,
        flat_before(params, k, m) as int,
        flat_of(param_type(params, k), m).len(),
        #[trigger] values[k],
        end.mem,
        st.heap as int,
        end.heap as int,
    ) by {
        assert(local_of(plans[k]) < end.locals.len());
    }
    (values, end)
}

/// Memory that a value takes is not negative.
proof fn lemma_need(ty: ResolvedType, m: IrModule)
    requires
        crate::module_lowering::cabi::flat(
            ty,
            m,
            crate::module_lowering::nesting::nesting_limit(ty, m) as nat,
        ) is Ok,
    ensures
        need(form_of(ty, m), flat_of(ty, m).len()) >= 0,
{
}

// ── imports ──────────────────────────────────────────────────────────

/// Whether values of a type are texts or lists.
pub open spec fn is_text_or_list(ty: ResolvedType, m: IrModule) -> bool {
    crate::module_lowering::signature::is_text(ty) || crate::compound::shape_of(ty, m) is Array
}

/// What a parameter passes to the host: a text or a list its pointer and its
/// length, any other value itself.
pub open spec fn passed(ty: ResolvedType, m: IrModule, v: Value, mem: Seq<u8>) -> Seq<Value> {
    if is_text_or_list(ty, m) {
        words_of(v, mem)
    } else {
        seq![v]
    }
}

/// The pointer and the length in a header.
pub open spec fn words_of(v: Value, mem: Seq<u8>) -> Seq<Value> {
    let p = v->I32_0;
    seq![
        Value::I32(crate::execution::read(mem, p + STRING_PTR_OFFSET, 4) as u32),
        Value::I32(crate::execution::read(mem, p + STRING_LEN_OFFSET, 4) as u32),
    ]
}

/// What the parameters pass to the host, from parameter `i` on.
pub open spec fn all_passed(
    params: Seq<IrFunctionParam>,
    i: int,
    m: IrModule,
    locals: Seq<Value>,
    mem: Seq<u8>,
) -> Seq<Value>
    decreases params.len() - i,
{
    if i < 0 || i >= params.len() {
        Seq::empty()
    } else {
        passed(param_type(params, i), m, locals[i], mem) + all_passed(
            params,
            i + 1,
            m,
            locals,
            mem,
        )
    }
}

spec fn word_tree(local: u32, offset: u32, rest: Tree) -> Tree {
    Tree::op2(
        Instr::LocalGet(local),
        Instr::Load(LoadOp::I32, crate::module::word_at(offset)),
        rest,
    )
}

spec fn forward_tree(params: Seq<IrFunctionParam>, i: int, m: IrModule, rest: Tree) -> Tree
    decreases params.len() - i,
{
    if i < 0 || i >= params.len() {
        rest
    } else {
        let behind = forward_tree(params, i + 1, m, rest);
        if crate::module_lowering::signature::is_two_words(param_type(params, i), m) {
            word_tree(
                i as u32,
                STRING_PTR_OFFSET,
                word_tree(i as u32, STRING_LEN_OFFSET, behind),
            )
        } else {
            Tree::op(Instr::LocalGet(i as u32), behind)
        }
    }
}

proof fn lemma_forward_written(
    params: Seq<IrFunctionParam>,
    i: int,
    m: IrModule,
    rest: Tree,
    s: SinkView,
    cx: Cx,
)
    requires
        0 <= i <= params.len(),
        forall|k: int| 0 <= k < params.len() ==> (#[trigger] params[k]).ty is Some,
    ensures
        crate::execution::written(forward_tree(params, i, m, rest), s, cx)
            == crate::execution::written(
            rest,
            crate::module_lowering::wrappers::forward_code(params, i, m, s),
            cx,
        ),
        crate::execution::pieces(forward_tree(params, i, m, rest)) == crate::execution::pieces(
            rest,
        ),
    decreases params.len() - i,
{
    if i < params.len() {
        let ty = param_type(params, i);
        assert(params[i].ty == Some(ty));
        let s1 = if crate::module_lowering::signature::is_two_words(ty, m) {
            crate::module::push_word(
                i as u32,
                STRING_LEN_OFFSET,
                crate::module::push_word(i as u32, STRING_PTR_OFFSET, s),
            )
        } else {
            s.emit(Instr::LocalGet(i as u32))
        };
        lemma_forward_written(params, i + 1, m, rest, s1, cx);
    }
}

proof fn lemma_stacked(st: State, values: Seq<Value>, v: Value)
    ensures
        with_operands(st, values).push(v) == with_operands(st, values.push(v)),
{
    assert(values.push(v).drop_last() =~= values);
}

proof fn lemma_word_pushed(
    local: u32,
    offset: u32,
    rest: Tree,
    st: State,
    env: Env,
    fuel: nat,
    values: Seq<Value>,
    p: u32,
)
    requires
        local < st.locals.len(),
        st.locals[local as int] == Value::I32(p),
        p + offset + 4 <= st.mem.len(),
    ensures
        crate::execution::exec(
            word_tree(local, offset, rest),
            with_operands(st, values),
            env,
            fuel,
        ) == crate::execution::exec(
            rest,
            with_operands(
                st,
                values.push(
                    Value::I32(crate::execution::read(st.mem, p + offset, 4) as u32),
                ),
            ),
            env,
            fuel,
        ),
{
    let x = with_operands(st, values);
    let v = Value::I32(crate::execution::read(st.mem, p + offset, 4) as u32);
    lemma_stacked(st, values, v);
    let load = Instr::Load(LoadOp::I32, crate::module::word_at(offset));
    assert(x.push(Value::I32(p)).pop() == Some((Value::I32(p), x)));
    assert(crate::execution::step(load, x.push(Value::I32(p)), env) == Some(x.push(v)));
}

/// One parameter is handed over.
proof fn lemma_forward_one(
    params: Seq<IrFunctionParam>,
    i: int,
    m: IrModule,
    rest: Tree,
    st: State,
    env: Env,
    fuel: nat,
    values: Seq<Value>,
)
    requires
        0 <= i < params.len() <= u32::MAX,
        i < st.locals.len(),
        is_text_or_list(param_type(params, i), m) ==> st.locals[i] is I32 && st.locals[i]->I32_0 + 8
            <= st.mem.len(),
    ensures
        crate::execution::exec(
            forward_tree(params, i, m, rest),
            with_operands(st, values),
            env,
            fuel,
        ) == crate::execution::exec(
            forward_tree(params, i + 1, m, rest),
            with_operands(st, values + passed(param_type(params, i), m, st.locals[i], st.mem)),
            env,
            fuel,
        ),
{
    let ty = param_type(params, i);
    let v = st.locals[i];
    let own = passed(ty, m, v, st.mem);
    let behind = forward_tree(params, i + 1, m, rest);
    if is_text_or_list(ty, m) {
        let p = v->I32_0;
        let second = word_tree(i as u32, STRING_LEN_OFFSET, behind);
        lemma_word_pushed(i as u32, STRING_PTR_OFFSET, second, st, env, fuel, values, p);
        let more = values.push(own[0]);
        lemma_word_pushed(i as u32, STRING_LEN_OFFSET, behind, st, env, fuel, more, p);
        assert(more.push(own[1]) =~= values + own);
    } else {
        lemma_stacked(st, values, v);
        assert(values.push(v) =~= values + own);
    }
}

proof fn lemma_forward(
    params: Seq<IrFunctionParam>,
    i: int,
    m: IrModule,
    rest: Tree,
    st: State,
    env: Env,
    fuel: nat,
    values: Seq<Value>,
)
    requires
        0 <= i <= params.len(),
        params.len() <= st.locals.len(),
        params.len() <= u32::MAX,
        forall|k: int|
            0 <= k < params.len() && is_text_or_list(param_type(params, k), m) ==> (
            #[trigger] st.locals[k]) is I32 && st.locals[k]->I32_0 + 8 <= st.mem.len(),
    ensures
        crate::execution::exec(
            forward_tree(params, i, m, rest),
            with_operands(st, values),
            env,
            fuel,
        ) == crate::execution::exec(
            rest,
            with_operands(st, values + all_passed(params, i, m, st.locals, st.mem)),
            env,
            fuel,
        ),
    decreases params.len() - i,
{
    let all = all_passed(params, i, m, st.locals, st.mem);
    if i < params.len() {
        let own = passed(param_type(params, i), m, st.locals[i], st.mem);
        lemma_forward_one(params, i, m, rest, st, env, fuel, values);
        lemma_forward(params, i + 1, m, rest, st, env, fuel, values + own);
        let others = all_passed(params, i + 1, m, st.locals, st.mem);
        assert(all == own + others);
        assert(values + own + others =~= values + all);
    } else {
        assert(values + all =~= values);
    }
}

/// The code with which an import is called hands over every parameter, in
/// order: a text or a list as pointer and length, any other value as it is.
pub proof fn law_imports_are_given_every_parameter(
    f: IrFunction,
    raw: u32,
    b: BuilderView,
    m: IrModule,
    expected: u32,
    st: State,
    env: Env,
    fuel: nat,
    cx: Cx,
) -> (r: (SigView, SinkView))
    requires
        crate::module_lowering::wrappers::with_import_trampoline(f, raw, b, m, expected) is Ok,
        forall|k: int| 0 <= k < f.params@.len() ==> (#[trigger] f.params@[k]).ty is Some,
        f.params@.len() <= st.locals.len(),
        f.params@.len() <= u32::MAX,
        forall|k: int|
            0 <= k < f.params@.len() && is_text_or_list(param_type(f.params@, k), m) ==> (
            #[trigger] st.locals[k]) is I32 && st.locals[k]->I32_0 + 8 <= st.mem.len(),
    ensures
        ({
            let (sig, sink) = r;
            &&& crate::module_lowering::wrappers::with_import_trampoline(
                f,
                raw,
                b,
                m,
                expected,
            )->Ok_0.0 == b.with_function(
                sig,
                crate::module::word_body(0, sink.emit(Instr::End)),
            )
            &&& crate::execution::behaves(
                crate::module::nothing(),
                sink,
                cx,
                Seq::empty(),
                st,
                env,
                fuel,
                crate::execution::called(
                    env,
                    raw,
                    with_operands(st, all_passed(f.params@, 0, m, st.locals, st.mem)),
                ),
            )
        }),
{
    let params = f.params@;
    let locals = crate::module_lowering::signature::internal_params(f, None)->Ok_0;
    let results = crate::module_lowering::signature::results_of(f)->Ok_0;
    let sig = SigView {
        params: crate::module_lowering::signature::local_types(locals),
        results,
    };
    let s = crate::module::nothing();
    let calling = Tree::op(Instr::Call(raw), Tree::Done);
    let t = forward_tree(params, 0, m, calling);
    lemma_forward_written(params, 0, m, calling, s, cx);
    let none: Seq<Value> = Seq::empty();
    lemma_forward(params, 0, m, calling, st, env, fuel, none);
    let all = all_passed(params, 0, m, st.locals, st.mem);
    assert(none + all =~= all);
    assert(with_operands(st, none) == st);
    let sink = crate::module_lowering::wrappers::forward_code(params, 0, m, s).emit(
        Instr::Call(raw),
    );
    crate::execution::lemma_behaves(t, s, cx, Seq::empty(), st, env, fuel);
    assert(crate::execution::written(t, s, cx) == sink);
    (sig, sink)
}

spec fn rest_tree(i: int, n: nat, rest: Tree) -> Tree
    decreases n - i,
{
    if i >= n {
        rest
    } else {
        Tree::op(Instr::LocalGet(i as u32), rest_tree(i + 1, n, rest))
    }
}

proof fn lemma_rest(
    i: int,
    n: nat,
    rest: Tree,
    s: SinkView,
    cx: Cx,
    st: State,
    env: Env,
    fuel: nat,
    values: Seq<Value>,
)
    requires
        1 <= i,
        i <= n || i == 1,
        n <= st.locals.len(),
        n <= u32::MAX,
        st.locals.len() >= 1,
    ensures
        crate::execution::written(rest_tree(i, n, rest), s, cx) == crate::execution::written(
            rest,
            crate::module_lowering::wrappers::locals_code(i, n, s),
            cx,
        ),
        crate::execution::pieces(rest_tree(i, n, rest)) == crate::execution::pieces(rest),
        i <= n ==> crate::execution::exec(
            rest_tree(i, n, rest),
            with_operands(st, values),
            env,
            fuel,
        ) == crate::execution::exec(
            rest,
            with_operands(st, values + st.locals.subrange(i, n as int)),
            env,
            fuel,
        ),
    decreases n - i,
{
    if i < n {
        let v = st.locals[i];
        lemma_stacked(st, values, v);
        lemma_rest(
            i + 1,
            n,
            rest,
            s.emit(Instr::LocalGet(i as u32)),
            cx,
            st,
            env,
            fuel,
            values.push(v),
        );
        assert(values.push(v) + st.locals.subrange(i + 1, n as int) =~= values
            + st.locals.subrange(i, n as int));
    } else if i == n {
        assert(values + st.locals.subrange(i, n as int) =~= values);
    }
}

/// The code that calls a host method without its receiver hands over all other
/// parameters, in order.
pub proof fn law_receivers_are_left_out(
    n: nat,
    raw: u32,
    st: State,
    env: Env,
    fuel: nat,
    cx: Cx,
) -> (sink: SinkView)
    requires
        1 <= n <= st.locals.len(),
        n <= u32::MAX,
    ensures
        crate::module_lowering::wrappers::receiver_free_body(n, raw).code == sink.emit(
            Instr::End,
        ).code,
        crate::execution::behaves(
            crate::module::nothing(),
            sink,
            cx,
            Seq::empty(),
            st,
            env,
            fuel,
            crate::execution::called(
                env,
                raw,
                with_operands(st, st.locals.subrange(1, n as int)),
            ),
        ),
{
    let s = crate::module::nothing();
    let calling = Tree::op(Instr::Call(raw), Tree::Done);
    let t = rest_tree(1, n, calling);
    let none: Seq<Value> = Seq::empty();
    lemma_rest(1, n, calling, s, cx, st, env, fuel, none);
    assert(none + st.locals.subrange(1, n as int) =~= st.locals.subrange(1, n as int));
    assert(with_operands(st, none) == st);
    let sink = crate::module_lowering::wrappers::locals_code(1, n, s).emit(Instr::Call(raw));
    crate::execution::lemma_behaves(t, s, cx, Seq::empty(), st, env, fuel);
    assert(crate::execution::written(t, s, cx) == sink);
    sink
}

} // verus!
