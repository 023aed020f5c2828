//! Laws: what is stored in a field is read back from it.

use vstd::prelude::*;

use crate::instr::{Instr, LoadOp, StoreOp};
use crate::ir::{IrEnum, IrField, IrStruct, PrimitiveType, ResolvedType};
use crate::layout::{ArrayLayout, FieldLayout, LayoutOwner};

verus! {

// ── bytes ────────────────────────────────────────────────────────────

/// The first number that `n` bytes cannot hold.
pub open spec fn byte_limit(n: nat) -> nat
    decreases n,
{
    if n == 0 {
        1
    } else {
        256 * byte_limit((n - 1) as nat)
    }
}

/// The `n` low bytes of `v`, least significant first.
pub open spec fn low_bytes(v: nat, n: nat) -> Seq<u8>
    decreases n,
{
    if n == 0 {
        Seq::empty()
    } else {
        seq![(v % 256) as u8] + low_bytes(v / 256, (n - 1) as nat)
    }
}

/// The number that little-endian bytes stand for.
pub open spec fn byte_number(s: Seq<u8>) -> nat
    decreases s.len(),
{
    if s.len() == 0 {
        0
    } else {
        s[0] as nat + 256 * byte_number(s.subrange(1, s.len() as int))
    }
}

/// The low bytes of a number that they hold stand for it.
pub proof fn lemma_byte_round_trip(v: nat, n: nat)
    requires
        v < byte_limit(n),
    ensures
        low_bytes(v, n).len() == n,
        byte_number(low_bytes(v, n)) == v,
    decreases n,
{
    if n > 0 {
        lemma_byte_round_trip(v / 256, (n - 1) as nat);
        let s = low_bytes(v, n);
        assert(s.subrange(1, s.len() as int) =~= low_bytes(v / 256, (n - 1) as nat));
    }
}

/// As many bytes as asked for.
pub proof fn lemma_byte_count(v: nat, n: nat)
    ensures
        low_bytes(v, n).len() == n,
    decreases n,
{
    if n > 0 {
        lemma_byte_count(v / 256, (n - 1) as nat);
    }
}

// ── loads and stores ─────────────────────────────────────────────────

/// Number of bytes that a store writes.
pub open spec fn store_width(o: StoreOp) -> nat {
    match o {
        StoreOp::I32Byte => 1,
        StoreOp::I32 => 4,
        StoreOp::I64 => 8,
        StoreOp::F32 => 4,
        StoreOp::F64 => 8,
    }
}

/// Number of bytes that a load reads.
pub open spec fn load_width(o: LoadOp) -> nat {
    match o {
        LoadOp::I32Byte => 1,
        LoadOp::I32 => 4,
        LoadOp::I64 => 8,
        LoadOp::F32 => 4,
        LoadOp::F64 => 8,
    }
}

/// The memory behind a store of the bits `v` through the pointer `base`.
pub open spec fn put(i: Instr, base: u32, v: nat, mem: Seq<u8>) -> Seq<u8> {
    match i {
        Instr::Store(o, arg) => crate::machine::overwritten(
            mem,
            base + arg.offset,
            low_bytes(v, store_width(o)),
        ),
        _ => mem,
    }
}

/// The bits that a load through the pointer `base` gives.
pub open spec fn got(i: Instr, base: u32, mem: Seq<u8>) -> nat {
    match i {
        Instr::Load(o, arg) => byte_number(
            mem.subrange(base + arg.offset, base + arg.offset + load_width(o)),
        ),
        _ => 0,
    }
}

/// Number of bytes of a stored primitive; `None` for one that is not stored.
pub open spec fn stored_width(p: PrimitiveType) -> Option<nat> {
    match p {
        PrimitiveType::Boolean => Some(1),
        PrimitiveType::I32 => Some(4),
        PrimitiveType::I64 => Some(8),
        PrimitiveType::F32 => Some(4),
        PrimitiveType::F64 => Some(8),
        _ => None,
    }
}

/// The load of a primitive field gives back the bits that its store wrote.
pub proof fn law_stored_fields_are_read_back(
    p: PrimitiveType,
    f: FieldLayout,
    base: u32,
    v: nat,
    mem: Seq<u8>,
)
    requires
        stored_width(p) matches Some(n) && v < byte_limit(n) && base + f.offset + n <= mem.len(),
    ensures
        got(
            crate::lower::aggregate::primitive_load(p, f),
            base,
            put(crate::lower::aggregate::primitive_store(p, f), base, v, mem),
        ) == v,
{
    let n = stored_width(p)->0;
    lemma_byte_round_trip(v, n);
    let at = base + f.offset;
    let after = crate::machine::overwritten(mem, at, low_bytes(v, n));
    assert(after.subrange(at, at + n) =~= low_bytes(v, n));
}

/// A store behind or before what a load reads does not change it.
proof fn lemma_apart(
    p: PrimitiveType,
    f: FieldLayout,
    q: PrimitiveType,
    g: FieldLayout,
    base: u32,
    w: nat,
    mem: Seq<u8>,
)
    requires
        stored_width(p) matches Some(n) && stored_width(q) matches Some(k) && (f.offset + n
            <= g.offset || g.offset + k <= f.offset) && base + f.offset + n <= mem.len(),
    ensures
        got(
            crate::lower::aggregate::primitive_load(p, f),
            base,
            put(crate::lower::aggregate::primitive_store(q, g), base, w, mem),
        ) == got(crate::lower::aggregate::primitive_load(p, f), base, mem),
{
    let n = stored_width(p)->0;
    let k = stored_width(q)->0;
    lemma_byte_count(w, k);
    let at = base + f.offset;
    let after = crate::machine::overwritten(mem, base + g.offset, low_bytes(w, k));
    assert(after.subrange(at, at + n) =~= mem.subrange(at, at + n));
}

// ── fields ───────────────────────────────────────────────────────────

/// A place has the size of the primitive that is stored in it.
pub open spec fn fits_exactly(f: IrField, at: FieldLayout) -> bool {
    f.ty is Primitive && stored_width(f.ty->Primitive_0) == Some(at.size as nat)
}

/// Every placed field has the size of what is stored in it.
pub proof fn lemma_sizes(owner: LayoutOwner, fields: Seq<IrField>, k: nat)
    requires
        k <= fields.len(),
        crate::layout::place(owner, fields, k) is Ok,
    ensures
        ({
            let p = crate::layout::place(owner, fields, k)->Ok_0;
            &&& p.fields.len() == k
            &&& forall|i: int|
                0 <= i < k ==> #[trigger] fits_exactly(fields[i], p.fields[i])
        }),
    decreases k,
{
    if k > 0 {
        lemma_sizes(owner, fields, (k - 1) as nat);
        let before = crate::layout::place(owner, fields, (k - 1) as nat)->Ok_0;
        let p = crate::layout::place(owner, fields, k)->Ok_0;
        assert(crate::layout::place_next(owner, before, fields[k - 1])
            == crate::layout::place(owner, fields, k));
        assert(p.fields.len() == k);
        assert forall|i: int| 0 <= i < k implies #[trigger] fits_exactly(fields[i], p.fields[i]) by {
            if i < k - 1 {
                assert(p.fields[i] == before.fields[i]);
                assert(fits_exactly(fields[i], before.fields[i]));
            }
        }
    }
}

/// The primitive in field `i`.
pub open spec fn primitive_in(fields: Seq<IrField>, i: int) -> PrimitiveType {
    fields[i].ty->Primitive_0
}

/// A store to one field of a struct leaves the others as they are.
pub proof fn law_struct_fields_are_apart(
    s: IrStruct,
    i: int,
    j: int,
    base: u32,
    w: nat,
    mem: Seq<u8>,
)
    requires
        crate::layout::struct_plan(s) matches Ok(plan) && base + plan.size <= mem.len(),
        0 <= i < s.fields@.len(),
        0 <= j < s.fields@.len(),
        i != j,
    ensures
        ({
            let at = crate::layout::struct_plan(s)->Ok_0.fields;
            let load = crate::lower::aggregate::primitive_load(primitive_in(s.fields@, i), at[i]);
            let store = crate::lower::aggregate::primitive_store(
                primitive_in(s.fields@, j),
                at[j],
            );
            got(load, base, put(store, base, w, mem)) == got(load, base, mem)
        }),
{
    let owner = LayoutOwner::Struct(s.name);
    lemma_sizes(owner, s.fields@, s.fields@.len());
    crate::layout::law_struct_layout(s);
    let at = crate::layout::struct_plan(s)->Ok_0.fields;
    assert(crate::layout::field_well(
        crate::layout::struct_plan(s)->Ok_0.size as int,
        crate::layout::struct_plan(s)->Ok_0.align as int,
        at[i],
    ));
    assert(fits_exactly(s.fields@[i], at[i]) && fits_exactly(s.fields@[j], at[j]));
    assert(i < j ==> at[i].offset + at[i].size <= at[j].offset);
    assert(j < i ==> at[j].offset + at[j].size <= at[i].offset);
    lemma_apart(
        primitive_in(s.fields@, i),
        at[i],
        primitive_in(s.fields@, j),
        at[j],
        base,
        w,
        mem,
    );
}

// ── variants ─────────────────────────────────────────────────────────

proof fn lemma_payload_at(
    name: String,
    shapes: Seq<crate::layout::VariantShape>,
    n: nat,
    k: int,
)
    requires
        0 <= k < n <= shapes.len(),
        crate::layout::payload_plans(name, shapes, n) is Ok,
    ensures
        crate::layout::payload_plans(name, shapes, n)->Ok_0.len() == n,
        crate::layout::fields_plan(
            crate::layout::variant_owner(name, shapes[k]),
            shapes[k].fields,
        ) == Ok::<_, crate::layout::LayoutError>(
            crate::layout::payload_plans(name, shapes, n)->Ok_0[k],
        ),
    decreases n,
{
    if n > 1 && k < n - 1 {
        lemma_payload_at(name, shapes, (n - 1) as nat, k);
    } else if n > 1 {
        lemma_payload_at(name, shapes, (n - 1) as nat, 0);
    } else {
        assert(crate::layout::payload_plans(name, shapes, 0) is Ok);
    }
}

/// The fields of a variant have the sizes of what is stored in them.
pub proof fn lemma_variant_sizes(e: IrEnum, k: int, i: int)
    requires
        crate::layout::enum_plan(e) is Ok,
        0 <= k < e.variants@.len(),
        0 <= i < e.variants@[k].fields@.len(),
    ensures
        ({
            let fields = e.variants@[k].fields@;
            let at = crate::layout::enum_plan(e)->Ok_0.variants[k].fields;
            &&& at.len() == fields.len()
            &&& fields[i].ty is Primitive
            &&& stored_width(primitive_in(fields, i)) == Some(at[i].size as nat)
        }),
{
    let shapes = crate::layout::variant_shapes(e);
    lemma_payload_at(e.name, shapes, shapes.len(), k);
    let owner = crate::layout::variant_owner(e.name, shapes[k]);
    let fields = e.variants@[k].fields@;
    assert(shapes[k].fields == fields);
    lemma_sizes(owner, fields, fields.len());
    let plan = crate::layout::fields_plan(owner, fields)->Ok_0;
    assert(fits_exactly(fields[i], plan.fields[i]));
}

/// A store to one field of a variant leaves the others as they are.
pub proof fn law_variant_fields_are_apart(
    e: IrEnum,
    k: int,
    i: int,
    j: int,
    base: u32,
    w: nat,
    mem: Seq<u8>,
)
    requires
        crate::layout::enum_plan(e) matches Ok(plan) && base + plan.size <= mem.len(),
        0 <= k < e.variants@.len(),
        0 <= i < e.variants@[k].fields@.len(),
        0 <= j < e.variants@[k].fields@.len(),
        i != j,
    ensures
        ({
            let fields = e.variants@[k].fields@;
            let at = crate::layout::enum_plan(e)->Ok_0.variants[k].fields;
            let load = crate::lower::aggregate::primitive_load(primitive_in(fields, i), at[i]);
            let store = crate::lower::aggregate::primitive_store(primitive_in(fields, j), at[j]);
            got(load, base, put(store, base, w, mem)) == got(load, base, mem)
        }),
{
    let plan = crate::layout::enum_plan(e)->Ok_0;
    let fields = e.variants@[k].fields@;
    crate::layout::law_enum_layout(e);
    lemma_variant_sizes(e, k, i);
    lemma_variant_sizes(e, k, j);
    let at = plan.variants[k].fields;
    assert(crate::layout::fields_well(plan.size as int, plan.align as int, at));
    assert(crate::layout::field_well(plan.size as int, plan.align as int, at[i]));
    assert(i < j ==> at[i].offset + at[i].size <= at[j].offset);
    assert(j < i ==> at[j].offset + at[j].size <= at[i].offset);
    lemma_apart(primitive_in(fields, i), at[i], primitive_in(fields, j), at[j], base, w, mem);
}

/// A store to a field of a variant leaves the tag as it is.
pub proof fn law_payloads_leave_the_tag(
    e: IrEnum,
    k: int,
    j: int,
    base: u32,
    w: nat,
    mem: Seq<u8>,
)
    requires
        crate::layout::enum_plan(e) matches Ok(plan) && base + plan.size <= mem.len(),
        0 <= k < e.variants@.len(),
        0 <= j < e.variants@[k].fields@.len(),
    ensures
        ({
            let plan = crate::layout::enum_plan(e)->Ok_0;
            let store = crate::lower::aggregate::primitive_store(
                primitive_in(e.variants@[k].fields@, j),
                plan.variants[k].fields[j],
            );
            let tag = Instr::Load(
                LoadOp::I32,
                crate::lower::aggregate::mem_arg_at(
                    plan.tag_offset,
                    crate::layout::ENUM_TAG_ALIGN,
                ),
            );
            got(tag, base, put(store, base, w, mem)) == got(tag, base, mem)
        }),
{
    let plan = crate::layout::enum_plan(e)->Ok_0;
    crate::layout::law_enum_layout(e);
    lemma_variant_sizes(e, k, j);
    let at = plan.variants[k].fields;
    assert(crate::layout::field_well(plan.size as int, plan.align as int, at[j]));
    assert(at[j].offset >= plan.payload_offset);
    lemma_apart(
        PrimitiveType::I32,
        FieldLayout { offset: plan.tag_offset, size: 4, align: 4 },
        primitive_in(e.variants@[k].fields@, j),
        at[j],
        base,
        w,
        mem,
    );
}

// ── elements ─────────────────────────────────────────────────────────

/// The place of element `i` in a buffer.
pub open spec fn element_place(layout: ArrayLayout, i: int) -> FieldLayout {
    FieldLayout {
        offset: (layout.element_size * i) as u32,
        size: layout.element_size,
        align: layout.element_align,
    }
}

/// The primitive that stands for an array element: itself, or a pointer.
pub open spec fn element_primitive(elem: ResolvedType) -> PrimitiveType {
    match elem {
        ResolvedType::Primitive(p) => p,
        _ => PrimitiveType::I32,
    }
}

proof fn lemma_element(elem: ResolvedType, f: FieldLayout)
    requires
        crate::layout::array_plan(elem) is Ok,
    ensures
        ({
            let p = element_primitive(elem);
            let size = (crate::layout::array_plan(elem)->Ok_0).element_size;
            &&& stored_width(p) == Some(size as nat)
            &&& crate::lower::aggregate::element_store(elem, f) is Ok
            &&& crate::lower::aggregate::element_store(elem, f)->Ok_0
                == crate::lower::aggregate::primitive_store(p, f)
            &&& crate::lower::aggregate::element_load(elem, f) is Ok
            &&& crate::lower::aggregate::element_load(elem, f)->Ok_0
                == crate::lower::aggregate::primitive_load(p, f)
        }),
{
}

/// The load of element `i` through its address gives back the bits that were
/// stored there when the array was made.
pub proof fn law_elements_are_read_back(
    elem: ResolvedType,
    i: int,
    buf: u32,
    v: nat,
    mem: Seq<u8>,
)
    requires
        crate::layout::array_plan(elem) matches Ok(layout) && v < byte_limit(
            layout.element_size as nat,
        ) && 0 <= i && buf + layout.element_size * i + layout.element_size <= mem.len(),
        mem.len() <= 0x1_0000_0000,
    ensures
        ({
            let layout = crate::layout::array_plan(elem)->Ok_0;
            let store = crate::lower::aggregate::element_store(
                elem,
                element_place(layout, i),
            )->Ok_0;
            let load = crate::lower::aggregate::element_load(
                elem,
                crate::lower::aggregate::element_slot(layout),
            )->Ok_0;
            got(load, (buf + layout.element_size * i) as u32, put(store, buf, v, mem)) == v
        }),
{
    let layout = crate::layout::array_plan(elem)->Ok_0;
    let p = element_primitive(elem);
    let size = layout.element_size;
    assert(0 <= size * i) by (nonlinear_arith)
        requires
            0 <= i,
    ;
    let place = element_place(layout, i);
    let slot = crate::lower::aggregate::element_slot(layout);
    lemma_element(elem, place);
    lemma_element(elem, slot);
    law_stored_fields_are_read_back(p, place, buf, v, mem);
}

/// A store to one element when an array is made leaves the others as they
/// are.
pub proof fn law_elements_are_apart(
    elem: ResolvedType,
    i: int,
    j: int,
    buf: u32,
    w: nat,
    mem: Seq<u8>,
)
    requires
        crate::layout::array_plan(elem) matches Ok(layout) && 0 <= i && 0 <= j && buf
            + layout.element_size * i + layout.element_size <= mem.len() && buf
            + layout.element_size * j + layout.element_size <= mem.len(),
        mem.len() <= 0x1_0000_0000,
        i != j,
    ensures
        ({
            let layout = crate::layout::array_plan(elem)->Ok_0;
            let store = crate::lower::aggregate::element_store(
                elem,
                element_place(layout, j),
            )->Ok_0;
            let load = crate::lower::aggregate::element_load(
                elem,
                crate::lower::aggregate::element_slot(layout),
            )->Ok_0;
            let at = (buf + layout.element_size * i) as u32;
            got(load, at, put(store, buf, w, mem)) == got(load, at, mem)
        }),
{
    let layout = crate::layout::array_plan(elem)->Ok_0;
    let p = element_primitive(elem);
    let size = layout.element_size;
    assert(0 <= size * i && 0 <= size * j && (i < j ==> size * i + size <= size * j) && (j < i
        ==> size * j + size <= size * i)) by (nonlinear_arith)
        requires
            0 <= i,
            0 <= j,
            0 <= size,
    ;
    let place = element_place(layout, j);
    let slot = crate::lower::aggregate::element_slot(layout);
    lemma_element(elem, place);
    lemma_element(elem, slot);
    lemma_apart(p, element_place(layout, i), p, place, buf, w, mem);
}

} // verus!
