//! What a boundary plan names: each flat slot it takes, once, and each
//! scratch local it takes, once.

use vstd::prelude::*;

use crate::instr::ValType;
use crate::ir::{IrField, IrModule, List, PrimitiveType, ResolvedType};
use crate::layout::{FieldLayout, LayoutOwner};
use crate::module_lowering::cabi::{
    CabiFieldValue, CabiMaterialisationOps, CabiStructFieldOp, Cursor,
};

verus! {

/// The flat slots that a plan reads, in order.
pub open spec fn slots_of(value: CabiFieldValue) -> Seq<u32>
    decreases value,
{
    match value {
        CabiFieldValue::DirectSlot { slot, .. } => seq![slot],
        CabiFieldValue::MaterialisedScratch { ops, .. } => match *ops {
            CabiMaterialisationOps::StringFromSlots { ptr_slot, len_slot } => seq![
                ptr_slot,
                len_slot,
            ],
            CabiMaterialisationOps::ListFromSlots { ptr_slot, len_slot } => seq![
                ptr_slot,
                len_slot,
            ],
            CabiMaterialisationOps::Struct { fields, .. } => field_slots(fields),
            CabiMaterialisationOps::Variant { tag_slot, payload_slots, .. } => seq![tag_slot]
                + payload_slots.seq(),
        },
    }
}

/// The flat slots that the plans of fields read, in order.
pub open spec fn field_slots(fields: List<CabiStructFieldOp>) -> Seq<u32>
    decreases fields,
{
    match fields {
        List::Nil => Seq::empty(),
        List::Cons(f, rest) => slots_of(f.value) + field_slots(*rest),
    }
}

/// The scratch locals that a plan fills, in the order in which they are
/// filled.
pub open spec fn scratch_of(value: CabiFieldValue) -> Seq<u32>
    decreases value,
{
    match value {
        CabiFieldValue::DirectSlot { .. } => Seq::empty(),
        CabiFieldValue::MaterialisedScratch { scratch, ops } => match *ops {
            CabiMaterialisationOps::Struct { fields, .. } => field_scratch(fields).push(scratch),
            _ => seq![scratch],
        },
    }
}

/// The scratch locals that the plans of fields fill, in order.
pub open spec fn field_scratch(fields: List<CabiStructFieldOp>) -> Seq<u32>
    decreases fields,
{
    match fields {
        List::Nil => Seq::empty(),
        List::Cons(f, rest) => scratch_of(f.value) + field_scratch(*rest),
    }
}

/// The plans of one more field.
proof fn lemma_one_more_field(fields: Seq<CabiStructFieldOp>, f: CabiStructFieldOp)
    ensures
        field_slots(List::of_seq(fields.push(f))) == field_slots(List::of_seq(fields)) + slots_of(
            f.value,
        ),
        field_scratch(List::of_seq(fields.push(f))) == field_scratch(List::of_seq(fields))
            + scratch_of(f.value),
    decreases fields.len(),
{
    let more = fields.push(f);
    reveal_with_fuel(List::of_seq, 2);
    reveal_with_fuel(field_slots, 2);
    reveal_with_fuel(field_scratch, 2);
    if fields.len() == 0 {
        assert(more.drop_first() =~= Seq::empty());
        assert(slots_of(f.value) + Seq::<u32>::empty() =~= Seq::<u32>::empty() + slots_of(f.value));
        assert(scratch_of(f.value) + Seq::<u32>::empty() =~= Seq::<u32>::empty() + scratch_of(
            f.value,
        ));
    } else {
        lemma_one_more_field(fields.drop_first(), f);
        assert(more.drop_first() =~= fields.drop_first().push(f));
        let rest = List::of_seq(fields.drop_first());
        assert(slots_of(fields[0].value) + (field_slots(rest) + slots_of(f.value)) =~= (slots_of(
            fields[0].value,
        ) + field_slots(rest)) + slots_of(f.value));
        assert(scratch_of(fields[0].value) + (field_scratch(rest) + scratch_of(f.value)) =~= (
        scratch_of(fields[0].value) + field_scratch(rest)) + scratch_of(f.value));
    }
}

/// A plan names each slot between two cursors once and in order, and each
/// scratch local between them once and in order.
pub open spec fn names_all(value: CabiFieldValue, c: Cursor, c1: Cursor, base: u32) -> bool {
    &&& c.slot <= c1.slot
    &&& c.scratch <= c1.scratch
    &&& slots_of(value) == crate::module_lowering::cabi::slots_from(
        c.slot as int,
        (c1.slot - c.slot) as nat,
    )
    &&& scratch_of(value) == crate::module_lowering::cabi::slots_from(
        base + c.scratch,
        (c1.scratch - c.scratch) as nat,
    )
}

/// Planning a value takes exactly the slots that flattening its type gives,
/// and the plan names each of them once, in order. It names each scratch
/// local it takes once, too. A value that is built in memory is parked in
/// the last of them; any other value is the one slot taken, and takes no
/// scratch local.
pub proof fn law_a_plan_names_every_slot_once(
    ty: ResolvedType,
    c: Cursor,
    base: u32,
    m: IrModule,
    depth: nat,
)
    ensures
        crate::module_lowering::cabi::value_plan(ty, c, base, m, depth) matches Ok(x) ==> {
            &&& crate::module_lowering::cabi::flat(ty, m, depth) matches Ok(s)
            &&& x.1.slot == c.slot + s.len()
            &&& slots_of(x.0) == crate::module_lowering::cabi::slots_from(c.slot as int, s.len())
            &&& slots_of(x.0).no_duplicates()
            &&& c.scratch <= x.1.scratch
            &&& scratch_of(x.0) == crate::module_lowering::cabi::slots_from(
                base + c.scratch,
                (x.1.scratch - c.scratch) as nat,
            )
            &&& match x.0 {
                CabiFieldValue::DirectSlot { slot, .. } => {
                    &&& slot == c.slot
                    &&& s.len() == 1
                    &&& x.1.scratch == c.scratch
                },
                CabiFieldValue::MaterialisedScratch { scratch, .. } => {
                    &&& x.1.scratch > c.scratch
                    &&& scratch == base + x.1.scratch - 1
                },
            }
        },
{
    crate::module_lowering::cabi::law_planning_takes_every_slot(ty, c, base, m, depth);
    lemma_value(ty, c, base, m, depth);
}

proof fn lemma_value(ty: ResolvedType, c: Cursor, base: u32, m: IrModule, depth: nat)
    ensures
        crate::module_lowering::cabi::value_plan(ty, c, base, m, depth) matches Ok(x) ==> {
            &&& names_all(x.0, c, x.1, base)
            &&& match x.0 {
                CabiFieldValue::DirectSlot { slot, .. } => {
                    &&& slot == c.slot
                    &&& x.1.slot == c.slot + 1
                    &&& x.1.scratch == c.scratch
                },
                CabiFieldValue::MaterialisedScratch { scratch, .. } => {
                    &&& x.1.scratch > c.scratch
                    &&& scratch == base + x.1.scratch - 1
                },
            }
        },
    decreases depth, 0int, 0int,
{
    if let Ok(x) = crate::module_lowering::cabi::value_plan(ty, c, base, m, depth) {
        let inner = (depth - 1) as nat;
        if crate::module_lowering::signature::is_text(ty) || crate::compound::shape_of(
            ty,
            m,
        ) is Array {
            assert(slots_of(x.0) =~= crate::module_lowering::cabi::slots_from(c.slot as int, 2));
            assert(scratch_of(x.0) =~= crate::module_lowering::cabi::slots_from(
                base + c.scratch,
                1,
            ));
        } else {
            match ty {
                ResolvedType::Tuple(fields) => {
                    lemma_aggregate(
                        crate::layout::tuple_fields(fields),
                        LayoutOwner::Tuple,
                        c,
                        base,
                        m,
                        inner,
                    );
                },
                ResolvedType::Optional(payload) => {
                    let layout = crate::layout::optional_plan(*payload)->Ok_0;
                    let s = crate::module_lowering::cabi::flat(*payload, m, inner)->Ok_0;
                    lemma_cell(layout.size, layout.payload_offset, s.len(), c, base);
                },
                _ => match (crate::compound::struct_id(ty), crate::compound::enum_id(ty)) {
                    (Some(id), _) => {
                        let s = m.spec_struct(id)->Some_0;
                        lemma_aggregate(
                            s.fields@,
                            LayoutOwner::Struct(s.name),
                            c,
                            base,
                            m,
                            inner,
                        );
                    },
                    (None, Some(id)) => {
                        let e = m.spec_enum(id)->Some_0;
                        let shapes = crate::module_lowering::cabi::instance_of(ty, id, e);
                        let layout = crate::layout::shapes_plan(e.name, shapes)->Ok_0;
                        let s = crate::module_lowering::cabi::largest_payload(
                            shapes,
                            0,
                            m,
                            inner,
                            Seq::empty(),
                        )->Ok_0;
                        lemma_cell(layout.size, layout.payload_offset, s.len(), c, base);
                    },
                    (None, None) => {
                        assert(slots_of(x.0) =~= crate::module_lowering::cabi::slots_from(
                            c.slot as int,
                            1,
                        ));
                        assert(scratch_of(x.0) =~= crate::module_lowering::cabi::slots_from(
                            base + c.scratch,
                            0,
                        ));
                    },
                },
            }
        }
    }
}

/// A tagged cell names its tag's slot and those of its payload.
proof fn lemma_cell(size: u32, payload_offset: u32, payload: nat, c: Cursor, base: u32)
    ensures
        crate::module_lowering::cabi::cell_plan(size, payload_offset, payload, c, base) matches Ok(
            x,
        ) ==> {
            &&& names_all(x.0, c, x.1, base)
            &&& x.1.scratch == c.scratch + 1
            &&& x.0 matches CabiFieldValue::MaterialisedScratch { scratch, .. }
            &&& scratch == base + c.scratch
        },
{
    if let Ok(x) = crate::module_lowering::cabi::cell_plan(size, payload_offset, payload, c, base) {
        let behind = crate::module_lowering::cabi::slots_from(c.slot + 1, payload);
        crate::ir::lemma_list_round_trip(behind);
        assert(seq![c.slot] + behind =~= crate::module_lowering::cabi::slots_from(
            c.slot as int,
            1 + payload,
        ));
        assert(scratch_of(x.0) =~= crate::module_lowering::cabi::slots_from(base + c.scratch, 1));
    }
}

/// A struct or tuple names what its fields name, and its own scratch local
/// last.
proof fn lemma_aggregate(
    fields: Seq<IrField>,
    owner: LayoutOwner,
    c: Cursor,
    base: u32,
    m: IrModule,
    depth: nat,
)
    ensures
        crate::module_lowering::cabi::aggregate_plan(fields, owner, c, base, m, depth) matches Ok(x)
            ==> {
            &&& names_all(x.0, c, x.1, base)
            &&& x.1.scratch > c.scratch
            &&& x.0 matches CabiFieldValue::MaterialisedScratch { scratch, .. }
            &&& scratch == base + x.1.scratch - 1
        },
    decreases depth, 2int, 0int,
{
    if let Ok(x) = crate::module_lowering::cabi::aggregate_plan(fields, owner, c, base, m, depth) {
        let layout = crate::layout::fields_plan(owner, fields)->Ok_0;
        lemma_fields(fields, layout.fields, 0, c, base, m, depth, Seq::empty());
        let (ops, c1) = crate::module_lowering::cabi::fields_plan(
            fields,
            layout.fields,
            0,
            c,
            base,
            m,
            depth,
            Seq::empty(),
        )->Ok_0;
        let none: Seq<CabiStructFieldOp> = Seq::empty();
        assert(List::of_seq(none) == List::<CabiStructFieldOp>::Nil);
        assert(slots_of(x.0) =~= crate::module_lowering::cabi::slots_from(
            c.slot as int,
            (c1.slot - c.slot) as nat,
        ));
        assert(scratch_of(x.0) =~= crate::module_lowering::cabi::slots_from(
            base + c.scratch,
            (c1.scratch - c.scratch) as nat,
        ).push((base + c1.scratch) as u32));
        assert(scratch_of(x.0) =~= crate::module_lowering::cabi::slots_from(
            base + c.scratch,
            (c1.scratch + 1 - c.scratch) as nat,
        ));
    }
}

/// Fields name what lies between the cursors, behind what stood in `out`.
proof fn lemma_fields(
    fields: Seq<IrField>,
    places: Seq<FieldLayout>,
    i: int,
    c: Cursor,
    base: u32,
    m: IrModule,
    depth: nat,
    out: Seq<CabiStructFieldOp>,
)
    ensures
        crate::module_lowering::cabi::fields_plan(
            fields,
            places,
            i,
            c,
            base,
            m,
            depth,
            out,
        ) matches Ok((ops, c1)) ==> {
            &&& c.slot <= c1.slot
            &&& c.scratch <= c1.scratch
            &&& field_slots(List::of_seq(ops)) == field_slots(List::of_seq(out))
                + crate::module_lowering::cabi::slots_from(
                c.slot as int,
                (c1.slot - c.slot) as nat,
            )
            &&& field_scratch(List::of_seq(ops)) == field_scratch(List::of_seq(out))
                + crate::module_lowering::cabi::slots_from(
                base + c.scratch,
                (c1.scratch - c.scratch) as nat,
            )
        },
    decreases depth, 1int, fields.len() - i,
{
    if let Ok((ops, c1)) = crate::module_lowering::cabi::fields_plan(
        fields,
        places,
        i,
        c,
        base,
        m,
        depth,
        out,
    ) {
        if i < 0 || i >= fields.len() || i >= places.len() {
            assert(field_slots(List::of_seq(ops)) =~= field_slots(List::of_seq(out))
                + crate::module_lowering::cabi::slots_from(c.slot as int, 0));
            assert(field_scratch(List::of_seq(ops)) =~= field_scratch(List::of_seq(out))
                + crate::module_lowering::cabi::slots_from(base + c.scratch, 0));
        } else {
            lemma_value(fields[i].ty, c, base, m, depth);
            let (value, c2) = crate::module_lowering::cabi::value_plan(
                fields[i].ty,
                c,
                base,
                m,
                depth,
            )->Ok_0;
            let f = CabiStructFieldOp { offset: places[i].offset, value };
            lemma_one_more_field(out, f);
            lemma_fields(fields, places, i + 1, c2, base, m, depth, out.push(f));
            assert(field_slots(List::of_seq(ops)) =~= field_slots(List::of_seq(out))
                + crate::module_lowering::cabi::slots_from(
                c.slot as int,
                (c1.slot - c.slot) as nat,
            ));
            assert(field_scratch(List::of_seq(ops)) =~= field_scratch(List::of_seq(out))
                + crate::module_lowering::cabi::slots_from(
                base + c.scratch,
                (c1.scratch - c.scratch) as nat,
            ));
        }
    }
}

// ── flat types ───────────────────────────────────────────────────────

/// How many flat values come before those of field `k`.
pub open spec fn flat_start(fields: Seq<IrField>, k: int, m: IrModule, depth: nat) -> nat
    decreases k,
{
    if k <= 0 {
        0
    } else {
        flat_start(fields, k - 1, m, depth) + crate::module_lowering::cabi::flat(
            fields[k - 1].ty,
            m,
            depth,
        )->Ok_0.len()
    }
}

/// The flat values of field `k` stand behind those of the fields before it.
pub open spec fn field_is_flat(
    fields: Seq<IrField>,
    k: int,
    m: IrModule,
    depth: nat,
    types: Seq<ValType>,
) -> bool {
    let at = flat_start(fields, k, m, depth) as int;
    &&& crate::module_lowering::cabi::flat(fields[k].ty, m, depth) matches Ok(own)
    &&& at + own.len() <= types.len()
    &&& types.subrange(at, at + own.len()) == own
}

proof fn lemma_flat_parts(
    fields: Seq<IrField>,
    i: int,
    m: IrModule,
    depth: nat,
    out: Seq<ValType>,
)
    requires
        0 <= i <= fields.len(),
        out.len() == flat_start(fields, i, m, depth),
        forall|k: int| 0 <= k < i ==> #[trigger] field_is_flat(fields, k, m, depth, out),
    ensures
        crate::module_lowering::cabi::flat_fields(fields, i, m, depth, out) matches Ok(all) ==> {
            &&& all.len() == flat_start(fields, fields.len() as int, m, depth)
            &&& forall|k: int|
                0 <= k < fields.len() ==> #[trigger] field_is_flat(fields, k, m, depth, all)
        },
    decreases fields.len() - i,
{
    if i < fields.len() {
        if let Ok(s) = crate::module_lowering::cabi::flat(fields[i].ty, m, depth) {
            let more = out + s;
            assert forall|k: int| 0 <= k < i + 1 implies #[trigger] field_is_flat(
                fields,
                k,
                m,
                depth,
                more,
            ) by {
                let at = flat_start(fields, k, m, depth) as int;
                if k < i {
                    assert(field_is_flat(fields, k, m, depth, out));
                    let own = crate::module_lowering::cabi::flat(fields[k].ty, m, depth)->Ok_0;
                    assert(more.subrange(at, at + own.len()) =~= out.subrange(
                        at,
                        at + own.len(),
                    ));
                } else {
                    assert(more.subrange(at, at + s.len()) =~= s);
                }
            }
            lemma_flat_parts(fields, i + 1, m, depth, more);
        }
    }
}

/// A record crosses the boundary as the flat values of its fields, one behind
/// the other; so does a tuple.
pub proof fn law_records_are_flat_field_by_field(
    ty: ResolvedType,
    fields: Seq<IrField>,
    m: IrModule,
    depth: nat,
)
    requires
        crate::module_lowering::cabi::flat(ty, m, depth) is Ok,
        match ty {
            ResolvedType::Tuple(positions) => fields == crate::layout::tuple_fields(positions),
            ResolvedType::Struct(id) => id.0 < m.structs@.len() && fields
                == m.structs@[id.0 as int].fields@,
            _ => false,
        },
    ensures
        ({
            let types = crate::module_lowering::cabi::flat(ty, m, depth)->Ok_0;
            let inner = (depth - 1) as nat;
            &&& types.len() == flat_start(fields, fields.len() as int, m, inner)
            &&& forall|k: int|
                0 <= k < fields.len() ==> #[trigger] field_is_flat(fields, k, m, inner, types)
        }),
{
    let none: Seq<ValType> = Seq::empty();
    let inner = (depth - 1) as nat;
    lemma_flat_parts(fields, 0, m, inner, none);
    if let ResolvedType::Struct(id) = ty {
        assert(m.spec_struct(id) == Some(m.structs@[id.0 as int]));
    }
    assert(crate::module_lowering::cabi::flat(ty, m, depth)
        == crate::module_lowering::cabi::flat_fields(fields, 0, m, inner, none));
}

/// A primitive crosses as itself, a text or a list as two words, and an
/// optional value as its tag and the flat values inside.
pub proof fn law_other_values_are_flat(ty: ResolvedType, m: IrModule, depth: nat)
    requires
        crate::module_lowering::cabi::flat(ty, m, depth) is Ok,
    ensures
        ({
            let types = crate::module_lowering::cabi::flat(ty, m, depth)->Ok_0;
            match ty {
                ResolvedType::Primitive(p) => types =~= match p {
                    PrimitiveType::Boolean => seq![ValType::I32],
                    PrimitiveType::I32 => seq![ValType::I32],
                    PrimitiveType::I64 => seq![ValType::I64],
                    PrimitiveType::F32 => seq![ValType::F32],
                    PrimitiveType::F64 => seq![ValType::F64],
                    PrimitiveType::Never => Seq::empty(),
                    _ => seq![ValType::I32, ValType::I32],
                },
                ResolvedType::Array(_) => types =~= seq![ValType::I32, ValType::I32],
                ResolvedType::Optional(payload) => crate::module_lowering::cabi::flat(
                    *payload,
                    m,
                    (depth - 1) as nat,
                ) matches Ok(own) && types =~= seq![ValType::I32] + own,
                _ => true,
            }
        }),
{
}

} // verus!
