//! How deep the types of a module nest at the boundary.

use vstd::prelude::*;

use crate::ir::{
    GenericBase, IrEnum, IrEnumVariant, IrField, IrModule, IrStruct, List, ResolvedType,
};
use crate::instr::ValType;
use crate::layout::{FieldLayout, LayoutOwner, VariantShape};
use crate::module_lowering::cabi::{CabiStructFieldOp, Cursor};
use crate::module_lowering::error::ModuleLowerError;
use crate::types::TypeMapError;

verus! {

/// Levels left for instantiations of generic enums, which can nest deeper than
/// the definitions show.
pub const GENERIC_NESTING: u32 = 4096;

/// The larger of two depths.
pub open spec fn deeper(a: nat, b: nat) -> nat {
    if a > b {
        a
    } else {
        b
    }
}

/// How many types nest in a type as it is written.
pub open spec fn depth_of(ty: ResolvedType) -> nat
    decreases ty,
{
    match ty {
        ResolvedType::Optional(t) => 1 + depth_of(*t),
        ResolvedType::Tuple(fields) => 1 + depth_of_named(fields),
        ResolvedType::Generic { args, .. } => 1 + depth_of_list(args),
        _ => 1,
    }
}

/// The largest depth in a list.
pub open spec fn depth_of_list(types: List<ResolvedType>) -> nat
    decreases types,
{
    match types {
        List::Nil => 0,
        List::Cons(head, tail) => deeper(depth_of(*head), depth_of_list(*tail)),
    }
}

/// The largest depth in a named list.
pub open spec fn depth_of_named(fields: List<(String, ResolvedType)>) -> nat
    decreases fields,
{
    match fields {
        List::Nil => 0,
        List::Cons(head, tail) => deeper(depth_of(head.1), depth_of_named(*tail)),
    }
}

/// The largest depth among the first `k` fields.
pub open spec fn fields_depth(fields: Seq<IrField>, k: nat) -> nat
    decreases k,
{
    if k == 0 {
        0
    } else {
        deeper(fields_depth(fields, (k - 1) as nat), depth_of(fields[k - 1].ty))
    }
}

/// The largest depth of a field in the first `k` structs.
pub open spec fn structs_depth(structs: Seq<IrStruct>, k: nat) -> nat
    decreases k,
{
    if k == 0 {
        0
    } else {
        deeper(
            structs_depth(structs, (k - 1) as nat),
            fields_depth(structs[k - 1].fields@, structs[k - 1].fields@.len()),
        )
    }
}

/// The largest depth of a field in the first `k` variants.
pub open spec fn variants_depth(variants: Seq<IrEnumVariant>, k: nat) -> nat
    decreases k,
{
    if k == 0 {
        0
    } else {
        deeper(
            variants_depth(variants, (k - 1) as nat),
            fields_depth(variants[k - 1].fields@, variants[k - 1].fields@.len()),
        )
    }
}

/// The largest depth of a field in the first `k` enums.
pub open spec fn enums_depth(enums: Seq<IrEnum>, k: nat) -> nat
    decreases k,
{
    if k == 0 {
        0
    } else {
        deeper(
            enums_depth(enums, (k - 1) as nat),
            variants_depth(enums[k - 1].variants@, enums[k - 1].variants@.len()),
        )
    }
}

/// The largest depth of a field that a module declares.
pub open spec fn declared_depth(m: IrModule) -> nat {
    deeper(
        structs_depth(m.structs@, m.structs@.len()),
        enums_depth(m.enums@, m.enums@.len()),
    )
}

/// How many structs and enums a module declares.
pub open spec fn definitions(m: IrModule) -> nat {
    m.structs@.len() + m.enums@.len()
}

/// The deepest nesting that a type without recursion can reach: its own depth,
/// and that of every definition once.
pub open spec fn reach(ty: ResolvedType, m: IrModule) -> nat {
    depth_of(ty) + definitions(m) * (1 + declared_depth(m)) + GENERIC_NESTING as nat
}

/// `n`, or the largest 32-bit number.
pub open spec fn capped(n: nat) -> u32 {
    if n > u32::MAX {
        u32::MAX
    } else {
        n as u32
    }
}

/// How deep a type may nest in a module.
pub open spec fn nesting_limit(ty: ResolvedType, m: IrModule) -> u32 {
    capped(reach(ty, m))
}

fn larger_of(a: u32, b: u32) -> (r: u32)
    ensures
        r == if a > b {
            a
        } else {
            b
        },
{
    if a > b {
        a
    } else {
        b
    }
}

fn one_deeper(n: u32) -> (r: u32)
    ensures
        n == u32::MAX ==> r == n,
        n < u32::MAX ==> r == n + 1,
{
    if n == u32::MAX {
        n
    } else {
        n + 1
    }
}

fn find_depth(ty: &ResolvedType) -> (r: u32)
    ensures
        r == capped(depth_of(*ty)),
    decreases *ty,
{
    match ty {
        ResolvedType::Optional(t) => one_deeper(find_depth(t)),
        ResolvedType::Tuple(fields) => one_deeper(find_named_depth(fields)),
        ResolvedType::Generic { args, .. } => one_deeper(find_list_depth(args)),
        _ => 1,
    }
}

fn find_list_depth(types: &List<ResolvedType>) -> (r: u32)
    ensures
        r == capped(depth_of_list(*types)),
    decreases *types,
{
    match types {
        List::Nil => 0,
        List::Cons(head, tail) => larger_of(find_depth(head), find_list_depth(tail)),
    }
}

fn find_named_depth(fields: &List<(String, ResolvedType)>) -> (r: u32)
    ensures
        r == capped(depth_of_named(*fields)),
    decreases *fields,
{
    match fields {
        List::Nil => 0,
        List::Cons(head, tail) => larger_of(find_depth(&head.1), find_named_depth(tail)),
    }
}

fn find_fields_depth(fields: &Vec<IrField>) -> (r: u32)
    ensures
        r == capped(fields_depth(fields@, fields@.len())),
{
    let mut most: u32 = 0;
    let mut i: usize = 0;
    while i < fields.len()
        invariant
            i <= fields@.len(),
            most == capped(fields_depth(fields@, i as nat)),
        decreases fields@.len() - i,
    {
        most = larger_of(most, find_depth(&fields[i].ty));
        i = i + 1;
    }
    most
}

fn find_variants_depth(variants: &Vec<IrEnumVariant>) -> (r: u32)
    ensures
        r == capped(variants_depth(variants@, variants@.len())),
{
    let mut most: u32 = 0;
    let mut i: usize = 0;
    while i < variants.len()
        invariant
            i <= variants@.len(),
            most == capped(variants_depth(variants@, i as nat)),
        decreases variants@.len() - i,
    {
        most = larger_of(most, find_fields_depth(&variants[i].fields));
        i = i + 1;
    }
    most
}

fn find_declared_depth(m: &IrModule) -> (r: u32)
    ensures
        r == capped(declared_depth(*m)),
{
    let mut most: u32 = 0;
    let mut i: usize = 0;
    while i < m.structs.len()
        invariant
            i <= m.structs@.len(),
            most == capped(structs_depth(m.structs@, i as nat)),
        decreases m.structs@.len() - i,
    {
        most = larger_of(most, find_fields_depth(&m.structs[i].fields));
        i = i + 1;
    }
    let mut other: u32 = 0;
    let mut k: usize = 0;
    while k < m.enums.len()
        invariant
            k <= m.enums@.len(),
            other == capped(enums_depth(m.enums@, k as nat)),
        decreases m.enums@.len() - k,
    {
        other = larger_of(other, find_variants_depth(&m.enums[k].variants));
        k = k + 1;
    }
    larger_of(most, other)
}

/// A larger depth gives a larger product.
proof fn lemma_product(n: nat, a: nat, b: nat)
    requires
        a <= b,
    ensures
        n * (1 + a) <= n * (1 + b),
        n > 0 ==> 1 + a <= n * (1 + a),
{
    assert(n * (1 + a) <= n * (1 + b)) by (nonlinear_arith)
        requires
            a <= b,
    ;
    assert(n > 0 ==> 1 + a <= n * (1 + a)) by (nonlinear_arith);
}

/// How deep a type may nest in a module. Only types that contain themselves
/// nest deeper, and instantiations of generic enums that multiply.
pub fn find_nesting_limit(ty: &ResolvedType, module: &IrModule) -> (r: u32)
    ensures
        r == nesting_limit(*ty, *module),
{
    let own: u32 = find_depth(ty);
    let declared: u32 = find_declared_depth(module);
    let n: u128 = module.structs.len() as u128 + module.enums.len() as u128;
    proof {
        let d = declared_depth(*module);
        lemma_product(n as nat, declared as nat, d);
        lemma_product(n as nat, u32::MAX as nat, deeper(d, u32::MAX as nat));
        assert(n <= 0x2_0000_0000_0000_0000);
        assert(n * (1 + declared) <= 0x2_0000_0000_0000_0000 * 0x1_0000_0000)
            by (nonlinear_arith)
            requires
                n <= 0x2_0000_0000_0000_0000,
                declared <= u32::MAX,
        ;
        if d > u32::MAX && n > 0 {
            assert(declared == u32::MAX);
            lemma_product(n as nat, declared as nat, d);
        }
    }
    let all: u128 = own as u128 + n * (1 + declared as u128) + GENERIC_NESTING as u128;
    if all > 0xffff_ffff {
        u32::MAX
    } else {
        all as u32
    }
}

// ── laws ─────────────────────────────────────────────────────────────

/// An order of the structs and enums of a module, by numbers.
pub struct Ranks {
    pub structs: Seq<nat>,
    pub enums: Seq<nat>,
}

/// A type is made of structs and enums with ranks below `r` only, and
/// instantiates no generic enum.
pub open spec fn is_below(ty: ResolvedType, m: IrModule, k: Ranks, r: nat) -> bool
    decreases ty,
{
    match ty {
        ResolvedType::Optional(t) => is_below(*t, m, k, r),
        ResolvedType::Tuple(fields) => named_below(fields, m, k, r),
        ResolvedType::Struct(id) => struct_below(id.0, m, k, r),
        ResolvedType::Enum(id) => enum_below(id.0, m, k, r),
        ResolvedType::Generic { base: GenericBase::Struct(id), .. } => struct_below(id.0, m, k, r),
        ResolvedType::Generic { base: GenericBase::Enum(id), args } => {
            &&& enum_below(id.0, m, k, r)
            &&& id.0 < m.enums@.len() ==> args.seq().len() == 0
                || m.enums@[id.0 as int].generic_params@.len() == 0
        },
        _ => true,
    }
}

/// Struct `id` has a rank below `r`.
pub open spec fn struct_below(id: u32, m: IrModule, k: Ranks, r: nat) -> bool {
    id < m.structs@.len() ==> k.structs[id as int] < r
}

/// Enum `id` has a rank below `r`.
pub open spec fn enum_below(id: u32, m: IrModule, k: Ranks, r: nat) -> bool {
    id < m.enums@.len() ==> k.enums[id as int] < r
}

/// [`is_below`] of every type in a named list.
pub open spec fn named_below(
    fields: List<(String, ResolvedType)>,
    m: IrModule,
    k: Ranks,
    r: nat,
) -> bool
    decreases fields,
{
    match fields {
        List::Nil => true,
        List::Cons(head, tail) => is_below(head.1, m, k, r) && named_below(*tail, m, k, r),
    }
}

/// [`is_below`] of the type of every field.
pub open spec fn fields_below(fields: Seq<IrField>, m: IrModule, k: Ranks, r: nat) -> bool {
    forall|i: int| 0 <= i < fields.len() ==> is_below((#[trigger] fields[i]).ty, m, k, r)
}

/// The ranks show that no struct or enum contains itself: each is made of such
/// with lower ranks only.
pub open spec fn are_ranked(m: IrModule, k: Ranks) -> bool {
    &&& forall|i: int|
        0 <= i < m.structs@.len() ==> k.structs[i] < definitions(m) && fields_below(
            (#[trigger] m.structs@[i]).fields@,
            m,
            k,
            k.structs[i],
        )
    &&& forall|i: int| 0 <= i < m.enums@.len() ==> k.enums[i] < definitions(m)
        && #[trigger] variants_below(m.enums@[i], m, k, k.enums[i])
}

/// [`is_below`] of the type of every field of every variant.
pub open spec fn variants_below(e: IrEnum, m: IrModule, k: Ranks, r: nat) -> bool {
    forall|i: int|
        0 <= i < e.variants@.len() ==> fields_below((#[trigger] e.variants@[i]).fields@, m, k, r)
}

/// Whether a type was refused because it nests too deep.
pub open spec fn is_too_deep<T>(r: Result<T, ModuleLowerError>) -> bool {
    r matches Err(ModuleLowerError::TypeMap(TypeMapError::NotYetSupported { kind })) && kind
        is NestingTooDeep
}

/// Only types that contain themselves are refused as too deep: where the
/// structs and enums of a module can be ranked, no type made of them is,
/// neither when it is flattened nor when it is planned. Instantiations of
/// generic enums are left out, and limits beyond 32 bits.
pub proof fn law_only_recursive_types_are_too_deep(
    ty: ResolvedType,
    m: IrModule,
    k: Ranks,
    c: Cursor,
    base: u32,
)
    requires
        are_ranked(m, k),
        is_below(ty, m, k, definitions(m)),
        reach(ty, m) <= u32::MAX,
    ensures
        !is_too_deep(
            crate::module_lowering::cabi::flat(ty, m, nesting_limit(ty, m) as nat),
        ),
        !is_too_deep(
            crate::module_lowering::cabi::value_plan(
                ty,
                c,
                base,
                m,
                nesting_limit(ty, m) as nat,
            ),
        ),
{
    lemma_fits(ty, m, k, definitions(m), c, base, nesting_limit(ty, m) as nat);
}

/// Enough levels are left for a type of depth `d` made of definitions with
/// ranks below `r`.
spec fn is_enough(d: nat, r: nat, m: IrModule, depth: nat) -> bool {
    depth >= d + r * (1 + declared_depth(m))
}

/// Fields that are ranked below `r` and nest no deeper than `d`.
spec fn are_shallow(fields: Seq<IrField>, m: IrModule, k: Ranks, r: nat, d: nat) -> bool {
    &&& fields_below(fields, m, k, r)
    &&& forall|i: int| 0 <= i < fields.len() ==> depth_of((#[trigger] fields[i]).ty) <= d
}

proof fn lemma_tuple(fields: List<(String, ResolvedType)>, m: IrModule, k: Ranks, r: nat)
    requires
        named_below(fields, m, k, r),
    ensures
        are_shallow(crate::layout::tuple_fields(fields), m, k, r, depth_of_named(fields)),
    decreases fields,
{
    if let List::Cons(head, tail) = fields {
        lemma_tuple(*tail, m, k, r);
        let all = crate::layout::tuple_fields(fields);
        let rest = crate::layout::tuple_fields(*tail);
        assert forall|i: int| 0 <= i < all.len() implies is_below((#[trigger] all[i]).ty, m, k, r)
            && depth_of(all[i].ty) <= depth_of_named(fields) by {
            if i > 0 {
                assert(all[i] == rest[i - 1]);
            }
        }
    }
}

proof fn lemma_field_depth(fields: Seq<IrField>, i: int, k: nat)
    requires
        0 <= i < k <= fields.len(),
    ensures
        depth_of(fields[i].ty) <= fields_depth(fields, k),
    decreases k,
{
    if i < k - 1 {
        lemma_field_depth(fields, i, (k - 1) as nat);
    }
}

proof fn lemma_struct_depth(structs: Seq<IrStruct>, i: int, k: nat)
    requires
        0 <= i < k <= structs.len(),
    ensures
        fields_depth(structs[i].fields@, structs[i].fields@.len()) <= structs_depth(structs, k),
    decreases k,
{
    if i < k - 1 {
        lemma_struct_depth(structs, i, (k - 1) as nat);
    }
}

proof fn lemma_variant_depth(variants: Seq<IrEnumVariant>, i: int, k: nat)
    requires
        0 <= i < k <= variants.len(),
    ensures
        fields_depth(variants[i].fields@, variants[i].fields@.len()) <= variants_depth(
            variants,
            k,
        ),
    decreases k,
{
    if i < k - 1 {
        lemma_variant_depth(variants, i, (k - 1) as nat);
    }
}

proof fn lemma_enum_depth(enums: Seq<IrEnum>, i: int, k: nat)
    requires
        0 <= i < k <= enums.len(),
    ensures
        variants_depth(enums[i].variants@, enums[i].variants@.len()) <= enums_depth(enums, k),
    decreases k,
{
    if i < k - 1 {
        lemma_enum_depth(enums, i, (k - 1) as nat);
    }
}

proof fn lemma_struct_fields(m: IrModule, k: Ranks, i: int)
    requires
        are_ranked(m, k),
        0 <= i < m.structs@.len(),
    ensures
        are_shallow(m.structs@[i].fields@, m, k, k.structs[i], declared_depth(m)),
{
    let fields = m.structs@[i].fields@;
    lemma_struct_depth(m.structs@, i, m.structs@.len());
    assert forall|j: int| 0 <= j < fields.len() implies depth_of((#[trigger] fields[j]).ty)
        <= declared_depth(m) by {
        lemma_field_depth(fields, j, fields.len());
    }
}

proof fn lemma_variant_fields(
    m: IrModule,
    k: Ranks,
    i: int,
    j: int,
    args: Seq<ResolvedType>,
)
    requires
        are_ranked(m, k),
        0 <= i < m.enums@.len(),
        0 <= j < m.enums@[i].variants@.len(),
        args.len() == 0 || m.enums@[i].generic_params@.len() == 0,
    ensures
        are_shallow(
            crate::compound::instance_shapes(m.enums@[i], args)[j].fields,
            m,
            k,
            k.enums[i],
            declared_depth(m),
        ),
{
    let e = m.enums@[i];
    let fields = e.variants@[j].fields@;
    let instance = crate::compound::instance_shapes(e, args)[j].fields;
    assert(variants_below(e, m, k, k.enums[i]));
    lemma_enum_depth(m.enums@, i, m.enums@.len());
    lemma_variant_depth(e.variants@, j, e.variants@.len());
    assert forall|q: int| 0 <= q < instance.len() implies is_below(
        (#[trigger] instance[q]).ty,
        m,
        k,
        k.enums[i],
    ) && depth_of(instance[q].ty) <= declared_depth(m) by {
        lemma_field_depth(fields, q, fields.len());
        assert(instance[q].ty == fields[q].ty);
    }
}

/// A definition with rank `q` below `r` takes one level, and leaves enough for
/// its fields.
proof fn lemma_leaves_enough(d: nat, r: nat, q: nat, m: IrModule, depth: nat)
    requires
        is_enough(d, r, m, depth),
        d >= 1,
        q < r,
    ensures
        depth > 0,
        is_enough(declared_depth(m), q, m, (depth - 1) as nat),
{
    let w = 1 + declared_depth(m);
    assert(r * w >= (q + 1) * w) by (nonlinear_arith)
        requires
            q < r,
    ;
    assert((q + 1) * w == q * w + w) by (nonlinear_arith);
}

proof fn lemma_fits(
    ty: ResolvedType,
    m: IrModule,
    k: Ranks,
    r: nat,
    c: Cursor,
    base: u32,
    depth: nat,
)
    requires
        are_ranked(m, k),
        is_below(ty, m, k, r),
        is_enough(depth_of(ty), r, m, depth),
    ensures
        !is_too_deep(crate::module_lowering::cabi::flat(ty, m, depth)),
        !is_too_deep(crate::module_lowering::cabi::value_plan(ty, c, base, m, depth)),
    decreases depth, 0int, 0int,
{
    assert(depth_of(ty) >= 1);
    assert(r * (1 + declared_depth(m)) >= 0) by (nonlinear_arith);
    let inner = (depth - 1) as nat;
    match ty {
        ResolvedType::Tuple(fields) => {
            lemma_tuple(fields, m, k, r);
            lemma_fields_fit(
                crate::layout::tuple_fields(fields),
                LayoutOwner::Tuple,
                m,
                k,
                r,
                depth_of_named(fields),
                c,
                base,
                inner,
            );
        },
        ResolvedType::Optional(payload) => {
            lemma_fits(*payload, m, k, r, c, base, inner);
        },
        _ => {
            if let Some(id) = crate::compound::struct_id(ty) {
                if let Some(s) = m.spec_struct(id) {
                    let q = k.structs[id.0 as int];
                    lemma_leaves_enough(depth_of(ty), r, q, m, depth);
                    lemma_struct_fields(m, k, id.0 as int);
                    lemma_fields_fit(
                        s.fields@,
                        LayoutOwner::Struct(s.name),
                        m,
                        k,
                        q,
                        declared_depth(m),
                        c,
                        base,
                        inner,
                    );
                }
            } else if let Some(id) = crate::compound::enum_id(ty) {
                if let Some(e) = m.spec_enum(id) {
                    let q = k.enums[id.0 as int];
                    let args = crate::compound::enum_args(ty, id).seq();
                    lemma_leaves_enough(depth_of(ty), r, q, m, depth);
                    assert forall|j: int| 0 <= j < e.variants@.len() implies are_shallow(
                        (#[trigger] crate::compound::instance_shapes(e, args)[j]).fields,
                        m,
                        k,
                        q,
                        declared_depth(m),
                    ) by {
                        lemma_variant_fields(m, k, id.0 as int, j, args);
                    }
                    lemma_payloads_fit(
                        crate::module_lowering::cabi::instance_of(ty, id, e),
                        0,
                        m,
                        k,
                        q,
                        inner,
                        Seq::empty(),
                    );
                }
            }
        },
    }
}

proof fn lemma_fields_fit(
    fields: Seq<IrField>,
    owner: LayoutOwner,
    m: IrModule,
    k: Ranks,
    r: nat,
    d: nat,
    c: Cursor,
    base: u32,
    depth: nat,
)
    requires
        are_ranked(m, k),
        are_shallow(fields, m, k, r, d),
        is_enough(d, r, m, depth),
    ensures
        !is_too_deep(
            crate::module_lowering::cabi::flat_fields(fields, 0, m, depth, Seq::empty()),
        ),
        !is_too_deep(
            crate::module_lowering::cabi::aggregate_plan(fields, owner, c, base, m, depth),
        ),
    decreases depth, 2int, 0int,
{
    lemma_flat_fits(fields, 0, m, k, r, d, depth, Seq::empty());
    if let Ok(layout) = crate::layout::fields_plan(owner, fields) {
        lemma_plans_fit(fields, layout.fields, 0, m, k, r, d, c, base, depth, Seq::empty());
    }
}

proof fn lemma_flat_fits(
    fields: Seq<IrField>,
    i: int,
    m: IrModule,
    k: Ranks,
    r: nat,
    d: nat,
    depth: nat,
    out: Seq<ValType>,
)
    requires
        are_ranked(m, k),
        are_shallow(fields, m, k, r, d),
        is_enough(d, r, m, depth),
    ensures
        !is_too_deep(crate::module_lowering::cabi::flat_fields(fields, i, m, depth, out)),
    decreases depth, 1int, fields.len() - i,
{
    if 0 <= i < fields.len() {
        assert(depth_of(fields[i].ty) <= d);
        lemma_fits(fields[i].ty, m, k, r, Cursor { slot: 0, scratch: 0 }, 0, depth);
        if let Ok(s) = crate::module_lowering::cabi::flat(fields[i].ty, m, depth) {
            lemma_flat_fits(fields, i + 1, m, k, r, d, depth, out + s);
        }
    }
}

proof fn lemma_payloads_fit(
    shapes: Seq<VariantShape>,
    i: int,
    m: IrModule,
    k: Ranks,
    r: nat,
    depth: nat,
    best: Seq<ValType>,
)
    requires
        are_ranked(m, k),
        forall|j: int|
            0 <= j < shapes.len() ==> are_shallow(
                (#[trigger] shapes[j]).fields,
                m,
                k,
                r,
                declared_depth(m),
            ),
        is_enough(declared_depth(m), r, m, depth),
    ensures
        !is_too_deep(crate::module_lowering::cabi::largest_payload(shapes, i, m, depth, best)),
    decreases depth, 2int, shapes.len() - i,
{
    if 0 <= i < shapes.len() {
        lemma_flat_fits(
            shapes[i].fields,
            0,
            m,
            k,
            r,
            declared_depth(m),
            depth,
            Seq::empty(),
        );
        if let Ok(s) = crate::module_lowering::cabi::flat_fields(
            shapes[i].fields,
            0,
            m,
            depth,
            Seq::empty(),
        ) {
            lemma_payloads_fit(
                shapes,
                i + 1,
                m,
                k,
                r,
                depth,
                if s.len() > best.len() {
                    s
                } else {
                    best
                },
            );
        }
    }
}

proof fn lemma_plans_fit(
    fields: Seq<IrField>,
    places: Seq<FieldLayout>,
    i: int,
    m: IrModule,
    k: Ranks,
    r: nat,
    d: nat,
    c: Cursor,
    base: u32,
    depth: nat,
    out: Seq<CabiStructFieldOp>,
)
    requires
        are_ranked(m, k),
        are_shallow(fields, m, k, r, d),
        is_enough(d, r, m, depth),
    ensures
        !is_too_deep(
            crate::module_lowering::cabi::fields_plan(fields, places, i, c, base, m, depth, out),
        ),
    decreases depth, 1int, fields.len() - i,
{
    if 0 <= i < fields.len() && i < places.len() {
        assert(depth_of(fields[i].ty) <= d);
        lemma_fits(fields[i].ty, m, k, r, c, base, depth);
        if let Ok((value, c1)) = crate::module_lowering::cabi::value_plan(
            fields[i].ty,
            c,
            base,
            m,
            depth,
        ) {
            lemma_plans_fit(
                fields,
                places,
                i + 1,
                m,
                k,
                r,
                d,
                c1,
                base,
                depth,
                out.push(CabiStructFieldOp { offset: places[i].offset, value }),
            );
        }
    }
}

} // verus!
