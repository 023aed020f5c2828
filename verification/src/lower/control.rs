//! Lowering of control flow: `if`, `match` and `for`.

use vstd::prelude::*;

use crate::instr::{BlockType, Instr, IntOp, LoadOp, StoreOp, ValType};
use crate::ir::{IrExpr, IrMatchArm, List, PrimitiveType, ResolvedType};
use crate::layout::{
    plan_array, plan_enum, plan_range, ArrayLayout, EnumLayout, EnumPlan, FieldLayout, LayoutError,
    LayoutOwner, RangeLayout, ARRAY_HEADER_ALIGN, ARRAY_HEADER_LEN_OFFSET,
    ARRAY_HEADER_PTR_OFFSET, ENUM_TAG_ALIGN,
};
use crate::lower::aggregate::{
    field_mem_arg, finalize_array_header, load_primitive, mem_arg, output_field_layout,
    primitive_of, store_primitive, to_signed, HeaderLen,
};
use crate::lower::context::{Cx, InstructionSink, LowerContext, Out, SinkView};
use crate::lower::error::{not_yet, ExprKind, FieldOwner, LowerError, Missing};
use crate::lower::lower_expr;
use crate::lower::optional::lower_coerced;
use crate::types::{body_value_type, resolved_value_type};

verus! {

/// Scratch locals every for-loop takes, all of type `i32`. A loop over an
/// array uses six of them and skips one, so both sources take the same
/// number.
pub const FOR_SCRATCH_LOCAL_COUNT: u32 = 7;

// ── if ───────────────────────────────────────────────────────────────

/// The block type of a mapped result.
pub open spec fn block_of(v: Option<ValType>) -> BlockType {
    match v {
        Some(vt) => BlockType::Result(vt),
        None => BlockType::Empty,
    }
}

/// The block type of a mapped result.
fn block_type(v: Option<ValType>) -> (r: BlockType)
    ensures
        r == block_of(v),
{
    match v {
        Some(vt) => BlockType::Result(vt),
        None => BlockType::Empty,
    }
}

/// The code of an `if`.
pub open spec fn if_code(e: IrExpr, cx: Cx, s: SinkView) -> Out
    decreases e, 2int,
{
    match e {
        IrExpr::If { condition, then_branch, else_branch, ty } => match crate::types::strict_val(
            ty,
        ) {
            Err(x) => s.fail(LowerError::TypeMap(x)),
            Ok(v) => {
                let o1 = crate::lower::expr_code(*condition, cx, s);
                if o1.err is Some {
                    o1
                } else {
                    let o2 = crate::lower::optional::coerced_code(
                        *then_branch,
                        ty,
                        cx,
                        o1.sink.emit(Instr::If(block_of(v))),
                    );
                    if o2.err is Some {
                        o2
                    } else {
                        match else_branch {
                            None => o2.sink.emit(Instr::End).done(),
                            Some(other) => {
                                let o3 = crate::lower::optional::coerced_code(
                                    *other,
                                    ty,
                                    cx,
                                    o2.sink.emit(Instr::Else),
                                );
                                if o3.err is Some {
                                    o3
                                } else {
                                    o3.sink.emit(Instr::End).done()
                                }
                            },
                        }
                    }
                }
            },
        },
        _ => s.fail(crate::lower::error::missing(Missing::NotA(ExprKind::If))),
    }
}

/// Lower an `if`. Its result must be a primitive or nothing. Each branch
/// flows into the result type.
pub fn lower_if(expr: &IrExpr, sink: &mut InstructionSink, ctx: &LowerContext<'_>) -> (r: Result<
    (),
    LowerError,
>)
    ensures
        crate::lower::context::wrote(r, final(sink)@, if_code(*expr, ctx@, old(sink)@)),
    decreases *expr, 2int,
{
    match expr {
        IrExpr::If { condition, then_branch, else_branch, ty } => {
            let block = match resolved_value_type(ty) {
                Ok(v) => block_type(v),
                Err(x) => return Err(LowerError::TypeMap(x)),
            };
            lower_expr(condition, sink, ctx)?;
            sink.emit(Instr::If(block));
            lower_coerced(then_branch, ty, sink, ctx)?;
            if let Some(other) = else_branch {
                sink.emit(Instr::Else);
                lower_coerced(other, ty, sink, ctx)?;
            }
            sink.emit(Instr::End);
            Ok(())
        },
        _ => Err(not_yet(Missing::NotA(ExprKind::If))),
    }
}

// ── match ────────────────────────────────────────────────────────────

/// `n` more open blocks without a result.
pub open spec fn open_blocks(s: SinkView, n: nat) -> SinkView
    decreases n,
{
    if n == 0 {
        s
    } else {
        open_blocks(s, (n - 1) as nat).emit(Instr::Block(BlockType::Empty))
    }
}

/// Branch depth for each tag after looking at the first `k` arms: an arm's
/// own position, or the arm count for tags without an arm.
pub open spec fn tag_targets(arms: Seq<IrMatchArm>, variants: nat, k: nat) -> Seq<u32>
    decreases k,
{
    if k == 0 {
        Seq::new(variants, |i: int| arms.len() as u32)
    } else {
        let before = tag_targets(arms, variants, (k - 1) as nat);
        let arm = arms[k - 1];
        if !arm.is_wildcard && arm.variant_idx.0 < variants {
            before.update(arm.variant_idx.0 as int, (k - 1) as u32)
        } else {
            before
        }
    }
}

/// Position of the last wildcard among the first `k` arms.
pub open spec fn last_wildcard(arms: Seq<IrMatchArm>, k: nat) -> Option<int>
    decreases k,
{
    if k == 0 {
        None
    } else if arms[k - 1].is_wildcard {
        Some(k - 1)
    } else {
        last_wildcard(arms, (k - 1) as nat)
    }
}

/// The code that loads an arm's payload names, from binding `i` on.
pub open spec fn bindings_code(
    arm: IrMatchArm,
    i: int,
    fields: Seq<FieldLayout>,
    scrutinee: u32,
    cx: Cx,
    s: SinkView,
) -> Out
    decreases arm.bindings@.len() - i,
{
    if i < 0 || i >= arm.bindings@.len() {
        s.done()
    } else {
        let (_, id, ty) = arm.bindings@[i];
        match crate::lower::aggregate::as_primitive(ty) {
            Err(x) => s.fail(x),
            Ok(p) => if i >= fields.len() {
                s.fail(
                    LowerError::FieldIndexOutOfRange {
                        struct_name: FieldOwner::Named(arm.variant),
                        field_count: fields.len() as usize,
                        field_idx: crate::survey::index_u32(i),
                    },
                )
            } else {
                match cx.local_of(id) {
                    Err(x) => s.fail(x),
                    Ok(local) => bindings_code(
                        arm,
                        i + 1,
                        fields,
                        scrutinee,
                        cx,
                        s.emit(Instr::LocalGet(scrutinee)).emit(
                            crate::lower::aggregate::primitive_load(p, fields[i]),
                        ).emit(Instr::LocalSet(local)),
                    ),
                }
            },
        }
    }
}

/// The code that loads the payload names of an arm that is no wildcard.
pub open spec fn arm_bindings_code(
    arm: IrMatchArm,
    plan: EnumPlan,
    scrutinee: u32,
    cx: Cx,
    s: SinkView,
) -> Out {
    if arm.is_wildcard {
        s.done()
    } else if arm.variant_idx.0 >= plan.variants.len() {
        s.fail(LowerError::UnknownVariant { enum_name: None, variant: arm.variant })
    } else {
        bindings_code(
            arm,
            0,
            plan.variants[arm.variant_idx.0 as int].fields,
            scrutinee,
            cx,
            s,
        )
    }
}

/// The code of the arms, from arm `i` on. Each one flows into the type of
/// the match, branches out of it and closes a block.
pub open spec fn arms_code(
    arms: Seq<IrMatchArm>,
    i: int,
    ty: ResolvedType,
    plan: EnumPlan,
    scrutinee: u32,
    cx: Cx,
    s: SinkView,
) -> Out
    decreases arms, arms.len() - i,
{
    if i < 0 || i >= arms.len() {
        s.done()
    } else {
        let o1 = arm_bindings_code(arms[i], plan, scrutinee, cx, s);
        if o1.err is Some {
            o1
        } else {
            let o2 = crate::lower::optional::coerced_code(arms[i].body, ty, cx, o1.sink);
            if o2.err is Some {
                o2
            } else {
                arms_code(
                    arms,
                    i + 1,
                    ty,
                    plan,
                    scrutinee,
                    cx,
                    o2.sink.emit(Instr::Br((arms.len() - i) as u32)).emit(Instr::End),
                )
            }
        }
    }
}

/// The dispatch on the tag, in the innermost of the open blocks.
pub open spec fn dispatch_code(
    arms: Seq<IrMatchArm>,
    plan: EnumPlan,
    scrutinee: u32,
    s: SinkView,
) -> SinkView {
    s.emit(Instr::LocalGet(scrutinee)).emit(
        Instr::Load(
            LoadOp::I32,
            crate::lower::aggregate::mem_arg_at(plan.tag_offset, ENUM_TAG_ALIGN),
        ),
    ).emit(
        Instr::BrTable {
            targets: List::of_seq(tag_targets(arms, plan.variants.len(), arms.len())),
            default: arms.len() as u32,
        },
    ).emit(Instr::End)
}

/// The code of a `match`.
pub open spec fn match_code(e: IrExpr, cx: Cx, s: SinkView) -> Out
    decreases e, 2int,
{
    match e {
        IrExpr::Match { scrutinee, arms, ty } => match cx.spec_module() {
            Err(x) => s.fail(x),
            Ok(m) => match scrutinee.spec_ty() {
                ResolvedType::Enum(id) => match crate::lower::aggregate::enum_plan_of(id, m) {
                    Err(x) => s.fail(x),
                    Ok((_, plan)) => match s.scratch_local(ValType::I32) {
                        Err(x) => s.fail(x),
                        Ok((local, s1)) => {
                            let o = crate::lower::expr_code(*scrutinee, cx, s1);
                            if o.err is Some {
                                o
                            } else {
                                match_arms_code(e, plan, local, cx, o.sink.emit(Instr::LocalSet(local)))
                            }
                        },
                    },
                },
                _ => s.fail(
                    LowerError::FieldAccessOnNonAggregate { ty: scrutinee.spec_ty() },
                ),
            },
        },
        _ => s.fail(crate::lower::error::missing(Missing::NotA(ExprKind::Match))),
    }
}

/// The code of a `match` once its scrutinee is parked: blocks, dispatch,
/// arms, and the default.
pub open spec fn match_arms_code(
    e: IrExpr,
    plan: EnumPlan,
    local: u32,
    cx: Cx,
    s: SinkView,
) -> Out
    decreases e, 1int,
{
    match e {
        IrExpr::Match { arms, ty, .. } => match crate::types::body_val(ty) {
            Err(x) => s.fail(LowerError::TypeMap(x)),
            Ok(v) => {
                let s1 = open_blocks(
                    s.emit(Instr::Block(block_of(v))).emit(Instr::Block(BlockType::Empty)),
                    arms@.len(),
                );
                if arms@.len() > u32::MAX {
                    s1.fail(crate::lower::error::missing(Missing::TooManyArms))
                } else {
                    let o = arms_code(
                        arms@,
                        0,
                        ty,
                        plan,
                        local,
                        cx,
                        dispatch_code(arms@, plan, local, s1),
                    );
                    if o.err is Some {
                        o
                    } else {
                        proof {
                            lemma_last_wildcard_in_range(arms@, arms@.len());
                        }
                        match last_wildcard(arms@, arms@.len()) {
                            None => o.sink.emit(Instr::Unreachable).emit(Instr::End).done(),
                            Some(w) => {
                                let d = crate::lower::optional::coerced_code(arms@[w].body, ty, cx, o.sink);
                                if d.err is Some {
                                    d
                                } else {
                                    d.sink.emit(Instr::End).done()
                                }
                            },
                        }
                    }
                }
            },
        },
        _ => s.fail(crate::lower::error::missing(Missing::NotA(ExprKind::Match))),
    }
}

/// The last wildcard is one of the arms looked at.
pub proof fn lemma_last_wildcard_in_range(arms: Seq<IrMatchArm>, k: nat)
    requires
        k <= arms.len(),
    ensures
        last_wildcard(arms, k) is Some ==> 0 <= last_wildcard(arms, k)->0 < k,
    decreases k,
{
    if k > 0 && !arms[k - 1].is_wildcard {
        lemma_last_wildcard_in_range(arms, (k - 1) as nat);
    }
}

/// Branch depth for each tag.
fn branch_targets(arms: &Vec<IrMatchArm>, variants: usize) -> (r: Vec<u32>)
    requires
        arms@.len() <= u32::MAX,
    ensures
        r@ == tag_targets(arms@, variants as nat, arms@.len()),
{
    let mut targets: Vec<u32> = Vec::new();
    let mut n: usize = 0;
    while n < variants
        invariant
            n <= variants,
            targets@.len() == n,
            forall|i: int| 0 <= i < n ==> targets@[i] == arms@.len() as u32,
        decreases variants - n,
    {
        targets.push(arms.len() as u32);
        n = n + 1;
    }
    proof {
        assert(targets@ =~= tag_targets(arms@, variants as nat, 0));
    }
    let mut k: usize = 0;
    while k < arms.len()
        invariant
            k <= arms@.len(),
            arms@.len() <= u32::MAX,
            targets@.len() == variants,
            targets@ == tag_targets(arms@, variants as nat, k as nat),
        decreases arms@.len() - k,
    {
        let tag: usize = arms[k].variant_idx.0 as usize;
        if !arms[k].is_wildcard && tag < variants {
            targets.set(tag, k as u32);
        }
        k = k + 1;
    }
    targets
}

/// Write the loads of an arm's payload names.
fn emit_arm_bindings(
    arm: &IrMatchArm,
    scrutinee: u32,
    layout: &EnumLayout,
    sink: &mut InstructionSink,
    ctx: &LowerContext<'_>,
) -> (r: Result<(), LowerError>)
    requires
        !arm.is_wildcard,
    ensures
        crate::lower::context::wrote(
            r,
            final(sink)@,
            arm_bindings_code(*arm, layout@, scrutinee, ctx@, old(sink)@),
        ),
{
    let v: usize = arm.variant_idx.0 as usize;
    if v >= layout.variants.len() {
        return Err(LowerError::UnknownVariant { enum_name: None, variant: arm.variant.clone() });
    }
    let fields = &layout.variants[v].fields;
    let mut i: usize = 0;
    let ghost goal = bindings_code(*arm, 0, fields@, scrutinee, ctx@, sink@);
    proof {
        assert(layout@.variants[v as int] == layout.variants@[v as int]@);
    }
    while i < arm.bindings.len()
        invariant
            goal == arm_bindings_code(*arm, layout@, scrutinee, ctx@, old(sink)@),
            i <= arm.bindings@.len(),
            goal == bindings_code(*arm, i as int, fields@, scrutinee, ctx@, sink@),
        decreases arm.bindings@.len() - i,
    {
        let binding = &arm.bindings[i];
        let p: PrimitiveType = primitive_of(&binding.2)?;
        if i >= fields.len() {
            return Err(
                LowerError::FieldIndexOutOfRange {
                    struct_name: FieldOwner::Named(arm.variant.clone()),
                    field_count: fields.len(),
                    field_idx: if i > 0xffff_ffff {
                        0xffff_ffff
                    } else {
                        i as u32
                    },
                },
            );
        }
        let local: u32 = ctx.binding_local(binding.1)?;
        sink.emit(Instr::LocalGet(scrutinee));
        load_primitive(p, fields[i], sink);
        sink.emit(Instr::LocalSet(local));
        i = i + 1;
    }
    Ok(())
}

/// Write the arms of a match.
fn lower_arms(
    arms: &Vec<IrMatchArm>,
    ty: &ResolvedType,
    layout: &EnumLayout,
    scrutinee: u32,
    sink: &mut InstructionSink,
    ctx: &LowerContext<'_>,
) -> (r: Result<(), LowerError>)
    requires
        arms@.len() <= u32::MAX,
    ensures
        crate::lower::context::wrote(
            r,
            final(sink)@,
            arms_code(arms@, 0, *ty, layout@, scrutinee, ctx@, old(sink)@),
        ),
    decreases arms@, arms@.len(),
{
    let mut i: usize = 0;
    let ghost goal = arms_code(arms@, 0, *ty, layout@, scrutinee, ctx@, sink@);
    while i < arms.len()
        invariant
            goal == arms_code(arms@, 0, *ty, layout@, scrutinee, ctx@, old(sink)@),
            i <= arms@.len(),
            arms@.len() <= u32::MAX,
            goal == arms_code(arms@, i as int, *ty, layout@, scrutinee, ctx@, sink@),
        decreases arms@.len() - i,
    {
        if !arms[i].is_wildcard {
            emit_arm_bindings(&arms[i], scrutinee, layout, sink, ctx)?;
        }
        lower_coerced(&arms[i].body, ty, sink, ctx)?;
        sink.emit(Instr::Br((arms.len() - i) as u32));
        sink.emit(Instr::End);
        i = i + 1;
    }
    Ok(())
}

/// Open `n` blocks without a result.
fn emit_open_blocks(n: usize, sink: &mut InstructionSink)
    ensures
        final(sink)@ == open_blocks(old(sink)@, n as nat),
{
    let mut k: usize = 0;
    while k < n
        invariant
            k <= n,
            sink@ == open_blocks(old(sink)@, k as nat),
        decreases n - k,
    {
        sink.emit(Instr::Block(BlockType::Empty));
        k = k + 1;
    }
}

/// Write the dispatch on the tag.
fn emit_dispatch(
    arms: &Vec<IrMatchArm>,
    layout: &EnumLayout,
    local: u32,
    sink: &mut InstructionSink,
)
    requires
        arms@.len() <= u32::MAX,
    ensures
        final(sink)@ == dispatch_code(arms@, layout@, local, old(sink)@),
{
    let targets = branch_targets(arms, layout.variants.len());
    sink.emit(Instr::LocalGet(local));
    sink.emit(Instr::Load(LoadOp::I32, mem_arg(layout.tag_offset, ENUM_TAG_ALIGN)));
    sink.emit(
        Instr::BrTable { targets: List::from_vec(targets), default: arms.len() as u32 },
    );
    sink.emit(Instr::End);
}

/// Position of the last wildcard arm.
pub fn find_wildcard(arms: &Vec<IrMatchArm>) -> (r: Option<usize>)
    ensures
        match r {
            Some(w) => w < arms@.len() && last_wildcard(arms@, arms@.len()) == Some(w as int),
            None => last_wildcard(arms@, arms@.len()) is None,
        },
{
    let mut k: usize = arms.len();
    while k > 0
        invariant
            k <= arms@.len(),
            last_wildcard(arms@, arms@.len()) == last_wildcard(arms@, k as nat),
        decreases k,
    {
        if arms[k - 1].is_wildcard {
            return Some(k - 1);
        }
        k = k - 1;
    }
    None
}

/// Write a match whose scrutinee is parked in `local`.
fn lower_match_arms(
    expr: &IrExpr,
    layout: &EnumLayout,
    local: u32,
    sink: &mut InstructionSink,
    ctx: &LowerContext<'_>,
) -> (r: Result<(), LowerError>)
    ensures
        crate::lower::context::wrote(
            r,
            final(sink)@,
            match_arms_code(*expr, layout@, local, ctx@, old(sink)@),
        ),
    decreases *expr, 1int,
{
    match expr {
        IrExpr::Match { arms, ty, .. } => {
            let block = match body_value_type(ty) {
                Ok(v) => block_type(v),
                Err(x) => return Err(LowerError::TypeMap(x)),
            };
            sink.emit(Instr::Block(block));
            sink.emit(Instr::Block(BlockType::Empty));
            emit_open_blocks(arms.len(), sink);
            if arms.len() > 0xffff_ffff {
                return Err(not_yet(Missing::TooManyArms));
            }
            emit_dispatch(arms, layout, local, sink);
            lower_arms(arms, ty, layout, local, sink, ctx)?;
            match find_wildcard(arms) {
                Some(w) => lower_coerced(&arms[w].body, ty, sink, ctx)?,
                None => sink.emit(Instr::Unreachable),
            }
            sink.emit(Instr::End);
            Ok(())
        },
        _ => Err(not_yet(Missing::NotA(ExprKind::Match))),
    }
}

/// Lower a `match` on an enum: park the scrutinee, dispatch on its tag,
/// load each arm's payload names and run its body. Tags without an arm go
/// to the last wildcard, or trap.
pub fn lower_match(expr: &IrExpr, sink: &mut InstructionSink, ctx: &LowerContext<'_>) -> (r: Result<
    (),
    LowerError,
>)
    ensures
        crate::lower::context::wrote(
            r,
            final(sink)@,
            match_code(*expr, ctx@, old(sink)@),
        ),
    decreases *expr, 2int,
{
    match expr {
        IrExpr::Match { scrutinee, arms, ty } => {
            let module = ctx.module()?;
            let id = match scrutinee.ty() {
                ResolvedType::Enum(id) => *id,
                other => {
                    return Err(LowerError::FieldAccessOnNonAggregate { ty: other.clone() });
                },
            };
            let d = match module.get_enum(id) {
                Some(d) => d,
                None => return Err(LowerError::UnknownEnum(id)),
            };
            let layout = match plan_enum(d, module) {
                Ok(l) => l,
                Err(x) => return Err(LowerError::Layout(x)),
            };
            let local: u32 = sink.next_scratch_local(ValType::I32)?;
            lower_expr(scrutinee, sink, ctx)?;
            sink.emit(Instr::LocalSet(local));
            lower_match_arms(expr, &layout, local, sink, ctx)
        },
        _ => Err(not_yet(Missing::NotA(ExprKind::Match))),
    }
}

// ── for ──────────────────────────────────────────────────────────────

/// What a for-loop runs over.
pub enum ForKind {
    Range(ResolvedType),
    Array(ResolvedType),
}

/// The source and the output element type of a for-loop.
pub open spec fn for_types(
    coll: ResolvedType,
    var_ty: ResolvedType,
    ty: ResolvedType,
) -> Result<(ForKind, ResolvedType), LowerError> {
    match ty {
        ResolvedType::Array(body) => match coll {
            ResolvedType::Range(bound) => if *bound != ResolvedType::Primitive(PrimitiveType::I32) {
                Err(crate::lower::error::missing(Missing::ForRangeBound(*bound)))
            } else if var_ty != ResolvedType::Primitive(PrimitiveType::I32) {
                Err(crate::lower::error::missing(Missing::ForVariable(var_ty)))
            } else {
                Ok((ForKind::Range(*bound), *body))
            },
            ResolvedType::Array(elem) => Ok((ForKind::Array(*elem), *body)),
            _ => Err(crate::lower::error::missing(Missing::ForCollection(coll))),
        },
        _ => Err(crate::lower::error::missing(Missing::ForResult(ty))),
    }
}

/// The scratch locals of a for-loop, in the order they are taken.
#[derive(Clone, Copy, Debug, PartialEq, Eq, Structural)]
pub struct ForLocals {
    /// The collection.
    pub source: u32,
    /// `start` of a range, the element buffer of an array.
    pub first: u32,
    /// `end` of a range; not used for an array.
    pub second: u32,
    pub len: u32,
    pub out_buf: u32,
    pub out_header: u32,
    pub i: u32,
}

/// Take the scratch locals of a for-loop. A failure can come after some
/// were taken.
pub open spec fn for_locals(s: SinkView) -> (Result<ForLocals, LowerError>, SinkView) {
    match s.scratch_local(ValType::I32) {
        Err(x) => (Err(x), s),
        Ok((source, s1)) => match s1.scratch_local(ValType::I32) {
            Err(x) => (Err(x), s1),
            Ok((first, s2)) => match s2.scratch_local(ValType::I32) {
                Err(x) => (Err(x), s2),
                Ok((second, s3)) => match s3.scratch_local(ValType::I32) {
                    Err(x) => (Err(x), s3),
                    Ok((len, s4)) => match s4.scratch_local(ValType::I32) {
                        Err(x) => (Err(x), s4),
                        Ok((out_buf, s5)) => match s5.scratch_local(ValType::I32) {
                            Err(x) => (Err(x), s5),
                            Ok((out_header, s6)) => match s6.scratch_local(ValType::I32) {
                                Err(x) => (Err(x), s6),
                                Ok((i, s7)) => (
                                    Ok(
                                        ForLocals {
                                            source,
                                            first,
                                            second,
                                            len,
                                            out_buf,
                                            out_header,
                                            i,
                                        },
                                    ),
                                    s7,
                                ),
                            },
                        },
                    },
                },
            },
        },
    }
}

/// Element size as a signed constant.
pub open spec fn element_size_const(layout: ArrayLayout) -> Result<i32, LowerError> {
    match crate::lower::aggregate::signed(layout.element_size) {
        Some(n) => Ok(n),
        None => Err(
            LowerError::Layout(LayoutError::SizeOverflow { name: LayoutOwner::ForElement }),
        ),
    }
}

/// The code that allocates a loop's output buffer and header and clears its
/// index. Nothing is written on failure but the buffer's code when only the
/// header does not fit.
pub open spec fn output_code(
    layout: ArrayLayout,
    l: ForLocals,
    cx: Cx,
    s: SinkView,
) -> Out {
    match cx.spec_bump_allocator() {
        Err(x) => s.fail(x),
        Ok(alloc) => match element_size_const(layout) {
            Err(x) => s.fail(x),
            Ok(size) => {
                let s1 = s.emit(Instr::LocalGet(l.len)).emit(Instr::I32Const(size)).emit(
                    Instr::I32(IntOp::Mul),
                ).emit(Instr::Call(alloc)).emit(Instr::LocalSet(l.out_buf));
                match crate::lower::aggregate::signed(layout.header_size) {
                    None => s1.fail(
                        LowerError::Layout(
                            LayoutError::SizeOverflow { name: LayoutOwner::ForHeader },
                        ),
                    ),
                    Some(header) => s1.emit(Instr::I32Const(header)).emit(Instr::Call(alloc)).emit(
                        Instr::LocalSet(l.out_header),
                    ).emit(Instr::I32Const(0)).emit(Instr::LocalSet(l.i)).done(),
                }
            },
        },
    }
}

/// The code that reads a 32-bit slot of the collection into a local.
pub open spec fn read_slot(
    source: u32,
    offset: u32,
    align: u32,
    into: u32,
    s: SinkView,
) -> SinkView {
    s.emit(Instr::LocalGet(source)).emit(
        Instr::Load(LoadOp::I32, crate::lower::aggregate::mem_arg_at(offset, align)),
    ).emit(Instr::LocalSet(into))
}

/// The code that sets the length to the distance of the bounds, or to 0 where
/// the end is not behind the start or no length holds the distance.
pub open spec fn range_len_code(l: ForLocals, s: SinkView) -> SinkView {
    s.emit(Instr::LocalGet(l.second)).emit(Instr::LocalGet(l.first)).emit(
        Instr::I32(IntOp::Sub),
    ).emit(Instr::LocalTee(l.len)).emit(Instr::LocalGet(l.len)).emit(Instr::I32Const(0)).emit(
        Instr::I32(IntOp::GtS),
    ).emit(Instr::I32(IntOp::Mul)).emit(Instr::LocalGet(l.second)).emit(
        Instr::LocalGet(l.first),
    ).emit(Instr::I32(IntOp::GtS)).emit(Instr::I32(IntOp::Mul)).emit(Instr::LocalSet(l.len))
}

/// The code that opens the loop and leaves it when the index reaches the
/// length.
pub open spec fn loop_head(l: ForLocals, s: SinkView) -> SinkView {
    s.emit(Instr::Block(BlockType::Empty)).emit(Instr::Loop(BlockType::Empty)).emit(
        Instr::LocalGet(l.i),
    ).emit(Instr::LocalGet(l.len)).emit(Instr::I32(IntOp::GeS)).emit(Instr::BrIf(1))
}

/// The code that pushes the address of element `i` of a buffer.
pub open spec fn element_address(buf: u32, i: u32, size: i32, s: SinkView) -> SinkView {
    s.emit(Instr::LocalGet(buf)).emit(Instr::LocalGet(i)).emit(Instr::I32Const(size)).emit(
        Instr::I32(IntOp::Mul),
    ).emit(Instr::I32(IntOp::Add))
}

/// The code that advances the index and closes the loop.
pub open spec fn loop_tail(l: ForLocals, s: SinkView) -> SinkView {
    s.emit(Instr::LocalGet(l.i)).emit(Instr::I32Const(1)).emit(Instr::I32(IntOp::Add)).emit(
        Instr::LocalSet(l.i),
    ).emit(Instr::Br(0)).emit(Instr::End).emit(Instr::End)
}

/// The store of a loop body's value.
pub open spec fn body_store(ty: ResolvedType, f: FieldLayout) -> Result<Instr, LowerError> {
    match ty {
        ResolvedType::Primitive(p) => Ok(crate::lower::aggregate::primitive_store(p, f)),
        ResolvedType::Range(_) => Ok(
            Instr::Store(StoreOp::I32, crate::lower::aggregate::field_arg(f)),
        ),
        _ => if crate::lower::aggregate::is_pointer_element(ty) {
            Ok(Instr::Store(StoreOp::I32, crate::lower::aggregate::field_arg(f)))
        } else {
            Err(crate::lower::error::missing(Missing::ForBody(ty)))
        },
    }
}

/// The load of a loop's input element.
pub open spec fn for_element_load(ty: ResolvedType, f: FieldLayout) -> Result<Instr, LowerError> {
    match ty {
        ResolvedType::Primitive(p) => Ok(crate::lower::aggregate::primitive_load(p, f)),
        _ => if crate::lower::aggregate::is_pointer_element(ty) {
            Ok(Instr::Load(LoadOp::I32, crate::lower::aggregate::field_arg(f)))
        } else {
            Err(crate::lower::error::missing(Missing::ForElement(ty)))
        },
    }
}

/// The code of the loop body: its value goes to the output buffer.
pub open spec fn for_body_code(
    body: IrExpr,
    body_ty: ResolvedType,
    out: ArrayLayout,
    size: i32,
    l: ForLocals,
    cx: Cx,
    s: SinkView,
) -> Out
    decreases body, 6int,
{
    let o = crate::lower::expr_code(body, cx, element_address(l.out_buf, l.i, size, s));
    if o.err is Some {
        o
    } else {
        match body_store(body_ty, crate::lower::aggregate::element_slot(out)) {
            Err(x) => o.sink.fail(x),
            Ok(store) => crate::lower::aggregate::header_code(
                l.out_header,
                l.out_buf,
                HeaderLen::Local(l.len),
                loop_tail(l, o.sink.emit(store)),
            ).done(),
        }
    }
}

/// The code of a loop over a range.
pub open spec fn for_range_code(
    e: IrExpr,
    bound: ResolvedType,
    body_ty: ResolvedType,
    var: u32,
    cx: Cx,
    s: SinkView,
) -> Out
    decreases e, 1int,
{
    match e {
        IrExpr::For { collection, body, .. } => match cx.spec_module() {
            Err(x) => s.fail(x),
            Ok(_) => match crate::layout::range_plan(bound) {
                Err(x) => s.fail(LowerError::Layout(x)),
                Ok(range) => match crate::layout::array_plan(body_ty) {
                    Err(x) => s.fail(LowerError::Layout(x)),
                    Ok(out) => match for_locals(s) {
                        (Err(x), s1) => s1.fail(x),
                        (Ok(l), s1) => {
                            let o = crate::lower::expr_code(*collection, cx, s1);
                            if o.err is Some {
                                o
                            } else {
                                let s2 = o.sink.emit(Instr::LocalSet(l.source));
                                let s3 = read_slot(l.source, 0, range.bound_align, l.first, s2);
                                let s4 = read_slot(
                                    l.source,
                                    range.end_offset,
                                    range.bound_align,
                                    l.second,
                                    s3,
                                );
                                let o2 = output_code(out, l, cx, range_len_code(l, s4));
                                if o2.err is Some {
                                    o2
                                } else {
                                    match element_size_const(out) {
                                        Err(x) => o2.sink.fail(x),
                                        Ok(size) => for_body_code(
                                            *body,
                                            body_ty,
                                            out,
                                            size,
                                            l,
                                            cx,
                                            loop_head(l, o2.sink).emit(
                                                Instr::LocalGet(l.first),
                                            ).emit(Instr::LocalGet(l.i)).emit(
                                                Instr::I32(IntOp::Add),
                                            ).emit(Instr::LocalSet(var)),
                                        ),
                                    }
                                }
                            }
                        },
                    },
                },
            },
        },
        _ => s.fail(crate::lower::error::missing(Missing::NotA(ExprKind::For))),
    }
}

/// The code of a loop over an array.
pub open spec fn for_array_code(
    e: IrExpr,
    elem_ty: ResolvedType,
    body_ty: ResolvedType,
    var: u32,
    cx: Cx,
    s: SinkView,
) -> Out
    decreases e, 1int,
{
    match e {
        IrExpr::For { collection, body, .. } => match cx.spec_module() {
            Err(x) => s.fail(x),
            Ok(_) => match crate::layout::array_plan(elem_ty) {
                Err(x) => s.fail(LowerError::Layout(x)),
                Ok(input) => match crate::layout::array_plan(body_ty) {
                    Err(x) => s.fail(LowerError::Layout(x)),
                    Ok(out) => match for_locals(s) {
                        (Err(x), s1) => s1.fail(x),
                        (Ok(l), s1) => {
                            let o = crate::lower::expr_code(*collection, cx, s1);
                            if o.err is Some {
                                o
                            } else {
                                let s2 = o.sink.emit(Instr::LocalSet(l.source));
                                let s3 = read_slot(
                                    l.source,
                                    ARRAY_HEADER_PTR_OFFSET,
                                    ARRAY_HEADER_ALIGN,
                                    l.first,
                                    s2,
                                );
                                let s4 = read_slot(
                                    l.source,
                                    ARRAY_HEADER_LEN_OFFSET,
                                    ARRAY_HEADER_ALIGN,
                                    l.len,
                                    s3,
                                );
                                let o2 = output_code(out, l, cx, s4);
                                if o2.err is Some {
                                    o2
                                } else {
                                    for_array_loop_code(
                                        *body,
                                        elem_ty,
                                        body_ty,
                                        input,
                                        out,
                                        var,
                                        l,
                                        cx,
                                        o2.sink,
                                    )
                                }
                            }
                        },
                    },
                },
            },
        },
        _ => s.fail(crate::lower::error::missing(Missing::NotA(ExprKind::For))),
    }
}

/// The code of the loop itself, over an array.
pub open spec fn for_array_loop_code(
    body: IrExpr,
    elem_ty: ResolvedType,
    body_ty: ResolvedType,
    input: ArrayLayout,
    out: ArrayLayout,
    var: u32,
    l: ForLocals,
    cx: Cx,
    s: SinkView,
) -> Out
    decreases body, 7int,
{
    match (element_size_const(input), element_size_const(out)) {
        (Err(x), _) => s.fail(x),
        (Ok(_), Err(x)) => s.fail(x),
        (Ok(in_size), Ok(out_size)) => {
            let s1 = element_address(l.first, l.i, in_size, loop_head(l, s));
            match for_element_load(elem_ty, crate::lower::aggregate::element_slot(input)) {
                Err(x) => s1.fail(x),
                Ok(load) => for_body_code(
                    body,
                    body_ty,
                    out,
                    out_size,
                    l,
                    cx,
                    s1.emit(load).emit(Instr::LocalSet(var)),
                ),
            }
        },
    }
}

/// The code of a for-loop.
pub open spec fn for_code(e: IrExpr, cx: Cx, s: SinkView) -> Out
    decreases e, 2int,
{
    match e {
        IrExpr::For { var_ty, var_binding_id, collection, ty, .. } => match for_types(
            collection.spec_ty(),
            var_ty,
            ty,
        ) {
            Err(x) => s.fail(x),
            Ok((kind, body_ty)) => match cx.local_of(var_binding_id) {
                Err(x) => s.fail(x),
                Ok(var) => match kind {
                    ForKind::Range(bound) => for_range_code(e, bound, body_ty, var, cx, s),
                    ForKind::Array(elem) => for_array_code(e, elem, body_ty, var, cx, s),
                },
            },
        },
        _ => s.fail(crate::lower::error::missing(Missing::NotA(ExprKind::For))),
    }
}

/// What a for-loop runs over.
enum ForSource<'a> {
    Range(&'a ResolvedType),
    Array(&'a ResolvedType),
}

impl<'a> ForSource<'a> {
    spec fn kind(self) -> ForKind {
        match self {
            ForSource::Range(t) => ForKind::Range(*t),
            ForSource::Array(t) => ForKind::Array(*t),
        }
    }
}

/// Check the types of a for-loop and classify its source.
fn check_for_types<'a>(
    coll: &'a ResolvedType,
    var_ty: &ResolvedType,
    ty: &'a ResolvedType,
) -> (r: Result<(ForSource<'a>, &'a ResolvedType), LowerError>)
    ensures
        match r {
            Ok((source, body)) => for_types(*coll, *var_ty, *ty) == Ok::<
                (ForKind, ResolvedType),
                LowerError,
            >((source.kind(), *body)),
            Err(e) => for_types(*coll, *var_ty, *ty) == Err::<(ForKind, ResolvedType), LowerError>(
                e,
            ),
        },
{
    let body: &'a ResolvedType = match ty {
        ResolvedType::Array(t) => t,
        _ => return Err(not_yet(Missing::ForResult(ty.clone()))),
    };
    match coll {
        ResolvedType::Range(bound) => {
            match &**bound {
                ResolvedType::Primitive(PrimitiveType::I32) => {},
                other => return Err(not_yet(Missing::ForRangeBound(other.clone()))),
            }
            match var_ty {
                ResolvedType::Primitive(PrimitiveType::I32) => {},
                other => return Err(not_yet(Missing::ForVariable(other.clone()))),
            }
            Ok((ForSource::Range(bound), body))
        },
        ResolvedType::Array(elem) => Ok((ForSource::Array(elem), body)),
        _ => Err(not_yet(Missing::ForCollection(coll.clone()))),
    }
}

/// Take the scratch locals of a for-loop.
fn take_for_locals(sink: &mut InstructionSink) -> (r: Result<ForLocals, LowerError>)
    ensures
        r == for_locals(old(sink)@).0,
        final(sink)@ == for_locals(old(sink)@).1,
{
    let source: u32 = sink.next_scratch_local(ValType::I32)?;
    let first: u32 = sink.next_scratch_local(ValType::I32)?;
    let second: u32 = sink.next_scratch_local(ValType::I32)?;
    let len: u32 = sink.next_scratch_local(ValType::I32)?;
    let out_buf: u32 = sink.next_scratch_local(ValType::I32)?;
    let out_header: u32 = sink.next_scratch_local(ValType::I32)?;
    let i: u32 = sink.next_scratch_local(ValType::I32)?;
    Ok(ForLocals { source, first, second, len, out_buf, out_header, i })
}

/// Element size as a signed constant.
fn elem_size_signed(layout: ArrayLayout) -> (r: Result<i32, LowerError>)
    ensures
        r == element_size_const(layout),
{
    match to_signed(layout.element_size) {
        Some(n) => Ok(n),
        None => Err(
            LowerError::Layout(LayoutError::SizeOverflow { name: LayoutOwner::ForElement }),
        ),
    }
}

/// Allocate a loop's output buffer and header and clear its index.
fn allocate_for_output(
    layout: ArrayLayout,
    l: ForLocals,
    sink: &mut InstructionSink,
    ctx: &LowerContext<'_>,
) -> (r: Result<(), LowerError>)
    ensures
        crate::lower::context::wrote(
            r,
            final(sink)@,
            output_code(layout, l, ctx@, old(sink)@),
        ),
{
    let alloc: u32 = ctx.bump_allocator()?;
    let size: i32 = elem_size_signed(layout)?;
    sink.emit(Instr::LocalGet(l.len));
    sink.emit(Instr::I32Const(size));
    sink.emit(Instr::I32(IntOp::Mul));
    sink.emit(Instr::Call(alloc));
    sink.emit(Instr::LocalSet(l.out_buf));
    let header: i32 = match to_signed(layout.header_size) {
        Some(n) => n,
        None => {
            return Err(
                LowerError::Layout(LayoutError::SizeOverflow { name: LayoutOwner::ForHeader }),
            );
        },
    };
    sink.emit(Instr::I32Const(header));
    sink.emit(Instr::Call(alloc));
    sink.emit(Instr::LocalSet(l.out_header));
    sink.emit(Instr::I32Const(0));
    sink.emit(Instr::LocalSet(l.i));
    Ok(())
}

fn emit_read_slot(source: u32, offset: u32, align: u32, into: u32, sink: &mut InstructionSink)
    ensures
        final(sink)@ == read_slot(source, offset, align, into, old(sink)@),
{
    sink.emit(Instr::LocalGet(source));
    sink.emit(Instr::Load(LoadOp::I32, mem_arg(offset, align)));
    sink.emit(Instr::LocalSet(into));
}

/// A range whose end is not behind its start has no entries. Neither has one
/// that is too long for any list.
fn emit_range_len(l: ForLocals, sink: &mut InstructionSink)
    ensures
        final(sink)@ == range_len_code(l, old(sink)@),
{
    sink.emit(Instr::LocalGet(l.second));
    sink.emit(Instr::LocalGet(l.first));
    sink.emit(Instr::I32(IntOp::Sub));
    sink.emit(Instr::LocalTee(l.len));
    sink.emit(Instr::LocalGet(l.len));
    sink.emit(Instr::I32Const(0));
    sink.emit(Instr::I32(IntOp::GtS));
    sink.emit(Instr::I32(IntOp::Mul));
    sink.emit(Instr::LocalGet(l.second));
    sink.emit(Instr::LocalGet(l.first));
    sink.emit(Instr::I32(IntOp::GtS));
    sink.emit(Instr::I32(IntOp::Mul));
    sink.emit(Instr::LocalSet(l.len));
}

fn emit_loop_head(l: ForLocals, sink: &mut InstructionSink)
    ensures
        final(sink)@ == loop_head(l, old(sink)@),
{
    sink.emit(Instr::Block(BlockType::Empty));
    sink.emit(Instr::Loop(BlockType::Empty));
    sink.emit(Instr::LocalGet(l.i));
    sink.emit(Instr::LocalGet(l.len));
    sink.emit(Instr::I32(IntOp::GeS));
    sink.emit(Instr::BrIf(1));
}

fn emit_element_address(buf: u32, i: u32, size: i32, sink: &mut InstructionSink)
    ensures
        final(sink)@ == element_address(buf, i, size, old(sink)@),
{
    sink.emit(Instr::LocalGet(buf));
    sink.emit(Instr::LocalGet(i));
    sink.emit(Instr::I32Const(size));
    sink.emit(Instr::I32(IntOp::Mul));
    sink.emit(Instr::I32(IntOp::Add));
}

fn emit_loop_tail(l: ForLocals, sink: &mut InstructionSink)
    ensures
        final(sink)@ == loop_tail(l, old(sink)@),
{
    sink.emit(Instr::LocalGet(l.i));
    sink.emit(Instr::I32Const(1));
    sink.emit(Instr::I32(IntOp::Add));
    sink.emit(Instr::LocalSet(l.i));
    sink.emit(Instr::Br(0));
    sink.emit(Instr::End);
    sink.emit(Instr::End);
}

/// Write the store of a loop body's value.
fn store_for_body_value(body_ty: &ResolvedType, f: FieldLayout, sink: &mut InstructionSink) -> (r:
    Result<(), LowerError>)
    ensures
        crate::lower::context::wrote(
            r,
            final(sink)@,
            match body_store(*body_ty, f) {
                Ok(i) => old(sink)@.emit(i).done(),
                Err(x) => old(sink)@.fail(x),
            },
        ),
{
    match body_ty {
        ResolvedType::Primitive(p) => {
            store_primitive(*p, f, sink);
            Ok(())
        },
        ResolvedType::Struct(_)
        | ResolvedType::Enum(_)
        | ResolvedType::Tuple(_)
        | ResolvedType::Array(_)
        | ResolvedType::Range(_) => {
            sink.emit(Instr::Store(StoreOp::I32, field_mem_arg(f)));
            Ok(())
        },
        _ => Err(not_yet(Missing::ForBody(body_ty.clone()))),
    }
}

/// Write the load of a loop's input element.
fn load_for_element(elem_ty: &ResolvedType, f: FieldLayout, sink: &mut InstructionSink) -> (r:
    Result<(), LowerError>)
    ensures
        crate::lower::context::wrote(
            r,
            final(sink)@,
            match for_element_load(*elem_ty, f) {
                Ok(i) => old(sink)@.emit(i).done(),
                Err(x) => old(sink)@.fail(x),
            },
        ),
{
    match elem_ty {
        ResolvedType::Primitive(p) => {
            load_primitive(*p, f, sink);
            Ok(())
        },
        ResolvedType::Struct(_)
        | ResolvedType::Enum(_)
        | ResolvedType::Tuple(_)
        | ResolvedType::Array(_) => {
            sink.emit(Instr::Load(LoadOp::I32, field_mem_arg(f)));
            Ok(())
        },
        _ => Err(not_yet(Missing::ForElement(elem_ty.clone()))),
    }
}

/// Write the loop body, the loop's end and the output header.
fn lower_for_body(
    body: &IrExpr,
    body_ty: &ResolvedType,
    out: ArrayLayout,
    size: i32,
    l: ForLocals,
    sink: &mut InstructionSink,
    ctx: &LowerContext<'_>,
) -> (r: Result<(), LowerError>)
    ensures
        crate::lower::context::wrote(
            r,
            final(sink)@,
            for_body_code(*body, *body_ty, out, size, l, ctx@, old(sink)@),
        ),
    decreases *body, 6int,
{
    emit_element_address(l.out_buf, l.i, size, sink);
    lower_expr(body, sink, ctx)?;
    store_for_body_value(body_ty, output_field_layout(out), sink)?;
    emit_loop_tail(l, sink);
    finalize_array_header(l.out_header, l.out_buf, HeaderLen::Local(l.len), sink);
    Ok(())
}

/// Lower a loop over a range: `var` runs from `start` by the index.
fn lower_for_range(
    expr: &IrExpr,
    bound: &ResolvedType,
    body_ty: &ResolvedType,
    var: u32,
    sink: &mut InstructionSink,
    ctx: &LowerContext<'_>,
) -> (r: Result<(), LowerError>)
    ensures
        crate::lower::context::wrote(
            r,
            final(sink)@,
            for_range_code(*expr, *bound, *body_ty, var, ctx@, old(sink)@),
        ),
    decreases *expr, 1int,
{
    match expr {
        IrExpr::For { collection, body, .. } => {
            let module = ctx.module()?;
            let range: RangeLayout = match plan_range(bound, module) {
                Ok(l) => l,
                Err(x) => return Err(LowerError::Layout(x)),
            };
            let out: ArrayLayout = match plan_array(body_ty, module) {
                Ok(l) => l,
                Err(x) => return Err(LowerError::Layout(x)),
            };
            let l: ForLocals = take_for_locals(sink)?;
            lower_expr(collection, sink, ctx)?;
            sink.emit(Instr::LocalSet(l.source));
            emit_read_slot(l.source, 0, range.bound_align, l.first, sink);
            emit_read_slot(l.source, range.end_offset, range.bound_align, l.second, sink);
            emit_range_len(l, sink);
            allocate_for_output(out, l, sink, ctx)?;
            let size: i32 = elem_size_signed(out)?;
            emit_loop_head(l, sink);
            sink.emit(Instr::LocalGet(l.first));
            sink.emit(Instr::LocalGet(l.i));
            sink.emit(Instr::I32(IntOp::Add));
            sink.emit(Instr::LocalSet(var));
            lower_for_body(body, body_ty, out, size, l, sink, ctx)
        },
        _ => Err(not_yet(Missing::NotA(ExprKind::For))),
    }
}

/// Lower a loop over an array: `var` is loaded from the input buffer.
fn lower_for_array(
    expr: &IrExpr,
    elem_ty: &ResolvedType,
    body_ty: &ResolvedType,
    var: u32,
    sink: &mut InstructionSink,
    ctx: &LowerContext<'_>,
) -> (r: Result<(), LowerError>)
    ensures
        crate::lower::context::wrote(
            r,
            final(sink)@,
            for_array_code(*expr, *elem_ty, *body_ty, var, ctx@, old(sink)@),
        ),
    decreases *expr, 1int,
{
    match expr {
        IrExpr::For { collection, body, .. } => {
            let module = ctx.module()?;
            let input: ArrayLayout = match plan_array(elem_ty, module) {
                Ok(l) => l,
                Err(x) => return Err(LowerError::Layout(x)),
            };
            let out: ArrayLayout = match plan_array(body_ty, module) {
                Ok(l) => l,
                Err(x) => return Err(LowerError::Layout(x)),
            };
            let l: ForLocals = take_for_locals(sink)?;
            lower_expr(collection, sink, ctx)?;
            sink.emit(Instr::LocalSet(l.source));
            emit_read_slot(
                l.source,
                ARRAY_HEADER_PTR_OFFSET,
                ARRAY_HEADER_ALIGN,
                l.first,
                sink,
            );
            emit_read_slot(l.source, ARRAY_HEADER_LEN_OFFSET, ARRAY_HEADER_ALIGN, l.len, sink);
            allocate_for_output(out, l, sink, ctx)?;
            let in_size: i32 = elem_size_signed(input)?;
            let out_size: i32 = elem_size_signed(out)?;
            emit_loop_head(l, sink);
            emit_element_address(l.first, l.i, in_size, sink);
            load_for_element(elem_ty, output_field_layout(input), sink)?;
            sink.emit(Instr::LocalSet(var));
            lower_for_body(body, body_ty, out, out_size, l, sink, ctx)
        },
        _ => Err(not_yet(Missing::NotA(ExprKind::For))),
    }
}

/// Lower a for-loop. Its value is the array of its body's values, one per
/// iteration.
pub fn lower_for(expr: &IrExpr, sink: &mut InstructionSink, ctx: &LowerContext<'_>) -> (r: Result<
    (),
    LowerError,
>)
    ensures
        crate::lower::context::wrote(
            r,
            final(sink)@,
            for_code(*expr, ctx@, old(sink)@),
        ),
    decreases *expr, 2int,
{
    match expr {
        IrExpr::For { var_ty, var_binding_id, collection, ty, .. } => {
            let (source, body_ty) = check_for_types(collection.ty(), var_ty, ty)?;
            let var: u32 = ctx.binding_local(*var_binding_id)?;
            match source {
                ForSource::Range(bound) => lower_for_range(expr, bound, body_ty, var, sink, ctx),
                ForSource::Array(elem) => lower_for_array(expr, elem, body_ty, var, sink, ctx),
            }
        },
        _ => Err(not_yet(Missing::NotA(ExprKind::For))),
    }
}

/// Whether an arm is for variant `v`.
pub open spec fn takes(arm: IrMatchArm, v: int) -> bool {
    !arm.is_wildcard && arm.variant_idx.0 == v
}

/// A match goes by its tag: the jump table has for every variant the last
/// arm for it, and where no arm is for it the default behind the arms.
pub proof fn law_tags_lead_to_their_arms(arms: Seq<IrMatchArm>, variants: nat, k: nat, v: int)
    requires
        k <= arms.len() <= u32::MAX,
        0 <= v < variants,
    ensures
        tag_targets(arms, variants, k).len() == variants,
        ({
            let target = tag_targets(arms, variants, k)[v] as int;
            ||| 0 <= target < k && takes(arms[target], v) && forall|i: int|
                target < i < k ==> !takes(#[trigger] arms[i], v)
            ||| target == arms.len() && forall|i: int| 0 <= i < k ==> !takes(#[trigger] arms[i], v)
        }),
    decreases k,
{
    if k > 0 {
        law_tags_lead_to_their_arms(arms, variants, (k - 1) as nat, v);
    }
}

} // verus!
