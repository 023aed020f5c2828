//! What every lowering keeps: it only appends code, the appended code is
//! well nested and names only locals of the function, and it takes no more
//! scratch locals than were counted.

use vstd::prelude::*;

use crate::instr::{Instr, ValType};
use crate::ir::{
    BinaryOperator, BindingId, FieldIdx, IrBlockStatement, IrExpr, IrField, IrFunctionParam,
    IrMatchArm, IrModule, ResolvedType,
};
use crate::layout::{ArrayLayout, EnumPlan, FieldLayout};
use crate::lower::block::ScratchCounts;
use crate::lower::context::{Cx, Out, Region, ScratchAllocator, SinkView};
use crate::lower::control::ForLocals;
use crate::lower::error::{ContextField, FieldOwner, LowerError};

verus! {

// ── nesting ──────────────────────────────────────────────────────────

/// By how much an instruction changes the number of open blocks.
pub open spec fn step(i: Instr) -> int {
    match i {
        Instr::Block(_) => 1,
        Instr::Loop(_) => 1,
        Instr::If(_) => 1,
        Instr::End => -1,
        _ => 0,
    }
}

/// Open blocks behind the first `k` instructions.
pub open spec fn level(code: Seq<Instr>, k: nat) -> int
    decreases k,
{
    if k == 0 {
        0
    } else {
        level(code, (k - 1) as nat) + step(code[k - 1])
    }
}

/// Instruction `i`, where `open` blocks are open, closes and targets only
/// blocks above `floor`.
pub open spec fn stays_above(i: Instr, open: int, floor: int) -> bool {
    match i {
        Instr::End => open > floor,
        Instr::Else => open > floor,
        Instr::Br(n) => open - n > floor,
        Instr::BrIf(n) => open - n > floor,
        Instr::BrTable { targets, default } => open - default > floor && forall|j: int|
            0 <= j < targets.seq().len() ==> open - #[trigger] targets.seq()[j] > floor,
        _ => true,
    }
}

/// The code from position `p` on opens `rise` blocks more than it closes,
/// and closes and targets only blocks that it opened itself.
pub open spec fn nested(code: Seq<Instr>, p: int, rise: int) -> bool {
    &&& 0 <= p <= code.len()
    &&& level(code, code.len()) == level(code, p as nat) + rise
    &&& forall|q: int|
        p <= q < code.len() ==> stays_above(
            #[trigger] code[q],
            level(code, q as nat),
            level(code, p as nat),
        )
}

proof fn lemma_level_of_prefix(a: Seq<Instr>, b: Seq<Instr>, k: nat)
    requires
        a.is_prefix_of(b),
        k <= a.len(),
    ensures
        level(b, k) == level(a, k),
    decreases k,
{
    if k > 0 {
        lemma_level_of_prefix(a, b, (k - 1) as nat);
        assert(b.subrange(0, a.len() as int)[k - 1] == a[k - 1]);
    }
}

proof fn lemma_prefix_of_push(a: Seq<Instr>, b: Seq<Instr>, i: Instr)
    requires
        a.is_prefix_of(b),
    ensures
        a.is_prefix_of(b.push(i)),
        b.is_prefix_of(b.push(i)),
{
    assert(b.push(i).subrange(0, a.len() as int) =~= b.subrange(0, a.len() as int));
    assert(b.push(i).subrange(0, b.len() as int) =~= b);
}

proof fn lemma_nested_push(code: Seq<Instr>, p: int, rise: int, i: Instr)
    requires
        nested(code, p, rise),
        stays_above(i, level(code, code.len()), level(code, p as nat)),
    ensures
        nested(code.push(i), p, rise + step(i)),
{
    let all = code.push(i);
    lemma_prefix_of_push(code, code, i);
    assert(code.is_prefix_of(all));
    lemma_level_of_prefix(code, all, code.len());
    lemma_level_of_prefix(code, all, p as nat);
    assert(level(all, all.len()) == level(all, code.len()) + step(i));
    assert forall|q: int| p <= q < all.len() implies stays_above(
        #[trigger] all[q],
        level(all, q as nat),
        level(all, p as nat),
    ) by {
        lemma_level_of_prefix(code, all, q as nat);
        if q < code.len() {
            assert(all[q] == code[q]);
        }
    }
}

proof fn lemma_nested_join(a: Seq<Instr>, b: Seq<Instr>, p: int, rise: int, more: int)
    requires
        a.is_prefix_of(b),
        nested(a, p, rise),
        rise >= 0,
        nested(b, a.len() as int, more),
    ensures
        nested(b, p, rise + more),
{
    lemma_level_of_prefix(a, b, a.len());
    lemma_level_of_prefix(a, b, p as nat);
    assert forall|q: int| p <= q < b.len() implies stays_above(
        #[trigger] b[q],
        level(b, q as nat),
        level(b, p as nat),
    ) by {
        if q < a.len() {
            lemma_level_of_prefix(a, b, q as nat);
            assert(b.subrange(0, a.len() as int)[q] == a[q]);
        }
    }
}

// ── scratch locals ───────────────────────────────────────────────────

/// A number of scratch locals of each type.
pub struct Amount {
    pub i32_slots: nat,
    pub i64_slots: nat,
    pub f32_slots: nat,
    pub f64_slots: nat,
}

impl Amount {
    /// Both numbers together.
    pub open spec fn plus(self, other: Amount) -> Amount {
        Amount {
            i32_slots: self.i32_slots + other.i32_slots,
            i64_slots: self.i64_slots + other.i64_slots,
            f32_slots: self.f32_slots + other.f32_slots,
            f64_slots: self.f64_slots + other.f64_slots,
        }
    }

    /// Whether this is at most `other`, for every type.
    pub open spec fn within(self, other: Amount) -> bool {
        &&& self.i32_slots <= other.i32_slots
        &&& self.i64_slots <= other.i64_slots
        &&& self.f32_slots <= other.f32_slots
        &&& self.f64_slots <= other.f64_slots
    }
}

/// No scratch local.
pub open spec fn none() -> Amount {
    Amount { i32_slots: 0, i64_slots: 0, f32_slots: 0, f64_slots: 0 }
}

/// One scratch local of type `ty`.
pub open spec fn one(ty: ValType) -> Amount {
    match ty {
        ValType::I32 => Amount { i32_slots: 1, ..none() },
        ValType::I64 => Amount { i64_slots: 1, ..none() },
        ValType::F32 => Amount { f32_slots: 1, ..none() },
        ValType::F64 => Amount { f64_slots: 1, ..none() },
    }
}

/// Whether no count is smaller afterwards.
pub open spec fn counted(c: ScratchCounts, after: ScratchCounts) -> bool {
    &&& c.i32_slots <= after.i32_slots
    &&& c.i64_slots <= after.i64_slots
    &&& c.f32_slots <= after.f32_slots
    &&& c.f64_slots <= after.f64_slots
}

/// What was counted in between.
pub open spec fn between(c: ScratchCounts, after: ScratchCounts) -> Amount {
    Amount {
        i32_slots: (after.i32_slots - c.i32_slots) as nat,
        i64_slots: (after.i64_slots - c.i64_slots) as nat,
        f32_slots: (after.f32_slots - c.f32_slots) as nat,
        f64_slots: (after.f64_slots - c.f64_slots) as nat,
    }
}

/// At most `n` slots of a region were handed out.
pub open spec fn region_took(a: Region, b: Region, n: nat) -> bool {
    a.base == b.base && a.count == b.count && a.used <= b.used <= a.used + n
}

/// At most `n` scratch locals were handed out.
pub open spec fn took(a: Option<ScratchAllocator>, b: Option<ScratchAllocator>, n: Amount) -> bool {
    match (a, b) {
        (None, None) => true,
        (Some(x), Some(y)) => {
            &&& region_took(x.i32_slots, y.i32_slots, n.i32_slots)
            &&& region_took(x.i64_slots, y.i64_slots, n.i64_slots)
            &&& region_took(x.f32_slots, y.f32_slots, n.f32_slots)
            &&& region_took(x.f64_slots, y.f64_slots, n.f64_slots)
        },
        _ => false,
    }
}

/// A region has `n` more slots.
pub open spec fn region_has(r: Region, n: nat) -> bool {
    r.used + n <= r.count && r.base + r.count <= u32::MAX
}

/// There are `n` more scratch locals.
pub open spec fn has_room(a: Option<ScratchAllocator>, n: Amount) -> bool {
    match a {
        None => false,
        Some(x) => {
            &&& region_has(x.i32_slots, n.i32_slots)
            &&& region_has(x.i64_slots, n.i64_slots)
            &&& region_has(x.f32_slots, n.f32_slots)
            &&& region_has(x.f64_slots, n.f64_slots)
        },
    }
}

/// Whether an error says that scratch locals ran out.
pub open spec fn ran_out(x: LowerError) -> bool {
    match x {
        LowerError::MissingContext { what } => what == ContextField::ScratchLocals,
        LowerError::NotYetImplemented { what } => what is ScratchUnderCounted || what
            is ScratchIndex,
        _ => false,
    }
}

// ── locals ───────────────────────────────────────────────────────────

/// The larger of two numbers.
pub open spec fn larger(a: int, b: int) -> int {
    if a >= b {
        a
    } else {
        b
    }
}

/// The index behind all scratch locals. Without scratch locals, that behind
/// all 32-bit indices.
#[verifier::opaque]
pub open spec fn top(a: Option<ScratchAllocator>) -> int {
    match a {
        None => u32::MAX + 1,
        Some(x) => larger(
            larger(
                x.i32_slots.base + x.i32_slots.count,
                x.i64_slots.base + x.i64_slots.count,
            ),
            larger(
                x.f32_slots.base + x.f32_slots.count,
                x.f64_slots.base + x.f64_slots.count,
            ),
        ),
    }
}

/// An instruction names no local from `limit` on, other than the first one,
/// which is where a method finds `self`.
pub open spec fn names_below(i: Instr, limit: int) -> bool {
    match i {
        Instr::LocalGet(x) => x < limit || x == 0,
        Instr::LocalSet(x) => x < limit,
        Instr::LocalTee(x) => x < limit,
        _ => true,
    }
}

/// So do all instructions from position `p` on.
pub open spec fn all_below(code: Seq<Instr>, p: int, limit: int) -> bool {
    forall|q: int| p <= q < code.len() ==> names_below(#[trigger] code[q], limit)
}

/// The bindings of a context are locals below `limit`.
#[verifier::opaque]
pub open spec fn placed(cx: Cx, limit: int) -> bool {
    forall|id: u32| #[trigger] cx.bindings.dom().contains(id) ==> cx.bindings[id] < limit
}

/// A binding is a local below the limit.
broadcast proof fn lemma_binding(cx: Cx, limit: int, id: BindingId)
    requires
        #[trigger] placed(cx, limit),
    ensures
        (#[trigger] cx.local_of(id)) matches Ok(local) ==> local < limit,
{
    reveal(placed);
}

/// An empty sink without scratch locals.
pub open spec fn blank() -> SinkView {
    SinkView { code: Seq::empty(), scratch: None }
}

/// In a blank sink every context is placed.
proof fn lemma_blank(cx: Cx)
    ensures
        placed(cx, top(blank().scratch)),
        top(blank().scratch) > 0,
{
    reveal(placed);
    reveal(top);
}

// ── progress of a lowering ───────────────────────────────────────────

/// A lowering that began with `s0` has come to `s`: it appended code that
/// has `rise` blocks open and names only locals below the end of the scratch
/// locals, and took at most `n` scratch locals.
#[verifier::opaque]
pub open spec fn reached(s0: SinkView, s: SinkView, n: Amount, rise: int) -> bool {
    &&& s0.code.is_prefix_of(s.code)
    &&& took(s0.scratch, s.scratch, n)
    &&& nested(s.code, s0.code.len() as int, rise)
    &&& all_below(s.code, s0.code.len() as int, top(s0.scratch))
    &&& rise >= 0
}

/// A lowering with `n` counted scratch locals kept its promises: it appended
/// code, well nested and with known locals unless it failed, took at most `n`
/// scratch locals, and did not run out of them where there were as many.
#[verifier::opaque]
pub open spec fn lawful(s: SinkView, o: Out, n: Amount) -> bool {
    &&& s.code.is_prefix_of(o.sink.code)
    &&& took(s.scratch, o.sink.scratch, n)
    &&& match o.err {
        None => nested(o.sink.code, s.code.len() as int, 0) && all_below(
            o.sink.code,
            s.code.len() as int,
            top(s.scratch),
        ),
        Some(x) => has_room(s.scratch, n) ==> !ran_out(x),
    }
}

/// An instruction that neither opens nor closes nor targets blocks.
pub open spec fn is_plain(i: Instr) -> bool {
    match i {
        Instr::Block(_) => false,
        Instr::Loop(_) => false,
        Instr::If(_) => false,
        Instr::Else => false,
        Instr::End => false,
        Instr::Br(_) => false,
        Instr::BrIf(_) => false,
        Instr::BrTable { .. } => false,
        _ => true,
    }
}

/// An instruction that opens a block.
pub open spec fn opens(i: Instr) -> bool {
    i is Block || i is Loop || i is If
}

/// A lowering begins where it begins.
pub broadcast proof fn lemma_start(s: SinkView, n: Amount)
    ensures
        #[trigger] reached(s, s, n, 0),
{
    reveal(reached);
    assert(s.code.subrange(0, s.code.len() as int) =~= s.code);
}

/// A plain instruction keeps the open blocks.
pub broadcast proof fn lemma_plain(s0: SinkView, s: SinkView, n: Amount, rise: int, i: Instr)
    requires
        is_plain(i),
        names_below(i, top(s0.scratch)),
        reached(s0, s, n, rise),
    ensures
        #[trigger] reached(s0, s.emit(i), n, rise),
{
    reveal(reached);
    lemma_prefix_of_push(s0.code, s.code, i);
    lemma_nested_push(s.code, s0.code.len() as int, rise, i);
}

/// A block is opened.
pub proof fn lemma_open(s0: SinkView, s: SinkView, n: Amount, rise: int, i: Instr)
    requires
        opens(i),
        reached(s0, s, n, rise),
    ensures
        reached(s0, s.emit(i), n, rise + 1),
{
    reveal(reached);
    lemma_prefix_of_push(s0.code, s.code, i);
    lemma_nested_push(s.code, s0.code.len() as int, rise, i);
}

/// A block is closed.
pub proof fn lemma_end(s0: SinkView, s: SinkView, n: Amount, rise: int)
    requires
        reached(s0, s, n, rise),
        rise > 0,
    ensures
        reached(s0, s.emit(Instr::End), n, rise - 1),
{
    reveal(reached);
    lemma_prefix_of_push(s0.code, s.code, Instr::End);
    lemma_nested_push(s.code, s0.code.len() as int, rise, Instr::End);
}

/// The other branch of an open block, or a branch to an open block.
pub proof fn lemma_branch(s0: SinkView, s: SinkView, n: Amount, rise: int, i: Instr)
    requires
        reached(s0, s, n, rise),
        stays_above(i, rise, 0),
        step(i) == 0,
        names_below(i, top(s0.scratch)),
    ensures
        reached(s0, s.emit(i), n, rise),
{
    reveal(reached);
    lemma_prefix_of_push(s0.code, s.code, i);
    lemma_nested_push(s.code, s0.code.len() as int, rise, i);
}

/// Taking scratch locals does not move their end.
broadcast proof fn lemma_top(s0: SinkView, s: SinkView, n: Amount, rise: int)
    requires
        #[trigger] reached(s0, s, n, rise),
    ensures
        top(s.scratch) == top(s0.scratch),
{
    reveal(reached);
    reveal(top);
}

/// Neither does a part, even where it fails.
broadcast proof fn lemma_part_top(s: SinkView, o: Out, n: Amount)
    requires
        #[trigger] lawful(s, o, n),
    ensures
        top(o.sink.scratch) == top(s.scratch),
{
    reveal(lawful);
    reveal(top);
}

/// A scratch local is taken.
pub proof fn lemma_scratch(s0: SinkView, s: SinkView, n: Amount, rise: int, ty: ValType, all: Amount)
    requires
        reached(s0, s, n, rise),
        n.plus(one(ty)).within(all),
    ensures
        match s.scratch_local(ty) {
            Ok((local, s1)) => reached(s0, s1, n.plus(one(ty)), rise) && local < top(s0.scratch),
            Err(x) => lawful(s0, s.fail(x), all),
        },
{
    reveal(reached);
    reveal(lawful);
    reveal(top);
}

/// A part is lowered. Where it fails, the whole fails.
pub proof fn lemma_part(
    s0: SinkView,
    s: SinkView,
    n: Amount,
    rise: int,
    o: Out,
    k: Amount,
    all: Amount,
)
    requires
        reached(s0, s, n, rise),
        lawful(s, o, k),
        n.plus(k).within(all),
    ensures
        o.err is None ==> reached(s0, o.sink, n.plus(k), rise),
        o.err is Some ==> lawful(s0, o, all),
{
    reveal(reached);
    reveal(lawful);
    assert(s0.code =~= o.sink.code.subrange(0, s0.code.len() as int)) by {
        assert forall|q: int| 0 <= q < s0.code.len() implies s0.code[q] == o.sink.code[q] by {
            assert(s.code.subrange(0, s0.code.len() as int)[q] == s0.code[q]);
            assert(o.sink.code.subrange(0, s.code.len() as int)[q] == s.code[q]);
        }
    }
    lemma_top(s0, s, n, rise);
    if o.err is None {
        assert forall|q: int| s0.code.len() <= q < o.sink.code.len() implies names_below(
            #[trigger] o.sink.code[q],
            top(s0.scratch),
        ) by {
            if q < s.code.len() {
                assert(o.sink.code.subrange(0, s.code.len() as int)[q] == s.code[q]);
            }
        }
        lemma_nested_join(s.code, o.sink.code, s0.code.len() as int, rise, 0);
    }
}

/// A lowering ends with all its blocks closed.
pub proof fn lemma_done(s0: SinkView, s: SinkView, n: Amount, all: Amount)
    requires
        reached(s0, s, n, 0),
        n.within(all),
    ensures
        lawful(s0, s.done(), all),
{
    reveal(reached);
    reveal(lawful);
}

/// A lowering fails on its way.
pub proof fn lemma_fail(s0: SinkView, s: SinkView, n: Amount, rise: int, x: LowerError, all: Amount)
    requires
        reached(s0, s, n, rise),
        n.within(all),
        !ran_out(x),
    ensures
        lawful(s0, s.fail(x), all),
{
    reveal(reached);
    reveal(lawful);
}

/// A lowering fails before it wrote anything.
pub broadcast proof fn lemma_fail_at_once(s: SinkView, x: LowerError, n: Amount)
    requires
        !ran_out(x),
    ensures
        #[trigger] lawful(s, s.fail(x), n),
{
    lemma_start(s, none());
    lemma_fail(s, s, none(), 0, x, n);
}

// ── expressions ──────────────────────────────────────────────────────

proof fn lemma_bumped(c: ScratchCounts, ty: ValType)
    ensures
        crate::lower::block::bumped(c, ty) matches Ok(c1) ==> counted(c, c1) && between(c, c1)
            == one(ty),
{
}

proof fn lemma_allocation(
    s0: SinkView,
    s: SinkView,
    n: Amount,
    rise: int,
    size: u32,
    cx: Cx,
    all: Amount,
)
    requires
        reached(s0, s, n, rise),
        n.plus(one(ValType::I32)).within(all),
    ensures
        match crate::lower::aggregate::allocation(size, cx, s) {
            Ok((base, s1)) => reached(s0, s1, n.plus(one(ValType::I32)), rise) && base < top(
                s0.scratch,
            ),
            Err(x) => lawful(s0, s.fail(x), all),
        },
{
    broadcast use lemma_plain;

    lemma_scratch(s0, s, n, rise, ValType::I32, all);
    match crate::lower::aggregate::allocation(size, cx, s) {
        Ok((_, s1)) => {
            assert(reached(s0, s1, n.plus(one(ValType::I32)), rise));
        },
        Err(x) => {
            if !ran_out(x) {
                lemma_fail(s0, s, n, rise, x, all);
            }
        },
    }
}

proof fn lemma_literal(e: IrExpr, cx: Cx, s: SinkView, m: IrModule, c: ScratchCounts)
    requires
        placed(cx, top(s.scratch)),
        e is Literal,
    ensures
        crate::lower::block::expr_counts(e, m, c) matches Ok(c1) ==> counted(c, c1) && lawful(
            s,
            crate::lower::literal::literal_code(e, cx, s),
            between(c, c1),
        ),
{
    broadcast use {
        lemma_start,
        lemma_plain,
        lemma_fail_at_once,
        lemma_top,
        lemma_part_top,
        lemma_binding,
    };

    reveal_with_fuel(crate::lower::block::bumped_by, 3);
    if let Ok(c1) = crate::lower::block::expr_counts(e, m, c) {
        let all = between(c, c1);
        if let IrExpr::Literal { value, ty } = e {
            if value is Nil {
                lemma_bumped(c, ValType::I32);
                lemma_scratch(s, s, none(), 0, ValType::I32, all);
                if ty is Optional && cx.spec_bump_allocator() is Ok {
                    if let Ok((_, s1)) = s.scratch_local(ValType::I32) {
                        let o = crate::lower::literal::literal_code(e, cx, s);
                        assert(reached(s, o.sink, none().plus(one(ValType::I32)), 0));
                        lemma_done(s, o.sink, none().plus(one(ValType::I32)), all);
                    }
                }
            } else {
                let o = crate::lower::literal::literal_code(e, cx, s);
                if o.err is None {
                    assert(reached(s, o.sink, none(), 0));
                    lemma_done(s, o.sink, none(), all);
                }
            }
        }
    }
}

proof fn lemma_leaf(e: IrExpr, cx: Cx, s: SinkView)
    requires
        placed(cx, top(s.scratch)),
        e is Reference || e is LetRef || e is SelfFieldRef || e is Closure || e is DictLiteral,
    ensures
        lawful(s, crate::lower::expr_code(e, cx, s), none()),
{
    broadcast use {
        lemma_start,
        lemma_plain,
        lemma_fail_at_once,
        lemma_top,
        lemma_part_top,
        lemma_binding,
    };

    let o = crate::lower::expr_code(e, cx, s);
    if o.err is None {
        assert(reached(s, o.sink, none(), 0));
        lemma_done(s, o.sink, none(), none());
    }
}

/// Lowering an expression keeps the promises of [`lawful`].
pub proof fn law_expr(e: IrExpr, cx: Cx, s: SinkView, m: IrModule, c: ScratchCounts)
    requires
        cx.module == Some(m),
        placed(cx, top(s.scratch)),
    ensures
        crate::lower::block::expr_counts(e, m, c) matches Ok(c1) ==> counted(c, c1) && lawful(
            s,
            crate::lower::expr_code(e, cx, s),
            between(c, c1),
        ),
    decreases e, 3int,
{
    match e {
        IrExpr::Literal { .. } => lemma_literal(e, cx, s, m, c),
        IrExpr::Reference { .. } => lemma_leaf(e, cx, s),
        IrExpr::LetRef { .. } => lemma_leaf(e, cx, s),
        IrExpr::SelfFieldRef { .. } => lemma_leaf(e, cx, s),
        IrExpr::Closure { .. } => lemma_leaf(e, cx, s),
        IrExpr::DictLiteral { .. } => lemma_leaf(e, cx, s),
        IrExpr::BinaryOp { .. } => lemma_binary(e, cx, s, m, c),
        IrExpr::UnaryOp { .. } => lemma_unary(e, cx, s, m, c),
        IrExpr::If { .. } => lemma_if(e, cx, s, m, c),
        IrExpr::Match { .. } => lemma_match(e, cx, s, m, c),
        IrExpr::For { .. } => lemma_for(e, cx, s, m, c),
        IrExpr::Block { .. } => lemma_block(e, cx, s, m, c),
        IrExpr::FunctionCall { .. } => lemma_function_call(e, cx, s, m, c),
        IrExpr::CallClosure { .. } => lemma_closure_call(e, cx, s, m, c),
        IrExpr::MethodCall { .. } => lemma_method_call(e, cx, s, m, c),
        IrExpr::StructInst { .. } => lemma_struct(e, cx, s, m, c),
        IrExpr::EnumInst { .. } => lemma_enum(e, cx, s, m, c),
        IrExpr::Tuple { .. } => lemma_tuple(e, cx, s, m, c),
        IrExpr::Array { .. } => lemma_array(e, cx, s, m, c),
        IrExpr::FieldAccess { .. } => lemma_field_access(e, cx, s, m, c),
        IrExpr::DictAccess { .. } => lemma_index(e, cx, s, m, c),
        IrExpr::ClosureRef { .. } => lemma_closure_ref(e, cx, s, m, c),
    }
}

/// Lowering an expression into a slot keeps the promises of [`lawful`].
pub proof fn law_coerced(
    e: IrExpr,
    target: ResolvedType,
    cx: Cx,
    s: SinkView,
    m: IrModule,
    c: ScratchCounts,
)
    requires
        cx.module == Some(m),
        placed(cx, top(s.scratch)),
    ensures
        crate::lower::block::coerced_counts(e, target, m, c) matches Ok(c1) ==> counted(c, c1)
            && lawful(
            s,
            crate::lower::optional::coerced_code(e, target, cx, s),
            between(c, c1),
        ),
    decreases e, 5int,
{
    broadcast use {
        lemma_start,
        lemma_plain,
        lemma_fail_at_once,
        lemma_top,
        lemma_part_top,
        lemma_binding,
    };

    if let Ok(c1) = crate::lower::block::coerced_counts(e, target, m, c) {
        match crate::lower::optional::wrap_payload(target, e.spec_ty()) {
            None => law_expr(e, cx, s, m, c),
            Some(payload) => {
                let vt = crate::lower::optional::payload_scratch(payload)->Ok_0;
                lemma_bumped(c, ValType::I32);
                let ca = crate::lower::block::bumped(c, ValType::I32)->Ok_0;
                lemma_bumped(ca, vt);
                let cb = crate::lower::block::bumped(ca, vt)->Ok_0;
                law_expr(e, cx, s, m, cb);
                let all = between(c, c1);
                let k = between(cb, c1);
                let n1 = none().plus(one(vt));
                lemma_scratch(s, s, none(), 0, vt, all);
                if payload is Primitive && crate::layout::optional_plan(payload) is Ok {
                    let layout = crate::layout::optional_plan(payload)->Ok_0;
                    if let Ok((_, s1)) = s.scratch_local(vt) {
                        law_expr(e, cx, s1, m, cb);
                        let o = crate::lower::expr_code(e, cx, s1);
                        lemma_part(s, s1, n1, 0, o, k, all);
                        if o.err is None {
                            let value = (s.scratch_local(vt)->Ok_0).0;
                            let s2 = o.sink.emit(Instr::LocalSet(value));
                            let n2 = n1.plus(k);
                            assert(reached(s, s2, n2, 0));
                            lemma_allocation(s, s2, n2, 0, layout.size, cx, all);
                            if crate::lower::aggregate::allocation(layout.size, cx, s2) is Ok {
                                let end = crate::lower::optional::coerced_code(e, target, cx, s);
                                let n3 = n2.plus(one(ValType::I32));
                                assert(reached(s, end.sink, n3, 0));
                                lemma_done(s, end.sink, n3, all);
                            }
                        }
                    }
                }
            },
        }
    }
}

proof fn lemma_unary(e: IrExpr, cx: Cx, s: SinkView, m: IrModule, c: ScratchCounts)
    requires
        cx.module == Some(m),
        placed(cx, top(s.scratch)),
        e is UnaryOp,
    ensures
        crate::lower::block::expr_counts(e, m, c) matches Ok(c1) ==> counted(c, c1) && lawful(
            s,
            crate::lower::unary_op::unary_code(e, cx, s),
            between(c, c1),
        ),
    decreases e, 2int,
{
    broadcast use {
        lemma_start,
        lemma_plain,
        lemma_fail_at_once,
        lemma_top,
        lemma_part_top,
        lemma_binding,
    };

    if let Ok(c1) = crate::lower::block::expr_counts(e, m, c) {
        let all = between(c, c1);
        if let IrExpr::UnaryOp { op, operand, .. } = e {
            law_expr(*operand, cx, s, m, c);
            if let ResolvedType::Primitive(p) = operand.spec_ty() {
                if let Some(behind) = crate::lower::unary_op::unary_instr(op, p) {
                    let s1 = match crate::lower::unary_op::unary_prefix(op, p) {
                        Some(before) => s.emit(before),
                        None => s,
                    };
                    assert(reached(s, s1, none(), 0));
                    law_expr(*operand, cx, s1, m, c);
                    let o = crate::lower::expr_code(*operand, cx, s1);
                    lemma_part(s, s1, none(), 0, o, all, all);
                    if o.err is None {
                        let end = o.sink.emit(behind);
                        assert(reached(s, end, none().plus(all), 0));
                        lemma_done(s, end, none().plus(all), all);
                    }
                }
            }
        }
    }
}

/// Two parts in a row, with code before and between them.
proof fn lemma_two_parts(
    s0: SinkView,
    s: SinkView,
    n: Amount,
    rise: int,
    o1: Out,
    k1: Amount,
    s1: SinkView,
    o2: Out,
    k2: Amount,
    all: Amount,
)
    requires
        reached(s0, s, n, rise),
        lawful(s, o1, k1),
        o1.err is None ==> (reached(s0, o1.sink, n.plus(k1), rise) ==> reached(
            s0,
            s1,
            n.plus(k1),
            rise,
        )),
        o1.err is None ==> lawful(s1, o2, k2),
        n.plus(k1).plus(k2).within(all),
    ensures
        o1.err is Some ==> lawful(s0, o1, all),
        o1.err is None && o2.err is Some ==> lawful(s0, o2, all),
        o1.err is None && o2.err is None ==> reached(s0, o2.sink, n.plus(k1).plus(k2), rise),
{
    lemma_part(s0, s, n, rise, o1, k1, all);
    if o1.err is None {
        lemma_part(s0, s1, n.plus(k1), rise, o2, k2, all);
    }
}

proof fn lemma_binary(e: IrExpr, cx: Cx, s: SinkView, m: IrModule, c: ScratchCounts)
    requires
        cx.module == Some(m),
        placed(cx, top(s.scratch)),
        e is BinaryOp,
    ensures
        crate::lower::block::expr_counts(e, m, c) matches Ok(c1) ==> counted(c, c1) && lawful(
            s,
            crate::lower::binary_op::binary_code(e, cx, s),
            between(c, c1),
        ),
    decreases e, 2int,
{
    broadcast use {
        lemma_start,
        lemma_plain,
        lemma_fail_at_once,
        lemma_top,
        lemma_part_top,
        lemma_binding,
    };

    reveal_with_fuel(crate::lower::block::bumped_by, 3);
    if let Ok(c1) = crate::lower::block::expr_counts(e, m, c) {
        let all = between(c, c1);
        if let IrExpr::BinaryOp { left, op, right, ty } = e {
            let ca = crate::lower::block::bumped_by(
                c,
                ValType::I32,
                if op == BinaryOperator::Range {
                    1
                } else {
                    0
                },
            )->Ok_0;
            lemma_bumped(c, ValType::I32);
            law_expr(*left, cx, s, m, ca);
            let cb = crate::lower::block::expr_counts(*left, m, ca)->Ok_0;
            law_expr(*right, cx, s, m, cb);
            let k1 = between(ca, cb);
            let k2 = between(cb, c1);
            let o = crate::lower::binary_op::binary_code(e, cx, s);
            if op == BinaryOperator::Range {
                if let Some(bound) = crate::compound::bound_type(ty, m) {
                    lemma_range(bound, e, cx, s, m, c);
                }
            } else if let ResolvedType::Primitive(p) = left.spec_ty() {
                let o1 = crate::lower::expr_code(*left, cx, s);
                law_expr(*right, cx, o1.sink, m, cb);
                let o2 = crate::lower::expr_code(*right, cx, o1.sink);
                lemma_two_parts(s, s, none(), 0, o1, k1, o1.sink, o2, k2, all);
                let n = none().plus(k1).plus(k2);
                if o1.err is None && o2.err is None {
                    if o.err is None {
                        assert(reached(s, o.sink, n, 0));
                        lemma_done(s, o.sink, n, all);
                    } else if o.sink == o2.sink && o != s.fail(o.err->0) {
                        lemma_fail(s, o2.sink, n, 0, o.err->0, all);
                    }
                }
            }
        }
    }
}

proof fn lemma_range(bound: ResolvedType, e: IrExpr, cx: Cx, s: SinkView, m: IrModule, c: ScratchCounts)
    requires
        cx.module == Some(m),
        placed(cx, top(s.scratch)),
        e matches IrExpr::BinaryOp { op, .. } && op == BinaryOperator::Range,
    ensures
        crate::lower::block::expr_counts(e, m, c) matches Ok(c1) ==> counted(c, c1) && lawful(
            s,
            crate::lower::aggregate::range_code(bound, e, cx, s),
            between(c, c1),
        ),
    decreases e, 1int,
{
    broadcast use {
        lemma_start,
        lemma_plain,
        lemma_fail_at_once,
        lemma_top,
        lemma_part_top,
        lemma_binding,
    };

    reveal_with_fuel(crate::lower::block::bumped_by, 3);
    if let Ok(c1) = crate::lower::block::expr_counts(e, m, c) {
        let all = between(c, c1);
        if let IrExpr::BinaryOp { left, right, .. } = e {
            lemma_bumped(c, ValType::I32);
            let ca = crate::lower::block::bumped(c, ValType::I32)->Ok_0;
            law_expr(*left, cx, s, m, ca);
            let cb = crate::lower::block::expr_counts(*left, m, ca)->Ok_0;
            law_expr(*right, cx, s, m, cb);
            let k1 = between(ca, cb);
            let k2 = between(cb, c1);
            if let Ok(layout) = crate::layout::range_plan(bound) {
                if let Ok(p) = crate::lower::aggregate::as_primitive(bound) {
                    lemma_allocation(s, s, none(), 0, layout.size, cx, all);
                    if let Ok((base, s1)) = crate::lower::aggregate::allocation(
                        layout.size,
                        cx,
                        s,
                    ) {
                        let n1 = none().plus(one(ValType::I32));
                        let sa = s1.emit(Instr::LocalGet(base));
                        assert(reached(s, sa, n1, 0));
                        law_expr(*left, cx, sa, m, ca);
                        let o1 = crate::lower::expr_code(*left, cx, sa);
                        let sb = o1.sink.emit(
                            crate::lower::aggregate::primitive_store(
                                p,
                                crate::lower::aggregate::bound_slot(layout, 0),
                            ),
                        ).emit(Instr::LocalGet(base));
                        if reached(s, o1.sink, n1.plus(k1), 0) {
                            assert(reached(s, sb, n1.plus(k1), 0));
                        }
                        law_expr(*right, cx, sb, m, cb);
                        let o2 = crate::lower::expr_code(*right, cx, sb);
                        lemma_two_parts(s, sa, n1, 0, o1, k1, sb, o2, k2, all);
                        if o1.err is None && o2.err is None {
                            let o = crate::lower::aggregate::range_code(bound, e, cx, s);
                            let n = n1.plus(k1).plus(k2);
                            assert(reached(s, o.sink, n, 0));
                            lemma_done(s, o.sink, n, all);
                        }
                    }
                }
            }
        }
    }
}

proof fn lemma_if(e: IrExpr, cx: Cx, s: SinkView, m: IrModule, c: ScratchCounts)
    requires
        cx.module == Some(m),
        placed(cx, top(s.scratch)),
        e is If,
    ensures
        crate::lower::block::expr_counts(e, m, c) matches Ok(c1) ==> counted(c, c1) && lawful(
            s,
            crate::lower::control::if_code(e, cx, s),
            between(c, c1),
        ),
    decreases e, 2int,
{
    broadcast use {lemma_start, lemma_fail_at_once, lemma_top, lemma_part_top};

    if let Ok(c1) = crate::lower::block::expr_counts(e, m, c) {
        let all = between(c, c1);
        if let IrExpr::If { condition, then_branch, else_branch, ty } = e {
            law_expr(*condition, cx, s, m, c);
            let ca = crate::lower::block::expr_counts(*condition, m, c)->Ok_0;
            law_coerced(*then_branch, ty, cx, s, m, ca);
            let cb = crate::lower::block::coerced_counts(*then_branch, ty, m, ca)->Ok_0;
            if let Some(other) = else_branch {
                law_coerced(*other, ty, cx, s, m, cb);
            }
            let k1 = between(c, ca);
            let k2 = between(ca, cb);
            if let Ok(v) = crate::types::strict_val(ty) {
                let o1 = crate::lower::expr_code(*condition, cx, s);
                lemma_part(s, s, none(), 0, o1, k1, all);
                if o1.err is None {
                    let open = Instr::If(crate::lower::control::block_of(v));
                    let s1 = o1.sink.emit(open);
                    lemma_open(s, o1.sink, none().plus(k1), 0, open);
                    law_coerced(*then_branch, ty, cx, s1, m, ca);
                    let o2 = crate::lower::optional::coerced_code(*then_branch, ty, cx, s1);
                    lemma_part(s, s1, none().plus(k1), 1, o2, k2, all);
                    if o2.err is None {
                        let n2 = none().plus(k1).plus(k2);
                        match else_branch {
                            None => {
                                lemma_end(s, o2.sink, n2, 1);
                                lemma_done(s, o2.sink.emit(Instr::End), n2, all);
                            },
                            Some(other) => {
                                let s2 = o2.sink.emit(Instr::Else);
                                lemma_branch(s, o2.sink, n2, 1, Instr::Else);
                                law_coerced(*other, ty, cx, s2, m, cb);
                                let o3 = crate::lower::optional::coerced_code(*other, ty, cx, s2);
                                let k3 = between(cb, c1);
                                lemma_part(s, s2, n2, 1, o3, k3, all);
                                if o3.err is None {
                                    let n3 = n2.plus(k3);
                                    lemma_end(s, o3.sink, n3, 1);
                                    lemma_done(s, o3.sink.emit(Instr::End), n3, all);
                                }
                            },
                        }
                    }
                }
            }
        }
    }
}

proof fn lemma_args(
    args: Seq<(Option<String>, IrExpr)>,
    i: int,
    params: Option<Seq<IrFunctionParam>>,
    cx: Cx,
    s: SinkView,
    m: IrModule,
    c: ScratchCounts,
)
    requires
        cx.module == Some(m),
        placed(cx, top(s.scratch)),
    ensures
        crate::lower::block::args_counts(args, i, params, m, c) matches Ok(c1) ==> counted(c, c1)
            && lawful(
            s,
            crate::lower::call::args_code(args, i, params, cx, s),
            between(c, c1),
        ),
    decreases args, args.len() - i,
{
    broadcast use lemma_start;

    if let Ok(c1) = crate::lower::block::args_counts(args, i, params, m, c) {
        let all = between(c, c1);
        if 0 <= i < args.len() {
            let target = crate::lower::call::arg_target(params, args[i].0);
            let ca = match target {
                Some(t) => {
                    law_coerced(args[i].1, t, cx, s, m, c);
                    crate::lower::block::coerced_counts(args[i].1, t, m, c)->Ok_0
                },
                None => {
                    law_expr(args[i].1, cx, s, m, c);
                    crate::lower::block::expr_counts(args[i].1, m, c)->Ok_0
                },
            };
            let o = match target {
                Some(t) => crate::lower::optional::coerced_code(args[i].1, t, cx, s),
                None => crate::lower::expr_code(args[i].1, cx, s),
            };
            lemma_part_top(s, o, between(c, ca));
            lemma_args(args, i + 1, params, cx, o.sink, m, ca);
            let rest = crate::lower::call::args_code(args, i + 1, params, cx, o.sink);
            lemma_two_parts(
                s,
                s,
                none(),
                0,
                o,
                between(c, ca),
                o.sink,
                rest,
                between(ca, c1),
                all,
            );
            if o.err is None && rest.err is None {
                lemma_done(s, rest.sink, none().plus(between(c, ca)).plus(between(ca, c1)), all);
            }
        } else {
            lemma_done(s, s, none(), all);
        }
    }
}

proof fn lemma_function_call(e: IrExpr, cx: Cx, s: SinkView, m: IrModule, c: ScratchCounts)
    requires
        cx.module == Some(m),
        placed(cx, top(s.scratch)),
        e is FunctionCall,
    ensures
        crate::lower::block::expr_counts(e, m, c) matches Ok(c1) ==> counted(c, c1) && lawful(
            s,
            crate::lower::call::function_call_code(e, cx, s),
            between(c, c1),
        ),
    decreases e, 2int,
{
    broadcast use {
        lemma_start,
        lemma_plain,
        lemma_fail_at_once,
        lemma_top,
        lemma_part_top,
        lemma_binding,
    };

    if let Ok(c1) = crate::lower::block::expr_counts(e, m, c) {
        let all = between(c, c1);
        if let IrExpr::FunctionCall { function_id, args, .. } = e {
            let params = match function_id {
                Some(id) => crate::lower::call::function_params(Some(m), id),
                None => None,
            };
            lemma_args(args@, 0, params, cx, s, m, c);
            let a = crate::lower::call::args_code(args@, 0, params, cx, s);
            lemma_part(s, s, none(), 0, a, all, all);
            let o = crate::lower::call::function_call_code(e, cx, s);
            if o.err is None {
                assert(reached(s, o.sink, none().plus(all), 0));
                lemma_done(s, o.sink, none().plus(all), all);
            }
        }
    }
}

proof fn lemma_closure_call(e: IrExpr, cx: Cx, s: SinkView, m: IrModule, c: ScratchCounts)
    requires
        cx.module == Some(m),
        placed(cx, top(s.scratch)),
        e is CallClosure,
    ensures
        crate::lower::block::expr_counts(e, m, c) matches Ok(c1) ==> counted(c, c1) && lawful(
            s,
            crate::lower::call::closure_call_code(e, cx, s),
            between(c, c1),
        ),
    decreases e, 2int,
{
    broadcast use {
        lemma_start,
        lemma_plain,
        lemma_fail_at_once,
        lemma_top,
        lemma_part_top,
        lemma_binding,
    };

    if let Ok(c1) = crate::lower::block::expr_counts(e, m, c) {
        let all = between(c, c1);
        if let IrExpr::CallClosure { closure, args, .. } = e {
            lemma_bumped(c, ValType::I32);
            let ca = crate::lower::block::bumped(c, ValType::I32)->Ok_0;
            law_expr(*closure, cx, s, m, ca);
            let cb = crate::lower::block::expr_counts(*closure, m, ca)->Ok_0;
            lemma_args(args@, 0, None, cx, s, m, cb);
            let k1 = between(ca, cb);
            let k2 = between(cb, c1);
            let n1 = none().plus(one(ValType::I32));
            lemma_scratch(s, s, none(), 0, ValType::I32, all);
            if closure.spec_ty() is Closure && cx.spec_closure_table() is Ok
                && cx.spec_closure_type(closure.spec_ty()) is Ok {
                if let Ok((base, s1)) = s.scratch_local(ValType::I32) {
                    law_expr(*closure, cx, s1, m, ca);
                    let o1 = crate::lower::expr_code(*closure, cx, s1);
                    let sb = o1.sink.emit(Instr::LocalSet(base)).emit(Instr::LocalGet(base)).emit(
                        crate::lower::call::closure_part(crate::types::CLOSURE_ENV_OFFSET),
                    );
                    if reached(s, o1.sink, n1.plus(k1), 0) {
                        assert(reached(s, sb, n1.plus(k1), 0));
                    }
                    lemma_args(args@, 0, None, cx, sb, m, cb);
                    let o2 = crate::lower::call::args_code(args@, 0, None, cx, sb);
                    lemma_two_parts(s, s1, n1, 0, o1, k1, sb, o2, k2, all);
                    if o1.err is None && o2.err is None {
                        let o = crate::lower::call::closure_call_code(e, cx, s);
                        let n = n1.plus(k1).plus(k2);
                        assert(reached(s, o.sink, n, 0));
                        lemma_done(s, o.sink, n, all);
                    }
                }
            }
        }
    }
}

proof fn lemma_method_call(e: IrExpr, cx: Cx, s: SinkView, m: IrModule, c: ScratchCounts)
    requires
        cx.module == Some(m),
        placed(cx, top(s.scratch)),
        e is MethodCall,
    ensures
        crate::lower::block::expr_counts(e, m, c) matches Ok(c1) ==> counted(c, c1) && lawful(
            s,
            crate::lower::call::method_call_code(e, cx, s),
            between(c, c1),
        ),
    decreases e, 2int,
{
    broadcast use {
        lemma_start,
        lemma_plain,
        lemma_fail_at_once,
        lemma_top,
        lemma_part_top,
        lemma_binding,
    };

    if let Ok(c1) = crate::lower::block::expr_counts(e, m, c) {
        let all = between(c, c1);
        if let IrExpr::MethodCall { receiver, method_idx, args, dispatch, .. } = e {
            law_expr(*receiver, cx, s, m, c);
            let ca = crate::lower::block::expr_counts(*receiver, m, c)->Ok_0;
            let params = crate::lower::block::counted_params(dispatch, method_idx, m);
            let k1 = between(c, ca);
            let k2 = between(ca, c1);
            let o1 = crate::lower::expr_code(*receiver, cx, s);
            lemma_args(args@, 0, params, cx, o1.sink, m, ca);
            let o2 = crate::lower::call::args_code(args@, 0, params, cx, o1.sink);
            lemma_two_parts(s, s, none(), 0, o1, k1, o1.sink, o2, k2, all);
            let o = crate::lower::call::method_call_code(e, cx, s);
            let n = none().plus(k1).plus(k2);
            if o.err is None {
                assert(reached(s, o.sink, n, 0));
                lemma_done(s, o.sink, n, all);
            }
        }
    }
}

// ── aggregates ───────────────────────────────────────────────────────

proof fn lemma_inits(
    inits: Seq<(String, FieldIdx, IrExpr)>,
    i: int,
    fields: Seq<IrField>,
    places: Seq<FieldLayout>,
    owner: FieldOwner,
    base: u32,
    decl: Option<Seq<IrField>>,
    cx: Cx,
    s: SinkView,
    m: IrModule,
    c: ScratchCounts,
)
    requires
        cx.module == Some(m),
        placed(cx, top(s.scratch)),
        base < top(s.scratch),
    ensures
        crate::lower::block::inits_counts(inits, i, decl, m, c) matches Ok(c1) ==> counted(c, c1)
            && lawful(
            s,
            crate::lower::aggregate::init_code(inits, i, fields, places, owner, base, cx, s),
            between(c, c1),
        ),
    decreases inits, inits.len() - i,
{
    broadcast use {
        lemma_start,
        lemma_plain,
        lemma_fail_at_once,
        lemma_top,
        lemma_part_top,
        lemma_binding,
    };

    if let Ok(c1) = crate::lower::block::inits_counts(inits, i, decl, m, c) {
        let all = between(c, c1);
        if 0 <= i < inits.len() {
            let target = match decl {
                Some(fs) => crate::lower::block::field_type(fs, inits[i].0@),
                None => None,
            };
            let v = inits[i].2;
            // Where the value is counted for a slot, its own count starts behind the slot's.
            let from = match target {
                Some(t) => {
                    lemma_coercion_counts(t, v.spec_ty(), c);
                    assert(crate::lower::block::coerced_counts(v, t, m, c) is Ok);
                    crate::lower::optional::coercion_counts(t, v.spec_ty(), c)->Ok_0
                },
                None => c,
            };
            let ca = crate::lower::block::expr_counts(v, m, from)->Ok_0;
            law_expr(v, cx, s, m, from);
            lemma_inits(inits, i + 1, fields, places, owner, base, decl, cx, s, m, ca);
            if let Ok((place, p)) = crate::lower::aggregate::primitive_place(
                crate::lower::aggregate::named_field(fields, places, inits[i].0@, owner),
            ) {
                let s1 = s.emit(Instr::LocalGet(base));
                assert(reached(s, s1, none(), 0));
                law_expr(v, cx, s1, m, from);
                let o = crate::lower::expr_code(v, cx, s1);
                let k1 = between(from, ca);
                let k2 = between(ca, c1);
                let s2 = o.sink.emit(crate::lower::aggregate::primitive_store(p, place));
                if reached(s, o.sink, none().plus(k1), 0) {
                    assert(reached(s, s2, none().plus(k1), 0));
                }
                lemma_inits(inits, i + 1, fields, places, owner, base, decl, cx, s2, m, ca);
                let rest = crate::lower::aggregate::init_code(
                    inits,
                    i + 1,
                    fields,
                    places,
                    owner,
                    base,
                    cx,
                    s2,
                );
                lemma_two_parts(s, s1, none(), 0, o, k1, s2, rest, k2, all);
                if o.err is None && rest.err is None {
                    lemma_done(s, rest.sink, none().plus(k1).plus(k2), all);
                }
            }
        } else {
            lemma_done(s, s, none(), all);
        }
    }
}

proof fn lemma_coercion_counts(target: ResolvedType, value: ResolvedType, c: ScratchCounts)
    ensures
        crate::lower::optional::coercion_counts(target, value, c) matches Ok(c1) ==> counted(c, c1),
{
    if let Some(payload) = crate::lower::optional::wrap_payload(target, value) {
        lemma_bumped(c, ValType::I32);
        if let Ok(c1) = crate::lower::block::bumped(c, ValType::I32) {
            if let Ok(vt) = crate::lower::optional::payload_scratch(payload) {
                lemma_bumped(c1, vt);
            }
        }
    }
}

proof fn lemma_struct(e: IrExpr, cx: Cx, s: SinkView, m: IrModule, c: ScratchCounts)
    requires
        cx.module == Some(m),
        placed(cx, top(s.scratch)),
        e is StructInst,
    ensures
        crate::lower::block::expr_counts(e, m, c) matches Ok(c1) ==> counted(c, c1) && lawful(
            s,
            crate::lower::aggregate::struct_code(e, cx, s),
            between(c, c1),
        ),
    decreases e, 2int,
{
    broadcast use {
        lemma_start,
        lemma_plain,
        lemma_fail_at_once,
        lemma_top,
        lemma_part_top,
        lemma_binding,
    };

    if let Ok(c1) = crate::lower::block::expr_counts(e, m, c) {
        let all = between(c, c1);
        if let IrExpr::StructInst { struct_id, fields, .. } = e {
            lemma_bumped(c, ValType::I32);
            let ca = crate::lower::block::bumped(c, ValType::I32)->Ok_0;
            let decl = crate::lower::block::struct_decl(struct_id, m);
            let k = between(ca, c1);
            let n1 = none().plus(one(ValType::I32));
            lemma_blank(cx);
            lemma_inits(
                fields@,
                0,
                Seq::empty(),
                Seq::empty(),
                FieldOwner::Tuple,
                0,
                decl,
                cx,
                blank(),
                m,
                ca,
            );
            if let Some(id) = struct_id {
                if let Ok((d, p)) = crate::lower::aggregate::struct_plan_of(id, m) {
                    lemma_allocation(s, s, none(), 0, p.size, cx, all);
                    if let Ok((base, s1)) = crate::lower::aggregate::allocation(p.size, cx, s) {
                        let owner = FieldOwner::Named(d.name);
                        lemma_inits(
                            fields@,
                            0,
                            d.fields@,
                            p.fields,
                            owner,
                            base,
                            decl,
                            cx,
                            s1,
                            m,
                            ca,
                        );
                        let o = crate::lower::aggregate::init_code(
                            fields@,
                            0,
                            d.fields@,
                            p.fields,
                            owner,
                            base,
                            cx,
                            s1,
                        );
                        lemma_part(s, s1, n1, 0, o, k, all);
                        if o.err is None {
                            let end = o.sink.emit(Instr::LocalGet(base));
                            assert(reached(s, end, n1.plus(k), 0));
                            lemma_done(s, end, n1.plus(k), all);
                        }
                    }
                }
            }
        }
    }
}

proof fn lemma_enum(e: IrExpr, cx: Cx, s: SinkView, m: IrModule, c: ScratchCounts)
    requires
        cx.module == Some(m),
        placed(cx, top(s.scratch)),
        e is EnumInst,
    ensures
        crate::lower::block::expr_counts(e, m, c) matches Ok(c1) ==> counted(c, c1) && lawful(
            s,
            crate::lower::aggregate::enum_code(e, cx, s),
            between(c, c1),
        ),
    decreases e, 2int,
{
    broadcast use {
        lemma_start,
        lemma_plain,
        lemma_fail_at_once,
        lemma_top,
        lemma_part_top,
        lemma_binding,
    };

    if let Ok(c1) = crate::lower::block::expr_counts(e, m, c) {
        let all = between(c, c1);
        if let IrExpr::EnumInst { enum_id, variant, variant_idx, fields, .. } = e {
            lemma_bumped(c, ValType::I32);
            let ca = crate::lower::block::bumped(c, ValType::I32)->Ok_0;
            let decl = crate::lower::block::variant_decl(enum_id, variant_idx, m);
            let k = between(ca, c1);
            let n1 = none().plus(one(ValType::I32));
            lemma_blank(cx);
            lemma_inits(
                fields@,
                0,
                Seq::empty(),
                Seq::empty(),
                FieldOwner::Tuple,
                0,
                decl,
                cx,
                blank(),
                m,
                ca,
            );
            if let Some(id) = enum_id {
                if let Ok((d, p)) = crate::lower::aggregate::enum_plan_of(id, m) {
                    if let Ok(v) = crate::lower::aggregate::chosen_variant(
                        d,
                        variant_idx.0,
                        variant,
                    ) {
                        lemma_allocation(s, s, none(), 0, p.size, cx, all);
                        if let Ok((base, s1)) = crate::lower::aggregate::allocation(p.size, cx, s) {
                            let owner = FieldOwner::Named(d.variants@[v].name);
                            let s2 = s1.emit(Instr::LocalGet(base)).emit(
                                Instr::I32Const(
                                    crate::lower::aggregate::tag_const(p.variants[v].tag),
                                ),
                            ).emit(
                                Instr::Store(
                                    crate::instr::StoreOp::I32,
                                    crate::lower::aggregate::mem_arg_at(
                                        p.tag_offset,
                                        crate::layout::ENUM_TAG_ALIGN,
                                    ),
                                ),
                            );
                            assert(reached(s, s2, n1, 0));
                            lemma_inits(
                                fields@,
                                0,
                                d.variants@[v].fields@,
                                p.variants[v].fields,
                                owner,
                                base,
                                decl,
                                cx,
                                s2,
                                m,
                                ca,
                            );
                            let o = crate::lower::aggregate::init_code(
                                fields@,
                                0,
                                d.variants@[v].fields@,
                                p.variants[v].fields,
                                owner,
                                base,
                                cx,
                                s2,
                            );
                            lemma_part(s, s2, n1, 0, o, k, all);
                            if o.err is None {
                                let end = o.sink.emit(Instr::LocalGet(base));
                                assert(reached(s, end, n1.plus(k), 0));
                                lemma_done(s, end, n1.plus(k), all);
                            }
                        }
                    }
                }
            }
        }
    }
}

proof fn lemma_tuple_inits(
    inits: Seq<(String, IrExpr)>,
    i: int,
    fields: Seq<IrField>,
    places: Seq<FieldLayout>,
    base: u32,
    cx: Cx,
    s: SinkView,
    m: IrModule,
    c: ScratchCounts,
)
    requires
        cx.module == Some(m),
        placed(cx, top(s.scratch)),
        base < top(s.scratch),
    ensures
        crate::lower::block::tuple_counts(inits, i, m, c) matches Ok(c1) ==> counted(c, c1)
            && lawful(
            s,
            crate::lower::aggregate::tuple_init_code(inits, i, fields, places, base, cx, s),
            between(c, c1),
        ),
    decreases inits, inits.len() - i,
{
    broadcast use {
        lemma_start,
        lemma_plain,
        lemma_fail_at_once,
        lemma_top,
        lemma_part_top,
        lemma_binding,
    };

    if let Ok(c1) = crate::lower::block::tuple_counts(inits, i, m, c) {
        let all = between(c, c1);
        if 0 <= i < inits.len() {
            let v = inits[i].1;
            let ca = crate::lower::block::expr_counts(v, m, c)->Ok_0;
            law_expr(v, cx, s, m, c);
            lemma_tuple_inits(inits, i + 1, fields, places, base, cx, s, m, ca);
            if let Ok((place, p)) = crate::lower::aggregate::primitive_place(
                crate::lower::aggregate::named_field(
                    fields,
                    places,
                    inits[i].0@,
                    FieldOwner::Tuple,
                ),
            ) {
                let s1 = s.emit(Instr::LocalGet(base));
                assert(reached(s, s1, none(), 0));
                law_expr(v, cx, s1, m, c);
                let o = crate::lower::expr_code(v, cx, s1);
                let k1 = between(c, ca);
                let k2 = between(ca, c1);
                let s2 = o.sink.emit(crate::lower::aggregate::primitive_store(p, place));
                if reached(s, o.sink, none().plus(k1), 0) {
                    assert(reached(s, s2, none().plus(k1), 0));
                }
                lemma_tuple_inits(inits, i + 1, fields, places, base, cx, s2, m, ca);
                let rest = crate::lower::aggregate::tuple_init_code(
                    inits,
                    i + 1,
                    fields,
                    places,
                    base,
                    cx,
                    s2,
                );
                lemma_two_parts(s, s1, none(), 0, o, k1, s2, rest, k2, all);
                if o.err is None && rest.err is None {
                    lemma_done(s, rest.sink, none().plus(k1).plus(k2), all);
                }
            }
        } else {
            lemma_done(s, s, none(), all);
        }
    }
}

proof fn lemma_tuple(e: IrExpr, cx: Cx, s: SinkView, m: IrModule, c: ScratchCounts)
    requires
        cx.module == Some(m),
        placed(cx, top(s.scratch)),
        e is Tuple,
    ensures
        crate::lower::block::expr_counts(e, m, c) matches Ok(c1) ==> counted(c, c1) && lawful(
            s,
            crate::lower::aggregate::tuple_code(e, cx, s),
            between(c, c1),
        ),
    decreases e, 2int,
{
    broadcast use {
        lemma_start,
        lemma_plain,
        lemma_fail_at_once,
        lemma_top,
        lemma_part_top,
        lemma_binding,
    };

    if let Ok(c1) = crate::lower::block::expr_counts(e, m, c) {
        let all = between(c, c1);
        if let IrExpr::Tuple { fields, ty } = e {
            lemma_bumped(c, ValType::I32);
            let ca = crate::lower::block::bumped(c, ValType::I32)->Ok_0;
            let k = between(ca, c1);
            let n1 = none().plus(one(ValType::I32));
            lemma_blank(cx);
            lemma_tuple_inits(fields@, 0, Seq::empty(), Seq::empty(), 0, cx, blank(), m, ca);
            if let Ok((decl, p)) = crate::lower::aggregate::tuple_plan(ty) {
                lemma_allocation(s, s, none(), 0, p.size, cx, all);
                if let Ok((base, s1)) = crate::lower::aggregate::allocation(p.size, cx, s) {
                    lemma_tuple_inits(fields@, 0, decl, p.fields, base, cx, s1, m, ca);
                    let o = crate::lower::aggregate::tuple_init_code(
                        fields@,
                        0,
                        decl,
                        p.fields,
                        base,
                        cx,
                        s1,
                    );
                    lemma_part(s, s1, n1, 0, o, k, all);
                    if o.err is None {
                        let end = o.sink.emit(Instr::LocalGet(base));
                        assert(reached(s, end, n1.plus(k), 0));
                        lemma_done(s, end, n1.plus(k), all);
                    }
                }
            }
        }
    }
}

proof fn lemma_closure_ref(e: IrExpr, cx: Cx, s: SinkView, m: IrModule, c: ScratchCounts)
    requires
        cx.module == Some(m),
        placed(cx, top(s.scratch)),
        e is ClosureRef,
    ensures
        crate::lower::block::expr_counts(e, m, c) matches Ok(c1) ==> counted(c, c1) && lawful(
            s,
            crate::lower::aggregate::closure_ref_code(e, cx, s),
            between(c, c1),
        ),
    decreases e, 2int,
{
    broadcast use {
        lemma_start,
        lemma_plain,
        lemma_fail_at_once,
        lemma_top,
        lemma_part_top,
        lemma_binding,
    };

    if let Ok(c1) = crate::lower::block::expr_counts(e, m, c) {
        let all = between(c, c1);
        if let IrExpr::ClosureRef { funcref, env_struct, .. } = e {
            lemma_bumped(c, ValType::I32);
            let ca = crate::lower::block::bumped(c, ValType::I32)->Ok_0;
            let k = between(ca, c1);
            let n1 = none().plus(one(ValType::I32));
            law_expr(*env_struct, cx, s, m, ca);
            if let Ok(slot) = crate::lower::aggregate::funcref_slot(funcref@, m, cx) {
                lemma_allocation(s, s, none(), 0, crate::types::CLOSURE_VALUE_SIZE, cx, all);
                if let Ok((base, s1)) = crate::lower::aggregate::allocation(
                    crate::types::CLOSURE_VALUE_SIZE,
                    cx,
                    s,
                ) {
                    let s2 = s1.emit(Instr::LocalGet(base)).emit(Instr::I32Const(slot)).emit(
                        Instr::Store(
                            crate::instr::StoreOp::I32,
                            crate::lower::aggregate::mem_arg_at(
                                crate::types::CLOSURE_FUNCREF_OFFSET,
                                4,
                            ),
                        ),
                    ).emit(Instr::LocalGet(base));
                    assert(reached(s, s2, n1, 0));
                    law_expr(*env_struct, cx, s2, m, ca);
                    let o = crate::lower::expr_code(*env_struct, cx, s2);
                    lemma_part(s, s2, n1, 0, o, k, all);
                    if o.err is None {
                        let end = crate::lower::aggregate::closure_ref_code(e, cx, s);
                        assert(reached(s, end.sink, n1.plus(k), 0));
                        lemma_done(s, end.sink, n1.plus(k), all);
                    }
                }
            } else {
                assert(!ran_out(crate::lower::aggregate::funcref_slot(funcref@, m, cx)->Err_0));
            }
        }
    }
}

proof fn lemma_elements(
    elements: Seq<IrExpr>,
    i: int,
    elem_ty: ResolvedType,
    layout: ArrayLayout,
    buf: u32,
    cx: Cx,
    s: SinkView,
    m: IrModule,
    c: ScratchCounts,
)
    requires
        cx.module == Some(m),
        placed(cx, top(s.scratch)),
        buf < top(s.scratch),
    ensures
        crate::lower::block::elements_counts(elements, i, m, c) matches Ok(c1) ==> counted(c, c1)
            && lawful(
            s,
            crate::lower::aggregate::elements_code(elements, i, elem_ty, layout, buf, cx, s),
            between(c, c1),
        ),
    decreases elements, elements.len() - i,
{
    broadcast use {
        lemma_start,
        lemma_plain,
        lemma_fail_at_once,
        lemma_top,
        lemma_part_top,
        lemma_binding,
    };

    if let Ok(c1) = crate::lower::block::elements_counts(elements, i, m, c) {
        let all = between(c, c1);
        if 0 <= i < elements.len() {
            let v = elements[i];
            let ca = crate::lower::block::expr_counts(v, m, c)->Ok_0;
            let s1 = s.emit(Instr::LocalGet(buf));
            assert(reached(s, s1, none(), 0));
            law_expr(v, cx, s1, m, c);
            let o = crate::lower::expr_code(v, cx, s1);
            let k1 = between(c, ca);
            let k2 = between(ca, c1);
            let at = FieldLayout {
                offset: (layout.element_size * i) as u32,
                size: layout.element_size,
                align: layout.element_align,
            };
            lemma_elements(elements, i + 1, elem_ty, layout, buf, cx, s, m, ca);
            lemma_part(s, s1, none(), 0, o, k1, all);
            if o.err is None {
                match crate::lower::aggregate::element_store(elem_ty, at) {
                    Err(x) => {
                        lemma_fail(s, o.sink, none().plus(k1), 0, x, all);
                    },
                    Ok(store) => {
                        let s2 = o.sink.emit(store);
                        assert(reached(s, s2, none().plus(k1), 0));
                        lemma_elements(elements, i + 1, elem_ty, layout, buf, cx, s2, m, ca);
                        let rest = crate::lower::aggregate::elements_code(
                            elements,
                            i + 1,
                            elem_ty,
                            layout,
                            buf,
                            cx,
                            s2,
                        );
                        lemma_part(s, s2, none().plus(k1), 0, rest, k2, all);
                        if rest.err is None {
                            lemma_done(s, rest.sink, none().plus(k1).plus(k2), all);
                        }
                    },
                }
            }
        } else {
            lemma_done(s, s, none(), all);
        }
    }
}

proof fn lemma_array(e: IrExpr, cx: Cx, s: SinkView, m: IrModule, c: ScratchCounts)
    requires
        cx.module == Some(m),
        placed(cx, top(s.scratch)),
        e is Array,
    ensures
        crate::lower::block::expr_counts(e, m, c) matches Ok(c1) ==> counted(c, c1) && lawful(
            s,
            crate::lower::aggregate::array_code(e, cx, s),
            between(c, c1),
        ),
    decreases e, 2int,
{
    broadcast use {
        lemma_start,
        lemma_plain,
        lemma_fail_at_once,
        lemma_top,
        lemma_part_top,
        lemma_binding,
    };

    reveal_with_fuel(crate::lower::block::bumped_by, 4);
    if let Ok(c1) = crate::lower::block::expr_counts(e, m, c) {
        let all = between(c, c1);
        if let IrExpr::Array { elements, ty } = e {
            lemma_bumped(c, ValType::I32);
            let ca = crate::lower::block::bumped(c, ValType::I32)->Ok_0;
            lemma_bumped(ca, ValType::I32);
            let cb = crate::lower::block::bumped(ca, ValType::I32)->Ok_0;
            let k = between(cb, c1);
            let n1 = none().plus(one(ValType::I32));
            let no_layout = ArrayLayout {
                header_size: 0,
                header_align: 0,
                element_size: 0,
                element_align: 0,
            };
            lemma_blank(cx);
            lemma_elements(elements@, 0, ty, no_layout, 0, cx, blank(), m, cb);
            if let ResolvedType::Array(elem) = ty {
                if let Ok(layout) = crate::layout::array_plan(*elem) {
                    if let Ok(size) = crate::lower::aggregate::buffer_size(
                        layout,
                        elements@.len() as int,
                    ) {
                        lemma_allocation(s, s, none(), 0, size, cx, all);
                        if let Ok((buf, s1)) = crate::lower::aggregate::allocation(size, cx, s) {
                            lemma_elements(elements@, 0, *elem, layout, buf, cx, s1, m, cb);
                            let o = crate::lower::aggregate::elements_code(
                                elements@,
                                0,
                                *elem,
                                layout,
                                buf,
                                cx,
                                s1,
                            );
                            lemma_part(s, s1, n1, 0, o, k, all);
                            if o.err is None {
                                let n2 = n1.plus(k);
                                lemma_allocation(s, o.sink, n2, 0, layout.header_size, cx, all);
                                if crate::lower::aggregate::allocation(
                                    layout.header_size,
                                    cx,
                                    o.sink,
                                ) is Ok {
                                    let end = crate::lower::aggregate::array_code(e, cx, s);
                                    let n3 = n2.plus(one(ValType::I32));
                                    assert(reached(s, end.sink, n3, 0));
                                    lemma_done(s, end.sink, n3, all);
                                }
                            }
                        }
                    }
                }
            }
        }
    }
}

proof fn lemma_index(e: IrExpr, cx: Cx, s: SinkView, m: IrModule, c: ScratchCounts)
    requires
        cx.module == Some(m),
        placed(cx, top(s.scratch)),
        e is DictAccess,
    ensures
        crate::lower::block::expr_counts(e, m, c) matches Ok(c1) ==> counted(c, c1) && lawful(
            s,
            crate::lower::aggregate::index_code(e, cx, s),
            between(c, c1),
        ),
    decreases e, 2int,
{
    broadcast use {
        lemma_start,
        lemma_plain,
        lemma_fail_at_once,
        lemma_top,
        lemma_part_top,
        lemma_binding,
    };

    if let Ok(c1) = crate::lower::block::expr_counts(e, m, c) {
        let all = between(c, c1);
        if let IrExpr::DictAccess { dict, key, .. } = e {
            law_expr(*dict, cx, s, m, c);
            let ca = crate::lower::block::expr_counts(*dict, m, c)->Ok_0;
            law_expr(*key, cx, s, m, ca);
            let k1 = between(c, ca);
            let k2 = between(ca, c1);
            let o = crate::lower::aggregate::index_code(e, cx, s);
            if let ResolvedType::Array(elem) = dict.spec_ty() {
                if let Ok(layout) = crate::layout::array_plan(*elem) {
                    if crate::lower::aggregate::signed(layout.element_size) is Some {
                        let o1 = crate::lower::expr_code(*dict, cx, s);
                        let s1 = o1.sink.emit(
                            Instr::Load(
                                crate::instr::LoadOp::I32,
                                crate::lower::aggregate::mem_arg_at(
                                    crate::layout::ARRAY_HEADER_PTR_OFFSET,
                                    crate::layout::ARRAY_HEADER_ALIGN,
                                ),
                            ),
                        );
                        if reached(s, o1.sink, none().plus(k1), 0) {
                            assert(reached(s, s1, none().plus(k1), 0));
                        }
                        law_expr(*key, cx, s1, m, ca);
                        let o2 = crate::lower::expr_code(*key, cx, s1);
                        lemma_two_parts(s, s, none(), 0, o1, k1, s1, o2, k2, all);
                        if o1.err is None && o2.err is None {
                            let n = none().plus(k1).plus(k2);
                            assert(reached(s, o.sink, n, 0));
                            if o.err is None {
                                lemma_done(s, o.sink, n, all);
                            } else {
                                lemma_fail(s, o.sink, n, 0, o.err->0, all);
                            }
                        }
                    }
                }
            }
        }
    }
}

proof fn lemma_field_access(e: IrExpr, cx: Cx, s: SinkView, m: IrModule, c: ScratchCounts)
    requires
        cx.module == Some(m),
        placed(cx, top(s.scratch)),
        e is FieldAccess,
    ensures
        crate::lower::block::expr_counts(e, m, c) matches Ok(c1) ==> counted(c, c1) && lawful(
            s,
            crate::lower::aggregate::field_access_code(e, cx, s),
            between(c, c1),
        ),
    decreases e, 2int,
{
    broadcast use {
        lemma_start,
        lemma_plain,
        lemma_fail_at_once,
        lemma_top,
        lemma_part_top,
        lemma_binding,
    };

    if let Ok(c1) = crate::lower::block::expr_counts(e, m, c) {
        let all = between(c, c1);
        if let IrExpr::FieldAccess { object, .. } = e {
            law_expr(*object, cx, s, m, c);
            let o = crate::lower::expr_code(*object, cx, s);
            lemma_part(s, s, none(), 0, o, all, all);
            let end = crate::lower::aggregate::field_access_code(e, cx, s);
            if end.err is None {
                assert(reached(s, end.sink, none().plus(all), 0));
                lemma_done(s, end.sink, none().plus(all), all);
            }
        }
    }
}

// ── blocks ───────────────────────────────────────────────────────────

proof fn lemma_block(e: IrExpr, cx: Cx, s: SinkView, m: IrModule, c: ScratchCounts)
    requires
        cx.module == Some(m),
        placed(cx, top(s.scratch)),
        e is Block,
    ensures
        crate::lower::block::expr_counts(e, m, c) matches Ok(c1) ==> counted(c, c1) && lawful(
            s,
            crate::lower::block::block_code(e, cx, s),
            between(c, c1),
        ),
    decreases e, 2int,
{
    broadcast use lemma_start;

    if let Ok(c1) = crate::lower::block::expr_counts(e, m, c) {
        let all = between(c, c1);
        if let IrExpr::Block { statements, result, .. } = e {
            lemma_statements(statements@, 0, cx, s, m, c);
            let ca = crate::lower::block::statements_counts(statements@, 0, m, c)->Ok_0;
            let o = crate::lower::block::statements_code(statements@, 0, cx, s);
            lemma_part_top(s, o, between(c, ca));
            law_expr(*result, cx, o.sink, m, ca);
            let rest = crate::lower::expr_code(*result, cx, o.sink);
            let k1 = between(c, ca);
            let k2 = between(ca, c1);
            lemma_two_parts(s, s, none(), 0, o, k1, o.sink, rest, k2, all);
            if o.err is None && rest.err is None {
                lemma_done(s, rest.sink, none().plus(k1).plus(k2), all);
            }
        }
    }
}

proof fn lemma_statements(
    statements: Seq<IrBlockStatement>,
    i: int,
    cx: Cx,
    s: SinkView,
    m: IrModule,
    c: ScratchCounts,
)
    requires
        cx.module == Some(m),
        placed(cx, top(s.scratch)),
    ensures
        crate::lower::block::statements_counts(statements, i, m, c) matches Ok(c1) ==> counted(
            c,
            c1,
        ) && lawful(
            s,
            crate::lower::block::statements_code(statements, i, cx, s),
            between(c, c1),
        ),
    decreases statements, statements.len() - i,
{
    broadcast use lemma_start;

    if let Ok(c1) = crate::lower::block::statements_counts(statements, i, m, c) {
        let all = between(c, c1);
        if 0 <= i < statements.len() {
            lemma_statement(statements[i], cx, s, m, c);
            let ca = crate::lower::block::statement_counts(statements[i], m, c)->Ok_0;
            let o = crate::lower::block::statement_code(statements[i], cx, s);
            lemma_part_top(s, o, between(c, ca));
            lemma_statements(statements, i + 1, cx, o.sink, m, ca);
            let rest = crate::lower::block::statements_code(statements, i + 1, cx, o.sink);
            let k1 = between(c, ca);
            let k2 = between(ca, c1);
            lemma_two_parts(s, s, none(), 0, o, k1, o.sink, rest, k2, all);
            if o.err is None && rest.err is None {
                lemma_done(s, rest.sink, none().plus(k1).plus(k2), all);
            }
        } else {
            lemma_done(s, s, none(), all);
        }
    }
}

proof fn lemma_statement(st: IrBlockStatement, cx: Cx, s: SinkView, m: IrModule, c: ScratchCounts)
    requires
        cx.module == Some(m),
        placed(cx, top(s.scratch)),
    ensures
        crate::lower::block::statement_counts(st, m, c) matches Ok(c1) ==> counted(c, c1)
            && lawful(s, crate::lower::block::statement_code(st, cx, s), between(c, c1)),
    decreases st, 1int,
{
    broadcast use {
        lemma_start,
        lemma_plain,
        lemma_fail_at_once,
        lemma_top,
        lemma_part_top,
        lemma_binding,
    };

    if let Ok(c1) = crate::lower::block::statement_counts(st, m, c) {
        let all = between(c, c1);
        let end = crate::lower::block::statement_code(st, cx, s);
        match st {
            IrBlockStatement::Let { ty, value, .. } => {
                let o = match ty {
                    Some(t) => {
                        law_coerced(value, t, cx, s, m, c);
                        crate::lower::optional::coerced_code(value, t, cx, s)
                    },
                    None => {
                        law_expr(value, cx, s, m, c);
                        crate::lower::expr_code(value, cx, s)
                    },
                };
                lemma_part(s, s, none(), 0, o, all, all);
                if end.err is None {
                    assert(reached(s, end.sink, none().plus(all), 0));
                    lemma_done(s, end.sink, none().plus(all), all);
                }
            },
            IrBlockStatement::Expr(e) => {
                law_expr(e, cx, s, m, c);
                let o = crate::lower::expr_code(e, cx, s);
                lemma_part(s, s, none(), 0, o, all, all);
                if end.err is None {
                    assert(reached(s, end.sink, none().plus(all), 0));
                    lemma_done(s, end.sink, none().plus(all), all);
                }
            },
            IrBlockStatement::Assign { .. } => lemma_assign(st, cx, s, m, c),
        }
    }
}

proof fn lemma_assign(st: IrBlockStatement, cx: Cx, s: SinkView, m: IrModule, c: ScratchCounts)
    requires
        cx.module == Some(m),
        placed(cx, top(s.scratch)),
        st is Assign,
    ensures
        crate::lower::block::statement_counts(st, m, c) matches Ok(c1) ==> counted(c, c1)
            && lawful(s, crate::lower::block::assign_code(st, cx, s), between(c, c1)),
    decreases st, 0int,
{
    broadcast use {
        lemma_start,
        lemma_plain,
        lemma_fail_at_once,
        lemma_top,
        lemma_part_top,
        lemma_binding,
    };

    if let Ok(c1) = crate::lower::block::statement_counts(st, m, c) {
        let all = between(c, c1);
        let end = crate::lower::block::assign_code(st, cx, s);
        if let IrBlockStatement::Assign { target, value } = st {
            law_expr(target, cx, s, m, c);
            let ca = crate::lower::block::expr_counts(target, m, c)->Ok_0;
            law_expr(value, cx, s, m, ca);
            let k2 = between(ca, c1);
            match target {
                IrExpr::SelfFieldRef { .. } => {
                    let s1 = s.emit(Instr::LocalGet(0));
                    assert(reached(s, s1, none(), 0));
                    law_expr(value, cx, s1, m, ca);
                    let o = crate::lower::expr_code(value, cx, s1);
                    lemma_part(s, s1, none(), 0, o, k2, all);
                    if end.err is None {
                        assert(reached(s, end.sink, none().plus(k2), 0));
                        lemma_done(s, end.sink, none().plus(k2), all);
                    }
                },
                IrExpr::FieldAccess { object, .. } => {
                    law_expr(*object, cx, s, m, c);
                    let k1 = between(c, ca);
                    let o1 = crate::lower::expr_code(*object, cx, s);
                    law_expr(value, cx, o1.sink, m, ca);
                    let o2 = crate::lower::expr_code(value, cx, o1.sink);
                    lemma_two_parts(s, s, none(), 0, o1, k1, o1.sink, o2, k2, all);
                    if end.err is None {
                        let n = none().plus(k1).plus(k2);
                        assert(reached(s, end.sink, n, 0));
                        lemma_done(s, end.sink, n, all);
                    }
                },
                _ => {},
            }
        }
    }
}

// ── match ────────────────────────────────────────────────────────────

proof fn lemma_open_blocks(s0: SinkView, s: SinkView, n: Amount, rise: int, k: nat)
    requires
        reached(s0, s, n, rise),
    ensures
        reached(s0, crate::lower::control::open_blocks(s, k), n, rise + k),
    decreases k,
{
    if k > 0 {
        lemma_open_blocks(s0, s, n, rise, (k - 1) as nat);
        lemma_open(
            s0,
            crate::lower::control::open_blocks(s, (k - 1) as nat),
            n,
            rise + k - 1,
            Instr::Block(crate::instr::BlockType::Empty),
        );
    }
}

proof fn lemma_bindings(
    arm: IrMatchArm,
    i: int,
    fields: Seq<FieldLayout>,
    scrutinee: u32,
    cx: Cx,
    s0: SinkView,
    s: SinkView,
)
    requires
        reached(s0, s, none(), 0),
        placed(cx, top(s0.scratch)),
        scrutinee < top(s0.scratch),
    ensures
        lawful(
            s0,
            crate::lower::control::bindings_code(arm, i, fields, scrutinee, cx, s),
            none(),
        ),
    decreases arm.bindings@.len() - i,
{
    broadcast use {lemma_plain, lemma_top, lemma_part_top, lemma_binding};

    if 0 <= i < arm.bindings@.len() {
        let (_, id, ty) = arm.bindings@[i];
        match crate::lower::aggregate::as_primitive(ty) {
            Err(x) => lemma_fail(s0, s, none(), 0, x, none()),
            Ok(p) => {
                if i >= fields.len() {
                    let o = crate::lower::control::bindings_code(
                        arm,
                        i,
                        fields,
                        scrutinee,
                        cx,
                        s,
                    );
                    lemma_fail(s0, s, none(), 0, o.err->0, none());
                } else {
                    match cx.local_of(id) {
                        Err(x) => lemma_fail(s0, s, none(), 0, x, none()),
                        Ok(local) => {
                            let next = s.emit(Instr::LocalGet(scrutinee)).emit(
                                crate::lower::aggregate::primitive_load(p, fields[i]),
                            ).emit(Instr::LocalSet(local));
                            assert(reached(s0, next, none(), 0));
                            lemma_bindings(arm, i + 1, fields, scrutinee, cx, s0, next);
                        },
                    }
                }
            },
        }
    } else {
        lemma_done(s0, s, none(), none());
    }
}

proof fn lemma_arm_bindings(arm: IrMatchArm, plan: EnumPlan, scrutinee: u32, cx: Cx, s: SinkView)
    requires
        placed(cx, top(s.scratch)),
        scrutinee < top(s.scratch),
    ensures
        lawful(
            s,
            crate::lower::control::arm_bindings_code(arm, plan, scrutinee, cx, s),
            none(),
        ),
{
    broadcast use {lemma_start, lemma_fail_at_once, lemma_top, lemma_part_top};

    if arm.is_wildcard {
        lemma_done(s, s, none(), none());
    } else if arm.variant_idx.0 < plan.variants.len() {
        lemma_bindings(
            arm,
            0,
            plan.variants[arm.variant_idx.0 as int].fields,
            scrutinee,
            cx,
            s,
            s,
        );
    }
}

proof fn lemma_targets(arms: Seq<IrMatchArm>, variants: nat, k: nat)
    requires
        k <= arms.len() <= u32::MAX,
    ensures
        crate::lower::control::tag_targets(arms, variants, k).len() == variants,
        forall|i: int|
            0 <= i < crate::lower::control::tag_targets(arms, variants, k).len() ==> (
            #[trigger] crate::lower::control::tag_targets(arms, variants, k)[i]) <= arms.len(),
    decreases k,
{
    if k > 0 {
        lemma_targets(arms, variants, (k - 1) as nat);
    }
}

proof fn lemma_dispatch(
    s0: SinkView,
    s: SinkView,
    n: Amount,
    arms: Seq<IrMatchArm>,
    plan: EnumPlan,
    scrutinee: u32,
)
    requires
        reached(s0, s, n, arms.len() as int + 2),
        arms.len() <= u32::MAX,
        scrutinee < top(s0.scratch),
    ensures
        reached(
            s0,
            crate::lower::control::dispatch_code(arms, plan, scrutinee, s),
            n,
            arms.len() as int + 1,
        ),
{
    broadcast use {lemma_plain, lemma_top, lemma_part_top, lemma_binding};

    let rise = (arms.len() + 2) as int;
    let s1 = s.emit(Instr::LocalGet(scrutinee)).emit(
        Instr::Load(
            crate::instr::LoadOp::I32,
            crate::lower::aggregate::mem_arg_at(plan.tag_offset, crate::layout::ENUM_TAG_ALIGN),
        ),
    );
    assert(reached(s0, s1, n, rise));
    let targets = crate::lower::control::tag_targets(arms, plan.variants.len(), arms.len());
    lemma_targets(arms, plan.variants.len(), arms.len());
    crate::ir::lemma_list_round_trip(targets);
    let table = Instr::BrTable {
        targets: crate::ir::List::of_seq(targets),
        default: arms.len() as u32,
    };
    lemma_branch(s0, s1, n, rise, table);
    lemma_end(s0, s1.emit(table), n, rise);
}

proof fn lemma_arms(
    s0: SinkView,
    arms: Seq<IrMatchArm>,
    i: int,
    ty: ResolvedType,
    plan: EnumPlan,
    scrutinee: u32,
    cx: Cx,
    s: SinkView,
    n: Amount,
    m: IrModule,
    c: ScratchCounts,
    all: Amount,
)
    requires
        cx.module == Some(m),
        placed(cx, top(s0.scratch)),
        scrutinee < top(s0.scratch),
        0 <= i <= arms.len() <= u32::MAX,
        reached(s0, s, n, arms.len() - i + 1),
        crate::lower::block::arms_counts(arms, i, ty, m, c) matches Ok(c1) && n.plus(
            between(c, c1),
        ).within(all),
    ensures
        ({
            let c1 = crate::lower::block::arms_counts(arms, i, ty, m, c)->Ok_0;
            let o = crate::lower::control::arms_code(arms, i, ty, plan, scrutinee, cx, s);
            &&& counted(c, c1)
            &&& o.err is None ==> reached(s0, o.sink, n.plus(between(c, c1)), 1)
            &&& o.err is Some ==> lawful(s0, o, all)
        }),
    decreases arms, arms.len() - i,
{
    broadcast use {lemma_top, lemma_part_top};

    let c1 = crate::lower::block::arms_counts(arms, i, ty, m, c)->Ok_0;
    if i < arms.len() {
        let rise = arms.len() - i + 1;
        let ca = crate::lower::block::coerced_counts(arms[i].body, ty, m, c)->Ok_0;
        law_coerced(arms[i].body, ty, cx, s, m, c);
        lemma_arms_counted(arms, i + 1, ty, cx, m, ca);
        let k1 = between(c, ca);
        let k2 = between(ca, c1);
        let o1 = crate::lower::control::arm_bindings_code(arms[i], plan, scrutinee, cx, s);
        lemma_arm_bindings(arms[i], plan, scrutinee, cx, s);
        lemma_part(s0, s, n, rise, o1, none(), all);
        if o1.err is None {
            assert(n.plus(none()) == n);
            law_coerced(arms[i].body, ty, cx, o1.sink, m, c);
            let o2 = crate::lower::optional::coerced_code(arms[i].body, ty, cx, o1.sink);
            lemma_part(s0, o1.sink, n, rise, o2, k1, all);
            if o2.err is None {
                let n1 = n.plus(k1);
                let out = Instr::Br((arms.len() - i) as u32);
                lemma_branch(s0, o2.sink, n1, rise, out);
                lemma_end(s0, o2.sink.emit(out), n1, rise);
                let next = o2.sink.emit(out).emit(Instr::End);
                assert(n1.plus(k2) == n.plus(between(c, c1)));
                lemma_arms(s0, arms, i + 1, ty, plan, scrutinee, cx, next, n1, m, ca, all);
            }
        }
    } else {
        assert(n.plus(between(c, c1)) == n);
    }
}

proof fn lemma_arms_counted(
    arms: Seq<IrMatchArm>,
    i: int,
    ty: ResolvedType,
    cx: Cx,
    m: IrModule,
    c: ScratchCounts,
)
    requires
        cx.module == Some(m),
    ensures
        crate::lower::block::arms_counts(arms, i, ty, m, c) matches Ok(c1) ==> counted(c, c1),
    decreases arms, arms.len() - i,
{
    if 0 <= i < arms.len() {
        lemma_blank(cx);
        law_coerced(arms[i].body, ty, cx, blank(), m, c);
        if let Ok(ca) = crate::lower::block::coerced_counts(arms[i].body, ty, m, c) {
            lemma_arms_counted(arms, i + 1, ty, cx, m, ca);
        }
    }
}

/// The counts of a match behind its scrutinee.
pub open spec fn match_counts(e: IrExpr, m: IrModule, c: ScratchCounts) -> Result<
    ScratchCounts,
    LowerError,
> {
    match e {
        IrExpr::Match { arms, ty, .. } => match crate::lower::block::arms_counts(
            arms@,
            0,
            ty,
            m,
            c,
        ) {
            Err(x) => Err(x),
            Ok(c1) => match crate::lower::control::last_wildcard(arms@, arms@.len()) {
                None => Ok(c1),
                Some(w) => crate::lower::block::coerced_counts(arms@[w].body, ty, m, c1),
            },
        },
        _ => Ok(c),
    }
}

proof fn lemma_match_arms(
    e: IrExpr,
    plan: EnumPlan,
    local: u32,
    cx: Cx,
    s: SinkView,
    m: IrModule,
    c: ScratchCounts,
)
    requires
        cx.module == Some(m),
        placed(cx, top(s.scratch)),
        local < top(s.scratch),
        e is Match,
    ensures
        match_counts(e, m, c) matches Ok(c1) ==> counted(c, c1) && lawful(
            s,
            crate::lower::control::match_arms_code(e, plan, local, cx, s),
            between(c, c1),
        ),
    decreases e, 0int,
{
    broadcast use {
        lemma_start,
        lemma_plain,
        lemma_fail_at_once,
        lemma_top,
        lemma_part_top,
        lemma_binding,
    };

    if let Ok(c1) = match_counts(e, m, c) {
        let all = between(c, c1);
        if let IrExpr::Match { arms, ty, .. } = e {
            crate::lower::control::lemma_last_wildcard_in_range(arms@, arms@.len());
            let ca = crate::lower::block::arms_counts(arms@, 0, ty, m, c)->Ok_0;
            lemma_arms_counted(arms@, 0, ty, cx, m, c);
            let wildcard = crate::lower::control::last_wildcard(arms@, arms@.len());
            if let Some(w) = wildcard {
                law_coerced(arms@[w].body, ty, cx, s, m, ca);
            }
            if let Ok(v) = crate::types::body_val(ty) {
                let outer = Instr::Block(crate::lower::control::block_of(v));
                let inner = Instr::Block(crate::instr::BlockType::Empty);
                lemma_open(s, s, none(), 0, outer);
                lemma_open(s, s.emit(outer), none(), 1, inner);
                let s0 = s.emit(outer).emit(inner);
                lemma_open_blocks(s, s0, none(), 2, arms@.len());
                let s1 = crate::lower::control::open_blocks(s0, arms@.len());
                if arms@.len() > u32::MAX {
                    lemma_fail(
                        s,
                        s1,
                        none(),
                        2 + arms@.len() as int,
                        crate::lower::error::missing(crate::lower::error::Missing::TooManyArms),
                        all,
                    );
                } else {
                    lemma_dispatch(s, s1, none(), arms@, plan, local);
                    let s2 = crate::lower::control::dispatch_code(arms@, plan, local, s1);
                    lemma_arms(s, arms@, 0, ty, plan, local, cx, s2, none(), m, c, all);
                    let o = crate::lower::control::arms_code(arms@, 0, ty, plan, local, cx, s2);
                    let n = none().plus(between(c, ca));
                    if o.err is None {
                        match wildcard {
                            None => {
                                let s3 = o.sink.emit(Instr::Unreachable);
                                assert(reached(s, s3, n, 1));
                                lemma_end(s, s3, n, 1);
                                lemma_done(s, s3.emit(Instr::End), n, all);
                            },
                            Some(w) => {
                                law_coerced(arms@[w].body, ty, cx, o.sink, m, ca);
                                let d = crate::lower::optional::coerced_code(
                                    arms@[w].body,
                                    ty,
                                    cx,
                                    o.sink,
                                );
                                let k = between(ca, c1);
                                lemma_part(s, o.sink, n, 1, d, k, all);
                                if d.err is None {
                                    lemma_end(s, d.sink, n.plus(k), 1);
                                    lemma_done(s, d.sink.emit(Instr::End), n.plus(k), all);
                                }
                            },
                        }
                    }
                }
            }
        }
    }
}

proof fn lemma_match(e: IrExpr, cx: Cx, s: SinkView, m: IrModule, c: ScratchCounts)
    requires
        cx.module == Some(m),
        placed(cx, top(s.scratch)),
        e is Match,
    ensures
        crate::lower::block::expr_counts(e, m, c) matches Ok(c1) ==> counted(c, c1) && lawful(
            s,
            crate::lower::control::match_code(e, cx, s),
            between(c, c1),
        ),
    decreases e, 2int,
{
    broadcast use {lemma_start, lemma_fail_at_once, lemma_top, lemma_part_top};

    if let Ok(c1) = crate::lower::block::expr_counts(e, m, c) {
        let all = between(c, c1);
        if let IrExpr::Match { scrutinee, arms, ty } = e {
            lemma_bumped(c, ValType::I32);
            let ca = crate::lower::block::bumped(c, ValType::I32)->Ok_0;
            law_expr(*scrutinee, cx, s, m, ca);
            let cb = crate::lower::block::expr_counts(*scrutinee, m, ca)->Ok_0;
            assert(match_counts(e, m, cb) == Ok::<ScratchCounts, LowerError>(c1));
            lemma_match_counted(e, cx, m, cb);
            lemma_scratch(s, s, none(), 0, ValType::I32, all);
            if let ResolvedType::Enum(id) = scrutinee.spec_ty() {
                if let Ok((_, plan)) = crate::lower::aggregate::enum_plan_of(id, m) {
                    if let Ok((local, s1)) = s.scratch_local(ValType::I32) {
                        let n1 = none().plus(one(ValType::I32));
                        lemma_match_parked(s, e, plan, local, cx, s1, n1, m, ca, cb, all);
                    }
                }
            }
        }
    }
}

/// A match from its scrutinee on, which goes to a local of its own.
proof fn lemma_match_parked(
    s0: SinkView,
    e: IrExpr,
    plan: EnumPlan,
    local: u32,
    cx: Cx,
    s: SinkView,
    n: Amount,
    m: IrModule,
    ca: ScratchCounts,
    cb: ScratchCounts,
    all: Amount,
)
    requires
        cx.module == Some(m),
        placed(cx, top(s0.scratch)),
        local < top(s0.scratch),
        e is Match,
        reached(s0, s, n, 0),
        crate::lower::block::expr_counts(*(e->Match_scrutinee), m, ca) == Ok::<_, LowerError>(cb),
        match_counts(e, m, cb) matches Ok(c1) && n.plus(between(ca, cb)).plus(
            between(cb, c1),
        ).within(all),
    ensures
        ({
            let o = crate::lower::expr_code(*(e->Match_scrutinee), cx, s);
            lawful(
                s0,
                if o.err is Some {
                    o
                } else {
                    crate::lower::control::match_arms_code(
                        e,
                        plan,
                        local,
                        cx,
                        o.sink.emit(Instr::LocalSet(local)),
                    )
                },
                all,
            )
        }),
    decreases e, 1int,
{
    broadcast use {lemma_plain, lemma_top, lemma_part_top, lemma_binding};

    let c1 = match_counts(e, m, cb)->Ok_0;
    let k1 = between(ca, cb);
    let k2 = between(cb, c1);
    law_expr(*(e->Match_scrutinee), cx, s, m, ca);
    let o = crate::lower::expr_code(*(e->Match_scrutinee), cx, s);
    let s2 = o.sink.emit(Instr::LocalSet(local));
    if reached(s0, o.sink, n.plus(k1), 0) {
        assert(reached(s0, s2, n.plus(k1), 0));
    }
    lemma_match_arms(e, plan, local, cx, s2, m, cb);
    let rest = crate::lower::control::match_arms_code(e, plan, local, cx, s2);
    lemma_two_parts(s0, s, n, 0, o, k1, s2, rest, k2, all);
    if o.err is None && rest.err is None {
        lemma_done(s0, rest.sink, n.plus(k1).plus(k2), all);
    }
}

proof fn lemma_match_counted(e: IrExpr, cx: Cx, m: IrModule, c: ScratchCounts)
    requires
        cx.module == Some(m),
        e is Match,
    ensures
        match_counts(e, m, c) matches Ok(c1) ==> counted(c, c1),
    decreases e, 1int,
{
    if let Ok(c1) = match_counts(e, m, c) {
        if let IrExpr::Match { arms, ty, .. } = e {
            crate::lower::control::lemma_last_wildcard_in_range(arms@, arms@.len());
            let ca = crate::lower::block::arms_counts(arms@, 0, ty, m, c)->Ok_0;
            lemma_arms_counted(arms@, 0, ty, cx, m, c);
            if let Some(w) = crate::lower::control::last_wildcard(arms@, arms@.len()) {
                lemma_blank(cx);
                law_coerced(arms@[w].body, ty, cx, blank(), m, ca);
            }
        }
    }
}

// ── for ──────────────────────────────────────────────────────────────

/// `k` scratch locals of type `I32`.
pub open spec fn words(k: nat) -> Amount {
    Amount { i32_slots: k, ..none() }
}

proof fn lemma_bumped_by(c: ScratchCounts, k: nat)
    ensures
        crate::lower::block::bumped_by(c, ValType::I32, k) matches Ok(c1) ==> counted(c, c1)
            && between(c, c1) == words(k),
    decreases k,
{
    if k > 0 {
        lemma_bumped_by(c, (k - 1) as nat);
        if let Ok(c1) = crate::lower::block::bumped_by(c, ValType::I32, (k - 1) as nat) {
            lemma_bumped(c1, ValType::I32);
        }
    }
}

/// The locals of a loop are below `limit`.
pub open spec fn loop_below(l: ForLocals, limit: int) -> bool {
    &&& l.source < limit
    &&& l.first < limit
    &&& l.second < limit
    &&& l.len < limit
    &&& l.i < limit
    &&& l.out_buf < limit
    &&& l.out_header < limit
}

proof fn lemma_word(s0: SinkView, s: SinkView, k: nat, all: Amount)
    requires
        reached(s0, s, words(k), 0),
        words(k + 1).within(all),
    ensures
        match s.scratch_local(ValType::I32) {
            Ok((local, s1)) => reached(s0, s1, words(k + 1), 0) && local < top(s0.scratch),
            Err(x) => lawful(s0, s.fail(x), all),
        },
{
    assert(words(k).plus(one(ValType::I32)) == words(k + 1));
    lemma_scratch(s0, s, words(k), 0, ValType::I32, all);
}

proof fn lemma_for_locals(s: SinkView, all: Amount)
    requires
        words(7).within(all),
    ensures
        match crate::lower::control::for_locals(s) {
            (Ok(l), s1) => reached(s, s1, words(7), 0) && loop_below(l, top(s.scratch)),
            (Err(x), s1) => lawful(s, s1.fail(x), all),
        },
{
    broadcast use {lemma_start, lemma_top};

    assert(reached(s, s, words(0), 0));
    lemma_word(s, s, 0, all);
    if let Ok((_, s1)) = s.scratch_local(ValType::I32) {
        lemma_word(s, s1, 1, all);
        if let Ok((_, s2)) = s1.scratch_local(ValType::I32) {
            lemma_word(s, s2, 2, all);
            if let Ok((_, s3)) = s2.scratch_local(ValType::I32) {
                lemma_word(s, s3, 3, all);
                if let Ok((_, s4)) = s3.scratch_local(ValType::I32) {
                    lemma_word(s, s4, 4, all);
                    if let Ok((_, s5)) = s4.scratch_local(ValType::I32) {
                        lemma_word(s, s5, 5, all);
                        if let Ok((_, s6)) = s5.scratch_local(ValType::I32) {
                            lemma_word(s, s6, 6, all);
                        }
                    }
                }
            }
        }
    }
}

proof fn lemma_output(layout: ArrayLayout, l: ForLocals, cx: Cx, s: SinkView)
    requires
        loop_below(l, top(s.scratch)),
    ensures
        lawful(s, crate::lower::control::output_code(layout, l, cx, s), none()),
{
    broadcast use {
        lemma_start,
        lemma_plain,
        lemma_fail_at_once,
        lemma_top,
        lemma_part_top,
        lemma_binding,
    };

    let o = crate::lower::control::output_code(layout, l, cx, s);
    if o.err is None {
        assert(reached(s, o.sink, none(), 0));
        lemma_done(s, o.sink, none(), none());
    } else if cx.spec_bump_allocator() is Ok && crate::lower::control::element_size_const(
        layout,
    ) is Ok {
        assert(reached(s, o.sink, none(), 0));
        lemma_fail(s, o.sink, none(), 0, o.err->0, none());
    }
}

proof fn lemma_loop_head(s0: SinkView, s: SinkView, n: Amount, l: ForLocals)
    requires
        loop_below(l, top(s0.scratch)),
        reached(s0, s, n, 0),
    ensures
        reached(s0, crate::lower::control::loop_head(l, s), n, 2),
{
    broadcast use {lemma_plain, lemma_top, lemma_part_top, lemma_binding};

    let empty = crate::instr::BlockType::Empty;
    lemma_open(s0, s, n, 0, Instr::Block(empty));
    let s1 = s.emit(Instr::Block(empty));
    lemma_open(s0, s1, n, 1, Instr::Loop(empty));
    let s2 = s1.emit(Instr::Loop(empty)).emit(Instr::LocalGet(l.i)).emit(
        Instr::LocalGet(l.len),
    ).emit(Instr::I32(crate::instr::IntOp::GeS));
    assert(reached(s0, s2, n, 2));
    lemma_branch(s0, s2, n, 2, Instr::BrIf(1));
}

proof fn lemma_loop_tail(s0: SinkView, s: SinkView, n: Amount, l: ForLocals)
    requires
        loop_below(l, top(s0.scratch)),
        reached(s0, s, n, 2),
    ensures
        reached(s0, crate::lower::control::loop_tail(l, s), n, 0),
{
    broadcast use {lemma_plain, lemma_top, lemma_part_top, lemma_binding};

    let s1 = s.emit(Instr::LocalGet(l.i)).emit(Instr::I32Const(1)).emit(
        Instr::I32(crate::instr::IntOp::Add),
    ).emit(Instr::LocalSet(l.i));
    assert(reached(s0, s1, n, 2));
    lemma_branch(s0, s1, n, 2, Instr::Br(0));
    lemma_end(s0, s1.emit(Instr::Br(0)), n, 2);
    lemma_end(s0, s1.emit(Instr::Br(0)).emit(Instr::End), n, 1);
}

proof fn lemma_for_body(
    s0: SinkView,
    body: IrExpr,
    body_ty: ResolvedType,
    out: ArrayLayout,
    size: i32,
    l: ForLocals,
    cx: Cx,
    s: SinkView,
    n: Amount,
    m: IrModule,
    c: ScratchCounts,
    all: Amount,
)
    requires
        cx.module == Some(m),
        placed(cx, top(s0.scratch)),
        loop_below(l, top(s0.scratch)),
        reached(s0, s, n, 2),
        crate::lower::block::expr_counts(body, m, c) matches Ok(c1) && n.plus(
            between(c, c1),
        ).within(all),
    ensures
        lawful(
            s0,
            crate::lower::control::for_body_code(body, body_ty, out, size, l, cx, s),
            all,
        ),
    decreases body, 6int,
{
    broadcast use {lemma_plain, lemma_top, lemma_part_top, lemma_binding};

    let c1 = crate::lower::block::expr_counts(body, m, c)->Ok_0;
    let s1 = crate::lower::control::element_address(l.out_buf, l.i, size, s);
    assert(reached(s0, s1, n, 2));
    law_expr(body, cx, s1, m, c);
    let o = crate::lower::expr_code(body, cx, s1);
    let k = between(c, c1);
    lemma_part(s0, s1, n, 2, o, k, all);
    if o.err is None {
        let n1 = n.plus(k);
        match crate::lower::control::body_store(
            body_ty,
            crate::lower::aggregate::element_slot(out),
        ) {
            Err(x) => lemma_fail(s0, o.sink, n1, 2, x, all),
            Ok(store) => {
                let s2 = o.sink.emit(store);
                assert(reached(s0, s2, n1, 2));
                lemma_loop_tail(s0, s2, n1, l);
                let end = crate::lower::control::for_body_code(
                    body,
                    body_ty,
                    out,
                    size,
                    l,
                    cx,
                    s,
                );
                assert(reached(s0, end.sink, n1, 0));
                lemma_done(s0, end.sink, n1, all);
            },
        }
    }
}

proof fn lemma_for_range(
    e: IrExpr,
    bound: ResolvedType,
    body_ty: ResolvedType,
    var: u32,
    cx: Cx,
    s: SinkView,
    m: IrModule,
    c: ScratchCounts,
)
    requires
        cx.module == Some(m),
        placed(cx, top(s.scratch)),
        var < top(s.scratch),
        e is For,
    ensures
        crate::lower::block::expr_counts(e, m, c) matches Ok(c1) ==> counted(c, c1) && lawful(
            s,
            crate::lower::control::for_range_code(e, bound, body_ty, var, cx, s),
            between(c, c1),
        ),
    decreases e, 1int,
{
    broadcast use {
        lemma_start,
        lemma_plain,
        lemma_fail_at_once,
        lemma_top,
        lemma_part_top,
        lemma_binding,
    };

    if let Ok(c1) = crate::lower::block::expr_counts(e, m, c) {
        let all = between(c, c1);
        if let IrExpr::For { collection, body, .. } = e {
            lemma_bumped_by(c, 7);
            let ca = crate::lower::block::bumped_by(c, ValType::I32, 7)->Ok_0;
            law_expr(*collection, cx, s, m, ca);
            let cb = crate::lower::block::expr_counts(*collection, m, ca)->Ok_0;
            law_expr(*body, cx, s, m, cb);
            let k1 = between(ca, cb);
            if let Ok(range) = crate::layout::range_plan(bound) {
                if let Ok(out) = crate::layout::array_plan(body_ty) {
                    lemma_for_locals(s, all);
                    if let (Ok(l), s1) = crate::lower::control::for_locals(s) {
                        law_expr(*collection, cx, s1, m, ca);
                        let o = crate::lower::expr_code(*collection, cx, s1);
                        lemma_part(s, s1, words(7), 0, o, k1, all);
                        if o.err is None {
                            let n1 = words(7).plus(k1);
                            let s2 = o.sink.emit(Instr::LocalSet(l.source));
                            let s3 = crate::lower::control::read_slot(
                                l.source,
                                0,
                                range.bound_align,
                                l.first,
                                s2,
                            );
                            let s4 = crate::lower::control::read_slot(
                                l.source,
                                range.end_offset,
                                range.bound_align,
                                l.second,
                                s3,
                            );
                            let s5 = crate::lower::control::range_len_code(l, s4);
                            assert(reached(s, s4, n1, 0));
                            assert(reached(s, s5, n1, 0));
                            lemma_output(out, l, cx, s5);
                            let o2 = crate::lower::control::output_code(out, l, cx, s5);
                            lemma_part(s, s5, n1, 0, o2, none(), all);
                            if o2.err is None {
                                assert(n1.plus(none()) == n1);
                                lemma_for_range_loop(
                                    s,
                                    *body,
                                    body_ty,
                                    out,
                                    var,
                                    l,
                                    cx,
                                    o2.sink,
                                    n1,
                                    m,
                                    cb,
                                    all,
                                );
                            }
                        }
                    }
                }
            }
        }
    }
}

proof fn lemma_for_range_loop(
    s0: SinkView,
    body: IrExpr,
    body_ty: ResolvedType,
    out: ArrayLayout,
    var: u32,
    l: ForLocals,
    cx: Cx,
    s: SinkView,
    n: Amount,
    m: IrModule,
    c: ScratchCounts,
    all: Amount,
)
    requires
        cx.module == Some(m),
        placed(cx, top(s0.scratch)),
        loop_below(l, top(s0.scratch)),
        var < top(s0.scratch),
        reached(s0, s, n, 0),
        n.within(all),
        crate::lower::block::expr_counts(body, m, c) matches Ok(c1) && n.plus(
            between(c, c1),
        ).within(all),
    ensures
        lawful(
            s0,
            match crate::lower::control::element_size_const(out) {
                Err(x) => s.fail(x),
                Ok(size) => crate::lower::control::for_body_code(
                    body,
                    body_ty,
                    out,
                    size,
                    l,
                    cx,
                    crate::lower::control::loop_head(l, s).emit(Instr::LocalGet(l.first)).emit(
                        Instr::LocalGet(l.i),
                    ).emit(Instr::I32(crate::instr::IntOp::Add)).emit(Instr::LocalSet(var)),
                ),
            },
            all,
        ),
    decreases body, 7int,
{
    broadcast use {lemma_plain, lemma_top, lemma_part_top, lemma_binding};

    match crate::lower::control::element_size_const(out) {
        Err(x) => lemma_fail(s0, s, n, 0, x, all),
        Ok(size) => {
            lemma_loop_head(s0, s, n, l);
            let s1 = crate::lower::control::loop_head(l, s).emit(Instr::LocalGet(l.first)).emit(
                Instr::LocalGet(l.i),
            ).emit(Instr::I32(crate::instr::IntOp::Add)).emit(Instr::LocalSet(var));
            assert(reached(s0, s1, n, 2));
            lemma_for_body(s0, body, body_ty, out, size, l, cx, s1, n, m, c, all);
        },
    }
}

proof fn lemma_for_array_loop(
    s0: SinkView,
    body: IrExpr,
    elem_ty: ResolvedType,
    body_ty: ResolvedType,
    input: ArrayLayout,
    out: ArrayLayout,
    var: u32,
    l: ForLocals,
    cx: Cx,
    s: SinkView,
    n: Amount,
    m: IrModule,
    c: ScratchCounts,
    all: Amount,
)
    requires
        cx.module == Some(m),
        placed(cx, top(s0.scratch)),
        loop_below(l, top(s0.scratch)),
        var < top(s0.scratch),
        reached(s0, s, n, 0),
        n.within(all),
        crate::lower::block::expr_counts(body, m, c) matches Ok(c1) && n.plus(
            between(c, c1),
        ).within(all),
    ensures
        lawful(
            s0,
            crate::lower::control::for_array_loop_code(
                body,
                elem_ty,
                body_ty,
                input,
                out,
                var,
                l,
                cx,
                s,
            ),
            all,
        ),
    decreases body, 7int,
{
    broadcast use {lemma_plain, lemma_top, lemma_part_top, lemma_binding};

    match (
        crate::lower::control::element_size_const(input),
        crate::lower::control::element_size_const(out),
    ) {
        (Err(x), _) => lemma_fail(s0, s, n, 0, x, all),
        (Ok(_), Err(x)) => lemma_fail(s0, s, n, 0, x, all),
        (Ok(in_size), Ok(out_size)) => {
            lemma_loop_head(s0, s, n, l);
            let s1 = crate::lower::control::element_address(
                l.first,
                l.i,
                in_size,
                crate::lower::control::loop_head(l, s),
            );
            assert(reached(s0, s1, n, 2));
            match crate::lower::control::for_element_load(
                elem_ty,
                crate::lower::aggregate::element_slot(input),
            ) {
                Err(x) => lemma_fail(s0, s1, n, 2, x, all),
                Ok(load) => {
                    let s2 = s1.emit(load).emit(Instr::LocalSet(var));
                    assert(reached(s0, s2, n, 2));
                    lemma_for_body(s0, body, body_ty, out, out_size, l, cx, s2, n, m, c, all);
                },
            }
        },
    }
}

proof fn lemma_for_array(
    e: IrExpr,
    elem_ty: ResolvedType,
    body_ty: ResolvedType,
    var: u32,
    cx: Cx,
    s: SinkView,
    m: IrModule,
    c: ScratchCounts,
)
    requires
        cx.module == Some(m),
        placed(cx, top(s.scratch)),
        var < top(s.scratch),
        e is For,
    ensures
        crate::lower::block::expr_counts(e, m, c) matches Ok(c1) ==> counted(c, c1) && lawful(
            s,
            crate::lower::control::for_array_code(e, elem_ty, body_ty, var, cx, s),
            between(c, c1),
        ),
    decreases e, 1int,
{
    broadcast use {
        lemma_start,
        lemma_plain,
        lemma_fail_at_once,
        lemma_top,
        lemma_part_top,
        lemma_binding,
    };

    if let Ok(c1) = crate::lower::block::expr_counts(e, m, c) {
        let all = between(c, c1);
        if let IrExpr::For { collection, body, .. } = e {
            lemma_bumped_by(c, 7);
            let ca = crate::lower::block::bumped_by(c, ValType::I32, 7)->Ok_0;
            law_expr(*collection, cx, s, m, ca);
            let cb = crate::lower::block::expr_counts(*collection, m, ca)->Ok_0;
            law_expr(*body, cx, s, m, cb);
            let k1 = between(ca, cb);
            if let Ok(input) = crate::layout::array_plan(elem_ty) {
                if let Ok(out) = crate::layout::array_plan(body_ty) {
                    lemma_for_locals(s, all);
                    if let (Ok(l), s1) = crate::lower::control::for_locals(s) {
                        law_expr(*collection, cx, s1, m, ca);
                        let o = crate::lower::expr_code(*collection, cx, s1);
                        lemma_part(s, s1, words(7), 0, o, k1, all);
                        if o.err is None {
                            let n1 = words(7).plus(k1);
                            let s2 = o.sink.emit(Instr::LocalSet(l.source));
                            let s3 = crate::lower::control::read_slot(
                                l.source,
                                crate::layout::ARRAY_HEADER_PTR_OFFSET,
                                crate::layout::ARRAY_HEADER_ALIGN,
                                l.first,
                                s2,
                            );
                            let s4 = crate::lower::control::read_slot(
                                l.source,
                                crate::layout::ARRAY_HEADER_LEN_OFFSET,
                                crate::layout::ARRAY_HEADER_ALIGN,
                                l.len,
                                s3,
                            );
                            assert(reached(s, s4, n1, 0));
                            lemma_output(out, l, cx, s4);
                            let o2 = crate::lower::control::output_code(out, l, cx, s4);
                            lemma_part(s, s4, n1, 0, o2, none(), all);
                            if o2.err is None {
                                assert(n1.plus(none()) == n1);
                                lemma_for_array_loop(
                                    s,
                                    *body,
                                    elem_ty,
                                    body_ty,
                                    input,
                                    out,
                                    var,
                                    l,
                                    cx,
                                    o2.sink,
                                    n1,
                                    m,
                                    cb,
                                    all,
                                );
                            }
                        }
                    }
                }
            }
        }
    }
}

proof fn lemma_for(e: IrExpr, cx: Cx, s: SinkView, m: IrModule, c: ScratchCounts)
    requires
        cx.module == Some(m),
        placed(cx, top(s.scratch)),
        e is For,
    ensures
        crate::lower::block::expr_counts(e, m, c) matches Ok(c1) ==> counted(c, c1) && lawful(
            s,
            crate::lower::control::for_code(e, cx, s),
            between(c, c1),
        ),
    decreases e, 2int,
{
    broadcast use {lemma_fail_at_once, lemma_binding};

    if let IrExpr::For { var_ty, var_binding_id, collection, ty, .. } = e {
        let unit = ResolvedType::Error;
        lemma_blank(cx);
        lemma_for_range(e, unit, unit, 0, cx, blank(), m, c);
        if let Ok((kind, body_ty)) = crate::lower::control::for_types(
            collection.spec_ty(),
            var_ty,
            ty,
        ) {
            if let Ok(var) = cx.local_of(var_binding_id) {
                match kind {
                    crate::lower::control::ForKind::Range(bound) => {
                        lemma_for_range(e, bound, body_ty, var, cx, s, m, c);
                    },
                    crate::lower::control::ForKind::Array(elem) => {
                        lemma_for_array(e, elem, body_ty, var, cx, s, m, c);
                    },
                }
            }
        }
    }
}

// ── whole bodies ─────────────────────────────────────────────────────

proof fn lemma_body(
    body: IrExpr,
    return_ty: Option<ResolvedType>,
    cx: Cx,
    m: IrModule,
    scratch: ScratchAllocator,
)
    requires
        cx.module == Some(m),
        placed(cx, top(Some(scratch))),
    ensures
        ({
            let s = SinkView { code: Seq::empty(), scratch: Some(scratch) };
            let o = match return_ty {
                Some(t) => crate::lower::optional::coerced_code(body, t, cx, s),
                None => crate::lower::expr_code(body, cx, s),
            };
            crate::lower::block::body_counts(body, return_ty, m) matches Ok(c) ==> lawful(
                s,
                o,
                Amount {
                    i32_slots: c.i32_slots as nat,
                    i64_slots: c.i64_slots as nat,
                    f32_slots: c.f32_slots as nat,
                    f64_slots: c.f64_slots as nat,
                },
            )
        }),
{
    let s = SinkView { code: Seq::empty(), scratch: Some(scratch) };
    let c0 = ScratchCounts { i32_slots: 0, i64_slots: 0, f32_slots: 0, f64_slots: 0 };
    match return_ty {
        Some(t) => law_coerced(body, t, cx, s, m, c0),
        None => law_expr(body, cx, s, m, c0),
    }
}

proof fn lemma_param_map(params: Seq<crate::lower::block::Local>, k: nat, id: u32)
    requires
        k <= params.len() <= u32::MAX,
        crate::lower::block::param_map(params, k).dom().contains(id),
    ensures
        crate::lower::block::param_map(params, k)[id] < k,
    decreases k,
{
    if k > 0 && id != (params[k - 1].0).0 {
        lemma_param_map(params, (k - 1) as nat, id);
    }
}

proof fn lemma_binding_map(
    params: Seq<crate::lower::block::Local>,
    lets: Seq<crate::lower::block::Local>,
    k: nat,
    id: u32,
)
    requires
        k <= lets.len(),
        params.len() + lets.len() <= u32::MAX,
        crate::lower::block::binding_map(params, lets, k).dom().contains(id),
    ensures
        crate::lower::block::binding_map(params, lets, k)[id] < params.len() + k,
    decreases k,
{
    if k == 0 {
        lemma_param_map(params, params.len(), id);
    } else if id != (lets[k - 1].0).0 {
        lemma_binding_map(params, lets, (k - 1) as nat, id);
    }
}

/// The bindings of a body lie in front of its scratch locals.
proof fn lemma_plan_is_placed(
    body: IrExpr,
    params: Seq<crate::lower::block::Local>,
    c: ScratchCounts,
    cx: Cx,
)
    ensures
        crate::lower::block::locals_plan(body, params) matches Ok((bindings, lets)) ==> (
        crate::lower::block::first_scratch(params.len(), lets.len()) matches Ok(at) ==> (
        crate::lower::block::scratch_plan(c, at) matches Ok((scratch, _)) ==> placed(
            Cx { bindings, ..cx },
            top(Some(scratch)),
        ) && top(Some(scratch)) == params.len() + lets.len() + c.total())),
{
    reveal(placed);
    reveal(top);
    if let Ok((bindings, lets)) = crate::lower::block::locals_plan(body, params) {
        if let Ok(at) = crate::lower::block::first_scratch(params.len(), lets.len()) {
            assert forall|id: u32| #[trigger] bindings.dom().contains(id) implies bindings[id]
                < at by {
                lemma_binding_map(params, lets, lets.len(), id);
            }
        }
    }
}

/// The scratch locals that are counted for a function body suffice to lower
/// it: where the bindings and the scratch locals of a body can be counted,
/// lowering it never runs out of scratch locals.
pub proof fn law_counted_scratch_locals_suffice(
    body: IrExpr,
    return_ty: Option<ResolvedType>,
    params: Seq<crate::lower::block::Local>,
    m: IrModule,
    cx: Cx,
)
    requires
        cx.module == Some(m),
        crate::lower::block::locals_plan(body, params) is Ok,
        crate::lower::block::body_counts(body, return_ty, m) is Ok,
    ensures
        crate::lower::block::module_body(body, return_ty, params, m, cx) matches Err(x)
            ==> !ran_out(x),
{
    let (bindings, lets) = crate::lower::block::locals_plan(body, params)->Ok_0;
    let counts = crate::lower::block::body_counts(body, return_ty, m)->Ok_0;
    if let Ok(at) = crate::lower::block::first_scratch(params.len(), lets.len()) {
        if let Ok((scratch, _)) = crate::lower::block::scratch_plan(counts, at) {
            lemma_plan_is_placed(body, params, counts, cx);
            lemma_body(body, return_ty, Cx { bindings, ..cx }, m, scratch);
            reveal(lawful);
        }
    }
}

/// The code of a function body is well nested: it ends with the `end` of the
/// function, and what stands before closes every block that it opens, closes
/// none twice, and branches only to blocks that are open.
pub proof fn law_bodies_are_well_nested(
    body: IrExpr,
    return_ty: Option<ResolvedType>,
    params: Seq<crate::lower::block::Local>,
    m: IrModule,
    cx: Cx,
)
    requires
        cx.module == Some(m),
    ensures
        crate::lower::block::module_body(body, return_ty, params, m, cx) matches Ok(b) ==> {
            &&& b.code.len() > 0
            &&& b.code.last() == Instr::End
            &&& nested(b.code.drop_last(), 0, 0)
        },
{
    if let Ok(b) = crate::lower::block::module_body(body, return_ty, params, m, cx) {
        let (bindings, lets) = crate::lower::block::locals_plan(body, params)->Ok_0;
        let counts = crate::lower::block::body_counts(body, return_ty, m)->Ok_0;
        let at = crate::lower::block::first_scratch(params.len(), lets.len())->Ok_0;
        let (scratch, _) = crate::lower::block::scratch_plan(counts, at)->Ok_0;
        lemma_plan_is_placed(body, params, counts, cx);
        lemma_body(body, return_ty, Cx { bindings, ..cx }, m, scratch);
        reveal(lawful);
        let s = SinkView { code: Seq::empty(), scratch: Some(scratch) };
        let o = match return_ty {
            Some(t) => crate::lower::optional::coerced_code(body, t, Cx { bindings, ..cx }, s),
            None => crate::lower::expr_code(body, Cx { bindings, ..cx }, s),
        };
        assert(b.code.drop_last() =~= o.sink.code);
    }
}

/// The number of locals that declarations give.
pub open spec fn declared(locals: Seq<(u32, ValType)>) -> int
    decreases locals.len(),
{
    if locals.len() == 0 {
        0
    } else {
        declared(locals.drop_last()) + locals.last().0
    }
}

proof fn lemma_declared(a: Seq<(u32, ValType)>, b: Seq<(u32, ValType)>)
    ensures
        declared(a + b) == declared(a) + declared(b),
    decreases b.len(),
{
    if b.len() == 0 {
        assert(a + b =~= a);
    } else {
        assert((a + b).drop_last() =~= a + b.drop_last());
        lemma_declared(a, b.drop_last());
    }
}

proof fn lemma_declared_run(count: u32, ty: ValType)
    ensures
        declared(crate::lower::block::run(count, ty)) == count,
{
    reveal_with_fuel(declared, 2);
}

proof fn lemma_declared_lets(lets: Seq<crate::lower::block::Local>)
    ensures
        declared(crate::lower::block::one_each(lets)) == lets.len(),
    decreases lets.len(),
{
    let all = crate::lower::block::one_each(lets);
    if lets.len() > 0 {
        assert(all.drop_last() =~= crate::lower::block::one_each(lets.drop_last()));
        lemma_declared_lets(lets.drop_last());
    }
}

/// The code of a function body names only locals that the function has: its
/// parameters and the locals that the body declares. The first local, where a
/// method finds `self`, is read even where the function has none.
pub proof fn law_named_locals_are_declared(
    body: IrExpr,
    return_ty: Option<ResolvedType>,
    params: Seq<crate::lower::block::Local>,
    m: IrModule,
    cx: Cx,
)
    requires
        cx.module == Some(m),
    ensures
        crate::lower::block::module_body(body, return_ty, params, m, cx) matches Ok(b)
            ==> all_below(b.code, 0, params.len() + declared(b.locals)),
{
    if let Ok(b) = crate::lower::block::module_body(body, return_ty, params, m, cx) {
        let (bindings, lets) = crate::lower::block::locals_plan(body, params)->Ok_0;
        let c = crate::lower::block::body_counts(body, return_ty, m)->Ok_0;
        let at = crate::lower::block::first_scratch(params.len(), lets.len())->Ok_0;
        let (scratch, runs) = crate::lower::block::scratch_plan(c, at)->Ok_0;
        lemma_plan_is_placed(body, params, c, cx);
        lemma_body(body, return_ty, Cx { bindings, ..cx }, m, scratch);
        let i32s = crate::lower::block::run(c.i32_slots, ValType::I32);
        let i64s = crate::lower::block::run(c.i64_slots, ValType::I64);
        let f32s = crate::lower::block::run(c.f32_slots, ValType::F32);
        let f64s = crate::lower::block::run(c.f64_slots, ValType::F64);
        lemma_declared_run(c.i32_slots, ValType::I32);
        lemma_declared_run(c.i64_slots, ValType::I64);
        lemma_declared_run(c.f32_slots, ValType::F32);
        lemma_declared_run(c.f64_slots, ValType::F64);
        lemma_declared(i32s, i64s);
        lemma_declared(i32s + i64s, f32s);
        lemma_declared(i32s + i64s + f32s, f64s);
        lemma_declared_lets(lets);
        lemma_declared(crate::lower::block::one_each(lets), runs);
        reveal(lawful);
        let s = SinkView { code: Seq::empty(), scratch: Some(scratch) };
        let o = match return_ty {
            Some(t) => crate::lower::optional::coerced_code(body, t, Cx { bindings, ..cx }, s),
            None => crate::lower::expr_code(body, Cx { bindings, ..cx }, s),
        };
        assert(b.code.drop_last() =~= o.sink.code);
    }
}

} // verus!
