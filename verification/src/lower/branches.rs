//! Laws: which branch runs, and what it begins with.

use vstd::prelude::*;

use crate::execution::{Env, Outcome, Piece, Stack, State, Tree, Value};
use crate::instr::{BlockType, Instr, LoadOp, ValType};
use crate::ir::{IrExpr, IrMatchArm, List, PrimitiveType, ResolvedType};
use crate::layout::{EnumPlan, FieldLayout, ENUM_TAG_ALIGN};
use crate::lower::context::{Cx, SinkView};

verus! {

broadcast use {
    crate::execution::group_exec,
    crate::execution::group_code,
    crate::execution::group_pieces,
};

/// What code does from one state on.
pub type Effect = spec_fn(State) -> Outcome;

/// The operands behind code of a type: one more where the type has values.
pub open spec fn fits(v: Option<ValType>, before: Stack, after: Stack) -> bool {
    match v {
        Some(_) => after matches Stack::Push(_, rest) && *rest == before,
        None => after == before,
    }
}

// ── conditions ───────────────────────────────────────────────────────

/// The pieces of a condition and its branches.
pub open spec fn if_pieces(e: IrExpr, condition: Effect, yes: Effect, no: Effect) -> Seq<Piece> {
    match e {
        IrExpr::If { condition: c, then_branch, else_branch, ty } => seq![
            Piece { e: *c, into: None, effect: condition },
            Piece { e: *then_branch, into: Some(ty), effect: yes },
        ] + match else_branch {
            Some(other) => seq![Piece { e: *other, into: Some(ty), effect: no }],
            None => Seq::empty(),
        },
        _ => Seq::empty(),
    }
}

/// A condition that is not zero leads to the first branch, and only to that
/// one; otherwise the other branch runs, or nothing where there is none.
pub proof fn law_conditions_choose_their_branch(
    e: IrExpr,
    cx: Cx,
    s: SinkView,
    st: State,
    env: Env,
    fuel: nat,
    condition: Effect,
    yes: Effect,
    no: Effect,
    x: State,
    c: u32,
    y: State,
)
    requires
        e is If,
        crate::lower::expr_code(e, cx, s).err is None,
        condition(st) == Outcome::Next(x.push(Value::I32(c))),
        if c != 0 {
            yes(x) == Outcome::Next(y)
        } else if e->If_else_branch is Some {
            no(x) == Outcome::Next(y)
        } else {
            y == x
        },
    ensures
        crate::execution::behaves(
            s,
            crate::lower::expr_code(e, cx, s).sink,
            cx,
            if_pieces(e, condition, yes, no),
            st,
            env,
            fuel,
            Outcome::Next(y),
        ),
{
    let ty = e->If_ty;
    let bt = crate::lower::control::block_of(crate::types::strict_val(ty)->Ok_0);
    let first = Piece { e: *e->If_condition, into: None, effect: condition };
    let second = Piece { e: *e->If_then_branch, into: Some(ty), effect: yes };
    let x1 = x.push(Value::I32(c));
    assert(x1.pop() == Some((Value::I32(c), x)));
    let yes_tree = Tree::piece(second, Tree::Done);
    assert(crate::execution::pieces(yes_tree) =~= seq![second]);
    let choice = match e->If_else_branch {
        Some(other) => {
            let third = Piece { e: *other, into: Some(ty), effect: no };
            let no_tree = Tree::piece(third, Tree::Done);
            assert(crate::execution::pieces(no_tree) =~= seq![third]);
            let choice = Tree::either(bt, yes_tree, no_tree, Tree::Done);
            assert(crate::execution::pieces(choice) =~= seq![second, third]);
            crate::execution::lemma_either(bt, yes_tree, no_tree, Tree::Done, x1, env, fuel);
            assert(seq![first] + seq![second, third] =~= if_pieces(e, condition, yes, no));
            choice
        },
        None => {
            let choice = Tree::when(bt, yes_tree, Tree::Done);
            assert(crate::execution::pieces(choice) =~= seq![second]);
            crate::execution::lemma_when(bt, yes_tree, Tree::Done, x1, env, fuel);
            assert(seq![first] + seq![second] =~= if_pieces(e, condition, yes, no));
            choice
        },
    };
    let t = Tree::piece(first, choice);
    crate::execution::lemma_behaves(t, s, cx, if_pieces(e, condition, yes, no), st, env, fuel);
    assert(crate::execution::written(t, s, cx) == crate::lower::expr_code(e, cx, s).sink);
    assert(crate::execution::exec(t, st, env, fuel) == crate::execution::exec(
        choice,
        x1,
        env,
        fuel,
    ));
}

// ── payload names ────────────────────────────────────────────────────

/// The local of payload name `k` of an arm.
pub open spec fn binding_local(arm: IrMatchArm, k: int, cx: Cx) -> u32 {
    cx.local_of(arm.bindings@[k].1)->Ok_0
}

/// The payload names of an arm have locals of their own, none of which holds
/// the matched value.
pub open spec fn own_locals(arm: IrMatchArm, subject: u32, count: nat, cx: Cx) -> bool {
    &&& forall|k: int|
        0 <= k < arm.bindings@.len() ==> {
            &&& #[trigger] binding_local(arm, k, cx) < count
            &&& binding_local(arm, k, cx) != subject
        }
    &&& forall|k: int, l: int|
        0 <= k < l < arm.bindings@.len() ==> #[trigger] binding_local(arm, k, cx)
            != #[trigger] binding_local(arm, l, cx)
}

spec fn bindings_tree(
    arm: IrMatchArm,
    i: int,
    fields: Seq<FieldLayout>,
    subject: u32,
    cx: Cx,
    rest: Tree,
) -> Tree
    decreases arm.bindings@.len() - i,
{
    if i < 0 || i >= arm.bindings@.len() {
        rest
    } else {
        Tree::op3(
            Instr::LocalGet(subject),
            crate::lower::aggregate::primitive_load(
                arm.bindings@[i].2->Primitive_0,
                fields[i],
            ),
            Instr::LocalSet(binding_local(arm, i, cx)),
            bindings_tree(arm, i + 1, fields, subject, cx, rest),
        )
    }
}

proof fn lemma_bindings_written(
    arm: IrMatchArm,
    i: int,
    fields: Seq<FieldLayout>,
    subject: u32,
    cx: Cx,
    rest: Tree,
    s: SinkView,
)
    requires
        0 <= i <= arm.bindings@.len(),
        crate::lower::control::bindings_code(arm, i, fields, subject, cx, s).err is None,
    ensures
        crate::execution::written(bindings_tree(arm, i, fields, subject, cx, rest), s, cx)
            == crate::execution::written(
            rest,
            crate::lower::control::bindings_code(arm, i, fields, subject, cx, s).sink,
            cx,
        ),
        forall|k: int|
            i <= k < arm.bindings@.len() ==> k < fields.len() && (
            #[trigger] arm.bindings@[k]).2 is Primitive,
    decreases arm.bindings@.len() - i,
{
    if i < arm.bindings@.len() {
        let load = crate::lower::aggregate::primitive_load(
            arm.bindings@[i].2->Primitive_0,
            fields[i],
        );
        let s1 = s.emit(Instr::LocalGet(subject)).emit(load).emit(
            Instr::LocalSet(binding_local(arm, i, cx)),
        );
        lemma_bindings_written(arm, i + 1, fields, subject, cx, rest, s1);
    }
}

proof fn lemma_bindings_pieces(
    arm: IrMatchArm,
    i: int,
    fields: Seq<FieldLayout>,
    subject: u32,
    cx: Cx,
    rest: Tree,
)
    ensures
        crate::execution::pieces(bindings_tree(arm, i, fields, subject, cx, rest))
            == crate::execution::pieces(rest),
    decreases arm.bindings@.len() - i,
{
    if 0 <= i < arm.bindings@.len() {
        lemma_bindings_pieces(arm, i + 1, fields, subject, cx, rest);
    }
}

/// The state behind the first `i` payload names.
#[verifier::rlimit(30)]
proof fn lemma_bindings(
    arm: IrMatchArm,
    i: int,
    fields: Seq<FieldLayout>,
    subject: u32,
    cx: Cx,
    rest: Tree,
    st: State,
    env: Env,
    fuel: nat,
    r: u32,
) -> (end: State)
    requires
        0 <= i <= arm.bindings@.len() <= fields.len(),
        own_locals(arm, subject, st.locals.len(), cx),
        subject < st.locals.len(),
        st.locals[subject as int] == Value::I32(r),
        forall|k: int|
            0 <= k < arm.bindings@.len() ==> {
                &&& crate::lower::storage::stored_width(
                    (#[trigger] arm.bindings@[k]).2->Primitive_0,
                ) == Some(fields[k].size as nat)
                &&& r + fields[k].offset + fields[k].size <= st.mem.len()
            },
    ensures
        crate::execution::exec(
            bindings_tree(arm, 0, fields, subject, cx, rest),
            st,
            env,
            fuel,
        ) == crate::execution::exec(
            bindings_tree(arm, i, fields, subject, cx, rest),
            end,
            env,
            fuel,
        ),
        end == (State { locals: end.locals, ..st }),
        end.locals.len() == st.locals.len(),
        forall|x: int|
            0 <= x < st.locals.len() && (forall|k: int|
                0 <= k < i ==> x != #[trigger] binding_local(arm, k, cx)) ==> #[trigger] end.locals[x]
                == st.locals[x],
        forall|k: int|
            0 <= k < i ==> end.locals[#[trigger] binding_local(arm, k, cx) as int]
                == crate::execution::value_of(
                crate::lower::values::value_type(arm.bindings@[k].2->Primitive_0),
                crate::execution::read(st.mem, r + fields[k].offset, fields[k].size as nat),
            ),
    decreases i,
{
    if i == 0 {
        st
    } else {
        let x = lemma_bindings(arm, i - 1, fields, subject, cx, rest, st, env, fuel, r);
        let p = arm.bindings@[i - 1].2->Primitive_0;
        let place = fields[i - 1];
        let local = binding_local(arm, i - 1, cx);
        let load = crate::lower::aggregate::primitive_load(p, place);
        let v = crate::execution::value_of(
            crate::lower::values::value_type(p),
            crate::execution::read(st.mem, r + place.offset, place.size as nat),
        );
        assert(arm.bindings@[i - 1].2->Primitive_0 == p);
        assert(forall|k: int|
            0 <= k < i - 1 ==> subject != #[trigger] binding_local(arm, k, cx));
        assert(x.locals[subject as int] == Value::I32(r));
        assert(load is Load);
        assert(crate::execution::step(load, x.push(Value::I32(r)), env) == Some(x.push(v)));
        let end = x.with_local(local, v);
        assert(crate::execution::step(Instr::LocalSet(local), x.push(v), env) == Some(end));
        assert forall|k: int| 0 <= k < i implies end.locals[#[trigger] binding_local(
            arm,
            k,
            cx,
        ) as int] == crate::execution::value_of(
            crate::lower::values::value_type(arm.bindings@[k].2->Primitive_0),
            crate::execution::read(st.mem, r + fields[k].offset, fields[k].size as nat),
        ) by {
            if k < i - 1 {
                assert(binding_local(arm, k, cx) != binding_local(arm, i - 1, cx));
            }
        }
        assert forall|y: int|
            0 <= y < st.locals.len() && (forall|k: int|
                0 <= k < i ==> y != #[trigger] binding_local(arm, k, cx)) implies
            #[trigger] end.locals[y] == st.locals[y] by {
            assert(y != binding_local(arm, i - 1, cx));
            assert(forall|k: int| 0 <= k < i - 1 ==> y != #[trigger] binding_local(arm, k, cx));
        }
        end
    }
}

// ── matches ──────────────────────────────────────────────────────────

/// The pieces of the arms of a match.
pub open spec fn arm_pieces(arms: Seq<IrMatchArm>, ty: ResolvedType, bodies: Seq<Effect>) -> Seq<
    Piece,
> {
    Seq::new(
        arms.len(),
        |i: int| Piece { e: arms[i].body, into: Some(ty), effect: bodies[i] },
    )
}

/// The number of the wildcard that counts: the last one.
pub open spec fn is_fallback(arms: Seq<IrMatchArm>, w: int) -> bool {
    &&& 0 <= w < arms.len()
    &&& arms[w].is_wildcard
    &&& forall|i: int| w < i < arms.len() ==> !(#[trigger] arms[i]).is_wildcard
}

/// No arm is a wildcard.
pub open spec fn no_fallback(arms: Seq<IrMatchArm>) -> bool {
    forall|i: int| 0 <= i < arms.len() ==> !(#[trigger] arms[i]).is_wildcard
}

/// The pieces of a match: the value, the arms, and once more the wildcard.
pub open spec fn match_pieces(
    e: IrExpr,
    subject: Effect,
    bodies: Seq<Effect>,
    fallback: Effect,
    w: int,
) -> Seq<Piece> {
    match e {
        IrExpr::Match { scrutinee, arms, ty } => seq![
            Piece { e: *scrutinee, into: None, effect: subject },
        ] + arm_pieces(arms@, ty, bodies) + (if is_fallback(arms@, w) {
            seq![Piece { e: arms@[w].body, into: Some(ty), effect: fallback }]
        } else {
            Seq::empty()
        }),
        _ => Seq::empty(),
    }
}

spec fn arm_tree(
    arms: Seq<IrMatchArm>,
    i: int,
    ty: ResolvedType,
    plan: EnumPlan,
    subject: u32,
    cx: Cx,
    bodies: Seq<Effect>,
) -> Tree {
    let body = Tree::piece(
        Piece { e: arms[i].body, into: Some(ty), effect: bodies[i] },
        Tree::op(Instr::Br((arms.len() - i) as u32), Tree::Done),
    );
    if arms[i].is_wildcard {
        body
    } else {
        bindings_tree(
            arms[i],
            0,
            plan.variants[arms[i].variant_idx.0 as int].fields,
            subject,
            cx,
            body,
        )
    }
}

/// The dispatch and the first `k` arms, in as many blocks.
spec fn level(
    arms: Seq<IrMatchArm>,
    k: nat,
    ty: ResolvedType,
    plan: EnumPlan,
    subject: u32,
    cx: Cx,
    bodies: Seq<Effect>,
) -> Tree
    decreases k,
{
    if k == 0 {
        Tree::op3(
            Instr::LocalGet(subject),
            Instr::Load(
                LoadOp::I32,
                crate::lower::aggregate::mem_arg_at(plan.tag_offset, ENUM_TAG_ALIGN),
            ),
            Instr::BrTable {
                targets: List::of_seq(
                    crate::lower::control::tag_targets(arms, plan.variants.len(), arms.len()),
                ),
                default: arms.len() as u32,
            },
            Tree::Done,
        )
    } else {
        Tree::block(
            BlockType::Empty,
            level(arms, (k - 1) as nat, ty, plan, subject, cx, bodies),
            arm_tree(arms, k - 1, ty, plan, subject, cx, bodies),
        )
    }
}

proof fn lemma_level_pieces(
    arms: Seq<IrMatchArm>,
    k: nat,
    ty: ResolvedType,
    plan: EnumPlan,
    subject: u32,
    cx: Cx,
    bodies: Seq<Effect>,
)
    requires
        k <= arms.len(),
    ensures
        crate::execution::pieces(level(arms, k, ty, plan, subject, cx, bodies)) == arm_pieces(
            arms,
            ty,
            bodies,
        ).take(k as int),
    decreases k,
{
    let all = arm_pieces(arms, ty, bodies);
    if k == 0 {
        assert(all.take(0) =~= Seq::empty());
    } else {
        lemma_level_pieces(arms, (k - 1) as nat, ty, plan, subject, cx, bodies);
        let i = k - 1;
        let body = Tree::piece(
            all[i],
            Tree::op(Instr::Br((arms.len() - i) as u32), Tree::Done),
        );
        lemma_bindings_pieces(
            arms[i],
            0,
            plan.variants[arms[i].variant_idx.0 as int].fields,
            subject,
            cx,
            body,
        );
        assert(crate::execution::pieces(body) =~= seq![all[i]]);
        assert(all.take(i) + seq![all[i]] =~= all.take(k as int));
    }
}

/// The code of the first `k` arms and of those behind them.
proof fn lemma_level_written(
    arms: Seq<IrMatchArm>,
    k: nat,
    ty: ResolvedType,
    plan: EnumPlan,
    subject: u32,
    cx: Cx,
    bodies: Seq<Effect>,
    s: SinkView,
)
    requires
        k <= arms.len() <= u32::MAX,
        crate::lower::control::arms_code(
            arms,
            0,
            ty,
            plan,
            subject,
            cx,
            crate::lower::control::dispatch_code(
                arms,
                plan,
                subject,
                crate::lower::control::open_blocks(s, arms.len()),
            ),
        ).err is None,
    ensures
        crate::lower::control::arms_code(
            arms,
            0,
            ty,
            plan,
            subject,
            cx,
            crate::lower::control::dispatch_code(
                arms,
                plan,
                subject,
                crate::lower::control::open_blocks(s, arms.len()),
            ),
        ) == crate::lower::control::arms_code(
            arms,
            k as int,
            ty,
            plan,
            subject,
            cx,
            crate::execution::written(
                level(arms, k, ty, plan, subject, cx, bodies),
                crate::lower::control::open_blocks(s, (arms.len() - k) as nat),
                cx,
            ).emit(Instr::End),
        ),
        forall|i: int|
            0 <= i < k && !(#[trigger] arms[i]).is_wildcard ==> {
                let fields = plan.variants[arms[i].variant_idx.0 as int].fields;
                &&& arms[i].variant_idx.0 < plan.variants.len()
                &&& arms[i].bindings@.len() <= fields.len()
                &&& forall|b: int|
                    0 <= b < arms[i].bindings@.len() ==> (
                    #[trigger] arms[i].bindings@[b]).2 is Primitive
            },
    decreases k,
{
    if k > 0 {
        let i = k - 1;
        lemma_level_written(arms, i as nat, ty, plan, subject, cx, bodies, s);
        let inner = level(arms, i as nat, ty, plan, subject, cx, bodies);
        let opened = crate::lower::control::open_blocks(s, (arms.len() - k) as nat);
        assert(crate::lower::control::open_blocks(s, (arms.len() - i) as nat) == opened.emit(
            Instr::Block(BlockType::Empty),
        ));
        let s1 = crate::execution::written(
            inner,
            opened.emit(Instr::Block(BlockType::Empty)),
            cx,
        ).emit(Instr::End);
        let o1 = crate::lower::control::arm_bindings_code(arms[i], plan, subject, cx, s1);
        let body = Tree::piece(
            Piece { e: arms[i].body, into: Some(ty), effect: bodies[i] },
            Tree::op(Instr::Br((arms.len() - i) as u32), Tree::Done),
        );
        if !arms[i].is_wildcard {
            lemma_bindings_written(
                arms[i],
                0,
                plan.variants[arms[i].variant_idx.0 as int].fields,
                subject,
                cx,
                body,
                s1,
            );
            let fields = plan.variants[arms[i].variant_idx.0 as int].fields;
            if arms[i].bindings@.len() > 0 {
                let last = arms[i].bindings@.len() - 1;
                assert(arms[i].bindings@[last].2 is Primitive);
            }
            assert(arms[i].bindings@.len() <= fields.len());
        }
        assert(crate::execution::written(
            arm_tree(arms, i, ty, plan, subject, cx, bodies),
            s1,
            cx,
        ) == crate::lower::optional::coerced_code(arms[i].body, ty, cx, o1.sink).sink.emit(
            Instr::Br((arms.len() - i) as u32),
        ));
    }
}

/// The dispatch leaves all blocks up to that of target `j`.
proof fn lemma_dispatch(
    arms: Seq<IrMatchArm>,
    k: nat,
    ty: ResolvedType,
    plan: EnumPlan,
    subject: u32,
    cx: Cx,
    bodies: Seq<Effect>,
    st: State,
    env: Env,
    fuel: nat,
    r: u32,
    tag: int,
    j: nat,
)
    requires
        k <= j,
        subject < st.locals.len(),
        st.locals[subject as int] == Value::I32(r),
        r + plan.tag_offset + 4 <= st.mem.len(),
        crate::execution::read(st.mem, r + plan.tag_offset, 4) == tag,
        0 <= tag < plan.variants.len(),
        tag <= u32::MAX,
        crate::lower::control::tag_targets(arms, plan.variants.len(), arms.len()).len()
            == plan.variants.len(),
        crate::lower::control::tag_targets(arms, plan.variants.len(), arms.len())[tag] == j,
    ensures
        crate::execution::exec(level(arms, k, ty, plan, subject, cx, bodies), st, env, fuel)
            == Outcome::Branch((j - k) as nat, st),
    decreases k,
{
    if k == 0 {
        let targets = crate::lower::control::tag_targets(arms, plan.variants.len(), arms.len());
        crate::ir::lemma_list_round_trip(targets);
        let load = Instr::Load(
            LoadOp::I32,
            crate::lower::aggregate::mem_arg_at(plan.tag_offset, ENUM_TAG_ALIGN),
        );
        assert(crate::execution::step(load, st.push(Value::I32(r)), env) == Some(
            st.push(Value::I32(tag as u32)),
        ));
        crate::execution::lemma_br_table(
            List::of_seq(targets),
            arms.len() as u32,
            Tree::Done,
            st.push(Value::I32(tag as u32)),
            env,
            fuel,
        );
    } else {
        let i = (k - 1) as nat;
        lemma_dispatch(
            arms,
            i,
            ty,
            plan,
            subject,
            cx,
            bodies,
            st,
            env,
            fuel,
            r,
            tag,
            j,
        );
        crate::execution::lemma_block(
            BlockType::Empty,
            level(arms, i, ty, plan, subject, cx, bodies),
            arm_tree(arms, i as int, ty, plan, subject, cx, bodies),
            st,
            env,
            fuel,
        );
    }
}

/// Behind arm `j` all other arms are passed over.
proof fn lemma_passed(
    arms: Seq<IrMatchArm>,
    k: nat,
    ty: ResolvedType,
    plan: EnumPlan,
    subject: u32,
    cx: Cx,
    bodies: Seq<Effect>,
    st: State,
    env: Env,
    fuel: nat,
    j: nat,
    y: State,
)
    requires
        j < k <= arms.len() <= u32::MAX,
        crate::execution::exec(level(arms, j, ty, plan, subject, cx, bodies), st, env, fuel)
            == Outcome::Branch(0, st),
        crate::execution::exec(
            arm_tree(arms, j as int, ty, plan, subject, cx, bodies),
            st,
            env,
            fuel,
        ) == Outcome::Branch((arms.len() - j) as nat, y),
    ensures
        crate::execution::exec(level(arms, k, ty, plan, subject, cx, bodies), st, env, fuel)
            == Outcome::Branch((arms.len() - k + 1) as nat, y),
    decreases k,
{
    let i = (k - 1) as nat;
    if i > j {
        lemma_passed(arms, i, ty, plan, subject, cx, bodies, st, env, fuel, j, y);
    }
    crate::execution::lemma_block(
        BlockType::Empty,
        level(arms, i, ty, plan, subject, cx, bodies),
        arm_tree(arms, i as int, ty, plan, subject, cx, bodies),
        st,
        env,
        fuel,
    );
}

/// The wildcard that counts is the one that is found.
proof fn lemma_fallback(arms: Seq<IrMatchArm>, k: nat, w: int)
    requires
        k <= arms.len(),
        0 <= w < k,
        arms[w].is_wildcard,
        forall|i: int| w < i < k ==> !(#[trigger] arms[i]).is_wildcard,
    ensures
        crate::lower::control::last_wildcard(arms, k) == Some(w),
    decreases k,
{
    if w < k - 1 {
        assert(!arms[k - 1].is_wildcard);
        lemma_fallback(arms, (k - 1) as nat, w);
    }
}

proof fn lemma_no_fallback(arms: Seq<IrMatchArm>, k: nat)
    requires
        k <= arms.len(),
        no_fallback(arms),
    ensures
        crate::lower::control::last_wildcard(arms, k) is None,
    decreases k,
{
    if k > 0 {
        assert(!arms[k - 1].is_wildcard);
        lemma_no_fallback(arms, (k - 1) as nat);
    }
}

/// What is behind the arms.
spec fn fallback_tree(arms: Seq<IrMatchArm>, ty: ResolvedType, fallback: Effect, w: int) -> Tree {
    if is_fallback(arms, w) {
        Tree::piece(
            Piece { e: arms[w].body, into: Some(ty), effect: fallback },
            Tree::Done,
        )
    } else {
        Tree::op(Instr::Unreachable, Tree::Done)
    }
}

/// The local that holds the matched value.
pub open spec fn subject_local(s: SinkView) -> u32 {
    (s.scratch_local(ValType::I32)->Ok_0).0
}

/// The plan of the matched value's enum.
pub open spec fn matched_plan(e: IrExpr, cx: Cx) -> EnumPlan {
    (crate::lower::aggregate::enum_plan_of(
        (*e->Match_scrutinee).spec_ty()->Enum_0,
        cx.spec_module()->Ok_0,
    )->Ok_0).1
}

spec fn match_tree(
    e: IrExpr,
    cx: Cx,
    s: SinkView,
    subject: Effect,
    bodies: Seq<Effect>,
    fallback: Effect,
    w: int,
) -> Tree {
    let arms = e->Match_arms@;
    let ty = e->Match_ty;
    let local = subject_local(s);
    Tree::take(
        ValType::I32,
        Tree::piece(
            Piece { e: *e->Match_scrutinee, into: None, effect: subject },
            Tree::op(
                Instr::LocalSet(local),
                Tree::block(
                    crate::lower::control::block_of(crate::types::body_val(ty)->Ok_0),
                    Tree::block(
                        BlockType::Empty,
                        level(arms, arms.len(), ty, matched_plan(e, cx), local, cx, bodies),
                        fallback_tree(arms, ty, fallback, w),
                    ),
                    Tree::Done,
                ),
            ),
        ),
    )
}

proof fn lemma_match_tree(
    e: IrExpr,
    cx: Cx,
    s: SinkView,
    subject: Effect,
    bodies: Seq<Effect>,
    fallback: Effect,
    w: int,
)
    requires
        e is Match,
        crate::lower::expr_code(e, cx, s).err is None,
        is_fallback(e->Match_arms@, w) || no_fallback(e->Match_arms@),
        bodies.len() == e->Match_arms@.len(),
    ensures
        ({
            let t = match_tree(e, cx, s, subject, bodies, fallback, w);
            let arms = e->Match_arms@;
            let plan = matched_plan(e, cx);
            &&& crate::execution::written(t, s, cx) == crate::lower::expr_code(e, cx, s).sink
            &&& crate::execution::pieces(t) == match_pieces(e, subject, bodies, fallback, w)
            &&& arms.len() <= u32::MAX
            &&& forall|i: int|
                0 <= i < arms.len() && !(#[trigger] arms[i]).is_wildcard ==> {
                    let fields = plan.variants[arms[i].variant_idx.0 as int].fields;
                    &&& arms[i].variant_idx.0 < plan.variants.len()
                    &&& arms[i].bindings@.len() <= fields.len()
                    &&& forall|b: int|
                        0 <= b < arms[i].bindings@.len() ==> (
                        #[trigger] arms[i].bindings@[b]).2 is Primitive
                }
        }),
{
    if let IrExpr::Match { scrutinee, arms, ty } = e {
        let plan = matched_plan(e, cx);
        let local = subject_local(s);
        let t = match_tree(e, cx, s, subject, bodies, fallback, w);
        let (_, s1) = s.scratch_local(ValType::I32)->Ok_0;
        let s2 = crate::lower::expr_code(*scrutinee, cx, s1).sink.emit(Instr::LocalSet(local));
        let bt = crate::lower::control::block_of(crate::types::body_val(ty)->Ok_0);
        let s3 = s2.emit(Instr::Block(bt)).emit(Instr::Block(BlockType::Empty));
        let n = arms@.len();
        lemma_level_written(arms@, n, ty, plan, local, cx, bodies, s3);
        lemma_level_pieces(arms@, n, ty, plan, local, cx, bodies);
        let all = arm_pieces(arms@, ty, bodies);
        assert(all.take(n as int) =~= all);
        if is_fallback(arms@, w) {
            lemma_fallback(arms@, n, w);
        } else {
            lemma_no_fallback(arms@, n);
        }
        assert(crate::lower::control::open_blocks(s3, 0) == s3);
        let filled = level(arms@, n, ty, plan, local, cx, bodies);
        let o = crate::lower::control::arms_code(
            arms@,
            0,
            ty,
            plan,
            local,
            cx,
            crate::lower::control::dispatch_code(
                arms@,
                plan,
                local,
                crate::lower::control::open_blocks(s3, n),
            ),
        );
        assert(o.sink == crate::execution::written(filled, s3, cx).emit(Instr::End));
        assert(crate::lower::expr_code(e, cx, s) == crate::lower::control::match_arms_code(
            e,
            plan,
            local,
            cx,
            s2,
        ));
        assert(crate::execution::pieces(t) =~= match_pieces(e, subject, bodies, fallback, w));
    }
}

/// A value that a field holds, as it is loaded.
pub proof fn lemma_loaded(mem: Seq<u8>, r: int, place: FieldLayout, p: PrimitiveType, v: Value)
    requires
        crate::lower::values::field_is(mem, r, place, v),
        v.ty() == crate::lower::values::value_type(p),
        crate::lower::storage::stored_width(p) == Some(place.size as nat),
        v.bits() < crate::lower::storage::byte_limit(place.size as nat),
    ensures
        crate::execution::value_of(
            crate::lower::values::value_type(p),
            crate::execution::read(mem, r + place.offset, place.size as nat),
        ) == v,
{
    crate::execution::lemma_limits();
    let n = crate::lower::storage::byte_limit(place.size as nat);
    assert(v.bits() % n == v.bits()) by (nonlinear_arith)
        requires
            v.bits() < n,
    ;
}

/// The value at `r` is variant number `tag` of the matched value's enum.
pub open spec fn is_variant(mem: Seq<u8>, r: u32, plan: EnumPlan, tag: int) -> bool {
    &&& 0 <= tag < plan.variants.len()
    &&& r + plan.size <= mem.len()
    &&& crate::execution::read(mem, r + plan.tag_offset, 4) == tag
}

/// A match on variant `tag` runs the last arm for that variant and no other.
/// When the arm's body begins, payload name number `k` holds the value of field
/// number `k` of the variant, for every `k`, and all other locals and the
/// memory are as they were.
#[verifier::rlimit(60)]
pub proof fn law_matches_bind_the_fields_of_the_variant(
    e: IrExpr,
    cx: Cx,
    s: SinkView,
    st: State,
    env: Env,
    fuel: nat,
    subject: Effect,
    bodies: Seq<Effect>,
    fallback: Effect,
    w: int,
    x: State,
    r: u32,
    tag: int,
    j: int,
) -> (begin: State)
    requires
        e is Match,
        crate::lower::expr_code(e, cx, s).err is None,
        is_fallback(e->Match_arms@, w) || no_fallback(e->Match_arms@),
        bodies.len() == e->Match_arms@.len(),
        subject(st) == Outcome::Next(x.push(Value::I32(r))),
        subject_local(s) < x.locals.len(),
        is_variant(x.mem, r, matched_plan(e, cx), tag),
        0 <= j < e->Match_arms@.len(),
        crate::lower::control::takes(e->Match_arms@[j], tag),
        forall|i: int|
            j < i < e->Match_arms@.len() ==> !crate::lower::control::takes(
                #[trigger] e->Match_arms@[i],
                tag,
            ),
        own_locals(e->Match_arms@[j], subject_local(s), x.locals.len(), cx),
        ({
            let arm = e->Match_arms@[j];
            let d = (crate::lower::aggregate::enum_plan_of(
                (*e->Match_scrutinee).spec_ty()->Enum_0,
                cx.spec_module()->Ok_0,
            )->Ok_0).0;
            forall|k: int|
                0 <= k < arm.bindings@.len() && k < d.variants@[tag].fields@.len() ==> (
                #[trigger] arm.bindings@[k]).2 == d.variants@[tag].fields@[k].ty
        }),
    ensures
        ({
            let arm = e->Match_arms@[j];
            let fields = matched_plan(e, cx).variants[tag].fields;
            let v = crate::types::body_val(e->Match_ty)->Ok_0;
            &&& arm.bindings@.len() <= fields.len()
            &&& begin.mem == x.mem && begin.heap == x.heap && begin.stack == x.stack
            &&& begin.locals.len() == x.locals.len()
            &&& forall|k: int, value: Value|
                0 <= k < arm.bindings@.len() && #[trigger] crate::lower::values::field_is(
                    x.mem,
                    r as int,
                    fields[k],
                    value,
                ) && value.ty() == crate::lower::values::value_type(
                    arm.bindings@[k].2->Primitive_0,
                ) && value.bits() < crate::lower::storage::byte_limit(fields[k].size as nat)
                    ==> begin.locals[binding_local(arm, k, cx) as int] == value
            &&& forall|i: int|
                0 <= i < x.locals.len() && i != subject_local(s) && (forall|k: int|
                    0 <= k < arm.bindings@.len() ==> i != #[trigger] binding_local(arm, k, cx))
                    ==> #[trigger] begin.locals[i] == x.locals[i]
            &&& (bodies[j](begin) matches Outcome::Next(y) && fits(v, x.stack, y.stack))
                ==> crate::execution::behaves(
                s,
                crate::lower::expr_code(e, cx, s).sink,
                cx,
                match_pieces(e, subject, bodies, fallback, w),
                st,
                env,
                fuel,
                Outcome::Next(bodies[j](begin)->Next_0),
            )
        }),
{
    let arms = e->Match_arms@;
    let ty = e->Match_ty;
    let arm = arms[j];
    let plan = matched_plan(e, cx);
    let local = subject_local(s);
    let fields = plan.variants[tag].fields;
    let n = arms.len();
    let d = (crate::lower::aggregate::enum_plan_of(
        (*e->Match_scrutinee).spec_ty()->Enum_0,
        cx.spec_module()->Ok_0,
    )->Ok_0).0;
    lemma_match_tree(e, cx, s, subject, bodies, fallback, w);
    crate::layout::law_enum_layout(d);
    crate::lower::values::lemma_enum_size(d);
    crate::lower::control::law_tags_lead_to_their_arms(arms, plan.variants.len(), n, tag);
    let targets = crate::lower::control::tag_targets(arms, plan.variants.len(), n);
    assert(targets[tag] == j) by {
        let target = targets[tag] as int;
        if target == n {
            assert(!crate::lower::control::takes(arms[j], tag));
        } else if target < j {
            assert(!crate::lower::control::takes(arms[j], tag));
        } else if target > j {
            assert(!crate::lower::control::takes(arms[target], tag));
        }
    }
    let x1 = x.with_local(local, Value::I32(r));
    assert(crate::execution::step(Instr::LocalSet(local), x.push(Value::I32(r)), env) == Some(x1));
    lemma_dispatch(
        arms,
        j as nat,
        ty,
        plan,
        local,
        cx,
        bodies,
        x1,
        env,
        fuel,
        r,
        tag,
        j as nat,
    );
    assert(plan.variants[tag].fields.len() == d.variants@[tag].fields@.len());
    assert forall|k: int| 0 <= k < arm.bindings@.len() implies {
        &&& crate::lower::storage::stored_width((#[trigger] arm.bindings@[k]).2->Primitive_0)
            == Some(fields[k].size as nat)
        &&& r + fields[k].offset + fields[k].size <= x1.mem.len()
    } by {
        crate::lower::storage::lemma_variant_sizes(d, tag, k);
        assert(crate::layout::field_well(plan.size as int, plan.align as int, fields[k]));
    }
    let body = Tree::piece(
        Piece { e: arm.body, into: Some(ty), effect: bodies[j] },
        Tree::op(Instr::Br((n - j) as u32), Tree::Done),
    );
    let begin = lemma_bindings(
        arm,
        arm.bindings@.len() as int,
        fields,
        local,
        cx,
        body,
        x1,
        env,
        fuel,
        r,
    );
    assert forall|k: int, value: Value|
        0 <= k < arm.bindings@.len() && #[trigger] crate::lower::values::field_is(
            x.mem,
            r as int,
            fields[k],
            value,
        ) && value.ty() == crate::lower::values::value_type(arm.bindings@[k].2->Primitive_0)
            && value.bits() < crate::lower::storage::byte_limit(fields[k].size as nat) implies
        begin.locals[binding_local(arm, k, cx) as int] == value by {
        lemma_loaded(x.mem, r as int, fields[k], arm.bindings@[k].2->Primitive_0, value);
    }
    let v = crate::types::body_val(ty)->Ok_0;
    if let Outcome::Next(y) = bodies[j](begin) {
        if fits(v, x.stack, y.stack) {
            lemma_passed(arms, n, ty, plan, local, cx, bodies, x1, env, fuel, j as nat, y);
            let bt = crate::lower::control::block_of(v);
            let filled = level(arms, n, ty, plan, local, cx, bodies);
            let behind = fallback_tree(arms, ty, fallback, w);
            crate::execution::lemma_block(BlockType::Empty, filled, behind, x1, env, fuel);
            let inner = Tree::block(BlockType::Empty, filled, behind);
            crate::execution::lemma_block(bt, inner, Tree::Done, x1, env, fuel);
            assert(crate::execution::left(bt, x1, y) == Some(y));
            let t = match_tree(e, cx, s, subject, bodies, fallback, w);
            crate::execution::lemma_behaves(
                t,
                s,
                cx,
                match_pieces(e, subject, bodies, fallback, w),
                st,
                env,
                fuel,
            );
        }
    }
    begin
}

/// A match on a variant that no arm is for runs the last wildcard, with all
/// locals but the one of the matched value as they were. Where there is none
/// the code traps.
#[verifier::rlimit(40)]
pub proof fn law_other_variants_run_the_wildcard(
    e: IrExpr,
    cx: Cx,
    s: SinkView,
    st: State,
    env: Env,
    fuel: nat,
    subject: Effect,
    bodies: Seq<Effect>,
    fallback: Effect,
    w: int,
    x: State,
    r: u32,
    tag: int,
)
    requires
        e is Match,
        crate::lower::expr_code(e, cx, s).err is None,
        is_fallback(e->Match_arms@, w) || no_fallback(e->Match_arms@),
        bodies.len() == e->Match_arms@.len(),
        subject(st) == Outcome::Next(x.push(Value::I32(r))),
        subject_local(s) < x.locals.len(),
        is_variant(x.mem, r, matched_plan(e, cx), tag),
        forall|i: int|
            0 <= i < e->Match_arms@.len() ==> !crate::lower::control::takes(
                #[trigger] e->Match_arms@[i],
                tag,
            ),
    ensures
        ({
            let v = crate::types::body_val(e->Match_ty)->Ok_0;
            let begin = x.with_local(subject_local(s), Value::I32(r));
            &&& is_fallback(e->Match_arms@, w) ==> ((fallback(begin) matches Outcome::Next(y)
                && fits(v, x.stack, y.stack)) ==> crate::execution::behaves(
                s,
                crate::lower::expr_code(e, cx, s).sink,
                cx,
                match_pieces(e, subject, bodies, fallback, w),
                st,
                env,
                fuel,
                Outcome::Next(fallback(begin)->Next_0),
            ))
            &&& no_fallback(e->Match_arms@) ==> crate::execution::behaves(
                s,
                crate::lower::expr_code(e, cx, s).sink,
                cx,
                match_pieces(e, subject, bodies, fallback, w),
                st,
                env,
                fuel,
                Outcome::Trap,
            )
        }),
{
    let arms = e->Match_arms@;
    let ty = e->Match_ty;
    let plan = matched_plan(e, cx);
    let local = subject_local(s);
    let n = arms.len();
    let d = (crate::lower::aggregate::enum_plan_of(
        (*e->Match_scrutinee).spec_ty()->Enum_0,
        cx.spec_module()->Ok_0,
    )->Ok_0).0;
    lemma_match_tree(e, cx, s, subject, bodies, fallback, w);
    crate::layout::law_enum_layout(d);
    crate::lower::values::lemma_enum_size(d);
    crate::lower::control::law_tags_lead_to_their_arms(arms, plan.variants.len(), n, tag);
    let targets = crate::lower::control::tag_targets(arms, plan.variants.len(), n);
    assert(targets[tag] == n) by {
        let target = targets[tag] as int;
        if target < n {
            assert(!crate::lower::control::takes(arms[target], tag));
        }
    }
    let x1 = x.with_local(local, Value::I32(r));
    assert(crate::execution::step(Instr::LocalSet(local), x.push(Value::I32(r)), env) == Some(x1));
    lemma_dispatch(arms, n, ty, plan, local, cx, bodies, x1, env, fuel, r, tag, n);
    let v = crate::types::body_val(ty)->Ok_0;
    let bt = crate::lower::control::block_of(v);
    let filled = level(arms, n, ty, plan, local, cx, bodies);
    let behind = fallback_tree(arms, ty, fallback, w);
    crate::execution::lemma_block(BlockType::Empty, filled, behind, x1, env, fuel);
    let inner = Tree::block(BlockType::Empty, filled, behind);
    crate::execution::lemma_block(bt, inner, Tree::Done, x1, env, fuel);
    crate::execution::lemma_unreachable(Tree::Done, x1, env, fuel);
    let t = match_tree(e, cx, s, subject, bodies, fallback, w);
    crate::execution::lemma_behaves(
        t,
        s,
        cx,
        match_pieces(e, subject, bodies, fallback, w),
        st,
        env,
        fuel,
    );
}

} // verus!
