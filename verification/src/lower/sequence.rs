//! Laws: what runs in which order, and what calls are given.

use vstd::prelude::*;

use crate::execution::{Env, Outcome, Piece, Stack, State, Tree, Value};
use crate::instr::{Instr, ValType};
use crate::ir::{
    IrBlockStatement, IrExpr, IrFunctionParam, PrimitiveType, ReferenceTarget,
    ResolvedType,
};
use crate::layout::{FieldLayout, LayoutOwner};
use crate::lower::branches::Effect;
use crate::lower::context::{Cx, SinkView};
use crate::types::{CLOSURE_ENV_OFFSET, CLOSURE_FUNCREF_OFFSET};

verus! {

broadcast use {
    crate::execution::group_exec,
    crate::execution::group_code,
    crate::execution::group_pieces,
};

// ── bindings ─────────────────────────────────────────────────────────

/// A reference to a binding leaves the value of the binding's local.
pub proof fn law_references_leave_their_local(
    e: IrExpr,
    cx: Cx,
    s: SinkView,
    st: State,
    env: Env,
    fuel: nat,
    local: u32,
)
    requires
        crate::lower::expr_code(e, cx, s).err is None,
        match e {
            IrExpr::LetRef { binding_id, .. } => cx.local_of(binding_id),
            IrExpr::Reference { target: ReferenceTarget::Param(id), .. } => cx.local_of(id),
            IrExpr::Reference { target: ReferenceTarget::Local(id), .. } => cx.local_of(id),
            _ => Err(crate::lower::error::LowerError::UnresolvedReference),
        } == Ok::<_, crate::lower::error::LowerError>(local),
        local < st.locals.len(),
    ensures
        crate::execution::behaves(
            s,
            crate::lower::expr_code(e, cx, s).sink,
            cx,
            Seq::empty(),
            st,
            env,
            fuel,
            Outcome::Next(st.push(st.locals[local as int])),
        ),
{
    let t = Tree::op(Instr::LocalGet(local), Tree::Done);
    crate::execution::lemma_behaves(t, s, cx, Seq::empty(), st, env, fuel);
    assert(crate::execution::written(t, s, cx) == crate::lower::expr_code(e, cx, s).sink);
}

// ── statements ───────────────────────────────────────────────────────

/// The type and the place of a field of `self`.
pub open spec fn self_field(target: IrExpr, cx: Cx) -> (ResolvedType, FieldLayout) {
    let (d, plan) = crate::lower::aggregate::struct_plan_of(
        cx.self_struct_id->0,
        cx.spec_module()->Ok_0,
    )->Ok_0;
    let k = target->SelfFieldRef_field_idx.0 as int;
    (d.fields@[k].ty, plan.fields[k])
}

/// The type and the place of a field of an object.
pub open spec fn object_field(target: IrExpr, cx: Cx) -> (ResolvedType, FieldLayout) {
    let (fields, plan) = crate::lower::aggregate::aggregate_plan(
        (*target->FieldAccess_object).spec_ty(),
        cx.spec_module()->Ok_0,
    )->Ok_0;
    let k = target->FieldAccess_field_idx.0 as int;
    (fields[k].ty, plan.fields[k])
}

/// Whether the field of a target is one of its type.
pub open spec fn has_field(target: IrExpr, cx: Cx) -> bool {
    match target {
        IrExpr::SelfFieldRef { field_idx, .. } => field_idx.0
            < (crate::lower::aggregate::struct_plan_of(
            cx.self_struct_id->0,
            cx.spec_module()->Ok_0,
        )->Ok_0).0.fields@.len(),
        IrExpr::FieldAccess { object, field_idx, .. } => field_idx.0
            < (crate::lower::aggregate::aggregate_plan(
            (*object).spec_ty(),
            cx.spec_module()->Ok_0,
        )->Ok_0).0.len(),
        _ => false,
    }
}

/// From `z`, with the address `r` and the value `v` on top of `stack`, to `y`:
/// the field at a place of the value at `r` is `v`, and all else is as it was.
pub open spec fn assigns(
    z: State,
    y: State,
    field: (ResolvedType, FieldLayout),
    r: u32,
    v: Value,
    stack: Stack,
) -> bool {
    &&& z.stack == Stack::Push(v, Box::new(Stack::Push(Value::I32(r), Box::new(stack))))
    &&& v.ty() == crate::lower::values::value_type(field.0->Primitive_0)
    &&& r + field.1.offset + field.1.size <= z.mem.len()
    &&& y == State {
        mem: crate::execution::write(
            z.mem,
            r + field.1.offset,
            v.bits(),
            field.1.size as nat,
        ),
        stack,
        ..z
    }
}

/// What a statement does, given what its expressions do: a `let` puts the value
/// into the local of its binding, an expression leaves nothing, and an
/// assignment puts the value into the field.
pub open spec fn does(
    statement: IrBlockStatement,
    cx: Cx,
    first: Effect,
    second: Effect,
    x: State,
    y: State,
    r: u32,
    v: Value,
) -> bool {
    match statement {
        IrBlockStatement::Let { binding_id, .. } => {
            &&& first(x) matches Outcome::Next(z)
            &&& z.stack == Stack::Push(v, Box::new(y.stack))
            &&& cx.local_of(binding_id)->Ok_0 < z.locals.len()
            &&& y == State {
                locals: z.locals.update(cx.local_of(binding_id)->Ok_0 as int, v),
                stack: y.stack,
                ..z
            }
        },
        IrBlockStatement::Expr(e) => {
            &&& e.spec_ty() != ResolvedType::Primitive(PrimitiveType::Never)
            &&& first(x) == Outcome::Next(y.push(v))
        },
        IrBlockStatement::Assign { target, .. } => {
            &&& has_field(target, cx)
            &&& match target {
                IrExpr::SelfFieldRef { .. } => {
                    &&& x.locals.len() > 0
                    &&& x.locals[0] == Value::I32(r)
                    &&& first(x.push(Value::I32(r))) matches Outcome::Next(z)
                    &&& assigns(z, y, self_field(target, cx), r, v, x.stack)
                },
                IrExpr::FieldAccess { .. } => {
                    &&& first(x) matches Outcome::Next(w)
                    &&& w.stack == Stack::Push(Value::I32(r), Box::new(x.stack))
                    &&& second(w) matches Outcome::Next(z)
                    &&& assigns(z, y, object_field(target, cx), r, v, x.stack)
                },
                _ => false,
            }
        },
    }
}

/// The pieces of a statement.
pub open spec fn statement_pieces(
    statement: IrBlockStatement,
    first: Effect,
    second: Effect,
) -> Seq<Piece> {
    match statement {
        IrBlockStatement::Let { ty, value, .. } => seq![
            Piece { e: value, into: ty, effect: first },
        ],
        IrBlockStatement::Expr(e) => seq![Piece { e, into: None, effect: first }],
        IrBlockStatement::Assign { target, value } => match target {
            IrExpr::FieldAccess { object, .. } => seq![
                Piece { e: *object, into: None, effect: first },
                Piece { e: value, into: None, effect: second },
            ],
            _ => seq![Piece { e: value, into: None, effect: first }],
        },
    }
}

spec fn statement_tree(
    statement: IrBlockStatement,
    cx: Cx,
    first: Effect,
    second: Effect,
    rest: Tree,
) -> Tree {
    let pieces = statement_pieces(statement, first, second);
    match statement {
        IrBlockStatement::Let { binding_id, .. } => Tree::piece(
            pieces[0],
            Tree::op(Instr::LocalSet(cx.local_of(binding_id)->Ok_0), rest),
        ),
        IrBlockStatement::Expr(e) => Tree::piece(
            pieces[0],
            if e.spec_ty() == ResolvedType::Primitive(PrimitiveType::Never) {
                rest
            } else {
                Tree::op(Instr::Drop, rest)
            },
        ),
        IrBlockStatement::Assign { target, .. } => match target {
            IrExpr::FieldAccess { .. } => {
                let field = object_field(target, cx);
                Tree::piece(
                    pieces[0],
                    Tree::piece(
                        pieces[1],
                        Tree::op(
                            crate::lower::aggregate::primitive_store(
                                field.0->Primitive_0,
                                field.1,
                            ),
                            rest,
                        ),
                    ),
                )
            },
            _ => {
                let field = self_field(target, cx);
                Tree::op(
                    Instr::LocalGet(0),
                    Tree::piece(
                        pieces[0],
                        Tree::op(
                            crate::lower::aggregate::primitive_store(
                                field.0->Primitive_0,
                                field.1,
                            ),
                            rest,
                        ),
                    ),
                )
            },
        },
    }
}

/// A target of an assignment that has code is a stored field.
proof fn lemma_target(statement: IrBlockStatement, cx: Cx, s: SinkView)
    requires
        statement is Assign,
        crate::lower::block::statement_code(statement, cx, s).err is None,
        has_field(statement->Assign_target, cx),
    ensures
        ({
            let target = statement->Assign_target;
            let field = if target is FieldAccess {
                object_field(target, cx)
            } else {
                self_field(target, cx)
            };
            &&& field.0 is Primitive
            &&& crate::lower::storage::stored_width(field.0->Primitive_0) == Some(
                field.1.size as nat,
            )
            &&& target is FieldAccess ==> crate::lower::aggregate::accessed_place(
                (*target->FieldAccess_object).spec_ty(),
                target->FieldAccess_field_idx,
                target->FieldAccess_field@,
                crate::lower::error::FieldOwner::AssignTarget,
                cx,
            ) == Ok::<_, crate::lower::error::LowerError>((field.1, field.0->Primitive_0))
            &&& target is SelfFieldRef ==> crate::lower::aggregate::self_place(
                target->SelfFieldRef_field_idx,
                target->SelfFieldRef_field@,
                cx,
            ) == Ok::<_, crate::lower::error::LowerError>((field.1, field.0->Primitive_0))
        }),
{
    let target = statement->Assign_target;
    assert(crate::lower::block::statement_code(statement, cx, s)
        == crate::lower::block::assign_code(statement, cx, s));
    lemma_stored_field(target, cx);
}

/// A field that is found has the size of what is stored in it.
pub proof fn lemma_stored_field(target: IrExpr, cx: Cx)
    requires
        has_field(target, cx),
        match target {
            IrExpr::SelfFieldRef { .. } => cx.self_struct_id is Some && cx.spec_module() is Ok
                && crate::lower::aggregate::struct_plan_of(
                cx.self_struct_id->0,
                cx.spec_module()->Ok_0,
            ) is Ok,
            IrExpr::FieldAccess { object, .. } => cx.spec_module() is Ok
                && crate::lower::aggregate::aggregate_plan(
                (*object).spec_ty(),
                cx.spec_module()->Ok_0,
            ) is Ok,
            _ => false,
        },
    ensures
        ({
            let field = if target is FieldAccess {
                object_field(target, cx)
            } else {
                self_field(target, cx)
            };
            &&& field.0 is Primitive
            &&& crate::lower::storage::stored_width(field.0->Primitive_0) == Some(
                field.1.size as nat,
            )
        }),
        match target {
            IrExpr::SelfFieldRef { field_idx, .. } => field_idx.0
                < (crate::lower::aggregate::struct_plan_of(
                cx.self_struct_id->0,
                cx.spec_module()->Ok_0,
            )->Ok_0).1.fields.len(),
            IrExpr::FieldAccess { object, field_idx, .. } => field_idx.0
                < (crate::lower::aggregate::aggregate_plan(
                (*object).spec_ty(),
                cx.spec_module()->Ok_0,
            )->Ok_0).1.fields.len(),
            _ => true,
        },
{
    let m = cx.spec_module()->Ok_0;
    match target {
        IrExpr::SelfFieldRef { field_idx, .. } => {
            let (d, plan) = crate::lower::aggregate::struct_plan_of(cx.self_struct_id->0, m)->Ok_0;
            let owner = LayoutOwner::Struct(d.name);
            crate::lower::storage::lemma_sizes(owner, d.fields@, d.fields@.len());
            let k = field_idx.0 as int;
            assert(crate::lower::storage::fits_exactly(d.fields@[k], plan.fields[k]));
        },
        IrExpr::FieldAccess { object, field_idx, .. } => {
            let ty = (*object).spec_ty();
            let (fields, plan) = crate::lower::aggregate::aggregate_plan(ty, m)->Ok_0;
            let owner = match ty {
                ResolvedType::Struct(id) => LayoutOwner::Struct(m.spec_struct(id)->0.name),
                _ => LayoutOwner::Tuple,
            };
            crate::lower::storage::lemma_sizes(owner, fields, fields.len());
            let k = field_idx.0 as int;
            assert(crate::lower::storage::fits_exactly(fields[k], plan.fields[k]));
        },
        _ => {},
    }
}

proof fn lemma_statement_written(
    statement: IrBlockStatement,
    cx: Cx,
    first: Effect,
    second: Effect,
    rest: Tree,
    s: SinkView,
)
    requires
        crate::lower::block::statement_code(statement, cx, s).err is None,
        statement is Assign ==> has_field(statement->Assign_target, cx),
    ensures
        crate::execution::written(statement_tree(statement, cx, first, second, rest), s, cx)
            == crate::execution::written(
            rest,
            crate::lower::block::statement_code(statement, cx, s).sink,
            cx,
        ),
        crate::execution::pieces(statement_tree(statement, cx, first, second, rest))
            =~= statement_pieces(statement, first, second) + crate::execution::pieces(rest),
{
    if statement is Assign {
        lemma_target(statement, cx, s);
        assert(crate::lower::block::statement_code(statement, cx, s)
            == crate::lower::block::assign_code(statement, cx, s));
    }
}

proof fn lemma_statement_run(
    statement: IrBlockStatement,
    cx: Cx,
    first: Effect,
    second: Effect,
    rest: Tree,
    s: SinkView,
    x: State,
    y: State,
    r: u32,
    v: Value,
    env: Env,
    fuel: nat,
)
    requires
        crate::lower::block::statement_code(statement, cx, s).err is None,
        does(statement, cx, first, second, x, y, r, v),
    ensures
        crate::execution::exec(
            statement_tree(statement, cx, first, second, rest),
            x,
            env,
            fuel,
        ) == crate::execution::exec(rest, y, env, fuel),
{
    match statement {
        IrBlockStatement::Let { binding_id, .. } => {
            let z = first(x)->Next_0;
            let local = cx.local_of(binding_id)->Ok_0;
            assert(crate::execution::step(Instr::LocalSet(local), z, env) == Some(y));
        },
        IrBlockStatement::Expr(e) => {
            assert(y.push(v).pop() == Some((v, y)));
        },
        IrBlockStatement::Assign { target, .. } => {
            lemma_target(statement, cx, s);
            let field = if target is FieldAccess {
                object_field(target, cx)
            } else {
                self_field(target, cx)
            };
            let z = if target is FieldAccess {
                second(first(x)->Next_0)->Next_0
            } else {
                first(x.push(Value::I32(r)))->Next_0
            };
            crate::lower::values::lemma_store_field(
                field.0->Primitive_0,
                field.1,
                z,
                env,
                r,
                v,
                x.stack,
            );
            let store = crate::lower::aggregate::primitive_store(
                field.0->Primitive_0,
                field.1,
            );
            assert(store is Store);
        },
    }
}

/// What one statement does, its code does: a `let`, an expression or an
/// assignment.
pub proof fn law_statements_do_what_they_say(
    statement: IrBlockStatement,
    cx: Cx,
    s: SinkView,
    env: Env,
    fuel: nat,
    first: Effect,
    second: Effect,
    x: State,
    y: State,
    r: u32,
    v: Value,
)
    requires
        crate::lower::block::statement_code(statement, cx, s).err is None,
        does(statement, cx, first, second, x, y, r, v),
    ensures
        crate::execution::behaves(
            s,
            crate::lower::block::statement_code(statement, cx, s).sink,
            cx,
            statement_pieces(statement, first, second),
            x,
            env,
            fuel,
            Outcome::Next(y),
        ),
{
    let t = statement_tree(statement, cx, first, second, Tree::Done);
    lemma_statement_written(statement, cx, first, second, Tree::Done, s);
    lemma_statement_run(statement, cx, first, second, Tree::Done, s, x, y, r, v, env, fuel);
    let parts = statement_pieces(statement, first, second);
    assert(crate::execution::pieces(t) =~= parts);
    crate::execution::lemma_behaves(t, s, cx, parts, x, env, fuel);
}

// ── blocks ───────────────────────────────────────────────────────────

/// Statements go from one state to the next.
pub open spec fn done_in_turn(
    statements: Seq<IrBlockStatement>,
    cx: Cx,
    effects: Seq<(Effect, Effect)>,
    states: Seq<State>,
    addresses: Seq<u32>,
    values: Seq<Value>,
) -> bool {
    &&& effects.len() == statements.len()
    &&& states.len() == statements.len() + 1
    &&& forall|i: int|
        0 <= i < statements.len() ==> does(
            #[trigger] statements[i],
            cx,
            effects[i].0,
            effects[i].1,
            states[i],
            states[i + 1],
            addresses[i],
            values[i],
        )
}

/// The pieces of statements, from number `i` on.
pub open spec fn block_pieces(
    statements: Seq<IrBlockStatement>,
    effects: Seq<(Effect, Effect)>,
    i: int,
) -> Seq<Piece>
    decreases statements.len() - i,
{
    if i < 0 || i >= statements.len() {
        Seq::empty()
    } else {
        statement_pieces(statements[i], effects[i].0, effects[i].1) + block_pieces(
            statements,
            effects,
            i + 1,
        )
    }
}

spec fn statements_tree(
    statements: Seq<IrBlockStatement>,
    cx: Cx,
    effects: Seq<(Effect, Effect)>,
    i: int,
    rest: Tree,
) -> Tree
    decreases statements.len() - i,
{
    if i < 0 || i >= statements.len() {
        rest
    } else {
        statement_tree(
            statements[i],
            cx,
            effects[i].0,
            effects[i].1,
            statements_tree(statements, cx, effects, i + 1, rest),
        )
    }
}

proof fn lemma_statements(
    statements: Seq<IrBlockStatement>,
    cx: Cx,
    effects: Seq<(Effect, Effect)>,
    i: int,
    rest: Tree,
    s: SinkView,
    env: Env,
    fuel: nat,
    states: Seq<State>,
    addresses: Seq<u32>,
    values: Seq<Value>,
)
    requires
        0 <= i <= statements.len(),
        crate::lower::block::statements_code(statements, i, cx, s).err is None,
        done_in_turn(statements, cx, effects, states, addresses, values),
    ensures
        crate::execution::written(statements_tree(statements, cx, effects, i, rest), s, cx)
            == crate::execution::written(
            rest,
            crate::lower::block::statements_code(statements, i, cx, s).sink,
            cx,
        ),
        crate::execution::pieces(statements_tree(statements, cx, effects, i, rest))
            == block_pieces(statements, effects, i) + crate::execution::pieces(rest),
        crate::execution::exec(
            statements_tree(statements, cx, effects, i, rest),
            states[i],
            env,
            fuel,
        ) == crate::execution::exec(rest, states[statements.len() as int], env, fuel),
    decreases statements.len() - i,
{
    if i < statements.len() {
        let behind = statements_tree(statements, cx, effects, i + 1, rest);
        let s1 = crate::lower::block::statement_code(statements[i], cx, s).sink;
        lemma_statements(
            statements,
            cx,
            effects,
            i + 1,
            rest,
            s1,
            env,
            fuel,
            states,
            addresses,
            values,
        );
        assert(does(
            statements[i],
            cx,
            effects[i].0,
            effects[i].1,
            states[i],
            states[i + 1],
            addresses[i],
            values[i],
        ));
        lemma_statement_written(statements[i], cx, effects[i].0, effects[i].1, behind, s);
        lemma_statement_run(
            statements[i],
            cx,
            effects[i].0,
            effects[i].1,
            behind,
            s,
            states[i],
            states[i + 1],
            addresses[i],
            values[i],
            env,
            fuel,
        );
        let own = statement_pieces(statements[i], effects[i].0, effects[i].1);
        assert(own + (block_pieces(statements, effects, i + 1) + crate::execution::pieces(rest))
            =~= block_pieces(statements, effects, i) + crate::execution::pieces(rest));
    } else {
        assert(block_pieces(statements, effects, i) + crate::execution::pieces(rest)
            =~= crate::execution::pieces(rest));
    }
}

/// A block runs its statements, all of them and in order, and its result last.
pub proof fn law_blocks_run_in_order(
    e: IrExpr,
    cx: Cx,
    s: SinkView,
    env: Env,
    fuel: nat,
    effects: Seq<(Effect, Effect)>,
    states: Seq<State>,
    addresses: Seq<u32>,
    values: Seq<Value>,
    result: Effect,
)
    requires
        e is Block,
        crate::lower::expr_code(e, cx, s).err is None,
        done_in_turn(e->Block_statements@, cx, effects, states, addresses, values),
    ensures
        crate::execution::behaves(
            s,
            crate::lower::expr_code(e, cx, s).sink,
            cx,
            block_pieces(e->Block_statements@, effects, 0) + seq![
                Piece { e: *e->Block_result, into: None, effect: result },
            ],
            states[0],
            env,
            fuel,
            result(states[e->Block_statements@.len() as int]),
        ),
{
    let statements = e->Block_statements@;
    let last = Piece { e: *e->Block_result, into: None, effect: result };
    assert(crate::lower::expr_code(e, cx, s) == crate::lower::block::block_code(e, cx, s));
    let rest = Tree::piece(last, Tree::Done);
    assert(crate::execution::pieces(rest) =~= seq![last]);
    lemma_statements(
        statements,
        cx,
        effects,
        0,
        rest,
        s,
        env,
        fuel,
        states,
        addresses,
        values,
    );
    let t = statements_tree(statements, cx, effects, 0, rest);
    let parts = block_pieces(statements, effects, 0) + seq![last];
    crate::execution::lemma_behaves(t, s, cx, parts, states[0], env, fuel);
    assert(crate::execution::written(t, s, cx) == crate::lower::expr_code(e, cx, s).sink);
    let x = states[statements.len() as int];
    assert(crate::execution::exec(rest, x, env, fuel) == result(x));
}

// ── arguments ────────────────────────────────────────────────────────

/// The pieces of arguments, in order.
pub open spec fn arg_pieces(
    args: Seq<(Option<String>, IrExpr)>,
    params: Option<Seq<IrFunctionParam>>,
    effects: Seq<Effect>,
) -> Seq<Piece> {
    Seq::new(
        args.len(),
        |i: int|
            Piece {
                e: args[i].1,
                into: crate::lower::call::arg_target(params, args[i].0),
                effect: effects[i],
            },
    )
}

/// Each of some code goes from one state to the next.
pub open spec fn run_in_turn(effects: Seq<Effect>, states: Seq<State>) -> bool {
    &&& states.len() == effects.len() + 1
    &&& forall|i: int|
        0 <= i < effects.len() ==> (#[trigger] effects[i])(states[i]) == Outcome::Next(
            states[i + 1],
        )
}

/// A labelled argument flows into the type of the parameter with its name.
pub proof fn law_arguments_flow_into_their_parameter(
    params: Seq<IrFunctionParam>,
    label: String,
    k: int,
)
    requires
        0 <= k < params.len(),
        params[k].name@ == label@,
        forall|i: int| 0 <= i < k ==> (#[trigger] params[i]).name@ != label@,
    ensures
        crate::lower::call::arg_target(Some(params), Some(label)) == params[k].ty,
{
    lemma_param_type(params, label@, 0, k);
}

proof fn lemma_param_type(params: Seq<IrFunctionParam>, name: Seq<char>, from: int, k: int)
    requires
        0 <= from <= k < params.len(),
        params[k].name@ == name,
        forall|i: int| 0 <= i < k ==> (#[trigger] params[i]).name@ != name,
    ensures
        crate::lower::call::param_type(params, name, from) == params[k].ty,
    decreases k - from,
{
    if from < k {
        assert(params[from].name@ != name);
        lemma_param_type(params, name, from + 1, k);
    }
}

spec fn args_tree(
    args: Seq<(Option<String>, IrExpr)>,
    i: int,
    params: Option<Seq<IrFunctionParam>>,
    effects: Seq<Effect>,
    rest: Tree,
) -> Tree
    decreases args.len() - i,
{
    if i < 0 || i >= args.len() {
        rest
    } else {
        Tree::piece(
            arg_pieces(args, params, effects)[i],
            args_tree(args, i + 1, params, effects, rest),
        )
    }
}

proof fn lemma_args_written(
    args: Seq<(Option<String>, IrExpr)>,
    i: int,
    params: Option<Seq<IrFunctionParam>>,
    effects: Seq<Effect>,
    rest: Tree,
    s: SinkView,
    cx: Cx,
)
    requires
        0 <= i <= args.len(),
        crate::lower::call::args_code(args, i, params, cx, s).err is None,
    ensures
        crate::execution::written(args_tree(args, i, params, effects, rest), s, cx)
            == crate::execution::written(
            rest,
            crate::lower::call::args_code(args, i, params, cx, s).sink,
            cx,
        ),
    decreases args.len() - i,
{
    if i < args.len() {
        let piece = arg_pieces(args, params, effects)[i];
        let s1 = crate::execution::written_piece(piece, s, cx);
        lemma_args_written(args, i + 1, params, effects, rest, s1, cx);
    }
}

proof fn lemma_args_pieces(
    args: Seq<(Option<String>, IrExpr)>,
    i: int,
    params: Option<Seq<IrFunctionParam>>,
    effects: Seq<Effect>,
    rest: Tree,
)
    requires
        0 <= i <= args.len(),
    ensures
        crate::execution::pieces(args_tree(args, i, params, effects, rest)) == arg_pieces(
            args,
            params,
            effects,
        ).skip(i) + crate::execution::pieces(rest),
    decreases args.len() - i,
{
    let all = arg_pieces(args, params, effects);
    if i < args.len() {
        lemma_args_pieces(args, i + 1, params, effects, rest);
        assert(seq![all[i]] + (all.skip(i + 1) + crate::execution::pieces(rest)) =~= all.skip(i)
            + crate::execution::pieces(rest));
    } else {
        assert(all.skip(i) + crate::execution::pieces(rest) =~= crate::execution::pieces(rest));
    }
}

proof fn lemma_args_run(
    args: Seq<(Option<String>, IrExpr)>,
    i: int,
    params: Option<Seq<IrFunctionParam>>,
    effects: Seq<Effect>,
    rest: Tree,
    states: Seq<State>,
    env: Env,
    fuel: nat,
)
    requires
        0 <= i <= args.len(),
        effects.len() == args.len(),
        run_in_turn(effects, states),
    ensures
        crate::execution::exec(
            args_tree(args, i, params, effects, rest),
            states[i],
            env,
            fuel,
        ) == crate::execution::exec(rest, states[args.len() as int], env, fuel),
    decreases args.len() - i,
{
    if i < args.len() {
        lemma_args_run(args, i + 1, params, effects, rest, states, env, fuel);
        assert(effects[i](states[i]) == Outcome::Next(states[i + 1]));
    }
}

// ── calls ────────────────────────────────────────────────────────────

/// A call of a function runs its arguments from the first to the last and
/// calls the function that its name stands for.
pub proof fn law_function_calls_run_their_arguments(
    e: IrExpr,
    cx: Cx,
    s: SinkView,
    env: Env,
    fuel: nat,
    effects: Seq<Effect>,
    states: Seq<State>,
)
    requires
        e is FunctionCall,
        crate::lower::expr_code(e, cx, s).err is None,
        effects.len() == e->FunctionCall_args@.len(),
        run_in_turn(effects, states),
    ensures
        ({
            let args = e->FunctionCall_args@;
            let id = e->FunctionCall_function_id->0;
            let params = crate::lower::call::function_params(cx.module, id);
            let f = crate::lower::maps::lookup(cx.functions, id.0)->0;
            crate::execution::behaves(
                s,
                crate::lower::expr_code(e, cx, s).sink,
                cx,
                arg_pieces(args, params, effects),
                states[0],
                env,
                fuel,
                crate::execution::called(env, f, states[args.len() as int]),
            )
        }),
{
    let args = e->FunctionCall_args@;
    let id = e->FunctionCall_function_id->0;
    let params = crate::lower::call::function_params(cx.module, id);
    let f = crate::lower::maps::lookup(cx.functions, id.0)->0;
    assert(crate::lower::expr_code(e, cx, s) == crate::lower::call::function_call_code(e, cx, s));
    let rest = Tree::op(Instr::Call(f), Tree::Done);
    let t = args_tree(args, 0, params, effects, rest);
    lemma_args_written(args, 0, params, effects, rest, s, cx);
    lemma_args_pieces(args, 0, params, effects, rest);
    let all = arg_pieces(args, params, effects);
    assert(all.skip(0) + crate::execution::pieces(rest) =~= all);
    lemma_args_run(args, 0, params, effects, rest, states, env, fuel);
    crate::execution::lemma_behaves(t, s, cx, all, states[0], env, fuel);
    assert(crate::execution::written(t, s, cx) == crate::lower::expr_code(e, cx, s).sink);
}

/// A call of a method of a known type runs the receiver, then the arguments,
/// and calls the method.
pub proof fn law_method_calls_run_the_receiver_first(
    e: IrExpr,
    cx: Cx,
    s: SinkView,
    env: Env,
    fuel: nat,
    receiver: Effect,
    effects: Seq<Effect>,
    st: State,
    states: Seq<State>,
)
    requires
        e is MethodCall,
        e->MethodCall_dispatch is Static,
        crate::lower::expr_code(e, cx, s).err is None,
        effects.len() == e->MethodCall_args@.len(),
        receiver(st) == Outcome::Next(states[0]),
        run_in_turn(effects, states),
    ensures
        ({
            let args = e->MethodCall_args@;
            let id = e->MethodCall_dispatch->Static_impl_id;
            let idx = e->MethodCall_method_idx;
            let params = crate::lower::call::method_params(cx.module, id, idx);
            let f = crate::lower::maps::lookup(
                cx.methods->0,
                crate::lower::maps::pair_key(id.0, idx.0),
            )->0;
            crate::execution::behaves(
                s,
                crate::lower::expr_code(e, cx, s).sink,
                cx,
                seq![Piece { e: *e->MethodCall_receiver, into: None, effect: receiver }]
                    + arg_pieces(args, params, effects),
                st,
                env,
                fuel,
                crate::execution::called(env, f, states[args.len() as int]),
            )
        }),
{
    let args = e->MethodCall_args@;
    let id = e->MethodCall_dispatch->Static_impl_id;
    let idx = e->MethodCall_method_idx;
    let params = crate::lower::call::method_params(cx.module, id, idx);
    let f = crate::lower::maps::lookup(
        cx.methods->0,
        crate::lower::maps::pair_key(id.0, idx.0),
    )->0;
    let first = Piece { e: *e->MethodCall_receiver, into: None, effect: receiver };
    assert(crate::lower::expr_code(e, cx, s) == crate::lower::call::static_call_code(e, id, cx, s));
    let rest = Tree::op(Instr::Call(f), Tree::Done);
    let passing = args_tree(args, 0, params, effects, rest);
    let t = Tree::piece(first, passing);
    let s1 = crate::lower::expr_code(first.e, cx, s).sink;
    lemma_args_written(args, 0, params, effects, rest, s1, cx);
    lemma_args_pieces(args, 0, params, effects, rest);
    let all = arg_pieces(args, params, effects);
    assert(all.skip(0) + crate::execution::pieces(rest) =~= all);
    lemma_args_run(args, 0, params, effects, rest, states, env, fuel);
    crate::execution::lemma_behaves(t, s, cx, seq![first] + all, st, env, fuel);
    assert(crate::execution::written(t, s, cx) == crate::lower::expr_code(e, cx, s).sink);
}

/// A call of a method of a trait runs the receiver, then the arguments, and
/// calls through the table slot that stands at the method's number in the
/// method table of the receiver's type.
#[verifier::rlimit(20)]
pub proof fn law_trait_calls_go_through_the_method_table(
    e: IrExpr,
    cx: Cx,
    s: SinkView,
    env: Env,
    fuel: nat,
    receiver: Effect,
    effects: Seq<Effect>,
    st: State,
    states: Seq<State>,
)
    requires
        e is MethodCall,
        e->MethodCall_dispatch is Virtual,
        crate::lower::expr_code(e, cx, s).err is None,
        effects.len() == e->MethodCall_args@.len(),
        receiver(st) == Outcome::Next(states[0]),
        run_in_turn(effects, states),
        ({
            let id = e->MethodCall_dispatch->Virtual_trait_id;
            let target = crate::lower::call::receiver_key(
                (*e->MethodCall_receiver).spec_ty(),
            )->Ok_0;
            let table = cx.spec_vtable_offset(id, target)->Ok_0;
            table + 4 * e->MethodCall_method_idx.0 + 4 <= states[effects.len() as int].mem.len()
        }),
    ensures
        ({
            let args = e->MethodCall_args@;
            let id = e->MethodCall_dispatch->Virtual_trait_id;
            let idx = e->MethodCall_method_idx;
            let params = crate::lower::call::trait_method_params(cx.module, id, idx);
            let target = crate::lower::call::receiver_key(
                (*e->MethodCall_receiver).spec_ty(),
            )->Ok_0;
            let table = cx.spec_vtable_offset(id, target)->Ok_0;
            let x = states[args.len() as int];
            crate::execution::behaves(
                s,
                crate::lower::expr_code(e, cx, s).sink,
                cx,
                seq![Piece { e: *e->MethodCall_receiver, into: None, effect: receiver }]
                    + arg_pieces(args, params, effects),
                st,
                env,
                fuel,
                crate::execution::called_through(
                    env,
                    cx.spec_method_table()->Ok_0,
                    cx.spec_virtual_call_type(id, idx)->Ok_0,
                    crate::execution::read(x.mem, table + 4 * idx.0, 4) as u32,
                    x,
                ),
            )
        }),
{
    let args = e->MethodCall_args@;
    let id = e->MethodCall_dispatch->Virtual_trait_id;
    let idx = e->MethodCall_method_idx;
    let params = crate::lower::call::trait_method_params(cx.module, id, idx);
    let target = crate::lower::call::receiver_key((*e->MethodCall_receiver).spec_ty())->Ok_0;
    let table = cx.spec_vtable_offset(id, target)->Ok_0;
    let x = states[args.len() as int];
    let first = Piece { e: *e->MethodCall_receiver, into: None, effect: receiver };
    assert(crate::lower::expr_code(e, cx, s) == crate::lower::call::virtual_call_code(
        e,
        id,
        cx,
        s,
    ));
    let table_index = cx.spec_method_table()->Ok_0;
    let type_index = cx.spec_virtual_call_type(id, idx)->Ok_0;
    let load = crate::lower::call::slot_load(table, idx);
    let rest = Tree::op3(
        Instr::I32Const(0),
        load,
        Instr::CallIndirect { table_index, type_index },
        Tree::Done,
    );
    let passing = args_tree(args, 0, params, effects, rest);
    let t = Tree::piece(first, passing);
    let s1 = crate::lower::expr_code(first.e, cx, s).sink;
    lemma_args_written(args, 0, params, effects, rest, s1, cx);
    lemma_args_pieces(args, 0, params, effects, rest);
    let all = arg_pieces(args, params, effects);
    assert(all.skip(0) + crate::execution::pieces(rest) =~= all);
    lemma_args_run(args, 0, params, effects, rest, states, env, fuel);
    assert(crate::execution::word(0) == 0);
    let k = Value::I32(crate::execution::read(x.mem, table + 4 * idx.0, 4) as u32);
    assert(x.push(Value::I32(0)).pop() == Some((Value::I32(0), x)));
    assert(crate::execution::step(load, x.push(Value::I32(0)), env) == Some(x.push(k)));
    assert(x.push(k).pop() == Some((k, x)));
    crate::execution::lemma_behaves(t, s, cx, seq![first] + all, st, env, fuel);
    assert(crate::execution::written(t, s, cx) == crate::lower::expr_code(e, cx, s).sink);
}

/// A call of a closure hands over what the closure captured, then the
/// arguments, and calls through the table slot that the closure holds.
#[verifier::rlimit(20)]
pub proof fn law_closure_calls_pass_the_captured_values(
    e: IrExpr,
    cx: Cx,
    s: SinkView,
    env: Env,
    fuel: nat,
    closure: Effect,
    effects: Seq<Effect>,
    st: State,
    x: State,
    p: u32,
    states: Seq<State>,
)
    requires
        e is CallClosure,
        crate::lower::expr_code(e, cx, s).err is None,
        effects.len() == e->CallClosure_args@.len(),
        closure(st) == Outcome::Next(x.push(Value::I32(p))),
        p + 8 <= x.mem.len(),
        crate::lower::values::next_scratch(s) < x.locals.len(),
        run_in_turn(effects, states),
        states[0] == x.with_local(crate::lower::values::next_scratch(s), Value::I32(p)).push(
            Value::I32(crate::execution::read(x.mem, p + CLOSURE_ENV_OFFSET, 4) as u32),
        ),
        ({
            let y = states[effects.len() as int];
            let base = crate::lower::values::next_scratch(s);
            &&& base < y.locals.len()
            &&& y.locals[base as int] == Value::I32(p)
            &&& p + 8 <= y.mem.len()
        }),
    ensures
        ({
            let args = e->CallClosure_args@;
            let y = states[args.len() as int];
            crate::execution::behaves(
                s,
                crate::lower::expr_code(e, cx, s).sink,
                cx,
                seq![Piece { e: *e->CallClosure_closure, into: None, effect: closure }]
                    + arg_pieces(args, None, effects),
                st,
                env,
                fuel,
                crate::execution::called_through(
                    env,
                    cx.spec_closure_table()->Ok_0,
                    cx.spec_closure_type((*e->CallClosure_closure).spec_ty())->Ok_0,
                    crate::execution::read(y.mem, p + CLOSURE_FUNCREF_OFFSET, 4) as u32,
                    y,
                ),
            )
        }),
{
    let args = e->CallClosure_args@;
    let base = crate::lower::values::next_scratch(s);
    let y = states[args.len() as int];
    let first = Piece { e: *e->CallClosure_closure, into: None, effect: closure };
    assert(crate::lower::expr_code(e, cx, s) == crate::lower::call::closure_call_code(e, cx, s));
    let table_index = cx.spec_closure_table()->Ok_0;
    let type_index = cx.spec_closure_type((*e->CallClosure_closure).spec_ty())->Ok_0;
    let captured = crate::lower::call::closure_part(CLOSURE_ENV_OFFSET);
    let slot = crate::lower::call::closure_part(CLOSURE_FUNCREF_OFFSET);
    let rest = Tree::op3(
        Instr::LocalGet(base),
        slot,
        Instr::CallIndirect { table_index, type_index },
        Tree::Done,
    );
    let passing = args_tree(args, 0, None, effects, rest);
    let inner = Tree::op3(Instr::LocalSet(base), Instr::LocalGet(base), captured, passing);
    let t = Tree::take(ValType::I32, Tree::piece(first, inner));
    let (_, s1) = s.scratch_local(ValType::I32)->Ok_0;
    let s2 = crate::lower::expr_code(first.e, cx, s1).sink.emit(Instr::LocalSet(base)).emit(
        Instr::LocalGet(base),
    ).emit(captured);
    lemma_args_written(args, 0, None, effects, rest, s2, cx);
    lemma_args_pieces(args, 0, None, effects, rest);
    let all = arg_pieces(args, None, effects);
    assert(all.skip(0) + crate::execution::pieces(rest) =~= all);
    lemma_args_run(args, 0, None, effects, rest, states, env, fuel);
    let x1 = x.with_local(base, Value::I32(p));
    assert(x.push(Value::I32(p)).pop() == Some((Value::I32(p), x)));
    assert(x1.push(Value::I32(p)).pop() == Some((Value::I32(p), x1)));
    assert(crate::execution::step(captured, x1.push(Value::I32(p)), env) == Some(states[0]));
    assert(crate::execution::exec(inner, x.push(Value::I32(p)), env, fuel)
        == crate::execution::exec(passing, states[0], env, fuel));
    let k = Value::I32(crate::execution::read(y.mem, p + CLOSURE_FUNCREF_OFFSET, 4) as u32);
    assert(y.push(Value::I32(p)).pop() == Some((Value::I32(p), y)));
    assert(crate::execution::step(slot, y.push(Value::I32(p)), env) == Some(y.push(k)));
    assert(y.push(k).pop() == Some((k, y)));
    crate::execution::lemma_behaves(t, s, cx, seq![first] + all, st, env, fuel);
    assert(crate::execution::written(t, s, cx) == crate::lower::expr_code(e, cx, s).sink);
}

// ── bodies ───────────────────────────────────────────────────────────

/// The body of a function does what the code of its expression does, and
/// nothing else: the value flows into the return type.
pub proof fn law_bodies_run_their_expression(
    body: IrExpr,
    return_ty: Option<ResolvedType>,
    locals: Seq<(u32, ValType)>,
    cx: Cx,
    scratch: Option<crate::lower::context::ScratchAllocator>,
    st: State,
    env: Env,
    fuel: nat,
    effect: Effect,
) -> (sink: SinkView)
    requires
        crate::lower::block::finished_body(body, return_ty, locals, cx, scratch) is Ok,
    ensures
        ({
            let whole = crate::lower::block::finished_body(
                body,
                return_ty,
                locals,
                cx,
                scratch,
            )->Ok_0;
            &&& whole.locals == locals
            &&& whole.code == sink.code.push(Instr::End)
            &&& crate::execution::behaves(
                SinkView { code: Seq::empty(), scratch },
                sink,
                cx,
                seq![Piece { e: body, into: return_ty, effect }],
                st,
                env,
                fuel,
                effect(st),
            )
        }),
{
    let start = SinkView { code: Seq::empty(), scratch };
    let piece = Piece { e: body, into: return_ty, effect };
    let t = Tree::piece(piece, Tree::Done);
    assert(crate::execution::pieces(t) =~= seq![piece]);
    crate::execution::lemma_behaves(t, start, cx, seq![piece], st, env, fuel);
    assert(crate::execution::exec(t, st, env, fuel) == effect(st));
    crate::execution::written(t, start, cx)
}

} // verus!
