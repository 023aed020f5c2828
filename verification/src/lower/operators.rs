//! Laws: operators and literals compute what they name.

use vstd::arithmetic::power2::pow2;
use vstd::prelude::*;

use crate::execution::{Env, Floats, Format, Outcome, Piece, State, Tree, Value};
use crate::instr::{I32Op, Instr};
use crate::ir::{BinaryOperator, IrExpr, Literal, NumberValue, PrimitiveType, ResolvedType, UnaryOperator};
use crate::lower::context::{Cx, SinkView};

verus! {

// ── what operators name ──────────────────────────────────────────────

/// The largest number of a float format, counted in the smallest positive one.
pub open spec fn largest(f: Format) -> int {
    (2 * pow2(f.fraction) - 1) * pow2((f.exponents - 3) as nat)
}

/// How many times the smallest positive float goes into one.
pub open spec fn units(f: Format) -> int {
    pow2((f.exponents / 2 + f.fraction - 2) as nat) as int
}

/// Whether `num / den` lies between the floats of a format.
pub open spec fn in_range(f: Format, num: int, den: int) -> bool {
    den > 0 && crate::execution::distance(num, 0) <= largest(f) * den
}

/// `r` is `num / den` rounded, where that lies between the floats.
#[verifier::opaque]
pub open spec fn is_rounded(f: Format, r: nat, num: int, den: int) -> bool {
    in_range(f, num, den) ==> crate::execution::is_nearest(f, r, num, den)
}

/// On two finite floats each operation gives the float nearest to what it
/// names.
pub open spec fn rounds_on(m: Floats, f: Format, a: nat, b: nat) -> bool {
    let x = crate::execution::number(f, a);
    let y = crate::execution::number(f, b);
    crate::execution::is_finite(f, a) && crate::execution::is_finite(f, b) ==> {
        &&& is_rounded(f, (m.sum)(f, a, b), x + y, 1)
        &&& is_rounded(f, (m.difference)(f, a, b), x - y, 1)
        &&& is_rounded(f, (m.product)(f, a, b), x * y, units(f))
        &&& y > 0 ==> is_rounded(f, (m.quotient)(f, a, b), x * units(f), y)
        &&& y < 0 ==> is_rounded(f, (m.quotient)(f, a, b), -(x * units(f)), -y)
    }
}

/// One of the two formats that machines have.
pub open spec fn is_format(f: Format) -> bool {
    f == crate::execution::single() || f == crate::execution::double()
}

/// `bits` is not too long for a float of the format.
pub open spec fn is_short(f: Format, bits: nat) -> bool {
    bits < 2 * (pow2(f.fraction) * f.exponents)
}

/// The arithmetic rounds exact results, and its results are floats.
pub open spec fn rounds(m: Floats) -> bool {
    forall|f: Format, a: nat, b: nat|
        is_format(f) ==> #[trigger] rounds_on(m, f, a, b) && is_short(f, (m.sum)(f, a, b))
            && is_short(f, (m.difference)(f, a, b)) && is_short(f, (m.product)(f, a, b))
            && is_short(f, (m.quotient)(f, a, b))
}

/// `r` is the number that an arithmetic operator names on two integers, the
/// first that is too large being `limit`. Division by zero gives none, nor does
/// a quotient that is too large.
pub open spec fn names_integer(op: BinaryOperator, a: int, b: int, limit: int, r: Option<int>) -> bool {
    match op {
        BinaryOperator::Add => r == Some(a + b),
        BinaryOperator::Sub => r == Some(a - b),
        BinaryOperator::Mul => r == Some(a * b),
        BinaryOperator::Div => if b == 0 || (a == -limit && b == -1) {
            r is None
        } else {
            r == Some(crate::execution::quotient(a, b))
        },
        BinaryOperator::Mod => if b == 0 {
            r is None
        } else {
            r == Some(crate::execution::left_over(a, b))
        },
        _ => false,
    }
}

/// Whether a comparing operator holds of two numbers.
pub open spec fn holds(op: BinaryOperator, a: int, b: int) -> bool {
    match op {
        BinaryOperator::Eq => a == b,
        BinaryOperator::Ne => a != b,
        BinaryOperator::Lt => a < b,
        BinaryOperator::Gt => b < a,
        BinaryOperator::Le => a <= b,
        BinaryOperator::Ge => b <= a,
        _ => false,
    }
}

/// Whether an operator compares.
pub open spec fn compares(op: BinaryOperator) -> bool {
    op == BinaryOperator::Eq || op == BinaryOperator::Ne || op == BinaryOperator::Lt || op
        == BinaryOperator::Gt || op == BinaryOperator::Le || op == BinaryOperator::Ge
}

/// `r` is the float that an arithmetic operator names on two finite floats.
pub open spec fn names_float(op: BinaryOperator, f: Format, a: nat, b: nat, r: nat) -> bool {
    let x = crate::execution::number(f, a);
    let y = crate::execution::number(f, b);
    crate::execution::is_finite(f, a) && crate::execution::is_finite(f, b) ==> match op {
        BinaryOperator::Add => is_rounded(f, r, x + y, 1),
        BinaryOperator::Sub => is_rounded(f, r, x - y, 1),
        BinaryOperator::Mul => is_rounded(f, r, x * y, units(f)),
        BinaryOperator::Div => {
            &&& y > 0 ==> is_rounded(f, r, x * units(f), y)
            &&& y < 0 ==> is_rounded(f, r, -(x * units(f)), -y)
        },
        _ => false,
    }
}

/// `r` is what a comparing operator gives on two floats: what is no number
/// differs from everything, and is neither smaller nor larger.
pub open spec fn names_order(op: BinaryOperator, f: Format, a: nat, b: nat, r: Value) -> bool {
    r == crate::execution::truth(
        if crate::execution::is_nan(f, a) || crate::execution::is_nan(f, b) {
            op == BinaryOperator::Ne
        } else {
            holds(op, crate::execution::rank(f, a), crate::execution::rank(f, b))
        },
    )
}

/// `r` is what `op` names on the operands `a` and `b` of type `p`; nothing
/// where it traps.
pub open spec fn names(op: BinaryOperator, p: PrimitiveType, a: Value, b: Value, r: Option<Value>) -> bool {
    match (p, a, b) {
        (PrimitiveType::I32, Value::I32(x), Value::I32(y)) => {
            let (x, y) = (crate::execution::signed32(x), crate::execution::signed32(y));
            if compares(op) {
                r == Some(crate::execution::truth(holds(op, x, y)))
            } else {
                match r {
                    None => names_integer(op, x, y, 0x8000_0000, None),
                    Some(v) => exists|n: int| #[trigger]
                        names_integer(op, x, y, 0x8000_0000, Some(n)) && v == Value::I32(
                            crate::execution::word(n),
                        ),
                }
            }
        },
        (PrimitiveType::I64, Value::I64(x), Value::I64(y)) => {
            let (x, y) = (crate::execution::signed64(x), crate::execution::signed64(y));
            if compares(op) {
                r == Some(crate::execution::truth(holds(op, x, y)))
            } else {
                match r {
                    None => names_integer(op, x, y, 0x8000_0000_0000_0000, None),
                    Some(v) => exists|n: int| #[trigger]
                        names_integer(op, x, y, 0x8000_0000_0000_0000, Some(n)) && v == Value::I64(
                            crate::execution::double_word(n),
                        ),
                }
            }
        },
        (PrimitiveType::F32, Value::F32(x), Value::F32(y)) => {
            let f = crate::execution::single();
            if compares(op) {
                r matches Some(v) && names_order(op, f, x as nat, y as nat, v)
            } else {
                r matches Some(Value::F32(v)) && names_float(op, f, x as nat, y as nat, v as nat)
            }
        },
        (PrimitiveType::F64, Value::F64(x), Value::F64(y)) => {
            let f = crate::execution::double();
            if compares(op) {
                r matches Some(v) && names_order(op, f, x as nat, y as nat, v)
            } else {
                r matches Some(Value::F64(v)) && names_float(op, f, x as nat, y as nat, v as nat)
            }
        },
        (PrimitiveType::Boolean, Value::I32(x), Value::I32(y)) => x <= 1 && y <= 1 ==> r == Some(
            crate::execution::truth(
                match op {
                    BinaryOperator::And => x == 1 && y == 1,
                    BinaryOperator::Or => x == 1 || y == 1,
                    BinaryOperator::Eq => x == y,
                    _ => x != y,
                },
            ),
        ),
        _ => false,
    }
}

/// The type of the values of a primitive type that operators work on.
pub open spec fn has_type(v: Value, p: PrimitiveType) -> bool {
    match p {
        PrimitiveType::I32 => v is I32,
        PrimitiveType::I64 => v is I64,
        PrimitiveType::F32 => v is F32,
        PrimitiveType::F64 => v is F64,
        PrimitiveType::Boolean => v is I32,
        _ => false,
    }
}

/// Which operators the primitive types have: numbers have arithmetic and
/// comparisons, but floats no remainder; truth values have logic and equality.
pub open spec fn applies(op: BinaryOperator, p: PrimitiveType) -> bool {
    match p {
        PrimitiveType::I32 => op != BinaryOperator::And && op != BinaryOperator::Or && op
            != BinaryOperator::Range,
        PrimitiveType::I64 => op != BinaryOperator::And && op != BinaryOperator::Or && op
            != BinaryOperator::Range,
        PrimitiveType::F32 => op != BinaryOperator::And && op != BinaryOperator::Or && op
            != BinaryOperator::Range && op != BinaryOperator::Mod,
        PrimitiveType::F64 => op != BinaryOperator::And && op != BinaryOperator::Or && op
            != BinaryOperator::Range && op != BinaryOperator::Mod,
        PrimitiveType::Boolean => op == BinaryOperator::And || op == BinaryOperator::Or || op
            == BinaryOperator::Eq || op == BinaryOperator::Ne,
        _ => false,
    }
}

proof fn lemma_bits(x: u32, y: u32)
    requires
        x <= 1,
        y <= 1,
    ensures
        x & y == (if x == 1 && y == 1 {
            1u32
        } else {
            0u32
        }),
        x | y == (if x == 1 || y == 1 {
            1u32
        } else {
            0u32
        }),
{
    assert(x & y == (if x == 1 && y == 1 {
        1u32
    } else {
        0u32
    })) by (bit_vector)
        requires
            x <= 1,
            y <= 1,
    ;
    assert(x | y == (if x == 1 || y == 1 {
        1u32
    } else {
        0u32
    })) by (bit_vector)
        requires
            x <= 1,
            y <= 1,
    ;
}

/// The sizes of both float formats.
proof fn lemma_formats()
    ensures
        pow2(23) * 256 == 0x8000_0000,
        pow2(52) * 2048 == 0x8000_0000_0000_0000,
{
    vstd::arithmetic::power2::lemma2_to64();
    vstd::arithmetic::power2::lemma2_to64_rest();
}

/// The quotient is too large exactly where the smallest number is divided by
/// minus one.
proof fn lemma_quotient(a: int, b: int, limit: int)
    requires
        limit > 1,
        -limit <= a < limit,
        b != 0,
    ensures
        crate::execution::quotient(a, b) == limit <==> a == -limit && b == -1,
{
    if a < 0 && b < 0 {
        let (x, y) = (-a, -b);
        if y > 1 {
            assert(x / y < limit) by (nonlinear_arith)
                requires
                    0 < x <= limit,
                    y > 1,
                    limit > 1,
            ;
        } else {
            assert(x / y == x) by (nonlinear_arith)
                requires
                    y == 1,
            ;
        }
    } else if a >= 0 && b > 0 {
        assert(a / b <= a) by (nonlinear_arith)
            requires
                a >= 0,
                b > 0,
        ;
    } else if a >= 0 {
        let y = -b;
        assert(a / y >= 0) by (nonlinear_arith)
            requires
                a >= 0,
                y > 0,
        ;
    } else {
        let x = -a;
        assert(x / b >= 0) by (nonlinear_arith)
            requires
                x >= 0,
                b > 0,
        ;
    }
}

/// What an instruction leaves is what the operator names.
spec fn leaves_named(op: BinaryOperator, p: PrimitiveType, a: Value, b: Value, st: State, end: Option<State>) -> bool {
    match end {
        Some(end) => exists|r: Value| #[trigger]
            names(op, p, a, b, Some(r)) && end == st.push(r),
        None => names(op, p, a, b, None),
    }
}

proof fn lemma_words(op: BinaryOperator, x: u32, y: u32, st: State, env: Env)
    requires
        applies(op, PrimitiveType::I32),
    ensures
        crate::lower::binary_op::int_op(op) matches Some(o) && leaves_named(
            op,
            PrimitiveType::I32,
            Value::I32(x),
            Value::I32(y),
            st,
            crate::execution::step(
                Instr::I32(o),
                st.push(Value::I32(x)).push(Value::I32(y)),
                env,
            ),
        ),
{
    let (a, b) = (Value::I32(x), Value::I32(y));
    let (n, k) = (crate::execution::signed32(x), crate::execution::signed32(y));
    if k != 0 {
        lemma_quotient(n, k, 0x8000_0000);
    }
    let o = crate::lower::binary_op::int_op(op)->0;
    assert(crate::execution::pop_two(st.push(a).push(b)) == Some((a, b, st)));
    if let Some(v) = crate::execution::int_result(o, a, b) {
        if !compares(op) {
            let e = crate::execution::exact(o, n, k, 0x8000_0000)->0;
            assert(names_integer(op, n, k, 0x8000_0000, Some(e)));
        }
        assert(names(op, PrimitiveType::I32, a, b, Some(v)));
    }
}

proof fn lemma_double_words(op: BinaryOperator, x: u64, y: u64, st: State, env: Env)
    requires
        applies(op, PrimitiveType::I64),
    ensures
        crate::lower::binary_op::int_op(op) matches Some(o) && leaves_named(
            op,
            PrimitiveType::I64,
            Value::I64(x),
            Value::I64(y),
            st,
            crate::execution::step(
                Instr::I64(o),
                st.push(Value::I64(x)).push(Value::I64(y)),
                env,
            ),
        ),
{
    let (a, b) = (Value::I64(x), Value::I64(y));
    let (n, k) = (crate::execution::signed64(x), crate::execution::signed64(y));
    if k != 0 {
        lemma_quotient(n, k, 0x8000_0000_0000_0000);
    }
    let o = crate::lower::binary_op::int_op(op)->0;
    assert(crate::execution::pop_two(st.push(a).push(b)) == Some((a, b, st)));
    if let Some(v) = crate::execution::int_result(o, a, b) {
        if !compares(op) {
            let e = crate::execution::exact(o, n, k, 0x8000_0000_0000_0000)->0;
            assert(names_integer(op, n, k, 0x8000_0000_0000_0000, Some(e)));
        }
        assert(names(op, PrimitiveType::I64, a, b, Some(v)));
    }
}

proof fn lemma_singles(op: BinaryOperator, x: u32, y: u32, st: State, env: Env)
    requires
        applies(op, PrimitiveType::F32),
        rounds(env.floats),
    ensures
        crate::lower::binary_op::float_op(op) matches Some(o) && leaves_named(
            op,
            PrimitiveType::F32,
            Value::F32(x),
            Value::F32(y),
            st,
            crate::execution::step(
                Instr::F32(o),
                st.push(Value::F32(x)).push(Value::F32(y)),
                env,
            ),
        ),
{
    lemma_formats();
    let (a, b) = (Value::F32(x), Value::F32(y));
    let o = crate::lower::binary_op::float_op(op)->0;
    assert(crate::execution::pop_two(st.push(a).push(b)) == Some((a, b, st)));
    assert(rounds_on(env.floats, crate::execution::single(), x as nat, y as nat));
    let v = crate::execution::float_result(o, a, b, env.floats)->0;
    assert(names(op, PrimitiveType::F32, a, b, Some(v)));
}

proof fn lemma_doubles(op: BinaryOperator, x: u64, y: u64, st: State, env: Env)
    requires
        applies(op, PrimitiveType::F64),
        rounds(env.floats),
    ensures
        crate::lower::binary_op::float_op(op) matches Some(o) && leaves_named(
            op,
            PrimitiveType::F64,
            Value::F64(x),
            Value::F64(y),
            st,
            crate::execution::step(
                Instr::F64(o),
                st.push(Value::F64(x)).push(Value::F64(y)),
                env,
            ),
        ),
{
    lemma_formats();
    let (a, b) = (Value::F64(x), Value::F64(y));
    let o = crate::lower::binary_op::float_op(op)->0;
    assert(crate::execution::pop_two(st.push(a).push(b)) == Some((a, b, st)));
    assert(rounds_on(env.floats, crate::execution::double(), x as nat, y as nat));
    let v = crate::execution::float_result(o, a, b, env.floats)->0;
    assert(names(op, PrimitiveType::F64, a, b, Some(v)));
}

proof fn lemma_truths(op: BinaryOperator, x: u32, y: u32, st: State, env: Env)
    requires
        applies(op, PrimitiveType::Boolean),
    ensures
        crate::lower::binary_op::bool_instr(op) matches Some(i) && leaves_named(
            op,
            PrimitiveType::Boolean,
            Value::I32(x),
            Value::I32(y),
            st,
            crate::execution::step(i, st.push(Value::I32(x)).push(Value::I32(y)), env),
        ),
{
    if x <= 1 && y <= 1 {
        lemma_bits(x, y);
    }
    let (a, b) = (Value::I32(x), Value::I32(y));
    let i = crate::lower::binary_op::bool_instr(op)->0;
    assert(crate::execution::pop_two(st.push(a).push(b)) == Some((a, b, st)));
    let v = match i {
        Instr::I32(o) => crate::execution::int_result(o, a, b)->0,
        Instr::I32Bits(o) => crate::execution::word_result(o, a, b)->0,
        _ => a,
    };
    assert(crate::execution::step(i, st.push(a).push(b), env) == Some(st.push(v)));
    assert(names(op, PrimitiveType::Boolean, a, b, Some(v)));
}

/// The instruction of an operator, between its operands and its result.
proof fn lemma_instr(op: BinaryOperator, p: PrimitiveType, a: Value, b: Value, st: State, env: Env)
    requires
        rounds(env.floats),
        has_type(a, p),
        has_type(b, p),
        applies(op, p),
    ensures
        crate::lower::binary_op::binary_instr(op, p) matches Some(i) && !crate::execution::is_jump(i)
            && leaves_named(
            op,
            p,
            a,
            b,
            st,
            crate::execution::step(i, st.push(a).push(b), env),
        ),
{
    match (a, b) {
        (Value::I32(x), Value::I32(y)) => if p == PrimitiveType::Boolean {
            lemma_truths(op, x, y, st, env);
        } else {
            lemma_words(op, x, y, st, env);
        },
        (Value::I64(x), Value::I64(y)) => lemma_double_words(op, x, y, st, env),
        (Value::F32(x), Value::F32(y)) => lemma_singles(op, x, y, st, env),
        (Value::F64(x), Value::F64(y)) => lemma_doubles(op, x, y, st, env),
        _ => {},
    }
}

/// A binary operator on primitive operands runs the code of the left operand,
/// then that of the right one, and leaves what the operator names on their
/// values, in that order, in place of both. It traps exactly where there is no
/// such value.
pub proof fn law_binary_operators_compute_what_they_name(
    left: Box<IrExpr>,
    op: BinaryOperator,
    right: Box<IrExpr>,
    ty: ResolvedType,
    p: PrimitiveType,
    cx: Cx,
    s: SinkView,
    first: Piece,
    second: Piece,
    a: Value,
    b: Value,
    st: State,
    mid: State,
    end: State,
    env: Env,
    fuel: nat,
)
    requires
        left.spec_ty() == ResolvedType::Primitive(p),
        crate::lower::expr_code(IrExpr::BinaryOp { left, op, right, ty }, cx, s).err is None,
        applies(op, p),
        first.e == *left,
        first.into is None,
        second.e == *right,
        second.into is None,
        (first.effect)(st) == Outcome::Next(mid.push(a)),
        (second.effect)(mid.push(a)) == Outcome::Next(end.push(a).push(b)),
        has_type(a, p),
        has_type(b, p),
        rounds(env.floats),
    ensures
        exists|r: Option<Value>| #[trigger]
            names(op, p, a, b, r) && crate::execution::behaves(
                s,
                crate::lower::expr_code(IrExpr::BinaryOp { left, op, right, ty }, cx, s).sink,
                cx,
                seq![first, second],
                st,
                env,
                fuel,
                match r {
                    Some(v) => Outcome::Next(end.push(v)),
                    None => Outcome::Trap,
                },
            ),
{
    broadcast use {
        crate::execution::group_exec,
        crate::execution::group_code,
        crate::execution::group_pieces,
    };

    lemma_instr(op, p, a, b, end, env);
    let i = crate::lower::binary_op::binary_instr(op, p)->0;
    let t = Tree::piece(first, Tree::piece(second, Tree::op(i, Tree::Done)));
    crate::execution::lemma_behaves(t, s, cx, seq![first, second], st, env, fuel);
    match crate::execution::step(i, end.push(a).push(b), env) {
        Some(x) => {
            let r = choose|r: Value| #[trigger]
                names(op, p, a, b, Some(r)) && x == end.push(r);
            assert(names(op, p, a, b, Some(r)));
        },
        None => {
            assert(names(op, p, a, b, None));
        },
    }
}

/// An operator on two texts runs the code of the left one, then that of the
/// right one, and calls a helper with both, in that order: `==` and `!=` the
/// comparison of texts, `+` their concatenation. `!=` gives the other truth
/// value.
pub proof fn law_text_operators_call_their_helpers(
    left: Box<IrExpr>,
    op: BinaryOperator,
    right: Box<IrExpr>,
    ty: ResolvedType,
    cx: Cx,
    s: SinkView,
    first: Piece,
    second: Piece,
    st: State,
    mid: State,
    both: State,
    end: State,
    r: u32,
    env: Env,
    fuel: nat,
)
    requires
        left.spec_ty() == ResolvedType::Primitive(PrimitiveType::String),
        op != BinaryOperator::Range,
        crate::lower::expr_code(IrExpr::BinaryOp { left, op, right, ty }, cx, s).err is None,
        first.e == *left,
        first.into is None,
        second.e == *right,
        second.into is None,
        (first.effect)(st) == Outcome::Next(mid),
        (second.effect)(mid) == Outcome::Next(both),
        op == BinaryOperator::Add ==> (cx.spec_str_concat() matches Ok(f) && (env.call)(f, both)
            == Some(end.push(Value::I32(r)))),
        op != BinaryOperator::Add ==> (cx.spec_str_eq() matches Ok(f) && (env.call)(f, both)
            == Some(end.push(Value::I32(r)))),
    ensures
        crate::execution::behaves(
            s,
            crate::lower::expr_code(IrExpr::BinaryOp { left, op, right, ty }, cx, s).sink,
            cx,
            seq![first, second],
            st,
            env,
            fuel,
            Outcome::Next(
                end.push(
                    if op == BinaryOperator::Ne {
                        crate::execution::truth(r == 0)
                    } else {
                        Value::I32(r)
                    },
                ),
            ),
        ),
        op == BinaryOperator::Add || op == BinaryOperator::Eq || op == BinaryOperator::Ne,
{
    broadcast use {
        crate::execution::group_exec,
        crate::execution::group_code,
        crate::execution::group_pieces,
    };

    let f = if op == BinaryOperator::Add {
        cx.spec_str_concat()->Ok_0
    } else {
        cx.spec_str_eq()->Ok_0
    };
    let e = IrExpr::BinaryOp { left, op, right, ty };
    assert(crate::lower::expr_code(e, cx, s) == crate::lower::binary_op::string_binary_code(
        e,
        cx,
        s,
    ));
    let o1 = crate::lower::expr_code(*left, cx, s);
    let o2 = crate::lower::expr_code(*right, cx, o1.sink);
    if op == BinaryOperator::Ne {
        assert(crate::lower::expr_code(e, cx, s).sink == o2.sink.emit(Instr::Call(f)).emit(
            Instr::I32Bits(I32Op::Eqz),
        ));
        let behind = Tree::op(Instr::I32Bits(I32Op::Eqz), Tree::Done);
        let t = Tree::piece(first, Tree::piece(second, Tree::op(Instr::Call(f), behind)));
        crate::execution::lemma_behaves(t, s, cx, seq![first, second], st, env, fuel);
    } else {
        assert(crate::lower::expr_code(e, cx, s).sink == o2.sink.emit(Instr::Call(f)));
        let t = Tree::piece(first, Tree::piece(second, Tree::op(Instr::Call(f), Tree::Done)));
        crate::execution::lemma_behaves(t, s, cx, seq![first, second], st, env, fuel);
    }
}

/// `r` is what a unary operator names on `v`: the number with the other sign,
/// or the other truth value.
pub open spec fn names_unary(op: UnaryOperator, p: PrimitiveType, v: Value, r: Value) -> bool {
    match (op, p, v) {
        (UnaryOperator::Neg, PrimitiveType::I32, Value::I32(x)) => r == Value::I32(
            crate::execution::word(-crate::execution::signed32(x)),
        ),
        (UnaryOperator::Neg, PrimitiveType::I64, Value::I64(x)) => r == Value::I64(
            crate::execution::double_word(-crate::execution::signed64(x)),
        ),
        (UnaryOperator::Neg, PrimitiveType::F32, Value::F32(x)) => r matches Value::F32(y)
            && crate::execution::rank(crate::execution::single(), y as nat)
            == -crate::execution::rank(crate::execution::single(), x as nat) && x != y,
        (UnaryOperator::Neg, PrimitiveType::F64, Value::F64(x)) => r matches Value::F64(y)
            && crate::execution::rank(crate::execution::double(), y as nat)
            == -crate::execution::rank(crate::execution::double(), x as nat) && x != y,
        (UnaryOperator::Not, PrimitiveType::Boolean, Value::I32(x)) => x <= 1 ==> r
            == crate::execution::truth(x != 1),
        _ => false,
    }
}

/// A unary operator leaves what it names on the value of its operand.
pub proof fn law_unary_operators_compute_what_they_name(
    op: UnaryOperator,
    operand: Box<IrExpr>,
    ty: ResolvedType,
    p: PrimitiveType,
    cx: Cx,
    s: SinkView,
    inner: Piece,
    v: Value,
    st: State,
    end: State,
    env: Env,
    fuel: nat,
)
    requires
        operand.spec_ty() == ResolvedType::Primitive(p),
        crate::lower::expr_code(IrExpr::UnaryOp { op, operand, ty }, cx, s).err is None,
        inner.e == *operand,
        inner.into is None,
        has_type(v, p),
        forall|below: State| below.locals == st.locals && below.mem == st.mem && below.heap == st.heap
            ==> #[trigger] (inner.effect)(below) == Outcome::Next(
            (State { stack: below.stack, ..end }).push(v),
        ),
        end.stack == st.stack,
    ensures
        exists|r: Value| #[trigger]
            names_unary(op, p, v, r) && crate::execution::behaves(
                s,
                crate::lower::expr_code(IrExpr::UnaryOp { op, operand, ty }, cx, s).sink,
                cx,
                seq![inner],
                st,
                env,
                fuel,
                Outcome::Next(end.push(r)),
            ),
{
    broadcast use {
        crate::execution::group_exec,
        crate::execution::group_code,
        crate::execution::group_pieces,
    };

    lemma_formats();
    let behind = crate::lower::unary_op::unary_instr(op, p)->0;
    let rest = Tree::piece(inner, Tree::op(behind, Tree::Done));
    let t = match crate::lower::unary_op::unary_prefix(op, p) {
        Some(i) => Tree::op(i, rest),
        None => rest,
    };
    crate::execution::lemma_behaves(t, s, cx, seq![inner], st, env, fuel);
    let r = match v {
        Value::I32(x) => if op == UnaryOperator::Not {
            crate::execution::truth(x == 0)
        } else {
            Value::I32(crate::execution::word(0 - crate::execution::signed32(x)))
        },
        Value::I64(x) => Value::I64(
            crate::execution::double_word(0 - crate::execution::signed64(x)),
        ),
        Value::F32(x) => Value::F32(
            crate::execution::negated(crate::execution::single(), x as nat) as u32,
        ),
        Value::F64(x) => Value::F64(
            crate::execution::negated(crate::execution::double(), x as nat) as u64,
        ),
    };
    assert(names_unary(op, p, v, r));
    let zero = match crate::lower::unary_op::unary_prefix(op, p) {
        Some(i) => crate::execution::step(i, st, env)->0,
        None => st,
    };
    assert((inner.effect)(zero) == Outcome::Next((State { stack: zero.stack, ..end }).push(v)));
    assert(crate::execution::exec(t, st, env, fuel) == Outcome::Next(end.push(r)));
}

/// `v` is the value that a literal of type `p` stands for.
pub open spec fn stands_for(value: Literal, p: PrimitiveType, v: Value) -> bool {
    match (value, p) {
        (Literal::Boolean(b), PrimitiveType::Boolean) => v == crate::execution::truth(b),
        (Literal::Number(n), PrimitiveType::I32) => v matches Value::I32(x) && n.value
            == NumberValue::Integer(crate::execution::signed32(x) as i128),
        (Literal::Number(n), PrimitiveType::I64) => v matches Value::I64(x) && n.value
            == NumberValue::Integer(crate::execution::signed64(x) as i128),
        (Literal::Number(n), PrimitiveType::F32) => v == Value::F32(n.f32_bits),
        (Literal::Number(n), PrimitiveType::F64) => v == Value::F64(n.f64_bits),
        _ => false,
    }
}

/// A literal number or truth value leaves the value that it stands for.
pub proof fn law_literals_leave_their_values(
    value: Literal,
    p: PrimitiveType,
    cx: Cx,
    s: SinkView,
    st: State,
    env: Env,
    fuel: nat,
)
    requires
        value is Number || value is Boolean,
        crate::lower::expr_code(
            IrExpr::Literal { value, ty: ResolvedType::Primitive(p) },
            cx,
            s,
        ).err is None,
    ensures
        exists|v: Value| #[trigger]
            stands_for(value, p, v) && crate::execution::behaves(
                s,
                crate::lower::expr_code(
                    IrExpr::Literal { value, ty: ResolvedType::Primitive(p) },
                    cx,
                    s,
                ).sink,
                cx,
                Seq::empty(),
                st,
                env,
                fuel,
                Outcome::Next(st.push(v)),
            ),
{
    broadcast use {
        crate::execution::group_exec,
        crate::execution::group_code,
        crate::execution::group_pieces,
    };

    let end = crate::lower::expr_code(
        IrExpr::Literal { value, ty: ResolvedType::Primitive(p) },
        cx,
        s,
    ).sink;
    let i = end.code.last();
    let t = Tree::op(i, Tree::Done);
    crate::execution::lemma_behaves(t, s, cx, Seq::empty(), st, env, fuel);
    let v = ((crate::execution::step(i, st, env)->0).pop()->0).0;
    assert(stands_for(value, p, v));
    assert(crate::execution::written(t, s, cx) == end);
}

} // verus!
