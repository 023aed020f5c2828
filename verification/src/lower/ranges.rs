//! How long the list is that a loop over a range builds.

use vstd::prelude::*;

use crate::instr::{Instr, IntOp};
use crate::lower::context::SinkView;
use crate::lower::control::ForLocals;
use crate::machine::{Code, Outcome, Routine, State};

verus! {

/// The structure of the code that finds the length of a range.
pub open spec fn range_len_steps(l: ForLocals) -> Code {
    Code::op4(
        Instr::LocalGet(l.second),
        Instr::LocalGet(l.first),
        Instr::I32(IntOp::Sub),
        Instr::LocalTee(l.len),
        Code::op4(
            Instr::LocalGet(l.len),
            Instr::I32Const(0),
            Instr::I32(IntOp::GtS),
            Instr::I32(IntOp::Mul),
            Code::op4(
                Instr::LocalGet(l.second),
                Instr::LocalGet(l.first),
                Instr::I32(IntOp::GtS),
                Instr::I32(IntOp::Mul),
                Code::op(Instr::LocalSet(l.len), Code::Done),
            ),
        ),
    )
}

/// How many entries the list of a range has: the distance of the bounds, and
/// none where the end is not behind the start or a signed 32-bit number does
/// not hold the distance.
pub open spec fn range_len(start: int, end: int) -> int {
    if 0 < end - start <= i32::MAX {
        end - start
    } else {
        0
    }
}

/// The length that the code finds in local arithmetic.
proof fn lemma_range_len(a: u32, b: u32)
    ensures
        ({
            let d = crate::machine::wrap(b - a);
            let x = crate::machine::wrap(
                d * crate::machine::flag(crate::machine::signed(d) > crate::machine::signed(0)),
            );
            crate::machine::wrap(
                x * crate::machine::flag(crate::machine::signed(b) > crate::machine::signed(a)),
            ) == range_len(crate::machine::signed(a), crate::machine::signed(b))
        }),
{
    let d = crate::machine::wrap(b - a);
    assert(d == if b >= a {
        b - a
    } else {
        b - a + 0x1_0000_0000
    });
    assert(d * 1 == d);
    assert(d * 0 == 0);
}

/// A loop over a range sets its length to the number of entries, whatever the
/// bounds are: it is never negative.
pub proof fn law_a_range_is_as_long_as_it_counts(
    l: ForLocals,
    s: SinkView,
    fs: Map<u32, Routine>,
    st: State,
    fuel: nat,
)
    requires
        l.first < st.locals.len(),
        l.second < st.locals.len(),
        l.len < st.locals.len(),
        l.first != l.len,
        l.second != l.len,
    ensures
        crate::machine::written(range_len_steps(l), s) == crate::lower::control::range_len_code(
            l,
            s,
        ),
        crate::machine::exec(fs, range_len_steps(l), st, fuel) == Outcome::Next(
            st.with_local(
                l.len,
                range_len(
                    crate::machine::signed(st.locals[l.first as int]),
                    crate::machine::signed(st.locals[l.second as int]),
                ) as u32,
            ),
        ),
{
    broadcast use {crate::machine::group_written, crate::machine::group_steps};

    let a = st.locals[l.first as int];
    let b = st.locals[l.second as int];
    lemma_range_len(a, b);
    let end = crate::machine::exec(fs, range_len_steps(l), st, fuel);
    assert(end is Next);
    assert(end->Next_0.locals =~= st.with_local(
        l.len,
        range_len(crate::machine::signed(a), crate::machine::signed(b)) as u32,
    ).locals);
}

} // verus!
