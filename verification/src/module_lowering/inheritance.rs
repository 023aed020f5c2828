//! Which methods a trait has: its own and those of every trait it inherits
//! from.

use vstd::prelude::*;

use crate::ir::{IrFunctionSig, IrModule, TraitId};
use crate::module_lowering::error::ModuleLowerError;
use crate::module_lowering::vtables::Owned;

verus! {

/// Trait `a` is declared as composed of trait `b`.
pub open spec fn composes(a: TraitId, b: TraitId, m: IrModule) -> bool {
    a.0 < m.traits@.len() && m.traits@[a.0 as int].composed_traits@.contains(b)
}

/// Trait `b` is `n` steps of composition away from trait `a`.
pub open spec fn reached(a: TraitId, b: TraitId, m: IrModule, n: nat) -> bool
    decreases n,
{
    if n == 0 {
        a == b
    } else {
        exists|x: TraitId| #[trigger] composes(x, b, m) && reached(a, x, m, (n - 1) as nat)
    }
}

/// Trait `a` is trait `b` or inherits from it.
pub open spec fn inherits(a: TraitId, b: TraitId, m: IrModule) -> bool {
    exists|n: nat| reached(a, b, m, n)
}

/// A method called `name` is listed.
pub open spec fn has_name(out: Seq<Owned>, name: Seq<char>) -> bool {
    exists|i: int| 0 <= i < out.len() && (#[trigger] out[i]).1.name@ == name
}

/// Every method of trait `id` is listed by its name.
pub open spec fn covers(out: Seq<Owned>, id: TraitId, m: IrModule) -> bool {
    forall|k: int|
        0 <= k < m.traits@[id.0 as int].methods@.len() ==> has_name(
            out,
            (#[trigger] m.traits@[id.0 as int].methods@[k]).name@,
        )
}

/// Every listed method is declared by the trait it is listed with, and `root`
/// inherits from that trait.
pub open spec fn are_inherited(out: Seq<Owned>, root: TraitId, m: IrModule) -> bool {
    forall|i: int|
        0 <= i < out.len() ==> {
            &&& inherits(root, (#[trigger] out[i]).0, m)
            &&& out[i].0.0 < m.traits@.len()
            &&& m.traits@[out[i].0.0 as int].methods@.contains(out[i].1)
        }
}

/// No two listed methods have one name.
pub open spec fn have_own_names(out: Seq<Owned>) -> bool {
    forall|i: int, j: int|
        0 <= i < j < out.len() ==> (#[trigger] out[i]).1.name@ != (#[trigger] out[j]).1.name@
}

/// The methods of a trait are exactly those that it declares and inherits:
/// each is declared by a trait it inherits from, the name of every declared
/// or inherited method is listed once, and its own methods come first.
/// Finding them fails exactly where it inherits from a trait that the module
/// does not hold.
pub proof fn law_a_trait_has_what_it_inherits(id: TraitId, m: IrModule)
    ensures
        match crate::module_lowering::vtables::trait_methods(id, m) {
            Ok(s) => {
                &&& are_inherited(s, id, m)
                &&& have_own_names(s)
                &&& forall|t: TraitId| #[trigger]
                    inherits(id, t, m) ==> t.0 < m.traits@.len() && covers(s, t, m)
                &&& crate::module_lowering::vtables::with_methods(
                    m.traits@[id.0 as int].methods@,
                    0,
                    id,
                    Seq::empty(),
                ).is_prefix_of(s)
            },
            Err(x) => {
                &&& x matches ModuleLowerError::UnknownTrait(t)
                &&& inherits(id, t, m)
                &&& t.0 >= m.traits@.len()
            },
        },
{
    let none = crate::module_lowering::vtables::none_visited(m);
    let queue = seq![id];
    assert(reached(id, id, m, 0));
    assert(queue[0] == id);
    lemma_gathered(queue, none, Seq::empty(), id, m);
    if id.0 < m.traits@.len() {
        let t = m.traits@[id.0 as int];
        let own = crate::module_lowering::vtables::with_methods(t.methods@, 0, id, Seq::empty());
        let rest = queue.drop_first() + t.composed_traits@;
        let marked = none.update(id.0 as int, true);
        lemma_step(queue, none, Seq::empty(), id, m);
        crate::module_lowering::vtables::lemma_set_one(none, id.0 as int, none.len());
        lemma_gathered(rest, marked, own, id, m);
        assert(crate::module_lowering::vtables::trait_methods(id, m)
            == crate::module_lowering::vtables::gathered(rest, marked, own, m));
    }
}

/// The trait has been visited.
spec fn is_marked(visited: Seq<bool>, id: TraitId) -> bool {
    id.0 < visited.len() && visited[id.0 as int]
}

/// What holds before each step of the walk.
spec fn is_walking(
    queue: Seq<TraitId>,
    visited: Seq<bool>,
    out: Seq<Owned>,
    root: TraitId,
    m: IrModule,
) -> bool {
    &&& visited.len() == m.traits@.len()
    &&& forall|i: int| 0 <= i < queue.len() ==> inherits(root, #[trigger] queue[i], m)
    &&& forall|x: TraitId| #[trigger] is_marked(visited, x) ==> covers(out, x, m)
    &&& forall|x: TraitId, y: TraitId|
        is_marked(visited, x) && #[trigger] composes(x, y, m) ==> is_marked(visited, y)
            || queue.contains(y)
    &&& is_marked(visited, root) || queue.contains(root)
    &&& are_inherited(out, root, m)
    &&& have_own_names(out)
}

proof fn lemma_inherits_on(a: TraitId, x: TraitId, b: TraitId, m: IrModule)
    requires
        inherits(a, x, m),
        composes(x, b, m),
    ensures
        inherits(a, b, m),
{
    let n = choose|n: nat| reached(a, x, m, n);
    assert(composes(x, b, m) && reached(a, x, m, ((n + 1) - 1) as nat));
    assert(reached(a, b, m, n + 1));
}

proof fn lemma_lists(out: Seq<Owned>, name: Seq<char>, from: int)
    requires
        0 <= from,
    ensures
        crate::module_lowering::vtables::lists(out, name, from) == (exists|i: int|
            from <= i < out.len() && (#[trigger] out[i]).1.name@ == name),
    decreases out.len() - from,
{
    if from < out.len() {
        lemma_lists(out, name, from + 1);
    }
}

/// Listing a trait's methods keeps what is listed, adds only methods of the
/// trait, and leaves none of their names out.
proof fn lemma_methods(sigs: Seq<IrFunctionSig>, i: int, id: TraitId, out: Seq<Owned>)
    requires
        0 <= i,
        have_own_names(out),
    ensures
        ({
            let r = crate::module_lowering::vtables::with_methods(sigs, i, id, out);
            &&& out.is_prefix_of(r)
            &&& have_own_names(r)
            &&& forall|k: int| i <= k < sigs.len() ==> has_name(r, (#[trigger] sigs[k]).name@)
            &&& forall|k: int|
                out.len() <= k < r.len() ==> (#[trigger] r[k]).0 == id && sigs.contains(r[k].1)
        }),
    decreases sigs.len() - i,
{
    if i < sigs.len() {
        let name = sigs[i].name@;
        lemma_lists(out, name, 0);
        let next = if crate::module_lowering::vtables::lists(out, name, 0) {
            out
        } else {
            out.push((id, sigs[i]))
        };
        assert(out.is_prefix_of(next));
        assert(have_own_names(next));
        lemma_methods(sigs, i + 1, id, next);
        let r = crate::module_lowering::vtables::with_methods(sigs, i, id, out);
        assert forall|k: int| 0 <= k < out.len() implies r[k] == out[k] by {
            assert(next[k] == out[k]);
            assert(r.subrange(0, next.len() as int)[k] == next[k]);
        }
        assert(out.is_prefix_of(r));
        assert(has_name(next, name)) by {
            if !crate::module_lowering::vtables::lists(out, name, 0) {
                assert(next[out.len() as int].1.name@ == name);
            }
        }
        lemma_named_on(next, r, name);
        assert forall|k: int| out.len() <= k < r.len() implies (#[trigger] r[k]).0 == id
            && sigs.contains(r[k].1) by {
            if k < next.len() {
                assert(r.subrange(0, next.len() as int)[k] == next[k]);
                assert(next[k] == (id, sigs[i]));
            }
        }
    }
}

proof fn lemma_named_on(out: Seq<Owned>, r: Seq<Owned>, name: Seq<char>)
    requires
        out.is_prefix_of(r),
        has_name(out, name),
    ensures
        has_name(r, name),
{
    let i = choose|i: int| 0 <= i < out.len() && (#[trigger] out[i]).1.name@ == name;
    assert(r.subrange(0, out.len() as int)[i] == out[i]);
    assert(r[i].1.name@ == name);
}

/// One step of the walk: the trait at the head of the queue.
proof fn lemma_step(
    queue: Seq<TraitId>,
    visited: Seq<bool>,
    out: Seq<Owned>,
    root: TraitId,
    m: IrModule,
)
    requires
        is_walking(queue, visited, out, root, m),
        queue.len() > 0,
        queue[0].0 < m.traits@.len(),
    ensures
        ({
            let id = queue[0];
            let t = m.traits@[id.0 as int];
            let r = crate::module_lowering::vtables::with_methods(t.methods@, 0, id, out);
            if is_marked(visited, id) {
                is_walking(queue.drop_first(), visited, out, root, m)
            } else {
                &&& is_walking(
                    queue.drop_first() + t.composed_traits@,
                    visited.update(id.0 as int, true),
                    r,
                    root,
                    m,
                )
                &&& out.is_prefix_of(r)
            }
        }),
{
    let id = queue[0];
    let t = m.traits@[id.0 as int];
    let rest = queue.drop_first();
    assert forall|y: TraitId| queue.contains(y) implies y == id || rest.contains(y) by {
        let i = choose|i: int| 0 <= i < queue.len() && queue[i] == y;
        if i > 0 {
            assert(rest[i - 1] == y);
        }
    }
    assert forall|i: int| 0 <= i < rest.len() implies inherits(root, #[trigger] rest[i], m) by {
        assert(rest[i] == queue[i + 1]);
    }
    if !is_marked(visited, id) {
        let r = crate::module_lowering::vtables::with_methods(t.methods@, 0, id, out);
        let more = rest + t.composed_traits@;
        let marked = visited.update(id.0 as int, true);
        lemma_methods(t.methods@, 0, id, out);
        assert(inherits(root, id, m));
        assert forall|i: int| 0 <= i < more.len() implies inherits(root, #[trigger] more[i], m) by {
            if i >= rest.len() {
                let y = more[i];
                assert(y == t.composed_traits@[i - rest.len()]);
                assert(composes(id, y, m));
                lemma_inherits_on(root, id, y, m);
            } else {
                assert(more[i] == rest[i]);
            }
        }
        assert forall|x: TraitId| #[trigger] is_marked(marked, x) implies covers(r, x, m) by {
            if x != id {
                assert(x.0 != id.0);
                assert(is_marked(visited, x));
                assert(covers(out, x, m));
                assert forall|k: int| 0 <= k < m.traits@[x.0 as int].methods@.len() implies has_name(
                    r,
                    (#[trigger] m.traits@[x.0 as int].methods@[k]).name@,
                ) by {
                    lemma_named_on(out, r, m.traits@[x.0 as int].methods@[k].name@);
                }
            }
        }
        assert forall|y: TraitId| rest.contains(y) implies more.contains(y) by {
            let i = choose|i: int| 0 <= i < rest.len() && rest[i] == y;
            assert(more[i] == y);
        }
        assert forall|x: TraitId, y: TraitId|
            is_marked(marked, x) && #[trigger] composes(x, y, m) implies is_marked(marked, y)
            || more.contains(y) by {
            if x.0 == id.0 {
                let k = choose|k: int|
                    0 <= k < t.composed_traits@.len() && t.composed_traits@[k] == y;
                assert(more[rest.len() + k] == y);
            } else {
                assert(is_marked(visited, x));
                assert(is_marked(visited, y) || queue.contains(y));
                assert(is_marked(visited, y) ==> is_marked(marked, y));
                assert(is_marked(marked, id));
            }
        }
        assert(is_marked(marked, id));
        assert(is_marked(marked, root) || more.contains(root)) by {
            if is_marked(visited, root) {
                assert(is_marked(marked, root));
            }
        }
        assert forall|i: int| 0 <= i < r.len() implies {
            &&& inherits(root, (#[trigger] r[i]).0, m)
            &&& r[i].0.0 < m.traits@.len()
            &&& m.traits@[r[i].0.0 as int].methods@.contains(r[i].1)
        } by {
            if i < out.len() {
                assert(r.subrange(0, out.len() as int)[i] == out[i]);
            }
        }
    }
}

/// Where the walk has ended, every trait that `root` inherits from has been
/// visited.
proof fn lemma_all_marked(
    visited: Seq<bool>,
    out: Seq<Owned>,
    root: TraitId,
    x: TraitId,
    m: IrModule,
    n: nat,
)
    requires
        is_walking(Seq::empty(), visited, out, root, m),
        reached(root, x, m, n),
    ensures
        is_marked(visited, x),
    decreases n,
{
    if n > 0 {
        let y = choose|y: TraitId| #[trigger]
            composes(y, x, m) && reached(root, y, m, (n - 1) as nat);
        lemma_all_marked(visited, out, root, y, m, (n - 1) as nat);
    }
}

proof fn lemma_gathered(
    queue: Seq<TraitId>,
    visited: Seq<bool>,
    out: Seq<Owned>,
    root: TraitId,
    m: IrModule,
)
    requires
        is_walking(queue, visited, out, root, m),
    ensures
        match crate::module_lowering::vtables::gathered(queue, visited, out, m) {
            Ok(s) => {
                &&& are_inherited(s, root, m)
                &&& have_own_names(s)
                &&& forall|t: TraitId| #[trigger]
                    inherits(root, t, m) ==> t.0 < m.traits@.len() && covers(s, t, m)
                &&& out.is_prefix_of(s)
            },
            Err(x) => {
                &&& x matches ModuleLowerError::UnknownTrait(t)
                &&& inherits(root, t, m)
                &&& t.0 >= m.traits@.len()
            },
        },
    decreases
            crate::module_lowering::vtables::unset(visited, visited.len()),
            queue.len(),
{
    if queue.len() == 0 {
        assert(queue =~= Seq::empty());
        assert forall|t: TraitId| #[trigger] inherits(root, t, m) implies t.0 < m.traits@.len()
            && covers(out, t, m) by {
            let n = choose|n: nat| reached(root, t, m, n);
            lemma_all_marked(visited, out, root, t, m, n);
        }
    } else {
        let id = queue[0];
        assert(inherits(root, id, m));
        if id.0 < m.traits@.len() {
            lemma_step(queue, visited, out, root, m);
            let rest = queue.drop_first();
            if is_marked(visited, id) {
                lemma_gathered(rest, visited, out, root, m);
            } else {
                let t = m.traits@[id.0 as int];
                let r = crate::module_lowering::vtables::with_methods(t.methods@, 0, id, out);
                let marked = visited.update(id.0 as int, true);
                crate::module_lowering::vtables::lemma_set_one(
                    visited,
                    id.0 as int,
                    visited.len(),
                );
                lemma_gathered(rest + t.composed_traits@, marked, r, root, m);
                if let Ok(s) = crate::module_lowering::vtables::gathered(queue, visited, out, m) {
                    assert forall|k: int| 0 <= k < out.len() implies s[k] == out[k] by {
                        assert(r.subrange(0, out.len() as int)[k] == out[k]);
                        assert(s.subrange(0, r.len() as int)[k] == r[k]);
                    }
                    assert(out.is_prefix_of(s));
                }
            }
        }
    }
}

} // verus!
