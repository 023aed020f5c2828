//! Where the text literals of a module end up.

use vstd::prelude::*;

use crate::ir::{IrExpr, IrFunction, IrImpl, IrModule, Literal};
use crate::string_pool::PoolView;

verus! {

/// The text of a literal. Of a regular expression only the pattern is a
/// text.
pub open spec fn own_text(e: IrExpr) -> Option<Seq<char>> {
    match e {
        IrExpr::Literal { value, .. } => match value {
            Literal::String(text) => Some(text@),
            Literal::Path(text) => Some(text@),
            Literal::Regex { pattern, .. } => Some(pattern@),
            _ => None,
        },
        _ => None,
    }
}

/// Whether `text` stands as a literal in an expression.
pub open spec fn mentions(e: IrExpr, text: Seq<char>) -> bool
    decreases e, crate::module_lowering::walk::children(e).len() + 1,
{
    own_text(e) == Some(text) || children_mention(e, 0, text)
}

/// Whether `text` stands in a sub-expression, from position `i` on.
pub open spec fn children_mention(e: IrExpr, i: int, text: Seq<char>) -> bool
    decreases e, crate::module_lowering::walk::children(e).len() - i,
{
    if i < 0 || i >= crate::module_lowering::walk::children(e).len() {
        false
    } else {
        proof {
            crate::module_lowering::walk::lemma_child_is_smaller(e, i);
        }
        mentions(crate::module_lowering::walk::children(e)[i], text) || children_mention(
            e,
            i + 1,
            text,
        )
    }
}

/// Whether `text` stands in the body of a function.
pub open spec fn body_mentions(f: IrFunction, text: Seq<char>) -> bool {
    match f.body {
        Some(e) => mentions(e, text),
        None => false,
    }
}

/// Whether `text` is recorded.
pub open spec fn has(pool: PoolView, text: Seq<char>) -> bool {
    crate::string_pool::offset_of(pool.offsets, text) is Some
}

/// A pool grew: its headers still describe their texts, and no recorded text
/// moved.
pub open spec fn extends(before: PoolView, after: PoolView) -> bool {
    &&& before.well_formed() ==> after.well_formed()
    &&& forall|text: Seq<char>|
        #![trigger crate::string_pool::offset_of(after.offsets, text)]
        has(before, text) ==> crate::string_pool::offset_of(after.offsets, text)
            == crate::string_pool::offset_of(before.offsets, text)
}

proof fn lemma_text(pool: PoolView, text: Seq<char>)
    ensures
        crate::module_lowering::walk::with_text(pool, text) matches Ok(p) ==> extends(pool, p)
            && has(p, text),
{
    if let Some((p, _)) = pool.interned(text) {
        if pool.well_formed() {
            crate::string_pool::law_interning_keeps_headers(pool, text);
        }
        assert forall|other: Seq<char>|
            #![trigger crate::string_pool::offset_of(p.offsets, other)]
            has(pool, other) implies crate::string_pool::offset_of(p.offsets, other)
            == crate::string_pool::offset_of(pool.offsets, other) by {
            crate::string_pool::law_interning_keeps_offsets(pool, text, other);
        }
    }
}

proof fn lemma_expr_texts(e: IrExpr, pool: PoolView, text: Seq<char>)
    ensures
        crate::module_lowering::walk::expr_texts(e, pool) matches Ok(p) ==> extends(pool, p) && (
        mentions(e, text) ==> has(p, text)),
    decreases e, crate::module_lowering::walk::children(e).len() + 1,
{
    if let Some(t) = own_text(e) {
        lemma_text(pool, t);
    }
    if let Ok(p) = crate::module_lowering::walk::with_literal(pool, e) {
        lemma_children_texts(e, 0, p, text);
        if let Ok(q) = crate::module_lowering::walk::expr_texts(e, pool) {
            assert(crate::module_lowering::walk::children_texts(e, 0, p) == Ok::<
                PoolView,
                crate::module_lowering::error::ModuleLowerError,
            >(q));
            if own_text(e) == Some(text) {
                assert(has(p, text));
                assert(has(q, text));
            }
            lemma_extends(pool, p, q);
        }
    }
}

proof fn lemma_extends(a: PoolView, b: PoolView, c: PoolView)
    requires
        extends(a, b),
        extends(b, c),
    ensures
        extends(a, c),
{
    assert forall|text: Seq<char>|
        #![trigger crate::string_pool::offset_of(c.offsets, text)]
        has(a, text) implies crate::string_pool::offset_of(c.offsets, text)
        == crate::string_pool::offset_of(a.offsets, text) by {
        assert(has(b, text));
    }
}

proof fn lemma_children_texts(e: IrExpr, i: int, pool: PoolView, text: Seq<char>)
    ensures
        crate::module_lowering::walk::children_texts(e, i, pool) matches Ok(p) ==> extends(pool, p)
            && (children_mention(e, i, text) ==> has(p, text)),
    decreases e, crate::module_lowering::walk::children(e).len() - i,
{
    let children = crate::module_lowering::walk::children(e);
    if 0 <= i < children.len() {
        crate::module_lowering::walk::lemma_child_is_smaller(e, i);
        lemma_expr_texts(children[i], pool, text);
        if let Ok(p) = crate::module_lowering::walk::expr_texts(children[i], pool) {
            lemma_children_texts(e, i + 1, p, text);
            if let Ok(q) = crate::module_lowering::walk::children_texts(e, i + 1, p) {
                lemma_extends(pool, p, q);
                if has(p, text) {
                    assert(has(q, text));
                }
                assert(children_mention(e, i, text) ==> mentions(children[i], text)
                    || children_mention(e, i + 1, text));
            }
        }
    }
}

proof fn lemma_functions_texts(fs: Seq<IrFunction>, i: int, pool: PoolView, k: int, text: Seq<char>)
    requires
        0 <= i,
    ensures
        crate::module_lowering::walk::functions_texts(fs, i, pool) matches Ok(p) ==> extends(
            pool,
            p,
        ) && (i <= k < fs.len() && body_mentions(fs[k], text) ==> has(p, text)),
    decreases fs.len() - i,
{
    if i < fs.len() {
        let first = match fs[i].body {
            Some(e) => {
                lemma_expr_texts(e, pool, text);
                crate::module_lowering::walk::expr_texts(e, pool)
            },
            None => Ok(pool),
        };
        if let Ok(p) = first {
            lemma_functions_texts(fs, i + 1, p, k, text);
            if let Ok(q) = crate::module_lowering::walk::functions_texts(fs, i + 1, p) {
                lemma_extends(pool, p, q);
                if has(p, text) {
                    assert(has(q, text));
                }
            }
        }
    }
}

proof fn lemma_impls_texts(
    impls: Seq<IrImpl>,
    i: int,
    pool: PoolView,
    k: int,
    j: int,
    text: Seq<char>,
)
    requires
        0 <= i,
    ensures
        crate::module_lowering::walk::impls_texts(impls, i, pool) matches Ok(p) ==> extends(
            pool,
            p,
        ) && (i <= k < impls.len() && !impls[k].is_extern && 0 <= j < impls[k].functions@.len()
            && body_mentions(impls[k].functions@[j], text) ==> has(p, text)),
    decreases impls.len() - i,
{
    if i < impls.len() {
        if impls[i].is_extern {
            lemma_impls_texts(impls, i + 1, pool, k, j, text);
        } else {
            lemma_functions_texts(impls[i].functions@, 0, pool, j, text);
            if let Ok(p) = crate::module_lowering::walk::functions_texts(
                impls[i].functions@,
                0,
                pool,
            ) {
                lemma_impls_texts(impls, i + 1, p, k, j, text);
                if let Ok(q) = crate::module_lowering::walk::impls_texts(impls, i + 1, p) {
                    lemma_extends(pool, p, q);
                    if has(p, text) {
                        assert(has(q, text));
                    }
                }
            }
        }
    }
}

/// Whether `text` stands in the body of a function or method that a module
/// defines.
pub open spec fn module_mentions(m: IrModule, text: Seq<char>) -> bool {
    ||| exists|k: int|
        0 <= k < m.functions@.len() && body_mentions(#[trigger] m.functions@[k], text)
    ||| exists|k: int, j: int|
        0 <= k < m.impls@.len() && !m.impls@[k].is_extern && 0 <= j < m.impls@[k].functions@.len()
            && body_mentions(#[trigger] m.impls@[k].functions@[j], text)
}

proof fn lemma_module_texts(m: IrModule, text: Seq<char>)
    requires
        crate::module_lowering::walk::module_texts(m, PoolView::empty()) is Ok,
    ensures
        ({
            let pool = crate::module_lowering::walk::module_texts(m, PoolView::empty())->Ok_0;
            &&& pool.well_formed()
            &&& module_mentions(m, text) ==> has(pool, text)
        }),
{
    let empty = PoolView::empty();
    let functions = crate::module_lowering::walk::functions_texts(m.functions@, 0, empty)->Ok_0;
    let pool = crate::module_lowering::walk::module_texts(m, empty)->Ok_0;
    lemma_functions_texts(m.functions@, 0, empty, 0, text);
    lemma_impls_texts(m.impls@, 0, functions, 0, 0, text);
    if module_mentions(m, text) {
        if exists|k: int|
            0 <= k < m.functions@.len() && body_mentions(#[trigger] m.functions@[k], text) {
            let k = choose|k: int|
                0 <= k < m.functions@.len() && body_mentions(#[trigger] m.functions@[k], text);
            lemma_functions_texts(m.functions@, 0, empty, k, text);
        } else {
            let (k, j) = choose|k: int, j: int|
                0 <= k < m.impls@.len() && !m.impls@[k].is_extern && 0 <= j
                    < m.impls@[k].functions@.len() && body_mentions(
                    #[trigger] m.impls@[k].functions@[j],
                    text,
                );
            lemma_impls_texts(m.impls@, 0, functions, k, j, text);
        }
    }
}

proof fn lemma_texts_lead(m: IrModule)
    requires
        crate::module_lowering::lowered(m) is Ok,
    ensures
        ({
            let pool = crate::module_lowering::walk::module_texts(m, PoolView::empty())->Ok_0;
            let data = (crate::module_lowering::lowered(m)->Ok_0).static_data;
            &&& crate::module_lowering::walk::module_texts(m, PoolView::empty()) is Ok
            &&& crate::module_lowering::placement::context(m).string_pool == Some(pool.offsets)
            &&& pool.data.is_prefix_of(data)
        }),
{
    let pool = crate::module_lowering::walk::module_texts(m, PoolView::empty())->Ok_0;
    let data = (crate::module_lowering::lowered(m)->Ok_0).static_data;
    assert(data.subrange(0, pool.data.len() as int) =~= pool.data);
}

/// Every text literal in the body of a function or method that a module
/// defines has a header in the static data of its core module, and the header
/// describes the bytes of the text.
pub proof fn law_text_literals_are_in_the_static_data(m: IrModule, text: Seq<char>)
    requires
        crate::module_lowering::lowered(m) is Ok,
        module_mentions(m, text),
    ensures
        crate::module_lowering::placement::context(m).string_pool matches Some(pool)
            && crate::string_pool::offset_of(pool, text) matches Some(at)
            && crate::string_pool::header_describes(
            (crate::module_lowering::lowered(m)->Ok_0).static_data,
            at,
            vstd::utf8::encode_utf8(text),
        ),
{
    lemma_texts_lead(m);
    lemma_module_texts(m, text);
    let pool = crate::module_lowering::walk::module_texts(m, PoolView::empty())->Ok_0;
    crate::string_pool::lemma_offset_is_recorded(pool.offsets, text);
    crate::string_pool::lemma_header_survives(
        pool.data,
        (crate::module_lowering::lowered(m)->Ok_0).static_data,
        crate::string_pool::offset_of(pool.offsets, text)->0,
        vstd::utf8::encode_utf8(text),
    );
}

} // verus!
