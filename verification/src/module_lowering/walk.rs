//! Walks over all expressions of a module.

use vstd::prelude::*;

use crate::ir::{IrBlockStatement, IrExpr, IrFunction, IrImpl, IrModule, Literal};
use crate::module_lowering::error::ModuleLowerError;
use crate::string_pool::{PoolView, StringPool, StringPoolError};

verus! {

/// The values of a statement.
pub open spec fn statement_values(st: IrBlockStatement) -> Seq<IrExpr> {
    match st {
        IrBlockStatement::Let { value, .. } => seq![value],
        IrBlockStatement::Assign { target, value } => seq![target, value],
        IrBlockStatement::Expr(e) => seq![e],
    }
}

/// The values of the first `k` statements.
pub open spec fn statements_values(statements: Seq<IrBlockStatement>, k: nat) -> Seq<IrExpr>
    decreases k,
{
    if k == 0 {
        Seq::empty()
    } else {
        statements_values(statements, (k - 1) as nat) + statement_values(statements[k - 1])
    }
}

/// Keys and values of the first `k` entries.
pub open spec fn entry_values(entries: Seq<(IrExpr, IrExpr)>, k: nat) -> Seq<IrExpr>
    decreases k,
{
    if k == 0 {
        Seq::empty()
    } else {
        entry_values(entries, (k - 1) as nat).push(entries[k - 1].0).push(entries[k - 1].1)
    }
}

/// The values of call arguments.
pub open spec fn arg_values(args: Seq<(Option<String>, IrExpr)>) -> Seq<IrExpr> {
    Seq::new(args.len(), |i: int| args[i].1)
}

/// The direct sub-expressions, in order of evaluation.
pub open spec fn children(e: IrExpr) -> Seq<IrExpr> {
    match e {
        IrExpr::Literal { .. } => Seq::empty(),
        IrExpr::Reference { .. } => Seq::empty(),
        IrExpr::SelfFieldRef { .. } => Seq::empty(),
        IrExpr::LetRef { .. } => Seq::empty(),
        IrExpr::Closure { body, .. } => seq![*body],
        IrExpr::StructInst { fields, .. } => Seq::new(fields@.len(), |i: int| fields@[i].2),
        IrExpr::EnumInst { fields, .. } => Seq::new(fields@.len(), |i: int| fields@[i].2),
        IrExpr::Tuple { fields, .. } => Seq::new(fields@.len(), |i: int| fields@[i].1),
        IrExpr::Array { elements, .. } => elements@,
        IrExpr::FieldAccess { object, .. } => seq![*object],
        IrExpr::BinaryOp { left, right, .. } => seq![*left, *right],
        IrExpr::UnaryOp { operand, .. } => seq![*operand],
        IrExpr::If { condition, then_branch, else_branch, .. } => match else_branch {
            Some(other) => seq![*condition, *then_branch, *other],
            None => seq![*condition, *then_branch],
        },
        IrExpr::For { collection, body, .. } => seq![*collection, *body],
        IrExpr::Match { scrutinee, arms, .. } => seq![*scrutinee] + Seq::new(
            arms@.len(),
            |i: int| arms@[i].body,
        ),
        IrExpr::FunctionCall { args, .. } => arg_values(args@),
        IrExpr::CallClosure { closure, args, .. } => seq![*closure] + arg_values(args@),
        IrExpr::MethodCall { receiver, args, .. } => seq![*receiver] + arg_values(args@),
        IrExpr::ClosureRef { env_struct, .. } => seq![*env_struct],
        IrExpr::DictLiteral { entries, .. } => entry_values(entries@, entries@.len()),
        IrExpr::DictAccess { dict, key, .. } => seq![*dict, *key],
        IrExpr::Block { statements, result, .. } => statements_values(
            statements@,
            statements@.len(),
        ).push(*result),
    }
}

proof fn lemma_statement_value_is_smaller(statements: Seq<IrBlockStatement>, k: nat, i: int)
    requires
        k <= statements.len(),
        0 <= i < statements_values(statements, k).len(),
    ensures
        decreases_to!(statements => statements_values(statements, k)[i]),
    decreases k,
{
    let before = statements_values(statements, (k - 1) as nat);
    if i < before.len() {
        lemma_statement_value_is_smaller(statements, (k - 1) as nat, i);
    } else {
        let st = statements[k - 1];
        let x = statement_values(st)[i - before.len()];
        assert(decreases_to!(statements => st));
        match st {
            IrBlockStatement::Let { value, .. } => {
                assert(decreases_to!(st => value));
            },
            IrBlockStatement::Assign { target, value } => {
                assert(decreases_to!(st => target));
                assert(decreases_to!(st => value));
            },
            IrBlockStatement::Expr(e) => {
                assert(decreases_to!(st => e));
            },
        }
        assert(statements_values(statements, k)[i] == x);
    }
}

proof fn lemma_entry_value_is_smaller(entries: Seq<(IrExpr, IrExpr)>, k: nat, i: int)
    requires
        k <= entries.len(),
        0 <= i < entry_values(entries, k).len(),
    ensures
        decreases_to!(entries => entry_values(entries, k)[i]),
    decreases k,
{
    let before = entry_values(entries, (k - 1) as nat);
    if i < before.len() {
        lemma_entry_value_is_smaller(entries, (k - 1) as nat, i);
    } else {
        let pair = entries[k - 1];
        assert(decreases_to!(entries => pair));
        assert(decreases_to!(pair => pair.0));
        assert(decreases_to!(pair => pair.1));
    }
}

/// A sub-expression is smaller than the expression.
pub proof fn lemma_child_is_smaller(e: IrExpr, i: int)
    requires
        0 <= i < children(e).len(),
    ensures
        decreases_to!(e => children(e)[i]),
{
    let child = children(e)[i];
    match e {
        IrExpr::StructInst { fields, .. } => {
            assert(decreases_to!(e => fields@[i].2));
        },
        IrExpr::EnumInst { fields, .. } => {
            assert(decreases_to!(e => fields@[i].2));
        },
        IrExpr::Tuple { fields, .. } => {
            assert(decreases_to!(e => fields@[i].1));
        },
        IrExpr::Array { elements, .. } => {
            assert(decreases_to!(e => elements@[i]));
        },
        IrExpr::Match { scrutinee, arms, .. } => {
            if i > 0 {
                assert(child == arms@[i - 1].body);
                assert(decreases_to!(e => arms@[i - 1].body));
            } else {
                assert(decreases_to!(e => *scrutinee));
            }
        },
        IrExpr::FunctionCall { args, .. } => {
            assert(decreases_to!(e => args@[i].1));
        },
        IrExpr::CallClosure { closure, args, .. } => {
            if i > 0 {
                assert(child == args@[i - 1].1);
                assert(decreases_to!(e => args@[i - 1].1));
            } else {
                assert(decreases_to!(e => *closure));
            }
        },
        IrExpr::MethodCall { receiver, args, .. } => {
            if i > 0 {
                assert(child == args@[i - 1].1);
                assert(decreases_to!(e => args@[i - 1].1));
            } else {
                assert(decreases_to!(e => *receiver));
            }
        },
        IrExpr::DictLiteral { entries, .. } => {
            lemma_entry_value_is_smaller(entries@, entries@.len(), i);
            assert(decreases_to!(e => entries@));
        },
        IrExpr::Block { statements, result, .. } => {
            if i < children(e).len() - 1 {
                lemma_statement_value_is_smaller(statements@, statements@.len(), i);
                assert(decreases_to!(e => statements@));
            } else {
                assert(decreases_to!(e => *result));
            }
        },
        IrExpr::Closure { body, .. } => {
            assert(decreases_to!(e => *body));
        },
        IrExpr::FieldAccess { object, .. } => {
            assert(decreases_to!(e => *object));
        },
        IrExpr::BinaryOp { left, right, .. } => {
            assert(decreases_to!(e => *left));
            assert(decreases_to!(e => *right));
        },
        IrExpr::UnaryOp { operand, .. } => {
            assert(decreases_to!(e => *operand));
        },
        IrExpr::If { condition, then_branch, else_branch, .. } => {
            assert(decreases_to!(e => *condition));
            assert(decreases_to!(e => *then_branch));
            if let Some(other) = else_branch {
                assert(decreases_to!(e => *other));
            }
        },
        IrExpr::For { collection, body, .. } => {
            assert(decreases_to!(e => *collection));
            assert(decreases_to!(e => *body));
        },
        IrExpr::ClosureRef { env_struct, .. } => {
            assert(decreases_to!(e => *env_struct));
        },
        IrExpr::DictAccess { dict, key, .. } => {
            assert(decreases_to!(e => *dict));
            assert(decreases_to!(e => *key));
        },
        _ => {},
    }
}

/// `refs` refers to the expressions of `s`.
pub open spec fn refers(refs: Seq<&IrExpr>, s: Seq<IrExpr>) -> bool {
    &&& refs.len() == s.len()
    &&& forall|i: int| 0 <= i < s.len() ==> *(#[trigger] refs[i]) == s[i]
}

/// The direct sub-expressions.
pub fn children_of<'a>(e: &'a IrExpr) -> (r: Vec<&'a IrExpr>)
    ensures
        refers(r@, children(*e)),
{
    let mut out: Vec<&'a IrExpr> = Vec::new();
    match e {
        IrExpr::Literal { .. }
        | IrExpr::Reference { .. }
        | IrExpr::SelfFieldRef { .. }
        | IrExpr::LetRef { .. } => {},
        IrExpr::Closure { body, .. } => out.push(body),
        IrExpr::StructInst { fields, .. } | IrExpr::EnumInst { fields, .. } => {
            let mut i: usize = 0;
            while i < fields.len()
                invariant
                    i <= fields@.len(),
                    out@.len() == i,
                    forall|j: int| 0 <= j < i ==> *(#[trigger] out@[j]) == fields@[j].2,
                decreases fields@.len() - i,
            {
                out.push(&fields[i].2);
                i = i + 1;
            }
        },
        IrExpr::Tuple { fields, .. } => {
            let mut i: usize = 0;
            while i < fields.len()
                invariant
                    i <= fields@.len(),
                    out@.len() == i,
                    forall|j: int| 0 <= j < i ==> *(#[trigger] out@[j]) == fields@[j].1,
                decreases fields@.len() - i,
            {
                out.push(&fields[i].1);
                i = i + 1;
            }
        },
        IrExpr::Array { elements, .. } => {
            let mut i: usize = 0;
            while i < elements.len()
                invariant
                    i <= elements@.len(),
                    out@.len() == i,
                    forall|j: int| 0 <= j < i ==> *(#[trigger] out@[j]) == elements@[j],
                decreases elements@.len() - i,
            {
                out.push(&elements[i]);
                i = i + 1;
            }
        },
        IrExpr::FieldAccess { object, .. } => out.push(object),
        IrExpr::BinaryOp { left, right, .. } => {
            out.push(left);
            out.push(right);
        },
        IrExpr::UnaryOp { operand, .. } => out.push(operand),
        IrExpr::If { condition, then_branch, else_branch, .. } => {
            out.push(condition);
            out.push(then_branch);
            if let Some(other) = else_branch {
                out.push(other);
            }
        },
        IrExpr::For { collection, body, .. } => {
            out.push(collection);
            out.push(body);
        },
        IrExpr::Match { scrutinee, arms, .. } => {
            out.push(scrutinee);
            let mut i: usize = 0;
            while i < arms.len()
                invariant
                    i <= arms@.len(),
                    out@.len() == i + 1,
                    *out@[0] == **scrutinee,
                    forall|j: int| 1 <= j < i + 1 ==> *(#[trigger] out@[j]) == arms@[j - 1].body,
                decreases arms@.len() - i,
            {
                out.push(&arms[i].body);
                i = i + 1;
            }
        },
        IrExpr::FunctionCall { args, .. } => push_args(args, &mut out),
        IrExpr::CallClosure { closure, args, .. } => {
            out.push(closure);
            push_args(args, &mut out);
        },
        IrExpr::MethodCall { receiver, args, .. } => {
            out.push(receiver);
            push_args(args, &mut out);
        },
        IrExpr::ClosureRef { env_struct, .. } => out.push(env_struct),
        IrExpr::DictLiteral { entries, .. } => {
            let mut i: usize = 0;
            while i < entries.len()
                invariant
                    i <= entries@.len(),
                    refers(out@, entry_values(entries@, i as nat)),
                decreases entries@.len() - i,
            {
                out.push(&entries[i].0);
                out.push(&entries[i].1);
                i = i + 1;
            }
        },
        IrExpr::DictAccess { dict, key, .. } => {
            out.push(dict);
            out.push(key);
        },
        IrExpr::Block { statements, result, .. } => {
            let mut i: usize = 0;
            while i < statements.len()
                invariant
                    i <= statements@.len(),
                    refers(out@, statements_values(statements@, i as nat)),
                decreases statements@.len() - i,
            {
                match &statements[i] {
                    IrBlockStatement::Let { value, .. } => out.push(value),
                    IrBlockStatement::Assign { target, value } => {
                        out.push(target);
                        out.push(value);
                    },
                    IrBlockStatement::Expr(e) => out.push(e),
                }
                i = i + 1;
            }
            out.push(result);
        },
    }
    out
}

fn push_args<'a>(args: &'a Vec<(Option<String>, IrExpr)>, out: &mut Vec<&'a IrExpr>)
    ensures
        final(out)@.len() == old(out)@.len() + args@.len(),
        forall|j: int| 0 <= j < old(out)@.len() ==> final(out)@[j] == old(out)@[j],
        forall|j: int|
            old(out)@.len() <= j < final(out)@.len() ==> *(#[trigger] final(out)@[j]) == args@[j
                - old(out)@.len()].1,
{
    let mut i: usize = 0;
    while i < args.len()
        invariant
            i <= args@.len(),
            out@.len() == old(out)@.len() + i,
            forall|j: int| 0 <= j < old(out)@.len() ==> out@[j] == old(out)@[j],
            forall|j: int|
                old(out)@.len() <= j < out@.len() ==> *(#[trigger] out@[j]) == args@[j - old(
                    out,
                )@.len()].1,
        decreases args@.len() - i,
    {
        out.push(&args[i].1);
        i = i + 1;
    }
}

// ── text literals ────────────────────────────────────────────────────

/// The pool after interning one text.
pub open spec fn with_text(pool: PoolView, text: Seq<char>) -> Result<PoolView, ModuleLowerError> {
    match pool.interned(text) {
        Some((p, _)) => Ok(p),
        None => Err(
            ModuleLowerError::StringPool(
                StringPoolError::SizeOverflow {
                    len: vstd::utf8::encode_utf8(text).len() as usize,
                },
            ),
        ),
    }
}

/// The pool after interning the text of a literal. Of a regular expression
/// only the pattern is a text.
pub open spec fn with_literal(pool: PoolView, e: IrExpr) -> Result<PoolView, ModuleLowerError> {
    match e {
        IrExpr::Literal { value, .. } => match value {
            Literal::String(text) => with_text(pool, text@),
            Literal::Path(text) => with_text(pool, text@),
            Literal::Regex { pattern, .. } => with_text(pool, pattern@),
            _ => Ok(pool),
        },
        _ => Ok(pool),
    }
}

/// The pool after interning every text literal of an expression.
pub open spec fn expr_texts(e: IrExpr, pool: PoolView) -> Result<PoolView, ModuleLowerError>
    decreases e, children(e).len() + 1,
{
    match with_literal(pool, e) {
        Err(x) => Err(x),
        Ok(p) => children_texts(e, 0, p),
    }
}

/// The pool after the sub-expressions, from position `i` on.
pub open spec fn children_texts(e: IrExpr, i: int, pool: PoolView) -> Result<
    PoolView,
    ModuleLowerError,
>
    decreases e, children(e).len() - i,
{
    if i < 0 || i >= children(e).len() {
        Ok(pool)
    } else {
        proof {
            lemma_child_is_smaller(e, i);
        }
        match expr_texts(children(e)[i], pool) {
            Err(x) => Err(x),
            Ok(p) => children_texts(e, i + 1, p),
        }
    }
}

/// The pool after the bodies of the functions, from function `i` on.
pub open spec fn functions_texts(fs: Seq<IrFunction>, i: int, pool: PoolView) -> Result<
    PoolView,
    ModuleLowerError,
>
    decreases fs.len() - i,
{
    if i < 0 || i >= fs.len() {
        Ok(pool)
    } else {
        match (match fs[i].body {
            Some(e) => expr_texts(e, pool),
            None => Ok(pool),
        }) {
            Err(x) => Err(x),
            Ok(p) => functions_texts(fs, i + 1, p),
        }
    }
}

/// The pool after the methods of the impl blocks that the module defines,
/// from block `i` on.
pub open spec fn impls_texts(impls: Seq<IrImpl>, i: int, pool: PoolView) -> Result<
    PoolView,
    ModuleLowerError,
>
    decreases impls.len() - i,
{
    if i < 0 || i >= impls.len() {
        Ok(pool)
    } else if impls[i].is_extern {
        impls_texts(impls, i + 1, pool)
    } else {
        match functions_texts(impls[i].functions@, 0, pool) {
            Err(x) => Err(x),
            Ok(p) => impls_texts(impls, i + 1, p),
        }
    }
}

/// The pool after interning all text literals of a module.
pub open spec fn module_texts(m: IrModule, pool: PoolView) -> Result<PoolView, ModuleLowerError> {
    match functions_texts(m.functions@, 0, pool) {
        Err(x) => Err(x),
        Ok(p) => impls_texts(m.impls@, 0, p),
    }
}

/// A walk's result and the pool after it are what `s` says.
pub open spec fn pooled(
    r: Result<(), ModuleLowerError>,
    after: PoolView,
    s: Result<PoolView, ModuleLowerError>,
) -> bool {
    match r {
        Ok(_) => s == Ok::<PoolView, ModuleLowerError>(after),
        Err(x) => s == Err::<PoolView, ModuleLowerError>(x),
    }
}

fn intern_text(pool: &mut StringPool, text: &str) -> (r: Result<(), ModuleLowerError>)
    ensures
        pooled(r, final(pool)@, with_text(old(pool)@, text@)),
{
    match pool.intern(text) {
        Ok(_) => Ok(()),
        Err(x) => Err(ModuleLowerError::StringPool(x)),
    }
}

/// Intern every text literal of an expression.
fn walk_for_strings(expr: &IrExpr, pool: &mut StringPool) -> (r: Result<(), ModuleLowerError>)
    ensures
        pooled(r, final(pool)@, expr_texts(*expr, old(pool)@)),
    decreases *expr,
{
    if let IrExpr::Literal { value, .. } = expr {
        match value {
            Literal::String(text) => intern_text(pool, text)?,
            Literal::Path(text) => intern_text(pool, text)?,
            Literal::Regex { pattern, .. } => intern_text(pool, pattern)?,
            Literal::Number(_) | Literal::Boolean(_) | Literal::Nil => {},
        }
    }
    let kids = children_of(expr);
    let mut i: usize = 0;
    while i < kids.len()
        invariant
            i <= kids@.len(),
            refers(kids@, children(*expr)),
            expr_texts(*expr, old(pool)@) == children_texts(*expr, i as int, pool@),
        decreases kids@.len() - i,
    {
        proof {
            lemma_child_is_smaller(*expr, i as int);
        }
        walk_for_strings(kids[i], pool)?;
        i = i + 1;
    }
    Ok(())
}

fn walk_functions(fs: &Vec<IrFunction>, pool: &mut StringPool) -> (r: Result<(), ModuleLowerError>)
    ensures
        pooled(r, final(pool)@, functions_texts(fs@, 0, old(pool)@)),
{
    let mut i: usize = 0;
    while i < fs.len()
        invariant
            i <= fs@.len(),
            functions_texts(fs@, 0, old(pool)@) == functions_texts(fs@, i as int, pool@),
        decreases fs@.len() - i,
    {
        if let Some(body) = &fs[i].body {
            walk_for_strings(body, pool)?;
        }
        i = i + 1;
    }
    Ok(())
}

/// Intern every text literal of a module.
pub fn collect_string_literals(module: &IrModule, pool: &mut StringPool) -> (r: Result<
    (),
    ModuleLowerError,
>)
    ensures
        pooled(r, final(pool)@, module_texts(*module, old(pool)@)),
{
    walk_functions(&module.functions, pool)?;
    let mut i: usize = 0;
    while i < module.impls.len()
        invariant
            i <= module.impls@.len(),
            module_texts(*module, old(pool)@) == impls_texts(module.impls@, i as int, pool@),
        decreases module.impls@.len() - i,
    {
        if !module.impls[i].is_extern {
            walk_functions(&module.impls[i].functions, pool)?;
        }
        i = i + 1;
    }
    Ok(())
}

} // verus!
