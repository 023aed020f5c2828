//! Rejection of modules that the backend cannot handle: the first step of
//! code generation.
//!
//! A module must be free of type parameters, of generic traits and of
//! closure literals, must hold no placeholder left by a failed compilation,
//! and must keep closures out of its public structs. Every rejection says
//! where the offending item is.

use vstd::prelude::*;

use crate::ir::{
    ImplTarget, IrBlockStatement, IrEnum, IrEnumVariant, IrExpr, IrField, IrFunction,
    IrFunctionParam, IrImpl, IrLet, IrMatchArm, IrModule, IrStruct, IrTrait, List,
    ParamConvention, PrimitiveType, ResolvedType, Visibility,
};
use crate::module_lowering::walk::children_of;
use crate::text::{concat3, decimal_text, quote};

verus! {

/// Errors produced by [`check`].
#[allow(inconsistent_fields)]
#[derive(Debug, PartialEq, Eq)]
pub enum PreflightError {
    /// A closure literal that was not converted.
    UnconvertedClosure { location: String },
    /// A public struct field of closure type.
    PublicClosureField { struct_name: String, field: String },
    /// A trait with generic parameters.
    GenericTrait { trait_name: String, param_count: usize },
    /// A type parameter that was not replaced.
    UnresolvedTypeParam { name: String, location: String },
    /// A type that a failed compilation left behind.
    ErrorTypePlaceholder { location: String },
}

/// What a [`PreflightError`] says.
#[allow(inconsistent_fields)]
pub enum Problem {
    UnconvertedClosure { location: Seq<char> },
    PublicClosureField { struct_name: Seq<char>, field: Seq<char> },
    GenericTrait { trait_name: Seq<char>, param_count: nat },
    UnresolvedTypeParam { name: Seq<char>, location: Seq<char> },
    ErrorTypePlaceholder { location: Seq<char> },
}

impl View for PreflightError {
    type V = Problem;

    open spec fn view(&self) -> Problem {
        match *self {
            PreflightError::UnconvertedClosure { location } => Problem::UnconvertedClosure {
                location: location@,
            },
            PreflightError::PublicClosureField { struct_name, field } => Problem::PublicClosureField {
                struct_name: struct_name@,
                field: field@,
            },
            PreflightError::GenericTrait { trait_name, param_count } => Problem::GenericTrait {
                trait_name: trait_name@,
                param_count: param_count as nat,
            },
            PreflightError::UnresolvedTypeParam { name, location } => Problem::UnresolvedTypeParam {
                name: name@,
                location: location@,
            },
            PreflightError::ErrorTypePlaceholder { location } => Problem::ErrorTypePlaceholder {
                location: location@,
            },
        }
    }
}

/// The outcome of a check in terms of [`Problem`].
pub type Verdict = Result<(), Problem>;

/// `r` is the verdict `v`.
pub open spec fn says(r: Result<(), PreflightError>, v: Verdict) -> bool {
    match r {
        Ok(_) => v == Ok::<(), Problem>(()),
        Err(x) => v == Err::<(), Problem>(x@),
    }
}

/// `first`, and where it passes, `second`.
pub open spec fn both(first: Verdict, second: Verdict) -> Verdict {
    match first {
        Err(x) => Err(x),
        Ok(_) => second,
    }
}

// ── types ────────────────────────────────────────────────────────────

/// The verdict on a type.
pub open spec fn type_verdict(ty: ResolvedType, at: Seq<char>) -> Verdict
    decreases ty,
{
    match ty {
        ResolvedType::Primitive(_) => Ok(()),
        ResolvedType::Struct(_) => Ok(()),
        ResolvedType::Trait(_) => Ok(()),
        ResolvedType::Enum(_) => Ok(()),
        ResolvedType::Array(t) => type_verdict(*t, at),
        ResolvedType::Range(t) => type_verdict(*t, at),
        ResolvedType::Optional(t) => type_verdict(*t, at),
        ResolvedType::Tuple(fields) => fields_verdict(fields, at),
        ResolvedType::Generic { args, .. } => types_verdict(args, at),
        ResolvedType::External { type_args, .. } => types_verdict(type_args, at),
        ResolvedType::Dictionary { key_ty, value_ty } => both(
            type_verdict(*key_ty, at),
            type_verdict(*value_ty, at),
        ),
        ResolvedType::Closure { param_tys, return_ty } => both(
            params_verdict(param_tys, at),
            type_verdict(*return_ty, at),
        ),
        ResolvedType::TypeParam(name) => Err(
            Problem::UnresolvedTypeParam { name: name@, location: at },
        ),
        ResolvedType::Error => Err(Problem::ErrorTypePlaceholder { location: at }),
    }
}

/// The verdict on a list of types.
pub open spec fn types_verdict(l: List<ResolvedType>, at: Seq<char>) -> Verdict
    decreases l,
{
    match l {
        List::Nil => Ok(()),
        List::Cons(head, tail) => both(type_verdict(*head, at), types_verdict(*tail, at)),
    }
}

/// The verdict on the types of tuple positions.
pub open spec fn fields_verdict(l: List<(String, ResolvedType)>, at: Seq<char>) -> Verdict
    decreases l,
{
    match l {
        List::Nil => Ok(()),
        List::Cons(head, tail) => both(type_verdict((*head).1, at), fields_verdict(*tail, at)),
    }
}

/// The verdict on the types of closure parameters.
pub open spec fn params_verdict(l: List<(ParamConvention, ResolvedType)>, at: Seq<char>) -> Verdict
    decreases l,
{
    match l {
        List::Nil => Ok(()),
        List::Cons(head, tail) => both(type_verdict((*head).1, at), params_verdict(*tail, at)),
    }
}

fn check_type(ty: &ResolvedType, location: &str) -> (r: Result<(), PreflightError>)
    ensures
        says(r, type_verdict(*ty, location@)),
    decreases ty,
{
    match ty {
        ResolvedType::Primitive(_)
        | ResolvedType::Struct(_)
        | ResolvedType::Trait(_)
        | ResolvedType::Enum(_) => Ok(()),
        ResolvedType::Array(t) | ResolvedType::Range(t) | ResolvedType::Optional(t) => check_type(
            t,
            location,
        ),
        ResolvedType::Tuple(fields) => check_fields(fields, location),
        ResolvedType::Generic { args, .. } => check_types(args, location),
        ResolvedType::External { type_args, .. } => check_types(type_args, location),
        ResolvedType::Dictionary { key_ty, value_ty } => {
            check_type(key_ty, location)?;
            check_type(value_ty, location)
        },
        ResolvedType::Closure { param_tys, return_ty } => {
            check_params(param_tys, location)?;
            check_type(return_ty, location)
        },
        ResolvedType::TypeParam(name) => Err(
            PreflightError::UnresolvedTypeParam {
                name: name.clone(),
                location: location.to_owned(),
            },
        ),
        ResolvedType::Error => Err(
            PreflightError::ErrorTypePlaceholder { location: location.to_owned() },
        ),
    }
}

fn check_types(l: &List<ResolvedType>, location: &str) -> (r: Result<(), PreflightError>)
    ensures
        says(r, types_verdict(*l, location@)),
    decreases l,
{
    match l {
        List::Nil => Ok(()),
        List::Cons(head, tail) => {
            check_type(head, location)?;
            check_types(tail, location)
        },
    }
}

fn check_fields(l: &List<(String, ResolvedType)>, location: &str) -> (r: Result<
    (),
    PreflightError,
>)
    ensures
        says(r, fields_verdict(*l, location@)),
    decreases l,
{
    match l {
        List::Nil => Ok(()),
        List::Cons(head, tail) => {
            check_type(&head.1, location)?;
            check_fields(tail, location)
        },
    }
}

fn check_params(l: &List<(ParamConvention, ResolvedType)>, location: &str) -> (r: Result<
    (),
    PreflightError,
>)
    ensures
        says(r, params_verdict(*l, location@)),
    decreases l,
{
    match l {
        List::Nil => Ok(()),
        List::Cons(head, tail) => {
            check_type(&head.1, location)?;
            check_params(tail, location)
        },
    }
}

// ── expressions ──────────────────────────────────────────────────────

/// Something inside an expression that is checked.
pub enum Part {
    Type(ResolvedType),
    Value(IrExpr),
}

/// A reference to something inside an expression that is checked.
pub enum PartRef<'a> {
    Type(&'a ResolvedType),
    Value(&'a IrExpr),
}

/// What a reference refers to.
pub open spec fn deref_part(p: PartRef<'_>) -> Part {
    match p {
        PartRef::Type(t) => Part::Type(*t),
        PartRef::Value(e) => Part::Value(*e),
    }
}

/// The types of a match arm's names.
pub open spec fn arm_types(arm: IrMatchArm) -> Seq<Part> {
    Seq::new(arm.bindings@.len(), |i: int| Part::Type(arm.bindings@[i].2))
}

/// The parts of the first `k` match arms: the types of an arm's names before
/// its body.
pub open spec fn arms_parts(arms: Seq<IrMatchArm>, k: nat) -> Seq<Part>
    decreases k,
{
    if k == 0 {
        Seq::empty()
    } else {
        (arms_parts(arms, (k - 1) as nat) + arm_types(arms[k - 1])).push(
            Part::Value(arms[k - 1].body),
        )
    }
}

/// The parts of a statement: a declared type before the value.
pub open spec fn statement_parts(st: IrBlockStatement) -> Seq<Part> {
    match st {
        IrBlockStatement::Let { ty, value, .. } => match ty {
            Some(t) => seq![Part::Type(t), Part::Value(value)],
            None => seq![Part::Value(value)],
        },
        IrBlockStatement::Assign { target, value } => seq![Part::Value(target), Part::Value(value)],
        IrBlockStatement::Expr(e) => seq![Part::Value(e)],
    }
}

/// The parts of the first `k` statements.
pub open spec fn statements_parts(statements: Seq<IrBlockStatement>, k: nat) -> Seq<Part>
    decreases k,
{
    if k == 0 {
        Seq::empty()
    } else {
        statements_parts(statements, (k - 1) as nat) + statement_parts(statements[k - 1])
    }
}

/// What is checked inside an expression, in order.
pub open spec fn parts(e: IrExpr) -> Seq<Part> {
    match e {
        IrExpr::Match { scrutinee, arms, .. } => seq![Part::Value(*scrutinee)] + arms_parts(
            arms@,
            arms@.len(),
        ),
        IrExpr::Block { statements, result, .. } => statements_parts(
            statements@,
            statements@.len(),
        ).push(Part::Value(*result)),
        _ => {
            let kids = crate::module_lowering::walk::children(e);
            Seq::new(kids.len(), |i: int| Part::Value(kids[i]))
        },
    }
}

proof fn lemma_arm_part_is_smaller(arms: Seq<IrMatchArm>, k: nat, i: int)
    requires
        k <= arms.len(),
        0 <= i < arms_parts(arms, k).len(),
    ensures
        arms_parts(arms, k)[i] matches Part::Value(x) ==> decreases_to!(arms => x),
    decreases k,
{
    if k > 0 {
        let before = arms_parts(arms, (k - 1) as nat);
        if i < before.len() {
            lemma_arm_part_is_smaller(arms, (k - 1) as nat, i);
            assert(arms_parts(arms, k)[i] == before[i]);
        } else if i < before.len() + arm_types(arms[k - 1]).len() {
            assert(arms_parts(arms, k)[i] == arm_types(arms[k - 1])[i - before.len()]);
        } else {
            assert(decreases_to!(arms => arms[k - 1]));
            assert(decreases_to!(arms[k - 1] => arms[k - 1].body));
        }
    }
}

proof fn lemma_statement_part_is_smaller(statements: Seq<IrBlockStatement>, k: nat, i: int)
    requires
        k <= statements.len(),
        0 <= i < statements_parts(statements, k).len(),
    ensures
        statements_parts(statements, k)[i] matches Part::Value(x) ==> decreases_to!(statements => x),
    decreases k,
{
    if k > 0 {
        let before = statements_parts(statements, (k - 1) as nat);
        if i < before.len() {
            lemma_statement_part_is_smaller(statements, (k - 1) as nat, i);
        } else {
            let st = statements[k - 1];
            assert(decreases_to!(statements => st));
            match st {
                IrBlockStatement::Let { value, .. } => {
                    assert(decreases_to!(st => value));
                },
                IrBlockStatement::Assign { target, value } => {
                    assert(decreases_to!(st => target));
                    assert(decreases_to!(st => value));
                },
                IrBlockStatement::Expr(e) => {
                    assert(decreases_to!(st => e));
                },
            }
            assert(statements_parts(statements, k)[i] == statement_parts(st)[i - before.len()]);
        }
    }
}

/// A value inside an expression is smaller than the expression.
pub proof fn lemma_part_is_smaller(e: IrExpr, i: int)
    requires
        0 <= i < parts(e).len(),
    ensures
        parts(e)[i] matches Part::Value(x) ==> decreases_to!(e => x),
{
    match e {
        IrExpr::Match { scrutinee, arms, .. } => {
            if i == 0 {
                assert(decreases_to!(e => *scrutinee));
            } else {
                lemma_arm_part_is_smaller(arms@, arms@.len(), i - 1);
                assert(parts(e)[i] == arms_parts(arms@, arms@.len())[i - 1]);
                assert(decreases_to!(e => arms@));
            }
        },
        IrExpr::Block { statements, result, .. } => {
            if i < parts(e).len() - 1 {
                lemma_statement_part_is_smaller(statements@, statements@.len(), i);
                assert(decreases_to!(e => statements@));
            } else {
                assert(decreases_to!(e => *result));
            }
        },
        _ => {
            crate::module_lowering::walk::lemma_child_is_smaller(e, i);
        },
    }
}

/// The verdict on an expression.
pub open spec fn expr_verdict(e: IrExpr, at: Seq<char>) -> Verdict
    decreases e, 1nat, 0nat,
{
    both(
        type_verdict(e.spec_ty(), at),
        if e is Closure {
            Err(Problem::UnconvertedClosure { location: at })
        } else {
            parts_verdict(e, 0, at)
        },
    )
}

/// The verdict on what is inside an expression, from part `i` on.
pub open spec fn parts_verdict(e: IrExpr, i: int, at: Seq<char>) -> Verdict
    decreases e, 0nat, parts(e).len() - i,
{
    if i < 0 || i >= parts(e).len() {
        Ok(())
    } else {
        proof {
            lemma_part_is_smaller(e, i);
        }
        both(
            match parts(e)[i] {
                Part::Type(t) => type_verdict(t, at),
                Part::Value(x) => expr_verdict(x, at),
            },
            parts_verdict(e, i + 1, at),
        )
    }
}

/// `refs` refers to the parts of `s`.
pub open spec fn refers(refs: Seq<PartRef<'_>>, s: Seq<Part>) -> bool {
    &&& refs.len() == s.len()
    &&& forall|i: int| 0 <= i < s.len() ==> deref_part(#[trigger] refs[i]) == s[i]
}

fn push_arm<'a>(arm: &'a IrMatchArm, out: &mut Vec<PartRef<'a>>, Ghost(before): Ghost<Seq<Part>>)
    requires
        refers(old(out)@, before),
    ensures
        refers(final(out)@, (before + arm_types(*arm)).push(Part::Value(arm.body))),
{
    let mut i: usize = 0;
    while i < arm.bindings.len()
        invariant
            i <= arm.bindings@.len(),
            refers(out@, before + arm_types(*arm).take(i as int)),
        decreases arm.bindings@.len() - i,
    {
        out.push(PartRef::Type(&arm.bindings[i].2));
        i = i + 1;
    }
    proof {
        assert(arm_types(*arm).take(i as int) =~= arm_types(*arm));
    }
    out.push(PartRef::Value(&arm.body));
}

fn push_statement<'a>(
    st: &'a IrBlockStatement,
    out: &mut Vec<PartRef<'a>>,
    Ghost(before): Ghost<Seq<Part>>,
)
    requires
        refers(old(out)@, before),
    ensures
        refers(final(out)@, before + statement_parts(*st)),
{
    match st {
        IrBlockStatement::Let { ty, value, .. } => {
            if let Some(t) = ty {
                out.push(PartRef::Type(t));
            }
            out.push(PartRef::Value(value));
        },
        IrBlockStatement::Assign { target, value } => {
            out.push(PartRef::Value(target));
            out.push(PartRef::Value(value));
        },
        IrBlockStatement::Expr(e) => out.push(PartRef::Value(e)),
    }
}

fn parts_of<'a>(e: &'a IrExpr) -> (r: Vec<PartRef<'a>>)
    ensures
        refers(r@, parts(*e)),
{
    let mut out: Vec<PartRef<'a>> = Vec::new();
    match e {
        IrExpr::Match { scrutinee, arms, .. } => {
            out.push(PartRef::Value(scrutinee));
            let ghost first = seq![Part::Value(**scrutinee)];
            let mut i: usize = 0;
            while i < arms.len()
                invariant
                    i <= arms@.len(),
                    refers(out@, first + arms_parts(arms@, i as nat)),
                decreases arms@.len() - i,
            {
                push_arm(&arms[i], &mut out, Ghost(first + arms_parts(arms@, i as nat)));
                i = i + 1;
                proof {
                    assert(first + arms_parts(arms@, i as nat) =~= (first + arms_parts(
                        arms@,
                        (i - 1) as nat,
                    ) + arm_types(arms@[i - 1])).push(Part::Value(arms@[i - 1].body)));
                }
            }
        },
        IrExpr::Block { statements, result, .. } => {
            let mut i: usize = 0;
            while i < statements.len()
                invariant
                    i <= statements@.len(),
                    refers(out@, statements_parts(statements@, i as nat)),
                decreases statements@.len() - i,
            {
                push_statement(
                    &statements[i],
                    &mut out,
                    Ghost(statements_parts(statements@, i as nat)),
                );
                i = i + 1;
            }
            out.push(PartRef::Value(result));
        },
        _ => {
            let kids = children_of(e);
            let mut i: usize = 0;
            while i < kids.len()
                invariant
                    i <= kids@.len(),
                    out@.len() == i,
                    crate::module_lowering::walk::refers(
                        kids@,
                        crate::module_lowering::walk::children(*e),
                    ),
                    forall|j: int|
                        0 <= j < i ==> deref_part(#[trigger] out@[j]) == Part::Value(
                            crate::module_lowering::walk::children(*e)[j],
                        ),
                decreases kids@.len() - i,
            {
                out.push(PartRef::Value(kids[i]));
                i = i + 1;
            }
        },
    }
    out
}

fn check_expr(expr: &IrExpr, location: &str) -> (r: Result<(), PreflightError>)
    ensures
        says(r, expr_verdict(*expr, location@)),
    decreases *expr,
{
    check_type(expr.ty(), location)?;
    if let IrExpr::Closure { .. } = expr {
        return Err(PreflightError::UnconvertedClosure { location: location.to_owned() });
    }
    let inside = parts_of(expr);
    let mut i: usize = 0;
    while i < inside.len()
        invariant
            i <= inside@.len(),
            refers(inside@, parts(*expr)),
            expr_verdict(*expr, location@) == parts_verdict(*expr, i as int, location@),
        decreases inside@.len() - i,
    {
        proof {
            lemma_part_is_smaller(*expr, i as int);
        }
        match &inside[i] {
            PartRef::Type(t) => check_type(t, location)?,
            PartRef::Value(x) => check_expr(x, location)?,
        }
        i = i + 1;
    }
    Ok(())
}

// ── items ────────────────────────────────────────────────────────────

/// The verdict on one field of a struct.
pub open spec fn field_verdict(s: IrStruct, f: IrField) -> Verdict {
    if s.visibility == Visibility::Public && f.ty is Closure {
        Err(Problem::PublicClosureField { struct_name: s.name@, field: f.name@ })
    } else {
        both(
            type_verdict(
                f.ty,
                crate::text::quoted(crate::text::quoted("struct '"@, s.name@) + " field '"@, f.name@),
            ),
            match f.default {
                Some(e) => expr_verdict(e, "default for "@ + s.name@ + "::"@ + f.name@),
                None => Ok(()),
            },
        )
    }
}

/// The verdict on a struct, from field `i` on.
pub open spec fn struct_verdict(s: IrStruct, i: int) -> Verdict
    decreases s.fields@.len() - i,
{
    if i < 0 || i >= s.fields@.len() {
        Ok(())
    } else {
        both(field_verdict(s, s.fields@[i]), struct_verdict(s, i + 1))
    }
}

/// The verdict on the structs, from struct `i` on.
pub open spec fn structs_verdict(ss: Seq<IrStruct>, i: int) -> Verdict
    decreases ss.len() - i,
{
    if i < 0 || i >= ss.len() {
        Ok(())
    } else {
        both(struct_verdict(ss[i], 0), structs_verdict(ss, i + 1))
    }
}

fn check_struct(s: &IrStruct) -> (r: Result<(), PreflightError>)
    ensures
        says(r, struct_verdict(*s, 0)),
{
    let is_public = s.visibility == Visibility::Public;
    let mut i: usize = 0;
    while i < s.fields.len()
        invariant
            i <= s.fields@.len(),
            is_public == (s.visibility == Visibility::Public),
            struct_verdict(*s, 0) == struct_verdict(*s, i as int),
        decreases s.fields@.len() - i,
    {
        let field = &s.fields[i];
        if is_public {
            if let ResolvedType::Closure { .. } = &field.ty {
                return Err(
                    PreflightError::PublicClosureField {
                        struct_name: s.name.clone(),
                        field: field.name.clone(),
                    },
                );
            }
        }
        let mut before = quote("struct '", &s.name);
        before.append(" field '");
        check_type(&field.ty, &quote(&before, &field.name))?;
        check_field_default(field, &s.name)?;
        i = i + 1;
    }
    Ok(())
}

fn check_field_default(field: &IrField, owner: &str) -> (r: Result<(), PreflightError>)
    ensures
        says(
            r,
            match field.default {
                Some(e) => expr_verdict(e, "default for "@ + owner@ + "::"@ + field.name@),
                None => Ok(()),
            },
        ),
{
    if let Some(default) = &field.default {
        let mut location = concat3("default for ", owner, "::");
        location.append(&field.name);
        check_expr(default, &location)?;
    }
    Ok(())
}

/// The verdict on the parameters of a function at `at`, from parameter `i`
/// on.
pub open spec fn declared_params_verdict(ps: Seq<IrFunctionParam>, i: int, at: Seq<char>) -> Verdict
    decreases ps.len() - i,
{
    if i < 0 || i >= ps.len() {
        Ok(())
    } else {
        both(
            match ps[i].ty {
                Some(t) => type_verdict(t, crate::text::quoted(at + " parameter '"@, ps[i].name@)),
                None => Ok(()),
            },
            declared_params_verdict(ps, i + 1, at),
        )
    }
}

/// The verdict on the result type of a function at `at`.
pub open spec fn result_verdict(ty: Option<ResolvedType>, at: Seq<char>) -> Verdict {
    match ty {
        Some(t) => type_verdict(t, at + " return type"@),
        None => Ok(()),
    }
}

/// The verdict on a signature at `at`.
pub open spec fn signature_verdict(
    ps: Seq<IrFunctionParam>,
    result: Option<ResolvedType>,
    at: Seq<char>,
) -> Verdict {
    both(declared_params_verdict(ps, 0, at), result_verdict(result, at))
}

fn check_signature(
    params: &Vec<IrFunctionParam>,
    return_type: &Option<ResolvedType>,
    location: &str,
) -> (r: Result<(), PreflightError>)
    ensures
        says(r, signature_verdict(params@, *return_type, location@)),
{
    let mut i: usize = 0;
    while i < params.len()
        invariant
            i <= params@.len(),
            declared_params_verdict(params@, 0, location@) == declared_params_verdict(
                params@,
                i as int,
                location@,
            ),
        decreases params@.len() - i,
    {
        if let Some(ty) = &params[i].ty {
            let mut before = location.to_owned();
            before.append(" parameter '");
            check_type(ty, &quote(&before, &params[i].name))?;
        }
        i = i + 1;
    }
    if let Some(t) = return_type {
        let mut at = location.to_owned();
        at.append(" return type");
        check_type(t, &at)?;
    }
    Ok(())
}

/// The verdict on the fields of a trait, from field `i` on.
pub open spec fn trait_fields_verdict(t: IrTrait, i: int) -> Verdict
    decreases t.fields@.len() - i,
{
    if i < 0 || i >= t.fields@.len() {
        Ok(())
    } else {
        both(
            type_verdict(
                t.fields@[i].ty,
                crate::text::quoted(
                    crate::text::quoted("trait '"@, t.name@) + " field '"@,
                    t.fields@[i].name@,
                ),
            ),
            trait_fields_verdict(t, i + 1),
        )
    }
}

/// The verdict on the method signatures of a trait, from method `i` on.
pub open spec fn trait_methods_verdict(t: IrTrait, i: int) -> Verdict
    decreases t.methods@.len() - i,
{
    if i < 0 || i >= t.methods@.len() {
        Ok(())
    } else {
        let sig = t.methods@[i];
        both(
            signature_verdict(
                sig.params@,
                sig.return_type,
                crate::text::quoted(
                    crate::text::quoted("trait '"@, t.name@) + " method '"@,
                    sig.name@,
                ),
            ),
            trait_methods_verdict(t, i + 1),
        )
    }
}

/// The verdict on a trait.
pub open spec fn trait_verdict(t: IrTrait) -> Verdict {
    if t.generic_params@.len() > 0 {
        Err(
            Problem::GenericTrait {
                trait_name: t.name@,
                param_count: t.generic_params@.len(),
            },
        )
    } else {
        both(trait_fields_verdict(t, 0), trait_methods_verdict(t, 0))
    }
}

/// The verdict on the traits, from trait `i` on.
pub open spec fn traits_verdict(ts: Seq<IrTrait>, i: int) -> Verdict
    decreases ts.len() - i,
{
    if i < 0 || i >= ts.len() {
        Ok(())
    } else {
        both(trait_verdict(ts[i]), traits_verdict(ts, i + 1))
    }
}

fn check_trait(t: &IrTrait) -> (r: Result<(), PreflightError>)
    ensures
        says(r, trait_verdict(*t)),
{
    if t.generic_params.len() > 0 {
        return Err(
            PreflightError::GenericTrait {
                trait_name: t.name.clone(),
                param_count: t.generic_params.len(),
            },
        );
    }
    let owner = quote("trait '", &t.name);
    let mut i: usize = 0;
    while i < t.fields.len()
        invariant
            i <= t.fields@.len(),
            t.generic_params@.len() == 0,
            owner@ == crate::text::quoted("trait '"@, t.name@),
            trait_fields_verdict(*t, 0) == trait_fields_verdict(*t, i as int),
        decreases t.fields@.len() - i,
    {
        let mut before = owner.clone();
        before.append(" field '");
        check_type(&t.fields[i].ty, &quote(&before, &t.fields[i].name))?;
        i = i + 1;
    }
    let mut j: usize = 0;
    while j < t.methods.len()
        invariant
            j <= t.methods@.len(),
            t.generic_params@.len() == 0,
            owner@ == crate::text::quoted("trait '"@, t.name@),
            trait_verdict(*t) == trait_methods_verdict(*t, j as int),
        decreases t.methods@.len() - j,
    {
        let sig = &t.methods[j];
        let mut before = owner.clone();
        before.append(" method '");
        let location = quote(&before, &sig.name);
        check_signature(&sig.params, &sig.return_type, &location)?;
        j = j + 1;
    }
    Ok(())
}

/// The verdict on a variant of an enum, from field `i` on.
pub open spec fn variant_verdict(e: IrEnum, v: IrEnumVariant, i: int) -> Verdict
    decreases v.fields@.len() - i,
{
    if i < 0 || i >= v.fields@.len() {
        Ok(())
    } else {
        both(
            type_verdict(
                v.fields@[i].ty,
                crate::text::quoted(
                    crate::text::quoted(
                        crate::text::quoted("enum '"@, e.name@) + " variant '"@,
                        v.name@,
                    ) + " field '"@,
                    v.fields@[i].name@,
                ),
            ),
            variant_verdict(e, v, i + 1),
        )
    }
}

/// The verdict on an enum, from variant `i` on.
pub open spec fn enum_verdict(e: IrEnum, i: int) -> Verdict
    decreases e.variants@.len() - i,
{
    if i < 0 || i >= e.variants@.len() {
        Ok(())
    } else {
        both(variant_verdict(e, e.variants@[i], 0), enum_verdict(e, i + 1))
    }
}

/// The verdict on the enums, from enum `i` on.
pub open spec fn enums_verdict(es: Seq<IrEnum>, i: int) -> Verdict
    decreases es.len() - i,
{
    if i < 0 || i >= es.len() {
        Ok(())
    } else {
        both(enum_verdict(es[i], 0), enums_verdict(es, i + 1))
    }
}

fn check_variant(e: &IrEnum, v: &IrEnumVariant) -> (r: Result<(), PreflightError>)
    ensures
        says(r, variant_verdict(*e, *v, 0)),
{
    let mut i: usize = 0;
    while i < v.fields.len()
        invariant
            i <= v.fields@.len(),
            variant_verdict(*e, *v, 0) == variant_verdict(*e, *v, i as int),
        decreases v.fields@.len() - i,
    {
        let mut owner = quote("enum '", &e.name);
        owner.append(" variant '");
        let mut before = quote(&owner, &v.name);
        before.append(" field '");
        check_type(&v.fields[i].ty, &quote(&before, &v.fields[i].name))?;
        i = i + 1;
    }
    Ok(())
}

fn check_enum(e: &IrEnum) -> (r: Result<(), PreflightError>)
    ensures
        says(r, enum_verdict(*e, 0)),
{
    let mut i: usize = 0;
    while i < e.variants.len()
        invariant
            i <= e.variants@.len(),
            enum_verdict(*e, 0) == enum_verdict(*e, i as int),
        decreases e.variants@.len() - i,
    {
        check_variant(e, &e.variants[i])?;
        i = i + 1;
    }
    Ok(())
}

/// The verdict on a module-level `let`.
pub open spec fn let_verdict(l: IrLet) -> Verdict {
    let at = crate::text::quoted("let '"@, l.name@);
    both(type_verdict(l.ty, at), expr_verdict(l.value, at))
}

/// The verdict on the module-level `let`s, from number `i` on.
pub open spec fn lets_verdict(ls: Seq<IrLet>, i: int) -> Verdict
    decreases ls.len() - i,
{
    if i < 0 || i >= ls.len() {
        Ok(())
    } else {
        both(let_verdict(ls[i]), lets_verdict(ls, i + 1))
    }
}

fn check_let(l: &IrLet) -> (r: Result<(), PreflightError>)
    ensures
        says(r, let_verdict(*l)),
{
    let location = quote("let '", &l.name);
    check_type(&l.ty, &location)?;
    check_expr(&l.value, &location)
}

/// The verdict on a function at `at`.
pub open spec fn function_verdict(f: IrFunction, at: Seq<char>) -> Verdict {
    both(
        signature_verdict(f.params@, f.return_type, at),
        match f.body {
            Some(e) => expr_verdict(e, at + " body"@),
            None => Ok(()),
        },
    )
}

/// The verdict on functions whose places begin with `before`, from function
/// `i` on.
pub open spec fn functions_verdict(fs: Seq<IrFunction>, i: int, before: Seq<char>) -> Verdict
    decreases fs.len() - i,
{
    if i < 0 || i >= fs.len() {
        Ok(())
    } else {
        both(
            function_verdict(fs[i], crate::text::quoted(before, fs[i].name@)),
            functions_verdict(fs, i + 1, before),
        )
    }
}

fn check_function(f: &IrFunction, location: &str) -> (r: Result<(), PreflightError>)
    ensures
        says(r, function_verdict(*f, location@)),
{
    check_signature(&f.params, &f.return_type, location)?;
    if let Some(body) = &f.body {
        let mut at = location.to_owned();
        at.append(" body");
        check_expr(body, &at)?;
    }
    Ok(())
}

fn check_functions(fs: &Vec<IrFunction>, before: &str) -> (r: Result<(), PreflightError>)
    ensures
        says(r, functions_verdict(fs@, 0, before@)),
{
    let mut i: usize = 0;
    while i < fs.len()
        invariant
            i <= fs@.len(),
            functions_verdict(fs@, 0, before@) == functions_verdict(fs@, i as int, before@),
        decreases fs@.len() - i,
    {
        check_function(&fs[i], &quote(before, &fs[i].name))?;
        i = i + 1;
    }
    Ok(())
}

/// The name of a primitive type.
pub open spec fn primitive_name(p: PrimitiveType) -> Seq<char> {
    match p {
        PrimitiveType::String => "String"@,
        PrimitiveType::I32 => "I32"@,
        PrimitiveType::I64 => "I64"@,
        PrimitiveType::F32 => "F32"@,
        PrimitiveType::F64 => "F64"@,
        PrimitiveType::Boolean => "Boolean"@,
        PrimitiveType::Path => "Path"@,
        PrimitiveType::Regex => "Regex"@,
        PrimitiveType::Never => "Never"@,
    }
}

fn name_of_primitive(p: PrimitiveType) -> (r: String)
    ensures
        r@ == primitive_name(p),
{
    let name: &str = match p {
        PrimitiveType::String => "String",
        PrimitiveType::I32 => "I32",
        PrimitiveType::I64 => "I64",
        PrimitiveType::F32 => "F32",
        PrimitiveType::F64 => "F64",
        PrimitiveType::Boolean => "Boolean",
        PrimitiveType::Path => "Path",
        PrimitiveType::Regex => "Regex",
        PrimitiveType::Never => "Never",
    };
    name.to_owned()
}

/// How an impl block's type is called: by its name, or by its id where the
/// module has no such type.
pub open spec fn target_label(target: ImplTarget, m: IrModule) -> Seq<char> {
    match target {
        ImplTarget::Struct(id) => match m.spec_struct(id) {
            Some(s) => s.name@,
            None => "struct#"@ + crate::text::decimal(id.0 as nat),
        },
        ImplTarget::Enum(id) => match m.spec_enum(id) {
            Some(e) => e.name@,
            None => "enum#"@ + crate::text::decimal(id.0 as nat),
        },
        ImplTarget::Primitive(p) => "primitive "@ + primitive_name(p),
    }
}

/// The verdict on the impl blocks, from block `i` on.
pub open spec fn impls_verdict(impls: Seq<IrImpl>, i: int, m: IrModule) -> Verdict
    decreases impls.len() - i,
{
    if i < 0 || i >= impls.len() {
        Ok(())
    } else {
        both(
            functions_verdict(
                impls[i].functions@,
                0,
                crate::text::quoted("impl '"@, target_label(impls[i].target, m)) + " method '"@,
            ),
            impls_verdict(impls, i + 1, m),
        )
    }
}

fn label_of_target(target: ImplTarget, module: &IrModule) -> (r: String)
    ensures
        r@ == target_label(target, *module),
{
    match target {
        ImplTarget::Struct(id) => match module.get_struct(id) {
            Some(s) => s.name.clone(),
            None => {
                let mut label = "struct#".to_owned();
                label.append(&decimal_text(id.0 as u128));
                label
            },
        },
        ImplTarget::Enum(id) => match module.get_enum(id) {
            Some(e) => e.name.clone(),
            None => {
                let mut label = "enum#".to_owned();
                label.append(&decimal_text(id.0 as u128));
                label
            },
        },
        ImplTarget::Primitive(p) => {
            let mut label = "primitive ".to_owned();
            label.append(&name_of_primitive(p));
            label
        },
    }
}

fn check_impl(i: &IrImpl, module: &IrModule) -> (r: Result<(), PreflightError>)
    ensures
        says(
            r,
            functions_verdict(
                i.functions@,
                0,
                crate::text::quoted("impl '"@, target_label(i.target, *module)) + " method '"@,
            ),
        ),
{
    let mut before = quote("impl '", &label_of_target(i.target, module));
    before.append(" method '");
    check_functions(&i.functions, &before)
}

// ── modules ──────────────────────────────────────────────────────────

/// The verdict on a module: that on the first item that has one, structs
/// first, then traits, enums, `let`s, functions and impl blocks.
pub open spec fn verdict(m: IrModule) -> Verdict {
    both(
        structs_verdict(m.structs@, 0),
        both(
            traits_verdict(m.traits@, 0),
            both(
                enums_verdict(m.enums@, 0),
                both(
                    lets_verdict(m.lets@, 0),
                    both(
                        functions_verdict(m.functions@, 0, "function '"@),
                        impls_verdict(m.impls@, 0, m),
                    ),
                ),
            ),
        ),
    )
}

fn check_structs(ss: &Vec<IrStruct>) -> (r: Result<(), PreflightError>)
    ensures
        says(r, structs_verdict(ss@, 0)),
{
    let mut i: usize = 0;
    while i < ss.len()
        invariant
            i <= ss@.len(),
            structs_verdict(ss@, 0) == structs_verdict(ss@, i as int),
        decreases ss@.len() - i,
    {
        check_struct(&ss[i])?;
        i = i + 1;
    }
    Ok(())
}

fn check_traits(ts: &Vec<IrTrait>) -> (r: Result<(), PreflightError>)
    ensures
        says(r, traits_verdict(ts@, 0)),
{
    let mut i: usize = 0;
    while i < ts.len()
        invariant
            i <= ts@.len(),
            traits_verdict(ts@, 0) == traits_verdict(ts@, i as int),
        decreases ts@.len() - i,
    {
        check_trait(&ts[i])?;
        i = i + 1;
    }
    Ok(())
}

fn check_enums(es: &Vec<IrEnum>) -> (r: Result<(), PreflightError>)
    ensures
        says(r, enums_verdict(es@, 0)),
{
    let mut i: usize = 0;
    while i < es.len()
        invariant
            i <= es@.len(),
            enums_verdict(es@, 0) == enums_verdict(es@, i as int),
        decreases es@.len() - i,
    {
        check_enum(&es[i])?;
        i = i + 1;
    }
    Ok(())
}

fn check_lets(ls: &Vec<IrLet>) -> (r: Result<(), PreflightError>)
    ensures
        says(r, lets_verdict(ls@, 0)),
{
    let mut i: usize = 0;
    while i < ls.len()
        invariant
            i <= ls@.len(),
            lets_verdict(ls@, 0) == lets_verdict(ls@, i as int),
        decreases ls@.len() - i,
    {
        check_let(&ls[i])?;
        i = i + 1;
    }
    Ok(())
}

fn check_impls(module: &IrModule) -> (r: Result<(), PreflightError>)
    ensures
        says(r, impls_verdict(module.impls@, 0, *module)),
{
    let mut i: usize = 0;
    while i < module.impls.len()
        invariant
            i <= module.impls@.len(),
            impls_verdict(module.impls@, 0, *module) == impls_verdict(
                module.impls@,
                i as int,
                *module,
            ),
        decreases module.impls@.len() - i,
    {
        check_impl(&module.impls[i], module)?;
        i = i + 1;
    }
    Ok(())
}

/// Check a module. The first violation is reported.
pub fn check(module: &IrModule) -> (r: Result<(), PreflightError>)
    ensures
        says(r, verdict(*module)),
{
    check_structs(&module.structs)?;
    check_traits(&module.traits)?;
    check_enums(&module.enums)?;
    check_lets(&module.lets)?;
    check_functions(&module.functions, "function '")?;
    check_impls(module)
}

} // verus!
