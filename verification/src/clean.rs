//! Laws: which modules pass the preflight check.

use vstd::prelude::*;

use crate::ir::{
    IrEnum, IrEnumVariant, IrExpr, IrField, IrFunction, IrFunctionParam, IrImpl, IrLet, IrModule,
    IrStruct, IrTrait, List, ParamConvention, ResolvedType, Visibility,
};
use crate::preflight::Part;

verus! {

// ── types ────────────────────────────────────────────────────────────

/// A type in which no type parameter and no placeholder of a failed
/// compilation occurs.
pub open spec fn clean_type(ty: ResolvedType) -> bool
    decreases ty,
{
    match ty {
        ResolvedType::Primitive(_) => true,
        ResolvedType::Struct(_) => true,
        ResolvedType::Trait(_) => true,
        ResolvedType::Enum(_) => true,
        ResolvedType::Array(t) => clean_type(*t),
        ResolvedType::Range(t) => clean_type(*t),
        ResolvedType::Optional(t) => clean_type(*t),
        ResolvedType::Tuple(fields) => clean_fields(fields),
        ResolvedType::Generic { args, .. } => clean_types(args),
        ResolvedType::External { type_args, .. } => clean_types(type_args),
        ResolvedType::Dictionary { key_ty, value_ty } => clean_type(*key_ty) && clean_type(
            *value_ty,
        ),
        ResolvedType::Closure { param_tys, return_ty } => clean_params(param_tys) && clean_type(
            *return_ty,
        ),
        ResolvedType::TypeParam(_) => false,
        ResolvedType::Error => false,
    }
}

/// Types each of which is clean.
pub open spec fn clean_types(l: List<ResolvedType>) -> bool
    decreases l,
{
    match l {
        List::Nil => true,
        List::Cons(head, tail) => clean_type(*head) && clean_types(*tail),
    }
}

/// Tuple positions each of which has a clean type.
pub open spec fn clean_fields(l: List<(String, ResolvedType)>) -> bool
    decreases l,
{
    match l {
        List::Nil => true,
        List::Cons(head, tail) => clean_type((*head).1) && clean_fields(*tail),
    }
}

/// Closure parameters each of which has a clean type.
pub open spec fn clean_params(l: List<(ParamConvention, ResolvedType)>) -> bool
    decreases l,
{
    match l {
        List::Nil => true,
        List::Cons(head, tail) => clean_type((*head).1) && clean_params(*tail),
    }
}

proof fn lemma_type(ty: ResolvedType, at: Seq<char>)
    ensures
        crate::preflight::type_verdict(ty, at) is Ok <==> clean_type(ty),
    decreases ty,
{
    match ty {
        ResolvedType::Array(t) => lemma_type(*t, at),
        ResolvedType::Range(t) => lemma_type(*t, at),
        ResolvedType::Optional(t) => lemma_type(*t, at),
        ResolvedType::Tuple(fields) => lemma_fields(fields, at),
        ResolvedType::Generic { args, .. } => lemma_types(args, at),
        ResolvedType::External { type_args, .. } => lemma_types(type_args, at),
        ResolvedType::Dictionary { key_ty, value_ty } => {
            lemma_type(*key_ty, at);
            lemma_type(*value_ty, at);
        },
        ResolvedType::Closure { param_tys, return_ty } => {
            lemma_params(param_tys, at);
            lemma_type(*return_ty, at);
        },
        _ => {},
    }
}

proof fn lemma_types(l: List<ResolvedType>, at: Seq<char>)
    ensures
        crate::preflight::types_verdict(l, at) is Ok <==> clean_types(l),
    decreases l,
{
    if let List::Cons(head, tail) = l {
        lemma_type(*head, at);
        lemma_types(*tail, at);
    }
}

proof fn lemma_fields(l: List<(String, ResolvedType)>, at: Seq<char>)
    ensures
        crate::preflight::fields_verdict(l, at) is Ok <==> clean_fields(l),
    decreases l,
{
    if let List::Cons(head, tail) = l {
        lemma_type((*head).1, at);
        lemma_fields(*tail, at);
    }
}

proof fn lemma_params(l: List<(ParamConvention, ResolvedType)>, at: Seq<char>)
    ensures
        crate::preflight::params_verdict(l, at) is Ok <==> clean_params(l),
    decreases l,
{
    if let List::Cons(head, tail) = l {
        lemma_type((*head).1, at);
        lemma_params(*tail, at);
    }
}

// ── expressions ──────────────────────────────────────────────────────

/// An expression of clean type that is no closure and has only clean parts.
pub open spec fn clean_expr(e: IrExpr) -> bool
    decreases e, 1nat, 0nat,
{
    clean_type(e.spec_ty()) && !(e is Closure) && clean_parts(e, 0)
}

/// Whether the parts of an expression are clean, from part `i` on.
pub open spec fn clean_parts(e: IrExpr, i: int) -> bool
    decreases e, 0nat, crate::preflight::parts(e).len() - i,
{
    if i < 0 || i >= crate::preflight::parts(e).len() {
        true
    } else {
        proof {
            crate::preflight::lemma_part_is_smaller(e, i);
        }
        (match crate::preflight::parts(e)[i] {
            Part::Type(t) => clean_type(t),
            Part::Value(x) => clean_expr(x),
        }) && clean_parts(e, i + 1)
    }
}

proof fn lemma_expr(e: IrExpr, at: Seq<char>)
    ensures
        crate::preflight::expr_verdict(e, at) is Ok <==> clean_expr(e),
    decreases e, 1nat, 0nat,
{
    lemma_type(e.spec_ty(), at);
    lemma_parts(e, 0, at);
}

proof fn lemma_parts(e: IrExpr, i: int, at: Seq<char>)
    ensures
        crate::preflight::parts_verdict(e, i, at) is Ok <==> clean_parts(e, i),
    decreases e, 0nat, crate::preflight::parts(e).len() - i,
{
    if 0 <= i < crate::preflight::parts(e).len() {
        crate::preflight::lemma_part_is_smaller(e, i);
        match crate::preflight::parts(e)[i] {
            Part::Type(t) => lemma_type(t, at),
            Part::Value(x) => {
                lemma_expr(x, at);
                assert(clean_expr(x) <==> crate::preflight::expr_verdict(x, at) is Ok);
            },
        }
        lemma_parts(e, i + 1, at);
    }
}

/// Whether an expression is clean, where there is one.
pub open spec fn clean_optional(e: Option<IrExpr>) -> bool {
    match e {
        Some(x) => clean_expr(x),
        None => true,
    }
}

/// Whether a type is clean, where there is one.
pub open spec fn clean_annotation(ty: Option<ResolvedType>) -> bool {
    match ty {
        Some(t) => clean_type(t),
        None => true,
    }
}

// ── items ────────────────────────────────────────────────────────────

/// A field of clean type and with a clean default, which is no closure where
/// the struct is public.
pub open spec fn clean_field(s: IrStruct, f: IrField) -> bool {
    &&& !(s.visibility == Visibility::Public && f.ty is Closure)
    &&& clean_type(f.ty)
    &&& clean_optional(f.default)
}

/// A struct of clean fields.
pub open spec fn clean_struct(s: IrStruct) -> bool {
    forall|i: int| 0 <= i < s.fields@.len() ==> clean_field(s, #[trigger] s.fields@[i])
}

/// A signature of clean types.
pub open spec fn clean_signature(ps: Seq<IrFunctionParam>, result: Option<ResolvedType>) -> bool {
    &&& forall|i: int| 0 <= i < ps.len() ==> clean_annotation((#[trigger] ps[i]).ty)
    &&& clean_annotation(result)
}

/// A trait without generic parameters and of clean types.
pub open spec fn clean_trait(t: IrTrait) -> bool {
    &&& t.generic_params@.len() == 0
    &&& forall|i: int| 0 <= i < t.fields@.len() ==> clean_type((#[trigger] t.fields@[i]).ty)
    &&& forall|i: int|
        0 <= i < t.methods@.len() ==> clean_signature(
            (#[trigger] t.methods@[i]).params@,
            t.methods@[i].return_type,
        )
}

/// A variant of clean fields.
pub open spec fn clean_variant(v: IrEnumVariant) -> bool {
    forall|i: int| 0 <= i < v.fields@.len() ==> clean_type((#[trigger] v.fields@[i]).ty)
}

/// An enum of clean variants.
pub open spec fn clean_enum(e: IrEnum) -> bool {
    forall|i: int| 0 <= i < e.variants@.len() ==> clean_variant(#[trigger] e.variants@[i])
}

/// A function with a clean signature and body.
pub open spec fn clean_function(f: IrFunction) -> bool {
    clean_signature(f.params@, f.return_type) && clean_optional(f.body)
}

/// Functions each of which is clean.
pub open spec fn clean_functions(fs: Seq<IrFunction>) -> bool {
    forall|i: int| 0 <= i < fs.len() ==> clean_function(#[trigger] fs[i])
}

/// A module in which nothing is left that earlier passes replace: no closure
/// literal, no type parameter, no placeholder of a failed compilation, no
/// generic trait; and in which no public struct has a field of closure type.
pub open spec fn clean(m: IrModule) -> bool {
    &&& forall|i: int| 0 <= i < m.structs@.len() ==> clean_struct(#[trigger] m.structs@[i])
    &&& forall|i: int| 0 <= i < m.traits@.len() ==> clean_trait(#[trigger] m.traits@[i])
    &&& forall|i: int| 0 <= i < m.enums@.len() ==> clean_enum(#[trigger] m.enums@[i])
    &&& forall|i: int|
        0 <= i < m.lets@.len() ==> clean_type((#[trigger] m.lets@[i]).ty) && clean_expr(
            m.lets@[i].value,
        )
    &&& clean_functions(m.functions@)
    &&& forall|i: int|
        0 <= i < m.impls@.len() ==> clean_functions((#[trigger] m.impls@[i]).functions@)
}

proof fn lemma_struct(s: IrStruct, i: int)
    requires
        0 <= i,
    ensures
        crate::preflight::struct_verdict(s, i) is Ok <==> forall|k: int|
            i <= k < s.fields@.len() ==> clean_field(s, #[trigger] s.fields@[k]),
    decreases s.fields@.len() - i,
{
    if i < s.fields@.len() {
        let f = s.fields@[i];
        lemma_type(
            f.ty,
            crate::text::quoted(crate::text::quoted("struct '"@, s.name@) + " field '"@, f.name@),
        );
        if let Some(e) = f.default {
            lemma_expr(e, "default for "@ + s.name@ + "::"@ + f.name@);
        }
        lemma_struct(s, i + 1);
        assert(crate::preflight::field_verdict(s, f) is Ok <==> clean_field(s, f));
    }
}

proof fn lemma_structs(ss: Seq<IrStruct>, i: int)
    requires
        0 <= i,
    ensures
        crate::preflight::structs_verdict(ss, i) is Ok <==> forall|k: int|
            i <= k < ss.len() ==> clean_struct(#[trigger] ss[k]),
    decreases ss.len() - i,
{
    if i < ss.len() {
        lemma_struct(ss[i], 0);
        lemma_structs(ss, i + 1);
    }
}

proof fn lemma_declared_params(ps: Seq<IrFunctionParam>, i: int, at: Seq<char>)
    requires
        0 <= i,
    ensures
        crate::preflight::declared_params_verdict(ps, i, at) is Ok <==> forall|k: int|
            i <= k < ps.len() ==> clean_annotation((#[trigger] ps[k]).ty),
    decreases ps.len() - i,
{
    if i < ps.len() {
        if let Some(t) = ps[i].ty {
            lemma_type(t, crate::text::quoted(at + " parameter '"@, ps[i].name@));
        }
        lemma_declared_params(ps, i + 1, at);
    }
}

proof fn lemma_signature(ps: Seq<IrFunctionParam>, result: Option<ResolvedType>, at: Seq<char>)
    ensures
        crate::preflight::signature_verdict(ps, result, at) is Ok <==> clean_signature(ps, result),
{
    lemma_declared_params(ps, 0, at);
    if let Some(t) = result {
        lemma_type(t, at + " return type"@);
    }
}

proof fn lemma_trait_fields(t: IrTrait, i: int)
    requires
        0 <= i,
    ensures
        crate::preflight::trait_fields_verdict(t, i) is Ok <==> forall|k: int|
            i <= k < t.fields@.len() ==> clean_type((#[trigger] t.fields@[k]).ty),
    decreases t.fields@.len() - i,
{
    if i < t.fields@.len() {
        lemma_type(
            t.fields@[i].ty,
            crate::text::quoted(
                crate::text::quoted("trait '"@, t.name@) + " field '"@,
                t.fields@[i].name@,
            ),
        );
        lemma_trait_fields(t, i + 1);
    }
}

proof fn lemma_trait_methods(t: IrTrait, i: int)
    requires
        0 <= i,
    ensures
        crate::preflight::trait_methods_verdict(t, i) is Ok <==> forall|k: int|
            i <= k < t.methods@.len() ==> clean_signature(
                (#[trigger] t.methods@[k]).params@,
                t.methods@[k].return_type,
            ),
    decreases t.methods@.len() - i,
{
    if i < t.methods@.len() {
        let sig = t.methods@[i];
        lemma_signature(
            sig.params@,
            sig.return_type,
            crate::text::quoted(crate::text::quoted("trait '"@, t.name@) + " method '"@, sig.name@),
        );
        lemma_trait_methods(t, i + 1);
    }
}

proof fn lemma_traits(ts: Seq<IrTrait>, i: int)
    requires
        0 <= i,
    ensures
        crate::preflight::traits_verdict(ts, i) is Ok <==> forall|k: int|
            i <= k < ts.len() ==> clean_trait(#[trigger] ts[k]),
    decreases ts.len() - i,
{
    if i < ts.len() {
        lemma_trait_fields(ts[i], 0);
        lemma_trait_methods(ts[i], 0);
        lemma_traits(ts, i + 1);
    }
}

proof fn lemma_variant(e: IrEnum, v: IrEnumVariant, i: int)
    requires
        0 <= i,
    ensures
        crate::preflight::variant_verdict(e, v, i) is Ok <==> forall|k: int|
            i <= k < v.fields@.len() ==> clean_type((#[trigger] v.fields@[k]).ty),
    decreases v.fields@.len() - i,
{
    if i < v.fields@.len() {
        lemma_type(
            v.fields@[i].ty,
            crate::text::quoted(
                crate::text::quoted(
                    crate::text::quoted("enum '"@, e.name@) + " variant '"@,
                    v.name@,
                ) + " field '"@,
                v.fields@[i].name@,
            ),
        );
        lemma_variant(e, v, i + 1);
    }
}

proof fn lemma_enum(e: IrEnum, i: int)
    requires
        0 <= i,
    ensures
        crate::preflight::enum_verdict(e, i) is Ok <==> forall|k: int|
            i <= k < e.variants@.len() ==> clean_variant(#[trigger] e.variants@[k]),
    decreases e.variants@.len() - i,
{
    if i < e.variants@.len() {
        lemma_variant(e, e.variants@[i], 0);
        lemma_enum(e, i + 1);
    }
}

proof fn lemma_enums(es: Seq<IrEnum>, i: int)
    requires
        0 <= i,
    ensures
        crate::preflight::enums_verdict(es, i) is Ok <==> forall|k: int|
            i <= k < es.len() ==> clean_enum(#[trigger] es[k]),
    decreases es.len() - i,
{
    if i < es.len() {
        lemma_enum(es[i], 0);
        lemma_enums(es, i + 1);
    }
}

proof fn lemma_lets(ls: Seq<IrLet>, i: int)
    requires
        0 <= i,
    ensures
        crate::preflight::lets_verdict(ls, i) is Ok <==> forall|k: int|
            i <= k < ls.len() ==> clean_type((#[trigger] ls[k]).ty) && clean_expr(ls[k].value),
    decreases ls.len() - i,
{
    if i < ls.len() {
        let at = crate::text::quoted("let '"@, ls[i].name@);
        lemma_type(ls[i].ty, at);
        lemma_expr(ls[i].value, at);
        lemma_lets(ls, i + 1);
    }
}

proof fn lemma_functions(fs: Seq<IrFunction>, i: int, before: Seq<char>)
    requires
        0 <= i,
    ensures
        crate::preflight::functions_verdict(fs, i, before) is Ok <==> forall|k: int|
            i <= k < fs.len() ==> clean_function(#[trigger] fs[k]),
    decreases fs.len() - i,
{
    if i < fs.len() {
        let at = crate::text::quoted(before, fs[i].name@);
        lemma_signature(fs[i].params@, fs[i].return_type, at);
        if let Some(e) = fs[i].body {
            lemma_expr(e, at + " body"@);
        }
        assert(crate::preflight::function_verdict(fs[i], at) is Ok <==> clean_function(fs[i]));
        lemma_functions(fs, i + 1, before);
    }
}

proof fn lemma_impls(impls: Seq<IrImpl>, i: int, m: IrModule)
    requires
        0 <= i,
    ensures
        crate::preflight::impls_verdict(impls, i, m) is Ok <==> forall|k: int|
            i <= k < impls.len() ==> clean_functions((#[trigger] impls[k]).functions@),
    decreases impls.len() - i,
{
    if i < impls.len() {
        lemma_functions(
            impls[i].functions@,
            0,
            crate::text::quoted(
                "impl '"@,
                crate::preflight::target_label(impls[i].target, m),
            ) + " method '"@,
        );
        lemma_impls(impls, i + 1, m);
    }
}

/// The preflight check passes exactly the clean modules.
pub proof fn law_preflight_passes_exactly_clean_modules(m: IrModule)
    ensures
        crate::preflight::verdict(m) is Ok <==> clean(m),
{
    lemma_structs(m.structs@, 0);
    lemma_traits(m.traits@, 0);
    lemma_enums(m.enums@, 0);
    lemma_lets(m.lets@, 0);
    lemma_functions(m.functions@, 0, "function '"@);
    lemma_impls(m.impls@, 0, m);
}

} // verus!
