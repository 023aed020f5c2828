//! Laws: what the document of a module declares.

use vstd::prelude::*;

use crate::compound::Shape;
use crate::ir::{
    EnumId, FunctionId, ImplTarget, IrEnum, IrEnumVariant, IrField, IrFunction, IrFunctionParam,
    IrImpl, IrModule, IrStruct, List, PrimitiveType, ResolvedType, StructId,
};
use crate::survey::SurfaceView;
use crate::wit::{PACKAGE, WORLD_NAME};

verus! {

// ── types ────────────────────────────────────────────────────────────

/// A type of the interface language.
pub enum WitType {
    Bool,
    S32,
    S64,
    F32,
    F64,
    Text,
    Named(Seq<char>),
    List(Box<WitType>),
    Maybe(Box<WitType>),
    Tuple(List<WitType>),
}

/// How a type is written.
pub open spec fn shown(t: WitType) -> Seq<char>
    decreases t,
{
    match t {
        WitType::Bool => "bool"@,
        WitType::S32 => "s32"@,
        WitType::S64 => "s64"@,
        WitType::F32 => "f32"@,
        WitType::F64 => "f64"@,
        WitType::Text => "string"@,
        WitType::Named(name) => name,
        WitType::List(t) => "list<"@ + shown(*t) + ">"@,
        WitType::Maybe(t) => "option<"@ + shown(*t) + ">"@,
        WitType::Tuple(l) => "tuple<"@ + shown_all(l) + ">"@,
    }
}

/// How a list of types is written.
pub open spec fn shown_all(l: List<WitType>) -> Seq<char>
    decreases l,
{
    match l {
        List::Nil => Seq::empty(),
        List::Cons(head, tail) => if *tail is Nil {
            shown(*head)
        } else {
            shown(*head) + ", "@ + shown_all(*tail)
        },
    }
}

/// The interface type of a type of the module: numbers and texts are
/// themselves, lists and optional values go by what is inside, a dictionary is
/// a list of pairs, and structs and enums go by their names.
pub open spec fn type_of(ty: ResolvedType, m: IrModule) -> WitType
    decreases ty,
{
    proof {
        crate::compound::lemma_shape_is_smaller(ty, m);
    }
    match crate::compound::shape_of(ty, m) {
        Shape::Array(t) => WitType::List(Box::new(type_of(t, m))),
        Shape::Optional(t) => WitType::Maybe(Box::new(type_of(t, m))),
        Shape::Dictionary(k, v) => WitType::List(
            Box::new(
                WitType::Tuple(
                    List::Cons(
                        Box::new(type_of(k, m)),
                        Box::new(List::Cons(Box::new(type_of(v, m)), Box::new(List::Nil))),
                    ),
                ),
            ),
        ),
        _ => match ty {
            ResolvedType::Primitive(p) => match p {
                PrimitiveType::Boolean => WitType::Bool,
                PrimitiveType::I32 => WitType::S32,
                PrimitiveType::I64 => WitType::S64,
                PrimitiveType::F32 => WitType::F32,
                PrimitiveType::F64 => WitType::F64,
                _ => WitType::Text,
            },
            ResolvedType::Struct(id) => WitType::Named(
                crate::ident::kebab(m.structs@[id.0 as int].name@),
            ),
            ResolvedType::Enum(id) => WitType::Named(
                crate::ident::kebab(m.enums@[id.0 as int].name@),
            ),
            ResolvedType::Tuple(fields) => WitType::Tuple(types_of(fields, m)),
            _ => WitType::Named(Seq::empty()),
        },
    }
}

/// The interface types of a tuple's positions.
pub open spec fn types_of(l: List<(String, ResolvedType)>, m: IrModule) -> List<WitType>
    decreases l,
{
    match l {
        List::Nil => List::Nil,
        List::Cons(head, tail) => List::Cons(
            Box::new(type_of((*head).1, m)),
            Box::new(types_of(*tail, m)),
        ),
    }
}

/// A type is written as the interface type that it is.
pub proof fn law_types_are_written_as_they_are(ty: ResolvedType, m: IrModule)
    ensures
        crate::wit::wit_type(ty, m) matches Ok(Some(text)) ==> text == shown(type_of(ty, m)),
    decreases ty,
{
    crate::compound::lemma_shape_is_smaller(ty, m);
    match crate::compound::shape_of(ty, m) {
        Shape::Array(t) => law_types_are_written_as_they_are(t, m),
        Shape::Optional(t) => law_types_are_written_as_they_are(t, m),
        Shape::Dictionary(k, v) => {
            law_types_are_written_as_they_are(k, m);
            law_types_are_written_as_they_are(v, m);
            reveal_with_fuel(shown, 4);
            reveal_with_fuel(shown_all, 4);
            if let Ok(Some(text)) = crate::wit::wit_type(ty, m) {
                reveal_strlit("list<tuple<");
                reveal_strlit("list<");
                reveal_strlit("tuple<");
                reveal_strlit(">>");
                reveal_strlit(">");
                assert(text =~= shown(type_of(ty, m)));
            }
        },
        Shape::Range(_) => {},
        Shape::Other => {
            if let ResolvedType::Tuple(fields) = ty {
                lemma_items(fields, 0, m, "tuple<"@);
            }
        },
    }
}

proof fn lemma_items(l: List<(String, ResolvedType)>, i: usize, m: IrModule, out: Seq<char>)
    ensures
        crate::wit::tuple_items(l, i, m, out) matches Ok(text) ==> text == (if l is Nil {
            out
        } else {
            crate::wit::separated(out, i > 0)
        }) + shown_all(types_of(l, m)),
    decreases l,
{
    if let List::Cons(head, tail) = l {
        law_types_are_written_as_they_are((*head).1, m);
        if let Ok(Some(t)) = crate::wit::wit_type((*head).1, m) {
            let next = crate::wit::separated(out, i > 0) + t;
            lemma_items(*tail, crate::wit::next_position(i), m, next);
            if let Ok(text) = crate::wit::tuple_items(l, i, m, out) {
                assert(text =~= crate::wit::separated(out, i > 0) + shown_all(types_of(l, m)));
            }
        }
    } else {
        assert(out + shown_all(types_of(l, m)) =~= out);
    }
}

// ── texts in a row ───────────────────────────────────────────────────

/// The texts from number `i` on, one behind the other.
pub open spec fn joined(parts: Seq<Seq<char>>, i: int) -> Seq<char>
    decreases parts.len() - i,
{
    if i < 0 || i >= parts.len() {
        Seq::empty()
    } else {
        parts[i] + joined(parts, i + 1)
    }
}

/// One text, then the others.
proof fn lemma_joined(out: Seq<char>, parts: Seq<Seq<char>>, i: int, text: Seq<char>)
    requires
        0 <= i < parts.len(),
        text == out + parts[i] + joined(parts, i + 1),
    ensures
        text == out + joined(parts, i),
{
    assert(text =~= out + joined(parts, i));
}

// ── records ──────────────────────────────────────────────────────────

/// The line of a field: its name, and its own type.
pub open spec fn field_line(f: IrField, m: IrModule) -> Seq<char> {
    "    "@ + crate::ident::kebab(f.name@) + ": "@ + shown(type_of(f.ty, m)) + ",\n"@
}

/// The record of a struct: one line for each field.
pub open spec fn record_text(s: IrStruct, m: IrModule) -> Seq<char> {
    "  record "@ + crate::ident::kebab(s.name@) + " {\n"@ + joined(
        Seq::new(s.fields@.len(), |k: int| field_line(s.fields@[k], m)),
        0,
    ) + "  }\n"@
}

proof fn lemma_fields(s: IrStruct, i: int, m: IrModule, out: Seq<char>)
    requires
        0 <= i <= s.fields@.len(),
    ensures
        crate::wit::record_fields(s, i, m, out) matches Ok(text) ==> text == out + joined(
            Seq::new(s.fields@.len(), |k: int| field_line(s.fields@[k], m)),
            i,
        ),
    decreases s.fields@.len() - i,
{
    let lines = Seq::new(s.fields@.len(), |k: int| field_line(s.fields@[k], m));
    if i < s.fields@.len() {
        let f = s.fields@[i];
        law_types_are_written_as_they_are(f.ty, m);
        let begun = out + "    "@ + crate::ident::kebab(f.name@) + ": "@;
        if let Ok(one) = crate::wit::with_value_type(f.ty, m, "record "@ + s.name@, f.name@, begun) {
            lemma_fields(s, i + 1, m, one + ",\n"@);
            if let Ok(text) = crate::wit::record_fields(s, i, m, out) {
                assert(one + ",\n"@ =~= out + lines[i]);
                lemma_joined(out, lines, i, text);
            }
        }
    } else {
        assert(out + joined(lines, i) =~= out);
    }
}

/// The record of a public struct has one line for each of its fields, in
/// order: line `k` pairs the name of field `k` with the type of field `k`.
pub proof fn law_records_have_the_fields_of_their_structs(s: IrStruct, m: IrModule, out: Seq<char>)
    ensures
        crate::wit::with_record(s, m, out) matches Ok(text) ==> text == out + record_text(s, m),
{
    let begun = out + "  record "@ + crate::ident::kebab(s.name@) + " {\n"@;
    lemma_fields(s, 0, m, begun);
    if let Ok(text) = crate::wit::with_record(s, m, out) {
        assert(text =~= out + record_text(s, m));
    }
}

// ── variants ─────────────────────────────────────────────────────────

/// What a case carries: nothing, its only field, or the tuple of its fields.
pub open spec fn payload_text(fields: Seq<IrField>, m: IrModule) -> Seq<char> {
    if fields.len() == 0 {
        Seq::empty()
    } else if fields.len() == 1 {
        "("@ + shown(type_of(fields[0].ty, m)) + ")"@
    } else {
        "("@ + "tuple<"@ + joined(payload_parts(fields, m), 0) + ">"@ + ")"@
    }
}

/// The types of a case's fields, each behind a comma but the first.
pub open spec fn payload_parts(fields: Seq<IrField>, m: IrModule) -> Seq<Seq<char>> {
    Seq::new(
        fields.len(),
        |k: int|
            (if k > 0 {
                ", "@
            } else {
                Seq::empty()
            }) + shown(type_of(fields[k].ty, m)),
    )
}

/// The line of a case.
pub open spec fn case_line(v: IrEnumVariant, m: IrModule) -> Seq<char> {
    "    "@ + crate::ident::kebab(v.name@) + payload_text(v.fields@, m) + ",\n"@
}

/// The variant of an enum: one line for each case.
pub open spec fn variant_text(e: IrEnum, m: IrModule) -> Seq<char> {
    "  variant "@ + crate::ident::kebab(e.name@) + " {\n"@ + joined(
        Seq::new(e.variants@.len(), |k: int| case_line(e.variants@[k], m)),
        0,
    ) + "  }\n"@
}

proof fn lemma_payload(fields: Seq<IrField>, i: int, owner: Seq<char>, m: IrModule, out: Seq<char>)
    requires
        0 <= i <= fields.len(),
    ensures
        crate::wit::payload_items(fields, i, owner, m, out) matches Ok(text) ==> text == out
            + joined(payload_parts(fields, m), i),
    decreases fields.len() - i,
{
    let parts = payload_parts(fields, m);
    if i < fields.len() {
        law_types_are_written_as_they_are(fields[i].ty, m);
        let begun = crate::wit::separated(out, i > 0);
        if let Ok(one) = crate::wit::with_value_type(
            fields[i].ty,
            m,
            owner,
            fields[i].name@,
            begun,
        ) {
            lemma_payload(fields, i + 1, owner, m, one);
            if let Ok(text) = crate::wit::payload_items(fields, i, owner, m, out) {
                assert(one =~= out + parts[i]);
                lemma_joined(out, parts, i, text);
            }
        }
    } else {
        assert(out + joined(parts, i) =~= out);
    }
}

proof fn lemma_case(v: IrEnumVariant, owner: Seq<char>, m: IrModule, out: Seq<char>)
    ensures
        crate::wit::with_case(v, owner, m, out) matches Ok(text) ==> text == out + case_line(v, m),
{
    let named = out + "    "@ + crate::ident::kebab(v.name@);
    let parts = payload_parts(v.fields@, m);
    reveal_strlit("),\n");
    reveal_strlit(")");
    reveal_strlit(",\n");
    if v.fields@.len() == 1 {
        lemma_payload(v.fields@, 0, owner, m, named + "("@);
        reveal_with_fuel(joined, 2);
        assert(joined(parts, 0) =~= shown(type_of(v.fields@[0].ty, m)));
    } else if v.fields@.len() > 1 {
        lemma_payload(v.fields@, 0, owner, m, "tuple<"@);
    }
    if let Ok(text) = crate::wit::with_case(v, owner, m, out) {
        assert(text =~= out + case_line(v, m));
    }
}

proof fn lemma_cases(e: IrEnum, i: int, m: IrModule, out: Seq<char>)
    requires
        0 <= i <= e.variants@.len(),
    ensures
        crate::wit::variant_cases(e, i, m, out) matches Ok(text) ==> text == out + joined(
            Seq::new(e.variants@.len(), |k: int| case_line(e.variants@[k], m)),
            i,
        ),
    decreases e.variants@.len() - i,
{
    let lines = Seq::new(e.variants@.len(), |k: int| case_line(e.variants@[k], m));
    if i < e.variants@.len() {
        let owner = "variant "@ + e.name@;
        lemma_case(e.variants@[i], owner, m, out);
        if let Ok(one) = crate::wit::with_case(e.variants@[i], owner, m, out) {
            lemma_cases(e, i + 1, m, one);
            if let Ok(text) = crate::wit::variant_cases(e, i, m, out) {
                lemma_joined(out, lines, i, text);
            }
        }
    } else {
        assert(out + joined(lines, i) =~= out);
    }
}

/// The variant of a public enum has one case for each of the enum's variants,
/// in order, with the name and the types of that variant's fields.
pub proof fn law_variants_have_the_cases_of_their_enums(e: IrEnum, m: IrModule, out: Seq<char>)
    ensures
        crate::wit::with_variant(e, m, out) matches Ok(text) ==> text == out + variant_text(e, m),
{
    let begun = out + "  variant "@ + crate::ident::kebab(e.name@) + " {\n"@;
    lemma_cases(e, 0, m, begun);
    if let Ok(text) = crate::wit::with_variant(e, m, out) {
        assert(text =~= out + variant_text(e, m));
    }
}

// ── functions ────────────────────────────────────────────────────────

/// The parameters, each with its name and its own type, behind a comma but
/// the first; `follows` says whether something precedes that.
pub open spec fn param_parts(ps: Seq<IrFunctionParam>, from: int, follows: bool, m: IrModule) -> Seq<
    Seq<char>,
> {
    Seq::new(
        ps.len(),
        |k: int|
            (if k > from || follows {
                ", "@
            } else {
                Seq::empty()
            }) + crate::ident::kebab(ps[k].name@) + ": "@ + shown(type_of(ps[k].ty->Some_0, m)),
    )
}

/// What a function gives, if it gives something that has values.
pub open spec fn result_text(ty: Option<ResolvedType>, m: IrModule) -> Seq<char> {
    match ty {
        Some(t) => if crate::wit::wit_type(t, m) == Ok::<_, crate::types::TypeMapError>(
            None::<Seq<char>>,
        ) {
            Seq::empty()
        } else {
            " -> "@ + shown(type_of(t, m))
        },
        None => Seq::empty(),
    }
}

/// The line of a function.
pub open spec fn function_line(f: IrFunction, kind: Seq<char>, m: IrModule) -> Seq<char> {
    "  "@ + kind + " "@ + crate::ident::kebab(f.name@) + ": func("@ + joined(
        param_parts(f.params@, 0, false, m),
        0,
    ) + ")"@ + result_text(f.return_type, m) + ";\n"@
}

proof fn lemma_params(
    ps: Seq<IrFunctionParam>,
    i: int,
    from: int,
    follows: bool,
    function: Seq<char>,
    m: IrModule,
    out: Seq<char>,
)
    requires
        from <= i,
        0 <= i,
    ensures
        crate::wit::with_params(ps, i, i > from || follows, function, m, out) matches Ok(text)
            ==> text == out + joined(param_parts(ps, from, follows, m), i),
    decreases ps.len() - i,
{
    let parts = param_parts(ps, from, follows, m);
    if i < ps.len() {
        if let Some(t) = ps[i].ty {
            law_types_are_written_as_they_are(t, m);
            let begun = crate::wit::separated(out, i > from || follows) + crate::ident::kebab(
                ps[i].name@,
            ) + ": "@;
            if let Ok(one) = crate::wit::with_value_type(t, m, function, ps[i].name@, begun) {
                lemma_params(ps, i + 1, from, follows, function, m, one);
                if let Ok(text) = crate::wit::with_params(
                    ps,
                    i,
                    i > from || follows,
                    function,
                    m,
                    out,
                ) {
                    assert(one =~= out + parts[i]);
                    lemma_joined(out, parts, i, text);
                }
            }
        }
    } else {
        assert(out + joined(parts, i) =~= out);
    }
}

proof fn lemma_result(ty: Option<ResolvedType>, m: IrModule, out: Seq<char>)
    ensures
        crate::wit::with_result(ty, m, out) matches Ok(text) ==> text == out + ")"@ + result_text(
            ty,
            m,
        ) + ";\n"@,
{
    if let Some(t) = ty {
        law_types_are_written_as_they_are(t, m);
    }
    if let Ok(text) = crate::wit::with_result(ty, m, out) {
        assert(text =~= out + ")"@ + result_text(ty, m) + ";\n"@);
    }
}

/// The line of a function names it, its parameters in order, each with its own
/// type, and what it gives.
pub proof fn law_function_lines_have_their_signatures(
    f: IrFunction,
    kind: Seq<char>,
    m: IrModule,
    out: Seq<char>,
)
    ensures
        crate::wit::with_function(f, kind, m, out) matches Ok(text) ==> text == out + function_line(
            f,
            kind,
            m,
        ),
{
    let begun = out + "  "@ + kind + " "@ + crate::ident::kebab(f.name@) + ": func("@;
    lemma_params(f.params@, 0, 0, false, f.name@, m, begun);
    if let Ok(one) = crate::wit::with_params(f.params@, 0, false, f.name@, m, begun) {
        lemma_result(f.return_type, m, one);
        if let Ok(text) = crate::wit::with_function(f, kind, m, out) {
            assert(text =~= out + function_line(f, kind, m));
        }
    }
}

/// Whether a host method has a receiver: not where that is a struct without
/// fields.
pub open spec fn has_receiver(target: ImplTarget, m: IrModule) -> bool {
    !(target matches ImplTarget::Struct(id) && id.0 < m.structs@.len()
        && m.structs@[id.0 as int].fields@.len() == 0)
}

/// The line of a host method of the type called `name`, up to the parameters:
/// the receiver comes first.
pub open spec fn method_head(f: IrFunction, target: ImplTarget, name: Seq<char>, m: IrModule) -> Seq<
    char,
> {
    "  import "@ + crate::ident::kebab(name) + "-"@ + crate::ident::kebab(f.name@) + ": func("@ + (
    if has_receiver(target, m) {
        "self: "@ + crate::ident::kebab(name)
    } else {
        Seq::empty()
    })
}

/// The line of a host method of the type called `name`.
pub open spec fn method_line(f: IrFunction, target: ImplTarget, name: Seq<char>, m: IrModule) -> Seq<
    char,
> {
    method_head(f, target, name, m) + (joined(
        param_parts(f.params@, 1, has_receiver(target, m), m),
        1,
    ) + ")"@ + result_text(f.return_type, m) + ";\n"@)
}

proof fn lemma_method_head(
    f: IrFunction,
    target: ImplTarget,
    name: Seq<char>,
    m: IrModule,
    out: Seq<char>,
)
    ensures
        ({
            let opened = out + "  import "@ + crate::wit::method_import_name(name, f.name@)
                + ": func("@;
            let begun = if has_receiver(target, m) {
                opened + "self: "@ + crate::ident::kebab(name)
            } else {
                opened
            };
            begun == out + method_head(f, target, name, m)
        }),
{
    let opened = out + "  import "@ + crate::wit::method_import_name(name, f.name@) + ": func("@;
    if has_receiver(target, m) {
        assert(opened + "self: "@ + crate::ident::kebab(name) =~= out + method_head(
            f,
            target,
            name,
            m,
        ));
    } else {
        assert(opened =~= out + method_head(f, target, name, m));
    }
}

/// The line of a host method names its type and it, the receiver where it has
/// fields, the other parameters and what it gives.
pub proof fn law_method_lines_have_their_signatures(
    f: IrFunction,
    target: ImplTarget,
    name: Seq<char>,
    m: IrModule,
    out: Seq<char>,
)
    ensures
        crate::wit::with_method(f, target, name, m, out) matches Ok(text) ==> text == out
            + method_line(f, target, name, m),
{
    let import = crate::wit::method_import_name(name, f.name@);
    let head = method_head(f, target, name, m);
    let received = has_receiver(target, m);
    assert(received == !crate::module_lowering::indices::drops_receiver(target, m));
    lemma_method_head(f, target, name, m, out);
    let begun = out + head;
    lemma_params(f.params@, 1, 1, received, import, m, begun);
    let written = crate::wit::with_params(f.params@, 1, received, import, m, begun);
    if let Ok(one) = written {
        lemma_result(f.return_type, m, one);
        let middle = joined(param_parts(f.params@, 1, received, m), 1);
        let last = result_text(f.return_type, m);
        assert(begun + middle + ")"@ + last + ";\n"@ =~= out + (head + (middle + ")"@ + last
            + ";\n"@)));
    }
}

// ── the document ─────────────────────────────────────────────────────

/// The records of structs.
pub open spec fn record_texts(ids: Seq<StructId>, m: IrModule) -> Seq<Seq<char>> {
    Seq::new(ids.len(), |k: int| record_text(m.structs@[ids[k].0 as int], m))
}

/// The variants of enums.
pub open spec fn variant_texts(ids: Seq<EnumId>, m: IrModule) -> Seq<Seq<char>> {
    Seq::new(ids.len(), |k: int| variant_text(m.enums@[ids[k].0 as int], m))
}

/// The import lines of host functions.
pub open spec fn import_lines(ids: Seq<FunctionId>, m: IrModule) -> Seq<Seq<char>> {
    Seq::new(ids.len(), |k: int| function_line(m.functions@[ids[k].0 as int], "import"@, m))
}

/// The export lines of functions.
pub open spec fn export_lines(ids: Seq<FunctionId>, m: IrModule) -> Seq<Seq<char>> {
    Seq::new(ids.len(), |k: int| function_line(m.functions@[ids[k].0 as int], "export"@, m))
}

/// The lines of an impl block's host methods.
pub open spec fn block_lines(imp: IrImpl, name: Seq<char>, m: IrModule) -> Seq<Seq<char>> {
    Seq::new(imp.functions@.len(), |k: int| method_line(imp.functions@[k], imp.target, name, m))
}

/// The lines of all host methods, block by block: those of each impl block of
/// the host that belongs to a type of the module.
pub open spec fn block_texts(m: IrModule) -> Seq<Seq<char>> {
    Seq::new(
        m.impls@.len(),
        |k: int|
            {
                let imp = m.impls@[k];
                let name = crate::module_lowering::indices::target_name(imp.target, m);
                if imp.is_extern && !crate::module_lowering::indices::is_built_in(imp.target, m)
                    && name is Some {
                    joined(block_lines(imp, name->0, m), 0)
                } else {
                    Seq::empty()
                }
            },
    )
}

/// The names of exported types, each behind a comma but the first.
pub open spec fn name_parts(surface: SurfaceView, m: IrModule) -> Seq<Seq<char>> {
    let n = surface.exported_structs.len();
    Seq::new(
        n + surface.exported_enums.len(),
        |k: int|
            (if k > 0 {
                ", "@
            } else {
                Seq::empty()
            }) + crate::ident::kebab(
                if k < n {
                    m.structs@[surface.exported_structs[k].0 as int].name@
                } else {
                    m.enums@[surface.exported_enums[k - n].0 as int].name@
                },
            ),
    )
}

proof fn lemma_records(ids: Seq<StructId>, i: int, m: IrModule, out: Seq<char>)
    requires
        0 <= i <= ids.len(),
    ensures
        crate::wit::with_records(ids, i, m, out) matches Ok(text) ==> text == out + joined(
            record_texts(ids, m),
            i,
        ),
    decreases ids.len() - i,
{
    let parts = record_texts(ids, m);
    if i < ids.len() {
        if let Some(s) = m.spec_struct(ids[i]) {
            law_records_have_the_fields_of_their_structs(s, m, out);
            if let Ok(one) = crate::wit::with_record(s, m, out) {
                lemma_records(ids, i + 1, m, one);
                if let Ok(text) = crate::wit::with_records(ids, i, m, out) {
                    lemma_joined(out, parts, i, text);
                }
            }
        }
    } else {
        assert(out + joined(parts, i) =~= out);
    }
}

proof fn lemma_variants(ids: Seq<EnumId>, i: int, m: IrModule, out: Seq<char>)
    requires
        0 <= i <= ids.len(),
    ensures
        crate::wit::with_variants(ids, i, m, out) matches Ok(text) ==> text == out + joined(
            variant_texts(ids, m),
            i,
        ),
    decreases ids.len() - i,
{
    let parts = variant_texts(ids, m);
    if i < ids.len() {
        if let Some(e) = m.spec_enum(ids[i]) {
            law_variants_have_the_cases_of_their_enums(e, m, out);
            if let Ok(one) = crate::wit::with_variant(e, m, out) {
                lemma_variants(ids, i + 1, m, one);
                if let Ok(text) = crate::wit::with_variants(ids, i, m, out) {
                    lemma_joined(out, parts, i, text);
                }
            }
        }
    } else {
        assert(out + joined(parts, i) =~= out);
    }
}

proof fn lemma_imports(ids: Seq<FunctionId>, i: int, m: IrModule, out: Seq<char>)
    requires
        0 <= i <= ids.len(),
    ensures
        crate::wit::with_imports(ids, i, m, out) matches Ok(text) ==> text == out + joined(
            import_lines(ids, m),
            i,
        ),
    decreases ids.len() - i,
{
    let parts = import_lines(ids, m);
    if i < ids.len() {
        if let Some(f) = m.spec_function(ids[i]) {
            law_function_lines_have_their_signatures(f, "import"@, m, out);
            if let Ok(one) = crate::wit::with_function(f, "import"@, m, out) {
                lemma_imports(ids, i + 1, m, one);
                if let Ok(text) = crate::wit::with_imports(ids, i, m, out) {
                    lemma_joined(out, parts, i, text);
                }
            }
        }
    } else {
        assert(out + joined(parts, i) =~= out);
    }
}

proof fn lemma_block(imp: IrImpl, j: int, name: Seq<char>, m: IrModule, out: Seq<char>)
    requires
        0 <= j <= imp.functions@.len(),
    ensures
        crate::wit::with_impl_methods(imp, j, name, m, out) matches Ok(text) ==> text == out
            + joined(block_lines(imp, name, m), j),
    decreases imp.functions@.len() - j,
{
    let parts = block_lines(imp, name, m);
    if j < imp.functions@.len() {
        let f = imp.functions@[j];
        law_method_lines_have_their_signatures(f, imp.target, name, m, out);
        if let Ok(one) = crate::wit::with_method(f, imp.target, name, m, out) {
            lemma_block(imp, j + 1, name, m, one);
            if let Ok(text) = crate::wit::with_impl_methods(imp, j, name, m, out) {
                lemma_joined(out, parts, j, text);
            }
        }
    } else {
        assert(out + joined(parts, j) =~= out);
    }
}

proof fn lemma_blocks(i: int, m: IrModule, out: Seq<char>)
    requires
        0 <= i <= m.impls@.len(),
    ensures
        crate::wit::with_host_methods(i, m, out) matches Ok(text) ==> text == out + joined(
            block_texts(m),
            i,
        ),
    decreases m.impls@.len() - i,
{
    let parts = block_texts(m);
    if i < m.impls@.len() {
        let imp = m.impls@[i];
        let name = crate::module_lowering::indices::target_name(imp.target, m);
        let written = imp.is_extern && !crate::module_lowering::indices::is_built_in(imp.target, m)
            && name is Some;
        if let Ok(text) = crate::wit::with_host_methods(i, m, out) {
            if written {
                lemma_block(imp, 0, name->0, m, out);
                let one = crate::wit::with_impl_methods(imp, 0, name->0, m, out)->Ok_0;
                lemma_blocks(i + 1, m, one);
                lemma_joined(out, parts, i, text);
            } else {
                lemma_blocks(i + 1, m, out);
                assert(out + parts[i] =~= out);
                lemma_joined(out, parts, i, text);
            }
        }
    } else {
        assert(out + joined(parts, i) =~= out);
    }
}

proof fn lemma_each(ids: Seq<FunctionId>, m: IrModule, out: Seq<char>)
    ensures
        crate::surface::with_each(ids, m, out) matches Ok(text) ==> text == out + joined(
            export_lines(ids, m),
            0,
        ),
    decreases ids.len(),
{
    let parts = export_lines(ids, m);
    if ids.len() > 0 {
        let f = m.functions@[ids[0].0 as int];
        law_function_lines_have_their_signatures(f, "export"@, m, out);
        if let Ok(one) = crate::wit::with_function(f, "export"@, m, out) {
            let rest = ids.drop_first();
            lemma_each(rest, m, one);
            if let Ok(text) = crate::surface::with_each(ids, m, out) {
                lemma_shifted(export_lines(rest, m), parts, 0);
                lemma_joined(out, parts, 0, text);
            }
        }
    } else {
        assert(out + joined(parts, 0) =~= out);
    }
}

/// The texts behind the first one.
proof fn lemma_shifted(rest: Seq<Seq<char>>, parts: Seq<Seq<char>>, i: int)
    requires
        parts.len() == rest.len() + 1,
        0 <= i <= rest.len(),
        forall|k: int| 0 <= k < rest.len() ==> #[trigger] rest[k] == parts[k + 1],
    ensures
        joined(rest, i) == joined(parts, i + 1),
    decreases rest.len() - i,
{
    if i < rest.len() {
        lemma_shifted(rest, parts, i + 1);
    }
}

proof fn lemma_struct_names(surface: SurfaceView, i: int, m: IrModule, out: Seq<char>) -> (text: Seq<char>)
    requires
        0 <= i <= surface.exported_structs.len(),
        forall|k: int|
            0 <= k < surface.exported_structs.len() ==> (#[trigger] surface.exported_structs[k]).0
                < m.structs@.len(),
    ensures
        text == crate::wit::struct_names(surface.exported_structs, i, m, out),
        text + joined(name_parts(surface, m), surface.exported_structs.len() as int) == out
            + joined(name_parts(surface, m), i),
    decreases surface.exported_structs.len() - i,
{
    let parts = name_parts(surface, m);
    let ids = surface.exported_structs;
    if i < ids.len() {
        let name = crate::ident::kebab(m.structs@[ids[i].0 as int].name@);
        assert(m.spec_struct(ids[i]) == Some(m.structs@[ids[i].0 as int]));
        let one = crate::wit::separated(out, i > 0) + name;
        let text = lemma_struct_names(surface, i + 1, m, one);
        assert(one =~= out + parts[i]);
        assert(out + parts[i] + joined(parts, i + 1) =~= out + joined(parts, i));
        text
    } else {
        out
    }
}

proof fn lemma_enum_names(surface: SurfaceView, i: int, m: IrModule, out: Seq<char>)
    requires
        0 <= i <= surface.exported_enums.len(),
        forall|k: int|
            0 <= k < surface.exported_enums.len() ==> (#[trigger] surface.exported_enums[k]).0
                < m.enums@.len(),
    ensures
        crate::wit::enum_names(
            surface.exported_enums,
            i,
            surface.exported_structs.len(),
            m,
            out,
        ) == out + joined(name_parts(surface, m), surface.exported_structs.len() + i),
    decreases surface.exported_enums.len() - i,
{
    let parts = name_parts(surface, m);
    let ids = surface.exported_enums;
    let n = surface.exported_structs.len();
    if i < ids.len() {
        let name = crate::ident::kebab(m.enums@[ids[i].0 as int].name@);
        assert(m.spec_enum(ids[i]) == Some(m.enums@[ids[i].0 as int]));
        let one = crate::wit::separated(out, n + i > 0) + name;
        lemma_enum_names(surface, i + 1, m, one);
        assert(one =~= out + parts[n + i]);
        assert(out + parts[n + i] + joined(parts, n + i + 1) =~= out + joined(parts, n + i));
    } else {
        assert(out + joined(parts, n + i) =~= out);
    }
}

/// What the world uses of the types: all of them.
pub open spec fn use_text(surface: SurfaceView, m: IrModule) -> Seq<char> {
    "  use types.{"@ + joined(name_parts(surface, m), 0) + "};\n"@
}

/// The interface with the types.
pub open spec fn types_text(surface: SurfaceView, m: IrModule) -> Seq<char> {
    "interface types {\n"@ + joined(record_texts(surface.exported_structs, m), 0) + joined(
        variant_texts(surface.exported_enums, m),
        0,
    ) + "}\n\n"@
}

/// The document of a surface: the package; the interface with a record for
/// each exported struct and a variant for each exported enum; and the world,
/// which uses them, with a line for each host function, each host method and
/// each exported function.
pub open spec fn document_text(surface: SurfaceView, m: IrModule) -> Seq<char> {
    let types = surface.exported_structs.len() + surface.exported_enums.len() > 0;
    "package "@ + PACKAGE@ + ";\n\n"@ + (if types {
        types_text(surface, m)
    } else {
        Seq::empty()
    }) + "world "@ + WORLD_NAME@ + " {\n"@ + (if types {
        use_text(surface, m)
    } else {
        Seq::empty()
    }) + joined(import_lines(surface.imports, m), 0) + joined(block_texts(m), 0) + joined(
        export_lines(crate::surface::chosen(surface.exports, 0, m, Seq::empty()), m),
        0,
    ) + "}\n"@
}

/// The document of a surface declares what the surface holds, all of it and
/// nothing else.
pub proof fn law_documents_declare_the_surface(surface: SurfaceView, m: IrModule)
    requires
        forall|k: int|
            0 <= k < surface.exports.len() ==> (#[trigger] surface.exports[k]).0
                < m.functions@.len(),
    ensures
        crate::wit::document(m, surface) matches Ok(text) ==> text == document_text(surface, m),
{
    if let Ok(text) = crate::wit::document(m, surface) {
        let opened = "package "@ + PACKAGE@ + ";\n\n"@;
        let types = crate::wit::with_types(m, surface, opened)->Ok_0;
        let world = types + "world "@ + WORLD_NAME@ + " {\n"@;
        let used = crate::wit::with_use(m, surface, world);
        lemma_types(surface, m, opened);
        lemma_use(surface, m, opened, world);
        lemma_lines(surface, m, used);
        assert(text =~= document_text(surface, m));
    }
}

/// The interface with the types.
proof fn lemma_types(surface: SurfaceView, m: IrModule, out: Seq<char>)
    ensures
        crate::wit::with_types(m, surface, out) matches Ok(text) ==> text == out + (
        if surface.exported_structs.len() + surface.exported_enums.len() > 0 {
            types_text(surface, m)
        } else {
            Seq::empty()
        }),
{
    if let Ok(text) = crate::wit::with_types(m, surface, out) {
        if crate::wit::any_types(surface) {
            let begun = out + "interface types {\n"@;
            lemma_records(surface.exported_structs, 0, m, begun);
            let records = crate::wit::with_records(surface.exported_structs, 0, m, begun)->Ok_0;
            lemma_variants(surface.exported_enums, 0, m, records);
            assert(text =~= out + types_text(surface, m));
        } else {
            assert(text =~= out + Seq::<char>::empty());
        }
    }
}

/// What the world uses, where the interface could be written.
proof fn lemma_use(surface: SurfaceView, m: IrModule, out: Seq<char>, world: Seq<char>)
    requires
        crate::wit::with_types(m, surface, out) is Ok,
    ensures
        crate::wit::with_use(m, surface, world) == world + (if surface.exported_structs.len()
            + surface.exported_enums.len() > 0 {
            use_text(surface, m)
        } else {
            Seq::empty()
        }),
{
    if crate::wit::any_types(surface) {
        let begun = out + "interface types {\n"@;
        let records = crate::wit::with_records(surface.exported_structs, 0, m, begun)->Ok_0;
        lemma_ids(surface, m, begun, records);
        let named = lemma_struct_names(surface, 0, m, world + "  use types.{"@);
        lemma_enum_names(surface, 0, m, named);
        assert(crate::wit::with_use(m, surface, world) =~= world + use_text(surface, m));
    } else {
        assert(crate::wit::with_use(m, surface, world) =~= world + Seq::<char>::empty());
    }
}

/// The lines of the world.
proof fn lemma_lines(surface: SurfaceView, m: IrModule, out: Seq<char>)
    requires
        forall|k: int|
            0 <= k < surface.exports.len() ==> (#[trigger] surface.exports[k]).0
                < m.functions@.len(),
    ensures
        crate::wit::with_imports(surface.imports, 0, m, out) matches Ok(imports) ==> (
        crate::wit::with_host_methods(0, m, imports) matches Ok(methods) ==> (
        crate::wit::with_exports(surface.exports, 0, m, Seq::empty(), methods) matches Ok(text) ==> text == out
            + joined(import_lines(surface.imports, m), 0) + joined(block_texts(m), 0) + joined(
            export_lines(crate::surface::chosen(surface.exports, 0, m, Seq::empty()), m),
            0,
        ))),
{
    lemma_imports(surface.imports, 0, m, out);
    if let Ok(imports) = crate::wit::with_imports(surface.imports, 0, m, out) {
        lemma_blocks(0, m, imports);
        if let Ok(methods) = crate::wit::with_host_methods(0, m, imports) {
            crate::surface::lemma_exports_are_chosen(surface.exports, 0, m, Seq::empty(), methods);
            lemma_each(crate::surface::chosen(surface.exports, 0, m, Seq::empty()), m, methods);
        }
    }
}

/// Where records and variants could be written, the module holds their structs
/// and enums.
proof fn lemma_ids(surface: SurfaceView, m: IrModule, begun: Seq<char>, records: Seq<char>)
    requires
        crate::wit::with_records(surface.exported_structs, 0, m, begun) is Ok,
        crate::wit::with_variants(surface.exported_enums, 0, m, records) is Ok,
    ensures
        forall|k: int|
            0 <= k < surface.exported_structs.len() ==> (#[trigger] surface.exported_structs[k]).0
                < m.structs@.len(),
        forall|k: int|
            0 <= k < surface.exported_enums.len() ==> (#[trigger] surface.exported_enums[k]).0
                < m.enums@.len(),
{
    lemma_struct_ids(surface.exported_structs, 0, m, begun);
    lemma_enum_ids(surface.exported_enums, 0, m, records);
}

proof fn lemma_struct_ids(ids: Seq<StructId>, i: int, m: IrModule, out: Seq<char>)
    requires
        0 <= i <= ids.len(),
        crate::wit::with_records(ids, i, m, out) is Ok,
    ensures
        forall|k: int| i <= k < ids.len() ==> (#[trigger] ids[k]).0 < m.structs@.len(),
    decreases ids.len() - i,
{
    if i < ids.len() {
        let s = m.spec_struct(ids[i])->0;
        lemma_struct_ids(ids, i + 1, m, crate::wit::with_record(s, m, out)->Ok_0);
    }
}

proof fn lemma_enum_ids(ids: Seq<EnumId>, i: int, m: IrModule, out: Seq<char>)
    requires
        0 <= i <= ids.len(),
        crate::wit::with_variants(ids, i, m, out) is Ok,
    ensures
        forall|k: int| i <= k < ids.len() ==> (#[trigger] ids[k]).0 < m.enums@.len(),
    decreases ids.len() - i,
{
    if i < ids.len() {
        let e = m.spec_enum(ids[i])->0;
        lemma_enum_ids(ids, i + 1, m, crate::wit::with_variant(e, m, out)->Ok_0);
    }
}

} // verus!
