//! The WIT document of the component boundary.
//!
//! The document declares one world. It imports every function and method
//! that the host provides, exports the functions that the module defines,
//! and names the public structs and enums in an interface of types.
//!
//! Numbers and booleans become the WIT types of their width, the text types
//! become `string`, optionals `option<T>`, arrays `list<T>`, dictionaries
//! `list<tuple<K, V>>`, tuples `tuple<..>`, structs records and enums
//! variants. Closures, ranges, traits and generic types do not cross the
//! boundary.

use vstd::prelude::*;

use crate::compound::{Compound, Shape};
use crate::ident::kebab_case;
use crate::ir::{
    EnumId, FunctionId, ImplTarget, IrEnum, IrEnumVariant, IrField, IrFunction, IrFunctionParam,
    IrImpl, IrModule, IrStruct, List, PrimitiveType, ResolvedType, StructId,
};
use crate::module_lowering::indices::{built_in, name_of_target};
use crate::resolution::{read_document, ReadError, ReadProblem};
use crate::survey::{PublicSurface, SurfaceView};
use crate::text::concat3;
use crate::types::{unsupported_kind, TypeMapError, UnsupportedKind};

verus! {

/// Package of the emitted documents.
pub const PACKAGE: &'static str = "formawasm:generated";

/// World of the emitted documents.
pub const WORLD_NAME: &'static str = "component";

/// Errors produced by [`emit_wit`].
#[allow(inconsistent_fields)]
#[derive(Debug, PartialEq, Eq)]
pub enum WitEmitError {
    /// A type that does not cross the boundary.
    TypeMap(TypeMapError),
    /// A parameter or field that carries no value.
    NeverParam { function: String, param: String },
    /// A parameter without a type.
    MissingParamType { function: String, param: String },
    /// The surface names an item past the end of the module's table.
    ExportOutOfRange { index: u32, len: usize },
    /// The document does not parse.
    Invalid { reason: String },
    /// The document is too long.
    TooLong,
}

/// What a [`WitEmitError`] says.
#[allow(inconsistent_fields)]
pub enum WitProblem {
    TypeMap(TypeMapError),
    NeverParam { function: Seq<char>, param: Seq<char> },
    MissingParamType { function: Seq<char>, param: Seq<char> },
    ExportOutOfRange { index: u32, len: nat },
    Invalid { reason: Seq<char> },
    TooLong,
}

impl View for WitEmitError {
    type V = WitProblem;

    open spec fn view(&self) -> WitProblem {
        match *self {
            WitEmitError::TypeMap(x) => WitProblem::TypeMap(x),
            WitEmitError::NeverParam { function, param } => WitProblem::NeverParam {
                function: function@,
                param: param@,
            },
            WitEmitError::MissingParamType { function, param } => WitProblem::MissingParamType {
                function: function@,
                param: param@,
            },
            WitEmitError::ExportOutOfRange { index, len } => WitProblem::ExportOutOfRange {
                index,
                len: len as nat,
            },
            WitEmitError::Invalid { reason } => WitProblem::Invalid { reason: reason@ },
            WitEmitError::TooLong => WitProblem::TooLong,
        }
    }
}

/// A text so far, or the first problem.
pub type Written = Result<Seq<char>, WitProblem>;

/// `r` and the text after it are what `s` says.
pub open spec fn wrote(r: Result<(), WitEmitError>, after: Seq<char>, s: Written) -> bool {
    match r {
        Ok(_) => s == Ok::<Seq<char>, WitProblem>(after),
        Err(x) => s == Err::<Seq<char>, WitProblem>(x@),
    }
}

// ── types ────────────────────────────────────────────────────────────

/// The WIT type of a primitive; `Never` has none.
pub open spec fn primitive_wit(p: PrimitiveType) -> Option<Seq<char>> {
    match p {
        PrimitiveType::I32 => Some("s32"@),
        PrimitiveType::I64 => Some("s64"@),
        PrimitiveType::F32 => Some("f32"@),
        PrimitiveType::F64 => Some("f64"@),
        PrimitiveType::Boolean => Some("bool"@),
        PrimitiveType::String => Some("string"@),
        PrimitiveType::Path => Some("string"@),
        PrimitiveType::Regex => Some("string"@),
        PrimitiveType::Never => None,
    }
}

/// A type that has no WIT type.
pub open spec fn no_wit(kind: UnsupportedKind) -> TypeMapError {
    TypeMapError::NotYetSupported { kind }
}

/// The position after `i`, as far as positions reach.
pub open spec fn next_position(i: usize) -> usize {
    if i < usize::MAX {
        (i + 1) as usize
    } else {
        i
    }
}

/// The WIT type of a type. A type without values has none.
pub open spec fn wit_type(ty: ResolvedType, m: IrModule) -> Result<Option<Seq<char>>, TypeMapError>
    decreases ty,
{
    proof {
        crate::compound::lemma_shape_is_smaller(ty, m);
    }
    match crate::compound::shape_of(ty, m) {
        Shape::Array(t) => match wit_type(t, m) {
            Err(x) => Err(x),
            Ok(None) => Err(no_wit(UnsupportedKind::ArrayOfNever)),
            Ok(Some(inner)) => Ok(Some("list<"@ + inner + ">"@)),
        },
        Shape::Optional(t) => match wit_type(t, m) {
            Err(x) => Err(x),
            Ok(None) => Err(no_wit(UnsupportedKind::OptionalOfNever)),
            Ok(Some(inner)) => Ok(Some("option<"@ + inner + ">"@)),
        },
        Shape::Dictionary(key, value) => match wit_type(key, m) {
            Err(x) => Err(x),
            Ok(None) => Err(no_wit(UnsupportedKind::DictionaryKeyNever)),
            Ok(Some(k)) => match wit_type(value, m) {
                Err(x) => Err(x),
                Ok(None) => Err(no_wit(UnsupportedKind::DictionaryValueNever)),
                Ok(Some(v)) => Ok(Some("list<tuple<"@ + k + ", "@ + v + ">>"@)),
            },
        },
        Shape::Range(_) => Err(no_wit(UnsupportedKind::Range)),
        Shape::Other => match ty {
            ResolvedType::Primitive(p) => Ok(primitive_wit(p)),
            ResolvedType::Struct(id) => match m.spec_struct(id) {
                None => Err(no_wit(UnsupportedKind::StructOutOfRange(id))),
                Some(s) => if s.fields@.len() == 0 {
                    Err(no_wit(UnsupportedKind::EmptyStruct(s.name)))
                } else {
                    Ok(Some(crate::ident::kebab(s.name@)))
                },
            },
            ResolvedType::Enum(id) => match m.spec_enum(id) {
                None => Err(no_wit(UnsupportedKind::EnumOutOfRange(id))),
                Some(e) => Ok(Some(crate::ident::kebab(e.name@))),
            },
            ResolvedType::Tuple(fields) => if fields is Nil {
                Err(no_wit(UnsupportedKind::Tuple))
            } else {
                match tuple_items(fields, 0, m, "tuple<"@) {
                    Err(x) => Err(x),
                    Ok(text) => Ok(Some(text + ">"@)),
                }
            },
            _ => Err(no_wit(crate::types::kind_of(ty))),
        },
    }
}

/// `out` and the WIT types of tuple positions, the first of which is number
/// `i`.
pub open spec fn tuple_items(
    l: List<(String, ResolvedType)>,
    i: usize,
    m: IrModule,
    out: Seq<char>,
) -> Result<Seq<char>, TypeMapError>
    decreases l,
{
    match l {
        List::Nil => Ok(out),
        List::Cons(head, tail) => match wit_type((*head).1, m) {
            Err(x) => Err(x),
            Ok(None) => Err(no_wit(UnsupportedKind::NeverInTuple(i))),
            Ok(Some(t)) => tuple_items(
                *tail,
                next_position(i),
                m,
                separated(out, i > 0) + t,
            ),
        },
    }
}

/// `out`, with a comma behind it where something precedes.
pub open spec fn separated(out: Seq<char>, follows: bool) -> Seq<char> {
    if follows {
        out + ", "@
    } else {
        out
    }
}

/// The text form of an optional text, or the same error.
pub open spec fn type_outcome(
    r: Result<Option<String>, TypeMapError>,
    s: Result<Option<Seq<char>>, TypeMapError>,
) -> bool {
    match r {
        Ok(Some(t)) => s == Ok::<Option<Seq<char>>, TypeMapError>(Some(t@)),
        Ok(None) => s == Ok::<Option<Seq<char>>, TypeMapError>(None),
        Err(x) => s == Err::<Option<Seq<char>>, TypeMapError>(x),
    }
}

fn separate(out: &mut String, follows: bool)
    ensures
        final(out)@ == separated(old(out)@, follows),
{
    if follows {
        out.append(", ");
    }
}

fn primitive_wit_type(p: PrimitiveType) -> (r: Option<String>)
    ensures
        match r {
            Some(t) => primitive_wit(p) == Some(t@),
            None => primitive_wit(p) is None,
        },
{
    match p {
        PrimitiveType::I32 => Some("s32".to_owned()),
        PrimitiveType::I64 => Some("s64".to_owned()),
        PrimitiveType::F32 => Some("f32".to_owned()),
        PrimitiveType::F64 => Some("f64".to_owned()),
        PrimitiveType::Boolean => Some("bool".to_owned()),
        PrimitiveType::Never => None,
        PrimitiveType::String | PrimitiveType::Path | PrimitiveType::Regex => Some(
            "string".to_owned(),
        ),
    }
}

fn no_wit_type<T>(kind: UnsupportedKind) -> (r: Result<T, TypeMapError>)
    ensures
        r == Err::<T, TypeMapError>(no_wit(kind)),
{
    Err(TypeMapError::NotYetSupported { kind })
}

/// The WIT type of a type. `Never` has none.
pub fn resolved_wit_type(ty: &ResolvedType, module: &IrModule) -> (r: Result<
    Option<String>,
    TypeMapError,
>)
    ensures
        type_outcome(r, wit_type(*ty, *module)),
    decreases *ty,
{
    proof {
        crate::compound::lemma_shape_is_smaller(*ty, *module);
    }
    match Compound::of(ty, module) {
        Compound::Array(t) => match resolved_wit_type(t, module)? {
            None => no_wit_type(UnsupportedKind::ArrayOfNever),
            Some(inner) => Ok(Some(concat3("list<", &inner, ">"))),
        },
        Compound::Optional(t) => match resolved_wit_type(t, module)? {
            None => no_wit_type(UnsupportedKind::OptionalOfNever),
            Some(inner) => Ok(Some(concat3("option<", &inner, ">"))),
        },
        Compound::Dictionary { key, value } => {
            let k = match resolved_wit_type(key, module)? {
                None => return no_wit_type(UnsupportedKind::DictionaryKeyNever),
                Some(k) => k,
            };
            match resolved_wit_type(value, module)? {
                None => no_wit_type(UnsupportedKind::DictionaryValueNever),
                Some(v) => {
                    let mut text = concat3("list<tuple<", &k, ", ");
                    text.append(&v);
                    text.append(">>");
                    Ok(Some(text))
                },
            }
        },
        Compound::Range(_) => no_wit_type(UnsupportedKind::Range),
        Compound::Other => match ty {
            ResolvedType::Primitive(p) => Ok(primitive_wit_type(*p)),
            ResolvedType::Struct(id) => match module.get_struct(*id) {
                None => no_wit_type(UnsupportedKind::StructOutOfRange(*id)),
                Some(s) => if s.fields.len() == 0 {
                    no_wit_type(UnsupportedKind::EmptyStruct(s.name.clone()))
                } else {
                    Ok(Some(kebab_case(&s.name)))
                },
            },
            ResolvedType::Enum(id) => match module.get_enum(*id) {
                None => no_wit_type(UnsupportedKind::EnumOutOfRange(*id)),
                Some(e) => Ok(Some(kebab_case(&e.name))),
            },
            ResolvedType::Tuple(List::Nil) => no_wit_type(UnsupportedKind::Tuple),
            ResolvedType::Tuple(fields) => {
                let mut text = "tuple<".to_owned();
                write_tuple_items(fields, 0, module, &mut text)?;
                text.append(">");
                Ok(Some(text))
            },
            _ => no_wit_type(unsupported_kind(ty)),
        },
    }
}

fn write_tuple_items(
    l: &List<(String, ResolvedType)>,
    i: usize,
    module: &IrModule,
    out: &mut String,
) -> (r: Result<(), TypeMapError>)
    ensures
        match r {
            Ok(_) => tuple_items(*l, i, *module, old(out)@) == Ok::<Seq<char>, TypeMapError>(
                final(out)@,
            ),
            Err(x) => tuple_items(*l, i, *module, old(out)@) == Err::<Seq<char>, TypeMapError>(x),
        },
    decreases *l,
{
    match l {
        List::Nil => Ok(()),
        List::Cons(head, tail) => match resolved_wit_type(&head.1, module)? {
            None => no_wit_type(UnsupportedKind::NeverInTuple(i)),
            Some(t) => {
                separate(out, i > 0);
                out.append(&t);
                let next: usize = if i < usize::MAX {
                    i + 1
                } else {
                    i
                };
                write_tuple_items(tail, next, module, out)
            },
        },
    }
}

/// `out` and the WIT type of a type that must have values; `function` and
/// `param` say whose type it is.
pub open spec fn with_value_type(
    ty: ResolvedType,
    m: IrModule,
    function: Seq<char>,
    param: Seq<char>,
    out: Seq<char>,
) -> Written {
    match wit_type(ty, m) {
        Err(x) => Err(WitProblem::TypeMap(x)),
        Ok(None) => Err(WitProblem::NeverParam { function, param }),
        Ok(Some(t)) => Ok(out + t),
    }
}

fn write_value_type(
    ty: &ResolvedType,
    module: &IrModule,
    function: &str,
    param: &str,
    out: &mut String,
) -> (r: Result<(), WitEmitError>)
    ensures
        wrote(r, final(out)@, with_value_type(*ty, *module, function@, param@, old(out)@)),
{
    match resolved_wit_type(ty, module) {
        Err(x) => Err(WitEmitError::TypeMap(x)),
        Ok(None) => Err(
            WitEmitError::NeverParam { function: function.to_owned(), param: param.to_owned() },
        ),
        Ok(Some(t)) => {
            out.append(&t);
            Ok(())
        },
    }
}

// ── records and variants ─────────────────────────────────────────────

/// `out` and the fields of a record, from field `i` on.
pub open spec fn record_fields(s: IrStruct, i: int, m: IrModule, out: Seq<char>) -> Written
    decreases s.fields@.len() - i,
{
    if i < 0 || i >= s.fields@.len() {
        Ok(out)
    } else {
        let f = s.fields@[i];
        match with_value_type(
            f.ty,
            m,
            "record "@ + s.name@,
            f.name@,
            out + "    "@ + crate::ident::kebab(f.name@) + ": "@,
        ) {
            Err(x) => Err(x),
            Ok(text) => record_fields(s, i + 1, m, text + ",\n"@),
        }
    }
}

/// `out` and the record of a struct.
pub open spec fn with_record(s: IrStruct, m: IrModule, out: Seq<char>) -> Written {
    match record_fields(s, 0, m, out + "  record "@ + crate::ident::kebab(s.name@) + " {\n"@) {
        Err(x) => Err(x),
        Ok(text) => Ok(text + "  }\n"@),
    }
}

fn write_record(out: &mut String, s: &IrStruct, module: &IrModule) -> (r: Result<(), WitEmitError>)
    ensures
        wrote(r, final(out)@, with_record(*s, *module, old(out)@)),
{
    out.append("  record ");
    out.append(&kebab_case(&s.name));
    out.append(" {\n");
    let mut owner = "record ".to_owned();
    owner.append(&s.name);
    let mut i: usize = 0;
    while i < s.fields.len()
        invariant
            i <= s.fields@.len(),
            owner@ == "record "@ + s.name@,
            record_fields(
                *s,
                0,
                *module,
                old(out)@ + "  record "@ + crate::ident::kebab(s.name@) + " {\n"@,
            ) == record_fields(*s, i as int, *module, out@),
        decreases s.fields@.len() - i,
    {
        let f = &s.fields[i];
        out.append("    ");
        out.append(&kebab_case(&f.name));
        out.append(": ");
        write_value_type(&f.ty, module, &owner, &f.name, out)?;
        out.append(",\n");
        i = i + 1;
    }
    out.append("  }\n");
    Ok(())
}

/// `out` and the WIT types of a variant's fields, from field `i` on.
pub open spec fn payload_items(
    fields: Seq<IrField>,
    i: int,
    owner: Seq<char>,
    m: IrModule,
    out: Seq<char>,
) -> Written
    decreases fields.len() - i,
{
    if i < 0 || i >= fields.len() {
        Ok(out)
    } else {
        match with_value_type(fields[i].ty, m, owner, fields[i].name@, separated(out, i > 0)) {
            Err(x) => Err(x),
            Ok(text) => payload_items(fields, i + 1, owner, m, text),
        }
    }
}

/// `out` and one case of a variant: its name alone, with its only field, or
/// with a tuple of its fields.
pub open spec fn with_case(v: IrEnumVariant, owner: Seq<char>, m: IrModule, out: Seq<char>) -> Written {
    let named = out + "    "@ + crate::ident::kebab(v.name@);
    if v.fields@.len() == 0 {
        Ok(named + ",\n"@)
    } else if v.fields@.len() == 1 {
        match payload_items(v.fields@, 0, owner, m, named + "("@) {
            Err(x) => Err(x),
            Ok(text) => Ok(text + "),\n"@),
        }
    } else {
        match payload_items(v.fields@, 0, owner, m, "tuple<"@) {
            Err(x) => Err(x),
            Ok(tuple) => Ok(named + "("@ + tuple + ">"@ + "),\n"@),
        }
    }
}

/// `out` and the cases of a variant, from case `i` on.
pub open spec fn variant_cases(e: IrEnum, i: int, m: IrModule, out: Seq<char>) -> Written
    decreases e.variants@.len() - i,
{
    if i < 0 || i >= e.variants@.len() {
        Ok(out)
    } else {
        match with_case(e.variants@[i], "variant "@ + e.name@, m, out) {
            Err(x) => Err(x),
            Ok(text) => variant_cases(e, i + 1, m, text),
        }
    }
}

/// `out` and the variant of an enum.
pub open spec fn with_variant(e: IrEnum, m: IrModule, out: Seq<char>) -> Written {
    match variant_cases(e, 0, m, out + "  variant "@ + crate::ident::kebab(e.name@) + " {\n"@) {
        Err(x) => Err(x),
        Ok(text) => Ok(text + "  }\n"@),
    }
}

fn write_payload(fields: &Vec<IrField>, owner: &str, module: &IrModule, out: &mut String) -> (r:
    Result<(), WitEmitError>)
    ensures
        wrote(r, final(out)@, payload_items(fields@, 0, owner@, *module, old(out)@)),
{
    let mut i: usize = 0;
    while i < fields.len()
        invariant
            i <= fields@.len(),
            payload_items(fields@, 0, owner@, *module, old(out)@) == payload_items(
                fields@,
                i as int,
                owner@,
                *module,
                out@,
            ),
        decreases fields@.len() - i,
    {
        separate(out, i > 0);
        write_value_type(&fields[i].ty, module, owner, &fields[i].name, out)?;
        i = i + 1;
    }
    Ok(())
}

fn write_case(v: &IrEnumVariant, owner: &str, module: &IrModule, out: &mut String) -> (r: Result<
    (),
    WitEmitError,
>)
    ensures
        wrote(r, final(out)@, with_case(*v, owner@, *module, old(out)@)),
{
    out.append("    ");
    out.append(&kebab_case(&v.name));
    if v.fields.len() == 0 {
        out.append(",\n");
        return Ok(());
    }
    if v.fields.len() == 1 {
        out.append("(");
        write_payload(&v.fields, owner, module, out)?;
        out.append("),\n");
        return Ok(());
    }
    let mut tuple = "tuple<".to_owned();
    write_payload(&v.fields, owner, module, &mut tuple)?;
    out.append("(");
    out.append(&tuple);
    out.append(">");
    out.append("),\n");
    Ok(())
}

fn write_variant(out: &mut String, e: &IrEnum, module: &IrModule) -> (r: Result<(), WitEmitError>)
    ensures
        wrote(r, final(out)@, with_variant(*e, *module, old(out)@)),
{
    out.append("  variant ");
    out.append(&kebab_case(&e.name));
    out.append(" {\n");
    let mut owner = "variant ".to_owned();
    owner.append(&e.name);
    let mut i: usize = 0;
    while i < e.variants.len()
        invariant
            i <= e.variants@.len(),
            owner@ == "variant "@ + e.name@,
            variant_cases(
                *e,
                0,
                *module,
                old(out)@ + "  variant "@ + crate::ident::kebab(e.name@) + " {\n"@,
            ) == variant_cases(*e, i as int, *module, out@),
        decreases e.variants@.len() - i,
    {
        write_case(&e.variants[i], &owner, module, out)?;
        i = i + 1;
    }
    out.append("  }\n");
    Ok(())
}

/// `out` and the records of structs, from number `i` on.
pub open spec fn with_records(ids: Seq<StructId>, i: int, m: IrModule, out: Seq<char>) -> Written
    decreases ids.len() - i,
{
    if i < 0 || i >= ids.len() {
        Ok(out)
    } else {
        match m.spec_struct(ids[i]) {
            None => Err(
                WitProblem::ExportOutOfRange { index: ids[i].0, len: m.structs@.len() },
            ),
            Some(s) => match with_record(s, m, out) {
                Err(x) => Err(x),
                Ok(text) => with_records(ids, i + 1, m, text),
            },
        }
    }
}

/// `out` and the variants of enums, from number `i` on.
pub open spec fn with_variants(ids: Seq<EnumId>, i: int, m: IrModule, out: Seq<char>) -> Written
    decreases ids.len() - i,
{
    if i < 0 || i >= ids.len() {
        Ok(out)
    } else {
        match m.spec_enum(ids[i]) {
            None => Err(WitProblem::ExportOutOfRange { index: ids[i].0, len: m.enums@.len() }),
            Some(e) => match with_variant(e, m, out) {
                Err(x) => Err(x),
                Ok(text) => with_variants(ids, i + 1, m, text),
            },
        }
    }
}

fn write_records(ids: &Vec<StructId>, module: &IrModule, out: &mut String) -> (r: Result<
    (),
    WitEmitError,
>)
    ensures
        wrote(r, final(out)@, with_records(ids@, 0, *module, old(out)@)),
{
    let mut i: usize = 0;
    while i < ids.len()
        invariant
            i <= ids@.len(),
            with_records(ids@, 0, *module, old(out)@) == with_records(
                ids@,
                i as int,
                *module,
                out@,
            ),
        decreases ids@.len() - i,
    {
        match module.get_struct(ids[i]) {
            None => return Err(
                WitEmitError::ExportOutOfRange { index: ids[i].0, len: module.structs.len() },
            ),
            Some(s) => write_record(out, s, module)?,
        }
        i = i + 1;
    }
    Ok(())
}

fn write_variants(ids: &Vec<EnumId>, module: &IrModule, out: &mut String) -> (r: Result<
    (),
    WitEmitError,
>)
    ensures
        wrote(r, final(out)@, with_variants(ids@, 0, *module, old(out)@)),
{
    let mut i: usize = 0;
    while i < ids.len()
        invariant
            i <= ids@.len(),
            with_variants(ids@, 0, *module, old(out)@) == with_variants(
                ids@,
                i as int,
                *module,
                out@,
            ),
        decreases ids@.len() - i,
    {
        match module.get_enum(ids[i]) {
            None => return Err(
                WitEmitError::ExportOutOfRange { index: ids[i].0, len: module.enums.len() },
            ),
            Some(e) => write_variant(out, e, module)?,
        }
        i = i + 1;
    }
    Ok(())
}

/// `out` and the exported names of structs, from number `i` on.
pub open spec fn struct_names(ids: Seq<StructId>, i: int, m: IrModule, out: Seq<char>) -> Seq<char>
    decreases ids.len() - i,
{
    if i < 0 || i >= ids.len() {
        out
    } else {
        match m.spec_struct(ids[i]) {
            None => out,
            Some(s) => struct_names(
                ids,
                i + 1,
                m,
                separated(out, i > 0) + crate::ident::kebab(s.name@),
            ),
        }
    }
}

/// `out` and the exported names of enums, from number `i` on, behind
/// `before` other names.
pub open spec fn enum_names(ids: Seq<EnumId>, i: int, before: nat, m: IrModule, out: Seq<char>) -> Seq<
    char,
>
    decreases ids.len() - i,
{
    if i < 0 || i >= ids.len() {
        out
    } else {
        match m.spec_enum(ids[i]) {
            None => out,
            Some(e) => enum_names(
                ids,
                i + 1,
                before,
                m,
                separated(out, before + i > 0) + crate::ident::kebab(e.name@),
            ),
        }
    }
}

fn write_names(surface: &PublicSurface, module: &IrModule, out: &mut String)
    ensures
        final(out)@ == enum_names(
            surface.exported_enums@,
            0,
            surface.exported_structs@.len(),
            *module,
            struct_names(surface.exported_structs@, 0, *module, old(out)@),
        ),
{
    let ss = &surface.exported_structs;
    let mut i: usize = 0;
    while i < ss.len()
        invariant_except_break
            struct_names(ss@, 0, *module, old(out)@) == struct_names(ss@, i as int, *module, out@),
        invariant
            i <= ss@.len(),
        ensures
            struct_names(ss@, 0, *module, old(out)@) == out@,
        decreases ss@.len() - i,
    {
        match module.get_struct(ss[i]) {
            None => break ,
            Some(s) => {
                separate(out, i > 0);
                out.append(&kebab_case(&s.name));
            },
        }
        i = i + 1;
    }
    let es = &surface.exported_enums;
    let ghost before = out@;
    let n: usize = ss.len();
    let mut j: usize = 0;
    while j < es.len()
        invariant_except_break
            enum_names(es@, 0, n as nat, *module, before) == enum_names(
                es@,
                j as int,
                n as nat,
                *module,
                out@,
            ),
        invariant
            j <= es@.len(),
        ensures
            enum_names(es@, 0, n as nat, *module, before) == out@,
        decreases es@.len() - j,
    {
        match module.get_enum(es[j]) {
            None => break ,
            Some(e) => {
                separate(out, n > 0 || j > 0);
                out.append(&kebab_case(&e.name));
            },
        }
        j = j + 1;
    }
}

// ── functions ────────────────────────────────────────────────────────

/// `out` and parameters, from parameter `i` on. `written` says whether
/// something precedes; errors name `function`.
pub open spec fn with_params(
    ps: Seq<IrFunctionParam>,
    i: int,
    written: bool,
    function: Seq<char>,
    m: IrModule,
    out: Seq<char>,
) -> Written
    decreases ps.len() - i,
{
    if i < 0 || i >= ps.len() {
        Ok(out)
    } else {
        match ps[i].ty {
            None => Err(WitProblem::MissingParamType { function, param: ps[i].name@ }),
            Some(t) => match with_value_type(
                t,
                m,
                function,
                ps[i].name@,
                separated(out, written) + crate::ident::kebab(ps[i].name@) + ": "@,
            ) {
                Err(x) => Err(x),
                Ok(text) => with_params(ps, i + 1, true, function, m, text),
            },
        }
    }
}

/// `out` and the end of a function's line: its result, unless it has no
/// values.
pub open spec fn with_result(ty: Option<ResolvedType>, m: IrModule, out: Seq<char>) -> Written {
    match ty {
        None => Ok(out + ")"@ + ";\n"@),
        Some(t) => match wit_type(t, m) {
            Err(x) => Err(WitProblem::TypeMap(x)),
            Ok(None) => Ok(out + ")"@ + ";\n"@),
            Ok(Some(text)) => Ok(out + ")"@ + " -> "@ + text + ";\n"@),
        },
    }
}

/// `out` and the line of a function in the world.
pub open spec fn with_function(f: IrFunction, kind: Seq<char>, m: IrModule, out: Seq<char>) -> Written {
    match with_params(
        f.params@,
        0,
        false,
        f.name@,
        m,
        out + "  "@ + kind + " "@ + crate::ident::kebab(f.name@) + ": func("@,
    ) {
        Err(x) => Err(x),
        Ok(text) => with_result(f.return_type, m, text),
    }
}

fn write_params(
    ps: &Vec<IrFunctionParam>,
    from: usize,
    start: bool,
    function: &str,
    module: &IrModule,
    out: &mut String,
) -> (r: Result<(), WitEmitError>)
    ensures
        wrote(
            r,
            final(out)@,
            with_params(ps@, from as int, start, function@, *module, old(out)@),
        ),
{
    let mut written = start;
    let mut i: usize = from;
    while i < ps.len()
        invariant
            with_params(ps@, from as int, start, function@, *module, old(out)@) == with_params(
                ps@,
                i as int,
                written,
                function@,
                *module,
                out@,
            ),
        decreases ps@.len() - i,
    {
        match &ps[i].ty {
            None => return Err(
                WitEmitError::MissingParamType {
                    function: function.to_owned(),
                    param: ps[i].name.clone(),
                },
            ),
            Some(t) => {
                separate(out, written);
                out.append(&kebab_case(&ps[i].name));
                out.append(": ");
                write_value_type(t, module, function, &ps[i].name, out)?;
            },
        }
        written = true;
        i = i + 1;
    }
    Ok(())
}

fn write_result(ty: &Option<ResolvedType>, module: &IrModule, out: &mut String) -> (r: Result<
    (),
    WitEmitError,
>)
    ensures
        wrote(r, final(out)@, with_result(*ty, *module, old(out)@)),
{
    out.append(")");
    if let Some(t) = ty {
        match resolved_wit_type(t, module) {
            Err(x) => return Err(WitEmitError::TypeMap(x)),
            Ok(None) => {},
            Ok(Some(text)) => {
                out.append(" -> ");
                out.append(&text);
            },
        }
    }
    out.append(";\n");
    Ok(())
}

fn write_world_func(out: &mut String, f: &IrFunction, kind: &str, module: &IrModule) -> (r: Result<
    (),
    WitEmitError,
>)
    ensures
        wrote(r, final(out)@, with_function(*f, kind@, *module, old(out)@)),
{
    out.append("  ");
    out.append(kind);
    out.append(" ");
    out.append(&kebab_case(&f.name));
    out.append(": func(");
    write_params(&f.params, 0, false, &f.name, module, out)?;
    write_result(&f.return_type, module, out)
}

/// `out` and the imports of host functions, from number `i` on.
pub open spec fn with_imports(ids: Seq<FunctionId>, i: int, m: IrModule, out: Seq<char>) -> Written
    decreases ids.len() - i,
{
    if i < 0 || i >= ids.len() {
        Ok(out)
    } else {
        match m.spec_function(ids[i]) {
            None => Err(
                WitProblem::ExportOutOfRange { index: ids[i].0, len: m.functions@.len() },
            ),
            Some(f) => match with_function(f, "import"@, m, out) {
                Err(x) => Err(x),
                Ok(text) => with_imports(ids, i + 1, m, text),
            },
        }
    }
}

fn write_imports(ids: &Vec<FunctionId>, module: &IrModule, out: &mut String) -> (r: Result<
    (),
    WitEmitError,
>)
    ensures
        wrote(r, final(out)@, with_imports(ids@, 0, *module, old(out)@)),
{
    let mut i: usize = 0;
    while i < ids.len()
        invariant
            i <= ids@.len(),
            with_imports(ids@, 0, *module, old(out)@) == with_imports(
                ids@,
                i as int,
                *module,
                out@,
            ),
        decreases ids@.len() - i,
    {
        match module.get_function(ids[i]) {
            None => return Err(
                WitEmitError::ExportOutOfRange { index: ids[i].0, len: module.functions.len() },
            ),
            Some(f) => write_world_func(out, f, "import", module)?,
        }
        i = i + 1;
    }
    Ok(())
}

// ── host methods ─────────────────────────────────────────────────────

/// The name under which a host method is imported.
pub open spec fn method_import_name(target: Seq<char>, method: Seq<char>) -> Seq<char> {
    crate::ident::kebab(target) + "-"@ + crate::ident::kebab(method)
}

/// `out` and the import of a host method of the type called `name`. The
/// receiver is the first parameter, unless it is a struct without fields.
pub open spec fn with_method(
    f: IrFunction,
    target: ImplTarget,
    name: Seq<char>,
    m: IrModule,
    out: Seq<char>,
) -> Written {
    let import = method_import_name(name, f.name@);
    let opened = out + "  import "@ + import + ": func("@;
    let received = !crate::module_lowering::indices::drops_receiver(target, m);
    match with_params(
        f.params@,
        1,
        received,
        import,
        m,
        if received {
            opened + "self: "@ + crate::ident::kebab(name)
        } else {
            opened
        },
    ) {
        Err(x) => Err(x),
        Ok(text) => with_result(f.return_type, m, text),
    }
}

/// `out` and the imports of an impl block's methods, from method `j` on.
pub open spec fn with_impl_methods(
    imp: IrImpl,
    j: int,
    name: Seq<char>,
    m: IrModule,
    out: Seq<char>,
) -> Written
    decreases imp.functions@.len() - j,
{
    if j < 0 || j >= imp.functions@.len() {
        Ok(out)
    } else {
        match with_method(imp.functions@[j], imp.target, name, m, out) {
            Err(x) => Err(x),
            Ok(text) => with_impl_methods(imp, j + 1, name, m, text),
        }
    }
}

/// `out` and the imports of all host methods, from impl block `i` on.
pub open spec fn with_host_methods(i: int, m: IrModule, out: Seq<char>) -> Written
    decreases m.impls@.len() - i,
{
    if i < 0 || i >= m.impls@.len() {
        Ok(out)
    } else {
        let imp = m.impls@[i];
        if !imp.is_extern || crate::module_lowering::indices::is_built_in(imp.target, m) {
            with_host_methods(i + 1, m, out)
        } else {
            match crate::module_lowering::indices::target_name(imp.target, m) {
                None => with_host_methods(i + 1, m, out),
                Some(name) => match with_impl_methods(imp, 0, name, m, out) {
                    Err(x) => Err(x),
                    Ok(text) => with_host_methods(i + 1, m, text),
                },
            }
        }
    }
}

fn write_extern_method_import(
    out: &mut String,
    target_name: &str,
    f: &IrFunction,
    module: &IrModule,
    target: ImplTarget,
) -> (r: Result<(), WitEmitError>)
    ensures
        wrote(r, final(out)@, with_method(*f, target, target_name@, *module, old(out)@)),
{
    let receiver = kebab_case(target_name);
    let import_name = concat3(&receiver, "-", &kebab_case(&f.name));
    let mut received = true;
    if let ImplTarget::Struct(id) = target {
        if let Some(s) = module.get_struct(id) {
            received = s.fields.len() > 0;
        }
    }
    out.append("  import ");
    out.append(&import_name);
    out.append(": func(");
    if received {
        out.append("self: ");
        out.append(&receiver);
    }
    write_params(&f.params, 1, received, &import_name, module, out)?;
    write_result(&f.return_type, module, out)
}

fn write_impl_methods(imp: &IrImpl, name: &str, module: &IrModule, out: &mut String) -> (r: Result<
    (),
    WitEmitError,
>)
    ensures
        wrote(r, final(out)@, with_impl_methods(*imp, 0, name@, *module, old(out)@)),
{
    let mut j: usize = 0;
    while j < imp.functions.len()
        invariant
            j <= imp.functions@.len(),
            with_impl_methods(*imp, 0, name@, *module, old(out)@) == with_impl_methods(
                *imp,
                j as int,
                name@,
                *module,
                out@,
            ),
        decreases imp.functions@.len() - j,
    {
        write_extern_method_import(out, name, &imp.functions[j], module, imp.target)?;
        j = j + 1;
    }
    Ok(())
}

fn write_host_methods(module: &IrModule, out: &mut String) -> (r: Result<(), WitEmitError>)
    ensures
        wrote(r, final(out)@, with_host_methods(0, *module, old(out)@)),
{
    let mut i: usize = 0;
    while i < module.impls.len()
        invariant
            i <= module.impls@.len(),
            with_host_methods(0, *module, old(out)@) == with_host_methods(
                i as int,
                *module,
                out@,
            ),
        decreases module.impls@.len() - i,
    {
        let imp = &module.impls[i];
        if imp.is_extern && !built_in(imp.target, module) {
            if let Some(name) = name_of_target(imp.target, module) {
                write_impl_methods(imp, name, module, out)?;
            }
        }
        i = i + 1;
    }
    Ok(())
}

// ── exports ──────────────────────────────────────────────────────────

/// Whether parameters cross the boundary, from parameter `i` on.
pub open spec fn params_cross(ps: Seq<IrFunctionParam>, i: int, m: IrModule) -> bool
    decreases ps.len() - i,
{
    if i < 0 || i >= ps.len() {
        true
    } else {
        (match ps[i].ty {
            Some(t) => wit_type(t, m) is Ok,
            None => false,
        }) && params_cross(ps, i + 1, m)
    }
}

/// Whether every type of a signature crosses the boundary.
pub open spec fn crosses(f: IrFunction, m: IrModule) -> bool {
    params_cross(f.params@, 0, m) && match f.return_type {
        Some(t) => wit_type(t, m) is Ok,
        None => true,
    }
}

/// Whether every type of a signature crosses the boundary. Functions whose
/// signatures do not are private.
pub fn function_signature_crosses_boundary(f: &IrFunction, module: &IrModule) -> (r: bool)
    ensures
        r == crosses(*f, *module),
{
    let mut i: usize = 0;
    while i < f.params.len()
        invariant
            i <= f.params@.len(),
            params_cross(f.params@, 0, *module) == params_cross(f.params@, i as int, *module),
        decreases f.params@.len() - i,
    {
        match &f.params[i].ty {
            None => return false,
            Some(t) => {
                if resolved_wit_type(t, module).is_err() {
                    return false;
                }
            },
        }
        i = i + 1;
    }
    match &f.return_type {
        Some(t) => resolved_wit_type(t, module).is_ok(),
        None => true,
    }
}

/// `out` and the exports, from number `i` on. Of functions that cross the
/// boundary under one name the first is exported; `taken` are the names so
/// far.
pub open spec fn with_exports(
    ids: Seq<FunctionId>,
    i: int,
    m: IrModule,
    taken: Seq<Seq<char>>,
    out: Seq<char>,
) -> Written
    decreases ids.len() - i,
{
    if i < 0 || i >= ids.len() {
        Ok(out)
    } else {
        match m.spec_function(ids[i]) {
            None => Err(
                WitProblem::ExportOutOfRange { index: ids[i].0, len: m.functions@.len() },
            ),
            Some(f) => {
                let name = crate::ident::kebab(f.name@);
                if !crosses(f, m) || taken.contains(name) {
                    with_exports(ids, i + 1, m, taken, out)
                } else {
                    match with_function(f, "export"@, m, out) {
                        Err(x) => Err(x),
                        Ok(text) => with_exports(ids, i + 1, m, taken.push(name), text),
                    }
                }
            },
        }
    }
}

fn is_listed(names: &Vec<String>, name: &String) -> (r: bool)
    ensures
        r == crate::encode::views(names@).contains(name@),
{
    let mut i: usize = 0;
    while i < names.len()
        invariant
            i <= names@.len(),
            forall|j: int| 0 <= j < i ==> (#[trigger] names@[j])@ != name@,
        decreases names@.len() - i,
    {
        if names[i] == *name {
            proof {
                assert(crate::encode::views(names@)[i as int] == name@);
            }
            return true;
        }
        i = i + 1;
    }
    proof {
        let all = crate::encode::views(names@);
        if all.contains(name@) {
            let w = choose|w: int| 0 <= w < all.len() && all[w] == name@;
            assert(names@[w]@ == name@);
        }
    }
    false
}

fn write_exports(ids: &Vec<FunctionId>, module: &IrModule, out: &mut String) -> (r: Result<
    (),
    WitEmitError,
>)
    ensures
        wrote(r, final(out)@, with_exports(ids@, 0, *module, Seq::empty(), old(out)@)),
{
    let mut taken: Vec<String> = Vec::new();
    proof {
        assert(crate::encode::views(taken@) =~= Seq::<Seq<char>>::empty());
    }
    let mut i: usize = 0;
    while i < ids.len()
        invariant
            i <= ids@.len(),
            with_exports(ids@, 0, *module, Seq::empty(), old(out)@) == with_exports(
                ids@,
                i as int,
                *module,
                crate::encode::views(taken@),
                out@,
            ),
        decreases ids@.len() - i,
    {
        match module.get_function(ids[i]) {
            None => return Err(
                WitEmitError::ExportOutOfRange { index: ids[i].0, len: module.functions.len() },
            ),
            Some(f) => {
                let name = kebab_case(&f.name);
                if function_signature_crosses_boundary(f, module) && !is_listed(&taken, &name) {
                    write_world_func(out, f, "export", module)?;
                    proof {
                        crate::encode::lemma_views_push(taken@, name);
                    }
                    taken.push(name);
                }
            },
        }
        i = i + 1;
    }
    Ok(())
}

// ── documents ────────────────────────────────────────────────────────

/// Whether a surface exports types.
pub open spec fn any_types(surface: SurfaceView) -> bool {
    surface.exported_structs.len() > 0 || surface.exported_enums.len() > 0
}

/// `out` and the interface of exported types, if there are any.
pub open spec fn with_types(m: IrModule, surface: SurfaceView, out: Seq<char>) -> Written {
    if !any_types(surface) {
        Ok(out)
    } else {
        match with_records(surface.exported_structs, 0, m, out + "interface types {\n"@) {
            Err(x) => Err(x),
            Ok(records) => match with_variants(surface.exported_enums, 0, m, records) {
                Err(x) => Err(x),
                Ok(text) => Ok(text + "}\n\n"@),
            },
        }
    }
}

/// `out` and the line that brings the exported types into the world, if
/// there are any.
pub open spec fn with_use(m: IrModule, surface: SurfaceView, out: Seq<char>) -> Seq<char> {
    if any_types(surface) {
        enum_names(
            surface.exported_enums,
            0,
            surface.exported_structs.len(),
            m,
            struct_names(surface.exported_structs, 0, m, out + "  use types.{"@),
        ) + "};\n"@
    } else {
        out
    }
}

/// `out` and the lines of the world's functions.
pub open spec fn with_world(m: IrModule, surface: SurfaceView, out: Seq<char>) -> Written {
    match with_imports(surface.imports, 0, m, out) {
        Err(x) => Err(x),
        Ok(imports) => match with_host_methods(0, m, imports) {
            Err(x) => Err(x),
            Ok(methods) => match with_exports(surface.exports, 0, m, Seq::empty(), methods) {
                Err(x) => Err(x),
                Ok(text) => Ok(text + "}\n"@),
            },
        },
    }
}

/// The document of a module's public surface.
pub open spec fn document(m: IrModule, surface: SurfaceView) -> Written {
    match with_types(m, surface, "package "@ + PACKAGE@ + ";\n\n"@) {
        Err(x) => Err(x),
        Ok(types) => with_world(
            m,
            surface,
            with_use(m, surface, types + "world "@ + WORLD_NAME@ + " {\n"@),
        ),
    }
}

fn write_types(module: &IrModule, surface: &PublicSurface, out: &mut String) -> (r: Result<
    (),
    WitEmitError,
>)
    ensures
        wrote(r, final(out)@, with_types(*module, surface@, old(out)@)),
{
    if surface.exported_structs.len() > 0 || surface.exported_enums.len() > 0 {
        out.append("interface types {\n");
        write_records(&surface.exported_structs, module, out)?;
        write_variants(&surface.exported_enums, module, out)?;
        out.append("}\n\n");
    }
    Ok(())
}

/// Write the document of a module's public surface.
pub fn write_document(module: &IrModule, surface: &PublicSurface) -> (r: Result<
    String,
    WitEmitError,
>)
    ensures
        match r {
            Ok(text) => document(*module, surface@) == Ok::<Seq<char>, WitProblem>(text@),
            Err(x) => document(*module, surface@) == Err::<Seq<char>, WitProblem>(x@),
        },
{
    let mut out = concat3("package ", PACKAGE, ";\n\n");
    write_types(module, surface, &mut out)?;
    out.append("world ");
    out.append(WORLD_NAME);
    out.append(" {\n");
    if surface.exported_structs.len() > 0 || surface.exported_enums.len() > 0 {
        out.append("  use types.{");
        write_names(surface, module, &mut out);
        out.append("};\n");
    }
    write_imports(&surface.imports, module, &mut out)?;
    write_host_methods(module, &mut out)?;
    write_exports(&surface.exports, module, &mut out)?;
    out.append("}\n");
    Ok(out)
}

/// What becomes of a document: it is kept where reading it back succeeds.
pub open spec fn confirmed(text: Seq<char>, reading: Result<nat, ReadProblem>) -> Written {
    match reading {
        Ok(_) => Ok(text),
        Err(ReadProblem::TooLong) => Err(WitProblem::TooLong),
        Err(ReadProblem::Syntax(reason)) => Err(WitProblem::Invalid { reason }),
        Err(ReadProblem::NoWorld(reason)) => Err(WitProblem::Invalid { reason }),
    }
}

/// The document that is emitted for a module's public surface.
pub open spec fn emitted(m: IrModule, surface: SurfaceView) -> Written {
    match document(m, surface) {
        Err(x) => Err(x),
        Ok(text) => confirmed(text, crate::resolution::reading(text)),
    }
}

/// The error for a document that could not be read back.
pub fn invalid_document(x: ReadError) -> (r: WitEmitError)
    ensures
        forall|text: Seq<char>| #[trigger]
            confirmed(text, Err(x@)) == Err::<Seq<char>, WitProblem>(r@),
{
    match x {
        ReadError::TooLong => WitEmitError::TooLong,
        ReadError::Syntax(reason) => WitEmitError::Invalid { reason },
        ReadError::NoWorld(reason) => WitEmitError::Invalid { reason },
    }
}

/// The document of a module's public surface. It is read back before it is
/// returned, so it is valid and declares the world.
pub fn emit_wit(module: &IrModule, surface: &PublicSurface) -> (r: Result<String, WitEmitError>)
    ensures
        match r {
            Ok(text) => {
                &&& emitted(*module, surface@) == Ok::<Seq<char>, WitProblem>(text@)
                &&& crate::resolution::reading(text@) is Ok
            },
            Err(x) => emitted(*module, surface@) == Err::<Seq<char>, WitProblem>(x@),
        },
{
    let text = write_document(module, surface)?;
    match read_document(&text) {
        Ok(_) => Ok(text),
        Err(x) => Err(invalid_document(x)),
    }
}

} // verus!
