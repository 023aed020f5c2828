//! Recognition of the built-in compound types and substitution of generic
//! parameters.
//!
//! `Optional<T>`, `Array<T>`, `Range<T>` and `Dictionary<K, V>` come in two
//! spellings: as type variants of their own, and as instantiations of the
//! generic definitions whose ids the module records. [`Compound::of`] sees
//! through both.

use vstd::prelude::*;

use crate::ir::{
    EnumId, GenericBase, IrEnum, IrEnumVariant, IrField, IrGenericParam, IrModule, List,
    ParamConvention, ResolvedType, StructId,
};
use crate::layout::VariantShape;

verus! {

/// View of a type that resolves the built-in compounds.
#[derive(Debug, PartialEq, Eq)]
pub enum Compound<'a> {
    Optional(&'a ResolvedType),
    Array(&'a ResolvedType),
    Range(&'a ResolvedType),
    Dictionary { key: &'a ResolvedType, value: &'a ResolvedType },
    /// Not a built-in compound.
    Other,
}

/// What [`Compound::of`] finds.
pub enum Shape {
    Optional(ResolvedType),
    Array(ResolvedType),
    Range(ResolvedType),
    Dictionary(ResolvedType, ResolvedType),
    Other,
}

/// The shape of a generic instantiation, by the ids of the built-ins.
pub open spec fn generic_shape(
    base: GenericBase,
    args: Seq<ResolvedType>,
    module: IrModule,
) -> Shape {
    match base {
        GenericBase::Enum(id) => if module.prelude_optional == Some(id) && args.len() > 0 {
            Shape::Optional(args[0])
        } else {
            Shape::Other
        },
        GenericBase::Struct(id) => if module.prelude_array == Some(id) {
            if args.len() > 0 {
                Shape::Array(args[0])
            } else {
                Shape::Other
            }
        } else if module.prelude_range == Some(id) {
            if args.len() > 0 {
                Shape::Range(args[0])
            } else {
                Shape::Other
            }
        } else if module.prelude_dictionary == Some(id) && args.len() == 2 {
            Shape::Dictionary(args[0], args[1])
        } else {
            Shape::Other
        },
        GenericBase::Trait(_) => Shape::Other,
    }
}

/// The shape of a type.
pub open spec fn shape_of(ty: ResolvedType, module: IrModule) -> Shape {
    match ty {
        ResolvedType::Optional(t) => Shape::Optional(*t),
        ResolvedType::Array(t) => Shape::Array(*t),
        ResolvedType::Range(t) => Shape::Range(*t),
        ResolvedType::Dictionary { key_ty, value_ty } => Shape::Dictionary(*key_ty, *value_ty),
        ResolvedType::Generic { base, args } => generic_shape(base, args.seq(), module),
        _ => Shape::Other,
    }
}

/// What a compound is made of is smaller than the compound.
pub proof fn lemma_shape_is_smaller(ty: ResolvedType, module: IrModule)
    ensures
        match shape_of(ty, module) {
            Shape::Optional(t) => decreases_to!(ty => t),
            Shape::Array(t) => decreases_to!(ty => t),
            Shape::Range(t) => decreases_to!(ty => t),
            Shape::Dictionary(k, v) => decreases_to!(ty => k) && decreases_to!(ty => v),
            Shape::Other => true,
        },
{
    if let ResolvedType::Generic { base, args } = ty {
        reveal_with_fuel(List::seq, 3);
        assert(decreases_to!(ty => args));
        if let List::Cons(head, tail) = args {
            assert(decreases_to!(args => *head));
            assert(decreases_to!(args => *tail));
            assert(args.seq()[0] == *head);
            if let List::Cons(second, _) = *tail {
                assert(decreases_to!(*tail => *second));
                assert(args.seq()[1] == *second);
            }
        }
    }
}

impl<'a> Compound<'a> {
    /// The shape this view stands for.
    pub open spec fn shape(self) -> Shape {
        match self {
            Compound::Optional(t) => Shape::Optional(*t),
            Compound::Array(t) => Shape::Array(*t),
            Compound::Range(t) => Shape::Range(*t),
            Compound::Dictionary { key, value } => Shape::Dictionary(*key, *value),
            Compound::Other => Shape::Other,
        }
    }

    /// Classify `ty` against the built-ins of `module`. An instantiation of
    /// any other generic definition is [`Compound::Other`].
    pub fn of(ty: &'a ResolvedType, module: &IrModule) -> (r: Self)
        ensures
            r.shape() == shape_of(*ty, *module),
    {
        match ty {
            ResolvedType::Optional(t) => Compound::Optional(t),
            ResolvedType::Array(t) => Compound::Array(t),
            ResolvedType::Range(t) => Compound::Range(t),
            ResolvedType::Dictionary { key_ty, value_ty } => Compound::Dictionary {
                key: key_ty,
                value: value_ty,
            },
            ResolvedType::Generic { base: GenericBase::Enum(id), args } => {
                if enum_is(module.prelude_optional, *id) {
                    match args.first() {
                        Some(t) => Compound::Optional(t),
                        None => Compound::Other,
                    }
                } else {
                    Compound::Other
                }
            },
            ResolvedType::Generic { base: GenericBase::Struct(id), args } => {
                if struct_is(module.prelude_array, *id) {
                    match args.first() {
                        Some(t) => Compound::Array(t),
                        None => Compound::Other,
                    }
                } else if struct_is(module.prelude_range, *id) {
                    match args.first() {
                        Some(t) => Compound::Range(t),
                        None => Compound::Other,
                    }
                } else if struct_is(module.prelude_dictionary, *id) {
                    two_types(args)
                } else {
                    Compound::Other
                }
            },
            _ => Compound::Other,
        }
    }
}

/// The dictionary over exactly two arguments.
fn two_types<'a>(args: &'a List<ResolvedType>) -> (r: Compound<'a>)
    ensures
        r.shape() == (if args.seq().len() == 2 {
            Shape::Dictionary(args.seq()[0], args.seq()[1])
        } else {
            Shape::Other
        }),
{
    proof {
        reveal_with_fuel(List::seq, 4);
    }
    if let List::Cons(key, rest) = args {
        if let List::Cons(value, end) = &**rest {
            if let List::Nil = &**end {
                return Compound::Dictionary { key, value };
            }
        }
    }
    Compound::Other
}

/// Whether `slot` holds `id`.
pub fn struct_is(slot: Option<StructId>, id: StructId) -> (r: bool)
    ensures
        r == (slot == Some(id)),
{
    match slot {
        Some(s) => s == id,
        None => false,
    }
}

/// Whether `slot` holds `id`.
pub fn enum_is(slot: Option<EnumId>, id: EnumId) -> (r: bool)
    ensures
        r == (slot == Some(id)),
{
    match slot {
        Some(s) => s == id,
        None => false,
    }
}

/// The payload type of an optional.
pub open spec fn optional_payload(ty: ResolvedType, module: IrModule) -> Option<ResolvedType> {
    match shape_of(ty, module) {
        Shape::Optional(t) => Some(t),
        _ => None,
    }
}

/// The element type of an array.
pub open spec fn element_type(ty: ResolvedType, module: IrModule) -> Option<ResolvedType> {
    match shape_of(ty, module) {
        Shape::Array(t) => Some(t),
        _ => None,
    }
}

/// The bound type of a range.
pub open spec fn bound_type(ty: ResolvedType, module: IrModule) -> Option<ResolvedType> {
    match shape_of(ty, module) {
        Shape::Range(t) => Some(t),
        _ => None,
    }
}

/// `r` borrows what `s` says.
pub open spec fn borrows(r: Option<&ResolvedType>, s: Option<ResolvedType>) -> bool {
    match r {
        Some(t) => s == Some(*t),
        None => s is None,
    }
}

/// `Optional<T>`'s payload type.
pub fn optional_inner<'a>(ty: &'a ResolvedType, module: &IrModule) -> (r: Option<&'a ResolvedType>)
    ensures
        borrows(r, optional_payload(*ty, *module)),
{
    match Compound::of(ty, module) {
        Compound::Optional(t) => Some(t),
        _ => None,
    }
}

/// `Array<T>`'s element type.
pub fn array_elem<'a>(ty: &'a ResolvedType, module: &IrModule) -> (r: Option<&'a ResolvedType>)
    ensures
        borrows(r, element_type(*ty, *module)),
{
    match Compound::of(ty, module) {
        Compound::Array(t) => Some(t),
        _ => None,
    }
}

/// `Range<T>`'s bound type.
pub fn range_bound<'a>(ty: &'a ResolvedType, module: &IrModule) -> (r: Option<&'a ResolvedType>)
    ensures
        borrows(r, bound_type(*ty, *module)),
{
    match Compound::of(ty, module) {
        Compound::Range(t) => Some(t),
        _ => None,
    }
}

/// `Dictionary<K, V>`'s key and value types.
pub fn dictionary_kv<'a>(ty: &'a ResolvedType, module: &IrModule) -> (r: Option<
    (&'a ResolvedType, &'a ResolvedType),
>)
    ensures
        match r {
            Some((k, v)) => shape_of(*ty, *module) == Shape::Dictionary(*k, *v),
            None => !(shape_of(*ty, *module) is Dictionary),
        },
{
    match Compound::of(ty, module) {
        Compound::Dictionary { key, value } => Some((key, value)),
        _ => None,
    }
}

/// The enum a type denotes, plain or instantiated.
pub open spec fn enum_id(ty: ResolvedType) -> Option<EnumId> {
    match ty {
        ResolvedType::Enum(id) => Some(id),
        ResolvedType::Generic { base: GenericBase::Enum(id), .. } => Some(id),
        _ => None,
    }
}

/// The struct a type denotes, plain or instantiated.
pub open spec fn struct_id(ty: ResolvedType) -> Option<StructId> {
    match ty {
        ResolvedType::Struct(id) => Some(id),
        ResolvedType::Generic { base: GenericBase::Struct(id), .. } => Some(id),
        _ => None,
    }
}

/// Resolve a type to its enum.
pub fn enum_id_of(ty: &ResolvedType) -> (r: Option<EnumId>)
    ensures
        r == enum_id(*ty),
{
    match ty {
        ResolvedType::Enum(id) => Some(*id),
        ResolvedType::Generic { base: GenericBase::Enum(id), .. } => Some(*id),
        _ => None,
    }
}

/// Resolve a type to its struct.
pub fn struct_id_of(ty: &ResolvedType) -> (r: Option<StructId>)
    ensures
        r == struct_id(*ty),
{
    match ty {
        ResolvedType::Struct(id) => Some(*id),
        ResolvedType::Generic { base: GenericBase::Struct(id), .. } => Some(*id),
        _ => None,
    }
}

// ── substitution ─────────────────────────────────────────────────────

/// Position of the first parameter called `name`, at or after `from`.
pub open spec fn param_position(params: Seq<IrGenericParam>, name: Seq<char>, from: int) -> Option<
    int,
>
    decreases params.len() - from,
{
    if from < 0 || from >= params.len() {
        None
    } else if params[from].name@ == name {
        Some(from)
    } else {
        param_position(params, name, from + 1)
    }
}

/// The argument a parameter name stands for.
pub open spec fn argument_for(
    name: Seq<char>,
    params: Seq<IrGenericParam>,
    args: Seq<ResolvedType>,
) -> Option<ResolvedType> {
    match param_position(params, name, 0) {
        Some(i) => if i < args.len() {
            Some(args[i])
        } else {
            None
        },
        None => None,
    }
}

/// `ty` with every parameter replaced by its argument. Parameters without
/// one stay.
pub open spec fn substituted(
    ty: ResolvedType,
    params: Seq<IrGenericParam>,
    args: Seq<ResolvedType>,
) -> ResolvedType
    decreases ty,
{
    match ty {
        ResolvedType::TypeParam(name) => match argument_for(name@, params, args) {
            Some(t) => t,
            None => ty,
        },
        ResolvedType::Generic { base, args: inner } => ResolvedType::Generic {
            base,
            args: substituted_list(inner, params, args),
        },
        ResolvedType::Tuple(fields) => ResolvedType::Tuple(
            substituted_fields(fields, params, args),
        ),
        ResolvedType::Closure { param_tys, return_ty } => ResolvedType::Closure {
            param_tys: substituted_params(param_tys, params, args),
            return_ty: Box::new(substituted(*return_ty, params, args)),
        },
        ResolvedType::Array(t) => ResolvedType::Array(Box::new(substituted(*t, params, args))),
        ResolvedType::Range(t) => ResolvedType::Range(Box::new(substituted(*t, params, args))),
        ResolvedType::Optional(t) => ResolvedType::Optional(
            Box::new(substituted(*t, params, args)),
        ),
        ResolvedType::Dictionary { key_ty, value_ty } => ResolvedType::Dictionary {
            key_ty: Box::new(substituted(*key_ty, params, args)),
            value_ty: Box::new(substituted(*value_ty, params, args)),
        },
        _ => ty,
    }
}

/// [`substituted`] on every type of a list.
pub open spec fn substituted_list(
    types: List<ResolvedType>,
    params: Seq<IrGenericParam>,
    args: Seq<ResolvedType>,
) -> List<ResolvedType>
    decreases types,
{
    match types {
        List::Nil => List::Nil,
        List::Cons(head, tail) => List::Cons(
            Box::new(substituted(*head, params, args)),
            Box::new(substituted_list(*tail, params, args)),
        ),
    }
}

/// [`substituted`] on every type of a named list.
pub open spec fn substituted_fields(
    fields: List<(String, ResolvedType)>,
    params: Seq<IrGenericParam>,
    args: Seq<ResolvedType>,
) -> List<(String, ResolvedType)>
    decreases fields,
{
    match fields {
        List::Nil => List::Nil,
        List::Cons(head, tail) => List::Cons(
            Box::new((head.0, substituted(head.1, params, args))),
            Box::new(substituted_fields(*tail, params, args)),
        ),
    }
}

/// [`substituted`] on every type of a closure parameter list.
pub open spec fn substituted_params(
    types: List<(ParamConvention, ResolvedType)>,
    params: Seq<IrGenericParam>,
    args: Seq<ResolvedType>,
) -> List<(ParamConvention, ResolvedType)>
    decreases types,
{
    match types {
        List::Nil => List::Nil,
        List::Cons(head, tail) => List::Cons(
            Box::new((head.0, substituted(head.1, params, args))),
            Box::new(substituted_params(*tail, params, args)),
        ),
    }
}

/// Element `i` of a list.
pub fn list_get<T>(list: &List<T>, i: usize) -> (r: Option<&T>)
    ensures
        match r {
            Some(t) => i < list.seq().len() && *t == list.seq()[i as int],
            None => i >= list.seq().len(),
        },
    decreases list,
{
    match list {
        List::Nil => None,
        List::Cons(head, tail) => {
            proof {
                assert(list.seq() =~= seq![**head] + tail.seq());
            }
            if i == 0 {
                Some(head)
            } else {
                list_get(tail, i - 1)
            }
        },
    }
}

/// The argument the parameter `name` stands for.
fn find_argument<'a>(
    name: &String,
    params: &Vec<IrGenericParam>,
    args: &'a List<ResolvedType>,
) -> (r: Option<&'a ResolvedType>)
    ensures
        borrows(r, argument_for(name@, params@, args.seq())),
{
    let mut i: usize = 0;
    while i < params.len()
        invariant
            i <= params@.len(),
            param_position(params@, name@, 0) == param_position(params@, name@, i as int),
        decreases params@.len() - i,
    {
        if params[i].name == *name {
            return list_get(args, i);
        }
        i = i + 1;
    }
    None
}

/// Substitute every parameter inside `ty` with the matching argument.
pub fn substitute_type_params(
    ty: &ResolvedType,
    params: &Vec<IrGenericParam>,
    args: &List<ResolvedType>,
) -> (r: ResolvedType)
    ensures
        r == substituted(*ty, params@, args.seq()),
    decreases ty,
{
    match ty {
        ResolvedType::TypeParam(name) => match find_argument(name, params, args) {
            Some(t) => t.clone(),
            None => ty.clone(),
        },
        ResolvedType::Generic { base, args: inner } => ResolvedType::Generic {
            base: *base,
            args: substitute_list(inner, params, args),
        },
        ResolvedType::Tuple(fields) => ResolvedType::Tuple(
            substitute_fields(fields, params, args),
        ),
        ResolvedType::Closure { param_tys, return_ty } => ResolvedType::Closure {
            param_tys: substitute_params(param_tys, params, args),
            return_ty: Box::new(substitute_type_params(return_ty, params, args)),
        },
        ResolvedType::Array(t) => ResolvedType::Array(
            Box::new(substitute_type_params(t, params, args)),
        ),
        ResolvedType::Range(t) => ResolvedType::Range(
            Box::new(substitute_type_params(t, params, args)),
        ),
        ResolvedType::Optional(t) => ResolvedType::Optional(
            Box::new(substitute_type_params(t, params, args)),
        ),
        ResolvedType::Dictionary { key_ty, value_ty } => ResolvedType::Dictionary {
            key_ty: Box::new(substitute_type_params(key_ty, params, args)),
            value_ty: Box::new(substitute_type_params(value_ty, params, args)),
        },
        _ => ty.clone(),
    }
}

fn substitute_list(
    types: &List<ResolvedType>,
    params: &Vec<IrGenericParam>,
    args: &List<ResolvedType>,
) -> (r: List<ResolvedType>)
    ensures
        r == substituted_list(*types, params@, args.seq()),
    decreases types,
{
    match types {
        List::Nil => List::Nil,
        List::Cons(head, tail) => List::Cons(
            Box::new(substitute_type_params(head, params, args)),
            Box::new(substitute_list(tail, params, args)),
        ),
    }
}

fn substitute_fields(
    fields: &List<(String, ResolvedType)>,
    params: &Vec<IrGenericParam>,
    args: &List<ResolvedType>,
) -> (r: List<(String, ResolvedType)>)
    ensures
        r == substituted_fields(*fields, params@, args.seq()),
    decreases fields,
{
    match fields {
        List::Nil => List::Nil,
        List::Cons(head, tail) => List::Cons(
            Box::new((head.0.clone(), substitute_type_params(&head.1, params, args))),
            Box::new(substitute_fields(tail, params, args)),
        ),
    }
}

fn substitute_params(
    types: &List<(ParamConvention, ResolvedType)>,
    params: &Vec<IrGenericParam>,
    args: &List<ResolvedType>,
) -> (r: List<(ParamConvention, ResolvedType)>)
    ensures
        r == substituted_params(*types, params@, args.seq()),
    decreases types,
{
    match types {
        List::Nil => List::Nil,
        List::Cons(head, tail) => List::Cons(
            Box::new((head.0, substitute_type_params(&head.1, params, args))),
            Box::new(substitute_params(tail, params, args)),
        ),
    }
}

/// The type of a field once `args` stand for `params`. Without parameters
/// or arguments it is the declared type.
pub open spec fn field_type(
    f: IrField,
    params: Seq<IrGenericParam>,
    args: Seq<ResolvedType>,
) -> ResolvedType {
    if params.len() == 0 || args.len() == 0 {
        f.ty
    } else {
        substituted(f.ty, params, args)
    }
}

/// A field of a substituted enum. Defaults belong to the declaration only.
pub open spec fn instance_field(
    f: IrField,
    params: Seq<IrGenericParam>,
    args: Seq<ResolvedType>,
) -> IrField {
    IrField {
        name: f.name,
        ty: field_type(f, params, args),
        optional: f.optional,
        default: None,
    }
}

/// The fields of a variant of a substituted enum.
pub open spec fn instance_fields(
    fs: Seq<IrField>,
    params: Seq<IrGenericParam>,
    args: Seq<ResolvedType>,
) -> Seq<IrField> {
    Seq::new(fs.len(), |i: int| instance_field(fs[i], params, args))
}

/// The variants of a substituted enum.
pub open spec fn instance_shapes(e: IrEnum, args: Seq<ResolvedType>) -> Seq<VariantShape> {
    Seq::new(
        e.variants@.len(),
        |i: int|
            VariantShape {
                name: e.variants@[i].name,
                fields: instance_fields(e.variants@[i].fields@, e.generic_params@, args),
            },
    )
}

/// The type of a field once `args` stand for `params`.
pub fn substitute_field_ty(
    field: &IrField,
    params: &Vec<IrGenericParam>,
    args: &List<ResolvedType>,
) -> (r: ResolvedType)
    ensures
        r == field_type(*field, params@, args.seq()),
{
    match args {
        List::Nil => field.ty.clone(),
        List::Cons(..) => {
            proof {
                assert(args.seq().len() > 0);
            }
            if params.len() == 0 {
                field.ty.clone()
            } else {
                substitute_type_params(&field.ty, params, args)
            }
        },
    }
}

/// The fields of one variant with the arguments put in.
fn substitute_variant(
    v: &IrEnumVariant,
    params: &Vec<IrGenericParam>,
    args: &List<ResolvedType>,
) -> (r: IrEnumVariant)
    ensures
        r.name == v.name,
        r.fields@ == instance_fields(v.fields@, params@, args.seq()),
{
    let mut fields: Vec<IrField> = Vec::new();
    let mut i: usize = 0;
    while i < v.fields.len()
        invariant
            i <= v.fields@.len(),
            fields@ == instance_fields(v.fields@, params@, args.seq()).take(i as int),
        decreases v.fields@.len() - i,
    {
        let f = &v.fields[i];
        fields.push(
            IrField {
                name: f.name.clone(),
                ty: substitute_field_ty(f, params, args),
                optional: f.optional,
                default: None,
            },
        );
        proof {
            let all = instance_fields(v.fields@, params@, args.seq());
            assert(all.take(i as int + 1) =~= all.take(i as int).push(all[i as int]));
        }
        i = i + 1;
    }
    proof {
        assert(fields@ =~= instance_fields(v.fields@, params@, args.seq()));
    }
    IrEnumVariant { name: v.name.clone(), fields }
}

/// The concrete enum an instantiation denotes: every variant field carries
/// its substituted type, and no generic parameters are left.
pub fn substitute_enum(e: &IrEnum, args: &List<ResolvedType>) -> (r: IrEnum)
    ensures
        r.name == e.name,
        r.visibility == e.visibility,
        r.generic_params@.len() == 0,
        crate::layout::variant_shapes(r) == instance_shapes(*e, args.seq()),
{
    let mut variants: Vec<IrEnumVariant> = Vec::new();
    let mut i: usize = 0;
    while i < e.variants.len()
        invariant
            i <= e.variants@.len(),
            variants@.len() == i,
            forall|j: int|
                0 <= j < i ==> (#[trigger] variants@[j]).name == e.variants@[j].name
                    && variants@[j].fields@ == instance_fields(
                    e.variants@[j].fields@,
                    e.generic_params@,
                    args.seq(),
                ),
        decreases e.variants@.len() - i,
    {
        variants.push(substitute_variant(&e.variants[i], &e.generic_params, args));
        i = i + 1;
    }
    let r = IrEnum {
        name: e.name.clone(),
        visibility: e.visibility,
        variants,
        generic_params: Vec::new(),
    };
    proof {
        assert(crate::layout::variant_shapes(r) =~= instance_shapes(*e, args.seq()));
    }
    r
}

/// The arguments of an instantiation of enum `expected`; none for any other
/// type.
pub open spec fn enum_args(ty: ResolvedType, expected: EnumId) -> List<ResolvedType> {
    match ty {
        ResolvedType::Generic { base: GenericBase::Enum(id), args } => if id == expected {
            args
        } else {
            List::Nil
        },
        _ => List::Nil,
    }
}

/// The arguments of an instantiation of enum `expected`.
pub fn generic_args_for_enum(ty: &ResolvedType, expected: EnumId) -> (r: List<ResolvedType>)
    ensures
        r == enum_args(*ty, expected),
{
    match ty {
        ResolvedType::Generic { base: GenericBase::Enum(id), args } => {
            if *id == expected {
                crate::ir::clone_types(args)
            } else {
                List::Nil
            }
        },
        _ => List::Nil,
    }
}

// ── laws ─────────────────────────────────────────────────────────────

/// Whether no parameter occurs in the type.
pub open spec fn is_concrete(ty: ResolvedType) -> bool
    decreases ty,
{
    match ty {
        ResolvedType::TypeParam(_) => false,
        ResolvedType::Generic { args, .. } => concrete_list(args),
        ResolvedType::Tuple(fields) => concrete_fields(fields),
        ResolvedType::Closure { param_tys, return_ty } => concrete_params(param_tys)
            && is_concrete(*return_ty),
        ResolvedType::Array(t) => is_concrete(*t),
        ResolvedType::Range(t) => is_concrete(*t),
        ResolvedType::Optional(t) => is_concrete(*t),
        ResolvedType::Dictionary { key_ty, value_ty } => is_concrete(*key_ty) && is_concrete(
            *value_ty,
        ),
        _ => true,
    }
}

pub open spec fn concrete_list(types: List<ResolvedType>) -> bool
    decreases types,
{
    match types {
        List::Nil => true,
        List::Cons(head, tail) => is_concrete(*head) && concrete_list(*tail),
    }
}

pub open spec fn concrete_fields(fields: List<(String, ResolvedType)>) -> bool
    decreases fields,
{
    match fields {
        List::Nil => true,
        List::Cons(head, tail) => is_concrete(head.1) && concrete_fields(*tail),
    }
}

pub open spec fn concrete_params(types: List<(ParamConvention, ResolvedType)>) -> bool
    decreases types,
{
    match types {
        List::Nil => true,
        List::Cons(head, tail) => is_concrete(head.1) && concrete_params(*tail),
    }
}

/// Substitution leaves a type without parameters as it is.
pub proof fn law_substitution_keeps_concrete_types(
    ty: ResolvedType,
    params: Seq<IrGenericParam>,
    args: Seq<ResolvedType>,
)
    requires
        is_concrete(ty),
    ensures
        substituted(ty, params, args) == ty,
    decreases ty,
{
    match ty {
        ResolvedType::Generic { args: inner, .. } => lemma_keeps_list(inner, params, args),
        ResolvedType::Tuple(fields) => lemma_keeps_fields(fields, params, args),
        ResolvedType::Closure { param_tys, return_ty } => {
            lemma_keeps_params(param_tys, params, args);
            law_substitution_keeps_concrete_types(*return_ty, params, args);
        },
        ResolvedType::Array(t) => law_substitution_keeps_concrete_types(*t, params, args),
        ResolvedType::Range(t) => law_substitution_keeps_concrete_types(*t, params, args),
        ResolvedType::Optional(t) => law_substitution_keeps_concrete_types(*t, params, args),
        ResolvedType::Dictionary { key_ty, value_ty } => {
            law_substitution_keeps_concrete_types(*key_ty, params, args);
            law_substitution_keeps_concrete_types(*value_ty, params, args);
        },
        _ => {},
    }
}

proof fn lemma_keeps_list(
    types: List<ResolvedType>,
    params: Seq<IrGenericParam>,
    args: Seq<ResolvedType>,
)
    requires
        concrete_list(types),
    ensures
        substituted_list(types, params, args) == types,
    decreases types,
{
    if let List::Cons(head, tail) = types {
        law_substitution_keeps_concrete_types(*head, params, args);
        lemma_keeps_list(*tail, params, args);
    }
}

proof fn lemma_keeps_fields(
    fields: List<(String, ResolvedType)>,
    params: Seq<IrGenericParam>,
    args: Seq<ResolvedType>,
)
    requires
        concrete_fields(fields),
    ensures
        substituted_fields(fields, params, args) == fields,
    decreases fields,
{
    if let List::Cons(head, tail) = fields {
        law_substitution_keeps_concrete_types(head.1, params, args);
        lemma_keeps_fields(*tail, params, args);
    }
}

proof fn lemma_keeps_params(
    types: List<(ParamConvention, ResolvedType)>,
    params: Seq<IrGenericParam>,
    args: Seq<ResolvedType>,
)
    requires
        concrete_params(types),
    ensures
        substituted_params(types, params, args) == types,
    decreases types,
{
    if let List::Cons(head, tail) = types {
        law_substitution_keeps_concrete_types(head.1, params, args);
        lemma_keeps_params(*tail, params, args);
    }
}

} // verus!
