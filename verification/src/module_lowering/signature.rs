//! Signatures of functions, inside the module and at its boundary.

use vstd::prelude::*;

use crate::compound::{enum_id_of, struct_id_of, Compound};
use crate::instr::ValType;
use crate::ir::{
    IrFunction, IrFunctionParam, IrModule, PrimitiveType, ResolvedType, StructId,
};
use crate::lower::block::Local;
use crate::module_lowering::error::{not_supported, ModuleLowerError};
use crate::string_pool::same_text;
use crate::types::{body_result_types, body_value_type, UnsupportedKind};

verus! {

/// `r` is the vector form of `s`, or the same error.
pub open spec fn types_outcome(
    r: Result<Vec<ValType>, ModuleLowerError>,
    s: Result<Seq<ValType>, ModuleLowerError>,
) -> bool {
    match r {
        Ok(v) => s == Ok::<Seq<ValType>, ModuleLowerError>(v@),
        Err(e) => s == Err::<Seq<ValType>, ModuleLowerError>(e),
    }
}

/// The type of a parameter. A leading `self` without a type has that of the
/// receiver.
pub open spec fn declared_type(
    params: Seq<IrFunctionParam>,
    i: int,
    function: String,
    self_ty: Option<ResolvedType>,
) -> Result<ResolvedType, ModuleLowerError> {
    match params[i].ty {
        Some(t) => Ok(t),
        None => match self_ty {
            Some(t) => if i == 0 && params[i].name@ == "self"@ {
                Ok(t)
            } else {
                Err(ModuleLowerError::MissingParamType { function, name: params[i].name })
            },
            None => Err(ModuleLowerError::MissingParamType { function, name: params[i].name }),
        },
    }
}

/// The parameters' bindings and value types, from parameter `i` on, appended
/// to `out`.
pub open spec fn param_locals(
    params: Seq<IrFunctionParam>,
    i: int,
    function: String,
    self_ty: Option<ResolvedType>,
    out: Seq<Local>,
) -> Result<Seq<Local>, ModuleLowerError>
    decreases params.len() - i,
{
    if i < 0 || i >= params.len() {
        Ok(out)
    } else {
        match declared_type(params, i, function, self_ty) {
            Err(x) => Err(x),
            Ok(ty) => match crate::types::body_val(ty) {
                Err(x) => Err(ModuleLowerError::TypeMap(x)),
                Ok(None) => Err(
                    ModuleLowerError::MissingParamType { function, name: params[i].name },
                ),
                Ok(Some(vt)) => param_locals(
                    params,
                    i + 1,
                    function,
                    self_ty,
                    out.push((params[i].binding_id, vt)),
                ),
            },
        }
    }
}

/// The value types of locals.
pub open spec fn local_types(locals: Seq<Local>) -> Seq<ValType> {
    Seq::new(locals.len(), |i: int| locals[i].1)
}

/// The parameters of a function inside the module.
pub open spec fn internal_params(f: IrFunction, self_ty: Option<ResolvedType>) -> Result<
    Seq<Local>,
    ModuleLowerError,
> {
    param_locals(f.params@, 0, f.name, self_ty, Seq::empty())
}

/// The receiver type of a struct's methods.
pub open spec fn self_type(id: Option<StructId>) -> Option<ResolvedType> {
    match id {
        Some(id) => Some(ResolvedType::Struct(id)),
        None => None,
    }
}

/// The results of a function.
pub open spec fn results_of(f: IrFunction) -> Result<Seq<ValType>, ModuleLowerError> {
    results_for(f.return_type)
}

/// The results for a return type.
pub open spec fn results_for(ty: Option<ResolvedType>) -> Result<Seq<ValType>, ModuleLowerError> {
    match crate::types::body_results(ty) {
        Ok(s) => Ok(s),
        Err(x) => Err(ModuleLowerError::TypeMap(x)),
    }
}

/// Whether values of the type are texts.
pub open spec fn is_text(ty: ResolvedType) -> bool {
    match ty {
        ResolvedType::Primitive(p) => p == PrimitiveType::String || p == PrimitiveType::Path || p
            == PrimitiveType::Regex,
        _ => false,
    }
}

/// Whether values of the type pass to the host as pointer and length: texts
/// and lists.
pub open spec fn is_two_words(ty: ResolvedType, m: IrModule) -> bool {
    is_text(ty) || crate::compound::shape_of(ty, m) is Array
}

/// Whether values of the type take another form at the boundary than inside
/// the module: texts and lists pass as pointer and length, aggregates as
/// their parts.
pub open spec fn needs_split(ty: ResolvedType, m: IrModule) -> bool {
    ||| is_two_words(ty, m)
    ||| crate::compound::struct_id(ty) is Some
    ||| crate::compound::enum_id(ty) is Some
    ||| ty is Tuple
    ||| ty is Optional
}

/// Whether a parameter, from parameter `i` on, takes another form at the
/// boundary.
pub open spec fn any_split(params: Seq<IrFunctionParam>, i: int, m: IrModule) -> bool
    decreases params.len() - i,
{
    if i < 0 || i >= params.len() {
        false
    } else {
        match params[i].ty {
            Some(ty) => needs_split(ty, m) || any_split(params, i + 1, m),
            None => any_split(params, i + 1, m),
        }
    }
}

/// Whether a function's signature at the boundary differs from that inside
/// the module.
pub open spec fn needs_wrapper(f: IrFunction, m: IrModule) -> bool {
    any_split(f.params@, 0, m)
}

/// The parameters of a host function, from parameter `i` on, appended to
/// `out`.
pub open spec fn import_params(
    params: Seq<IrFunctionParam>,
    i: int,
    function: String,
    m: IrModule,
    out: Seq<ValType>,
) -> Result<Seq<ValType>, ModuleLowerError>
    decreases params.len() - i,
{
    if i < 0 || i >= params.len() {
        Ok(out)
    } else {
        match declared_type(params, i, function, None) {
            Err(x) => Err(x),
            Ok(ty) => if is_two_words(ty, m) {
                import_params(
                    params,
                    i + 1,
                    function,
                    m,
                    out.push(ValType::I32).push(ValType::I32),
                )
            } else {
                match crate::types::body_val(ty) {
                    Err(x) => Err(ModuleLowerError::TypeMap(x)),
                    Ok(None) => Err(
                        crate::module_lowering::error::unsupported(UnsupportedKind::HostParameter),
                    ),
                    Ok(Some(vt)) => import_params(params, i + 1, function, m, out.push(vt)),
                }
            },
        }
    }
}

/// Whether values of the type pass to the host as pointer and length.
pub fn passes_as_two_words(ty: &ResolvedType, module: &IrModule) -> (r: bool)
    ensures
        r == is_two_words(*ty, *module),
{
    match ty {
        ResolvedType::Primitive(p) => {
            if *p == PrimitiveType::String || *p == PrimitiveType::Path || *p
                == PrimitiveType::Regex {
                return true;
            }
        },
        _ => {},
    }
    match Compound::of(ty, module) {
        Compound::Array(_) => true,
        _ => false,
    }
}

/// Whether the type takes another form at the boundary.
pub fn param_needs_split(ty: &ResolvedType, module: &IrModule) -> (r: bool)
    ensures
        r == needs_split(*ty, *module),
{
    match ty {
        ResolvedType::Tuple(_) | ResolvedType::Optional(_) => {
            return true;
        },
        _ => {},
    }
    passes_as_two_words(ty, module) || struct_id_of(ty).is_some() || enum_id_of(ty).is_some()
}

/// Whether a function's signature at the boundary differs from that inside
/// the module.
pub fn needs_canonical_abi_wrapper(f: &IrFunction, module: &IrModule) -> (r: bool)
    ensures
        r == needs_wrapper(*f, *module),
{
    let mut i: usize = 0;
    while i < f.params.len()
        invariant
            i <= f.params@.len(),
            needs_wrapper(*f, *module) == any_split(f.params@, i as int, *module),
        decreases f.params@.len() - i,
    {
        if let Some(ty) = &f.params[i].ty {
            if param_needs_split(ty, module) {
                return true;
            }
        }
        i = i + 1;
    }
    false
}

/// The type of a parameter.
pub fn declared_param_type<'a>(
    params: &'a Vec<IrFunctionParam>,
    i: usize,
    function: &String,
    self_ty: Option<&'a ResolvedType>,
) -> (r: Result<&'a ResolvedType, ModuleLowerError>)
    requires
        i < params@.len(),
    ensures
        match r {
            Ok(t) => declared_type(
                params@,
                i as int,
                *function,
                crate::lower::block::deref_ty(self_ty),
            ) == Ok::<ResolvedType, ModuleLowerError>(*t),
            Err(x) => declared_type(
                params@,
                i as int,
                *function,
                crate::lower::block::deref_ty(self_ty),
            ) == Err::<ResolvedType, ModuleLowerError>(x),
        },
{
    let p = &params[i];
    if let Some(t) = &p.ty {
        return Ok(t);
    }
    if i == 0 && same_text(&p.name, "self") {
        if let Some(t) = self_ty {
            return Ok(t);
        }
    }
    Err(ModuleLowerError::MissingParamType { function: function.clone(), name: p.name.clone() })
}

/// The parameters of a function inside the module: value types, and bindings
/// with them. A leading `self` without a type gets that of the receiver.
pub fn lower_params_with_self_ty(f: &IrFunction, self_ty: Option<&ResolvedType>) -> (r: Result<
    (Vec<ValType>, Vec<Local>),
    ModuleLowerError,
>)
    ensures
        match r {
            Ok((types, locals)) => {
                &&& internal_params(*f, crate::lower::block::deref_ty(self_ty)) == Ok::<
                    Seq<Local>,
                    ModuleLowerError,
                >(locals@)
                &&& types@ == local_types(locals@)
            },
            Err(x) => internal_params(*f, crate::lower::block::deref_ty(self_ty)) == Err::<
                Seq<Local>,
                ModuleLowerError,
            >(x),
        },
{
    let mut types: Vec<ValType> = Vec::new();
    let mut locals: Vec<Local> = Vec::new();
    let mut i: usize = 0;
    proof {
        assert(types@ =~= local_types(locals@));
    }
    while i < f.params.len()
        invariant
            i <= f.params@.len(),
            types@ == local_types(locals@),
            internal_params(*f, crate::lower::block::deref_ty(self_ty)) == param_locals(
                f.params@,
                i as int,
                f.name,
                crate::lower::block::deref_ty(self_ty),
                locals@,
            ),
        decreases f.params@.len() - i,
    {
        let ty = declared_param_type(&f.params, i, &f.name, self_ty)?;
        let vt: ValType = match body_value_type(ty) {
            Err(x) => return Err(ModuleLowerError::TypeMap(x)),
            Ok(None) => {
                return Err(
                    ModuleLowerError::MissingParamType {
                        function: f.name.clone(),
                        name: f.params[i].name.clone(),
                    },
                );
            },
            Ok(Some(vt)) => vt,
        };
        types.push(vt);
        locals.push((f.params[i].binding_id, vt));
        proof {
            assert(types@ =~= local_types(locals@));
        }
        i = i + 1;
    }
    Ok((types, locals))
}

/// The parameters of a method of a struct, or of a free function.
pub fn lower_params_with_self(f: &IrFunction, self_struct_id: Option<StructId>) -> (r: Result<
    (Vec<ValType>, Vec<Local>),
    ModuleLowerError,
>)
    ensures
        match r {
            Ok((types, locals)) => {
                &&& internal_params(*f, self_type(self_struct_id)) == Ok::<
                    Seq<Local>,
                    ModuleLowerError,
                >(locals@)
                &&& types@ == local_types(locals@)
            },
            Err(x) => internal_params(*f, self_type(self_struct_id)) == Err::<
                Seq<Local>,
                ModuleLowerError,
            >(x),
        },
{
    match self_struct_id {
        Some(id) => {
            let ty = ResolvedType::Struct(id);
            lower_params_with_self_ty(f, Some(&ty))
        },
        None => lower_params_with_self_ty(f, None),
    }
}

/// The results for a return type.
pub fn lower_results(ty: &Option<ResolvedType>) -> (r: Result<Vec<ValType>, ModuleLowerError>)
    ensures
        types_outcome(r, results_for(*ty)),
{
    let borrowed: Option<&ResolvedType> = match ty {
        Some(t) => Some(t),
        None => None,
    };
    match body_result_types(borrowed) {
        Ok(v) => Ok(v),
        Err(x) => Err(ModuleLowerError::TypeMap(x)),
    }
}

/// The parameters that a host function is imported with: two words for each
/// text or list, the others unchanged.
pub fn canonical_abi_import_params(f: &IrFunction, module: &IrModule) -> (r: Result<
    Vec<ValType>,
    ModuleLowerError,
>)
    ensures
        types_outcome(r, import_params(f.params@, 0, f.name, *module, Seq::empty())),
{
    let mut out: Vec<ValType> = Vec::new();
    let mut i: usize = 0;
    while i < f.params.len()
        invariant
            i <= f.params@.len(),
            import_params(f.params@, 0, f.name, *module, Seq::empty()) == import_params(
                f.params@,
                i as int,
                f.name,
                *module,
                out@,
            ),
        decreases f.params@.len() - i,
    {
        let ty = declared_param_type(&f.params, i, &f.name, None)?;
        if passes_as_two_words(ty, module) {
            out.push(ValType::I32);
            out.push(ValType::I32);
        } else {
            match body_value_type(ty) {
                Err(x) => return Err(ModuleLowerError::TypeMap(x)),
                Ok(None) => return Err(not_supported(UnsupportedKind::HostParameter)),
                Ok(Some(vt)) => out.push(vt),
            }
        }
        i = i + 1;
    }
    Ok(out)
}

/// The struct whose method a function looks like: its first parameter is a
/// `self` of that struct's type.
pub open spec fn looks_like_method_of(f: IrFunction) -> Option<StructId> {
    if f.params@.len() > 0 && f.params@[0].name@ == "self"@ {
        match f.params@[0].ty {
            Some(ResolvedType::Struct(id)) => Some(id),
            _ => None,
        }
    } else {
        None
    }
}

/// The struct whose method a function looks like.
pub fn detect_self_struct(f: &IrFunction) -> (r: Option<StructId>)
    ensures
        r == looks_like_method_of(*f),
{
    if f.params.len() > 0 && same_text(&f.params[0].name, "self") {
        match &f.params[0].ty {
            Some(ResolvedType::Struct(id)) => Some(*id),
            _ => None,
        }
    } else {
        None
    }
}

} // verus!
