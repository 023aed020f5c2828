//! Errors of module lowering.

use vstd::prelude::*;

use crate::ir::{ImplTarget, TraitId};
use crate::layout::LayoutError;
use crate::lower::error::LowerError;
use crate::string_pool::StringPoolError;
use crate::types::{TypeMapError, UnsupportedKind};

verus! {

/// Errors produced by [`crate::module_lowering::lower_module`].
#[allow(inconsistent_fields)]
#[derive(Debug, PartialEq, Eq)]
pub enum ModuleLowerError {
    /// An expression could not be lowered.
    Lower(LowerError),
    /// A function that the module defines has no body.
    MissingFunctionBody { name: String },
    /// A parameter has no type. Only `self` may leave it out.
    MissingParamType { function: String, name: String },
    /// A signature holds a type without a value type.
    TypeMap(TypeMapError),
    /// An index does not fit in 32 bits.
    TooManyFunctions,
    /// The text literals do not fit in the data buffer.
    StringPool(StringPoolError),
    /// A trait id past the end of the module's table.
    UnknownTrait(TraitId),
    /// An impl block lacks a method of its trait.
    MissingTraitMethod { trait_name: String, method: String, target: ImplTarget },
    /// The static data does not fit in 32-bit offsets.
    VtableDataOverflow,
    /// A layout could not be planned.
    Layout(LayoutError),
    /// The module is larger than the format can measure.
    ModuleTooLarge,
}

/// Shorthand for an unsupported type.
pub open spec fn unsupported(kind: UnsupportedKind) -> ModuleLowerError {
    ModuleLowerError::TypeMap(TypeMapError::NotYetSupported { kind })
}

/// Shorthand for an unsupported type.
pub fn not_supported(kind: UnsupportedKind) -> (r: ModuleLowerError)
    ensures
        r == unsupported(kind),
{
    ModuleLowerError::TypeMap(TypeMapError::NotYetSupported { kind })
}

/// A position as a 32-bit index.
pub open spec fn checked_index(i: int) -> Result<u32, ModuleLowerError> {
    if i > u32::MAX {
        Err(ModuleLowerError::TooManyFunctions)
    } else {
        Ok(i as u32)
    }
}

/// A position as a 32-bit index.
pub fn to_index(i: usize) -> (r: Result<u32, ModuleLowerError>)
    ensures
        r == checked_index(i as int),
{
    if i > 0xffff_ffff {
        Err(ModuleLowerError::TooManyFunctions)
    } else {
        Ok(i as u32)
    }
}

/// The index after `i`.
pub open spec fn next_index(i: u32) -> Result<u32, ModuleLowerError> {
    checked_index(i + 1)
}

/// The index after `i`.
pub fn succ(i: u32) -> (r: Result<u32, ModuleLowerError>)
    ensures
        r == next_index(i),
{
    match i.checked_add(1) {
        Some(n) => Ok(n),
        None => Err(ModuleLowerError::TooManyFunctions),
    }
}

} // verus!
