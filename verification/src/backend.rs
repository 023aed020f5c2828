//! The backend: from a module to a component.

use vstd::prelude::*;

use crate::component::{wrap_component, ComponentWrapError, WrapProblem};
use crate::ir::IrModule;
use crate::module_lowering::error::ModuleLowerError;
use crate::module_lowering::lower_module;
use crate::preflight::{check, PreflightError, Problem};
use crate::survey::{keep_helpers_private, survey};
use crate::wit::{emit_wit, WitEmitError, WitProblem};

verus! {

/// Backend that lowers a module to a component.
#[derive(Clone, Copy, Debug, PartialEq, Eq, Structural)]
pub struct WasmBackend;

/// Errors produced by [`WasmBackend`].
#[derive(Debug, PartialEq, Eq)]
pub enum WasmBackendError {
    /// The module is not fit for the backend.
    Preflight(PreflightError),
    /// The core module could not be built.
    ModuleLower(ModuleLowerError),
    /// The WIT document could not be written.
    WitEmit(WitEmitError),
    /// The component could not be built.
    ComponentWrap(ComponentWrapError),
}

/// What a [`WasmBackendError`] says.
pub enum BackendProblem {
    Preflight(Problem),
    ModuleLower(ModuleLowerError),
    WitEmit(WitProblem),
    ComponentWrap(WrapProblem),
}

impl View for WasmBackendError {
    type V = BackendProblem;

    open spec fn view(&self) -> BackendProblem {
        match *self {
            WasmBackendError::Preflight(x) => BackendProblem::Preflight(x@),
            WasmBackendError::ModuleLower(x) => BackendProblem::ModuleLower(x),
            WasmBackendError::WitEmit(x) => BackendProblem::WitEmit(x@),
            WasmBackendError::ComponentWrap(x) => BackendProblem::ComponentWrap(x@),
        }
    }
}

/// The core module of a module that passes the checks.
pub open spec fn core_module(m: IrModule) -> Result<Seq<u8>, BackendProblem> {
    match crate::preflight::verdict(m) {
        Err(x) => Err(BackendProblem::Preflight(x)),
        Ok(_) => match crate::module_lowering::lowered_bytes(m) {
            Err(x) => Err(BackendProblem::ModuleLower(x)),
            Ok(core) => Ok(core),
        },
    }
}

/// The component of a module and its core module.
pub open spec fn assembled(m: IrModule, core: Seq<u8>) -> Result<Seq<u8>, BackendProblem> {
    match crate::wit::emitted(m, crate::survey::outward(crate::survey::surveyed(m), m)) {
        Err(x) => Err(BackendProblem::WitEmit(x)),
        Ok(wit) => match crate::component::wrapped(core, wit) {
            Err(x) => Err(BackendProblem::ComponentWrap(x)),
            Ok(bytes) => Ok(bytes),
        },
    }
}

/// The component of a module.
pub open spec fn generated(m: IrModule) -> Result<Seq<u8>, BackendProblem> {
    match core_module(m) {
        Err(x) => Err(x),
        Ok(core) => assembled(m, core),
    }
}

/// `r` is the vector form of `s`, or the same problem.
pub open spec fn bytes_outcome(
    r: Result<Vec<u8>, WasmBackendError>,
    s: Result<Seq<u8>, BackendProblem>,
) -> bool {
    match r {
        Ok(bytes) => s == Ok::<Seq<u8>, BackendProblem>(bytes@),
        Err(x) => s == Err::<Seq<u8>, BackendProblem>(x@),
    }
}

impl WasmBackend {
    /// Build the backend.
    pub fn new() -> (r: Self)
        ensures
            r == WasmBackend,
    {
        WasmBackend
    }

    /// Check a module and lower it to a core module. A core module may be
    /// optimised before it is assembled.
    pub fn lower(&self, module: &IrModule) -> (r: Result<Vec<u8>, WasmBackendError>)
        ensures
            bytes_outcome(r, core_module(*module)),
            r matches Ok(core) ==> {
                &&& crate::encode::module_header().is_prefix_of(core@)
                &&& crate::module_lowering::has_plain_names(*module) ==> crate::binary::is_own(
                    core@,
                )
            },
    {
        if let Err(x) = check(module) {
            return Err(WasmBackendError::Preflight(x));
        }
        match lower_module(module) {
            Err(x) => Err(WasmBackendError::ModuleLower(x)),
            Ok(core) => Ok(core),
        }
    }

    /// Describe a module's surface and wrap its core module into a
    /// component.
    pub fn assemble(&self, module: &IrModule, core_bytes: Vec<u8>) -> (r: Result<
        Vec<u8>,
        WasmBackendError,
    >)
        ensures
            bytes_outcome(r, assembled(*module, core_bytes@)),
            r matches Ok(bytes) ==> crate::component::component_header().is_prefix_of(bytes@),
    {
        let surface = keep_helpers_private(survey(module), module);
        let wit = match emit_wit(module, &surface) {
            Err(x) => return Err(WasmBackendError::WitEmit(x)),
            Ok(wit) => wit,
        };
        match wrap_component(core_bytes, &wit) {
            Err(x) => Err(WasmBackendError::ComponentWrap(x)),
            Ok(bytes) => Ok(bytes),
        }
    }

    /// Turn a module into a component. Its core module is never taken for that
    /// of another tool where its names are plain.
    pub fn generate(&self, module: &IrModule) -> (r: Result<Vec<u8>, WasmBackendError>)
        ensures
            bytes_outcome(r, generated(*module)),
            r matches Ok(bytes) ==> crate::component::component_header().is_prefix_of(bytes@),
            crate::module_lowering::has_plain_names(*module) ==> !(r matches Err(
                WasmBackendError::ComponentWrap(ComponentWrapError::ForeignModule),
            )),
    {
        let core = self.lower(module)?;
        self.assemble(module, core)
    }
}

impl Default for WasmBackend {
    fn default() -> (r: Self)
        ensures
            r == WasmBackend,
    {
        WasmBackend
    }
}

/// A module that does not pass the checks is rejected, whatever the later
/// steps would make of it.
pub proof fn law_checks_come_first(m: IrModule)
    requires
        crate::preflight::verdict(m) is Err,
    ensures
        generated(m) == Err::<Seq<u8>, BackendProblem>(
            BackendProblem::Preflight(crate::preflight::verdict(m)->Err_0),
        ),
{
}

/// A component is only made of a module that is clean, whose core module could
/// be built, and whose document parses.
pub proof fn law_components_come_from_clean_modules(m: IrModule)
    requires
        generated(m) is Ok,
    ensures
        crate::clean::clean(m),
        crate::module_lowering::lowered(m) is Ok,
        crate::wit::emitted(m, crate::survey::outward(crate::survey::surveyed(m), m)) matches Ok(text)
            && crate::resolution::reading(text) is Ok,
{
    crate::clean::law_preflight_passes_exactly_clean_modules(m);
}

} // verus!
