//! From a core module and its WIT document to a component.

use vstd::prelude::*;

use crate::binary::carries_only_own;
use crate::resolution::{read_document, ReadError, ReadProblem};

verus! {

/// The longest core module with the description of its world, in bytes. The
/// sizes of a component's sections are 32-bit numbers. One section holds the
/// core module; those that hold the world can be longer than its description.
pub const MAX_CORE_MODULE: usize = 0x4000_0000;

/// Errors produced by [`wrap_component`].
#[allow(inconsistent_fields)]
#[derive(Debug, PartialEq, Eq)]
pub enum ComponentWrapError {
    /// The document does not parse.
    WitParse { reason: String },
    /// The document does not declare the world.
    WorldMissing { reason: String },
    /// The world cannot be described in the core module.
    EmbedFailed { reason: String },
    /// The core module does not fit its description.
    EncoderRejected { reason: String },
    /// The component could not be built, or is not valid.
    EncodeFailed { reason: String },
    /// The core module carries something that core modules of this library do
    /// not carry.
    ForeignModule,
    /// The core module or the document is too long.
    TooLong,
}

/// What a [`ComponentWrapError`] says. The wording of a failed encoding is
/// left out: it depends on the order in which a hash map is walked.
#[allow(inconsistent_fields)]
pub enum WrapProblem {
    WitParse { reason: Seq<char> },
    WorldMissing { reason: Seq<char> },
    EmbedFailed { reason: Seq<char> },
    EncoderRejected { reason: Seq<char> },
    EncodeFailed,
    ForeignModule,
    TooLong,
}

impl View for ComponentWrapError {
    type V = WrapProblem;

    open spec fn view(&self) -> WrapProblem {
        match *self {
            ComponentWrapError::WitParse { reason } => WrapProblem::WitParse { reason: reason@ },
            ComponentWrapError::WorldMissing { reason } => WrapProblem::WorldMissing {
                reason: reason@,
            },
            ComponentWrapError::EmbedFailed { reason } => WrapProblem::EmbedFailed {
                reason: reason@,
            },
            ComponentWrapError::EncoderRejected { reason } => WrapProblem::EncoderRejected {
                reason: reason@,
            },
            ComponentWrapError::EncodeFailed { .. } => WrapProblem::EncodeFailed,
            ComponentWrapError::ForeignModule => WrapProblem::ForeignModule,
            ComponentWrapError::TooLong => WrapProblem::TooLong,
        }
    }
}

/// `wit_component::ComponentEncoder`: a core module on its way to a
/// component.
#[verifier::external_type_specification]
#[verifier::external_body]
pub struct ExComponentEncoder(wit_component::ComponentEncoder);

/// The core module in a `ComponentEncoder`, with the description of its
/// world.
pub uninterp spec fn core_in(e: wit_component::ComponentEncoder) -> Seq<u8>;

/// What `embed_component_metadata` appends for a world, by its position,
/// with UTF-8 strings and plain names: the custom section, or the
/// diagnostic.
pub uninterp spec fn world_section(docs: Seq<(Seq<char>, Seq<char>)>, world: nat) -> Result<
    Seq<u8>,
    Seq<char>,
>;

/// The diagnostic with which `ComponentEncoder::module` rejects a core
/// module, if it does.
pub uninterp spec fn module_fault(core: Seq<u8>) -> Option<Seq<char>>;

/// The component that `ComponentEncoder::encode` makes of a core module, and
/// validates; `None` where it fails.
pub uninterp spec fn component_of(core: Seq<u8>) -> Option<Seq<u8>>;

/// `bytes` are those of a core module that carries only what the core modules
/// of this library carry, and behind them the description of a world of `docs`.
pub open spec fn describes(
    bytes: Seq<u8>,
    core: Seq<u8>,
    docs: Seq<(Seq<char>, Seq<char>)>,
    world: nat,
) -> bool {
    &&& crate::binary::is_own(core)
    &&& docs.len() == 1
    &&& crate::resolution::is_short(docs[0].1)
    &&& world < crate::resolution::world_count(docs)
    &&& world_section(docs, world) matches Ok(section)
    &&& bytes == core + section
}

/// `bytes` are those of a core module with the one description of its world.
pub open spec fn is_described(bytes: Seq<u8>) -> bool {
    exists|core: Seq<u8>, docs: Seq<(Seq<char>, Seq<char>)>, world: nat| #[trigger]
        describes(bytes, core, docs, world)
}

/// The eight bytes that every component begins with.
pub open spec fn component_header() -> Seq<u8> {
    seq![0x00u8, 0x61u8, 0x73u8, 0x6Du8, 0x0du8, 0x00u8, 0x01u8, 0x00u8]
}

/// `wit_component::embed_component_metadata`, which appends a custom section
/// with the description of a world, given by its position. On failure the
/// bytes stay as they are and the diagnostic is rendered.
#[verifier::external_body]
fn embed_world(core: &mut Vec<u8>, resolve: &wit_parser::Resolve, world: usize) -> (r: Result<
    (),
    String,
>)
    requires
        world < crate::resolution::world_count(crate::resolution::documents_in(*resolve)),
        crate::resolution::documents_in(*resolve).len() == 1,
        crate::resolution::is_short(crate::resolution::documents_in(*resolve)[0].1),
    ensures
        match r {
            Ok(_) => {
                &&& world_section(
                    crate::resolution::documents_in(*resolve),
                    world as nat,
                ) matches Ok(section)
                &&& final(core)@ == old(core)@ + section
            },
            Err(reason) => {
                &&& world_section(crate::resolution::documents_in(*resolve), world as nat) == Err::<
                    Seq<u8>,
                    Seq<char>,
                >(reason@)
                &&& final(core)@ == old(core)@
            },
        },
{
    let id = resolve.worlds.iter().map(|(id, _)| id).nth(world).unwrap();
    let utf8 = wit_component::StringEncoding::UTF8;
    match wit_component::embed_component_metadata(core, resolve, id, utf8, false) {
        Ok(()) => Ok(()),
        Err(e) => Err(format!("{e:#}")),
    }
}

/// `ComponentEncoder::module` on a fresh encoder that validates what it
/// makes: the encoder with the core module, or the rendered diagnostic. It
/// reads every description of a world in the module, and panics on some that
/// were not written by `embed_component_metadata`.
#[verifier::external_body]
fn start_encoder(core: &Vec<u8>) -> (r: Result<wit_component::ComponentEncoder, String>)
    requires
        is_described(core@),
    ensures
        match r {
            Ok(e) => module_fault(core@) is None && core_in(e) == core@,
            Err(reason) => module_fault(core@) == Some(reason@),
        },
{
    let mut encoder = wit_component::ComponentEncoder::default();
    encoder.validate(true);
    match encoder.module(core) {
        Ok(_) => Ok(encoder),
        Err(e) => Err(format!("{e:#}")),
    }
}

/// `ComponentEncoder::encode`: the bytes of the component, which begin with
/// the header of components, or the rendered diagnostic. What the diagnostic
/// says is not stated: where several imports cannot be merged, it names the
/// one that a hash map yields first. It can panic on modules that import
/// intrinsics.
#[verifier::external_body]
fn run_encoder(encoder: wit_component::ComponentEncoder) -> (r: Result<Vec<u8>, String>)
    requires
        is_described(core_in(encoder)),
        core_in(encoder).len() <= MAX_CORE_MODULE,
    ensures
        match r {
            Ok(bytes) => {
                &&& component_of(core_in(encoder)) == Some(bytes@)
                &&& component_header().is_prefix_of(bytes@)
            },
            Err(_) => component_of(core_in(encoder)) is None,
        },
{
    let mut encoder = encoder;
    match encoder.encode() {
        Ok(bytes) => Ok(bytes),
        Err(e) => Err(format!("{e:#}")),
    }
}

/// The problem that a document has.
pub open spec fn document_problem(x: ReadProblem) -> WrapProblem {
    match x {
        ReadProblem::TooLong => WrapProblem::TooLong,
        ReadProblem::Syntax(reason) => WrapProblem::WitParse { reason },
        ReadProblem::NoWorld(reason) => WrapProblem::WorldMissing { reason },
    }
}

/// The error for a document that could not be read.
pub fn document_error(x: ReadError) -> (r: ComponentWrapError)
    ensures
        r@ == document_problem(x@),
{
    match x {
        ReadError::TooLong => ComponentWrapError::TooLong,
        ReadError::Syntax(reason) => ComponentWrapError::WitParse { reason },
        ReadError::NoWorld(reason) => ComponentWrapError::WorldMissing { reason },
    }
}

/// The component of a core module that carries the description of its world.
pub open spec fn encoded(core: Seq<u8>) -> Result<Seq<u8>, WrapProblem> {
    match module_fault(core) {
        Some(reason) => Err(WrapProblem::EncoderRejected { reason }),
        None => match component_of(core) {
            None => Err(WrapProblem::EncodeFailed),
            Some(bytes) => Ok(bytes),
        },
    }
}

/// The component of a core module and a document.
pub open spec fn wrapped(core: Seq<u8>, wit: Seq<char>) -> Result<Seq<u8>, WrapProblem> {
    match crate::resolution::reading(wit) {
        Err(x) => Err(document_problem(x)),
        Ok(world) => if !crate::binary::is_own(core) {
            Err(WrapProblem::ForeignModule)
        } else {
            match world_section(crate::resolution::single(wit), world) {
                Err(reason) => Err(WrapProblem::EmbedFailed { reason }),
                Ok(section) => if core.len() + section.len() > MAX_CORE_MODULE {
                    Err(WrapProblem::TooLong)
                } else {
                    encoded(core + section)
                },
            }
        },
    }
}

/// Wrap a core module into a component, as the document says.
pub fn wrap_component(core_bytes: Vec<u8>, wit: &str) -> (r: Result<Vec<u8>, ComponentWrapError>)
    ensures
        match r {
            Ok(bytes) => {
                &&& wrapped(core_bytes@, wit@) == Ok::<Seq<u8>, WrapProblem>(bytes@)
                &&& component_header().is_prefix_of(bytes@)
            },
            Err(x) => wrapped(core_bytes@, wit@) == Err::<Seq<u8>, WrapProblem>(x@),
        },
{
    let document = match read_document(wit) {
        Err(x) => return Err(document_error(x)),
        Ok(d) => d,
    };
    if !carries_only_own(&core_bytes) {
        return Err(ComponentWrapError::ForeignModule);
    }
    let ghost given = core_bytes@;
    let mut core = core_bytes;
    if let Err(reason) = embed_world(&mut core, &document.resolve, document.world) {
        return Err(ComponentWrapError::EmbedFailed { reason });
    }
    proof {
        assert(describes(
            core@,
            given,
            crate::resolution::single(wit@),
            document.world as nat,
        ));
    }
    if core.len() > MAX_CORE_MODULE {
        return Err(ComponentWrapError::TooLong);
    }
    let encoder = match start_encoder(&core) {
        Err(reason) => return Err(ComponentWrapError::EncoderRejected { reason }),
        Ok(e) => e,
    };
    match run_encoder(encoder) {
        Err(reason) => Err(ComponentWrapError::EncodeFailed { reason }),
        Ok(bytes) => Ok(bytes),
    }
}

} // verus!
