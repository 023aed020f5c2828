//! WIT documents as `wit_parser` reads them.

use vstd::prelude::*;

use crate::wit::WORLD_NAME;

verus! {

/// Path under which documents are read. It appears in diagnostics only.
pub const DOCUMENT_PATH: &'static str = "formawasm-generated.wit";

/// The longest document, in bytes. Positions inside documents are 32-bit
/// numbers.
pub const MAX_DOCUMENT: usize = 0x0100_0000;

/// The largest product of a document's length and the length of its longest
/// word. The size of a world's description is a 32-bit number; beside a few
/// bytes for each byte of the document, the description repeats the names of
/// packages and resources with each item inside them.
pub const MAX_NAMES: u64 = 0x1000_0000;

/// The longest name of a world, in characters.
pub const MAX_WORLD_NAME: usize = 0x1000;

/// The deepest nesting of types in a document. `wit_parser` and
/// `wit_component` recurse over types without a limit of their own, and take
/// several hundred bytes of the stack for each level.
pub const MAX_DEPTH: u64 = 2048;

/// Whether a byte parts two words.
pub open spec fn is_blank(b: u8) -> bool {
    b == 0x20 || b == 0x0a || b == 0x0d || b == 0x09
}

/// The length of the word that ends before byte `n`.
pub open spec fn word_before(bytes: Seq<u8>, n: nat) -> nat
    decreases n,
{
    if n == 0 || is_blank(bytes[n - 1]) {
        0
    } else {
        word_before(bytes, (n - 1) as nat) + 1
    }
}

/// The length of the longest word in the first `n` bytes.
pub open spec fn longest_word(bytes: Seq<u8>, n: nat) -> nat
    decreases n,
{
    if n == 0 {
        0
    } else if word_before(bytes, n) > longest_word(bytes, (n - 1) as nat) {
        word_before(bytes, n)
    } else {
        longest_word(bytes, (n - 1) as nat)
    }
}

/// How many of the first `n` bytes declare a type or open a list of
/// declarations: `{` and `=`. Records, variants and `use` statements have a
/// brace, aliases have an equals sign.
pub open spec fn declarations(bytes: Seq<u8>, n: nat) -> nat
    decreases n,
{
    if n == 0 {
        0
    } else {
        declarations(bytes, (n - 1) as nat) + if bytes[n - 1] == 0x7b || bytes[n - 1] == 0x3d {
            1nat
        } else {
            0nat
        }
    }
}

/// How many of the first `n` bytes are `<`.
pub open spec fn angles(bytes: Seq<u8>, n: nat) -> nat
    decreases n,
{
    if n == 0 {
        0
    } else {
        angles(bytes, (n - 1) as nat) + if bytes[n - 1] == 0x3c {
            1nat
        } else {
            0nat
        }
    }
}

/// How many `<` are open behind the first `n` bytes. The arrow before a result
/// closes none.
pub open spec fn open_angles(bytes: Seq<u8>, n: nat) -> nat
    decreases n,
{
    if n == 0 {
        0
    } else {
        let before = open_angles(bytes, (n - 1) as nat);
        if bytes[n - 1] == 0x3c {
            before + 1
        } else if bytes[n - 1] == 0x3e && before > 0 && bytes[n - 2] != 0x2d {
            (before - 1) as nat
        } else {
            before
        }
    }
}

/// How many `<` are open at most within the first `n` bytes.
pub open spec fn deepest(bytes: Seq<u8>, n: nat) -> nat
    decreases n,
{
    if n == 0 {
        0
    } else if open_angles(bytes, n) > deepest(bytes, (n - 1) as nat) {
        open_angles(bytes, n)
    } else {
        deepest(bytes, (n - 1) as nat)
    }
}

/// Whether a comment begins within the first `n` bytes.
pub open spec fn has_comment(bytes: Seq<u8>, n: nat) -> bool
    decreases n,
{
    n >= 2 && (has_comment(bytes, (n - 1) as nat) || bytes[n - 2] == 0x2f && (bytes[n - 1] == 0x2f
        || bytes[n - 1] == 0x2a))
}

/// How deep a document nests types at most. A chain of types goes through each
/// declaration and each `<` once. It also goes from one declaration to the next
/// through no more types without a name than are nested in one place; but
/// inside comments brackets need not match.
pub open spec fn depth_bound(bytes: Seq<u8>) -> nat {
    let declared = declarations(bytes, bytes.len()) + 1;
    let all = declared + angles(bytes, bytes.len());
    let nested = declared * (deepest(bytes, bytes.len()) + 1);
    if nested < all && !has_comment(bytes, bytes.len()) {
        nested
    } else {
        all
    }
}

/// Whether a document is short enough to be read and described, and nests
/// types no deeper than recursion over them can go.
pub open spec fn is_short(text: Seq<char>) -> bool {
    let bytes = vstd::utf8::encode_utf8(text);
    &&& bytes.len() <= MAX_DOCUMENT
    &&& bytes.len() * longest_word(bytes, bytes.len()) <= MAX_NAMES
    &&& depth_bound(bytes) <= MAX_DEPTH
}

fn check_depth(bytes: &[u8]) -> (r: bool)
    requires
        bytes@.len() <= MAX_DOCUMENT,
    ensures
        r == (depth_bound(bytes@) <= MAX_DEPTH),
{
    let mut i: usize = 0;
    let mut declared: u64 = 0;
    let mut all: u64 = 0;
    let mut open: u64 = 0;
    let mut most: u64 = 0;
    let mut comment: bool = false;
    while i < bytes.len()
        invariant
            i <= bytes@.len() <= MAX_DOCUMENT,
            declared == declarations(bytes@, i as nat),
            all == angles(bytes@, i as nat),
            open == open_angles(bytes@, i as nat),
            most == deepest(bytes@, i as nat),
            comment == has_comment(bytes@, i as nat),
            declared <= i,
            all <= i,
            open <= i,
            most <= i,
        decreases bytes@.len() - i,
    {
        let b: u8 = bytes[i];
        let before: u8 = if i > 0 {
            bytes[i - 1]
        } else {
            0
        };
        if b == 0x7b || b == 0x3d {
            declared = declared + 1;
        }
        if b == 0x3c {
            all = all + 1;
            open = open + 1;
        } else if b == 0x3e && open > 0 && before != 0x2d {
            open = open - 1;
        }
        if open > most {
            most = open;
        }
        if before == 0x2f && (b == 0x2f || b == 0x2a) {
            comment = true;
        }
        i = i + 1;
    }
    proof {
        assert((declared + 1) * (most + 1) <= (MAX_DOCUMENT + 1) * (MAX_DOCUMENT + 1))
            by (nonlinear_arith)
            requires
                declared <= MAX_DOCUMENT,
                most <= MAX_DOCUMENT,
        ;
    }
    declared + 1 + all <= MAX_DEPTH || !comment && (declared + 1) * (most + 1) <= MAX_DEPTH
}

fn check_length(text: &str) -> (r: bool)
    ensures
        r == is_short(text@),
{
    let bytes: &[u8] = text.as_bytes();
    if bytes.len() > MAX_DOCUMENT {
        return false;
    }
    let mut i: usize = 0;
    let mut word: u64 = 0;
    let mut longest: u64 = 0;
    while i < bytes.len()
        invariant
            i <= bytes@.len() <= MAX_DOCUMENT,
            word == word_before(bytes@, i as nat),
            longest == longest_word(bytes@, i as nat),
            word <= i,
            longest <= i,
        decreases bytes@.len() - i,
    {
        let b: u8 = bytes[i];
        if b == 0x20 || b == 0x0a || b == 0x0d || b == 0x09 {
            word = 0;
        } else {
            word = word + 1;
        }
        if word > longest {
            longest = word;
        }
        i = i + 1;
    }
    let n: u64 = bytes.len() as u64;
    proof {
        assert(n * longest <= MAX_DOCUMENT * MAX_DOCUMENT) by (nonlinear_arith)
            requires
                n <= MAX_DOCUMENT,
                longest <= MAX_DOCUMENT,
        ;
    }
    n * longest <= MAX_NAMES && check_depth(bytes)
}

/// `wit_parser::Resolve`: the packages of documents, with their worlds.
#[verifier::external_type_specification]
#[verifier::external_body]
pub struct ExResolve(wit_parser::Resolve);

/// The documents in a `Resolve`, each with its path and its text.
pub uninterp spec fn documents_in(r: wit_parser::Resolve) -> Seq<(Seq<char>, Seq<char>)>;

/// What `Resolve::push_str` gives for the first document: the position of
/// its package, or the diagnostic.
pub uninterp spec fn parsed(path: Seq<char>, text: Seq<char>) -> Result<nat, Seq<char>>;

/// How many worlds documents declare: the length of `Resolve::worlds`.
pub uninterp spec fn world_count(docs: Seq<(Seq<char>, Seq<char>)>) -> nat;

/// What `Resolve::select_world` gives: the position of the world of that
/// name in a package, or the diagnostic.
pub uninterp spec fn selected(
    docs: Seq<(Seq<char>, Seq<char>)>,
    package: nat,
    world: Seq<char>,
) -> Result<nat, Seq<char>>;

/// `Resolve::default`, which holds no documents.
#[verifier::external_body]
fn new_resolve() -> (r: wit_parser::Resolve)
    ensures
        documents_in(r) == Seq::<(Seq<char>, Seq<char>)>::empty(),
{
    wit_parser::Resolve::default()
}

/// `Resolve::push_str`, which parses a document and adds its packages. It
/// returns the position of the main package, or renders the diagnostic. The
/// path is not read; it appears in the diagnostic. What the `Resolve` holds
/// after a failure is not stated.
#[verifier::external_body]
fn push_document(resolve: &mut wit_parser::Resolve, path: &str, text: &str) -> (r: Result<
    usize,
    String,
>)
    requires
        documents_in(*old(resolve)).len() == 0,
        is_short(text@),
    ensures
        match r {
            Ok(package) => {
                &&& parsed(path@, text@) == Ok::<nat, Seq<char>>(package as nat)
                &&& documents_in(*final(resolve)) == seq![(path@, text@)]
            },
            Err(reason) => parsed(path@, text@) == Err::<nat, Seq<char>>(reason@),
        },
{
    match resolve.push_str(path, text) {
        Ok(package) => Ok(package.index()),
        Err(e) => Err(format!("{e:#}")),
    }
}

/// `Resolve::select_world` with one main package, given by its position,
/// and the name of a world. It returns the position of that world among all
/// worlds, or renders the diagnostic.
#[verifier::external_body]
fn find_world(resolve: &wit_parser::Resolve, package: usize, world: &str) -> (r: Result<
    usize,
    String,
>)
    requires
        world@.len() <= MAX_WORLD_NAME,
    ensures
        match r {
            Ok(w) => {
                &&& selected(documents_in(*resolve), package as nat, world@) == Ok::<
                    nat,
                    Seq<char>,
                >(w as nat)
                &&& w < world_count(documents_in(*resolve))
            },
            Err(reason) => selected(documents_in(*resolve), package as nat, world@) == Err::<
                nat,
                Seq<char>,
            >(reason@),
        },
{
    let main: Vec<_> = resolve.packages.iter().map(|(id, _)| id).skip(package).take(1).collect();
    match resolve.select_world(&main, Some(world)) {
        Ok(w) => Ok(w.index()),
        Err(e) => Err(format!("{e:#}")),
    }
}

/// Why a document could not be read.
#[derive(Debug, PartialEq, Eq)]
pub enum ReadError {
    /// It is longer or nested deeper than [`MAX_DOCUMENT`], [`MAX_NAMES`] and
    /// [`MAX_DEPTH`] allow.
    TooLong,
    /// It does not parse.
    Syntax(String),
    /// It does not declare the world.
    NoWorld(String),
}

/// What a [`ReadError`] says.
pub enum ReadProblem {
    TooLong,
    Syntax(Seq<char>),
    NoWorld(Seq<char>),
}

impl View for ReadError {
    type V = ReadProblem;

    open spec fn view(&self) -> ReadProblem {
        match *self {
            ReadError::TooLong => ReadProblem::TooLong,
            ReadError::Syntax(reason) => ReadProblem::Syntax(reason@),
            ReadError::NoWorld(reason) => ReadProblem::NoWorld(reason@),
        }
    }
}

/// A document that was read: its `Resolve`, and its world's position there.
pub struct ReadDocument {
    pub resolve: wit_parser::Resolve,
    pub world: usize,
}

/// The documents that a single document with the text `wit` makes.
pub open spec fn single(wit: Seq<char>) -> Seq<(Seq<char>, Seq<char>)> {
    seq![(DOCUMENT_PATH@, wit)]
}

/// What reading a document gives: the position of its world, or the first
/// problem.
pub open spec fn reading(wit: Seq<char>) -> Result<nat, ReadProblem> {
    if !is_short(wit) {
        Err(ReadProblem::TooLong)
    } else {
        outcome(parsed(DOCUMENT_PATH@, wit), |p: nat| selected(single(wit), p, WORLD_NAME@))
    }
}

/// The outcome of parsing, and behind it that of selecting the world.
pub open spec fn outcome(
    parse: Result<nat, Seq<char>>,
    select: spec_fn(nat) -> Result<nat, Seq<char>>,
) -> Result<nat, ReadProblem> {
    match parse {
        Err(reason) => Err(ReadProblem::Syntax(reason)),
        Ok(package) => match select(package) {
            Err(reason) => Err(ReadProblem::NoWorld(reason)),
            Ok(world) => Ok(world),
        },
    }
}

/// Read a document that declares the world of this library.
pub fn read_document(wit: &str) -> (r: Result<ReadDocument, ReadError>)
    ensures
        match r {
            Ok(d) => {
                &&& reading(wit@) == Ok::<nat, ReadProblem>(d.world as nat)
                &&& documents_in(d.resolve) == single(wit@)
                &&& is_short(wit@)
                &&& d.world < world_count(single(wit@))
            },
            Err(x) => reading(wit@) == Err::<nat, ReadProblem>(x@),
        },
{
    if !check_length(wit) {
        return Err(ReadError::TooLong);
    }
    let mut resolve = new_resolve();
    let package: usize = match push_document(&mut resolve, DOCUMENT_PATH, wit) {
        Err(reason) => return Err(ReadError::Syntax(reason)),
        Ok(p) => p,
    };
    proof {
        reveal_strlit("component");
    }
    let world: usize = match find_world(&resolve, package, WORLD_NAME) {
        Err(reason) => return Err(ReadError::NoWorld(reason)),
        Ok(w) => w,
    };
    Ok(ReadDocument { resolve, world })
}

} // verus!
