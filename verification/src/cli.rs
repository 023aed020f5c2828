//! Arguments of the command-line driver.

use vstd::prelude::*;

use crate::ident::has_prefix;
use crate::string_pool::same_text;

verus! {

/// What the driver was asked to do.
#[derive(Debug, PartialEq, Eq)]
pub struct Args {
    /// Source file.
    pub input: String,
    /// Component file.
    pub output: String,
}

/// Why arguments were rejected.
#[derive(Debug, PartialEq, Eq)]
pub enum ArgsError {
    /// Help was asked for.
    Usage,
    /// The output flag is the last argument.
    MissingValue,
    /// A flag that does not exist.
    UnknownFlag(String),
    /// A second input file.
    UnexpectedArgument(String),
    /// No input file.
    MissingInput,
}

impl ArgsError {
    /// The text of [`ArgsError::message`].
    pub open spec fn text(self) -> Seq<char> {
        match self {
            ArgsError::Usage => "(usage)"@,
            ArgsError::MissingValue => "-o requires a value"@,
            ArgsError::UnknownFlag(v) => "unknown flag: "@ + v@,
            ArgsError::UnexpectedArgument(v) => "unexpected positional argument: "@ + v@,
            ArgsError::MissingInput => "missing input file"@,
        }
    }

    /// The text shown to the user.
    pub fn message(&self) -> (r: String)
        ensures
            r@ == self.text(),
    {
        match self {
            ArgsError::Usage => "(usage)".to_owned(),
            ArgsError::MissingValue => "-o requires a value".to_owned(),
            ArgsError::UnknownFlag(v) => {
                let mut text = "unknown flag: ".to_owned();
                text.append(v);
                text
            },
            ArgsError::UnexpectedArgument(v) => {
                let mut text = "unexpected positional argument: ".to_owned();
                text.append(v);
                text
            },
            ArgsError::MissingInput => "missing input file".to_owned(),
        }
    }
}

/// Whether an argument asks for help.
pub open spec fn asks_for_help(arg: Seq<char>) -> bool {
    arg == "-h"@ || arg == "--help"@
}

/// Whether the argument behind this one is the output file.
pub open spec fn announces_output(arg: Seq<char>) -> bool {
    arg == "-o"@ || arg == "--output"@
}

/// The input file and, where it is given, the output file, from argument `i`
/// on. Argument 0 is the program.
pub open spec fn scanned(
    argv: Seq<String>,
    i: int,
    input: Option<String>,
    output: Option<String>,
) -> Result<(String, Option<String>), ArgsError>
    decreases argv.len() - i,
{
    if i < 0 || i >= argv.len() {
        match input {
            None => Err(ArgsError::MissingInput),
            Some(file) => Ok((file, output)),
        }
    } else if asks_for_help(argv[i]@) {
        Err(ArgsError::Usage)
    } else if announces_output(argv[i]@) {
        if i + 1 < argv.len() {
            scanned(argv, i + 2, input, Some(argv[i + 1]))
        } else {
            Err(ArgsError::MissingValue)
        }
    } else if "-"@.is_prefix_of(argv[i]@) {
        Err(ArgsError::UnknownFlag(argv[i]))
    } else if input is Some {
        Err(ArgsError::UnexpectedArgument(argv[i]))
    } else {
        scanned(argv, i + 1, Some(argv[i]), output)
    }
}

/// Position behind the last slash of the first `k` characters.
pub open spec fn name_start(path: Seq<char>, k: nat) -> nat
    decreases k,
{
    if k == 0 || path[k - 1] == '/' {
        k
    } else {
        name_start(path, (k - 1) as nat)
    }
}

/// Whether a text is an ordinary file name on every system.
pub open spec fn is_plain_name(name: Seq<char>) -> bool {
    &&& name.len() > 0
    &&& name != seq!['.']
    &&& name != seq!['.', '.']
    &&& forall|i: int| 0 <= i < name.len() ==> #[trigger] name[i] != '/' && name[i] != '\\' && name[i] != ':'
}

/// Whether a path begins with two separators, behind which some systems name
/// a server.
pub open spec fn may_name_server(path: Seq<char>) -> bool {
    path.len() >= 2 && (path[0] == '/' || path[0] == '\\') && (path[1] == '/' || path[1] == '\\')
}

/// Whether a path has an ordinary file name on every system.
pub open spec fn has_plain_name(path: Seq<char>) -> bool {
    is_plain_name(file_name(path)) && !may_name_server(path)
}

/// Whether a path has no file name on any system: the root, and a path that
/// ends in two dots.
pub open spec fn has_no_name(path: Seq<char>) -> bool {
    ||| path == seq!['/']
    ||| file_name(path) == seq!['.', '.'] && !may_name_server(path)
}

/// Length of a file name without its extension: up to the last dot behind
/// the first character, or the whole name. `k` characters are left to look
/// at.
pub open spec fn stem_length(name: Seq<char>, k: nat) -> nat
    decreases k,
{
    if k <= 1 {
        name.len()
    } else if name[k - 1] == '.' {
        (k - 1) as nat
    } else {
        stem_length(name, (k - 1) as nat)
    }
}

/// The file name of a path.
pub open spec fn file_name(path: Seq<char>) -> Seq<char> {
    path.skip(name_start(path, path.len()) as int)
}

/// A path with the extension of its file name replaced, or added where it
/// has none.
pub open spec fn with_extension(path: Seq<char>, extension: Seq<char>) -> Seq<char> {
    let start = name_start(path, path.len());
    let name = file_name(path);
    path.take((start + stem_length(name, name.len())) as int) + "."@ + extension
}

/// `r` is `path`, cut somewhere, and the extension.
pub open spec fn ends_in(r: Seq<char>, path: Seq<char>, extension: Seq<char>) -> bool {
    exists|k: int|
        0 <= k <= path.len() && r == #[trigger] path.take(k) + "."@ + extension
}

/// `std::path::PathBuf::set_extension`, which replaces the extension of a
/// path's file name, or adds it where there is none, and reports whether
/// the path has a file name. A path that ends in two dots has none, and
/// neither has the root. What counts as a file name where the text behind the
/// last slash is empty otherwise, is a dot, or holds a backslash or a colon,
/// or where the path may begin with the name of a server, depends on the
/// system and is not stated.
#[verifier::external_body]
fn set_extension(path: &str, extension: &str) -> (r: Option<String>)
    requires
        is_plain_name(extension@),
    ensures
        has_plain_name(path@) ==> r is Some,
        has_no_name(path@) ==> r is None,
        r matches Some(p) ==> {
            &&& ends_in(p@, path@, extension@)
            &&& has_plain_name(path@) ==> p@ == with_extension(path@, extension@)
        },
{
    let mut p = std::path::PathBuf::from(path);
    if p.set_extension(extension) {
        Some(p.to_string_lossy().into_owned())
    } else {
        None
    }
}

/// The output file for an input file: the extension is replaced by `wasm`,
/// or `.wasm` is appended.
pub fn derive_output_path(input: &str) -> (r: String)
    ensures
        ends_in(r@, input@, "wasm"@),
        has_plain_name(input@) ==> r@ == with_extension(input@, "wasm"@),
        has_no_name(input@) ==> r@ == input@ + ".wasm"@,
{
    proof {
        reveal_strlit("wasm");
        reveal_strlit(".wasm");
        reveal_strlit(".");
        assert("wasm"@ =~= seq!['w', 'a', 's', 'm']);
        assert("."@ + "wasm"@ =~= ".wasm"@);
    }
    match set_extension(input, "wasm") {
        Some(path) => path,
        None => {
            let mut path = input.to_owned();
            path.append(".wasm");
            proof {
                assert(input@.take(input@.len() as int) =~= input@);
                assert(path@ =~= input@ + ".wasm"@);
                assert(path@ =~= input@.take(input@.len() as int) + "."@ + "wasm"@);
            }
            path
        },
    }
}

/// Read the arguments. Argument 0 is the program.
pub fn parse_args(argv: &Vec<String>) -> (r: Result<Args, ArgsError>)
    ensures
        match r {
            Ok(a) => {
                &&& scanned(argv@, 1, None, None) matches Ok((input, output))
                &&& a.input == input
                &&& match output {
                    Some(file) => a.output == file,
                    None => {
                        &&& ends_in(a.output@, input@, "wasm"@)
                        &&& has_no_name(input@) ==> a.output@ == input@ + ".wasm"@
                        &&& has_plain_name(input@) ==> a.output@ == with_extension(
                            input@,
                            "wasm"@,
                        )
                    },
                }
            },
            Err(x) => scanned(argv@, 1, None, None) == Err::<(String, Option<String>), ArgsError>(
                x,
            ),
        },
{
    let mut input: Option<String> = None;
    let mut output: Option<String> = None;
    let mut i: usize = 1;
    while i < argv.len()
        invariant
            scanned(argv@, 1, None, None) == scanned(argv@, i as int, input, output),
            i <= argv@.len() || argv@.len() == 0,
        decreases argv@.len() - i,
    {
        let arg = &argv[i];
        if same_text(arg, "-h") || same_text(arg, "--help") {
            return Err(ArgsError::Usage);
        }
        if same_text(arg, "-o") || same_text(arg, "--output") {
            if i + 1 >= argv.len() {
                return Err(ArgsError::MissingValue);
            }
            output = Some(argv[i + 1].clone());
            i = i + 2;
        } else if has_prefix(arg, "-") {
            return Err(ArgsError::UnknownFlag(arg.clone()));
        } else {
            if input.is_some() {
                return Err(ArgsError::UnexpectedArgument(arg.clone()));
            }
            input = Some(arg.clone());
            i = i + 1;
        }
    }
    match input {
        None => Err(ArgsError::MissingInput),
        Some(file) => {
            let target = match output {
                Some(name) => name,
                None => derive_output_path(&file),
            };
            Ok(Args { input: file, output: target })
        },
    }
}

} // verus!
