//! The command line of the viewer: an optional Markdown file, `--help`,
//! `--version`, and `--` before a file name that starts with `-`.
//!
//! Arguments are taken as the bytes the operating system gives (on Linux,
//! any bytes), so that a file name that is not UTF-8 is kept as it is.

use vstd::prelude::*;
use vstd::string::StringSliceAdditionalSpecFns;
use crate::text::{lossy_text, utf8_lossy};

verus! {

/// Command-line help shown for `--help` and invalid arguments.
pub const HELP: &'static str = "\
md-viewer - small read-only Markdown viewer

Usage:
  md-viewer [OPTIONS] [FILE.md]

Options:
  -h, --help       Show this help
  -V, --version    Show the version

You can also open a file with Ctrl+O or drag it onto the window.
";

/// What the command line asks for.
#[derive(Debug, Clone, PartialEq, Eq)]
pub enum LaunchAction {
    /// Start the window, opening `file` (the bytes of its path) right away
    /// if it is given.
    Run { file: Option<Vec<u8>> },
    /// Print the usage text.
    Help,
    /// Print the version.
    Version,
}

/// `LaunchAction` with the file name as a sequence of bytes.
pub enum LaunchRequest {
    Run { file: Option<Seq<u8>> },
    Help,
    Version,
}

impl View for LaunchAction {
    type V = LaunchRequest;

    open spec fn view(&self) -> LaunchRequest {
        match self {
            LaunchAction::Run { file } => LaunchRequest::Run {
                file: match file {
                    Some(bytes) => Some(bytes@),
                    None => None,
                },
            },
            LaunchAction::Help => LaunchRequest::Help,
            LaunchAction::Version => LaunchRequest::Version,
        }
    }
}

/// The message for more than one file name.
pub open spec fn too_many_files_message() -> Seq<char> {
    "only one Markdown file can be opened per window"@
}

/// The message for an option that is not known; it shows the argument as
/// text, invalid UTF-8 replaced.
pub open spec fn unknown_option_message(option: Seq<u8>) -> Seq<char> {
    "unknown option: "@ + utf8_lossy(option)
}

/// Whether `arg` starts with the byte of `-` (the same as whether its text,
/// invalid UTF-8 replaced, starts with `-`).
pub open spec fn looks_like_option(arg: Seq<u8>) -> bool {
    arg.len() > 0 && arg[0] == 45
}

/// The outcome of reading `args` from left to right, where `file` is the
/// file name met so far and `positional_only` tells whether `--` was met.
/// Before `--`, `--help`/`-h` and `--version`/`-V` answer at once and any
/// other argument that starts with `-` is an unknown option; every other
/// argument is a file name, and a second one is refused.
pub open spec fn parse_from(args: Seq<Seq<u8>>, file: Option<Seq<u8>>, positional_only: bool) -> Result<LaunchRequest, Seq<char>>
    decreases args.len(),
{
    if args.len() == 0 {
        Ok(LaunchRequest::Run { file })
    } else {
        let arg = args[0];
        let rest = args.drop_first();
        if !positional_only && arg == "--".spec_bytes() {
            parse_from(rest, file, true)
        } else if !positional_only && (arg == "--help".spec_bytes() || arg == "-h".spec_bytes()) {
            Ok(LaunchRequest::Help)
        } else if !positional_only && (arg == "--version".spec_bytes() || arg == "-V".spec_bytes()) {
            Ok(LaunchRequest::Version)
        } else if !positional_only && looks_like_option(arg) {
            Err(unknown_option_message(arg))
        } else if file is Some {
            Err(too_many_files_message())
        } else {
            parse_from(rest, Some(arg), positional_only)
        }
    }
}

/// What a whole command line (without the program name) asks for.
pub open spec fn parse_spec(args: Seq<Seq<u8>>) -> Result<LaunchRequest, Seq<char>> {
    parse_from(args, None, false)
}

/// The arguments as sequences of bytes.
pub open spec fn arg_bytes(arguments: Seq<Vec<u8>>) -> Seq<Seq<u8>> {
    arguments.map_values(|argument: Vec<u8>| argument@)
}

/// Whether two byte strings are equal.
fn bytes_eq(a: &[u8], b: &[u8]) -> (r: bool)
    ensures
        r == (a@ == b@),
{
    if a.len() != b.len() {
        return false;
    }
    let mut i: usize = 0;
    while i < a.len()
        invariant
            a@.len() == b@.len(),
            i <= a@.len(),
            forall|j: int| 0 <= j < i ==> a@[j] == b@[j],
        decreases a.len() - i,
    {
        if a[i] != b[i] {
            return false;
        }
        i = i + 1;
    }
    assert(a@ =~= b@);
    true
}

/// The view of a parse result.
pub open spec fn outcome_view(r: Result<LaunchAction, String>) -> Result<LaunchRequest, Seq<char>> {
    match r {
        Ok(action) => Ok(action@),
        Err(message) => Err(message@),
    }
}

/// Reads the arguments after the program name, given as the bytes of
/// each argument. Unknown options and more than one file name are errors.
pub fn parse_args(arguments: Vec<Vec<u8>>) -> (r: Result<LaunchAction, String>)
    ensures
        outcome_view(r) == parse_spec(arg_bytes(arguments@)),
{
    let ghost args = arg_bytes(arguments@);
    let mut file: Option<Vec<u8>> = None;
    let mut positional_only = false;
    let mut i: usize = 0;
    assert(args.skip(0) =~= args);
    while i < arguments.len()
        invariant
            args == arg_bytes(arguments@),
            i <= arguments.len(),
            parse_spec(args) == parse_from(
                args.skip(i as int),
                match file {
                    Some(bytes) => Some(bytes@),
                    None => None,
                },
                positional_only,
            ),
        decreases arguments.len() - i,
    {
        let argument = arguments[i].as_slice();
        let ghost rest = args.skip(i as int);
        assert(rest[0] == argument@);
        assert(rest.drop_first() =~= args.skip(i + 1));
        if !positional_only {
            if bytes_eq(argument, "--".as_bytes()) {
                positional_only = true;
                i = i + 1;
                continue;
            }
            if bytes_eq(argument, "--help".as_bytes()) || bytes_eq(argument, "-h".as_bytes()) {
                return Ok(LaunchAction::Help);
            }
            if bytes_eq(argument, "--version".as_bytes()) || bytes_eq(argument, "-V".as_bytes()) {
                return Ok(LaunchAction::Version);
            }
            if argument.len() > 0 && argument[0] == 45 {
                let mut message = String::from_str("unknown option: ");
                let shown = lossy_text(argument);
                message.append(shown.as_str());
                return Err(message);
            }
        }
        if file.is_some() {
            return Err(String::from_str("only one Markdown file can be opened per window"));
        }
        file = Some(arguments[i].clone());
        i = i + 1;
    }
    assert(args.skip(i as int) =~= Seq::<Seq<u8>>::empty());
    Ok(LaunchAction::Run { file })
}

proof fn lemma_option_bytes()
    ensures
        "--".spec_bytes() == seq![45u8, 45u8],
        "--help".spec_bytes() == seq![45u8, 45u8, 104u8, 101u8, 108u8, 112u8],
        "-h".spec_bytes() == seq![45u8, 104u8],
        "--version".spec_bytes() == seq![45u8, 45u8, 118u8, 101u8, 114u8, 115u8, 105u8, 111u8, 110u8],
        "-V".spec_bytes() == seq![45u8, 86u8],
{
    broadcast use vstd::string::group_string_axioms;

    reveal_strlit("--");
    reveal_strlit("--help");
    reveal_strlit("-h");
    reveal_strlit("--version");
    reveal_strlit("-V");
    assert(vstd::string::is_ascii("--"));
    assert(vstd::string::is_ascii("--help"));
    assert(vstd::string::is_ascii("-h"));
    assert(vstd::string::is_ascii("--version"));
    assert(vstd::string::is_ascii("-V"));
    assert("--".spec_bytes() =~= seq![45u8, 45u8]);
    assert("--help".spec_bytes() =~= seq![45u8, 45u8, 104u8, 101u8, 108u8, 112u8]);
    assert("-h".spec_bytes() =~= seq![45u8, 104u8]);
    assert("--version".spec_bytes() =~= seq![45u8, 45u8, 118u8, 101u8, 114u8, 115u8, 105u8, 111u8, 110u8]);
    assert("-V".spec_bytes() =~= seq![45u8, 86u8]);
}

/// Without arguments the window opens with no file.
pub proof fn law_no_arguments()
    ensures
        parse_spec(Seq::empty()) == Ok::<LaunchRequest, Seq<char>>(LaunchRequest::Run { file: None }),
{
}

/// A single argument that does not start with `-` is the file to open.
pub proof fn law_single_file(name: Seq<u8>)
    requires
        !looks_like_option(name),
    ensures
        parse_spec(seq![name]) == Ok::<LaunchRequest, Seq<char>>(LaunchRequest::Run { file: Some(name) }),
{
    lemma_option_bytes();
    reveal_with_fuel(parse_from, 2);
    assert(seq![name].drop_first() =~= Seq::<Seq<u8>>::empty());
}

/// After `--` every argument is a file name, whatever it starts with: no
/// file if nothing follows, the one that follows, or an error for two or more.
pub proof fn law_after_double_dash(rest: Seq<Seq<u8>>)
    ensures
        parse_spec(seq!["--".spec_bytes()] + rest) == if rest.len() == 0 {
            Ok::<LaunchRequest, Seq<char>>(LaunchRequest::Run { file: None })
        } else if rest.len() == 1 {
            Ok::<LaunchRequest, Seq<char>>(LaunchRequest::Run { file: Some(rest[0]) })
        } else {
            Err::<LaunchRequest, Seq<char>>(too_many_files_message())
        },
{
    reveal_with_fuel(parse_from, 4);
    let args = seq!["--".spec_bytes()] + rest;
    assert(args[0] == "--".spec_bytes());
    assert(args.drop_first() =~= rest);
    if rest.len() >= 1 {
        assert(rest.drop_first().len() == rest.len() - 1);
        if rest.len() >= 2 {
            assert(rest.drop_first()[0] == rest[1]);
        } else {
            assert(rest.drop_first() =~= Seq::<Seq<u8>>::empty());
        }
    }
}

/// `--help` or `-h` in front asks for the usage text, whatever follows.
pub proof fn law_help_first(option: Seq<u8>, rest: Seq<Seq<u8>>)
    requires
        option == "--help".spec_bytes() || option == "-h".spec_bytes(),
    ensures
        parse_spec(seq![option] + rest) == Ok::<LaunchRequest, Seq<char>>(LaunchRequest::Help),
{
    lemma_option_bytes();
    assert((seq![option] + rest)[0] == option);
}

/// `--version` or `-V` in front asks for the version, whatever follows.
pub proof fn law_version_first(option: Seq<u8>, rest: Seq<Seq<u8>>)
    requires
        option == "--version".spec_bytes() || option == "-V".spec_bytes(),
    ensures
        parse_spec(seq![option] + rest) == Ok::<LaunchRequest, Seq<char>>(LaunchRequest::Version),
{
    lemma_option_bytes();
    assert((seq![option] + rest)[0] == option);
}

/// An argument in front that starts with `-` and is no known option is
/// refused, whatever follows.
pub proof fn law_unknown_option(option: Seq<u8>, rest: Seq<Seq<u8>>)
    requires
        looks_like_option(option),
        option != "--".spec_bytes(),
        option != "--help".spec_bytes(),
        option != "-h".spec_bytes(),
        option != "--version".spec_bytes(),
        option != "-V".spec_bytes(),
    ensures
        parse_spec(seq![option] + rest) == Err::<LaunchRequest, Seq<char>>(unknown_option_message(option)),
{
    assert((seq![option] + rest)[0] == option);
}

/// Two file names are refused: one window shows one file.
pub proof fn law_two_files(first: Seq<u8>, second: Seq<u8>)
    requires
        !looks_like_option(first),
        !looks_like_option(second),
    ensures
        parse_spec(seq![first, second]) == Err::<LaunchRequest, Seq<char>>(too_many_files_message()),
{
    lemma_option_bytes();
    reveal_with_fuel(parse_from, 3);
    let args = seq![first, second];
    assert(args.drop_first() =~= seq![second]);
    assert(seq![second].drop_first() =~= Seq::<Seq<u8>>::empty());
}

proof fn lemma_errors_have_a_cause(args: Seq<Seq<u8>>, file: Option<Seq<u8>>, positional_only: bool)
    ensures
        parse_from(args, file, positional_only) matches Err(message) ==> {
            ||| message == too_many_files_message()
            ||| exists|i: int|
                0 <= i < args.len() && looks_like_option(#[trigger] args[i]) && message == unknown_option_message(args[i])
        },
    decreases args.len(),
{
    if args.len() > 0 {
        let rest = args.drop_first();
        lemma_errors_have_a_cause(rest, Some(args[0]), positional_only);
        lemma_errors_have_a_cause(rest, file, true);
        if let Err(message) = parse_from(args, file, positional_only) {
            if message != too_many_files_message() {
                if !positional_only && looks_like_option(args[0]) && message == unknown_option_message(args[0]) {
                    assert(looks_like_option(args[0]));
                } else {
                    let next = if !positional_only && args[0] == "--".spec_bytes() {
                        parse_from(rest, file, true)
                    } else {
                        parse_from(rest, Some(args[0]), positional_only)
                    };
                    assert(next == parse_from(args, file, positional_only));
                    let i = choose|i: int|
                        0 <= i < rest.len() && looks_like_option(#[trigger] rest[i]) && message == unknown_option_message(rest[i]);
                    assert(args[i + 1] == rest[i]);
                }
            }
        }
    }
}

/// A command line is refused only for an unknown option in it or for a
/// second file name.
pub proof fn law_errors_have_a_cause(args: Seq<Seq<u8>>)
    ensures
        parse_spec(args) matches Err(message) ==> {
            ||| message == too_many_files_message()
            ||| exists|i: int|
                0 <= i < args.len() && looks_like_option(#[trigger] args[i]) && message == unknown_option_message(args[i])
        },
{
    lemma_errors_have_a_cause(args, None, false);
}


/// Before `--`, `--help` or `-h` asks for the usage text even after a file
/// name, whatever follows.
pub proof fn law_help_after_a_file(name: Seq<u8>, option: Seq<u8>, rest: Seq<Seq<u8>>)
    requires
        !looks_like_option(name),
        option == "--help".spec_bytes() || option == "-h".spec_bytes(),
    ensures
        parse_spec(seq![name, option] + rest) == Ok::<LaunchRequest, Seq<char>>(LaunchRequest::Help),
{
    lemma_option_bytes();
    reveal_with_fuel(parse_from, 2);
    let args = seq![name, option] + rest;
    assert(args[0] == name);
    assert(args.drop_first() =~= seq![option] + rest);
    assert((seq![option] + rest)[0] == option);
}

/// Before `--`, `--version` or `-V` asks for the version even after a file
/// name, whatever follows.
pub proof fn law_version_after_a_file(name: Seq<u8>, option: Seq<u8>, rest: Seq<Seq<u8>>)
    requires
        !looks_like_option(name),
        option == "--version".spec_bytes() || option == "-V".spec_bytes(),
    ensures
        parse_spec(seq![name, option] + rest) == Ok::<LaunchRequest, Seq<char>>(LaunchRequest::Version),
{
    lemma_option_bytes();
    reveal_with_fuel(parse_from, 2);
    let args = seq![name, option] + rest;
    assert(args[0] == name);
    assert(args.drop_first() =~= seq![option] + rest);
    assert((seq![option] + rest)[0] == option);
}

} // verus!
