//! The command line: one optional argument, the path of the configuration
//! file.

use vstd::prelude::*;
use vstd::string::*;

verus! {

/// What the argument parser makes of the command line `argv`, whose first
/// item is the program's name: `None` where it refuses the line or is asked
/// for help, else the one positional argument, if there is one.
pub uninterp spec fn command_line_config(argv: Seq<Seq<char>>) -> Option<Option<Seq<char>>>;

/// Calls `clap::Command::try_get_matches_from` on a command with one
/// optional positional argument, and `clap::ArgMatches::get_one` for that
/// argument. What the parser accepts depends on the line alone; this
/// contract only gives its outcome a name. Of the parser's error it keeps
/// the text and the exit code, and claims nothing about either.
#[verifier::external_body]
fn parse_command_line(argv: &Vec<String>) -> (r: Result<Option<String>, ArgsError>)
    ensures
        r is Ok <==> command_line_config(argv.deep_view()) is Some,
        r matches Ok(path) ==> command_line_config(argv.deep_view()) == Some(path.deep_view()),
{
    let command = clap::Command::new("bubble").arg(clap::Arg::new("config"));
    match command.try_get_matches_from(argv) {
        Ok(matches) => Ok(matches.get_one::<String>("config").cloned()),
        Err(e) => Err(ArgsError { message: e.to_string(), exit_code: e.exit_code() }),
    }
}

/// What the command line says.
#[derive(Clone, Debug, PartialEq, Eq)]
pub struct Args {
    /// The path of the configuration file.
    pub config: String,
}

/// A command line that was refused, or that asked for help.
#[derive(Clone, Debug, PartialEq, Eq)]
pub struct ArgsError {
    /// The text to print.
    pub message: String,
    /// The code to exit with: zero where help was asked for.
    pub exit_code: i32,
}

/// The path that is read when the command line names none.
pub open spec fn default_config_path() -> Seq<char> {
    "./bubble.toml"@
}

/// The path to read, given the positional argument.
pub open spec fn config_path_of(positional: Option<Seq<char>>) -> Seq<char> {
    match positional {
        Some(path) => path,
        None => default_config_path(),
    }
}

impl Args {
    /// The arguments that follow from the positional argument, or from its
    /// absence.
    pub fn from_positional(positional: Option<String>) -> (r: Args)
        ensures
            r.config@ == config_path_of(positional.deep_view()),
    {
        match positional {
            Some(path) => Args { config: path },
            None => Args { config: "./bubble.toml".to_owned() },
        }
    }

    /// Reads the command line `argv`, whose first item is the program's
    /// name.
    pub fn load(argv: &Vec<String>) -> (r: Result<Args, ArgsError>)
        ensures
            r is Ok <==> command_line_config(argv.deep_view()) is Some,
            r matches Ok(args) ==> command_line_config(argv.deep_view()) matches Some(positional)
                && args.config@ == config_path_of(positional),
    {
        match parse_command_line(argv) {
            Ok(positional) => Ok(Args::from_positional(positional)),
            Err(e) => Err(e),
        }
    }
}

} // verus!
