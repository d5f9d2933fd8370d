//! The command line: which command the arguments ask for.

use vstd::prelude::*;
use vstd::slice::slice_subrange;
use vstd::string::StringExecFns;
use crate::common::{number_of_text, read_arg};
use crate::error::PeError;

verus! {

/// The list of commands, as `help` shows it.
pub const HELP: &'static str =
    "commands:
    dump   -- dump information about section of executable
    genlds -- generate GNU ld script for re-linking executable
    pe2obj -- convert PE executable into win32 object file
    patch  -- apply a patch set from the .patch section
    setdd  -- set any DataDirectory in PE header
    setvs  -- set VirtualSize for a section
    help   -- this information";

/// The name of the section in which `patch` looks for the patch stream
/// when the command line names none.
pub const DEFAULT_PATCH_SECTION: &'static str = ".patch";

/// The text that `help` shows, and that follows a complaint about the
/// command.
pub fn render_help(progname: &str) -> (r: String)
    ensures
        r@ == "usage: "@ + progname@ + " <command> [args ...]\n"@ + HELP@,
{
    let mut text = String::from_str("usage: ");
    text.append(progname);
    text.append(" <command> [args ...]\n");
    text.append(HELP);
    text
}

/// The commands by name.
#[derive(Clone, Copy, Debug, PartialEq, Eq, Structural)]
pub enum CommandName {
    Dump,
    Genlds,
    Pe2obj,
    Patch,
    Setdd,
    Setvs,
    Help,
}

/// A command with its arguments.
#[derive(Debug, PartialEq, Eq)]
pub enum Command {
    Dump { image: String },
    Genlds { image: String },
    Pe2obj { input: String, output: String },
    Patch { image: String, section: String },
    Setdd { image: String, index: u32, virtual_address: u32, size: u32 },
    Setvs { image: String, section: String, virtual_size: u32 },
    Help,
}

/// Why the arguments ask for no command.
#[derive(Debug, PartialEq, Eq)]
pub enum CliError {
    /// No command is named.
    NoCommand,
    /// The command that is named does not exist.
    UnknownCommand { name: String },
    /// The command is given too few or too many arguments.
    Usage { command: CommandName },
    /// An argument of the command is refused; the failure names its place
    /// among the arguments that follow the command.
    Argument { command: CommandName, error: PeError },
}

/// The line that tells how a command is called.
pub fn usage_line(command: CommandName) -> (r: &'static str)
    ensures
        r@ == usage_text(command),
{
    match command {
        CommandName::Dump => "usage: petool dump <image>",
        CommandName::Genlds => "usage: petool genlds <image>",
        CommandName::Pe2obj => "usage: petool pe2obj <in> <out>",
        CommandName::Patch => "usage: petool patch <image> [section]",
        CommandName::Setdd => "usage: petool setdd <image> <#DataDirectory> <VirtualAddress> <Size>",
        CommandName::Setvs => "usage: petool setvs <image> <section> <VirtualSize>",
        CommandName::Help => "usage: petool help",
    }
}

/// The line that tells how a command is called.
pub open spec fn usage_text(command: CommandName) -> Seq<char> {
    match command {
        CommandName::Dump => "usage: petool dump <image>"@,
        CommandName::Genlds => "usage: petool genlds <image>"@,
        CommandName::Pe2obj => "usage: petool pe2obj <in> <out>"@,
        CommandName::Patch => "usage: petool patch <image> [section]"@,
        CommandName::Setdd => "usage: petool setdd <image> <#DataDirectory> <VirtualAddress> <Size>"@,
        CommandName::Setvs => "usage: petool setvs <image> <section> <VirtualSize>"@,
        CommandName::Help => "usage: petool help"@,
    }
}

/// The word by which the command line names a command.
pub open spec fn command_word(command: CommandName) -> Seq<char> {
    match command {
        CommandName::Dump => "dump"@,
        CommandName::Genlds => "genlds"@,
        CommandName::Pe2obj => "pe2obj"@,
        CommandName::Patch => "patch"@,
        CommandName::Setdd => "setdd"@,
        CommandName::Setvs => "setvs"@,
        CommandName::Help => "help"@,
    }
}

/// The command that a word names: the first, in the order of the list,
/// whose word it is.
pub open spec fn command_named(word: Seq<char>) -> Option<CommandName> {
    if word == command_word(CommandName::Dump) {
        Some(CommandName::Dump)
    } else if word == command_word(CommandName::Genlds) {
        Some(CommandName::Genlds)
    } else if word == command_word(CommandName::Pe2obj) {
        Some(CommandName::Pe2obj)
    } else if word == command_word(CommandName::Patch) {
        Some(CommandName::Patch)
    } else if word == command_word(CommandName::Setdd) {
        Some(CommandName::Setdd)
    } else if word == command_word(CommandName::Setvs) {
        Some(CommandName::Setvs)
    } else if word == command_word(CommandName::Help) {
        Some(CommandName::Help)
    } else {
        None
    }
}

/// Whether the text is the word.
fn is_word(text: &String, word: &str) -> (r: bool)
    ensures
        r == (text@ == word@),
{
    let other = String::from_str(word);
    *text == other
}

/// Finds the command that a word names.
pub fn find_command(word: &String) -> (r: Option<CommandName>)
    ensures
        r == command_named(word@),
{
    if is_word(word, "dump") {
        Some(CommandName::Dump)
    } else if is_word(word, "genlds") {
        Some(CommandName::Genlds)
    } else if is_word(word, "pe2obj") {
        Some(CommandName::Pe2obj)
    } else if is_word(word, "patch") {
        Some(CommandName::Patch)
    } else if is_word(word, "setdd") {
        Some(CommandName::Setdd)
    } else if is_word(word, "setvs") {
        Some(CommandName::Setvs)
    } else if is_word(word, "help") {
        Some(CommandName::Help)
    } else {
        None
    }
}

/// Whether a command takes `count` arguments.
pub open spec fn takes(command: CommandName, count: int) -> bool {
    match command {
        CommandName::Dump => count == 1,
        CommandName::Genlds => count == 1,
        CommandName::Pe2obj => count == 2,
        CommandName::Patch => count == 1 || count == 2,
        CommandName::Setdd => count == 4,
        CommandName::Setvs => count == 3,
        CommandName::Help => true,
    }
}

/// The first argument, in the order of the command line, that a command
/// wants as a number and that spells none.
pub open spec fn bad_number(command: CommandName, rest: Seq<String>) -> Option<int> {
    match command {
        CommandName::Setdd => if number_of_text(rest[1]@) is None {
            Some(1)
        } else if number_of_text(rest[2]@) is None {
            Some(2)
        } else if number_of_text(rest[3]@) is None {
            Some(3)
        } else {
            None
        },
        CommandName::Setvs => if number_of_text(rest[2]@) is None {
            Some(2)
        } else {
            None
        },
        _ => None,
    }
}

/// `command` is the command `name` with the arguments `rest`.
pub open spec fn is_command(command: Command, name: CommandName, rest: Seq<String>) -> bool {
    match name {
        CommandName::Dump => command matches Command::Dump { image } && image@ == rest[0]@,
        CommandName::Genlds => command matches Command::Genlds { image } && image@ == rest[0]@,
        CommandName::Pe2obj => command matches Command::Pe2obj { input, output } && input@
            == rest[0]@ && output@ == rest[1]@,
        CommandName::Patch => command matches Command::Patch { image, section } && image@
            == rest[0]@ && section@ == (if rest.len() == 2 {
            rest[1]@
        } else {
            DEFAULT_PATCH_SECTION@
        }),
        CommandName::Setdd => command matches Command::Setdd {
            image,
            index,
            virtual_address,
            size,
        } && image@ == rest[0]@ && Some(index) == number_of_text(rest[1]@) && Some(
            virtual_address,
        ) == number_of_text(rest[2]@) && Some(size) == number_of_text(rest[3]@),
        CommandName::Setvs => command matches Command::Setvs { image, section, virtual_size }
            && image@ == rest[0]@ && section@ == rest[1]@ && Some(virtual_size) == number_of_text(
            rest[2]@,
        ),
        CommandName::Help => command is Help,
    }
}

/// `r` is what the command line `args` asks for: its first word is the
/// program's name, the second names the command, and the rest are the
/// command's arguments.
pub open spec fn decides(args: Seq<String>, r: Result<Command, CliError>) -> bool {
    if args.len() < 2 {
        r == Err::<Command, CliError>(CliError::NoCommand)
    } else {
        let rest = args.skip(2);
        match command_named(args[1]@) {
            None => r matches Err(CliError::UnknownCommand { name }) && name@ == args[1]@,
            Some(name) => if !takes(name, rest.len() as int) {
                r == Err::<Command, CliError>(CliError::Usage { command: name })
            } else if bad_number(name, rest) is Some {
                r == Err::<Command, CliError>(
                    CliError::Argument {
                        command: name,
                        error: PeError::InvalidArgument {
                            index: bad_number(name, rest)->Some_0 as usize,
                        },
                    },
                )
            } else {
                r matches Ok(command) && is_command(command, name, rest)
            },
        }
    }
}

/// Reads a numeric argument of a command.
fn number(command: CommandName, rest: &[String], n: usize) -> (r: Result<u32, CliError>)
    requires
        n < rest.len(),
    ensures
        match number_of_text(rest[n as int]@) {
            Some(value) => r == Ok::<u32, CliError>(value),
            None => r == Err::<u32, CliError>(
                CliError::Argument { command, error: PeError::InvalidArgument { index: n } },
            ),
        },
{
    match read_arg(rest, n) {
        Ok(value) => Ok(value),
        Err(error) => Err(CliError::Argument { command, error }),
    }
}

/// Decides which command the command line asks for. Numbers are read in the
/// order in which they stand, and the first that is refused is reported.
pub fn root(args: &[String]) -> (r: Result<Command, CliError>)
    ensures
        decides(args@, r),
{
    if args.len() < 2 {
        return Err(CliError::NoCommand);
    }
    let name = match find_command(&args[1]) {
        Some(name) => name,
        None => {
            return Err(CliError::UnknownCommand { name: args[1].clone() });
        },
    };
    let rest = slice_subrange(args, 2, args.len());
    assert(rest@ == args@.skip(2));
    let count = rest.len();
    match name {
        CommandName::Dump => {
            if count != 1 {
                return Err(CliError::Usage { command: name });
            }
            Ok(Command::Dump { image: rest[0].clone() })
        },
        CommandName::Genlds => {
            if count != 1 {
                return Err(CliError::Usage { command: name });
            }
            Ok(Command::Genlds { image: rest[0].clone() })
        },
        CommandName::Pe2obj => {
            if count != 2 {
                return Err(CliError::Usage { command: name });
            }
            Ok(Command::Pe2obj { input: rest[0].clone(), output: rest[1].clone() })
        },
        CommandName::Patch => {
            if count != 1 && count != 2 {
                return Err(CliError::Usage { command: name });
            }
            let section = if count == 2 {
                rest[1].clone()
            } else {
                String::from_str(DEFAULT_PATCH_SECTION)
            };
            Ok(Command::Patch { image: rest[0].clone(), section })
        },
        CommandName::Setdd => {
            if count != 4 {
                return Err(CliError::Usage { command: name });
            }
            let index = number(name, rest, 1)?;
            let virtual_address = number(name, rest, 2)?;
            let size = number(name, rest, 3)?;
            Ok(Command::Setdd { image: rest[0].clone(), index, virtual_address, size })
        },
        CommandName::Setvs => {
            if count != 3 {
                return Err(CliError::Usage { command: name });
            }
            let virtual_size = number(name, rest, 2)?;
            Ok(Command::Setvs { image: rest[0].clone(), section: rest[1].clone(), virtual_size })
        },
        CommandName::Help => Ok(Command::Help),
    }
}

} // verus!
