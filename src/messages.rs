//! The texts the shell shows to the user.
use vstd::prelude::*;
use crate::parser::ParseError;

verus! {

/// The prompt printed before each line is read.
pub fn prompt() -> (r: String)
    ensures
        r@ == "$ "@,
{
    String::from_str("$ ")
}

/// The report of a line that could not be parsed.
pub fn parse_error_message(e: &ParseError) -> (r: String)
    ensures
        r@ == "MySh: "@ + "command is empty"@,
{
    String::from_str("MySh: ").concat(e.message().as_str())
}

/// The report of `exit` with an argument that is not an integer.
pub fn invalid_value_message(arg: &str) -> (r: String)
    ensures
        r@ == arg@ + " is an invalid value"@,
{
    String::from_str(arg).concat(" is an invalid value")
}

/// The notice for a reserved built-in that is not supported.
pub fn not_compatible_message(name: &str) -> (r: String)
    ensures
        r@ == name@ + " command is currently not compatible with MySh"@,
{
    String::from_str(name).concat(" command is currently not compatible with MySh")
}

/// The report of a failed `cd`, with the system's reason.
pub fn cd_failed_message(reason: &str) -> (r: String)
    ensures
        r@ == "cd failed: "@ + reason@,
{
    String::from_str("cd failed: ").concat(reason)
}

/// The notice for an input redirection whose file does not exist.
pub fn missing_input_message(path: &str) -> (r: String)
    ensures
        r@ == "MySh: no such file or directory: "@ + path@,
{
    String::from_str("MySh: no such file or directory: ").concat(path)
}

/// The report of a program that could not be executed.
pub fn unknown_command_message() -> (r: String)
    ensures
        r@ == "unknown command"@,
{
    String::from_str("unknown command")
}

/// The report of a failed fork.
pub fn fork_failure_message() -> (r: String)
    ensures
        r@ == "fork failure"@,
{
    String::from_str("fork failure")
}

} // verus!
