//! Parsing of a command line into a program name and its argument vector.
use vstd::prelude::*;
use crate::text::{split_tokens, tokens, views};

verus! {

/// Why a line could not be parsed.
#[derive(Debug, Clone, Copy, PartialEq, Eq, Structural)]
pub enum ParseError {
    /// The line holds no token.
    EmptyCommand,
}

impl ParseError {
    /// The text shown to the user for this error.
    pub fn message(&self) -> (r: String)
        ensures
            r@ == "command is empty"@,
    {
        String::from_str("command is empty")
    }
}

/// What parsing a line gives: the program name and the full argument vector.
pub open spec fn parsed(line: Seq<char>) -> Result<(Seq<char>, Seq<Seq<char>>), ParseError> {
    let t = tokens(line);
    if t.len() == 0 {
        Err(ParseError::EmptyCommand)
    } else {
        Ok((t[0], t))
    }
}

/// Views of a parse result.
pub open spec fn result_view(r: Result<(String, Vec<String>), ParseError>) -> Result<
    (Seq<char>, Seq<Seq<char>>),
    ParseError,
> {
    match r {
        Ok((p, a)) => Ok((p@, views(a@))),
        Err(e) => Err(e),
    }
}

/// Splits a line into the program name and the argument vector, whose first
/// element is the program name. Fails on a line without tokens.
pub fn parse_cmd_one(line: &str) -> (r: Result<(String, Vec<String>), ParseError>)
    ensures
        result_view(r) == parsed(line@),
{
    let args = split_tokens(line);
    if args.len() == 0 {
        Err(ParseError::EmptyCommand)
    } else {
        let program = args[0].clone();
        assert(views(args@)[0] == args@[0]@);
        Ok((program, args))
    }
}

/// Parses one command line; see [`parse_cmd_one`].
pub fn parse_cmd(line: &str) -> (r: Result<(String, Vec<String>), ParseError>)
    ensures
        result_view(r) == parsed(line@),
{
    parse_cmd_one(line)
}

} // verus!
