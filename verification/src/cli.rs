//! What the command line asks for, and the lines that answer it.

use vstd::prelude::*;
use vstd::string::StringExecFns;
use crate::text::str_eq;
use crate::traverse::{message_of, TraverseError, TraverseFailure};

verus! {

/// What a command name asks for.
#[derive(Clone, Copy, Debug, PartialEq, Eq, Structural)]
pub enum Command {
    /// `ls`: list what a path names.
    List,
    /// `read`: render the file at a path.
    Read,
    /// Any other name, `edit` too, which is reserved and does nothing yet.
    Invalid,
}

/// The command that `name` stands for.
pub open spec fn command_of(name: Seq<char>) -> Command {
    if name == "ls"@ {
        Command::List
    } else if name == "read"@ {
        Command::Read
    } else {
        Command::Invalid
    }
}

/// The line that tells how `program` is to be called.
pub open spec fn usage_text(program: Seq<char>) -> Seq<char> {
    "usage: "@ + program + " <world file path> <ls|read|edit> <path>"@
}

/// The line that turns down the command name `name`.
pub open spec fn invalid_command_text(name: Seq<char>) -> Seq<char> {
    "invalid command: "@ + name + ". use one of: <ls|read|edit>"@
}

/// The text that `ls` shows: the listing, or a line that tells of the failure.
pub open spec fn listing_text(outcome: Result<Seq<char>, TraverseFailure>) -> Seq<char> {
    match outcome {
        Ok(listing) => listing,
        Err(e) => "error: "@ + message_of(e),
    }
}

/// Reads a command name.
pub fn parse_command(name: &str) -> (command: Command)
    ensures
        command == command_of(name@),
{
    if str_eq(name, "ls") {
        Command::List
    } else if str_eq(name, "read") {
        Command::Read
    } else {
        Command::Invalid
    }
}

/// The line that tells how `program` is to be called.
pub fn usage(program: &str) -> (line: String)
    ensures
        line@ == usage_text(program@),
{
    let mut line = String::from_str("usage: ");
    line.append(program);
    line.append(" <world file path> <ls|read|edit> <path>");
    line
}

/// The line that turns down the command name `name`.
pub fn invalid_command(name: &str) -> (line: String)
    ensures
        line@ == invalid_command_text(name@),
{
    let mut line = String::from_str("invalid command: ");
    line.append(name);
    line.append(". use one of: <ls|read|edit>");
    line
}

/// The text that `ls` shows for the outcome of a listing: a failure becomes a
/// line of its own and ends nothing.
pub fn listing_output(outcome: Result<String, TraverseError>) -> (text: String)
    ensures
        text@ == listing_text(
            match outcome {
                Ok(listing) => Ok(listing@),
                Err(e) => Err(e@),
            },
        ),
{
    match outcome {
        Ok(listing) => listing,
        Err(e) => {
            let mut text = String::from_str("error: ");
            text.append(e.message().as_str());
            text
        },
    }
}

} // verus!
