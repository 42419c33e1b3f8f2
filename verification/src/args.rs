//! The command words and the parsed shape of the command line. Collecting
//! the arguments and printing usage stay with the surrounding program.

use vstd::prelude::*;
use crate::text::str_eq;

verus! {

#[allow(non_camel_case_types)]
#[derive(PartialEq, Eq, Structural, Clone, Copy, Debug)]
pub enum Command {
    CLONE,
}

/// Recognizes the command words the program accepts.
pub fn command(cmd: &String) -> (r: Option<Command>)
    ensures
        cmd@ == "clone"@ ==> r == Some(Command::CLONE),
        cmd@ != "clone"@ ==> r is None,
{
    if str_eq(cmd.as_str(), "clone") {
        Some(Command::CLONE)
    } else {
        None
    }
}

#[derive(PartialEq, Eq, Structural, Clone, Copy, Debug)]
pub enum ArgsError {
    CLATypeError,
    Help,
}

/// The parsed command line: an optional command word and the optional
/// username and repository the flags named.
pub struct CLArgs {
    pub command: Option<String>,
    pub username: Option<String>,
    pub repo: Option<String>,
}

impl CLArgs {
    pub fn new() -> (r: Self)
        ensures
            r.command is None,
            r.username is None,
            r.repo is None,
    {
        Self { command: None, username: None, repo: None }
    }
}

} // verus!
