use vstd::prelude::*;
use vstd::string::*;
use crate::model::{empty_data, Data, CLI};

verus! {

/// The operation that one invocation carries out.
#[derive(Clone, Copy, Debug, PartialEq, Eq, Structural)]
pub enum Command {
    ListTasks,
    AddTask,
    AddProject,
    ResolveTask,
    ClearTasks,
    /// `add` with an argument other than `task` or `project`: nothing to do.
    Nothing,
    /// An unknown command word.
    Invalid,
}

pub open spec fn command_for(command: Seq<char>, arg1: Seq<char>) -> Command {
    if command == "list"@ {
        Command::ListTasks
    } else if command == "add"@ {
        if arg1 == "task"@ {
            Command::AddTask
        } else if arg1 == "project"@ {
            Command::AddProject
        } else {
            Command::Nothing
        }
    } else if command == "resolve"@ {
        Command::ResolveTask
    } else if command == "clear"@ {
        Command::ClearTasks
    } else {
        Command::Invalid
    }
}

fn is_word(s: &String, word: &str) -> (r: bool)
    ensures
        r == (s@ == word@),
{
    *s == String::from_str(word)
}

/// The operation that the command line asks for.
pub fn command_of(cli: &CLI) -> (r: Command)
    ensures
        r == command_for(cli.command@, cli.arg1@),
{
    if is_word(&cli.command, "list") {
        Command::ListTasks
    } else if is_word(&cli.command, "add") {
        if is_word(&cli.arg1, "task") {
            Command::AddTask
        } else if is_word(&cli.arg1, "project") {
            Command::AddProject
        } else {
            Command::Nothing
        }
    } else if is_word(&cli.command, "resolve") {
        Command::ResolveTask
    } else if is_word(&cli.command, "clear") {
        Command::ClearTasks
    } else {
        Command::Invalid
    }
}

/// The store to work on: what was decoded, or the empty store when the
/// stored text was missing or could not be decoded.
pub fn store_from_decoded(decoded: Option<Data>) -> (d: Data)
    ensures
        decoded matches Some(x) ==> d == x,
        decoded is None ==> d@ == empty_data(),
{
    match decoded {
        Some(x) => x,
        None => Data::new(),
    }
}

} // verus!
