//! The words that name what to do.

use crate::text::same_text;
use vstd::prelude::*;

verus! {

/// What the first word of a command line asks for.
#[derive(Clone, Copy, Debug, PartialEq, Eq, Structural)]
pub enum Command {
    /// Add a task.
    Add,
    /// Delete a task.
    Delete,
    /// Turn a task's completion flag over.
    Toggle,
    /// Show the tasks.
    List,
    /// Show how the program is used.
    Help,
}

/// The command that `word` names. Each command has a long name and a short
/// one; a word that names none asks for help.
pub open spec fn command_of(word: Seq<char>) -> Command {
    if word == "add"@ || word == "-a"@ {
        Command::Add
    } else if word == "delete"@ || word == "-d"@ {
        Command::Delete
    } else if word == "toggle"@ || word == "-t"@ {
        Command::Toggle
    } else if word == "list"@ || word == "-l"@ {
        Command::List
    } else {
        Command::Help
    }
}

impl Command {
    /// Reads a command from the word that names it.
    pub fn parse(word: &str) -> (command: Command)
        ensures
            command == command_of(word@),
    {
        if same_text(word, "add") || same_text(word, "-a") {
            Command::Add
        } else if same_text(word, "delete") || same_text(word, "-d") {
            Command::Delete
        } else if same_text(word, "toggle") || same_text(word, "-t") {
            Command::Toggle
        } else if same_text(word, "list") || same_text(word, "-l") {
            Command::List
        } else {
            Command::Help
        }
    }
}

} // verus!
