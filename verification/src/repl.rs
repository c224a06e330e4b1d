//! Reading of the lines typed at the assistant's prompt.
use vstd::prelude::*;

use crate::text::{str_eq, trim, trimmed};

verus! {

/// What a typed line is.
#[derive(Debug, PartialEq, Eq)]
pub enum LineKind {
    /// Nothing but white space: the prompt is shown again.
    Blank,
    /// A command: the trimmed line, which starts with `/`.
    Command(String),
    /// A message for the assistant: the trimmed line.
    Message(String),
}

/// The outcome of running a command.
#[derive(Clone, Copy, Debug, PartialEq, Eq, Structural)]
pub enum CommandResult {
    /// Leave the assistant.
    Exit,
    /// Clear the conversation.
    Clear,
    /// The command did all there was to do.
    Handled,
    /// The line names no known command.
    NotACommand,
}

/// Classifies a typed line after trimming white space at both ends.
pub fn read_input(line: &str) -> (kind: LineKind)
    ensures
        trimmed(line@).len() == 0 ==> kind == LineKind::Blank,
        trimmed(line@).len() > 0 && trimmed(line@)[0] == '/' ==> (kind matches LineKind::Command(
            c,
        ) && c@ == trimmed(line@)),
        trimmed(line@).len() > 0 && trimmed(line@)[0] != '/' ==> (kind matches LineKind::Message(
            m,
        ) && m@ == trimmed(line@)),
{
    let input = trim(line);
    if input.is_empty() {
        LineKind::Blank
    } else if input.get_char(0) == '/' {
        LineKind::Command(input.to_owned())
    } else {
        LineKind::Message(input.to_owned())
    }
}

/// Reads a line typed at the model's own prompt: the trimmed line, or nothing when it is
/// empty or `/exit`, which end the session.
pub fn read_prompt(line: &str) -> (prompt: Option<String>)
    ensures
        (trimmed(line@).len() == 0 || trimmed(line@) == "/exit"@) ==> prompt is None,
        !(trimmed(line@).len() == 0 || trimmed(line@) == "/exit"@) ==> (prompt matches Some(p)
            && p@ == trimmed(line@)),
{
    let input = trim(line);
    if input.is_empty() || str_eq(input, "/exit") {
        None
    } else {
        Some(input.to_owned())
    }
}

} // verus!
