use crate::tokenizer::{tokenize, tokens_of, trimmed, EmptyInputError};
use crate::text::views;
use vstd::prelude::*;

verus! {

/// One step that a shell can run: the name of a program and its arguments.
#[derive(Debug, PartialEq)]
pub struct Command {
    pub name: String,
    pub args: Vec<String>,
}

/// What a command is to the contracts: its name and its arguments as text.
pub ghost struct CommandView {
    pub name: Seq<char>,
    pub args: Seq<Seq<char>>,
}

impl View for Command {
    type V = CommandView;

    open spec fn view(&self) -> CommandView {
        CommandView { name: self.name@, args: views(self.args@) }
    }
}

/// The command that a line's words make: the first word names it, the
/// others are its arguments.
pub open spec fn command_of(tokens: Seq<Seq<char>>) -> CommandView
    recommends
        tokens.len() > 0,
{
    CommandView { name: tokens[0], args: tokens.drop_first() }
}

/// The command that a line holds, if it holds a word.
pub open spec fn parsed(line: Seq<char>) -> Option<CommandView> {
    let tokens = tokens_of(trimmed(line));
    if tokens.len() == 0 {
        None
    } else {
        Some(command_of(tokens))
    }
}

/// Parts a list of words into the first word and the others.
pub fn split_first(tokens: Vec<String>) -> (r: (String, Vec<String>))
    requires
        tokens.len() > 0,
    ensures
        r.0@ == tokens@[0]@,
        views(r.1@) == views(tokens@).drop_first(),
{
    let mut args = tokens;
    let name = args.remove(0);
    proof {
        assert(views(args@) =~= views(tokens@).drop_first());
    }
    (name, args)
}

impl Command {
    /// Reads a command from a line. A line without a word is an error.
    pub fn from_input(input: String) -> (r: Result<Command, EmptyInputError>)
        ensures
            r is Err <==> parsed(input@) is None,
            r matches Ok(c) ==> parsed(input@) == Some(c@),
    {
        match tokenize(input.as_str()) {
            Ok(tokens) => {
                let (name, args) = split_first(tokens);
                Ok(Command { name, args })
            },
            Err(e) => {
                proof {
                    crate::tokenizer::lemma_no_tokens_iff_empty(trimmed(input@));
                }
                Err(e)
            },
        }
    }
}

} // verus!
