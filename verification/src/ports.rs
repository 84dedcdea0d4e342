use crate::text::same_text;
use vstd::prelude::*;

verus! {

/// The commands that act on the session itself and are never sent to a
/// terminal.
#[derive(Debug, Clone, Copy, PartialEq, Eq, Structural)]
pub enum HelperCommand {
    Pin,
    Unpin,
    Ban,
    Unban,
    List,
    Help,
    Exit,
}

/// The helper command that a word names, if it names one.
pub open spec fn helper_of(word: Seq<char>) -> Option<HelperCommand> {
    if word == "pin"@ {
        Some(HelperCommand::Pin)
    } else if word == "unpin"@ {
        Some(HelperCommand::Unpin)
    } else if word == "ban"@ {
        Some(HelperCommand::Ban)
    } else if word == "unban"@ {
        Some(HelperCommand::Unban)
    } else if word == "list"@ {
        Some(HelperCommand::List)
    } else if word == "help"@ {
        Some(HelperCommand::Help)
    } else if word == "exit"@ {
        Some(HelperCommand::Exit)
    } else {
        None
    }
}

impl HelperCommand {
    /// Reads a helper command from its name, written in lower case.
    pub fn to_enum(str: &str) -> (r: Option<HelperCommand>)
        ensures
            r == helper_of(str@),
    {
        if same_text(str, "pin") {
            Some(HelperCommand::Pin)
        } else if same_text(str, "unpin") {
            Some(HelperCommand::Unpin)
        } else if same_text(str, "ban") {
            Some(HelperCommand::Ban)
        } else if same_text(str, "unban") {
            Some(HelperCommand::Unban)
        } else if same_text(str, "list") {
            Some(HelperCommand::List)
        } else if same_text(str, "help") {
            Some(HelperCommand::Help)
        } else if same_text(str, "exit") {
            Some(HelperCommand::Exit)
        } else {
            None
        }
    }

    /// Every helper command, in the order in which the help text lists them.
    pub fn all() -> (r: Vec<HelperCommand>)
        ensures
            r@ == every_helper(),
    {
        let mut r: Vec<HelperCommand> = Vec::new();
        r.push(HelperCommand::Pin);
        r.push(HelperCommand::Unpin);
        r.push(HelperCommand::Ban);
        r.push(HelperCommand::Unban);
        r.push(HelperCommand::List);
        r.push(HelperCommand::Help);
        r.push(HelperCommand::Exit);
        proof {
            assert(r@ =~= every_helper());
        }
        r
    }
}

/// The helper commands in the order of their declaration.
pub open spec fn every_helper() -> Seq<HelperCommand> {
    seq![
        HelperCommand::Pin,
        HelperCommand::Unpin,
        HelperCommand::Ban,
        HelperCommand::Unban,
        HelperCommand::List,
        HelperCommand::Help,
        HelperCommand::Exit,
    ]
}

/// A selection that can be narrowed to the terminals named.
pub trait Pinable {
    fn pin(&mut self, names: Vec<String>);

    fn unpin(&mut self, names: Vec<String>);
}

/// A selection from which the terminals named can be shut out.
pub trait Banable {
    fn ban(&mut self, names: Vec<String>);

    fn unban(&mut self, names: Vec<String>);
}

} // verus!
