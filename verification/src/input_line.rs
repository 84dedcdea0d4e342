use crate::command::{parsed, split_first, CommandView};
use crate::text::{join, joined, views};
use crate::tokenizer::{tokenize, trimmed, EmptyInputError};
use vstd::prelude::*;
use vstd::string::StringExecFns;

verus! {

/// One stage of a command line: the name of a program and its arguments.
#[derive(Debug, PartialEq, Clone)]
pub struct InputLine {
    pub name: String,
    pub args: Vec<String>,
}

impl View for InputLine {
    type V = CommandView;

    open spec fn view(&self) -> CommandView {
        CommandView { name: self.name@, args: views(self.args@) }
    }
}

/// A stage written out: its name, a space, and its arguments with single
/// spaces between them. The space after the name is there without arguments
/// too.
pub open spec fn rendered(stage: CommandView) -> Seq<char> {
    stage.name + seq![' '] + joined(stage.args, seq![' '])
}

impl InputLine {
    /// The stage as text.
    pub fn to_string(self) -> (r: String)
        ensures
            r@ == rendered(self@),
    {
        proof {
            reveal_strlit(" ");
            assert(" "@ =~= seq![' ']);
        }
        let mut r = self.name;
        r.append(" ");
        let args = join(&self.args, " ");
        r.append(args.as_str());
        r
    }

    /// Reads a stage from a line. A line without a word is an error.
    pub fn from_input(input: String) -> (r: Result<InputLine, EmptyInputError>)
        ensures
            r is Err <==> parsed(input@) is None,
            r matches Ok(stage) ==> parsed(input@) == Some(stage@),
    {
        match tokenize(input.as_str()) {
            Ok(tokens) => {
                let (name, args) = split_first(tokens);
                Ok(InputLine { name, args })
            },
            Err(e) => {
                proof {
                    crate::tokenizer::lemma_no_tokens_iff_empty(trimmed(input@));
                }
                Err(e)
            },
        }
    }

    /// A copy with the same name and arguments.
    pub fn duplicate(&self) -> (r: InputLine)
        ensures
            r@ == self@,
    {
        let mut args: Vec<String> = Vec::new();
        let mut i: usize = 0;
        while i < self.args.len()
            invariant
                i <= self.args.len(),
                views(args@) == views(self.args@).take(i as int),
            decreases self.args.len() - i,
        {
            let ghost before = views(args@);
            args.push(self.args[i].clone());
            proof {
                assert(views(args@) =~= before.push(self.args@[i as int]@));
                assert(views(self.args@).take(i + 1) =~= views(self.args@).take(i as int).push(
                    self.args@[i as int]@,
                ));
            }
            i = i + 1;
        }
        proof {
            assert(views(self.args@).take(i as int) =~= views(self.args@));
        }
        InputLine { name: self.name.clone(), args }
    }
}

} // verus!
