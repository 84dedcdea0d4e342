use crate::ports::{every_helper, HelperCommand};
use vstd::prelude::*;
use vstd::string::{StrSliceExecFns, StringExecFns};

verus! {

/// The help text of the session.
pub struct Help;

/// `s`, followed by as many spaces as it takes to make it `width`
/// characters long. A longer text stays as it is.
pub open spec fn padded(s: Seq<char>, width: nat) -> Seq<char> {
    if s.len() >= width {
        s
    } else {
        s + Seq::new((width - s.len()) as nat, |i: int| ' ')
    }
}

/// The name of a helper command as the operator writes it.
pub open spec fn name_of(command: HelperCommand) -> Seq<char> {
    match command {
        HelperCommand::Pin => "pin"@,
        HelperCommand::Unpin => "unpin"@,
        HelperCommand::Ban => "ban"@,
        HelperCommand::Unban => "unban"@,
        HelperCommand::List => "list"@,
        HelperCommand::Help => "help"@,
        HelperCommand::Exit => "exit"@,
    }
}

/// The arguments that a helper command takes, as the help text shows them.
pub open spec fn usage_of(command: HelperCommand) -> Seq<char> {
    match command {
        HelperCommand::Pin => "<term1> <term2>"@,
        HelperCommand::Unpin => "[term1]"@,
        HelperCommand::Ban => "<term1> <term2>"@,
        HelperCommand::Unban => "[term2]"@,
        HelperCommand::List => ""@,
        HelperCommand::Help => ""@,
        HelperCommand::Exit => ""@,
    }
}

/// What a helper command does, in a sentence.
pub open spec fn description_of(command: HelperCommand) -> Seq<char> {
    match command {
        HelperCommand::Pin => "Pin one or multiple terminals separated by space. Following commands will run on top of pinned ones only."@,
        HelperCommand::Unpin => "Unpin all terminals if no argument is provided or the specific ones."@,
        HelperCommand::Ban => "Ban one or multiple terminals separated by space. The following commands will not run in banned terminals"@,
        HelperCommand::Unban => "Unban the specificed terminals or all if no arguments provided."@,
        HelperCommand::List => "List the active terminal names."@,
        HelperCommand::Help => "Displays help information."@,
        HelperCommand::Exit => "Close the application."@,
    }
}

/// The line of the help text for one command: its name in a column of 7,
/// its arguments in a column of 17 and its description in a column of 10,
/// a space between columns and a line feed at the end.
pub open spec fn help_line(command: HelperCommand) -> Seq<char> {
    padded(name_of(command), 7) + seq![' '] + padded(usage_of(command), 17) + seq![' '] + padded(
        description_of(command),
        10,
    ) + seq!['\n']
}

/// The lines of the help text for the commands given, in their order.
pub open spec fn help_lines(commands: Seq<HelperCommand>) -> Seq<char>
    decreases commands.len(),
{
    if commands.len() == 0 {
        Seq::empty()
    } else {
        help_lines(commands.drop_last()) + help_line(commands.last())
    }
}

/// What stands above the table of commands.
pub open spec fn help_head() -> Seq<char> {
    "sila@0.3.2\nA command line multiplexer.\ncreated by Alexandru Olaru <alxolr@gmail.com>\n\nCOMMANDS:\n"@
}

/// The whole help text: the head and one line for each helper command.
pub open spec fn help_text() -> Seq<char> {
    help_head() + help_lines(every_helper())
}

/// `s` in a column of `width` characters, filled up with spaces on the right.
pub fn pad(s: &str, width: usize) -> (r: String)
    ensures
        r@ == padded(s@, width as nat),
{
    let mut r = s.to_owned();
    let mut n: usize = s.unicode_len();
    proof {
        reveal_strlit(" ");
        assert(" "@ =~= seq![' ']);
        assert(s@ + Seq::new(0, |i: int| ' ') =~= s@);
    }
    while n < width
        invariant
            " "@ == seq![' '],
            n >= s@.len(),
            n > s@.len() ==> n <= width,
            r@ == s@ + Seq::new((n - s@.len()) as nat, |i: int| ' '),
        decreases width - n,
    {
        r.append(" ");
        n = n + 1;
        proof {
            assert(r@ =~= s@ + Seq::new((n - s@.len()) as nat, |i: int| ' '));
        }
    }
    r
}

impl HelperCommand {
    /// The name of the command as the operator writes it.
    pub fn name(&self) -> (r: &'static str)
        ensures
            r@ == name_of(*self),
    {
        match self {
            HelperCommand::Pin => "pin",
            HelperCommand::Unpin => "unpin",
            HelperCommand::Ban => "ban",
            HelperCommand::Unban => "unban",
            HelperCommand::List => "list",
            HelperCommand::Help => "help",
            HelperCommand::Exit => "exit",
        }
    }

    /// The arguments that the command takes, as the help text shows them.
    pub fn usage(&self) -> (r: &'static str)
        ensures
            r@ == usage_of(*self),
    {
        match self {
            HelperCommand::Pin => "<term1> <term2>",
            HelperCommand::Unpin => "[term1]",
            HelperCommand::Ban => "<term1> <term2>",
            HelperCommand::Unban => "[term2]",
            HelperCommand::List => "",
            HelperCommand::Help => "",
            HelperCommand::Exit => "",
        }
    }

    /// What the command does, in a sentence.
    pub fn description(&self) -> (r: &'static str)
        ensures
            r@ == description_of(*self),
    {
        match self {
            HelperCommand::Pin => "Pin one or multiple terminals separated by space. Following commands will run on top of pinned ones only.",
            HelperCommand::Unpin => "Unpin all terminals if no argument is provided or the specific ones.",
            HelperCommand::Ban => "Ban one or multiple terminals separated by space. The following commands will not run in banned terminals",
            HelperCommand::Unban => "Unban the specificed terminals or all if no arguments provided.",
            HelperCommand::List => "List the active terminal names.",
            HelperCommand::Help => "Displays help information.",
            HelperCommand::Exit => "Close the application.",
        }
    }
}

impl Help {
    /// The help text: what the program is, and a table of the helper
    /// commands.
    pub fn display() -> (r: String)
        ensures
            r@ == help_text(),
    {
        let mut help_str =
            "sila@0.3.2\nA command line multiplexer.\ncreated by Alexandru Olaru <alxolr@gmail.com>\n\nCOMMANDS:\n".to_owned();
        let commands = HelperCommand::all();
        let mut i: usize = 0;
        proof {
            reveal_strlit(" ");
            reveal_strlit("\n");
            assert(" "@ =~= seq![' ']);
            assert("\n"@ =~= seq!['\n']);
            assert(commands@.take(0) =~= Seq::<HelperCommand>::empty());
            assert(help_head() + help_lines(commands@.take(0)) =~= help_head());
        }
        while i < commands.len()
            invariant
                i <= commands.len(),
                " "@ == seq![' '],
                "\n"@ == seq!['\n'],
                help_str@ == help_head() + help_lines(commands@.take(i as int)),
            decreases commands.len() - i,
        {
            let command = commands[i];
            let ghost before = help_str@;
            let name = pad(command.name(), 7);
            let usage = pad(command.usage(), 17);
            let description = pad(command.description(), 10);
            help_str.append(name.as_str());
            help_str.append(" ");
            help_str.append(usage.as_str());
            help_str.append(" ");
            help_str.append(description.as_str());
            help_str.append("\n");
            proof {
                assert(commands@.take(i + 1).drop_last() =~= commands@.take(i as int));
                assert(commands@.take(i + 1).last() == command);
                assert(help_str@ =~= before + help_line(command));
                assert(help_str@ =~= help_head() + help_lines(commands@.take(i + 1)));
            }
            i = i + 1;
        }
        proof {
            assert(commands@.take(i as int) =~= commands@);
        }
        help_str
    }
}

} // verus!
