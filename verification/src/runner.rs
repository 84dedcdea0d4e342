use crate::command::CommandView;
use crate::help::{help_text, Help};
use crate::input_line::InputLine;
use crate::pipeline::{parse_pipeline, pipeline_of, Pipeline};
use crate::ports::{helper_of, Banable, HelperCommand, Pinable};
use crate::selection::{
    add_to_set, is_active_listing, named_targets, released, remove_from_set, resolve_active,
};
use crate::terminal::{terminal_views, Terminal, TerminalSet, TerminalView};
use crate::text::views;
use crate::tokenizer::EmptyInputError;
use vstd::prelude::*;

verus! {

/// The terminals of a session and the two selections that decide which of
/// them are active.
pub struct Runner {
    /// Every terminal of the session, in the order in which they were given.
    pub all_terminals: Vec<Terminal>,
    /// Where any terminal is pinned, the pinned ones alone are active.
    pub pinned_terminals: TerminalSet,
    /// Where none is pinned, the banned ones alone are not active.
    pub banned_terminals: TerminalSet,
}

/// What the session has to do after a helper command.
#[derive(Debug)]
pub enum HelperOutcome {
    /// A selection was changed, or left as it was; nothing is shown.
    Updated,
    /// The help text is to be shown.
    Show(String),
    /// The names of the active terminals are to be shown, one on each line.
    Names(Vec<String>),
    /// The session is to end.
    Exit,
}

/// The names of the terminals listed.
pub open spec fn names_of(listing: Seq<TerminalView>) -> Seq<Seq<char>> {
    listing.map_values(|t: TerminalView| t.name)
}

/// What a helper command does to a session and what it hands back.
/// `pin` and `ban` with names add to their selection and without names do
/// nothing; `unpin` and `unban` with names take out of their selection and
/// without names empty it; the others leave the session as it is.
pub open spec fn helper_effect(
    before: Runner,
    command: CommandView,
    after: Runner,
    outcome: HelperOutcome,
) -> bool {
    let all = terminal_views(before.all_terminals@);
    let pinned = before.pinned_terminals@;
    let banned = before.banned_terminals@;
    &&& after.all_terminals == before.all_terminals
    &&& match helper_of(command.name) {
        Some(HelperCommand::Pin) => {
            &&& outcome is Updated
            &&& after.banned_terminals == before.banned_terminals
            &&& after.pinned_terminals@ == pinned.union(named_targets(all, command.args))
        },
        Some(HelperCommand::Unpin) => {
            &&& outcome is Updated
            &&& after.banned_terminals == before.banned_terminals
            &&& if command.args.len() == 0 {
                after.pinned_terminals@ == Set::<TerminalView>::empty()
            } else {
                released(pinned, command.args, after.pinned_terminals@)
            }
        },
        Some(HelperCommand::Ban) => {
            &&& outcome is Updated
            &&& after.pinned_terminals == before.pinned_terminals
            &&& after.banned_terminals@ == banned.union(named_targets(all, command.args))
        },
        Some(HelperCommand::Unban) => {
            &&& outcome is Updated
            &&& after.pinned_terminals == before.pinned_terminals
            &&& if command.args.len() == 0 {
                after.banned_terminals@ == Set::<TerminalView>::empty()
            } else {
                released(banned, command.args, after.banned_terminals@)
            }
        },
        Some(HelperCommand::List) => {
            &&& after == before
            &&& outcome matches HelperOutcome::Names(names)
            &&& exists|listing: Seq<TerminalView>| #[trigger]
                is_active_listing(listing, all, pinned, banned) && views(names@) == names_of(
                    listing,
                )
        },
        Some(HelperCommand::Help) => {
            &&& after == before
            &&& outcome matches HelperOutcome::Show(text)
            &&& text@ == help_text()
        },
        Some(HelperCommand::Exit) => after == before && outcome is Exit,
        None => after == before && outcome is Updated,
    }
}

/// What the session has to do with a line of the operator.
#[derive(Debug)]
pub enum Turn {
    /// The line holds a piece without a word: nothing is to be run.
    Rejected(EmptyInputError),
    /// The line was a helper command, which has been carried out.
    Helper(HelperOutcome),
    /// The pipeline is to be run in each of the terminals given.
    Run { pipeline: Pipeline, targets: Vec<Terminal> },
}

/// What a line of the operator does to a session and what it hands back.
/// A line whose first stage names a helper command is that command, its
/// other stages are not looked at; any other line is a pipeline for the
/// terminals that are active.
pub open spec fn turn_effect(before: Runner, line: Seq<char>, after: Runner, turn: Turn) -> bool {
    match pipeline_of(line) {
        None => after == before && turn is Rejected,
        Some(stages) => if helper_of(stages[0].name) is Some {
            &&& turn matches Turn::Helper(outcome)
            &&& helper_effect(before, stages[0], after, outcome)
        } else {
            &&& after == before
            &&& turn matches Turn::Run { pipeline, targets }
            &&& pipeline@ == stages
            &&& is_active_listing(
                terminal_views(targets@),
                terminal_views(before.all_terminals@),
                before.pinned_terminals@,
                before.banned_terminals@,
            )
        },
    }
}

impl Runner {
    /// Reads one line of the operator and decides what is to be done with
    /// it. A helper command is carried out here; a pipeline is handed back
    /// with the terminals in which it is to run.
    pub fn interpret(&mut self, line: &str) -> (turn: Turn)
        ensures
            turn_effect(*old(self), line@, *final(self), turn),
    {
        match parse_pipeline(line) {
            Err(e) => Turn::Rejected(e),
            Ok(pipeline) => {
                let first = pipeline.stage(0).duplicate();
                if HelperCommand::to_enum(first.name.as_str()).is_some() {
                    Turn::Helper(self.execute_helper_cmd(first))
                } else {
                    let targets = self.active_terminals();
                    Turn::Run { pipeline, targets }
                }
            },
        }
    }

    /// A session over the given terminals, with none pinned and none banned.
    pub fn new(terminals: Vec<Terminal>) -> (r: Runner)
        ensures
            r.all_terminals == terminals,
            r.pinned_terminals@ == Set::<TerminalView>::empty(),
            r.banned_terminals@ == Set::<TerminalView>::empty(),
    {
        Runner {
            all_terminals: terminals,
            pinned_terminals: TerminalSet::new(),
            banned_terminals: TerminalSet::new(),
        }
    }

    /// The terminals on which the next command line runs.
    pub fn active_terminals(&self) -> (r: Vec<Terminal>)
        ensures
            is_active_listing(
                terminal_views(r@),
                terminal_views(self.all_terminals@),
                self.pinned_terminals@,
                self.banned_terminals@,
            ),
    {
        resolve_active(&self.all_terminals, &self.pinned_terminals, &self.banned_terminals)
    }

    /// Carries out a helper command on the session and says what is left
    /// for the caller to do. A command that names no helper changes nothing.
    pub fn execute_helper_cmd(&mut self, command: InputLine) -> (outcome: HelperOutcome)
        ensures
            helper_effect(*old(self), command@, *final(self), outcome),
    {
        match HelperCommand::to_enum(command.name.as_str()) {
            Some(HelperCommand::Help) => HelperOutcome::Show(Help::display()),
            Some(HelperCommand::Ban) => {
                self.ban(command.args);
                HelperOutcome::Updated
            },
            Some(HelperCommand::Unban) => {
                self.unban(command.args);
                HelperOutcome::Updated
            },
            Some(HelperCommand::Pin) => {
                self.pin(command.args);
                HelperOutcome::Updated
            },
            Some(HelperCommand::Unpin) => {
                self.unpin(command.args);
                HelperOutcome::Updated
            },
            Some(HelperCommand::List) => {
                let active = self.active_terminals();
                let mut names: Vec<String> = Vec::new();
                let mut i: usize = 0;
                while i < active.len()
                    invariant
                        i <= active.len(),
                        views(names@) == names_of(terminal_views(active@)).take(i as int),
                    decreases active.len() - i,
                {
                    let ghost before = views(names@);
                    names.push(active[i].name.clone());
                    proof {
                        let all_names = names_of(terminal_views(active@));
                        assert(views(names@) =~= before.push(active@[i as int].name@));
                        assert(all_names.take(i + 1) =~= all_names.take(i as int).push(
                            active@[i as int].name@,
                        ));
                    }
                    i = i + 1;
                }
                proof {
                    let all_names = names_of(terminal_views(active@));
                    assert(all_names.take(i as int) =~= all_names);
                    assert(is_active_listing(
                        terminal_views(active@),
                        terminal_views(self.all_terminals@),
                        self.pinned_terminals@,
                        self.banned_terminals@,
                    ));
                }
                HelperOutcome::Names(names)
            },
            Some(HelperCommand::Exit) => HelperOutcome::Exit,
            None => HelperOutcome::Updated,
        }
    }
}

impl Banable for Runner {
    /// Bans, for each name, the first terminal of the session that carries
    /// it. A name that no terminal carries is passed over.
    fn ban(&mut self, names: Vec<String>)
        ensures
            final(self).all_terminals == old(self).all_terminals,
            final(self).pinned_terminals == old(self).pinned_terminals,
            final(self).banned_terminals@ == old(self).banned_terminals@.union(
                named_targets(terminal_views(old(self).all_terminals@), views(names@)),
            ),
    {
        add_to_set(&self.all_terminals, &mut self.banned_terminals, &names);
    }

    /// Lifts the ban from one terminal for each name. A name that no banned
    /// terminal carries is passed over. With no name, no terminal stays
    /// banned.
    fn unban(&mut self, names: Vec<String>)
        ensures
            final(self).all_terminals == old(self).all_terminals,
            final(self).pinned_terminals == old(self).pinned_terminals,
            names.len() == 0 ==> final(self).banned_terminals@ == Set::<TerminalView>::empty(),
            names.len() > 0 ==> released(
                old(self).banned_terminals@,
                views(names@),
                final(self).banned_terminals@,
            ),
    {
        remove_from_set(&mut self.banned_terminals, &names);
    }
}

impl Pinable for Runner {
    /// Pins, for each name, the first terminal of the session that carries
    /// it. A name that no terminal carries is passed over.
    fn pin(&mut self, names: Vec<String>)
        ensures
            final(self).all_terminals == old(self).all_terminals,
            final(self).banned_terminals == old(self).banned_terminals,
            final(self).pinned_terminals@ == old(self).pinned_terminals@.union(
                named_targets(terminal_views(old(self).all_terminals@), views(names@)),
            ),
    {
        add_to_set(&self.all_terminals, &mut self.pinned_terminals, &names);
    }

    /// Unpins one terminal for each name. A name that no pinned terminal
    /// carries is passed over. With no name, no terminal stays pinned.
    fn unpin(&mut self, names: Vec<String>)
        ensures
            final(self).all_terminals == old(self).all_terminals,
            final(self).banned_terminals == old(self).banned_terminals,
            names.len() == 0 ==> final(self).pinned_terminals@ == Set::<TerminalView>::empty(),
            names.len() > 0 ==> released(
                old(self).pinned_terminals@,
                views(names@),
                final(self).pinned_terminals@,
            ),
    {
        remove_from_set(&mut self.pinned_terminals, &names);
    }
}

} // verus!
