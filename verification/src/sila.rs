use crate::ports::{Banable, Pinable};
use crate::selection::{
    add_to_set, is_active_listing, named_targets, released, remove_from_set, resolve_active,
};
use crate::terminal::{terminal_views, Terminal, TerminalSet, TerminalView};
use crate::text::views;
use vstd::prelude::*;

verus! {

/// The selection of terminals on its own: every terminal that is known, and
/// those that are pinned and banned.
pub struct Sila {
    /// Every terminal that is known, in the order in which they were given.
    pub all_terminals: Vec<Terminal>,
    /// Where any terminal is pinned, the pinned ones alone are active.
    pub pinned_terminals: TerminalSet,
    /// Where none is pinned, the banned ones alone are not active.
    pub banned_terminals: TerminalSet,
}

impl Sila {
    /// A selection over the given terminals, with none pinned and none
    /// banned.
    pub fn new(terminals: Vec<Terminal>) -> (r: Sila)
        ensures
            r.all_terminals == terminals,
            r.pinned_terminals@ == Set::<TerminalView>::empty(),
            r.banned_terminals@ == Set::<TerminalView>::empty(),
    {
        Sila {
            all_terminals: terminals,
            pinned_terminals: TerminalSet::new(),
            banned_terminals: TerminalSet::new(),
        }
    }

    /// The terminals that are active.
    pub fn active_terminals(&self) -> (r: Vec<Terminal>)
        ensures
            is_active_listing(
                terminal_views(r@),
                terminal_views(self.all_terminals@),
                self.pinned_terminals@,
                self.banned_terminals@,
            ),
    {
        resolve_active(&self.all_terminals, &self.pinned_terminals, &self.banned_terminals)
    }
}

impl Banable for Sila {
    /// Bans, for each name, the first terminal that is known that carries
    /// it. A name that no terminal carries is passed over.
    fn ban(&mut self, names: Vec<String>)
        ensures
            final(self).all_terminals == old(self).all_terminals,
            final(self).pinned_terminals == old(self).pinned_terminals,
            final(self).banned_terminals@ == old(self).banned_terminals@.union(
                named_targets(terminal_views(old(self).all_terminals@), views(names@)),
            ),
    {
        add_to_set(&self.all_terminals, &mut self.banned_terminals, &names);
    }

    /// Lifts the ban from one terminal for each name. A name that no banned
    /// terminal carries is passed over. With no name, no terminal stays
    /// banned.
    fn unban(&mut self, names: Vec<String>)
        ensures
            final(self).all_terminals == old(self).all_terminals,
            final(self).pinned_terminals == old(self).pinned_terminals,
            names.len() == 0 ==> final(self).banned_terminals@ == Set::<TerminalView>::empty(),
            names.len() > 0 ==> released(
                old(self).banned_terminals@,
                views(names@),
                final(self).banned_terminals@,
            ),
    {
        remove_from_set(&mut self.banned_terminals, &names);
    }
}

impl Pinable for Sila {
    /// Pins, for each name, the first terminal that is known that carries
    /// it. A name that no terminal carries is passed over.
    fn pin(&mut self, names: Vec<String>)
        ensures
            final(self).all_terminals == old(self).all_terminals,
            final(self).banned_terminals == old(self).banned_terminals,
            final(self).pinned_terminals@ == old(self).pinned_terminals@.union(
                named_targets(terminal_views(old(self).all_terminals@), views(names@)),
            ),
    {
        add_to_set(&self.all_terminals, &mut self.pinned_terminals, &names);
    }

    /// Unpins one terminal for each name. A name that no pinned terminal
    /// carries is passed over. With no name, no terminal stays pinned.
    fn unpin(&mut self, names: Vec<String>)
        ensures
            final(self).all_terminals == old(self).all_terminals,
            final(self).banned_terminals == old(self).banned_terminals,
            names.len() == 0 ==> final(self).pinned_terminals@ == Set::<TerminalView>::empty(),
            names.len() > 0 ==> released(
                old(self).pinned_terminals@,
                views(names@),
                final(self).pinned_terminals@,
            ),
    {
        remove_from_set(&mut self.pinned_terminals, &names);
    }
}

} // verus!
