use vstd::prelude::*;
use vstd::std_specs::cmp::PartialEqSpecImpl;

verus! {

/// A named working directory in which a command line can be run.
#[derive(Debug, Clone, PartialEq, Eq, Hash)]
pub struct Terminal {
    pub name: String,
    pub path: String,
}

/// What a terminal is to the contracts: its name and its path as text.
pub ghost struct TerminalView {
    pub name: Seq<char>,
    pub path: Seq<char>,
}

impl View for Terminal {
    type V = TerminalView;

    open spec fn view(&self) -> TerminalView {
        TerminalView { name: self.name@, path: self.path@ }
    }
}

/// The views of a sequence of terminals.
pub open spec fn terminal_views(terminals: Seq<Terminal>) -> Seq<TerminalView> {
    terminals.map_values(|t: Terminal| t@)
}

/// Whether some member of `set` carries the name `name`.
pub open spec fn has_named(set: Set<TerminalView>, name: Seq<char>) -> bool {
    exists|t: TerminalView| #[trigger] set.contains(t) && t.name == name
}

impl Terminal {
    /// Two terminals are the same when name and path agree.
    pub fn same_as(&self, other: &Terminal) -> (r: bool)
        ensures
            r == (self@ == other@),
    {
        self.name == other.name && self.path == other.path
    }

    /// A copy with the same name and path.
    pub fn duplicate(&self) -> (r: Terminal)
        ensures
            r@ == self@,
    {
        Terminal { name: self.name.clone(), path: self.path.clone() }
    }
}

/// A finite set of terminals. A terminal is a member by its name and path
/// together; the order in which members are kept is private.
#[derive(Debug)]
pub struct TerminalSet {
    items: Vec<Terminal>,
}

impl View for TerminalSet {
    type V = Set<TerminalView>;

    closed spec fn view(&self) -> Set<TerminalView> {
        terminal_views(self.items@).to_set()
    }
}

impl TerminalSet {
    #[verifier::type_invariant]
    spec fn distinct(self) -> bool {
        terminal_views(self.items@).no_duplicates()
    }

    /// The set is finite.
    pub proof fn lemma_finite(&self)
        ensures
            self@.finite(),
    {
        vstd::seq_lib::seq_to_set_is_finite(terminal_views(self.items@));
    }

    /// The empty set.
    pub fn new() -> (r: TerminalSet)
        ensures
            r@ == Set::<TerminalView>::empty(),
    {
        let r = TerminalSet { items: Vec::new() };
        proof {
            assert(terminal_views(r.items@).to_set() =~= Set::<TerminalView>::empty());
        }
        r
    }

    /// The number of members.
    pub fn len(&self) -> (n: usize)
        ensures
            n == self@.len(),
            self@.finite(),
    {
        proof {
            use_type_invariant(self);
            terminal_views(self.items@).unique_seq_to_set();
            self.lemma_finite();
        }
        self.items.len()
    }

    /// Whether the set has no member.
    pub fn is_empty(&self) -> (r: bool)
        ensures
            r == (self@ == Set::<TerminalView>::empty()),
    {
        proof {
            if self.items.len() == 0 {
                assert(self@ =~= Set::<TerminalView>::empty());
            } else {
                assert(terminal_views(self.items@)[0] == self.items@[0]@);
                assert(terminal_views(self.items@).contains(self.items@[0]@));
                assert(self@.contains(self.items@[0]@));
            }
        }
        self.items.len() == 0
    }

    fn position(&self, terminal: &Terminal) -> (r: Option<usize>)
        ensures
            r matches Some(i) ==> i < self.items.len() && self.items@[i as int]@ == terminal@,
            r is None ==> !self@.contains(terminal@),
    {
        let mut i: usize = 0;
        while i < self.items.len()
            invariant
                i <= self.items.len(),
                forall|k: int| 0 <= k < i ==> self.items@[k]@ != terminal@,
            decreases self.items.len() - i,
        {
            if self.items[i].same_as(terminal) {
                return Some(i);
            }
            i = i + 1;
        }
        proof {
            let views = terminal_views(self.items@);
            assert forall|k: int| 0 <= k < views.len() implies views[k] != terminal@ by {
                assert(views[k] == self.items@[k]@);
            }
        }
        None
    }

    /// Whether `terminal` is a member.
    pub fn contains(&self, terminal: &Terminal) -> (r: bool)
        ensures
            r == self@.contains(terminal@),
    {
        match self.position(terminal) {
            Some(i) => {
                proof {
                    let views = terminal_views(self.items@);
                    assert(views[i as int] == terminal@);
                    assert(views.contains(terminal@));
                }
                true
            },
            None => false,
        }
    }

    /// Adds `terminal`. Adding a member again changes nothing. Returns
    /// whether the terminal was new.
    pub fn insert(&mut self, terminal: Terminal) -> (r: bool)
        ensures
            final(self)@ == old(self)@.insert(terminal@),
            r == !old(self)@.contains(terminal@),
    {
        proof {
            use_type_invariant(&*self);
        }
        if self.contains(&terminal) {
            proof {
                assert(self@.insert(terminal@) =~= self@);
            }
            false
        } else {
            let ghost before = terminal_views(self.items@);
            let mut items: Vec<Terminal> = Vec::new();
            core::mem::swap(&mut self.items, &mut items);
            items.push(terminal);
            proof {
                let after = terminal_views(items@);
                assert(after =~= before.push(terminal@));
                before.lemma_push_to_set_commute(terminal@);
                assert forall|i: int, j: int|
                    0 <= i < after.len() && 0 <= j < after.len() && i != j implies after[i]
                    != after[j] by {
                    if i < before.len() {
                        assert(before.contains(before[i]));
                    }
                    if j < before.len() {
                        assert(before.contains(before[j]));
                    }
                }
            }
            self.items = items;
            true
        }
    }

    fn remove_at(&mut self, i: usize)
        requires
            i < old(self).items.len(),
        ensures
            final(self)@ == old(self)@.remove(old(self).items@[i as int]@),
    {
        proof {
            use_type_invariant(&*self);
        }
        let ghost before = terminal_views(self.items@);
        let mut items: Vec<Terminal> = Vec::new();
        core::mem::swap(&mut self.items, &mut items);
        items.remove(i);
        proof {
            let after = terminal_views(items@);
            assert(after =~= before.remove(i as int));
            assert forall|t: TerminalView| after.contains(t) <==> (before.contains(t) && t
                != before[i as int]) by {
                if after.contains(t) {
                    let k = choose|k: int| 0 <= k < after.len() && after[k] == t;
                    if k < i {
                        assert(before[k] == t);
                    } else {
                        assert(before[k + 1] == t);
                    }
                }
                if before.contains(t) && t != before[i as int] {
                    let k = choose|k: int| 0 <= k < before.len() && before[k] == t;
                    if k < i {
                        assert(after[k] == t);
                    } else {
                        assert(after[k - 1] == t);
                    }
                }
            }
            assert(after.to_set() =~= before.to_set().remove(before[i as int]));
        }
        self.items = items;
    }

    /// Takes `terminal` out. Taking out what is no member changes nothing.
    /// Returns whether the terminal was a member.
    pub fn remove(&mut self, terminal: &Terminal) -> (r: bool)
        ensures
            final(self)@ == old(self)@.remove(terminal@),
            r == old(self)@.contains(terminal@),
    {
        match self.position(terminal) {
            Some(i) => {
                proof {
                    let views = terminal_views(self.items@);
                    assert(views[i as int] == terminal@);
                    assert(views.contains(terminal@));
                }
                self.remove_at(i);
                true
            },
            None => {
                proof {
                    assert(self@.remove(terminal@) =~= self@);
                }
                false
            },
        }
    }

    /// Takes out one member that carries the name `name`, if there is one.
    /// Where several members carry it, which of them leaves is not fixed.
    /// Returns whether a member left.
    pub fn remove_named(&mut self, name: &String) -> (r: bool)
        ensures
            r == has_named(old(self)@, name@),
            !r ==> final(self)@ == old(self)@,
            r ==> exists|t: TerminalView| #[trigger]
                old(self)@.contains(t) && t.name == name@ && final(self)@ == old(self)@.remove(t),
    {
        let mut i: usize = 0;
        while i < self.items.len()
            invariant
                i <= self.items.len(),
                *self == *old(self),
                forall|k: int| 0 <= k < i ==> self.items@[k]@.name != name@,
            decreases self.items.len() - i,
        {
            if self.items[i].name == *name {
                let ghost t = self.items@[i as int]@;
                proof {
                    let views = terminal_views(self.items@);
                    assert(views[i as int] == t);
                    assert(views.contains(t));
                    assert(self@.contains(t) && t.name == name@);
                }
                self.remove_at(i);
                return true;
            }
            i = i + 1;
        }
        proof {
            let views = terminal_views(self.items@);
            assert forall|t: TerminalView| self@.contains(t) implies t.name != name@ by {
                let k = choose|k: int| 0 <= k < views.len() && views[k] == t;
                assert(views[k] == self.items@[k]@);
            }
        }
        false
    }

    /// Takes every member out.
    pub fn clear(&mut self)
        ensures
            final(self)@ == Set::<TerminalView>::empty(),
    {
        self.items = Vec::new();
        proof {
            assert(terminal_views(self.items@).to_set() =~= Set::<TerminalView>::empty());
        }
    }

    /// The members, each once, in no order that callers may rely on.
    pub fn to_vec(&self) -> (r: Vec<Terminal>)
        ensures
            terminal_views(r@).no_duplicates(),
            terminal_views(r@).to_set() == self@,
    {
        proof {
            use_type_invariant(self);
        }
        let mut r: Vec<Terminal> = Vec::new();
        let mut i: usize = 0;
        while i < self.items.len()
            invariant
                i <= self.items.len(),
                terminal_views(r@) == terminal_views(self.items@).take(i as int),
            decreases self.items.len() - i,
        {
            let ghost before = terminal_views(r@);
            r.push(self.items[i].duplicate());
            proof {
                assert(terminal_views(r@) =~= before.push(self.items@[i as int]@));
                assert(terminal_views(self.items@).take(i + 1) =~= terminal_views(
                    self.items@,
                ).take(i as int).push(self.items@[i as int]@));
            }
            i = i + 1;
        }
        proof {
            assert(terminal_views(self.items@).take(i as int) =~= terminal_views(self.items@));
        }
        r
    }

    /// Whether every member of `self` is a member of `other`.
    pub fn is_subset(&self, other: &TerminalSet) -> (r: bool)
        ensures
            r == self@.subset_of(other@),
    {
        let mut i: usize = 0;
        while i < self.items.len()
            invariant
                i <= self.items.len(),
                forall|k: int| 0 <= k < i ==> other@.contains(self.items@[k]@),
            decreases self.items.len() - i,
        {
            if !other.contains(&self.items[i]) {
                proof {
                    let views = terminal_views(self.items@);
                    assert(views[i as int] == self.items@[i as int]@);
                    assert(views.contains(self.items@[i as int]@));
                }
                return false;
            }
            i = i + 1;
        }
        proof {
            let views = terminal_views(self.items@);
            assert forall|t: TerminalView| self@.contains(t) implies other@.contains(t) by {
                let k = choose|k: int| 0 <= k < views.len() && views[k] == t;
                assert(views[k] == self.items@[k]@);
            }
        }
        true
    }
}

impl PartialEq for TerminalSet {
    /// Two sets are equal when they have the same members.
    fn eq(&self, other: &TerminalSet) -> (r: bool) {
        let r = self.is_subset(other) && other.is_subset(self);
        proof {
            if r {
                assert(self@ =~= other@);
            }
        }
        r
    }
}

impl PartialEqSpecImpl for TerminalSet {
    open spec fn obeys_eq_spec() -> bool {
        true
    }

    open spec fn eq_spec(&self, other: &TerminalSet) -> bool {
        self@ == other@
    }
}

} // verus!
