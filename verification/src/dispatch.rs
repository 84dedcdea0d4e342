use crate::output::{Output, OutputView};
use vstd::prelude::*;

verus! {

/// How far the dispatch of one command line to the active terminals has
/// come.
#[derive(Debug, Clone, Copy, PartialEq, Eq, Structural)]
pub enum DispatchPhase {
    /// Nothing has been started.
    Idle,
    /// Units of work are being started, one for each terminal.
    FanningOut,
    /// Every unit has been started; results are being taken in.
    FanningIn,
    /// A result has come in from every terminal.
    Complete,
}

/// The dispatch of one command line: how many terminals it goes to, how
/// many units of work have been started, and the results so far in the
/// order in which they came in.
#[derive(Debug)]
pub struct Dispatch {
    phase: DispatchPhase,
    total: usize,
    spawned: usize,
    results: Vec<Output>,
}

/// What a dispatch is to the contracts.
pub ghost struct DispatchView {
    pub phase: DispatchPhase,
    /// The number of terminals that the command line goes to.
    pub total: nat,
    /// The number of units of work that have been started.
    pub spawned: nat,
    /// The results that have come in, in the order in which they came.
    pub results: Seq<OutputView>,
}

/// The views of a sequence of results.
pub open spec fn output_views(results: Seq<Output>) -> Seq<OutputView> {
    results.map_values(|r: Output| r@)
}

/// The states that a dispatch can be in.
pub open spec fn valid_dispatch(d: DispatchView) -> bool {
    match d.phase {
        DispatchPhase::Idle => d.spawned == 0 && d.results.len() == 0,
        DispatchPhase::FanningOut => d.spawned < d.total && d.results.len() == 0,
        DispatchPhase::FanningIn => d.spawned == d.total && d.results.len() < d.total,
        DispatchPhase::Complete => d.spawned == d.total && d.results.len() == d.total,
    }
}

/// The dispatch after it has begun: with no terminal to go to it is
/// complete at once, else units of work are to be started.
pub open spec fn begun(d: DispatchView) -> DispatchView {
    DispatchView {
        phase: if d.total == 0 {
            DispatchPhase::Complete
        } else {
            DispatchPhase::FanningOut
        },
        ..d
    }
}

/// The dispatch after one more unit of work has been started.
pub open spec fn after_spawn(d: DispatchView) -> DispatchView {
    DispatchView {
        phase: if d.spawned + 1 == d.total {
            DispatchPhase::FanningIn
        } else {
            DispatchPhase::FanningOut
        },
        spawned: d.spawned + 1,
        ..d
    }
}

/// The dispatch after one more result has come in.
pub open spec fn after_result(d: DispatchView, result: OutputView) -> DispatchView {
    DispatchView {
        phase: if d.results.len() + 1 == d.total {
            DispatchPhase::Complete
        } else {
            DispatchPhase::FanningIn
        },
        results: d.results.push(result),
        ..d
    }
}

impl View for Dispatch {
    type V = DispatchView;

    closed spec fn view(&self) -> DispatchView {
        DispatchView {
            phase: self.phase,
            total: self.total as nat,
            spawned: self.spawned as nat,
            results: output_views(self.results@),
        }
    }
}

impl Dispatch {
    #[verifier::type_invariant]
    spec fn well_formed(self) -> bool {
        valid_dispatch(self@)
    }

    /// A dispatch to `total` terminals, not yet begun.
    pub fn new(total: usize) -> (r: Dispatch)
        ensures
            r@ == (DispatchView {
                phase: DispatchPhase::Idle,
                total: total as nat,
                spawned: 0,
                results: Seq::empty(),
            }),
    {
        let r = Dispatch { phase: DispatchPhase::Idle, total, spawned: 0, results: Vec::new() };
        proof {
            assert(output_views(r.results@) =~= Seq::<OutputView>::empty());
        }
        r
    }

    /// How far the dispatch has come.
    pub fn phase(&self) -> (r: DispatchPhase)
        ensures
            r == self@.phase,
            valid_dispatch(self@),
    {
        proof {
            use_type_invariant(self);
        }
        self.phase
    }

    /// The number of results that are still to come in.
    pub fn outstanding(&self) -> (r: usize)
        ensures
            r == self@.total - self@.results.len(),
    {
        proof {
            use_type_invariant(self);
        }
        self.total - self.results.len()
    }

    /// Begins the dispatch.
    pub fn begin(self) -> (r: Dispatch)
        requires
            self@.phase == DispatchPhase::Idle,
        ensures
            r@ == begun(self@),
    {
        proof {
            use_type_invariant(&self);
        }
        let phase = if self.total == 0 {
            DispatchPhase::Complete
        } else {
            DispatchPhase::FanningOut
        };
        Dispatch { phase, total: self.total, spawned: self.spawned, results: self.results }
    }

    /// Records that one more unit of work has been started.
    pub fn unit_spawned(self) -> (r: Dispatch)
        requires
            self@.phase == DispatchPhase::FanningOut,
        ensures
            r@ == after_spawn(self@),
    {
        proof {
            use_type_invariant(&self);
        }
        let spawned = self.spawned + 1;
        let phase = if spawned == self.total {
            DispatchPhase::FanningIn
        } else {
            DispatchPhase::FanningOut
        };
        Dispatch { phase, total: self.total, spawned, results: self.results }
    }

    /// Takes in one more result.
    pub fn receive(self, result: Output) -> (r: Dispatch)
        requires
            self@.phase == DispatchPhase::FanningIn,
        ensures
            r@ == after_result(self@, result@),
    {
        proof {
            use_type_invariant(&self);
        }
        let ghost before = output_views(self.results@);
        let mut results = self.results;
        results.push(result);
        proof {
            assert(output_views(results@) =~= before.push(result@));
        }
        let phase = if results.len() == self.total {
            DispatchPhase::Complete
        } else {
            DispatchPhase::FanningIn
        };
        Dispatch { phase, total: self.total, spawned: self.spawned, results }
    }

    /// The results of a dispatch that is complete, one for each terminal, in
    /// the order in which they came in.
    pub fn into_results(self) -> (r: Vec<Output>)
        requires
            self@.phase == DispatchPhase::Complete,
        ensures
            output_views(r@) == self@.results,
            r.len() == self@.total,
    {
        proof {
            use_type_invariant(&self);
            assert(output_views(self.results@).len() == self.results@.len());
        }
        self.results
    }
}

/// Each step keeps a dispatch in a valid state. While results are taken in,
/// fewer have come in than there are terminals; once the dispatch is
/// complete, as many have come in as there are terminals.
pub proof fn lemma_dispatch_steps(d: DispatchView, result: OutputView)
    requires
        valid_dispatch(d),
    ensures
        d.phase == DispatchPhase::Idle ==> valid_dispatch(begun(d)),
        d.phase == DispatchPhase::FanningOut ==> valid_dispatch(after_spawn(d)),
        d.phase == DispatchPhase::FanningIn ==> valid_dispatch(after_result(d, result)),
        d.phase == DispatchPhase::FanningIn ==> d.results.len() < d.total,
        d.phase == DispatchPhase::Complete ==> d.results.len() == d.total,
{
}

} // verus!
