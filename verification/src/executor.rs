use crate::output::{copy_bytes, Output, OutputView};
use crate::text::{join, joined, views};
use vstd::prelude::*;
use vstd::string::StrSliceExecFns;
use vstd::utf8::encode_utf8;

verus! {

/// How far the run of one pipeline in one terminal has come.
#[derive(Debug, Clone, Copy, PartialEq, Eq, Structural)]
pub enum ExecPhase {
    /// A stage is to be started next.
    Spawning,
    /// Every stage has started; the last one is to be waited for.
    Waiting,
    /// The run is over.
    Done,
}

/// Where a stage reads from.
#[derive(Debug, Clone, Copy, PartialEq, Eq, Structural)]
pub enum StdinSource {
    /// From where the session itself reads.
    Inherited,
    /// From what the stage before it writes.
    PreviousStage,
}

/// What the caller has to do next for a run.
#[derive(Debug, Clone, Copy, PartialEq, Eq, Structural)]
pub enum ExecAction {
    /// Start the stage at this position, reading from the source given, and
    /// capture what it writes.
    Spawn { stage: usize, stdin: StdinSource },
    /// Wait until the last stage has ended and take what it wrote.
    WaitForLast,
    /// Nothing: the run is over.
    Finish,
}

/// A stage did not start; the message says why.
#[derive(Debug, Clone, PartialEq, Eq)]
pub struct SpawnError {
    pub message: String,
}

/// What happened when the caller did what the run asked for.
#[derive(Debug)]
pub enum ExecEvent {
    /// The stage has started.
    Spawned,
    /// The stage did not start.
    SpawnFailed(SpawnError),
    /// The last stage has ended and wrote these bytes.
    Exited(Vec<u8>),
}

/// What an event is to the contracts.
pub ghost enum ExecEventView {
    Spawned,
    SpawnFailed(Seq<char>),
    Exited(Seq<u8>),
}

impl View for ExecEvent {
    type V = ExecEventView;

    open spec fn view(&self) -> ExecEventView {
        match self {
            ExecEvent::Spawned => ExecEventView::Spawned,
            ExecEvent::SpawnFailed(error) => ExecEventView::SpawnFailed(error.message@),
            ExecEvent::Exited(bytes) => ExecEventView::Exited(bytes@),
        }
    }
}

/// The run of one pipeline in one terminal, stage by stage.
#[derive(Debug)]
pub struct Execution {
    stages: usize,
    started: usize,
    phase: ExecPhase,
    errors: Vec<String>,
    payload: Vec<u8>,
}

/// What a run is to the contracts.
pub ghost struct ExecutionView {
    /// The number of stages of the pipeline.
    pub stages: nat,
    /// The number of stages that have started.
    pub started: nat,
    pub phase: ExecPhase,
    /// The messages of the stages that did not start.
    pub errors: Seq<Seq<char>>,
    /// What the run gives back, once it is over.
    pub payload: Seq<u8>,
}

/// The states that a run can be in.
pub open spec fn valid_run(run: ExecutionView) -> bool {
    &&& run.stages >= 1
    &&& match run.phase {
        ExecPhase::Spawning => run.started < run.stages && run.errors.len() == 0
            && run.payload.len() == 0,
        ExecPhase::Waiting => run.started == run.stages && run.errors.len() == 0
            && run.payload.len() == 0,
        ExecPhase::Done => run.started <= run.stages,
    }
}

/// A run before its first stage has started.
pub open spec fn fresh_run(stages: nat) -> ExecutionView {
    ExecutionView {
        stages,
        started: 0,
        phase: ExecPhase::Spawning,
        errors: Seq::empty(),
        payload: Seq::empty(),
    }
}

/// What a run asks of the caller. The first stage reads from where the
/// session reads, each later stage from the stage before it.
pub open spec fn action_of(run: ExecutionView) -> ExecAction {
    match run.phase {
        ExecPhase::Spawning => ExecAction::Spawn {
            stage: run.started as usize,
            stdin: if run.started == 0 {
                StdinSource::Inherited
            } else {
                StdinSource::PreviousStage
            },
        },
        ExecPhase::Waiting => ExecAction::WaitForLast,
        ExecPhase::Done => ExecAction::Finish,
    }
}

/// The bytes that a run gives back when stages did not start: the messages
/// with commas between them.
pub open spec fn error_payload(errors: Seq<Seq<char>>) -> Seq<u8> {
    encode_utf8(joined(errors, seq![',']))
}

/// The run after an event. A stage that starts lets the next one start, and
/// after the last one the run waits. A stage that does not start ends the
/// run: no later stage is started, and the run gives back the message. The
/// end of the last stage ends the run with what that stage wrote. An event
/// that the run did not ask for changes nothing.
pub open spec fn after_event(run: ExecutionView, event: ExecEventView) -> ExecutionView {
    match (run.phase, event) {
        (ExecPhase::Spawning, ExecEventView::Spawned) => ExecutionView {
            started: run.started + 1,
            phase: if run.started + 1 == run.stages {
                ExecPhase::Waiting
            } else {
                ExecPhase::Spawning
            },
            ..run
        },
        (ExecPhase::Spawning, ExecEventView::SpawnFailed(message)) => ExecutionView {
            phase: ExecPhase::Done,
            errors: run.errors.push(message),
            payload: error_payload(run.errors.push(message)),
            ..run
        },
        (ExecPhase::Waiting, ExecEventView::Exited(bytes)) => ExecutionView {
            phase: ExecPhase::Done,
            payload: bytes,
            ..run
        },
        _ => run,
    }
}

/// Whether a run that is over ended in an error.
pub open spec fn failed(run: ExecutionView) -> bool {
    run.errors.len() > 0
}

impl View for Execution {
    type V = ExecutionView;

    closed spec fn view(&self) -> ExecutionView {
        ExecutionView {
            stages: self.stages as nat,
            started: self.started as nat,
            phase: self.phase,
            errors: views(self.errors@),
            payload: self.payload@,
        }
    }
}

impl Execution {
    #[verifier::type_invariant]
    spec fn well_formed(self) -> bool {
        valid_run(self@)
    }

    /// A run of a pipeline of `stages` stages, none of them started.
    pub fn new(stages: usize) -> (r: Execution)
        requires
            stages >= 1,
        ensures
            r@ == fresh_run(stages as nat),
    {
        let r = Execution {
            stages,
            started: 0,
            phase: ExecPhase::Spawning,
            errors: Vec::new(),
            payload: Vec::new(),
        };
        proof {
            assert(views(r.errors@) =~= Seq::<Seq<char>>::empty());
            assert(r.payload@ =~= Seq::<u8>::empty());
        }
        r
    }

    /// How far the run has come.
    pub fn phase(&self) -> (r: ExecPhase)
        ensures
            r == self@.phase,
            valid_run(self@),
    {
        proof {
            use_type_invariant(self);
        }
        self.phase
    }

    /// What the caller has to do next.
    pub fn action(&self) -> (r: ExecAction)
        ensures
            r == action_of(self@),
    {
        match self.phase {
            ExecPhase::Spawning => ExecAction::Spawn {
                stage: self.started,
                stdin: if self.started == 0 {
                    StdinSource::Inherited
                } else {
                    StdinSource::PreviousStage
                },
            },
            ExecPhase::Waiting => ExecAction::WaitForLast,
            ExecPhase::Done => ExecAction::Finish,
        }
    }

    /// The run after an event.
    pub fn step(self, event: ExecEvent) -> (r: Execution)
        ensures
            r@ == after_event(self@, event@),
    {
        proof {
            use_type_invariant(&self);
        }
        match (self.phase, event) {
            (ExecPhase::Spawning, ExecEvent::Spawned) => {
                let started = self.started + 1;
                let phase = if started == self.stages {
                    ExecPhase::Waiting
                } else {
                    ExecPhase::Spawning
                };
                Execution {
                    stages: self.stages,
                    started,
                    phase,
                    errors: self.errors,
                    payload: self.payload,
                }
            },
            (ExecPhase::Spawning, ExecEvent::SpawnFailed(error)) => {
                let ghost before = views(self.errors@);
                let mut errors = self.errors;
                errors.push(error.message);
                proof {
                    assert(views(errors@) =~= before.push(error.message@));
                    reveal_strlit(",");
                    assert(","@ =~= seq![',']);
                }
                let text = join(&errors, ",");
                let payload = text.as_str().as_bytes_vec();
                Execution {
                    stages: self.stages,
                    started: self.started,
                    phase: ExecPhase::Done,
                    errors,
                    payload,
                }
            },
            (ExecPhase::Waiting, ExecEvent::Exited(bytes)) => Execution {
                stages: self.stages,
                started: self.started,
                phase: ExecPhase::Done,
                errors: self.errors,
                payload: bytes,
            },
            _ => self,
        }
    }

    /// The result of a run that is over, for the terminal and under the
    /// label given. A run that is not over has no result.
    pub fn into_output(self, terminal_name: String, command: String) -> (r: Option<Output>)
        ensures
            r is Some <==> self@.phase == ExecPhase::Done,
            r matches Some(output) ==> output@ == (OutputView {
                terminal_name: terminal_name@,
                output: self@.payload,
                command: command@,
                is_error: failed(self@),
            }),
    {
        match self.phase {
            ExecPhase::Done => Some(
                Output {
                    terminal_name,
                    output: copy_bytes(&self.payload),
                    command,
                    is_error: self.errors.len() > 0,
                },
            ),
            _ => None,
        }
    }
}

/// A run ends in an error exactly when a stage did not start, and no stage
/// is started after one that did not start.
pub proof fn lemma_failure_ends_run(run: ExecutionView, message: Seq<char>)
    requires
        valid_run(run),
        run.phase == ExecPhase::Spawning,
    ensures
        after_event(run, ExecEventView::SpawnFailed(message)).phase == ExecPhase::Done,
        failed(after_event(run, ExecEventView::SpawnFailed(message))),
        after_event(run, ExecEventView::SpawnFailed(message)).started == run.started,
        after_event(run, ExecEventView::SpawnFailed(message)).payload == encode_utf8(message),
        action_of(after_event(run, ExecEventView::SpawnFailed(message))) == ExecAction::Finish,
{
    let errors = run.errors.push(message);
    assert(run.errors =~= Seq::<Seq<char>>::empty());
    assert(errors.len() == 1);
    assert(joined(errors, seq![',']) == errors[0]);
}

/// Every event leaves a run in a valid state, and a run that is over stays
/// as it is.
pub proof fn lemma_step_valid(run: ExecutionView, event: ExecEventView)
    requires
        valid_run(run),
    ensures
        valid_run(after_event(run, event)),
        run.phase == ExecPhase::Done ==> after_event(run, event) == run,
{
}

} // verus!
