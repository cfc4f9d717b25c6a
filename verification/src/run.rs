//! The builtin dispatcher and the pipeline executor, as one state machine.
//!
//! A [`Run`] holds the pipeline of one input line. Each call of
//! [`Run::step`] hands out the next [`Action`]; the caller carries it out and
//! reports with the next call how a spawn went.

use crate::home::home_directory;
use crate::parse::{arguments, Pipeline, Stage};
use crate::text::same_text;
use vstd::prelude::*;

pub mod laws;

verus! {

/// Where a spawned program reads its standard input from.
#[derive(Clone, Copy, Debug, PartialEq, Eq)]
pub enum Stdin {
    /// From the shell's own standard input.
    Inherit,
    /// From the output of the pending process, which is thereby used up.
    Previous,
}

/// Where a spawned program writes its standard output to.
#[derive(Clone, Copy, Debug, PartialEq, Eq)]
pub enum Stdout {
    /// To the shell's own standard output.
    Inherit,
    /// Into a pipe, kept for the next stage.
    Pipe,
}

/// What the caller reports when it asks for the next action.
#[derive(Clone, Copy, Debug, PartialEq, Eq)]
pub enum Event {
    /// Nothing to report.
    Ready,
    /// The program asked for by the last action is running.
    Spawned,
    /// The program asked for by the last action could not be started.
    SpawnFailed,
}

/// Where a run stands between two actions.
#[derive(Clone, Copy, Debug, PartialEq, Eq)]
pub enum Phase {
    /// No process is pending.
    Clear,
    /// One process is pending: it was spawned, and its output has not been
    /// handed on nor its exit awaited.
    Linked,
    /// A spawn was asked for; the next event tells how it went.
    Spawning,
    /// Nothing is left to do for this line.
    Finished,
}

/// What the caller is to do next.
#[derive(Debug, PartialEq, Eq)]
pub enum Action {
    /// Start `program` with `args`, wired as `stdin` and `stdout` say, and
    /// report `Spawned` or `SpawnFailed`. Where the start fails, report the
    /// error to the user and keep no process pending.
    Spawn { program: String, args: Vec<String>, stdin: Stdin, stdout: Stdout },
    /// Make `target` the working directory. Where that fails, report the
    /// error to the user. The pending process, if any, stays pending.
    ChangeDir { target: String },
    /// Leave the shell at once, with success.
    Exit,
    /// The stage names no program: report that to the user and keep no
    /// process pending.
    MissingProgram,
    /// The working directory was to become the home directory, which cannot
    /// be found: the shell cannot go on.
    MissingHome,
    /// Wait until the pending process has ended; it is pending no longer.
    Wait,
    /// Nothing is left to do for this line: prompt for the next one.
    Done,
}

/// An [`Action`] as plain values.
pub enum Plan {
    Spawn { program: Seq<char>, args: Seq<Seq<char>>, stdin: Stdin, stdout: Stdout },
    ChangeDir { target: Seq<char> },
    Exit,
    MissingProgram,
    MissingHome,
    Wait,
    Done,
}

impl View for Action {
    type V = Plan;

    open spec fn view(&self) -> Plan {
        match self {
            Action::Spawn { program, args, stdin, stdout } => Plan::Spawn {
                program: program@,
                args: args.deep_view(),
                stdin: *stdin,
                stdout: *stdout,
            },
            Action::ChangeDir { target } => Plan::ChangeDir { target: target@ },
            Action::Exit => Plan::Exit,
            Action::MissingProgram => Plan::MissingProgram,
            Action::MissingHome => Plan::MissingHome,
            Action::Wait => Plan::Wait,
            Action::Done => Plan::Done,
        }
    }
}

/// A [`Run`] as plain values: the stages, how many of them were dispatched,
/// and the phase.
pub struct RunState {
    pub stages: Seq<Seq<Seq<char>>>,
    pub next: nat,
    pub phase: Phase,
}

/// Whether a process is pending once `event` is taken into account: a spawn
/// under way leaves one if and only if it succeeded.
pub open spec fn linked(phase: Phase, event: Event) -> bool {
    match phase {
        Phase::Linked => true,
        Phase::Spawning => event is Spawned,
        _ => false,
    }
}

/// The phase in which no stage is under way and a process is pending or not.
pub open spec fn settled(pending: bool) -> Phase {
    if pending {
        Phase::Linked
    } else {
        Phase::Clear
    }
}

/// Whether `stage` is the builtin `cd` without an argument.
pub open spec fn is_bare_cd(stage: Seq<Seq<char>>) -> bool {
    stage.len() == 1 && stage[0] == "cd"@
}

/// Whether the next step of `s` depends on the home directory.
pub open spec fn wants_home(s: RunState) -> bool {
    &&& !(s.phase is Finished)
    &&& s.next < s.stages.len()
    &&& is_bare_cd(s.stages[s.next as int])
}

/// What dispatching `stage` leads to: the phase afterwards and the action.
/// `last` tells whether it is the last stage of its pipeline, `pending`
/// whether a process is pending, `home` the home directory if it is known.
pub open spec fn dispatch(
    stage: Seq<Seq<char>>,
    last: bool,
    pending: bool,
    home: Option<Seq<char>>,
) -> (Phase, Plan) {
    if stage.len() == 0 {
        (Phase::Clear, Plan::MissingProgram)
    } else if stage[0] == "exit"@ {
        (Phase::Finished, Plan::Exit)
    } else if stage[0] == "cd"@ {
        if stage.len() >= 2 {
            (settled(pending), Plan::ChangeDir { target: stage[1] })
        } else {
            match home {
                Some(h) => (settled(pending), Plan::ChangeDir { target: h }),
                None => (Phase::Finished, Plan::MissingHome),
            }
        }
    } else {
        (
            Phase::Spawning,
            Plan::Spawn {
                program: stage[0],
                args: arguments(stage),
                stdin: if pending {
                    Stdin::Previous
                } else {
                    Stdin::Inherit
                },
                stdout: if last {
                    Stdout::Inherit
                } else {
                    Stdout::Pipe
                },
            },
        )
    }
}

/// One step of a run: from the state and the event to the next state and the
/// action. Stages are dispatched from left to right; when none is left, the
/// pending process is waited for; then the run is finished.
pub open spec fn step_spec(s: RunState, event: Event, home: Option<Seq<char>>) -> (RunState, Plan) {
    let pending = linked(s.phase, event);
    if s.phase is Finished {
        (s, Plan::Done)
    } else if s.next < s.stages.len() {
        let (phase, plan) = dispatch(
            s.stages[s.next as int],
            s.next + 1 == s.stages.len(),
            pending,
            home,
        );
        (RunState { stages: s.stages, next: s.next + 1, phase }, plan)
    } else if pending {
        (RunState { stages: s.stages, next: s.next, phase: Phase::Clear }, Plan::Wait)
    } else {
        (RunState { stages: s.stages, next: s.next, phase: Phase::Finished }, Plan::Done)
    }
}

/// The state reached from `s`, and the actions handed out on the way, when
/// one step is taken for each element of `inputs`: the event reported with
/// that step, and the home directory as it is found at that step.
pub open spec fn run_from(s: RunState, inputs: Seq<(Event, Option<Seq<char>>)>) -> (
    RunState,
    Seq<Plan>,
)
    decreases inputs.len(),
{
    if inputs.len() == 0 {
        (s, Seq::empty())
    } else {
        let (t, plans) = run_from(s, inputs.drop_last());
        let (u, plan) = step_spec(t, inputs.last().0, inputs.last().1);
        (u, plans.push(plan))
    }
}

/// An upper bound on the number of steps that `s` can take before it is
/// finished.
pub open spec fn steps_left(s: RunState) -> nat {
    let stages_left: nat = if s.next < s.stages.len() {
        (s.stages.len() - s.next) as nat
    } else {
        0
    };
    match s.phase {
        Phase::Finished => 0,
        Phase::Clear => 2 * stages_left + 1,
        Phase::Linked => 2 * stages_left + 2,
        Phase::Spawning => 2 * stages_left + 2,
    }
}

/// Whether `stage` names a program to start: it is not empty, and its first
/// token is neither `exit` nor `cd`.
pub open spec fn is_external(stage: Seq<Seq<char>>) -> bool {
    stage.len() > 0 && stage[0] != "exit"@ && stage[0] != "cd"@
}

/// The state in which the run of `stages` begins.
pub open spec fn fresh(stages: Seq<Seq<Seq<char>>>) -> RunState {
    RunState { stages, next: 0, phase: Phase::Clear }
}

/// The spawn that stage `k` of `stages` calls for when every stage before it
/// was started: the first stage reads from the shell's input and every other
/// one from the stage before it; the last stage writes to the shell's output
/// and every other one into a pipe.
pub open spec fn wired(stages: Seq<Seq<Seq<char>>>, k: int) -> Plan {
    Plan::Spawn {
        program: stages[k][0],
        args: arguments(stages[k]),
        stdin: if k == 0 {
            Stdin::Inherit
        } else {
            Stdin::Previous
        },
        stdout: if k == stages.len() - 1 {
            Stdout::Inherit
        } else {
            Stdout::Pipe
        },
    }
}

/// The run of one pipeline: which stage comes next, and whether a process is
/// pending.
#[derive(Debug)]
pub struct Run {
    pipeline: Pipeline,
    next: usize,
    phase: Phase,
}

impl View for Run {
    type V = RunState;

    closed spec fn view(&self) -> RunState {
        RunState { stages: self.pipeline@, next: self.next as nat, phase: self.phase }
    }
}

/// Decides what dispatching `stage` calls for.
pub fn dispatch_stage(stage: &Stage, last: bool, pending: bool, home: Option<&str>) -> (r: (
    Phase,
    Action,
))
    ensures
        (r.0, r.1@) == dispatch(stage@, last, pending, home.deep_view()),
        r.1 matches Action::Spawn { program, .. } ==> program@.len() > 0,
{
    let settled = if pending {
        Phase::Linked
    } else {
        Phase::Clear
    };
    match stage.program() {
        None => (Phase::Clear, Action::MissingProgram),
        Some(name) => {
            if same_text(name, "exit") {
                (Phase::Finished, Action::Exit)
            } else if same_text(name, "cd") {
                let tokens = stage.tokens();
                if tokens.len() >= 2 {
                    (settled, Action::ChangeDir { target: tokens[1].clone() })
                } else {
                    match home {
                        Some(h) => (settled, Action::ChangeDir { target: h.to_owned() }),
                        None => (Phase::Finished, Action::MissingHome),
                    }
                }
            } else {
                let stdin = if pending {
                    Stdin::Previous
                } else {
                    Stdin::Inherit
                };
                let stdout = if last {
                    Stdout::Inherit
                } else {
                    Stdout::Pipe
                };
                (
                    Phase::Spawning,
                    Action::Spawn { program: name.to_owned(), args: stage.args(), stdin, stdout },
                )
            }
        },
    }
}

impl Run {
    /// Begins the run of `pipeline`: no stage dispatched, no process pending.
    pub fn new(pipeline: Pipeline) -> (run: Run)
        ensures
            run@ == (RunState { stages: pipeline@, next: 0, phase: Phase::Clear }),
    {
        Run { pipeline, next: 0, phase: Phase::Clear }
    }

    /// The phase the run is in.
    pub fn phase(&self) -> (phase: Phase)
        ensures
            phase == self@.phase,
    {
        self.phase
    }

    /// How many stages were dispatched so far.
    pub fn dispatched(&self) -> (n: usize)
        ensures
            n == self@.next,
    {
        self.next
    }

    /// Whether nothing is left to do for this line.
    pub fn is_finished(&self) -> (r: bool)
        ensures
            r == (self@.phase is Finished),
    {
        match self.phase {
            Phase::Finished => true,
            _ => false,
        }
    }

    /// Whether the next step depends on the home directory: the stage to
    /// dispatch is `cd` without an argument.
    pub fn wants_home(&self) -> (r: bool)
        ensures
            r == wants_home(self@),
    {
        if self.is_finished() {
            return false;
        }
        match self.pipeline.get(self.next) {
            Some(stage) => {
                let tokens = stage.tokens();
                match stage.program() {
                    Some(name) => tokens.len() == 1 && same_text(name, "cd"),
                    None => false,
                }
            },
            None => false,
        }
    }

    /// Takes one step, with the home directory given: `None` where it cannot
    /// be found. Returns the action to carry out.
    pub fn step_with(&mut self, event: Event, home: Option<&str>) -> (action: Action)
        ensures
            (final(self)@, action@) == step_spec(old(self)@, event, home.deep_view()),
            action matches Action::Spawn { program, .. } ==> program@.len() > 0,
    {
        let pending = match self.phase {
            Phase::Linked => true,
            Phase::Spawning => match event {
                Event::Spawned => true,
                _ => false,
            },
            _ => false,
        };
        if self.is_finished() {
            return Action::Done;
        }
        let n = self.pipeline.len();
        match self.pipeline.get(self.next) {
            Some(stage) => {
                let last = n - self.next == 1;
                let (phase, action) = dispatch_stage(stage, last, pending, home);
                self.next = self.next + 1;
                self.phase = phase;
                action
            },
            None => {
                if pending {
                    self.phase = Phase::Clear;
                    Action::Wait
                } else {
                    self.phase = Phase::Finished;
                    Action::Done
                }
            },
        }
    }

    /// Takes one step and returns the action to carry out. The home
    /// directory is looked up only where the step depends on it.
    pub fn step(&mut self, event: Event) -> (action: Action)
        ensures
            !wants_home(old(self)@) ==> (final(self)@, action@) == step_spec(
                old(self)@,
                event,
                None,
            ),
            wants_home(old(self)@) ==> exists|home: Option<Seq<char>>|
                (final(self)@, action@) == #[trigger] step_spec(old(self)@, event, home),
            action matches Action::Spawn { program, .. } ==> program@.len() > 0,
    {
        if self.wants_home() {
            let home = home_directory();
            match &home {
                Some(h) => self.step_with(event, Some(h.as_str())),
                None => self.step_with(event, None),
            }
        } else {
            self.step_with(event, None)
        }
    }
}

} // verus!
