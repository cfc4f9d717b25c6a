//! What holds of every run, whatever the pipeline and whatever is reported.

use crate::run::{
    fresh, is_external, run_from, step_spec, steps_left, wants_home, wired, Event, Phase, Plan,
    RunState,
};
use vstd::prelude::*;

verus! {

/// A finished run stays as it is, and asks for nothing more.
pub proof fn lemma_finished_stays(s: RunState, event: Event, home: Option<Seq<char>>)
    requires
        s.phase is Finished,
    ensures
        step_spec(s, event, home) == (s, Plan::Done),
{
}

/// Only the builtin `exit` makes a run ask to leave the shell, and the run is
/// finished with it, whatever stages follow on the line.
pub proof fn lemma_exit_finishes(s: RunState, event: Event, home: Option<Seq<char>>)
    requires
        step_spec(s, event, home).1 is Exit,
    ensures
        step_spec(s, event, home).0.phase is Finished,
        s.next < s.stages.len(),
        s.stages[s.next as int].len() > 0,
        s.stages[s.next as int][0] == "exit"@,
{
}

/// Stages are dispatched one by one from left to right: a step leaves the
/// stages as they are and dispatches the next one at most, and none where
/// none is left.
pub proof fn lemma_step_in_order(s: RunState, event: Event, home: Option<Seq<char>>)
    ensures
        step_spec(s, event, home).0.stages == s.stages,
        step_spec(s, event, home).0.next == s.next || (s.next < s.stages.len() && step_spec(
            s,
            event,
            home,
        ).0.next == s.next + 1),
{
}

/// The home directory bears on a step only where the stage to dispatch is
/// `cd` without an argument.
pub proof fn lemma_home_unused(
    s: RunState,
    event: Event,
    home: Option<Seq<char>>,
    other: Option<Seq<char>>,
)
    requires
        !wants_home(s),
    ensures
        step_spec(s, event, home) == step_spec(s, event, other),
{
}

/// Every step of a run that is not finished brings it nearer to its end: a
/// caller that keeps stepping reaches `Done` after at most `steps_left`
/// steps.
pub proof fn lemma_step_advances(s: RunState, event: Event, home: Option<Seq<char>>)
    requires
        !(s.phase is Finished),
    ensures
        steps_left(step_spec(s, event, home).0) < steps_left(s),
{
}

/// One action is handed out for each step.
pub proof fn lemma_run_from_len(s: RunState, inputs: Seq<(Event, Option<Seq<char>>)>)
    ensures
        run_from(s, inputs).1.len() == inputs.len(),
    decreases inputs.len(),
{
    if inputs.len() > 0 {
        lemma_run_from_len(s, inputs.drop_last());
    }
}

/// The action of step `k` is the one that `step_spec` gives in the state
/// reached by the steps before it.
pub proof fn lemma_run_from_step(s: RunState, inputs: Seq<(Event, Option<Seq<char>>)>, k: int)
    requires
        0 <= k < inputs.len(),
    ensures
        run_from(s, inputs).1.len() == inputs.len(),
        run_from(s, inputs).1[k] == step_spec(
            run_from(s, inputs.take(k)).0,
            inputs[k].0,
            inputs[k].1,
        ).1,
        run_from(s, inputs.take(k + 1)).0 == step_spec(
            run_from(s, inputs.take(k)).0,
            inputs[k].0,
            inputs[k].1,
        ).0,
    decreases inputs.len(),
{
    let before = inputs.drop_last();
    lemma_run_from_len(s, before);
    assert(inputs.take(k + 1).drop_last() =~= inputs.take(k));
    if k < inputs.len() - 1 {
        lemma_run_from_step(s, before, k);
        assert(before.take(k) =~= inputs.take(k));
    }
}

/// Each step taken brings `steps_left` down by one at least, until the run
/// is finished.
proof fn lemma_steps_left_falls(s: RunState, inputs: Seq<(Event, Option<Seq<char>>)>)
    ensures
        run_from(s, inputs).0.phase is Finished || steps_left(run_from(s, inputs).0)
            + inputs.len() <= steps_left(s),
    decreases inputs.len(),
{
    if inputs.len() > 0 {
        let before = run_from(s, inputs.drop_last()).0;
        lemma_steps_left_falls(s, inputs.drop_last());
        if !(before.phase is Finished) {
            lemma_step_advances(before, inputs.last().0, inputs.last().1);
        }
    }
}

/// Every run comes to its end: after `steps_left` steps, whatever was
/// reported with them, it is finished. A spawn that fails, or a stage that
/// names no program, does not keep a line from being done with.
pub proof fn lemma_run_finishes(s: RunState, inputs: Seq<(Event, Option<Seq<char>>)>)
    requires
        inputs.len() >= steps_left(s),
    ensures
        run_from(s, inputs).0.phase is Finished,
{
    lemma_steps_left_falls(s, inputs);
}

/// After `exit` nothing runs: once a run has asked to leave the shell, it is
/// finished, and every later step yields `Done`, whatever events are reported
/// and whatever stages stand behind `exit` on the line.
pub proof fn lemma_nothing_runs_after_exit(
    s: RunState,
    inputs: Seq<(Event, Option<Seq<char>>)>,
    i: int,
)
    requires
        0 <= i < inputs.len(),
        run_from(s, inputs).1[i] is Exit,
    ensures
        run_from(s, inputs).0.phase is Finished,
        forall|j: int| i < j < inputs.len() ==> #[trigger] run_from(s, inputs).1[j] is Done,
    decreases inputs.len(),
{
    let before = inputs.drop_last();
    lemma_run_from_len(s, before);
    if i < inputs.len() - 1 {
        // The run was finished before the last step, which so yields `Done`.
        lemma_nothing_runs_after_exit(s, before, i);
    }
}

/// While every stage is a program that starts, the run is under way with the
/// next spawn after each step.
proof fn lemma_spawning_prefix(
    stages: Seq<Seq<Seq<char>>>,
    inputs: Seq<(Event, Option<Seq<char>>)>,
    k: int,
)
    requires
        forall|j: int| 0 <= j < stages.len() ==> is_external(#[trigger] stages[j]),
        0 <= k <= stages.len(),
        k <= inputs.len(),
        forall|j: int| 0 < j < k ==> (#[trigger] inputs[j]).0 is Spawned,
    ensures
        run_from(fresh(stages), inputs.take(k)).0 == (RunState {
            stages,
            next: k as nat,
            phase: if k == 0 {
                Phase::Clear
            } else {
                Phase::Spawning
            },
        }),
    decreases k,
{
    if k > 0 {
        lemma_spawning_prefix(stages, inputs, k - 1);
        assert(inputs.take(k).drop_last() =~= inputs.take(k - 1));
    }
}

/// A pipeline of programs that all start is wired from end to end: the
/// stages are spawned in order, each as `wired` says, then the last one is
/// waited for, and then the line is done.
pub proof fn lemma_pipeline_wiring(
    stages: Seq<Seq<Seq<char>>>,
    inputs: Seq<(Event, Option<Seq<char>>)>,
)
    requires
        stages.len() > 0,
        forall|k: int| 0 <= k < stages.len() ==> is_external(#[trigger] stages[k]),
        inputs.len() == stages.len() + 2,
        forall|k: int| 0 < k <= stages.len() ==> (#[trigger] inputs[k]).0 is Spawned,
    ensures
        run_from(fresh(stages), inputs).1.len() == stages.len() + 2,
        forall|k: int|
            0 <= k < stages.len() ==> #[trigger] run_from(fresh(stages), inputs).1[k] == wired(
                stages,
                k,
            ),
        run_from(fresh(stages), inputs).1[stages.len() as int] is Wait,
        run_from(fresh(stages), inputs).1[stages.len() as int + 1] is Done,
        run_from(fresh(stages), inputs).0.phase is Finished,
{
    let s = fresh(stages);
    let n = stages.len() as int;
    assert forall|k: int| 0 <= k < n implies #[trigger] run_from(s, inputs).1[k] == wired(
        stages,
        k,
    ) by {
        lemma_spawning_prefix(stages, inputs, k);
        lemma_run_from_step(s, inputs, k);
    }
    // The last spawn is reported as started: the process is waited for, and
    // with the step after that the line is done.
    lemma_spawning_prefix(stages, inputs, n);
    lemma_run_from_step(s, inputs, n);
    lemma_run_from_step(s, inputs, n + 1);
    assert(inputs.take(n + 2) =~= inputs);
}

} // verus!
