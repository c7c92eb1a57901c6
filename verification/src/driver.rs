//! The timed loop: it executes a scenario's call through an engine until the
//! harness says that the run is finished or has failed.

use crate::harness::{
    accepts, admissible, budget_spent, clock_of, decision_after, total_nanos, BenchmarkResult,
    Decision, ExecutionOutcome, Expectation, Harness, OutcomeClass, Sample, StopRule,
};
use crate::scenario::TransactionDescriptor;
use vstd::prelude::*;

verus! {

/// An execution engine that holds the state of a scenario. Building it is the
/// caller's work and is done before the run, so that it is never timed.
pub trait Engine {
    /// Executes the call once against the state that the engine holds.
    fn execute(&mut self, transaction: &TransactionDescriptor) -> ExecutionOutcome;
}

/// The stopwatch of `microbench`, of which nothing is known here.
#[verifier::external_type_specification]
#[verifier::external_body]
pub struct ExStopwatch(microbench::time::Stopwatch);

/// `microbench::time::Stopwatch::default`: a stopwatch started now. Nothing is
/// claimed of it.
#[verifier::external_body]
fn stopwatch_start() -> microbench::time::Stopwatch {
    microbench::time::Stopwatch::default()
}

/// `microbench::time::Stopwatch::elapsed`: the nanoseconds since the stopwatch
/// was started. Nothing is claimed of the number.
#[verifier::external_body]
fn stopwatch_elapsed(watch: microbench::time::Stopwatch) -> u64 {
    watch.elapsed().0
}

/// Whether `result` is the result of the finished run that observed `trace`.
pub open spec fn finished_with(
    expect: Expectation,
    stop: StopRule,
    trace: Seq<Sample>,
    result: BenchmarkResult,
) -> bool {
    &&& admissible(expect, stop, trace)
    &&& decision_after(expect, stop, trace) == Decision::Finish
    &&& result.samples as nat == trace.len()
    &&& result.elapsed_nanos as nat == clock_of(trace)
    &&& result.total_nanos as nat == total_nanos(trace)
}

/// Whether a run that observed `trace` was aborted at its last sample.
pub open spec fn aborted_with(
    expect: Expectation,
    stop: StopRule,
    trace: Seq<Sample>,
    iteration: u64,
    observed: OutcomeClass,
) -> bool {
    &&& admissible(expect, stop, trace)
    &&& trace.len() > 0
    &&& iteration as nat == trace.len()
    &&& observed == trace.last().class
    &&& !accepts(expect, observed)
}

/// Why a run was aborted: the outcome that the scenario does not expect, as the
/// engine returned it, and the number of its iteration, counted from one.
#[derive(Debug)]
pub struct RunFailure {
    pub iteration: u64,
    pub outcome: ExecutionOutcome,
}

/// Runs the call through `engine` again and again, timing each execution,
/// until the budget of `stop` is spent or an outcome is not what `expect` asks
/// for; that outcome is then handed back. The clock of the loop starts when
/// this function is entered. What the engine returns and how long it takes is
/// not known beforehand: the result is that of some trace which the harness
/// admits.
pub fn run<E: Engine>(
    engine: &mut E,
    transaction: &TransactionDescriptor,
    label: String,
    expect: Expectation,
    stop: StopRule,
) -> (r: Result<BenchmarkResult, RunFailure>)
    ensures
        match r {
            Ok(b) => {
                &&& b.label == label
                &&& b.consistent()
                &&& budget_spent(stop, b.samples as nat, b.elapsed_nanos as nat)
                &&& exists|trace: Seq<Sample>| finished_with(expect, stop, trace, b)
            },
            Err(f) => exists|trace: Seq<Sample>| #[trigger]
                aborted_with(expect, stop, trace, f.iteration, f.outcome.class_spec()),
        },
{
    let mut harness = Harness::new(label, expect, stop);
    let mut decision = harness.decide();
    let clock = stopwatch_start();
    while decision == Decision::Invoke
        invariant
            harness.wf(),
            decision == harness.decision(),
            decision != Decision::Abort,
            harness.label() == label,
            harness.expect() == expect,
            harness.stop() == stop,
        decreases u64::MAX - harness.trace().len(),
    {
        let watch = stopwatch_start();
        let outcome = engine.execute(transaction);
        let nanos = stopwatch_elapsed(watch);
        let since_start = stopwatch_elapsed(clock);
        decision = harness.observe(outcome.class(), nanos, since_start);
        if decision == Decision::Abort {
            let iteration = harness.samples();
            let failure = RunFailure { iteration, outcome };
            proof {
                harness.lemma_trace_admissible();
                assert(aborted_with(
                    expect,
                    stop,
                    harness.trace(),
                    failure.iteration,
                    failure.outcome.class_spec(),
                ));
            }
            return Err(failure);
        }
    }
    proof {
        harness.lemma_trace_admissible();
    }
    let ghost trace = harness.trace();
    match harness.report() {
        Ok(result) => {
            proof {
                assert(finished_with(expect, stop, trace, result));
            }
            Ok(result)
        },
        Err(_) => vstd::pervasive::unreached(),
    }
}

} // verus!
