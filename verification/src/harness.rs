//! The timing harness: it decides, sample by sample, whether a scenario is run
//! once more, is finished, or has failed.
//!
//! The harness does no work of its own. Its driver executes the call, measures
//! it, and hands the outcome's class, the time that the call took and the time
//! since the loop started to [`Harness::observe`]. Only the time that the calls
//! took enters the latency figures: whatever the driver does before the loop
//! starts (building an engine) is outside the timed window.

use vstd::prelude::*;

verus! {

/// What one execution produced.
#[derive(Clone, Debug, PartialEq, Eq)]
pub enum ExecutionOutcome {
    Success { output: Vec<u8> },
    Revert { output: Vec<u8> },
    Error { reason: String },
}

/// The class of an outcome, which is all that the harness looks at.
#[derive(Clone, Copy, Debug, PartialEq, Eq, Structural)]
pub enum OutcomeClass {
    Success,
    Revert,
    Error,
}

/// The class that a scenario expects of every execution.
#[derive(Clone, Copy, Debug, PartialEq, Eq, Structural)]
pub enum Expectation {
    Success,
    Revert,
}

/// When a run ends, fixed before it starts.
#[derive(Clone, Copy, Debug, PartialEq, Eq, Structural)]
pub enum StopRule {
    /// Run until at least this many nanoseconds have passed since the loop started.
    Duration { nanos: u64 },
    /// Run this many iterations.
    Count { iterations: u64 },
}

/// One timed execution: the class of its outcome, the nanoseconds it took, and
/// the nanoseconds between the start of the loop and its end.
#[derive(Clone, Copy, Debug, PartialEq, Eq, Structural)]
pub struct Sample {
    pub class: OutcomeClass,
    pub nanos: u64,
    pub since_start: u64,
}

/// What the driver does next.
#[derive(Clone, Copy, Debug, PartialEq, Eq, Structural)]
pub enum Decision {
    /// Execute the call once more and hand in the sample.
    Invoke,
    /// The budget is spent and every outcome was as expected.
    Finish,
    /// An outcome was not as expected: the run is invalid.
    Abort,
}

/// Why a run has no result.
#[derive(Clone, Copy, Debug, PartialEq, Eq, Structural)]
pub enum HarnessError {
    /// The outcome of the given iteration (counted from one) had the wrong class.
    Mismatch { iteration: u64, observed: OutcomeClass },
    /// The budget is not spent yet.
    Unfinished,
}

/// The statistics of a finished run.
#[derive(Debug)]
pub struct BenchmarkResult {
    pub label: String,
    pub samples: u64,
    /// The nanoseconds between the start of the loop and the end of its last
    /// execution.
    pub elapsed_nanos: u64,
    /// The nanoseconds that the executions took together.
    pub total_nanos: u128,
    /// Average latency in nanoseconds, rounded down; zero for a run without samples.
    pub mean_nanos: u128,
    /// Executions per second, rounded down; zero where no time was measured.
    pub per_second: u128,
}

/// Whether an outcome of class `class` is what `expect` asks for. An engine
/// error is never expected.
pub open spec fn accepts(expect: Expectation, class: OutcomeClass) -> bool {
    match expect {
        Expectation::Success => class == OutcomeClass::Success,
        Expectation::Revert => class == OutcomeClass::Revert,
    }
}

/// The nanoseconds of all samples of `trace` together.
pub open spec fn total_nanos(trace: Seq<Sample>) -> nat
    decreases trace.len(),
{
    if trace.len() == 0 {
        0
    } else {
        total_nanos(trace.drop_last()) + trace.last().nanos as nat
    }
}

/// The nanoseconds since the loop started, as of the last sample of `trace`.
pub open spec fn clock_of(trace: Seq<Sample>) -> nat {
    if trace.len() == 0 {
        0
    } else {
        trace.last().since_start as nat
    }
}

/// Whether a run under `stop` ends after `samples` samples, `elapsed`
/// nanoseconds after the loop started. A run also ends when the sample counter
/// is full.
pub open spec fn budget_spent(stop: StopRule, samples: nat, elapsed: nat) -> bool {
    samples >= u64::MAX || match stop {
        StopRule::Duration { nanos } => elapsed >= nanos,
        StopRule::Count { iterations } => samples >= iterations,
    }
}

/// The decision after `trace` has been observed.
pub open spec fn decision_after(expect: Expectation, stop: StopRule, trace: Seq<Sample>) -> Decision {
    if trace.len() > 0 && !accepts(expect, trace.last().class) {
        Decision::Abort
    } else if budget_spent(stop, trace.len(), clock_of(trace)) {
        Decision::Finish
    } else {
        Decision::Invoke
    }
}

/// Whether `trace` can be what a harness has observed: before each of its
/// samples the decision was to invoke.
pub open spec fn admissible(expect: Expectation, stop: StopRule, trace: Seq<Sample>) -> bool {
    forall|k: int|
        0 <= k < trace.len() ==> decision_after(expect, stop, #[trigger] trace.take(k))
            == Decision::Invoke
}

/// The average latency of `samples` samples that took `total` nanoseconds.
pub open spec fn mean_of(samples: nat, total: nat) -> nat {
    if samples == 0 {
        0
    } else {
        total / samples
    }
}

/// The executions per second of `samples` samples that took `total` nanoseconds.
pub open spec fn rate_of(samples: nat, total: nat) -> nat {
    if total == 0 {
        0
    } else {
        samples * 1_000_000_000 / total
    }
}

impl ExecutionOutcome {
    /// The class of the outcome.
    pub open spec fn class_spec(self) -> OutcomeClass {
        match self {
            ExecutionOutcome::Success { .. } => OutcomeClass::Success,
            ExecutionOutcome::Revert { .. } => OutcomeClass::Revert,
            ExecutionOutcome::Error { .. } => OutcomeClass::Error,
        }
    }

    /// The class of the outcome.
    pub fn class(&self) -> (c: OutcomeClass)
        ensures
            c == self.class_spec(),
    {
        match self {
            ExecutionOutcome::Success { .. } => OutcomeClass::Success,
            ExecutionOutcome::Revert { .. } => OutcomeClass::Revert,
            ExecutionOutcome::Error { .. } => OutcomeClass::Error,
        }
    }
}

impl Expectation {
    /// Whether an outcome of class `class` is as expected.
    pub fn admits(&self, class: OutcomeClass) -> (b: bool)
        ensures
            b == accepts(*self, class),
    {
        match self {
            Expectation::Success => class == OutcomeClass::Success,
            Expectation::Revert => class == OutcomeClass::Revert,
        }
    }
}

impl StopRule {
    /// A duration budget of `millis` milliseconds; one too long to count in
    /// nanoseconds becomes the longest there is.
    pub fn from_millis(millis: u64) -> (rule: StopRule)
        ensures
            rule == (StopRule::Duration {
                nanos: if millis * 1_000_000 <= u64::MAX {
                    (millis * 1_000_000) as u64
                } else {
                    u64::MAX
                },
            }),
    {
        if millis <= u64::MAX / 1_000_000 {
            StopRule::Duration { nanos: millis * 1_000_000 }
        } else {
            StopRule::Duration { nanos: u64::MAX }
        }
    }

    /// Whether the budget is spent after `samples` samples, `elapsed` nanoseconds
    /// after the loop started.
    pub fn spent(&self, samples: u64, elapsed: u64) -> (b: bool)
        ensures
            b == budget_spent(*self, samples as nat, elapsed as nat),
    {
        if samples == u64::MAX {
            return true;
        }
        match self {
            StopRule::Duration { nanos } => elapsed >= *nanos,
            StopRule::Count { iterations } => samples >= *iterations,
        }
    }
}

impl BenchmarkResult {
    /// The derived figures are those of the sample count and the total.
    pub open spec fn consistent(self) -> bool {
        &&& self.mean_nanos == mean_of(self.samples as nat, self.total_nanos as nat)
        &&& self.per_second == rate_of(self.samples as nat, self.total_nanos as nat)
    }

    /// The result of a run of `samples` samples that took `total_nanos` together
    /// and ended `elapsed_nanos` after the loop started.
    pub fn summarize(label: String, samples: u64, elapsed_nanos: u64, total_nanos: u128) -> (r:
        BenchmarkResult)
        ensures
            r.label == label,
            r.samples == samples,
            r.elapsed_nanos == elapsed_nanos,
            r.total_nanos == total_nanos,
            r.consistent(),
    {
        let mean_nanos: u128 = if samples == 0 {
            0
        } else {
            total_nanos / (samples as u128)
        };
        let per_second: u128 = if total_nanos == 0 {
            0
        } else {
            (samples as u128) * 1_000_000_000u128 / total_nanos
        };
        BenchmarkResult { label, samples, elapsed_nanos, total_nanos, mean_nanos, per_second }
    }
}

/// The state of one run of one scenario.
pub struct Harness {
    label: String,
    expect: Expectation,
    stop: StopRule,
    samples: u64,
    total: u128,
    last: Option<Sample>,
    trace: Ghost<Seq<Sample>>,
}

impl Harness {
    /// Every sample observed so far, oldest first.
    pub closed spec fn trace(&self) -> Seq<Sample> {
        self.trace@
    }

    /// The label of the scenario.
    pub closed spec fn label(&self) -> String {
        self.label
    }

    /// The class that the scenario expects of every outcome.
    pub closed spec fn expect(&self) -> Expectation {
        self.expect
    }

    /// The budget of the run.
    pub closed spec fn stop(&self) -> StopRule {
        self.stop
    }

    /// The counters agree with the trace, and the trace is admissible.
    pub closed spec fn wf(&self) -> bool {
        &&& self.samples as nat == self.trace@.len()
        &&& self.total as nat == total_nanos(self.trace@)
        &&& self.total <= self.samples as nat * (u64::MAX as nat)
        &&& self.last == (if self.trace@.len() == 0 {
            None
        } else {
            Some(self.trace@.last())
        })
        &&& admissible(self.expect, self.stop, self.trace@)
    }

    /// The decision in this state.
    pub open spec fn decision(&self) -> Decision {
        decision_after(self.expect(), self.stop(), self.trace())
    }

    /// A harness that has observed nothing.
    pub fn new(label: String, expect: Expectation, stop: StopRule) -> (h: Harness)
        ensures
            h.wf(),
            h.trace() == Seq::<Sample>::empty(),
            h.label() == label,
            h.expect() == expect,
            h.stop() == stop,
    {
        Harness { label, expect, stop, samples: 0, total: 0, last: None, trace: Ghost(Seq::empty()) }
    }

    /// The number of samples observed.
    pub fn samples(&self) -> (n: u64)
        requires
            self.wf(),
        ensures
            n as nat == self.trace().len(),
    {
        self.samples
    }

    /// The nanoseconds that the observed executions took together.
    pub fn total_nanos(&self) -> (t: u128)
        requires
            self.wf(),
        ensures
            t as nat == total_nanos(self.trace()),
    {
        self.total
    }

    /// The nanoseconds since the loop started, as of the last sample.
    pub fn elapsed_nanos(&self) -> (t: u64)
        requires
            self.wf(),
        ensures
            t as nat == clock_of(self.trace()),
    {
        match self.last {
            Some(s) => s.since_start,
            None => 0,
        }
    }

    /// What the driver does next.
    pub fn decide(&self) -> (d: Decision)
        requires
            self.wf(),
        ensures
            d == self.decision(),
    {
        match self.last {
            Some(s) => {
                if !self.expect.admits(s.class) {
                    return Decision::Abort;
                }
            },
            None => {},
        }
        if self.stop.spent(self.samples, self.elapsed_nanos()) {
            Decision::Finish
        } else {
            Decision::Invoke
        }
    }

    /// Takes in one sample. While the decision is to invoke, the sample joins the
    /// trace; after a finish or an abort it is ignored. Returns the new decision.
    pub fn observe(&mut self, class: OutcomeClass, nanos: u64, since_start: u64) -> (d: Decision)
        requires
            old(self).wf(),
        ensures
            final(self).wf(),
            final(self).label() == old(self).label(),
            final(self).expect() == old(self).expect(),
            final(self).stop() == old(self).stop(),
            final(self).trace() == if old(self).decision() == Decision::Invoke {
                old(self).trace().push(Sample { class, nanos, since_start })
            } else {
                old(self).trace()
            },
            d == final(self).decision(),
            !accepts(old(self).expect(), class) && old(self).decision() == Decision::Invoke ==> d
                == Decision::Abort,
    {
        let before = self.decide();
        if before != Decision::Invoke {
            return before;
        }
        let sample = Sample { class, nanos, since_start };
        let ghost prior = self.trace@;
        let ghost next = prior.push(sample);
        proof {
            assert(next.drop_last() =~= prior);
            assert(next.take(prior.len() as int) =~= prior);
            assert forall|k: int| 0 <= k < next.len() implies decision_after(
                self.expect,
                self.stop,
                #[trigger] next.take(k),
            ) == Decision::Invoke by {
                if k < prior.len() {
                    assert(next.take(k) =~= prior.take(k));
                }
            }
        }
        self.samples = self.samples + 1;
        self.total = self.total + nanos as u128;
        self.last = Some(sample);
        self.trace = Ghost(next);
        self.decide()
    }

    /// Ends the run: the statistics where the run is finished, else the reason
    /// why there are none.
    pub fn report(self) -> (r: Result<BenchmarkResult, HarnessError>)
        requires
            self.wf(),
        ensures
            match r {
                Ok(b) => {
                    &&& self.decision() == Decision::Finish
                    &&& b.label == self.label()
                    &&& b.samples as nat == self.trace().len()
                    &&& b.elapsed_nanos as nat == clock_of(self.trace())
                    &&& b.total_nanos as nat == total_nanos(self.trace())
                    &&& b.consistent()
                },
                Err(HarnessError::Mismatch { iteration, observed }) => {
                    &&& self.decision() == Decision::Abort
                    &&& iteration as nat == self.trace().len()
                    &&& observed == self.trace().last().class
                },
                Err(HarnessError::Unfinished) => self.decision() == Decision::Invoke,
            },
    {
        match self.decide() {
            Decision::Invoke => Err(HarnessError::Unfinished),
            Decision::Finish => {
                let elapsed = self.elapsed_nanos();
                Ok(BenchmarkResult::summarize(self.label, self.samples, elapsed, self.total))
            },
            Decision::Abort => {
                match self.last {
                    Some(s) => Err(HarnessError::Mismatch { iteration: self.samples, observed: s.class }),
                    None => Err(HarnessError::Unfinished),
                }
            },
        }
    }
}

impl Harness {
    /// What a harness has observed is an admissible trace.
    pub proof fn lemma_trace_admissible(self)
        requires
            self.wf(),
        ensures
            admissible(self.expect(), self.stop(), self.trace()),
    {
    }
}

/// One outcome of the wrong class ends the run at once: it is the last sample
/// of the trace, and the decision is to abort, so that no result is reported.
pub proof fn law_mismatch_is_fatal(expect: Expectation, stop: StopRule, trace: Seq<Sample>, i: int)
    requires
        admissible(expect, stop, trace),
        0 <= i < trace.len(),
        !accepts(expect, trace[i].class),
    ensures
        i == trace.len() - 1,
        decision_after(expect, stop, trace) == Decision::Abort,
{
    if i < trace.len() - 1 {
        let prefix = trace.take(i + 1);
        assert(prefix.last() == trace[i]);
        assert(decision_after(expect, stop, prefix) == Decision::Abort);
    }
}

/// A run finishes only if every outcome had the expected class.
pub proof fn law_finish_means_all_accepted(expect: Expectation, stop: StopRule, trace: Seq<Sample>)
    requires
        admissible(expect, stop, trace),
        decision_after(expect, stop, trace) == Decision::Finish,
    ensures
        forall|i: int| 0 <= i < trace.len() ==> accepts(expect, #[trigger] trace[i].class),
{
    assert forall|i: int| 0 <= i < trace.len() implies accepts(expect, #[trigger] trace[i].class) by {
        if !accepts(expect, trace[i].class) {
            law_mismatch_is_fatal(expect, stop, trace, i);
        }
    }
}

/// With an engine that gives the same class every time, whether the run is
/// aborted depends on that class alone, not on how many samples were taken.
pub proof fn law_verdict_ignores_count(
    expect: Expectation,
    stop: StopRule,
    first: Seq<Sample>,
    second: Seq<Sample>,
    class: OutcomeClass,
)
    requires
        first.len() > 0,
        second.len() > 0,
        forall|i: int| 0 <= i < first.len() ==> (#[trigger] first[i]).class == class,
        forall|i: int| 0 <= i < second.len() ==> (#[trigger] second[i]).class == class,
    ensures
        (decision_after(expect, stop, first) == Decision::Abort) == !accepts(expect, class),
        (decision_after(expect, stop, first) == Decision::Abort) == (decision_after(
            expect,
            stop,
            second,
        ) == Decision::Abort),
{
    assert(first.last().class == first[first.len() - 1].class);
    assert(second.last().class == second[second.len() - 1].class);
}

/// The time since the loop started, as of the sample before the last of
/// `trace`: the moment at which the last execution was decided on.
pub open spec fn clock_before_last(trace: Seq<Sample>) -> nat {
    if trace.len() <= 1 {
        0
    } else {
        trace[trace.len() - 2].since_start as nat
    }
}

/// A run on a duration budget does not finish before the budget has passed
/// since the loop started, and when its last execution was decided on the
/// budget had not passed yet: it overruns by less than what that one
/// execution took.
pub proof fn law_duration_bound(expect: Expectation, nanos: u64, trace: Seq<Sample>)
    requires
        admissible(expect, StopRule::Duration { nanos }, trace),
        decision_after(expect, StopRule::Duration { nanos }, trace) == Decision::Finish,
        trace.len() < u64::MAX,
    ensures
        clock_of(trace) >= nanos,
        trace.len() > 0 ==> clock_before_last(trace) < nanos,
        forall|k: int| 0 <= k < trace.len() - 1 ==> (#[trigger] trace[k]).since_start < nanos,
{
    if trace.len() > 0 {
        let prefix = trace.take(trace.len() - 1);
        assert(decision_after(expect, StopRule::Duration { nanos }, prefix) == Decision::Invoke);
        if trace.len() > 1 {
            assert(prefix.last() == trace[trace.len() - 2]);
        }
    }
    assert forall|k: int| 0 <= k < trace.len() - 1 implies (#[trigger] trace[k]).since_start
        < nanos by {
        let prefix = trace.take(k + 1);
        assert(prefix.last() == trace[k]);
        assert(decision_after(expect, StopRule::Duration { nanos }, prefix) == Decision::Invoke);
    }
}

/// A run on a duration budget goes on while less than the budget has passed
/// since the loop started, every outcome was as expected and the counter is
/// not full.
pub proof fn law_runs_until_budget(expect: Expectation, nanos: u64, trace: Seq<Sample>)
    requires
        trace.len() > 0 ==> accepts(expect, trace.last().class),
        clock_of(trace) < nanos,
        trace.len() < u64::MAX,
    ensures
        decision_after(expect, StopRule::Duration { nanos }, trace) == Decision::Invoke,
{
}

/// What a run observes is fixed by the outcomes and the times of its calls,
/// counted from the start of the loop: of the samples that the calls would
/// give one after the other, a run takes in one number only before it stops.
/// Two runs that are fed the same samples therefore report the same iteration
/// count, the same elapsed time and the same latency. What happened before
/// the loop started is no input of either.
pub proof fn law_run_is_determined(
    expect: Expectation,
    stop: StopRule,
    samples: Seq<Sample>,
    first: int,
    second: int,
)
    requires
        0 <= first <= samples.len(),
        0 <= second <= samples.len(),
        admissible(expect, stop, samples.take(first)),
        admissible(expect, stop, samples.take(second)),
        decision_after(expect, stop, samples.take(first)) != Decision::Invoke,
        decision_after(expect, stop, samples.take(second)) != Decision::Invoke,
    ensures
        first == second,
        samples.take(first) == samples.take(second),
        clock_of(samples.take(first)) == clock_of(samples.take(second)),
        total_nanos(samples.take(first)) == total_nanos(samples.take(second)),
        mean_of(first as nat, total_nanos(samples.take(first))) == mean_of(
            second as nat,
            total_nanos(samples.take(second)),
        ),
{
    if first < second {
        assert(samples.take(second).take(first) =~= samples.take(first));
    }
    if second < first {
        assert(samples.take(first).take(second) =~= samples.take(second));
    }
}

/// The latency figures of a result come from the time that the executions
/// took and from nothing else: two finished runs whose executions took the
/// same time each report the same average latency and rate, however long ago
/// their loops started.
pub proof fn law_latency_ignores_the_clock(
    first: Seq<Sample>,
    second: Seq<Sample>,
)
    requires
        first.len() == second.len(),
        forall|i: int| 0 <= i < first.len() ==> (#[trigger] first[i]).nanos == second[i].nanos,
    ensures
        total_nanos(first) == total_nanos(second),
        mean_of(first.len(), total_nanos(first)) == mean_of(second.len(), total_nanos(second)),
        rate_of(first.len(), total_nanos(first)) == rate_of(second.len(), total_nanos(second)),
    decreases first.len(),
{
    if first.len() > 0 {
        assert(first.last().nanos == first[first.len() - 1].nanos);
        assert forall|i: int| 0 <= i < first.drop_last().len() implies (#[trigger] first.drop_last()[i]).nanos
            == second.drop_last()[i].nanos by {
            assert(first.drop_last()[i] == first[i]);
            assert(second.drop_last()[i] == second[i]);
        }
        law_latency_ignores_the_clock(first.drop_last(), second.drop_last());
    }
}

/// Whether the timed window of `samples` holds nothing but the calls: each
/// reading of the loop's clock is the time that the calls up to it took.
pub open spec fn gapless(samples: Seq<Sample>) -> bool {
    forall|i: int|
        0 <= i < samples.len() ==> (#[trigger] samples[i]).since_start as nat == total_nanos(
            samples.take(i + 1),
        )
}

/// Setup is outside the timed window. Take two runs whose calls give the same
/// outcomes and take the same time, one call after the other, and whose
/// windows hold nothing but the calls. Whatever each did before its loop
/// started, they stop after the same number of calls and report the same
/// elapsed time, total and average latency.
pub proof fn law_setup_is_excluded(
    expect: Expectation,
    stop: StopRule,
    one: Seq<Sample>,
    other: Seq<Sample>,
    first: int,
    second: int,
)
    requires
        one.len() == other.len(),
        forall|i: int|
            0 <= i < one.len() ==> (#[trigger] one[i]).class == other[i].class && one[i].nanos
                == other[i].nanos,
        gapless(one),
        gapless(other),
        0 <= first <= one.len(),
        0 <= second <= other.len(),
        admissible(expect, stop, one.take(first)),
        admissible(expect, stop, other.take(second)),
        decision_after(expect, stop, one.take(first)) != Decision::Invoke,
        decision_after(expect, stop, other.take(second)) != Decision::Invoke,
    ensures
        first == second,
        clock_of(one.take(first)) == clock_of(other.take(second)),
        total_nanos(one.take(first)) == total_nanos(other.take(second)),
        mean_of(first as nat, total_nanos(one.take(first))) == mean_of(
            second as nat,
            total_nanos(other.take(second)),
        ),
{
    assert forall|i: int| 0 <= i < one.len() implies one[i] == other[i] by {
        let a = one.take(i + 1);
        let b = other.take(i + 1);
        assert forall|k: int| 0 <= k < a.len() implies (#[trigger] a[k]).nanos == b[k].nanos by {
            assert(a[k] == one[k]);
            assert(b[k] == other[k]);
        }
        law_latency_ignores_the_clock(a, b);
        assert(one[i].since_start as nat == total_nanos(a));
        assert(other[i].since_start as nat == total_nanos(b));
    }
    assert(one =~= other);
    law_run_is_determined(expect, stop, one, first, second);
}

/// A run on an iteration budget that finishes has taken exactly that many
/// samples.
pub proof fn law_count_bound(expect: Expectation, iterations: u64, trace: Seq<Sample>)
    requires
        admissible(expect, StopRule::Count { iterations }, trace),
        decision_after(expect, StopRule::Count { iterations }, trace) == Decision::Finish,
    ensures
        trace.len() == iterations,
{
    if trace.len() > 0 {
        let prefix = trace.take(trace.len() - 1);
        assert(decision_after(expect, StopRule::Count { iterations }, prefix) == Decision::Invoke);
    }
}

} // verus!
