use evm_bench::driver::{run, Engine};
use evm_bench::harness::{ExecutionOutcome, Expectation, OutcomeClass, StopRule};
use evm_bench::scenario::TransactionDescriptor;
use evm_bench::state::Address;
use evm_bench::word::Word256;

/// An engine that answers from a script: the class of the call with the given
/// number (from one) is `odd_one`, that of every other call is `usual`.
struct Scripted {
    calls: u64,
    usual: OutcomeClass,
    odd_at: u64,
    odd_one: OutcomeClass,
}

fn outcome_of(class: OutcomeClass) -> ExecutionOutcome {
    match class {
        OutcomeClass::Success => ExecutionOutcome::Success { output: vec![1] },
        OutcomeClass::Revert => ExecutionOutcome::Revert { output: vec![] },
        OutcomeClass::Error => ExecutionOutcome::Error { reason: String::from("halt") },
    }
}

impl Engine for Scripted {
    fn execute(&mut self, _transaction: &TransactionDescriptor) -> ExecutionOutcome {
        self.calls += 1;
        if self.calls == self.odd_at {
            outcome_of(self.odd_one)
        } else {
            outcome_of(self.usual)
        }
    }
}

fn steady(class: OutcomeClass) -> Scripted {
    Scripted { calls: 0, usual: class, odd_at: 0, odd_one: class }
}

fn transaction() -> TransactionDescriptor {
    TransactionDescriptor {
        sender: Address { bytes: [0xf0; 20] },
        recipient: Some(Address { bytes: [0; 20] }),
        data: vec![2, 6, 0x7e, 0x6a],
        value: Word256::zero(),
        gas_price: 0,
        gas_limit: None,
    }
}

#[test]
fn run_counts_iterations() {
    let mut engine = steady(OutcomeClass::Success);
    let r = run(
        &mut engine,
        &transaction(),
        String::from("count"),
        Expectation::Success,
        StopRule::Count { iterations: 25 },
    )
    .unwrap();
    assert_eq!(engine.calls, 25);
    assert_eq!(r.label, "count");
    assert_eq!(r.samples, 25);
    assert_eq!(r.mean_nanos, r.total_nanos / 25);
    if r.total_nanos > 0 {
        assert_eq!(r.per_second, 25 * 1_000_000_000 / r.total_nanos);
    } else {
        assert_eq!(r.per_second, 0);
    }
}

#[test]
fn run_expecting_revert() {
    let mut engine = steady(OutcomeClass::Revert);
    let r = run(
        &mut engine,
        &transaction(),
        String::from("revert"),
        Expectation::Revert,
        StopRule::Count { iterations: 4 },
    )
    .unwrap();
    assert_eq!(r.samples, 4);
    assert_eq!(engine.calls, 4);
}

#[test]
fn run_for_a_duration_reaches_the_budget() {
    let mut engine = steady(OutcomeClass::Success);
    let r = run(
        &mut engine,
        &transaction(),
        String::from("duration"),
        Expectation::Success,
        StopRule::from_millis(2),
    )
    .unwrap();
    assert!(r.samples > 0);
    assert_eq!(r.samples, engine.calls);
    assert!(r.elapsed_nanos >= 2_000_000);
    assert!(r.total_nanos <= r.elapsed_nanos as u128);
    assert_eq!(r.mean_nanos, r.total_nanos / r.samples as u128);
}

#[test]
fn run_aborts_on_the_first_bad_outcome() {
    let mut engine =
        Scripted { calls: 0, usual: OutcomeClass::Success, odd_at: 3, odd_one: OutcomeClass::Revert };
    let r = run(
        &mut engine,
        &transaction(),
        String::from("bad"),
        Expectation::Success,
        StopRule::Count { iterations: 10 },
    );
    let failure = r.err().unwrap();
    assert_eq!(failure.iteration, 3);
    assert_eq!(failure.outcome, ExecutionOutcome::Revert { output: vec![] });
    assert_eq!(engine.calls, 3);
}

#[test]
fn run_aborts_on_an_engine_error() {
    let mut engine = steady(OutcomeClass::Error);
    let r = run(
        &mut engine,
        &transaction(),
        String::from("error"),
        Expectation::Revert,
        StopRule::from_millis(5000),
    );
    let failure = r.err().unwrap();
    assert_eq!(failure.iteration, 1);
    assert_eq!(failure.outcome, ExecutionOutcome::Error { reason: String::from("halt") });
    assert_eq!(engine.calls, 1);
}

#[test]
fn run_with_an_empty_budget_never_calls_the_engine() {
    let mut engine = steady(OutcomeClass::Success);
    let r = run(
        &mut engine,
        &transaction(),
        String::from("none"),
        Expectation::Success,
        StopRule::Count { iterations: 0 },
    )
    .unwrap();
    assert_eq!(engine.calls, 0);
    assert_eq!(r.samples, 0);
    assert_eq!(r.elapsed_nanos, 0);
    assert_eq!(r.total_nanos, 0);
}

#[test]
fn run_gives_the_same_verdict_whatever_the_count() {
    for n in [1u64, 3, 40] {
        let mut good = steady(OutcomeClass::Success);
        let mut bad = steady(OutcomeClass::Revert);
        let stop = StopRule::Count { iterations: n };
        assert!(run(&mut good, &transaction(), String::from("g"), Expectation::Success, stop).is_ok());
        assert!(run(&mut bad, &transaction(), String::from("b"), Expectation::Success, stop).is_err());
    }
}
