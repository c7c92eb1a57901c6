use evm_bench::harness::{
    BenchmarkResult, Decision, ExecutionOutcome, Expectation, Harness, HarnessError, OutcomeClass,
    StopRule,
};

#[test]
fn outcome_classes() {
    let s = ExecutionOutcome::Success { output: vec![1] };
    let r = ExecutionOutcome::Revert { output: vec![] };
    let e = ExecutionOutcome::Error { reason: String::from("out of gas") };
    assert_eq!(s.class(), OutcomeClass::Success);
    assert_eq!(r.class(), OutcomeClass::Revert);
    assert_eq!(e.class(), OutcomeClass::Error);
}

#[test]
fn expectation_admits_only_its_own_class() {
    assert!(Expectation::Success.admits(OutcomeClass::Success));
    assert!(!Expectation::Success.admits(OutcomeClass::Revert));
    assert!(!Expectation::Success.admits(OutcomeClass::Error));
    assert!(Expectation::Revert.admits(OutcomeClass::Revert));
    assert!(!Expectation::Revert.admits(OutcomeClass::Success));
    assert!(!Expectation::Revert.admits(OutcomeClass::Error));
}

#[test]
fn from_millis_counts_nanoseconds() {
    assert_eq!(StopRule::from_millis(5000), StopRule::Duration { nanos: 5_000_000_000 });
    assert_eq!(StopRule::from_millis(0), StopRule::Duration { nanos: 0 });
    assert_eq!(
        StopRule::from_millis(u64::MAX / 1_000_000),
        StopRule::Duration { nanos: (u64::MAX / 1_000_000) * 1_000_000 }
    );
    assert_eq!(
        StopRule::from_millis(u64::MAX / 1_000_000 + 1),
        StopRule::Duration { nanos: u64::MAX }
    );
    assert_eq!(StopRule::from_millis(u64::MAX), StopRule::Duration { nanos: u64::MAX });
}

#[test]
fn stop_rule_spent() {
    let d = StopRule::Duration { nanos: 100 };
    assert!(!d.spent(5, 99));
    assert!(d.spent(5, 100));
    assert!(d.spent(0, 101));
    let c = StopRule::Count { iterations: 3 };
    assert!(!c.spent(2, 1_000_000));
    assert!(c.spent(3, 0));
    assert!(d.spent(u64::MAX, 0));
    assert!(StopRule::Count { iterations: u64::MAX }.spent(u64::MAX, 0));
}

#[test]
fn summarize_formulas() {
    let r: BenchmarkResult = BenchmarkResult::summarize(String::from("s"), 3, 750, 600);
    assert_eq!(r.label, "s");
    assert_eq!(r.samples, 3);
    assert_eq!(r.elapsed_nanos, 750);
    assert_eq!(r.total_nanos, 600);
    assert_eq!(r.mean_nanos, 200);
    assert_eq!(r.per_second, 5_000_000);
    let rounded = BenchmarkResult::summarize(String::from("r"), 3, 1000, 1000);
    assert_eq!(rounded.mean_nanos, 333);
    assert_eq!(rounded.per_second, 3_000_000);
    let empty = BenchmarkResult::summarize(String::from("e"), 0, 0, 0);
    assert_eq!(empty.mean_nanos, 0);
    assert_eq!(empty.per_second, 0);
    let timeless = BenchmarkResult::summarize(String::from("t"), 4, 9, 0);
    assert_eq!(timeless.mean_nanos, 0);
    assert_eq!(timeless.per_second, 0);
}

#[test]
fn count_budget_runs_exactly_that_often() {
    let mut h = Harness::new(
        String::from("three"),
        Expectation::Success,
        StopRule::Count { iterations: 3 },
    );
    assert_eq!(h.decide(), Decision::Invoke);
    assert_eq!(h.observe(OutcomeClass::Success, 100, 110), Decision::Invoke);
    assert_eq!(h.observe(OutcomeClass::Success, 200, 320), Decision::Invoke);
    assert_eq!(h.observe(OutcomeClass::Success, 300, 630), Decision::Finish);
    assert_eq!(h.samples(), 3);
    assert_eq!(h.total_nanos(), 600);
    assert_eq!(h.elapsed_nanos(), 630);
    let r = h.report().unwrap();
    assert_eq!(r.label, "three");
    assert_eq!(r.samples, 3);
    assert_eq!(r.elapsed_nanos, 630);
    assert_eq!(r.total_nanos, 600);
    assert_eq!(r.mean_nanos, 200);
    assert_eq!(r.per_second, 5_000_000);
}

#[test]
fn duration_budget_overruns_by_less_than_one_iteration() {
    let mut h = Harness::new(
        String::from("d"),
        Expectation::Success,
        StopRule::Duration { nanos: 1000 },
    );
    assert_eq!(h.observe(OutcomeClass::Success, 400, 450), Decision::Invoke);
    assert_eq!(h.observe(OutcomeClass::Success, 400, 900), Decision::Invoke);
    assert_eq!(h.elapsed_nanos(), 900);
    assert_eq!(h.observe(OutcomeClass::Success, 400, 1350), Decision::Finish);
    assert_eq!(h.elapsed_nanos(), 1350);
    assert_eq!(h.total_nanos(), 1200);
    assert!(h.elapsed_nanos() >= 1000);
    assert!(h.elapsed_nanos() - 450 < 1000);
    let r = h.report().unwrap();
    assert_eq!(r.samples, 3);
    assert_eq!(r.elapsed_nanos, 1350);
    assert_eq!(r.total_nanos, 1200);
    assert_eq!(r.mean_nanos, 400);
}

#[test]
fn duration_budget_goes_by_the_clock_not_by_the_samples() {
    let mut h = Harness::new(
        String::from("d"),
        Expectation::Success,
        StopRule::Duration { nanos: 1000 },
    );
    assert_eq!(h.observe(OutcomeClass::Success, 2000, 999), Decision::Invoke);
    assert_eq!(h.observe(OutcomeClass::Success, 1, 1000), Decision::Finish);
}

#[test]
fn duration_budget_met_exactly() {
    let mut h = Harness::new(
        String::from("d"),
        Expectation::Revert,
        StopRule::Duration { nanos: 500 },
    );
    assert_eq!(h.observe(OutcomeClass::Revert, 499, 499), Decision::Invoke);
    assert_eq!(h.observe(OutcomeClass::Revert, 1, 500), Decision::Finish);
}

#[test]
fn one_bad_outcome_aborts_the_run() {
    let mut h = Harness::new(
        String::from("bad"),
        Expectation::Success,
        StopRule::Count { iterations: 10 },
    );
    assert_eq!(h.observe(OutcomeClass::Success, 10, 10), Decision::Invoke);
    assert_eq!(h.observe(OutcomeClass::Revert, 10, 20), Decision::Abort);
    assert_eq!(h.decide(), Decision::Abort);
    assert_eq!(h.observe(OutcomeClass::Success, 10, 30), Decision::Abort);
    assert_eq!(h.samples(), 2);
    assert_eq!(h.total_nanos(), 20);
    assert_eq!(h.elapsed_nanos(), 20);
    match h.report() {
        Err(e) => assert_eq!(e, HarnessError::Mismatch { iteration: 2, observed: OutcomeClass::Revert }),
        Ok(_) => panic!("an aborted run has no result"),
    }
}

#[test]
fn bad_outcome_on_the_last_iteration_still_aborts() {
    let mut h = Harness::new(
        String::from("bad"),
        Expectation::Revert,
        StopRule::Count { iterations: 1 },
    );
    assert_eq!(h.observe(OutcomeClass::Success, 10, 10), Decision::Abort);
    assert!(matches!(
        h.report(),
        Err(HarnessError::Mismatch { iteration: 1, observed: OutcomeClass::Success })
    ));
}

#[test]
fn bad_outcome_after_the_budget_still_aborts() {
    let mut h = Harness::new(
        String::from("bad"),
        Expectation::Success,
        StopRule::Duration { nanos: 5 },
    );
    assert_eq!(h.observe(OutcomeClass::Error, 10, 10), Decision::Abort);
    assert!(h.report().is_err());
}

#[test]
fn engine_error_is_never_expected() {
    let mut h = Harness::new(
        String::from("err"),
        Expectation::Revert,
        StopRule::Duration { nanos: 1_000_000 },
    );
    assert_eq!(h.observe(OutcomeClass::Error, 5, 5), Decision::Abort);
    let mut g = Harness::new(
        String::from("err"),
        Expectation::Success,
        StopRule::Duration { nanos: 1_000_000 },
    );
    assert_eq!(g.observe(OutcomeClass::Error, 5, 5), Decision::Abort);
}

#[test]
fn same_outcome_gives_same_verdict_whatever_the_count() {
    for n in [1u64, 2, 7, 50] {
        let mut good = Harness::new(
            String::from("g"),
            Expectation::Success,
            StopRule::Count { iterations: n },
        );
        let mut bad = Harness::new(
            String::from("b"),
            Expectation::Success,
            StopRule::Count { iterations: n },
        );
        let mut i = 0;
        while i < n {
            good.observe(OutcomeClass::Success, 1, i + 1);
            bad.observe(OutcomeClass::Revert, 1, i + 1);
            i += 1;
        }
        assert_eq!(good.decide(), Decision::Finish);
        assert_eq!(good.samples(), n);
        assert_eq!(bad.decide(), Decision::Abort);
        assert_eq!(bad.samples(), 1);
    }
}

#[test]
fn empty_budget_finishes_at_once() {
    let h = Harness::new(String::from("none"), Expectation::Success, StopRule::Count { iterations: 0 });
    assert_eq!(h.decide(), Decision::Finish);
    let r = h.report().unwrap();
    assert_eq!(r.samples, 0);
    assert_eq!(r.elapsed_nanos, 0);
    assert_eq!(r.total_nanos, 0);
    assert_eq!(r.mean_nanos, 0);
    assert_eq!(r.per_second, 0);
    let mut d = Harness::new(String::from("none"), Expectation::Success, StopRule::from_millis(0));
    assert_eq!(d.observe(OutcomeClass::Success, 9, 9), Decision::Finish);
    assert_eq!(d.samples(), 0);
}

#[test]
fn unfinished_run_has_no_result() {
    let mut h = Harness::new(
        String::from("u"),
        Expectation::Success,
        StopRule::Count { iterations: 2 },
    );
    h.observe(OutcomeClass::Success, 1, 1);
    assert!(matches!(h.report(), Err(HarnessError::Unfinished)));
}

#[test]
fn latency_counts_only_the_time_of_the_calls() {
    let mut late = Harness::new(
        String::from("late"),
        Expectation::Success,
        StopRule::Count { iterations: 4 },
    );
    let mut early = Harness::new(
        String::from("early"),
        Expectation::Success,
        StopRule::Count { iterations: 4 },
    );
    let mut clock = 0u64;
    for nanos in [10u64, 30, 20, 40] {
        clock += nanos;
        early.observe(OutcomeClass::Success, nanos, clock);
        late.observe(OutcomeClass::Success, nanos, 1_000_000_000 + 3 * clock);
    }
    let early = early.report().unwrap();
    let late = late.report().unwrap();
    assert_eq!(early.total_nanos, 100);
    assert_eq!(late.total_nanos, 100);
    assert_eq!(early.mean_nanos, 25);
    assert_eq!(late.mean_nanos, 25);
    assert_eq!(early.per_second, late.per_second);
    assert_eq!(early.per_second, 40_000_000);
    assert_eq!(early.elapsed_nanos, 100);
    assert_eq!(late.elapsed_nanos, 1_000_000_300);
}

#[test]
fn total_of_the_longest_samples_does_not_overflow() {
    let mut h = Harness::new(
        String::from("t"),
        Expectation::Success,
        StopRule::Count { iterations: 4 },
    );
    for nanos in [0u64, u64::MAX, 7, u64::MAX] {
        h.observe(OutcomeClass::Success, nanos, nanos);
    }
    assert_eq!(h.total_nanos(), 2 * (u64::MAX as u128) + 7);
    let r = h.report().unwrap();
    assert_eq!(r.total_nanos, 2 * (u64::MAX as u128) + 7);
    assert_eq!(r.mean_nanos, (2 * (u64::MAX as u128) + 7) / 4);
    assert_eq!(r.elapsed_nanos, u64::MAX);
}

#[test]
fn runs_fed_the_same_samples_stop_alike() {
    let samples = [(40u64, 50u64), (40, 100), (40, 150), (40, 200), (40, 250)];
    let mut counts = Vec::new();
    for _ in 0..2 {
        let mut h = Harness::new(
            String::from("same"),
            Expectation::Success,
            StopRule::Duration { nanos: 120 },
        );
        for (nanos, since_start) in samples {
            h.observe(OutcomeClass::Success, nanos, since_start);
        }
        let r = h.report().unwrap();
        counts.push((r.samples, r.elapsed_nanos, r.total_nanos, r.mean_nanos));
    }
    assert_eq!(counts[0], (3, 150, 120, 40));
    assert_eq!(counts[0], counts[1]);
}

#[test]
fn window_of_nothing_but_calls_gives_one_report() {
    let calls = [30u64, 50, 20, 60, 10];
    let mut reports = Vec::new();
    for _ in 0..2 {
        let mut h = Harness::new(
            String::from("window"),
            Expectation::Success,
            StopRule::Duration { nanos: 100 },
        );
        let mut clock = 0u64;
        for nanos in calls {
            clock += nanos;
            h.observe(OutcomeClass::Success, nanos, clock);
        }
        let r = h.report().unwrap();
        reports.push((r.samples, r.elapsed_nanos, r.total_nanos, r.mean_nanos, r.per_second));
    }
    assert_eq!(reports[0], (3, 100, 100, 33, 30_000_000));
    assert_eq!(reports[0], reports[1]);
}
