use http_stress::aggregate::{Aggregator, RunResult};
use http_stress::outcome::{classify, ExecutionOutcome, Verdict};

fn responded(status: u16) -> ExecutionOutcome {
    ExecutionOutcome::Responded(status, "body".to_string())
}

#[test]
fn expected_status_is_a_success() {
    assert_eq!(classify(&responded(200), 200), Verdict::Success);
    assert_eq!(classify(&responded(404), 404), Verdict::Success);
    assert_eq!(classify(&responded(0), 0), Verdict::Success);
}

#[test]
fn other_status_is_a_failure_with_both_codes() {
    assert_eq!(
        classify(&responded(404), 200),
        Verdict::Failure("unexpected status: got 404, expected 200".to_string())
    );
    assert_eq!(
        classify(&responded(200), 201),
        Verdict::Failure("unexpected status: got 200, expected 201".to_string())
    );
    assert_eq!(
        classify(&responded(65535), 0),
        Verdict::Failure("unexpected status: got 65535, expected 0".to_string())
    );
}

#[test]
fn transport_failure_is_a_failure_with_its_description() {
    let outcome = ExecutionOutcome::Failed("connection refused".to_string());
    assert_eq!(
        classify(&outcome, 200),
        Verdict::Failure("transport error: connection refused".to_string())
    );
    let outcome = ExecutionOutcome::Failed(String::new());
    assert_eq!(classify(&outcome, 200), Verdict::Failure("transport error: ".to_string()));
}

#[test]
fn every_status_but_the_expected_one_fails() {
    let mut status: u16 = 0;
    loop {
        let verdict = classify(&responded(status), 200);
        assert_eq!(verdict == Verdict::Success, status == 200);
        if status == u16::MAX {
            break;
        }
        status += 1;
    }
}

#[test]
fn aggregator_counts_each_verdict_once() {
    let mut aggregator = Aggregator::new();
    assert_eq!(aggregator.snapshot(), (0, 0));
    aggregator.record(&Verdict::Success);
    assert_eq!(aggregator.snapshot(), (1, 0));
    aggregator.record(&Verdict::Failure("x".to_string()));
    aggregator.record(&Verdict::Failure("y".to_string()));
    assert_eq!(aggregator.snapshot(), (1, 2));
    aggregator.record(&Verdict::Success);
    assert_eq!(aggregator.snapshot(), (2, 2));
    assert_eq!(aggregator.recorded(), 4);
}

#[test]
fn aggregator_ignores_the_order_of_verdicts() {
    let verdicts = [
        Verdict::Success,
        Verdict::Failure("a".to_string()),
        Verdict::Success,
        Verdict::Success,
        Verdict::Failure("b".to_string()),
    ];
    let mut forward = Aggregator::new();
    for verdict in verdicts.iter() {
        forward.record(verdict);
    }
    let mut backward = Aggregator::new();
    for verdict in verdicts.iter().rev() {
        backward.record(verdict);
    }
    assert_eq!(forward.snapshot(), (3, 2));
    assert_eq!(backward.snapshot(), (3, 2));
}

#[test]
fn summary_names_time_and_counts() {
    let result = RunResult { successes: 7, failures: 3, elapsed_ms: 1234 };
    assert_eq!(result.summary(), "Done (1234 ms)! Successes: 7, Fails: 3");
    let result = RunResult { successes: 0, failures: 0, elapsed_ms: 0 };
    assert_eq!(result.summary(), "Done (0 ms)! Successes: 0, Fails: 0");
}
