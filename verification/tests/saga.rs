use nova::saga::{SagaCommand, SagaError, SagaExecutionStatus, SagaOutcome, SagaRun};

#[derive(Clone, Copy)]
enum Behavior {
    Pass,
    Fail,
    BadCompensate,
    Slow,
    FailFirstAttempt,
}

struct Report {
    result: Result<(), SagaError>,
    topics: Vec<String>,
    event_ids: Vec<String>,
    attempts: Vec<u32>,
    sleeps: Vec<u64>,
    status: String,
    completed: Vec<String>,
}

fn drive(steps: &[(&str, Behavior)], max_retries: u32) -> Report {
    let names: Vec<String> = steps.iter().map(|(n, _)| n.to_string()).collect();
    let mut attempts = vec![0u32; steps.len()];
    let mut topics = Vec::new();
    let mut event_ids = Vec::new();
    let mut sleeps = Vec::new();
    let mut now = 1_000u64;
    let (mut run, mut progress) = SagaRun::start("test-saga".to_string(), names, max_retries, now);
    loop {
        for n in &progress.notices {
            topics.push(n.topic());
            event_ids.push(n.event_id());
        }
        now += 1;
        let outcome = match progress.command {
            SagaCommand::Execute { index } => {
                attempts[index] += 1;
                let (name, behavior) = steps[index];
                match behavior {
                    Behavior::Pass | Behavior::BadCompensate => SagaOutcome::StepSucceeded,
                    Behavior::Fail => SagaOutcome::StepFailed(SagaError::StepFailed {
                        step: name.to_string(),
                        reason: "intentional failure".to_string(),
                    }),
                    Behavior::Slow => SagaOutcome::StepTimedOut,
                    Behavior::FailFirstAttempt => {
                        if attempts[index] == 1 {
                            SagaOutcome::StepFailed(SagaError::StepFailed {
                                step: name.to_string(),
                                reason: "transient".to_string(),
                            })
                        } else {
                            SagaOutcome::StepSucceeded
                        }
                    }
                }
            }
            SagaCommand::Sleep { millis } => {
                sleeps.push(millis);
                SagaOutcome::Slept
            }
            SagaCommand::Compensate { index } => {
                let (name, behavior) = steps[index];
                match behavior {
                    Behavior::BadCompensate => SagaOutcome::CompensationFailed(SagaError::CompensationFailed {
                        step: name.to_string(),
                        reason: "compensation failure".to_string(),
                    }),
                    _ => SagaOutcome::Compensated,
                }
            }
            SagaCommand::Finish { result } => {
                let status = match &run.execution().status {
                    SagaExecutionStatus::Running => "running".to_string(),
                    SagaExecutionStatus::Completed => "completed".to_string(),
                    SagaExecutionStatus::Failed(m) => format!("failed: {m}"),
                    SagaExecutionStatus::Compensating => "compensating".to_string(),
                    SagaExecutionStatus::Compensated => "compensated".to_string(),
                };
                let completed = run.execution().completed_steps.clone();
                return Report { result, topics, event_ids, attempts, sleeps, status, completed };
            }
        };
        progress = run.advance(outcome, now);
    }
}

#[test]
fn successful_saga_executes_all_steps() {
    let report = drive(&[("step1", Behavior::Pass), ("step2", Behavior::Pass), ("step3", Behavior::Pass)], 0);
    assert!(report.result.is_ok());
    assert_eq!(report.completed, vec!["step1", "step2", "step3"]);
    assert_eq!(report.status, "completed");
}

#[test]
fn saga_compensates_on_step_failure() {
    let report = drive(&[("step1", Behavior::Pass), ("step2", Behavior::Fail), ("step3", Behavior::Pass)], 0);
    assert!(report.result.is_err());
    match report.result {
        Err(SagaError::StepFailed { step, .. }) => assert_eq!(step, "step2"),
        _ => panic!("expected StepFailed for step2"),
    }
    assert_eq!(report.attempts, vec![1, 1, 0]);
    assert_eq!(report.status, "compensated");
}

#[test]
fn saga_timeout_returns_timeout_error() {
    let report = drive(&[("slow", Behavior::Slow)], 3);
    match report.result {
        Err(SagaError::Timeout { step }) => assert_eq!(step, "slow"),
        _ => panic!("expected Timeout error"),
    }
    assert_eq!(report.attempts, vec![1]);
    assert!(report.sleeps.is_empty());
}

#[test]
fn compensation_failure_does_not_panic() {
    let report = drive(&[("bad-comp", Behavior::BadCompensate), ("trigger", Behavior::Fail)], 0);
    match report.result {
        Err(SagaError::StepFailed { step, .. }) => assert_eq!(step, "trigger"),
        _ => panic!("expected StepFailed"),
    }
    assert!(report.topics.contains(&"saga.test-saga.bad-comp.compensation_failed".to_string()));
    assert!(report.topics.contains(&"saga.test-saga.saga.compensated".to_string()));
}

#[test]
fn coordinator_publishes_events_for_each_step() {
    let report = drive(&[("a", Behavior::Pass), ("b", Behavior::Pass)], 0);
    assert!(report.result.is_ok());
    let count = |t: &str| report.topics.iter().filter(|x| x.as_str() == t).count();
    assert_eq!(count("saga.test-saga.a.started"), 1);
    assert_eq!(count("saga.test-saga.a.succeeded"), 1);
    assert_eq!(count("saga.test-saga.b.succeeded"), 1);
    assert_eq!(count("saga.test-saga.saga.completed"), 1);
    assert!(report.event_ids.contains(&"test-saga-a-started".to_string()));
}

#[test]
fn coordinator_compensates_and_publishes_compensation_events() {
    let report = drive(&[("reserve", Behavior::Pass), ("charge", Behavior::Fail)], 0);
    assert!(report.result.is_err());
    let count = |t: &str| report.topics.iter().filter(|x| x.as_str() == t).count();
    assert_eq!(count("saga.test-saga.reserve.compensated"), 1);
    assert_eq!(count("saga.test-saga.saga.compensated"), 1);
    assert_eq!(count("saga.test-saga.charge.failed"), 1);
}

#[test]
fn coordinator_retries_and_then_fails() {
    let report = drive(&[("flaky", Behavior::FailFirstAttempt)], 3);
    assert!(report.result.is_ok());
    assert_eq!(report.attempts, vec![2]);
    assert_eq!(report.sleeps, vec![100]);
}

#[test]
fn retries_back_off_linearly_and_give_up() {
    let report = drive(&[("x", Behavior::Pass), ("always", Behavior::Fail)], 3);
    assert_eq!(report.attempts, vec![1, 4]);
    assert_eq!(report.sleeps, vec![100, 200, 300]);
    assert!(report.topics.contains(&"saga.test-saga.x.compensating".to_string()));
}

#[test]
fn empty_saga_completes_at_once() {
    let report = drive(&[], 0);
    assert!(report.result.is_ok());
    assert_eq!(report.topics, vec!["saga.test-saga.saga.completed".to_string()]);
}

#[test]
fn saga_error_display() {
    let e = SagaError::StepFailed { step: "s".to_string(), reason: "r".to_string() };
    assert_eq!(e.to_display_string(), "saga step 's' failed: r");
    let e = SagaError::CompensationFailed { step: "s".to_string(), reason: "r".to_string() };
    assert_eq!(e.to_display_string(), "saga compensation for step 's' failed: r");
    let e = SagaError::Timeout { step: "s".to_string() };
    assert_eq!(e.to_display_string(), "saga step 's' timed out");
    let e = SagaError::Aborted("m".to_string());
    assert_eq!(e.to_display_string(), "saga aborted: m");
}

#[test]
fn saga_run_reports_its_execution() {
    let (run, _progress) = SagaRun::start("s1".to_string(), vec!["a".to_string()], 0, 5);
    assert_eq!(run.saga_id(), "s1");
    assert_eq!(run.execution().saga_id, "s1");
    assert!(matches!(run.execution().status, SagaExecutionStatus::Running));
    assert!(run.execution().completed_steps.is_empty());
    assert_eq!(run.execution().started_at, 5);
    assert_eq!(run.execution().updated_at, 5);
}
