use newtonian::driver::{Action, ConfigError, Driver};

/// Runs a driver to its end, with every snapshot succeeding except the one at
/// `fail_at`; returns the recorded step indices and the number of integration steps.
fn run(steps: u64, record_steps: u64, fail_at: Option<u64>) -> (Vec<u64>, u64, Action) {
    let mut d = Driver::new(steps, record_steps).unwrap();
    let mut records = Vec::new();
    let mut integrated = 0;
    loop {
        match d.next_action() {
            Action::Record(t) => {
                records.push(t);
                d.record_done(fail_at != Some(t));
            }
            Action::Integrate => {
                integrated += 1;
                d.step_done();
            }
            end => return (records, integrated, end),
        }
    }
}

#[test]
fn zero_record_steps_is_rejected() {
    assert!(matches!(Driver::new(10, 0), Err(ConfigError::ZeroRecordSteps)));
    assert!(Driver::new(10, 1).is_ok());
}

#[test]
fn zero_duration_runs_nothing() {
    let d = Driver::new(0, 10).unwrap();
    assert_eq!(d.next_action(), Action::Finish);
    assert_eq!(run(0, 10, None), (vec![], 0, Action::Finish));
}

#[test]
fn one_second_at_tenth_of_second_records_once() {
    // dt = 0.1, record_interval = 1, total_time = 1.0: ten steps, a snapshot every ten.
    assert_eq!(run(10, 10, None), (vec![0], 10, Action::Finish));
}

#[test]
fn one_second_at_millisecond_records_once() {
    // dt = 0.001, record_interval = 1, total_time = 1.0.
    assert_eq!(run(1000, 1000, None), (vec![0], 1000, Action::Finish));
}

#[test]
fn record_interval_longer_than_run_records_once() {
    // dt = 0.1, record_interval = 10, total_time = 1.0.
    let (records, integrated, end) = run(10, 100, None);
    assert_eq!(records, vec![0]);
    assert_eq!(integrated, 10);
    assert_eq!(end, Action::Finish);
}

#[test]
fn snapshot_comes_before_the_step() {
    let mut d = Driver::new(3, 2).unwrap();
    assert_eq!(d.next_action(), Action::Record(0));
    d.record_done(true);
    assert_eq!(d.next_action(), Action::Integrate);
    d.step_done();
    assert_eq!(d.current_step(), 1);
    assert_eq!(d.next_action(), Action::Integrate);
    d.step_done();
    assert_eq!(d.next_action(), Action::Record(2));
    d.record_done(true);
    assert_eq!(d.next_action(), Action::Integrate);
    d.step_done();
    assert_eq!(d.next_action(), Action::Finish);
    assert_eq!(d.total_steps(), 3);
    assert_eq!(d.record_steps(), 2);
}

#[test]
fn every_boundary_is_recorded() {
    assert_eq!(run(25, 10, None), (vec![0, 10, 20], 25, Action::Finish));
    assert_eq!(run(4, 1, None), (vec![0, 1, 2, 3], 4, Action::Finish));
}

#[test]
fn failed_snapshot_aborts_the_run() {
    assert_eq!(run(25, 10, Some(10)), (vec![0, 10], 10, Action::Abort));
    assert_eq!(run(25, 10, Some(0)), (vec![0], 0, Action::Abort));
}
