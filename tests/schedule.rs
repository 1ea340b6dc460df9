use newtonian::schedule::{interval_number, is_recording_step, recorded_steps, snapshot_count};

#[test]
fn boundaries_are_multiples_of_record_steps() {
    assert!(is_recording_step(0, 10));
    assert!(!is_recording_step(5, 10));
    assert!(is_recording_step(20, 10));
    assert!(is_recording_step(7, 1));
}

#[test]
fn snapshot_count_is_ceiling() {
    assert_eq!(snapshot_count(10, 10), 1);
    assert_eq!(snapshot_count(1000, 1000), 1);
    assert_eq!(snapshot_count(11, 10), 2);
    assert_eq!(snapshot_count(25, 10), 3);
    assert_eq!(snapshot_count(0, 5), 0);
    assert_eq!(snapshot_count(10, 100), 1);
    assert_eq!(snapshot_count(u64::MAX, 1), u64::MAX);
    assert_eq!(snapshot_count(u64::MAX, 2), u64::MAX / 2 + 1);
}

#[test]
fn recorded_steps_lists_boundaries_in_order() {
    assert_eq!(recorded_steps(25, 10), vec![0, 10, 20]);
    assert_eq!(recorded_steps(20, 10), vec![0, 10]);
    assert_eq!(recorded_steps(10, 10), vec![0]);
    assert_eq!(recorded_steps(0, 3), Vec::<u64>::new());
    assert_eq!(recorded_steps(4, 1), vec![0, 1, 2, 3]);
}

#[test]
fn interval_numbers_start_at_one() {
    assert_eq!(interval_number(0, 10), 1);
    assert_eq!(interval_number(9, 10), 1);
    assert_eq!(interval_number(15, 10), 2);
}
