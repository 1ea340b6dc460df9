use newtonian::rows::{time_column, RowLog};

#[test]
fn time_column_repeats_the_step_index() {
    assert_eq!(time_column(7, 3), vec![7, 7, 7]);
    assert_eq!(time_column(7, 0), Vec::<u64>::new());
}

#[test]
fn rows_are_grouped_by_snapshot_in_body_order() {
    let names = vec!["Earth".to_string(), "Moon".to_string(), "Sun".to_string()];
    let mut log = RowLog::new();
    assert_eq!(log.len(), 0);
    for t in [0u64, 10, 20, 30] {
        log.add(t, &names);
    }
    assert_eq!(log.len(), 12);
    for k in 0..12 {
        assert_eq!(log.time_at(k), (k as u64 / 3) * 10);
        assert_eq!(log.name_at(k), names[k % 3]);
    }
    for k in 1..12 {
        assert!(log.time_at(k - 1) <= log.time_at(k));
    }
}

#[test]
fn empty_snapshot_adds_no_rows() {
    let mut log = RowLog::new();
    log.add(5, &Vec::new());
    assert_eq!(log.len(), 0);
}
