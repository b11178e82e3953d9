use correctness_fuzzer::feedback::{
    due_absolute_report, due_relative_report, CorrectnessMetadata, MAX_CORRECTNESS_STEPS,
};

#[test]
fn hundred_executions_at_step_three_report_full_share() {
    // After exactly 100 executions with progress step always 3, the relative
    // distribution shows bucket 3 at 1.000 and no other bucket.
    let mut metadata = CorrectnessMetadata::new();
    for _ in 0..100 {
        metadata.record(3);
    }
    let report = metadata.render_relative();
    assert_eq!(String::from_utf8(report).unwrap(), "3: 1.000");
}

#[test]
fn relative_report_splits_shares() {
    let mut metadata = CorrectnessMetadata::new();
    for _ in 0..3 {
        metadata.record(1);
    }
    metadata.record(2);
    let report = metadata.render_relative();
    assert_eq!(String::from_utf8(report).unwrap(), "1: 0.750, 2: 0.250");
}

#[test]
fn absolute_report_lists_raw_counts() {
    let mut metadata = CorrectnessMetadata::new();
    metadata.record(0);
    metadata.record(0);
    metadata.record(17);
    let report = metadata.render_absolute();
    assert_eq!(String::from_utf8(report).unwrap(), "0: 2, 17: 1");
}

#[test]
fn relative_report_rounds_to_nearest() {
    // Two thirds renders as 0.667, not the truncated 0.666.
    let mut metadata = CorrectnessMetadata::new();
    metadata.record(1);
    metadata.record(1);
    metadata.record(2);
    let report = metadata.render_relative();
    assert_eq!(String::from_utf8(report).unwrap(), "1: 0.667, 2: 0.333");
}

#[test]
fn fresh_histogram_renders_empty_reports() {
    let metadata = CorrectnessMetadata::new();
    assert!(metadata.render_relative().is_empty());
    assert!(metadata.render_absolute().is_empty());
}

#[test]
fn out_of_range_steps_are_ignored() {
    let mut metadata = CorrectnessMetadata::new();
    metadata.record((MAX_CORRECTNESS_STEPS as u64) + 1);
    metadata.record(u64::MAX);
    assert!(metadata.render_absolute().is_empty());
    // The largest trackable step still lands in its bucket.
    metadata.record(MAX_CORRECTNESS_STEPS as u64);
    assert_eq!(
        String::from_utf8(metadata.render_absolute()).unwrap(),
        "1024: 1"
    );
}

#[test]
fn report_cadence() {
    assert!(due_relative_report(0));
    assert!(due_relative_report(100));
    assert!(due_relative_report(1700));
    assert!(!due_relative_report(42));
    assert!(!due_relative_report(50));
    assert!(due_absolute_report(50));
    assert!(due_absolute_report(1250));
    assert!(!due_absolute_report(100));
}

#[test]
fn after_execution_records_and_reports_when_due() {
    let mut metadata = CorrectnessMetadata::new();
    for i in 1..100u64 {
        let (relative, absolute) = metadata.after_execution(3, i);
        assert_eq!(relative.is_some(), i % 100 == 0);
        assert_eq!(absolute.is_some(), i % 100 == 50);
        if i == 50 {
            assert_eq!(
                String::from_utf8(absolute.unwrap()).unwrap(),
                "3: 50"
            );
        }
    }
    let (relative, absolute) = metadata.after_execution(3, 100);
    assert!(absolute.is_none());
    assert_eq!(String::from_utf8(relative.unwrap()).unwrap(), "3: 1.000");
}

#[test]
fn bookkeeping_is_never_interesting() {
    let metadata = CorrectnessMetadata::new();
    assert!(!metadata.interesting());
}
