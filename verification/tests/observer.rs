use correctness_fuzzer::channel::CoverageChannel;
use correctness_fuzzer::observer::{edges_of_snapshot, CorrectnessObserver};
use correctness_fuzzer::word::WORDSIZE;

#[test]
fn fresh_observer_reads_zero() {
    let observer = CorrectnessObserver::new("correctness_0".to_string());
    assert_eq!(observer.step(), 0);
    assert_eq!(observer.name(), "correctness_0");
}

#[test]
fn silent_target_reads_step_zero() {
    // The target never writes the progress variable: after reset and a flush
    // without a progress value, the observer reads 0.
    let (_descriptor, mut channel) = CoverageChannel::create(WORDSIZE + 4).unwrap();
    let mut observer = CorrectnessObserver::new("correctness".to_string());
    observer.pre_exec(&mut channel);
    let edges = vec![9u8, 8, 7, 6];
    channel.shim_flush(&edges, None);
    let snapshot = channel.snapshot();
    observer.post_exec(&snapshot);
    assert_eq!(observer.step(), 0);
}

#[test]
fn written_progress_is_read_back() {
    let (_descriptor, mut channel) = CoverageChannel::create(WORDSIZE + 4).unwrap();
    let mut observer = CorrectnessObserver::new("correctness".to_string());
    observer.pre_exec(&mut channel);
    channel.shim_flush(&vec![0u8; 4], Some(7));
    let snapshot = channel.snapshot();
    observer.post_exec(&snapshot);
    assert_eq!(observer.step(), 7);
}

#[test]
fn pre_exec_clears_stale_state() {
    let (_descriptor, mut channel) = CoverageChannel::create(WORDSIZE + 2).unwrap();
    let mut observer = CorrectnessObserver::new("correctness".to_string());
    channel.write_progress(999);
    observer.pre_exec(&mut channel);
    assert_eq!(observer.step(), 0);
    let snapshot = channel.snapshot();
    assert!(snapshot.iter().all(|b| *b == 0));
}

#[test]
fn edges_of_snapshot_drop_the_word() {
    let snapshot = vec![1u8, 2, 3, 4, 5, 6, 7, 8, 100, 200];
    assert_eq!(edges_of_snapshot(&snapshot), vec![100, 200]);
}
