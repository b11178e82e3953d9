//! End-to-end over the verified core: one seed, one execution of a trivial
//! always-passing target, no crash reported.

use correctness_fuzzer::channel::CoverageChannel;
use correctness_fuzzer::discovery::discover_guard_count;
use correctness_fuzzer::executor::{build_invocation_plan, ExecutionResult, Outcome};
use correctness_fuzzer::feedback::CorrectnessMetadata;
use correctness_fuzzer::observer::CorrectnessObserver;
use correctness_fuzzer::strategy::{FandangoConfig, SeedsConfig, ValidCorpusSeedsConfig};
use correctness_fuzzer::word::WORDSIZE;

#[test]
fn one_seed_one_execution_no_crash() {
    // Seed directory holds one 3-byte file.
    let corpus_files = vec![vec![0x61u8, 0x62, 0x63]];
    let seeds = ValidCorpusSeedsConfig::get_seeds(corpus_files).unwrap();
    let initial_inputs = FandangoConfig::<ValidCorpusSeedsConfig>::initial_inputs(seeds);
    assert_eq!(initial_inputs.len(), 1, "exactly one initial input loads");

    // Discovery sized the channel from the probe's output.
    let guard_count = discover_guard_count(true, true, &b"16\n".to_vec()).unwrap();
    assert_eq!(guard_count, 16);

    let (descriptor, mut channel) = CoverageChannel::create(WORDSIZE + guard_count).unwrap();
    let plan = build_invocation_plan(&descriptor, 1000);
    assert_eq!(plan.timeout_millis, 1000);

    let mut observer = CorrectnessObserver::new("correctness_0".to_string());
    let mut metadata = CorrectnessMetadata::new();

    let mut executions: u64 = 0;
    for _input in &initial_inputs {
        // One execution of a trivial target that exits cleanly without
        // touching the channel.
        observer.pre_exec(&mut channel);
        let result = ExecutionResult::new(false, false, Vec::new(), Vec::new(), 1);
        let snapshot = channel.snapshot();
        observer.post_exec(&snapshot);
        executions += 1;
        let _reports = metadata.after_execution(observer.step(), executions);
        assert_eq!(result.outcome, Outcome::Pass, "the run reports no crash");
    }
    assert_eq!(executions, 1, "the one input executed exactly once");
    assert_eq!(observer.step(), 0);
}
