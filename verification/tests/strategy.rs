use correctness_fuzzer::errors::FuzzerError;
use correctness_fuzzer::strategy::{
    encode_bytes, ensure_sentinel, input_code_count, new_token_encoder_decoder, new_tokenizer,
    FandangoConfig, NautilusConfig, NoSeedsConfig, SchedulerKind, SeedsConfig,
    ValidCorpusSeedsConfig, DEFAULT_MAX_ITERATIONS, FANDANGO_MAX_ITERATIONS,
};

#[test]
fn sentinel_appended_when_missing() {
    // A byte form lacking the sentinel gains exactly one.
    let mut bytes = vec![1u8, 2, 3];
    ensure_sentinel(&mut bytes);
    assert_eq!(bytes, vec![1, 2, 3, 0]);
}

#[test]
fn sentinel_not_duplicated() {
    let mut bytes = vec![1u8, 2, 3, 0];
    ensure_sentinel(&mut bytes);
    assert_eq!(bytes, vec![1, 2, 3, 0]);
}

#[test]
fn sentinel_on_empty_input() {
    let mut bytes: Vec<u8> = vec![];
    ensure_sentinel(&mut bytes);
    assert_eq!(bytes, vec![0]);
}

#[test]
fn decode_appends_exactly_one_sentinel() {
    // Encode a seed, decode it back through the harness path: the decoded
    // byte form (which ends in a token separator, not the sentinel) gains
    // exactly one trailing sentinel.
    let mut decoder = new_token_encoder_decoder();
    let mut tokenizer = new_tokenizer();
    let input = encode_bytes(&mut decoder, &b"int main".to_vec(), &mut tokenizer).unwrap();
    assert!(input_code_count(&input) > 0);
    let mut bytes: Vec<u8> = vec![];
    NautilusConfig::run_harness(&decoder, &input, &mut bytes);
    assert_eq!(bytes, b"int main \0");
    // Decoding a byte form that already ends with the sentinel does not
    // duplicate it.
    let mut again = bytes.clone();
    ensure_sentinel(&mut again);
    assert_eq!(again, bytes);
}

#[test]
fn invalid_utf8_seed_cannot_be_tokenized() {
    let mut decoder = new_token_encoder_decoder();
    let mut tokenizer = new_tokenizer();
    let r = encode_bytes(&mut decoder, &vec![0xffu8, 0xfe, 0xfd], &mut tokenizer);
    assert_eq!(r.unwrap_err(), FuzzerError::EncodeFailed);
}

#[test]
fn empty_structured_input_decodes_to_the_sentinel_alone() {
    let mut decoder = new_token_encoder_decoder();
    let mut tokenizer = new_tokenizer();
    let input = encode_bytes(&mut decoder, &Vec::new(), &mut tokenizer).unwrap();
    assert_eq!(input_code_count(&input), 0);
    let mut bytes: Vec<u8> = vec![9, 9, 9];
    NautilusConfig::run_harness(&decoder, &input, &mut bytes);
    assert_eq!(bytes, vec![0]);
}

#[test]
fn no_seeds_config_yields_nothing() {
    let seeds = NoSeedsConfig::get_seeds(vec![vec![1, 2], vec![3]]).unwrap();
    assert!(seeds.is_empty());
}

#[test]
fn valid_corpus_keeps_every_file() {
    let files = vec![vec![1u8, 2], vec![3u8]];
    let seeds = ValidCorpusSeedsConfig::get_seeds(files.clone()).unwrap();
    assert_eq!(seeds, files);
}

#[test]
fn empty_mandatory_corpus_aborts() {
    let r = ValidCorpusSeedsConfig::get_seeds(vec![]);
    assert_eq!(r.unwrap_err(), FuzzerError::EmptySeedCorpus);
}

#[test]
fn fandango_initial_inputs_keep_seeds() {
    let seeds = vec![vec![1u8, 2, 3]];
    let inputs = FandangoConfig::<ValidCorpusSeedsConfig>::initial_inputs(seeds.clone());
    assert_eq!(inputs, seeds);
}

#[test]
fn fandango_initial_inputs_fall_back_to_one_empty() {
    let inputs = FandangoConfig::<NoSeedsConfig>::initial_inputs(vec![]);
    assert_eq!(inputs, vec![Vec::<u8>::new()]);
}

#[test]
fn backend_policies() {
    assert_eq!(
        FandangoConfig::<NoSeedsConfig>::max_iterations(),
        FANDANGO_MAX_ITERATIONS
    );
    assert_eq!(NautilusConfig::max_iterations(), DEFAULT_MAX_ITERATIONS);
    assert_eq!(
        FandangoConfig::<NoSeedsConfig>::scheduler_kind(),
        SchedulerKind::Queue
    );
    assert_eq!(
        NautilusConfig::scheduler_kind(),
        SchedulerKind::IndexesLenTimeMinimizerQueue
    );
}
