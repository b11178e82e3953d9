//! The generation/mutation strategy layer.
//!
//! A closed set of backends with different input representations plugs into
//! one evolutionary engine. Each backend supplies a seeding policy, a
//! mutation budget, a scheduling policy, and — for the structured backend — a
//! decoder that turns the tokenized form into the byte form the target
//! reads, appending the required trailing sentinel byte if it is missing.
//! The grammar engines that generate and mutate structured inputs are
//! external; this module holds the policies and the byte-level decisions.

use vstd::prelude::*;

use libafl::inputs::{EncodedInput, InputDecoder, InputEncoder, NaiveTokenizer, TokenInputEncoderDecoder};

use crate::errors::FuzzerError;

verus! {

/// The sentinel byte the target's input parser needs to see last.
pub const SENTINEL: u8 = 0;

/// How many mutation attempts one corpus selection is given.
pub const FANDANGO_MAX_ITERATIONS: usize = 1;

/// The engine's default mutation budget, used by the tokenized backend.
pub const DEFAULT_MAX_ITERATIONS: usize = 128;

/// Up to `2^MAX_STACK_POW` structural edit operators are stacked per
/// mutation attempt of the tokenized backend.
pub const MAX_STACK_POW: usize = 2;

/// Which corpus-scheduling policy a backend asks the engine for.
#[derive(Clone, Copy, Debug, PartialEq, Eq, Structural)]
pub enum SchedulerKind {
    /// Plain queue order.
    Queue,
    /// Queue order refined by a coverage-index minimizer weighted by length
    /// and time.
    IndexesLenTimeMinimizerQueue,
}

/// Turns the seed corpus the surrounding program read from disk into the
/// run's seed list. One file is one seed; whether an empty corpus is
/// acceptable is the implementation's policy.
pub trait SeedsConfig {
    /// The seed list, or the startup error an empty mandatory corpus is.
    fn get_seeds(corpus_files: Vec<Vec<u8>>) -> (r: Result<Vec<Vec<u8>>, FuzzerError>);
}

/// Runs without any seed corpus.
pub struct NoSeedsConfig;

impl SeedsConfig for NoSeedsConfig {
    /// No seeds, never an error.
    fn get_seeds(corpus_files: Vec<Vec<u8>>) -> (r: Result<Vec<Vec<u8>>, FuzzerError>)
        ensures
            r is Ok,
            r->Ok_0@.len() == 0,
    {
        Ok(Vec::new())
    }
}

/// Demands a valid, non-empty seed corpus.
pub struct ValidCorpusSeedsConfig;

impl SeedsConfig for ValidCorpusSeedsConfig {
    /// Every corpus file becomes a seed, in order; an empty corpus aborts
    /// startup with [`FuzzerError::EmptySeedCorpus`], so pathing mistakes
    /// surface at once.
    fn get_seeds(corpus_files: Vec<Vec<u8>>) -> (r: Result<Vec<Vec<u8>>, FuzzerError>)
        ensures
            corpus_files@.len() == 0 ==> r == Result::<Vec<Vec<u8>>, FuzzerError>::Err(
                FuzzerError::EmptySeedCorpus,
            ),
            corpus_files@.len() > 0 ==> r is Ok && r->Ok_0 == corpus_files,
    {
        if corpus_files.len() == 0 {
            Err(FuzzerError::EmptySeedCorpus)
        } else {
            Ok(corpus_files)
        }
    }
}

/// The opaque-blob backend: whole inputs are produced and mutated by an
/// external grammar engine; the harness passes the bytes through unchanged.
pub struct FandangoConfig<Seeds: SeedsConfig> {
    seeds: core::marker::PhantomData<Seeds>,
}

impl<Seeds: SeedsConfig> FandangoConfig<Seeds> {
    /// One mutation attempt per selection: the external engine produces one
    /// whole new input each time.
    pub fn max_iterations() -> (r: usize)
        ensures
            r == FANDANGO_MAX_ITERATIONS,
    {
        FANDANGO_MAX_ITERATIONS
    }

    /// This backend schedules the corpus in plain queue order.
    pub fn scheduler_kind() -> (r: SchedulerKind)
        ensures
            r == SchedulerKind::Queue,
    {
        SchedulerKind::Queue
    }

    /// The initial inputs: the configured seeds as they are, or one empty
    /// input when the seed policy yields none, so the engine always has
    /// something to start from.
    pub fn initial_inputs(seeds: Vec<Vec<u8>>) -> (r: Vec<Vec<u8>>)
        ensures
            seeds@.len() > 0 ==> r == seeds,
            seeds@.len() == 0 ==> r@.len() == 1 && r@[0]@ == Seq::<u8>::empty(),
    {
        if seeds.len() > 0 {
            seeds
        } else {
            let mut inputs: Vec<Vec<u8>> = Vec::new();
            inputs.push(Vec::new());
            inputs
        }
    }
}

/// The byte form with the sentinel guaranteed: unchanged when the last byte
/// already is the sentinel, with exactly one sentinel appended otherwise.
pub open spec fn with_sentinel(s: Seq<u8>) -> Seq<u8> {
    if s.len() > 0 && s.last() == SENTINEL {
        s
    } else {
        s.push(SENTINEL)
    }
}

/// Appends the trailing sentinel byte if and only if it is missing.
pub fn ensure_sentinel(bytes: &mut Vec<u8>)
    ensures
        final(bytes)@ == with_sentinel(old(bytes)@),
{
    let n = bytes.len();
    if n == 0 || bytes[n - 1] != SENTINEL {
        bytes.push(SENTINEL);
    }
}

/// Whatever bytes a decode produced, the guaranteed form ends in exactly the
/// sentinel the target's parser depends on: one sentinel is appended when
/// the byte form lacks it, and a byte form already ending in it passes
/// through unchanged — never a second sentinel.
pub proof fn lemma_sentinel_exact(s: Seq<u8>)
    ensures
        with_sentinel(s).last() == SENTINEL,
        with_sentinel(s).len() > 0,
        s.len() > 0 && s.last() == SENTINEL ==> with_sentinel(s) == s,
        s.len() == 0 || s.last() != SENTINEL ==> with_sentinel(s) == s.push(SENTINEL)
            && with_sentinel(s).len() == s.len() + 1 && with_sentinel(s).take(s.len() as int) == s,
{
    if s.len() == 0 || s.last() != SENTINEL {
        assert(s.push(SENTINEL).take(s.len() as int) =~= s);
    }
}

/// The structured input of the external token encoder: a code sequence.
#[verifier::external_type_specification]
#[verifier::external_body]
pub struct ExEncodedInput(EncodedInput);

/// The external token table that turns code sequences into bytes and back.
#[verifier::external_type_specification]
#[verifier::external_body]
pub struct ExTokenInputEncoderDecoder(TokenInputEncoderDecoder);

/// The external tokenizer that splits seed bytes into tokens while seeding.
#[verifier::external_type_specification]
#[verifier::external_body]
pub struct ExNaiveTokenizer(NaiveTokenizer);

/// The code sequence a structured input holds.
pub uninterp spec fn input_codes(input: EncodedInput) -> Seq<u32>;

/// How many distinct tokens the decoder's table holds.
pub uninterp spec fn token_count(decoder: TokenInputEncoderDecoder) -> nat;

/// The bytes the decoder writes for a code sequence: a function of the
/// table and the codes alone.
pub uninterp spec fn decoded_bytes(decoder: TokenInputEncoderDecoder, codes: Seq<u32>) -> Seq<u8>;

/// Relies on `EncodedInput::codes`: the input's code sequence, counted.
#[verifier::external_body]
pub fn input_code_count(input: &EncodedInput) -> (r: usize)
    ensures
        r == input_codes(*input).len(),
{
    input.codes().len()
}

/// Relies on `TokenInputEncoderDecoder::decode`: each code is looked up
/// modulo the table's size and its token appended, followed by a separating
/// space — a pure function of the table and the codes. The table maps every
/// id below its size, so with a non-empty table (or no codes at all) the
/// lookup never misses and decoding succeeds, appending to `bytes`. An
/// empty code sequence appends nothing whatever the table holds.
#[verifier::external_body]
fn decode_tokens(
    decoder: &TokenInputEncoderDecoder,
    input: &EncodedInput,
    bytes: &mut Vec<u8>,
) -> (r: Result<(), FuzzerError>)
    requires
        input_codes(*input).len() == 0 || token_count(*decoder) > 0,
    ensures
        r is Ok,
        final(bytes)@ == old(bytes)@ + decoded_bytes(*decoder, input_codes(*input)),
        input_codes(*input).len() == 0 ==> final(bytes)@ == old(bytes)@,
{
    decoder.decode(input, bytes).map_err(|_| FuzzerError::DecodeFailed)
}

/// Relies on `TokenInputEncoderDecoder::new`: a fresh, empty token table.
#[verifier::external_body]
pub fn new_token_encoder_decoder() -> (r: TokenInputEncoderDecoder)
    ensures
        token_count(r) == 0,
{
    TokenInputEncoderDecoder::new()
}

/// Relies on `NaiveTokenizer::default`: a fresh tokenizer with the standard
/// identifier, comment and string patterns.
#[verifier::external_body]
pub fn new_tokenizer() -> NaiveTokenizer {
    NaiveTokenizer::default()
}

/// Relies on `TokenInputEncoderDecoder::encode` with the naive tokenizer:
/// the bytes are tokenized and each token mapped to a code, a new token
/// growing the table by one. The table never shrinks, and an input that came
/// back with at least one code means its token stands in the table.
/// Tokenizing rejects text it cannot split.
#[verifier::external_body]
pub fn encode_bytes(
    decoder: &mut TokenInputEncoderDecoder,
    bytes: &Vec<u8>,
    tokenizer: &mut NaiveTokenizer,
) -> (r: Result<EncodedInput, FuzzerError>)
    ensures
        token_count(*final(decoder)) >= token_count(*old(decoder)),
        r is Ok ==> (input_codes(r->Ok_0).len() > 0 ==> token_count(*final(decoder)) > 0),
        r is Err ==> r->Err_0 == FuzzerError::EncodeFailed,
{
    decoder.encode(bytes, tokenizer).map_err(|_| FuzzerError::EncodeFailed)
}

/// The tokenized derivation-tree backend: structured inputs mutated by a
/// fixed library of structural edit operators, decoded before every
/// execution.
pub struct NautilusConfig;

impl NautilusConfig {
    /// The engine's default mutation budget per selection.
    pub fn max_iterations() -> (r: usize)
        ensures
            r == DEFAULT_MAX_ITERATIONS,
    {
        DEFAULT_MAX_ITERATIONS
    }

    /// This backend schedules the corpus through the coverage-index
    /// minimizer over a queue.
    pub fn scheduler_kind() -> (r: SchedulerKind)
        ensures
            r == SchedulerKind::IndexesLenTimeMinimizerQueue,
    {
        SchedulerKind::IndexesLenTimeMinimizerQueue
    }

    /// Decodes a structured input into `bytes` — the byte form the target
    /// reads — and appends the required trailing sentinel if the decoded
    /// form lacks it. Runs before every execution of this backend. The
    /// decoder must hold the token table built while seeding, unless the
    /// input holds no codes.
    pub fn run_harness(
        decoder: &TokenInputEncoderDecoder,
        input: &EncodedInput,
        bytes: &mut Vec<u8>,
    )
        requires
            input_codes(*input).len() == 0 || token_count(*decoder) > 0,
        ensures
            final(bytes)@ == with_sentinel(decoded_bytes(*decoder, input_codes(*input))),
    {
        bytes.clear();
        let _decoded = decode_tokens(decoder, input, bytes);
        proof {
            assert(bytes@ =~= decoded_bytes(*decoder, input_codes(*input)));
        }
        ensure_sentinel(bytes);
    }
}

} // verus!
