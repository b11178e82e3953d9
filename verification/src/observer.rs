//! The correctness observer: per-execution progress-step state.
//!
//! Before each execution it resets the channel, so no stale data crosses an
//! evaluation boundary; after the execution it reads the progress step out of
//! a channel snapshot into feedback-visible state.

use vstd::prelude::*;

use crate::channel::CoverageChannel;
use crate::word::{lemma_le_word_zero, WORDSIZE};

verus! {

/// Observer state holding the progress step of the last execution.
#[derive(Debug)]
pub struct CorrectnessObserver {
    step: u64,
    name: String,
}

impl CorrectnessObserver {
    /// The progress step read after the last execution.
    pub closed spec fn step_spec(self) -> u64 {
        self.step
    }

    /// The observer's name, fixed at construction.
    pub closed spec fn name_spec(self) -> Seq<char> {
        self.name@
    }

    /// A fresh observer, before any execution: step zero.
    pub fn new(name: String) -> (r: Self)
        ensures
            r.step_spec() == 0,
            r.name_spec() == name@,
    {
        CorrectnessObserver { step: 0, name }
    }

    /// The progress step of the last execution.
    pub fn step(&self) -> (r: u64)
        ensures
            r == self.step_spec(),
    {
        self.step
    }

    /// The observer's name.
    pub fn name(&self) -> (r: &String)
        ensures
            r@ == self.name_spec(),
    {
        &self.name
    }

    /// Pre-execution: zero the channel — progress word and edge bytes — and
    /// the observer's own step.
    pub fn pre_exec(&mut self, chan: &mut CoverageChannel)
        ensures
            final(self).step_spec() == 0,
            final(self).name_spec() == old(self).name_spec(),
            final(chan).contents() == Seq::new(old(chan).contents().len(), |i: int| 0u8),
    {
        self.step = 0;
        chan.reset();
    }

    /// Post-execution: read the progress step out of a channel snapshot.
    pub fn post_exec(&mut self, snapshot: &Vec<u8>)
        requires
            snapshot@.len() >= WORDSIZE,
        ensures
            final(self).step_spec() == CoverageChannel::step_of_bytes(snapshot@),
            final(self).name_spec() == old(self).name_spec(),
    {
        self.step = crate::word::load_word(snapshot);
    }
}

/// The edge-hit bytes of a channel snapshot: everything past the progress
/// word, consumed by the engine's maximize-coverage feedback.
pub fn edges_of_snapshot(snapshot: &Vec<u8>) -> (r: Vec<u8>)
    requires
        snapshot@.len() >= WORDSIZE,
    ensures
        r@ == snapshot@.skip(WORDSIZE as int),
{
    let mut out: Vec<u8> = Vec::new();
    let n = snapshot.len();
    let mut i: usize = WORDSIZE;
    while i < n
        invariant
            WORDSIZE <= i <= n,
            n == snapshot@.len(),
            out@ == snapshot@.subrange(WORDSIZE as int, i as int),
        decreases n - i,
    {
        let b = snapshot[i];
        out.push(b);
        proof {
            assert(out@ =~= snapshot@.subrange(WORDSIZE as int, i + 1));
        }
        i = i + 1;
    }
    proof {
        assert(out@ =~= snapshot@.skip(WORDSIZE as int));
    }
    out
}

/// A target that never writes the progress variable leaves the channel at
/// its reset values, and the progress step then reads zero.
pub proof fn lemma_silent_target_reads_zero(s: Seq<u8>)
    requires
        s.len() >= WORDSIZE,
        forall|i: int| 0 <= i < s.len() ==> s[i] == 0u8,
    ensures
        CoverageChannel::step_of_bytes(s) == 0,
{
    lemma_le_word_zero(s.take(WORDSIZE as int));
}

} // verus!
