//! The instrumentation shim's decision core.
//!
//! The shim rides into the target through dynamic-loader preloading and runs
//! at the intercepted exit point, immediately before the real finalizer. The
//! unsafe parts — symbol resolution by name, raw reads of the target's guard
//! arrays, the interception itself — stay in the surrounding program; this
//! module decides, over plain values, what lands in the channel: edge values
//! saturated to the byte range if and only if the reported guard count
//! matches the channel's capacity, and the progress value only when the
//! target wrote a non-zero one. A missing symbol is non-fatal: the affected
//! field simply keeps its reset value.

use vstd::prelude::*;
use vstd::string::StringSliceAdditionalSpecFns;

use crate::channel::CoverageChannel;
use crate::feedback::dec_digits;
use crate::word::{le_bytes, lemma_le_word_zero, WORDSIZE};

verus! {

/// A hit counter saturated to the byte range the channel stores: an edge
/// byte is a saturating 0–255 count, so a hotter edge never reads colder.
pub open spec fn saturated_byte(v: i32) -> u8 {
    if v <= 0 {
        0u8
    } else if v >= 255 {
        255u8
    } else {
        v as u8
    }
}

/// Saturates the target's 32-bit edge-hit values into the 0–255 range, one
/// byte per edge, as the channel stores them.
pub fn guard_values_to_bytes(values: &Vec<i32>) -> (r: Vec<u8>)
    ensures
        r@.len() == values@.len(),
        forall|i: int| 0 <= i < values@.len() ==> r@[i] == saturated_byte(values@[i]),
{
    let mut out: Vec<u8> = Vec::new();
    let mut i: usize = 0;
    while i < values.len()
        invariant
            i <= values@.len(),
            out@.len() == i,
            forall|j: int| 0 <= j < i ==> out@[j] == saturated_byte(values@[j]),
        decreases values@.len() - i,
    {
        let v = values[i];
        let b: u8 = if v <= 0 {
            0
        } else if v >= 255 {
            255
        } else {
            v as u8
        };
        out.push(b);
        i = i + 1;
    }
    out
}

/// What one shim flush leaves in a channel that held `contents`: the edge
/// bytes replace the edge region only when their number matches its
/// capacity; a non-zero progress value lands in the progress word; everything
/// else keeps its value.
pub open spec fn flushed(contents: Seq<u8>, edges: Seq<u8>, progress: Option<u64>) -> Seq<u8> {
    let with_edges = if edges.len() == contents.len() - WORDSIZE {
        contents.take(WORDSIZE as int) + edges
    } else {
        contents
    };
    match progress {
        Some(p) => if p != 0 {
            le_bytes(p as nat, WORDSIZE as nat) + with_edges.skip(WORDSIZE as int)
        } else {
            with_edges
        },
        None => with_edges,
    }
}

impl CoverageChannel {
    /// The shim's flush, at the intercepted exit point: writes the edge
    /// bytes if and only if their number matches the channel's capacity
    /// (the result says whether it did — `false` is the size mismatch the
    /// shim logs), then the progress value if the target wrote a non-zero
    /// one. `None` stands for a missing progress symbol: the word keeps its
    /// reset value.
    pub fn shim_flush(&mut self, edge_bytes: &Vec<u8>, progress: Option<u64>) -> (r: bool)
        requires
            old(self).wf(),
        ensures
            final(self).contents() == flushed(old(self).contents(), edge_bytes@, progress),
            r == (edge_bytes@.len() == old(self).guard_count()),
    {
        let ghost orig = self.contents();
        let n = self.len();
        let sizes_match = edge_bytes.len() == n - WORDSIZE;
        if sizes_match {
            let mut i: usize = 0;
            proof {
                assert(orig.take(WORDSIZE as int) + edge_bytes@.take(0) + orig.skip(
                    WORDSIZE as int,
                ) =~= orig);
            }
            while i < n - WORDSIZE
                invariant
                    i <= n - WORDSIZE,
                    n == self.contents().len(),
                    n == orig.len(),
                    n > WORDSIZE,
                    edge_bytes@.len() == n - WORDSIZE,
                    self.contents() == orig.take(WORDSIZE as int) + edge_bytes@.take(i as int)
                        + orig.skip(WORDSIZE as int + i as int),
                decreases n - WORDSIZE - i,
            {
                let b = edge_bytes[i];
                self.write_edge(i, b);
                proof {
                    assert(self.contents() =~= orig.take(WORDSIZE as int) + edge_bytes@.take(
                        i as int + 1,
                    ) + orig.skip(WORDSIZE as int + i as int + 1));
                }
                i = i + 1;
            }
            proof {
                assert(edge_bytes@.take(edge_bytes@.len() as int) =~= edge_bytes@);
                assert(orig.skip(orig.len() as int) =~= Seq::<u8>::empty());
                assert(self.contents() =~= orig.take(WORDSIZE as int) + edge_bytes@);
            }
        }
        match progress {
            Some(p) => {
                if p != 0 {
                    self.write_progress(p);
                }
            },
            None => {},
        }
        proof {
            assert(self.contents() =~= flushed(orig, edge_bytes@, progress));
        }
        sizes_match
    }
}

/// A target that never writes the global progress variable — the symbol is
/// missing, or the value stayed zero — leaves the progress word at its reset
/// value, whatever happened to the edge region, and the step then reads
/// zero.
pub proof fn lemma_missing_progress_reads_zero(
    contents: Seq<u8>,
    edges: Seq<u8>,
    progress: Option<u64>,
)
    requires
        contents.len() > WORDSIZE,
        forall|i: int| 0 <= i < contents.len() ==> contents[i] == 0u8,
        progress is None || progress->0 == 0,
    ensures
        CoverageChannel::step_of_bytes(flushed(contents, edges, progress)) == 0,
{
    let result = flushed(contents, edges, progress);
    assert(result.take(WORDSIZE as int) =~= contents.take(WORDSIZE as int));
    lemma_le_word_zero(result.take(WORDSIZE as int));
}

/// A non-zero progress value the shim flushed is exactly what the observer
/// reads back out of the channel, whatever happened to the edge region.
pub proof fn lemma_flushed_progress_reads_back(contents: Seq<u8>, edges: Seq<u8>, progress: u64)
    requires
        contents.len() > WORDSIZE,
        progress != 0,
    ensures
        CoverageChannel::step_of_bytes(flushed(contents, edges, Some(progress))) == progress,
{
    let with_edges = if edges.len() == contents.len() - WORDSIZE {
        contents.take(WORDSIZE as int) + edges
    } else {
        contents
    };
    crate::channel::lemma_progress_word_roundtrip(
        progress,
        with_edges.skip(WORDSIZE as int),
    );
}

/// One line of the shim's fault log: the millisecond timestamp, the message,
/// a newline.
pub fn render_log_line(millis: u64, message: &str) -> (r: Vec<u8>)
    ensures
        r@ == dec_digits(millis as nat) + seq![58u8, 32u8] + message.spec_bytes() + seq![10u8],
{
    let mut out: Vec<u8> = Vec::new();
    crate::feedback::push_decimal(&mut out, millis);
    out.push(58);
    out.push(32);
    let bytes = message.as_bytes();
    let n = bytes.len();
    let ghost mid = out@;
    let mut i: usize = 0;
    while i < n
        invariant
            i <= n,
            n == message.spec_bytes().len(),
            bytes@ == message.spec_bytes(),
            out@ == mid + message.spec_bytes().take(i as int),
        decreases n - i,
    {
        let b = bytes[i];
        out.push(b);
        proof {
            assert(out@ =~= mid + message.spec_bytes().take(i as int + 1));
        }
        i = i + 1;
    }
    out.push(10);
    proof {
        assert(message.spec_bytes().take(n as int) =~= message.spec_bytes());
        assert(out@ =~= dec_digits(millis as nat) + seq![58u8, 32u8] + message.spec_bytes()
            + seq![10u8]);
    }
    out
}

} // verus!
