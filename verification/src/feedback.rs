//! Correctness statistics: the bounded progress-step histogram and its
//! periodic reports.
//!
//! After every execution the observed step's bucket is incremented;
//! out-of-range steps are ignored, they never fail the run. Every reporting
//! interval the histogram is rendered for the monitoring system, as a
//! relative distribution (bucket count over cumulative total) and, offset by
//! half an interval, as a raw absolute count table. This bookkeeping never
//! marks an input interesting: interestingness is decided by the coverage,
//! crash and timeout feedbacks alone.

use vstd::prelude::*;

verus! {

/// Largest progress step the histogram tracks; larger steps are ignored.
pub const MAX_CORRECTNESS_STEPS: usize = 1024;

/// A report is emitted every this many executions.
pub const REPORT_INTERVAL: u64 = 100;

/// The absolute-count report runs offset by half an interval.
pub const ABSOLUTE_REPORT_OFFSET: u64 = 50;

/// The persistent histogram: bucket `s` counts how many executions ended at
/// progress step `s`. Owned by one worker's state, never shared.
#[derive(Debug)]
pub struct CorrectnessMetadata {
    counts: Vec<u64>,
}

/// The cumulative total of all buckets.
pub open spec fn total(counts: Seq<u64>) -> nat
    decreases counts.len(),
{
    if counts.len() == 0 {
        0nat
    } else {
        (total(counts.drop_last()) + counts.last()) as nat
    }
}

/// One bucket never exceeds the total.
pub proof fn lemma_bucket_le_total(counts: Seq<u64>, i: int)
    requires
        0 <= i < counts.len(),
    ensures
        counts[i] <= total(counts),
    decreases counts.len(),
{
    if i + 1 == counts.len() {
    } else {
        lemma_bucket_le_total(counts.drop_last(), i);
    }
}

impl CorrectnessMetadata {
    /// The histogram's buckets.
    pub closed spec fn counts(self) -> Seq<u64> {
        self.counts@
    }

    /// The histogram always holds one bucket per trackable step.
    pub open spec fn wf(self) -> bool {
        self.counts().len() == MAX_CORRECTNESS_STEPS + 1
    }

    /// A fresh histogram: every bucket zero.
    pub fn new() -> (r: Self)
        ensures
            r.wf(),
            r.counts() == Seq::new((MAX_CORRECTNESS_STEPS + 1) as nat, |i: int| 0u64),
    {
        let mut counts: Vec<u64> = Vec::new();
        let mut i: usize = 0;
        while i < MAX_CORRECTNESS_STEPS + 1
            invariant
                i <= MAX_CORRECTNESS_STEPS + 1,
                counts@.len() == i,
                forall|j: int| 0 <= j < i ==> counts@[j] == 0u64,
            decreases MAX_CORRECTNESS_STEPS + 1 - i,
        {
            counts.push(0);
            i = i + 1;
        }
        proof {
            assert(counts@ =~= Seq::new((MAX_CORRECTNESS_STEPS + 1) as nat, |i: int| 0u64));
        }
        CorrectnessMetadata { counts }
    }

    /// Records one execution's progress step. A step past the histogram's
    /// bound is ignored, never an error; a bucket at the counter's maximum
    /// stays there.
    pub fn record(&mut self, step: u64)
        requires
            old(self).wf(),
        ensures
            final(self).wf(),
            step <= MAX_CORRECTNESS_STEPS ==> final(self).counts() == old(self).counts().update(
                step as int,
                if old(self).counts()[step as int] == u64::MAX {
                    u64::MAX
                } else {
                    (old(self).counts()[step as int] + 1) as u64
                },
            ),
            step > MAX_CORRECTNESS_STEPS ==> final(self).counts() == old(self).counts(),
    {
        if step <= MAX_CORRECTNESS_STEPS as u64 {
            let i = step as usize;
            let c = self.counts[i];
            if c < u64::MAX {
                self.counts[i] = c + 1;
            } else {
                proof {
                    assert(self.counts@ =~= old(self).counts().update(step as int, u64::MAX));
                }
            }
        }
    }

    /// The raw buckets, for the surrounding program to persist.
    pub fn buckets(&self) -> (r: &Vec<u64>)
        ensures
            r@ == self.counts(),
    {
        &self.counts
    }

    /// Restores a histogram from persisted buckets of the right shape.
    pub fn from_buckets(counts: Vec<u64>) -> (r: Option<Self>)
        ensures
            counts@.len() == MAX_CORRECTNESS_STEPS + 1 ==> (r matches Some(m) && m.counts()
                == counts@ && m.wf()),
            counts@.len() != MAX_CORRECTNESS_STEPS + 1 ==> r is None,
    {
        if counts.len() == MAX_CORRECTNESS_STEPS + 1 {
            Some(CorrectnessMetadata { counts })
        } else {
            None
        }
    }

    /// This feedback is pure bookkeeping: it never marks an input
    /// interesting.
    pub fn interesting(&self) -> (r: bool)
        ensures
            r == false,
    {
        false
    }
}

/// The decimal digits of `n`, most significant first.
pub open spec fn dec_digits(n: nat) -> Seq<u8>
    decreases n,
{
    if n < 10 {
        seq![(48 + n) as u8]
    } else {
        dec_digits(n / 10) + seq![(48 + n % 10) as u8]
    }
}

/// Appends the decimal digits of `n`.
pub fn push_decimal(out: &mut Vec<u8>, n: u64)
    ensures
        final(out)@ == old(out)@ + dec_digits(n as nat),
    decreases n,
{
    if n < 10 {
        out.push((48 + n) as u8);
        proof {
            assert(out@ =~= old(out)@ + dec_digits(n as nat));
        }
    } else {
        push_decimal(out, n / 10);
        out.push((48 + n % 10) as u8);
        proof {
            assert(out@ =~= old(out)@ + dec_digits(n as nat));
        }
    }
}

/// ": " between a bucket's index and its value.
pub open spec fn colon_space() -> Seq<u8> {
    seq![58u8, 32u8]
}

/// ", " between report entries.
pub open spec fn entry_sep() -> Seq<u8> {
    seq![44u8, 32u8]
}

/// The share `c` of `tot`, in thousandths, rounded to nearest (ties up).
pub open spec fn thousandths(c: nat, tot: nat) -> nat {
    if tot == 0 {
        0nat
    } else {
        (c * 1000 + tot / 2) / tot
    }
}

/// `t` thousandths rendered as "w.fff".
pub open spec fn ratio_bytes(t: nat) -> Seq<u8> {
    dec_digits(t / 1000) + seq![
        46u8,
        (48 + (t / 100) % 10) as u8,
        (48 + (t / 10) % 10) as u8,
        (48 + t % 10) as u8,
    ]
}

/// One relative-report entry: the bucket's index and its share of the total.
pub open spec fn relative_entry(i: nat, c: nat, tot: nat) -> Seq<u8> {
    dec_digits(i) + colon_space() + ratio_bytes(thousandths(c, tot))
}

/// The relative report from bucket `i` on; empty buckets are absent.
pub open spec fn relative_from(counts: Seq<u64>, tot: nat, i: int, first: bool) -> Seq<u8>
    decreases counts.len() - i,
{
    if i < 0 || i >= counts.len() {
        Seq::empty()
    } else if counts[i] == 0 {
        relative_from(counts, tot, i + 1, first)
    } else {
        (if first {
            Seq::empty()
        } else {
            entry_sep()
        }) + relative_entry(i as nat, counts[i] as nat, tot) + relative_from(
            counts,
            tot,
            i + 1,
            false,
        )
    }
}

/// The whole relative-distribution report: every non-empty bucket's count
/// over the cumulative total.
pub open spec fn relative_report(counts: Seq<u64>) -> Seq<u8> {
    relative_from(counts, total(counts), 0, true)
}

/// One absolute-report entry: the bucket's index and its raw count.
pub open spec fn absolute_entry(i: nat, c: nat) -> Seq<u8> {
    dec_digits(i) + colon_space() + dec_digits(c)
}

/// The absolute report from bucket `i` on; empty buckets are absent.
pub open spec fn absolute_from(counts: Seq<u64>, i: int, first: bool) -> Seq<u8>
    decreases counts.len() - i,
{
    if i < 0 || i >= counts.len() {
        Seq::empty()
    } else if counts[i] == 0 {
        absolute_from(counts, i + 1, first)
    } else {
        (if first {
            Seq::empty()
        } else {
            entry_sep()
        }) + absolute_entry(i as nat, counts[i] as nat) + absolute_from(counts, i + 1, false)
    }
}

/// The whole raw absolute count table.
pub open spec fn absolute_report(counts: Seq<u64>) -> Seq<u8> {
    absolute_from(counts, 0, true)
}

/// Sums the buckets.
fn compute_total(counts: &Vec<u64>) -> (r: u128)
    requires
        counts@.len() == MAX_CORRECTNESS_STEPS + 1,
    ensures
        r == total(counts@),
        r <= (MAX_CORRECTNESS_STEPS + 1) * 0xffff_ffff_ffff_ffff,
{
    let mut acc: u128 = 0;
    let mut i: usize = 0;
    proof {
        assert(counts@.take(0) =~= Seq::<u64>::empty());
    }
    while i < counts.len()
        invariant
            i <= counts@.len(),
            counts@.len() == MAX_CORRECTNESS_STEPS + 1,
            acc == total(counts@.take(i as int)),
            acc <= i * 0xffff_ffff_ffff_ffffu128,
        decreases counts@.len() - i,
    {
        proof {
            assert(counts@.take(i + 1).drop_last() =~= counts@.take(i as int));
            assert(counts@.take(i + 1).last() == counts@[i as int]);
        }
        acc = acc + (counts[i] as u128);
        i = i + 1;
    }
    proof {
        assert(counts@.take(counts@.len() as int) =~= counts@);
    }
    acc
}

impl CorrectnessMetadata {
    /// Renders the relative-distribution report: for every bucket hit at
    /// least once, its share of all recorded executions in thousandths.
    pub fn render_relative(&self) -> (r: Vec<u8>)
        requires
            self.wf(),
        ensures
            r@ == relative_report(self.counts()),
    {
        let tot = compute_total(&self.counts);
        let mut out: Vec<u8> = Vec::new();
        let mut first: bool = true;
        let mut i: usize = 0;
        let n = self.counts.len();
        while i < n
            invariant
                i <= n,
                n == self.counts@.len(),
                self.wf(),
                tot == total(self.counts@),
                tot <= (MAX_CORRECTNESS_STEPS + 1) * 0xffff_ffff_ffff_ffff,
                relative_report(self.counts@) == out@ + relative_from(
                    self.counts@,
                    total(self.counts@),
                    i as int,
                    first,
                ),
            decreases n - i,
        {
            let c = self.counts[i];
            if c > 0 {
                let ghost before = out@;
                if !first {
                    out.push(44);
                    out.push(32);
                }
                push_decimal(&mut out, i as u64);
                out.push(58);
                out.push(32);
                proof {
                    lemma_bucket_le_total(self.counts@, i as int);
                    assert(tot >= c >= 1);
                }
                let th_wide: u128 = ((c as u128) * 1000 + tot / 2) / tot;
                proof {
                    vstd::arithmetic::div_mod::lemma_div_is_ordered(
                        c as int * 1000 + tot as int / 2,
                        tot as int * 1000 + tot as int / 2,
                        tot as int,
                    );
                    assert(tot as int * 1000 == 1000 * tot as int);
                    vstd::arithmetic::div_mod::lemma_div_multiples_vanish_fancy(
                        1000,
                        tot as int / 2,
                        tot as int,
                    );
                    assert(th_wide <= 1000);
                    assert(th_wide == thousandths(c as nat, total(self.counts@)));
                }
                let th: u64 = th_wide as u64;
                push_decimal(&mut out, th / 1000);
                out.push(46);
                out.push(((48 + (th / 100) % 10) as u8));
                out.push(((48 + (th / 10) % 10) as u8));
                out.push(((48 + th % 10) as u8));
                proof {
                    assert(out@ =~= before + (if first {
                        Seq::<u8>::empty()
                    } else {
                        entry_sep()
                    }) + relative_entry(i as nat, c as nat, total(self.counts@)));
                }
                first = false;
            }
            i = i + 1;
        }
        out
    }

    /// Renders the raw absolute count table: every bucket hit at least once,
    /// with its cumulative count.
    pub fn render_absolute(&self) -> (r: Vec<u8>)
        requires
            self.wf(),
        ensures
            r@ == absolute_report(self.counts()),
    {
        let mut out: Vec<u8> = Vec::new();
        let mut first: bool = true;
        let mut i: usize = 0;
        let n = self.counts.len();
        while i < n
            invariant
                i <= n,
                n == self.counts@.len(),
                self.wf(),
                absolute_report(self.counts@) == out@ + absolute_from(
                    self.counts@,
                    i as int,
                    first,
                ),
            decreases n - i,
        {
            let c = self.counts[i];
            if c > 0 {
                let ghost before = out@;
                if !first {
                    out.push(44);
                    out.push(32);
                }
                push_decimal(&mut out, i as u64);
                out.push(58);
                out.push(32);
                push_decimal(&mut out, c);
                proof {
                    assert(out@ =~= before + (if first {
                        Seq::<u8>::empty()
                    } else {
                        entry_sep()
                    }) + absolute_entry(i as nat, c as nat));
                }
                first = false;
            }
            i = i + 1;
        }
        out
    }

    /// The whole per-execution bookkeeping step: records the progress step,
    /// and renders whichever of the two periodic reports is due after
    /// `executions` executions.
    pub fn after_execution(&mut self, step: u64, executions: u64) -> (r: (
        Option<Vec<u8>>,
        Option<Vec<u8>>,
    ))
        requires
            old(self).wf(),
        ensures
            final(self).wf(),
            final(self).counts() == recorded(old(self).counts(), step),
            r.0 is Some <==> executions % REPORT_INTERVAL == 0,
            r.0 is Some ==> r.0->0@ == relative_report(final(self).counts()),
            r.1 is Some <==> executions % REPORT_INTERVAL == ABSOLUTE_REPORT_OFFSET,
            r.1 is Some ==> r.1->0@ == absolute_report(final(self).counts()),
    {
        self.record(step);
        let relative = if due_relative_report(executions) {
            Some(self.render_relative())
        } else {
            None
        };
        let absolute = if due_absolute_report(executions) {
            Some(self.render_absolute())
        } else {
            None
        };
        (relative, absolute)
    }
}

/// What one recording does to the buckets: the step's bucket rises by one,
/// saturating at the counter's maximum; a step past the bound changes
/// nothing.
pub open spec fn recorded(counts: Seq<u64>, step: u64) -> Seq<u64> {
    if step <= MAX_CORRECTNESS_STEPS && counts.len() == MAX_CORRECTNESS_STEPS + 1 {
        counts.update(
            step as int,
            if counts[step as int] == u64::MAX {
                u64::MAX
            } else {
                (counts[step as int] + 1) as u64
            },
        )
    } else {
        counts
    }
}

/// Whether the relative-distribution report is due after this many
/// executions.
pub fn due_relative_report(executions: u64) -> (r: bool)
    ensures
        r == (executions % REPORT_INTERVAL == 0),
{
    executions % REPORT_INTERVAL == 0
}

/// Whether the absolute-count report is due after this many executions.
pub fn due_absolute_report(executions: u64) -> (r: bool)
    ensures
        r == (executions % REPORT_INTERVAL == ABSOLUTE_REPORT_OFFSET),
{
    executions % REPORT_INTERVAL == ABSOLUTE_REPORT_OFFSET
}

} // verus!
