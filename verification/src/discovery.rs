//! Guard-count discovery: the one-shot probe that sizes every channel.
//!
//! Before the evolutionary loop starts, the raw target is launched once with
//! a diagnostic preload library that prints the target's total edge count to
//! standard output. This module holds the verified decision core: what the
//! probe's output means, and which startup error each failure is. Launching
//! the probe process itself is the surrounding program's job; it hands the
//! captured output in as plain bytes.

use vstd::prelude::*;

use crate::errors::FuzzerError;

verus! {

/// ASCII whitespace, as trimmed off the probe's output.
pub open spec fn is_space(b: u8) -> bool {
    b == 9 || b == 10 || b == 11 || b == 12 || b == 13 || b == 32
}

/// `s` without its leading whitespace.
pub open spec fn trim_front(s: Seq<u8>) -> Seq<u8>
    decreases s.len(),
{
    if s.len() > 0 && is_space(s[0]) {
        trim_front(s.drop_first())
    } else {
        s
    }
}

/// `s` without its trailing whitespace.
pub open spec fn trim_back(s: Seq<u8>) -> Seq<u8>
    decreases s.len(),
{
    if s.len() > 0 && is_space(s.last()) {
        trim_back(s.drop_last())
    } else {
        s
    }
}

/// `s` without leading and trailing whitespace.
pub open spec fn trimmed(s: Seq<u8>) -> Seq<u8> {
    trim_back(trim_front(s))
}

/// A non-empty string of ASCII decimal digits.
pub open spec fn all_digits(s: Seq<u8>) -> bool {
    s.len() > 0 && forall|i: int| 0 <= i < s.len() ==> 48 <= #[trigger] s[i] <= 57
}

/// The number a digit string denotes.
pub open spec fn dec_value(s: Seq<u8>) -> nat
    decreases s.len(),
{
    if s.len() == 0 {
        0nat
    } else {
        (10 * dec_value(s.drop_last()) + (s.last() - 48)) as nat
    }
}

/// What the probe's output means: the guard count it reports, if the output
/// is a positive decimal number that fits the machine.
pub open spec fn guard_count_spec(out: Seq<u8>) -> Option<nat> {
    let t = trimmed(out);
    if all_digits(t) && 0 < dec_value(t) <= usize::MAX {
        Some(dec_value(t))
    } else {
        None
    }
}

/// A longer digit string denotes no smaller a number.
pub proof fn lemma_dec_value_prefix(s: Seq<u8>, i: int)
    requires
        0 <= i <= s.len(),
        all_digits(s),
    ensures
        dec_value(s.take(i)) <= dec_value(s),
    decreases s.len() - i,
{
    if i < s.len() {
        lemma_dec_value_prefix(s, i + 1);
        assert(s.take(i + 1).drop_last() =~= s.take(i));
        assert(dec_value(s.take(i + 1)) == 10 * dec_value(s.take(i)) + (s.take(i + 1).last()
            - 48));
    } else {
        assert(s.take(i) =~= s);
    }
}

/// Parses the probe's output. Returns the reported guard count exactly when
/// the output, after trimming ASCII whitespace, is a positive decimal number
/// that fits the machine; everything else — an empty or non-numeric output, a
/// reported count of zero, an overflowing number — is
/// [`FuzzerError::InvalidGuardCount`].
pub fn parse_guard_count(out: &Vec<u8>) -> (r: Result<usize, FuzzerError>)
    ensures
        guard_count_spec(out@) is Some ==> r == Result::<usize, FuzzerError>::Ok(
            guard_count_spec(out@)->0 as usize,
        ),
        guard_count_spec(out@) is None ==> r == Result::<usize, FuzzerError>::Err(
            FuzzerError::InvalidGuardCount,
        ),
{
    let n = out.len();
    let mut lo: usize = 0;
    proof {
        assert(out@.skip(0) =~= out@);
    }
    while lo < n && (out[lo] == 9 || out[lo] == 10 || out[lo] == 11 || out[lo] == 12 || out[lo]
        == 13 || out[lo] == 32)
        invariant
            lo <= n,
            n == out@.len(),
            trim_front(out@) == trim_front(out@.skip(lo as int)),
        decreases n - lo,
    {
        proof {
            assert(out@.skip(lo as int).drop_first() =~= out@.skip(lo as int + 1));
        }
        lo = lo + 1;
    }
    proof {
        assert(trim_front(out@) =~= out@.skip(lo as int));
        assert(out@.skip(lo as int) =~= out@.subrange(lo as int, n as int));
    }
    let mut hi: usize = n;
    while hi > lo && (out[hi - 1] == 9 || out[hi - 1] == 10 || out[hi - 1] == 11 || out[hi - 1]
        == 12 || out[hi - 1] == 13 || out[hi - 1] == 32)
        invariant
            lo <= hi <= n,
            n == out@.len(),
            trim_front(out@) == out@.subrange(lo as int, n as int),
            trimmed(out@) == trim_back(out@.subrange(lo as int, hi as int)),
        decreases hi,
    {
        proof {
            assert(out@.subrange(lo as int, hi as int).drop_last() =~= out@.subrange(
                lo as int,
                hi as int - 1,
            ));
        }
        hi = hi - 1;
    }
    let ghost t = trimmed(out@);
    proof {
        assert(t =~= out@.subrange(lo as int, hi as int));
    }
    if lo == hi {
        // Nothing but whitespace: unparsable.
        return Err(FuzzerError::InvalidGuardCount);
    }
    let mut acc: usize = 0;
    let mut i: usize = lo;
    while i < hi
        invariant
            lo <= i <= hi <= n,
            n == out@.len(),
            hi > lo,
            t == trimmed(out@),
            t == out@.subrange(lo as int, hi as int),
            forall|j: int| lo <= j < i ==> 48 <= #[trigger] out@[j] <= 57,
            acc == dec_value(t.take(i - lo)),
        decreases hi - i,
    {
        let b = out[i];
        if b < 48 || b > 57 {
            // A non-digit inside the trimmed region: unparsable.
            proof {
                assert(t[i - lo] == out@[i as int]);
                assert(!all_digits(t));
            }
            return Err(FuzzerError::InvalidGuardCount);
        }
        let d = (b - 48) as usize;
        if acc > (usize::MAX - d) / 10 {
            // The reported number does not fit the machine.
            proof {
                let m = (usize::MAX - d) as int;
                assert(acc >= m / 10 + 1);
                assert(10 * acc >= 10 * (m / 10) + 10);
                assert(10 * (m / 10) + 10 > m);
                assert(10 * acc + d > usize::MAX);
                assert(t.take(i + 1 - lo).drop_last() =~= t.take(i - lo));
                assert(t.take(i + 1 - lo).last() == out@[i as int]);
                assert(dec_value(t.take(i + 1 - lo)) > usize::MAX);
                if all_digits(t) {
                    lemma_dec_value_prefix(t, i + 1 - lo);
                }
            }
            return Err(FuzzerError::InvalidGuardCount);
        }
        proof {
            assert(10 * acc + d <= usize::MAX);
            assert(t.take(i + 1 - lo).drop_last() =~= t.take(i - lo));
            assert(t.take(i + 1 - lo).last() == out@[i as int]);
        }
        acc = acc * 10 + d;
        i = i + 1;
    }
    proof {
        assert(t.take(hi - lo) =~= t);
        assert(forall|k: int| 0 <= k < t.len() ==> 48 <= #[trigger] t[k] <= 57);
        assert(all_digits(t));
    }
    if acc == 0 {
        // The target reported no edges at all.
        return Err(FuzzerError::InvalidGuardCount);
    }
    Ok(acc)
}

/// The whole discovery decision. The surrounding program checks the two
/// paths and runs the probe; this function turns what it found into the
/// channel-sizing guard count or the exact startup error:
/// a missing target binary, then a missing diagnostic library, then the
/// probe's output judged by [`parse_guard_count`].
pub fn discover_guard_count(binary_exists: bool, library_exists: bool, probe_stdout: &Vec<u8>) -> (r:
    Result<usize, FuzzerError>)
    ensures
        !binary_exists ==> r == Result::<usize, FuzzerError>::Err(FuzzerError::BinaryNotFound),
        binary_exists && !library_exists ==> r == Result::<usize, FuzzerError>::Err(
            FuzzerError::MissingInstrumentationLibrary,
        ),
        binary_exists && library_exists && guard_count_spec(probe_stdout@) is Some ==> r
            == Result::<usize, FuzzerError>::Ok(guard_count_spec(probe_stdout@)->0 as usize),
        binary_exists && library_exists && guard_count_spec(probe_stdout@) is None ==> r
            == Result::<usize, FuzzerError>::Err(FuzzerError::InvalidGuardCount),
{
    if !binary_exists {
        return Err(FuzzerError::BinaryNotFound);
    }
    if !library_exists {
        return Err(FuzzerError::MissingInstrumentationLibrary);
    }
    parse_guard_count(probe_stdout)
}

} // verus!
