//! The progress-step word.
//!
//! A channel starts with a fixed-width unsigned word holding the target's
//! progress step, stored least-significant byte first. This module defines
//! the mathematical meaning of such a word and verified routines that store
//! and load it.

use vstd::prelude::*;

verus! {

/// Number of bytes of the progress-step word at the head of a channel.
pub const WORDSIZE: usize = 8;

/// 256 raised to `n`: the number of values `n` bytes can hold.
pub open spec fn pow256(n: nat) -> nat
    decreases n,
{
    if n == 0 {
        1
    } else {
        256 * pow256((n - 1) as nat)
    }
}

/// The value of a little-endian byte string.
pub open spec fn le_word(s: Seq<u8>) -> nat
    decreases s.len(),
{
    if s.len() == 0 {
        0nat
    } else {
        (s[0] + 256 * le_word(s.drop_first())) as nat
    }
}

/// The `n`-byte little-endian form of `x mod 256^n`.
pub open spec fn le_bytes(x: nat, n: nat) -> Seq<u8>
    decreases n,
{
    if n == 0 {
        Seq::empty()
    } else {
        seq![(x % 256) as u8] + le_bytes(x / 256, (n - 1) as nat)
    }
}

/// A little-endian string of `n` bytes holds a value below `256^n`.
pub proof fn lemma_le_word_bound(s: Seq<u8>)
    ensures
        le_word(s) < pow256(s.len()),
    decreases s.len(),
{
    if s.len() > 0 {
        lemma_le_word_bound(s.drop_first());
    }
}

/// An all-zero byte string reads as zero: the reset value of the word is the
/// progress step a silent target leaves behind.
pub proof fn lemma_le_word_zero(s: Seq<u8>)
    requires
        forall|i: int| 0 <= i < s.len() ==> s[i] == 0,
    ensures
        le_word(s) == 0,
    decreases s.len(),
{
    if s.len() > 0 {
        lemma_le_word_zero(s.drop_first());
    }
}

/// Storing then loading a word is the identity on values the word can hold.
pub proof fn lemma_le_bytes_word_roundtrip(x: nat, n: nat)
    requires
        x < pow256(n),
    ensures
        le_bytes(x, n).len() == n,
        le_word(le_bytes(x, n)) == x,
    decreases n,
{
    lemma_le_bytes_len(x, n);
    if n > 0 {
        lemma_le_bytes_word_roundtrip(x / 256, (n - 1) as nat);
        assert(le_bytes(x, n).drop_first() =~= le_bytes(x / 256, (n - 1) as nat));
    }
}

/// The little-endian form of a value has the requested length.
pub proof fn lemma_le_bytes_len(x: nat, n: nat)
    ensures
        le_bytes(x, n).len() == n,
    decreases n,
{
    if n > 0 {
        lemma_le_bytes_len(x / 256, (n - 1) as nat);
    }
}

/// Growing a little-endian form by one byte appends the next base-256 digit.
pub proof fn lemma_le_bytes_snoc(x: nat, i: nat)
    ensures
        le_bytes(x, i + 1) =~= le_bytes(x, i) + seq![((x / pow256(i)) % 256) as u8],
    decreases i,
{
    if i == 0 {
        assert(pow256(0) == 1);
        assert(x / 1 == x);
        assert(le_bytes(x, 0) =~= Seq::<u8>::empty());
        assert(le_bytes(x, 1) == seq![(x % 256) as u8] + le_bytes(x / 256, 0));
        assert(le_bytes(x / 256, 0) =~= Seq::<u8>::empty());
        assert(le_bytes(x, 1) =~= le_bytes(x, 0) + seq![((x / pow256(0)) % 256) as u8]);
    } else {
        lemma_le_bytes_snoc(x / 256, (i - 1) as nat);
        assert(x / 256 / pow256((i - 1) as nat) == x / pow256(i)) by {
            lemma_pow256_pos((i - 1) as nat);
            lemma_div_chain(x, 256, pow256((i - 1) as nat));
        }
        let h = (x % 256) as u8;
        let d = ((x / pow256(i)) % 256) as u8;
        let p = le_bytes(x / 256, (i - 1) as nat);
        assert(le_bytes(x, i + 1) == seq![h] + le_bytes(x / 256, i));
        assert(le_bytes(x / 256, i) == p + seq![d]);
        assert(le_bytes(x, i) == seq![h] + p);
        assert(seq![h] + (p + seq![d]) =~= (seq![h] + p) + seq![d]);
    }
}

/// Dropping one more byte of precision divides by one more factor of 256.
pub proof fn lemma_shift_down(x: nat, i: nat)
    ensures
        x / pow256(i) / 256 == x / pow256(i + 1),
{
    lemma_pow256_pos(i);
    vstd::arithmetic::div_mod::lemma_div_denominator(x as int, pow256(i) as int, 256);
    assert(pow256(i) * 256 == 256 * pow256(i)) by (nonlinear_arith);
}

/// Every power of 256 is positive.
pub proof fn lemma_pow256_pos(n: nat)
    ensures
        pow256(n) > 0,
    decreases n,
{
    if n > 0 {
        lemma_pow256_pos((n - 1) as nat);
    }
}

/// Dividing twice is dividing by the product.
proof fn lemma_div_chain(x: nat, a: nat, b: nat)
    requires
        a > 0,
        b > 0,
    ensures
        x / a / b == x / (a * b),
{
    vstd::arithmetic::div_mod::lemma_div_denominator(x as int, a as int, b as int);
}

/// Loads the word held by the first [`WORDSIZE`] bytes of `s`.
pub fn load_word(s: &Vec<u8>) -> (r: u64)
    requires
        s@.len() >= WORDSIZE,
    ensures
        r == le_word(s@.take(WORDSIZE as int)),
{
    proof {
        lemma_le_word_bound(s@.take(WORDSIZE as int));
    }
    let mut acc: u64 = 0;
    let mut j: usize = WORDSIZE;
    while j > 0
        invariant
            j <= WORDSIZE,
            s@.len() >= WORDSIZE,
            acc == le_word(s@.take(WORDSIZE as int).skip(j as int)),
            acc < pow256((WORDSIZE - j) as nat),
        decreases j,
    {
        proof {
            let w = s@.take(WORDSIZE as int);
            assert(w.skip(j as int - 1).drop_first() =~= w.skip(j as int));
            assert(w.skip(j as int - 1)[0] == s@[j as int - 1]);
            lemma_le_word_bound(w.skip(j as int - 1));
            assert(pow256((WORDSIZE - j + 1) as nat) == 256 * pow256((WORDSIZE - j) as nat));
            assert(pow256(WORDSIZE as nat) == 0x1_0000_0000_0000_0000) by {
                reveal_with_fuel(pow256, 9);
            }
            lemma_pow256_increases((WORDSIZE - j + 1) as nat, WORDSIZE as nat);
        }
        j = j - 1;
        acc = acc * 256 + (s[j] as u64);
    }
    proof {
        assert(s@.take(WORDSIZE as int).skip(0) =~= s@.take(WORDSIZE as int));
    }
    acc
}

/// More bytes hold no fewer values.
proof fn lemma_pow256_increases(m: nat, n: nat)
    requires
        m <= n,
    ensures
        pow256(m) <= pow256(n),
    decreases n,
{
    if m < n {
        lemma_pow256_increases(m, (n - 1) as nat);
    }
}

} // verus!
