//! The coverage channel: a shared-memory segment laid out as
//! `[progress-step word][edge-hit-count bytes]`, together with the descriptor
//! by which a child process attaches the same segment.
//!
//! The segment itself is a mapping of `libafl_bolts`; this module keeps it
//! behind a handful of trusted wrappers and models its contents as a byte
//! sequence. Parent and child never run against one segment at the same time:
//! the run's protocol is an exclusive hand-off (attach before use, reset
//! before use), and the one read that happens after the target ran
//! re-establishes the modelled contents from whatever the target left behind.

use vstd::prelude::*;

use libafl_bolts::shmem::{MmapShMem, MmapShMemProvider, ShMem, ShMemDescription, ShMemProvider};

use crate::errors::FuzzerError;
use crate::word::{le_bytes, le_word, lemma_le_bytes_len, lemma_le_bytes_snoc, pow256, WORDSIZE};

verus! {

/// A channel must hold the progress word and at least one edge byte.
pub open spec fn valid_channel_size(s: int) -> bool {
    WORDSIZE < s <= usize::MAX
}

/// The shared-memory mapping of `libafl_bolts` that backs a coverage channel.
#[verifier::external_type_specification]
#[verifier::external_body]
pub struct ExMmapShMem(MmapShMem);

/// The handle from which another process re-attaches a mapping; serialized
/// into the child's environment.
#[verifier::external_type_specification]
#[verifier::external_body]
pub struct ExShMemDescription(ShMemDescription);

/// The bytes a mapping holds, as last established by this process: writes
/// update them in place, and a snapshot re-establishes them from the segment.
pub uninterp spec fn shmem_bytes(m: MmapShMem) -> Seq<u8>;

/// The segment size a descriptor records.
pub uninterp spec fn descriptor_size(d: ShMemDescription) -> int;

/// Relies on `MmapShMemProvider::new_shmem` and `MmapShMem::persist`: a fresh
/// segment of `size` bytes is created (a new shared-memory file, sized by
/// `ftruncate` and therefore zero-filled, then mapped) and its file
/// descriptor is kept open across `exec` so a child can attach it.
#[verifier::external_body]
fn new_shared_mapping(size: usize) -> (r: Result<MmapShMem, FuzzerError>)
    ensures
        r is Ok ==> shmem_bytes(r->Ok_0) == Seq::new(size as nat, |i: int| 0u8),
        r is Err ==> r->Err_0 == FuzzerError::ChannelUnavailable,
{
    let mut provider = MmapShMemProvider::new().map_err(|_| FuzzerError::ChannelUnavailable)?;
    let mapping = provider.new_shmem(size).map_err(|_| FuzzerError::ChannelUnavailable)?;
    mapping.persist().map_err(|_| FuzzerError::ChannelUnavailable)
}

/// Relies on `ShMem::description`: the descriptor records the mapping's
/// length and its id.
#[verifier::external_body]
fn mapping_description(m: &MmapShMem) -> (r: ShMemDescription)
    ensures
        descriptor_size(r) == shmem_bytes(*m).len(),
{
    m.description()
}

/// Relies on `ShMemProvider::shmem_from_description` for `MmapShMemProvider`:
/// on success the descriptor's segment is mapped again, with the length the
/// descriptor records; a stale or malformed descriptor or an unmappable
/// region is an error. The recorded size is trusted: a descriptor that
/// over-states its backing segment's size still maps, and touching the
/// excess then faults at the operating system — the exposure the underlying
/// mapping has, shared with every honest and dishonest descriptor producer;
/// within this crate only descriptors from [`CoverageChannel::create`]
/// circulate.
#[verifier::external_body]
fn map_from_description(d: &ShMemDescription) -> (r: Result<MmapShMem, FuzzerError>)
    ensures
        r is Ok ==> shmem_bytes(r->Ok_0).len() == descriptor_size(*d),
        r is Err ==> r->Err_0 == FuzzerError::ChannelUnavailable,
{
    let mut provider = MmapShMemProvider::new().map_err(|_| FuzzerError::ChannelUnavailable)?;
    provider.shmem_from_description(*d).map_err(|_| FuzzerError::ChannelUnavailable)
}

/// Relies on `MmapShMem`'s deref to the mapped bytes: their number is the
/// mapping's fixed length.
#[verifier::external_body]
fn mapping_len(m: &MmapShMem) -> (r: usize)
    ensures
        r == shmem_bytes(*m).len(),
{
    m.len()
}

/// Relies on `MmapShMem`'s mutable deref to the mapped bytes: writing one
/// byte in place.
#[verifier::external_body]
fn mapping_write(m: &mut MmapShMem, i: usize, v: u8)
    requires
        i < shmem_bytes(*old(m)).len(),
    ensures
        shmem_bytes(*final(m)) == shmem_bytes(*old(m)).update(i as int, v),
{
    (*m)[i] = v;
}

/// Relies on `MmapShMem`'s deref to the mapped bytes: copying them out. The
/// target process may have written the segment since this process last did,
/// so only the length carries over; the modelled contents are re-established
/// from what was read.
#[verifier::external_body]
fn mapping_snapshot(m: &mut MmapShMem) -> (r: Vec<u8>)
    ensures
        r@ == shmem_bytes(*final(m)),
        r@.len() == shmem_bytes(*old(m)).len(),
{
    m.to_vec()
}

/// The JSON text that descriptor serialization writes for a descriptor.
pub uninterp spec fn descriptor_json(d: ShMemDescription) -> Seq<char>;

/// Relies on `serde_json::to_string` for `ShMemDescription`: a plain struct
/// of an integer size and a fixed byte-array id, whose serialization cannot
/// fail and is deterministic in the descriptor alone.
#[verifier::external_body]
pub fn descriptor_to_string(d: &ShMemDescription) -> (r: String)
    ensures
        r@ == descriptor_json(*d),
        forall|d2: ShMemDescription| r@ == descriptor_json(d2) ==> d2 == *d,
{
    serde_json::to_string(d).unwrap()
}

/// Relies on `serde_json::from_str` for `ShMemDescription`: any text equal
/// to a descriptor's serialization parses back to that descriptor — the
/// lossless round trip the environment hand-off depends on. The parser also
/// accepts other spellings of a descriptor (say, with extra whitespace);
/// the contract promises nothing of those beyond the error value.
#[verifier::external_body]
pub fn descriptor_from_string(s: &str) -> (r: Result<ShMemDescription, FuzzerError>)
    ensures
        r is Ok ==> (forall|d: ShMemDescription| s@ == descriptor_json(d) ==> r->Ok_0 == d),
        r is Err ==> forall|d: ShMemDescription| s@ != descriptor_json(d),
        r is Err ==> r->Err_0 == FuzzerError::DescriptorUnparsable,
{
    serde_json::from_str(s).map_err(|_| FuzzerError::DescriptorUnparsable)
}

/// The channel size a guard count fixes: the progress word plus one byte
/// per edge. Nothing for a target without edges, or for a count so large
/// the sum does not fit the machine.
pub fn channel_size(guard_count: usize) -> (r: Option<usize>)
    ensures
        r is Some <==> 0 < guard_count <= usize::MAX - WORDSIZE,
        r is Some ==> r->0 == WORDSIZE + guard_count && valid_channel_size(r->0 as int),
{
    if guard_count == 0 {
        None
    } else if guard_count > usize::MAX - WORDSIZE {
        None
    } else {
        Some(WORDSIZE + guard_count)
    }
}

/// One coverage channel: the progress word followed by one byte per edge.
#[derive(Debug)]
pub struct CoverageChannel {
    mapping: MmapShMem,
}

impl CoverageChannel {
    /// The bytes the channel holds.
    pub closed spec fn contents(self) -> Seq<u8> {
        shmem_bytes(self.mapping)
    }

    /// A channel is well-formed when its size fits the layout.
    pub open spec fn wf(self) -> bool {
        valid_channel_size(self.contents().len() as int)
    }

    /// How many edge bytes the channel has room for.
    pub open spec fn guard_count(self) -> int {
        self.contents().len() - WORDSIZE
    }

    /// Creates a fresh zero-filled channel of `size` bytes together with the
    /// descriptor by which a child process attaches it.
    pub fn create(size: usize) -> (r: Result<(ShMemDescription, CoverageChannel), FuzzerError>)
        requires
            valid_channel_size(size as int),
        ensures
            r is Ok ==> r->Ok_0.1.contents() == Seq::new(size as nat, |i: int| 0u8),
            r is Ok ==> r->Ok_0.1.wf(),
            r is Ok ==> descriptor_size(r->Ok_0.0) == size,
            r is Err ==> r->Err_0 == FuzzerError::ChannelUnavailable,
    {
        let mapping = match new_shared_mapping(size) {
            Ok(m) => m,
            Err(e) => { return Err(e); },
        };
        let descriptor = mapping_description(&mapping);
        Ok((descriptor, CoverageChannel { mapping }))
    }

    /// Attaches the channel a descriptor names. Fails with
    /// [`FuzzerError::ChannelUnavailable`] on a stale or malformed descriptor
    /// or an unmappable region; such a failure breaks one execution, it is no
    /// crash finding.
    pub fn attach(descriptor: &ShMemDescription) -> (r: Result<CoverageChannel, FuzzerError>)
        ensures
            r is Ok ==> r->Ok_0.contents().len() == descriptor_size(*descriptor),
            r is Ok ==> r->Ok_0.wf(),
            !valid_channel_size(descriptor_size(*descriptor)) ==> r is Err,
            r is Err ==> r->Err_0 == FuzzerError::ChannelUnavailable,
    {
        let mapping = match map_from_description(descriptor) {
            Ok(m) => m,
            Err(e) => { return Err(e); },
        };
        let channel = CoverageChannel { mapping };
        if channel.len() <= WORDSIZE {
            return Err(FuzzerError::ChannelUnavailable);
        }
        Ok(channel)
    }

    /// The channel's byte length.
    pub fn len(&self) -> (r: usize)
        ensures
            r == self.contents().len(),
    {
        mapping_len(&self.mapping)
    }

    /// Zeroes the whole channel: the progress word and every edge byte. Run
    /// before every execution so no stale data crosses an evaluation
    /// boundary, whatever the channel held before.
    pub fn reset(&mut self)
        ensures
            final(self).contents() == Seq::new(old(self).contents().len(), |i: int| 0u8),
    {
        let n = self.len();
        let mut i: usize = 0;
        while i < n
            invariant
                i <= n,
                n == self.contents().len(),
                forall|j: int| 0 <= j < i ==> self.contents()[j] == 0u8,
            decreases n - i,
        {
            mapping_write(&mut self.mapping, i, 0u8);
            i = i + 1;
        }
        proof {
            assert(self.contents() =~= Seq::new(old(self).contents().len(), |i: int| 0u8));
        }
    }

    /// Writes the saturating hit count of edge `idx`.
    pub fn write_edge(&mut self, idx: usize, v: u8)
        requires
            old(self).wf(),
            idx < old(self).guard_count(),
        ensures
            final(self).contents() == old(self).contents().update(WORDSIZE + idx, v),
    {
        mapping_write(&mut self.mapping, WORDSIZE + idx, v);
    }

    /// Stores `step` into the progress word, least-significant byte first,
    /// leaving every edge byte as it was.
    pub fn write_progress(&mut self, step: u64)
        requires
            old(self).wf(),
        ensures
            final(self).contents() == le_bytes(step as nat, WORDSIZE as nat) + old(
                self,
            ).contents().skip(WORDSIZE as int),
    {
        let ghost orig = self.contents();
        let mut cur: u64 = step;
        let mut i: usize = 0;
        proof {
            lemma_le_bytes_len(step as nat, 0);
            assert(le_bytes(step as nat, 0) + orig.skip(0) =~= orig);
            assert(pow256(0) == 1);
            assert(step as nat / 1 == step as nat);
        }
        while i < WORDSIZE
            invariant
                i <= WORDSIZE,
                orig.len() > WORDSIZE,
                self.contents() == le_bytes(step as nat, i as nat) + orig.skip(i as int),
                cur as nat == step as nat / pow256(i as nat),
            decreases WORDSIZE - i,
        {
            proof {
                lemma_le_bytes_len(step as nat, i as nat);
                lemma_le_bytes_snoc(step as nat, i as nat);
                assert(self.contents().len() == orig.len());
            }
            mapping_write(&mut self.mapping, i, (cur % 256) as u8);
            proof {
                lemma_le_bytes_len(step as nat, (i + 1) as nat);
                assert(self.contents() =~= le_bytes(step as nat, (i + 1) as nat) + orig.skip(
                    i as int + 1,
                ));
                crate::word::lemma_shift_down(step as nat, i as nat);
            }
            cur = cur / 256;
            i = i + 1;
        }
    }

    /// Copies the channel out, after the target ran: whatever the target's
    /// shim flushed before exit — or the reset values, if it never did.
    pub fn snapshot(&mut self) -> (r: Vec<u8>)
        ensures
            r@ == final(self).contents(),
            r@.len() == old(self).contents().len(),
    {
        mapping_snapshot(&mut self.mapping)
    }

    /// The progress step the channel currently holds, read from a snapshot.
    pub open spec fn step_of_bytes(bytes: Seq<u8>) -> nat {
        le_word(bytes.take(WORDSIZE as int))
    }
}

/// For every valid size, attaching the descriptor of a freshly created
/// channel yields a channel of exactly that byte length: `create` ensures
/// the descriptor records the size, and `attach` ensures the attached
/// channel has the descriptor's recorded length.
pub proof fn lemma_attach_create_length(
    size: usize,
    descriptor: ShMemDescription,
    attached: CoverageChannel,
)
    requires
        valid_channel_size(size as int),
        descriptor_size(descriptor) == size,
        attached.contents().len() == descriptor_size(descriptor),
    ensures
        attached.contents().len() == size,
        attached.wf(),
{
}

/// Resetting is a clean slate whatever happened in between: after a reset,
/// an edge write, and the next reset, every byte is zero again and the
/// progress step reads zero — the same state the first reset left.
pub proof fn lemma_reset_after_write_is_clean(n: int, idx: int, v: u8)
    requires
        valid_channel_size(n),
        0 <= idx < n - WORDSIZE,
    ensures
        ({
            let after_first = Seq::new(n as nat, |j: int| 0u8);
            let written = after_first.update(WORDSIZE + idx, v);
            let after_second = Seq::new(written.len(), |j: int| 0u8);
            &&& after_second == after_first
            &&& forall|j: int| 0 <= j < after_second.len() ==> after_second[j] == 0u8
            &&& CoverageChannel::step_of_bytes(after_second) == 0
        }),
{
    let after_first = Seq::new(n as nat, |j: int| 0u8);
    let written = after_first.update(WORDSIZE + idx, v);
    let after_second = Seq::new(written.len(), |j: int| 0u8);
    assert(after_second =~= after_first);
    crate::word::lemma_le_word_zero(after_second.take(WORDSIZE as int));
}

/// The progress word round-trips: whatever step the shim stores, the
/// observer's read of the stored bytes yields that step back.
pub proof fn lemma_progress_word_roundtrip(step: u64, rest: Seq<u8>)
    ensures
        CoverageChannel::step_of_bytes(le_bytes(step as nat, WORDSIZE as nat) + rest) == step,
{
    assert(pow256(WORDSIZE as nat) == 0x1_0000_0000_0000_0000) by {
        reveal_with_fuel(pow256, 9);
    }
    crate::word::lemma_le_bytes_word_roundtrip(step as nat, WORDSIZE as nat);
    assert((le_bytes(step as nat, WORDSIZE as nat) + rest).take(WORDSIZE as int) =~= le_bytes(
        step as nat,
        WORDSIZE as nat,
    ));
}

} // verus!
