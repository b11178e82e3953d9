use correctness_fuzzer::channel::{
    channel_size, descriptor_from_string, descriptor_to_string, CoverageChannel,
};
use correctness_fuzzer::errors::FuzzerError;
use correctness_fuzzer::word::WORDSIZE;

use libafl_bolts::shmem::ShMemDescription;

#[test]
fn channel_size_is_word_plus_guards() {
    assert_eq!(channel_size(1), Some(WORDSIZE + 1));
    assert_eq!(channel_size(128), Some(WORDSIZE + 128));
    assert_eq!(channel_size(0), None);
    assert_eq!(channel_size(usize::MAX), None);
    assert_eq!(channel_size(usize::MAX - WORDSIZE), Some(usize::MAX));
}

#[test]
fn create_yields_requested_length() {
    let size = WORDSIZE + 64;
    let (descriptor, channel) = CoverageChannel::create(size).unwrap();
    assert_eq!(channel.len(), size);
    assert_eq!(descriptor.size, size);
}

#[test]
fn attach_created_descriptor_yields_same_length() {
    // For all valid sizes, attach(create(S).descriptor) has byte length S.
    for guards in [1usize, 7, 128, 4096] {
        let size = WORDSIZE + guards;
        let (descriptor, _channel) = CoverageChannel::create(size).unwrap();
        let attached = CoverageChannel::attach(&descriptor).unwrap();
        assert_eq!(attached.len(), size);
    }
}

#[test]
fn attach_stale_descriptor_fails_with_channel_unavailable() {
    let descriptor = ShMemDescription::from_string_and_size("/nosuchshm", 128);
    let r = CoverageChannel::attach(&descriptor);
    assert_eq!(r.unwrap_err(), FuzzerError::ChannelUnavailable);
}

#[test]
fn attach_undersized_descriptor_fails() {
    // A descriptor too small for the layout is malformed, even if it mapped.
    let (descriptor, _channel) = CoverageChannel::create(WORDSIZE + 1).unwrap();
    let small = ShMemDescription {
        size: WORDSIZE,
        id: descriptor.id,
    };
    let r = CoverageChannel::attach(&small);
    assert_eq!(r.unwrap_err(), FuzzerError::ChannelUnavailable);
}

#[test]
fn reset_then_write_then_reset_is_clean() {
    // Resetting, writing edge byte 5 = 200, and resetting again leaves all
    // other bytes 0 and the progress step 0.
    let size = WORDSIZE + 16;
    let (_descriptor, mut channel) = CoverageChannel::create(size).unwrap();
    channel.reset();
    channel.write_edge(5, 200);
    let snapshot = channel.snapshot();
    assert_eq!(snapshot[WORDSIZE + 5], 200);
    for (i, b) in snapshot.iter().enumerate() {
        if i != WORDSIZE + 5 {
            assert_eq!(*b, 0, "byte {i} should be zero");
        }
    }
    channel.reset();
    let snapshot = channel.snapshot();
    assert!(snapshot.iter().all(|b| *b == 0));
    assert_eq!(snapshot.len(), size);
}

#[test]
fn progress_word_roundtrips_through_the_segment() {
    let size = WORDSIZE + 4;
    let (_descriptor, mut channel) = CoverageChannel::create(size).unwrap();
    channel.reset();
    channel.write_progress(0x0123_4567_89ab_cdef);
    let snapshot = channel.snapshot();
    assert_eq!(
        &snapshot[..WORDSIZE],
        &[0xef, 0xcd, 0xab, 0x89, 0x67, 0x45, 0x23, 0x01]
    );
    // Edge bytes stay as the reset left them.
    assert!(snapshot[WORDSIZE..].iter().all(|b| *b == 0));
}

#[test]
fn writes_through_attached_channel_are_seen_by_creator() {
    // The descriptor exchange really names the same segment.
    let size = WORDSIZE + 8;
    let (descriptor, mut parent) = CoverageChannel::create(size).unwrap();
    parent.reset();
    let mut child = CoverageChannel::attach(&descriptor).unwrap();
    child.write_edge(3, 42);
    let snapshot = parent.snapshot();
    assert_eq!(snapshot[WORDSIZE + 3], 42);
}

#[test]
fn descriptor_string_roundtrip_is_lossless() {
    let size = WORDSIZE + 32;
    let (descriptor, _channel) = CoverageChannel::create(size).unwrap();
    let text = descriptor_to_string(&descriptor);
    let parsed = descriptor_from_string(&text).unwrap();
    assert_eq!(parsed.size, descriptor.size);
    assert_eq!(parsed.id, descriptor.id);
}

#[test]
fn descriptor_garbage_is_unparsable() {
    let r = descriptor_from_string("not a descriptor");
    assert_eq!(r.unwrap_err(), FuzzerError::DescriptorUnparsable);
}
