//! The error taxonomy of the harness.
//!
//! Fatal-to-worker conditions (a missing target binary, a missing diagnostic
//! library, an invalid guard count, an unparsable channel descriptor, an empty
//! mandatory seed corpus) abort worker startup; everything that happens during
//! the loop is either recoverable per execution or an outcome, never one of
//! these errors.

use vstd::prelude::*;

verus! {

/// A fatal worker-startup error, or a per-execution channel failure.
#[derive(Clone, Copy, Debug, PartialEq, Eq, Structural)]
pub enum FuzzerError {
    /// The target binary does not exist at the configured path.
    BinaryNotFound,
    /// The diagnostic preload library for guard-count discovery is missing.
    MissingInstrumentationLibrary,
    /// The target reported a guard count of zero, or printed no number.
    InvalidGuardCount,
    /// A channel could not be created or attached from its descriptor.
    ChannelUnavailable,
    /// The serialized channel descriptor could not be parsed.
    DescriptorUnparsable,
    /// The mandatory seed corpus held no readable file.
    EmptySeedCorpus,
    /// A structured input could not be decoded to bytes.
    DecodeFailed,
    /// Seed bytes could not be tokenized into a structured input.
    EncodeFailed,
}

impl FuzzerError {
    /// The diagnostic text of each error.
    pub open spec fn message_spec(self) -> Seq<char> {
        match self {
            FuzzerError::BinaryNotFound => "target binary not found"@,
            FuzzerError::MissingInstrumentationLibrary => {
                "missing shared library to instrument the target"@
            },
            FuzzerError::InvalidGuardCount => "target reported an invalid guard count"@,
            FuzzerError::ChannelUnavailable => "coverage channel unavailable"@,
            FuzzerError::DescriptorUnparsable => "could not parse the channel descriptor"@,
            FuzzerError::EmptySeedCorpus => "no seeds found in corpus directory"@,
            FuzzerError::DecodeFailed => "could not decode the structured input"@,
            FuzzerError::EncodeFailed => "could not tokenize the seed bytes"@,
        }
    }

    /// A human-readable description, for the surrounding program to print.
    pub fn message(&self) -> (r: &'static str)
        ensures
            r@ == self.message_spec(),
    {
        match self {
            FuzzerError::BinaryNotFound => "target binary not found",
            FuzzerError::MissingInstrumentationLibrary => {
                "missing shared library to instrument the target"
            },
            FuzzerError::InvalidGuardCount => "target reported an invalid guard count",
            FuzzerError::ChannelUnavailable => "coverage channel unavailable",
            FuzzerError::DescriptorUnparsable => "could not parse the channel descriptor",
            FuzzerError::EmptySeedCorpus => "no seeds found in corpus directory",
            FuzzerError::DecodeFailed => "could not decode the structured input",
            FuzzerError::EncodeFailed => "could not tokenize the seed bytes",
        }
    }
}

} // verus!
