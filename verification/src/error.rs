//! What can go wrong.

use vstd::prelude::*;

verus! {

/// The ways in which an operation on an image fails. Every failure is found
/// before anything is written: an operation that fails leaves the image as
/// it was.
#[derive(Debug, PartialEq, Eq)]
pub enum PeError {
    /// The file is shorter than a DOS header.
    TooSmall,
    /// The DOS or the NT signature is not what it must be.
    InvalidFormat,
    /// The file ends before the end of what was to be read or written.
    TruncatedFile,
    /// No section has this name.
    SectionNotFound { name: Vec<u8> },
    /// No section holds this address.
    AddressOutOfBounds { address: u32 },
    /// A patch of `patch_len` bytes begins in the section with this index
    /// where only `available` bytes are left before the end of the
    /// section's raw data.
    PatchExceedsSection { section: usize, patch_len: usize, available: u32 },
    /// The patch stream ends in the middle of a record.
    MalformedPatchStream,
    /// The argument at this position of the command line is not what the
    /// command accepts.
    InvalidArgument { index: usize },
    /// The image has no data directory entry with this index.
    MissingDataDirectory { index: usize },
}

/// A failure as the contracts speak of it: `PeError` with the name that was
/// looked for as a sequence of bytes.
pub enum Failure {
    TooSmall,
    InvalidFormat,
    TruncatedFile,
    SectionNotFound { name: Seq<u8> },
    AddressOutOfBounds { address: u32 },
    PatchExceedsSection { section: usize, patch_len: usize, available: u32 },
    MalformedPatchStream,
    InvalidArgument { index: usize },
    MissingDataDirectory { index: usize },
}

impl View for PeError {
    type V = Failure;

    open spec fn view(&self) -> Failure {
        match *self {
            PeError::TooSmall => Failure::TooSmall,
            PeError::InvalidFormat => Failure::InvalidFormat,
            PeError::TruncatedFile => Failure::TruncatedFile,
            PeError::SectionNotFound { name } => Failure::SectionNotFound { name: name@ },
            PeError::AddressOutOfBounds { address } => Failure::AddressOutOfBounds { address },
            PeError::PatchExceedsSection { section, patch_len, available } => {
                Failure::PatchExceedsSection { section, patch_len, available }
            },
            PeError::MalformedPatchStream => Failure::MalformedPatchStream,
            PeError::InvalidArgument { index } => Failure::InvalidArgument { index },
            PeError::MissingDataDirectory { index } => Failure::MissingDataDirectory { index },
        }
    }
}

} // verus!
