//! Failures that decoding and scanning can report.

use vstd::prelude::*;

verus! {

/// Why a header or a record could not be decoded from, or encoded to, bytes.
#[derive(Debug, Clone, Copy, PartialEq, Eq, Structural)]
pub enum FormatError {
    /// Fewer bytes were available than the fixed layout needs.
    ShortRead,
    /// The bytes do not begin with the magic of this kind of header.
    BadMagic,
    /// The version byte of a volume-identifier header is not 1.
    BadVersion,
    /// The volume-type byte names neither a dynamic nor a static volume.
    BadVolType,
    /// The name length of a volume-table record is not below the maximum.
    BadNameLen,
}

/// Why an image could not be scanned or a volume could not be extracted.
#[derive(Debug, Clone, Copy, PartialEq, Eq, Structural)]
pub enum ImageError {
    /// No probed offset holds the erase-counter magic: no block size found.
    NoBlockSize,
    /// The block size given is zero.
    ZeroBlockSize,
    /// The erase-counter header of physical block `block` does not decode.
    EcHdr { block: u64, error: FormatError },
    /// The volume-identifier header of physical block `block` does not decode.
    VidHdr { block: u64, error: FormatError },
    /// No block belongs to the volume that holds the volume table.
    NoVolumeTable,
    /// The first block of the volume table, physical block `block`, gives
    /// itself another logical block number, `lnum`.
    TableBlockMismatch { block: u64, lnum: u32 },
    /// The block of the volume table has room for more slots than a slot
    /// number can count.
    TableTooLong,
    /// No block belongs to the volume asked for.
    UnknownVolume { vol_id: u32 },
    /// The payload of physical block `block` would begin behind the block's end.
    DataOffset { block: u64 },
    /// The payload of physical block `block` reaches behind the end of the image.
    ShortData { block: u64 },
}

} // verus!
