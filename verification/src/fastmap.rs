//! Data shapes of the fastmap, the on-flash cache of the block scan.
//!
//! Scanning does not consult the fastmap; the shapes are kept so that the
//! whole on-flash data model is at hand.

use vstd::prelude::*;

verus! {

/// Most blocks that a fastmap may occupy.
pub const UBI_FM_MAX_BLOCKS: usize = 32;

/// Most entries of a fastmap scan pool.
pub const UBI_FM_MAX_POOL_SIZE: usize = 256;

/// Fastmap super block.
#[derive(Debug, PartialEq, Eq, Hash)]
pub struct FmSb {
    pub magic: u32,
    pub version: u8,
    pub padding1: [u8; 3],
    pub data_crc: u32,
    pub used_blocks: u32,
    pub block_loc: [u8; UBI_FM_MAX_BLOCKS],
    pub block_ec: [u8; UBI_FM_MAX_BLOCKS],
    pub sqnum: u64,
    pub padding2: [u8; 32],
}

/// Fastmap scan pool.
#[derive(Debug, PartialEq, Eq, Hash)]
pub struct FmScanPool {
    pub magic: u32,
    pub size: u16,
    pub pebs: [u32; UBI_FM_MAX_POOL_SIZE],
    pub padding: [u32; 4],
}

/// Fastmap erase counter of one block.
#[derive(Debug, PartialEq, Eq, Hash)]
pub struct FmEc {
    pub magic: u32,
    pub ec: u32,
}

/// Fastmap volume header.
#[derive(Debug, PartialEq, Eq, Hash)]
pub struct FmVolHdr {
    pub magic: u32,
    pub vol_id: u32,
    pub padding1: [u8; 3],
    pub data_pad: u32,
    pub used_ebs: u32,
    pub last_eb_bytes: u32,
    pub padding2: [u8; 8],
}

/// Fastmap erase-block association of one volume.
#[derive(Debug, PartialEq, Eq, Hash)]
pub struct FmEba {
    pub magic: u32,
    pub reserved_pebs: u32,
    /// One entry for each reserved block.
    pub pnum: Vec<u8>,
}

} // verus!
