//! Finding the size of the erase blocks of an image.
//!
//! The second block of an image starts, like every block, with the magic of
//! an erase-counter header. The block size is therefore the first power of
//! two, from 1 KiB to 512 KiB, at which that magic is found.

use crate::bytes::read_array;
use crate::ec_hdr::{ec_magic, is_ec_magic};
use crate::error::ImageError;
use vstd::arithmetic::power2::{lemma2_to64, lemma_pow2_unfold, pow2};
use vstd::prelude::*;

verus! {

/// Exponent of the smallest block size that is probed.
pub const MIN_BLOCK_SHIFT: u32 = 10;

/// One more than the exponent of the largest block size that is probed.
pub const END_BLOCK_SHIFT: u32 = 20;

/// Whether the four bytes of `source` at `off` are the erase-counter magic.
pub open spec fn has_ec_magic_at(source: Seq<u8>, off: int) -> bool {
    0 <= off && off + 4 <= source.len() && source.subrange(off, off + 4) == ec_magic()
}

/// The first of the sizes 2^k, 2^(k+1), .., 2^19 at which `source` holds the
/// erase-counter magic.
pub open spec fn locate_from(source: Seq<u8>, k: nat) -> Option<nat>
    decreases END_BLOCK_SHIFT - k,
{
    if k >= END_BLOCK_SHIFT {
        None
    } else if has_ec_magic_at(source, pow2(k) as int) {
        Some(pow2(k))
    } else {
        locate_from(source, k + 1)
    }
}

/// The block size of the image `source`, if one is found.
pub open spec fn block_size_of(source: Seq<u8>) -> Option<nat> {
    locate_from(source, MIN_BLOCK_SHIFT as nat)
}

/// Whether the four bytes at `off` are the erase-counter magic.
fn probe(source: &[u8], off: usize) -> (b: bool)
    ensures
        b == has_ec_magic_at(source@, off as int),
{
    if source.len() < 4 || off > source.len() - 4 {
        return false;
    }
    let magic: [u8; 4] = read_array(source, off);
    is_ec_magic(&magic)
}

/// Finds the block size of an image: the first of 2^10, .., 2^19 at which
/// the image holds the erase-counter magic.
pub fn find_block_size(source: &[u8]) -> (r: Result<u64, ImageError>)
    ensures
        match r {
            Ok(size) => block_size_of(source@) == Some(size as nat),
            Err(e) => block_size_of(source@) is None && e == ImageError::NoBlockSize,
        },
{
    let mut k: u32 = MIN_BLOCK_SHIFT;
    let mut size: u64 = 1024;
    proof {
        lemma2_to64();
    }
    while k < END_BLOCK_SHIFT
        invariant
            MIN_BLOCK_SHIFT <= k <= END_BLOCK_SHIFT,
            size == pow2(k as nat),
            size <= 0x10_0000,
            block_size_of(source@) == locate_from(source@, k as nat),
        decreases END_BLOCK_SHIFT - k,
    {
        let hit = if size <= source.len() as u64 {
            probe(source, size as usize)
        } else {
            false
        };
        if hit {
            return Ok(size);
        }
        proof {
            lemma_pow2_unfold((k + 1) as nat);
            lemma2_to64();
        }
        k += 1;
        size = size * 2;
    }
    Err(ImageError::NoBlockSize)
}

/// An image that holds the erase-counter magic at 2^k, and at no smaller
/// probed size, has block size 2^k.
pub proof fn lemma_block_size_found(source: Seq<u8>, k: nat)
    requires
        MIN_BLOCK_SHIFT <= k < END_BLOCK_SHIFT,
        has_ec_magic_at(source, pow2(k) as int),
        forall|j: nat| MIN_BLOCK_SHIFT <= j < k ==> !has_ec_magic_at(source, #[trigger] pow2(j) as int),
    ensures
        block_size_of(source) == Some(pow2(k)),
{
    lemma_locate_skips(source, MIN_BLOCK_SHIFT as nat, k);
}

/// An image that holds the erase-counter magic at none of the probed sizes
/// has no block size.
pub proof fn lemma_block_size_not_found(source: Seq<u8>)
    requires
        forall|j: nat|
            MIN_BLOCK_SHIFT <= j < END_BLOCK_SHIFT ==> !has_ec_magic_at(
                source,
                #[trigger] pow2(j) as int,
            ),
    ensures
        block_size_of(source) is None,
{
    lemma_locate_skips(source, MIN_BLOCK_SHIFT as nat, END_BLOCK_SHIFT as nat);
}

/// A block size that is found is a probed power of two at which the magic
/// stands, and the magic stands at no smaller probed size.
pub proof fn lemma_block_size_is_first(source: Seq<u8>)
    requires
        block_size_of(source) is Some,
    ensures
        exists|k: nat|
            MIN_BLOCK_SHIFT <= k < END_BLOCK_SHIFT && block_size_of(source) == Some(
                #[trigger] pow2(k),
            ) && has_ec_magic_at(source, pow2(k) as int) && forall|j: nat|
                MIN_BLOCK_SHIFT <= j < k ==> !has_ec_magic_at(source, #[trigger] pow2(j) as int),
{
    lemma_locate_hit(source, MIN_BLOCK_SHIFT as nat);
}

/// Probing from `from` passes over every size without the magic.
proof fn lemma_locate_skips(source: Seq<u8>, from: nat, to: nat)
    requires
        from <= to <= END_BLOCK_SHIFT,
        forall|j: nat| from <= j < to ==> !has_ec_magic_at(source, #[trigger] pow2(j) as int),
    ensures
        locate_from(source, from) == locate_from(source, to),
    decreases to - from,
{
    if from < to {
        lemma_locate_skips(source, from + 1, to);
    }
}

/// A hit of probing from `from` is the first size from there with the magic.
proof fn lemma_locate_hit(source: Seq<u8>, from: nat)
    requires
        locate_from(source, from) is Some,
    ensures
        exists|k: nat|
            from <= k < END_BLOCK_SHIFT && locate_from(source, from) == Some(#[trigger] pow2(k))
                && has_ec_magic_at(source, pow2(k) as int) && forall|j: nat|
                from <= j < k ==> !has_ec_magic_at(source, #[trigger] pow2(j) as int),
    decreases END_BLOCK_SHIFT - from,
{
    if has_ec_magic_at(source, pow2(from) as int) {
        assert(locate_from(source, from) == Some(pow2(from)));
    } else {
        lemma_locate_hit(source, from + 1);
        let k = choose|k: nat|
            from + 1 <= k < END_BLOCK_SHIFT && locate_from(source, from + 1) == Some(
                #[trigger] pow2(k),
            ) && has_ec_magic_at(source, pow2(k) as int) && forall|j: nat|
                from + 1 <= j < k ==> !has_ec_magic_at(source, #[trigger] pow2(j) as int);
        assert(locate_from(source, from) == Some(pow2(k)));
    }
}

} // verus!
