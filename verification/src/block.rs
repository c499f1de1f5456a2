//! The two headers of one physical erase block, and its payload.

use crate::ec_hdr::{EcHdr, EcHdrView};
use crate::error::ImageError;
use crate::vid_hdr::{VidHdr, VidHdrView, VolType};
use vstd::prelude::*;

verus! {

/// What is left of `source` from offset `off` on; nothing when `off` lies
/// behind the end.
pub open spec fn tail(source: Seq<u8>, off: int) -> Seq<u8> {
    if 0 <= off <= source.len() {
        source.subrange(off, source.len() as int)
    } else {
        Seq::empty()
    }
}

/// The headers of physical block `i` of an image with blocks of
/// `block_size` bytes: the erase-counter header at the start of the block,
/// and the volume-identifier header where the first one says it is.
pub open spec fn block_headers(source: Seq<u8>, block_size: int, i: int) -> Result<
    (EcHdrView, VidHdrView),
    ImageError,
> {
    match EcHdrView::parse(tail(source, i * block_size)) {
        Err(e) => Err(ImageError::EcHdr { block: i as u64, error: e }),
        Ok(ec) => match VidHdrView::parse(tail(source, i * block_size + ec.vid_hdr_offset)) {
            Err(e) => Err(ImageError::VidHdr { block: i as u64, error: e }),
            Ok(vid) => Ok((ec, vid)),
        },
    }
}

/// Number of payload bytes that a block with headers `ec` and `vid`
/// contributes to its volume: what its header declares for a static volume,
/// all that follows the data offset for a dynamic one.
pub open spec fn payload_len(block_size: int, ec: EcHdrView, vid: VidHdrView) -> int {
    match vid.vol_type {
        VolType::Static => vid.data_size as int,
        VolType::Dynamic => block_size - ec.data_offset,
    }
}

/// The payload of physical block `i`: the bytes that are copied out of it,
/// read from the data offset of the block on. The read may begin anywhere,
/// but must not reach behind the end of the image.
pub open spec fn block_payload(source: Seq<u8>, block_size: int, i: int) -> Result<
    Seq<u8>,
    ImageError,
> {
    match block_headers(source, block_size, i) {
        Err(e) => Err(e),
        Ok((ec, vid)) => {
            let rest = tail(source, i * block_size + ec.data_offset);
            let len = payload_len(block_size, ec, vid);
            if len < 0 {
                Err(ImageError::DataOffset { block: i as u64 })
            } else if len > rest.len() {
                Err(ImageError::ShortData { block: i as u64 })
            } else {
                Ok(rest.subrange(0, len))
            }
        },
    }
}

/// A payload is cut out of the image at the data offset of its block, and
/// has the length that the kind of volume asks for: the declared data size
/// for a static volume, the rest of the block for a dynamic one.
pub proof fn lemma_payload_size(source: Seq<u8>, block_size: int, i: int)
    requires
        block_payload(source, block_size, i) is Ok,
    ensures
        block_headers(source, block_size, i) is Ok,
        ({
            let (ec, vid) = block_headers(source, block_size, i).unwrap();
            let payload = block_payload(source, block_size, i).unwrap();
            let start = i * block_size + ec.data_offset;
            &&& payload.len() == match vid.vol_type {
                VolType::Static => vid.data_size as int,
                VolType::Dynamic => block_size - ec.data_offset,
            }
            &&& payload.len() > 0 ==> 0 <= start && start + payload.len() <= source.len()
                && payload == source.subrange(start, start + payload.len())
        }),
{
    let (ec, vid) = block_headers(source, block_size, i).unwrap();
    let payload = block_payload(source, block_size, i).unwrap();
    let start = i * block_size + ec.data_offset;
    if payload.len() > 0 {
        assert(payload =~= source.subrange(start, start + payload.len()));
    }
}

/// The bytes of `source` from the offset `block * block_size + rel` on.
pub fn tail_at(source: &[u8], block: u64, block_size: u64, rel: u64) -> (r: &[u8])
    ensures
        r@ == tail(source@, block * block_size + rel),
{
    let n = source.len();
    let off = match block.checked_mul(block_size) {
        None => None,
        Some(start) => start.checked_add(rel),
    };
    match off {
        Some(off) => {
            if off <= n as u64 {
                let r = &source[off as usize..n];
                assert(r@ =~= tail(source@, block * block_size + rel));
                r
            } else {
                &source[0..0]
            }
        },
        None => &source[0..0],
    }
}

/// Decodes the two headers of physical block `i`.
pub fn read_block_headers(source: &[u8], block_size: u64, i: u64) -> (r: Result<
    (EcHdr, VidHdr),
    ImageError,
>)
    ensures
        match r {
            Ok((ec, vid)) => block_headers(source@, block_size as int, i as int) == Ok::<
                (EcHdrView, VidHdrView),
                ImageError,
            >((ec@, vid@)),
            Err(e) => block_headers(source@, block_size as int, i as int) == Err::<
                (EcHdrView, VidHdrView),
                ImageError,
            >(e),
        },
{
    let ec = match EcHdr::from_bytes(tail_at(source, i, block_size, 0)) {
        Ok(ec) => ec,
        Err(e) => {
            return Err(ImageError::EcHdr { block: i, error: e });
        },
    };
    let vid = match VidHdr::from_bytes(tail_at(source, i, block_size, ec.vid_hdr_offset as u64)) {
        Ok(vid) => vid,
        Err(e) => {
            return Err(ImageError::VidHdr { block: i, error: e });
        },
    };
    Ok((ec, vid))
}

/// Reads the payload of physical block `i`.
pub fn read_block_payload(source: &[u8], block_size: u64, i: u64) -> (r: Result<&[u8], ImageError>)
    ensures
        match r {
            Ok(p) => block_payload(source@, block_size as int, i as int) == Ok::<
                Seq<u8>,
                ImageError,
            >(p@),
            Err(e) => block_payload(source@, block_size as int, i as int) == Err::<
                Seq<u8>,
                ImageError,
            >(e),
        },
{
    let (ec, vid) = match read_block_headers(source, block_size, i) {
        Ok(headers) => headers,
        Err(e) => {
            return Err(e);
        },
    };
    let data_offset = ec.data_offset as u64;
    let len: u64 = match vid.vol_type {
        VolType::Static => vid.data_size as u64,
        VolType::Dynamic => {
            if data_offset > block_size {
                return Err(ImageError::DataOffset { block: i });
            }
            block_size - data_offset
        },
    };
    let rest = tail_at(source, i, block_size, data_offset);
    if len > rest.len() as u64 {
        return Err(ImageError::ShortData { block: i });
    }
    Ok(&rest[0..len as usize])
}

} // verus!
