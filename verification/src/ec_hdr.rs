//! The erase-counter header, the first structure of every physical block.

use crate::bytes::{
    append_bytes, be_u32, be_u64, lemma_u32_decode_encode, lemma_u32_encode_decode,
    lemma_u64_decode_encode, lemma_u64_encode_decode, read_array, read_be_u32, read_be_u64, u32_be,
    u64_be, write_be_u32, write_be_u64,
};
use crate::error::FormatError;
use vstd::prelude::*;

verus! {

/// Number of bytes an erase-counter header occupies.
pub const EC_HDR_SIZE: usize = 64;

/// The magic `UBI#` of an erase-counter header.
pub const UBI_EC_HDR_MAGIC: [u8; 4] = [0x55, 0x42, 0x49, 0x23];

/// The magic `UBI#` as a sequence.
pub open spec fn ec_magic() -> Seq<u8> {
    UBI_EC_HDR_MAGIC@
}

/// Whether `magic` spells `UBI#`.
pub fn is_ec_magic(magic: &[u8; 4]) -> (b: bool)
    ensures
        b == (magic@ == ec_magic()),
{
    let b = magic[0] == UBI_EC_HDR_MAGIC[0] && magic[1] == UBI_EC_HDR_MAGIC[1] && magic[2]
        == UBI_EC_HDR_MAGIC[2] && magic[3] == UBI_EC_HDR_MAGIC[3];
    proof {
        if b {
            assert(magic@ =~= ec_magic());
        }
    }
    b
}

/// Erase-counter header.
#[derive(Debug, PartialEq, Eq, Hash)]
pub struct EcHdr {
    /// Magic string `UBI#`.
    pub magic: [u8; 4],
    /// Format version meant to accept this image.
    pub version: u8,
    /// Reserved.
    pub padding1: [u8; 3],
    /// Erase counter.
    pub ec: u64,
    /// Where the volume-identifier header starts within the block.
    pub vid_hdr_offset: u32,
    /// Where the payload starts within the block.
    pub data_offset: u32,
    /// Image sequence number.
    pub image_seq: u32,
    /// Reserved.
    pub padding2: [u8; 32],
    /// Checksum of the header; carried, not verified.
    pub hdr_crc: u32,
}

/// Mathematical model of an [`EcHdr`]: byte arrays become sequences.
pub struct EcHdrView {
    pub magic: Seq<u8>,
    pub version: u8,
    pub padding1: Seq<u8>,
    pub ec: u64,
    pub vid_hdr_offset: u32,
    pub data_offset: u32,
    pub image_seq: u32,
    pub padding2: Seq<u8>,
    pub hdr_crc: u32,
}

impl View for EcHdr {
    type V = EcHdrView;

    open spec fn view(&self) -> EcHdrView {
        EcHdrView {
            magic: self.magic@,
            version: self.version,
            padding1: self.padding1@,
            ec: self.ec,
            vid_hdr_offset: self.vid_hdr_offset,
            data_offset: self.data_offset,
            image_seq: self.image_seq,
            padding2: self.padding2@,
            hdr_crc: self.hdr_crc,
        }
    }
}

impl EcHdrView {
    /// The byte fields have the lengths of the layout.
    pub open spec fn wf(self) -> bool {
        &&& self.magic.len() == 4
        &&& self.padding1.len() == 3
        &&& self.padding2.len() == 32
    }

    /// What decoding accepts and encoding emits: the layout with the right magic.
    pub open spec fn valid(self) -> bool {
        self.wf() && self.magic == ec_magic()
    }

    /// The header that `bytes` begin with. Fields are taken in layout order,
    /// so the magic is judged as soon as its four bytes are there.
    pub open spec fn parse(bytes: Seq<u8>) -> Result<EcHdrView, FormatError> {
        if bytes.len() < 4 {
            Err(FormatError::ShortRead)
        } else if bytes.subrange(0, 4) != ec_magic() {
            Err(FormatError::BadMagic)
        } else if bytes.len() < EC_HDR_SIZE {
            Err(FormatError::ShortRead)
        } else {
            Ok(
                EcHdrView {
                    magic: bytes.subrange(0, 4),
                    version: bytes[4],
                    padding1: bytes.subrange(5, 8),
                    ec: be_u64(bytes.subrange(8, 16)),
                    vid_hdr_offset: be_u32(bytes.subrange(16, 20)),
                    data_offset: be_u32(bytes.subrange(20, 24)),
                    image_seq: be_u32(bytes.subrange(24, 28)),
                    padding2: bytes.subrange(28, 60),
                    hdr_crc: be_u32(bytes.subrange(60, 64)),
                },
            )
        }
    }

    /// The 64 bytes of the header, fields in layout order, integers big-endian.
    pub open spec fn to_bytes(self) -> Seq<u8> {
        self.magic + seq![self.version] + self.padding1 + u64_be(self.ec) + u32_be(
            self.vid_hdr_offset,
        ) + u32_be(self.data_offset) + u32_be(self.image_seq) + self.padding2 + u32_be(
            self.hdr_crc,
        )
    }
}

impl EcHdr {
    /// Decodes the header that `bytes` begin with.
    pub fn from_bytes(bytes: &[u8]) -> (r: Result<EcHdr, FormatError>)
        ensures
            match r {
                Ok(h) => EcHdrView::parse(bytes@) == Ok::<EcHdrView, FormatError>(h@),
                Err(e) => EcHdrView::parse(bytes@) == Err::<EcHdrView, FormatError>(e),
            },
    {
        if bytes.len() < 4 {
            return Err(FormatError::ShortRead);
        }
        let magic: [u8; 4] = read_array(bytes, 0);
        if !is_ec_magic(&magic) {
            return Err(FormatError::BadMagic);
        }
        if bytes.len() < EC_HDR_SIZE {
            return Err(FormatError::ShortRead);
        }
        Ok(
            EcHdr {
                magic,
                version: bytes[4],
                padding1: read_array(bytes, 5),
                ec: read_be_u64(bytes, 8),
                vid_hdr_offset: read_be_u32(bytes, 16),
                data_offset: read_be_u32(bytes, 20),
                image_seq: read_be_u32(bytes, 24),
                padding2: read_array(bytes, 28),
                hdr_crc: read_be_u32(bytes, 60),
            },
        )
    }

    /// Encodes the header; refused when the magic is not `UBI#`.
    pub fn to_bytes(&self) -> (r: Result<Vec<u8>, FormatError>)
        ensures
            match r {
                Ok(v) => self@.valid() && v@ == self@.to_bytes(),
                Err(e) => !self@.valid() && e == FormatError::BadMagic,
            },
    {
        if !is_ec_magic(&self.magic) {
            return Err(FormatError::BadMagic);
        }
        let mut out: Vec<u8> = Vec::new();
        append_bytes(&mut out, self.magic.as_slice());
        out.push(self.version);
        append_bytes(&mut out, self.padding1.as_slice());
        write_be_u64(&mut out, self.ec);
        write_be_u32(&mut out, self.vid_hdr_offset);
        write_be_u32(&mut out, self.data_offset);
        write_be_u32(&mut out, self.image_seq);
        append_bytes(&mut out, self.padding2.as_slice());
        write_be_u32(&mut out, self.hdr_crc);
        assert(out@ =~= self@.to_bytes());
        Ok(out)
    }
}

/// Decoding the encoding of a valid header gives the header back.
pub proof fn lemma_ec_hdr_round_trip(h: EcHdrView)
    requires
        h.valid(),
    ensures
        h.to_bytes().len() == EC_HDR_SIZE,
        EcHdrView::parse(h.to_bytes()) == Ok::<EcHdrView, FormatError>(h),
{
    let b = h.to_bytes();
    lemma_u64_decode_encode(h.ec);
    lemma_u32_decode_encode(h.vid_hdr_offset);
    lemma_u32_decode_encode(h.data_offset);
    lemma_u32_decode_encode(h.image_seq);
    lemma_u32_decode_encode(h.hdr_crc);
    assert(b.subrange(0, 4) =~= h.magic);
    assert(b.subrange(5, 8) =~= h.padding1);
    assert(b.subrange(8, 16) =~= u64_be(h.ec));
    assert(b.subrange(16, 20) =~= u32_be(h.vid_hdr_offset));
    assert(b.subrange(20, 24) =~= u32_be(h.data_offset));
    assert(b.subrange(24, 28) =~= u32_be(h.image_seq));
    assert(b.subrange(28, 60) =~= h.padding2);
    assert(b.subrange(60, 64) =~= u32_be(h.hdr_crc));
}

/// A decoded header is valid, and its encoding is the 64 bytes it was read from.
pub proof fn lemma_ec_hdr_parse_inverse(bytes: Seq<u8>)
    requires
        EcHdrView::parse(bytes) is Ok,
    ensures
        EcHdrView::parse(bytes).unwrap().valid(),
        EcHdrView::parse(bytes).unwrap().to_bytes() == bytes.subrange(0, EC_HDR_SIZE as int),
{
    let h = EcHdrView::parse(bytes).unwrap();
    lemma_u64_encode_decode(bytes.subrange(8, 16));
    lemma_u32_encode_decode(bytes.subrange(16, 20));
    lemma_u32_encode_decode(bytes.subrange(20, 24));
    lemma_u32_encode_decode(bytes.subrange(24, 28));
    lemma_u32_encode_decode(bytes.subrange(60, 64));
    assert(h.to_bytes() =~= bytes.subrange(0, EC_HDR_SIZE as int));
}

/// The model of a header has the lengths of the layout.
pub proof fn lemma_ec_hdr_model_wf(h: EcHdr)
    ensures
        h@.wf(),
        h@.valid() <==> h.magic@ == ec_magic(),
{
}

/// Two headers with the same model are the same header.
pub proof fn lemma_ec_hdr_view_injective(a: EcHdr, b: EcHdr)
    requires
        a@ == b@,
    ensures
        a == b,
{
    assert(a.magic =~= b.magic);
    assert(a.padding1 =~= b.padding1);
    assert(a.padding2 =~= b.padding2);
}

} // verus!
