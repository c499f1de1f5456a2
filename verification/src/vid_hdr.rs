//! The volume-identifier header, which says what volume a block belongs to.

use crate::bytes::{
    append_bytes, be_u32, be_u64, lemma_u32_decode_encode, lemma_u32_encode_decode,
    lemma_u64_decode_encode, lemma_u64_encode_decode, read_array, read_be_u32, read_be_u64, u32_be,
    u64_be, write_be_u32, write_be_u64,
};
use crate::error::FormatError;
use vstd::prelude::*;

verus! {

/// Number of bytes a volume-identifier header occupies.
pub const VID_HDR_SIZE: usize = 64;

/// The magic `UBI!` of a volume-identifier header.
pub const UBI_VID_HDR_MAGIC: [u8; 4] = [0x55, 0x42, 0x49, 0x21];

/// The only header version that is understood.
pub const UBI_VERSION: u8 = 1;

/// The magic `UBI!` as a sequence.
pub open spec fn vid_magic() -> Seq<u8> {
    UBI_VID_HDR_MAGIC@
}

/// Whether a volume can be resized.
#[derive(Debug, Clone, Copy, PartialEq, Eq, Hash, Structural)]
pub enum VolType {
    /// Volume can be resized; its blocks are filled to the end.
    Dynamic,
    /// Volume cannot be resized; each block declares how much data it holds.
    Static,
}

impl VolType {
    /// The byte that stands for this type on flash.
    pub open spec fn spec_id(self) -> u8 {
        match self {
            VolType::Dynamic => 1,
            VolType::Static => 2,
        }
    }

    /// The type that byte `id` stands for, if any.
    pub open spec fn spec_from_id(id: u8) -> Option<VolType> {
        if id == 1 {
            Some(VolType::Dynamic)
        } else if id == 2 {
            Some(VolType::Static)
        } else {
            None
        }
    }

    /// The byte that stands for this type on flash: 1 for dynamic, 2 for static.
    #[verifier::when_used_as_spec(spec_id)]
    pub fn id(self) -> (b: u8)
        ensures
            b == self.spec_id(),
    {
        match self {
            VolType::Dynamic => 1,
            VolType::Static => 2,
        }
    }

    /// The type that byte `id` stands for, if any.
    #[verifier::when_used_as_spec(spec_from_id)]
    pub fn from_id(id: u8) -> (t: Option<VolType>)
        ensures
            t == VolType::spec_from_id(id),
    {
        if id == 1 {
            Some(VolType::Dynamic)
        } else if id == 2 {
            Some(VolType::Static)
        } else {
            None
        }
    }
}

/// Volume-identifier header.
#[derive(Debug, PartialEq, Eq)]
pub struct VidHdr {
    /// Magic string `UBI!`.
    pub magic: [u8; 4],
    /// Format version; must be 1.
    pub version: u8,
    /// Static or dynamic.
    pub vol_type: VolType,
    /// Whether this block is a copy made by wear levelling.
    pub copy_flag: u8,
    /// Compatibility of this volume.
    pub compat: u8,
    /// Identifier of the volume.
    pub vol_id: u32,
    /// Logical block number within the volume.
    pub lnum: u32,
    /// Reserved.
    pub padding1: [u8; 4],
    /// How many bytes of data this block holds (static volumes only).
    pub data_size: u32,
    /// Total number of used logical blocks in this volume.
    pub used_ebs: u32,
    /// How many bytes at the end of the block are not used.
    pub data_pad: u32,
    /// Checksum of the data (static volumes only); carried, not verified.
    pub data_crc: u32,
    /// Reserved.
    pub padding2: [u8; 4],
    /// Sequence number.
    pub sqnum: u64,
    /// Reserved.
    pub padding3: [u8; 12],
    /// Checksum of the header; carried, not verified.
    pub hdr_crc: u32,
}

/// Mathematical model of a [`VidHdr`]: byte arrays become sequences.
pub struct VidHdrView {
    pub magic: Seq<u8>,
    pub version: u8,
    pub vol_type: VolType,
    pub copy_flag: u8,
    pub compat: u8,
    pub vol_id: u32,
    pub lnum: u32,
    pub padding1: Seq<u8>,
    pub data_size: u32,
    pub used_ebs: u32,
    pub data_pad: u32,
    pub data_crc: u32,
    pub padding2: Seq<u8>,
    pub sqnum: u64,
    pub padding3: Seq<u8>,
    pub hdr_crc: u32,
}

impl View for VidHdr {
    type V = VidHdrView;

    open spec fn view(&self) -> VidHdrView {
        VidHdrView {
            magic: self.magic@,
            version: self.version,
            vol_type: self.vol_type,
            copy_flag: self.copy_flag,
            compat: self.compat,
            vol_id: self.vol_id,
            lnum: self.lnum,
            padding1: self.padding1@,
            data_size: self.data_size,
            used_ebs: self.used_ebs,
            data_pad: self.data_pad,
            data_crc: self.data_crc,
            padding2: self.padding2@,
            sqnum: self.sqnum,
            padding3: self.padding3@,
            hdr_crc: self.hdr_crc,
        }
    }
}

impl VidHdrView {
    /// The byte fields have the lengths of the layout.
    pub open spec fn wf(self) -> bool {
        &&& self.magic.len() == 4
        &&& self.padding1.len() == 4
        &&& self.padding2.len() == 4
        &&& self.padding3.len() == 12
    }

    /// What decoding accepts and encoding emits: the layout with the right
    /// magic and version.
    pub open spec fn valid(self) -> bool {
        self.wf() && self.magic == vid_magic() && self.version == UBI_VERSION
    }

    /// The header that `bytes` begin with. Fields are taken in layout order,
    /// and each is judged as soon as its bytes are there: magic, then
    /// version, then volume type.
    pub open spec fn parse(bytes: Seq<u8>) -> Result<VidHdrView, FormatError> {
        if bytes.len() < 4 {
            Err(FormatError::ShortRead)
        } else if bytes.subrange(0, 4) != vid_magic() {
            Err(FormatError::BadMagic)
        } else if bytes.len() < 5 {
            Err(FormatError::ShortRead)
        } else if bytes[4] != UBI_VERSION {
            Err(FormatError::BadVersion)
        } else if bytes.len() < 6 {
            Err(FormatError::ShortRead)
        } else if VolType::spec_from_id(bytes[5]) is None {
            Err(FormatError::BadVolType)
        } else if bytes.len() < VID_HDR_SIZE {
            Err(FormatError::ShortRead)
        } else {
            Ok(
                VidHdrView {
                    magic: bytes.subrange(0, 4),
                    version: bytes[4],
                    vol_type: VolType::spec_from_id(bytes[5]).unwrap(),
                    copy_flag: bytes[6],
                    compat: bytes[7],
                    vol_id: be_u32(bytes.subrange(8, 12)),
                    lnum: be_u32(bytes.subrange(12, 16)),
                    padding1: bytes.subrange(16, 20),
                    data_size: be_u32(bytes.subrange(20, 24)),
                    used_ebs: be_u32(bytes.subrange(24, 28)),
                    data_pad: be_u32(bytes.subrange(28, 32)),
                    data_crc: be_u32(bytes.subrange(32, 36)),
                    padding2: bytes.subrange(36, 40),
                    sqnum: be_u64(bytes.subrange(40, 48)),
                    padding3: bytes.subrange(48, 60),
                    hdr_crc: be_u32(bytes.subrange(60, 64)),
                },
            )
        }
    }

    /// The 64 bytes of the header, fields in layout order, integers big-endian.
    pub open spec fn to_bytes(self) -> Seq<u8> {
        self.magic + seq![self.version, self.vol_type.spec_id(), self.copy_flag, self.compat]
            + u32_be(self.vol_id) + u32_be(self.lnum) + self.padding1 + u32_be(self.data_size)
            + u32_be(self.used_ebs) + u32_be(self.data_pad) + u32_be(self.data_crc) + self.padding2
            + u64_be(self.sqnum) + self.padding3 + u32_be(self.hdr_crc)
    }
}

/// Whether `magic` spells `UBI!`.
pub fn is_vid_magic(magic: &[u8; 4]) -> (b: bool)
    ensures
        b == (magic@ == vid_magic()),
{
    let b = magic[0] == UBI_VID_HDR_MAGIC[0] && magic[1] == UBI_VID_HDR_MAGIC[1] && magic[2]
        == UBI_VID_HDR_MAGIC[2] && magic[3] == UBI_VID_HDR_MAGIC[3];
    proof {
        if b {
            assert(magic@ =~= vid_magic());
        }
    }
    b
}

impl VidHdr {
    /// Decodes the header that `bytes` begin with.
    pub fn from_bytes(bytes: &[u8]) -> (r: Result<VidHdr, FormatError>)
        ensures
            match r {
                Ok(h) => VidHdrView::parse(bytes@) == Ok::<VidHdrView, FormatError>(h@),
                Err(e) => VidHdrView::parse(bytes@) == Err::<VidHdrView, FormatError>(e),
            },
    {
        if bytes.len() < 4 {
            return Err(FormatError::ShortRead);
        }
        let magic: [u8; 4] = read_array(bytes, 0);
        if !is_vid_magic(&magic) {
            return Err(FormatError::BadMagic);
        }
        if bytes.len() < 5 {
            return Err(FormatError::ShortRead);
        }
        let version = bytes[4];
        if version != UBI_VERSION {
            return Err(FormatError::BadVersion);
        }
        if bytes.len() < 6 {
            return Err(FormatError::ShortRead);
        }
        let vol_type = match VolType::from_id(bytes[5]) {
            Some(t) => t,
            None => {
                return Err(FormatError::BadVolType);
            },
        };
        if bytes.len() < VID_HDR_SIZE {
            return Err(FormatError::ShortRead);
        }
        Ok(
            VidHdr {
                magic,
                version,
                vol_type,
                copy_flag: bytes[6],
                compat: bytes[7],
                vol_id: read_be_u32(bytes, 8),
                lnum: read_be_u32(bytes, 12),
                padding1: read_array(bytes, 16),
                data_size: read_be_u32(bytes, 20),
                used_ebs: read_be_u32(bytes, 24),
                data_pad: read_be_u32(bytes, 28),
                data_crc: read_be_u32(bytes, 32),
                padding2: read_array(bytes, 36),
                sqnum: read_be_u64(bytes, 40),
                padding3: read_array(bytes, 48),
                hdr_crc: read_be_u32(bytes, 60),
            },
        )
    }

    /// Encodes the header; refused when the magic is not `UBI!` or the
    /// version is not 1, the magic being judged first.
    pub fn to_bytes(&self) -> (r: Result<Vec<u8>, FormatError>)
        ensures
            match r {
                Ok(v) => self@.valid() && v@ == self@.to_bytes(),
                Err(e) => e == (if self@.magic != vid_magic() {
                    FormatError::BadMagic
                } else {
                    FormatError::BadVersion
                }) && !self@.valid(),
            },
    {
        if !is_vid_magic(&self.magic) {
            return Err(FormatError::BadMagic);
        }
        if self.version != UBI_VERSION {
            return Err(FormatError::BadVersion);
        }
        let mut out: Vec<u8> = Vec::new();
        append_bytes(&mut out, self.magic.as_slice());
        out.push(self.version);
        out.push(self.vol_type.id());
        out.push(self.copy_flag);
        out.push(self.compat);
        write_be_u32(&mut out, self.vol_id);
        write_be_u32(&mut out, self.lnum);
        append_bytes(&mut out, self.padding1.as_slice());
        write_be_u32(&mut out, self.data_size);
        write_be_u32(&mut out, self.used_ebs);
        write_be_u32(&mut out, self.data_pad);
        write_be_u32(&mut out, self.data_crc);
        append_bytes(&mut out, self.padding2.as_slice());
        write_be_u64(&mut out, self.sqnum);
        append_bytes(&mut out, self.padding3.as_slice());
        write_be_u32(&mut out, self.hdr_crc);
        assert(out@ =~= self@.to_bytes());
        Ok(out)
    }
}

/// Decoding the encoding of a valid header gives the header back.
pub proof fn lemma_vid_hdr_round_trip(h: VidHdrView)
    requires
        h.valid(),
    ensures
        h.to_bytes().len() == VID_HDR_SIZE,
        VidHdrView::parse(h.to_bytes()) == Ok::<VidHdrView, FormatError>(h),
{
    let b = h.to_bytes();
    lemma_u32_decode_encode(h.vol_id);
    lemma_u32_decode_encode(h.lnum);
    lemma_u32_decode_encode(h.data_size);
    lemma_u32_decode_encode(h.used_ebs);
    lemma_u32_decode_encode(h.data_pad);
    lemma_u32_decode_encode(h.data_crc);
    lemma_u64_decode_encode(h.sqnum);
    lemma_u32_decode_encode(h.hdr_crc);
    assert(b.len() == 64);
    assert(b.subrange(0, 4) =~= h.magic);
    assert(b.subrange(8, 12) =~= u32_be(h.vol_id));
    assert(b.subrange(12, 16) =~= u32_be(h.lnum));
    assert(b.subrange(16, 20) =~= h.padding1);
    assert(b.subrange(20, 24) =~= u32_be(h.data_size));
    assert(b.subrange(24, 28) =~= u32_be(h.used_ebs));
    assert(b.subrange(28, 32) =~= u32_be(h.data_pad));
    assert(b.subrange(32, 36) =~= u32_be(h.data_crc));
    assert(b.subrange(36, 40) =~= h.padding2);
    assert(b.subrange(40, 48) =~= u64_be(h.sqnum));
    assert(b.subrange(48, 60) =~= h.padding3);
    assert(b.subrange(60, 64) =~= u32_be(h.hdr_crc));
    assert(b[4] == h.version && b[5] == h.vol_type.spec_id() && b[6] == h.copy_flag && b[7]
        == h.compat);
}

/// A decoded header is valid, and its encoding is the 64 bytes it was read from.
pub proof fn lemma_vid_hdr_parse_inverse(bytes: Seq<u8>)
    requires
        VidHdrView::parse(bytes) is Ok,
    ensures
        VidHdrView::parse(bytes).unwrap().valid(),
        VidHdrView::parse(bytes).unwrap().to_bytes() == bytes.subrange(0, VID_HDR_SIZE as int),
{
    let h = VidHdrView::parse(bytes).unwrap();
    lemma_u32_encode_decode(bytes.subrange(8, 12));
    lemma_u32_encode_decode(bytes.subrange(12, 16));
    lemma_u32_encode_decode(bytes.subrange(20, 24));
    lemma_u32_encode_decode(bytes.subrange(24, 28));
    lemma_u32_encode_decode(bytes.subrange(28, 32));
    lemma_u32_encode_decode(bytes.subrange(32, 36));
    lemma_u64_encode_decode(bytes.subrange(40, 48));
    lemma_u32_encode_decode(bytes.subrange(60, 64));
    assert(h.to_bytes() =~= bytes.subrange(0, VID_HDR_SIZE as int));
}

/// The model of a header has the lengths of the layout.
pub proof fn lemma_vid_hdr_model_wf(h: VidHdr)
    ensures
        h@.wf(),
        h@.valid() <==> h.magic@ == vid_magic() && h.version == UBI_VERSION,
{
}

/// Two headers with the same model are the same header.
pub proof fn lemma_vid_hdr_view_injective(a: VidHdr, b: VidHdr)
    requires
        a@ == b@,
    ensures
        a == b,
{
    assert(a.magic =~= b.magic);
    assert(a.padding1 =~= b.padding1);
    assert(a.padding2 =~= b.padding2);
    assert(a.padding3 =~= b.padding3);
}

} // verus!
