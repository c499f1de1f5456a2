//! The volume-table record, one per named volume.

use crate::bytes::{
    append_bytes, be_u16, be_u32, lemma_u16_decode_encode, lemma_u16_encode_decode,
    lemma_u32_decode_encode, lemma_u32_encode_decode, read_array, read_be_u16, read_be_u32, u16_be,
    u32_be, write_be_u16, write_be_u32,
};
use crate::error::FormatError;
use crate::vid_hdr::VolType;
use vstd::prelude::*;

verus! {

/// Longest volume name, not counting the terminating zero byte.
pub const UBI_VOL_NAME_MAX: usize = 127;

/// Number of bytes a volume-table record occupies.
pub const VTBL_RECORD_SIZE: usize = 172;

/// Volume-table record.
#[derive(Debug, PartialEq, Eq, Hash)]
pub struct VtblRecord {
    /// How many physical blocks are reserved for this volume.
    pub reserved_pebs: u32,
    /// Volume alignment.
    pub alignment: u32,
    /// Number of unused bytes at the end of each block.
    pub data_pad: u32,
    /// Static or dynamic.
    pub vol_type: VolType,
    /// Set while an update of the volume has started but not finished.
    pub upd_marker: u8,
    /// Length of the name; below [`UBI_VOL_NAME_MAX`] in every decoded record.
    pub name_len: u16,
    /// The name, followed by zero bytes.
    pub name: [u8; 128],
    /// Volume flags.
    pub flags: u8,
    /// Reserved.
    pub padding: [u8; 23],
    /// Checksum of the record; carried, not verified.
    pub crc: u32,
}

/// Mathematical model of a [`VtblRecord`]: byte arrays become sequences.
pub struct VtblRecordView {
    pub reserved_pebs: u32,
    pub alignment: u32,
    pub data_pad: u32,
    pub vol_type: VolType,
    pub upd_marker: u8,
    pub name_len: u16,
    pub name: Seq<u8>,
    pub flags: u8,
    pub padding: Seq<u8>,
    pub crc: u32,
}

impl View for VtblRecord {
    type V = VtblRecordView;

    open spec fn view(&self) -> VtblRecordView {
        VtblRecordView {
            reserved_pebs: self.reserved_pebs,
            alignment: self.alignment,
            data_pad: self.data_pad,
            vol_type: self.vol_type,
            upd_marker: self.upd_marker,
            name_len: self.name_len,
            name: self.name@,
            flags: self.flags,
            padding: self.padding@,
            crc: self.crc,
        }
    }
}

impl VtblRecordView {
    /// The byte fields have the lengths of the layout.
    pub open spec fn wf(self) -> bool {
        &&& self.name.len() == UBI_VOL_NAME_MAX + 1
        &&& self.padding.len() == 23
    }

    /// What decoding accepts and encoding emits: the layout with a name
    /// length below the maximum.
    pub open spec fn valid(self) -> bool {
        self.wf() && self.name_len < UBI_VOL_NAME_MAX
    }

    /// The record that `bytes` begin with. Fields are taken in layout order,
    /// and each is judged as soon as its bytes are there: volume type, then
    /// name length.
    pub open spec fn parse(bytes: Seq<u8>) -> Result<VtblRecordView, FormatError> {
        if bytes.len() < 13 {
            Err(FormatError::ShortRead)
        } else if VolType::spec_from_id(bytes[12]) is None {
            Err(FormatError::BadVolType)
        } else if bytes.len() < 16 {
            Err(FormatError::ShortRead)
        } else if be_u16(bytes.subrange(14, 16)) >= UBI_VOL_NAME_MAX {
            Err(FormatError::BadNameLen)
        } else if bytes.len() < VTBL_RECORD_SIZE {
            Err(FormatError::ShortRead)
        } else {
            Ok(
                VtblRecordView {
                    reserved_pebs: be_u32(bytes.subrange(0, 4)),
                    alignment: be_u32(bytes.subrange(4, 8)),
                    data_pad: be_u32(bytes.subrange(8, 12)),
                    vol_type: VolType::spec_from_id(bytes[12]).unwrap(),
                    upd_marker: bytes[13],
                    name_len: be_u16(bytes.subrange(14, 16)),
                    name: bytes.subrange(16, 144),
                    flags: bytes[144],
                    padding: bytes.subrange(145, 168),
                    crc: be_u32(bytes.subrange(168, 172)),
                },
            )
        }
    }

    /// The 172 bytes of the record, fields in layout order, integers big-endian.
    pub open spec fn to_bytes(self) -> Seq<u8> {
        u32_be(self.reserved_pebs) + u32_be(self.alignment) + u32_be(self.data_pad)
            + seq![self.vol_type.spec_id(), self.upd_marker] + u16_be(self.name_len) + self.name
            + seq![self.flags] + self.padding + u32_be(self.crc)
    }

    /// Whether the record carries a name: the length is not zero, the first
    /// `name_len` bytes of the buffer are not zero, and a zero byte follows them.
    pub open spec fn has_name(self) -> bool {
        &&& 0 < self.name_len < self.name.len()
        &&& self.name[self.name_len as int] == 0
        &&& forall|i: int| 0 <= i < self.name_len ==> self.name[i] != 0
    }

    /// The name without its terminating zero byte.
    pub open spec fn name(self) -> Option<Seq<u8>> {
        if self.has_name() {
            Some(self.name.subrange(0, self.name_len as int))
        } else {
            None
        }
    }
}

impl VtblRecord {
    /// Number of bytes a record occupies; also the width of a table slot.
    pub const SIZE: usize = 172;

    /// The name of the volume without its terminating zero byte. `None`
    /// when the name length is zero, and also when the buffer does not hold
    /// a zero-terminated string of that length.
    pub fn name(&self) -> (r: Option<Vec<u8>>)
        ensures
            match r {
                Some(n) => self@.name() == Some(n@),
                None => self@.name() is None,
            },
    {
        let len = self.name_len as usize;
        if len == 0 || len >= 128 {
            return None;
        }
        if self.name[len] != 0 {
            return None;
        }
        let mut out: Vec<u8> = Vec::new();
        let mut i: usize = 0;
        while i < len
            invariant
                i <= len < 128,
                len == self.name_len,
                out@ == self.name@.subrange(0, i as int),
                forall|j: int| 0 <= j < i ==> self.name@[j] != 0,
            decreases len - i,
        {
            let b = self.name[i];
            if b == 0 {
                return None;
            }
            out.push(b);
            i += 1;
            assert(out@ =~= self.name@.subrange(0, i as int));
        }
        Some(out)
    }

    /// Decodes the record that `bytes` begin with.
    pub fn from_bytes(bytes: &[u8]) -> (r: Result<VtblRecord, FormatError>)
        ensures
            match r {
                Ok(h) => VtblRecordView::parse(bytes@) == Ok::<VtblRecordView, FormatError>(h@),
                Err(e) => VtblRecordView::parse(bytes@) == Err::<VtblRecordView, FormatError>(e),
            },
    {
        if bytes.len() < 13 {
            return Err(FormatError::ShortRead);
        }
        let vol_type = match VolType::from_id(bytes[12]) {
            Some(t) => t,
            None => {
                return Err(FormatError::BadVolType);
            },
        };
        if bytes.len() < 16 {
            return Err(FormatError::ShortRead);
        }
        let name_len = read_be_u16(bytes, 14);
        if name_len as usize >= UBI_VOL_NAME_MAX {
            return Err(FormatError::BadNameLen);
        }
        if bytes.len() < VTBL_RECORD_SIZE {
            return Err(FormatError::ShortRead);
        }
        Ok(
            VtblRecord {
                reserved_pebs: read_be_u32(bytes, 0),
                alignment: read_be_u32(bytes, 4),
                data_pad: read_be_u32(bytes, 8),
                vol_type,
                upd_marker: bytes[13],
                name_len,
                name: read_array(bytes, 16),
                flags: bytes[144],
                padding: read_array(bytes, 145),
                crc: read_be_u32(bytes, 168),
            },
        )
    }

    /// Encodes the record; refused when the name length is not below
    /// [`UBI_VOL_NAME_MAX`].
    pub fn to_bytes(&self) -> (r: Result<Vec<u8>, FormatError>)
        ensures
            match r {
                Ok(v) => self@.valid() && v@ == self@.to_bytes(),
                Err(e) => !self@.valid() && e == FormatError::BadNameLen,
            },
    {
        if self.name_len as usize >= UBI_VOL_NAME_MAX {
            return Err(FormatError::BadNameLen);
        }
        let mut out: Vec<u8> = Vec::new();
        write_be_u32(&mut out, self.reserved_pebs);
        write_be_u32(&mut out, self.alignment);
        write_be_u32(&mut out, self.data_pad);
        out.push(self.vol_type.id());
        out.push(self.upd_marker);
        write_be_u16(&mut out, self.name_len);
        append_bytes(&mut out, self.name.as_slice());
        out.push(self.flags);
        append_bytes(&mut out, self.padding.as_slice());
        write_be_u32(&mut out, self.crc);
        assert(out@ =~= self@.to_bytes());
        Ok(out)
    }
}

/// Decoding the encoding of a valid record gives the record back, field for
/// field, the whole name buffer included.
pub proof fn lemma_vtbl_record_round_trip(r: VtblRecordView)
    requires
        r.valid(),
    ensures
        r.to_bytes().len() == VTBL_RECORD_SIZE,
        VtblRecordView::parse(r.to_bytes()) == Ok::<VtblRecordView, FormatError>(r),
{
    let b = r.to_bytes();
    lemma_u32_decode_encode(r.reserved_pebs);
    lemma_u32_decode_encode(r.alignment);
    lemma_u32_decode_encode(r.data_pad);
    lemma_u16_decode_encode(r.name_len);
    lemma_u32_decode_encode(r.crc);
    assert(b.len() == 172);
    assert(b.subrange(0, 4) =~= u32_be(r.reserved_pebs));
    assert(b.subrange(4, 8) =~= u32_be(r.alignment));
    assert(b.subrange(8, 12) =~= u32_be(r.data_pad));
    assert(b[12] == r.vol_type.spec_id() && b[13] == r.upd_marker);
    assert(b.subrange(14, 16) =~= u16_be(r.name_len));
    assert(b.subrange(16, 144) =~= r.name);
    assert(b[144] == r.flags);
    assert(b.subrange(145, 168) =~= r.padding);
    assert(b.subrange(168, 172) =~= u32_be(r.crc));
}

/// A decoded record is valid, and its encoding is the 172 bytes it was read from.
pub proof fn lemma_vtbl_record_parse_inverse(bytes: Seq<u8>)
    requires
        VtblRecordView::parse(bytes) is Ok,
    ensures
        VtblRecordView::parse(bytes).unwrap().valid(),
        VtblRecordView::parse(bytes).unwrap().to_bytes() == bytes.subrange(
            0,
            VTBL_RECORD_SIZE as int,
        ),
{
    let r = VtblRecordView::parse(bytes).unwrap();
    lemma_u32_encode_decode(bytes.subrange(0, 4));
    lemma_u32_encode_decode(bytes.subrange(4, 8));
    lemma_u32_encode_decode(bytes.subrange(8, 12));
    lemma_u16_encode_decode(bytes.subrange(14, 16));
    lemma_u32_encode_decode(bytes.subrange(168, 172));
    assert(r.to_bytes() =~= bytes.subrange(0, VTBL_RECORD_SIZE as int));
}

/// Decoding looks at the first 172 bytes only.
pub proof fn lemma_vtbl_record_parse_prefix(bytes: Seq<u8>)
    requires
        bytes.len() >= VTBL_RECORD_SIZE,
    ensures
        VtblRecordView::parse(bytes) == VtblRecordView::parse(
            bytes.subrange(0, VTBL_RECORD_SIZE as int),
        ),
{
    let head = bytes.subrange(0, VTBL_RECORD_SIZE as int);
    assert(head.subrange(0, 4) =~= bytes.subrange(0, 4));
    assert(head.subrange(4, 8) =~= bytes.subrange(4, 8));
    assert(head.subrange(8, 12) =~= bytes.subrange(8, 12));
    assert(head.subrange(14, 16) =~= bytes.subrange(14, 16));
    assert(head.subrange(16, 144) =~= bytes.subrange(16, 144));
    assert(head.subrange(145, 168) =~= bytes.subrange(145, 168));
    assert(head.subrange(168, 172) =~= bytes.subrange(168, 172));
}

/// The model of a record has the lengths of the layout.
pub proof fn lemma_vtbl_record_model_wf(r: VtblRecord)
    ensures
        r@.wf(),
        r@.valid() <==> r.name_len < UBI_VOL_NAME_MAX,
{
}

/// Two records with the same model are the same record.
pub proof fn lemma_vtbl_record_view_injective(a: VtblRecord, b: VtblRecord)
    requires
        a@ == b@,
    ensures
        a == b,
{
    assert(a.name =~= b.name);
    assert(a.padding =~= b.padding);
}

} // verus!
