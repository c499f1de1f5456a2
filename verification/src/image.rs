//! The reconstructed view of one flash dump, and the extraction of volumes.

use crate::block::{block_payload, read_block_payload};
use crate::bytes::append_bytes;
use crate::error::ImageError;
use crate::scan::{map_view, scan_blocks, scan_spec};
use crate::table::{read_volume_table, table_spec, table_view};
use crate::vtbl::{VtblRecord, VtblRecordView};
use std::collections::HashMap;
use vstd::prelude::*;

verus! {

/// The decoded volume table of an image and the blocks of each volume.
#[derive(Debug, PartialEq, Eq)]
pub struct Image {
    /// The records of the volume table, each under its slot number, which
    /// is the identifier of the volume it describes.
    pub vtable: Vec<(u32, VtblRecord)>,
    /// For each volume identifier the physical blocks that carry the
    /// volume, in ascending order.
    pub map: HashMap<u32, Vec<u64>>,
}

/// Mathematical model of an [`Image`].
pub struct ImageView {
    pub vtable: Seq<(u32, VtblRecordView)>,
    pub map: Map<u32, Seq<u64>>,
}

impl View for Image {
    type V = ImageView;

    open spec fn view(&self) -> ImageView {
        ImageView { vtable: table_view(self.vtable@), map: map_view(self.map@) }
    }
}

/// The image that `source` holds: its blocks scanned, then its volume table read.
pub open spec fn read_spec(source: Seq<u8>, file_len: int, block_size: int) -> Result<
    ImageView,
    ImageError,
> {
    match scan_spec(source, file_len, block_size) {
        Err(e) => Err(e),
        Ok(map) => match table_spec(source, block_size, map) {
            Err(e) => Err(e),
            Ok(vtable) => Ok(ImageView { vtable, map }),
        },
    }
}

/// What replaying `blocks` in order writes, and how it ends: the payloads
/// of the blocks one after the other, up to the first block that fails.
pub open spec fn replay(source: Seq<u8>, block_size: int, blocks: Seq<u64>) -> (
    Seq<u8>,
    Result<(), ImageError>,
)
    decreases blocks.len(),
{
    if blocks.len() == 0 {
        (Seq::empty(), Ok(()))
    } else {
        match block_payload(source, block_size, blocks[0] as int) {
            Err(e) => (Seq::empty(), Err(e)),
            Ok(payload) => {
                let rest = replay(source, block_size, blocks.drop_first());
                (payload + rest.0, rest.1)
            },
        }
    }
}

/// What extracting volume `vol_id` writes, and how it ends.
pub open spec fn extract_spec(
    source: Seq<u8>,
    block_size: int,
    map: Map<u32, Seq<u64>>,
    vol_id: u32,
) -> (Seq<u8>, Result<(), ImageError>) {
    if map.contains_key(vol_id) {
        replay(source, block_size, map[vol_id])
    } else {
        (Seq::empty(), Err(ImageError::UnknownVolume { vol_id }))
    }
}

/// Replaying one list after another writes what the first writes, then
/// what the second writes, unless the first fails: blocks are replayed in
/// the order of the list, and nothing is written behind a failure.
pub proof fn lemma_replay_concat(source: Seq<u8>, block_size: int, a: Seq<u64>, b: Seq<u64>)
    ensures
        replay(source, block_size, a + b) == if replay(source, block_size, a).1 is Ok {
            (
                replay(source, block_size, a).0 + replay(source, block_size, b).0,
                replay(source, block_size, b).1,
            )
        } else {
            replay(source, block_size, a)
        },
    decreases a.len(),
{
    if a.len() == 0 {
        assert(a + b =~= b);
        assert(Seq::<u8>::empty() + replay(source, block_size, b).0 =~= replay(
            source,
            block_size,
            b,
        ).0);
    } else {
        assert((a + b)[0] == a[0]);
        assert((a + b).drop_first() =~= a.drop_first() + b);
        lemma_replay_concat(source, block_size, a.drop_first(), b);
        match block_payload(source, block_size, a[0] as int) {
            Ok(payload) => {
                let ra = replay(source, block_size, a.drop_first());
                let rb = replay(source, block_size, b);
                if ra.1 is Ok {
                    assert(payload + (ra.0 + rb.0) =~= (payload + ra.0) + rb.0);
                }
            },
            Err(_) => {},
        }
    }
}

/// Replaying a single block writes its payload, or nothing if it fails.
pub proof fn lemma_replay_one(source: Seq<u8>, block_size: int, i: u64)
    ensures
        replay(source, block_size, seq![i]) == match block_payload(source, block_size, i as int) {
            Ok(payload) => (payload, Ok::<(), ImageError>(())),
            Err(e) => (Seq::<u8>::empty(), Err::<(), ImageError>(e)),
        },
{
    assert(seq![i].drop_first() =~= Seq::<u64>::empty());
    assert(seq![i][0] == i);
    assert(replay(source, block_size, Seq::<u64>::empty()) == (
        Seq::<u8>::empty(),
        Ok::<(), ImageError>(()),
    ));
    match block_payload(source, block_size, i as int) {
        Ok(payload) => {
            assert(payload + Seq::<u8>::empty() =~= payload);
        },
        Err(_) => {},
    }
}

/// In an extraction that succeeds every block of the list has contributed
/// its payload, whole, behind the payloads of the blocks before it.
pub proof fn lemma_replay_block(source: Seq<u8>, block_size: int, blocks: Seq<u64>, j: int)
    requires
        replay(source, block_size, blocks).1 is Ok,
        0 <= j < blocks.len(),
    ensures
        replay(source, block_size, blocks.take(j)).1 is Ok,
        block_payload(source, block_size, blocks[j] as int) is Ok,
        ({
            let before = replay(source, block_size, blocks.take(j)).0.len() as int;
            let payload = block_payload(source, block_size, blocks[j] as int).unwrap();
            &&& before + payload.len() <= replay(source, block_size, blocks).0.len()
            &&& replay(source, block_size, blocks).0.subrange(before, before + payload.len())
                == payload
        }),
{
    let head = blocks.take(j);
    let one = seq![blocks[j]];
    let rest = blocks.skip(j + 1);
    assert(blocks =~= head + (one + rest));
    lemma_replay_concat(source, block_size, head, one + rest);
    lemma_replay_concat(source, block_size, one, rest);
    lemma_replay_one(source, block_size, blocks[j]);
    let before = replay(source, block_size, head).0;
    let payload = block_payload(source, block_size, blocks[j] as int).unwrap();
    let after = replay(source, block_size, rest).0;
    assert(replay(source, block_size, blocks).0 == before + (payload + after));
    assert((before + (payload + after)).subrange(
        before.len() as int,
        (before.len() + payload.len()) as int,
    ) =~= payload);
}

impl Image {
    /// Builds the image from a dump: scans `file_len / block_size` blocks
    /// of `source` and reads the volume table.
    pub fn read(source: &[u8], file_len: u64, block_size: u64) -> (r: Result<Image, ImageError>)
        ensures
            match r {
                Ok(image) => read_spec(source@, file_len as int, block_size as int) == Ok::<
                    ImageView,
                    ImageError,
                >(image@),
                Err(e) => read_spec(source@, file_len as int, block_size as int) == Err::<
                    ImageView,
                    ImageError,
                >(e),
            },
    {
        let map = match scan_blocks(source, file_len, block_size) {
            Ok(map) => map,
            Err(e) => {
                return Err(e);
            },
        };
        let vtable = match read_volume_table(source, block_size, &map) {
            Ok(vtable) => vtable,
            Err(e) => {
                return Err(e);
            },
        };
        Ok(Image { vtable, map })
    }

    /// Appends the data of one volume to `writer`: the payloads of the
    /// blocks filed under the volume's identifier, in the order of the
    /// list. `volume` is an entry of the volume table; its first part is the
    /// identifier. When a block fails, what came before it has been written.
    pub fn read_volume(
        &self,
        source: &[u8],
        writer: &mut Vec<u8>,
        block_size: u64,
        volume: &(u32, VtblRecord),
    ) -> (r: Result<(), ImageError>)
        ensures
            final(writer)@ == old(writer)@ + extract_spec(
                source@,
                block_size as int,
                self@.map,
                volume.0,
            ).0,
            r == extract_spec(source@, block_size as int, self@.map, volume.0).1,
    {
        let blocks = match self.map.get(&volume.0) {
            Some(blocks) => blocks,
            None => {
                assert(writer@ =~= old(writer)@ + Seq::<u8>::empty());
                return Err(ImageError::UnknownVolume { vol_id: volume.0 });
            },
        };
        let ghost all = replay(source@, block_size as int, blocks@);
        assert(all == extract_spec(source@, block_size as int, self@.map, volume.0));
        let mut j: usize = 0;
        assert(blocks@.skip(0) =~= blocks@);
        assert(writer@ + all.0 =~= old(writer)@ + all.0);
        while j < blocks.len()
            invariant
                j <= blocks.len(),
                all == replay(source@, block_size as int, blocks@),
                all == extract_spec(source@, block_size as int, self@.map, volume.0),
                old(writer)@ + all.0 == writer@ + replay(
                    source@,
                    block_size as int,
                    blocks@.skip(j as int),
                ).0,
                all.1 == replay(source@, block_size as int, blocks@.skip(j as int)).1,
            decreases blocks.len() - j,
        {
            let ghost here = blocks@.skip(j as int);
            let ghost written = writer@;
            assert(here[0] == blocks@[j as int]);
            assert(here.drop_first() =~= blocks@.skip(j + 1));
            match read_block_payload(source, block_size, blocks[j]) {
                Ok(payload) => {
                    append_bytes(writer, payload);
                    let ghost rest = replay(source@, block_size as int, blocks@.skip(j + 1)).0;
                    assert(written + (payload@ + rest) =~= (written + payload@) + rest);
                },
                Err(e) => {
                    assert(written + Seq::<u8>::empty() =~= written);
                    return Err(e);
                },
            }
            j += 1;
        }
        assert(blocks@.skip(j as int) =~= Seq::<u64>::empty());
        assert(writer@ + Seq::<u8>::empty() =~= writer@);
        Ok(())
    }
}

} // verus!
