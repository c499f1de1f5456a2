//! The volume-table reader.
//!
//! The volume table lives in the payload of the blocks of one reserved
//! volume. Its payload is cut into slots of one record's width. A slot that
//! does not decode is passed over; the slots that decode are the table, each
//! under its slot number.

use crate::block::{block_headers, read_block_headers, tail, tail_at};
use crate::error::ImageError;
use crate::scan::map_view;
use crate::vtbl::{
    lemma_vtbl_record_parse_prefix, lemma_vtbl_record_round_trip, VtblRecord, VtblRecordView,
    VTBL_RECORD_SIZE,
};
use std::collections::HashMap;
use vstd::prelude::*;

verus! {

/// The reserved identifier of the volume that holds the volume table.
pub const VTBL_VOLID: u32 = 0x7fffefff;

/// The most slots that a table may have: as many as slot numbers exist.
pub const MAX_SLOTS: u64 = 0x1_0000_0000;

/// Number of whole slots between the data offset and the end of a block.
pub open spec fn slot_count(block_size: int, data_offset: int) -> nat {
    if data_offset + VTBL_RECORD_SIZE <= block_size {
        ((block_size - data_offset) / (VTBL_RECORD_SIZE as int)) as nat
    } else {
        0
    }
}

/// What slot `k` of the table that starts at offset `start` contributes:
/// its record under its number, or nothing when it does not decode.
pub open spec fn slot(source: Seq<u8>, start: int) -> spec_fn(int) -> Option<
    (u32, VtblRecordView),
> {
    |k: int|
        match VtblRecordView::parse(tail(source, start + k * VTBL_RECORD_SIZE)) {
            Ok(record) => Some((k as u32, record)),
            Err(_) => None,
        }
}

/// The table whose first `count` slots start at offset `start`: the
/// records of the slots that decode, in slot order.
pub open spec fn table_at(source: Seq<u8>, start: int, count: nat) -> Seq<(u32, VtblRecordView)> {
    Seq::new(count, |k: int| k).filter_map(slot(source, start))
}

/// The volume table of an image whose blocks were filed as `map` says. The
/// first block filed under the reserved volume is read, and no other: it
/// must give itself its own physical index as logical block number.
pub open spec fn table_spec(source: Seq<u8>, block_size: int, map: Map<u32, Seq<u64>>) -> Result<
    Seq<(u32, VtblRecordView)>,
    ImageError,
> {
    if !map.contains_key(VTBL_VOLID) || map[VTBL_VOLID].len() == 0 {
        Err(ImageError::NoVolumeTable)
    } else {
        let home = map[VTBL_VOLID][0];
        match block_headers(source, block_size, home as int) {
            Err(e) => Err(e),
            Ok((ec, vid)) => if vid.lnum != home {
                Err(ImageError::TableBlockMismatch { block: home, lnum: vid.lnum })
            } else if slot_count(block_size, ec.data_offset as int) > MAX_SLOTS {
                Err(ImageError::TableTooLong)
            } else {
                Ok(
                    table_at(
                        source,
                        home * block_size + ec.data_offset,
                        slot_count(block_size, ec.data_offset as int),
                    ),
                )
            },
        }
    }
}

/// The records of a table as models.
pub open spec fn table_view(t: Seq<(u32, VtblRecord)>) -> Seq<(u32, VtblRecordView)> {
    t.map_values(|e: (u32, VtblRecord)| (e.0, e.1@))
}

/// Taking one more slot into account appends its record, if it decodes.
pub proof fn lemma_table_at_step(source: Seq<u8>, start: int, count: nat)
    ensures
        table_at(source, start, count + 1) == match slot(source, start)(count as int) {
            Some(e) => table_at(source, start, count).push(e),
            None => table_at(source, start, count),
        },
{
    let all = Seq::new(count + 1, |k: int| k);
    assert(all.drop_last() =~= Seq::new(count, |k: int| k));
    assert(all.last() == count);
    match slot(source, start)(count as int) {
        Some(e) => {
            assert(table_at(source, start, count) + seq![e] =~= table_at(source, start, count).push(
                e,
            ));
        },
        None => {},
    }
}

/// Reads the volume table from the first block that `map` files under the
/// reserved volume.
pub fn read_volume_table(source: &[u8], block_size: u64, map: &HashMap<u32, Vec<u64>>) -> (r:
    Result<Vec<(u32, VtblRecord)>, ImageError>)
    ensures
        match r {
            Ok(t) => table_spec(source@, block_size as int, map_view(map@)) == Ok::<
                Seq<(u32, VtblRecordView)>,
                ImageError,
            >(table_view(t@)),
            Err(e) => table_spec(source@, block_size as int, map_view(map@)) == Err::<
                Seq<(u32, VtblRecordView)>,
                ImageError,
            >(e),
        },
{
    let home = match map.get(&VTBL_VOLID) {
        Some(list) => {
            if list.len() == 0 {
                return Err(ImageError::NoVolumeTable);
            }
            list[0]
        },
        None => {
            return Err(ImageError::NoVolumeTable);
        },
    };
    assert(map_view(map@)[VTBL_VOLID][0] == home);
    let ec = match read_block_headers(source, block_size, home) {
        Ok((ec, vid)) => {
            if vid.lnum as u64 != home {
                return Err(ImageError::TableBlockMismatch { block: home, lnum: vid.lnum });
            }
            ec
        },
        Err(e) => {
            return Err(e);
        },
    };
    let data_offset = ec.data_offset as u64;
    let count: u64 = if data_offset <= block_size && block_size - data_offset
        >= VTBL_RECORD_SIZE as u64 {
        (block_size - data_offset) / (VTBL_RECORD_SIZE as u64)
    } else {
        0
    };
    assert(count == slot_count(block_size as int, data_offset as int));
    assert(data_offset + count * VTBL_RECORD_SIZE <= block_size || count == 0);
    if count > MAX_SLOTS {
        return Err(ImageError::TableTooLong);
    }
    let ghost start = home * block_size + data_offset;
    let mut vtable: Vec<(u32, VtblRecord)> = Vec::new();
    let mut k: u64 = 0;
    assert(table_view(vtable@) =~= table_at(source@, start, 0));
    while k < count
        invariant
            k <= count <= MAX_SLOTS,
            data_offset + count * VTBL_RECORD_SIZE <= block_size || count == 0,
            count == slot_count(block_size as int, data_offset as int),
            start == home * block_size + data_offset,
            table_view(vtable@) == table_at(source@, start, k as nat),
        decreases count - k,
    {
        assert(k * VTBL_RECORD_SIZE <= count * VTBL_RECORD_SIZE);
        let rel = data_offset + k * (VTBL_RECORD_SIZE as u64);
        proof {
            lemma_table_at_step(source@, start, k as nat);
        }
        let ghost before = vtable@;
        match VtblRecord::from_bytes(tail_at(source, home, block_size, rel)) {
            Ok(record) => {
                vtable.push((k as u32, record));
                assert(table_view(vtable@) =~= table_view(before).push((k as u32, record@)));
            },
            Err(_) => {},
        }
        k += 1;
    }
    Ok(vtable)
}

/// The table holds exactly the slots that decode, each under its number,
/// in slot order: a slot that does not decode is left out, and the slots
/// behind it are found where they would have been without it.
pub proof fn lemma_table_entries(source: Seq<u8>, start: int, count: nat)
    requires
        count <= MAX_SLOTS,
    ensures
        forall|j: int|
            0 <= j < table_at(source, start, count).len() ==> {
                let e = #[trigger] table_at(source, start, count)[j];
                e.0 < count && slot(source, start)(e.0 as int) == Some(e)
            },
        forall|k: int|
            0 <= k < count && (#[trigger] slot(source, start)(k)) is Some ==> table_at(
                source,
                start,
                count,
            ).contains(slot(source, start)(k).unwrap()),
        forall|a: int, b: int|
            0 <= a < b < table_at(source, start, count).len() ==> table_at(source, start, count)[a].0
                < table_at(source, start, count)[b].0,
    decreases count,
{
    let now = table_at(source, start, count);
    if count == 0 {
        assert(Seq::new(0, |k: int| k) =~= Seq::<int>::empty());
    } else {
        let m = (count - 1) as nat;
        let before = table_at(source, start, m);
        lemma_table_entries(source, start, m);
        lemma_table_at_step(source, start, m);
        assert forall|k: int| 0 <= k < count && (#[trigger] slot(source, start)(k)) is Some implies now.contains(
            slot(source, start)(k).unwrap(),
        ) by {
            let e = slot(source, start)(k).unwrap();
            if k == m {
                assert(now[before.len() as int] == e);
            } else {
                assert(before.contains(e));
                let idx = choose|idx: int| 0 <= idx < before.len() && before[idx] == e;
                assert(now[idx] == e);
            }
        }
        assert forall|j: int| 0 <= j < now.len() implies {
            let e = #[trigger] now[j];
            e.0 < count && slot(source, start)(e.0 as int) == Some(e)
        } by {
            if j < before.len() {
                assert(now[j] == before[j]);
            }
        }
        assert forall|a: int, b: int| 0 <= a < b < now.len() implies now[a].0 < now[b].0 by {
            if b == before.len() {
                assert(now[a] == before[a]);
            } else {
                assert(now[a] == before[a] && now[b] == before[b]);
            }
        }
    }
}

/// A valid record whose encoding fills slot `k` is in the table under
/// number `k`, whatever the other slots hold.
pub proof fn lemma_table_recovers_record(
    source: Seq<u8>,
    start: int,
    count: nat,
    k: int,
    record: VtblRecordView,
)
    requires
        0 <= k < count <= MAX_SLOTS,
        record.valid(),
        0 <= start + k * VTBL_RECORD_SIZE,
        start + (k + 1) * VTBL_RECORD_SIZE <= source.len(),
        source.subrange(start + k * VTBL_RECORD_SIZE, start + (k + 1) * VTBL_RECORD_SIZE)
            == record.to_bytes(),
    ensures
        table_at(source, start, count).contains((k as u32, record)),
{
    let off = start + k * VTBL_RECORD_SIZE;
    let rest = tail(source, off);
    lemma_vtbl_record_parse_prefix(rest);
    assert(rest.subrange(0, VTBL_RECORD_SIZE as int) =~= source.subrange(
        off,
        start + (k + 1) * VTBL_RECORD_SIZE,
    ));
    lemma_vtbl_record_round_trip(record);
    assert(slot(source, start)(k) == Some((k as u32, record)));
    lemma_table_entries(source, start, count);
}

/// A slot that does not decode leaves no entry: no entry of the table
/// carries its number.
pub proof fn lemma_table_skips_slot(source: Seq<u8>, start: int, count: nat, k: int)
    requires
        0 <= k < count <= MAX_SLOTS,
        slot(source, start)(k) is None,
    ensures
        forall|j: int|
            0 <= j < table_at(source, start, count).len() ==> (#[trigger] table_at(
                source,
                start,
                count,
            )[j]).0 != k,
{
    lemma_table_entries(source, start, count);
}

} // verus!
