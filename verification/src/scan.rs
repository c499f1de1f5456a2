//! The block scanner: which physical blocks carry which volume.

use crate::block::{block_headers, read_block_headers};
use crate::ec_hdr::EcHdrView;
use crate::error::ImageError;
use crate::vid_hdr::VidHdrView;
use std::collections::HashMap;
use vstd::prelude::*;

verus! {

/// The test "block `i` decodes and carries volume `vol`".
pub open spec fn carries(source: Seq<u8>, block_size: int, vol: u32) -> spec_fn(u64) -> bool {
    |i: u64|
        match block_headers(source, block_size, i as int) {
            Ok((_, vid)) => vid.vol_id == vol,
            Err(_) => false,
        }
}

/// The physical block indices 0, 1, .., n-1.
pub open spec fn block_indices(n: nat) -> Seq<u64> {
    Seq::new(n, |i: int| i as u64)
}

/// The blocks among the first `n` that carry volume `vol`, in ascending order.
pub open spec fn blocks_of(source: Seq<u8>, block_size: int, n: nat, vol: u32) -> Seq<u64> {
    block_indices(n).filter(carries(source, block_size, vol))
}

/// The mapping from each volume that occurs in the first `n` blocks to the
/// blocks that carry it.
pub open spec fn scan_map(source: Seq<u8>, block_size: int, n: nat) -> Map<u32, Seq<u64>> {
    Map::new(
        |vol: u32| blocks_of(source, block_size, n, vol).len() > 0,
        |vol: u32| blocks_of(source, block_size, n, vol),
    )
}

/// The failure of the first among the first `n` blocks whose headers do not
/// decode, if there is one.
pub open spec fn scan_error(source: Seq<u8>, block_size: int, n: nat) -> Option<ImageError>
    decreases n,
{
    if n == 0 {
        None
    } else {
        match scan_error(source, block_size, (n - 1) as nat) {
            Some(e) => Some(e),
            None => match block_headers(source, block_size, n - 1) {
                Err(e) => Some(e),
                Ok(_) => None,
            },
        }
    }
}

/// What a scan of an image of `file_len` bytes gives: the blocks are
/// `file_len / block_size` in number; the first one that does not decode
/// fails the scan; otherwise every block is filed under its volume.
pub open spec fn scan_spec(source: Seq<u8>, file_len: int, block_size: int) -> Result<
    Map<u32, Seq<u64>>,
    ImageError,
> {
    if block_size == 0 {
        Err(ImageError::ZeroBlockSize)
    } else {
        let n = (file_len / block_size) as nat;
        match scan_error(source, block_size, n) {
            Some(e) => Err(e),
            None => Ok(scan_map(source, block_size, n)),
        }
    }
}

/// The lists of a block mapping as sequences.
pub open spec fn map_view(m: Map<u32, Vec<u64>>) -> Map<u32, Seq<u64>> {
    m.map_values(|v: Vec<u64>| v@)
}

/// Taking one more block into account appends it to the list of the volume
/// it carries and leaves the other lists alone.
pub proof fn lemma_blocks_of_step(source: Seq<u8>, block_size: int, n: nat, vol: u32)
    requires
        n <= u64::MAX,
    ensures
        blocks_of(source, block_size, n + 1, vol) == if carries(source, block_size, vol)(n as u64) {
            blocks_of(source, block_size, n, vol).push(n as u64)
        } else {
            blocks_of(source, block_size, n, vol)
        },
{
    assert(block_indices(n + 1) =~= block_indices(n).push(n as u64));
    block_indices(n).lemma_filter_push(n as u64, carries(source, block_size, vol));
}

/// Scans the physical blocks of an image and files each under the volume
/// that its volume-identifier header names, in ascending physical order.
pub fn scan_blocks(source: &[u8], file_len: u64, block_size: u64) -> (r: Result<
    HashMap<u32, Vec<u64>>,
    ImageError,
>)
    ensures
        match r {
            Ok(m) => scan_spec(source@, file_len as int, block_size as int) == Ok::<
                Map<u32, Seq<u64>>,
                ImageError,
            >(map_view(m@)),
            Err(e) => scan_spec(source@, file_len as int, block_size as int) == Err::<
                Map<u32, Seq<u64>>,
                ImageError,
            >(e),
        },
{
    if block_size == 0 {
        return Err(ImageError::ZeroBlockSize);
    }
    let n = file_len / block_size;
    let mut map: HashMap<u32, Vec<u64>> = HashMap::new();
    let mut i: u64 = 0;
    proof {
        assert forall|vol: u32| blocks_of(source@, block_size as int, 0, vol).len() == 0 by {
            assert(block_indices(0) =~= Seq::<u64>::empty());
        }
    }
    while i < n
        invariant
            i <= n,
            block_size != 0,
            n == file_len / block_size,
            scan_error(source@, block_size as int, i as nat) is None,
            forall|vol: u32|
                map@.contains_key(vol) <==> (#[trigger] blocks_of(
                    source@,
                    block_size as int,
                    i as nat,
                    vol,
                )).len() > 0,
            forall|vol: u32|
                map@.contains_key(vol) ==> map@[vol]@ == #[trigger] blocks_of(
                    source@,
                    block_size as int,
                    i as nat,
                    vol,
                ),
        decreases n - i,
    {
        let vid = match read_block_headers(source, block_size, i) {
            Ok((_, vid)) => vid,
            Err(e) => {
                proof {
                    assert(scan_error(source@, block_size as int, (i + 1) as nat) == Some(e));
                    lemma_scan_error_stays(source@, block_size as int, (i + 1) as nat, n as nat);
                }
                return Err(e);
            },
        };
        let ghost before = map@;
        let mut list = match map.remove(&vid.vol_id) {
            Some(list) => list,
            None => Vec::new(),
        };
        list.push(i);
        map.insert(vid.vol_id, list);
        proof {
            assert forall|vol: u32|
                map@.contains_key(vol) <==> (#[trigger] blocks_of(
                    source@,
                    block_size as int,
                    (i + 1) as nat,
                    vol,
                )).len() > 0 by {
                lemma_blocks_of_step(source@, block_size as int, i as nat, vol);
            }
            assert forall|vol: u32| map@.contains_key(vol) implies map@[vol]@ == #[trigger] blocks_of(
                source@,
                block_size as int,
                (i + 1) as nat,
                vol,
            ) by {
                lemma_blocks_of_step(source@, block_size as int, i as nat, vol);
                if vol == vid.vol_id && !before.contains_key(vol) {
                    assert(blocks_of(source@, block_size as int, i as nat, vol) =~= Seq::<
                        u64,
                    >::empty());
                }
            }
        }
        i += 1;
    }
    assert(map_view(map@) =~= scan_map(source@, block_size as int, n as nat));
    Ok(map)
}

/// Once a block has failed, scanning further blocks reports the same failure.
pub proof fn lemma_scan_error_stays(source: Seq<u8>, block_size: int, n: nat, m: nat)
    requires
        n <= m,
        scan_error(source, block_size, n) is Some,
    ensures
        scan_error(source, block_size, m) == scan_error(source, block_size, n),
    decreases m - n,
{
    if n < m {
        lemma_scan_error_stays(source, block_size, n, (m - 1) as nat);
    }
}

/// A scan that finds no failure has decoded every block.
pub proof fn lemma_scan_decodes_all(source: Seq<u8>, block_size: int, n: nat, i: int)
    requires
        scan_error(source, block_size, n) is None,
        0 <= i < n,
    ensures
        block_headers(source, block_size, i) is Ok,
    decreases n,
{
    if i < n - 1 {
        lemma_scan_decodes_all(source, block_size, (n - 1) as nat, i);
    }
}

/// A scan that fails reports the failure of the first block that does not decode.
pub proof fn lemma_scan_error_is_first(source: Seq<u8>, block_size: int, n: nat)
    requires
        scan_error(source, block_size, n) is Some,
    ensures
        exists|i: int|
            0 <= i < n && (#[trigger] block_headers(source, block_size, i)) == Err::<
                (EcHdrView, VidHdrView),
                ImageError,
            >(scan_error(source, block_size, n).unwrap()) && scan_error(
                source,
                block_size,
                i as nat,
            ) is None,
    decreases n,
{
    if scan_error(source, block_size, (n - 1) as nat) is Some {
        lemma_scan_error_is_first(source, block_size, (n - 1) as nat);
    } else {
        assert(block_headers(source, block_size, n - 1) is Err);
    }
}

/// The list of a volume holds exactly the blocks that carry the volume, in
/// strictly ascending order.
pub proof fn lemma_blocks_of_members(source: Seq<u8>, block_size: int, n: nat, vol: u32)
    requires
        n <= u64::MAX,
    ensures
        forall|x: u64|
            blocks_of(source, block_size, n, vol).contains(x) <==> (x < n && carries(
                source,
                block_size,
                vol,
            )(x)),
        forall|a: int, b: int|
            0 <= a < b < blocks_of(source, block_size, n, vol).len() ==> blocks_of(
                source,
                block_size,
                n,
                vol,
            )[a] < blocks_of(source, block_size, n, vol)[b],
    decreases n,
{
    let now = blocks_of(source, block_size, n, vol);
    if n == 0 {
        assert(block_indices(0) =~= Seq::<u64>::empty());
    } else {
        let m = (n - 1) as nat;
        let last = m as u64;
        let before = blocks_of(source, block_size, m, vol);
        lemma_blocks_of_members(source, block_size, m, vol);
        lemma_blocks_of_step(source, block_size, m, vol);
        let hit = carries(source, block_size, vol)(last);
        assert forall|x: u64| now.contains(x) implies x < n && carries(source, block_size, vol)(
            x,
        ) by {
            let idx = choose|idx: int| 0 <= idx < now.len() && now[idx] == x;
            if idx < before.len() {
                assert(before[idx] == x);
                assert(before.contains(x));
            }
        }
        assert forall|x: u64| x < n && carries(source, block_size, vol)(x) implies now.contains(
            x,
        ) by {
            if x == last {
                assert(now[before.len() as int] == x);
            } else {
                assert(before.contains(x));
                let idx = choose|idx: int| 0 <= idx < before.len() && before[idx] == x;
                assert(now[idx] == x);
            }
        }
        assert forall|a: int, b: int| 0 <= a < b < now.len() implies now[a] < now[b] by {
            if b == before.len() {
                assert(before.contains(before[a]));
            }
        }
    }
}

/// Every scanned block is filed exactly once: in the list of the volume
/// that its header names, at one place, and in no other list.
pub proof fn lemma_scan_partition(source: Seq<u8>, file_len: u64, block_size: u64, i: u64)
    requires
        scan_spec(source, file_len as int, block_size as int) is Ok,
        i < file_len / block_size,
    ensures
        block_headers(source, block_size as int, i as int) is Ok,
        ({
            let map = scan_spec(source, file_len as int, block_size as int).unwrap();
            let vol = block_headers(source, block_size as int, i as int).unwrap().1.vol_id;
            &&& map.contains_key(vol)
            &&& exists|at: int| 0 <= at < map[vol].len() && #[trigger] map[vol][at] == i
            &&& forall|a: int, b: int|
                0 <= a < map[vol].len() && 0 <= b < map[vol].len() && map[vol][a] == i
                    && map[vol][b] == i ==> a == b
            &&& forall|other: u32|
                map.contains_key(other) && (#[trigger] map[other]).contains(i) ==> other == vol
        }),
{
    let n = (file_len as int / block_size as int) as nat;
    let map = scan_map(source, block_size as int, n);
    lemma_scan_decodes_all(source, block_size as int, n, i as int);
    let vol = block_headers(source, block_size as int, i as int).unwrap().1.vol_id;
    lemma_blocks_of_members(source, block_size as int, n, vol);
    let list = blocks_of(source, block_size as int, n, vol);
    assert(carries(source, block_size as int, vol)(i));
    assert(list.contains(i));
    let at = choose|at: int| 0 <= at < list.len() && list[at] == i;
    assert(block_size != 0);
    assert(scan_spec(source, file_len as int, block_size as int).unwrap() == map);
    assert(map.contains_key(vol));
    assert(map[vol] == list);
    assert(map[vol][at] == i);
    assert forall|a: int, b: int|
        0 <= a < list.len() && 0 <= b < list.len() && list[a] == i && list[b] == i implies a
        == b by {
        if a < b {
            assert(list[a] < list[b]);
        }
        if b < a {
            assert(list[b] < list[a]);
        }
    }
    assert forall|other: u32| map.contains_key(other) && (#[trigger] map[other]).contains(
        i,
    ) implies other == vol by {
        lemma_blocks_of_members(source, block_size as int, n, other);
    }
}

/// The lists of a scan are in scan order: strictly ascending, and made of
/// blocks that were scanned.
pub proof fn lemma_scan_order(source: Seq<u8>, file_len: u64, block_size: u64, vol: u32)
    requires
        scan_spec(source, file_len as int, block_size as int) is Ok,
        scan_spec(source, file_len as int, block_size as int).unwrap().contains_key(vol),
    ensures
        ({
            let list = scan_spec(source, file_len as int, block_size as int).unwrap()[vol];
            &&& list.len() > 0
            &&& forall|a: int| 0 <= a < list.len() ==> #[trigger] list[a] < file_len / block_size
            &&& forall|a: int, b: int| 0 <= a < b < list.len() ==> list[a] < list[b]
        }),
{
    let n = (file_len as int / block_size as int) as nat;
    lemma_blocks_of_members(source, block_size as int, n, vol);
    let list = blocks_of(source, block_size as int, n, vol);
    assert forall|a: int| 0 <= a < list.len() implies #[trigger] list[a] < file_len
        / block_size by {
        assert(list.contains(list[a]));
    }
}

} // verus!
