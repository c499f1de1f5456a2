use income::block::{read_block_headers, read_block_payload, tail_at};
use income::{
    find_block_size, read_volume_table, scan_blocks, EcHdr, FormatError, Image, ImageError, VidHdr,
    VolType, VtblRecord, VTBL_VOLID,
};
use std::collections::HashMap;

fn ec(vid_hdr_offset: u32, data_offset: u32) -> EcHdr {
    EcHdr {
        magic: *b"UBI#",
        version: 1,
        padding1: [0; 3],
        ec: 1,
        vid_hdr_offset,
        data_offset,
        image_seq: 0x1234,
        padding2: [0; 32],
        hdr_crc: 0,
    }
}

fn vid(vol_type: VolType, vol_id: u32, lnum: u32, data_size: u32) -> VidHdr {
    VidHdr {
        magic: *b"UBI!",
        version: 1,
        vol_type,
        copy_flag: 0,
        compat: 0,
        vol_id,
        lnum,
        padding1: [0; 4],
        data_size,
        used_ebs: 0,
        data_pad: 0,
        data_crc: 0,
        padding2: [0; 4],
        sqnum: 0,
        padding3: [0; 12],
        hdr_crc: 0,
    }
}

fn record(name: &[u8], vol_type: VolType) -> VtblRecord {
    let mut buf = [0u8; 128];
    buf[..name.len()].copy_from_slice(name);
    VtblRecord {
        reserved_pebs: 1,
        alignment: 1,
        data_pad: 0,
        vol_type,
        upd_marker: 0,
        name_len: name.len() as u16,
        name: buf,
        flags: 0,
        padding: [0; 23],
        crc: 0xf116c36b,
    }
}

const VID_OFF: u32 = 64;
const DATA_OFF: u32 = 128;

/// One block of `block_size` bytes: both headers, then `payload` at the data offset.
fn block(block_size: usize, v: &VidHdr, payload: &[u8]) -> Vec<u8> {
    let mut b = vec![0u8; block_size];
    b[..64].copy_from_slice(&ec(VID_OFF, DATA_OFF).to_bytes().unwrap());
    b[64..128].copy_from_slice(&v.to_bytes().unwrap());
    b[128..128 + payload.len()].copy_from_slice(payload);
    b
}

/// The payload of a table block: `slots[k]` is the record of slot `k`, or
/// `None` for a slot of zero bytes.
fn table_payload(slots: &[Option<VtblRecord>]) -> Vec<u8> {
    let mut p = Vec::new();
    for slot in slots {
        match slot {
            Some(r) => p.extend_from_slice(&r.to_bytes().unwrap()),
            None => p.extend_from_slice(&[0u8; 172]),
        }
    }
    p
}

fn table_block(block_size: usize, lnum: u32, slots: &[Option<VtblRecord>]) -> Vec<u8> {
    block(
        block_size,
        &vid(VolType::Dynamic, VTBL_VOLID, lnum, 0),
        &table_payload(slots),
    )
}

fn pattern(len: usize, seed: u8) -> Vec<u8> {
    (0..len).map(|i| (i as u8).wrapping_mul(31).wrapping_add(seed)).collect()
}

fn list(map: &HashMap<u32, Vec<u64>>, vol: u32) -> Vec<u64> {
    map.get(&vol).cloned().unwrap_or_default()
}

#[test]
fn two_block_image_with_one_dynamic_volume() {
    let bs = 0x20000usize;
    let mut slots: Vec<Option<VtblRecord>> = (0..5).map(|_| None).collect();
    slots.push(Some(record(b"data", VolType::Dynamic)));
    let payload = pattern(bs - DATA_OFF as usize, 7);
    let mut image = table_block(bs, 0, &slots);
    image.extend(block(bs, &vid(VolType::Dynamic, 5, 0, 0), &payload));

    assert_eq!(find_block_size(&image), Ok(bs as u64));
    let img = Image::read(&image, image.len() as u64, bs as u64).unwrap();
    assert_eq!(img.vtable, vec![(5, record(b"data", VolType::Dynamic))]);
    assert_eq!(img.vtable[0].1.name(), Some(b"data".to_vec()));
    assert_eq!(img.map.len(), 2);
    assert_eq!(list(&img.map, VTBL_VOLID), vec![0]);
    assert_eq!(list(&img.map, 5), vec![1]);

    let mut out = Vec::new();
    assert_eq!(img.read_volume(&image, &mut out, bs as u64, &img.vtable[0]), Ok(()));
    assert_eq!(out.len(), bs - DATA_OFF as usize);
    assert_eq!(out, payload);
}

#[test]
fn every_block_is_filed_once_under_its_volume() {
    let bs = 1024usize;
    let vols = [VTBL_VOLID, VTBL_VOLID, 3, 0, 3, 7, 0, 3];
    let mut image = Vec::new();
    for (i, &vol) in vols.iter().enumerate() {
        image.extend(block(bs, &vid(VolType::Dynamic, vol, i as u32, 0), &[]));
    }
    let map = scan_blocks(&image, image.len() as u64, bs as u64).unwrap();
    assert_eq!(map.len(), 4);
    assert_eq!(list(&map, VTBL_VOLID), vec![0, 1]);
    assert_eq!(list(&map, 3), vec![2, 4, 7]);
    assert_eq!(list(&map, 0), vec![3, 6]);
    assert_eq!(list(&map, 7), vec![5]);
    for i in 0..vols.len() as u64 {
        let homes: Vec<u32> = map
            .iter()
            .filter(|(_, blocks)| blocks.contains(&i))
            .map(|(vol, _)| *vol)
            .collect();
        assert_eq!(homes, vec![vols[i as usize]]);
        let times = map[&vols[i as usize]].iter().filter(|&&b| b == i).count();
        assert_eq!(times, 1);
    }
    let total: usize = map.values().map(|blocks| blocks.len()).sum();
    assert_eq!(total, vols.len());
}

#[test]
fn lists_keep_scan_order_not_logical_order() {
    let bs = 1024usize;
    let mut image = table_block(bs, 0, &[]);
    image.extend(block(bs, &vid(VolType::Dynamic, 1, 2, 0), &[]));
    image.extend(block(bs, &vid(VolType::Dynamic, 1, 0, 0), &[]));
    image.extend(block(bs, &vid(VolType::Dynamic, 1, 1, 0), &[]));
    let map = scan_blocks(&image, image.len() as u64, bs as u64).unwrap();
    assert_eq!(list(&map, 1), vec![1, 2, 3]);
}

#[test]
fn block_count_is_the_floor_of_length_by_block_size() {
    let bs = 1024usize;
    let mut image = table_block(bs, 0, &[]);
    image.extend(block(bs, &vid(VolType::Dynamic, 1, 0, 0), &[]));
    image.extend(block(bs, &vid(VolType::Dynamic, 2, 0, 0), &[]));
    let map = scan_blocks(&image, 3 * 1024, 1024).unwrap();
    assert_eq!(map.len(), 3);
    let map = scan_blocks(&image, 3 * 1024 - 1, 1024).unwrap();
    assert_eq!(map.len(), 2);
    assert_eq!(list(&map, 2), Vec::<u64>::new());
    let map = scan_blocks(&image, 1024, 1024).unwrap();
    assert_eq!(map.len(), 1);
    let map = scan_blocks(&image, 1023, 1024).unwrap();
    assert!(map.is_empty());
    let map = scan_blocks(&image, 0, 1024).unwrap();
    assert!(map.is_empty());
    // trailing bytes that do not fill a block are not scanned
    image.extend_from_slice(&[0xff; 500]);
    let map = scan_blocks(&image, image.len() as u64, 1024).unwrap();
    assert_eq!(map.len(), 3);
}

#[test]
fn zero_block_size_is_refused() {
    let image = table_block(1024, 0, &[]);
    assert_eq!(scan_blocks(&image, 1024, 0), Err(ImageError::ZeroBlockSize));
    assert_eq!(Image::read(&image, 1024, 0), Err(ImageError::ZeroBlockSize));
    assert_eq!(Image::read(&image, 0, 0), Err(ImageError::ZeroBlockSize));
}

#[test]
fn unsupported_version_stops_the_scan_at_that_block() {
    let bs = 1024usize;
    let mut image = table_block(bs, 0, &[]);
    image.extend(block(bs, &vid(VolType::Dynamic, 1, 0, 0), &[]));
    image.extend(block(bs, &vid(VolType::Dynamic, 1, 1, 0), &[]));
    image.extend(block(bs, &vid(VolType::Dynamic, 1, 2, 0), &[]));
    // version byte of the volume-identifier header of block 1
    image[bs + 64 + 4] = 2;
    // block 2 is worse, but is not reached
    image[2 * bs] = 0;
    let want = ImageError::VidHdr { block: 1, error: FormatError::BadVersion };
    assert_eq!(scan_blocks(&image, image.len() as u64, bs as u64), Err(want));
    assert_eq!(Image::read(&image, image.len() as u64, bs as u64), Err(want));
}

#[test]
fn bad_erase_counter_magic_stops_the_scan() {
    let bs = 1024usize;
    let mut image = table_block(bs, 0, &[]);
    image.extend(block(bs, &vid(VolType::Dynamic, 1, 0, 0), &[]));
    image.extend(vec![0xffu8; bs]);
    assert_eq!(
        Image::read(&image, image.len() as u64, bs as u64),
        Err(ImageError::EcHdr { block: 2, error: FormatError::BadMagic })
    );
}

#[test]
fn bad_volume_identifier_headers() {
    let bs = 1024usize;
    let good = table_block(bs, 0, &[]);
    let mut image = good.clone();
    image[64] = b'X';
    assert_eq!(
        scan_blocks(&image, 1024, 1024),
        Err(ImageError::VidHdr { block: 0, error: FormatError::BadMagic })
    );
    let mut image = good.clone();
    image[64 + 5] = 0;
    assert_eq!(
        scan_blocks(&image, 1024, 1024),
        Err(ImageError::VidHdr { block: 0, error: FormatError::BadVolType })
    );
}

#[test]
fn image_shorter_than_its_declared_length() {
    let bs = 1024usize;
    let mut image = table_block(bs, 0, &[]);
    image.extend(block(bs, &vid(VolType::Dynamic, 1, 0, 0), &[]));
    assert_eq!(
        scan_blocks(&image, 3 * 1024, 1024),
        Err(ImageError::EcHdr { block: 2, error: FormatError::ShortRead })
    );
    assert_eq!(
        scan_blocks(&image[..1024 + 100], 2 * 1024, 1024),
        Err(ImageError::VidHdr { block: 1, error: FormatError::ShortRead })
    );
    assert_eq!(
        scan_blocks(&image[..1024 + 30], 2 * 1024, 1024),
        Err(ImageError::EcHdr { block: 1, error: FormatError::ShortRead })
    );
    assert_eq!(
        scan_blocks(&[], u64::MAX, 1),
        Err(ImageError::EcHdr { block: 0, error: FormatError::ShortRead })
    );
}

#[test]
fn header_offset_behind_the_image() {
    let bs = 1024usize;
    let mut image = vec![0u8; bs];
    image[..64].copy_from_slice(&ec(u32::MAX, DATA_OFF).to_bytes().unwrap());
    assert_eq!(
        scan_blocks(&image, 1024, 1024),
        Err(ImageError::VidHdr { block: 0, error: FormatError::ShortRead })
    );
}

#[test]
fn headers_of_one_block() {
    let bs = 1024usize;
    let mut image = table_block(bs, 0, &[]);
    let v = vid(VolType::Static, 9, 4, 77);
    image.extend(block(bs, &v, &[]));
    assert_eq!(read_block_headers(&image, 1024, 1), Ok((ec(VID_OFF, DATA_OFF), v)));
    assert_eq!(
        read_block_headers(&image, 1024, 2),
        Err(ImageError::EcHdr { block: 2, error: FormatError::ShortRead })
    );
    assert_eq!(
        read_block_headers(&image, u64::MAX, u64::MAX),
        Err(ImageError::EcHdr { block: u64::MAX, error: FormatError::ShortRead })
    );
}

#[test]
fn tail_of_an_image() {
    let image = [1u8, 2, 3, 4, 5, 6, 7, 8];
    assert_eq!(tail_at(&image, 1, 4, 1), &[6, 7, 8]);
    assert_eq!(tail_at(&image, 0, 4, 0), &image[..]);
    assert_eq!(tail_at(&image, 2, 4, 0), &[] as &[u8]);
    assert_eq!(tail_at(&image, 2, 4, 1), &[] as &[u8]);
    assert_eq!(tail_at(&image, u64::MAX, 2, 0), &[] as &[u8]);
    assert_eq!(tail_at(&image, 1, u64::MAX, 1), &[] as &[u8]);
}

#[test]
fn table_skips_corrupt_slots_and_keeps_slot_numbers() {
    let bs = 2048usize;
    let a = record(b"alpha", VolType::Dynamic);
    let b = record(b"beta", VolType::Static);
    let c = record(b"gamma", VolType::Dynamic);
    let slots = vec![Some(a), None, Some(b), Some(record(b"broken", VolType::Dynamic)), None, Some(c)];
    let mut image = table_block(bs, 0, &slots);
    // corrupt slot 3: a name length that is out of range
    let slot3 = DATA_OFF as usize + 3 * 172;
    image[slot3 + 14] = 0xff;
    let img = Image::read(&image, bs as u64, bs as u64).unwrap();
    assert_eq!(
        img.vtable,
        vec![
            (0, record(b"alpha", VolType::Dynamic)),
            (2, record(b"beta", VolType::Static)),
            (5, record(b"gamma", VolType::Dynamic)),
        ]
    );
}

#[test]
fn table_of_zero_bytes_is_empty() {
    let image = table_block(1024, 0, &[]);
    let img = Image::read(&image, 1024, 1024).unwrap();
    assert!(img.vtable.is_empty());
    assert_eq!(list(&img.map, VTBL_VOLID), vec![0]);
}

#[test]
fn table_slots_fill_the_block_exactly() {
    // 128 + 5 * 172 = 988: five whole slots, the last one ends with the block
    let bs = 988usize;
    let slots: Vec<Option<VtblRecord>> = (0..5)
        .map(|k| Some(record(&[b'a' + k as u8], VolType::Dynamic)))
        .collect();
    let image = table_block(bs, 0, &slots);
    let img = Image::read(&image, bs as u64, bs as u64).unwrap();
    let numbers: Vec<u32> = img.vtable.iter().map(|e| e.0).collect();
    assert_eq!(numbers, vec![0, 1, 2, 3, 4]);
    assert_eq!(img.vtable[4].1.name(), Some(b"e".to_vec()));
}

#[test]
fn table_slot_cut_by_the_block_end_is_not_read() {
    // one byte short of five slots: the record of slot 4 lies partly in the next block
    let bs = 987usize;
    let slots: Vec<Option<VtblRecord>> = (0..5)
        .map(|k| Some(record(&[b'a' + k as u8], VolType::Dynamic)))
        .collect();
    let mut image = vec![0u8; 2 * bs];
    image[..64].copy_from_slice(&ec(VID_OFF, DATA_OFF).to_bytes().unwrap());
    image[64..128].copy_from_slice(&vid(VolType::Dynamic, VTBL_VOLID, 0, 0).to_bytes().unwrap());
    let payload = table_payload(&slots);
    image[128..128 + payload.len()].copy_from_slice(&payload);
    let img = Image::read(&image, bs as u64, bs as u64).unwrap();
    let numbers: Vec<u32> = img.vtable.iter().map(|e| e.0).collect();
    assert_eq!(numbers, vec![0, 1, 2, 3]);
}

#[test]
fn table_with_data_offset_behind_the_block_is_empty() {
    let bs = 256usize;
    let mut image = vec![0u8; bs];
    image[..64].copy_from_slice(&ec(VID_OFF, 5000).to_bytes().unwrap());
    image[64..128].copy_from_slice(&vid(VolType::Dynamic, VTBL_VOLID, 0, 0).to_bytes().unwrap());
    let img = Image::read(&image, bs as u64, bs as u64).unwrap();
    assert!(img.vtable.is_empty());
}

#[test]
fn only_the_first_table_block_is_read() {
    let bs = 1024usize;
    let mut image = table_block(bs, 0, &[Some(record(b"first", VolType::Dynamic))]);
    image.extend(table_block(bs, 1, &[None, Some(record(b"second", VolType::Dynamic))]));
    let img = Image::read(&image, image.len() as u64, bs as u64).unwrap();
    assert_eq!(img.vtable, vec![(0, record(b"first", VolType::Dynamic))]);
    assert_eq!(list(&img.map, VTBL_VOLID), vec![0, 1]);
}

#[test]
fn missing_volume_table() {
    let bs = 1024usize;
    let image = block(bs, &vid(VolType::Dynamic, 1, 0, 0), &[]);
    assert_eq!(Image::read(&image, 1024, 1024), Err(ImageError::NoVolumeTable));
    assert_eq!(Image::read(&image, 1023, 1024), Err(ImageError::NoVolumeTable));
    assert_eq!(Image::read(&[], 0, 1024), Err(ImageError::NoVolumeTable));
    let mut map = HashMap::new();
    assert_eq!(read_volume_table(&image, 1024, &map), Err(ImageError::NoVolumeTable));
    map.insert(VTBL_VOLID, vec![]);
    assert_eq!(read_volume_table(&image, 1024, &map), Err(ImageError::NoVolumeTable));
}

#[test]
fn table_block_with_another_logical_number() {
    let bs = 1024usize;
    let mut image = block(bs, &vid(VolType::Dynamic, 1, 0, 0), &[]);
    image.extend(table_block(bs, 0, &[Some(record(b"x", VolType::Dynamic))]));
    assert_eq!(
        Image::read(&image, image.len() as u64, bs as u64),
        Err(ImageError::TableBlockMismatch { block: 1, lnum: 0 })
    );
    let mut image = block(bs, &vid(VolType::Dynamic, 1, 0, 0), &[]);
    image.extend(table_block(bs, 1, &[Some(record(b"x", VolType::Dynamic))]));
    let img = Image::read(&image, image.len() as u64, bs as u64).unwrap();
    assert_eq!(img.vtable, vec![(0, record(b"x", VolType::Dynamic))]);
}

#[test]
fn table_block_that_does_not_decode() {
    let image = block(1024, &vid(VolType::Dynamic, 1, 0, 0), &[]);
    let mut map = HashMap::new();
    map.insert(VTBL_VOLID, vec![3u64, 0]);
    assert_eq!(
        read_volume_table(&image, 1024, &map),
        Err(ImageError::EcHdr { block: 3, error: FormatError::ShortRead })
    );
}

#[test]
fn table_with_more_slots_than_slot_numbers() {
    let image = table_block(1024, 0, &[]);
    // 128 + 172 * 2^32 leaves room for exactly 2^32 slots, numbered up to u32::MAX
    let most = 128 + 172 * (1u64 << 32);
    let mut map = HashMap::new();
    map.insert(VTBL_VOLID, vec![0u64]);
    assert_eq!(
        read_volume_table(&image, most + 172, &map),
        Err(ImageError::TableTooLong)
    );
    assert_eq!(
        Image::read(&image, u64::MAX, u64::MAX),
        Err(ImageError::TableTooLong)
    );
}

#[test]
fn static_volume_copies_the_declared_size_of_each_block() {
    let bs = 1024usize;
    let part_a = pattern(100, 1);
    let part_b = pattern(896, 2);
    let part_c = pattern(0, 3);
    let part_d = pattern(1, 4);
    let mut image = table_block(bs, 0, &[Some(record(b"s", VolType::Static))]);
    image.extend(block(bs, &vid(VolType::Static, 0, 0, 100), &part_a));
    image.extend(block(bs, &vid(VolType::Dynamic, 1, 0, 0), &pattern(896, 9)));
    image.extend(block(bs, &vid(VolType::Static, 0, 1, 896), &part_b));
    image.extend(block(bs, &vid(VolType::Static, 0, 2, 0), &part_c));
    image.extend(block(bs, &vid(VolType::Static, 0, 3, 1), &part_d));
    let img = Image::read(&image, image.len() as u64, bs as u64).unwrap();
    assert_eq!(list(&img.map, 0), vec![1, 3, 4, 5]);
    let mut out = Vec::new();
    assert_eq!(img.read_volume(&image, &mut out, bs as u64, &img.vtable[0]), Ok(()));
    assert_eq!(out.len(), 100 + 896 + 0 + 1);
    let mut want = part_a.clone();
    want.extend(&part_b);
    want.extend(&part_d);
    assert_eq!(out, want);
    assert_eq!(read_block_payload(&image, 1024, 1), Ok(&part_a[..]));
    assert_eq!(read_block_payload(&image, 1024, 4), Ok(&[] as &[u8]));
}

#[test]
fn dynamic_volume_copies_each_block_to_its_end() {
    let bs = 1024usize;
    let part_a = pattern(896, 1);
    let part_b = pattern(896, 2);
    let mut image = table_block(bs, 0, &[None, Some(record(b"d", VolType::Dynamic))]);
    image.extend(block(bs, &vid(VolType::Dynamic, 1, 0, 0), &part_a));
    // a declared data size does not count for a dynamic volume
    image.extend(block(bs, &vid(VolType::Dynamic, 1, 1, 5), &part_b));
    let img = Image::read(&image, image.len() as u64, bs as u64).unwrap();
    let mut out = vec![0xee, 0xef];
    assert_eq!(img.read_volume(&image, &mut out, bs as u64, &img.vtable[0]), Ok(()));
    assert_eq!(out.len(), 2 + 2 * (1024 - 128));
    let mut want = vec![0xee, 0xef];
    want.extend(&part_a);
    want.extend(&part_b);
    assert_eq!(out, want);
}

#[test]
fn blocks_are_replayed_in_list_order() {
    let bs = 1024usize;
    let part_a = pattern(10, 1);
    let part_b = pattern(20, 2);
    let mut image = table_block(bs, 0, &[Some(record(b"s", VolType::Static))]);
    image.extend(block(bs, &vid(VolType::Static, 0, 1, 10), &part_a));
    image.extend(block(bs, &vid(VolType::Static, 0, 0, 20), &part_b));
    let mut img = Image::read(&image, image.len() as u64, bs as u64).unwrap();
    let mut out = Vec::new();
    assert_eq!(img.read_volume(&image, &mut out, 1024, &img.vtable[0]), Ok(()));
    assert_eq!(out, [part_a.clone(), part_b.clone()].concat());
    img.map.insert(0, vec![2, 1, 2]);
    let mut out = Vec::new();
    assert_eq!(img.read_volume(&image, &mut out, 1024, &img.vtable[0]), Ok(()));
    assert_eq!(out, [part_b.clone(), part_a.clone(), part_b.clone()].concat());
    img.map.insert(0, vec![]);
    let mut out = vec![1];
    assert_eq!(img.read_volume(&image, &mut out, 1024, &img.vtable[0]), Ok(()));
    assert_eq!(out, vec![1]);
}

#[test]
fn static_block_may_declare_more_than_a_block() {
    let bs = 1024usize;
    let mut image = table_block(bs, 0, &[Some(record(b"s", VolType::Static))]);
    image.extend(block(bs, &vid(VolType::Static, 0, 0, 1000), &pattern(896, 1)));
    image.extend(block(bs, &vid(VolType::Dynamic, 1, 0, 0), &pattern(896, 2)));
    let img = Image::read(&image, image.len() as u64, bs as u64).unwrap();
    let mut out = Vec::new();
    assert_eq!(img.read_volume(&image, &mut out, 1024, &img.vtable[0]), Ok(()));
    assert_eq!(out, image[1024 + 128..1024 + 128 + 1000].to_vec());
}

#[test]
fn unknown_volume() {
    let bs = 1024usize;
    let image = table_block(bs, 0, &[None, None, Some(record(b"lost", VolType::Dynamic))]);
    let img = Image::read(&image, 1024, 1024).unwrap();
    assert_eq!(img.vtable.len(), 1);
    let mut out = vec![5u8];
    assert_eq!(
        img.read_volume(&image, &mut out, 1024, &img.vtable[0]),
        Err(ImageError::UnknownVolume { vol_id: 2 })
    );
    assert_eq!(out, vec![5]);
}

#[test]
fn extraction_stops_at_the_first_failing_block() {
    let bs = 1024usize;
    let part_a = pattern(50, 1);
    let mut image = table_block(bs, 0, &[Some(record(b"s", VolType::Static))]);
    image.extend(block(bs, &vid(VolType::Static, 0, 0, 50), &part_a));
    image.extend(block(bs, &vid(VolType::Static, 0, 1, 897), &pattern(896, 2)));
    let img = Image::read(&image, image.len() as u64, bs as u64).unwrap();
    let mut out = vec![1u8];
    assert_eq!(
        img.read_volume(&image, &mut out, 1024, &img.vtable[0]),
        Err(ImageError::ShortData { block: 2 })
    );
    let mut want = vec![1u8];
    want.extend(&part_a);
    assert_eq!(out, want);
}

#[test]
fn extraction_decodes_the_headers_again() {
    let bs = 1024usize;
    let mut image = table_block(bs, 0, &[Some(record(b"d", VolType::Dynamic))]);
    image.extend(block(bs, &vid(VolType::Dynamic, 0, 0, 0), &pattern(896, 1)));
    let img = Image::read(&image, image.len() as u64, bs as u64).unwrap();
    let mut broken = image.clone();
    broken[1024 + 64 + 4] = 0;
    let mut out = Vec::new();
    assert_eq!(
        img.read_volume(&broken, &mut out, 1024, &img.vtable[0]),
        Err(ImageError::VidHdr { block: 1, error: FormatError::BadVersion })
    );
    assert!(out.is_empty());
    let mut out = Vec::new();
    assert_eq!(
        img.read_volume(&image[..1500], &mut out, 1024, &img.vtable[0]),
        Err(ImageError::ShortData { block: 1 })
    );
    assert!(out.is_empty());
}

#[test]
fn dynamic_block_with_data_offset_behind_its_end() {
    let bs = 256usize;
    let mut image = vec![0u8; 2 * bs];
    image[..64].copy_from_slice(&ec(VID_OFF, 257).to_bytes().unwrap());
    image[64..128].copy_from_slice(&vid(VolType::Dynamic, 4, 0, 0).to_bytes().unwrap());
    assert_eq!(
        read_block_payload(&image, 256, 0),
        Err(ImageError::DataOffset { block: 0 })
    );
    // at the very end of the block the payload is empty
    image[..64].copy_from_slice(&ec(VID_OFF, 256).to_bytes().unwrap());
    assert_eq!(read_block_payload(&image, 256, 0), Ok(&[] as &[u8]));
    // a static block reads where its data offset points, wherever that is
    image[64..128].copy_from_slice(&vid(VolType::Static, 4, 0, 3).to_bytes().unwrap());
    image[..64].copy_from_slice(&ec(VID_OFF, 300).to_bytes().unwrap());
    image[300..303].copy_from_slice(&[7, 8, 9]);
    assert_eq!(read_block_payload(&image, 256, 0), Ok(&[7u8, 8, 9][..]));
}

#[test]
fn empty_read_behind_the_image_succeeds() {
    let bs = 256usize;
    let mut image = vec![0u8; bs];
    image[..64].copy_from_slice(&ec(VID_OFF, 1000).to_bytes().unwrap());
    image[64..128].copy_from_slice(&vid(VolType::Static, 4, 0, 0).to_bytes().unwrap());
    assert_eq!(read_block_payload(&image, 256, 0), Ok(&[] as &[u8]));
    image[64..128].copy_from_slice(&vid(VolType::Static, 4, 0, 1).to_bytes().unwrap());
    assert_eq!(
        read_block_payload(&image, 256, 0),
        Err(ImageError::ShortData { block: 0 })
    );
}

#[test]
fn image_with_no_block_size_is_not_read() {
    let image = vec![0u8; 0x100000];
    assert_eq!(find_block_size(&image), Err(ImageError::NoBlockSize));
}

#[test]
fn whole_pipeline_on_a_small_image() {
    let bs = 2048usize;
    let mut image = table_block(
        bs,
        0,
        &[Some(record(b"kernel", VolType::Static)), Some(record(b"rootfs", VolType::Dynamic))],
    );
    image.extend(table_block(
        bs,
        1,
        &[Some(record(b"kernel", VolType::Static)), Some(record(b"rootfs", VolType::Dynamic))],
    ));
    let kernel_a = pattern(1920, 1);
    let kernel_b = pattern(300, 2);
    let rootfs_a = pattern(1920, 3);
    image.extend(block(bs, &vid(VolType::Static, 0, 0, 1920), &kernel_a));
    image.extend(block(bs, &vid(VolType::Dynamic, 1, 0, 0), &rootfs_a));
    image.extend(block(bs, &vid(VolType::Static, 0, 1, 300), &kernel_b));

    let block_size = find_block_size(&image).unwrap();
    assert_eq!(block_size, 2048);
    let img = Image::read(&image, image.len() as u64, block_size).unwrap();
    assert_eq!(img.vtable.len(), 2);
    let names: Vec<Vec<u8>> = img.vtable.iter().map(|v| v.1.name().unwrap()).collect();
    assert_eq!(names, vec![b"kernel".to_vec(), b"rootfs".to_vec()]);
    let mut kernel = Vec::new();
    img.read_volume(&image, &mut kernel, block_size, &img.vtable[0]).unwrap();
    assert_eq!(kernel, [kernel_a, kernel_b].concat());
    let mut rootfs = Vec::new();
    img.read_volume(&image, &mut rootfs, block_size, &img.vtable[1]).unwrap();
    assert_eq!(rootfs, rootfs_a);
}
