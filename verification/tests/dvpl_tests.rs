use wotb_agent::dvpl::{read_le_u32, DvplError, DvplFile};

fn footer(plain: u32, stored: u32, ctype: u32) -> Vec<u8> {
    let mut f = Vec::new();
    f.extend_from_slice(&plain.to_le_bytes());
    f.extend_from_slice(&stored.to_le_bytes());
    f.extend_from_slice(&0u32.to_le_bytes());
    f.extend_from_slice(&ctype.to_le_bytes());
    f.extend_from_slice(b"DVPL");
    f
}

#[test]
fn dvpl_stored_payload() {
    let mut raw = b"hello".to_vec();
    raw.extend(footer(5, 5, 0));
    let d = DvplFile::decode(&raw).unwrap();
    assert_eq!(d.data, b"hello");
    assert_eq!(d.compression_type, 0);
}

#[test]
fn dvpl_lz4_block() {
    // literal "abcd", then a match of offset 4, length 4 + 4
    let block = vec![0x44, b'a', b'b', b'c', b'd', 0x04, 0x00];
    let mut raw = block.clone();
    raw.extend(footer(12, block.len() as u32, 2));
    let d = DvplFile::decode(&raw).unwrap();
    assert_eq!(d.data, b"abcdabcdabcd");
}

#[test]
fn dvpl_lz4_literals_only_zero_padded() {
    let block = vec![0x30, b'x', b'y', b'z'];
    let mut raw = block.clone();
    raw.extend(footer(5, 4, 1));
    let d = DvplFile::decode(&raw).unwrap();
    assert_eq!(d.data, vec![b'x', b'y', b'z', 0, 0]);
}

#[test]
fn dvpl_zlib_payload() {
    // zlib stream of "hi" (stored block)
    let z = vec![0x78, 0x01, 0x01, 0x02, 0x00, 0xfd, 0xff, b'h', b'i', 0x01, 0x3b, 0x00, 0xd2];
    let mut raw = z.clone();
    raw.extend(footer(2, z.len() as u32, 3));
    let d = DvplFile::decode(&raw).unwrap();
    assert_eq!(d.data, b"hi");
}

#[test]
fn dvpl_errors() {
    assert!(matches!(DvplFile::decode(b"short"), Err(DvplError::TooSmall)));
    let mut bad = vec![0u8; 20];
    bad[16..20].copy_from_slice(b"DVPX");
    assert!(matches!(DvplFile::decode(&bad), Err(DvplError::BadMagic)));
    let mut unk = Vec::new();
    unk.extend(footer(0, 0, 7));
    assert!(matches!(DvplFile::decode(&unk), Err(DvplError::UnknownCompression(7))));
    let mut broken = vec![1, 2, 3];
    broken.extend(footer(3, 3, 3));
    assert!(matches!(DvplFile::decode(&broken), Err(DvplError::Inflate)));
}

#[test]
fn le_u32_reads_little_endian() {
    assert_eq!(read_le_u32(&[0x78, 0x56, 0x34, 0x12, 0xff], 0), 0x12345678);
    assert_eq!(read_le_u32(&[0xff, 0x01, 0x00, 0x00, 0x00], 1), 1);
}
