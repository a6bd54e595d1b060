use skullrump::BinaryEntry;

#[test]
fn i64_encodes_little_endian() {
    let mut buffer: Vec<u8> = Vec::new();
    <i64 as BinaryEntry>::entry_write(0x0102030405060708i64, &mut buffer);
    assert_eq!(buffer, vec![8u8, 7, 6, 5, 4, 3, 2, 1]);
    let mut buffer: Vec<u8> = Vec::new();
    <i64 as BinaryEntry>::entry_write(-2i64, &mut buffer);
    assert_eq!(buffer, vec![0xfeu8, 0xff, 0xff, 0xff, 0xff, 0xff, 0xff, 0xff]);
}

#[test]
fn i64_decodes_little_endian() {
    let bytes = [8u8, 7, 6, 5, 4, 3, 2, 1, 99];
    assert_eq!(<i64 as BinaryEntry>::entry_read(&bytes), Some(0x0102030405060708i64));
    assert_eq!(<i64 as BinaryEntry>::entry_read(&bytes[..7]), None);
    assert_eq!(<i64 as BinaryEntry>::entry_read(&[]), None);
    assert_eq!(<i64 as BinaryEntry>::entry_size(), 8);
}

#[test]
fn i64_round_trip() {
    for v in [0i64, 1, -1, i64::MAX, i64::MIN, 123456789] {
        let mut buffer: Vec<u8> = Vec::new();
        <i64 as BinaryEntry>::entry_write(v, &mut buffer);
        assert_eq!(buffer.len(), 8);
        assert_eq!(<i64 as BinaryEntry>::entry_read(&buffer), Some(v));
    }
}

#[test]
fn u32_codec_little_endian_and_round_trip() {
    let mut buffer: Vec<u8> = Vec::new();
    <u32 as BinaryEntry>::entry_write(0x01020304u32, &mut buffer);
    assert_eq!(buffer, vec![4u8, 3, 2, 1]);
    assert_eq!(<u32 as BinaryEntry>::entry_read(&[1u8, 2, 3]), None);
    for v in [0.0f32, -1.5, f32::MAX, f32::MIN_POSITIVE] {
        let mut buffer: Vec<u8> = Vec::new();
        <u32 as BinaryEntry>::entry_write(v.to_bits(), &mut buffer);
        let back = <u32 as BinaryEntry>::entry_read(&buffer).map(f32::from_bits);
        assert_eq!(back, Some(v));
    }
}
