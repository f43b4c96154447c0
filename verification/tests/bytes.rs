use ffxiv_act_linux::bytes::{
    read_u16_le, read_u32_le, read_u64_le, u16_le_bytes, u32_le_bytes, u64_le_bytes,
};

#[test]
fn numbers_are_written_least_significant_byte_first() {
    assert_eq!(u16_le_bytes(0x0102), vec![0x02, 0x01]);
    assert_eq!(u16_le_bytes(65000), vec![0xe8, 0xfd]);
    assert_eq!(u32_le_bytes(641), vec![0x81, 0x02, 0, 0]);
    assert_eq!(u32_le_bytes(0xdead_beef), vec![0xef, 0xbe, 0xad, 0xde]);
    assert_eq!(
        u64_le_bytes(12345678987654321),
        vec![0xb1, 0xf4, 0x91, 0x62, 0x54, 0xdc, 0x2b, 0x00]
    );
    assert_eq!(u64_le_bytes(u64::MAX), vec![0xff; 8]);
    assert_eq!(u64_le_bytes(0), vec![0; 8]);
}

#[test]
fn numbers_are_read_at_an_offset() {
    let buf = [0xaa, 0x02, 0x01, 0xef, 0xbe, 0xad, 0xde, 1, 2, 3, 4, 5, 6, 7, 8, 0xbb];
    assert_eq!(read_u16_le(&buf, 1), 0x0102);
    assert_eq!(read_u32_le(&buf, 3), 0xdead_beef);
    assert_eq!(read_u64_le(&buf, 7), 0x0807_0605_0403_0201);
    assert_eq!(read_u64_le(&buf, 8), 0xbb08_0706_0504_0302);
}

#[test]
fn reading_is_the_inverse_of_writing() {
    for v in [0u64, 1, 255, 256, 0xffff, 0x1_0000, u32::MAX as u64, u64::MAX - 1, u64::MAX] {
        assert_eq!(read_u64_le(&u64_le_bytes(v), 0), v);
    }
    for v in [0u32, 1, 0x7fff_ffff, 0x8000_0000, u32::MAX] {
        assert_eq!(read_u32_le(&u32_le_bytes(v), 0), v);
    }
    for v in [0u16, 1, 0x7fff, 0x8000, u16::MAX] {
        assert_eq!(read_u16_le(&u16_le_bytes(v), 0), v);
    }
}
