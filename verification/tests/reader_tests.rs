use sg_image_reader::{ByteReader, ImageBuilder, ImageBuilderFactory, ReadHelper, SgImageError, VecImageBuilderFactory};

#[test]
fn little_endian_integer_reads() {
    let mut r = ByteReader::new(vec![0x01, 0x02, 0x34, 0x12, 0x78, 0x56, 0x34, 0x12]);
    assert_eq!(r.read_u8().unwrap(), 0x01);
    assert_eq!(r.read_u8().unwrap(), 0x02);
    assert_eq!(r.read_u16_le().unwrap(), 0x1234);
    assert_eq!(r.read_u32_le().unwrap(), 0x12345678);
    assert_eq!(r.stream_position(), 8);
}

#[test]
fn signed_reads_use_twos_complement() {
    let mut r = ByteReader::new(vec![0xff, 0xff, 0xff, 0xff, 0xfe, 0xff, 0xff, 0xff]);
    assert_eq!(r.read_i32_le().unwrap(), -1);
    assert_eq!(r.read_i32_le().unwrap(), -2);
    let mut r2 = ByteReader::new(vec![0x2a, 0x00, 0x00, 0x00]);
    assert_eq!(r2.read_i32_le().unwrap(), 42);
}

#[test]
fn short_reads_fail_and_keep_position() {
    let mut r = ByteReader::new(vec![0x01]);
    assert!(matches!(r.read_u16_le(), Err(SgImageError::IoError)));
    assert_eq!(r.stream_position(), 0);
    assert_eq!(r.read_u8().unwrap(), 0x01);
    assert!(matches!(r.read_u8(), Err(SgImageError::IoError)));
}

#[test]
fn seeks_move_the_cursor() {
    let mut r = ByteReader::new(vec![0, 1, 2, 3, 4, 5]);
    r.seek_relative(4).unwrap();
    assert_eq!(r.read_u8().unwrap(), 4);
    r.seek_relative(-2).unwrap();
    assert_eq!(r.read_u8().unwrap(), 3);
    assert!(matches!(r.seek_relative(-100), Err(SgImageError::IoError)));
    assert_eq!(r.seek_to_end(), 6);
    assert_eq!(r.stream_position(), 6);
}

#[test]
fn string_reads_truncate_at_nul() {
    let mut bytes = b"hello\0garbage".to_vec();
    bytes.resize(20, 0);
    let mut r = ByteReader::new(bytes);
    assert_eq!(r.read_string(20).unwrap(), "hello");
    assert_eq!(r.stream_position(), 20);
}

#[test]
fn string_reads_decode_multibyte_utf8() {
    // a two-byte encoding must come back as its decoded character, not as
    // its raw bytes
    let mut bytes = "caf\u{e9}".as_bytes().to_vec();
    assert_eq!(bytes.len(), 5);
    bytes.push(0);
    let mut r = ByteReader::new(bytes);
    assert_eq!(r.read_string(6).unwrap(), "caf\u{e9}");
}

#[test]
fn string_reads_reject_invalid_utf8() {
    let mut r = ByteReader::new(vec![b'a', 0xff, b'b', 0]);
    assert!(matches!(r.read_string(4), Err(SgImageError::Utf8Error)));
}

#[test]
fn string_reads_validate_past_the_terminator() {
    // the whole on-disk field must be valid text, even past the NUL
    let mut r = ByteReader::new(vec![b'a', 0, 0xff, 0]);
    assert!(matches!(r.read_string(4), Err(SgImageError::Utf8Error)));
}

#[test]
fn byte_reads_return_exact_slices() {
    let mut r = ByteReader::new(vec![9, 8, 7, 6]);
    assert_eq!(r.read_bytes(3).unwrap(), vec![9, 8, 7]);
    assert!(matches!(r.read_bytes(2), Err(SgImageError::IoError)));
    assert_eq!(r.read_bytes(1).unwrap(), vec![6]);
}

#[test]
fn builder_starts_transparent_and_flips() {
    let mut b = VecImageBuilderFactory.new_builder(2, 2);
    b.set_pixel_by_pos(0, [1, 2, 3, 4]);
    b.set_pixel_by_pos(3, [5, 6, 7, 8]);
    b.set_alpha(1, 200);
    b.flip_horizontal();
    let out = b.build();
    assert_eq!(
        out,
        vec![
            0, 0, 0, 200, // was pixel 1: alpha only
            1, 2, 3, 4, // was pixel 0
            5, 6, 7, 8, // was pixel 3
            0, 0, 0, 0, // was pixel 2
        ]
    );
}

#[test]
fn builder_of_zero_size_yields_empty_buffer() {
    let b = VecImageBuilderFactory.new_builder(0, 7);
    assert_eq!(b.build(), Vec::<u8>::new());
}
