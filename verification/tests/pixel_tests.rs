use sg_image_reader::{ByteReader, SgImageError, SgImageMetadata, VecImageBuilderFactory};

fn base_record() -> SgImageMetadata {
    SgImageMetadata {
        id: 1,
        offset: 0,
        length: 0,
        uncompressed_length: 0,
        zeroes: [0; 4],
        invert_offset: 0,
        width: 0,
        height: 0,
        unknown_a: [0; 3],
        anim_sprites: 0,
        unknown_b: 0,
        x_offset: 0,
        y_offset: 0,
        unknown_c: [0; 10],
        is_reversible: 0,
        unknown_d: 0,
        image_type: 0,
        flags: [0; 4],
        album_id: 0,
        unknown_e: 0,
        anim_speed_id: 0,
        unknown_f: [0; 5],
        alpha_offset: 0,
        alpha_length: 0,
    }
}

fn decode(rec: &SgImageMetadata, bytes: Vec<u8>) -> Result<Vec<u8>, SgImageError> {
    let mut reader = ByteReader::new(bytes);
    rec.load_image(&mut reader, &VecImageBuilderFactory)
}

#[test]
fn degenerate_records_decode_to_transparent_black() {
    // width = 0
    let mut rec = base_record();
    rec.width = 0;
    rec.height = 5;
    rec.length = 100;
    rec.image_type = 256;
    assert_eq!(decode(&rec, vec![]).unwrap(), Vec::<u8>::new());

    // height = 0
    rec.width = 5;
    rec.height = 0;
    assert_eq!(decode(&rec, vec![]).unwrap(), Vec::<u8>::new());

    // length = 0: full-size buffer, entirely zero
    rec.width = 3;
    rec.height = 2;
    rec.length = 0;
    assert_eq!(decode(&rec, vec![]).unwrap(), vec![0u8; 24]);
}

#[test]
fn unknown_image_type_carries_code() {
    let mut rec = base_record();
    rec.width = 2;
    rec.height = 2;
    rec.length = 8;
    rec.image_type = 999;
    let r = decode(&rec, vec![0u8; 64]);
    assert!(matches!(r, Err(SgImageError::UnknownImageType(999))));
}

#[test]
fn plain_decode_expands_packed_colors() {
    // two plain 1x1 images: 0x7FFF becomes opaque near-white, the sentinel
    // 0xF81F leaves the zeroed destination untouched
    let mut rec = base_record();
    rec.width = 1;
    rec.height = 1;
    rec.length = 2;
    rec.image_type = 0;
    assert_eq!(decode(&rec, vec![0xff, 0x7f]).unwrap(), vec![0xf8, 0xf8, 0xf8, 0xff]);
    assert_eq!(decode(&rec, vec![0x1f, 0xf8]).unwrap(), vec![0, 0, 0, 0]);
}

#[test]
fn plain_decode_checks_byte_length() {
    let mut rec = base_record();
    rec.width = 2;
    rec.height = 1;
    rec.length = 5; // must be exactly width * height * 2 = 4
    rec.image_type = 1;
    let r = decode(&rec, vec![0u8; 16]);
    assert!(matches!(r, Err(SgImageError::ImageDataLengthMismatch)));
}

#[test]
fn plain_decode_respects_flag_byte_shift() {
    // flags[0] = 2 shifts the seek target back by two bytes
    let mut rec = base_record();
    rec.width = 1;
    rec.height = 1;
    rec.length = 2;
    rec.offset = 4;
    rec.flags = [2, 0, 0, 0];
    rec.image_type = 10;
    let bytes = vec![0, 0, 0xff, 0x7f, 0, 0];
    assert_eq!(decode(&rec, bytes).unwrap(), vec![0xf8, 0xf8, 0xf8, 0xff]);
}

#[test]
fn rle_color_run_writes_then_skips() {
    // control 2: two packed colours at positions 0 and 1; control 255 with
    // count 3: cursor skips to 5; exactly 7 bytes consumed
    let stream = vec![2, 0x1f, 0x00, 0xff, 0xf8, 255, 3];
    let mut rec = base_record();
    rec.width = 8;
    rec.height = 1;
    rec.length = 7;
    rec.image_type = 256;
    let mut reader = ByteReader::new(stream);
    let buf = rec.load_image(&mut reader, &VecImageBuilderFactory).unwrap();
    assert_eq!(reader.stream_position(), 7);
    let mut expected = vec![0u8; 32];
    expected[0..4].copy_from_slice(&[0, 0, 248, 255]); // 0x001f
    expected[4..8].copy_from_slice(&[240, 56, 248, 255]); // 0xf8ff
    assert_eq!(buf, expected);
}

#[test]
fn rle_budget_overrun_is_length_mismatch() {
    let mut rec = base_record();
    rec.width = 4;
    rec.height = 1;
    rec.length = 1; // a skip pair costs 2 bytes, over the 1-byte budget
    rec.image_type = 257;
    let r = decode(&rec, vec![255, 3]);
    assert!(matches!(r, Err(SgImageError::ImageDataLengthMismatch)));
}

#[test]
fn rle_short_stream_is_io_error() {
    let mut rec = base_record();
    rec.width = 8;
    rec.height = 1;
    rec.length = 7;
    rec.image_type = 276;
    let r = decode(&rec, vec![2, 0x1f]);
    assert!(matches!(r, Err(SgImageError::IoError)));
}

#[test]
fn rle_write_past_raster_is_length_mismatch() {
    let mut rec = base_record();
    rec.width = 1;
    rec.height = 1;
    rec.length = 5;
    rec.image_type = 256;
    // two colours for a one-pixel raster
    let r = decode(&rec, vec![2, 0x1f, 0x00, 0x1f, 0x00]);
    assert!(matches!(r, Err(SgImageError::ImageDataLengthMismatch)));
}

#[test]
fn alias_decodes_as_mirror_of_target() {
    // stream: three distinct colours at positions 0..3 of a 4x1 sprite
    let stream = vec![3, 0x1f, 0x00, 0xff, 0xf8, 0xff, 0x7f];
    let mut target = base_record();
    target.width = 4;
    target.height = 1;
    target.length = 7;
    target.image_type = 256;
    let buf_j = decode(&target, stream.clone()).unwrap();

    let mut alias = target;
    alias.id = 9;
    alias.invert_offset = -5;
    let buf_i = decode(&alias, stream).unwrap();

    // mirror buf_j by hand: reverse the order of the RGBA quadruples
    let mut mirrored = Vec::new();
    for q in buf_j.chunks(4).rev() {
        mirrored.extend_from_slice(q);
    }
    assert_eq!(buf_i, mirrored);
    assert_eq!(alias.id, 9);
}

#[test]
fn alpha_overlay_rewrites_only_alpha() {
    // plain 2x1 image, then an alpha stream: control 2, payloads 4 and 31
    let mut rec = base_record();
    rec.width = 2;
    rec.height = 1;
    rec.length = 4;
    rec.image_type = 0;
    rec.alpha_length = 3;
    let bytes = vec![0xff, 0x7f, 0xff, 0x7f, 2, 4, 31];
    let buf = decode(&rec, bytes).unwrap();
    assert_eq!(buf, vec![0xf8, 0xf8, 0xf8, 32, 0xf8, 0xf8, 0xf8, 248]);
}

#[test]
fn isometric_single_tile_geometry() {
    // declared width 58: half-width 30, grid size 1, standard 58x30 tile,
    // base layer consumes exactly 1800 bytes
    let mut rec = base_record();
    rec.width = 58;
    rec.height = 30;
    rec.length = 1800;
    rec.uncompressed_length = 1800;
    rec.image_type = 30;
    let bytes: Vec<u8> = std::iter::repeat([0xffu8, 0x7f]).take(900).flatten().collect();
    let mut reader = ByteReader::new(bytes);
    let buf = rec.load_image(&mut reader, &VecImageBuilderFactory).unwrap();
    assert_eq!(reader.stream_position(), 1800);
    assert_eq!(buf.len(), 58 * 30 * 4);
    // tile row 0 spans columns 28..30 of raster row 0
    assert_eq!(&buf[28 * 4..30 * 4], &[0xf8, 0xf8, 0xf8, 0xff, 0xf8, 0xf8, 0xf8, 0xff]);
    assert_eq!(&buf[27 * 4..28 * 4], &[0, 0, 0, 0]);
    // the middle rows span the full tile width
    let row14 = 14 * 58 * 4;
    assert_eq!(&buf[row14..row14 + 4], &[0xf8, 0xf8, 0xf8, 0xff]);
}

#[test]
fn isometric_length_mismatch_is_rejected() {
    let mut rec = base_record();
    rec.width = 58;
    rec.height = 30;
    rec.length = 1800;
    rec.uncompressed_length = 1799; // must equal (58 + 2) * 30 = 1800
    rec.image_type = 30;
    let r = decode(&rec, vec![0u8; 1800]);
    assert!(matches!(r, Err(SgImageError::ImageDataLengthMismatch)));
}

#[test]
fn isometric_overlay_draws_after_base() {
    // base of 1800 sentinel bytes leaves the raster clear; the 7-byte
    // overlay then writes two pixels at positions 0 and 1
    let mut rec = base_record();
    rec.width = 58;
    rec.height = 30;
    rec.length = 1807;
    rec.uncompressed_length = 1800;
    rec.image_type = 30;
    let mut bytes: Vec<u8> = std::iter::repeat([0x1fu8, 0xf8]).take(900).flatten().collect();
    bytes.extend_from_slice(&[2, 0xff, 0x7f, 0xff, 0x7f, 255, 3]);
    let mut reader = ByteReader::new(bytes);
    let buf = rec.load_image(&mut reader, &VecImageBuilderFactory).unwrap();
    assert_eq!(reader.stream_position(), 1807);
    assert_eq!(&buf[0..8], &[0xf8, 0xf8, 0xf8, 0xff, 0xf8, 0xf8, 0xf8, 0xff]);
    assert_eq!(&buf[8..12], &[0, 0, 0, 0]);
}
