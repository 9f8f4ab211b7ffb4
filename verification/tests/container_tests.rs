use sg_image_reader::{ByteReader, SgAlbum, SgFile, SgImageError, SgImageMetadata, VecImageBuilderFactory};

fn push_u32(v: &mut Vec<u8>, x: u32) {
    v.extend_from_slice(&x.to_le_bytes());
}

fn push_u16(v: &mut Vec<u8>, x: u16) {
    v.extend_from_slice(&x.to_le_bytes());
}

fn text_field(v: &mut Vec<u8>, s: &str, n: usize) {
    let bytes = s.as_bytes();
    assert!(bytes.len() <= n);
    v.extend_from_slice(bytes);
    v.extend(std::iter::repeat(0u8).take(n - bytes.len()));
}

fn album_record(name: &str, comment: &str) -> Vec<u8> {
    let mut v = Vec::new();
    text_field(&mut v, name, 65);
    text_field(&mut v, comment, 51);
    for k in 0..15u32 {
        push_u32(&mut v, 100 + k);
    }
    v.extend(std::iter::repeat(7u8).take(24));
    assert_eq!(v.len(), 200);
    v
}

#[allow(clippy::too_many_arguments)]
fn image_record(
    offset: u32,
    length: u32,
    uncompressed_length: u32,
    invert_offset: i32,
    width: u16,
    height: u16,
    image_type: u16,
    flags: [u8; 4],
) -> Vec<u8> {
    let mut v = Vec::new();
    push_u32(&mut v, offset);
    push_u32(&mut v, length);
    push_u32(&mut v, uncompressed_length);
    v.extend_from_slice(&[0u8; 4]);
    v.extend_from_slice(&invert_offset.to_le_bytes());
    push_u16(&mut v, width);
    push_u16(&mut v, height);
    for _ in 0..3 {
        push_u16(&mut v, 0);
    }
    push_u16(&mut v, 0); // anim_sprites
    push_u16(&mut v, 0); // unknown_b
    push_u16(&mut v, 0); // x_offset
    push_u16(&mut v, 0); // y_offset
    v.extend_from_slice(&[0u8; 10]);
    v.push(0); // is_reversible
    v.push(0); // unknown_d
    push_u16(&mut v, image_type);
    v.extend_from_slice(&flags);
    v.push(0); // album_id
    v.push(0); // unknown_e
    v.push(0); // anim_speed_id
    v.extend_from_slice(&[0u8; 5]);
    assert_eq!(v.len(), 64);
    v
}

/// A version 0xd5 container: no alpha descriptors, 200 album slots.
fn build_container_d5(albums: Vec<Vec<u8>>, images: Vec<Vec<u8>>) -> Vec<u8> {
    let album_count = albums.len() as u32;
    let image_count = images.len() as u32 - 1;
    let total = 40 + 640 + 200 * 200 + 64 * images.len();
    let mut v = Vec::new();
    push_u32(&mut v, total as u32); // file_size == actual size
    push_u32(&mut v, 0xd5);
    push_u32(&mut v, 7); // unknown
    push_u32(&mut v, 1000); // max_image_count
    push_u32(&mut v, image_count);
    push_u32(&mut v, album_count);
    push_u32(&mut v, 5); // records without system
    push_u32(&mut v, 11); // total_file_size
    push_u32(&mut v, 22); // file_size_555
    push_u32(&mut v, 33); // file_size_external
    v.extend(std::iter::repeat(0u8).take(640));
    for a in &albums {
        v.extend_from_slice(a);
    }
    v.extend(std::iter::repeat(0u8).take(200 * (200 - albums.len())));
    for i in &images {
        v.extend_from_slice(i);
    }
    assert_eq!(v.len(), total);
    v
}

fn load(bytes: Vec<u8>) -> Result<SgFile, SgImageError> {
    let mut reader = ByteReader::new(bytes);
    SgFile::load_metadata_from_reader(&mut reader, String::from("/data"), String::from("test.sg3"))
}

fn sample_container() -> Vec<u8> {
    let albums = vec![album_record("alb.sg2", "hello")];
    let images = vec![
        image_record(0, 0, 0, 0, 0, 0, 0, [0; 4]),
        image_record(0, 7, 0, 0, 8, 1, 256, [0; 4]),
        image_record(0, 0, 0, -1, 0, 0, 0, [0; 4]),
    ];
    build_container_d5(albums, images)
}

#[test]
fn load_metadata_reads_header_and_tables() {
    let f = load(sample_container()).unwrap();
    assert_eq!(f.version, 0xd5);
    assert_eq!(f.unknown, 7);
    assert_eq!(f.max_image_count, 1000);
    assert_eq!(f.bitmap_records_without_system, 5);
    assert_eq!(f.total_file_size, 11);
    assert_eq!(f.file_size_555, 22);
    assert_eq!(f.file_size_external, 33);
    assert_eq!(f.folder, "/data");
    assert_eq!(f.filename, "test.sg3");
    assert_eq!(f.bitmaps.len(), 1);
    assert_eq!(f.bitmaps[0].id, 0);
    assert_eq!(f.bitmaps[0].external_filename, "alb.sg2");
    assert_eq!(f.bitmaps[0].comment, "hello");
    assert_eq!(f.bitmaps[0].width, 100);
    assert_eq!(f.bitmaps[0].height, 101);
    assert_eq!(f.bitmaps[0].file_size_external, 114);
    assert_eq!(f.bitmaps[0].unknown_e, vec![7u8; 24]);
    assert_eq!(f.images.len(), 3);
    assert_eq!(f.images[1].width, 8);
    assert_eq!(f.images[1].height, 1);
    assert_eq!(f.images[1].image_type, 256);
    assert_eq!(f.images[1].length, 7);
}

#[test]
fn reparsing_identical_bytes_is_deterministic() {
    let bytes = sample_container();
    let f1 = load(bytes.clone()).unwrap();
    let f2 = load(bytes).unwrap();
    assert_eq!(f1, f2);
}

#[test]
fn alias_record_copies_geometry_keeps_identity() {
    let f = load(sample_container()).unwrap();
    // record 2 aliases record 1: geometry copied, id and invert_offset kept
    assert_eq!(f.images[2].id, 2);
    assert_eq!(f.images[2].invert_offset, -1);
    assert_eq!(f.images[2].width, 8);
    assert_eq!(f.images[2].height, 1);
    assert_eq!(f.images[2].image_type, 256);
    assert_eq!(f.images[2].length, 7);
}

#[test]
fn alias_forward_reference_is_rejected() {
    let albums = vec![];
    let images = vec![
        image_record(0, 0, 0, 0, 0, 0, 0, [0; 4]),
        image_record(0, 7, 0, 1, 8, 1, 256, [0; 4]),
    ];
    let r = load(build_container_d5(albums, images));
    assert!(matches!(r, Err(SgImageError::InvalidHeader)));
}

#[test]
fn truncated_container_is_io_error() {
    let r = load(vec![1, 2, 3, 4, 5]);
    assert!(matches!(r, Err(SgImageError::IoError)));
    let mut bytes = sample_container();
    bytes.truncate(700);
    assert!(matches!(load(bytes), Err(SgImageError::IoError)));
}

#[test]
fn invalid_album_text_is_utf8_error() {
    let mut album = album_record("alb.sg2", "hello");
    album[2] = 0xff; // not valid UTF-8 anywhere in the 65-byte field
    let images = vec![image_record(0, 0, 0, 0, 0, 0, 0, [0; 4])];
    let r = load(build_container_d5(vec![album], images));
    assert!(matches!(r, Err(SgImageError::Utf8Error)));
}

#[test]
fn multibyte_text_fields_decode() {
    let albums = vec![album_record("caf\u{e9}.sg2", "r\u{e9}sum\u{e9}")];
    let images = vec![image_record(0, 0, 0, 0, 0, 0, 0, [0; 4])];
    let f = load(build_container_d5(albums, images)).unwrap();
    assert_eq!(f.bitmaps[0].external_filename, "caf\u{e9}.sg2");
    assert_eq!(f.bitmaps[0].comment, "r\u{e9}sum\u{e9}");
}

fn build_container_d3(file_size: u32) -> Vec<u8> {
    let mut v = Vec::new();
    push_u32(&mut v, file_size);
    push_u32(&mut v, 0xd3);
    for _ in 0..8 {
        push_u32(&mut v, 0);
    }
    v.extend(std::iter::repeat(0u8).take(640));
    v.extend(std::iter::repeat(0u8).take(100 * 200)); // 100 album slots, none used
    v.extend_from_slice(&image_record(0, 0, 0, 0, 0, 0, 0, [0; 4])); // reserved record
    v
}

#[test]
fn header_validation_magic_sizes() {
    assert!(SgFile::validate_header(&0xd3, &74480, &20744).is_ok());
    assert!(SgFile::validate_header(&0xd3, &522680, &1).is_ok());
    assert!(matches!(
        SgFile::validate_header(&0xd3, &12345, &20744),
        Err(SgImageError::InvalidHeader)
    ));
    assert!(SgFile::validate_header(&0xd5, &74480, &0).is_ok());
    assert!(SgFile::validate_header(&0xd6, &4242, &4242).is_ok());
    assert!(matches!(
        SgFile::validate_header(&0xd6, &4242, &4243),
        Err(SgImageError::InvalidHeader)
    ));
}

#[test]
fn legacy_container_accepts_only_magic_sizes() {
    let f = load(build_container_d3(74480)).unwrap();
    assert_eq!(f.version, 0xd3);
    assert_eq!(f.file_size, 74480);
    let r = load(build_container_d3(12345));
    assert!(matches!(r, Err(SgImageError::InvalidHeader)));
}

#[test]
fn alpha_descriptor_read_only_for_new_versions() {
    // version 0xd6: records carry an 8-byte alpha descriptor
    let mut v = Vec::new();
    let total = 40 + 640 + 200 * 200 + 72;
    push_u32(&mut v, total as u32);
    push_u32(&mut v, 0xd6);
    for _ in 0..2 {
        push_u32(&mut v, 0);
    }
    push_u32(&mut v, 0); // image_count
    push_u32(&mut v, 0); // album_count
    for _ in 0..4 {
        push_u32(&mut v, 0);
    }
    v.extend(std::iter::repeat(0u8).take(640));
    v.extend(std::iter::repeat(0u8).take(200 * 200));
    let mut rec = image_record(0, 0, 0, 0, 0, 0, 0, [0; 4]);
    push_u32(&mut rec, 555); // alpha_offset
    push_u32(&mut rec, 666); // alpha_length
    v.extend_from_slice(&rec);
    assert_eq!(v.len(), total);
    let f = load(v).unwrap();
    assert_eq!(f.images[0].alpha_offset, 555);
    assert_eq!(f.images[0].alpha_length, 666);
}

fn sample_album(external_filename: &str) -> SgAlbum {
    SgAlbum {
        id: 0,
        external_filename: String::from(external_filename),
        comment: String::new(),
        width: 0,
        height: 0,
        num_images: 0,
        start_index: 0,
        end_index: 0,
        image_id: 0,
        unknown_a: 0,
        unknown_b: 0,
        unknown_c: 0,
        unknown_d: 0,
        image_width: 0,
        image_height: 0,
        file_size_555: 0,
        total_file_size: 0,
        file_size_external: 0,
        unknown_e: vec![0; 24],
    }
}

#[test]
fn companion_path_internal_and_external() {
    let f = SgFile {
        folder: String::from("/data"),
        filename: String::from("test.sg3"),
        file_size: 0,
        version: 0xd5,
        unknown: 0,
        max_image_count: 0,
        bitmap_records_without_system: 0,
        total_file_size: 0,
        file_size_555: 0,
        file_size_external: 0,
        bitmaps: vec![sample_album("ext1.sg2")],
        images: vec![],
    };
    assert_eq!(f.get_555_file_path(0, false), "/data/test.555");
    assert_eq!(f.get_555_file_path(0, true), "/data/ext1.555");
}

#[test]
fn is_external_reads_first_flag_byte() {
    let bytes = {
        let albums = vec![];
        let images = vec![
            image_record(0, 0, 0, 0, 0, 0, 0, [0; 4]),
            image_record(0, 0, 0, 0, 0, 0, 0, [1, 0, 0, 0]),
        ];
        build_container_d5(albums, images)
    };
    let f = load(bytes).unwrap();
    assert!(!f.images[0].is_external());
    assert!(f.images[1].is_external());
}

#[test]
fn error_messages_name_each_kind() {
    assert_eq!(SgImageError::InvalidHeader.message(), "invalid header encountered");
    assert_eq!(
        SgImageError::ImageDataLengthMismatch.message(),
        "data length mismatch detected"
    );
    assert_eq!(
        SgImageError::UnknownImageType(999).message(),
        "unknown image type encountered"
    );
    assert_eq!(SgImageError::IoError.message(), "IO error encountered");
    assert_eq!(
        SgImageError::Utf8Error.message(),
        "error encountered when reading UTF8 string"
    );
}

#[test]
fn parsed_record_decodes_pixel_stream() {
    let f = load(sample_container()).unwrap();
    // record 1 is an 8x1 sprite whose 7-byte stream writes two pixels
    let stream = vec![2u8, 0x1f, 0x00, 0xff, 0xf8, 255, 3];
    let mut reader = ByteReader::new(stream);
    let buf = f.images[1].load_image(&mut reader, &VecImageBuilderFactory).unwrap();
    assert_eq!(buf.len(), 32);
    assert_eq!(&buf[0..4], &[0, 0, 248, 255]);
    assert_eq!(&buf[4..8], &[240, 56, 248, 255]);
    assert!(buf[8..].iter().all(|&b| b == 0));
}

#[test]
fn metadata_equality_is_field_wise() {
    let f = load(sample_container()).unwrap();
    let a: SgImageMetadata = f.images[1];
    let mut b = a;
    assert_eq!(a, b);
    b.width = 9;
    assert_ne!(a, b);
}
