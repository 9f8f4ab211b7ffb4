//! The container loader: header, album table, image table, alias resolution
//! and header validation.

use vstd::prelude::*;
use crate::error::SgImageError;
use crate::sg_album::{AlbumV, SgAlbum, bytes_eq, spec_album};
use crate::sg_image_metadata::{ImageV, SgImageMetadata, spec_image_raw};
use crate::utils::{ByteReader, ReadHelper, can_read, u32_at};
use vstd::string::{StringExecFns, StringSliceAdditionalSpecFns};
use vstd::utf8::{decode_utf8, encode_utf8, is_char_boundary};

verus! {

/// The mathematical content of a loaded container.
#[verifier::ext_equal]
pub struct FileV {
    pub folder: Seq<char>,
    pub filename: Seq<char>,
    pub file_size: u32,
    pub version: u32,
    pub unknown: u32,
    pub max_image_count: u32,
    pub bitmap_records_without_system: u32,
    pub total_file_size: u32,
    pub file_size_555: u32,
    pub file_size_external: u32,
    pub bitmaps: Seq<AlbumV>,
    pub images: Seq<ImageV>,
}

/// Metadata of a container file.
///
/// Contains the header fields and the album and image record tables read
/// from the container.  Built once per load and read-only thereafter; no
/// partial container is ever returned.
///
/// Some bytes from the metadata are of unknown meaning.
#[derive(Debug, Clone)]
pub struct SgFile {
    pub folder: String,
    pub filename: String,
    pub file_size: u32,
    pub version: u32,
    pub unknown: u32,
    pub max_image_count: u32,
    pub bitmap_records_without_system: u32,
    pub total_file_size: u32,
    pub file_size_555: u32,
    pub file_size_external: u32,
    pub bitmaps: Vec<SgAlbum>,
    pub images: Vec<SgImageMetadata>,
}

/// The album views of a sequence of album records.
pub open spec fn seq_album_views(s: Seq<SgAlbum>) -> Seq<AlbumV> {
    Seq::new(s.len(), |i: int| s[i]@)
}

/// The image views of a sequence of image records.
pub open spec fn seq_image_views(s: Seq<SgImageMetadata>) -> Seq<ImageV> {
    Seq::new(s.len(), |i: int| s[i]@)
}

impl View for SgFile {
    type V = FileV;

    open spec fn view(&self) -> FileV {
        FileV {
            folder: self.folder@,
            filename: self.filename@,
            file_size: self.file_size,
            version: self.version,
            unknown: self.unknown,
            max_image_count: self.max_image_count,
            bitmap_records_without_system: self.bitmap_records_without_system,
            total_file_size: self.total_file_size,
            file_size_555: self.file_size_555,
            file_size_external: self.file_size_external,
            bitmaps: seq_album_views(self.bitmaps@),
            images: seq_image_views(self.images@),
        }
    }
}

/// The header validation policy: the legacy version code demands one of two
/// fixed magic sizes; the two later codes accept the small magic size or the
/// measured byte length of the stream; any other version code is accepted.
pub open spec fn spec_header_ok(version: u32, file_size: u32, actual: int) -> bool {
    &&& version == 0xd3 ==> (file_size == 74480 || file_size == 522680)
    &&& (version == 0xd5 || version == 0xd6) ==> (file_size == 74480 || actual == file_size)
}

/// How the first `n` album records decode, 200 bytes each starting at
/// position 680: the first failing record's error, or all decoded records in
/// table order.
pub open spec fn spec_albums(d: Seq<u8>, n: int) -> Result<Seq<AlbumV>, SgImageError>
    decreases n,
{
    if n <= 0 {
        Ok(Seq::empty())
    } else {
        match spec_albums(d, n - 1) {
            Err(e) => Err(e),
            Ok(s) => match spec_album(d, 680 + 200 * (n - 1), (n - 1) as u32) {
                Err(e) => Err(e),
                Ok(a) => Ok(s.push(a)),
            },
        }
    }
}

/// Alias resolution for the raw image record with table index `i`: a record
/// whose `invert_offset` is zero stands as read; otherwise it must reference
/// an earlier record among `prev`, whose fields it copies, keeping its own
/// `id` and `invert_offset`.  A reference out of range or not pointing
/// backward fails the load.
pub open spec fn spec_image_step(prev: Seq<ImageV>, raw: ImageV, i: int) -> Result<
    ImageV,
    SgImageError,
> {
    if raw.invert_offset == 0 {
        Ok(raw)
    } else {
        let t = i + raw.invert_offset;
        if 0 <= t < i {
            Ok(ImageV { id: i as u32, invert_offset: raw.invert_offset, ..prev[t] })
        } else {
            Err(SgImageError::InvalidHeader)
        }
    }
}

/// How the first `n` image records decode and alias-resolve, `rec_size`
/// bytes each starting at position `start`.
pub open spec fn spec_images_upto(
    d: Seq<u8>,
    start: int,
    rec_size: int,
    alpha: bool,
    n: int,
) -> Result<Seq<ImageV>, SgImageError>
    decreases n,
{
    if n <= 0 {
        Ok(Seq::empty())
    } else {
        match spec_images_upto(d, start, rec_size, alpha, n - 1) {
            Err(e) => Err(e),
            Ok(s) => match spec_image_raw(d, start + rec_size * (n - 1), (n - 1) as u32, alpha) {
                Err(e) => Err(e),
                Ok(raw) => match spec_image_step(s, raw, n - 1) {
                    Err(e) => Err(e),
                    Ok(m) => Ok(s.push(m)),
                },
            },
        }
    }
}

/// The on-disk size of one image record under the given format version.
pub open spec fn spec_rec_size(alpha: bool) -> int {
    if alpha {
        72
    } else {
        64
    }
}

/// How a whole container decodes from the bytes `d`: ten header fields, a
/// 640-byte reserved region, the album table padded to the version's slot
/// count, the image table (one extra reserved record), then the header
/// validation against the measured stream length.  The error is the one the
/// first failing step raises.
pub open spec fn spec_load(d: Seq<u8>, folder: Seq<char>, filename: Seq<char>) -> Result<
    FileV,
    SgImageError,
> {
    let len = d.len() as int;
    if !can_read(0, 40, len) {
        Err(SgImageError::IoError)
    } else {
        let file_size = u32_at(d, 0);
        let version = u32_at(d, 4);
        let unknown = u32_at(d, 8);
        let max_image_count = u32_at(d, 12);
        let image_count = u32_at(d, 16);
        let bitmap_count = u32_at(d, 20);
        let bitmap_records_without_system = u32_at(d, 24);
        let total_file_size = u32_at(d, 28);
        let file_size_555 = u32_at(d, 32);
        let file_size_external = u32_at(d, 36);
        let max_slots: int = if version == 0xd3 {
            100
        } else {
            200
        };
        match spec_albums(d, bitmap_count as int) {
            Err(e) => Err(e),
            Ok(albums) => {
                if bitmap_count > max_slots {
                    Err(SgImageError::InvalidHeader)
                } else {
                    let alpha = version >= 0xd6;
                    match spec_images_upto(
                        d,
                        680 + 200 * max_slots,
                        spec_rec_size(alpha),
                        alpha,
                        image_count + 1,
                    ) {
                        Err(e) => Err(e),
                        Ok(images) => {
                            if !spec_header_ok(version, file_size, len) {
                                Err(SgImageError::InvalidHeader)
                            } else {
                                Ok(
                                    FileV {
                                        folder,
                                        filename,
                                        file_size,
                                        version,
                                        unknown,
                                        max_image_count,
                                        bitmap_records_without_system,
                                        total_file_size,
                                        file_size_555,
                                        file_size_external,
                                        bitmaps: albums,
                                        images,
                                    },
                                )
                            }
                        },
                    }
                }
            },
        }
    }
}

/// Once the first `i` album records decode and the one at index `i` fails,
/// the whole table of any `n > i` records fails with that record's error.
proof fn lemma_albums_err(d: Seq<u8>, i: int, n: int, e: SgImageError)
    requires
        0 <= i < n,
        spec_albums(d, i) is Ok,
        spec_album(d, 680 + 200 * i, i as u32) == Err::<AlbumV, SgImageError>(e),
    ensures
        spec_albums(d, n) == Err::<Seq<AlbumV>, SgImageError>(e),
    decreases n,
{
    if n == i + 1 {
    } else {
        lemma_albums_err(d, i, n - 1, e);
    }
}

/// Once the first `i` image records resolve and the step at index `i` fails,
/// the whole table of any `n > i` records fails with that step's error.
proof fn lemma_images_err(
    d: Seq<u8>,
    start: int,
    rec_size: int,
    alpha: bool,
    i: int,
    n: int,
    e: SgImageError,
)
    requires
        0 <= i < n,
        spec_images_upto(d, start, rec_size, alpha, i) is Ok,
        match spec_image_raw(d, start + rec_size * i, i as u32, alpha) {
            Err(e2) => e == e2,
            Ok(raw) => spec_image_step(
                spec_images_upto(d, start, rec_size, alpha, i).unwrap(),
                raw,
                i,
            ) == Err::<ImageV, SgImageError>(e),
        },
    ensures
        spec_images_upto(d, start, rec_size, alpha, n) == Err::<Seq<ImageV>, SgImageError>(e),
    decreases n,
{
    if n == i + 1 {
    } else {
        lemma_images_err(d, start, rec_size, alpha, i, n - 1, e);
    }
}

impl SgFile {
    /// Check the declared file size against the version code and the
    /// measured stream length, per the header validation policy.
    pub fn validate_header(version: &u32, file_size: &u32, actual_file_size: &u64) -> (r: Result<
        (),
        SgImageError,
    >)
        ensures
            spec_header_ok(*version, *file_size, *actual_file_size as int) ==> r == Ok::<
                (),
                SgImageError,
            >(()),
            !spec_header_ok(*version, *file_size, *actual_file_size as int) ==> r == Err::<
                (),
                SgImageError,
            >(SgImageError::InvalidHeader),
    {
        if *version == 0xd3 && !(*file_size == 74480 || *file_size == 522680) {
            return Err(SgImageError::InvalidHeader);
        }
        if (*version == 0xd5 || *version == 0xd6) && !(*file_size == 74480 || *actual_file_size
            == *file_size as u64) {
            return Err(SgImageError::InvalidHeader);
        }
        Ok(())
    }

    /// Decode `bitmap_records` consecutive album records starting at
    /// position 680.
    fn load_bitmaps_metadata(reader: &mut ByteReader, bitmap_records: u32) -> (r: Result<
        Vec<SgAlbum>,
        SgImageError,
    >)
        requires
            old(reader).position() == 680,
        ensures
            final(reader).bytes() == old(reader).bytes(),
            match r {
                Ok(v) => spec_albums(old(reader).bytes(), bitmap_records as int) == Ok::<
                    Seq<AlbumV>,
                    SgImageError,
                >(seq_album_views(v@)) && final(reader).position() == 680 + 200 * (
                bitmap_records as int),
                Err(e) => spec_albums(old(reader).bytes(), bitmap_records as int) == Err::<
                    Seq<AlbumV>,
                    SgImageError,
                >(e),
            },
    {
        let ghost d = old(reader).bytes();
        let mut bitmaps: Vec<SgAlbum> = Vec::new();
        proof {
            assert(seq_album_views(bitmaps@) =~= Seq::<AlbumV>::empty());
        }
        let mut i: u32 = 0;
        while i < bitmap_records
            invariant
                0 <= i <= bitmap_records,
                d == old(reader).bytes(),
                reader.bytes() == d,
                reader.position() == 680 + 200 * (i as int),
                bitmaps@.len() == i,
                spec_albums(d, i as int) == Ok::<Seq<AlbumV>, SgImageError>(
                    seq_album_views(bitmaps@),
                ),
            decreases bitmap_records - i,
        {
            let ghost prev = bitmaps@;
            let a = match SgAlbum::load(reader, i) {
                Ok(a) => a,
                Err(e) => {
                    proof {
                        lemma_albums_err(d, i as int, bitmap_records as int, e);
                    }
                    return Err(e);
                },
            };
            bitmaps.push(a);
            proof {
                assert(seq_album_views(bitmaps@) =~= seq_album_views(prev).push(a@));
            }
            i = i + 1;
        }
        Ok(bitmaps)
    }

    /// Decode `image_records + 1` consecutive image records at the reader's
    /// current position, resolving alias records as each is appended.
    fn load_images_metadata(reader: &mut ByteReader, image_records: u32, alpha: bool) -> (r:
        Result<Vec<SgImageMetadata>, SgImageError>)
        ensures
            final(reader).bytes() == old(reader).bytes(),
            match r {
                Ok(v) => spec_images_upto(
                    old(reader).bytes(),
                    old(reader).position(),
                    spec_rec_size(alpha),
                    alpha,
                    image_records + 1,
                ) == Ok::<Seq<ImageV>, SgImageError>(seq_image_views(v@)) && final(reader)
                    .position() == old(reader).position() + spec_rec_size(alpha) * (image_records
                    + 1),
                Err(e) => spec_images_upto(
                    old(reader).bytes(),
                    old(reader).position(),
                    spec_rec_size(alpha),
                    alpha,
                    image_records + 1,
                ) == Err::<Seq<ImageV>, SgImageError>(e),
            },
    {
        let ghost d = old(reader).bytes();
        let ghost start = old(reader).position();
        let ghost rec_size = spec_rec_size(alpha);
        let count: u64 = image_records as u64 + 1;
        let mut images: Vec<SgImageMetadata> = Vec::new();
        proof {
            assert(seq_image_views(images@) =~= Seq::<ImageV>::empty());
        }
        let mut i: u64 = 0;
        while i < count
            invariant
                0 <= i <= count,
                count == image_records as int + 1,
                d == old(reader).bytes(),
                start == old(reader).position(),
                reader.bytes() == d,
                reader.position() == start + rec_size * (i as int),
                rec_size == spec_rec_size(alpha),
                images@.len() == i,
                spec_images_upto(d, start, rec_size, alpha, i as int) == Ok::<
                    Seq<ImageV>,
                    SgImageError,
                >(seq_image_views(images@)),
            decreases count - i,
        {
            let ghost prev = seq_image_views(images@);
            let m = match SgImageMetadata::load(reader, i as u32, alpha) {
                Ok(m) => m,
                Err(e) => {
                    proof {
                        lemma_images_err(d, start, rec_size, alpha, i as int, count as int, e);
                    }
                    return Err(e);
                },
            };
            let invert_offset = m.invert_offset;
            let resolved: SgImageMetadata;
            if invert_offset != 0 {
                let t = i as i64 + invert_offset as i64;
                if 0 <= t && t < i as i64 {
                    let mut copy = images[t as usize];
                    copy.id = i as u32;
                    copy.invert_offset = invert_offset;
                    proof {
                        assert(copy@ =~= (ImageV {
                            id: i as u32,
                            invert_offset: m@.invert_offset,
                            ..prev[t as int]
                        }));
                    }
                    resolved = copy;
                } else {
                    proof {
                        lemma_images_err(
                            d,
                            start,
                            rec_size,
                            alpha,
                            i as int,
                            count as int,
                            SgImageError::InvalidHeader,
                        );
                    }
                    return Err(SgImageError::InvalidHeader);
                }
            } else {
                resolved = m;
            }
            images.push(resolved);
            proof {
                assert(seq_image_views(images@) =~= prev.push(resolved@));
            }
            i = i + 1;
        }
        Ok(images)
    }

    /// Load container metadata from the provided reader, positioned at the
    /// start of the container bytes.
    pub fn load_metadata_from_reader(reader: &mut ByteReader, folder: String, filename: String)
        -> (r: Result<SgFile, SgImageError>)
        requires
            old(reader).position() == 0,
        ensures
            final(reader).bytes() == old(reader).bytes(),
            match r {
                Ok(f) => spec_load(old(reader).bytes(), folder@, filename@) == Ok::<
                    FileV,
                    SgImageError,
                >(f@),
                Err(e) => spec_load(old(reader).bytes(), folder@, filename@) == Err::<
                    FileV,
                    SgImageError,
                >(e),
            },
    {
        let file_size = reader.read_u32_le()?;
        let version = reader.read_u32_le()?;

        let unknown = reader.read_u32_le()?;
        let max_image_count = reader.read_u32_le()?;
        let image_count = reader.read_u32_le()?;
        let bitmap_count = reader.read_u32_le()?;
        let bitmap_records_without_system = reader.read_u32_le()?;
        let total_file_size = reader.read_u32_le()?;
        let file_size_555 = reader.read_u32_le()?;
        let file_size_external = reader.read_u32_le()?;

        let max_bitmaps_records: u32 = if version == 0xd3 {
            100
        } else {
            200
        };

        reader.seek_relative(640)?;

        let bitmaps = Self::load_bitmaps_metadata(reader, bitmap_count)?;

        if bitmap_count > max_bitmaps_records {
            return Err(SgImageError::InvalidHeader);
        }

        reader.seek_relative(200 * ((max_bitmaps_records - bitmap_count) as i64))?;

        let images = Self::load_images_metadata(reader, image_count, version >= 0xd6)?;

        let actual_file_size = reader.seek_to_end();

        Self::validate_header(&version, &file_size, &actual_file_size)?;

        let sg_file = SgFile {
            folder,
            filename,
            file_size,
            version,
            unknown,
            max_image_count,
            bitmap_records_without_system,
            total_file_size,
            file_size_555,
            file_size_external,
            bitmaps,
            images,
        };

        proof {
            assert(sg_file@ =~= spec_load(old(reader).bytes(), folder@, filename@).unwrap());
        }

        Ok(sg_file)
    }
}

/// The name the companion pixel file is derived from: the album's external
/// filename when the pixels are stored externally, else the container's own
/// filename.
pub open spec fn spec_basename(f: FileV, bitmap_id: int, is_external: bool) -> Seq<char> {
    if is_external {
        f.bitmaps[bitmap_id].external_filename
    } else {
        f.filename
    }
}

/// The companion pixel-file path: the folder, a slash, the basename with its
/// last four bytes stripped, and the `.555` suffix.
pub open spec fn spec_555_path(f: FileV, bitmap_id: int, is_external: bool) -> Seq<char> {
    let base = spec_basename(f, bitmap_id, is_external);
    let bytes = encode_utf8(base);
    let stem = decode_utf8(bytes.take(bytes.len() - 4));
    f.folder + seq!['/'] + stem + seq!['.', '5', '5', '5']
}

impl SgFile {
    /// Get the path to the file containing pixel data for the given album,
    /// joined with a slash: the basename loses its last four bytes (its dot
    /// and extension) and gains the `.555` suffix.
    pub fn get_555_file_path(&self, bitmap_id: usize, is_external: bool) -> (r: String)
        requires
            is_external ==> bitmap_id < self@.bitmaps.len(),
            encode_utf8(spec_basename(self@, bitmap_id as int, is_external)).len() >= 4,
            is_char_boundary(
                encode_utf8(spec_basename(self@, bitmap_id as int, is_external)),
                encode_utf8(spec_basename(self@, bitmap_id as int, is_external)).len() - 4,
            ),
        ensures
            r@ == spec_555_path(self@, bitmap_id as int, is_external),
    {
        let basename: &String = if is_external {
            &self.bitmaps[bitmap_id].external_filename
        } else {
            &self.filename
        };
        proof {
            assert(basename@ == spec_basename(self@, bitmap_id as int, is_external));
        }
        let bstr = basename.as_str();
        proof {
            assert(bstr.spec_bytes() == encode_utf8(basename@));
            assert(bstr.spec_bytes().len() >= 4);
        }
        let blen = bstr.as_bytes().len();
        let stem = bstr.split_at(blen - 4).0;
        let mut out = self.folder.clone();
        out.append("/");
        out.append(stem);
        out.append(".555");
        proof {
            reveal_strlit("/");
            reveal_strlit(".555");
            let bytes = encode_utf8(basename@);
            vstd::utf8::encode_utf8_decode_utf8(stem@);
            assert(encode_utf8(stem@) =~= bytes.take(bytes.len() - 4));
            assert("/"@ =~= seq!['/']);
            assert(".555"@ =~= seq!['.', '5', '5', '5']);
        }
        out
    }
}

/// Element-wise comparison of two album tables, by their views.
fn albums_eq(a: &Vec<SgAlbum>, b: &Vec<SgAlbum>) -> (r: bool)
    ensures
        r == (seq_album_views(a@) == seq_album_views(b@)),
{
    if a.len() != b.len() {
        proof {
            assert(seq_album_views(a@).len() == a@.len());
            assert(seq_album_views(b@).len() == b@.len());
        }
        return false;
    }
    let n = a.len();
    let mut i: usize = 0;
    while i < n
        invariant
            0 <= i <= n,
            n == a@.len() == b@.len(),
            forall|j: int| 0 <= j < i ==> a@[j]@ == b@[j]@,
        decreases n - i,
    {
        if !(a[i].eq(&b[i])) {
            proof {
                assert(seq_album_views(a@)[i as int] != seq_album_views(b@)[i as int]);
            }
            return false;
        }
        i = i + 1;
    }
    proof {
        assert(seq_album_views(a@) =~= seq_album_views(b@));
    }
    true
}

/// Element-wise comparison of two image tables, by their views.
fn images_eq(a: &Vec<SgImageMetadata>, b: &Vec<SgImageMetadata>) -> (r: bool)
    ensures
        r == (seq_image_views(a@) == seq_image_views(b@)),
{
    if a.len() != b.len() {
        proof {
            assert(seq_image_views(a@).len() == a@.len());
            assert(seq_image_views(b@).len() == b@.len());
        }
        return false;
    }
    let n = a.len();
    let mut i: usize = 0;
    while i < n
        invariant
            0 <= i <= n,
            n == a@.len() == b@.len(),
            forall|j: int| 0 <= j < i ==> a@[j]@ == b@[j]@,
        decreases n - i,
    {
        if !(a[i].eq(&b[i])) {
            proof {
                assert(seq_image_views(a@)[i as int] != seq_image_views(b@)[i as int]);
            }
            return false;
        }
        i = i + 1;
    }
    proof {
        assert(seq_image_views(a@) =~= seq_image_views(b@));
    }
    true
}

impl PartialEq for SgFile {
    fn eq(&self, o: &SgFile) -> (r: bool) {
        let r = self.folder == o.folder && self.filename == o.filename && self.file_size
            == o.file_size && self.version == o.version && self.unknown == o.unknown
            && self.max_image_count == o.max_image_count && self.bitmap_records_without_system
            == o.bitmap_records_without_system && self.total_file_size == o.total_file_size
            && self.file_size_555 == o.file_size_555 && self.file_size_external
            == o.file_size_external && albums_eq(&self.bitmaps, &o.bitmaps) && images_eq(
            &self.images,
            &o.images,
        );
        proof {
            if r {
                assert(self@ =~= o@);
            } else {
                assert(self@ != o@);
            }
        }
        r
    }
}

impl vstd::std_specs::cmp::PartialEqSpecImpl for SgFile {
    open spec fn obeys_eq_spec() -> bool {
        true
    }

    open spec fn eq_spec(&self, o: &SgFile) -> bool {
        self@ == o@
    }
}

} // verus!
