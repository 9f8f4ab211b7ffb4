//! Album records: metadata for a group of images sharing one physical
//! pixel-data file.

use vstd::prelude::*;
use crate::error::SgImageError;
use crate::utils::{ByteReader, ReadHelper, can_read, spec_text, u32_at};

verus! {

/// The mathematical content of one album record: text fields as character
/// sequences, raw trailing bytes as a byte sequence.
#[verifier::ext_equal]
pub struct AlbumV {
    pub id: u32,
    pub external_filename: Seq<char>,
    pub comment: Seq<char>,
    pub width: u32,
    pub height: u32,
    pub num_images: u32,
    pub start_index: u32,
    pub end_index: u32,
    pub image_id: u32,
    pub unknown_a: u32,
    pub unknown_b: u32,
    pub unknown_c: u32,
    pub unknown_d: u32,
    pub image_width: u32,
    pub image_height: u32,
    pub file_size_555: u32,
    pub total_file_size: u32,
    pub file_size_external: u32,
    pub unknown_e: Seq<u8>,
}

/// Metadata of an album.
///
/// In this context an album is a group of images sharing the same file
/// containing their pixel data.  An empty `external_filename` means the
/// pixels live in the container's own companion pixel file.
///
/// Some bytes from the metadata are of unknown meaning; they are preserved
/// verbatim and not interpreted.
#[derive(Debug, Clone)]
pub struct SgAlbum {
    pub id: u32,
    pub external_filename: String,
    pub comment: String,
    pub width: u32,
    pub height: u32,
    pub num_images: u32,
    pub start_index: u32,
    pub end_index: u32,
    pub image_id: u32,
    pub unknown_a: u32,
    pub unknown_b: u32,
    pub unknown_c: u32,
    pub unknown_d: u32,
    pub image_width: u32,
    pub image_height: u32,
    pub file_size_555: u32,
    pub total_file_size: u32,
    pub file_size_external: u32,
    pub unknown_e: Vec<u8>,
}

impl View for SgAlbum {
    type V = AlbumV;

    open spec fn view(&self) -> AlbumV {
        AlbumV {
            id: self.id,
            external_filename: self.external_filename@,
            comment: self.comment@,
            width: self.width,
            height: self.height,
            num_images: self.num_images,
            start_index: self.start_index,
            end_index: self.end_index,
            image_id: self.image_id,
            unknown_a: self.unknown_a,
            unknown_b: self.unknown_b,
            unknown_c: self.unknown_c,
            unknown_d: self.unknown_d,
            image_width: self.image_width,
            image_height: self.image_height,
            file_size_555: self.file_size_555,
            total_file_size: self.total_file_size,
            file_size_external: self.file_size_external,
            unknown_e: self.unknown_e@,
        }
    }
}

/// How the 200-byte album record at position `p` of `d` decodes, with table
/// index `id`: the error of the first failing read, or the decoded fields.
pub open spec fn spec_album(d: Seq<u8>, p: int, id: u32) -> Result<AlbumV, SgImageError> {
    let len = d.len() as int;
    if !can_read(p, 65, len) {
        Err(SgImageError::IoError)
    } else if spec_text(d.subrange(p, p + 65)) is None {
        Err(SgImageError::Utf8Error)
    } else if !can_read(p, 116, len) {
        Err(SgImageError::IoError)
    } else if spec_text(d.subrange(p + 65, p + 116)) is None {
        Err(SgImageError::Utf8Error)
    } else if !can_read(p, 200, len) {
        Err(SgImageError::IoError)
    } else {
        Ok(
            AlbumV {
                id,
                external_filename: spec_text(d.subrange(p, p + 65)).unwrap(),
                comment: spec_text(d.subrange(p + 65, p + 116)).unwrap(),
                width: u32_at(d, p + 116),
                height: u32_at(d, p + 120),
                num_images: u32_at(d, p + 124),
                start_index: u32_at(d, p + 128),
                end_index: u32_at(d, p + 132),
                image_id: u32_at(d, p + 136),
                unknown_a: u32_at(d, p + 140),
                unknown_b: u32_at(d, p + 144),
                unknown_c: u32_at(d, p + 148),
                unknown_d: u32_at(d, p + 152),
                image_width: u32_at(d, p + 156),
                image_height: u32_at(d, p + 160),
                file_size_555: u32_at(d, p + 164),
                total_file_size: u32_at(d, p + 168),
                file_size_external: u32_at(d, p + 172),
                unknown_e: d.subrange(p + 176, p + 200),
            },
        )
    }
}

/// Element-wise comparison of two byte vectors.
pub(crate) fn bytes_eq(a: &Vec<u8>, b: &Vec<u8>) -> (r: bool)
    ensures
        r == (a@ == b@),
{
    if a.len() != b.len() {
        proof {
            assert(a@ != b@);
        }
        return false;
    }
    let n = a.len();
    let mut i: usize = 0;
    while i < n
        invariant
            0 <= i <= n,
            n == a@.len() == b@.len(),
            forall|j: int| 0 <= j < i ==> a@[j] == b@[j],
        decreases n - i,
    {
        if a[i] != b[i] {
            proof {
                assert(a@ != b@);
            }
            return false;
        }
        i = i + 1;
    }
    proof {
        assert(a@ =~= b@);
    }
    true
}

impl PartialEq for SgAlbum {
    fn eq(&self, o: &SgAlbum) -> (r: bool) {
        let r = self.id == o.id && self.external_filename == o.external_filename && self.comment
            == o.comment && self.width == o.width && self.height == o.height && self.num_images
            == o.num_images && self.start_index == o.start_index && self.end_index == o.end_index
            && self.image_id == o.image_id && self.unknown_a == o.unknown_a && self.unknown_b
            == o.unknown_b && self.unknown_c == o.unknown_c && self.unknown_d == o.unknown_d
            && self.image_width == o.image_width && self.image_height == o.image_height
            && self.file_size_555 == o.file_size_555 && self.total_file_size == o.total_file_size
            && self.file_size_external == o.file_size_external && bytes_eq(
            &self.unknown_e,
            &o.unknown_e,
        );
        proof {
            if r {
                assert(self@ =~= o@);
            } else {
                assert(self@ != o@);
            }
        }
        r
    }
}

impl vstd::std_specs::cmp::PartialEqSpecImpl for SgAlbum {
    open spec fn obeys_eq_spec() -> bool {
        true
    }

    open spec fn eq_spec(&self, o: &SgAlbum) -> bool {
        self@ == o@
    }
}

impl SgAlbum {
    /// Decode one 200-byte album record at the reader's current position.
    pub(crate) fn load(reader: &mut ByteReader, id: u32) -> (r: Result<SgAlbum, SgImageError>)
        ensures
            final(reader).bytes() == old(reader).bytes(),
            match r {
                Ok(a) => spec_album(old(reader).bytes(), old(reader).position(), id)
                    == Ok::<AlbumV, SgImageError>(a@) && final(reader).position() == old(
                    reader,
                ).position() + 200,
                Err(e) => spec_album(old(reader).bytes(), old(reader).position(), id)
                    == Err::<AlbumV, SgImageError>(e),
            },
    {
        let external_filename = reader.read_string(65)?;
        let comment = reader.read_string(51)?;
        let width = reader.read_u32_le()?;
        let height = reader.read_u32_le()?;
        let num_images = reader.read_u32_le()?;
        let start_index = reader.read_u32_le()?;
        let end_index = reader.read_u32_le()?;
        let image_id = reader.read_u32_le()?;
        let unknown_a = reader.read_u32_le()?;
        let unknown_b = reader.read_u32_le()?;
        let unknown_c = reader.read_u32_le()?;
        let unknown_d = reader.read_u32_le()?;
        let image_width = reader.read_u32_le()?;
        let image_height = reader.read_u32_le()?;
        let file_size_555 = reader.read_u32_le()?;
        let total_file_size = reader.read_u32_le()?;
        let file_size_external = reader.read_u32_le()?;
        let unknown_e = reader.read_bytes(24)?;

        let album = SgAlbum {
            id,
            external_filename,
            comment,
            width,
            height,
            num_images,
            start_index,
            end_index,
            image_id,
            unknown_a,
            unknown_b,
            unknown_c,
            unknown_d,
            image_width,
            image_height,
            file_size_555,
            total_file_size,
            file_size_external,
            unknown_e,
        };

        Ok(album)
    }
}

} // verus!
