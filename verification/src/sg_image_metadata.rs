//! Image records: metadata for one sprite or frame, with a
//! version-conditional trailing alpha-region descriptor.

use vstd::prelude::*;
use crate::error::SgImageError;
use crate::utils::{ByteReader, ReadHelper, can_read, i32_at, u16_at, u32_at};

verus! {

/// The mathematical content of one image record, with the fixed byte arrays
/// as byte sequences.
#[verifier::ext_equal]
pub struct ImageV {
    pub id: u32,
    pub offset: u32,
    pub length: u32,
    pub uncompressed_length: u32,
    pub zeroes: Seq<u8>,
    pub invert_offset: i32,
    pub width: u16,
    pub height: u16,
    pub unknown_a: Seq<u16>,
    pub anim_sprites: u16,
    pub unknown_b: u16,
    pub x_offset: u16,
    pub y_offset: u16,
    pub unknown_c: Seq<u8>,
    pub is_reversible: u8,
    pub unknown_d: u8,
    pub image_type: u16,
    pub flags: Seq<u8>,
    pub album_id: u8,
    pub unknown_e: u8,
    pub anim_speed_id: u8,
    pub unknown_f: Seq<u8>,
    pub alpha_offset: u32,
    pub alpha_length: u32,
}

/// Metadata of an image.
///
/// Contains data about the type and dimensions of the image along with
/// offsets of the pixel data within its album's companion file.
///
/// Some bytes from the metadata are of unknown meaning; they are preserved
/// verbatim and not interpreted.
#[derive(Debug, Clone, Copy)]
pub struct SgImageMetadata {
    pub id: u32,
    pub offset: u32,
    pub length: u32,
    pub uncompressed_length: u32,
    pub zeroes: [u8; 4],
    pub invert_offset: i32,
    pub width: u16,
    pub height: u16,
    pub unknown_a: [u16; 3],
    pub anim_sprites: u16,
    pub unknown_b: u16,
    pub x_offset: u16,
    pub y_offset: u16,
    pub unknown_c: [u8; 10],
    pub is_reversible: u8,
    pub unknown_d: u8,
    pub image_type: u16,
    pub flags: [u8; 4],
    pub album_id: u8,
    pub unknown_e: u8,
    pub anim_speed_id: u8,
    pub unknown_f: [u8; 5],
    pub alpha_offset: u32,
    pub alpha_length: u32,
}

impl View for SgImageMetadata {
    type V = ImageV;

    open spec fn view(&self) -> ImageV {
        ImageV {
            id: self.id,
            offset: self.offset,
            length: self.length,
            uncompressed_length: self.uncompressed_length,
            zeroes: self.zeroes@,
            invert_offset: self.invert_offset,
            width: self.width,
            height: self.height,
            unknown_a: self.unknown_a@,
            anim_sprites: self.anim_sprites,
            unknown_b: self.unknown_b,
            x_offset: self.x_offset,
            y_offset: self.y_offset,
            unknown_c: self.unknown_c@,
            is_reversible: self.is_reversible,
            unknown_d: self.unknown_d,
            image_type: self.image_type,
            flags: self.flags@,
            album_id: self.album_id,
            unknown_e: self.unknown_e,
            anim_speed_id: self.anim_speed_id,
            unknown_f: self.unknown_f@,
            alpha_offset: self.alpha_offset,
            alpha_length: self.alpha_length,
        }
    }
}

/// How the raw image record at position `p` of `d` decodes, before alias
/// resolution, with table index `id`.  The record takes 64 bytes, plus 8 for
/// the alpha descriptor when the format version carries one.
pub open spec fn spec_image_raw(d: Seq<u8>, p: int, id: u32, alpha: bool) -> Result<
    ImageV,
    SgImageError,
> {
    let size: int = if alpha {
        72
    } else {
        64
    };
    if !can_read(p, size, d.len() as int) {
        Err(SgImageError::IoError)
    } else {
        Ok(
            ImageV {
                id,
                offset: u32_at(d, p),
                length: u32_at(d, p + 4),
                uncompressed_length: u32_at(d, p + 8),
                zeroes: d.subrange(p + 12, p + 16),
                invert_offset: i32_at(d, p + 16),
                width: u16_at(d, p + 20),
                height: u16_at(d, p + 22),
                unknown_a: seq![u16_at(d, p + 24), u16_at(d, p + 26), u16_at(d, p + 28)],
                anim_sprites: u16_at(d, p + 30),
                unknown_b: u16_at(d, p + 32),
                x_offset: u16_at(d, p + 34),
                y_offset: u16_at(d, p + 36),
                unknown_c: d.subrange(p + 38, p + 48),
                is_reversible: d[p + 48],
                unknown_d: d[p + 49],
                image_type: u16_at(d, p + 50),
                flags: d.subrange(p + 52, p + 56),
                album_id: d[p + 56],
                unknown_e: d[p + 57],
                anim_speed_id: d[p + 58],
                unknown_f: d.subrange(p + 59, p + 64),
                alpha_offset: if alpha {
                    u32_at(d, p + 64)
                } else {
                    0
                },
                alpha_length: if alpha {
                    u32_at(d, p + 68)
                } else {
                    0
                },
            },
        )
    }
}

impl PartialEq for SgImageMetadata {
    fn eq(&self, o: &SgImageMetadata) -> (r: bool) {
        let r = self.id == o.id && self.offset == o.offset && self.length == o.length
            && self.uncompressed_length == o.uncompressed_length && self.zeroes[0] == o.zeroes[0]
            && self.zeroes[1] == o.zeroes[1] && self.zeroes[2] == o.zeroes[2] && self.zeroes[3]
            == o.zeroes[3] && self.invert_offset == o.invert_offset && self.width == o.width
            && self.height == o.height && self.unknown_a[0] == o.unknown_a[0] && self.unknown_a[1]
            == o.unknown_a[1] && self.unknown_a[2] == o.unknown_a[2] && self.anim_sprites
            == o.anim_sprites && self.unknown_b == o.unknown_b && self.x_offset == o.x_offset
            && self.y_offset == o.y_offset && self.unknown_c[0] == o.unknown_c[0]
            && self.unknown_c[1] == o.unknown_c[1] && self.unknown_c[2] == o.unknown_c[2]
            && self.unknown_c[3] == o.unknown_c[3] && self.unknown_c[4] == o.unknown_c[4]
            && self.unknown_c[5] == o.unknown_c[5] && self.unknown_c[6] == o.unknown_c[6]
            && self.unknown_c[7] == o.unknown_c[7] && self.unknown_c[8] == o.unknown_c[8]
            && self.unknown_c[9] == o.unknown_c[9] && self.is_reversible == o.is_reversible
            && self.unknown_d == o.unknown_d && self.image_type == o.image_type && self.flags[0]
            == o.flags[0] && self.flags[1] == o.flags[1] && self.flags[2] == o.flags[2]
            && self.flags[3] == o.flags[3] && self.album_id == o.album_id && self.unknown_e
            == o.unknown_e && self.anim_speed_id == o.anim_speed_id && self.unknown_f[0]
            == o.unknown_f[0] && self.unknown_f[1] == o.unknown_f[1] && self.unknown_f[2]
            == o.unknown_f[2] && self.unknown_f[3] == o.unknown_f[3] && self.unknown_f[4]
            == o.unknown_f[4] && self.alpha_offset == o.alpha_offset && self.alpha_length
            == o.alpha_length;
        proof {
            if r {
                assert(self@ =~= o@);
            } else {
                assert(self@ != o@);
            }
        }
        r
    }
}

impl vstd::std_specs::cmp::PartialEqSpecImpl for SgImageMetadata {
    open spec fn obeys_eq_spec() -> bool {
        true
    }

    open spec fn eq_spec(&self, o: &SgImageMetadata) -> bool {
        self@ == o@
    }
}

impl SgImageMetadata {
    /// Decode one raw image record at the reader's current position;
    /// `include_alpha` says whether the trailing alpha descriptor is present.
    pub(crate) fn load(reader: &mut ByteReader, id: u32, include_alpha: bool) -> (r: Result<
        SgImageMetadata,
        SgImageError,
    >)
        ensures
            final(reader).bytes() == old(reader).bytes(),
            match r {
                Ok(m) => spec_image_raw(
                    old(reader).bytes(),
                    old(reader).position(),
                    id,
                    include_alpha,
                ) == Ok::<ImageV, SgImageError>(m@) && final(reader).position() == old(
                    reader,
                ).position() + if include_alpha {
                    72int
                } else {
                    64int
                },
                Err(e) => spec_image_raw(
                    old(reader).bytes(),
                    old(reader).position(),
                    id,
                    include_alpha,
                ) == Err::<ImageV, SgImageError>(e),
            },
    {
        let offset = reader.read_u32_le()?;
        let length = reader.read_u32_le()?;
        let uncompressed_length = reader.read_u32_le()?;
        let z = reader.read_bytes(4)?;
        let zeroes = [z[0], z[1], z[2], z[3]];
        let invert_offset = reader.read_i32_le()?;
        let width = reader.read_u16_le()?;
        let height = reader.read_u16_le()?;
        let unknown_a = [reader.read_u16_le()?, reader.read_u16_le()?, reader.read_u16_le()?];
        let anim_sprites = reader.read_u16_le()?;
        let unknown_b = reader.read_u16_le()?;
        let x_offset = reader.read_u16_le()?;
        let y_offset = reader.read_u16_le()?;
        let c = reader.read_bytes(10)?;
        let unknown_c = [c[0], c[1], c[2], c[3], c[4], c[5], c[6], c[7], c[8], c[9]];
        let is_reversible = reader.read_u8()?;
        let unknown_d = reader.read_u8()?;
        let image_type = reader.read_u16_le()?;
        let f = reader.read_bytes(4)?;
        let flags = [f[0], f[1], f[2], f[3]];
        let album_id = reader.read_u8()?;
        let unknown_e = reader.read_u8()?;
        let anim_speed_id = reader.read_u8()?;
        let uf = reader.read_bytes(5)?;
        let unknown_f = [uf[0], uf[1], uf[2], uf[3], uf[4]];

        let alpha_offset = if include_alpha {
            reader.read_u32_le()?
        } else {
            0
        };

        let alpha_length = if include_alpha {
            reader.read_u32_le()?
        } else {
            0
        };

        let record = SgImageMetadata {
            id,
            offset,
            length,
            uncompressed_length,
            zeroes,
            invert_offset,
            width,
            height,
            unknown_a,
            anim_sprites,
            unknown_b,
            x_offset,
            y_offset,
            unknown_c,
            is_reversible,
            unknown_d,
            image_type,
            flags,
            album_id,
            unknown_e,
            anim_speed_id,
            unknown_f,
            alpha_offset,
            alpha_length,
        };

        proof {
            let d = old(reader).bytes();
            let p = old(reader).position();
            let v = spec_image_raw(d, p, id, include_alpha).unwrap();
            assert(record@.zeroes =~= v.zeroes);
            assert(record@.unknown_a =~= v.unknown_a);
            assert(record@.unknown_c =~= v.unknown_c);
            assert(record@.flags =~= v.flags);
            assert(record@.unknown_f =~= v.unknown_f);
            assert(record@ =~= v);
        }
        Ok(record)
    }

    /// Checks if the image is flagged as having its data in an external file.
    pub fn is_external(&self) -> (r: bool)
        ensures
            r == (self@.flags[0] > 0),
    {
        self.flags[0] > 0
    }
}

} // verus!
