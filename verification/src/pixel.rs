//! The pixel decoder: plain raster, isometric diamond-tile mosaic and
//! run-length-encoded sprite strategies, with the optional alpha overlay and
//! mirroring.

use vstd::prelude::*;
use crate::error::SgImageError;
use crate::image_builder::{ImageBuilder, ImageBuilderFactory, spec_hflip, update4, zero_pixels};
use crate::sg_image_metadata::{ImageV, SgImageMetadata};
use crate::utils::{ByteReader, ReadHelper, can_read, u16_at};

verus! {

/// The RGBA quadruple a packed 16-bit colour expands to: five bits per
/// channel in bits [14:10], [9:5], [4:0], each scaled to eight bits, with
/// full opacity.
pub open spec fn decode_555(c: u16) -> Seq<u8> {
    seq![
        (((c as int / 0x400) % 32) * 8) as u8,
        (((c as int / 0x20) % 32) * 8) as u8,
        ((c as int % 32) * 8) as u8,
        0xffu8,
    ]
}

/// One packed-colour write: the sentinel 0xF81F means transparent and leaves
/// the destination unchanged; any other value replaces the pixel at `pos`.
pub open spec fn spec_put_555(pix: Seq<u8>, pos: int, c: u16) -> Seq<u8> {
    if c == 0xf81f {
        pix
    } else {
        update4(pix, pos, decode_555(c))
    }
}

/// An alpha payload byte scaled by left-shift 3, as the 8-bit value it
/// becomes.
pub open spec fn alpha_scaled(a: u8) -> u8 {
    (((a as int) % 32) * 8) as u8
}

/// A run of `n` packed 16-bit colours read at `p`, written at consecutive
/// cursor positions from `cur` into a raster of `npix` pixels: fails with an
/// I/O error on a short read, and refuses a non-transparent write at or past
/// the end of the raster.  Yields the raster, the stream position and the
/// cursor after the run.
pub open spec fn spec_rle_run(
    d: Seq<u8>,
    p: int,
    n: int,
    cur: int,
    pix: Seq<u8>,
    npix: int,
) -> Result<(Seq<u8>, int, int), SgImageError>
    decreases n,
{
    if n <= 0 {
        Ok((pix, p, cur))
    } else if !can_read(p, 2, d.len() as int) {
        Err(SgImageError::IoError)
    } else {
        let c = u16_at(d, p);
        if c != 0xf81f && cur >= npix {
            Err(SgImageError::ImageDataLengthMismatch)
        } else {
            spec_rle_run(d, p + 2, n - 1, cur + 1, spec_put_555(pix, cur, c), npix)
        }
    }
}

/// The transparent/RLE colour stream: control bytes are consumed against the
/// byte budget; control 255 is followed by a transparent skip count, any
/// other control `c` by `c` packed colours.  A step that would overrun the
/// budget fails with a data-length mismatch.
pub open spec fn spec_rle_color(
    d: Seq<u8>,
    p: int,
    budget: int,
    cur: int,
    pix: Seq<u8>,
    npix: int,
) -> Result<(Seq<u8>, int, int), SgImageError>
    decreases budget,
{
    if budget <= 0 {
        Ok((pix, p, cur))
    } else if !can_read(p, 1, d.len() as int) {
        Err(SgImageError::IoError)
    } else {
        let c = d[p] as int;
        if c == 255 {
            if !can_read(p, 2, d.len() as int) {
                Err(SgImageError::IoError)
            } else if budget < 2 {
                Err(SgImageError::ImageDataLengthMismatch)
            } else {
                spec_rle_color(d, p + 2, budget - 2, cur + d[p + 1], pix, npix)
            }
        } else {
            if budget < 1 + 2 * c {
                Err(SgImageError::ImageDataLengthMismatch)
            } else {
                match spec_rle_run(d, p + 1, c, cur, pix, npix) {
                    Err(e) => Err(e),
                    Ok((pix2, p2, cur2)) => spec_rle_color(
                        d,
                        p2,
                        budget - 1 - 2 * c,
                        cur2,
                        pix2,
                        npix,
                    ),
                }
            }
        }
    }
}

/// A run of `n` single alpha payload bytes, each scaled by left-shift 3 and
/// merged into the alpha channel only, at consecutive cursor positions.
pub open spec fn spec_alpha_run(
    d: Seq<u8>,
    p: int,
    n: int,
    cur: int,
    pix: Seq<u8>,
    npix: int,
) -> Result<(Seq<u8>, int, int), SgImageError>
    decreases n,
{
    if n <= 0 {
        Ok((pix, p, cur))
    } else if !can_read(p, 1, d.len() as int) {
        Err(SgImageError::IoError)
    } else if cur >= npix {
        Err(SgImageError::ImageDataLengthMismatch)
    } else {
        spec_alpha_run(d, p + 1, n - 1, cur + 1, pix.update(4 * cur + 3, alpha_scaled(d[p])), npix)
    }
}

/// The alpha-only RLE stream: the control scheme of [`spec_rle_color`], but
/// each filled pixel costs one payload byte instead of two.
pub open spec fn spec_rle_alpha(
    d: Seq<u8>,
    p: int,
    budget: int,
    cur: int,
    pix: Seq<u8>,
    npix: int,
) -> Result<(Seq<u8>, int, int), SgImageError>
    decreases budget,
{
    if budget <= 0 {
        Ok((pix, p, cur))
    } else if !can_read(p, 1, d.len() as int) {
        Err(SgImageError::IoError)
    } else {
        let c = d[p] as int;
        if c == 255 {
            if !can_read(p, 2, d.len() as int) {
                Err(SgImageError::IoError)
            } else if budget < 2 {
                Err(SgImageError::ImageDataLengthMismatch)
            } else {
                spec_rle_alpha(d, p + 2, budget - 2, cur + d[p + 1], pix, npix)
            }
        } else {
            if budget < 1 + c {
                Err(SgImageError::ImageDataLengthMismatch)
            } else {
                match spec_alpha_run(d, p + 1, c, cur, pix, npix) {
                    Err(e) => Err(e),
                    Ok((pix2, p2, cur2)) => spec_rle_alpha(
                        d,
                        p2,
                        budget - 1 - c,
                        cur2,
                        pix2,
                        npix,
                    ),
                }
            }
        }
    }
}

/// How a plain raster image decodes: seek to the pixel offset shifted back
/// by the byte-shift quirk in the first flag byte, require the byte length
/// to be exactly two per pixel, then read the whole raster as packed
/// colours in row-major order.
pub open spec fn spec_plain(rec: ImageV, d: Seq<u8>, pix: Seq<u8>) -> Result<
    (Seq<u8>, int),
    SgImageError,
> {
    let target = rec.offset - rec.flags[0];
    if target < 0 {
        Err(SgImageError::IoError)
    } else if rec.height * rec.width * 2 != rec.length {
        Err(SgImageError::ImageDataLengthMismatch)
    } else {
        match spec_rle_run(d, target, rec.length as int / 2, 0, pix, rec.width * rec.height) {
            Err(e) => Err(e),
            Ok((pix2, p2, _)) => Ok((pix2, p2)),
        }
    }
}

/// How a sprite image decodes: seek to the pixel offset and consume exactly
/// `length` bytes as a transparent/RLE colour stream.
pub open spec fn spec_sprite(rec: ImageV, d: Seq<u8>, pix: Seq<u8>) -> Result<
    (Seq<u8>, int),
    SgImageError,
> {
    match spec_rle_color(d, rec.offset as int, rec.length as int, 0, pix, rec.width * rec.height) {
        Err(e) => Err(e),
        Ok((pix2, p2, _)) => Ok((pix2, p2)),
    }
}

/// The grid size of an isometric image: the half-width divided by the
/// standard tile height if evenly divisible, else by the large tile height
/// if evenly divisible, else the record's grid-size-override flag byte.
pub open spec fn spec_iso_size(flag: u8, hprime: int) -> int {
    if flag == 0 && hprime % 30 == 0 {
        hprime / 30
    } else if flag == 0 && hprime % 40 == 0 {
        hprime / 40
    } else {
        flag as int
    }
}

/// The tile height of an isometric image: standard when the grid exactly
/// covers the half-width with standard tiles, else large.
pub open spec fn spec_tile_h(size: int, hprime: int) -> int {
    if 30 * size == hprime {
        30
    } else {
        40
    }
}

/// The tile width that goes with [`spec_tile_h`].
pub open spec fn spec_tile_w(size: int, hprime: int) -> int {
    if 30 * size == hprime {
        58
    } else {
        78
    }
}

/// The first written column of tile row `y`: the span grows by two pixels
/// per row over the first half of the tile and shrinks by two per row over
/// the second half.
pub open spec fn spec_row_start(th: int, y: int) -> int {
    if y < th / 2 {
        th - 2 * (y + 1)
    } else {
        2 * (y - th / 2)
    }
}

/// One diamond tile blitted at pixel offset (`ox`, `oy`): each of its `th`
/// rows `y` takes packed colours from the stream in raster order and writes
/// them at columns `spec_row_start(th, y)` to `tw - spec_row_start(th, y)`
/// of raster row `oy + y`.
pub open spec fn spec_tile_rows(
    d: Seq<u8>,
    p: int,
    pix: Seq<u8>,
    npix: int,
    w: int,
    ox: int,
    oy: int,
    tw: int,
    th: int,
    y: int,
) -> Result<(Seq<u8>, int), SgImageError>
    decreases th - y,
{
    if y >= th {
        Ok((pix, p))
    } else {
        let xs = spec_row_start(th, y);
        let xe = tw - xs;
        let base = ox + (oy + y) * w;
        match spec_rle_run(d, p, xe - xs, base + xs, pix, npix) {
            Err(e) => Err(e),
            Ok((pix2, p2, _)) => spec_tile_rows(d, p2, pix2, npix, w, ox, oy, tw, th, y + 1),
        }
    }
}

/// The tiles of one diamond row, placed left to right spaced by `tw + 2`
/// pixels.
pub open spec fn spec_iso_tiles_row(
    d: Seq<u8>,
    p: int,
    pix: Seq<u8>,
    npix: int,
    w: int,
    tw: int,
    th: int,
    x: int,
    x_lim: int,
    x_off: int,
    y_off: int,
) -> Result<(Seq<u8>, int), SgImageError>
    decreases x_lim - x,
{
    if x >= x_lim {
        Ok((pix, p))
    } else {
        match spec_tile_rows(d, p, pix, npix, w, x_off, y_off, tw, th, 0) {
            Err(e) => Err(e),
            Ok((pix2, p2)) => spec_iso_tiles_row(
                d,
                p2,
                pix2,
                npix,
                w,
                tw,
                th,
                x + 1,
                x_lim,
                x_off + tw + 2,
                y_off,
            ),
        }
    }
}

/// The diamond mosaic: `2 × size - 1` rows of tiles whose count grows to
/// `size` and shrinks back, each row's first tile shifted to keep the
/// diamond shape, the row origin descending by half a tile height per row.
pub open spec fn spec_iso_rows(
    d: Seq<u8>,
    p: int,
    pix: Seq<u8>,
    npix: int,
    w: int,
    tw: int,
    th: int,
    size: int,
    y: int,
    y_off: int,
) -> Result<(Seq<u8>, int), SgImageError>
    decreases 2 * size - 1 - y,
{
    if y >= 2 * size - 1 {
        Ok((pix, p))
    } else {
        let x_lim = if y < size {
            y + 1
        } else {
            2 * size - y - 1
        };
        let x_off = if y < size {
            (size - y - 1) * th
        } else {
            (y - size + 1) * th
        };
        match spec_iso_tiles_row(d, p, pix, npix, w, tw, th, 0, x_lim, x_off, y_off) {
            Err(e) => Err(e),
            Ok((pix2, p2)) => spec_iso_rows(
                d,
                p2,
                pix2,
                npix,
                w,
                tw,
                th,
                size,
                y + 1,
                y_off + th / 2,
            ),
        }
    }
}

/// The rest of the diamond mosaic, taken from the middle of the tile row
/// `y`: the remaining tiles of that row, then the rows after it.
pub open spec fn spec_iso_rows_from_tiles(
    d: Seq<u8>,
    p: int,
    pix: Seq<u8>,
    npix: int,
    w: int,
    tw: int,
    th: int,
    size: int,
    y: int,
    x: int,
    x_lim: int,
    x_off: int,
    y_off: int,
) -> Result<(Seq<u8>, int), SgImageError> {
    match spec_iso_tiles_row(d, p, pix, npix, w, tw, th, x, x_lim, x_off, y_off) {
        Err(e) => Err(e),
        Ok((pix2, p2)) => spec_iso_rows(d, p2, pix2, npix, w, tw, th, size, y + 1, y_off + th / 2),
    }
}

/// Whether an image-type code selects the plain raster strategy.
pub open spec fn is_plain_type(t: u16) -> bool {
    t == 0 || t == 1 || t == 10 || t == 12 || t == 13
}

/// Whether an image-type code selects the sprite strategy.
pub open spec fn is_sprite_type(t: u16) -> bool {
    t == 256 || t == 257 || t == 276
}

/// How one whole image decodes from the companion-file bytes `d`, with the
/// reader initially at `start`: a degenerate record (zero width, height or
/// length) is the all-transparent raster of the declared size; otherwise the
/// strategy chosen by the image type runs, then the alpha overlay if the
/// record declares one, and the finished raster is mirrored when the record
/// is an alias.  Yields the raster bytes and the final stream position.
pub open spec fn spec_load_image(rec: ImageV, d: Seq<u8>, start: int) -> Result<
    (Seq<u8>, int),
    SgImageError,
> {
    let npix = rec.width * rec.height;
    let zeros = zero_pixels(npix as int);
    if rec.width == 0 || rec.height == 0 || rec.length == 0 {
        Ok((zeros, start))
    } else {
        let main = if is_plain_type(rec.image_type) {
            spec_plain(rec, d, zeros)
        } else if rec.image_type == 30 {
            spec_isometric(rec, d, zeros)
        } else if is_sprite_type(rec.image_type) {
            spec_sprite(rec, d, zeros)
        } else {
            Err(SgImageError::UnknownImageType(rec.image_type))
        };
        match main {
            Err(e) => Err(e),
            Ok((pix, p)) => {
                let overlaid = if rec.alpha_length > 0 {
                    match spec_rle_alpha(d, p, rec.alpha_length as int, 0, pix, npix as int) {
                        Err(e) => Err(e),
                        Ok((pix2, p2, _)) => Ok((pix2, p2)),
                    }
                } else {
                    Ok((pix, p))
                };
                match overlaid {
                    Err(e) => Err(e),
                    Ok((pix2, p2)) => {
                        if rec.invert_offset != 0 {
                            Ok((spec_hflip(pix2, rec.width as int), p2))
                        } else {
                            Ok((pix2, p2))
                        }
                    },
                }
            },
        }
    }
}

/// How the isometric base layer decodes at stream position `p`: resolve the
/// grid size and tile dimensions from the half-width, require the declared
/// uncompressed length to match the diamond's packed-pixel footprint, then
/// blit the mosaic.  A half-width taller than the image or an unresolvable
/// grid size fails the same way a bad length does.
pub open spec fn spec_iso_base(rec: ImageV, d: Seq<u8>, p: int, pix: Seq<u8>) -> Result<
    (Seq<u8>, int),
    SgImageError,
> {
    let w = rec.width as int;
    let hprime = (w + 2) / 2;
    let size = spec_iso_size(rec.flags[3], hprime);
    let th = spec_tile_h(size, hprime);
    let tw = spec_tile_w(size, hprime);
    if (w + 2) * hprime != rec.uncompressed_length {
        Err(SgImageError::ImageDataLengthMismatch)
    } else if rec.height < hprime {
        Err(SgImageError::ImageDataLengthMismatch)
    } else if size <= 0 {
        Err(SgImageError::ImageDataLengthMismatch)
    } else {
        spec_iso_rows(
            d,
            p,
            pix,
            rec.width * rec.height,
            w,
            tw,
            th,
            size,
            0,
            rec.height - hprime,
        )
    }
}

/// How an isometric image decodes: seek to the pixel offset, blit the base
/// mosaic consuming exactly `uncompressed_length` bytes of packed colours,
/// then decode the remaining `length - uncompressed_length` bytes as a
/// transparent/RLE overlay from wherever the base left the stream.
pub open spec fn spec_isometric(rec: ImageV, d: Seq<u8>, pix: Seq<u8>) -> Result<
    (Seq<u8>, int),
    SgImageError,
> {
    match spec_iso_base(rec, d, rec.offset as int, pix) {
        Err(e) => Err(e),
        Ok((pix2, p2)) => {
            if rec.length < rec.uncompressed_length {
                Err(SgImageError::ImageDataLengthMismatch)
            } else {
                match spec_rle_color(
                    d,
                    p2,
                    rec.length - rec.uncompressed_length,
                    0,
                    pix2,
                    rec.width * rec.height,
                ) {
                    Err(e) => Err(e),
                    Ok((pix3, p3, _)) => Ok((pix3, p3)),
                }
            }
        },
    }
}

/// Decode a packed 16-bit colour into the builder at the given linear
/// position; the sentinel 0xF81F writes nothing.
fn set_555_pixel_by_pos<T, B: ImageBuilder<T>>(builder: &mut B, position: usize, colour: u16)
    requires
        old(builder).wf(),
        colour != 0xf81f ==> position < old(builder).spec_width() * old(builder).spec_height(),
    ensures
        final(builder).wf(),
        final(builder).spec_width() == old(builder).spec_width(),
        final(builder).spec_height() == old(builder).spec_height(),
        final(builder).pixels() == spec_put_555(old(builder).pixels(), position as int, colour),
{
    if colour == 0xf81f {
        return ;
    }
    let cr = ((colour / 0x400) % 32 * 8) as u8;
    let cg = ((colour / 0x20) % 32 * 8) as u8;
    let cb = ((colour % 32) * 8) as u8;
    let data = [cr, cg, cb, 0xffu8];
    proof {
        assert(data@ =~= decode_555(colour));
    }
    builder.set_pixel_by_pos(position, data);
}

/// Read `n` packed colours from the reader and write them at consecutive
/// cursor positions starting at `cur`, as [`spec_rle_run`] says.
fn read_pixel_run<T, B: ImageBuilder<T>>(
    reader: &mut ByteReader,
    builder: &mut B,
    n: u32,
    cur: u64,
    npix: u64,
) -> (r: Result<u64, SgImageError>)
    requires
        old(builder).wf(),
        npix == old(builder).spec_width() * old(builder).spec_height(),
        cur + n <= u64::MAX,
    ensures
        final(reader).bytes() == old(reader).bytes(),
        final(builder).wf(),
        final(builder).spec_width() == old(builder).spec_width(),
        final(builder).spec_height() == old(builder).spec_height(),
        match r {
            Ok(cur2) => spec_rle_run(
                old(reader).bytes(),
                old(reader).position(),
                n as int,
                cur as int,
                old(builder).pixels(),
                npix as int,
            ) == Ok::<(Seq<u8>, int, int), SgImageError>(
                (final(builder).pixels(), final(reader).position(), cur2 as int),
            ) && cur2 == cur + n,
            Err(e) => spec_rle_run(
                old(reader).bytes(),
                old(reader).position(),
                n as int,
                cur as int,
                old(builder).pixels(),
                npix as int,
            ) == Err::<(Seq<u8>, int, int), SgImageError>(e),
        },
{
    let ghost d = old(reader).bytes();
    let ghost p0 = old(reader).position();
    let ghost pix0 = old(builder).pixels();
    let mut j: u32 = 0;
    let mut c2: u64 = cur;
    while j < n
        invariant
            0 <= j <= n,
            c2 == cur + j,
            cur + n <= u64::MAX,
            d == old(reader).bytes(),
            p0 == old(reader).position(),
            pix0 == old(builder).pixels(),
            reader.bytes() == d,
            builder.wf(),
            builder.spec_width() == old(builder).spec_width(),
            builder.spec_height() == old(builder).spec_height(),
            npix == builder.spec_width() * builder.spec_height(),
            spec_rle_run(d, p0, n as int, cur as int, pix0, npix as int) == spec_rle_run(
                d,
                reader.position(),
                (n - j) as int,
                c2 as int,
                builder.pixels(),
                npix as int,
            ),
        decreases n - j,
    {
        let colour = reader.read_u16_le()?;
        if colour != 0xf81f && c2 >= npix {
            return Err(SgImageError::ImageDataLengthMismatch);
        }
        if colour != 0xf81f {
            proof {
                builder.wf_facts();
            }
            set_555_pixel_by_pos(builder, c2 as usize, colour);
        }
        c2 = c2 + 1;
        j = j + 1;
    }
    Ok(c2)
}

/// Read `n` alpha payload bytes from the reader and merge them into the
/// alpha channel at consecutive cursor positions, as [`spec_alpha_run`]
/// says.
fn read_alpha_run<T, B: ImageBuilder<T>>(
    reader: &mut ByteReader,
    builder: &mut B,
    n: u32,
    cur: u64,
    npix: u64,
) -> (r: Result<u64, SgImageError>)
    requires
        old(builder).wf(),
        npix == old(builder).spec_width() * old(builder).spec_height(),
        cur + n <= u64::MAX,
    ensures
        final(reader).bytes() == old(reader).bytes(),
        final(builder).wf(),
        final(builder).spec_width() == old(builder).spec_width(),
        final(builder).spec_height() == old(builder).spec_height(),
        match r {
            Ok(cur2) => spec_alpha_run(
                old(reader).bytes(),
                old(reader).position(),
                n as int,
                cur as int,
                old(builder).pixels(),
                npix as int,
            ) == Ok::<(Seq<u8>, int, int), SgImageError>(
                (final(builder).pixels(), final(reader).position(), cur2 as int),
            ) && cur2 == cur + n,
            Err(e) => spec_alpha_run(
                old(reader).bytes(),
                old(reader).position(),
                n as int,
                cur as int,
                old(builder).pixels(),
                npix as int,
            ) == Err::<(Seq<u8>, int, int), SgImageError>(e),
        },
{
    let ghost d = old(reader).bytes();
    let ghost p0 = old(reader).position();
    let ghost pix0 = old(builder).pixels();
    let mut j: u32 = 0;
    let mut c2: u64 = cur;
    while j < n
        invariant
            0 <= j <= n,
            c2 == cur + j,
            cur + n <= u64::MAX,
            d == old(reader).bytes(),
            p0 == old(reader).position(),
            pix0 == old(builder).pixels(),
            reader.bytes() == d,
            builder.wf(),
            builder.spec_width() == old(builder).spec_width(),
            builder.spec_height() == old(builder).spec_height(),
            npix == builder.spec_width() * builder.spec_height(),
            spec_alpha_run(d, p0, n as int, cur as int, pix0, npix as int) == spec_alpha_run(
                d,
                reader.position(),
                (n - j) as int,
                c2 as int,
                builder.pixels(),
                npix as int,
            ),
        decreases n - j,
    {
        let a = reader.read_u8()?;
        if c2 >= npix {
            return Err(SgImageError::ImageDataLengthMismatch);
        }
        proof {
            builder.wf_facts();
        }
        builder.set_alpha(c2 as usize, (a % 32) * 8);
        c2 = c2 + 1;
        j = j + 1;
    }
    Ok(c2)
}

impl SgImageMetadata {
    /// Decode a transparent/RLE colour stream of exactly `length` bytes at
    /// the reader's current position, as [`spec_rle_color`] says.
    fn load_transparent_image<T, B: ImageBuilder<T>>(
        &self,
        builder: &mut B,
        reader: &mut ByteReader,
        length: &u32,
    ) -> (r: Result<(), SgImageError>)
        requires
            old(builder).wf(),
            old(builder).spec_width() == self.width,
            old(builder).spec_height() == self.height,
        ensures
            final(reader).bytes() == old(reader).bytes(),
            final(builder).wf(),
            final(builder).spec_width() == old(builder).spec_width(),
            final(builder).spec_height() == old(builder).spec_height(),
            match r {
                Ok(_) => spec_rle_color(
                    old(reader).bytes(),
                    old(reader).position(),
                    *length as int,
                    0,
                    old(builder).pixels(),
                    old(builder).spec_width() * old(builder).spec_height(),
                ) matches Ok(t) && final(builder).pixels() == t.0 && final(reader).position()
                    == t.1,
                Err(e) => spec_rle_color(
                    old(reader).bytes(),
                    old(reader).position(),
                    *length as int,
                    0,
                    old(builder).pixels(),
                    old(builder).spec_width() * old(builder).spec_height(),
                ) == Err::<(Seq<u8>, int, int), SgImageError>(e),
            },
    {
        let ghost d = old(reader).bytes();
        let ghost p0 = old(reader).position();
        let ghost pix0 = old(builder).pixels();
        let len0: u32 = *length;
        proof {
            assert((self.width as u64) * (self.height as u64) < 0x1_0000_0000)
                by (nonlinear_arith)
                requires
                    self.width as u64 <= 0xffff,
                    self.height as u64 <= 0xffff,
            ;
        }
        let npix: u64 = (self.width as u64) * (self.height as u64);
        let mut cur: u64 = 0;
        let mut remaining: u32 = len0;
        while remaining > 0
            invariant
                d == old(reader).bytes(),
                p0 == old(reader).position(),
                pix0 == old(builder).pixels(),
                reader.bytes() == d,
                builder.wf(),
                builder.spec_width() == old(builder).spec_width(),
                builder.spec_height() == old(builder).spec_height(),
                npix == builder.spec_width() * builder.spec_height(),
                len0 == *length,
                remaining <= len0,
                cur <= 256 * ((len0 - remaining) as int),
                spec_rle_color(d, p0, len0 as int, 0, pix0, npix as int) == spec_rle_color(
                    d,
                    reader.position(),
                    remaining as int,
                    cur as int,
                    builder.pixels(),
                    npix as int,
                ),
            decreases remaining,
        {
            let c = reader.read_u8()?;
            if c == 255 {
                let skip = reader.read_u8()?;
                if remaining < 2 {
                    return Err(SgImageError::ImageDataLengthMismatch);
                }
                remaining = remaining - 2;
                cur = cur + skip as u64;
            } else {
                let runlen: u32 = 1 + 2 * (c as u32);
                if remaining < runlen {
                    return Err(SgImageError::ImageDataLengthMismatch);
                }
                cur = read_pixel_run(reader, builder, c as u32, cur, npix)?;
                remaining = remaining - runlen;
            }
        }
        Ok(())
    }

    /// Decode an alpha-only RLE stream of exactly `self.alpha_length` bytes
    /// at the reader's current position, as [`spec_rle_alpha`] says.
    fn load_alpha_mask<T, B: ImageBuilder<T>>(
        &self,
        builder: &mut B,
        reader: &mut ByteReader,
    ) -> (r: Result<(), SgImageError>)
        requires
            old(builder).wf(),
            old(builder).spec_width() == self.width,
            old(builder).spec_height() == self.height,
        ensures
            final(reader).bytes() == old(reader).bytes(),
            final(builder).wf(),
            final(builder).spec_width() == old(builder).spec_width(),
            final(builder).spec_height() == old(builder).spec_height(),
            match r {
                Ok(_) => spec_rle_alpha(
                    old(reader).bytes(),
                    old(reader).position(),
                    self.alpha_length as int,
                    0,
                    old(builder).pixels(),
                    old(builder).spec_width() * old(builder).spec_height(),
                ) matches Ok(t) && final(builder).pixels() == t.0 && final(reader).position()
                    == t.1,
                Err(e) => spec_rle_alpha(
                    old(reader).bytes(),
                    old(reader).position(),
                    self.alpha_length as int,
                    0,
                    old(builder).pixels(),
                    old(builder).spec_width() * old(builder).spec_height(),
                ) == Err::<(Seq<u8>, int, int), SgImageError>(e),
            },
    {
        let ghost d = old(reader).bytes();
        let ghost p0 = old(reader).position();
        let ghost pix0 = old(builder).pixels();
        let len0: u32 = self.alpha_length;
        proof {
            assert((self.width as u64) * (self.height as u64) < 0x1_0000_0000)
                by (nonlinear_arith)
                requires
                    self.width as u64 <= 0xffff,
                    self.height as u64 <= 0xffff,
            ;
        }
        let npix: u64 = (self.width as u64) * (self.height as u64);
        let mut cur: u64 = 0;
        let mut remaining: u32 = len0;
        while remaining > 0
            invariant
                d == old(reader).bytes(),
                p0 == old(reader).position(),
                pix0 == old(builder).pixels(),
                reader.bytes() == d,
                builder.wf(),
                builder.spec_width() == old(builder).spec_width(),
                builder.spec_height() == old(builder).spec_height(),
                npix == builder.spec_width() * builder.spec_height(),
                len0 == self.alpha_length,
                remaining <= len0,
                cur <= 256 * ((len0 - remaining) as int),
                spec_rle_alpha(d, p0, len0 as int, 0, pix0, npix as int) == spec_rle_alpha(
                    d,
                    reader.position(),
                    remaining as int,
                    cur as int,
                    builder.pixels(),
                    npix as int,
                ),
            decreases remaining,
        {
            let c = reader.read_u8()?;
            if c == 255 {
                let skip = reader.read_u8()?;
                if remaining < 2 {
                    return Err(SgImageError::ImageDataLengthMismatch);
                }
                remaining = remaining - 2;
                cur = cur + skip as u64;
            } else {
                let runlen: u32 = 1 + (c as u32);
                if remaining < runlen {
                    return Err(SgImageError::ImageDataLengthMismatch);
                }
                cur = read_alpha_run(reader, builder, c as u32, cur, npix)?;
                remaining = remaining - runlen;
            }
        }
        Ok(())
    }

    /// Decode a plain raster image, as [`spec_plain`] says.
    fn load_plain_image<T, B: ImageBuilder<T>>(
        &self,
        builder: &mut B,
        reader: &mut ByteReader,
    ) -> (r: Result<(), SgImageError>)
        requires
            old(builder).wf(),
            old(builder).spec_width() == self.width,
            old(builder).spec_height() == self.height,
        ensures
            final(reader).bytes() == old(reader).bytes(),
            final(builder).wf(),
            final(builder).spec_width() == old(builder).spec_width(),
            final(builder).spec_height() == old(builder).spec_height(),
            match r {
                Ok(_) => spec_plain(self@, old(reader).bytes(), old(builder).pixels()) matches Ok(
                    t,
                ) && final(builder).pixels() == t.0 && final(reader).position() == t.1,
                Err(e) => spec_plain(self@, old(reader).bytes(), old(builder).pixels()) == Err::<
                    (Seq<u8>, int),
                    SgImageError,
                >(e),
            },
    {
        if (self.flags[0] as u32) > self.offset {
            return Err(SgImageError::IoError);
        }
        reader.seek_absolute(self.offset as u64 - self.flags[0] as u64);

        proof {
            assert((self.height as u64) * (self.width as u64) * 2 < 0x2_0000_0000)
                by (nonlinear_arith)
                requires
                    self.width as u64 <= 0xffff,
                    self.height as u64 <= 0xffff,
            ;
        }
        if (self.height as u64) * (self.width as u64) * 2 != self.length as u64 {
            return Err(SgImageError::ImageDataLengthMismatch);
        }

        proof {
            assert((self.width as u64) * (self.height as u64) < 0x1_0000_0000)
                by (nonlinear_arith)
                requires
                    self.width as u64 <= 0xffff,
                    self.height as u64 <= 0xffff,
            ;
        }
        let npix: u64 = (self.width as u64) * (self.height as u64);
        let n: u32 = self.length / 2;
        read_pixel_run(reader, builder, n, 0, npix)?;
        Ok(())
    }

    /// Decode a sprite image, as [`spec_sprite`] says.
    fn load_sprite_image<T, B: ImageBuilder<T>>(
        &self,
        builder: &mut B,
        reader: &mut ByteReader,
    ) -> (r: Result<(), SgImageError>)
        requires
            old(builder).wf(),
            old(builder).spec_width() == self.width,
            old(builder).spec_height() == self.height,
        ensures
            final(reader).bytes() == old(reader).bytes(),
            final(builder).wf(),
            final(builder).spec_width() == old(builder).spec_width(),
            final(builder).spec_height() == old(builder).spec_height(),
            match r {
                Ok(_) => spec_sprite(self@, old(reader).bytes(), old(builder).pixels()) matches Ok(
                    t,
                ) && final(builder).pixels() == t.0 && final(reader).position() == t.1,
                Err(e) => spec_sprite(self@, old(reader).bytes(), old(builder).pixels()) == Err::<
                    (Seq<u8>, int),
                    SgImageError,
                >(e),
            },
    {
        reader.seek_absolute(self.offset as u64);
        self.load_transparent_image(builder, reader, &self.length)?;
        Ok(())
    }

    /// Resolve the isometric grid size from the half-width `height`, as
    /// [`spec_iso_size`] says.
    fn calculate_isometric_size(&self, height: u16) -> (r: u16)
        ensures
            r as int == spec_iso_size(self@.flags[3], height as int),
    {
        if self.flags[3] == 0 {
            if height % ISOMETRIC_TILE_HEIGHT == 0 {
                return height / ISOMETRIC_TILE_HEIGHT;
            } else if height % ISOMETRIC_LARGE_TILE_HEIGHT == 0 {
                return height / ISOMETRIC_LARGE_TILE_HEIGHT;
            }
        }
        self.flags[3] as u16
    }

    /// Resolve the tile byte count, height and width from the grid size and
    /// the half-width, as [`spec_tile_h`] and [`spec_tile_w`] say.
    fn calculate_tile_size(size: &u16, height: &u16) -> (r: (u16, u16, u16))
        ensures
            r.1 as int == spec_tile_h(*size as int, *height as int),
            r.2 as int == spec_tile_w(*size as int, *height as int),
            r.1 == 30 ==> r.0 == 1800,
            r.1 == 40 ==> r.0 == 3200,
    {
        proof {
            assert((ISOMETRIC_TILE_HEIGHT as u32) * (*size as u32) <= 30 * 0xffff)
                by (nonlinear_arith)
                requires
                    ISOMETRIC_TILE_HEIGHT as u32 == 30,
                    *size as u32 <= 0xffff,
            ;
        }
        if (ISOMETRIC_TILE_HEIGHT as u32) * (*size as u32) == *height as u32 {
            (ISOMETRIC_TILE_BYTES, ISOMETRIC_TILE_HEIGHT, ISOMETRIC_TILE_WIDTH)
        } else {
            (ISOMETRIC_LARGE_TILE_BYTES, ISOMETRIC_LARGE_TILE_HEIGHT, ISOMETRIC_LARGE_TILE_WIDTH)
        }
    }

    /// Blit one diamond tile at pixel offset (`offset_x`, `offset_y`), as
    /// [`spec_tile_rows`] says.
    fn write_isometric_tile<T, B: ImageBuilder<T>>(
        &self,
        builder: &mut B,
        reader: &mut ByteReader,
        offset_x: u64,
        offset_y: u64,
        tile_width: u16,
        tile_height: u16,
    ) -> (r: Result<(), SgImageError>)
        requires
            old(builder).wf(),
            old(builder).spec_width() == self.width,
            old(builder).spec_height() == self.height,
            offset_x <= 0xffff_ffff,
            offset_y <= 0xffff_ffff,
            tile_height % 2 == 0,
            2 <= tile_height,
            2 * tile_height <= tile_width + 4,
            tile_height <= tile_width,
        ensures
            final(reader).bytes() == old(reader).bytes(),
            final(builder).wf(),
            final(builder).spec_width() == old(builder).spec_width(),
            final(builder).spec_height() == old(builder).spec_height(),
            match r {
                Ok(_) => spec_tile_rows(
                    old(reader).bytes(),
                    old(reader).position(),
                    old(builder).pixels(),
                    old(builder).spec_width() * old(builder).spec_height(),
                    self.width as int,
                    offset_x as int,
                    offset_y as int,
                    tile_width as int,
                    tile_height as int,
                    0,
                ) matches Ok(t) && final(builder).pixels() == t.0 && final(reader).position()
                    == t.1,
                Err(e) => spec_tile_rows(
                    old(reader).bytes(),
                    old(reader).position(),
                    old(builder).pixels(),
                    old(builder).spec_width() * old(builder).spec_height(),
                    self.width as int,
                    offset_x as int,
                    offset_y as int,
                    tile_width as int,
                    tile_height as int,
                    0,
                ) == Err::<(Seq<u8>, int), SgImageError>(e),
            },
    {
        let ghost d = old(reader).bytes();
        let ghost p0 = old(reader).position();
        let ghost pix0 = old(builder).pixels();
        proof {
            assert((self.width as u64) * (self.height as u64) < 0x1_0000_0000)
                by (nonlinear_arith)
                requires
                    self.width as u64 <= 0xffff,
                    self.height as u64 <= 0xffff,
            ;
        }
        let npix: u64 = (self.width as u64) * (self.height as u64);
        let w: u64 = self.width as u64;
        let half_height: u16 = tile_height / 2;
        let mut y: u16 = 0;
        while y < tile_height
            invariant
                0 <= y <= tile_height,
                half_height == tile_height / 2,
                tile_height % 2 == 0,
                2 <= tile_height,
                2 * tile_height <= tile_width + 4,
                tile_height <= tile_width,
                offset_x <= 0xffff_ffff,
                offset_y <= 0xffff_ffff,
                d == old(reader).bytes(),
                p0 == old(reader).position(),
                pix0 == old(builder).pixels(),
                reader.bytes() == d,
                builder.wf(),
                builder.spec_width() == old(builder).spec_width(),
                builder.spec_height() == old(builder).spec_height(),
                builder.spec_width() == self.width,
                builder.spec_height() == self.height,
                w == self.width,
                npix == builder.spec_width() * builder.spec_height(),
                spec_tile_rows(
                    d,
                    p0,
                    pix0,
                    npix as int,
                    self.width as int,
                    offset_x as int,
                    offset_y as int,
                    tile_width as int,
                    tile_height as int,
                    0,
                ) == spec_tile_rows(
                    d,
                    reader.position(),
                    builder.pixels(),
                    npix as int,
                    self.width as int,
                    offset_x as int,
                    offset_y as int,
                    tile_width as int,
                    tile_height as int,
                    y as int,
                ),
            decreases tile_height - y,
        {
            let x_start: u16 = if y < half_height {
                tile_height - 2 * (y + 1)
            } else {
                2 * (y - half_height)
            };
            let x_end: u16 = tile_width - x_start;
            let span: u16 = x_end - x_start;
            proof {
                assert((offset_y + y as u64) * w <= 0x1_0001_0000 * 0xffff)
                    by (nonlinear_arith)
                    requires
                        offset_y <= 0xffff_ffff,
                        y as u64 <= 0xffff,
                        w <= 0xffff,
                ;
            }
            let base: u64 = offset_x + (offset_y + y as u64) * w;
            let cur: u64 = base + x_start as u64;
            proof {
                assert(x_start as int == spec_row_start(tile_height as int, y as int));
                assert(base + x_start as u64 + span as u64 <= u64::MAX);
            }
            read_pixel_run(reader, builder, span as u32, cur, npix)?;
            y = y + 1;
        }
        Ok(())
    }

    /// Blit the isometric base layer at the reader's current position, as
    /// [`spec_iso_base`] says.
    #[verifier::rlimit(60)]
    fn load_isometric_base<T, B: ImageBuilder<T>>(
        &self,
        builder: &mut B,
        reader: &mut ByteReader,
    ) -> (r: Result<(), SgImageError>)
        requires
            old(builder).wf(),
            old(builder).spec_width() == self.width,
            old(builder).spec_height() == self.height,
        ensures
            final(reader).bytes() == old(reader).bytes(),
            final(builder).wf(),
            final(builder).spec_width() == old(builder).spec_width(),
            final(builder).spec_height() == old(builder).spec_height(),
            match r {
                Ok(_) => spec_iso_base(
                    self@,
                    old(reader).bytes(),
                    old(reader).position(),
                    old(builder).pixels(),
                ) matches Ok(t) && final(builder).pixels() == t.0 && final(reader).position()
                    == t.1,
                Err(e) => spec_iso_base(
                    self@,
                    old(reader).bytes(),
                    old(reader).position(),
                    old(builder).pixels(),
                ) == Err::<(Seq<u8>, int), SgImageError>(e),
            },
    {
        let ghost d = old(reader).bytes();
        let ghost p0 = old(reader).position();
        let ghost pix0 = old(builder).pixels();
        let width = self.width;
        let hprime: u16 = ((width as u32 + 2) / 2) as u16;
        let size: u16 = self.calculate_isometric_size(hprime);
        let tile = Self::calculate_tile_size(&size, &hprime);
        let tile_height: u16 = tile.1;
        let tile_width: u16 = tile.2;

        proof {
            assert((width as u64 + 2) * (hprime as u64) <= 0x10001 * 0x8000) by (nonlinear_arith)
                requires
                    width as u64 <= 0xffff,
                    hprime as u64 <= 0x8000,
            ;
        }
        if (width as u64 + 2) * (hprime as u64) != self.uncompressed_length as u64 {
            return Err(SgImageError::ImageDataLengthMismatch);
        }
        if self.height < hprime {
            return Err(SgImageError::ImageDataLengthMismatch);
        }
        if size == 0 {
            return Err(SgImageError::ImageDataLengthMismatch);
        }

        let height_offset: u16 = self.height - hprime;
        proof {
            assert((self.width as u64) * (self.height as u64) < 0x1_0000_0000)
                by (nonlinear_arith)
                requires
                    self.width as u64 <= 0xffff,
                    self.height as u64 <= 0xffff,
            ;
        }
        let npix: u64 = (self.width as u64) * (self.height as u64);
        let ghost top = spec_iso_base(self@, d, p0, pix0);
        proof {
            assert(top == spec_iso_rows(
                d,
                p0,
                pix0,
                npix as int,
                self.width as int,
                tile_width as int,
                tile_height as int,
                size as int,
                0,
                height_offset as int,
            ));
        }
        let rows: u32 = 2 * (size as u32) - 1;
        let mut y_offset: u64 = height_offset as u64;
        let mut y: u32 = 0;
        while y < rows
            invariant
                0 <= y <= rows,
                rows == 2 * (size as int) - 1,
                1 <= size,
                tile_height == 30 || tile_height == 40,
                tile_width as int == (if tile_height as int == 30 {
                    58int
                } else {
                    78int
                }),
                y_offset == height_offset + (y as int) * (tile_height as int / 2),
                height_offset <= 0xffff,
                d == old(reader).bytes(),
                p0 == old(reader).position(),
                pix0 == old(builder).pixels(),
                top == spec_iso_base(self@, d, p0, pix0),
                reader.bytes() == d,
                builder.wf(),
                builder.spec_width() == old(builder).spec_width(),
                builder.spec_height() == old(builder).spec_height(),
                builder.spec_width() == self.width,
                builder.spec_height() == self.height,
                npix == builder.spec_width() * builder.spec_height(),
                top == spec_iso_rows(
                    d,
                    reader.position(),
                    builder.pixels(),
                    npix as int,
                    self.width as int,
                    tile_width as int,
                    tile_height as int,
                    size as int,
                    y as int,
                    y_offset as int,
                ),
            decreases rows - y,
        {
            let x_lim: u32;
            let x_base: u64;
            if y < size as u32 {
                x_lim = y + 1;
                x_base = ((size as u32 - y - 1) as u64) * (tile_height as u64);
            } else {
                x_lim = 2 * (size as u32) - y - 1;
                x_base = ((y - size as u32 + 1) as u64) * (tile_height as u64);
            }
            proof {
                assert(x_base <= 0xffff * 40 && y_offset <= 0xffff + 0x2_0000 * 20)
                    by (nonlinear_arith)
                    requires
                        x_base == (if (y as int) < size as int {
                            (size as int - y - 1) * (tile_height as int)
                        } else {
                            (y as int - size as int + 1) * (tile_height as int)
                        }),
                        y_offset == height_offset + (y as int) * (tile_height as int / 2),
                        0 <= y as int <= 2 * (size as int) - 1,
                        1 <= size as int <= 0xffff,
                        height_offset <= 0xffff,
                        tile_height as int == 30 || tile_height as int == 40,
                ;
            }
            let mut x_offset: u64 = x_base;
            let mut x: u32 = 0;
            while x < x_lim
                invariant
                    0 <= x <= x_lim,
                    x_lim <= 0x2_0000,
                    x_base <= 0xffff * 40,
                    x_offset == x_base + (x as int) * (tile_width as int + 2),
                    y_offset <= 0xffff + 0x2_0000 * 20,
                    tile_height == 30 || tile_height == 40,
                    tile_width as int == (if tile_height as int == 30 {
                        58int
                    } else {
                        78int
                    }),
                    1 <= size,
                    rows == 2 * (size as int) - 1,
                    0 <= y < rows,
                    y_offset == height_offset + (y as int) * (tile_height as int / 2),
                    height_offset <= 0xffff,
                    d == old(reader).bytes(),
                    p0 == old(reader).position(),
                    pix0 == old(builder).pixels(),
                    top == spec_iso_base(self@, d, p0, pix0),
                    reader.bytes() == d,
                    builder.wf(),
                    builder.spec_width() == old(builder).spec_width(),
                    builder.spec_height() == old(builder).spec_height(),
                    builder.spec_width() == self.width,
                    builder.spec_height() == self.height,
                    npix == builder.spec_width() * builder.spec_height(),
                    top == spec_iso_rows_from_tiles(
                        d,
                        reader.position(),
                        builder.pixels(),
                        npix as int,
                        self.width as int,
                        tile_width as int,
                        tile_height as int,
                        size as int,
                        y as int,
                        x as int,
                        x_lim as int,
                        x_offset as int,
                        y_offset as int,
                    ),
                decreases x_lim - x,
            {
                proof {
                    assert(x_offset <= 0xffff * 40 + 0x2_0000 * 80) by (nonlinear_arith)
                        requires
                            x_offset == x_base + (x as int) * (tile_width as int + 2),
                            x_base <= 0xffff * 40,
                            0 <= x as int <= x_lim as int <= 0x2_0000,
                            tile_width as int <= 78,
                    ;
                }
                self.write_isometric_tile(
                    builder,
                    reader,
                    x_offset,
                    y_offset,
                    tile_width,
                    tile_height,
                )?;
                let ghost x_off_old = x_offset as int;
                x_offset = x_offset + (tile_width as u64 + 2);
                x = x + 1;
                proof {
                    assert(x_offset == x_base + (x as int) * (tile_width as int + 2))
                        by (nonlinear_arith)
                        requires
                            x_offset == x_off_old + (tile_width as int + 2),
                            x_off_old == x_base + (x as int - 1) * (tile_width as int + 2),
                    ;
                }
            }
            let ghost y_off_old = y_offset as int;
            y_offset = y_offset + (tile_height / 2) as u64;
            y = y + 1;
            proof {
                assert(y_offset == height_offset + (y as int) * (tile_height as int / 2))
                    by (nonlinear_arith)
                    requires
                        y_offset == y_off_old + (tile_height as int / 2),
                        y_off_old == height_offset + (y as int - 1) * (tile_height as int / 2),
                ;
            }
        }
        Ok(())
    }

    /// Decode an isometric image, as [`spec_isometric`] says: the base
    /// mosaic, then the transparent/RLE overlay for the remaining bytes.
    fn load_isometric_image<T, B: ImageBuilder<T>>(
        &self,
        builder: &mut B,
        reader: &mut ByteReader,
    ) -> (r: Result<(), SgImageError>)
        requires
            old(builder).wf(),
            old(builder).spec_width() == self.width,
            old(builder).spec_height() == self.height,
        ensures
            final(reader).bytes() == old(reader).bytes(),
            final(builder).wf(),
            final(builder).spec_width() == old(builder).spec_width(),
            final(builder).spec_height() == old(builder).spec_height(),
            match r {
                Ok(_) => spec_isometric(self@, old(reader).bytes(), old(builder).pixels())
                    matches Ok(t) && final(builder).pixels() == t.0 && final(reader).position()
                    == t.1,
                Err(e) => spec_isometric(self@, old(reader).bytes(), old(builder).pixels())
                    == Err::<(Seq<u8>, int), SgImageError>(e),
            },
    {
        reader.seek_absolute(self.offset as u64);
        self.load_isometric_base(builder, reader)?;
        if self.length < self.uncompressed_length {
            return Err(SgImageError::ImageDataLengthMismatch);
        }
        let overlay_length: u32 = self.length - self.uncompressed_length;
        self.load_transparent_image(builder, reader, &overlay_length)?;
        Ok(())
    }

    /// Load pixel data for this image from the provided reader, building the
    /// raster that [`spec_load_image`] describes.
    ///
    /// The degenerate case (zero width, height or byte length) yields the
    /// all-transparent raster of the declared size without touching the
    /// reader; an image type outside the supported set fails with
    /// [`SgImageError::UnknownImageType`] carrying the code, and no raster
    /// value is produced.
    pub fn load_image<T, F: ImageBuilderFactory<T>>(
        &self,
        reader: &mut ByteReader,
        image_builder_factory: &F,
    ) -> (r: Result<T, SgImageError>)
        requires
            self.width as int * self.height as int * 4 <= usize::MAX,
        ensures
            final(reader).bytes() == old(reader).bytes(),
            match r {
                Ok(t) => spec_load_image(self@, old(reader).bytes(), old(reader).position())
                    matches Ok(pair) && <F::Builder as ImageBuilder<T>>::result_pixels(t)
                    == pair.0 && final(reader).position() == pair.1,
                Err(e) => spec_load_image(self@, old(reader).bytes(), old(reader).position())
                    == Err::<(Seq<u8>, int), SgImageError>(e),
            },
    {
        let mut image_builder = image_builder_factory.new_builder(self.width, self.height);

        if self.width == 0 || self.height == 0 || self.length == 0 {
            proof {
                vstd::arithmetic::mul::lemma_mul_by_zero_is_zero(self.width as int);
            }
            return Ok(image_builder.build());
        }

        let t = self.image_type;
        if t == 0 || t == 1 || t == 10 || t == 12 || t == 13 {
            self.load_plain_image(&mut image_builder, reader)?;
        } else if t == 30 {
            self.load_isometric_image(&mut image_builder, reader)?;
        } else if t == 256 || t == 257 || t == 276 {
            self.load_sprite_image(&mut image_builder, reader)?;
        } else {
            return Err(SgImageError::UnknownImageType(t));
        }

        if self.alpha_length > 0 {
            self.load_alpha_mask(&mut image_builder, reader)?;
        }

        if self.invert_offset != 0 {
            image_builder.flip_horizontal();
        }

        Ok(image_builder.build())
    }
}

/// Standard isometric floor-tile dimensions: a diamond of 1800 packed bytes.
const ISOMETRIC_TILE_WIDTH: u16 = 58;

/// Height of the standard isometric floor tile.
const ISOMETRIC_TILE_HEIGHT: u16 = 30;

/// Packed-pixel byte footprint of the standard isometric floor tile.
const ISOMETRIC_TILE_BYTES: u16 = 1800;

/// Width of the large isometric floor tile.
const ISOMETRIC_LARGE_TILE_WIDTH: u16 = 78;

/// Height of the large isometric floor tile.
const ISOMETRIC_LARGE_TILE_HEIGHT: u16 = 40;

/// Packed-pixel byte footprint of the large isometric floor tile.
const ISOMETRIC_LARGE_TILE_BYTES: u16 = 3200;

} // verus!
