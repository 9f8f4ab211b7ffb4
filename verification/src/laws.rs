//! Properties that hold across the loader and the pixel decoder.

use vstd::prelude::*;
use crate::error::SgImageError;
use crate::image_builder::{spec_hflip, zero_pixels};
use crate::pixel::{
    spec_alpha_run,
    spec_load_image,
    spec_rle_alpha,
    spec_rle_color,
    spec_rle_run,
    spec_sprite,
};
use crate::sg_file::{FileV, spec_load};
use crate::sg_image_metadata::ImageV;

verus! {

/// Parsing is deterministic: reparsing identical bytes with the same folder
/// and filename yields structurally identical containers.
pub proof fn lemma_load_deterministic(
    d: Seq<u8>,
    folder: Seq<char>,
    filename: Seq<char>,
    f1: FileV,
    f2: FileV,
)
    requires
        spec_load(d, folder, filename) == Ok::<FileV, SgImageError>(f1),
        spec_load(d, folder, filename) == Ok::<FileV, SgImageError>(f2),
    ensures
        f1 == f2,
{
}

/// Mirroring an all-transparent raster changes nothing.
proof fn lemma_hflip_zeros(w: int, h: int)
    requires
        w >= 0,
        h >= 0,
    ensures
        spec_hflip(zero_pixels(w * h), w) == zero_pixels(w * h),
{
    let pix = zero_pixels(w * h);
    assert forall|i: int| 0 <= i < pix.len() implies spec_hflip(pix, w)[i] == pix[i] by {
        if w > 0 {
            let p = i / 4;
            let b = i % 4;
            let y = p / w;
            let x = p % w;
            assert(0 <= 4 * (y * w + (w - 1 - x)) + b < 4 * (w * h)) by (nonlinear_arith)
                requires
                    0 <= i < 4 * (w * h),
                    p == i / 4,
                    b == i % 4,
                    y == p / w,
                    x == p % w,
                    w > 0,
                    h >= 0,
            ;
        }
    }
    assert(spec_hflip(pix, w) =~= pix);
}

/// A degenerate record (zero width, zero height or zero byte length)
/// decodes to the all-transparent raster of the declared size — exactly
/// `width × height × 4` bytes, all zero — whatever the stream holds.
pub proof fn lemma_degenerate_decodes_blank(rec: ImageV, d: Seq<u8>, start: int)
    requires
        rec.width == 0 || rec.height == 0 || rec.length == 0,
    ensures
        spec_load_image(rec, d, start) == Ok::<(Seq<u8>, int), SgImageError>(
            (zero_pixels(rec.width * rec.height), start),
        ),
        zero_pixels(rec.width * rec.height).len() == rec.width * rec.height * 4,
        forall|i: int|
            0 <= i < zero_pixels(rec.width * rec.height).len() ==> #[trigger] zero_pixels(
                rec.width * rec.height,
            )[i] == 0,
{
}

/// A colour run of `n` pixels that decodes successfully reads exactly two
/// bytes per pixel and advances the cursor by exactly `n`.
proof fn lemma_rle_run_advances(d: Seq<u8>, p: int, n: int, cur: int, pix: Seq<u8>, npix: int)
    requires
        n >= 0,
        spec_rle_run(d, p, n, cur, pix, npix) is Ok,
    ensures
        spec_rle_run(d, p, n, cur, pix, npix).unwrap().1 == p + 2 * n,
        spec_rle_run(d, p, n, cur, pix, npix).unwrap().2 == cur + n,
    decreases n,
{
    if n > 0 {
        let c = crate::utils::u16_at(d, p);
        lemma_rle_run_advances(
            d,
            p + 2,
            n - 1,
            cur + 1,
            crate::pixel::spec_put_555(pix, cur, c),
            npix,
        );
    }
}

/// An alpha run of `n` pixels that decodes successfully reads exactly one
/// byte per pixel and advances the cursor by exactly `n`.
proof fn lemma_alpha_run_advances(d: Seq<u8>, p: int, n: int, cur: int, pix: Seq<u8>, npix: int)
    requires
        n >= 0,
        spec_alpha_run(d, p, n, cur, pix, npix) is Ok,
    ensures
        spec_alpha_run(d, p, n, cur, pix, npix).unwrap().1 == p + n,
        spec_alpha_run(d, p, n, cur, pix, npix).unwrap().2 == cur + n,
    decreases n,
{
    if n > 0 {
        lemma_alpha_run_advances(
            d,
            p + 1,
            n - 1,
            cur + 1,
            pix.update(4 * cur + 3, crate::pixel::alpha_scaled(d[p])),
            npix,
        );
    }
}

/// A transparent/RLE colour stream that decodes successfully consumes
/// exactly its declared byte budget.
pub proof fn lemma_rle_color_consumes_budget(
    d: Seq<u8>,
    p: int,
    budget: int,
    cur: int,
    pix: Seq<u8>,
    npix: int,
)
    requires
        budget >= 0,
        spec_rle_color(d, p, budget, cur, pix, npix) is Ok,
    ensures
        spec_rle_color(d, p, budget, cur, pix, npix).unwrap().1 == p + budget,
    decreases budget,
{
    if budget > 0 {
        let c = d[p] as int;
        if c == 255 {
            lemma_rle_color_consumes_budget(d, p + 2, budget - 2, cur + d[p + 1], pix, npix);
        } else {
            let run = spec_rle_run(d, p + 1, c, cur, pix, npix);
            lemma_rle_run_advances(d, p + 1, c, cur, pix, npix);
            let (pix2, p2, cur2) = run.unwrap();
            lemma_rle_color_consumes_budget(d, p2, budget - 1 - 2 * c, cur2, pix2, npix);
        }
    }
}

/// An alpha-only RLE stream that decodes successfully consumes exactly its
/// declared byte budget.
pub proof fn lemma_rle_alpha_consumes_budget(
    d: Seq<u8>,
    p: int,
    budget: int,
    cur: int,
    pix: Seq<u8>,
    npix: int,
)
    requires
        budget >= 0,
        spec_rle_alpha(d, p, budget, cur, pix, npix) is Ok,
    ensures
        spec_rle_alpha(d, p, budget, cur, pix, npix).unwrap().1 == p + budget,
    decreases budget,
{
    if budget > 0 {
        let c = d[p] as int;
        if c == 255 {
            lemma_rle_alpha_consumes_budget(d, p + 2, budget - 2, cur + d[p + 1], pix, npix);
        } else {
            let run = spec_alpha_run(d, p + 1, c, cur, pix, npix);
            lemma_alpha_run_advances(d, p + 1, c, cur, pix, npix);
            let (pix2, p2, cur2) = run.unwrap();
            lemma_rle_alpha_consumes_budget(d, p2, budget - 1 - c, cur2, pix2, npix);
        }
    }
}

/// A sprite image that decodes successfully leaves the stream exactly
/// `length` bytes past its pixel offset.
pub proof fn lemma_sprite_consumes_length(rec: ImageV, d: Seq<u8>, pix: Seq<u8>)
    requires
        spec_sprite(rec, d, pix) is Ok,
    ensures
        spec_sprite(rec, d, pix).unwrap().1 == rec.offset + rec.length,
{
    lemma_rle_color_consumes_budget(
        d,
        rec.offset as int,
        rec.length as int,
        0,
        pix,
        rec.width * rec.height,
    );
}

/// An alias record decodes to the horizontal mirror of its target's
/// independently decoded raster: a record that copies all geometry from a
/// normal record but keeps its own non-zero `invert_offset` yields, on
/// success, the mirrored pixels (and fails with the same error whenever the
/// target fails).
pub proof fn lemma_alias_decodes_mirrored(rec_i: ImageV, rec_j: ImageV, d: Seq<u8>, start: int)
    requires
        rec_j.invert_offset == 0,
        rec_i.invert_offset != 0,
        rec_i == (ImageV { id: rec_i.id, invert_offset: rec_i.invert_offset, ..rec_j }),
    ensures
        match (spec_load_image(rec_i, d, start), spec_load_image(rec_j, d, start)) {
            (Ok(pi), Ok(pj)) => pi.0 == spec_hflip(pj.0, rec_j.width as int),
            (Err(e1), Err(e2)) => e1 == e2,
            _ => false,
        },
{
    if rec_j.width == 0 || rec_j.height == 0 || rec_j.length == 0 {
        lemma_hflip_zeros(rec_j.width as int, rec_j.height as int);
    }
}

} // verus!
