//! The pixel sink: an abstract output target for decoded pixels, with one
//! reference implementation producing a flat RGBA byte buffer.

use vstd::prelude::*;

verus! {

/// `pix` with the four bytes of linear pixel `p` replaced by `d`.
pub open spec fn update4(pix: Seq<u8>, p: int, d: Seq<u8>) -> Seq<u8> {
    pix.update(4 * p, d[0]).update(4 * p + 1, d[1]).update(4 * p + 2, d[2]).update(
        4 * p + 3,
        d[3],
    )
}

/// A fully transparent black buffer of `npix` RGBA pixels.
pub open spec fn zero_pixels(npix: int) -> Seq<u8> {
    Seq::new(if npix < 0 { 0 } else { (4 * npix) as nat }, |i: int| 0u8)
}

/// The byte of the horizontally mirrored buffer at linear byte index `i`:
/// within every row of `w` pixels, column `x` shows what column `w - 1 - x`
/// held.
pub open spec fn hflip_byte(pix: Seq<u8>, w: int, i: int) -> u8 {
    if w <= 0 {
        pix[i]
    } else {
        let p = i / 4;
        let b = i % 4;
        let y = p / w;
        let x = p % w;
        pix[4 * (y * w + (w - 1 - x)) + b]
    }
}

/// `pix` mirrored horizontally: within every row, column `x` and column
/// `w - 1 - x` exchange their RGBA quadruples.
pub open spec fn spec_hflip(pix: Seq<u8>, w: int) -> Seq<u8> {
    Seq::new(pix.len(), |i: int| hflip_byte(pix, w, i))
}

/// Provides a fresh [`ImageBuilder`] sized to one image's declared
/// dimensions; called once per decoded image.
pub trait ImageBuilderFactory<T>: Sized {
    /// The type of the corresponding builder.
    type Builder: ImageBuilder<T>;

    /// Create a new builder for an image of the provided size, filled with
    /// fully transparent black pixels.
    fn new_builder(&self, width: u16, height: u16) -> (b: Self::Builder)
        requires
            width as int * height as int * 4 <= usize::MAX,
        ensures
            b.wf(),
            b.spec_width() == width,
            b.spec_height() == height,
            b.pixels() == zero_pixels(width as int * height as int),
    ;
}

/// An output target for one decoded image: a `width × height` raster of RGBA
/// pixels addressed by linear (row-major) position.
pub trait ImageBuilder<T>: Sized {
    /// The builder holds a coherent raster.
    spec fn wf(&self) -> bool;

    /// The raster width in pixels.
    spec fn spec_width(&self) -> int;

    /// The raster height in pixels.
    spec fn spec_height(&self) -> int;

    /// The raster contents: `width × height × 4` RGBA bytes in row-major
    /// order.
    spec fn pixels(&self) -> Seq<u8>;

    /// The raster that a finished value of type `T` shows.
    spec fn result_pixels(t: T) -> Seq<u8>;

    /// A coherent raster has exactly `width × height × 4` bytes, and both
    /// dimensions came from 16-bit fields.
    proof fn wf_facts(&self)
        requires
            self.wf(),
        ensures
            self.pixels().len() == self.spec_width() * self.spec_height() * 4,
            0 <= self.spec_width() <= u16::MAX,
            0 <= self.spec_height() <= u16::MAX,
            self.spec_width() * self.spec_height() * 4 <= usize::MAX,
    ;

    /// Set the pixel at linear position `position` to the RGBA quadruple
    /// `data`.
    fn set_pixel_by_pos(&mut self, position: usize, data: [u8; 4])
        requires
            old(self).wf(),
            position < old(self).spec_width() * old(self).spec_height(),
        ensures
            final(self).wf(),
            final(self).spec_width() == old(self).spec_width(),
            final(self).spec_height() == old(self).spec_height(),
            final(self).pixels() == update4(old(self).pixels(), position as int, data@),
    ;

    /// Set only the alpha channel of the pixel at linear position `position`.
    fn set_alpha(&mut self, position: usize, alpha: u8)
        requires
            old(self).wf(),
            position < old(self).spec_width() * old(self).spec_height(),
        ensures
            final(self).wf(),
            final(self).spec_width() == old(self).spec_width(),
            final(self).spec_height() == old(self).spec_height(),
            final(self).pixels() == old(self).pixels().update(
                4 * position + 3,
                alpha,
            ),
    ;

    /// Mirror the whole raster horizontally in place.
    fn flip_horizontal(&mut self)
        requires
            old(self).wf(),
        ensures
            final(self).wf(),
            final(self).spec_width() == old(self).spec_width(),
            final(self).spec_height() == old(self).spec_height(),
            final(self).pixels() == spec_hflip(old(self).pixels(), old(self).spec_width()),
    ;

    /// Consume the builder and return the finished image value.
    fn build(self) -> (t: T)
        requires
            self.wf(),
        ensures
            Self::result_pixels(t) == self.pixels(),
    ;
}

/// Factory for [`VecImageBuilder`]: decoded images come out as flat RGBA byte
/// vectors.
pub struct VecImageBuilderFactory;

/// The reference [`ImageBuilder`]: a flat `width × height × 4` RGBA byte
/// buffer, fully transparent black before any writes.
pub struct VecImageBuilder {
    width: usize,
    height: usize,
    pixels: Vec<u8>,
}

impl ImageBuilderFactory<Vec<u8>> for VecImageBuilderFactory {
    type Builder = VecImageBuilder;

    fn new_builder(&self, width: u16, height: u16) -> (b: Self::Builder) {
        let width = width as usize;
        let height = height as usize;
        let n = width * height * 4;
        let mut pixels: Vec<u8> = Vec::new();
        let mut i: usize = 0;
        while i < n
            invariant
                0 <= i <= n,
                pixels@ =~= Seq::new(i as nat, |j: int| 0u8),
            decreases n - i,
        {
            pixels.push(0);
            i = i + 1;
        }
        proof {
            assert(pixels@ =~= zero_pixels(width as int * height as int));
        }
        VecImageBuilder { width, height, pixels }
    }
}

impl ImageBuilder<Vec<u8>> for VecImageBuilder {
    closed spec fn wf(&self) -> bool {
        &&& self.pixels@.len() == self.width * self.height * 4
        &&& self.width <= u16::MAX
        &&& self.height <= u16::MAX
        &&& self.width * self.height * 4 <= usize::MAX
    }

    closed spec fn spec_width(&self) -> int {
        self.width as int
    }

    closed spec fn spec_height(&self) -> int {
        self.height as int
    }

    closed spec fn pixels(&self) -> Seq<u8> {
        self.pixels@
    }

    closed spec fn result_pixels(t: Vec<u8>) -> Seq<u8> {
        t@
    }

    proof fn wf_facts(&self) {
    }

    fn set_pixel_by_pos(&mut self, position: usize, data: [u8; 4]) {
        proof {
            assert(4 * position + 3 < self.width * self.height * 4) by (nonlinear_arith)
                requires
                    position < self.width * self.height,
            ;
        }
        let i = position * 4;
        self.pixels.set(i, data[0]);
        self.pixels.set(i + 1, data[1]);
        self.pixels.set(i + 2, data[2]);
        self.pixels.set(i + 3, data[3]);
    }

    fn set_alpha(&mut self, position: usize, alpha: u8) {
        proof {
            assert(4 * position + 3 < self.width * self.height * 4) by (nonlinear_arith)
                requires
                    position < self.width * self.height,
            ;
        }
        let i = position * 4 + 3;
        self.pixels.set(i, alpha);
    }

    fn flip_horizontal(&mut self) {
        let w = self.width;
        let h = self.height;
        let ghost orig = self.pixels@;
        let mut out: Vec<u8> = Vec::new();
        let mut y: usize = 0;
        while y < h
            invariant
                0 <= y <= h,
                self.width == w,
                self.height == h,
                self.wf(),
                self.pixels@ == orig,
                out@.len() == 4 * (y * w),
                forall|i: int| 0 <= i < out@.len() ==> out@[i] == hflip_byte(orig, w as int, i),
            decreases h - y,
        {
            let mut x: usize = 0;
            while x < w
                invariant
                    0 <= y < h,
                    0 <= x <= w,
                    self.width == w,
                    self.height == h,
                    self.wf(),
                    self.pixels@ == orig,
                    out@.len() == 4 * (y * w + x),
                    forall|i: int| 0 <= i < out@.len() ==> out@[i] == hflip_byte(
                        orig,
                        w as int,
                        i,
                    ),
                decreases w - x,
            {
                proof {
                    assert(y * w + x < w * h && (y * w + (w - 1 - x)) * 4 + 3 < w * h * 4)
                        by (nonlinear_arith)
                        requires
                            0 <= x < w,
                            0 <= y < h,
                    ;
                }
                let src = (y * w + (w - 1 - x)) * 4;
                let p0 = self.pixels[src];
                let p1 = self.pixels[src + 1];
                let p2 = self.pixels[src + 2];
                let p3 = self.pixels[src + 3];
                out.push(p0);
                out.push(p1);
                out.push(p2);
                out.push(p3);
                proof {
                    let q = (y * w + x) as int;
                    let wi = w as int;
                    assert forall|b: int| 0 <= b < 4 implies #[trigger] hflip_byte(
                        orig,
                        wi,
                        4 * q + b,
                    ) == orig[4 * ((y as int) * wi + (wi - 1 - (x as int))) + b] by {
                        assert((4 * q + b) / 4 == q && (4 * q + b) % 4 == b && q / wi == y as int
                            && q % wi == x as int) by (nonlinear_arith)
                            requires
                                0 <= b < 4,
                                q == (y as int) * wi + (x as int),
                                0 <= (x as int) < wi,
                                0 <= (y as int),
                        ;
                    }
                    assert(out@.len() == 4 * (y * w + x) + 4);
                    assert(out@[4 * q] == p0 && out@[4 * q + 1] == p1 && out@[4 * q + 2] == p2
                        && out@[4 * q + 3] == p3);
                    assert forall|i: int| 0 <= i < out@.len() implies out@[i] == hflip_byte(
                        orig,
                        wi,
                        i,
                    ) by {
                        if i >= 4 * q {
                            let b = i - 4 * q;
                            assert(hflip_byte(orig, wi, 4 * q + b) == orig[4 * ((y as int) * wi + (
                            wi - 1 - (x as int))) + b]);
                        }
                    }
                }
                x = x + 1;
                proof {
                    assert(4 * ((y * w + x - 1) as int) + 4 == 4 * ((y as int) * (w as int)
                        + x as int));
                }
            }
            y = y + 1;
            proof {
                assert(4 * (((y - 1) * w + w) as int) == 4 * ((y as int) * (w as int)))
                    by (nonlinear_arith)
                    requires
                        1 <= y,
                ;
            }
        }
        proof {
            assert(4 * (h * w) == orig.len()) by (nonlinear_arith)
                requires
                    orig.len() == w * h * 4,
            ;
            assert(out@ =~= spec_hflip(orig, w as int));
        }
        self.pixels = out;
    }

    fn build(self) -> (t: Vec<u8>) {
        self.pixels
    }
}

} // verus!
