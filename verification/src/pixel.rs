//! RGBA pixels, the square pixel buffer that composition mutates, and the
//! integer alpha-blend arithmetic.

use vstd::prelude::*;

verus! {

/// One RGBA pixel, one byte per channel.
#[derive(Clone, Copy, PartialEq, Eq, Structural, Debug)]
pub struct Rgba {
    pub r: u8,
    pub g: u8,
    pub b: u8,
    pub a: u8,
}

/// Default foreground of a QR module that is "on": opaque black.
pub open spec fn opaque_black() -> Rgba {
    Rgba { r: 0, g: 0, b: 0, a: 255 }
}

/// Default background of a QR module that is "off": opaque white.
pub open spec fn opaque_white() -> Rgba {
    Rgba { r: 255, g: 255, b: 255, a: 255 }
}

/// Blend of one channel: `(1 - a) * e + a * p` with `a` read as `a / 255`,
/// computed exactly over the integers and rounded to the nearest value.
pub open spec fn blend_channel(e: u8, p: u8, a: u8) -> u8 {
    (((255 - a as int) * e as int + a as int * p as int + 127) / 255) as u8
}

/// Alpha blend of logo pixel `p` over existing pixel `e`; the result is
/// forced fully opaque.
pub open spec fn blend_px(e: Rgba, p: Rgba) -> Rgba {
    Rgba {
        r: blend_channel(e.r, p.r, p.a),
        g: blend_channel(e.g, p.g, p.a),
        b: blend_channel(e.b, p.b, p.a),
        a: 255,
    }
}

/// Executable counterpart of `blend_channel`.
pub fn blend_channel_exec(e: u8, p: u8, a: u8) -> (r: u8)
    ensures
        r == blend_channel(e, p, a),
{
    assert((255 - a as int) * (e as int) + (a as int) * (p as int) <= 255 * 255)
        by (nonlinear_arith)
        requires e <= 255 && a <= 255 && p <= 255,
    ;
    assert((255 - a as int) * (e as int) >= 0 && (a as int) * (p as int) >= 0)
        by (nonlinear_arith)
        requires e <= 255 && a <= 255 && p <= 255,
    ;
    let num: u32 = (255 - a as u32) * (e as u32) + (a as u32) * (p as u32) + 127;
    (num / 255) as u8
}

/// Executable counterpart of `blend_px`.
pub fn blend_px_exec(e: Rgba, p: Rgba) -> (r: Rgba)
    ensures
        r == blend_px(e, p),
{
    Rgba {
        r: blend_channel_exec(e.r, p.r, p.a),
        g: blend_channel_exec(e.g, p.g, p.a),
        b: blend_channel_exec(e.b, p.b, p.a),
        a: 255,
    }
}

/// Pixels laid out row-major, four bytes per pixel in `r, g, b, a` order.
pub open spec fn flatten_px(s: Seq<Rgba>) -> Seq<u8> {
    Seq::new(
        4 * s.len(),
        |i: int|
            {
                let p = s[i / 4];
                if i % 4 == 0 {
                    p.r
                } else if i % 4 == 1 {
                    p.g
                } else if i % 4 == 2 {
                    p.b
                } else {
                    p.a
                }
            },
    )
}

/// Inverse reading of `flatten_px`: groups of four bytes become pixels;
/// a trailing group shorter than four bytes is dropped.
pub open spec fn unflatten_px(raw: Seq<u8>) -> Seq<Rgba> {
    Seq::new(
        raw.len() / 4,
        |i: int| Rgba { r: raw[4 * i], g: raw[4 * i + 1], b: raw[4 * i + 2], a: raw[4 * i + 3] },
    )
}

/// Serializes pixels into the row-major RGBA byte layout.
pub fn flatten_pixels(v: &Vec<Rgba>) -> (r: Vec<u8>)
    ensures
        r@ == flatten_px(v@),
{
    let mut out: Vec<u8> = Vec::new();
    let mut i: usize = 0;
    while i < v.len()
        invariant
            i <= v.len(),
            out@ == flatten_px(v@.take(i as int)),
        decreases v.len() - i,
    {
        let p = v[i];
        out.push(p.r);
        out.push(p.g);
        out.push(p.b);
        out.push(p.a);
        i = i + 1;
        assert(out@ =~= flatten_px(v@.take(i as int)));
    }
    assert(v@.take(v@.len() as int) =~= v@);
    out
}

/// Reads a row-major RGBA byte layout back into pixels.
pub fn unflatten_pixels(raw: &Vec<u8>) -> (r: Vec<Rgba>)
    ensures
        r@ == unflatten_px(raw@),
{
    let n: usize = raw.len() / 4;
    let mut out: Vec<Rgba> = Vec::new();
    let mut i: usize = 0;
    while i < n
        invariant
            i <= n,
            n == raw@.len() / 4,
            out@ == unflatten_px(raw@).take(i as int),
        decreases n - i,
    {
        let m: usize = raw.len();
        assert(raw@.len() == 4 * (raw@.len() / 4) + raw@.len() % 4);
        assert(4 * (i as int) + 3 < m);
        let p = Rgba { r: raw[4 * i], g: raw[4 * i + 1], b: raw[4 * i + 2], a: raw[4 * i + 3] };
        out.push(p);
        i = i + 1;
        assert(out@ =~= unflatten_px(raw@).take(i as int));
    }
    assert(unflatten_px(raw@).take(n as int) =~= unflatten_px(raw@));
    out
}

/// A square grid of RGBA pixels, `size` pixels on each side, row-major.
/// `wf()` is its invariant: the buffer holds exactly `size * size` pixels.
pub struct PixelBuffer {
    pub size: u32,
    pub pixels: Vec<Rgba>,
}

/// Row-major index of coordinate `(x, y)` in a square grid of side `size`.
pub open spec fn rowmajor(size: int, x: int, y: int) -> int {
    y * size + x
}

/// A row-major index of an in-range coordinate is itself in range.
pub proof fn lemma_rowmajor_in_range(size: int, x: int, y: int)
    requires
        0 <= x < size,
        0 <= y < size,
    ensures
        0 <= rowmajor(size, x, y) < size * size,
{
    assert(0 <= y * size + x < size * size) by (nonlinear_arith)
        requires 0 <= x < size && 0 <= y < size,
    ;
}

/// Distinct in-range coordinates have distinct row-major indices.
pub proof fn lemma_rowmajor_injective(size: int, x1: int, y1: int, x2: int, y2: int)
    requires
        0 <= x1 < size,
        0 <= y1 < size,
        0 <= x2 < size,
        0 <= y2 < size,
        rowmajor(size, x1, y1) == rowmajor(size, x2, y2),
    ensures
        x1 == x2 && y1 == y2,
{
    assert(y1 * size + x1 == y2 * size + x2 ==> x1 == x2 && y1 == y2) by (nonlinear_arith)
        requires 0 <= x1 < size && 0 <= y1 < size && 0 <= x2 < size && 0 <= y2 < size,
    ;
}

impl PixelBuffer {
    /// The invariant of every buffer the pipeline handles.
    pub open spec fn wf(self) -> bool {
        self.pixels@.len() == self.size as int * self.size as int
    }

    /// The pixel at coordinate `(x, y)`.
    pub open spec fn px(self, x: int, y: int) -> Rgba {
        self.pixels@[rowmajor(self.size as int, x, y)]
    }

    /// Builds a `size × size` buffer from its row-major pixels.
    pub fn from_pixels(size: u32, pixels: Vec<Rgba>) -> (r: PixelBuffer)
        requires
            pixels@.len() == size as int * size as int,
        ensures
            r.wf(),
            r.size == size,
            r.pixels == pixels,
    {
        PixelBuffer { size, pixels }
    }

    /// Reads the pixel at `(x, y)`.
    pub fn get_px(&self, x: u32, y: u32) -> (r: Rgba)
        requires
            self.wf(),
            x < self.size,
            y < self.size,
        ensures
            r == self.px(x as int, y as int),
    {
        proof {
            lemma_rowmajor_in_range(self.size as int, x as int, y as int);
        }
        let n: usize = self.pixels.len();
        assert(rowmajor(self.size as int, x as int, y as int) < n);
        self.pixels[(y as usize) * (self.size as usize) + (x as usize)]
    }

    /// Overwrites the pixel at `(x, y)`; every other pixel keeps its value.
    pub fn set_px(&mut self, x: u32, y: u32, c: Rgba)
        requires
            old(self).wf(),
            x < old(self).size,
            y < old(self).size,
        ensures
            final(self).wf(),
            final(self).size == old(self).size,
            final(self).pixels@ == old(self).pixels@.update(
                rowmajor(old(self).size as int, x as int, y as int),
                c,
            ),
            final(self).px(x as int, y as int) == c,
            forall|x2: int, y2: int|
                0 <= x2 < old(self).size && 0 <= y2 < old(self).size && !(x2 == x as int && y2
                    == y as int) ==> final(self).px(x2, y2) == old(self).px(x2, y2),
    {
        proof {
            lemma_rowmajor_in_range(self.size as int, x as int, y as int);
        }
        let n: usize = self.pixels.len();
        assert(rowmajor(self.size as int, x as int, y as int) < n);
        let idx: usize = (y as usize) * (self.size as usize) + (x as usize);
        self.pixels.set(idx, c);
        proof {
            assert forall|x2: int, y2: int|
                0 <= x2 < self.size && 0 <= y2 < self.size && !(x2 == x as int && y2
                    == y as int) implies self.px(x2, y2) == old(self).px(x2, y2) by {
                lemma_rowmajor_in_range(self.size as int, x2, y2);
                if rowmajor(self.size as int, x2, y2) == rowmajor(
                    self.size as int,
                    x as int,
                    y as int,
                ) {
                    lemma_rowmajor_injective(self.size as int, x2, y2, x as int, y as int);
                }
            }
        }
    }
}

} // verus!
