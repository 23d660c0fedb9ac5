//! Image composition: remapping the monochrome QR bitmap to a color pair,
//! painting the margin-padded backdrop, alpha-blending the logo into the
//! safe zone, and the end-to-end pixel pipeline.

use vstd::prelude::*;
use crate::color::{color_or_default, effective_color, opt_str_view};
use crate::imaging::{
    decode_rgba, decoded_image_of, encode_png, png_bytes_of, qr_encodable, qr_encodable_spec,
    qr_raw_of, qr_render_raw, resize_rgba, resized_of,
};
use crate::pixel::{
    blend_px, blend_px_exec, flatten_px, flatten_pixels, lemma_rowmajor_in_range,
    lemma_rowmajor_injective, opaque_black, opaque_white, rowmajor, unflatten_px,
    unflatten_pixels, PixelBuffer, Rgba,
};
use crate::request::RenderRequest;
use crate::zone::{calculate_safe_zone, safe_zone_size, safe_zone_start};

verus! {

/// White margin, in pixels, painted around the safe zone on every side.
pub const LOGO_MARGIN: u32 = 4;

/// A QR module is "on" at pixel index `i` when the red channel is zero.
pub open spec fn qr_on(raw: Seq<u8>, i: int) -> bool {
    raw[4 * i] == 0
}

/// ColorMapper's output: pixel `i` is the foreground color where the QR
/// module is on, the background color where it is off.
pub open spec fn mapped_pixels(raw: Seq<u8>, n: int, fg: Rgba, bg: Rgba) -> Seq<Rgba> {
    Seq::new(
        n as nat,
        |i: int|
            if qr_on(raw, i) {
                fg
            } else {
                bg
            },
    )
}

/// Remaps a monochrome RGBA bitmap to the foreground/background color pair.
pub fn map_qr_colors(raw: &Vec<u8>, size: u32, fg: Rgba, bg: Rgba) -> (r: PixelBuffer)
    requires
        raw@.len() == 4 * (size as int) * (size as int),
    ensures
        r.wf(),
        r.size == size,
        r.pixels@ == mapped_pixels(raw@, (size as int) * (size as int), fg, bg),
{
    let m: usize = raw.len();
    let n: usize = m / 4;
    proof {
        assert(m / 4 == (size as int) * (size as int)) by (nonlinear_arith)
            requires
                m == 4 * (size as int) * (size as int),
        ;
    }
    let mut px: Vec<Rgba> = Vec::new();
    let mut i: usize = 0;
    assert(px@ =~= mapped_pixels(raw@, n as int, fg, bg).take(0));
    while i < n
        invariant
            i <= n,
            m == raw@.len(),
            n == raw@.len() / 4,
            n == (size as int) * (size as int),
            px@ == mapped_pixels(raw@, n as int, fg, bg).take(i as int),
        decreases n - i,
    {
        assert(4 * (i as int) < m);
        let c = if raw[4 * i] == 0 {
            fg
        } else {
            bg
        };
        px.push(c);
        i = i + 1;
        assert(px@ =~= mapped_pixels(raw@, n as int, fg, bg).take(i as int));
    }
    assert(px@ =~= mapped_pixels(raw@, n as int, fg, bg));
    PixelBuffer::from_pixels(size, px)
}

/// Every pixel ColorMapper produces is one of the two given colors.
pub proof fn lemma_mapped_two_colors(raw: Seq<u8>, n: int, fg: Rgba, bg: Rgba)
    ensures
        forall|i: int|
            0 <= i < n ==> #[trigger] mapped_pixels(raw, n, fg, bg)[i] == fg || mapped_pixels(
                raw,
                n,
                fg,
                bg,
            )[i] == bg,
{
}

/// The safe zone lies inside the image on both axes.
pub proof fn lemma_zone_bounds(size: u32)
    ensures
        0 <= safe_zone_start(size),
        0 <= safe_zone_size(size),
        safe_zone_start(size) + safe_zone_size(size) <= size as int,
{
}

/// Low edge (both axes) of the backdrop: the safe zone grown by the margin,
/// clamped at zero.
pub open spec fn backdrop_lo(size: u32) -> int {
    if safe_zone_start(size) >= LOGO_MARGIN as int {
        safe_zone_start(size) - LOGO_MARGIN as int
    } else {
        0
    }
}

/// High edge (exclusive, both axes) of the backdrop: the safe zone grown by
/// the margin, clamped at the image's edge.
pub open spec fn backdrop_hi(size: u32) -> int {
    let e = safe_zone_start(size) + safe_zone_size(size) + LOGO_MARGIN as int;
    if e <= size as int {
        e
    } else {
        size as int
    }
}

/// The margin-padded, clamped backdrop rectangle around the safe zone.
pub open spec fn in_backdrop(size: u32, x: int, y: int) -> bool {
    backdrop_lo(size) <= x < backdrop_hi(size) && backdrop_lo(size) <= y < backdrop_hi(size)
}

/// The safe zone itself: where logo pixels land.
pub open spec fn in_logo_zone(size: u32, x: int, y: int) -> bool {
    safe_zone_start(size) <= x < safe_zone_start(size) + safe_zone_size(size)
        && safe_zone_start(size) <= y < safe_zone_start(size) + safe_zone_size(size)
}

/// The safe zone is contained in the backdrop rectangle.
pub proof fn lemma_logo_zone_in_backdrop(size: u32, x: int, y: int)
    requires
        in_logo_zone(size, x, y),
    ensures
        in_backdrop(size, x, y),
{
    lemma_zone_bounds(size);
}

/// A pixel after the backdrop pass: white inside the backdrop rectangle,
/// untouched elsewhere.
pub open spec fn backdrop_px(orig: Rgba, size: u32, x: int, y: int) -> Rgba {
    if in_backdrop(size, x, y) {
        opaque_white()
    } else {
        orig
    }
}

/// Row-major index into the fitted logo of the logo pixel that lands on
/// image coordinate `(x, y)`.
pub open spec fn logo_index(size: u32, x: int, y: int) -> int {
    (y - safe_zone_start(size)) * safe_zone_size(size) + (x - safe_zone_start(size))
}

/// A pixel after compositing: a logo pixel with non-zero alpha is blended
/// over the white backdrop; a transparent logo pixel lets the backdrop show;
/// outside the backdrop the pixel is untouched.
pub open spec fn composited_px(orig: Rgba, logo: Seq<Rgba>, size: u32, x: int, y: int) -> Rgba {
    if in_logo_zone(size, x, y) && logo[logo_index(size, x, y)].a > 0 {
        blend_px(opaque_white(), logo[logo_index(size, x, y)])
    } else {
        backdrop_px(orig, size, x, y)
    }
}

/// Compositing never touches a pixel outside the (clamped) backdrop
/// rectangle, whatever the logo holds.
pub proof fn lemma_composite_outside_backdrop_unchanged(
    orig: Rgba,
    logo: Seq<Rgba>,
    size: u32,
    x: int,
    y: int,
)
    requires
        !in_backdrop(size, x, y),
    ensures
        composited_px(orig, logo, size, x, y) == orig,
{
    if in_logo_zone(size, x, y) {
        lemma_logo_zone_in_backdrop(size, x, y);
    }
}

/// The logo pixels after the exact-fit resize to the safe zone.
pub open spec fn fitted_logo_px(logo_size: u32, raw: Seq<u8>, size: u32) -> Seq<Rgba> {
    unflatten_px(
        resized_of(
            logo_size,
            logo_size,
            raw,
            safe_zone_size(size) as u32,
            safe_zone_size(size) as u32,
        ),
    )
}

/// Resizes the logo to fill the safe zone exactly, paints the white
/// margin-padded backdrop (clamped to the image), and alpha-blends every
/// non-transparent logo pixel onto it; every write is inside the image.
#[verifier::loop_isolation(false)]
pub fn composite_logo(buf: &mut PixelBuffer, logo_size: u32, logo_raw: &Vec<u8>)
    requires
        old(buf).wf(),
        logo_raw@.len() == 4 * (logo_size as int) * (logo_size as int),
        1 <= logo_size,
        1 <= safe_zone_size(old(buf).size),
        old(buf).size as int + 8 <= u32::MAX as int,
    ensures
        final(buf).wf(),
        final(buf).size == old(buf).size,
        forall|x: int, y: int|
            0 <= x < old(buf).size && 0 <= y < old(buf).size ==> final(buf).px(x, y)
                == composited_px(
                old(buf).px(x, y),
                fitted_logo_px(logo_size, logo_raw@, old(buf).size),
                old(buf).size,
                x,
                y,
            ),
{
    let ghost buf0 = *buf;
    let size = buf.size;
    let bn: usize = buf.pixels.len();
    assert(bn as int == (size as int) * (size as int));
    let (zx, zy, zw, zh) = calculate_safe_zone(size);
    proof {
        lemma_zone_bounds(size);
        assert(4 * (zw as int) * (zh as int) <= (size as int) * (size as int)) by (nonlinear_arith)
            requires
                0 <= zw,
                zw == zh,
                4 * (zw as int) <= size as int,
        ;
    }
    let fitted: Vec<u8> = resize_rgba(logo_size, logo_size, logo_raw, zw, zh);
    let logo_px: Vec<Rgba> = unflatten_pixels(&fitted);
    let ghost logo_seq = fitted_logo_px(logo_size, logo_raw@, size);
    proof {
        assert(zw == safe_zone_size(size) as u32);
        assert(zh == safe_zone_size(size) as u32);
        assert(logo_px@ == logo_seq);
        assert((4 * (zw as int) * (zw as int)) / 4 == (zw as int) * (zw as int))
            by (nonlinear_arith);
        assert(logo_seq.len() == (zw as int) * (zw as int));
    }
    let ln: usize = logo_px.len();
    assert(ln as int == (zw as int) * (zw as int));
    let white = Rgba { r: 255, g: 255, b: 255, a: 255 };
    // Backdrop pass: paint the margin-padded rectangle white, clamped to the
    // image bounds.
    let lo = if zx >= LOGO_MARGIN {
        zx - LOGO_MARGIN
    } else {
        0
    };
    let hi_raw = zx + zw + LOGO_MARGIN;
    let hi = if hi_raw <= size {
        hi_raw
    } else {
        size
    };
    assert(lo as int == backdrop_lo(size));
    assert(hi as int == backdrop_hi(size));
    let mut y: u32 = lo;
    while y < hi
        invariant
            lo <= y <= hi,
            lo as int == backdrop_lo(size),
            hi as int == backdrop_hi(size),
            hi <= size,
            buf.wf(),
            buf.size == size,
            forall|x2: int, y2: int|
                0 <= x2 < size && 0 <= y2 < size ==> #[trigger] buf.px(x2, y2) == (
                if in_backdrop(size, x2, y2) && y2 < y {
                    opaque_white()
                } else {
                    buf0.px(x2, y2)
                }),
        decreases hi - y,
    {
        let mut x: u32 = lo;
        while x < hi
            invariant
                lo <= x <= hi,
                lo <= y < hi,
                lo as int == backdrop_lo(size),
                hi as int == backdrop_hi(size),
                hi <= size,
                buf.wf(),
                buf.size == size,
                forall|x2: int, y2: int|
                    0 <= x2 < size && 0 <= y2 < size ==> #[trigger] buf.px(x2, y2) == (
                    if in_backdrop(size, x2, y2) && (y2 < y || (y2 == y && x2 < x)) {
                        opaque_white()
                    } else {
                        buf0.px(x2, y2)
                    }),
            decreases hi - x,
        {
            buf.set_px(x, y, white);
            x = x + 1;
            proof {
                assert forall|x2: int, y2: int|
                    0 <= x2 < size && 0 <= y2 < size implies #[trigger] buf.px(x2, y2) == (
                    if in_backdrop(size, x2, y2) && (y2 < y || (y2 == y && x2 < x)) {
                        opaque_white()
                    } else {
                        buf0.px(x2, y2)
                    }) by {
                    if x2 == x as int - 1 && y2 == y as int {
                        assert(in_backdrop(size, x2, y2));
                    }
                }
            }
        }
        y = y + 1;
    }
    assert(forall|x2: int, y2: int|
        0 <= x2 < size && 0 <= y2 < size ==> #[trigger] buf.px(x2, y2) == backdrop_px(
            buf0.px(x2, y2),
            size,
            x2,
            y2,
        ));
    let ghost buf1 = *buf;
    // Blend pass: walk the fitted logo row-major and blend each
    // non-transparent pixel onto the backdrop, bounds-checked.
    let mut ly: u32 = 0;
    while ly < zh
        invariant
            ly <= zh,
            zw == zh,
            zw as int == safe_zone_size(size),
            zx as int == safe_zone_start(size),
            zy as int == safe_zone_start(size),
            zx as int + zw as int <= size as int,
            size as int + 8 <= u32::MAX as int,
            logo_px@ == logo_seq,
            logo_seq.len() == (zw as int) * (zw as int),
            buf.wf(),
            buf.size == size,
            forall|x2: int, y2: int|
                0 <= x2 < size && 0 <= y2 < size ==> #[trigger] buf.px(x2, y2) == (
                if in_logo_zone(size, x2, y2) && logo_index(size, x2, y2) < ly as int * zw as int
                    && logo_seq[logo_index(size, x2, y2)].a > 0 {
                    blend_px(opaque_white(), logo_seq[logo_index(size, x2, y2)])
                } else {
                    buf1.px(x2, y2)
                }),
        decreases zh - ly,
    {
        let mut lx: u32 = 0;
        while lx < zw
            invariant
                lx <= zw,
                ly < zh,
                zw == zh,
                zw as int == safe_zone_size(size),
                zx as int == safe_zone_start(size),
                zy as int == safe_zone_start(size),
                zx as int + zw as int <= size as int,
                size as int + 8 <= u32::MAX as int,
                logo_px@ == logo_seq,
                logo_seq.len() == (zw as int) * (zw as int),
                buf.wf(),
                buf.size == size,
                forall|x2: int, y2: int|
                    0 <= x2 < size && 0 <= y2 < size ==> #[trigger] buf.px(x2, y2) == (
                    if in_logo_zone(size, x2, y2) && logo_index(size, x2, y2) < ly as int
                        * zw as int + lx as int && logo_seq[logo_index(size, x2, y2)].a > 0 {
                        blend_px(opaque_white(), logo_seq[logo_index(size, x2, y2)])
                    } else {
                        buf1.px(x2, y2)
                    }),
            decreases zw - lx,
        {
            proof {
                lemma_rowmajor_in_range(zw as int, lx as int, ly as int);
            }
            assert((ly as int) * (zw as int) + (lx as int) < (ln as int));
            let li: usize = (ly as usize) * (zw as usize) + (lx as usize);
            let p = logo_px[li];
            let tx = zx + lx;
            let ty = zy + ly;
            assert(in_logo_zone(size, tx as int, ty as int));
            assert(logo_index(size, tx as int, ty as int) == ly as int * zw as int + lx as int);
            proof {
                lemma_logo_zone_in_backdrop(size, tx as int, ty as int);
            }
            if p.a > 0 {
                if tx < size && ty < size {
                    let e = buf.get_px(tx, ty);
                    assert(e == opaque_white());
                    let blended = blend_px_exec(e, p);
                    buf.set_px(tx, ty, blended);
                }
            }
            lx = lx + 1;
            proof {
                assert forall|x2: int, y2: int|
                    0 <= x2 < size && 0 <= y2 < size implies #[trigger] buf.px(x2, y2) == (
                    if in_logo_zone(size, x2, y2) && logo_index(size, x2, y2) < ly as int
                        * zw as int + lx as int && logo_seq[logo_index(size, x2, y2)].a > 0 {
                        blend_px(opaque_white(), logo_seq[logo_index(size, x2, y2)])
                    } else {
                        buf1.px(x2, y2)
                    }) by {
                    if in_logo_zone(size, x2, y2) && logo_index(size, x2, y2) == ly as int
                        * zw as int + (lx as int - 1) {
                        lemma_rowmajor_injective(
                            zw as int,
                            x2 - safe_zone_start(size),
                            y2 - safe_zone_start(size),
                            lx as int - 1,
                            ly as int,
                        );
                        assert(x2 == tx as int && y2 == ty as int);
                    }
                }
            }
        }
        ly = ly + 1;
        assert(ly as int * zw as int == (ly as int - 1) * zw as int + zw as int) by (nonlinear_arith);
    }
    proof {
        assert forall|x2: int, y2: int|
            0 <= x2 < size && 0 <= y2 < size implies #[trigger] buf.px(x2, y2) == composited_px(
            buf0.px(x2, y2),
            logo_seq,
            size,
            x2,
            y2,
        ) by {
            if in_logo_zone(size, x2, y2) {
                lemma_rowmajor_in_range(
                    zw as int,
                    x2 - safe_zone_start(size),
                    y2 - safe_zone_start(size),
                );
                lemma_logo_zone_in_backdrop(size, x2, y2);
            }
        }
    }
}

/// LogoFetcher's pure half: decode fetched bytes and resample them to a
/// quarter of the QR size. `None` exactly on undecodable bytes, degenerate
/// decoded dimensions, or a size too small to hold a logo.
pub fn prepare_logo(bytes: &Vec<u8>, size: u32) -> (r: Option<(u32, Vec<u8>)>)
    requires
        4 * (size as int) * (size as int) <= usize::MAX,
    ensures
        r is Some <==> (decoded_image_of(bytes@) matches Some(t) && 1 <= t.0 && 1 <= t.1 && 1
            <= safe_zone_size(size)),
        r matches Some(p) ==> p.0 as int == safe_zone_size(size) && p.1@.len() == 4 * (
        p.0 as int) * (p.0 as int),
        r matches Some(p) ==> (decoded_image_of(bytes@) matches Some(t) && p.1@ == resized_of(
            t.0,
            t.1,
            t.2,
            p.0,
            p.0,
        )),
{
    let q = size / 4;
    if q < 1 {
        return None;
    }
    match decode_rgba(bytes) {
        Some((w, h, raw)) => {
            if w < 1 || h < 1 {
                return None;
            }
            proof {
                assert(4 * (q as int) * (q as int) <= 4 * (size as int) * (size as int))
                    by (nonlinear_arith)
                    requires
                        0 <= q,
                        q as int <= size as int,
                ;
            }
            let fitted = resize_rgba(w, h, &raw, q, q);
            Some((q, fitted))
        },
        None => None,
    }
}

/// Why a render failed. Color and logo problems never appear here: they
/// fall back softly. Only missing input, unencodable content, and an
/// encoder failure abort a render.
#[derive(Clone, Copy, Debug, PartialEq, Eq, Structural)]
pub enum RenderError {
    EmptyContent,
    UnencodableContent,
    EncodingFailed,
}

/// View of an optional borrowed byte buffer.
pub open spec fn opt_vec_view(o: Option<&Vec<u8>>) -> Option<Seq<u8>> {
    match o {
        Some(v) => Some(v@),
        None => None,
    }
}

/// The colorized QR pixels before any logo: foreground (default opaque
/// black) where a module is on, background (default opaque white) where off.
pub open spec fn base_pixels(
    content: Seq<char>,
    size: u32,
    fgo: Option<Seq<char>>,
    bgo: Option<Seq<char>>,
) -> Seq<Rgba> {
    mapped_pixels(
        qr_raw_of(content, size),
        (size as int) * (size as int),
        effective_color(fgo, opaque_black()),
        effective_color(bgo, opaque_white()),
    )
}

/// The final pixels of a render: the colorized QR, with the logo composited
/// into the safe zone when the logo bytes decode and the zone is non-empty.
pub open spec fn rendered_pixels(
    content: Seq<char>,
    size: u32,
    fgo: Option<Seq<char>>,
    bgo: Option<Seq<char>>,
    logo: Option<Seq<u8>>,
) -> Seq<Rgba> {
    let base = base_pixels(content, size, fgo, bgo);
    match logo {
        Some(bytes) => match decoded_image_of(bytes) {
            Some(t) => if 1 <= t.0 && 1 <= t.1 && 1 <= safe_zone_size(size) {
                let q = safe_zone_size(size) as u32;
                let fetched = resized_of(t.0, t.1, t.2, q, q);
                let logo_px = fitted_logo_px(q, fetched, size);
                Seq::new(
                    ((size as int) * (size as int)) as nat,
                    |i: int|
                        composited_px(base[i], logo_px, size, i % (size as int), i / (
                        size as int)),
                )
            } else {
                base
            },
            None => base,
        },
        None => base,
    }
}

/// Every pixel of a render without a logo is the resolved foreground or the
/// resolved background color — with no colors given, opaque black or opaque
/// white; with a valid color pair, exactly those two colors.
pub proof fn lemma_render_two_colors(
    content: Seq<char>,
    size: u32,
    fgo: Option<Seq<char>>,
    bgo: Option<Seq<char>>,
)
    ensures
        forall|i: int|
            0 <= i < rendered_pixels(content, size, fgo, bgo, None).len()
                ==> #[trigger] rendered_pixels(content, size, fgo, bgo, None)[i] == effective_color(
                fgo,
                opaque_black(),
            ) || rendered_pixels(content, size, fgo, bgo, None)[i] == effective_color(
                bgo,
                opaque_white(),
            ),
{
    lemma_mapped_two_colors(
        qr_raw_of(content, size),
        (size as int) * (size as int),
        effective_color(fgo, opaque_black()),
        effective_color(bgo, opaque_white()),
    );
}

/// Whatever logo bytes arrive, every pixel outside the margin-padded
/// backdrop rectangle of a render equals the corresponding pixel of the
/// plain render: compositing never writes outside that clamped region.
pub proof fn lemma_logo_preserves_outside(
    content: Seq<char>,
    size: u32,
    fgo: Option<Seq<char>>,
    bgo: Option<Seq<char>>,
    logo: Seq<u8>,
    x: int,
    y: int,
)
    requires
        1 <= size,
        0 <= x < size,
        0 <= y < size,
        !in_backdrop(size, x, y),
    ensures
        rendered_pixels(content, size, fgo, bgo, Some(logo))[rowmajor(size as int, x, y)]
            == base_pixels(content, size, fgo, bgo)[rowmajor(size as int, x, y)],
{
    lemma_rowmajor_in_range(size as int, x, y);
    let i = rowmajor(size as int, x, y);
    assert(i % (size as int) == x && i / (size as int) == y) by (nonlinear_arith)
        requires
            0 <= x < size as int,
            0 <= y < size as int,
            i == y * (size as int) + x,
    ;
    let base = base_pixels(content, size, fgo, bgo);
    match decoded_image_of(logo) {
        Some(t) => {
            if 1 <= t.0 && 1 <= t.1 && 1 <= safe_zone_size(size) {
                let q = safe_zone_size(size) as u32;
                let fetched = resized_of(t.0, t.1, t.2, q, q);
                let logo_px = fitted_logo_px(q, fetched, size);
                lemma_composite_outside_backdrop_unchanged(base[i], logo_px, size, x, y);
            }
        },
        None => {},
    }
}

/// Renders the complete image for a request: QR generation, colorization,
/// optional logo compositing, PNG serialization. Empty content is refused;
/// content the QR coder cannot hold is refused; a logo that cannot be
/// decoded is omitted; only an encoder failure aborts an otherwise valid
/// render.
pub fn generate_qr_image(req: &RenderRequest, size: u32, logo_bytes: Option<&Vec<u8>>) -> (r:
    Result<Vec<u8>, RenderError>)
    requires
        1 <= size,
        4 * (size as int) * (size as int) <= usize::MAX,
        size as int + 8 <= u32::MAX as int,
    ensures
        req.content@.len() == 0 <==> r == Err::<Vec<u8>, RenderError>(RenderError::EmptyContent),
        req.content@.len() > 0 ==> ((r == Err::<Vec<u8>, RenderError>(RenderError::UnencodableContent))
            <==> !qr_encodable_spec(req.content@)),
        r matches Ok(v) ==> v@ == png_bytes_of(
            size,
            flatten_px(
                rendered_pixels(
                    req.content@,
                    size,
                    opt_str_view(req.fg_color),
                    opt_str_view(req.bg_color),
                    opt_vec_view(logo_bytes),
                ),
            ),
        ),
        req.content@.len() > 0 && qr_encodable_spec(req.content@) ==> r is Ok,
{
    if req.content.as_str().is_empty() {
        return Err(RenderError::EmptyContent);
    }
    if !qr_encodable(req.content.as_str()) {
        return Err(RenderError::UnencodableContent);
    }
    let raw = qr_render_raw(req.content.as_str(), size);
    let fg = color_or_default(&req.fg_color, Rgba { r: 0, g: 0, b: 0, a: 255 });
    let bg = color_or_default(&req.bg_color, Rgba { r: 255, g: 255, b: 255, a: 255 });
    let mut buf = map_qr_colors(&raw, size, fg, bg);
    let ghost base = base_pixels(
        req.content@,
        size,
        opt_str_view(req.fg_color),
        opt_str_view(req.bg_color),
    );
    assert(buf.pixels@ == base);
    if let Some(b) = logo_bytes {
        if let Some((q, fitted)) = prepare_logo(b, size) {
            composite_logo(&mut buf, q, &fitted);
            proof {
                let n = (size as int) * (size as int);
                let rendered = rendered_pixels(
                    req.content@,
                    size,
                    opt_str_view(req.fg_color),
                    opt_str_view(req.bg_color),
                    opt_vec_view(logo_bytes),
                );
                assert(rendered.len() == n);
                assert(buf.pixels@.len() == n);
                assert forall|i: int| 0 <= i < n implies buf.pixels@[i] == rendered[i] by {
                    let x = i % (size as int);
                    let y = i / (size as int);
                    assert(0 <= x < size as int && 0 <= y < size as int && rowmajor(
                        size as int,
                        x,
                        y,
                    ) == i) by (nonlinear_arith)
                        requires
                            0 <= i < n,
                            n == (size as int) * (size as int),
                            1 <= size as int,
                            x == i % (size as int),
                            y == i / (size as int),
                    ;
                    assert(buf.px(x, y) == buf.pixels@[i]);
                }
                assert(buf.pixels@ =~= rendered);
            }
        }
    }
    assert(buf.size == size && buf.wf());
    assert(buf.pixels@.len() == (size as int) * (size as int));
    let ghost rendered = rendered_pixels(
        req.content@,
        size,
        opt_str_view(req.fg_color),
        opt_str_view(req.bg_color),
        opt_vec_view(logo_bytes),
    );
    assert(buf.pixels@ == rendered);
    let flat = flatten_pixels(&buf.pixels);
    proof {
        assert(4 * ((size as int) * (size as int)) == 4 * (size as int) * (size as int))
            by (nonlinear_arith);
    }
    match encode_png(size, &flat) {
        Some(v) => Ok(v),
        None => Err(RenderError::EncodingFailed),
    }
}

} // verus!
