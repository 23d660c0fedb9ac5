//! Trusted boundary to the `qrc` and `image` crates: QR symbol rendering,
//! image decoding, resampling, and PNG serialization. Each result that is a
//! pure function of the arguments is given a name that the pipeline's
//! contracts are stated over.

use vstd::prelude::*;

verus! {

/// Whether `qrc` can encode this content as a QR symbol.
pub uninterp spec fn qr_encodable_spec(content: Seq<char>) -> bool;

/// The row-major RGBA bytes of the QR symbol `qrc` renders for this content
/// at this width.
pub uninterp spec fn qr_raw_of(content: Seq<char>, width: u32) -> Seq<u8>;

/// What `image::load_from_memory` decodes these bytes to: `None` on
/// undecodable input, otherwise width, height and row-major RGBA bytes.
pub uninterp spec fn decoded_image_of(bytes: Seq<u8>) -> Option<(u32, u32, Seq<u8>)>;

/// The row-major RGBA bytes that Lanczos3 resampling of a `w × h` image to
/// `nw × nh` produces.
pub uninterp spec fn resized_of(w: u32, h: u32, raw: Seq<u8>, nw: u32, nh: u32) -> Seq<u8>;

/// The PNG serialization of a `size × size` RGBA pixel buffer.
pub uninterp spec fn png_bytes_of(size: u32, raw: Seq<u8>) -> Seq<u8>;

/// Relies on `qrc::QRCode::try_to_qrcode`: tells whether the content can be
/// encoded as a QR symbol; encoding succeeds or fails on the content alone.
#[verifier::external_body]
pub(crate) fn qr_encodable(content: &str) -> (r: bool)
    ensures
        r == qr_encodable_spec(content@),
{
    qrc::QRCode::from_string(content.to_string()).try_to_qrcode().is_ok()
}

/// Relies on `qrc::QRCode::to_png`: renders the QR symbol as a
/// `width × width` RGBA buffer. `to_png` panics on unencodable content,
/// hence the precondition.
#[verifier::external_body]
pub(crate) fn qr_render_raw(content: &str, width: u32) -> (r: Vec<u8>)
    requires
        qr_encodable_spec(content@),
        4 * (width as int) * (width as int) <= usize::MAX,
    ensures
        r@ == qr_raw_of(content@, width),
        r@.len() == 4 * (width as int) * (width as int),
{
    qrc::QRCode::from_string(content.to_string()).to_png(width).into_raw()
}

/// Relies on `image::load_from_memory` (and `DynamicImage::to_rgba8` to read
/// the result out): decodes the bytes into dimensions and row-major RGBA
/// bytes, a function of the bytes alone; undecodable input gives `None`.
#[verifier::external_body]
pub(crate) fn decode_rgba(bytes: &Vec<u8>) -> (r: Option<(u32, u32, Vec<u8>)>)
    ensures
        r is Some <==> decoded_image_of(bytes@) is Some,
        r matches Some(t) ==> decoded_image_of(bytes@) == Some((t.0, t.1, t.2@)) && t.2@.len() == 4
            * (t.0 as int) * (t.1 as int),
{
    match image::load_from_memory(bytes.as_slice()) {
        Ok(img) => {
            let rgba = img.to_rgba8();
            let (w, h) = (rgba.width(), rgba.height());
            Some((w, h, rgba.into_raw()))
        },
        Err(_) => None,
    }
}

/// Relies on `image::imageops::resize` with the Lanczos3 filter: produces a
/// buffer of exactly the requested dimensions from the input pixels alone.
#[verifier::external_body]
pub(crate) fn resize_rgba(w: u32, h: u32, raw: &Vec<u8>, nw: u32, nh: u32) -> (r: Vec<u8>)
    requires
        raw@.len() == 4 * (w as int) * (h as int),
        1 <= w,
        1 <= h,
        1 <= nw,
        1 <= nh,
        4 * (nw as int) * (nh as int) <= usize::MAX,
    ensures
        r@ == resized_of(w, h, raw@, nw, nh),
        r@.len() == 4 * (nw as int) * (nh as int),
{
    let img: image::RgbaImage = image::ImageBuffer::from_raw(w, h, raw.clone()).expect(
        "buffer length matches the dimensions",
    );
    image::imageops::resize(&img, nw, nh, image::imageops::FilterType::Lanczos3).into_raw()
}

/// Relies on `image::ImageBuffer::write_to` with the PNG format: serializes
/// the pixels deterministically. For a positive size and an exact-length
/// RGBA buffer the encoder cannot fail — it errors only on zero dimensions
/// or on writer I/O, and the writer here is an in-memory cursor — so success
/// is promised; only the degenerate zero-size image yields `None`.
#[verifier::external_body]
pub(crate) fn encode_png(size: u32, raw: &Vec<u8>) -> (r: Option<Vec<u8>>)
    requires
        raw@.len() == 4 * (size as int) * (size as int),
    ensures
        r matches Some(v) ==> v@ == png_bytes_of(size, raw@),
        1 <= size ==> r is Some,
{
    let img: image::RgbaImage = match image::ImageBuffer::from_raw(size, size, raw.clone()) {
        Some(i) => i,
        None => {
            return None;
        },
    };
    let mut cur = std::io::Cursor::new(Vec::new());
    match img.write_to(&mut cur, image::ImageFormat::Png) {
        Ok(()) => Some(cur.into_inner()),
        Err(_) => None,
    }
}

} // verus!
