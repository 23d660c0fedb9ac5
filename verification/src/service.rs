//! Request handling around the cache: canonicalize to a fingerprint, look
//! the fingerprint up, and on a miss render, store and return. The caller
//! (the HTTP layer) fetches logo bytes between the lookup and the render,
//! so a hit never costs a network round trip.

use vstd::prelude::*;
use crate::cache::FingerprintCache;
use crate::compose::{generate_qr_image, opt_vec_view, rendered_pixels, RenderError};
use crate::color::opt_str_view;
use crate::imaging::{png_bytes_of, qr_encodable_spec};
use crate::pixel::flatten_px;
use crate::request::{fingerprint_of, fingerprint_view_of, RenderRequest};

verus! {

/// The PNG bytes a request renders to, as the pipeline's contracts name them.
pub open spec fn response_bytes_spec(req: RenderRequest, size: u32, logo: Option<Seq<u8>>) -> Seq<
    u8,
> {
    png_bytes_of(
        size,
        flatten_px(
            rendered_pixels(
                req.content@,
                size,
                opt_str_view(req.fg_color),
                opt_str_view(req.bg_color),
                logo,
            ),
        ),
    )
}

/// Cache half of request handling: the bytes previously stored under this
/// request's fingerprint at this size, if any entry is live.
pub fn cached_response(cache: &FingerprintCache, req: &RenderRequest, size: u32) -> (r: Option<
    Vec<u8>,
>)
    ensures
        r matches Some(v) ==> cache.contents().contains_key(fingerprint_view_of(*req, size)) && v@
            == cache.contents()[fingerprint_view_of(*req, size)],
{
    let fp = fingerprint_of(req, size);
    cache.lookup(&fp)
}

/// Miss half of request handling: render the image, store the encoded bytes
/// under the request's fingerprint, and return them. Rendering errors are
/// returned unchanged and store nothing.
pub fn render_and_store(
    cache: &mut FingerprintCache,
    req: &RenderRequest,
    size: u32,
    logo_bytes: Option<&Vec<u8>>,
) -> (r: Result<Vec<u8>, RenderError>)
    requires
        1 <= size,
        4 * (size as int) * (size as int) <= usize::MAX,
        size as int + 8 <= u32::MAX as int,
    ensures
        req.content@.len() == 0 <==> r == Err::<Vec<u8>, RenderError>(RenderError::EmptyContent),
        req.content@.len() > 0 ==> ((r == Err::<Vec<u8>, RenderError>(
            RenderError::UnencodableContent,
        )) <==> !qr_encodable_spec(req.content@)),
        r matches Ok(v) ==> v@ == response_bytes_spec(*req, size, opt_vec_view(logo_bytes)),
        r matches Ok(v) ==> (final(cache).contents().contains_key(fingerprint_view_of(*req, size))
            ==> final(cache).contents()[fingerprint_view_of(*req, size)] == v@),
        req.content@.len() > 0 && qr_encodable_spec(req.content@) ==> r is Ok,
        r is Err ==> *final(cache) == *old(cache),
{
    match generate_qr_image(req, size, logo_bytes) {
        Ok(bytes) => {
            let fp = fingerprint_of(req, size);
            let stored = bytes.clone();
            assert(stored@ =~= bytes@);
            cache.insert(fp, stored);
            Ok(bytes)
        },
        Err(e) => Err(e),
    }
}

} // verus!
