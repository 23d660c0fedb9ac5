//! Render requests and the cache fingerprint they canonicalize to.
//! The fingerprint deliberately excludes `logo_url`: two requests that
//! differ only there share one cache entry.

use vstd::prelude::*;
use crate::color::opt_str_view;

verus! {

/// Pixel dimension used when a request does not name one.
pub const DEFAULT_SIZE: u32 = 512;

/// The parameters of one render. Immutable once constructed.
pub struct RenderRequest {
    pub content: String,
    pub size: Option<u32>,
    pub fg_color: Option<String>,
    pub bg_color: Option<String>,
    pub logo_url: Option<String>,
}

/// The size a request renders at: the given one, or the default.
pub open spec fn effective_size_spec(size: Option<u32>) -> u32 {
    match size {
        Some(s) => s,
        None => DEFAULT_SIZE,
    }
}

impl RenderRequest {
    /// The size this request renders at.
    pub fn effective_size(&self) -> (r: u32)
        ensures
            r == effective_size_spec(self.size),
    {
        match self.size {
            Some(s) => s,
            None => DEFAULT_SIZE,
        }
    }
}

/// Cache key: the parameters that determine the rendered bytes of a plain
/// QR image. `logo_url` is intentionally not part of it.
#[derive(Clone, Hash, PartialEq, Eq)]
pub struct Fingerprint {
    pub content: String,
    pub size: u32,
    pub fg_color: Option<String>,
    pub bg_color: Option<String>,
}

/// Mathematical view of a fingerprint.
pub type FpView = (Seq<char>, u32, Option<Seq<char>>, Option<Seq<char>>);

/// The view of a fingerprint: its fields as sequences of characters.
pub open spec fn fp_view(fp: Fingerprint) -> FpView {
    (fp.content@, fp.size, opt_str_view(fp.fg_color), opt_str_view(fp.bg_color))
}

/// The fingerprint a request canonicalizes to at a given size.
pub open spec fn fingerprint_view_of(req: RenderRequest, size: u32) -> FpView {
    (req.content@, size, opt_str_view(req.fg_color), opt_str_view(req.bg_color))
}

/// Clones an optional color string.
fn clone_opt_string(o: &Option<String>) -> (r: Option<String>)
    ensures
        opt_str_view(r) == opt_str_view(*o),
{
    match o {
        Some(s) => Some(s.clone()),
        None => None,
    }
}

/// Canonicalizes a request into its cache fingerprint. Deterministic in
/// `content`, `size`, `fg_color` and `bg_color`; `logo_url` plays no part.
pub fn fingerprint_of(req: &RenderRequest, size: u32) -> (r: Fingerprint)
    ensures
        fp_view(r) == fingerprint_view_of(*req, size),
{
    Fingerprint {
        content: req.content.clone(),
        size,
        fg_color: clone_opt_string(&req.fg_color),
        bg_color: clone_opt_string(&req.bg_color),
    }
}

/// Two requests that differ only in `logo_url` (their content, size and
/// colors agree) canonicalize to the same fingerprint, so a cached plain
/// render answers a later request that asked for a logo. Intentional.
pub proof fn lemma_fingerprint_ignores_logo(a: RenderRequest, b: RenderRequest, size: u32)
    requires
        a.content@ == b.content@,
        opt_str_view(a.fg_color) == opt_str_view(b.fg_color),
        opt_str_view(a.bg_color) == opt_str_view(b.bg_color),
    ensures
        fingerprint_view_of(a, size) == fingerprint_view_of(b, size),
{
}

} // verus!
