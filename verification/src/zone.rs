//! Safe-zone geometry: the centered square of a QR image that a logo overlay
//! may occupy without destroying scannability.

use vstd::prelude::*;

verus! {

/// Linear dimension of the safe zone: a quarter of the QR image's size.
pub open spec fn safe_zone_size(qr_size: u32) -> int {
    qr_size as int / 4
}

/// Starting coordinate (same on both axes) that centers the safe zone.
pub open spec fn safe_zone_start(qr_size: u32) -> int {
    (qr_size as int - safe_zone_size(qr_size)) / 2
}

/// Computes the centered square region `(x, y, width, height)` of a
/// `qr_size × qr_size` image that is safe for a logo overlay: the zone's
/// width and height are `qr_size / 4` and the zone is centered on both axes.
pub fn calculate_safe_zone(qr_size: u32) -> (r: (u32, u32, u32, u32))
    ensures
        r.2 as int == safe_zone_size(qr_size),
        r.3 as int == safe_zone_size(qr_size),
        r.0 as int == safe_zone_start(qr_size),
        r.1 as int == safe_zone_start(qr_size),
        r.0 as int + r.2 as int <= qr_size as int,
        r.1 as int + r.3 as int <= qr_size as int,
{
    let safe_size = qr_size / 4;
    let start_x = (qr_size - safe_size) / 2;
    let start_y = (qr_size - safe_size) / 2;
    (start_x, start_y, safe_size, safe_size)
}

} // verus!
