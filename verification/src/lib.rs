//! Verified core of a QR-code rendering service: QR bitmap colorization,
//! logo safe-zone placement with alpha blending, PNG serialization through
//! the `image` crate, and a fingerprint-keyed byte cache backed by `moka`.

pub mod cache;
pub mod color;
pub mod compose;
pub mod imaging;
pub mod pixel;
pub mod request;
pub mod service;
pub mod zone;
