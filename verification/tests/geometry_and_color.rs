use qr_render::zone::calculate_safe_zone;
use qr_render::color::{color_or_default, hex_to_rgba};
use qr_render::pixel::{blend_channel_exec, blend_px_exec, Rgba};

#[test]
fn safe_zone_512_is_centered_quarter() {
    assert_eq!(calculate_safe_zone(512), (192, 192, 128, 128));
}

#[test]
fn safe_zone_256() {
    assert_eq!(calculate_safe_zone(256), (96, 96, 64, 64));
}

#[test]
fn safe_zone_16_fits_inside() {
    let (x, y, w, h) = calculate_safe_zone(16);
    assert_eq!((x, y, w, h), (6, 6, 4, 4));
    assert!(x + w <= 16 && y + h <= 16);
}

#[test]
fn safe_zone_odd_size() {
    // 511 / 4 = 127, (511 - 127) / 2 = 192
    assert_eq!(calculate_safe_zone(511), (192, 192, 127, 127));
}

#[test]
fn hex_parses_valid_colors() {
    assert_eq!(hex_to_rgba("#FF0000"), Some(Rgba { r: 255, g: 0, b: 0, a: 255 }));
    assert_eq!(hex_to_rgba("#00FF00"), Some(Rgba { r: 0, g: 255, b: 0, a: 255 }));
    assert_eq!(hex_to_rgba("#0000ff"), Some(Rgba { r: 0, g: 0, b: 255, a: 255 }));
    assert_eq!(hex_to_rgba("#1a2B3c"), Some(Rgba { r: 0x1a, g: 0x2b, b: 0x3c, a: 255 }));
}

#[test]
fn hex_rejects_missing_hash() {
    assert_eq!(hex_to_rgba("FF00000"), None);
}

#[test]
fn hex_rejects_wrong_length() {
    assert_eq!(hex_to_rgba("#FF00"), None);
    assert_eq!(hex_to_rgba("#FF000000"), None);
    assert_eq!(hex_to_rgba(""), None);
}

#[test]
fn hex_rejects_non_hex_digits() {
    assert_eq!(hex_to_rgba("#GG0000"), None);
    assert_eq!(hex_to_rgba("#12345z"), None);
}

#[test]
fn malformed_color_falls_back_to_default() {
    let black = Rgba { r: 0, g: 0, b: 0, a: 255 };
    assert_eq!(color_or_default(&Some(String::from("oops")), black), black);
    assert_eq!(color_or_default(&None, black), black);
    let red = Rgba { r: 255, g: 0, b: 0, a: 255 };
    assert_eq!(color_or_default(&Some(String::from("#FF0000")), black), red);
}

#[test]
fn blend_arithmetic() {
    // Full alpha keeps the logo channel; zero alpha keeps the existing one.
    assert_eq!(blend_channel_exec(255, 0, 255), 0);
    assert_eq!(blend_channel_exec(255, 0, 0), 255);
    // Half alpha (128/255) of black over white: rounded nearest of
    // (127 * 255 + 128 * 0) / 255 = 127.0 -> 127.
    assert_eq!(blend_channel_exec(255, 0, 128), 127);
    let white = Rgba { r: 255, g: 255, b: 255, a: 255 };
    let red_half = Rgba { r: 255, g: 0, b: 0, a: 128 };
    let blended = blend_px_exec(white, red_half);
    assert_eq!(blended.a, 255);
    assert_eq!(blended.r, 255);
    assert_eq!(blended.g, 127);
    assert_eq!(blended.b, 127);
}
