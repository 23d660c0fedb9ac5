use qr_render::cache::FingerprintCache;
use qr_render::compose::{generate_qr_image, RenderError};
use qr_render::request::RenderRequest;
use qr_render::service::{cached_response, render_and_store};

fn req(content: &str, size: Option<u32>, fg: Option<&str>, bg: Option<&str>) -> RenderRequest {
    RenderRequest {
        content: String::from(content),
        size,
        fg_color: fg.map(String::from),
        bg_color: bg.map(String::from),
        logo_url: None,
    }
}

fn decode(bytes: &[u8]) -> image::RgbaImage {
    image::load_from_memory(bytes).expect("output must be a valid image").to_rgba8()
}

const BLACK: [u8; 4] = [0, 0, 0, 255];
const WHITE: [u8; 4] = [255, 255, 255, 255];

#[test]
fn plain_render_is_black_on_white() {
    let r = req("https://example.com", Some(256), None, None);
    let bytes = generate_qr_image(&r, 256, None).expect("render must succeed");
    let img = decode(&bytes);
    assert_eq!((img.width(), img.height()), (256, 256));
    let mut saw_black = false;
    let mut saw_white = false;
    for p in img.pixels() {
        if p.0 == BLACK {
            saw_black = true;
        } else if p.0 == WHITE {
            saw_white = true;
        } else {
            panic!("unexpected pixel {:?}", p.0);
        }
    }
    assert!(saw_black && saw_white, "a QR image uses both colors");
}

#[test]
fn colored_render_uses_only_the_color_pair() {
    let r = req("https://example.com", Some(256), Some("#FF0000"), Some("#00FF00"));
    let bytes = generate_qr_image(&r, 256, None).expect("render must succeed");
    let img = decode(&bytes);
    assert_eq!((img.width(), img.height()), (256, 256));
    let red = [255, 0, 0, 255];
    let green = [0, 255, 0, 255];
    for p in img.pixels() {
        assert!(p.0 == red || p.0 == green, "unexpected pixel {:?}", p.0);
    }
}

#[test]
fn malformed_colors_render_with_defaults() {
    let r = req("hello", Some(64), Some("not-a-color"), Some("#12345"));
    let bytes = generate_qr_image(&r, 64, None).expect("soft color failure must not abort");
    for p in decode(&bytes).pixels() {
        assert!(p.0 == BLACK || p.0 == WHITE, "unexpected pixel {:?}", p.0);
    }
}

#[test]
fn empty_content_is_refused() {
    let r = req("", Some(64), None, None);
    assert!(matches!(generate_qr_image(&r, 64, None), Err(RenderError::EmptyContent)));
}

#[test]
fn oversized_content_is_refused() {
    // Far beyond the byte capacity of the largest QR symbol.
    let huge = "x".repeat(5000);
    let r = req(&huge, Some(64), None, None);
    assert!(matches!(generate_qr_image(&r, 64, None), Err(RenderError::UnencodableContent)));
}

fn solid_png(w: u32, h: u32, rgba: [u8; 4]) -> Vec<u8> {
    let mut img = image::RgbaImage::new(w, h);
    for p in img.pixels_mut() {
        *p = image::Rgba(rgba);
    }
    let mut cur = std::io::Cursor::new(Vec::new());
    image::DynamicImage::ImageRgba8(img)
        .write_to(&mut cur, image::ImageFormat::Png)
        .expect("png encoding");
    cur.into_inner()
}

#[test]
fn logo_lands_in_safe_zone_and_nowhere_else() {
    let r = req("https://example.com", Some(64), None, None);
    let plain = generate_qr_image(&r, 64, None).expect("plain render");
    let logo = solid_png(10, 10, [255, 0, 0, 255]);
    let with_logo = generate_qr_image(&r, 64, Some(&logo)).expect("logo render");
    let plain_img = decode(&plain);
    let logo_img = decode(&with_logo);
    assert_eq!((logo_img.width(), logo_img.height()), (64, 64));
    // Zone is (24, 24, 16, 16); backdrop expands it by 4 on every side.
    let center = logo_img.get_pixel(31, 31).0;
    assert!(center[0] > 200 && center[1] < 60 && center[2] < 60, "center {:?}", center);
    // Just inside the backdrop but outside the logo: white.
    assert_eq!(logo_img.get_pixel(21, 21).0, WHITE);
    // Outside the backdrop everything matches the plain render.
    for y in 0..64u32 {
        for x in 0..64u32 {
            let in_backdrop = (20..44).contains(&x) && (20..44).contains(&y);
            if !in_backdrop {
                assert_eq!(logo_img.get_pixel(x, y), plain_img.get_pixel(x, y), "at {},{}", x, y);
            }
        }
    }
}

#[test]
fn undecodable_logo_is_omitted() {
    let r = req("https://example.com", Some(64), None, None);
    let plain = generate_qr_image(&r, 64, None).expect("plain render");
    let junk = vec![0u8, 1, 2, 3, 4, 5];
    let with_junk = generate_qr_image(&r, 64, Some(&junk)).expect("junk logo must fall back");
    assert_eq!(plain, with_junk);
}

#[test]
fn tiny_size_with_margin_overflow_stays_in_bounds() {
    let r = req("x", Some(16), None, None);
    let logo = solid_png(8, 8, [0, 0, 255, 255]);
    let bytes = generate_qr_image(&r, 16, Some(&logo)).expect("tiny render");
    let img = decode(&bytes);
    assert_eq!((img.width(), img.height()), (16, 16));
}

#[test]
fn transparent_logo_pixels_leave_backdrop_white() {
    let r = req("https://example.com", Some(64), None, None);
    let logo = solid_png(10, 10, [255, 0, 0, 0]);
    let bytes = generate_qr_image(&r, 64, Some(&logo)).expect("transparent logo render");
    let img = decode(&bytes);
    // Every pixel of the safe zone shows the white backdrop.
    for y in 24..40u32 {
        for x in 24..40u32 {
            assert_eq!(img.get_pixel(x, y).0, WHITE, "at {},{}", x, y);
        }
    }
}

#[test]
fn miss_render_store_then_hit() {
    let mut cache = FingerprintCache::new();
    let r = req("https://example.com", Some(256), None, None);
    assert_eq!(cached_response(&cache, &r, 256), None);
    let rendered = render_and_store(&mut cache, &r, 256, None).expect("render");
    assert_eq!(cached_response(&cache, &r, 256), Some(rendered.clone()));
    // A later request that differs only in logo_url hits the same entry.
    let with_logo_url = RenderRequest {
        logo_url: Some(String::from("https://example.com/logo.png")),
        ..req("https://example.com", Some(256), None, None)
    };
    assert_eq!(cached_response(&cache, &with_logo_url, 256), Some(rendered));
}

#[test]
fn render_errors_store_nothing() {
    let mut cache = FingerprintCache::new();
    let r = req("", Some(64), None, None);
    assert!(matches!(
        render_and_store(&mut cache, &r, 64, None),
        Err(RenderError::EmptyContent)
    ));
    assert_eq!(cached_response(&cache, &r, 64), None);
}
