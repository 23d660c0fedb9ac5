use qr_render::cache::FingerprintCache;
use qr_render::request::{fingerprint_of, Fingerprint, RenderRequest};

fn fp(content: &str) -> Fingerprint {
    Fingerprint { content: String::from(content), size: 512, fg_color: None, bg_color: None }
}

#[test]
fn insert_then_lookup_returns_same_bytes() {
    let mut cache = FingerprintCache::new();
    let bytes = vec![1u8, 2, 3, 4, 5];
    cache.insert(fp("hello"), bytes.clone());
    assert_eq!(cache.lookup(&fp("hello")), Some(bytes));
}

#[test]
fn lookup_of_absent_fingerprint_is_none() {
    let cache = FingerprintCache::new();
    assert_eq!(cache.lookup(&fp("never inserted")), None);
}

#[test]
fn entry_expires_after_time_to_live() {
    // One-millisecond expirations; wait well past them.
    let mut cache = FingerprintCache::with_policy(1, 1, 10);
    cache.insert(fp("short-lived"), vec![9u8]);
    let start = std::time::Instant::now();
    while start.elapsed() < std::time::Duration::from_millis(50) {}
    assert_eq!(cache.lookup(&fp("short-lived")), None);
}

#[test]
fn capacity_is_bounded_at_thousand_entries() {
    let mut cache = FingerprintCache::new();
    for i in 0..1001u32 {
        cache.insert(fp(&format!("content-{}", i)), vec![i as u8]);
    }
    cache.run_pending_tasks();
    let mut live = 0u32;
    for i in 0..1001u32 {
        if cache.lookup(&fp(&format!("content-{}", i))).is_some() {
            live += 1;
        }
    }
    assert!(live <= 1000, "cache held {} entries", live);
}

#[test]
fn fingerprint_ignores_logo_url() {
    let with_logo = RenderRequest {
        content: String::from("https://example.com"),
        size: Some(256),
        fg_color: Some(String::from("#FF0000")),
        bg_color: None,
        logo_url: Some(String::from("https://example.com/logo.png")),
    };
    let without_logo = RenderRequest {
        content: String::from("https://example.com"),
        size: Some(256),
        fg_color: Some(String::from("#FF0000")),
        bg_color: None,
        logo_url: None,
    };
    assert!(fingerprint_of(&with_logo, 256) == fingerprint_of(&without_logo, 256));
}

#[test]
fn fingerprint_distinguishes_other_fields() {
    let a = RenderRequest {
        content: String::from("a"),
        size: None,
        fg_color: None,
        bg_color: None,
        logo_url: None,
    };
    let b = RenderRequest {
        content: String::from("b"),
        size: None,
        fg_color: None,
        bg_color: None,
        logo_url: None,
    };
    assert!(fingerprint_of(&a, 512) != fingerprint_of(&b, 512));
    assert!(fingerprint_of(&a, 512) != fingerprint_of(&a, 256));
}

#[test]
fn effective_size_defaults() {
    let a = RenderRequest {
        content: String::from("a"),
        size: None,
        fg_color: None,
        bg_color: None,
        logo_url: None,
    };
    assert_eq!(a.effective_size(), 512);
    let b = RenderRequest { size: Some(64), ..a };
    assert_eq!(b.effective_size(), 64);
}
