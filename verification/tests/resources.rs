use mdrender::images::{image_tooltip, ImageHandle, ResourceCache};
use mdrender::platform::{register_default_viewer, RegistrationError};

#[test]
fn tooltip_carries_raw_url() {
    let url = "https://example.com/pic.png".to_string();
    let with_alt = image_tooltip(&"a chart".to_string(), &url);
    assert_eq!(with_alt, "a chart (https://example.com/pic.png)");
    let bare = image_tooltip(&String::new(), &url);
    assert_eq!(bare, "https://example.com/pic.png");
}

#[test]
fn failed_fetch_cached_as_placeholder_and_not_refetched() {
    // The fetch itself is the caller's: on a miss it runs once and stores
    // what it got — here a placeholder standing for a failed fetch.  The
    // second request is served from the cache without another fetch.
    let mut cache = ResourceCache::new();
    let url = "https://example.com/broken.png".to_string();
    let mut fetches: u32 = 0;
    let handle = match cache.lookup(&url) {
        Some(h) => h,
        None => {
            fetches += 1;
            let h = ImageHandle { id: 7, placeholder: true };
            cache.insert(url.clone(), h);
            h
        },
    };
    assert!(handle.placeholder);
    assert_eq!(fetches, 1);
    let again = match cache.lookup(&url) {
        Some(h) => h,
        None => {
            fetches += 1;
            let h = ImageHandle { id: 8, placeholder: true };
            cache.insert(url.clone(), h);
            h
        },
    };
    assert_eq!(fetches, 1);
    assert_eq!(again, handle);
}

#[test]
fn cache_keeps_urls_apart() {
    let mut cache = ResourceCache::new();
    let a = "https://example.com/a.png".to_string();
    let b = "https://example.com/b.png".to_string();
    cache.insert(a.clone(), ImageHandle { id: 1, placeholder: false });
    cache.insert(b.clone(), ImageHandle { id: 2, placeholder: false });
    assert_eq!(cache.lookup(&a).unwrap().id, 1);
    assert_eq!(cache.lookup(&b).unwrap().id, 2);
    assert!(cache.lookup(&"https://example.com/c.png".to_string()).is_none());
}

#[test]
fn registration_reports_unsupported() {
    assert_eq!(register_default_viewer(), Err(RegistrationError::Unsupported));
}
