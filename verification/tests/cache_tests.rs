use image::DynamicImage;
use manga_tui::cache::{md5_hash, url_to_filename, PageCache, MAX_MEMORY_PAGES};

fn img(shade: u8) -> DynamicImage {
    let mut buf = image::RgbImage::new(2, 2);
    for p in buf.pixels_mut() {
        *p = image::Rgb([shade, shade, shade]);
    }
    DynamicImage::ImageRgb8(buf)
}

#[test]
fn md5_hash_exact_values() {
    // 'a' is 97; a single character hashes to its code point.
    assert_eq!(md5_hash("a"), 97);
    // "ab": 97 + 31 * 98 = 3135.
    assert_eq!(md5_hash("ab"), 3135);
    assert_eq!(md5_hash(""), 0);
}

#[test]
fn filename_is_lowercase_hex_of_hash() {
    // 3135 is 0xc3f.
    assert_eq!(url_to_filename("ab"), "c3f");
    assert_eq!(url_to_filename(""), "0");
}

#[test]
fn get_after_put_returns_the_image() {
    let mut cache = PageCache::new();
    let picture = img(7);
    let _plan = cache.insert_page("http://x/p1".to_string(), picture.clone());
    let got = cache.get_page("http://x/p1");
    assert_eq!(got, Some(picture));
    assert!(cache.get_page("http://x/p2").is_none());
}

#[test]
fn memory_bound_evicts_least_recently_used() {
    let mut cache = PageCache::new();
    for i in 0..MAX_MEMORY_PAGES {
        cache.insert_memory(format!("u{}", i), img((i % 250) as u8));
    }
    // Touch u0 so that u1 becomes the least recently used entry.
    assert!(cache.get_page("u0").is_some());
    cache.insert_memory("extra".to_string(), img(9));
    assert!(cache.get_page("u0").is_some());
    assert!(cache.get_page("u1").is_none());
    assert!(cache.get_page("extra").is_some());
}

#[test]
fn write_through_keeps_evicted_pages_on_disk() {
    let mut cache = PageCache::new();
    let plan = cache.insert_page("http://x/first".to_string(), img(1));
    assert!(plan.write.is_some());
    for i in 0..MAX_MEMORY_PAGES {
        cache.insert_memory(format!("filler{}", i), img(2));
    }
    // Gone from memory, still known on disk: no new fetch is needed.
    assert!(cache.get_page("http://x/first").is_none());
    assert!(cache.has_page("http://x/first"));
    assert!(cache.disk_cache_exists("http://x/first"));
    assert!(!cache.has_page("http://x/never-seen"));
}

#[test]
fn cleanup_settles_at_eighty_percent_of_budget() {
    let mut cache = PageCache::new();
    let mb: u64 = 1024 * 1024;
    let entries: Vec<(String, u64)> = (0..6).map(|i| (format!("f{}", i), 100 * mb)).collect();
    cache.load_disk_index(entries);
    // 600 MB exceeds the 500 MB budget; oldest files go until at most
    // 400 MB (80%) remain.
    let deletions = cache.cleanup_old_cache();
    assert_eq!(deletions, vec!["f0".to_string(), "f1".to_string()]);
    // A second sweep finds usage within budget and removes nothing.
    let again = cache.cleanup_old_cache();
    assert!(again.is_empty());
}

#[test]
fn cleanup_within_budget_removes_nothing() {
    let mut cache = PageCache::new();
    cache.load_disk_index(vec![("f0".to_string(), 1024)]);
    assert!(cache.cleanup_old_cache().is_empty());
}

#[test]
fn chapter_urls_round_trip_and_replace() {
    let mut cache = PageCache::new();
    assert!(cache.get_chapter_urls("ch1").is_none());
    cache.insert_chapter_urls("ch1".to_string(), vec!["a".to_string(), "b".to_string()]);
    assert_eq!(
        cache.get_chapter_urls("ch1"),
        Some(vec!["a".to_string(), "b".to_string()])
    );
    cache.insert_chapter_urls("ch1".to_string(), vec!["c".to_string()]);
    assert_eq!(cache.get_chapter_urls("ch1"), Some(vec!["c".to_string()]));
    assert!(cache.get_chapter_urls("ch2").is_none());
}
