use image::DynamicImage;
use manga_tui::bookmarks::Bookmarks;
use manga_tui::cache::PageCache;
use manga_tui::tasks::{
    apply_task, check_search_debounce, first_chapter_page_url, page_fetch_step,
    page_preload_fetched, page_preload_probe, page_urls_fetched, resolve_page_fetch,
    search_completed, thumbnail_sweep_targets, Action, BackgroundTask, FetchStep, PendingSet,
};
use manga_tui::input::{handle_search_tab_input, Key};
use manga_tui::ui::App;

fn tiny_image() -> DynamicImage {
    DynamicImage::ImageRgb8(image::RgbImage::new(1, 1))
}

fn chapter(id: &str, external: Option<&str>) -> manga_tui::mangadex::Chapter {
    manga_tui::mangadex::Chapter {
        id: id.to_string(),
        chapter: "1".to_string(),
        title: "t".to_string(),
        volume: None,
        pages: 5,
        external_url: external.map(|u| u.to_string()),
    }
}

#[test]
fn pending_set_claims_each_key_once() {
    let mut pending = PendingSet::new();
    assert!(pending.begin("key"));
    // A second request for the same resource spawns no second task.
    assert!(!pending.begin("key"));
    assert!(pending.contains("key"));
    assert!(pending.begin("other"));
    pending.finish("key");
    assert!(!pending.contains("key"));
    assert!(pending.begin("key"));
}

#[test]
fn page_fetch_retries_with_linear_backoff() {
    assert!(matches!(page_fetch_step(0, None), FetchStep::RetryAfterMs(500)));
    assert!(matches!(page_fetch_step(1, None), FetchStep::RetryAfterMs(1000)));
    assert!(matches!(page_fetch_step(2, None), FetchStep::GiveUp));
    assert!(matches!(page_fetch_step(0, Some(tiny_image())), FetchStep::Deliver(_)));
    assert!(matches!(page_fetch_step(2, Some(tiny_image())), FetchStep::Deliver(_)));
}

#[test]
fn three_failures_emit_one_failure_event() {
    let ev = resolve_page_fetch(vec![None, None, None]);
    assert!(matches!(ev, BackgroundTask::PageImageLoadFailed));
    let ok = resolve_page_fetch(vec![None, Some(tiny_image()), None]);
    assert!(matches!(ok, BackgroundTask::PageImageLoaded { .. }));
}

fn preload_urls_of(acts: &[Action]) -> Vec<String> {
    acts.iter()
        .map(|a| match a {
            Action::PreloadPage { url } => url.clone(),
            _ => panic!("expected only page preloads"),
        })
        .collect()
}

#[test]
fn preload_window_advances_as_pages_complete() {
    let urls: Vec<String> = ["a", "b", "c", "d", "e"].iter().map(|s| s.to_string()).collect();
    let mut preloading = PendingSet::new();
    // At page 0 with a window of 3, pages b, c and d are fetched; e is not.
    let acts = manga_tui::tasks::preload_upcoming_pages(&urls, 0, &mut preloading);
    assert_eq!(preload_urls_of(&acts), vec!["b", "c", "d"]);
    // Once b completes, the frontier extends to e alone.
    preloading.finish("b");
    let acts2 = manga_tui::tasks::preload_upcoming_pages(&urls, 1, &mut preloading);
    assert_eq!(preload_urls_of(&acts2), vec!["e"]);
    // Nothing new completes, nothing new is scheduled.
    let acts3 = manga_tui::tasks::preload_upcoming_pages(&urls, 1, &mut preloading);
    assert!(acts3.is_empty());
}

#[test]
fn preloaded_event_extends_frontier_through_event_loop() {
    let mut app = App::new(Bookmarks::new());
    app.reader.page_urls = ["a", "b", "c", "d", "e"].iter().map(|s| s.to_string()).collect();
    let mut pending_covers = PendingSet::new();
    let mut preloading = PendingSet::new();
    let acts = manga_tui::tasks::preload_upcoming_pages(
        &app.reader.page_urls,
        0,
        &mut preloading,
    );
    assert_eq!(preload_urls_of(&acts), vec!["b", "c", "d"]);
    let follow = apply_task(
        &mut app,
        &mut pending_covers,
        &mut preloading,
        BackgroundTask::PagePreloaded { page_url: "b".to_string() },
    );
    assert_eq!(preload_urls_of(&follow), vec!["e"]);
}

#[test]
fn debounced_typing_searches_once() {
    let mut app = App::new(Bookmarks::new());
    app.tab = manga_tui::ui::Tab::Search;
    let mut pending_covers = PendingSet::new();
    // "o", "n", "e" within 300 ms.
    assert!(handle_search_tab_input(&mut app, Key::Char('o'), 0, &mut pending_covers).is_empty());
    assert!(handle_search_tab_input(&mut app, Key::Char('n'), 100, &mut pending_covers).is_empty());
    assert!(handle_search_tab_input(&mut app, Key::Char('e'), 200, &mut pending_covers).is_empty());
    // Not yet quiescent at 400 ms (last keystroke at 200).
    assert!(check_search_debounce(&mut app, 400).is_none());
    // Quiescent at 500 ms: exactly one search, for the whole word.
    match check_search_debounce(&mut app, 500) {
        Some(Action::Search { query }) => assert_eq!(query, "one"),
        other => panic!("expected one search, got {:?}", other.is_some()),
    }
    // No repeat dispatch afterwards.
    assert!(check_search_debounce(&mut app, 900).is_none());
}

#[test]
fn pausing_between_keys_searches_twice() {
    let mut app = App::new(Bookmarks::new());
    app.tab = manga_tui::ui::Tab::Search;
    let mut pending_covers = PendingSet::new();
    handle_search_tab_input(&mut app, Key::Char('o'), 0, &mut pending_covers);
    // More than 300 ms pass: "o" dispatches.
    match check_search_debounce(&mut app, 350) {
        Some(Action::Search { query }) => assert_eq!(query, "o"),
        _ => panic!("expected a search for \"o\""),
    }
    app.searching = false;  // its results came back
    handle_search_tab_input(&mut app, Key::Char('n'), 400, &mut pending_covers);
    match check_search_debounce(&mut app, 750) {
        Some(Action::Search { query }) => assert_eq!(query, "on"),
        _ => panic!("expected a search for \"on\""),
    }
}

#[test]
fn clearing_the_query_cancels_the_debounce() {
    let mut app = App::new(Bookmarks::new());
    app.tab = manga_tui::ui::Tab::Search;
    let mut pending_covers = PendingSet::new();
    handle_search_tab_input(&mut app, Key::Char('x'), 0, &mut pending_covers);
    handle_search_tab_input(&mut app, Key::Backspace, 10, &mut pending_covers);
    assert!(app.search_debounce.is_none());
    assert!(check_search_debounce(&mut app, 1000).is_none());
}

#[test]
fn thumbnail_sweep_skips_external_chapters() {
    let chapters = vec![
        chapter("c1", None),
        chapter("c2", Some("http://elsewhere")),
        chapter("c3", None),
    ];
    let ids = thumbnail_sweep_targets(&chapters);
    assert_eq!(ids, vec!["c1".to_string(), "c3".to_string()]);
}

#[test]
fn page_url_resolution_failure_is_visible_and_empty_is_failure() {
    let mut cache = PageCache::new();
    let ev = page_urls_fetched(&mut cache, "ch".to_string(), None);
    assert!(matches!(ev, BackgroundTask::PageUrlsLoadFailed));
    let ev2 = page_urls_fetched(&mut cache, "ch".to_string(), Some(Vec::new()));
    assert!(matches!(ev2, BackgroundTask::PageUrlsLoadFailed));
    assert!(cache.get_chapter_urls("ch").is_none());
    let ev3 = page_urls_fetched(
        &mut cache,
        "ch".to_string(),
        Some(vec!["u1".to_string(), "u2".to_string()]),
    );
    match ev3 {
        BackgroundTask::PageUrlsLoaded { urls } => {
            assert_eq!(urls, vec!["u1".to_string(), "u2".to_string()])
        },
        _ => panic!("expected the loaded event"),
    }
    assert_eq!(first_chapter_page_url(&cache, "ch"), Some("u1".to_string()));
    assert!(first_chapter_page_url(&cache, "other").is_none());
}

#[test]
fn search_results_event_fetches_first_covers() {
    let mut app = App::new(Bookmarks::new());
    let mut pending_covers = PendingSet::new();
    let mut preloading = PendingSet::new();
    let results: Vec<manga_tui::mangadex::Manga> = (0..8)
        .map(|i| manga_tui::mangadex::Manga {
            id: format!("m{}", i),
            title: format!("t{}", i),
            author: String::new(),
            artist: String::new(),
            status: "Ongoing".to_string(),
            description: String::new(),
            cover_url: format!("http://covers/{}", i),
        })
        .collect();
    let acts = apply_task(
        &mut app,
        &mut pending_covers,
        &mut preloading,
        BackgroundTask::SearchResults { results },
    );
    assert_eq!(acts.len(), 6);
    match &acts[0] {
        Action::FetchCover { manga_id, cover_url } => {
            assert_eq!(manga_id, "m0");
            assert_eq!(cover_url, "http://covers/0");
        },
        _ => panic!("expected a cover fetch"),
    }
    assert!(!app.searching);
    assert_eq!(app.search_results.len(), 8);
    assert_eq!(app.search_offset, 0);
}

#[test]
fn failure_events_set_retryable_errors() {
    let mut app = App::new(Bookmarks::new());
    let mut pending_covers = PendingSet::new();
    let mut preloading = PendingSet::new();
    apply_task(
        &mut app,
        &mut pending_covers,
        &mut preloading,
        BackgroundTask::PageUrlsLoadFailed,
    );
    assert_eq!(
        app.reader.error.as_deref(),
        Some("Failed to load chapter pages. Press 'r' to retry.")
    );
    apply_task(
        &mut app,
        &mut pending_covers,
        &mut preloading,
        BackgroundTask::PageImageLoadFailed,
    );
    assert_eq!(
        app.reader.error.as_deref(),
        Some("Failed to load page image. Press 'r' to retry.")
    );
    assert!(!app.reader.loading);
}

#[test]
fn search_errors_collapse_to_empty_results() {
    match search_completed(None) {
        BackgroundTask::SearchResults { results } => assert!(results.is_empty()),
        _ => panic!("a search always announces results"),
    }
    let found = vec![manga_tui::mangadex::Manga {
        id: "m1".to_string(),
        title: "t".to_string(),
        author: String::new(),
        artist: String::new(),
        status: "Ongoing".to_string(),
        description: String::new(),
        cover_url: String::new(),
    }];
    match search_completed(Some(found)) {
        BackgroundTask::SearchResults { results } => {
            assert_eq!(results.len(), 1);
            assert_eq!(results[0].id, "m1");
        }
        _ => panic!("a search always announces results"),
    }
}

#[test]
fn preload_emits_iff_cached_or_fetched() {
    let mut cache = PageCache::new();
    // Nothing cached: the probe asks for a fetch.
    assert!(page_preload_probe(&cache, "u1".to_string()).is_none());
    // A failed best-effort fetch stores nothing and emits nothing.
    let (plan, ev) = page_preload_fetched(&mut cache, "u1".to_string(), None);
    assert!(plan.deletions.is_empty());
    assert!(plan.write.is_none());
    assert!(ev.is_none());
    assert!(!cache.has_page("u1"));
    // A fetched page is stored and announced once.
    let (_plan, ev2) = page_preload_fetched(&mut cache, "u1".to_string(), Some(tiny_image()));
    match ev2 {
        Some(BackgroundTask::PagePreloaded { page_url }) => assert_eq!(page_url, "u1"),
        _ => panic!("expected the preload completion"),
    }
    // Now cached: the probe completes at once, without a fetch.
    match page_preload_probe(&cache, "u1".to_string()) {
        Some(BackgroundTask::PagePreloaded { page_url }) => assert_eq!(page_url, "u1"),
        _ => panic!("expected an immediate completion"),
    }
}
