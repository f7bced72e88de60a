use manga_tui::bookmarks::Bookmarks;
use manga_tui::input::{
    handle_detail_input, handle_home_input, handle_reader_input, Key,
};
use manga_tui::mangadex::{Chapter, Manga};
use manga_tui::tasks::{Action, PendingSet};
use manga_tui::ui::{App, Focus, Screen, Tab};

fn manga(id: &str) -> Manga {
    Manga {
        id: id.to_string(),
        title: "t".to_string(),
        author: String::new(),
        artist: String::new(),
        status: "Ongoing".to_string(),
        description: String::new(),
        cover_url: format!("http://covers/{}", id),
    }
}

fn chapter(id: &str, external: Option<&str>) -> Chapter {
    Chapter {
        id: id.to_string(),
        chapter: "1".to_string(),
        title: "c".to_string(),
        volume: None,
        pages: 3,
        external_url: external.map(|u| u.to_string()),
    }
}

#[test]
fn home_focus_cycles_and_enter_opens() {
    let mut app = App::new(Bookmarks::new());
    app.recently_updated = vec![manga("m1"), manga("m2")];
    let mut pending = PendingSet::new();

    handle_home_input(&mut app, Key::Tab, 0, &mut pending);
    assert!(matches!(app.focus, Focus::Recent));
    handle_home_input(&mut app, Key::Down, 0, &mut pending);
    assert!(matches!(app.focus, Focus::Popular));
    handle_home_input(&mut app, Key::Up, 0, &mut pending);
    assert!(matches!(app.focus, Focus::Recent));

    let acts = handle_home_input(&mut app, Key::Enter, 0, &mut pending);
    assert!(matches!(app.view, Screen::MangaDetail));
    assert_eq!(app.selected_manga.as_ref().map(|m| m.id.as_str()), Some("m1"));
    assert_eq!(acts.len(), 1);
    match &acts[0] {
        Action::FetchChapters { manga_id } => assert_eq!(manga_id, "m1"),
        _ => panic!("expected a chapter fetch"),
    }
}

#[test]
fn scrolling_right_prefetches_covers_once() {
    let mut app = App::new(Bookmarks::new());
    app.recently_updated = (0..12).map(|i| manga(&format!("m{}", i))).collect();
    app.focus = Focus::Recent;
    let mut pending = PendingSet::new();

    let acts = handle_home_input(&mut app, Key::Right, 0, &mut pending);
    assert_eq!(app.recent_offset, 1);
    // Eight covers from the new offset, none loaded or pending yet.
    assert_eq!(acts.len(), 8);
    // Scrolling again fetches only the one cover newly in the window.
    let acts2 = handle_home_input(&mut app, Key::Right, 0, &mut pending);
    assert_eq!(app.recent_offset, 2);
    assert_eq!(acts2.len(), 1);
    match &acts2[0] {
        Action::FetchCover { manga_id, .. } => assert_eq!(manga_id, "m9"),
        _ => panic!("expected a cover fetch"),
    }
}

#[test]
fn header_arrows_switch_tabs() {
    let mut app = App::new(Bookmarks::new());
    let mut pending = PendingSet::new();
    handle_home_input(&mut app, Key::Right, 0, &mut pending);
    assert!(matches!(app.tab, Tab::Bookmarks));
    handle_home_input(&mut app, Key::Right, 0, &mut pending);
    assert!(matches!(app.tab, Tab::Search));
    handle_home_input(&mut app, Key::Right, 0, &mut pending);
    assert!(matches!(app.tab, Tab::Home));
    handle_home_input(&mut app, Key::Left, 0, &mut pending);
    assert!(matches!(app.tab, Tab::Search));
}

#[test]
fn detail_enter_opens_reader_or_browser() {
    let mut app = App::new(Bookmarks::new());
    app.open_manga(manga("m"));
    app.chapters = vec![chapter("c1", None), chapter("c2", Some("http://elsewhere/c2"))];

    let acts = handle_detail_input(&mut app, Key::Enter);
    assert!(matches!(app.view, Screen::Reader));
    assert_eq!(acts.len(), 1);
    match &acts[0] {
        Action::FetchPageUrls { chapter_id } => assert_eq!(chapter_id, "c1"),
        _ => panic!("expected a page-URL fetch"),
    }

    // Back on the detail screen, an external chapter opens outside and
    // changes nothing.
    app.go_back();
    app.chapter_selected = 1;
    let acts2 = handle_detail_input(&mut app, Key::Enter);
    assert!(matches!(app.view, Screen::MangaDetail));
    assert_eq!(acts2.len(), 1);
    match &acts2[0] {
        Action::OpenExternal { url } => assert_eq!(url, "http://elsewhere/c2"),
        _ => panic!("expected an external open"),
    }
}

#[test]
fn detail_grid_movement_requests_thumbnails() {
    let mut app = App::new(Bookmarks::new());
    app.open_manga(manga("m"));
    app.chapters = vec![chapter("c1", None), chapter("c2", None), chapter("c3", None)];
    app.chapter_grid_cols = 2;

    let acts = handle_detail_input(&mut app, Key::Right);
    assert_eq!(app.chapter_selected, 1);
    assert_eq!(acts.len(), 1);
    match &acts[0] {
        Action::FetchChapterThumbnail { chapter_id } => assert_eq!(chapter_id, "c2"),
        _ => panic!("expected a thumbnail fetch"),
    }
    // Moving past the end is a no-op.
    app.chapter_selected = 2;
    let acts2 = handle_detail_input(&mut app, Key::Right);
    assert_eq!(app.chapter_selected, 2);
    assert!(acts2.is_empty());
    // Up moves a full row.
    let _ = handle_detail_input(&mut app, Key::Up);
    assert_eq!(app.chapter_selected, 0);
}

#[test]
fn reader_retry_refetches_what_failed() {
    let mut app = App::new(Bookmarks::new());
    app.open_manga(manga("m"));
    app.chapters = vec![chapter("c1", None)];
    app.open_reader(0);
    let mut preloading = PendingSet::new();

    // Without pages yet, retry re-resolves the page URLs.
    app.set_page_load_error("err".to_string());
    let acts = handle_reader_input(&mut app, Key::Char('r'), &mut preloading);
    assert!(app.reader.loading);
    assert!(app.reader.error.is_none());
    assert_eq!(acts.len(), 1);
    assert!(matches!(&acts[0], Action::FetchPageUrls { .. }));

    // With pages, retry refetches the current page.
    app.reader.page_urls = vec!["p0".to_string(), "p1".to_string()];
    app.set_page_load_error("err".to_string());
    let acts2 = handle_reader_input(&mut app, Key::Char('r'), &mut preloading);
    assert_eq!(acts2.len(), 1);
    match &acts2[0] {
        Action::FetchPageImage { url } => assert_eq!(url, "p0"),
        _ => panic!("expected a page fetch"),
    }
    // Without an error, 'r' does nothing.
    let acts3 = handle_reader_input(&mut app, Key::Char('r'), &mut preloading);
    assert!(acts3.is_empty());
}

#[test]
fn reader_page_turn_fetches_and_preloads() {
    let mut app = App::new(Bookmarks::new());
    app.open_manga(manga("m"));
    app.chapters = vec![chapter("c1", None)];
    app.open_reader(0);
    app.reader.page_urls = ["p0", "p1", "p2", "p3", "p4", "p5"]
        .iter()
        .map(|s| s.to_string())
        .collect();
    let mut preloading = PendingSet::new();

    let acts = handle_reader_input(&mut app, Key::Right, &mut preloading);
    assert_eq!(app.reader.current_page, 1);
    assert_eq!(acts.len(), 4);
    match &acts[0] {
        Action::FetchPageImage { url } => assert_eq!(url, "p1"),
        _ => panic!("expected the page fetch first"),
    }
    let preload_urls: Vec<&str> = acts[1..]
        .iter()
        .map(|a| match a {
            Action::PreloadPage { url } => url.as_str(),
            _ => panic!("expected preloads after the fetch"),
        })
        .collect();
    assert_eq!(preload_urls, vec!["p2", "p3", "p4"]);

    // Turning back does not preload.
    let acts2 = handle_reader_input(&mut app, Key::Left, &mut preloading);
    assert_eq!(app.reader.current_page, 0);
    assert_eq!(acts2.len(), 1);
    assert!(matches!(&acts2[0], Action::FetchPageImage { .. }));
}
