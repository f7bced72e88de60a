use manga_tui::bookmarks::{BookmarkedManga, Bookmarks};
use manga_tui::mangadex::{
    build_page_urls, parse_chapters, parse_manga_list, thumbnail_url, Chapter, ChapterAttributes,
    ChapterData, ChapterResponse, Manga, MangaAttributes, MangaData, MangaResponse, Relationship,
    RelationshipAttributes,
};
use manga_tui::ui::{truncate_text, wrap_text, App, AppState, Focus, Screen, Tab};

fn manga(id: &str) -> Manga {
    Manga {
        id: id.to_string(),
        title: format!("title of {}", id),
        author: "someone".to_string(),
        artist: "someone else".to_string(),
        status: "Ongoing".to_string(),
        description: "words".to_string(),
        cover_url: format!("http://covers/{}", id),
    }
}

fn chapter(id: &str) -> Chapter {
    Chapter {
        id: id.to_string(),
        chapter: "1".to_string(),
        title: "one".to_string(),
        volume: Some("1".to_string()),
        pages: 10,
        external_url: None,
    }
}

#[test]
fn new_app_starts_loading_on_home() {
    let app = App::new(Bookmarks::new());
    assert!(matches!(app.state, AppState::Loading));
    assert!(matches!(app.view, Screen::Home));
    assert!(matches!(app.tab, Tab::Home));
    assert!(matches!(app.focus, Focus::Header));
    assert_eq!(app.loading_message, "Initializing...");
    assert!(app.selected_manga.is_none());
    assert!(app.reader.manga.is_none());
}

#[test]
fn back_resets_selection_exactly_once() {
    let mut app = App::new(Bookmarks::new());
    app.open_manga(manga("m1"));
    app.chapters = vec![chapter("c1"), chapter("c2")];
    app.open_reader(1);
    assert!(matches!(app.view, Screen::Reader));
    assert_eq!(app.reader.current_chapter_idx, 1);

    // Reader back to detail: the selection and chapter list survive.
    app.go_back();
    assert!(matches!(app.view, Screen::MangaDetail));
    assert!(app.selected_manga.is_some());
    assert_eq!(app.chapters.len(), 2);

    // Detail back home: selection and chapters reset, once.
    app.go_back();
    assert!(matches!(app.view, Screen::Home));
    assert!(app.selected_manga.is_none());
    assert!(app.chapters.is_empty());

    // Home is terminal.
    app.go_back();
    assert!(matches!(app.view, Screen::Home));

    // The next manga opens with no residual chapter or reader state,
    // a stale page error included.
    app.open_manga(manga("m2"));
    assert_eq!(app.chapter_selected, 0);
    assert!(app.chapters.is_empty());
    app.open_reader(0);
    assert_eq!(app.reader.current_page, 0);
    assert!(app.reader.page_urls.is_empty());
    assert!(app.reader.page_image.is_none());
    assert!(app.reader.loading);
    assert!(app.reader.error.is_none());
}

#[test]
fn opening_a_chapter_clears_a_stale_error() {
    let mut app = App::new(Bookmarks::new());
    app.open_manga(manga("m1"));
    app.chapters = vec![chapter("c1"), chapter("c2")];
    app.open_reader(0);
    app.set_page_load_error("old failure".to_string());
    app.go_back();
    app.go_back();
    app.open_manga(manga("m2"));
    app.chapters = vec![chapter("c3")];
    app.open_reader(0);
    assert!(app.reader.error.is_none());
    assert!(app.reader.loading);
}

#[test]
fn page_and_chapter_turns_stop_at_the_ends() {
    let mut app = App::new(Bookmarks::new());
    app.open_manga(manga("m"));
    app.chapters = vec![chapter("c1"), chapter("c2")];
    app.open_reader(0);
    app.reader.page_urls = vec!["p0".to_string(), "p1".to_string()];

    assert!(!app.prev_page());
    assert!(app.next_page());
    assert_eq!(app.reader.current_page, 1);
    assert!(!app.next_page());
    assert!(app.prev_page());
    assert_eq!(app.reader.current_page, 0);

    assert!(!app.prev_chapter());
    assert!(app.next_chapter());
    assert_eq!(app.reader.current_chapter_idx, 1);
    assert!(app.reader.page_urls.is_empty());
    assert!(!app.next_chapter());
    assert!(app.prev_chapter());
    assert_eq!(app.reader.current_chapter_idx, 0);
}

#[test]
fn bookmarks_toggle_round_trip() {
    let mut bookmarks = Bookmarks::new();
    let m = manga("m1");
    assert!(!bookmarks.is_bookmarked("m1"));
    assert!(bookmarks.toggle(&m));
    assert!(bookmarks.is_bookmarked("m1"));
    let listed = bookmarks.get_bookmarked_manga();
    assert_eq!(listed.len(), 1);
    assert_eq!(listed[0].id, "m1");
    assert_eq!(listed[0].title, "title of m1");
    assert_eq!(listed[0].artist, "");
    // Adding again does not duplicate the cached record.
    bookmarks.add(&m);
    assert_eq!(bookmarks.get_bookmarked_manga().len(), 1);
    assert!(!bookmarks.toggle(&m));
    assert!(!bookmarks.is_bookmarked("m1"));
    assert!(bookmarks.get_bookmarked_manga().is_empty());
}

#[test]
fn bookmark_record_round_trip() {
    let m = manga("m9");
    let rec = BookmarkedManga::from_manga(&m);
    assert_eq!(rec.id, "m9");
    let back = rec.to_manga();
    assert_eq!(back.id, m.id);
    assert_eq!(back.title, m.title);
    assert_eq!(back.artist, "");
}

#[test]
fn app_bookmark_helpers_use_the_selection() {
    let mut app = App::new(Bookmarks::new());
    assert!(!app.is_current_bookmarked());
    app.toggle_bookmark();  // no selection: nothing happens
    assert!(app.bookmarks.manga_ids.is_empty());
    app.open_manga(manga("m1"));
    app.toggle_bookmark();
    assert!(app.is_current_bookmarked());
    app.toggle_bookmark();
    assert!(!app.is_current_bookmarked());
}

#[test]
fn truncate_keeps_short_text_and_cuts_long() {
    assert_eq!(truncate_text("short", 10), "short");
    assert_eq!(truncate_text("hello world", 8), "hello...");
    assert_eq!(truncate_text("abcdef", 3), "...");
    assert_eq!(truncate_text("abcdef", 2), "...");
    assert_eq!(truncate_text("", 0), "");
}

#[test]
fn wrap_breaks_between_words() {
    assert_eq!(
        wrap_text("one two three", 7, 10),
        vec!["one two".to_string(), "three".to_string()]
    );
    assert!(wrap_text("anything", 0, 3).is_empty());
    assert!(wrap_text("anything", 10, 0).is_empty());
    assert_eq!(wrap_text("  spaced   out  ", 20, 5), vec!["spaced out".to_string()]);
}

#[test]
fn wrap_ellipsizes_when_out_of_lines() {
    assert_eq!(
        wrap_text("aaaa bbbbbb cc", 6, 2),
        vec!["aaaa".to_string(), "bbb...".to_string()]
    );
    // A last line of three characters or fewer is kept as it is.
    assert_eq!(
        wrap_text("aaa bbb ccc", 3, 2),
        vec!["aaa".to_string(), "bbb".to_string()]
    );
}

#[test]
fn parse_manga_list_reads_relationships_and_fallbacks() {
    let response = MangaResponse {
        data: vec![
            MangaData {
                id: "id1".to_string(),
                attributes: MangaAttributes {
                    title: vec![
                        ("ja".to_string(), "JP".to_string()),
                        ("en".to_string(), "EN".to_string()),
                    ],
                    status: Some("completed".to_string()),
                    description: Some(vec![("en".to_string(), "desc".to_string())]),
                },
                relationships: vec![
                    Relationship {
                        rel_type: "author".to_string(),
                        attributes: Some(RelationshipAttributes {
                            name: Some("Mr A".to_string()),
                            file_name: None,
                        }),
                    },
                    Relationship {
                        rel_type: "cover_art".to_string(),
                        attributes: Some(RelationshipAttributes {
                            name: None,
                            file_name: Some("c.jpg".to_string()),
                        }),
                    },
                ],
            },
            MangaData {
                id: "id2".to_string(),
                attributes: MangaAttributes {
                    title: vec![("ja".to_string(), "JP only".to_string())],
                    status: None,
                    description: None,
                },
                relationships: Vec::new(),
            },
        ],
    };
    let mangas = parse_manga_list(response);
    assert_eq!(mangas.len(), 2);
    assert_eq!(mangas[0].id, "id1");
    assert_eq!(mangas[0].title, "EN");
    assert_eq!(mangas[0].author, "Mr A");
    assert_eq!(mangas[0].artist, "");
    assert_eq!(mangas[0].status, "completed");
    assert_eq!(mangas[0].description, "desc");
    assert_eq!(
        mangas[0].cover_url,
        "https://uploads.mangadex.org/covers/id1/c.jpg"
    );
    assert_eq!(mangas[1].title, "JP only");
    assert_eq!(mangas[1].status, "Unknown");
    assert_eq!(mangas[1].description, "");
    assert_eq!(mangas[1].cover_url, "");
}

#[test]
fn parse_chapters_drops_pageless_and_defaults_texts() {
    let response = ChapterResponse {
        data: vec![
            ChapterData {
                id: "c1".to_string(),
                attributes: ChapterAttributes {
                    chapter: Some("12".to_string()),
                    title: None,
                    volume: None,
                    pages: 20,
                    translated_language: "en".to_string(),
                    external_url: None,
                },
            },
            ChapterData {
                id: "c2".to_string(),
                attributes: ChapterAttributes {
                    chapter: None,
                    title: Some("named".to_string()),
                    volume: Some("2".to_string()),
                    pages: 0,
                    translated_language: "en".to_string(),
                    external_url: None,
                },
            },
        ],
    };
    let chapters = parse_chapters(response);
    assert_eq!(chapters.len(), 1);
    assert_eq!(chapters[0].id, "c1");
    assert_eq!(chapters[0].chapter, "12");
    assert_eq!(chapters[0].title, "No Title");
    assert_eq!(chapters[0].pages, 20);
}

#[test]
fn page_urls_are_assembled_from_server_and_hash() {
    let urls = build_page_urls(
        "https://node.example",
        "h4sh",
        &vec!["1.jpg".to_string(), "2.jpg".to_string()],
    );
    assert_eq!(
        urls,
        vec![
            "https://node.example/data-saver/h4sh/1.jpg".to_string(),
            "https://node.example/data-saver/h4sh/2.jpg".to_string(),
        ]
    );
    assert_eq!(thumbnail_url("http://c/x"), "http://c/x.256.jpg");
}

#[test]
fn cover_and_thumbnail_maps_store_by_key() {
    let mut app = App::new(Bookmarks::new());
    let img = image::DynamicImage::ImageRgb8(image::RgbImage::new(1, 1));
    assert!(!app.cover_images.contains_key("m1"));
    app.add_cover_image("m1", img.clone());
    assert!(app.cover_images.contains_key("m1"));
    assert_eq!(app.cover_images.get("m1"), Some(img.clone()));
    app.add_chapter_thumbnail("c1", img.clone());
    assert!(app.chapter_thumbnails.contains_key("c1"));
    // Opening a manga clears the thumbnails of the previous one.
    app.open_manga(manga("m2"));
    assert!(!app.chapter_thumbnails.contains_key("c1"));
}

#[test]
fn set_page_image_and_error_drive_the_loading_flag() {
    let mut app = App::new(Bookmarks::new());
    let img = image::DynamicImage::ImageRgb8(image::RgbImage::new(1, 1));
    app.set_loading("fetching");
    assert!(matches!(app.state, AppState::Loading));
    assert_eq!(app.loading_message, "fetching");
    app.set_ready();
    assert!(matches!(app.state, AppState::Ready));
    app.set_page_load_error("boom".to_string());
    assert_eq!(app.reader.error.as_deref(), Some("boom"));
    assert!(!app.reader.loading);
    app.set_page_image(img);
    assert!(app.reader.error.is_none());
    assert!(app.reader.page_image.is_some());
    assert!(!app.reader.loading);
}
