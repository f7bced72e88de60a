//! Application state and the navigation state machine: which screen is
//! shown, what is selected, what the reader is looking at, and the text
//! of the search box. Rendering consumes this state read-only; input
//! handling and task results mutate it through the methods here.

use crate::bookmarks::Bookmarks;
use crate::cache::{distinct_keys, has_key, lookup, upsert};
use crate::mangadex::{chapter_views, Chapter, Manga, MangaView};
use vstd::prelude::*;
use vstd::string::*;

verus! {

/// Top-level tab of the home screen.
#[derive(Clone, Copy, Debug, PartialEq, Eq, Structural)]
pub enum Tab {
    Home,
    Bookmarks,
    Search,
}

/// Which part of the home screen holds keyboard focus.
#[derive(Clone, Copy, Debug, PartialEq, Eq, Structural)]
pub enum Focus {
    Header,
    Recent,
    Popular,
}

/// Whether initial data is still being fetched.
#[derive(Clone, Copy, Debug, PartialEq, Eq, Structural)]
pub enum AppState {
    Loading,
    Ready,
}

/// Which screen is shown.
#[derive(Clone, Copy, Debug, PartialEq, Eq, Structural)]
pub enum Screen {
    Home,
    MangaDetail,
    Reader,
}

/// A map from resource key to decoded image, with distinct keys.
pub struct ImageMap {
    entries: Vec<(String, image::DynamicImage)>,
}

impl ImageMap {
    /// The entries as an association sequence.
    pub closed spec fn map_view(self) -> Seq<(Seq<char>, image::DynamicImage)> {
        self.entries@.map_values(|e: (String, image::DynamicImage)| (e.0@, e.1))
    }

    /// Keys are distinct.
    pub open spec fn wf(self) -> bool {
        distinct_keys(self.map_view())
    }

    /// An empty map.
    pub fn new() -> (r: ImageMap)
        ensures
            r.wf(),
            r.map_view() == Seq::<(Seq<char>, image::DynamicImage)>::empty(),
    {
        let r = ImageMap { entries: Vec::new() };
        proof {
            assert(r.map_view() =~= Seq::<(Seq<char>, image::DynamicImage)>::empty());
        }
        r
    }

    fn find(&self, key: &String) -> (r: Option<usize>)
        ensures
            match r {
                Some(i) => i < self.map_view().len() && self.map_view()[i as int].0 == key@
                    && has_key(self.map_view(), key@),
                None => !has_key(self.map_view(), key@),
            },
    {
        let mut j: usize = 0;
        while j < self.entries.len()
            invariant
                j <= self.entries.len(),
                forall|t: int| 0 <= t < j ==> self.map_view()[t].0 != key@,
            decreases self.entries.len() - j,
        {
            if self.entries[j].0 == *key {
                proof {
                    assert(self.map_view()[j as int].0 == key@);
                }
                return Some(j);
            }
            j = j + 1;
        }
        None
    }

    /// Stores (or replaces) the image for a key.
    pub fn insert(&mut self, key: String, image: image::DynamicImage)
        requires
            old(self).wf(),
        ensures
            final(self).wf(),
            final(self).map_view() == upsert(old(self).map_view(), key@, image),
    {
        proof {
            crate::cache::lemma_upsert_distinct(old(self).map_view(), key@, image);
        }
        match self.find(&key) {
            Some(i) => {
                proof {
                    crate::cache::lemma_index_of_key_unique(
                        self.map_view(),
                        key@,
                        i as int,
                    );
                    crate::cache::lemma_map_values_remove(
                        self.entries@,
                        |e: (String, image::DynamicImage)| (e.0@, e.1),
                        i as int,
                    );
                }
                let _ = self.entries.remove(i);
            },
            None => {},
        }
        proof {
            crate::cache::lemma_map_values_push(
                self.entries@,
                |e: (String, image::DynamicImage)| (e.0@, e.1),
                (key, image),
            );
        }
        self.entries.push((key, image));
    }

    /// Whether an image is stored for the key.
    pub fn contains_key(&self, key: &str) -> (r: bool)
        ensures
            r == has_key(self.map_view(), key@),
    {
        let k = String::from_str(key);
        self.find(&k).is_some()
    }

    /// The image stored for a key, if any.
    pub fn get(&self, key: &str) -> (r: Option<image::DynamicImage>)
        requires
            self.wf(),
        ensures
            r == lookup(self.map_view(), key@),
    {
        let k = String::from_str(key);
        match self.find(&k) {
            Some(i) => {
                proof {
                    crate::cache::lemma_index_of_key_unique(
                        self.map_view(),
                        key@,
                        i as int,
                    );
                }
                Some(self.entries[i].1.clone())
            },
            None => None,
        }
    }

    /// Drops every entry.
    pub fn clear(&mut self)
        ensures
            final(self).wf(),
            final(self).map_view() == Seq::<(Seq<char>, image::DynamicImage)>::empty(),
    {
        self.entries = Vec::new();
        proof {
            assert(self.map_view() =~= Seq::<(Seq<char>, image::DynamicImage)>::empty());
        }
    }
}

/// State of the chapter reader.
pub struct ReaderState {
    pub manga: Option<Manga>,
    pub chapters: Vec<Chapter>,
    pub current_chapter_idx: usize,
    pub page_urls: Vec<String>,
    pub current_page: usize,
    pub page_image: Option<image::DynamicImage>,
    pub loading: bool,
    pub error: Option<String>,
}

impl ReaderState {
    /// A reader showing nothing.
    pub fn new() -> (r: ReaderState)
        ensures
            r.manga is None,
            r.chapters@ == Seq::<Chapter>::empty(),
            r.current_chapter_idx == 0,
            r.page_urls@ == Seq::<String>::empty(),
            r.current_page == 0,
            r.page_image is None,
            r.loading == false,
            r.error is None,
    {
        ReaderState {
            manga: None,
            chapters: Vec::new(),
            current_chapter_idx: 0,
            page_urls: Vec::new(),
            current_page: 0,
            page_image: None,
            loading: false,
            error: None,
        }
    }
}

/// The whole application state.
#[verifier::ext_equal]
pub struct App {
    pub state: AppState,
    pub view: Screen,
    pub loading_message: String,
    pub tab: Tab,
    pub focus: Focus,
    pub search_query: String,
    pub search_results: Vec<Manga>,
    pub search_offset: usize,
    pub searching: bool,
    pub last_search_query: String,
    pub search_debounce: Option<u64>,
    pub recent_offset: usize,
    pub popular_offset: usize,
    pub bookmark_offset: usize,
    pub recently_updated: Vec<Manga>,
    pub popular_now: Vec<Manga>,
    pub cover_images: ImageMap,
    pub bookmarks: Bookmarks,
    pub selected_manga: Option<Manga>,
    pub chapters: Vec<Chapter>,
    pub chapter_selected: usize,
    pub chapter_scroll_row: usize,
    pub chapter_grid_cols: usize,
    pub chapter_thumbnails: ImageMap,
    pub reader: ReaderState,
}

/// View of an optional manga.
pub open spec fn opt_manga_view(o: Option<Manga>) -> Option<MangaView> {
    match o {
        Some(m) => Some(m@),
        None => None,
    }
}

// Field groups that a transition leaves untouched.

/// Loading state and message are unchanged.
pub open spec fn same_chrome(a: App, b: App) -> bool {
    a.state == b.state && a.loading_message == b.loading_message
}

/// Home-screen browsing state is unchanged.
pub open spec fn same_browse(a: App, b: App) -> bool {
    &&& a.tab == b.tab
    &&& a.focus == b.focus
    &&& a.recent_offset == b.recent_offset
    &&& a.popular_offset == b.popular_offset
    &&& a.bookmark_offset == b.bookmark_offset
    &&& a.recently_updated == b.recently_updated
    &&& a.popular_now == b.popular_now
}

/// Search state is unchanged.
pub open spec fn same_search(a: App, b: App) -> bool {
    &&& a.search_query == b.search_query
    &&& a.search_results == b.search_results
    &&& a.search_offset == b.search_offset
    &&& a.searching == b.searching
    &&& a.last_search_query == b.last_search_query
    &&& a.search_debounce == b.search_debounce
}

/// Cover images and bookmarks are unchanged.
pub open spec fn same_library(a: App, b: App) -> bool {
    a.cover_images == b.cover_images && a.bookmarks == b.bookmarks
}

/// Detail-screen state is unchanged.
pub open spec fn same_detail(a: App, b: App) -> bool {
    &&& a.selected_manga == b.selected_manga
    &&& a.chapters == b.chapters
    &&& a.chapter_selected == b.chapter_selected
    &&& a.chapter_scroll_row == b.chapter_scroll_row
    &&& a.chapter_grid_cols == b.chapter_grid_cols
    &&& a.chapter_thumbnails == b.chapter_thumbnails
}

/// Reader state is unchanged.
pub open spec fn same_reader(a: App, b: App) -> bool {
    a.reader == b.reader
}

impl App {
    /// The maps and the bookmark store are well formed.
    pub open spec fn wf(self) -> bool {
        &&& self.cover_images.wf()
        &&& self.chapter_thumbnails.wf()
        &&& self.bookmarks.wf()
    }

    /// A fresh application around an already-loaded bookmark store,
    /// waiting for its first data.
    pub fn new(bookmarks: Bookmarks) -> (app: App)
        requires
            bookmarks.wf(),
        ensures
            app.wf(),
            app.state == AppState::Loading,
            app.view == Screen::Home,
            app.loading_message@ == "Initializing..."@,
            app.tab == Tab::Home,
            app.focus == Focus::Header,
            app.search_query@ == Seq::<char>::empty(),
            app.search_results@ == Seq::<Manga>::empty(),
            app.search_offset == 0,
            app.searching == false,
            app.last_search_query@ == Seq::<char>::empty(),
            app.search_debounce is None,
            app.recent_offset == 0,
            app.popular_offset == 0,
            app.bookmark_offset == 0,
            app.recently_updated@ == Seq::<Manga>::empty(),
            app.popular_now@ == Seq::<Manga>::empty(),
            app.cover_images.map_view() == Seq::<(Seq<char>, image::DynamicImage)>::empty(),
            app.bookmarks == bookmarks,
            app.selected_manga is None,
            app.chapters@ == Seq::<Chapter>::empty(),
            app.chapter_selected == 0,
            app.chapter_scroll_row == 0,
            app.chapter_grid_cols == 1,
            app.chapter_thumbnails.map_view() == Seq::<(Seq<char>, image::DynamicImage)>::empty(),
            app.reader.manga is None,
            app.reader.page_urls@ == Seq::<String>::empty(),
            app.reader.loading == false,
            app.reader.error is None,
    {
        App {
            state: AppState::Loading,
            view: Screen::Home,
            loading_message: String::from_str("Initializing..."),
            tab: Tab::Home,
            focus: Focus::Header,
            search_query: String::new(),
            search_results: Vec::new(),
            search_offset: 0,
            searching: false,
            last_search_query: String::new(),
            search_debounce: None,
            recent_offset: 0,
            popular_offset: 0,
            bookmark_offset: 0,
            recently_updated: Vec::new(),
            popular_now: Vec::new(),
            cover_images: ImageMap::new(),
            bookmarks,
            selected_manga: None,
            chapters: Vec::new(),
            chapter_selected: 0,
            chapter_scroll_row: 0,
            chapter_grid_cols: 1,
            chapter_thumbnails: ImageMap::new(),
            reader: ReaderState::new(),
        }
    }

    /// Toggles the bookmark of the manga whose detail screen is open;
    /// without a selection nothing changes.
    pub fn toggle_bookmark(&mut self)
        requires
            old(self).wf(),
        ensures
            final(self).wf(),
            same_chrome(*final(self), *old(self)),
            same_browse(*final(self), *old(self)),
            same_search(*final(self), *old(self)),
            same_detail(*final(self), *old(self)),
            same_reader(*final(self), *old(self)),
            final(self).view == old(self).view,
            final(self).cover_images == old(self).cover_images,
            match old(self).selected_manga {
                Some(m) => final(self).bookmarks.ids() == if old(self).bookmarks.ids().contains(
                    m@.id,
                ) {
                    crate::bookmarks::remove_id(old(self).bookmarks.ids(), m@.id)
                } else {
                    old(self).bookmarks.ids().push(m@.id)
                },
                None => final(self).bookmarks == old(self).bookmarks,
            },
    {
        match &self.selected_manga {
            Some(manga) => {
                let m = crate::mangadex::clone_manga(manga);
                proof {
                    assert(m@ == manga@);
                }
                let _ = self.bookmarks.toggle(&m);
            },
            None => {},
        }
    }

    /// Whether the manga whose detail screen is open is bookmarked.
    pub fn is_current_bookmarked(&self) -> (r: bool)
        ensures
            r == match self.selected_manga {
                Some(m) => self.bookmarks.ids().contains(m@.id),
                None => false,
            },
    {
        match &self.selected_manga {
            Some(manga) => self.bookmarks.is_bookmarked(manga.id.as_str()),
            None => false,
        }
    }

    /// Shows the loading screen with a message.
    pub fn set_loading(&mut self, message: &str)
        ensures
            same_browse(*final(self), *old(self)),
            same_search(*final(self), *old(self)),
            same_library(*final(self), *old(self)),
            same_detail(*final(self), *old(self)),
            same_reader(*final(self), *old(self)),
            final(self).view == old(self).view,
            final(self).state == AppState::Loading,
            final(self).loading_message@ == message@,
    {
        self.state = AppState::Loading;
        self.loading_message = String::from_str(message);
    }

    /// Leaves the loading screen.
    pub fn set_ready(&mut self)
        ensures
            same_browse(*final(self), *old(self)),
            same_search(*final(self), *old(self)),
            same_library(*final(self), *old(self)),
            same_detail(*final(self), *old(self)),
            same_reader(*final(self), *old(self)),
            final(self).view == old(self).view,
            final(self).state == AppState::Ready,
            final(self).loading_message == old(self).loading_message,
    {
        self.state = AppState::Ready;
    }

    /// Stores a fetched cover image under its manga id.
    pub fn add_cover_image(&mut self, manga_id: &str, image: image::DynamicImage)
        requires
            old(self).wf(),
        ensures
            final(self).wf(),
            same_chrome(*final(self), *old(self)),
            same_browse(*final(self), *old(self)),
            same_search(*final(self), *old(self)),
            same_detail(*final(self), *old(self)),
            same_reader(*final(self), *old(self)),
            final(self).view == old(self).view,
            final(self).bookmarks == old(self).bookmarks,
            final(self).cover_images.map_view() == upsert(
                old(self).cover_images.map_view(),
                manga_id@,
                image,
            ),
    {
        let key = String::from_str(manga_id);
        self.cover_images.insert(key, image);
    }

    /// Opens a manga's detail screen, clearing any chapter state left
    /// from the last one.
    pub fn open_manga(&mut self, manga: Manga)
        requires
            old(self).wf(),
        ensures
            final(self).wf(),
            same_chrome(*final(self), *old(self)),
            same_browse(*final(self), *old(self)),
            same_search(*final(self), *old(self)),
            same_library(*final(self), *old(self)),
            same_reader(*final(self), *old(self)),
            final(self).view == Screen::MangaDetail,
            final(self).selected_manga == Some(manga),
            final(self).chapters@ == Seq::<Chapter>::empty(),
            final(self).chapter_selected == 0,
            final(self).chapter_scroll_row == 0,
            final(self).chapter_grid_cols == old(self).chapter_grid_cols,
            final(self).chapter_thumbnails.map_view() == Seq::<(
                Seq<char>,
                image::DynamicImage,
            )>::empty(),
    {
        self.selected_manga = Some(manga);
        self.view = Screen::MangaDetail;
        self.chapters = Vec::new();
        self.chapter_selected = 0;
        self.chapter_scroll_row = 0;
        self.chapter_thumbnails.clear();
    }

    /// Stores a fetched chapter thumbnail under its chapter id.
    pub fn add_chapter_thumbnail(&mut self, chapter_id: &str, image: image::DynamicImage)
        requires
            old(self).wf(),
        ensures
            final(self).wf(),
            same_chrome(*final(self), *old(self)),
            same_browse(*final(self), *old(self)),
            same_search(*final(self), *old(self)),
            same_library(*final(self), *old(self)),
            same_reader(*final(self), *old(self)),
            final(self).view == old(self).view,
            final(self).selected_manga == old(self).selected_manga,
            final(self).chapters == old(self).chapters,
            final(self).chapter_selected == old(self).chapter_selected,
            final(self).chapter_scroll_row == old(self).chapter_scroll_row,
            final(self).chapter_grid_cols == old(self).chapter_grid_cols,
            final(self).chapter_thumbnails.map_view() == upsert(
                old(self).chapter_thumbnails.map_view(),
                chapter_id@,
                image,
            ),
    {
        let key = String::from_str(chapter_id);
        self.chapter_thumbnails.insert(key, image);
    }

    /// Enters the reader on the chapter at `chapter_idx` of the open
    /// manga's list, with paging state reset, any error left by an
    /// earlier visit cleared, and the first page loading.
    pub fn open_reader(&mut self, chapter_idx: usize)
        requires
            old(self).wf(),
        ensures
            final(self).wf(),
            same_chrome(*final(self), *old(self)),
            same_browse(*final(self), *old(self)),
            same_search(*final(self), *old(self)),
            same_library(*final(self), *old(self)),
            same_detail(*final(self), *old(self)),
            final(self).view == Screen::Reader,
            final(self).reader.current_chapter_idx == chapter_idx,
            opt_manga_view(final(self).reader.manga) == opt_manga_view(old(self).selected_manga),
            chapter_views(final(self).reader.chapters@) == chapter_views(old(self).chapters@),
            final(self).reader.current_page == 0,
            final(self).reader.page_urls@ == Seq::<String>::empty(),
            final(self).reader.page_image is None,
            final(self).reader.loading == true,
            final(self).reader.error is None,
    {
        self.reader.current_chapter_idx = chapter_idx;
        self.reader.manga = match &self.selected_manga {
            Some(m) => Some(crate::mangadex::clone_manga(m)),
            None => None,
        };
        self.reader.chapters = crate::mangadex::clone_chapters(&self.chapters);
        self.reader.current_page = 0;
        self.reader.page_urls = Vec::new();
        self.reader.page_image = None;
        self.reader.loading = true;
        self.reader.error = None;
        self.view = Screen::Reader;
    }

    /// Shows a loaded page image and clears the loading and error
    /// states.
    pub fn set_page_image(&mut self, image: image::DynamicImage)
        ensures
            same_chrome(*final(self), *old(self)),
            same_browse(*final(self), *old(self)),
            same_search(*final(self), *old(self)),
            same_library(*final(self), *old(self)),
            same_detail(*final(self), *old(self)),
            final(self).view == old(self).view,
            final(self).reader.page_image == Some(image),
            final(self).reader.loading == false,
            final(self).reader.error is None,
            final(self).reader.manga == old(self).reader.manga,
            final(self).reader.chapters == old(self).reader.chapters,
            final(self).reader.current_chapter_idx == old(self).reader.current_chapter_idx,
            final(self).reader.page_urls == old(self).reader.page_urls,
            final(self).reader.current_page == old(self).reader.current_page,
    {
        self.reader.page_image = Some(image);
        self.reader.loading = false;
        self.reader.error = None;
    }

    /// Shows a page-load error the user can retry from.
    pub fn set_page_load_error(&mut self, error: String)
        ensures
            same_chrome(*final(self), *old(self)),
            same_browse(*final(self), *old(self)),
            same_search(*final(self), *old(self)),
            same_library(*final(self), *old(self)),
            same_detail(*final(self), *old(self)),
            final(self).view == old(self).view,
            final(self).reader.loading == false,
            final(self).reader.error == Some(error),
            final(self).reader.manga == old(self).reader.manga,
            final(self).reader.chapters == old(self).reader.chapters,
            final(self).reader.current_chapter_idx == old(self).reader.current_chapter_idx,
            final(self).reader.page_urls == old(self).reader.page_urls,
            final(self).reader.current_page == old(self).reader.current_page,
            final(self).reader.page_image == old(self).reader.page_image,
    {
        self.reader.loading = false;
        self.reader.error = Some(error);
    }

    /// Advances to the next page if there is one; at the last page this
    /// is a no-op returning false.
    pub fn next_page(&mut self) -> (moved: bool)
        ensures
            same_chrome(*final(self), *old(self)),
            same_browse(*final(self), *old(self)),
            same_search(*final(self), *old(self)),
            same_library(*final(self), *old(self)),
            same_detail(*final(self), *old(self)),
            final(self).view == old(self).view,
            moved == (old(self).reader.current_page + 1 < old(self).reader.page_urls@.len()),
            !moved ==> same_reader(*final(self), *old(self)),
            moved ==> {
                &&& final(self).reader.current_page == old(self).reader.current_page + 1
                &&& final(self).reader.loading == true
                &&& final(self).reader.page_image is None
                &&& final(self).reader.error is None
                &&& final(self).reader.manga == old(self).reader.manga
                &&& final(self).reader.chapters == old(self).reader.chapters
                &&& final(self).reader.current_chapter_idx == old(
                    self,
                ).reader.current_chapter_idx
                &&& final(self).reader.page_urls == old(self).reader.page_urls
            },
    {
        let n = self.reader.page_urls.len();
        if n > 0 && self.reader.current_page < n - 1 {
            self.reader.current_page = self.reader.current_page + 1;
            self.reader.loading = true;
            self.reader.page_image = None;
            self.reader.error = None;
            true
        } else {
            false
        }
    }

    /// Goes back one page if not at the first; at the first page this
    /// is a no-op returning false.
    pub fn prev_page(&mut self) -> (moved: bool)
        ensures
            same_chrome(*final(self), *old(self)),
            same_browse(*final(self), *old(self)),
            same_search(*final(self), *old(self)),
            same_library(*final(self), *old(self)),
            same_detail(*final(self), *old(self)),
            final(self).view == old(self).view,
            moved == (old(self).reader.current_page > 0),
            !moved ==> same_reader(*final(self), *old(self)),
            moved ==> {
                &&& final(self).reader.current_page == old(self).reader.current_page - 1
                &&& final(self).reader.loading == true
                &&& final(self).reader.page_image is None
                &&& final(self).reader.error is None
                &&& final(self).reader.manga == old(self).reader.manga
                &&& final(self).reader.chapters == old(self).reader.chapters
                &&& final(self).reader.current_chapter_idx == old(
                    self,
                ).reader.current_chapter_idx
                &&& final(self).reader.page_urls == old(self).reader.page_urls
            },
    {
        if self.reader.current_page > 0 {
            self.reader.current_page = self.reader.current_page - 1;
            self.reader.loading = true;
            self.reader.page_image = None;
            self.reader.error = None;
            true
        } else {
            false
        }
    }

    /// Moves to the next chapter if there is one, resetting paging; at
    /// the last chapter this is a no-op returning false.
    pub fn next_chapter(&mut self) -> (moved: bool)
        ensures
            same_chrome(*final(self), *old(self)),
            same_browse(*final(self), *old(self)),
            same_search(*final(self), *old(self)),
            same_library(*final(self), *old(self)),
            same_detail(*final(self), *old(self)),
            final(self).view == old(self).view,
            moved == (old(self).reader.current_chapter_idx + 1 < old(
                self,
            ).reader.chapters@.len()),
            !moved ==> same_reader(*final(self), *old(self)),
            moved ==> {
                &&& final(self).reader.current_chapter_idx == old(
                    self,
                ).reader.current_chapter_idx + 1
                &&& final(self).reader.current_page == 0
                &&& final(self).reader.page_urls@ == Seq::<String>::empty()
                &&& final(self).reader.page_image is None
                &&& final(self).reader.loading == true
                &&& final(self).reader.error is None
                &&& final(self).reader.manga == old(self).reader.manga
                &&& final(self).reader.chapters == old(self).reader.chapters
            },
    {
        let n = self.reader.chapters.len();
        if n > 0 && self.reader.current_chapter_idx < n - 1 {
            self.reader.current_chapter_idx = self.reader.current_chapter_idx + 1;
            self.reader.current_page = 0;
            self.reader.page_urls = Vec::new();
            self.reader.page_image = None;
            self.reader.loading = true;
            self.reader.error = None;
            true
        } else {
            false
        }
    }

    /// Moves to the previous chapter if there is one, resetting paging;
    /// at the first chapter this is a no-op returning false.
    pub fn prev_chapter(&mut self) -> (moved: bool)
        ensures
            same_chrome(*final(self), *old(self)),
            same_browse(*final(self), *old(self)),
            same_search(*final(self), *old(self)),
            same_library(*final(self), *old(self)),
            same_detail(*final(self), *old(self)),
            final(self).view == old(self).view,
            moved == (old(self).reader.current_chapter_idx > 0),
            !moved ==> same_reader(*final(self), *old(self)),
            moved ==> {
                &&& final(self).reader.current_chapter_idx == old(
                    self,
                ).reader.current_chapter_idx - 1
                &&& final(self).reader.current_page == 0
                &&& final(self).reader.page_urls@ == Seq::<String>::empty()
                &&& final(self).reader.page_image is None
                &&& final(self).reader.loading == true
                &&& final(self).reader.error is None
                &&& final(self).reader.manga == old(self).reader.manga
                &&& final(self).reader.chapters == old(self).reader.chapters
            },
    {
        if self.reader.current_chapter_idx > 0 {
            self.reader.current_chapter_idx = self.reader.current_chapter_idx - 1;
            self.reader.current_page = 0;
            self.reader.page_urls = Vec::new();
            self.reader.page_image = None;
            self.reader.loading = true;
            self.reader.error = None;
            true
        } else {
            false
        }
    }

    /// Back navigation: the reader returns to the detail screen; the
    /// detail screen returns home and drops the selection and chapter
    /// list; home is terminal.
    pub fn go_back(&mut self)
        ensures
            same_chrome(*final(self), *old(self)),
            same_browse(*final(self), *old(self)),
            same_search(*final(self), *old(self)),
            same_library(*final(self), *old(self)),
            same_reader(*final(self), *old(self)),
            old(self).view == Screen::Reader ==> {
                &&& final(self).view == Screen::MangaDetail
                &&& same_detail(*final(self), *old(self))
            },
            old(self).view == Screen::MangaDetail ==> {
                &&& final(self).view == Screen::Home
                &&& final(self).selected_manga is None
                &&& final(self).chapters@ == Seq::<Chapter>::empty()
                &&& final(self).chapter_selected == old(self).chapter_selected
                &&& final(self).chapter_scroll_row == old(self).chapter_scroll_row
                &&& final(self).chapter_grid_cols == old(self).chapter_grid_cols
                &&& final(self).chapter_thumbnails == old(self).chapter_thumbnails
            },
            old(self).view == Screen::Home ==> *final(self) == *old(self),
    {
        match self.view {
            Screen::Reader => {
                self.view = Screen::MangaDetail;
            },
            Screen::MangaDetail => {
                self.view = Screen::Home;
                self.selected_manga = None;
                self.chapters = Vec::new();
            },
            Screen::Home => {},
        }
    }
}

/// A text cut to `max_len` characters: a longer text keeps its first
/// `max_len - 3` characters and ends in an ellipsis.
pub open spec fn spec_truncate(t: Seq<char>, max_len: nat) -> Seq<char> {
    if t.len() <= max_len {
        t
    } else {
        t.take(
            if max_len >= 3 {
                (max_len - 3) as int
            } else {
                0
            },
        ) + "..."@
    }
}

/// Cuts a text to at most `max_len` characters for a fixed-width cell,
/// ending a cut text with "...".
pub fn truncate_text(text: &str, max_len: usize) -> (r: String)
    ensures
        r@ == spec_truncate(text@, max_len as nat),
{
    let n = text.unicode_len();
    if n <= max_len {
        String::from_str(text)
    } else {
        let keep = if max_len >= 3 {
            max_len - 3
        } else {
            0
        };
        let head = text.substring_char(0, keep);
        proof {
            assert(text@.subrange(0, keep as int) =~= text@.take(keep as int));
        }
        let mut s = String::from_str(head);
        s.append("...");
        s
    }
}

/// The characters a word wrap treats as spaces.
pub open spec fn is_space(c: char) -> bool {
    c == ' ' || c == '\t' || c == '\n' || c == '\r'
}

/// Word splitting: maximal runs of non-space characters, in order.
pub open spec fn spec_words_rec(t: Seq<char>, cur: Seq<char>, acc: Seq<Seq<char>>) -> Seq<
    Seq<char>,
>
    decreases t.len(),
{
    if t.len() == 0 {
        if cur.len() > 0 {
            acc.push(cur)
        } else {
            acc
        }
    } else if is_space(t.first()) {
        spec_words_rec(
            t.drop_first(),
            Seq::<char>::empty(),
            if cur.len() > 0 {
                acc.push(cur)
            } else {
                acc
            },
        )
    } else {
        spec_words_rec(t.drop_first(), cur.push(t.first()), acc)
    }
}

/// The words of a text.
pub open spec fn spec_words(t: Seq<char>) -> Seq<Seq<char>> {
    spec_words_rec(t, Seq::<char>::empty(), Seq::<Seq<char>>::empty())
}

fn is_space_char(c: char) -> (r: bool)
    ensures
        r == is_space(c),
{
    c == ' ' || c == '\t' || c == '\n' || c == '\r'
}

fn split_words(text: &str) -> (words: Vec<String>)
    ensures
        crate::cache::str_views(words@) == spec_words(text@),
{
    let n = text.unicode_len();
    let mut words: Vec<String> = Vec::new();
    let mut start: usize = 0;
    let mut i: usize = 0;
    proof {
        assert(text@.skip(0) =~= text@);
        assert(text@.subrange(0, 0) =~= Seq::<char>::empty());
        assert(crate::cache::str_views(words@) =~= Seq::<Seq<char>>::empty());
    }
    while i < n
        invariant
            start <= i <= n,
            n == text@.len(),
            spec_words_rec(
                text@.skip(i as int),
                text@.subrange(start as int, i as int),
                crate::cache::str_views(words@),
            ) == spec_words(text@),
        decreases n - i,
    {
        proof {
            assert(text@.skip(i as int).drop_first() =~= text@.skip(i as int + 1));
            assert(text@.skip(i as int).first() == text@[i as int]);
        }
        let c = text.get_char(i);
        if is_space_char(c) {
            if i > start {
                let w = text.substring_char(start, i);
                let word = String::from_str(w);
                let ghost prev = words@;
                let ghost wg = word;
                words.push(word);
                proof {
                    crate::cache::lemma_map_values_push(prev, |s: String| s@, wg);
                }
            }
            start = i + 1;
            proof {
                assert(text@.subrange(start as int, start as int) =~= Seq::<char>::empty());
            }
        } else {
            proof {
                assert(text@.subrange(start as int, i as int + 1) =~= text@.subrange(
                    start as int,
                    i as int,
                ).push(text@[i as int]));
            }
        }
        i = i + 1;
    }
    proof {
        assert(text@.skip(n as int) =~= Seq::<char>::empty());
    }
    if start < n {
        let w = text.substring_char(start, n);
        let word = String::from_str(w);
        let ghost prev = words@;
        let ghost wg = word;
        words.push(word);
        proof {
            crate::cache::lemma_map_values_push(prev, |s: String| s@, wg);
        }
    }
    words
}

/// The last line shortened to make room for an ellipsis, when it is
/// long enough to cut.
pub open spec fn spec_ellipsized(lines: Seq<Seq<char>>) -> Seq<Seq<char>>
    recommends
        lines.len() > 0,
{
    let lastl = lines.last();
    if lastl.len() > 3 {
        lines.update(lines.len() - 1, lastl.take(lastl.len() - 3) + "..."@)
    } else {
        lines
    }
}

/// Greedy word fill: words join the current line while they fit in
/// `width` with a separating space; a full line is emitted, and when
/// the line budget is reached the last line is ellipsized and the rest
/// of the text is dropped.
pub open spec fn spec_fill_rec(
    words: Seq<Seq<char>>,
    width: nat,
    max_lines: nat,
    cur: Seq<char>,
    lines: Seq<Seq<char>>,
) -> Seq<Seq<char>>
    decreases words.len(),
{
    if words.len() == 0 {
        if cur.len() > 0 && lines.len() < max_lines {
            lines.push(cur)
        } else {
            lines
        }
    } else {
        let w = words.first();
        if cur.len() == 0 {
            spec_fill_rec(words.drop_first(), width, max_lines, w, lines)
        } else if cur.len() + 1 + w.len() <= width {
            spec_fill_rec(words.drop_first(), width, max_lines, cur + " "@ + w, lines)
        } else {
            let lines2 = lines.push(cur);
            if lines2.len() >= max_lines {
                spec_ellipsized(lines2)
            } else {
                spec_fill_rec(words.drop_first(), width, max_lines, w, lines2)
            }
        }
    }
}

/// A text wrapped into at most `max_lines` lines of at most `width`
/// characters (single overlong words excepted); zero width or zero
/// lines wrap to nothing.
pub open spec fn spec_wrap(t: Seq<char>, width: nat, max_lines: nat) -> Seq<Seq<char>> {
    if width == 0 || max_lines == 0 {
        Seq::<Seq<char>>::empty()
    } else {
        spec_fill_rec(
            spec_words(t),
            width,
            max_lines,
            Seq::<char>::empty(),
            Seq::<Seq<char>>::empty(),
        )
    }
}

/// Wraps a text into at most `max_lines` lines of `width` characters,
/// breaking between words; when the budget runs out the last line ends
/// in an ellipsis.
pub fn wrap_text(text: &str, width: usize, max_lines: usize) -> (r: Vec<String>)
    ensures
        crate::cache::str_views(r@) == spec_wrap(text@, width as nat, max_lines as nat),
{
    let mut lines: Vec<String> = Vec::new();
    if width == 0 || max_lines == 0 {
        proof {
            assert(crate::cache::str_views(lines@) =~= Seq::<Seq<char>>::empty());
        }
        return lines;
    }
    let words = split_words(text);
    let ghost wviews = crate::cache::str_views(words@);
    let mut cur = String::new();
    let mut j: usize = 0;
    proof {
        assert(wviews.skip(0) =~= wviews);
        assert(crate::cache::str_views(lines@) =~= Seq::<Seq<char>>::empty());
    }
    while j < words.len()
        invariant
            j <= words.len(),
            width > 0,
            max_lines > 0,
            wviews == crate::cache::str_views(words@),
            crate::cache::str_views(lines@).len() < max_lines,
            spec_fill_rec(
                wviews.skip(j as int),
                width as nat,
                max_lines as nat,
                cur@,
                crate::cache::str_views(lines@),
            ) == spec_wrap(text@, width as nat, max_lines as nat),
        decreases words.len() - j,
    {
        proof {
            assert(wviews.skip(j as int).drop_first() =~= wviews.skip(j as int + 1));
            assert(wviews.skip(j as int).first() == wviews[j as int]);
            assert(wviews[j as int] == words@[j as int]@);
        }
        let wn = words[j].unicode_len();
        let curn = cur.unicode_len();
        if curn == 0 {
            cur = words[j].clone();
        } else if curn < width && wn <= width - curn - 1 {
            cur.append(" ");
            cur.append(words[j].as_str());
        } else {
            let ghost lines_prev = lines@;
            let ghost curg = cur;
            lines.push(cur);
            proof {
                crate::cache::lemma_map_values_push(lines_prev, |s: String| s@, curg);
            }
            if lines.len() >= max_lines {
                let li = lines.len() - 1;
                let lastn = lines[li].unicode_len();
                if lastn > 3 {
                    let head = lines[li].substring_char(0, lastn - 3);
                    let mut cut = String::from_str(head);
                    cut.append("...");
                    let ghost lines_mid = lines@;
                    let ghost cutg = cut;
                    lines.set(li, cut);
                    proof {
                        assert(crate::cache::str_views(lines@) =~~= crate::cache::str_views(
                            lines_mid,
                        ).update(li as int, cutg@));
                        assert(cutg@ =~= crate::cache::str_views(lines_mid).last().take(
                            crate::cache::str_views(lines_mid).last().len() - 3,
                        ) + "..."@);
                    }
                }
                proof {
                    assert(crate::cache::str_views(lines@) =~~= spec_wrap(
                        text@,
                        width as nat,
                        max_lines as nat,
                    ));
                }
                return lines;
            }
            cur = words[j].clone();
        }
        j = j + 1;
    }
    proof {
        assert(wviews.skip(words@.len() as int) =~= Seq::<Seq<char>>::empty());
    }
    if cur.unicode_len() > 0 && lines.len() < max_lines {
        let ghost lines_prev = lines@;
        let ghost curg = cur;
        lines.push(cur);
        proof {
            crate::cache::lemma_map_values_push(lines_prev, |s: String| s@, curg);
        }
    }
    lines
}

} // verus!
