//! Keyboard handling: one function per screen, each a pure transition
//! from the pressed key and the current state to the next state and the
//! background work it triggers. The terminal runtime translates its own
//! key events into `Key` and performs the returned actions.

use crate::cache::{has_key, str_views};
use crate::mangadex::{Manga, MangaView};
use crate::tasks::{Action, PendingSet};
use crate::ui::{
    opt_manga_view, same_browse, same_chrome, same_detail, same_library, same_reader,
    same_search, App, Focus, Screen, Tab,
};
use vstd::prelude::*;
use vstd::string::*;

verus! {

/// A pressed key, as far as the handlers care.
#[derive(Clone, Copy, Debug, PartialEq, Eq, Structural)]
pub enum Key {
    Tab,
    Up,
    Down,
    Left,
    Right,
    Enter,
    Esc,
    Backspace,
    Char(char),
    Other,
}

/// Relies on std's `String::push`: appends one character.
#[verifier::external_body]
fn push_char(s: &mut String, c: char)
    ensures
        final(s)@ == old(s)@.push(c),
{
    s.push(c)
}

/// Relies on std's `String::pop`: removes and returns the last
/// character, or does nothing to an empty string.
#[verifier::external_body]
fn pop_char(s: &mut String) -> (r: Option<char>)
    ensures
        old(s)@.len() == 0 ==> r is None && final(s)@ == old(s)@,
        old(s)@.len() > 0 ==> r == Some(old(s)@.last()) && final(s)@ == old(s)@.drop_last(),
{
    s.pop()
}

/// `b` is `a` with a manga's detail screen freshly opened.
pub open spec fn spec_opened_manga(a: App, b: App, m: MangaView) -> bool {
    &&& same_chrome(b, a)
    &&& same_browse(b, a)
    &&& same_search(b, a)
    &&& same_library(b, a)
    &&& same_reader(b, a)
    &&& b.view == Screen::MangaDetail
    &&& opt_manga_view(b.selected_manga) == Some(m)
    &&& b.chapters@ == Seq::<crate::mangadex::Chapter>::empty()
    &&& b.chapter_selected == 0
    &&& b.chapter_scroll_row == 0
    &&& b.chapter_grid_cols == a.chapter_grid_cols
    &&& b.chapter_thumbnails.map_view() == Seq::<(Seq<char>, image::DynamicImage)>::empty()
}

/// Opening a manga and asking for its chapter list: the one action is
/// that fetch.
pub open spec fn spec_open_with_fetch(a: App, b: App, m: MangaView, acts: Seq<Action>) -> bool {
    &&& spec_opened_manga(a, b, m)
    &&& acts.len() == 1
    &&& (acts[0] matches Action::FetchChapters { manga_id } && manga_id@ == m.id)
}

/// What a pass over upcoming covers schedules: for each manga of the
/// window whose cover is neither rendered nor being fetched, one fetch,
/// claiming its id. Returns the (id, cover URL) pairs scheduled and the
/// pending keys afterwards.
pub open spec fn spec_cover_schedule(
    ms: Seq<MangaView>,
    loaded: Seq<(Seq<char>, image::DynamicImage)>,
    pending: Seq<Seq<char>>,
) -> (Seq<(Seq<char>, Seq<char>)>, Seq<Seq<char>>)
    decreases ms.len(),
{
    if ms.len() == 0 {
        (Seq::<(Seq<char>, Seq<char>)>::empty(), pending)
    } else {
        let m = ms.first();
        if !has_key(loaded, m.id) && !pending.contains(m.id) {
            let rest = spec_cover_schedule(ms.drop_first(), loaded, pending.push(m.id));
            (seq![(m.id, m.cover_url)] + rest.0, rest.1)
        } else {
            spec_cover_schedule(ms.drop_first(), loaded, pending)
        }
    }
}

/// The manga window a cover pass looks at: up to 8 entries from
/// `offset`.
pub open spec fn spec_cover_window(ms: Seq<MangaView>, offset: int) -> Seq<MangaView> {
    if offset >= ms.len() {
        Seq::<MangaView>::empty()
    } else if offset + 8 <= ms.len() {
        ms.subrange(offset, offset + 8)
    } else {
        ms.subrange(offset, ms.len() as int)
    }
}

/// The (id, cover URL) pairs named by a sequence of cover fetches.
pub open spec fn cover_pairs(acts: Seq<Action>) -> Seq<(Seq<char>, Seq<char>)> {
    acts.map_values(
        |a: Action|
            match a {
                Action::FetchCover { manga_id, cover_url } => (manga_id@, cover_url@),
                _ => (Seq::<char>::empty(), Seq::<char>::empty()),
            },
    )
}

/// Every action is a cover fetch.
pub open spec fn all_cover_fetches(acts: Seq<Action>) -> bool {
    forall|i: int| 0 <= i < acts.len() ==> #[trigger] acts[i] matches Action::FetchCover { .. }
}

proof fn lemma_cover_schedule_snoc(
    ms: Seq<MangaView>,
    m: MangaView,
    loaded: Seq<(Seq<char>, image::DynamicImage)>,
    pending: Seq<Seq<char>>,
)
    ensures
        ({
            let done = spec_cover_schedule(ms, loaded, pending);
            let ext = spec_cover_schedule(ms.push(m), loaded, pending);
            &&& (!has_key(loaded, m.id) && !done.1.contains(m.id)) ==> ext.0 == done.0.push(
                (m.id, m.cover_url),
            ) && ext.1 == done.1.push(m.id)
            &&& (has_key(loaded, m.id) || done.1.contains(m.id)) ==> ext.0 == done.0 && ext.1
                == done.1
        }),
    decreases ms.len(),
{
    let done = spec_cover_schedule(ms, loaded, pending);
    let ext = spec_cover_schedule(ms.push(m), loaded, pending);
    if ms.len() == 0 {
        assert(ms.push(m).first() == m);
        assert(ms.push(m).drop_first() =~= ms);
        if !has_key(loaded, m.id) && !pending.contains(m.id) {
            let rest = spec_cover_schedule(ms, loaded, pending.push(m.id));
            assert(rest.0 =~= Seq::<(Seq<char>, Seq<char>)>::empty());
            assert(ext.0 == seq![(m.id, m.cover_url)] + rest.0);
            assert(ext.0 =~~= done.0.push((m.id, m.cover_url)));
            assert(ext.1 =~~= done.1.push(m.id));
        } else {
            assert(ext.0 =~~= done.0);
            assert(ext.1 =~~= done.1);
        }
    } else {
        let h = ms.first();
        assert(ms.push(m).first() == h);
        assert(ms.push(m).drop_first() =~= ms.drop_first().push(m));
        if !has_key(loaded, h.id) && !pending.contains(h.id) {
            lemma_cover_schedule_snoc(ms.drop_first(), m, loaded, pending.push(h.id));
            let rest = spec_cover_schedule(ms.drop_first(), loaded, pending.push(h.id));
            if !has_key(loaded, m.id) && !rest.1.contains(m.id) {
                assert(ext.0 =~~= (seq![(h.id, h.cover_url)] + rest.0).push((m.id, m.cover_url)));
                assert(ext.0 =~~= done.0.push((m.id, m.cover_url)));
                assert(ext.1 =~~= done.1.push(m.id));
            } else {
                assert(ext.0 =~~= done.0);
                assert(ext.1 =~~= done.1);
            }
        } else {
            lemma_cover_schedule_snoc(ms.drop_first(), m, loaded, pending);
        }
    }
}

/// Schedules cover fetches for up to 8 manga starting at `offset`,
/// skipping covers already rendered or already being fetched, and
/// claims each id it schedules.
pub fn preload_covers(
    mangas: &Vec<Manga>,
    offset: usize,
    pending: &mut PendingSet,
    loaded: &crate::ui::ImageMap,
) -> (acts: Vec<Action>)
    requires
        old(pending).wf(),
    ensures
        final(pending).wf(),
        all_cover_fetches(acts@),
        cover_pairs(acts@) == spec_cover_schedule(
            spec_cover_window(crate::mangadex::manga_views(mangas@), offset as int),
            loaded.map_view(),
            old(pending).keys_view(),
        ).0,
        final(pending).keys_view() == spec_cover_schedule(
            spec_cover_window(crate::mangadex::manga_views(mangas@), offset as int),
            loaded.map_view(),
            old(pending).keys_view(),
        ).1,
{
    let ghost mviews = crate::mangadex::manga_views(mangas@);
    let ghost window = spec_cover_window(mviews, offset as int);
    let mut acts: Vec<Action> = Vec::new();
    let n = mangas.len();
    if offset >= n {
        proof {
            assert(window =~= Seq::<MangaView>::empty());
            assert(cover_pairs(acts@) =~= spec_cover_schedule(
                window,
                loaded.map_view(),
                old(pending).keys_view(),
            ).0);
        }
        return acts;
    }
    let end = if n - offset < 8 {
        n
    } else {
        offset + 8
    };
    let mut j: usize = offset;
    proof {
        assert(window =~= mviews.subrange(offset as int, end as int));
    }
    while j < end
        invariant
            offset <= j <= end <= mangas@.len(),
            mviews == crate::mangadex::manga_views(mangas@),
            window == mviews.subrange(offset as int, end as int),
            pending.wf(),
            cover_pairs(acts@) == spec_cover_schedule(
                window.take(j - offset),
                loaded.map_view(),
                old(pending).keys_view(),
            ).0,
            pending.keys_view() == spec_cover_schedule(
                window.take(j - offset),
                loaded.map_view(),
                old(pending).keys_view(),
            ).1,
            all_cover_fetches(acts@),
        decreases end - j,
    {
        let m = &mangas[j];
        proof {
            assert(window[j - offset] == m@);
        }
        if !loaded.contains_key(m.id.as_str()) {
            let started = pending.begin(m.id.as_str());
            if started {
                let ghost acts_prev = acts@;
                let act = Action::FetchCover {
                    manga_id: m.id.clone(),
                    cover_url: m.cover_url.clone(),
                };
                let ghost actg = act;
                acts.push(act);
                proof {
                    crate::cache::lemma_map_values_push(
                        acts_prev,
                        |a: Action|
                            match a {
                                Action::FetchCover { manga_id, cover_url } => (
                                    manga_id@,
                                    cover_url@,
                                ),
                                _ => (Seq::<char>::empty(), Seq::<char>::empty()),
                            },
                        actg,
                    );
                }
            }
        }
        proof {
            let w_take = window.take(j - offset);
            let w_take_next = window.take(j - offset + 1);
            assert(w_take_next =~= w_take.push(window[j - offset]));
            lemma_cover_schedule_snoc(
                w_take,
                window[j - offset],
                loaded.map_view(),
                old(pending).keys_view(),
            );
            assert(cover_pairs(acts@) =~~= spec_cover_schedule(
                w_take_next,
                loaded.map_view(),
                old(pending).keys_view(),
            ).0);
            assert(pending.keys_view() =~= spec_cover_schedule(
                w_take_next,
                loaded.map_view(),
                old(pending).keys_view(),
            ).1);
        }
        j = j + 1;
    }
    proof {
        assert(window.take(end - offset) =~= window);
    }
    acts
}

/// Saturating decrement.
pub open spec fn dec(n: nat) -> nat {
    if n > 0 {
        (n - 1) as nat
    } else {
        0
    }
}

/// Increment, saturating at the machine bound.
pub open spec fn inc(n: nat) -> nat {
    if n < usize::MAX {
        n + 1
    } else {
        n
    }
}

/// Focus order on the home tab: header, recent row, popular row.
pub open spec fn focus_next(f: Focus) -> Focus {
    match f {
        Focus::Header => Focus::Recent,
        Focus::Recent => Focus::Popular,
        Focus::Popular => Focus::Header,
    }
}

/// The reverse focus order.
pub open spec fn focus_prev(f: Focus) -> Focus {
    match f {
        Focus::Header => Focus::Popular,
        Focus::Recent => Focus::Header,
        Focus::Popular => Focus::Recent,
    }
}

/// The bookmarked manga as the bookmarks tab lists them.
pub open spec fn bookmarked_of(a: App) -> Seq<MangaView> {
    a.bookmarks.records().map_values(
        |b: crate::bookmarks::BookmarkedMangaView| crate::bookmarks::spec_manga_of_bookmark(b),
    )
}

/// A no-op: state and pending keys unchanged, nothing scheduled.
pub open spec fn spec_noop(a: App, b: App, p0: Seq<Seq<char>>, p1: Seq<Seq<char>>, acts: Seq<
    Action,
>) -> bool {
    b == a && p1 == p0 && acts.len() == 0
}

/// How one key changes the home tab.
pub open spec fn spec_home_tab_step(
    a: App,
    b: App,
    key: Key,
    p0: Seq<Seq<char>>,
    p1: Seq<Seq<char>>,
    acts: Seq<Action>,
) -> bool {
    if key == Key::Tab || key == Key::Down {
        b == (App { focus: focus_next(a.focus), ..a }) && p1 == p0 && acts.len() == 0
    } else if key == Key::Up {
        b == (App { focus: focus_prev(a.focus), ..a }) && p1 == p0 && acts.len() == 0
    } else if key == Key::Left {
        match a.focus {
            Focus::Header => b == (App { tab: Tab::Search, ..a }) && p1 == p0 && acts.len() == 0,
            Focus::Recent => b == (
                App { recent_offset: dec(a.recent_offset as nat) as usize, ..a }
            ) && p1 == p0 && acts.len() == 0,
            Focus::Popular => b == (
                App { popular_offset: dec(a.popular_offset as nat) as usize, ..a }
            ) && p1 == p0 && acts.len() == 0,
        }
    } else if key == Key::Right {
        match a.focus {
            Focus::Header => b == (App { tab: Tab::Bookmarks, ..a }) && p1 == p0 && acts.len()
                == 0,
            Focus::Recent => {
                let off = inc(a.recent_offset as nat) as usize;
                let sched = spec_cover_schedule(
                    spec_cover_window(
                        crate::mangadex::manga_views(a.recently_updated@),
                        off as int,
                    ),
                    a.cover_images.map_view(),
                    p0,
                );
                &&& b == (App { recent_offset: off, ..a })
                &&& p1 == sched.1
                &&& all_cover_fetches(acts)
                &&& cover_pairs(acts) == sched.0
            },
            Focus::Popular => {
                let off = inc(a.popular_offset as nat) as usize;
                let sched = spec_cover_schedule(
                    spec_cover_window(crate::mangadex::manga_views(a.popular_now@), off as int),
                    a.cover_images.map_view(),
                    p0,
                );
                &&& b == (App { popular_offset: off, ..a })
                &&& p1 == sched.1
                &&& all_cover_fetches(acts)
                &&& cover_pairs(acts) == sched.0
            },
        }
    } else if key == Key::Enter {
        match a.focus {
            Focus::Recent => if a.recent_offset < a.recently_updated@.len() {
                spec_open_with_fetch(
                    a,
                    b,
                    a.recently_updated@[a.recent_offset as int]@,
                    acts,
                ) && p1 == p0
            } else {
                spec_noop(a, b, p0, p1, acts)
            },
            Focus::Popular => if a.popular_offset < a.popular_now@.len() {
                spec_open_with_fetch(a, b, a.popular_now@[a.popular_offset as int]@, acts) && p1
                    == p0
            } else {
                spec_noop(a, b, p0, p1, acts)
            },
            Focus::Header => spec_noop(a, b, p0, p1, acts),
        }
    } else {
        spec_noop(a, b, p0, p1, acts)
    }
}

/// Keys on the home tab: Tab/arrows move focus and scroll the rows
/// (scrolling right prefetches upcoming covers), Enter opens the
/// selected manga and asks for its chapters.
pub fn handle_home_tab_input(app: &mut App, key: Key, pending_covers: &mut PendingSet) -> (acts:
    Vec<Action>)
    requires
        old(app).wf(),
        old(pending_covers).wf(),
    ensures
        final(app).wf(),
        final(pending_covers).wf(),
        spec_home_tab_step(
            *old(app),
            *final(app),
            key,
            old(pending_covers).keys_view(),
            final(pending_covers).keys_view(),
            acts@,
        ),
{
    match key {
        Key::Tab | Key::Down => {
            app.focus = match app.focus {
                Focus::Header => Focus::Recent,
                Focus::Recent => Focus::Popular,
                Focus::Popular => Focus::Header,
            };
            Vec::new()
        },
        Key::Up => {
            app.focus = match app.focus {
                Focus::Header => Focus::Popular,
                Focus::Recent => Focus::Header,
                Focus::Popular => Focus::Recent,
            };
            Vec::new()
        },
        Key::Left => {
            match app.focus {
                Focus::Header => {
                    app.tab = Tab::Search;
                },
                Focus::Recent => {
                    if app.recent_offset > 0 {
                        app.recent_offset = app.recent_offset - 1;
                    }
                },
                Focus::Popular => {
                    if app.popular_offset > 0 {
                        app.popular_offset = app.popular_offset - 1;
                    }
                },
            }
            Vec::new()
        },
        Key::Right => {
            match app.focus {
                Focus::Header => {
                    app.tab = Tab::Bookmarks;
                    Vec::new()
                },
                Focus::Recent => {
                    if app.recent_offset < usize::MAX {
                        app.recent_offset = app.recent_offset + 1;
                    }
                    preload_covers(
                        &app.recently_updated,
                        app.recent_offset,
                        pending_covers,
                        &app.cover_images,
                    )
                },
                Focus::Popular => {
                    if app.popular_offset < usize::MAX {
                        app.popular_offset = app.popular_offset + 1;
                    }
                    preload_covers(
                        &app.popular_now,
                        app.popular_offset,
                        pending_covers,
                        &app.cover_images,
                    )
                },
            }
        },
        Key::Enter => {
            let picked: Option<Manga> = match app.focus {
                Focus::Recent => {
                    if app.recent_offset < app.recently_updated.len() {
                        Some(crate::mangadex::clone_manga(&app.recently_updated[app.recent_offset]))
                    } else {
                        None
                    }
                },
                Focus::Popular => {
                    if app.popular_offset < app.popular_now.len() {
                        Some(crate::mangadex::clone_manga(&app.popular_now[app.popular_offset]))
                    } else {
                        None
                    }
                },
                Focus::Header => None,
            };
            match picked {
                Some(manga) => {
                    let manga_id = manga.id.clone();
                    app.open_manga(manga);
                    let mut acts: Vec<Action> = Vec::new();
                    acts.push(Action::FetchChapters { manga_id });
                    acts
                },
                None => Vec::new(),
            }
        },
        _ => Vec::new(),
    }
}

/// How one key changes the bookmarks tab.
pub open spec fn spec_bookmarks_tab_step(
    a: App,
    b: App,
    key: Key,
    p0: Seq<Seq<char>>,
    p1: Seq<Seq<char>>,
    acts: Seq<Action>,
) -> bool {
    let marked = bookmarked_of(a);
    if key == Key::Left {
        if a.focus == Focus::Header {
            b == (App { tab: Tab::Home, ..a }) && p1 == p0 && acts.len() == 0
        } else {
            b == (App { bookmark_offset: dec(a.bookmark_offset as nat) as usize, ..a }) && p1
                == p0 && acts.len() == 0
        }
    } else if key == Key::Right {
        if a.focus == Focus::Header {
            b == (App { tab: Tab::Search, ..a }) && p1 == p0 && acts.len() == 0
        } else if marked.len() > 0 && a.bookmark_offset + 1 < marked.len() {
            let off = (a.bookmark_offset + 1) as usize;
            let sched = spec_cover_schedule(
                spec_cover_window(marked, off as int),
                a.cover_images.map_view(),
                p0,
            );
            &&& b == (App { bookmark_offset: off, ..a })
            &&& p1 == sched.1
            &&& all_cover_fetches(acts)
            &&& cover_pairs(acts) == sched.0
        } else {
            spec_noop(a, b, p0, p1, acts)
        }
    } else if key == Key::Tab || key == Key::Down {
        b == (App { focus: Focus::Recent, ..a }) && p1 == p0 && acts.len() == 0
    } else if key == Key::Up {
        b == (App { focus: Focus::Header, ..a }) && p1 == p0 && acts.len() == 0
    } else if key == Key::Enter {
        if a.focus != Focus::Header && a.bookmark_offset < marked.len() {
            spec_open_with_fetch(a, b, marked[a.bookmark_offset as int], acts) && p1 == p0
        } else {
            spec_noop(a, b, p0, p1, acts)
        }
    } else {
        spec_noop(a, b, p0, p1, acts)
    }
}

/// Keys on the bookmarks tab: arrows scroll the bookmarked row
/// (prefetching covers to the right), Enter opens the selected
/// bookmark.
pub fn handle_bookmarks_tab_input(
    app: &mut App,
    key: Key,
    pending_covers: &mut PendingSet,
) -> (acts: Vec<Action>)
    requires
        old(app).wf(),
        old(pending_covers).wf(),
    ensures
        final(app).wf(),
        final(pending_covers).wf(),
        spec_bookmarks_tab_step(
            *old(app),
            *final(app),
            key,
            old(pending_covers).keys_view(),
            final(pending_covers).keys_view(),
            acts@,
        ),
{
    let bookmarked = app.bookmarks.get_bookmarked_manga();
    proof {
        assert(crate::mangadex::manga_views(bookmarked@) == bookmarked_of(*app));
    }
    match key {
        Key::Left => {
            if matches!(app.focus, Focus::Header) {
                app.tab = Tab::Home;
            } else {
                if app.bookmark_offset > 0 {
                    app.bookmark_offset = app.bookmark_offset - 1;
                }
            }
            Vec::new()
        },
        Key::Right => {
            if matches!(app.focus, Focus::Header) {
                app.tab = Tab::Search;
                Vec::new()
            } else if bookmarked.len() > 0 && app.bookmark_offset < bookmarked.len() - 1 {
                app.bookmark_offset = app.bookmark_offset + 1;
                preload_covers(
                    &bookmarked,
                    app.bookmark_offset,
                    pending_covers,
                    &app.cover_images,
                )
            } else {
                Vec::new()
            }
        },
        Key::Tab | Key::Down => {
            app.focus = Focus::Recent;
            Vec::new()
        },
        Key::Up => {
            app.focus = Focus::Header;
            Vec::new()
        },
        Key::Enter => {
            if !matches!(app.focus, Focus::Header) && app.bookmark_offset < bookmarked.len() {
                let manga = crate::mangadex::clone_manga(&bookmarked[app.bookmark_offset]);
                let manga_id = manga.id.clone();
                app.open_manga(manga);
                let mut acts: Vec<Action> = Vec::new();
                acts.push(Action::FetchChapters { manga_id });
                acts
            } else {
                Vec::new()
            }
        },
        _ => Vec::new(),
    }
}

/// Everything a search-tab key leaves alone.
pub open spec fn same_but_search(a: App, b: App) -> bool {
    &&& same_chrome(b, a)
    &&& same_browse(b, a)
    &&& same_library(b, a)
    &&& same_detail(b, a)
    &&& same_reader(b, a)
    &&& b.view == a.view
}

/// How one key changes the search tab at time `now`.
pub open spec fn spec_search_tab_step(
    a: App,
    b: App,
    key: Key,
    now: u64,
    p0: Seq<Seq<char>>,
    p1: Seq<Seq<char>>,
    acts: Seq<Action>,
) -> bool {
    match key {
        Key::Char(c) => {
            &&& same_but_search(a, b)
            &&& b.search_query@ == a.search_query@.push(c)
            &&& b.search_debounce == Some(now)
            &&& b.search_results == a.search_results
            &&& b.search_offset == a.search_offset
            &&& b.searching == a.searching
            &&& b.last_search_query == a.last_search_query
            &&& p1 == p0
            &&& acts.len() == 0
        },
        Key::Backspace => {
            let q2 = if a.search_query@.len() > 0 {
                a.search_query@.drop_last()
            } else {
                a.search_query@
            };
            &&& same_but_search(a, b)
            &&& b.search_query@ == q2
            &&& b.search_offset == a.search_offset
            &&& b.searching == a.searching
            &&& (q2.len() == 0 ==> b.search_results@ == Seq::<Manga>::empty()
                && b.last_search_query@ == Seq::<char>::empty() && b.search_debounce is None)
            &&& (q2.len() > 0 ==> b.search_results == a.search_results && b.last_search_query
                == a.last_search_query && b.search_debounce == Some(now))
            &&& p1 == p0
            &&& acts.len() == 0
        },
        Key::Enter => {
            if a.focus == Focus::Header {
                if a.search_query@.len() > 0 && !a.searching {
                    &&& same_but_search(a, b)
                    &&& b.search_query == a.search_query
                    &&& b.search_results == a.search_results
                    &&& b.search_offset == a.search_offset
                    &&& b.searching == true
                    &&& b.last_search_query@ == a.search_query@
                    &&& b.search_debounce is None
                    &&& p1 == p0
                    &&& acts.len() == 1
                    &&& (acts[0] matches Action::Search { query } && query@ == a.search_query@)
                } else {
                    spec_noop(a, b, p0, p1, acts)
                }
            } else {
                if a.search_offset < a.search_results@.len() {
                    spec_open_with_fetch(
                        a,
                        b,
                        a.search_results@[a.search_offset as int]@,
                        acts,
                    ) && p1 == p0
                } else {
                    spec_noop(a, b, p0, p1, acts)
                }
            }
        },
        Key::Left => {
            if a.focus == Focus::Header {
                b == (App { tab: Tab::Bookmarks, ..a }) && p1 == p0 && acts.len() == 0
            } else {
                b == (App { search_offset: dec(a.search_offset as nat) as usize, ..a }) && p1
                    == p0 && acts.len() == 0
            }
        },
        Key::Right => {
            if a.focus == Focus::Header {
                b == (App { tab: Tab::Home, ..a }) && p1 == p0 && acts.len() == 0
            } else if a.search_results@.len() > 0 && a.search_offset + 1
                < a.search_results@.len() {
                let off = (a.search_offset + 1) as usize;
                let sched = spec_cover_schedule(
                    spec_cover_window(
                        crate::mangadex::manga_views(a.search_results@),
                        off as int,
                    ),
                    a.cover_images.map_view(),
                    p0,
                );
                &&& b == (App { search_offset: off, ..a })
                &&& p1 == sched.1
                &&& all_cover_fetches(acts)
                &&& cover_pairs(acts) == sched.0
            } else {
                spec_noop(a, b, p0, p1, acts)
            }
        },
        Key::Tab => b == (App { focus: Focus::Recent, ..a }) && p1 == p0 && acts.len() == 0,
        Key::Down => b == (App { focus: Focus::Recent, ..a }) && p1 == p0 && acts.len() == 0,
        Key::Up => b == (App { focus: Focus::Header, ..a }) && p1 == p0 && acts.len() == 0,
        Key::Esc => {
            if a.focus != Focus::Header {
                b == (App { focus: Focus::Header, ..a }) && p1 == p0 && acts.len() == 0
            } else {
                &&& same_but_search(a, b)
                &&& b.search_query@ == Seq::<char>::empty()
                &&& b.search_results@ == Seq::<Manga>::empty()
                &&& b.search_debounce is None
                &&& b.search_offset == a.search_offset
                &&& b.searching == a.searching
                &&& b.last_search_query == a.last_search_query
                &&& p1 == p0
                &&& acts.len() == 0
            }
        },
        Key::Other => spec_noop(a, b, p0, p1, acts),
    }
}

/// Keys on the search tab: typing edits the query and arms the
/// debounce timer, Enter on the header dispatches at once, Enter on
/// the results opens a manga, Esc clears. Clearing the query cancels a
/// pending debounce and drops the results without dispatching.
pub fn handle_search_tab_input(
    app: &mut App,
    key: Key,
    now_ms: u64,
    pending_covers: &mut PendingSet,
) -> (acts: Vec<Action>)
    requires
        old(app).wf(),
        old(pending_covers).wf(),
    ensures
        final(app).wf(),
        final(pending_covers).wf(),
        spec_search_tab_step(
            *old(app),
            *final(app),
            key,
            now_ms,
            old(pending_covers).keys_view(),
            final(pending_covers).keys_view(),
            acts@,
        ),
{
    match key {
        Key::Char(c) => {
            push_char(&mut app.search_query, c);
            app.search_debounce = Some(now_ms);
            Vec::new()
        },
        Key::Backspace => {
            let _ = pop_char(&mut app.search_query);
            if app.search_query.unicode_len() == 0 {
                app.search_results = Vec::new();
                app.last_search_query = String::new();
                app.search_debounce = None;
            } else {
                app.search_debounce = Some(now_ms);
            }
            Vec::new()
        },
        Key::Enter => {
            if matches!(app.focus, Focus::Header) {
                if app.search_query.unicode_len() > 0 && !app.searching {
                    app.searching = true;
                    app.last_search_query = app.search_query.clone();
                    app.search_debounce = None;
                    let mut acts: Vec<Action> = Vec::new();
                    acts.push(Action::Search { query: app.search_query.clone() });
                    acts
                } else {
                    Vec::new()
                }
            } else {
                if app.search_offset < app.search_results.len() {
                    let manga = crate::mangadex::clone_manga(
                        &app.search_results[app.search_offset],
                    );
                    let manga_id = manga.id.clone();
                    app.open_manga(manga);
                    let mut acts: Vec<Action> = Vec::new();
                    acts.push(Action::FetchChapters { manga_id });
                    acts
                } else {
                    Vec::new()
                }
            }
        },
        Key::Left => {
            if matches!(app.focus, Focus::Header) {
                app.tab = Tab::Bookmarks;
            } else {
                if app.search_offset > 0 {
                    app.search_offset = app.search_offset - 1;
                }
            }
            Vec::new()
        },
        Key::Right => {
            if matches!(app.focus, Focus::Header) {
                app.tab = Tab::Home;
                Vec::new()
            } else if app.search_results.len() > 0 && app.search_offset
                < app.search_results.len() - 1 {
                app.search_offset = app.search_offset + 1;
                let offset = app.search_offset;
                let results = crate::mangadex::clone_mangas(&app.search_results);
                let acts = preload_covers(&results, offset, pending_covers, &app.cover_images);
                acts
            } else {
                Vec::new()
            }
        },
        Key::Tab | Key::Down => {
            app.focus = Focus::Recent;
            Vec::new()
        },
        Key::Up => {
            app.focus = Focus::Header;
            Vec::new()
        },
        Key::Esc => {
            if !matches!(app.focus, Focus::Header) {
                app.focus = Focus::Header;
            } else {
                app.search_query = String::new();
                app.search_results = Vec::new();
                app.search_debounce = None;
            }
            Vec::new()
        },
        Key::Other => Vec::new(),
    }
}

/// Home-screen key dispatch: each tab has its own handler.
pub fn handle_home_input(
    app: &mut App,
    key: Key,
    now_ms: u64,
    pending_covers: &mut PendingSet,
) -> (acts: Vec<Action>)
    requires
        old(app).wf(),
        old(pending_covers).wf(),
    ensures
        final(app).wf(),
        final(pending_covers).wf(),
        match old(app).tab {
            Tab::Home => spec_home_tab_step(
                *old(app),
                *final(app),
                key,
                old(pending_covers).keys_view(),
                final(pending_covers).keys_view(),
                acts@,
            ),
            Tab::Bookmarks => spec_bookmarks_tab_step(
                *old(app),
                *final(app),
                key,
                old(pending_covers).keys_view(),
                final(pending_covers).keys_view(),
                acts@,
            ),
            Tab::Search => spec_search_tab_step(
                *old(app),
                *final(app),
                key,
                now_ms,
                old(pending_covers).keys_view(),
                final(pending_covers).keys_view(),
                acts@,
            ),
        },
{
    match app.tab {
        Tab::Home => handle_home_tab_input(app, key, pending_covers),
        Tab::Bookmarks => handle_bookmarks_tab_input(app, key, pending_covers),
        Tab::Search => handle_search_tab_input(app, key, now_ms, pending_covers),
    }
}

/// `b` is `a` stepped back one screen: the reader returns to the
/// detail screen, the detail screen returns home dropping its
/// selection, home stays.
pub open spec fn spec_went_back(a: App, b: App) -> bool {
    &&& a.view == Screen::Reader ==> b == (App { view: Screen::MangaDetail, ..a })
    &&& a.view == Screen::MangaDetail ==> {
        &&& same_chrome(b, a)
        &&& same_browse(b, a)
        &&& same_search(b, a)
        &&& same_library(b, a)
        &&& same_reader(b, a)
        &&& b.view == Screen::Home
        &&& b.selected_manga is None
        &&& b.chapters@ == Seq::<crate::mangadex::Chapter>::empty()
        &&& b.chapter_selected == a.chapter_selected
        &&& b.chapter_scroll_row == a.chapter_scroll_row
        &&& b.chapter_grid_cols == a.chapter_grid_cols
        &&& b.chapter_thumbnails == a.chapter_thumbnails
    }
    &&& a.view == Screen::Home ==> b == a
}

/// Backing out of the reader returns to the detail screen with the
/// selection intact; backing out again resets the selected manga and
/// chapter list exactly once, at the detail-to-home step.
pub proof fn lemma_back_home_resets(a: App, b: App, c: App)
    requires
        a.view == Screen::Reader,
        spec_went_back(a, b),
        spec_went_back(b, c),
    ensures
        b.view == Screen::MangaDetail,
        b.selected_manga == a.selected_manga,
        b.chapters == a.chapters,
        c.view == Screen::Home,
        c.selected_manga is None,
        c.chapters@ == Seq::<crate::mangadex::Chapter>::empty(),
{
}

/// The thumbnail fetch a move onto chapter `idx` requests: one, when
/// the chapter exists, is readable in-app, and has no thumbnail yet.
pub open spec fn spec_thumb_request(a: App, idx: int, acts: Seq<Action>) -> bool {
    if 0 <= idx < a.chapters@.len() && a.chapters@[idx]@.external_url is None && !has_key(
        a.chapter_thumbnails.map_view(),
        a.chapters@[idx]@.id,
    ) {
        acts.len() == 1 && (acts[0] matches Action::FetchChapterThumbnail { chapter_id }
            && chapter_id@ == a.chapters@[idx]@.id)
    } else {
        acts.len() == 0
    }
}

/// `b` is `a` with the reader freshly opened on chapter `idx`.
pub open spec fn spec_opened_reader(a: App, b: App, idx: int) -> bool {
    &&& same_chrome(b, a)
    &&& same_browse(b, a)
    &&& same_search(b, a)
    &&& same_library(b, a)
    &&& same_detail(b, a)
    &&& b.view == Screen::Reader
    &&& b.reader.current_chapter_idx == idx
    &&& opt_manga_view(b.reader.manga) == opt_manga_view(a.selected_manga)
    &&& crate::mangadex::chapter_views(b.reader.chapters@) == crate::mangadex::chapter_views(
        a.chapters@,
    )
    &&& b.reader.current_page == 0
    &&& b.reader.page_urls@ == Seq::<String>::empty()
    &&& b.reader.page_image is None
    &&& b.reader.loading == true
    &&& b.reader.error is None
}

/// How one key changes the detail screen.
pub open spec fn spec_detail_step(a: App, b: App, key: Key, acts: Seq<Action>) -> bool {
    let cols = if a.chapter_grid_cols > 0 {
        a.chapter_grid_cols as int
    } else {
        1
    };
    if key == Key::Esc {
        spec_went_back(a, b) && acts.len() == 0
    } else if key == Key::Left {
        if a.chapter_selected > 0 {
            b == (App { chapter_selected: (a.chapter_selected - 1) as usize, ..a })
                && spec_thumb_request(a, a.chapter_selected - 1, acts)
        } else {
            b == a && acts.len() == 0
        }
    } else if key == Key::Right {
        if a.chapter_selected + 1 < a.chapters@.len() {
            b == (App { chapter_selected: (a.chapter_selected + 1) as usize, ..a })
                && spec_thumb_request(a, a.chapter_selected + 1, acts)
        } else {
            b == a && acts.len() == 0
        }
    } else if key == Key::Up {
        if a.chapter_selected >= cols {
            b == (App { chapter_selected: (a.chapter_selected - cols) as usize, ..a })
                && spec_thumb_request(a, a.chapter_selected - cols, acts)
        } else {
            b == a && acts.len() == 0
        }
    } else if key == Key::Down {
        if a.chapter_selected + cols < a.chapters@.len() {
            b == (App { chapter_selected: (a.chapter_selected + cols) as usize, ..a })
                && spec_thumb_request(a, a.chapter_selected + cols, acts)
        } else {
            b == a && acts.len() == 0
        }
    } else if key == Key::Enter {
        if a.chapter_selected < a.chapters@.len() {
            let c = a.chapters@[a.chapter_selected as int]@;
            match c.external_url {
                Some(u) => b == a && acts.len() == 1 && (acts[0]
                    matches Action::OpenExternal { url } && url@ == u),
                None => spec_opened_reader(a, b, a.chapter_selected as int) && acts.len() == 1
                    && (acts[0] matches Action::FetchPageUrls { chapter_id } && chapter_id@
                    == c.id),
            }
        } else {
            b == a && acts.len() == 0
        }
    } else if key == Key::Char('b') {
        &&& same_chrome(b, a)
        &&& same_browse(b, a)
        &&& same_search(b, a)
        &&& same_detail(b, a)
        &&& same_reader(b, a)
        &&& b.view == a.view
        &&& b.cover_images == a.cover_images
        &&& (match a.selected_manga {
            Some(m) => b.bookmarks.ids() == if a.bookmarks.ids().contains(m@.id) {
                crate::bookmarks::remove_id(a.bookmarks.ids(), m@.id)
            } else {
                a.bookmarks.ids().push(m@.id)
            },
            None => b.bookmarks == a.bookmarks,
        })
        &&& acts.len() == 0
    } else {
        b == a && acts.len() == 0
    }
}

fn preload_chapter_thumbnails(app: &App, idx: usize) -> (acts: Vec<Action>)
    ensures
        spec_thumb_request(*app, idx as int, acts@),
{
    let mut acts: Vec<Action> = Vec::new();
    if idx < app.chapters.len() {
        let c = &app.chapters[idx];
        match &c.external_url {
            None => {
                if !app.chapter_thumbnails.contains_key(c.id.as_str()) {
                    acts.push(Action::FetchChapterThumbnail { chapter_id: c.id.clone() });
                }
            },
            Some(_) => {},
        }
    }
    acts
}

/// Keys on the detail screen: arrows move through the chapter grid
/// (requesting a thumbnail for the newly selected chapter), Enter
/// opens the reader — or the browser, for an externally hosted
/// chapter — 'b' toggles the bookmark, Esc goes back.
pub fn handle_detail_input(app: &mut App, key: Key) -> (acts: Vec<Action>)
    requires
        old(app).wf(),
    ensures
        final(app).wf(),
        spec_detail_step(*old(app), *final(app), key, acts@),
{
    let cols = if app.chapter_grid_cols > 0 {
        app.chapter_grid_cols
    } else {
        1
    };
    match key {
        Key::Esc => {
            app.go_back();
            proof {
                if old(app).view == Screen::Reader {
                    assert(*app =~= (App { view: Screen::MangaDetail, ..*old(app) }));
                }
            }
            Vec::new()
        },
        Key::Left => {
            if app.chapter_selected > 0 {
                app.chapter_selected = app.chapter_selected - 1;
                preload_chapter_thumbnails(app, app.chapter_selected)
            } else {
                Vec::new()
            }
        },
        Key::Right => {
            let n = app.chapters.len();
            if n > 0 && app.chapter_selected < n - 1 {
                app.chapter_selected = app.chapter_selected + 1;
                preload_chapter_thumbnails(app, app.chapter_selected)
            } else {
                Vec::new()
            }
        },
        Key::Up => {
            if app.chapter_selected >= cols {
                app.chapter_selected = app.chapter_selected - cols;
                preload_chapter_thumbnails(app, app.chapter_selected)
            } else {
                Vec::new()
            }
        },
        Key::Down => {
            let n = app.chapters.len();
            if app.chapter_selected < n && cols < n - app.chapter_selected {
                app.chapter_selected = app.chapter_selected + cols;
                preload_chapter_thumbnails(app, app.chapter_selected)
            } else {
                Vec::new()
            }
        },
        Key::Enter => {
            if app.chapter_selected < app.chapters.len() {
                let ext = match &app.chapters[app.chapter_selected].external_url {
                    Some(u) => Some(u.clone()),
                    None => None,
                };
                match ext {
                    Some(url) => {
                        let mut acts: Vec<Action> = Vec::new();
                        acts.push(Action::OpenExternal { url });
                        acts
                    },
                    None => {
                        let chapter_id = app.chapters[app.chapter_selected].id.clone();
                        app.open_reader(app.chapter_selected);
                        let mut acts: Vec<Action> = Vec::new();
                        acts.push(Action::FetchPageUrls { chapter_id });
                        acts
                    },
                }
            } else {
                Vec::new()
            }
        },
        Key::Char(c) => {
            if c == 'b' {
                app.toggle_bookmark();
            }
            Vec::new()
        },
        _ => Vec::new(),
    }
}

/// How one key changes the reader.
pub open spec fn spec_reader_step(
    a: App,
    b: App,
    key: Key,
    p0: Seq<Seq<char>>,
    p1: Seq<Seq<char>>,
    acts: Seq<Action>,
) -> bool {
    let urls = crate::cache::str_views(a.reader.page_urls@);
    if key == Key::Esc {
        spec_went_back(a, b) && p1 == p0 && acts.len() == 0
    } else if key == Key::Left {
        if a.reader.current_page > 0 {
            let cp = a.reader.current_page - 1;
            &&& same_but_reader_paging(a, b)
            &&& b.reader.current_page == cp
            &&& b.reader.loading == true
            &&& b.reader.page_image is None
            &&& b.reader.error is None
            &&& p1 == p0
            &&& (cp < urls.len() ==> acts.len() == 1 && (acts[0]
                matches Action::FetchPageImage { url } && url@ == urls[cp as int]))
            &&& (cp >= urls.len() ==> acts.len() == 0)
        } else {
            spec_noop(a, b, p0, p1, acts)
        }
    } else if key == Key::Right {
        if a.reader.current_page + 1 < urls.len() {
            let cp = a.reader.current_page + 1;
            let sched = spec_schedule_of(urls, cp as int, p0);
            &&& same_but_reader_paging(a, b)
            &&& b.reader.current_page == cp as usize
            &&& b.reader.loading == true
            &&& b.reader.page_image is None
            &&& b.reader.error is None
            &&& p1 == sched.1
            &&& acts.len() == 1 + sched.0.len()
            &&& (acts[0] matches Action::FetchPageImage { url } && url@ == urls[cp as int])
            &&& crate::tasks::all_preloads(acts.skip(1))
            &&& crate::tasks::preload_urls(acts.skip(1)) == sched.0
        } else {
            spec_noop(a, b, p0, p1, acts)
        }
    } else if key == Key::Char('n') {
        if a.reader.current_chapter_idx + 1 < a.reader.chapters@.len() {
            let ci = a.reader.current_chapter_idx + 1;
            &&& same_but_reader_paging(a, b)
            &&& b.reader.current_chapter_idx == ci
            &&& b.reader.current_page == 0
            &&& b.reader.page_urls@ == Seq::<String>::empty()
            &&& b.reader.page_image is None
            &&& b.reader.loading == true
            &&& b.reader.error is None
            &&& p1 == p0
            &&& acts.len() == 1
            &&& (acts[0] matches Action::FetchPageUrls { chapter_id } && chapter_id@
                == a.reader.chapters@[ci as int]@.id)
        } else {
            spec_noop(a, b, p0, p1, acts)
        }
    } else if key == Key::Char('p') {
        if a.reader.current_chapter_idx > 0 {
            let ci = a.reader.current_chapter_idx - 1;
            &&& same_but_reader_paging(a, b)
            &&& b.reader.current_chapter_idx == ci
            &&& b.reader.current_page == 0
            &&& b.reader.page_urls@ == Seq::<String>::empty()
            &&& b.reader.page_image is None
            &&& b.reader.loading == true
            &&& b.reader.error is None
            &&& p1 == p0
            &&& (ci < a.reader.chapters@.len() ==> acts.len() == 1 && (acts[0]
                matches Action::FetchPageUrls { chapter_id } && chapter_id@
                == a.reader.chapters@[ci as int]@.id))
            &&& (ci >= a.reader.chapters@.len() ==> acts.len() == 0)
        } else {
            spec_noop(a, b, p0, p1, acts)
        }
    } else if key == Key::Char('r') {
        if a.reader.error is Some {
            &&& same_but_reader_paging(a, b)
            &&& b.reader.current_page == a.reader.current_page
            &&& b.reader.current_chapter_idx == a.reader.current_chapter_idx
            &&& b.reader.page_urls == a.reader.page_urls
            &&& b.reader.page_image == a.reader.page_image
            &&& b.reader.loading == true
            &&& b.reader.error is None
            &&& p1 == p0
            &&& (if urls.len() == 0 {
                if a.reader.current_chapter_idx < a.reader.chapters@.len() {
                    acts.len() == 1 && (acts[0] matches Action::FetchPageUrls { chapter_id }
                        && chapter_id@
                        == a.reader.chapters@[a.reader.current_chapter_idx as int]@.id)
                } else {
                    acts.len() == 0
                }
            } else {
                if a.reader.current_page < urls.len() {
                    acts.len() == 1 && (acts[0] matches Action::FetchPageImage { url } && url@
                        == urls[a.reader.current_page as int])
                } else {
                    acts.len() == 0
                }
            })
        } else {
            spec_noop(a, b, p0, p1, acts)
        }
    } else {
        spec_noop(a, b, p0, p1, acts)
    }
}

/// Everything a paging key leaves alone: all state outside the reader,
/// and the reader's manga and chapter list.
pub open spec fn same_but_reader_paging(a: App, b: App) -> bool {
    &&& same_chrome(b, a)
    &&& same_browse(b, a)
    &&& same_search(b, a)
    &&& same_library(b, a)
    &&& same_detail(b, a)
    &&& b.view == a.view
    &&& b.reader.manga == a.reader.manga
    &&& b.reader.chapters == a.reader.chapters
}

/// A preload schedule over the pages after `current`.
pub open spec fn spec_schedule_of(urls: Seq<Seq<char>>, current: int, pending: Seq<Seq<char>>) -> (
    Seq<Seq<char>>,
    Seq<Seq<char>>,
) {
    crate::tasks::spec_schedule(crate::tasks::spec_preload_window(urls, current), pending)
}

/// Keys in the reader: arrows turn pages (fetching the new page and
/// prefetching ahead on forward turns), 'n'/'p' switch chapters, 'r'
/// retries after a visible error, Esc returns to the detail screen.
/// Page and chapter turns past either end are no-ops.
pub fn handle_reader_input(
    app: &mut App,
    key: Key,
    preloading_pages: &mut PendingSet,
) -> (acts: Vec<Action>)
    requires
        old(app).wf(),
        old(preloading_pages).wf(),
    ensures
        final(app).wf(),
        final(preloading_pages).wf(),
        spec_reader_step(
            *old(app),
            *final(app),
            key,
            old(preloading_pages).keys_view(),
            final(preloading_pages).keys_view(),
            acts@,
        ),
{
    match key {
        Key::Esc => {
            app.go_back();
            proof {
                if old(app).view == Screen::Reader {
                    assert(*app =~= (App { view: Screen::MangaDetail, ..*old(app) }));
                }
            }
            Vec::new()
        },
        Key::Left => {
            if app.prev_page() {
                let mut acts: Vec<Action> = Vec::new();
                if app.reader.current_page < app.reader.page_urls.len() {
                    acts.push(
                        Action::FetchPageImage {
                            url: app.reader.page_urls[app.reader.current_page].clone(),
                        },
                    );
                }
                acts
            } else {
                Vec::new()
            }
        },
        Key::Right => {
            if app.next_page() {
                let mut acts: Vec<Action> = Vec::new();
                acts.push(
                    Action::FetchPageImage {
                        url: app.reader.page_urls[app.reader.current_page].clone(),
                    },
                );
                let mut preacts = crate::tasks::preload_upcoming_pages(
                    &app.reader.page_urls,
                    app.reader.current_page,
                    preloading_pages,
                );
                let ghost pre_pre = preacts@;
                acts.append(&mut preacts);
                proof {
                    assert(acts@.skip(1) =~= pre_pre);
                    assert(crate::tasks::preload_urls(acts@.skip(1))
                        =~~= crate::tasks::preload_urls(pre_pre));
                }
                acts
            } else {
                Vec::new()
            }
        },
        Key::Char(c) => {
            if c == 'n' {
                if app.next_chapter() {
                    let mut acts: Vec<Action> = Vec::new();
                    if app.reader.current_chapter_idx < app.reader.chapters.len() {
                        acts.push(
                            Action::FetchPageUrls {
                                chapter_id: app.reader.chapters[app.reader.current_chapter_idx]
                                    .id
                                    .clone(),
                            },
                        );
                    }
                    acts
                } else {
                    Vec::new()
                }
            } else if c == 'p' {
                if app.prev_chapter() {
                    let mut acts: Vec<Action> = Vec::new();
                    if app.reader.current_chapter_idx < app.reader.chapters.len() {
                        acts.push(
                            Action::FetchPageUrls {
                                chapter_id: app.reader.chapters[app.reader.current_chapter_idx]
                                    .id
                                    .clone(),
                            },
                        );
                    }
                    acts
                } else {
                    Vec::new()
                }
            } else if c == 'r' {
                match &app.reader.error {
                    Some(_) => {
                        app.reader.loading = true;
                        app.reader.error = None;
                        let mut acts: Vec<Action> = Vec::new();
                        if app.reader.page_urls.len() == 0 {
                            if app.reader.current_chapter_idx < app.reader.chapters.len() {
                                acts.push(
                                    Action::FetchPageUrls {
                                        chapter_id: app.reader.chapters[app
                                            .reader
                                            .current_chapter_idx]
                                            .id
                                            .clone(),
                                    },
                                );
                            }
                        } else {
                            if app.reader.current_page < app.reader.page_urls.len() {
                                acts.push(
                                    Action::FetchPageImage {
                                        url: app.reader.page_urls[app.reader.current_page]
                                            .clone(),
                                    },
                                );
                            }
                        }
                        acts
                    },
                    None => Vec::new(),
                }
            } else {
                Vec::new()
            }
        },
        _ => Vec::new(),
    }
}

} // verus!
