//! Bookmarked titles: a set of manga ids beside a cached copy of each
//! bookmarked manga's display fields, so the bookmarks tab can render
//! without refetching the catalog. Persistence is the caller's: it hands
//! the loaded state in and writes the state back out after each change.

use crate::mangadex::{Manga, MangaView};
use vstd::prelude::*;
use vstd::string::*;

verus! {

/// The display fields of a bookmarked manga kept on disk beside its id.
#[derive(Clone, Debug)]
pub struct BookmarkedManga {
    pub id: String,
    pub title: String,
    pub author: String,
    pub status: String,
    pub description: String,
    pub cover_url: String,
}

/// Mathematical view of a `BookmarkedManga`.
pub struct BookmarkedMangaView {
    pub id: Seq<char>,
    pub title: Seq<char>,
    pub author: Seq<char>,
    pub status: Seq<char>,
    pub description: Seq<char>,
    pub cover_url: Seq<char>,
}

impl View for BookmarkedManga {
    type V = BookmarkedMangaView;

    open spec fn view(&self) -> BookmarkedMangaView {
        BookmarkedMangaView {
            id: self.id@,
            title: self.title@,
            author: self.author@,
            status: self.status@,
            description: self.description@,
            cover_url: self.cover_url@,
        }
    }
}

/// What a manga's bookmark record holds of it: everything but the artist.
pub open spec fn spec_bookmark_of(m: MangaView) -> BookmarkedMangaView {
    BookmarkedMangaView {
        id: m.id,
        title: m.title,
        author: m.author,
        status: m.status,
        description: m.description,
        cover_url: m.cover_url,
    }
}

/// What a bookmark record restores: the same fields, with an empty
/// artist.
pub open spec fn spec_manga_of_bookmark(b: BookmarkedMangaView) -> MangaView {
    MangaView {
        id: b.id,
        title: b.title,
        author: b.author,
        artist: Seq::<char>::empty(),
        status: b.status,
        description: b.description,
        cover_url: b.cover_url,
    }
}

impl BookmarkedManga {
    /// The bookmark record of a manga.
    pub fn from_manga(manga: &Manga) -> (r: BookmarkedManga)
        ensures
            r@ == spec_bookmark_of(manga@),
    {
        BookmarkedManga {
            id: manga.id.clone(),
            title: manga.title.clone(),
            author: manga.author.clone(),
            status: manga.status.clone(),
            description: manga.description.clone(),
            cover_url: manga.cover_url.clone(),
        }
    }

    /// The manga a bookmark record restores.
    pub fn to_manga(&self) -> (r: Manga)
        ensures
            r@ == spec_manga_of_bookmark(self@),
    {
        Manga {
            id: self.id.clone(),
            title: self.title.clone(),
            author: self.author.clone(),
            artist: String::new(),
            status: self.status.clone(),
            description: self.description.clone(),
            cover_url: self.cover_url.clone(),
        }
    }
}

/// No sequence element repeats.
pub open spec fn distinct_seqs(s: Seq<Seq<char>>) -> bool {
    forall|i: int, j: int| 0 <= i < j < s.len() ==> s[i] != s[j]
}

/// Position of `k` in `s`; meaningful only when elements are distinct.
pub open spec fn index_of_id(s: Seq<Seq<char>>, k: Seq<char>) -> int {
    choose|i: int| 0 <= i < s.len() && s[i] == k
}

/// `s` without `k` (unchanged when `k` is absent).
pub open spec fn remove_id(s: Seq<Seq<char>>, k: Seq<char>) -> Seq<Seq<char>> {
    if s.contains(k) {
        s.remove(index_of_id(s, k))
    } else {
        s
    }
}

/// The ids of a sequence of bookmark records.
pub open spec fn bookmark_ids(s: Seq<BookmarkedMangaView>) -> Seq<Seq<char>> {
    s.map_values(|b: BookmarkedMangaView| b.id)
}

/// A record for `k` exists.
pub open spec fn has_bookmark_id(s: Seq<BookmarkedMangaView>, k: Seq<char>) -> bool {
    exists|i: int| 0 <= i < s.len() && s[i].id == k
}

/// Position of the record for `k`; meaningful only when ids are distinct.
pub open spec fn index_of_bookmark(s: Seq<BookmarkedMangaView>, k: Seq<char>) -> int {
    choose|i: int| 0 <= i < s.len() && s[i].id == k
}

/// The records without the one for `k` (unchanged when there is none).
pub open spec fn remove_bookmark(s: Seq<BookmarkedMangaView>, k: Seq<char>) -> Seq<
    BookmarkedMangaView,
> {
    if has_bookmark_id(s, k) {
        s.remove(index_of_bookmark(s, k))
    } else {
        s
    }
}

pub(crate) proof fn lemma_remove_id_distinct(s: Seq<Seq<char>>, k: Seq<char>)
    requires
        distinct_seqs(s),
    ensures
        distinct_seqs(remove_id(s, k)),
        !remove_id(s, k).contains(k),
{
    if s.contains(k) {
        let i = index_of_id(s, k);
        assert(0 <= i < s.len() && s[i] == k);
        let r = s.remove(i);
        assert forall|p: int, q: int| 0 <= p < q < r.len() implies r[p] != r[q] by {
            assert(r[p] == s[if p < i {
                p
            } else {
                p + 1
            }]);
            assert(r[q] == s[if q < i {
                q
            } else {
                q + 1
            }]);
        }
        assert forall|p: int| 0 <= p < r.len() implies r[p] != k by {
            assert(r[p] == s[if p < i {
                p
            } else {
                p + 1
            }]);
        }
        assert(!r.contains(k));
    }
}

proof fn lemma_remove_bookmark_distinct(s: Seq<BookmarkedMangaView>, k: Seq<char>)
    requires
        distinct_seqs(bookmark_ids(s)),
    ensures
        distinct_seqs(bookmark_ids(remove_bookmark(s, k))),
        !has_bookmark_id(remove_bookmark(s, k), k),
{
    if has_bookmark_id(s, k) {
        let i = index_of_bookmark(s, k);
        assert(0 <= i < s.len() && s[i].id == k);
        let r = s.remove(i);
        assert forall|p: int, q: int|
            0 <= p < q < bookmark_ids(r).len() implies bookmark_ids(r)[p] != bookmark_ids(
            r,
        )[q] by {
            assert(r[p] == s[if p < i {
                p
            } else {
                p + 1
            }]);
            assert(r[q] == s[if q < i {
                q
            } else {
                q + 1
            }]);
            assert(bookmark_ids(s)[if p < i {
                p
            } else {
                p + 1
            }] != bookmark_ids(s)[if q < i {
                q
            } else {
                q + 1
            }]);
        }
        assert forall|p: int| 0 <= p < r.len() implies r[p].id != k by {
            assert(r[p] == s[if p < i {
                p
            } else {
                p + 1
            }]);
            assert(bookmark_ids(s)[if p < i {
                p
            } else {
                p + 1
            }] != bookmark_ids(s)[i]);
        }
    }
}

/// The bookmark store: the set of bookmarked manga ids, and a cached
/// record per bookmarked manga.
#[derive(Debug)]
pub struct Bookmarks {
    pub manga_ids: Vec<String>,
    pub manga_cache: Vec<BookmarkedManga>,
}

impl Bookmarks {
    /// The bookmarked ids.
    pub open spec fn ids(self) -> Seq<Seq<char>> {
        crate::cache::str_views(self.manga_ids@)
    }

    /// The cached records.
    pub open spec fn records(self) -> Seq<BookmarkedMangaView> {
        self.manga_cache@.map_values(|b: BookmarkedManga| b@)
    }

    /// Each id is bookmarked once and cached at most once.
    pub open spec fn wf(self) -> bool {
        &&& distinct_seqs(self.ids())
        &&& distinct_seqs(bookmark_ids(self.records()))
    }

    /// An empty store.
    pub fn new() -> (r: Bookmarks)
        ensures
            r.wf(),
            r.ids() == Seq::<Seq<char>>::empty(),
            r.records() == Seq::<BookmarkedMangaView>::empty(),
    {
        let r = Bookmarks { manga_ids: Vec::new(), manga_cache: Vec::new() };
        proof {
            assert(r.ids() =~= Seq::<Seq<char>>::empty());
            assert(r.records() =~= Seq::<BookmarkedMangaView>::empty());
        }
        r
    }

    fn find_id(&self, key: &String) -> (r: Option<usize>)
        ensures
            match r {
                Some(i) => i < self.ids().len() && self.ids()[i as int] == key@ && self.ids()
                    .contains(key@),
                None => !self.ids().contains(key@),
            },
    {
        let mut j: usize = 0;
        while j < self.manga_ids.len()
            invariant
                j <= self.manga_ids.len(),
                forall|t: int| 0 <= t < j ==> self.ids()[t] != key@,
            decreases self.manga_ids.len() - j,
        {
            if self.manga_ids[j] == *key {
                proof {
                    assert(self.ids()[j as int] == key@);
                }
                return Some(j);
            }
            j = j + 1;
        }
        proof {
            assert forall|t: int| 0 <= t < self.ids().len() implies self.ids()[t] != key@ by {}
        }
        None
    }

    fn find_record(&self, key: &String) -> (r: Option<usize>)
        ensures
            match r {
                Some(i) => i < self.records().len() && self.records()[i as int].id == key@
                    && has_bookmark_id(self.records(), key@),
                None => !has_bookmark_id(self.records(), key@),
            },
    {
        let mut j: usize = 0;
        while j < self.manga_cache.len()
            invariant
                j <= self.manga_cache.len(),
                forall|t: int| 0 <= t < j ==> self.records()[t].id != key@,
            decreases self.manga_cache.len() - j,
        {
            if self.manga_cache[j].id == *key {
                proof {
                    assert(self.records()[j as int].id == key@);
                }
                return Some(j);
            }
            j = j + 1;
        }
        None
    }

    /// Whether a manga is bookmarked.
    pub fn is_bookmarked(&self, manga_id: &str) -> (r: bool)
        ensures
            r == self.ids().contains(manga_id@),
    {
        let key = String::from_str(manga_id);
        self.find_id(&key).is_some()
    }

    /// Bookmarks a manga: its id joins the set, and its record is cached
    /// unless one with the same id is already there.
    pub fn add(&mut self, manga: &Manga)
        requires
            old(self).wf(),
        ensures
            final(self).wf(),
            final(self).ids() == if old(self).ids().contains(manga@.id) {
                old(self).ids()
            } else {
                old(self).ids().push(manga@.id)
            },
            final(self).records() == if has_bookmark_id(old(self).records(), manga@.id) {
                old(self).records()
            } else {
                old(self).records().push(spec_bookmark_of(manga@))
            },
    {
        match self.find_id(&manga.id) {
            Some(_) => {},
            None => {
                let ghost prev = self.manga_ids@;
                self.manga_ids.push(manga.id.clone());
                proof {
                    crate::cache::lemma_map_values_push(prev, |s: String| s@, manga.id);
                    assert(self.ids() =~~= old(self).ids().push(manga@.id));
                    assert forall|p: int, q: int|
                        0 <= p < q < self.ids().len() implies self.ids()[p] != self.ids()[q] by {
                        if q == self.ids().len() - 1 {
                            assert(self.ids()[p] == old(self).ids()[p]);
                            assert(!old(self).ids().contains(manga@.id));
                        }
                    }
                }
            },
        }
        match self.find_record(&manga.id) {
            Some(_) => {},
            None => {
                let rec = BookmarkedManga::from_manga(manga);
                let ghost prev = self.manga_cache@;
                let ghost recg = rec;
                self.manga_cache.push(rec);
                proof {
                    crate::cache::lemma_map_values_push(
                        prev,
                        |b: BookmarkedManga| b@,
                        recg,
                    );
                    assert(self.records() =~~= old(self).records().push(
                        spec_bookmark_of(manga@),
                    ));
                    let ids = bookmark_ids(self.records());
                    let oldr = old(self).records();
                    assert forall|p: int, q: int|
                        0 <= p < q < ids.len() implies ids[p] != ids[q] by {
                        if q == ids.len() - 1 {
                            assert(self.records()[p] == oldr[p]);
                            assert(ids[p] == oldr[p].id);
                            assert(oldr[p].id != manga@.id);
                            assert(ids[q] == manga@.id);
                        } else {
                            assert(self.records()[p] == oldr[p]);
                            assert(self.records()[q] == oldr[q]);
                            assert(bookmark_ids(oldr)[p] != bookmark_ids(oldr)[q]);
                        }
                    }
                }
            },
        }
    }

    /// Removes a bookmark: the id leaves the set and its cached record
    /// is dropped.
    pub fn remove(&mut self, manga_id: &str)
        requires
            old(self).wf(),
        ensures
            final(self).wf(),
            final(self).ids() == remove_id(old(self).ids(), manga_id@),
            final(self).records() == remove_bookmark(old(self).records(), manga_id@),
    {
        let key = String::from_str(manga_id);
        proof {
            lemma_remove_id_distinct(old(self).ids(), manga_id@);
            lemma_remove_bookmark_distinct(old(self).records(), manga_id@);
        }
        match self.find_id(&key) {
            Some(i) => {
                proof {
                    let ids = self.ids();
                    let w = index_of_id(ids, manga_id@);
                    assert(0 <= w < ids.len() && ids[w] == manga_id@);
                    assert(w == i as int);
                    crate::cache::lemma_map_values_remove(
                        self.manga_ids@,
                        |s: String| s@,
                        i as int,
                    );
                }
                let _ = self.manga_ids.remove(i);
            },
            None => {},
        }
        match self.find_record(&key) {
            Some(i) => {
                proof {
                    let recs = self.records();
                    let w = index_of_bookmark(recs, manga_id@);
                    assert(0 <= w < recs.len() && recs[w].id == manga_id@);
                    assert(bookmark_ids(recs)[w] == manga_id@);
                    assert(bookmark_ids(recs)[i as int] == manga_id@);
                    assert(w == i as int);
                    crate::cache::lemma_map_values_remove(
                        self.manga_cache@,
                        |b: BookmarkedManga| b@,
                        i as int,
                    );
                }
                let _ = self.manga_cache.remove(i);
            },
            None => {},
        }
    }

    /// Toggles a manga's bookmark; returns whether it is bookmarked
    /// afterwards.
    pub fn toggle(&mut self, manga: &Manga) -> (r: bool)
        requires
            old(self).wf(),
        ensures
            final(self).wf(),
            r == !old(self).ids().contains(manga@.id),
            r ==> final(self).ids() == old(self).ids().push(manga@.id),
            !r ==> final(self).ids() == remove_id(old(self).ids(), manga@.id),
    {
        if self.is_bookmarked(manga.id.as_str()) {
            self.remove(manga.id.as_str());
            false
        } else {
            self.add(manga);
            true
        }
    }

    /// The bookmarked manga, restored from the cached records in order.
    pub fn get_bookmarked_manga(&self) -> (r: Vec<Manga>)
        ensures
            crate::mangadex::manga_views(r@) == self.records().map_values(
                |b: BookmarkedMangaView| spec_manga_of_bookmark(b),
            ),
    {
        let mut r: Vec<Manga> = Vec::new();
        let mut j: usize = 0;
        while j < self.manga_cache.len()
            invariant
                j <= self.manga_cache.len(),
                crate::mangadex::manga_views(r@) =~= self.records().map_values(
                    |b: BookmarkedMangaView| spec_manga_of_bookmark(b),
                ).take(j as int),
            decreases self.manga_cache.len() - j,
        {
            let m = self.manga_cache[j].to_manga();
            let ghost prev = r@;
            let ghost mg = m;
            r.push(m);
            proof {
                crate::cache::lemma_map_values_push(prev, |m: Manga| m@, mg);
                assert(crate::mangadex::manga_views(r@) =~= self.records().map_values(
                    |b: BookmarkedMangaView| spec_manga_of_bookmark(b),
                ).take(j as int + 1));
            }
            j = j + 1;
        }
        proof {
            let full = self.records().map_values(
                |b: BookmarkedMangaView| spec_manga_of_bookmark(b),
            );
            assert(full.take(full.len() as int) =~= full);
        }
        r
    }
}

} // verus!
