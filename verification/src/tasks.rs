//! Background-task orchestration: the closed set of terminal events a
//! task can produce, the actions the event loop asks its runtime to
//! start, the pending set that keeps one in-flight task per resource
//! key, the bounded retry policy for page images, and the preload
//! scheduler. The runtime performs fetches and sleeps; every decision
//! about what to fetch, retry or drop is made here.

use crate::bookmarks::{distinct_seqs, remove_id};
use crate::cache::str_views;
use crate::mangadex::{Chapter, ChapterView, Manga};
use vstd::prelude::*;
use vstd::string::*;

verus! {

/// The one terminal event each background task produces.
pub enum BackgroundTask {
    CoverLoaded { manga_id: String, image: image::DynamicImage },
    ChaptersLoaded { chapters: Vec<Chapter> },
    ChapterThumbnailLoaded { chapter_id: String, image: image::DynamicImage },
    PageUrlsLoaded { urls: Vec<String> },
    PageUrlsLoadFailed,
    PageImageLoaded { image: image::DynamicImage },
    PageImageLoadFailed,
    PagePreloaded { page_url: String },
    SearchResults { results: Vec<Manga> },
}

/// What the event loop asks its runtime to start or perform.
pub enum Action {
    FetchCover { manga_id: String, cover_url: String },
    FetchChapters { manga_id: String },
    FetchChapterThumbnail { chapter_id: String },
    SweepChapterThumbnails { chapter_ids: Vec<String> },
    FetchPageUrls { chapter_id: String },
    FetchPageImage { url: String },
    PreloadPage { url: String },
    Search { query: String },
    OpenExternal { url: String },
}

/// Resource keys with an in-flight task; at most one task per key.
pub struct PendingSet {
    keys: Vec<String>,
}

impl PendingSet {
    /// The in-flight keys.
    pub closed spec fn keys_view(self) -> Seq<Seq<char>> {
        str_views(self.keys@)
    }

    /// No key is in flight twice.
    pub open spec fn wf(self) -> bool {
        distinct_seqs(self.keys_view())
    }

    /// An empty pending set.
    pub fn new() -> (r: PendingSet)
        ensures
            r.wf(),
            r.keys_view() == Seq::<Seq<char>>::empty(),
    {
        let r = PendingSet { keys: Vec::new() };
        proof {
            assert(r.keys_view() =~= Seq::<Seq<char>>::empty());
        }
        r
    }

    fn find(&self, key: &String) -> (r: Option<usize>)
        ensures
            match r {
                Some(i) => i < self.keys_view().len() && self.keys_view()[i as int] == key@
                    && self.keys_view().contains(key@),
                None => !self.keys_view().contains(key@),
            },
    {
        let mut j: usize = 0;
        while j < self.keys.len()
            invariant
                j <= self.keys.len(),
                forall|t: int| 0 <= t < j ==> self.keys_view()[t] != key@,
            decreases self.keys.len() - j,
        {
            if self.keys[j] == *key {
                proof {
                    assert(self.keys_view()[j as int] == key@);
                }
                return Some(j);
            }
            j = j + 1;
        }
        None
    }

    /// Whether a task for the key is in flight.
    pub fn contains(&self, key: &str) -> (r: bool)
        ensures
            r == self.keys_view().contains(key@),
    {
        let k = String::from_str(key);
        self.find(&k).is_some()
    }

    /// Claims the key for a new task. Returns true and records the key
    /// exactly when no task for it was in flight; a second request for
    /// a claimed key starts nothing.
    pub fn begin(&mut self, key: &str) -> (started: bool)
        requires
            old(self).wf(),
        ensures
            final(self).wf(),
            started == !old(self).keys_view().contains(key@),
            started ==> final(self).keys_view() == old(self).keys_view().push(key@),
            !started ==> *final(self) == *old(self),
            final(self).keys_view().contains(key@),
    {
        let k = String::from_str(key);
        match self.find(&k) {
            Some(_) => false,
            None => {
                let ghost prev = self.keys@;
                let ghost kg = k;
                self.keys.push(k);
                proof {
                    crate::cache::lemma_map_values_push(prev, |s: String| s@, kg);
                    assert(self.keys_view() =~~= old(self).keys_view().push(key@));
                    assert forall|p: int, q: int|
                        0 <= p < q < self.keys_view().len() implies self.keys_view()[p]
                        != self.keys_view()[q] by {
                        if q == self.keys_view().len() - 1 {
                            assert(self.keys_view()[p] == old(self).keys_view()[p]);
                            assert(!old(self).keys_view().contains(key@));
                        } else {
                            assert(self.keys_view()[p] == old(self).keys_view()[p]);
                            assert(self.keys_view()[q] == old(self).keys_view()[q]);
                        }
                    }
                    assert(self.keys_view()[self.keys_view().len() - 1] == key@);
                }
                true
            },
        }
    }

    /// Releases the key once its task's terminal event was consumed.
    pub fn finish(&mut self, key: &str)
        requires
            old(self).wf(),
        ensures
            final(self).wf(),
            final(self).keys_view() == remove_id(old(self).keys_view(), key@),
            !final(self).keys_view().contains(key@),
    {
        let k = String::from_str(key);
        proof {
            crate::bookmarks::lemma_remove_id_distinct(old(self).keys_view(), key@);
        }
        match self.find(&k) {
            Some(i) => {
                proof {
                    let ids = self.keys_view();
                    let w = crate::bookmarks::index_of_id(ids, key@);
                    assert(0 <= w < ids.len() && ids[w] == key@);
                    assert(w == i as int);
                    crate::cache::lemma_map_values_remove(
                        self.keys@,
                        |s: String| s@,
                        i as int,
                    );
                }
                let _ = self.keys.remove(i);
            },
            None => {},
        }
    }
}

/// Once a task for a key has been claimed, a further claim of the same
/// key finds it in flight and starts nothing: for one key, one task.
pub proof fn lemma_pending_single_task(s: Seq<Seq<char>>, k: Seq<char>)
    ensures
        s.push(k).contains(k),
{
    assert(s.push(k)[s.len() as int] == k);
}

/// How often a page-image fetch is attempted before the task gives up.
pub const MAX_PAGE_FETCH_ATTEMPTS: usize = 3;

/// Base of the linear backoff between attempts.
pub const RETRY_BACKOFF_MS: u64 = 500;

/// What a page-image task does after one fetch attempt.
pub enum FetchStep {
    /// The attempt produced an image: store it and emit the success
    /// event.
    Deliver(image::DynamicImage),
    /// The attempt failed and attempts remain: sleep this long, then
    /// try again.
    RetryAfterMs(u64),
    /// The attempt failed and none remain: emit the failure event.
    GiveUp,
}

/// Decides the next step of a page-image task after attempt `attempt`
/// (counted from zero) came back with `result`: success delivers, and a
/// failure retries with linear backoff until the attempts are used up.
pub fn page_fetch_step(attempt: usize, result: Option<image::DynamicImage>) -> (s: FetchStep)
    requires
        attempt < MAX_PAGE_FETCH_ATTEMPTS,
    ensures
        match result {
            Some(img) => s == FetchStep::Deliver(img),
            None => if attempt + 1 < MAX_PAGE_FETCH_ATTEMPTS {
                s == FetchStep::RetryAfterMs((RETRY_BACKOFF_MS * (attempt + 1)) as u64)
            } else {
                s == FetchStep::GiveUp
            },
        },
{
    match result {
        Some(img) => FetchStep::Deliver(img),
        None => {
            if attempt + 1 < MAX_PAGE_FETCH_ATTEMPTS {
                FetchStep::RetryAfterMs(RETRY_BACKOFF_MS * (attempt as u64 + 1))
            } else {
                FetchStep::GiveUp
            }
        },
    }
}

/// The first attempt that produced an image, if any did.
pub open spec fn spec_first_success(outcomes: Seq<Option<image::DynamicImage>>) -> Option<
    image::DynamicImage,
>
    decreases outcomes.len(),
{
    if outcomes.len() == 0 {
        None
    } else {
        match outcomes.first() {
            Some(img) => Some(img),
            None => spec_first_success(outcomes.drop_first()),
        }
    }
}

/// The one terminal event of a page-image task whose attempts came back
/// as `outcomes`: the first image delivered, or the failure event.
pub open spec fn spec_page_load_event(outcomes: Seq<Option<image::DynamicImage>>) -> BackgroundTask {
    match spec_first_success(outcomes) {
        Some(img) => BackgroundTask::PageImageLoaded { image: img },
        None => BackgroundTask::PageImageLoadFailed,
    }
}

/// Folds the recorded attempt outcomes of a page-image task into its
/// single terminal event.
pub fn resolve_page_fetch(outcomes: Vec<Option<image::DynamicImage>>) -> (ev: BackgroundTask)
    ensures
        ev == spec_page_load_event(outcomes@),
{
    let mut j: usize = 0;
    proof {
        assert(outcomes@.skip(0) =~= outcomes@);
    }
    while j < outcomes.len()
        invariant
            j <= outcomes.len(),
            spec_first_success(outcomes@) == spec_first_success(outcomes@.skip(j as int)),
        decreases outcomes.len() - j,
    {
        proof {
            assert(outcomes@.skip(j as int).drop_first() =~= outcomes@.skip(j as int + 1));
            assert(outcomes@.skip(j as int).first() == outcomes@[j as int]);
        }
        match &outcomes[j] {
            Some(img) => {
                return BackgroundTask::PageImageLoaded { image: img.clone() };
            },
            None => {},
        }
        j = j + 1;
    }
    proof {
        assert(outcomes@.skip(outcomes@.len() as int) =~= Seq::<
            Option<image::DynamicImage>,
        >::empty());
    }
    BackgroundTask::PageImageLoadFailed
}

/// A page-image task whose three attempts all fail emits exactly one
/// terminal event, the failure event — never a success event.
pub proof fn lemma_page_load_failure(outcomes: Seq<Option<image::DynamicImage>>)
    requires
        outcomes.len() == MAX_PAGE_FETCH_ATTEMPTS,
        forall|i: int| 0 <= i < outcomes.len() ==> outcomes[i] is None,
    ensures
        spec_page_load_event(outcomes) == BackgroundTask::PageImageLoadFailed,
        !(spec_page_load_event(outcomes) matches BackgroundTask::PageImageLoaded { .. }),
{
    lemma_first_success_all_none(outcomes);
}

proof fn lemma_first_success_all_none(outcomes: Seq<Option<image::DynamicImage>>)
    requires
        forall|i: int| 0 <= i < outcomes.len() ==> outcomes[i] is None,
    ensures
        spec_first_success(outcomes) is None,
    decreases outcomes.len(),
{
    if outcomes.len() > 0 {
        assert(outcomes[0] is None);
        lemma_first_success_all_none(outcomes.drop_first());
    }
}

/// How many upcoming pages the reader fetches ahead of the current one.
pub const PRELOAD_AHEAD: usize = 3;

/// The slice of page URLs a preload pass looks at: the `PRELOAD_AHEAD`
/// URLs after `current`.
pub open spec fn spec_preload_window(urls: Seq<Seq<char>>, current: int) -> Seq<Seq<char>> {
    if current + 1 >= urls.len() {
        Seq::<Seq<char>>::empty()
    } else if current + 1 + PRELOAD_AHEAD <= urls.len() {
        urls.subrange(current + 1, current + 1 + PRELOAD_AHEAD)
    } else {
        urls.subrange(current + 1, urls.len() as int)
    }
}

/// What a pass over a window schedules: each URL not yet in flight, in
/// order, claiming each as it goes. Returns the scheduled URLs and the
/// pending keys afterwards.
pub open spec fn spec_schedule(window: Seq<Seq<char>>, pending: Seq<Seq<char>>) -> (Seq<
    Seq<char>,
>, Seq<Seq<char>>)
    decreases window.len(),
{
    if window.len() == 0 {
        (Seq::<Seq<char>>::empty(), pending)
    } else {
        let u = window.first();
        if pending.contains(u) {
            spec_schedule(window.drop_first(), pending)
        } else {
            let rest = spec_schedule(window.drop_first(), pending.push(u));
            (seq![u] + rest.0, rest.1)
        }
    }
}

/// The URLs named by a sequence of page-preload actions.
pub open spec fn preload_urls(acts: Seq<Action>) -> Seq<Seq<char>> {
    acts.map_values(
        |a: Action|
            match a {
                Action::PreloadPage { url } => url@,
                _ => Seq::<char>::empty(),
            },
    )
}

/// Every action is a page preload.
pub open spec fn all_preloads(acts: Seq<Action>) -> bool {
    forall|i: int| 0 <= i < acts.len() ==> #[trigger] acts[i] matches Action::PreloadPage { .. }
}

/// Schedules background fetches for the next `PRELOAD_AHEAD` pages
/// after the current one, skipping pages whose preload is already in
/// flight, and claims each page it schedules. Re-run from every newly
/// loaded or preloaded page, this advances a bounded frontier instead
/// of fetching a chapter at once.
pub fn preload_upcoming_pages(
    page_urls: &Vec<String>,
    current_page: usize,
    preloading: &mut PendingSet,
) -> (acts: Vec<Action>)
    requires
        old(preloading).wf(),
    ensures
        final(preloading).wf(),
        all_preloads(acts@),
        preload_urls(acts@) == spec_schedule(
            spec_preload_window(str_views(page_urls@), current_page as int),
            old(preloading).keys_view(),
        ).0,
        final(preloading).keys_view() == spec_schedule(
            spec_preload_window(str_views(page_urls@), current_page as int),
            old(preloading).keys_view(),
        ).1,
{
    let ghost window = spec_preload_window(str_views(page_urls@), current_page as int);
    let mut acts: Vec<Action> = Vec::new();
    let n = page_urls.len();
    if current_page >= n {
        proof {
            assert(window =~= Seq::<Seq<char>>::empty());
            assert(preload_urls(acts@) =~= spec_schedule(
                window,
                old(preloading).keys_view(),
            ).0);
        }
        return acts;
    }
    let start = current_page + 1;
    let end = if n - start < PRELOAD_AHEAD {
        n
    } else {
        start + PRELOAD_AHEAD
    };
    let mut j: usize = start;
    proof {
        assert(window =~= str_views(page_urls@).subrange(start as int, end as int));
    }
    while j < end
        invariant
            start <= j <= end <= page_urls@.len(),
            window == str_views(page_urls@).subrange(start as int, end as int),
            preloading.wf(),
            preload_urls(acts@) == spec_schedule(
                window.take(j - start),
                old(preloading).keys_view(),
            ).0,
            preloading.keys_view() == spec_schedule(
                window.take(j - start),
                old(preloading).keys_view(),
            ).1,
            all_preloads(acts@),
        decreases end - j,
    {
        let url = &page_urls[j];
        let ghost done_pre = spec_schedule(window.take(j - start), old(preloading).keys_view());
        proof {
            assert(window[j - start] == url@);
        }
        let started = preloading.begin(url.as_str());
        if started {
            let ghost acts_prev = acts@;
            let act = Action::PreloadPage { url: url.clone() };
            let ghost actg = act;
            acts.push(act);
            proof {
                crate::cache::lemma_map_values_push(
                    acts_prev,
                    |a: Action|
                        match a {
                            Action::PreloadPage { url } => url@,
                            _ => Seq::<char>::empty(),
                        },
                    actg,
                );
            }
        }
        proof {
            let w_take = window.take(j - start);
            let w_take_next = window.take(j - start + 1);
            assert(w_take_next =~= w_take.push(window[j - start]));
            lemma_schedule_snoc(w_take, window[j - start], old(preloading).keys_view());
            assert(preload_urls(acts@) =~= spec_schedule(
                w_take_next,
                old(preloading).keys_view(),
            ).0);
            assert(preloading.keys_view() =~= spec_schedule(
                w_take_next,
                old(preloading).keys_view(),
            ).1);
        }
        j = j + 1;
    }
    proof {
        assert(window.take(end - start) =~= window);
    }
    acts
}

/// Extending a window by one URL extends its schedule by that URL when
/// it is not pending afterwards, and by nothing when it is.
proof fn lemma_schedule_snoc(window: Seq<Seq<char>>, u: Seq<char>, pending: Seq<Seq<char>>)
    ensures
        ({
            let done = spec_schedule(window, pending);
            let ext = spec_schedule(window.push(u), pending);
            &&& done.1.contains(u) ==> ext.0 == done.0 && ext.1 == done.1
            &&& !done.1.contains(u) ==> ext.0 == done.0.push(u) && ext.1 == done.1.push(u)
        }),
    decreases window.len(),
{
    let done = spec_schedule(window, pending);
    let ext = spec_schedule(window.push(u), pending);
    if window.len() == 0 {
        assert(window.push(u).first() == u);
        assert(window.push(u).drop_first() =~= window);
        if pending.contains(u) {
            assert(ext.0 =~~= done.0);
            assert(ext.1 =~~= done.1);
        } else {
            let rest = spec_schedule(window, pending.push(u));
            assert(rest.0 =~= Seq::<Seq<char>>::empty());
            assert(ext.0 == seq![u] + rest.0);
            assert(ext.1 == rest.1);
            assert(ext.0 =~~= done.0.push(u));
            assert(ext.1 =~~= done.1.push(u));
        }
    } else {
        let w0 = window.first();
        assert(window.push(u).first() == w0);
        assert(window.push(u).drop_first() =~= window.drop_first().push(u));
        if pending.contains(w0) {
            lemma_schedule_snoc(window.drop_first(), u, pending);
        } else {
            lemma_schedule_snoc(window.drop_first(), u, pending.push(w0));
            let rest = spec_schedule(window.drop_first(), pending.push(w0));
            let rest_ext = spec_schedule(window.drop_first().push(u), pending.push(w0));
            if rest.1.contains(u) {
                assert(ext.0 =~~= done.0);
                assert(ext.1 =~~= done.1);
            } else {
                assert(ext.0 =~~= (seq![w0] + rest.0).push(u));
                assert(ext.0 =~~= done.0.push(u));
                assert(ext.1 =~~= done.1.push(u));
            }
        }
    }
}

/// An element-by-element copy of a string list.
pub fn clone_strings(v: &Vec<String>) -> (r: Vec<String>)
    ensures
        str_views(r@) == str_views(v@),
        r@.len() == v@.len(),
{
    let mut r: Vec<String> = Vec::new();
    let mut j: usize = 0;
    while j < v.len()
        invariant
            j <= v.len(),
            r@.len() == j,
            str_views(r@) =~= str_views(v@).take(j as int),
        decreases v.len() - j,
    {
        let s = v[j].clone();
        let ghost prev = r@;
        let ghost sg = s;
        r.push(s);
        proof {
            crate::cache::lemma_map_values_push(prev, |s: String| s@, sg);
            assert(str_views(r@) =~= str_views(v@).take(j as int + 1));
        }
        j = j + 1;
    }
    proof {
        assert(str_views(v@).take(v@.len() as int) =~= str_views(v@));
    }
    r
}

/// The chapters a thumbnail sweep visits: every chapter not hosted
/// externally, in list order, by id.
pub open spec fn spec_thumb_targets(cs: Seq<ChapterView>) -> Seq<Seq<char>>
    decreases cs.len(),
{
    if cs.len() == 0 {
        Seq::<Seq<char>>::empty()
    } else {
        let rest = spec_thumb_targets(cs.drop_first());
        if cs.first().external_url is None {
            seq![cs.first().id] + rest
        } else {
            rest
        }
    }
}

/// The ids the rate-limited thumbnail sweep should visit: every
/// chapter of the list that is not hosted externally, in order.
pub fn thumbnail_sweep_targets(chapters: &Vec<Chapter>) -> (ids: Vec<String>)
    ensures
        str_views(ids@) == spec_thumb_targets(crate::mangadex::chapter_views(chapters@)),
{
    let ghost cs = crate::mangadex::chapter_views(chapters@);
    let mut ids: Vec<String> = Vec::new();
    let mut j: usize = 0;
    proof {
        assert(cs.skip(0) =~= cs);
    }
    while j < chapters.len()
        invariant
            j <= chapters.len(),
            cs == crate::mangadex::chapter_views(chapters@),
            str_views(ids@) + spec_thumb_targets(cs.skip(j as int)) =~= spec_thumb_targets(cs),
        decreases chapters.len() - j,
    {
        proof {
            assert(cs.skip(j as int).drop_first() =~= cs.skip(j as int + 1));
            assert(cs.skip(j as int).first() == cs[j as int]);
            assert(cs[j as int] == chapters@[j as int]@);
        }
        match &chapters[j].external_url {
            None => {
                let id = chapters[j].id.clone();
                let ghost prev = ids@;
                let ghost idg = id;
                ids.push(id);
                proof {
                    crate::cache::lemma_map_values_push(prev, |s: String| s@, idg);
                }
            },
            Some(_) => {},
        }
        j = j + 1;
    }
    proof {
        assert(cs.skip(cs.len() as int) =~= Seq::<ChapterView>::empty());
    }
    ids
}

/// The first page URL of a chapter whose URL list the cache already
/// holds; nothing when no list is stored or the stored list is empty.
pub fn first_chapter_page_url(cache: &crate::cache::PageCache, chapter_id: &str) -> (r: Option<
    String,
>)
    requires
        cache.wf(),
    ensures
        match r {
            Some(u) => crate::cache::lookup(cache.chapters(), chapter_id@) matches Some(us)
                && us.len() > 0 && u@ == us[0],
            None => !crate::cache::has_key(cache.chapters(), chapter_id@) || (crate::cache::lookup(
                cache.chapters(),
                chapter_id@,
            ) matches Some(us) && us.len() == 0),
        },
{
    match cache.get_chapter_urls(chapter_id) {
        Some(urls) => {
            if urls.len() > 0 {
                proof {
                    assert(str_views(urls@)[0] == urls@[0]@);
                }
                Some(urls[0].clone())
            } else {
                proof {
                    assert(str_views(urls@).len() == 0);
                }
                None
            }
        },
        None => None,
    }
}

/// Consumes what a page-URL resolution fetched: a non-empty list is
/// stored in the cache and announced; an empty or failed resolution
/// leaves the cache alone and announces the visible, retryable failure.
pub fn page_urls_fetched(
    cache: &mut crate::cache::PageCache,
    chapter_id: String,
    fetched: Option<Vec<String>>,
) -> (ev: BackgroundTask)
    requires
        old(cache).wf(),
    ensures
        final(cache).wf(),
        final(cache).mem() == old(cache).mem(),
        final(cache).disk() == old(cache).disk(),
        match fetched {
            Some(urls) => if urls@.len() > 0 {
                final(cache).chapters() == crate::cache::upsert(
                    old(cache).chapters(),
                    chapter_id@,
                    str_views(urls@),
                ) && ev == (BackgroundTask::PageUrlsLoaded { urls })
            } else {
                final(cache).chapters() == old(cache).chapters() && ev
                    == BackgroundTask::PageUrlsLoadFailed
            },
            None => final(cache).chapters() == old(cache).chapters() && ev
                == BackgroundTask::PageUrlsLoadFailed,
        },
{
    match fetched {
        Some(urls) => {
            if urls.len() > 0 {
                let copy = clone_strings(&urls);
                cache.insert_chapter_urls(chapter_id, copy);
                BackgroundTask::PageUrlsLoaded { urls }
            } else {
                BackgroundTask::PageUrlsLoadFailed
            }
        },
        None => BackgroundTask::PageUrlsLoadFailed,
    }
}

/// Consumes a successfully fetched page image: it is written through
/// the cache, and the success event carries the same image. The caller
/// performs the returned write plan.
pub fn page_image_fetched(
    cache: &mut crate::cache::PageCache,
    url: String,
    image: image::DynamicImage,
) -> (r: (crate::cache::WritePlan, BackgroundTask))
    requires
        old(cache).wf(),
    ensures
        final(cache).wf(),
        final(cache).mem() == crate::cache::insert_lru(
            old(cache).mem(),
            url@,
            image,
            crate::cache::MAX_MEMORY_PAGES as nat,
        ),
        crate::cache::lookup(final(cache).mem(), url@) == Some(image),
        final(cache).chapters() == old(cache).chapters(),
        r.1 == (BackgroundTask::PageImageLoaded { image }),
        match r.0.write {
            Some(w) => w.0@ == crate::cache::spec_url_to_filename(url@) && final(cache).disk()
                == crate::cache::upsert(
                crate::cache::spec_cleanup(
                    old(cache).disk(),
                    crate::cache::MAX_DISK_CACHE_BYTES as int,
                ),
                w.0@,
                w.1@.len() as u64,
            ),
            None => final(cache).disk() == crate::cache::spec_cleanup(
                old(cache).disk(),
                crate::cache::MAX_DISK_CACHE_BYTES as int,
            ),
        },
{
    let img2 = image.clone();
    let plan = cache.insert_page(url, image);
    (plan, BackgroundTask::PageImageLoaded { image: img2 })
}

fn find_url(v: &Vec<String>, key: &String) -> (r: Option<usize>)
    ensures
        match r {
            Some(i) => i < v@.len() && v@[i as int]@ == key@ && forall|t: int|
                0 <= t < i ==> v@[t]@ != key@,
            None => !str_views(v@).contains(key@),
        },
{
    let mut j: usize = 0;
    while j < v.len()
        invariant
            j <= v.len(),
            forall|t: int| 0 <= t < j ==> v@[t]@ != key@,
        decreases v.len() - j,
    {
        if v[j] == *key {
            return Some(j);
        }
        j = j + 1;
    }
    proof {
        assert forall|t: int| 0 <= t < str_views(v@).len() implies str_views(v@)[t] != key@ by {
            assert(str_views(v@)[t] == v@[t]@);
        }
    }
    None
}

/// Consumes one terminal event from the task channel, updating the
/// application state and the pending sets, and returning the follow-up
/// work the event triggers. Handlers read the current state, so a stale
/// event (for a page or manga the user has left) only updates caches
/// and pending bookkeeping.
pub fn apply_task(
    app: &mut crate::ui::App,
    pending_covers: &mut PendingSet,
    preloading_pages: &mut PendingSet,
    task: BackgroundTask,
) -> (acts: Vec<Action>)
    requires
        old(app).wf(),
        old(pending_covers).wf(),
        old(preloading_pages).wf(),
    ensures
        final(app).wf(),
        final(pending_covers).wf(),
        final(preloading_pages).wf(),
        match task {
            BackgroundTask::CoverLoaded { manga_id, image } => {
                &&& final(app).cover_images.map_view() == crate::cache::upsert(
                    old(app).cover_images.map_view(),
                    manga_id@,
                    image,
                )
                &&& final(app).bookmarks == old(app).bookmarks
                &&& crate::ui::same_browse(*final(app), *old(app))
                &&& crate::ui::same_search(*final(app), *old(app))
                &&& crate::ui::same_detail(*final(app), *old(app))
                &&& crate::ui::same_reader(*final(app), *old(app))
                &&& final(pending_covers).keys_view() == remove_id(
                    old(pending_covers).keys_view(),
                    manga_id@,
                )
                &&& *final(preloading_pages) == *old(preloading_pages)
                &&& acts@ == Seq::<Action>::empty()
            },
            BackgroundTask::ChaptersLoaded { chapters } => {
                &&& crate::mangadex::chapter_views(final(app).chapters@)
                    == crate::mangadex::chapter_views(chapters@)
                &&& crate::ui::same_browse(*final(app), *old(app))
                &&& crate::ui::same_search(*final(app), *old(app))
                &&& crate::ui::same_library(*final(app), *old(app))
                &&& crate::ui::same_reader(*final(app), *old(app))
                &&& final(app).selected_manga == old(app).selected_manga
                &&& *final(pending_covers) == *old(pending_covers)
                &&& *final(preloading_pages) == *old(preloading_pages)
                &&& acts@.len() == 1
                &&& (acts@[0] matches Action::SweepChapterThumbnails { chapter_ids }
                    && str_views(chapter_ids@) == spec_thumb_targets(
                    crate::mangadex::chapter_views(chapters@),
                ))
            },
            BackgroundTask::ChapterThumbnailLoaded { chapter_id, image } => {
                &&& final(app).chapter_thumbnails.map_view() == crate::cache::upsert(
                    old(app).chapter_thumbnails.map_view(),
                    chapter_id@,
                    image,
                )
                &&& crate::ui::same_browse(*final(app), *old(app))
                &&& crate::ui::same_search(*final(app), *old(app))
                &&& crate::ui::same_library(*final(app), *old(app))
                &&& crate::ui::same_reader(*final(app), *old(app))
                &&& *final(pending_covers) == *old(pending_covers)
                &&& *final(preloading_pages) == *old(preloading_pages)
                &&& acts@ == Seq::<Action>::empty()
            },
            BackgroundTask::PageUrlsLoaded { urls } => {
                let w = spec_preload_window(str_views(urls@), 0);
                let sched = spec_schedule(w, old(preloading_pages).keys_view());
                &&& str_views(final(app).reader.page_urls@) == str_views(urls@)
                &&& final(app).reader.error is None
                &&& final(app).reader.current_page == old(app).reader.current_page
                &&& crate::ui::same_browse(*final(app), *old(app))
                &&& crate::ui::same_search(*final(app), *old(app))
                &&& crate::ui::same_library(*final(app), *old(app))
                &&& crate::ui::same_detail(*final(app), *old(app))
                &&& *final(pending_covers) == *old(pending_covers)
                &&& final(preloading_pages).keys_view() == sched.1
                &&& (urls@.len() > 0 ==> acts@.len() == 1 + sched.0.len() && (acts@[0]
                    matches Action::FetchPageImage { url } && url@ == urls@[0]@)
                    && all_preloads(acts@.skip(1)) && preload_urls(acts@.skip(1)) == sched.0)
                &&& (urls@.len() == 0 ==> acts@ == Seq::<Action>::empty())
            },
            BackgroundTask::PageUrlsLoadFailed => {
                &&& final(app).reader.loading == false
                &&& (final(app).reader.error matches Some(e) && e@
                    == "Failed to load chapter pages. Press 'r' to retry."@)
                &&& crate::ui::same_browse(*final(app), *old(app))
                &&& crate::ui::same_search(*final(app), *old(app))
                &&& crate::ui::same_library(*final(app), *old(app))
                &&& crate::ui::same_detail(*final(app), *old(app))
                &&& *final(pending_covers) == *old(pending_covers)
                &&& *final(preloading_pages) == *old(preloading_pages)
                &&& acts@ == Seq::<Action>::empty()
            },
            BackgroundTask::PageImageLoaded { image } => {
                let w = spec_preload_window(
                    str_views(old(app).reader.page_urls@),
                    old(app).reader.current_page as int,
                );
                let sched = spec_schedule(w, old(preloading_pages).keys_view());
                &&& final(app).reader.page_image == Some(image)
                &&& final(app).reader.loading == false
                &&& final(app).reader.error is None
                &&& final(app).reader.page_urls == old(app).reader.page_urls
                &&& final(app).reader.current_page == old(app).reader.current_page
                &&& crate::ui::same_browse(*final(app), *old(app))
                &&& crate::ui::same_search(*final(app), *old(app))
                &&& crate::ui::same_library(*final(app), *old(app))
                &&& crate::ui::same_detail(*final(app), *old(app))
                &&& *final(pending_covers) == *old(pending_covers)
                &&& final(preloading_pages).keys_view() == sched.1
                &&& all_preloads(acts@)
                &&& preload_urls(acts@) == sched.0
            },
            BackgroundTask::PageImageLoadFailed => {
                &&& final(app).reader.loading == false
                &&& (final(app).reader.error matches Some(e) && e@
                    == "Failed to load page image. Press 'r' to retry."@)
                &&& crate::ui::same_browse(*final(app), *old(app))
                &&& crate::ui::same_search(*final(app), *old(app))
                &&& crate::ui::same_library(*final(app), *old(app))
                &&& crate::ui::same_detail(*final(app), *old(app))
                &&& *final(pending_covers) == *old(pending_covers)
                &&& *final(preloading_pages) == *old(preloading_pages)
                &&& acts@ == Seq::<Action>::empty()
            },
            BackgroundTask::PagePreloaded { page_url } => {
                let pend1 = remove_id(old(preloading_pages).keys_view(), page_url@);
                let urlviews = str_views(old(app).reader.page_urls@);
                &&& *final(app) == *old(app)
                &&& *final(pending_covers) == *old(pending_covers)
                &&& all_preloads(acts@)
                &&& (!urlviews.contains(page_url@) ==> final(preloading_pages).keys_view()
                    == pend1 && acts@ == Seq::<Action>::empty())
                &&& (urlviews.contains(page_url@) ==> exists|idx: int|
                    {
                        &&& 0 <= idx < urlviews.len()
                        &&& #[trigger] urlviews[idx] == page_url@
                        &&& forall|t: int| 0 <= t < idx ==> urlviews[t] != page_url@
                        &&& final(preloading_pages).keys_view() == spec_schedule(
                            spec_preload_window(urlviews, idx),
                            pend1,
                        ).1
                        &&& preload_urls(acts@) == spec_schedule(
                            spec_preload_window(urlviews, idx),
                            pend1,
                        ).0
                    })
            },
            BackgroundTask::SearchResults { results } => {
                let shown = if results@.len() < 6 {
                    results@.len() as int
                } else {
                    6
                };
                &&& crate::mangadex::manga_views(final(app).search_results@)
                    == crate::mangadex::manga_views(results@)
                &&& final(app).searching == false
                &&& final(app).search_offset == 0
                &&& final(app).search_query == old(app).search_query
                &&& final(app).last_search_query == old(app).last_search_query
                &&& final(app).search_debounce == old(app).search_debounce
                &&& crate::ui::same_browse(*final(app), *old(app))
                &&& crate::ui::same_library(*final(app), *old(app))
                &&& crate::ui::same_detail(*final(app), *old(app))
                &&& crate::ui::same_reader(*final(app), *old(app))
                &&& *final(preloading_pages) == *old(preloading_pages)
                &&& final(pending_covers).keys_view() == spec_schedule(
                    crate::mangadex::manga_views(results@).take(shown).map_values(
                        |m: crate::mangadex::MangaView| m.id,
                    ),
                    old(pending_covers).keys_view(),
                ).1
                &&& acts@.len() == shown
                &&& (forall|i: int|
                    0 <= i < shown ==> (#[trigger] acts@[i] matches Action::FetchCover {
                        manga_id,
                        cover_url,
                    } && manga_id@ == results@[i]@.id && cover_url@ == results@[i]@.cover_url))
            },
        },
{
    match task {
        BackgroundTask::CoverLoaded { manga_id, image } => {
            app.add_cover_image(manga_id.as_str(), image);
            pending_covers.finish(manga_id.as_str());
            Vec::new()
        },
        BackgroundTask::ChaptersLoaded { chapters } => {
            let ids = thumbnail_sweep_targets(&chapters);
            app.chapters = crate::mangadex::clone_chapters(&chapters);
            let mut acts: Vec<Action> = Vec::new();
            acts.push(Action::SweepChapterThumbnails { chapter_ids: ids });
            acts
        },
        BackgroundTask::ChapterThumbnailLoaded { chapter_id, image } => {
            app.add_chapter_thumbnail(chapter_id.as_str(), image);
            Vec::new()
        },
        BackgroundTask::PageUrlsLoaded { urls } => {
            app.reader.page_urls = urls;
            app.reader.error = None;
            let mut acts: Vec<Action> = Vec::new();
            if app.reader.page_urls.len() > 0 {
                acts.push(
                    Action::FetchPageImage { url: app.reader.page_urls[0].clone() },
                );
            }
            let mut preacts = preload_upcoming_pages(
                &app.reader.page_urls,
                0,
                preloading_pages,
            );
            let ghost acts_pre = acts@;
            let ghost pre_pre = preacts@;
            acts.append(&mut preacts);
            proof {
                if str_views(app.reader.page_urls@).len() > 0 {
                    assert(acts@.skip(1) =~= pre_pre);
                    assert(preload_urls(acts@.skip(1)) =~~= preload_urls(pre_pre));
                } else {
                    assert(acts@ =~= Seq::<Action>::empty());
                }
            }
            acts
        },
        BackgroundTask::PageUrlsLoadFailed => {
            app.set_page_load_error(
                String::from_str("Failed to load chapter pages. Press 'r' to retry."),
            );
            Vec::new()
        },
        BackgroundTask::PageImageLoaded { image } => {
            app.set_page_image(image);
            preload_upcoming_pages(
                &app.reader.page_urls,
                app.reader.current_page,
                preloading_pages,
            )
        },
        BackgroundTask::PageImageLoadFailed => {
            app.set_page_load_error(
                String::from_str("Failed to load page image. Press 'r' to retry."),
            );
            Vec::new()
        },
        BackgroundTask::PagePreloaded { page_url } => {
            preloading_pages.finish(page_url.as_str());
            match find_url(&app.reader.page_urls, &page_url) {
                Some(idx) => {
                    let acts = preload_upcoming_pages(
                        &app.reader.page_urls,
                        idx,
                        preloading_pages,
                    );
                    proof {
                        let urlviews = str_views(old(app).reader.page_urls@);
                        assert(urlviews[idx as int] == page_url@);
                    }
                    acts
                },
                None => Vec::new(),
            }
        },
        BackgroundTask::SearchResults { results } => {
            app.search_results = crate::mangadex::clone_mangas(&results);
            app.searching = false;
            app.search_offset = 0;
            let shown = if results.len() < 6 {
                results.len()
            } else {
                6
            };
            let ghost shown_ids = crate::mangadex::manga_views(results@).take(
                shown as int,
            ).map_values(|m: crate::mangadex::MangaView| m.id);
            let mut acts: Vec<Action> = Vec::new();
            let mut j: usize = 0;
            proof {
                assert(shown_ids.take(0) =~= Seq::<Seq<char>>::empty());
            }
            while j < shown
                invariant
                    j <= shown,
                    shown <= results@.len(),
                    shown_ids == crate::mangadex::manga_views(results@).take(
                        shown as int,
                    ).map_values(|m: crate::mangadex::MangaView| m.id),
                    pending_covers.wf(),
                    pending_covers.keys_view() == spec_schedule(
                        shown_ids.take(j as int),
                        old(pending_covers).keys_view(),
                    ).1,
                    acts@.len() == j,
                    forall|i: int|
                        0 <= i < j ==> (#[trigger] acts@[i] matches Action::FetchCover {
                            manga_id,
                            cover_url,
                        } && manga_id@ == results@[i]@.id && cover_url@
                            == results@[i]@.cover_url),
                decreases shown - j,
            {
                let m = &results[j];
                proof {
                    assert(shown_ids[j as int] == results@[j as int]@.id);
                }
                acts.push(
                    Action::FetchCover {
                        manga_id: m.id.clone(),
                        cover_url: m.cover_url.clone(),
                    },
                );
                let _ = pending_covers.begin(m.id.as_str());
                proof {
                    let w_take = shown_ids.take(j as int);
                    let w_take_next = shown_ids.take(j as int + 1);
                    assert(w_take_next =~= w_take.push(shown_ids[j as int]));
                    lemma_schedule_snoc(
                        w_take,
                        shown_ids[j as int],
                        old(pending_covers).keys_view(),
                    );
                    assert(pending_covers.keys_view() =~= spec_schedule(
                        w_take_next,
                        old(pending_covers).keys_view(),
                    ).1);
                }
                j = j + 1;
            }
            proof {
                assert(shown_ids.take(shown as int) =~= shown_ids);
            }
            acts
        },
    }
}

/// The one terminal event of a search task: results are always
/// announced, and an API error collapses to an empty result set — a
/// search never surfaces a distinct failure.
pub fn search_completed(results: Option<Vec<Manga>>) -> (ev: BackgroundTask)
    ensures
        match results {
            Some(rs) => ev == (BackgroundTask::SearchResults { results: rs }),
            None => (ev matches BackgroundTask::SearchResults { results } && results@
                == Seq::<Manga>::empty()),
        },
{
    match results {
        Some(rs) => BackgroundTask::SearchResults { results: rs },
        None => BackgroundTask::SearchResults { results: Vec::new() },
    }
}

/// Probe of a preload task before any fetch: a page already held in
/// either tier completes the task at once with its one event, and no
/// fetch is made; otherwise the task must fetch.
pub fn page_preload_probe(cache: &crate::cache::PageCache, url: String) -> (r: Option<
    BackgroundTask,
>)
    ensures
        match r {
            Some(ev) => (crate::cache::has_key(cache.mem(), url@) || crate::cache::has_key(
                cache.disk(),
                crate::cache::spec_url_to_filename(url@),
            )) && ev == (BackgroundTask::PagePreloaded { page_url: url }),
            None => !crate::cache::has_key(cache.mem(), url@) && !crate::cache::has_key(
                cache.disk(),
                crate::cache::spec_url_to_filename(url@),
            ),
        },
{
    if cache.has_page(url.as_str()) {
        Some(BackgroundTask::PagePreloaded { page_url: url })
    } else {
        None
    }
}

/// Consumes what a best-effort preload fetched: an image is written
/// through the cache and the completion event is emitted; a failed
/// fetch stores nothing and, being best effort, emits nothing. The
/// caller performs the returned write plan.
pub fn page_preload_fetched(
    cache: &mut crate::cache::PageCache,
    url: String,
    fetched: Option<image::DynamicImage>,
) -> (r: (crate::cache::WritePlan, Option<BackgroundTask>))
    requires
        old(cache).wf(),
    ensures
        final(cache).wf(),
        final(cache).chapters() == old(cache).chapters(),
        match fetched {
            Some(image) => {
                &&& final(cache).mem() == crate::cache::insert_lru(
                    old(cache).mem(),
                    url@,
                    image,
                    crate::cache::MAX_MEMORY_PAGES as nat,
                )
                &&& crate::cache::lookup(final(cache).mem(), url@) == Some(image)
                &&& (match r.0.write {
                    Some(w) => w.0@ == crate::cache::spec_url_to_filename(url@)
                        && final(cache).disk() == crate::cache::upsert(
                        crate::cache::spec_cleanup(
                            old(cache).disk(),
                            crate::cache::MAX_DISK_CACHE_BYTES as int,
                        ),
                        w.0@,
                        w.1@.len() as u64,
                    ),
                    None => final(cache).disk() == crate::cache::spec_cleanup(
                        old(cache).disk(),
                        crate::cache::MAX_DISK_CACHE_BYTES as int,
                    ),
                })
                &&& r.1 == Some(BackgroundTask::PagePreloaded { page_url: url })
            },
            None => {
                &&& *final(cache) == *old(cache)
                &&& r.0.deletions@ == Seq::<String>::empty()
                &&& r.0.write is None
                &&& r.1 is None
            },
        },
{
    match fetched {
        Some(image) => {
            let url2 = url.clone();
            let plan = cache.insert_page(url, image);
            (plan, Some(BackgroundTask::PagePreloaded { page_url: url2 }))
        },
        None => (
            crate::cache::WritePlan { deletions: Vec::new(), write: None },
            None,
        ),
    }
}

/// Quiescence window after the last keystroke before a search
/// dispatches.
pub const DEBOUNCE_MS: u64 = 300;

/// The debounce check run on every tick. Once the last keystroke is
/// `DEBOUNCE_MS` old the pending debounce is consumed, and exactly one
/// search dispatches if the query is non-empty, no search is running,
/// and the query differs from the one last dispatched; otherwise
/// nothing dispatches.
pub fn check_search_debounce(app: &mut crate::ui::App, now_ms: u64) -> (act: Option<Action>)
    ensures
        crate::ui::same_chrome(*final(app), *old(app)),
        crate::ui::same_browse(*final(app), *old(app)),
        crate::ui::same_library(*final(app), *old(app)),
        crate::ui::same_detail(*final(app), *old(app)),
        crate::ui::same_reader(*final(app), *old(app)),
        final(app).view == old(app).view,
        final(app).search_query == old(app).search_query,
        final(app).search_results == old(app).search_results,
        final(app).search_offset == old(app).search_offset,
        match old(app).search_debounce {
            Some(t0) => if now_ms >= t0 + DEBOUNCE_MS {
                final(app).search_debounce is None && if old(app).search_query@.len() > 0 && !old(
                    app,
                ).searching && old(app).search_query@ != old(app).last_search_query@ {
                    final(app).searching == true && final(app).last_search_query@ == old(
                        app,
                    ).search_query@ && (act matches Some(a) && a matches Action::Search { query }
                        && query@ == old(app).search_query@)
                } else {
                    final(app).searching == old(app).searching && final(app).last_search_query
                        == old(app).last_search_query && act is None
                }
            } else {
                *final(app) == *old(app) && act is None
            },
            None => *final(app) == *old(app) && act is None,
        },
{
    match app.search_debounce {
        Some(t0) => {
            if now_ms >= t0 && now_ms - t0 >= DEBOUNCE_MS {
                app.search_debounce = None;
                if app.search_query.unicode_len() > 0 && !app.searching && !(app.search_query
                    == app.last_search_query) {
                    app.searching = true;
                    app.last_search_query = app.search_query.clone();
                    let query = app.search_query.clone();
                    Some(Action::Search { query })
                } else {
                    None
                }
            } else {
                None
            }
        },
        None => None,
    }
}

} // verus!
