//! Two-tier page cache: a bounded in-memory map in least-recently-used
//! order, and an index of the on-disk cache directory with a byte budget
//! and an oldest-first cleanup sweep.

use vstd::prelude::*;
use vstd::string::*;

verus! {

/// Hash used to derive a disk filename from a resource URL.
/// Stable across runs; not cryptographic, collisions are tolerated.
pub open spec fn spec_md5_hash(s: Seq<char>) -> u128
    decreases s.len(),
{
    if s.len() == 0 {
        0u128
    } else {
        vstd::wrapping::u128_specs::wrapping_add(
            (s.first() as u32) as u128,
            vstd::wrapping::u128_specs::wrapping_mul(31u128, spec_md5_hash(s.drop_first())),
        )
    }
}

/// Content-address hash over a resource URL, used to name its cache file.
pub fn md5_hash(s: &str) -> (h: u128)
    ensures
        h == spec_md5_hash(s@),
{
    let n = s.unicode_len();
    let mut i = n;
    let mut acc: u128 = 0;
    proof {
        assert(s@.skip(n as int) =~= Seq::<char>::empty());
    }
    while i > 0
        invariant
            i <= n,
            n == s@.len(),
            acc == spec_md5_hash(s@.skip(i as int)),
        decreases i,
    {
        i = i - 1;
        let c = s.get_char(i);
        proof {
            assert(s@.skip(i as int).drop_first() =~= s@.skip(i as int + 1));
        }
        acc = ((c as u32) as u128).wrapping_add(31u128.wrapping_mul(acc));
    }
    proof {
        assert(s@.skip(0) =~= s@);
    }
    acc
}

/// How many decoded pages the memory tier may hold at once.
pub const MAX_MEMORY_PAGES: usize = 50;

/// Byte budget of the disk tier.
pub const MAX_DISK_CACHE_BYTES: u64 = 500u64 * 1024 * 1024;

// An association sequence keyed by strings models every keyed collection
// of the cache. Position also carries recency: index 0 is the entry
// touched least recently.

/// `m` holds an entry for key `k`.
pub open spec fn has_key<V>(m: Seq<(Seq<char>, V)>, k: Seq<char>) -> bool {
    exists|i: int| 0 <= i < m.len() && m[i].0 == k
}

/// Position of the entry for `k`; meaningful only when keys are distinct.
pub open spec fn index_of_key<V>(m: Seq<(Seq<char>, V)>, k: Seq<char>) -> int {
    choose|i: int| 0 <= i < m.len() && m[i].0 == k
}

/// The value stored under `k`, if any.
pub open spec fn lookup<V>(m: Seq<(Seq<char>, V)>, k: Seq<char>) -> Option<V> {
    if has_key(m, k) {
        Some(m[index_of_key(m, k)].1)
    } else {
        None
    }
}

/// `m` without its entry for `k` (unchanged when there is none).
pub open spec fn remove_key<V>(m: Seq<(Seq<char>, V)>, k: Seq<char>) -> Seq<(Seq<char>, V)> {
    if has_key(m, k) {
        m.remove(index_of_key(m, k))
    } else {
        m
    }
}

/// No two entries share a key.
pub open spec fn distinct_keys<V>(m: Seq<(Seq<char>, V)>) -> bool {
    forall|i: int, j: int| 0 <= i < j < m.len() ==> m[i].0 != m[j].0
}

/// Recency bump: the entry for `k`, if present, moves to the
/// most-recent end; nothing else changes.
pub open spec fn touch<V>(m: Seq<(Seq<char>, V)>, k: Seq<char>) -> Seq<(Seq<char>, V)> {
    if has_key(m, k) {
        remove_key(m, k).push((k, m[index_of_key(m, k)].1))
    } else {
        m
    }
}

/// Bounded insert: when the sequence is full its least-recent entry is
/// dropped; any previous entry for `k` is dropped too; the new entry
/// becomes the most recent.
pub open spec fn insert_lru<V>(m: Seq<(Seq<char>, V)>, k: Seq<char>, v: V, max: nat) -> Seq<
    (Seq<char>, V),
> {
    let evicted = if m.len() >= max && m.len() > 0 {
        m.drop_first()
    } else {
        m
    };
    remove_key(evicted, k).push((k, v))
}

/// Plain update for the chapter-URL namespace: replace or append.
pub open spec fn upsert<V>(m: Seq<(Seq<char>, V)>, k: Seq<char>, v: V) -> Seq<(Seq<char>, V)> {
    remove_key(m, k).push((k, v))
}

proof fn lemma_remove_preserves_distinct<V>(m: Seq<(Seq<char>, V)>, i: int)
    requires
        distinct_keys(m),
        0 <= i < m.len(),
    ensures
        distinct_keys(m.remove(i)),
        !has_key(m.remove(i), m[i].0),
{
    let r = m.remove(i);
    assert forall|p: int, q: int| 0 <= p < q < r.len() implies r[p].0 != r[q].0 by {
        assert(r[p] == m[if p < i {
            p
        } else {
            p + 1
        }]);
        assert(r[q] == m[if q < i {
            q
        } else {
            q + 1
        }]);
    }
    assert forall|p: int| 0 <= p < r.len() implies r[p].0 != m[i].0 by {
        assert(r[p] == m[if p < i {
            p
        } else {
            p + 1
        }]);
    }
}

pub(crate) proof fn lemma_index_of_key_unique<V>(m: Seq<(Seq<char>, V)>, k: Seq<char>, i: int)
    requires
        distinct_keys(m),
        0 <= i < m.len(),
        m[i].0 == k,
    ensures
        index_of_key(m, k) == i,
{
    let j = index_of_key(m, k);
    assert(0 <= j < m.len() && m[j].0 == k);
}

proof fn lemma_remove_key_distinct<V>(m: Seq<(Seq<char>, V)>, k: Seq<char>)
    requires
        distinct_keys(m),
    ensures
        distinct_keys(remove_key(m, k)),
        !has_key(remove_key(m, k), k),
        remove_key(m, k).len() <= m.len(),
{
    if has_key(m, k) {
        let i = index_of_key(m, k);
        assert(0 <= i < m.len() && m[i].0 == k);
        lemma_remove_preserves_distinct(m, i);
    }
}

proof fn lemma_drop_first_distinct<V>(m: Seq<(Seq<char>, V)>)
    requires
        distinct_keys(m),
        m.len() > 0,
    ensures
        distinct_keys(m.drop_first()),
{
    let r = m.drop_first();
    assert forall|p: int, q: int| 0 <= p < q < r.len() implies r[p].0 != r[q].0 by {
        assert(r[p] == m[p + 1]);
        assert(r[q] == m[q + 1]);
    }
}

/// A bounded insert never leaves more than `max` entries (when it starts
/// within the bound and `max` is positive), and what it evicts from a
/// full sequence is exactly the least-recent entry.
pub proof fn lemma_insert_lru_bounded<V>(m: Seq<(Seq<char>, V)>, k: Seq<char>, v: V, max: nat)
    requires
        distinct_keys(m),
        m.len() <= max,
        max > 0,
    ensures
        insert_lru(m, k, v, max).len() <= max,
        distinct_keys(insert_lru(m, k, v, max)),
        insert_lru(m, k, v, max).last() == (k, v),
        m.len() == max ==> forall|i: int|
            0 <= i < insert_lru(m, k, v, max).len() - 1 ==> insert_lru(m, k, v, max)[i].0
                != m[0].0 || m[0].0 == k,
{
    let evicted = if m.len() >= max && m.len() > 0 {
        m.drop_first()
    } else {
        m
    };
    if m.len() >= max && m.len() > 0 {
        lemma_drop_first_distinct(m);
    }
    lemma_remove_key_distinct(evicted, k);
    let base = remove_key(evicted, k);
    let out = base.push((k, v));
    assert forall|p: int, q: int| 0 <= p < q < out.len() implies out[p].0 != out[q].0 by {
        if q == out.len() - 1 {
            assert(!has_key(base, k));
            assert(out[p] == base[p]);
        }
    }
    if m.len() == max {
        assert forall|i: int| 0 <= i < out.len() - 1 implies out[i].0 != m[0].0 || m[0].0 == k by {
            assert(out[i] == base[i]);
            if m[0].0 != k {
                if has_key(evicted, k) {
                    let j = index_of_key(evicted, k);
                    assert forall|p: int| 0 <= p < base.len() implies base[p] == evicted[if p < j {
                        p
                    } else {
                        p + 1
                    }] by {}
                }
                assert forall|p: int| 0 <= p < evicted.len() implies evicted[p].0 != m[0].0 by {
                    assert(evicted[p] == m[p + 1]);
                }
            }
        }
    }
}

/// When a full sequence admits a fresh key, exactly its least-recent
/// entry leaves: the rest survive in order, with the new entry at the
/// most-recent end.
pub proof fn lemma_lru_evicts_oldest<V>(m: Seq<(Seq<char>, V)>, k: Seq<char>, v: V, max: nat)
    requires
        distinct_keys(m),
        m.len() == max,
        max > 0,
        !has_key(m, k),
    ensures
        insert_lru(m, k, v, max) == m.drop_first().push((k, v)),
{
    let evicted = m.drop_first();
    assert forall|p: int| 0 <= p < evicted.len() implies evicted[p].0 != k by {
        assert(evicted[p] == m[p + 1]);
    }
    assert(!has_key(evicted, k));
}

/// The disk half of availability after a write-through put: the page's
/// cache file is in the index, whatever was there before. Memory-tier
/// traffic never touches the index, so the file outlives any later
/// eviction of the page from memory.
pub proof fn lemma_write_through_on_disk(d: DiskView, name: Seq<char>, size: u64)
    ensures
        has_key(upsert(d, name, size), name),
        lookup(upsert(d, name, size), name) is Some,
{
    let out = upsert(d, name, size);
    assert(out[out.len() - 1].0 == name);
    assert(has_key(out, name));
}

/// Reading a key right after it was inserted yields the inserted value.
pub proof fn lemma_get_after_put<V>(m: Seq<(Seq<char>, V)>, k: Seq<char>, v: V, max: nat)
    requires
        distinct_keys(m),
        m.len() <= max,
        max > 0,
    ensures
        lookup(insert_lru(m, k, v, max), k) == Some(v),
{
    lemma_insert_lru_bounded(m, k, v, max);
    let out = insert_lru(m, k, v, max);
    assert(out[out.len() - 1].0 == k);
    assert(has_key(out, k));
    lemma_index_of_key_unique(out, k, out.len() - 1);
}

/// A recency bump reorders and loses nothing: every key reads the same
/// value before and after.
pub proof fn lemma_touch_preserves_lookup<V>(m: Seq<(Seq<char>, V)>, k: Seq<char>, j: Seq<char>)
    requires
        distinct_keys(m),
    ensures
        lookup(touch(m, k), j) == lookup(m, j),
{
    if has_key(m, k) {
        let i = index_of_key(m, k);
        assert(0 <= i < m.len() && m[i].0 == k);
        lemma_index_of_key_unique(m, k, i);
        lemma_remove_preserves_distinct(m, i);
        lemma_touch_distinct(m, k);
        let base = m.remove(i);
        let out = base.push((k, m[i].1));
        if j == k {
            lemma_index_of_key_unique(out, k, out.len() - 1);
            assert(lookup(touch(m, k), j) == lookup(m, j));
        } else {
            if has_key(m, j) {
                let w = index_of_key(m, j);
                assert(0 <= w < m.len() && m[w].0 == j);
                lemma_index_of_key_unique(m, j, w);
                m.remove_ensures(i);
                assert(w != i);
                let w2 = if w < i {
                    w
                } else {
                    w - 1
                };
                if w < i {
                    assert(base[w2] == m[w]);
                } else {
                    assert(base[w2] == m[w2 + 1]);
                }
                assert(out[w2] == m[w]);
                lemma_index_of_key_unique(out, j, w2);
                assert(lookup(touch(m, k), j) == lookup(m, j));
            } else {
                assert forall|p: int| 0 <= p < out.len() implies out[p].0 != j by {
                    if p < out.len() - 1 {
                        assert(out[p] == base[p]);
                        assert(base[p] == m[if p < i {
                            p
                        } else {
                            p + 1
                        }]);
                    }
                }
                assert(!has_key(out, j));
                assert(lookup(touch(m, k), j) == lookup(m, j));
            }
        }
    } else {
        assert(touch(m, k) == m);
    }
}

proof fn lemma_touch_distinct<V>(m: Seq<(Seq<char>, V)>, k: Seq<char>)
    requires
        distinct_keys(m),
    ensures
        distinct_keys(touch(m, k)),
        touch(m, k).len() == m.len(),
{
    if has_key(m, k) {
        let i = index_of_key(m, k);
        assert(0 <= i < m.len() && m[i].0 == k);
        lemma_remove_preserves_distinct(m, i);
        let base = m.remove(i);
        let out = base.push((k, m[i].1));
        assert forall|p: int, q: int| 0 <= p < q < out.len() implies out[p].0 != out[q].0 by {
            if q == out.len() - 1 {
                assert(out[p] == base[p]);
            }
        }
    }
}

pub(crate) proof fn lemma_map_values_remove<A, B>(s: Seq<A>, f: spec_fn(A) -> B, i: int)
    requires
        0 <= i < s.len(),
    ensures
        s.remove(i).map_values(f) =~= s.map_values(f).remove(i),
{
}

pub(crate) proof fn lemma_map_values_push<A, B>(s: Seq<A>, f: spec_fn(A) -> B, a: A)
    ensures
        s.push(a).map_values(f) =~= s.map_values(f).push(f(a)),
{
}

// The memory tier stores each decoded page beside its key; the vector's
// order is the access order.
struct PageEntry {
    url: String,
    image: image::DynamicImage,
}

// One file the cache believes to live in its disk directory.
struct DiskRecord {
    name: String,
    size: u64,
}

// One resolved page-URL list.
struct ChapterRecord {
    chapter_id: String,
    urls: Vec<String>,
}

/// Model of the memory tier: key and decoded image, least recent first.
pub type MemView = Seq<(Seq<char>, image::DynamicImage)>;

/// Model of the disk tier: filename and byte size, oldest write first.
pub type DiskView = Seq<(Seq<char>, u64)>;

/// Model of the chapter-URL namespace: chapter id and its page URLs.
pub type ChaptersView = Seq<(Seq<char>, Seq<Seq<char>>)>;

/// Two-tier page cache. The memory tier holds decoded images in
/// least-recently-used order and is bounded by `MAX_MEMORY_PAGES`; the
/// disk tier is an index of the cache directory (filename and size,
/// oldest first) kept within `MAX_DISK_CACHE_BYTES` by a cleanup sweep.
/// The byte traffic itself is the caller's: mutating operations hand
/// back what to write and what to delete.
pub struct PageCache {
    pages: Vec<PageEntry>,
    disk: Vec<DiskRecord>,
    chapter_urls: Vec<ChapterRecord>,
}

impl PageCache {
    /// The memory tier as an association sequence in access order.
    pub closed spec fn mem(self) -> MemView {
        self.pages@.map_values(|e: PageEntry| (e.url@, e.image))
    }

    /// The disk index, oldest file first.
    pub closed spec fn disk(self) -> DiskView {
        self.disk@.map_values(|e: DiskRecord| (e.name@, e.size))
    }

    /// The resolved page-URL lists.
    pub closed spec fn chapters(self) -> ChaptersView {
        self.chapter_urls@.map_values(|e: ChapterRecord| (e.chapter_id@, str_views(e.urls@)))
    }

    /// Every keyed view holds each key once, and the memory tier is
    /// within its bound.
    pub open spec fn wf(self) -> bool {
        &&& distinct_keys(self.mem())
        &&& self.mem().len() <= MAX_MEMORY_PAGES
        &&& distinct_keys(self.disk())
        &&& distinct_keys(self.chapters())
    }

    /// An empty cache.
    pub fn new() -> (c: PageCache)
        ensures
            c.wf(),
            c.mem() == Seq::<(Seq<char>, image::DynamicImage)>::empty(),
            c.disk() == Seq::<(Seq<char>, u64)>::empty(),
            c.chapters() == Seq::<(Seq<char>, Seq<Seq<char>>)>::empty(),
    {
        let c = PageCache { pages: Vec::new(), disk: Vec::new(), chapter_urls: Vec::new() };
        proof {
            assert(c.mem() =~= Seq::<(Seq<char>, image::DynamicImage)>::empty());
            assert(c.disk() =~= Seq::<(Seq<char>, u64)>::empty());
            assert(c.chapters() =~= Seq::<(Seq<char>, Seq<Seq<char>>)>::empty());
        }
        c
    }

    fn find_page(&self, key: &String) -> (r: Option<usize>)
        ensures
            match r {
                Some(i) => i < self.mem().len() && self.mem()[i as int].0 == key@ && has_key(
                    self.mem(),
                    key@,
                ),
                None => !has_key(self.mem(), key@),
            },
    {
        let mut j: usize = 0;
        while j < self.pages.len()
            invariant
                j <= self.pages.len(),
                forall|t: int| 0 <= t < j ==> self.mem()[t].0 != key@,
            decreases self.pages.len() - j,
        {
            if self.pages[j].url == *key {
                proof {
                    assert(self.mem()[j as int].0 == key@);
                }
                return Some(j);
            }
            j = j + 1;
        }
        None
    }

    /// Memory-tier read. A hit returns the stored image and bumps the
    /// key to the most-recent end; a miss changes nothing. The disk
    /// tier is probed separately (`disk_cache_exists`), since only the
    /// caller can read the file back.
    pub fn get_page(&mut self, url: &str) -> (r: Option<image::DynamicImage>)
        requires
            old(self).wf(),
        ensures
            final(self).wf(),
            r == lookup(old(self).mem(), url@),
            final(self).mem() == touch(old(self).mem(), url@),
            final(self).disk() == old(self).disk(),
            final(self).chapters() == old(self).chapters(),
    {
        let key = String::from_str(url);
        proof {
            lemma_touch_distinct(old(self).mem(), url@);
        }
        match self.find_page(&key) {
            Some(i) => {
                proof {
                    lemma_index_of_key_unique(self.mem(), url@, i as int);
                    lemma_map_values_remove(
                        self.pages@,
                        |e: PageEntry| (e.url@, e.image),
                        i as int,
                    );
                }
                let e = self.pages.remove(i);
                let img = e.image.clone();
                proof {
                    lemma_map_values_push(
                        self.pages@,
                        |e: PageEntry| (e.url@, e.image),
                        e,
                    );
                }
                self.pages.push(e);
                Some(img)
            },
            None => None,
        }
    }

    /// Memory-tier write without a disk write-through: used when a page
    /// read back from its cache file is promoted into memory. A full
    /// tier first evicts its least-recently-used entry.
    pub fn insert_memory(&mut self, url: String, image: image::DynamicImage)
        requires
            old(self).wf(),
        ensures
            final(self).wf(),
            final(self).mem() == insert_lru(
                old(self).mem(),
                url@,
                image,
                MAX_MEMORY_PAGES as nat,
            ),
            lookup(final(self).mem(), url@) == Some(image),
            final(self).disk() == old(self).disk(),
            final(self).chapters() == old(self).chapters(),
    {
        proof {
            lemma_insert_lru_bounded(old(self).mem(), url@, image, MAX_MEMORY_PAGES as nat);
            lemma_get_after_put(old(self).mem(), url@, image, MAX_MEMORY_PAGES as nat);
        }
        if self.pages.len() >= MAX_MEMORY_PAGES {
            proof {
                lemma_map_values_remove(self.pages@, |e: PageEntry| (e.url@, e.image), 0);
                assert(self.mem().remove(0) =~= self.mem().drop_first());
                lemma_drop_first_distinct(self.mem());
            }
            let _ = self.pages.remove(0);
        }
        match self.find_page(&url) {
            Some(i) => {
                proof {
                    lemma_index_of_key_unique(self.mem(), url@, i as int);
                    lemma_map_values_remove(
                        self.pages@,
                        |e: PageEntry| (e.url@, e.image),
                        i as int,
                    );
                }
                let _ = self.pages.remove(i);
            },
            None => {},
        }
        proof {
            lemma_map_values_push(
                self.pages@,
                |e: PageEntry| (e.url@, e.image),
                PageEntry { url: url, image: image },
            );
        }
        self.pages.push(PageEntry { url, image });
    }
}

/// Hex digit for a value below 16.
pub open spec fn spec_hex_digit(d: u128) -> char {
    if d == 0 {
        '0'
    } else if d == 1 {
        '1'
    } else if d == 2 {
        '2'
    } else if d == 3 {
        '3'
    } else if d == 4 {
        '4'
    } else if d == 5 {
        '5'
    } else if d == 6 {
        '6'
    } else if d == 7 {
        '7'
    } else if d == 8 {
        '8'
    } else if d == 9 {
        '9'
    } else if d == 10 {
        'a'
    } else if d == 11 {
        'b'
    } else if d == 12 {
        'c'
    } else if d == 13 {
        'd'
    } else if d == 14 {
        'e'
    } else {
        'f'
    }
}

/// Lowercase hex rendering of a hash, most significant digit first,
/// without leading zeros (a zero hash renders as "0").
pub open spec fn spec_hex(h: u128) -> Seq<char>
    decreases h,
{
    if h < 16 {
        seq![spec_hex_digit(h)]
    } else {
        spec_hex(h / 16).push(spec_hex_digit(h % 16))
    }
}

/// The cache filename that stores the resource at `url`.
pub open spec fn spec_url_to_filename(url: Seq<char>) -> Seq<char> {
    spec_hex(spec_md5_hash(url))
}

fn hex_digit_str(d: u128) -> (s: &'static str)
    requires
        d < 16,
    ensures
        s@ == seq![spec_hex_digit(d)],
{
    proof {
        reveal_strlit("0");
        reveal_strlit("1");
        reveal_strlit("2");
        reveal_strlit("3");
        reveal_strlit("4");
        reveal_strlit("5");
        reveal_strlit("6");
        reveal_strlit("7");
        reveal_strlit("8");
        reveal_strlit("9");
        reveal_strlit("a");
        reveal_strlit("b");
        reveal_strlit("c");
        reveal_strlit("d");
        reveal_strlit("e");
        reveal_strlit("f");
    }
    let s = if d == 0 {
        "0"
    } else if d == 1 {
        "1"
    } else if d == 2 {
        "2"
    } else if d == 3 {
        "3"
    } else if d == 4 {
        "4"
    } else if d == 5 {
        "5"
    } else if d == 6 {
        "6"
    } else if d == 7 {
        "7"
    } else if d == 8 {
        "8"
    } else if d == 9 {
        "9"
    } else if d == 10 {
        "a"
    } else if d == 11 {
        "b"
    } else if d == 12 {
        "c"
    } else if d == 13 {
        "d"
    } else if d == 14 {
        "e"
    } else {
        "f"
    };
    proof {
        assert(s@ =~= seq![spec_hex_digit(d)]);
    }
    s
}

/// Renders a hash as its lowercase hex filename.
pub fn hex_name(h: u128) -> (s: String)
    ensures
        s@ == spec_hex(h),
    decreases h,
{
    let d = h % 16;
    if h < 16 {
        String::from_str(hex_digit_str(h))
    } else {
        let mut s = hex_name(h / 16);
        let digit = hex_digit_str(d);
        s.append(digit);
        proof {
            assert(spec_hex(h / 16) + seq![spec_hex_digit(d)] =~= spec_hex(h));
        }
        s
    }
}

/// Derives the disk-cache filename for a resource URL.
pub fn url_to_filename(url: &str) -> (name: String)
    ensures
        name@ == spec_url_to_filename(url@),
{
    hex_name(md5_hash(url))
}

/// The views of a sequence of strings.
pub open spec fn str_views(v: Seq<String>) -> Seq<Seq<char>> {
    v.map_values(|s: String| s@)
}

/// Bytes held by the files of a disk index.
pub open spec fn disk_total(d: DiskView) -> int
    decreases d.len(),
{
    if d.len() == 0 {
        0
    } else {
        d.first().1 + disk_total(d.drop_first())
    }
}

/// How many of the oldest files the sweep removes to come back under
/// `target` bytes.
pub open spec fn cleanup_count_rec(d: DiskView, target: int) -> nat
    decreases d.len(),
{
    if disk_total(d) <= target || d.len() == 0 {
        0
    } else {
        1 + cleanup_count_rec(d.drop_first(), target)
    }
}

/// The sweep runs only once usage exceeds the full budget, and then
/// removes oldest files until usage is within 80% of it.
pub open spec fn spec_cleanup_count(d: DiskView, budget: int) -> nat {
    if disk_total(d) > budget {
        cleanup_count_rec(d, budget * 80 / 100)
    } else {
        0
    }
}

/// The disk index after a cleanup sweep.
pub open spec fn spec_cleanup(d: DiskView, budget: int) -> DiskView {
    d.skip(spec_cleanup_count(d, budget) as int)
}

proof fn lemma_disk_total_bounds(d: DiskView)
    ensures
        0 <= disk_total(d) <= d.len() * (u64::MAX as int),
    decreases d.len(),
{
    if d.len() > 0 {
        lemma_disk_total_bounds(d.drop_first());
    }
}

proof fn lemma_cleanup_rec_settles(d: DiskView, target: int)
    requires
        target >= 0,
    ensures
        cleanup_count_rec(d, target) <= d.len(),
        disk_total(d.skip(cleanup_count_rec(d, target) as int)) <= target,
    decreases d.len(),
{
    if disk_total(d) <= target || d.len() == 0 {
        assert(d.skip(0) =~= d);
        lemma_disk_total_bounds(d);
    } else {
        lemma_cleanup_rec_settles(d.drop_first(), target);
        let c = cleanup_count_rec(d.drop_first(), target);
        assert(d.skip(1 + c as int) =~= d.drop_first().skip(c as int));
    }
}

/// Once usage exceeds the budget, a sweep settles it at or below 80%
/// of the budget; within the budget, a sweep removes nothing.
pub proof fn lemma_cleanup_settles(d: DiskView, budget: int)
    requires
        budget >= 0,
    ensures
        spec_cleanup_count(d, budget) <= d.len(),
        disk_total(d) > budget ==> disk_total(spec_cleanup(d, budget)) <= budget * 80 / 100,
        disk_total(d) <= budget ==> spec_cleanup(d, budget) == d,
{
    if disk_total(d) > budget {
        lemma_cleanup_rec_settles(d, budget * 80 / 100);
    } else {
        assert(d.skip(0) =~= d);
    }
}

proof fn lemma_skip_distinct(d: DiskView, k: int)
    requires
        distinct_keys(d),
        0 <= k <= d.len(),
    ensures
        distinct_keys(d.skip(k)),
{
    let r = d.skip(k);
    assert forall|p: int, q: int| 0 <= p < q < r.len() implies r[p].0 != r[q].0 by {
        assert(r[p] == d[p + k]);
        assert(r[q] == d[q + k]);
    }
}

pub(crate) proof fn lemma_upsert_distinct<V>(m: Seq<(Seq<char>, V)>, k: Seq<char>, v: V)
    requires
        distinct_keys(m),
    ensures
        distinct_keys(upsert(m, k, v)),
{
    lemma_remove_key_distinct(m, k);
    let base = remove_key(m, k);
    let out = base.push((k, v));
    assert forall|p: int, q: int| 0 <= p < q < out.len() implies out[p].0 != out[q].0 by {
        if q == out.len() - 1 {
            assert(out[p] == base[p]);
        }
    }
}

/// What a write-through put asks of the caller: files to delete from
/// the cache directory, and the encoded bytes to write, if the encoder
/// accepted the image.
pub struct WritePlan {
    /// Filenames the cleanup sweep removed, oldest first.
    pub deletions: Vec<String>,
    /// The filename and contents of the new cache file.
    pub write: Option<(String, Vec<u8>)>,
}

impl PageCache {
    fn find_disk(&self, name: &String) -> (r: Option<usize>)
        ensures
            match r {
                Some(i) => i < self.disk().len() && self.disk()[i as int].0 == name@ && has_key(
                    self.disk(),
                    name@,
                ),
                None => !has_key(self.disk(), name@),
            },
    {
        let mut j: usize = 0;
        while j < self.disk.len()
            invariant
                j <= self.disk.len(),
                forall|t: int| 0 <= t < j ==> self.disk()[t].0 != name@,
            decreases self.disk.len() - j,
        {
            if self.disk[j].name == *name {
                proof {
                    assert(self.disk()[j as int].0 == name@);
                }
                return Some(j);
            }
            j = j + 1;
        }
        None
    }

    /// A file for this URL exists in the disk index.
    pub fn disk_cache_exists(&self, url: &str) -> (r: bool)
        ensures
            r == has_key(self.disk(), spec_url_to_filename(url@)),
    {
        let name = url_to_filename(url);
        self.find_disk(&name).is_some()
    }

    /// The resource is available without a fetch: either decoded in
    /// memory or stored in the cache directory.
    pub fn has_page(&self, url: &str) -> (r: bool)
        ensures
            r == (has_key(self.mem(), url@) || has_key(
                self.disk(),
                spec_url_to_filename(url@),
            )),
    {
        let key = String::from_str(url);
        if self.find_page(&key).is_some() {
            return true;
        }
        self.disk_cache_exists(url)
    }

    fn disk_total_bytes(&self) -> (t: u128)
        ensures
            t == disk_total(self.disk()),
    {
        proof {
            lemma_disk_total_bounds(self.disk());
        }
        let mut t: u128 = 0;
        let mut j: usize = 0;
        proof {
            assert(self.disk().skip(0) =~= self.disk());
        }
        while j < self.disk.len()
            invariant
                j <= self.disk.len(),
                t + disk_total(self.disk().skip(j as int)) == disk_total(self.disk()),
                disk_total(self.disk()) <= self.disk().len() * (u64::MAX as int),
            decreases self.disk.len() - j,
        {
            proof {
                assert(self.disk().skip(j as int).drop_first() =~= self.disk().skip(j as int + 1));
                lemma_disk_total_bounds(self.disk().skip(j as int + 1));
                assert(self.disk().skip(j as int).first() == self.disk()[j as int]);
            }
            t = t + self.disk[j].size as u128;
            j = j + 1;
        }
        proof {
            assert(self.disk().skip(self.disk.len() as int) =~= Seq::<(Seq<char>, u64)>::empty());
        }
        t
    }

    /// Cleanup sweep over the disk index: when usage exceeds the byte
    /// budget, drop oldest files until it is at or below 80% of the
    /// budget. Returns the filenames to delete, oldest first.
    pub fn cleanup_old_cache(&mut self) -> (deletions: Vec<String>)
        requires
            old(self).wf(),
        ensures
            final(self).wf(),
            final(self).mem() == old(self).mem(),
            final(self).chapters() == old(self).chapters(),
            final(self).disk() == spec_cleanup(old(self).disk(), MAX_DISK_CACHE_BYTES as int),
            str_views(deletions@) == old(self).disk().take(
                spec_cleanup_count(old(self).disk(), MAX_DISK_CACHE_BYTES as int) as int,
            ).map_values(|e: (Seq<char>, u64)| e.0),
            disk_total(old(self).disk()) > MAX_DISK_CACHE_BYTES ==> disk_total(final(self).disk())
                <= (MAX_DISK_CACHE_BYTES as int) * 80 / 100,
    {
        let ghost d0 = old(self).disk();
        proof {
            lemma_cleanup_settles(d0, MAX_DISK_CACHE_BYTES as int);
        }
        let mut deletions: Vec<String> = Vec::new();
        let mut total = self.disk_total_bytes();
        if total <= MAX_DISK_CACHE_BYTES as u128 {
            proof {
                assert(spec_cleanup(d0, MAX_DISK_CACHE_BYTES as int) =~= d0);
                assert(str_views(deletions@) =~= d0.take(0).map_values(
                    |e: (Seq<char>, u64)| e.0,
                ));
            }
            return deletions;
        }
        let target: u128 = (MAX_DISK_CACHE_BYTES as u128) * 80 / 100;
        let ghost tgt = (MAX_DISK_CACHE_BYTES as int) * 80 / 100;
        while total > target && self.disk.len() > 0
            invariant
                old(self).wf(),
                self.pages == old(self).pages,
                self.chapter_urls == old(self).chapter_urls,
                tgt == target as int,
                deletions.len() <= d0.len(),
                self.disk() =~= d0.skip(deletions.len() as int),
                str_views(deletions@) =~= d0.take(deletions.len() as int).map_values(
                    |e: (Seq<char>, u64)| e.0,
                ),
                total == disk_total(self.disk()),
                cleanup_count_rec(d0, tgt) == deletions.len() + cleanup_count_rec(
                    self.disk(),
                    tgt,
                ),
            decreases self.disk.len(),
        {
            let ghost dcur = self.disk();
            proof {
                assert(disk_total(dcur) > tgt);
                assert(cleanup_count_rec(dcur, tgt) == 1 + cleanup_count_rec(
                    dcur.drop_first(),
                    tgt,
                ));
                lemma_map_values_remove(
                    self.disk@,
                    |e: DiskRecord| (e.name@, e.size),
                    0,
                );
                assert(dcur.remove(0) =~= dcur.drop_first());
                lemma_disk_total_bounds(dcur.drop_first());
            }
            let rec = self.disk.remove(0);
            total = total - rec.size as u128;
            let ghost rn: String = rec.name;
            let ghost del_prev = deletions@;
            deletions.push(rec.name);
            proof {
                lemma_map_values_push(del_prev, |s: String| s@, rn);
                assert(self.disk() =~= d0.skip(deletions.len() as int));
                assert(str_views(deletions@) =~~= d0.take(deletions.len() as int).map_values(
                    |e: (Seq<char>, u64)| e.0,
                ));
            }
        }
        proof {
            assert(cleanup_count_rec(self.disk(), tgt) == 0);
            assert(spec_cleanup_count(d0, MAX_DISK_CACHE_BYTES as int) == deletions.len());
            lemma_skip_distinct(d0, deletions.len() as int);
        }
        deletions
    }

    fn disk_put(&mut self, name: String, size: u64)
        requires
            old(self).wf(),
        ensures
            final(self).wf(),
            final(self).mem() == old(self).mem(),
            final(self).chapters() == old(self).chapters(),
            final(self).disk() == upsert(old(self).disk(), name@, size),
    {
        proof {
            lemma_upsert_distinct(old(self).disk(), name@, size);
        }
        match self.find_disk(&name) {
            Some(i) => {
                proof {
                    lemma_index_of_key_unique(self.disk(), name@, i as int);
                    lemma_map_values_remove(
                        self.disk@,
                        |e: DiskRecord| (e.name@, e.size),
                        i as int,
                    );
                }
                let _ = self.disk.remove(i);
            },
            None => {},
        }
        proof {
            lemma_map_values_push(
                self.disk@,
                |e: DiskRecord| (e.name@, e.size),
                DiskRecord { name: name, size: size },
            );
        }
        self.disk.push(DiskRecord { name, size });
    }

    /// Write-through put: sweep the disk index, encode the image for
    /// its cache file, record the file, and insert the decoded image
    /// into the memory tier. The caller performs the returned deletions
    /// and the returned write; an image the encoder refuses is kept in
    /// memory only, so a failed write degrades to a later miss, never
    /// an error.
    pub fn insert_page(&mut self, url: String, image: image::DynamicImage) -> (plan: WritePlan)
        requires
            old(self).wf(),
        ensures
            final(self).wf(),
            final(self).mem() == insert_lru(
                old(self).mem(),
                url@,
                image,
                MAX_MEMORY_PAGES as nat,
            ),
            lookup(final(self).mem(), url@) == Some(image),
            final(self).chapters() == old(self).chapters(),
            str_views(plan.deletions@) == old(self).disk().take(
                spec_cleanup_count(old(self).disk(), MAX_DISK_CACHE_BYTES as int) as int,
            ).map_values(|e: (Seq<char>, u64)| e.0),
            match plan.write {
                Some(w) => w.0@ == spec_url_to_filename(url@) && final(self).disk() == upsert(
                    spec_cleanup(old(self).disk(), MAX_DISK_CACHE_BYTES as int),
                    w.0@,
                    w.1@.len() as u64,
                ),
                None => final(self).disk() == spec_cleanup(
                    old(self).disk(),
                    MAX_DISK_CACHE_BYTES as int,
                ),
            },
    {
        let deletions = self.cleanup_old_cache();
        let write = match crate::imgio::encode_jpeg(&image) {
            Some(bytes) => {
                let name = url_to_filename(url.as_str());
                let size = if bytes.len() as u128 <= u64::MAX as u128 {
                    bytes.len() as u64
                } else {
                    u64::MAX
                };
                proof {
                    assert(bytes@.len() as u64 == size);
                }
                self.disk_put(name.clone(), size);
                Some((name, bytes))
            },
            None => None,
        };
        self.insert_memory(url, image);
        WritePlan { deletions, write }
    }

    /// Replaces the disk index with what a scan of the cache directory
    /// found, oldest file first. Filenames must be distinct, as files
    /// of one directory are.
    pub fn load_disk_index(&mut self, entries: Vec<(String, u64)>)
        requires
            old(self).wf(),
            distinct_keys(entries@.map_values(|e: (String, u64)| (e.0@, e.1))),
        ensures
            final(self).wf(),
            final(self).mem() == old(self).mem(),
            final(self).chapters() == old(self).chapters(),
            final(self).disk() == entries@.map_values(|e: (String, u64)| (e.0@, e.1)),
    {
        let ghost target = entries@.map_values(|e: (String, u64)| (e.0@, e.1));
        let mut fresh: Vec<DiskRecord> = Vec::new();
        let mut j: usize = 0;
        while j < entries.len()
            invariant
                j <= entries.len(),
                fresh@.map_values(|e: DiskRecord| (e.name@, e.size)) =~= target.take(j as int),
                target == entries@.map_values(|e: (String, u64)| (e.0@, e.1)),
            decreases entries.len() - j,
        {
            let name = entries[j].0.clone();
            let size = entries[j].1;
            proof {
                lemma_map_values_push(
                    fresh@,
                    |e: DiskRecord| (e.name@, e.size),
                    DiskRecord { name: name, size: size },
                );
            }
            fresh.push(DiskRecord { name, size });
            proof {
                assert(fresh@.map_values(|e: DiskRecord| (e.name@, e.size)) =~= target.take(
                    j as int + 1,
                ));
            }
            j = j + 1;
        }
        proof {
            assert(target.take(entries@.len() as int) =~= target);
        }
        self.disk = fresh;
    }

    fn find_chapter(&self, key: &String) -> (r: Option<usize>)
        ensures
            match r {
                Some(i) => i < self.chapters().len() && self.chapters()[i as int].0 == key@
                    && has_key(self.chapters(), key@),
                None => !has_key(self.chapters(), key@),
            },
    {
        let mut j: usize = 0;
        while j < self.chapter_urls.len()
            invariant
                j <= self.chapter_urls.len(),
                forall|t: int| 0 <= t < j ==> self.chapters()[t].0 != key@,
            decreases self.chapter_urls.len() - j,
        {
            if self.chapter_urls[j].chapter_id == *key {
                proof {
                    assert(self.chapters()[j as int].0 == key@);
                }
                return Some(j);
            }
            j = j + 1;
        }
        None
    }

    /// The page-URL list resolved for a chapter, if one was stored.
    pub fn get_chapter_urls(&self, chapter_id: &str) -> (r: Option<Vec<String>>)
        requires
            self.wf(),
        ensures
            match r {
                Some(urls) => has_key(self.chapters(), chapter_id@) && Some(str_views(urls@))
                    == lookup(self.chapters(), chapter_id@),
                None => !has_key(self.chapters(), chapter_id@),
            },
    {
        let key = String::from_str(chapter_id);
        match self.find_chapter(&key) {
            Some(i) => {
                proof {
                    lemma_index_of_key_unique(self.chapters(), chapter_id@, i as int);
                }
                let urls = self.chapter_urls[i].urls.clone();
                proof {
                    assert(str_views(urls@) =~= str_views(self.chapter_urls@[i as int].urls@));
                }
                Some(urls)
            },
            None => None,
        }
    }

    /// Stores (or replaces) the page-URL list resolved for a chapter.
    pub fn insert_chapter_urls(&mut self, chapter_id: String, urls: Vec<String>)
        requires
            old(self).wf(),
        ensures
            final(self).wf(),
            final(self).mem() == old(self).mem(),
            final(self).disk() == old(self).disk(),
            final(self).chapters() == upsert(
                old(self).chapters(),
                chapter_id@,
                str_views(urls@),
            ),
            lookup(final(self).chapters(), chapter_id@) == Some(str_views(urls@)),
    {
        proof {
            lemma_upsert_distinct(old(self).chapters(), chapter_id@, str_views(urls@));
        }
        match self.find_chapter(&chapter_id) {
            Some(i) => {
                proof {
                    lemma_index_of_key_unique(self.chapters(), chapter_id@, i as int);
                    lemma_map_values_remove(
                        self.chapter_urls@,
                        |e: ChapterRecord| (e.chapter_id@, str_views(e.urls@)),
                        i as int,
                    );
                }
                let _ = self.chapter_urls.remove(i);
            },
            None => {},
        }
        let ghost cid = chapter_id@;
        let ghost uv = str_views(urls@);
        proof {
            lemma_map_values_push(
                self.chapter_urls@,
                |e: ChapterRecord| (e.chapter_id@, str_views(e.urls@)),
                ChapterRecord { chapter_id: chapter_id, urls: urls },
            );
        }
        self.chapter_urls.push(ChapterRecord { chapter_id, urls });
        proof {
            let out = upsert(old(self).chapters(), cid, uv);
            assert(self.chapters() =~~= out);
            assert(out[out.len() - 1].0 == cid);
            assert(has_key(out, cid));
            lemma_index_of_key_unique(out, cid, out.len() - 1);
            assert(lookup(out, cid) == Some(uv));
        }
    }
}

} // verus!
