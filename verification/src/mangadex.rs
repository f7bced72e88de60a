//! Catalog data model and the pure half of the remote-catalog client:
//! turning API response records into the `Manga` and `Chapter` values the
//! rest of the program works with, and deriving the URLs that page and
//! cover fetches use. The network calls themselves live outside the
//! library and hand their decoded responses in as plain records.

use vstd::prelude::*;
use vstd::string::*;

verus! {

/// One manga title as the catalog presents it.
#[derive(Clone, Debug)]
pub struct Manga {
    pub id: String,
    pub title: String,
    pub author: String,
    pub artist: String,
    pub status: String,
    pub description: String,
    pub cover_url: String,
}

/// Mathematical view of a `Manga`: every field as a character sequence.
pub struct MangaView {
    pub id: Seq<char>,
    pub title: Seq<char>,
    pub author: Seq<char>,
    pub artist: Seq<char>,
    pub status: Seq<char>,
    pub description: Seq<char>,
    pub cover_url: Seq<char>,
}

impl View for Manga {
    type V = MangaView;

    open spec fn view(&self) -> MangaView {
        MangaView {
            id: self.id@,
            title: self.title@,
            author: self.author@,
            artist: self.artist@,
            status: self.status@,
            description: self.description@,
            cover_url: self.cover_url@,
        }
    }
}

/// One chapter of a manga. A chapter carrying an external URL is hosted
/// elsewhere and cannot be read in the built-in reader.
#[derive(Clone, Debug)]
pub struct Chapter {
    pub id: String,
    pub chapter: String,
    pub title: String,
    pub volume: Option<String>,
    pub pages: usize,
    pub external_url: Option<String>,
}

/// Mathematical view of a `Chapter`.
pub struct ChapterView {
    pub id: Seq<char>,
    pub chapter: Seq<char>,
    pub title: Seq<char>,
    pub volume: Option<Seq<char>>,
    pub pages: nat,
    pub external_url: Option<Seq<char>>,
}

/// View of an optional string.
pub open spec fn opt_view(o: Option<String>) -> Option<Seq<char>> {
    match o {
        Some(s) => Some(s@),
        None => None,
    }
}

impl View for Chapter {
    type V = ChapterView;

    open spec fn view(&self) -> ChapterView {
        ChapterView {
            id: self.id@,
            chapter: self.chapter@,
            title: self.title@,
            volume: opt_view(self.volume),
            pages: self.pages as nat,
            external_url: opt_view(self.external_url),
        }
    }
}

// The wire-shaped records a catalog response decodes into. The binary
// deserializes the HTTP body into its own copies of these and converts.

/// A list-of-manga response.
pub struct MangaResponse {
    pub data: Vec<MangaData>,
}

/// One manga record of a response.
pub struct MangaData {
    pub id: String,
    pub attributes: MangaAttributes,
    pub relationships: Vec<Relationship>,
}

/// Attributes of a manga record; localized texts are key/value rows.
pub struct MangaAttributes {
    pub title: Vec<(String, String)>,
    pub status: Option<String>,
    pub description: Option<Vec<(String, String)>>,
}

/// One relationship row of a manga record.
pub struct Relationship {
    pub rel_type: String,
    pub attributes: Option<RelationshipAttributes>,
}

/// Attributes of a relationship row.
pub struct RelationshipAttributes {
    pub name: Option<String>,
    pub file_name: Option<String>,
}

/// A chapter-feed response.
pub struct ChapterResponse {
    pub data: Vec<ChapterData>,
}

/// One chapter record of a feed response.
pub struct ChapterData {
    pub id: String,
    pub attributes: ChapterAttributes,
}

/// Attributes of a chapter record.
pub struct ChapterAttributes {
    pub chapter: Option<String>,
    pub title: Option<String>,
    pub volume: Option<String>,
    pub pages: usize,
    pub translated_language: String,
    pub external_url: Option<String>,
}

/// First value stored under `k`, scanning rows in order.
pub open spec fn assoc_first(m: Seq<(String, String)>, k: Seq<char>) -> Option<Seq<char>>
    decreases m.len(),
{
    if m.len() == 0 {
        None
    } else if m.first().0@ == k {
        Some(m.first().1@)
    } else {
        assoc_first(m.drop_first(), k)
    }
}

/// Scan of the relationship rows for the `name` of the last row of type
/// `ty` that carries attributes; a missing name reads as empty. Rows of
/// type `ty` without attributes leave the value found so far.
pub open spec fn spec_rel_name_from(rels: Seq<Relationship>, ty: Seq<char>, acc: Seq<char>) -> Seq<
    char,
>
    decreases rels.len(),
{
    if rels.len() == 0 {
        acc
    } else {
        let acc2 = if rels.first().rel_type@ == ty {
            match rels.first().attributes {
                Some(a) => match a.name {
                    Some(n) => n@,
                    None => Seq::<char>::empty(),
                },
                None => acc,
            }
        } else {
            acc
        };
        spec_rel_name_from(rels.drop_first(), ty, acc2)
    }
}

/// The author or artist name drawn from the relationship rows.
pub open spec fn spec_rel_name(rels: Seq<Relationship>, ty: Seq<char>) -> Seq<char> {
    spec_rel_name_from(rels, ty, Seq::<char>::empty())
}

/// Same scan over the `file_name` field (cover art).
pub open spec fn spec_rel_file_from(rels: Seq<Relationship>, ty: Seq<char>, acc: Seq<char>) -> Seq<
    char,
>
    decreases rels.len(),
{
    if rels.len() == 0 {
        acc
    } else {
        let acc2 = if rels.first().rel_type@ == ty {
            match rels.first().attributes {
                Some(a) => match a.file_name {
                    Some(n) => n@,
                    None => Seq::<char>::empty(),
                },
                None => acc,
            }
        } else {
            acc
        };
        spec_rel_file_from(rels.drop_first(), ty, acc2)
    }
}

/// The cover filename drawn from the relationship rows.
pub open spec fn spec_rel_file(rels: Seq<Relationship>, ty: Seq<char>) -> Seq<char> {
    spec_rel_file_from(rels, ty, Seq::<char>::empty())
}

/// Display title: the English entry, else the first entry, else "Unknown".
pub open spec fn spec_manga_title(a: MangaAttributes) -> Seq<char> {
    match assoc_first(a.title@, "en"@) {
        Some(t) => t,
        None => if a.title@.len() > 0 {
            a.title@.first().1@
        } else {
            "Unknown"@
        },
    }
}

/// Description: the English entry, else the first entry, else empty.
pub open spec fn spec_manga_description(a: MangaAttributes) -> Seq<char> {
    match a.description {
        Some(d) => match assoc_first(d@, "en"@) {
            Some(t) => t,
            None => if d@.len() > 0 {
                d@.first().1@
            } else {
                Seq::<char>::empty()
            },
        },
        None => Seq::<char>::empty(),
    }
}

/// Cover image URL derived from the manga id and cover filename; empty
/// when no cover art was listed.
pub open spec fn spec_cover_url(id: Seq<char>, file: Seq<char>) -> Seq<char> {
    if file.len() == 0 {
        Seq::<char>::empty()
    } else {
        "https://uploads.mangadex.org/covers/"@ + id + "/"@ + file
    }
}

/// How one response record parses into a `Manga`.
pub open spec fn spec_parse_manga(m: MangaData) -> MangaView {
    MangaView {
        id: m.id@,
        title: spec_manga_title(m.attributes),
        author: spec_rel_name(m.relationships@, "author"@),
        artist: spec_rel_name(m.relationships@, "artist"@),
        status: match m.attributes.status {
            Some(s) => s@,
            None => "Unknown"@,
        },
        description: spec_manga_description(m.attributes),
        cover_url: spec_cover_url(m.id@, spec_rel_file(m.relationships@, "cover_art"@)),
    }
}

/// How a whole response parses.
pub open spec fn spec_parse_manga_list(d: Seq<MangaData>) -> Seq<MangaView> {
    d.map_values(|m: MangaData| spec_parse_manga(m))
}

/// The views of a sequence of parsed manga.
pub open spec fn manga_views(v: Seq<Manga>) -> Seq<MangaView> {
    v.map_values(|m: Manga| m@)
}

/// The views of a sequence of chapters.
pub open spec fn chapter_views(v: Seq<Chapter>) -> Seq<ChapterView> {
    v.map_values(|c: Chapter| c@)
}

fn assoc_get(m: &Vec<(String, String)>, key: &String) -> (r: Option<String>)
    ensures
        match r {
            Some(s) => assoc_first(m@, key@) == Some(s@),
            None => assoc_first(m@, key@) is None,
        },
{
    let mut j: usize = 0;
    proof {
        assert(m@.skip(0) =~= m@);
    }
    while j < m.len()
        invariant
            j <= m.len(),
            assoc_first(m@, key@) == assoc_first(m@.skip(j as int), key@),
        decreases m.len() - j,
    {
        proof {
            assert(m@.skip(j as int).drop_first() =~= m@.skip(j as int + 1));
            assert(m@.skip(j as int).first() == m@[j as int]);
        }
        if m[j].0 == *key {
            return Some(m[j].1.clone());
        }
        j = j + 1;
    }
    proof {
        assert(m@.skip(m@.len() as int) =~= Seq::<(String, String)>::empty());
    }
    None
}

fn rel_name(rels: &Vec<Relationship>, ty: &String) -> (s: String)
    ensures
        s@ == spec_rel_name(rels@, ty@),
{
    let mut acc = String::new();
    let mut j: usize = 0;
    proof {
        assert(rels@.skip(0) =~= rels@);
    }
    while j < rels.len()
        invariant
            j <= rels.len(),
            spec_rel_name_from(rels@.skip(j as int), ty@, acc@) == spec_rel_name(rels@, ty@),
        decreases rels.len() - j,
    {
        proof {
            assert(rels@.skip(j as int).drop_first() =~= rels@.skip(j as int + 1));
            assert(rels@.skip(j as int).first() == rels@[j as int]);
        }
        if rels[j].rel_type == *ty {
            match &rels[j].attributes {
                Some(a) => {
                    match &a.name {
                        Some(n) => {
                            acc = n.clone();
                        },
                        None => {
                            acc = String::new();
                        },
                    }
                },
                None => {},
            }
        }
        j = j + 1;
    }
    proof {
        assert(rels@.skip(rels@.len() as int) =~= Seq::<Relationship>::empty());
    }
    acc
}

fn rel_file(rels: &Vec<Relationship>, ty: &String) -> (s: String)
    ensures
        s@ == spec_rel_file(rels@, ty@),
{
    let mut acc = String::new();
    let mut j: usize = 0;
    proof {
        assert(rels@.skip(0) =~= rels@);
    }
    while j < rels.len()
        invariant
            j <= rels.len(),
            spec_rel_file_from(rels@.skip(j as int), ty@, acc@) == spec_rel_file(rels@, ty@),
        decreases rels.len() - j,
    {
        proof {
            assert(rels@.skip(j as int).drop_first() =~= rels@.skip(j as int + 1));
            assert(rels@.skip(j as int).first() == rels@[j as int]);
        }
        if rels[j].rel_type == *ty {
            match &rels[j].attributes {
                Some(a) => {
                    match &a.file_name {
                        Some(n) => {
                            acc = n.clone();
                        },
                        None => {
                            acc = String::new();
                        },
                    }
                },
                None => {},
            }
        }
        j = j + 1;
    }
    proof {
        assert(rels@.skip(rels@.len() as int) =~= Seq::<Relationship>::empty());
    }
    acc
}

fn manga_title(a: &MangaAttributes) -> (s: String)
    ensures
        s@ == spec_manga_title(*a),
{
    let en = String::from_str("en");
    match assoc_get(&a.title, &en) {
        Some(t) => t,
        None => {
            if a.title.len() > 0 {
                a.title[0].1.clone()
            } else {
                String::from_str("Unknown")
            }
        },
    }
}

fn manga_description(a: &MangaAttributes) -> (s: String)
    ensures
        s@ == spec_manga_description(*a),
{
    match &a.description {
        Some(d) => {
            let en = String::from_str("en");
            match assoc_get(d, &en) {
                Some(t) => t,
                None => {
                    if d.len() > 0 {
                        d[0].1.clone()
                    } else {
                        String::new()
                    }
                },
            }
        },
        None => String::new(),
    }
}

fn cover_url_of(id: &String, file: &String) -> (s: String)
    ensures
        s@ == spec_cover_url(id@, file@),
{
    if file.unicode_len() == 0 {
        proof {
            assert(file@ =~= Seq::<char>::empty());
        }
        String::new()
    } else {
        let mut s = String::from_str("https://uploads.mangadex.org/covers/");
        s.append(id.as_str());
        s.append("/");
        s.append(file.as_str());
        s
    }
}

/// Parses a list-of-manga response into display records, in response
/// order, one for each record of the response.
pub fn parse_manga_list(response: MangaResponse) -> (r: Vec<Manga>)
    ensures
        manga_views(r@) == spec_parse_manga_list(response.data@),
{
    let author_ty = String::from_str("author");
    let artist_ty = String::from_str("artist");
    let cover_ty = String::from_str("cover_art");
    let mut r: Vec<Manga> = Vec::new();
    let mut j: usize = 0;
    while j < response.data.len()
        invariant
            j <= response.data.len(),
            author_ty@ == "author"@,
            artist_ty@ == "artist"@,
            cover_ty@ == "cover_art"@,
            manga_views(r@) =~= spec_parse_manga_list(response.data@.take(j as int)),
        decreases response.data.len() - j,
    {
        let m = &response.data[j];
        let file = rel_file(&m.relationships, &cover_ty);
        let status = match &m.attributes.status {
            Some(s) => s.clone(),
            None => String::from_str("Unknown"),
        };
        let manga = Manga {
            id: m.id.clone(),
            title: manga_title(&m.attributes),
            author: rel_name(&m.relationships, &author_ty),
            artist: rel_name(&m.relationships, &artist_ty),
            status,
            description: manga_description(&m.attributes),
            cover_url: cover_url_of(&m.id, &file),
        };
        let ghost mv = manga@;
        let ghost r_prev = r@;
        r.push(manga);
        proof {
            crate::cache::lemma_map_values_push(r_prev, |m: Manga| m@, manga);
            assert(manga_views(r@) =~= spec_parse_manga_list(response.data@.take(j as int + 1)));
        }
        j = j + 1;
    }
    proof {
        assert(response.data@.take(response.data@.len() as int) =~= response.data@);
    }
    r
}

/// How one feed record parses into a `Chapter`: missing texts fall back
/// to "0" and "No Title".
pub open spec fn spec_parse_chapter(c: ChapterData) -> ChapterView {
    ChapterView {
        id: c.id@,
        chapter: match c.attributes.chapter {
            Some(s) => s@,
            None => "0"@,
        },
        title: match c.attributes.title {
            Some(s) => s@,
            None => "No Title"@,
        },
        volume: opt_view(c.attributes.volume),
        pages: c.attributes.pages as nat,
        external_url: opt_view(c.attributes.external_url),
    }
}

/// How a feed parses: records without pages are dropped, the rest map
/// in order.
pub open spec fn spec_parse_chapters(d: Seq<ChapterData>) -> Seq<ChapterView>
    decreases d.len(),
{
    if d.len() == 0 {
        Seq::<ChapterView>::empty()
    } else {
        let rest = spec_parse_chapters(d.drop_first());
        if d.first().attributes.pages > 0 {
            seq![spec_parse_chapter(d.first())] + rest
        } else {
            rest
        }
    }
}

fn clone_opt_string(o: &Option<String>) -> (r: Option<String>)
    ensures
        opt_view(r) == opt_view(*o),
{
    match o {
        Some(s) => Some(s.clone()),
        None => None,
    }
}

/// Parses a chapter-feed response: chapters with no pages are dropped,
/// the rest keep feed order with their texts defaulted.
pub fn parse_chapters(response: ChapterResponse) -> (r: Vec<Chapter>)
    ensures
        chapter_views(r@) == spec_parse_chapters(response.data@),
{
    let mut r: Vec<Chapter> = Vec::new();
    let mut j: usize = 0;
    proof {
        assert(response.data@.skip(0) =~= response.data@);
    }
    while j < response.data.len()
        invariant
            j <= response.data.len(),
            chapter_views(r@) + spec_parse_chapters(response.data@.skip(j as int))
                =~= spec_parse_chapters(response.data@),
        decreases response.data.len() - j,
    {
        proof {
            assert(response.data@.skip(j as int).drop_first() =~= response.data@.skip(
                j as int + 1,
            ));
            assert(response.data@.skip(j as int).first() == response.data@[j as int]);
        }
        let c = &response.data[j];
        if c.attributes.pages > 0 {
            let chapter = Chapter {
                id: c.id.clone(),
                chapter: match &c.attributes.chapter {
                    Some(s) => s.clone(),
                    None => String::from_str("0"),
                },
                title: match &c.attributes.title {
                    Some(s) => s.clone(),
                    None => String::from_str("No Title"),
                },
                volume: clone_opt_string(&c.attributes.volume),
                pages: c.attributes.pages,
                external_url: clone_opt_string(&c.attributes.external_url),
            };
            let ghost r_prev = r@;
            r.push(chapter);
            proof {
                crate::cache::lemma_map_values_push(r_prev, |c: Chapter| c@, chapter);
                assert(chapter_views(r@) =~= chapter_views(r_prev).push(chapter@));
            }
        }
        j = j + 1;
    }
    proof {
        assert(response.data@.skip(response.data@.len() as int) =~= Seq::<ChapterData>::empty());
    }
    r
}

/// The URL a page image is fetched from, in data-saver quality.
pub open spec fn spec_page_url(base: Seq<char>, hash: Seq<char>, file: Seq<char>) -> Seq<char> {
    base + "/data-saver/"@ + hash + "/"@ + file
}

/// Builds the fetch URL of every page of a chapter, in page order, from
/// the server base URL, the chapter hash and the page filenames.
pub fn build_page_urls(base_url: &str, hash: &str, files: &Vec<String>) -> (r: Vec<String>)
    ensures
        r@.len() == files@.len(),
        forall|i: int|
            0 <= i < r@.len() ==> r@[i]@ == spec_page_url(base_url@, hash@, files@[i]@),
{
    let mut r: Vec<String> = Vec::new();
    let mut j: usize = 0;
    while j < files.len()
        invariant
            j <= files.len(),
            r@.len() == j,
            forall|i: int|
                0 <= i < j ==> r@[i]@ == spec_page_url(base_url@, hash@, files@[i]@),
        decreases files.len() - j,
    {
        let mut s = String::from_str(base_url);
        s.append("/data-saver/");
        s.append(hash);
        s.append("/");
        s.append(files[j].as_str());
        r.push(s);
        j = j + 1;
    }
    r
}

/// A field-by-field copy of a manga.
pub fn clone_manga(m: &Manga) -> (r: Manga)
    ensures
        r@ == m@,
{
    Manga {
        id: m.id.clone(),
        title: m.title.clone(),
        author: m.author.clone(),
        artist: m.artist.clone(),
        status: m.status.clone(),
        description: m.description.clone(),
        cover_url: m.cover_url.clone(),
    }
}

/// A field-by-field copy of a chapter.
pub fn clone_chapter(c: &Chapter) -> (r: Chapter)
    ensures
        r@ == c@,
{
    Chapter {
        id: c.id.clone(),
        chapter: c.chapter.clone(),
        title: c.title.clone(),
        volume: clone_opt_string(&c.volume),
        pages: c.pages,
        external_url: clone_opt_string(&c.external_url),
    }
}

/// An element-by-element copy of a chapter list.
pub fn clone_chapters(v: &Vec<Chapter>) -> (r: Vec<Chapter>)
    ensures
        chapter_views(r@) == chapter_views(v@),
        r@.len() == v@.len(),
{
    let mut r: Vec<Chapter> = Vec::new();
    let mut j: usize = 0;
    while j < v.len()
        invariant
            j <= v.len(),
            r@.len() == j,
            chapter_views(r@) =~= chapter_views(v@).take(j as int),
        decreases v.len() - j,
    {
        let c = clone_chapter(&v[j]);
        let ghost prev = r@;
        let ghost cg = c;
        r.push(c);
        proof {
            crate::cache::lemma_map_values_push(prev, |c: Chapter| c@, cg);
            assert(chapter_views(r@) =~= chapter_views(v@).take(j as int + 1));
        }
        j = j + 1;
    }
    proof {
        assert(chapter_views(v@).take(v@.len() as int) =~= chapter_views(v@));
    }
    r
}

/// An element-by-element copy of a manga list.
pub fn clone_mangas(v: &Vec<Manga>) -> (r: Vec<Manga>)
    ensures
        manga_views(r@) == manga_views(v@),
        r@.len() == v@.len(),
{
    let mut r: Vec<Manga> = Vec::new();
    let mut j: usize = 0;
    while j < v.len()
        invariant
            j <= v.len(),
            r@.len() == j,
            manga_views(r@) =~= manga_views(v@).take(j as int),
        decreases v.len() - j,
    {
        let m = clone_manga(&v[j]);
        let ghost prev = r@;
        let ghost mg = m;
        r.push(m);
        proof {
            crate::cache::lemma_map_values_push(prev, |m: Manga| m@, mg);
            assert(manga_views(r@) =~= manga_views(v@).take(j as int + 1));
        }
        j = j + 1;
    }
    proof {
        assert(manga_views(v@).take(v@.len() as int) =~= manga_views(v@));
    }
    r
}

/// The decoding half of a page or cover fetch: the bytes of the HTTP
/// body become a decoded image, or nothing when they are not a readable
/// image. A fetch that cannot be decoded counts as a failed fetch.
pub fn decode_fetched_image(bytes: &[u8]) -> Option<image::DynamicImage> {
    crate::imgio::decode_image(bytes)
}

/// The thumbnail-sized variant of a cover URL.
pub fn thumbnail_url(cover_url: &str) -> (r: String)
    ensures
        r@ == cover_url@ + ".256.jpg"@,
{
    let mut s = String::from_str(cover_url);
    s.append(".256.jpg");
    s
}

} // verus!
