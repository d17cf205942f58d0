//! Comick (comick.io): a catalogue read through its public JSON API.  The API,
//! the website and the image CDN live on separate hosts.

pub mod models;

use vstd::prelude::*;
use crate::common::{non_empty, or_else_keep};
use crate::comick::models::{
    ChapterDetailResponse, ChapterItem, ChaptersResponse, ComicDetailResponse, GenreWrap,
    MdCover, MdImage, NameItem, SearchComic,
};
use crate::date::{parse_rfc3339, rfc3339_instant};
use crate::model::{
    link_view, listing_defaults, new_chapter, new_manga, strategy_for, update_strategy_for, Chapter,
    ChapterNumber, ContentRating, DeepLinkResult, LinkTarget, Manga, MangaPageResult,
    MangaStatus, Viewer,
};
use crate::text::{
    after_first, find, lemma_find_absent_first, lemma_find_char, lemma_find_from_is,
    lemma_not_occurs, occurs_at,
    decimal, decimal_string, head, head_str, replace_char, replace_char_str, second_piece,
    second_piece_str, str_equals,
};

verus! {

/// The API's address.
pub const API_URL: &'static str = "https://api.comick.dev";

/// The website's address.
pub const WEB_URL: &'static str = "https://comick.io";

/// The image CDN's address.
pub const IMAGE_URL: &'static str = "https://meo.comick.pictures";

/// The language whose chapters are listed.
pub const LANGUAGE: &'static str = "en";

/// The number of entries asked for per search page.
pub const SEARCH_LIMIT: i32 = 30;

/// The number of chapters asked for per chapter list page.
pub const CHAPTER_LIMIT: i32 = 100;

// ---------------------------------------------------------------------------
// Images
// ---------------------------------------------------------------------------

/// The key of the first cover that has one.
pub open spec fn first_cover_key(covers: Seq<MdCover>) -> Option<Seq<char>>
    decreases covers.len(),
{
    if covers.len() == 0 {
        None
    } else {
        match covers[0].b2key {
            Some(k) => Some(k@),
            None => first_cover_key(covers.drop_first()),
        }
    }
}

/// The address of an image on the CDN.
pub open spec fn image_address(key: Seq<char>) -> Seq<char> {
    IMAGE_URL@ + "/"@ + key
}

/// The address of an image on the CDN.
pub fn image_url(key: &str) -> (r: String)
    ensures
        r@ == image_address(key@),
{
    let mut url = String::from_str(IMAGE_URL);
    url.append("/");
    url.append(key);
    url
}

/// The address of a series' cover: the first cover that has a key.
pub fn cover_url(covers: &Vec<MdCover>) -> (r: Option<String>)
    ensures
        r.deep_view() == (match first_cover_key(covers@) {
            Some(k) => Some(image_address(k)),
            None => None,
        }),
{
    let mut i: usize = 0;
    assert(covers@.skip(0) =~= covers@);
    while i < covers.len()
        invariant
            i <= covers@.len(),
            first_cover_key(covers@) == first_cover_key(covers@.skip(i as int)),
        decreases covers.len() - i,
    {
        assert(covers@.skip(i as int).drop_first() =~= covers@.skip(i + 1));
        assert(covers@.skip(i as int)[0] == covers@[i as int]);
        match &covers[i].b2key {
            Some(k) => {
                return Some(image_url(k.as_str()));
            },
            None => {},
        }
        i = i + 1;
    }
    None
}

/// What a page image becomes: its address, when it has a key.
pub open spec fn page_address() -> spec_fn(MdImage) -> Option<Seq<char>> {
    |img: MdImage|
        match img.b2key {
            Some(k) => Some(image_address(k@)),
            None => None,
        }
}

/// The address of a chapter's reply.
pub fn chapter_detail_url(key: &str) -> (r: String)
    ensures
        r@ == API_URL@ + "/chapter/"@ + key@ + "?tachiyomi=true"@,
{
    let mut url = String::from_str(API_URL);
    url.append("/chapter/");
    url.append(key);
    url.append("?tachiyomi=true");
    url
}

/// The page image addresses of a chapter, in order, skipping images without a key.
pub fn page_urls(detail: &ChapterDetailResponse) -> (r: Vec<String>)
    ensures
        r.deep_view() == detail.chapter.md_images@.filter_map(page_address()),
{
    let images = &detail.chapter.md_images;
    let mut r: Vec<String> = Vec::new();
    let mut i: usize = 0;
    assert(images@.take(0) =~= Seq::<MdImage>::empty());
    while i < images.len()
        invariant
            images@ == detail.chapter.md_images@,
            i <= images@.len(),
            r.deep_view() == images@.take(i as int).filter_map(page_address()),
        decreases images.len() - i,
    {
        assert(images@.take(i + 1).drop_last() =~= images@.take(i as int));
        assert(images@.take(i + 1).last() == images@[i as int]);
        let ghost before = r.deep_view();
        match &images[i].b2key {
            Some(k) => {
                r.push(image_url(k.as_str()));
                assert(r.deep_view() =~= before + seq![image_address(k@)]);
            },
            None => {},
        }
        i = i + 1;
    }
    assert(images@.take(images@.len() as int) =~= images@);
    r
}

// ---------------------------------------------------------------------------
// Searching
// ---------------------------------------------------------------------------

/// The address of a page of the most followed series (no query) or of a search.
pub open spec fn search_url_spec(query: Seq<char>, page: int) -> Seq<char> {
    if query.len() == 0 {
        API_URL@ + "/v1.0/search?sort=follow&page="@ + decimal(page) + "&limit=30&tachiyomi=true"@
    } else {
        API_URL@ + "/v1.0/search?q="@ + replace_char(query, ' ', "%20"@) + "&page="@ + decimal(
            page,
        ) + "&limit=30&tachiyomi=true"@
    }
}

/// The address of a page of the most followed series (no query) or of a search.
pub fn search_url(query: Option<String>, page: i32) -> (r: String)
    ensures
        r@ == search_url_spec(
            match query {
                Some(q) => q@,
                None => Seq::empty(),
            },
            page as int,
        ),
{
    let query = match query {
        Some(q) => q,
        None => String::new(),
    };
    let mut url = String::from_str(API_URL);
    if query.as_str().is_empty() {
        url.append("/v1.0/search?sort=follow&page=");
        url.append(decimal_string(page as i64).as_str());
    } else {
        url.append("/v1.0/search?q=");
        url.append(replace_char_str(query.as_str(), ' ', "%20").as_str());
        url.append("&page=");
        url.append(decimal_string(page as i64).as_str());
    }
    url.append("&limit=30&tachiyomi=true");
    url
}

/// A page of search results from a search reply: one entry per series, in order,
/// and a next page exactly when the page is full.
pub fn search_results(comics: &Vec<SearchComic>) -> (r: MangaPageResult)
    ensures
        r.has_next_page == (comics@.len() as i32 == SEARCH_LIMIT),
        r.entries@.len() == comics@.len(),
        forall|i: int|
            0 <= i < comics@.len() ==> {
                let c = #[trigger] comics@[i];
                let m = r.entries@[i];
                &&& m.key == c.slug
                &&& m.title == c.title
                &&& m.cover.deep_view() == (match first_cover_key(c.md_covers@) {
                    Some(k) => Some(image_address(k)),
                    None => None,
                })
                &&& m.description is None
                &&& listing_defaults(m)
            },
{
    let mut entries: Vec<Manga> = Vec::new();
    let mut i: usize = 0;
    while i < comics.len()
        invariant
            i <= comics@.len(),
            entries@.len() == i,
            forall|j: int|
                0 <= j < i ==> {
                    let c = #[trigger] comics@[j];
                    let m = entries@[j];
                    &&& m.key == c.slug
                    &&& m.title == c.title
                    &&& m.cover.deep_view() == (match first_cover_key(c.md_covers@) {
                        Some(k) => Some(image_address(k)),
                        None => None,
                    })
                    &&& m.description is None
                    &&& listing_defaults(m)
                },
        decreases comics.len() - i,
    {
        let c = &comics[i];
        let mut m = new_manga(c.slug.clone(), c.title.clone());
        m.cover = cover_url(&c.md_covers);
        entries.push(m);
        i = i + 1;
    }
    let has_next_page = comics.len() as i32 == SEARCH_LIMIT;
    MangaPageResult { entries, has_next_page }
}

// ---------------------------------------------------------------------------
// Series details
// ---------------------------------------------------------------------------

/// The address of a series' reply.
pub fn comic_url(key: &str) -> (r: String)
    ensures
        r@ == API_URL@ + "/comic/"@ + key@ + "?tachiyomi=true"@,
{
    let mut url = String::from_str(API_URL);
    url.append("/comic/");
    url.append(key);
    url.append("?tachiyomi=true");
    url
}

/// The slug a series is known by on the website: its own, else the series key.
pub fn comic_slug(detail: &ComicDetailResponse, key: &str) -> (r: String)
    ensures
        r@ == (match detail.comic.slug {
            Some(s) => s@,
            None => key@,
        }),
{
    match &detail.comic.slug {
        Some(s) => s.clone(),
        None => String::from_str(key),
    }
}

/// The status a series' status code names.
pub open spec fn status_of_code(code: Option<i32>) -> MangaStatus {
    match code {
        Some(1) => MangaStatus::Ongoing,
        Some(2) => MangaStatus::Completed,
        Some(3) => MangaStatus::Cancelled,
        Some(4) => MangaStatus::Hiatus,
        _ => MangaStatus::Unknown,
    }
}

/// The status a series' status code names.
pub fn status_from_code(code: Option<i32>) -> (r: MangaStatus)
    ensures
        r == status_of_code(code),
{
    match code {
        Some(1) => MangaStatus::Ongoing,
        Some(2) => MangaStatus::Completed,
        Some(3) => MangaStatus::Cancelled,
        Some(4) => MangaStatus::Hiatus,
        _ => MangaStatus::Unknown,
    }
}

/// The content rating a series' rating text names.
pub open spec fn rating_of(rating: Option<Seq<char>>) -> ContentRating {
    match rating {
        Some(r) => if r == "suggestive"@ {
            ContentRating::Suggestive
        } else if r == "erotica"@ {
            ContentRating::NSFW
        } else {
            ContentRating::Safe
        },
        None => ContentRating::Safe,
    }
}

/// The content rating a series' rating text names.
pub fn rating_from(rating: &Option<String>) -> (r: ContentRating)
    ensures
        r == rating_of(rating.deep_view()),
{
    match rating {
        Some(t) => if str_equals(t.as_str(), "suggestive") {
            ContentRating::Suggestive
        } else if str_equals(t.as_str(), "erotica") {
            ContentRating::NSFW
        } else {
            ContentRating::Safe
        },
        None => ContentRating::Safe,
    }
}

/// The reading direction for a series from its country: right to left for
/// Japanese series, vertical strips for Korean and Chinese ones.
pub open spec fn viewer_of(country: Option<Seq<char>>) -> Viewer {
    match country {
        Some(c) => if c == "jp"@ {
            Viewer::RightToLeft
        } else if c == "kr"@ || c == "cn"@ {
            Viewer::Webtoon
        } else {
            Viewer::Unknown
        },
        None => Viewer::Unknown,
    }
}

/// The reading direction for a series from its country.
pub fn viewer_from(country: &Option<String>) -> (r: Viewer)
    ensures
        r == viewer_of(country.deep_view()),
{
    match country {
        Some(c) => if str_equals(c.as_str(), "jp") {
            Viewer::RightToLeft
        } else if str_equals(c.as_str(), "kr") || str_equals(c.as_str(), "cn") {
            Viewer::Webtoon
        } else {
            Viewer::Unknown
        },
        None => Viewer::Unknown,
    }
}

/// What a credited person becomes in a list of names: their name, when they have one.
pub open spec fn credited_name() -> spec_fn(NameItem) -> Option<Seq<char>> {
    |item: NameItem|
        match item.name {
            Some(n) => Some(n@),
            None => None,
        }
}

/// What a genre tag becomes in a list of tags: the genre's name, when there is one.
pub open spec fn genre_name() -> spec_fn(GenreWrap) -> Option<Seq<char>> {
    |g: GenreWrap|
        match g.md_genres {
            Some(genre) => match genre.name {
                Some(n) => Some(n@),
                None => None,
            },
            None => None,
        }
}

/// The names of the credited people, in order, skipping those without one.
pub fn names(items: &Vec<NameItem>) -> (r: Vec<String>)
    ensures
        r.deep_view() == items@.filter_map(credited_name()),
{
    let mut r: Vec<String> = Vec::new();
    let mut i: usize = 0;
    assert(items@.take(0) =~= Seq::<NameItem>::empty());
    while i < items.len()
        invariant
            i <= items@.len(),
            r.deep_view() == items@.take(i as int).filter_map(credited_name()),
        decreases items.len() - i,
    {
        assert(items@.take(i + 1).drop_last() =~= items@.take(i as int));
        assert(items@.take(i + 1).last() == items@[i as int]);
        let ghost before = r.deep_view();
        match &items[i].name {
            Some(n) => {
                r.push(n.clone());
                assert(r.deep_view() =~= before + seq![n@]);
            },
            None => {},
        }
        i = i + 1;
    }
    assert(items@.take(items@.len() as int) =~= items@);
    r
}

/// The names of a series' genres, in order, skipping tags without one.
pub fn genre_names(genres: &Vec<GenreWrap>) -> (r: Vec<String>)
    ensures
        r.deep_view() == genres@.filter_map(genre_name()),
{
    let mut r: Vec<String> = Vec::new();
    let mut i: usize = 0;
    assert(genres@.take(0) =~= Seq::<GenreWrap>::empty());
    while i < genres.len()
        invariant
            i <= genres@.len(),
            r.deep_view() == genres@.take(i as int).filter_map(genre_name()),
        decreases genres.len() - i,
    {
        assert(genres@.take(i + 1).drop_last() =~= genres@.take(i as int));
        assert(genres@.take(i + 1).last() == genres@[i as int]);
        let ghost before = r.deep_view();
        match &genres[i].md_genres {
            Some(g) => match &g.name {
                Some(n) => {
                    r.push(n.clone());
                    assert(r.deep_view() =~= before + seq![n@]);
                },
                None => {},
            },
            None => {},
        }
        i = i + 1;
    }
    assert(genres@.take(genres@.len() as int) =~= genres@);
    r
}

/// The website address of a series.
pub open spec fn series_address(slug: Seq<char>) -> Seq<char> {
    WEB_URL@ + "/comic/"@ + slug
}

/// A series with the details of its reply: title, cover (kept when the reply has
/// none), website address, description, authors, artists, genres, status, content
/// rating, reading direction and update strategy.
pub fn update_details(manga: Manga, detail: &ComicDetailResponse) -> (r: Manga)
    ensures
        ({
            let comic = detail.comic;
            let slug = match comic.slug {
                Some(s) => s@,
                None => manga.key@,
            };
            &&& r.key == manga.key
            &&& r.title == comic.title
            &&& r.cover.deep_view() == (match first_cover_key(comic.md_covers@) {
                Some(k) => Some(image_address(k)),
                None => manga.cover.deep_view(),
            })
            &&& r.url.deep_view() == Some(series_address(slug))
            &&& r.description == comic.desc
            &&& r.authors matches Some(a) && a.deep_view() == detail.authors@.filter_map(
                credited_name(),
            )
            &&& r.artists matches Some(a) && a.deep_view() == detail.artists@.filter_map(
                credited_name(),
            )
            &&& r.tags matches Some(t) && t.deep_view() == comic.md_comic_md_genres@.filter_map(
                genre_name(),
            )
            &&& r.status == status_of_code(comic.status)
            &&& r.content_rating == rating_of(comic.content_rating.deep_view())
            &&& r.viewer == viewer_of(comic.country.deep_view())
            &&& r.update_strategy == strategy_for(r.status)
            &&& r.chapters == manga.chapters
        }),
{
    let comic = &detail.comic;
    let slug = comic_slug(detail, manga.key.as_str());
    let mut m = manga;
    m.title = comic.title.clone();
    let cover = cover_url(&comic.md_covers);
    m.cover = or_else_keep(cover, m.cover);
    let mut url = String::from_str(WEB_URL);
    url.append("/comic/");
    url.append(slug.as_str());
    m.url = Some(url);
    m.description = comic.desc.clone();
    m.authors = Some(names(&detail.authors));
    m.artists = Some(names(&detail.artists));
    m.tags = Some(genre_names(&comic.md_comic_md_genres));
    m.status = status_from_code(comic.status);
    m.content_rating = rating_from(&comic.content_rating);
    m.viewer = viewer_from(&comic.country);
    m.update_strategy = update_strategy_for(m.status);
    m
}

// ---------------------------------------------------------------------------
// Chapters
// ---------------------------------------------------------------------------

/// The address of page `page` of a series' chapter list in the source's language.
pub open spec fn chapters_url_spec(hid: Seq<char>, page: int) -> Seq<char> {
    API_URL@ + "/comic/"@ + hid + "/chapters?lang=en&page="@ + decimal(page)
        + "&limit=100&tachiyomi=true"@
}

/// The address of page `page` of a series' chapter list.
pub fn chapters_url(hid: &str, page: i32) -> (r: String)
    ensures
        r@ == chapters_url_spec(hid@, page as int),
{
    let mut url = String::from_str(API_URL);
    url.append("/comic/");
    url.append(hid);
    url.append("/chapters?lang=en&page=");
    url.append(decimal_string(page as i64).as_str());
    url.append("&limit=100&tachiyomi=true");
    url
}

/// The website address of a chapter.
pub open spec fn chapter_address(slug: Seq<char>, hid: Seq<char>) -> Seq<char> {
    WEB_URL@ + "/comic/"@ + slug + "/"@ + hid
}

/// The non-empty group names of an upload.
pub open spec fn groups(names: Seq<String>) -> Seq<String> {
    names.filter(|g: String| g@.len() > 0)
}

/// What an upload becomes as a chapter of the series with the given slug.
pub open spec fn item_chapter(item: ChapterItem, slug: Seq<char>, c: Chapter) -> bool {
    &&& c.key == item.hid
    &&& c.title == (match item.title {
        Some(t) => if t@.len() == 0 {
            None
        } else {
            Some(t)
        },
        None => None,
    })
    &&& c.chapter_number == (match item.chap {
        Some(t) => Some(ChapterNumber::Text(t)),
        None => None,
    })
    &&& c.volume_number == (match item.vol {
        Some(t) => Some(ChapterNumber::Text(t)),
        None => None,
    })
    &&& c.date_uploaded == (match item.created_at {
        Some(d) => rfc3339_instant(d@),
        None => None,
    })
    &&& (if groups(item.group_name@).len() == 0 {
        c.scanlators is None
    } else {
        c.scanlators matches Some(s) && s@ == groups(item.group_name@)
    })
    &&& c.url.deep_view() == Some(chapter_address(slug, item.hid@))
    &&& c.language.deep_view() == Some("en"@)
}

/// The chapter for an upload of the series with the given slug.
pub fn chapter_from_item(item: &ChapterItem, slug: &str) -> (c: Chapter)
    ensures
        item_chapter(*item, slug@, c),
{
    let mut scanlators: Vec<String> = Vec::new();
    let mut i: usize = 0;
    let groups_of = &item.group_name;
    proof {
        reveal_with_fuel(Seq::filter, 1);
        assert(groups_of@.take(0) =~= Seq::<String>::empty());
    }
    while i < groups_of.len()
        invariant
            groups_of@ == item.group_name@,
            i <= groups_of@.len(),
            scanlators@ == groups(groups_of@.take(i as int)),
        decreases groups_of.len() - i,
    {
        proof {
            reveal_with_fuel(Seq::filter, 1);
            assert(groups_of@.take(i + 1).drop_last() =~= groups_of@.take(i as int));
            assert(groups_of@.take(i + 1).last() == groups_of@[i as int]);
        }
        if !groups_of[i].as_str().is_empty() {
            scanlators.push(groups_of[i].clone());
        }
        i = i + 1;
    }
    assert(groups_of@.take(groups_of@.len() as int) =~= groups_of@);
    let mut c = new_chapter(item.hid.clone());
    c.title = match &item.title {
        Some(t) => non_empty(t.clone()),
        None => None,
    };
    c.chapter_number = match &item.chap {
        Some(t) => Some(ChapterNumber::Text(t.clone())),
        None => None,
    };
    c.volume_number = match &item.vol {
        Some(t) => Some(ChapterNumber::Text(t.clone())),
        None => None,
    };
    c.date_uploaded = match &item.created_at {
        Some(d) => parse_rfc3339(d.as_str()),
        None => None,
    };
    c.scanlators = if scanlators.len() == 0 {
        None
    } else {
        Some(scanlators)
    };
    let mut url = String::from_str(WEB_URL);
    url.append("/comic/");
    url.append(slug);
    url.append("/");
    url.append(item.hid.as_str());
    c.url = Some(url);
    c.language = Some(String::from_str(LANGUAGE));
    c
}

/// Appends the chapters of a page of the chapter list to `chapters`, in order, and
/// says which page to read next, if any.  An empty page ends the list and adds
/// nothing, and page 50 is the last one read.  Otherwise, where the reply gives a
/// total, the list ends once that many chapters are collected; where it gives none,
/// it ends with the first page shorter than `CHAPTER_LIMIT`.
pub fn add_chapters(
    chapters: &mut Vec<Chapter>,
    response: &ChaptersResponse,
    slug: &str,
    page: i32,
) -> (next: Option<i32>)
    ensures
        final(chapters)@.len() == old(chapters)@.len() + response.chapters@.len(),
        forall|i: int| 0 <= i < old(chapters)@.len() ==> final(chapters)@[i] == old(chapters)@[i],
        forall|i: int|
            0 <= i < response.chapters@.len() ==> item_chapter(
                #[trigger] response.chapters@[i],
                slug@,
                final(chapters)@[old(chapters)@.len() + i],
            ),
        next == (if response.chapters@.len() == 0 || page >= 50 {
            None::<i32>
        } else {
            match response.total {
                Some(t) => if final(chapters)@.len() as i32 >= t {
                    None::<i32>
                } else {
                    Some((page + 1) as i32)
                },
                None => if response.chapters@.len() < CHAPTER_LIMIT {
                    None::<i32>
                } else {
                    Some((page + 1) as i32)
                },
            }
        }),
{
    let items = &response.chapters;
    if items.len() == 0 {
        return None;
    }
    let ghost start = chapters@.len();
    let mut i: usize = 0;
    while i < items.len()
        invariant
            items@ == response.chapters@,
            i <= items@.len(),
            start == old(chapters)@.len(),
            chapters@.len() == start + i,
            forall|j: int| 0 <= j < start ==> chapters@[j] == old(chapters)@[j],
            forall|j: int|
                0 <= j < i ==> item_chapter(#[trigger] items@[j], slug@, chapters@[start + j]),
        decreases items.len() - i,
    {
        let c = chapter_from_item(&items[i], slug);
        chapters.push(c);
        i = i + 1;
    }
    if page >= 50 {
        return None;
    }
    let done = match response.total {
        Some(t) => chapters.len() as i32 >= t,
        None => items.len() < CHAPTER_LIMIT as usize,
    };
    if done {
        None
    } else {
        Some(page + 1)
    }
}

// ---------------------------------------------------------------------------
// Deep links
// ---------------------------------------------------------------------------

/// What a link into the website points at: `.../comic/<slug>` is a series, and
/// `.../comic/<slug>/<chapter hid>-chapter-...` a chapter of it.
pub open spec fn deep_link(url: Seq<char>) -> Option<LinkTarget> {
    match second_piece(url, "/comic/"@) {
        Some(rest) => {
            let slug = head(rest, "/"@);
            if slug.len() == 0 {
                None
            } else {
                match second_piece(rest, "/"@) {
                    Some(seg) => if seg.len() > 0 {
                        Some(LinkTarget::Chapter { manga_key: slug, key: head(seg, "-"@) })
                    } else {
                        Some(LinkTarget::Manga { key: slug })
                    },
                    None => Some(LinkTarget::Manga { key: slug }),
                }
            }
        },
        None => None,
    }
}

/// What a link into the website points at, if it points at a series or a chapter.
pub fn handle_deep_link(url: &str) -> (r: Option<DeepLinkResult>)
    ensures
        link_view(r) == deep_link(url@),
{
    let rest = match second_piece_str(url, "/comic/") {
        Some(rest) => rest,
        None => {
            return None;
        },
    };
    let slug = head_str(rest.as_str(), "/");
    if slug.as_str().is_empty() {
        return None;
    }
    match second_piece_str(rest.as_str(), "/") {
        Some(seg) => {
            if !seg.as_str().is_empty() {
                let hid = head_str(seg.as_str(), "-");
                return Some(DeepLinkResult::Chapter { manga_key: slug, key: hid });
            }
        },
        None => {},
    }
    Some(DeepLinkResult::Manga { key: slug })
}

/// The marker `/comic/` after the website's address is the first one in a link.
proof fn lemma_comic_marker(rest: Seq<char>)
    ensures
        find(WEB_URL@ + "/comic/"@ + rest, "/comic/"@) == Some(17int),
{
    reveal_strlit("https://comick.io");
    reveal_strlit("/comic/");
    let u = WEB_URL@ + "/comic/"@ + rest;
    let p = "/comic/"@;
    assert(WEB_URL@.len() == 17);
    assert(p.len() == 7);
    assert(occurs_at(u, p, 17)) by {
        assert(u.subrange(17, 24) =~= p);
    }
    assert forall|j: int| 0 <= j < 17 implies !occurs_at(u, p, j) by {
        if j == 6 {
            lemma_not_occurs(u, p, j, 1);
        } else if j == 7 {
            lemma_not_occurs(u, p, j, 6);
        } else {
            lemma_not_occurs(u, p, j, 0);
        }
    }
    lemma_find_from_is(u, p, 0, 17);
}

/// A series link gives back the series: the website address of a series whose
/// slug is not empty and holds no `/` points at that series.
pub proof fn lemma_series_link(slug: Seq<char>)
    requires
        slug.len() > 0,
        forall|j: int| 0 <= j < slug.len() ==> slug[j] != '/',
    ensures
        deep_link(series_address(slug)) == Some(LinkTarget::Manga { key: slug }),
{
    reveal_strlit("/comic/");
    reveal_strlit("/");
    reveal_strlit("https://comick.io");
    assert(WEB_URL@.len() == 17 && "/comic/"@.len() == 7);
    let u = series_address(slug);
    lemma_comic_marker(slug);
    assert(u.skip(24) =~= slug);
    lemma_find_absent_first(slug, "/comic/"@);
    lemma_find_absent_first(slug, "/"@);
    assert(after_first(u, "/comic/"@) == Some(slug));
}

/// A chapter link gives back the chapter and its series: the website address of a
/// chapter, for a slug and a chapter id that are not empty and hold no `/`, points
/// at the chapter whose key is the id up to its first `-`, of that series.
pub proof fn lemma_chapter_link(slug: Seq<char>, hid: Seq<char>)
    requires
        slug.len() > 0,
        forall|j: int| 0 <= j < slug.len() ==> slug[j] != '/',
        hid.len() > 0,
        forall|j: int| 0 <= j < hid.len() ==> hid[j] != '/',
    ensures
        deep_link(chapter_address(slug, hid)) == Some(
            LinkTarget::Chapter { manga_key: slug, key: head(hid, "-"@) },
        ),
{
    reveal_strlit("/comic/");
    reveal_strlit("/");
    let p = "/comic/"@;
    let rest = slug + "/"@ + hid;
    reveal_strlit("https://comick.io");
    assert(WEB_URL@.len() == 17 && p.len() == 7);
    let u = chapter_address(slug, hid);
    assert(u =~= WEB_URL@ + "/comic/"@ + rest);
    lemma_comic_marker(rest);
    assert(u.skip(24) =~= rest);
    let n = slug.len() as int;
    // The only `/` of `rest` is the one after the slug.
    assert forall|j: int| 0 <= j < rest.len() && j != n implies rest[j] != '/' by {
        if j < n {
            assert(rest[j] == slug[j]);
        } else {
            assert(rest[j] == hid[j - n - 1]);
        }
    }
    assert(rest[n] == '/');
    assert forall|j: int| 0 <= j implies !occurs_at(rest, p, j) by {
        if j + 7 <= rest.len() {
            if j != n {
                lemma_not_occurs(rest, p, j, 0);
            } else {
                lemma_not_occurs(rest, p, j, 6);
            }
        }
    }
    crate::text::lemma_find_from_none(rest, p, 0);
    assert("/"@ =~= seq!['/']);
    lemma_find_char(rest, '/', n);
    assert(rest.take(n) =~= slug);
    assert(rest.skip(n + 1) =~= hid);
    lemma_find_absent_first(hid, "/"@);
}

} // verus!
