//! WEBTOON (webtoons.com): series pages on the website, episode lists from the
//! mobile API.

pub mod models;

use vstd::prelude::*;
use crate::common::{number_text, number_text_of, non_empty, or_else_keep, to_uppercase, uppercase};
use crate::model::{
    link_view, listing_defaults, new_chapter, new_manga, Chapter, ChapterNumber, ContentRating, DeepLinkResult,
    LinkTarget, Manga, MangaPageResult, MangaStatus, Viewer,
};
use crate::text::{
    chars_of, contains, decimal, decimal_string, find, find_from_exec, head,
    lemma_find_from, lemma_strip_prefix_concat, replace_char,
    replace_char_str, second_piece, second_piece_str, head_str, str_contains, strip_either,
    strip_either_str, string_of,
};
use crate::webtoons::models::Episode;

verus! {

/// The website's address.
pub const BASE_URL: &'static str = "https://www.webtoons.com";

/// The mobile website's address.
pub const MOBILE_URL: &'static str = "https://m.webtoons.com";

/// `url` without the website's (or mobile website's) address in front.
pub open spec fn site_path(url: Seq<char>) -> Seq<char> {
    strip_either(url, BASE_URL@, MOBILE_URL@)
}

/// `url` without the website's (or mobile website's) address in front.
pub fn strip_domain(url: &str) -> (r: String)
    ensures
        r@ == site_path(url@),
{
    strip_either_str(url, BASE_URL, MOBILE_URL)
}

/// The value of the query parameter `key` in `url`: the text after the first
/// `key=`, up to the next `key=` or `&`.
pub open spec fn query_value(url: Seq<char>, key: Seq<char>) -> Option<Seq<char>> {
    match second_piece(url, key + "="@) {
        Some(rest) => Some(head(rest, "&"@)),
        None => None,
    }
}

/// The value of the query parameter `key` in `url`.
pub fn query_param(url: &str, key: &str) -> (r: Option<String>)
    ensures
        r.deep_view() == query_value(url@, key@),
{
    let mut pattern = String::from_str(key);
    pattern.append("=");
    match second_piece_str(url, pattern.as_str()) {
        Some(rest) => Some(head_str(rest.as_str(), "&")),
        None => None,
    }
}

/// The number in an episode title, as text to be read as a number.
pub fn parse_number(text: &str) -> (r: String)
    ensures
        r@ == number_text(text@),
{
    number_text_of(text)
}

/// A catalogue entry from a link of a series list: its address, the text of its
/// title and its thumbnail.  Links without an address give none.
pub fn manga_from_element(href: Option<String>, title: Option<String>, cover: Option<String>) -> (r:
    Option<Manga>)
    ensures
        match href {
            Some(h) => r matches Some(m) && {
                &&& m.key@ == site_path(h@)
                &&& m.title@ == (match title {
                    Some(t) => t@,
                    None => Seq::empty(),
                })
                &&& m.cover == cover
                &&& m.description is None
                &&& listing_defaults(m)
            },
            None => r is None,
        },
{
    let h = match href {
        Some(h) => h,
        None => {
            return None;
        },
    };
    let title = match title {
        Some(t) => t,
        None => String::new(),
    };
    let mut m = new_manga(strip_domain(h.as_str()), title);
    m.cover = cover;
    Some(m)
}

// ---------------------------------------------------------------------------
// Searching
// ---------------------------------------------------------------------------

/// The address of the trending ranking, listed when there is no query.
pub fn trending_url() -> (r: String)
    ensures
        r@ == BASE_URL@ + "/en/ranking/trending"@,
{
    let mut url = String::from_str(BASE_URL);
    url.append("/en/ranking/trending");
    url
}

/// The address of a page of a keyword search.
pub open spec fn search_url_spec(query: Seq<char>, page: int) -> Seq<char> {
    BASE_URL@ + "/en/search?keyword="@ + replace_char(query, ' ', "+"@) + "&page="@ + decimal(page)
}

/// The address of a page of a keyword search.
pub fn search_url(query: &str, page: i32) -> (r: String)
    ensures
        r@ == search_url_spec(query@, page as int),
{
    let mut url = String::from_str(BASE_URL);
    url.append("/en/search?keyword=");
    url.append(replace_char_str(query, ' ', "+").as_str());
    url.append("&page=");
    url.append(decimal_string(page as i64).as_str());
    url
}

/// The address a search fetches: the trending ranking when the query is empty,
/// otherwise that page of a keyword search.
pub open spec fn search_address_spec(query: Seq<char>, page: int) -> Seq<char> {
    if query.len() == 0 {
        BASE_URL@ + "/en/ranking/trending"@
    } else {
        search_url_spec(query, page)
    }
}

/// The address a search fetches.
pub fn search_address(query: &str, page: i32) -> (r: String)
    ensures
        r@ == search_address_spec(query@, page as int),
{
    if query.is_empty() {
        trending_url()
    } else {
        search_url(query, page)
    }
}

/// A page of search results: the entries listed, with a next page only for a
/// keyword search whose pagination links past the current page; the trending
/// ranking is a single page.
pub fn search_page(query: &str, entries: Vec<Manga>, next_link: bool) -> (r: MangaPageResult)
    ensures
        r.entries@ == entries@,
        r.has_next_page == (query@.len() != 0 && next_link),
{
    let paged = !query.is_empty();
    MangaPageResult { entries, has_next_page: paged && next_link }
}

// ---------------------------------------------------------------------------
// Series details
// ---------------------------------------------------------------------------

/// The status a schedule text names, read in upper case: `UP` or `EVERY` for a
/// running series, `END` or `COMPLETED` for a finished one.
pub open spec fn schedule_status(label: Option<Seq<char>>) -> MangaStatus {
    match label {
        Some(s) => {
            let u = uppercase(s);
            if contains(u, "UP"@) || contains(u, "EVERY"@) {
                MangaStatus::Ongoing
            } else if contains(u, "END"@) || contains(u, "COMPLETED"@) {
                MangaStatus::Completed
            } else {
                MangaStatus::Unknown
            }
        },
        None => MangaStatus::Unknown,
    }
}

/// A schedule that names a weekday run (`EVERY ...`) or an update (`UP`), in any
/// case, is that of a running series, whatever else it says; one that names neither
/// but says `END` or `COMPLETED` is that of a finished series; any other schedule,
/// or none, leaves the status unknown.
pub proof fn lemma_schedule_names_status(text: Seq<char>)
    ensures
        contains(uppercase(text), "EVERY"@) ==> schedule_status(Some(text))
            == MangaStatus::Ongoing,
        contains(uppercase(text), "UP"@) ==> schedule_status(Some(text)) == MangaStatus::Ongoing,
        !contains(uppercase(text), "EVERY"@) && !contains(uppercase(text), "UP"@) && (contains(
            uppercase(text),
            "END"@,
        ) || contains(uppercase(text), "COMPLETED"@)) ==> schedule_status(Some(text))
            == MangaStatus::Completed,
        !contains(uppercase(text), "EVERY"@) && !contains(uppercase(text), "UP"@) && !contains(
            uppercase(text),
            "END"@,
        ) && !contains(uppercase(text), "COMPLETED"@) ==> schedule_status(Some(text))
            == MangaStatus::Unknown,
        schedule_status(None) == MangaStatus::Unknown,
{
}

/// The status a schedule text names.
pub fn status_from_schedule(label: &Option<String>) -> (r: MangaStatus)
    ensures
        r == schedule_status(label.deep_view()),
{
    match label {
        Some(s) => {
            let u = to_uppercase(s.as_str());
            if str_contains(u.as_str(), "UP") || str_contains(u.as_str(), "EVERY") {
                MangaStatus::Ongoing
            } else if str_contains(u.as_str(), "END") || str_contains(u.as_str(), "COMPLETED") {
                MangaStatus::Completed
            } else {
                MangaStatus::Unknown
            }
        },
        None => MangaStatus::Unknown,
    }
}

/// The address of a series or episode page.
pub fn page_url(key: &str) -> (r: String)
    ensures
        r@ == BASE_URL@ + key@,
{
    let mut url = String::from_str(BASE_URL);
    url.append(key);
    url
}

/// A series with the details read from its page: title (kept when missing), the
/// `og:image` cover (kept when missing), author, genres, summary and schedule text.
pub fn update_details(
    manga: Manga,
    title: Option<String>,
    cover: Option<String>,
    author: Option<String>,
    tags: Option<Vec<String>>,
    description: Option<String>,
    schedule: Option<String>,
) -> (r: Manga)
    ensures
        r.key == manga.key,
        r.url.deep_view() == Some(BASE_URL@ + manga.key@),
        r.title == (match title {
            Some(t) => t,
            None => manga.title,
        }),
        r.cover == (match cover {
            Some(_) => cover,
            None => manga.cover,
        }),
        match author {
            Some(a) => r.authors matches Some(v) && v@ == seq![a],
            None => r.authors is None,
        },
        r.artists == manga.artists,
        r.tags == tags,
        r.description == description,
        r.status == schedule_status(schedule.deep_view()),
        r.update_strategy == manga.update_strategy,
        r.viewer == Viewer::Webtoon,
        r.content_rating == ContentRating::Safe,
        r.chapters == manga.chapters,
{
    let mut m = manga;
    m.url = Some(page_url(m.key.as_str()));
    if let Some(t) = title {
        m.title = t;
    }
    m.cover = or_else_keep(cover, m.cover);
    m.authors = match author {
        Some(a) => {
            let mut v = Vec::new();
            v.push(a);
            Some(v)
        },
        None => None,
    };
    m.tags = tags;
    m.description = description;
    m.status = status_from_schedule(&schedule);
    m.viewer = Viewer::Webtoon;
    m.content_rating = ContentRating::Safe;
    m
}

// ---------------------------------------------------------------------------
// Pages
// ---------------------------------------------------------------------------

/// The address of a page image: its `data-url`, else its `src`; at maximum quality
/// without the `?type=q90` downscaling suffix and what follows it.
pub open spec fn image_url(data_url: Option<Seq<char>>, src: Option<Seq<char>>, max_quality: bool) -> Option<Seq<char>> {
    let u = match data_url {
        Some(u) => Some(u),
        None => src,
    };
    match u {
        Some(u) => if max_quality {
            match find(u, "?type=q90"@) {
                Some(i) => Some(u.take(i)),
                None => Some(u),
            }
        } else {
            Some(u)
        },
        None => None,
    }
}

/// The address of a page image.
pub fn page_image(data_url: Option<String>, src: Option<String>, max_quality: bool) -> (r: Option<String>)
    ensures
        r.deep_view() == image_url(data_url.deep_view(), src.deep_view(), max_quality),
{
    let u = match or_else_keep(data_url, src) {
        Some(u) => u,
        None => {
            return None;
        },
    };
    if max_quality {
        let v = chars_of(u.as_str());
        match find_from_exec(&v, &chars_of("?type=q90"), 0) {
            Some(i) => {
                proof {
                    lemma_find_from(v@, "?type=q90"@, 0);
                }
                assert(v@.subrange(0, i as int) =~= v@.take(i as int));
                return Some(string_of(&v, 0, i));
            },
            None => {},
        }
    }
    Some(u)
}

// ---------------------------------------------------------------------------
// Episodes
// ---------------------------------------------------------------------------

/// The address of the mobile API's full episode list of a series: the title number
/// is the key's `title_no` (else `titleNo`) query value, and canvas series are
/// listed apart from originals.
pub open spec fn episodes_url_spec(manga_key: Seq<char>) -> Seq<char> {
    let title_id = match query_value(manga_key, "title_no"@) {
        Some(v) => v,
        None => match query_value(manga_key, "titleNo"@) {
            Some(v) => v,
            None => Seq::empty(),
        },
    };
    let kind = if contains(manga_key, "/canvas/"@) {
        "canvas"@
    } else {
        "webtoon"@
    };
    MOBILE_URL@ + "/api/v1/"@ + kind + "/"@ + title_id + "/episodes?pageSize=99999"@
}

/// The address of the mobile API's full episode list of a series.
pub fn episodes_url(manga_key: &str) -> (r: String)
    ensures
        r@ == episodes_url_spec(manga_key@),
{
    let title_id = match or_else_keep(
        query_param(manga_key, "title_no"),
        query_param(manga_key, "titleNo"),
    ) {
        Some(v) => v,
        None => String::new(),
    };
    let mut url = String::from_str(MOBILE_URL);
    url.append("/api/v1/");
    if str_contains(manga_key, "/canvas/") {
        url.append("canvas");
    } else {
        url.append("webtoon");
    }
    url.append("/");
    url.append(title_id.as_str());
    url.append("/episodes?pageSize=99999");
    url
}

/// What an episode at position `position` (counting from 1, oldest first) becomes
/// as a chapter.
pub open spec fn episode_chapter(ep: Episode, position: int, c: Chapter) -> bool {
    &&& c.key@ == site_path(ep.viewer_link@)
    &&& c.chapter_number matches Some(ChapterNumber::TextOr(t, n)) && t@ == number_text(
        ep.episode_title@,
    ) && n == position
    &&& c.title.deep_view() == (if ep.episode_title@.len() == 0 {
        None
    } else {
        Some(ep.episode_title@)
    })
    &&& c.date_uploaded == (if ep.exposure_date_millis / 1000 > 0 {
        Some((ep.exposure_date_millis / 1000) as i64)
    } else {
        None
    })
    &&& c.url.deep_view() == Some(BASE_URL@ + site_path(ep.viewer_link@))
    &&& c.volume_number is None
    &&& c.scanlators is None
    &&& c.language is None
}

/// The chapter for the episode at `position`.
pub fn chapter_from_episode(ep: &Episode, position: u64) -> (c: Chapter)
    ensures
        episode_chapter(*ep, position as int, c),
{
    let key = strip_domain(ep.viewer_link.as_str());
    let url = page_url(key.as_str());
    let mut c = new_chapter(key);
    c.chapter_number = Some(
        ChapterNumber::TextOr(parse_number(ep.episode_title.as_str()), position),
    );
    c.title = non_empty(ep.episode_title.clone());
    // A date is kept only when it is after the epoch: whole seconds above zero.
    c.date_uploaded = if ep.exposure_date_millis >= 1000 {
        Some(ep.exposure_date_millis / 1000)
    } else {
        None
    };
    c.url = Some(url);
    c
}

/// The chapters of a series from its episode list (oldest first), newest first.
pub fn chapters_from_episodes(episodes: &Vec<Episode>) -> (r: Vec<Chapter>)
    ensures
        r@.len() == episodes@.len(),
        forall|j: int|
            0 <= j < r@.len() ==> episode_chapter(
                #[trigger] episodes@[episodes@.len() - 1 - j],
                episodes@.len() - j,
                r@[j],
            ),
{
    let mut r: Vec<Chapter> = Vec::new();
    let n = episodes.len();
    let mut i = n;
    while i > 0
        invariant
            i <= n == episodes@.len(),
            r@.len() == n - i,
            forall|j: int|
                0 <= j < r@.len() ==> episode_chapter(
                    #[trigger] episodes@[n - 1 - j],
                    n - j,
                    r@[j],
                ),
        decreases i,
    {
        i = i - 1;
        r.push(chapter_from_episode(&episodes[i], (i + 1) as u64));
    }
    r
}

// ---------------------------------------------------------------------------
// Deep links
// ---------------------------------------------------------------------------

/// What a link into the website points at: an episode viewer is a chapter; a
/// series list page, or any page naming a title number, is a series.
pub open spec fn deep_link(url: Seq<char>) -> Option<LinkTarget> {
    let path = site_path(url);
    if contains(path, "/viewer"@) {
        Some(LinkTarget::Chapter { manga_key: Seq::empty(), key: path })
    } else if contains(path, "title_no="@) || contains(path, "/list"@) {
        Some(LinkTarget::Manga { key: path })
    } else {
        None
    }
}

/// What a link into the website points at, if it points at a series or a chapter.
pub fn handle_deep_link(url: &str) -> (r: Option<DeepLinkResult>)
    ensures
        link_view(r) == deep_link(url@),
{
    let path = strip_domain(url);
    if str_contains(path.as_str(), "/viewer") {
        Some(DeepLinkResult::Chapter { manga_key: String::new(), key: path })
    } else if str_contains(path.as_str(), "title_no=") || str_contains(path.as_str(), "/list") {
        Some(DeepLinkResult::Manga { key: path })
    } else {
        None
    }
}

/// A series link gives back the series: the website link to a series key that names
/// a title number or a list page, and no viewer, points at that series.
pub proof fn lemma_series_link(key: Seq<char>)
    requires
        contains(key, "title_no="@) || contains(key, "/list"@),
        !contains(key, "/viewer"@),
    ensures
        deep_link(BASE_URL@ + key) == Some(LinkTarget::Manga { key }),
{
    lemma_strip_prefix_concat(BASE_URL@, key);
}

/// A chapter link gives back the chapter: the website link to an episode key that
/// names the viewer points at that chapter.
pub proof fn lemma_episode_link(key: Seq<char>)
    requires
        contains(key, "/viewer"@),
    ensures
        deep_link(BASE_URL@ + key) == Some(LinkTarget::Chapter { manga_key: Seq::empty(), key }),
{
    lemma_strip_prefix_concat(BASE_URL@, key);
}

} // verus!
