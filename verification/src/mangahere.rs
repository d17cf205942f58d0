//! MangaHere (mangahere.cc): an HTML catalogue with a desktop site for browsing and
//! a mobile site whose reader shows all of a chapter's pages at once.

use vstd::prelude::*;
use crate::common::{
    entry, first_or_empty, first_text, keyword_status, non_empty, or_else_keep,
    status_from_label, text_or_empty,
};
use crate::date::{calendar_date, parse_calendar_date};
use crate::fanfox::last_text;
use crate::model::{
    link_view, listing_defaults, new_chapter, Chapter, ContentRating, DeepLinkResult, LinkTarget, Manga,
    SearchRequest, Viewer,
};
use crate::text::{
    decimal, decimal_string, ends_with, lemma_strip_prefix_concat, replace, replace_char,
    replace_char_str, replace_str, starts_with, str_ends_with, str_starts_with, strip_either,
    strip_either_str, strip_prefix,
};

verus! {

/// The desktop site's address.
pub const BASE_URL: &'static str = "https://www.mangahere.cc";

/// The mobile site's address.
pub const MOBILE_URL: &'static str = "https://m.mangahere.cc";

/// `url` without the desktop (or mobile) site's address in front.
pub open spec fn site_path(url: Seq<char>) -> Seq<char> {
    strip_either(url, BASE_URL@, MOBILE_URL@)
}

/// `url` without the desktop (or mobile) site's address in front.
pub fn strip_domain(url: &str) -> (r: String)
    ensures
        r@ == site_path(url@),
{
    strip_either_str(url, BASE_URL, MOBILE_URL)
}

/// The upload date of a chapter, such as "Jan 05,2024".
pub fn parse_date(text: &str) -> (r: Option<i64>)
    ensures
        r == calendar_date(text@, "%b %d,%Y"@),
{
    parse_calendar_date(text, "%b %d,%Y")
}

/// A catalogue entry from a list item: its link's address and title and the link's
/// cover image.  Items without a link address give none.
pub fn parse_entry(href: Option<String>, title: Option<String>, cover: Option<String>) -> (r:
    Option<Manga>)
    ensures
        match href {
            Some(h) => r matches Some(m) && m.key@ == site_path(h@) && m.title@ == text_or_empty(
                title,
            ) && m.cover == cover && m.description is None && listing_defaults(m),
            None => r is None,
        },
{
    match href {
        Some(h) => Some(entry(strip_domain(h.as_str()), title, cover)),
        None => None,
    }
}

/// What to fetch for a search: without a query, a page of the directory;
/// otherwise a search by title.
pub open spec fn search_request_spec(query: Seq<char>, page: int) -> (Seq<char>, Seq<char>) {
    if query.len() == 0 {
        (BASE_URL@ + "/directory/"@ + decimal(page) + ".htm"@, ".manga-list-1-list li"@)
    } else {
        (
            BASE_URL@ + "/search?page="@ + decimal(page) + "&title="@ + replace_char(
                query,
                ' ',
                "+"@,
            ),
            ".manga-list-4-list > li"@,
        )
    }
}

/// What to fetch for a search.
pub fn search_request(query: Option<String>, page: i32) -> (r: SearchRequest)
    ensures
        (r.url@, r.selector@) == search_request_spec(text_or_empty(query), page as int),
{
    let query = match query {
        Some(q) => q,
        None => String::new(),
    };
    let mut url = String::from_str(BASE_URL);
    if query.as_str().is_empty() {
        url.append("/directory/");
        url.append(decimal_string(page as i64).as_str());
        url.append(".htm");
        SearchRequest { url, selector: String::from_str(".manga-list-1-list li") }
    } else {
        url.append("/search?page=");
        url.append(decimal_string(page as i64).as_str());
        url.append("&title=");
        url.append(replace_char_str(query.as_str(), ' ', "+").as_str());
        SearchRequest { url, selector: String::from_str(".manga-list-4-list > li") }
    }
}

/// The address of a series page.
pub fn page_url(key: &str) -> (r: String)
    ensures
        r@ == BASE_URL@ + key@,
{
    let mut url = String::from_str(BASE_URL);
    url.append(key);
    url
}

/// A series with the details read from its page: cover (kept when missing),
/// authors, genres, summary and status label; read right to left.
pub fn update_details(
    manga: Manga,
    url: String,
    cover: Option<String>,
    authors: Option<Vec<String>>,
    tags: Option<Vec<String>>,
    description: Option<String>,
    status_label: Option<String>,
) -> (r: Manga)
    ensures
        r.key == manga.key,
        r.title == manga.title,
        r.url == Some(url),
        r.cover == (match cover {
            Some(_) => cover,
            None => manga.cover,
        }),
        r.authors == authors,
        r.artists == manga.artists,
        r.tags == tags,
        r.description == description,
        r.status == keyword_status(status_label.deep_view()),
        r.update_strategy == manga.update_strategy,
        r.viewer == Viewer::RightToLeft,
        r.content_rating == ContentRating::Safe,
        r.chapters == manga.chapters,
{
    let mut m = manga;
    m.url = Some(url);
    m.cover = or_else_keep(cover, m.cover);
    m.authors = authors;
    m.tags = tags;
    m.description = description;
    m.status = status_from_label(&status_label);
    m.viewer = Viewer::RightToLeft;
    m.content_rating = ContentRating::Safe;
    m
}

/// What a chapter link becomes: keyed by its path, titled by its first text line
/// and dated by its last.
pub open spec fn link_chapter(href: Seq<char>, lines: Seq<String>, c: Chapter) -> bool {
    &&& c.key@ == site_path(href)
    &&& c.title.deep_view() == (if first_text(lines).len() == 0 {
        None
    } else {
        Some(first_text(lines))
    })
    &&& c.date_uploaded == (match last_text(lines) {
        Some(d) => calendar_date(d, "%b %d,%Y"@),
        None => None,
    })
    &&& c.url.deep_view() == Some(href)
    &&& c.chapter_number is None
    &&& c.volume_number is None
    &&& c.scanlators is None
    &&& c.language is None
}

/// A chapter from a link of the chapter list: its address and the texts of its
/// lines.  Links without an address give none.
pub fn chapter_from_link(href: Option<String>, lines: &Vec<String>) -> (r: Option<Chapter>)
    ensures
        match href {
            Some(h) => r matches Some(c) && link_chapter(h@, lines@, c),
            None => r is None,
        },
{
    let h = match href {
        Some(h) => h,
        None => {
            return None;
        },
    };
    let mut c = new_chapter(strip_domain(h.as_str()));
    c.title = non_empty(first_or_empty(lines));
    c.date_uploaded = if lines.len() == 0 {
        None
    } else {
        parse_date(lines[lines.len() - 1].as_str())
    };
    c.url = Some(h);
    Some(c)
}

/// The address of a chapter on the mobile reader, which shows every page without
/// the desktop reader's packed image script.
pub open spec fn reader_url_spec(key: Seq<char>) -> Seq<char> {
    MOBILE_URL@ + replace(key, "/manga/"@, "/roll_manga/"@)
}

/// The address of a chapter on the mobile reader.
pub fn reader_url(key: &str) -> (r: String)
    ensures
        r@ == reader_url_spec(key@),
{
    let mut url = String::from_str(MOBILE_URL);
    url.append(replace_str(key, "/manga/", "/roll_manga/").as_str());
    url
}

/// What a link into the site points at: paths under `/manga/` are series, or
/// chapters when they end in an `.html` page.
pub open spec fn deep_link(url: Seq<char>) -> Option<LinkTarget> {
    let path = site_path(url);
    if !starts_with(path, "/manga/"@) {
        None
    } else if ends_with(path, ".html"@) {
        Some(LinkTarget::Chapter { manga_key: Seq::empty(), key: path })
    } else {
        Some(LinkTarget::Manga { key: path })
    }
}

/// What a link into the site points at, if it points at a series or a chapter.
pub fn handle_deep_link(url: &str) -> (r: Option<DeepLinkResult>)
    ensures
        link_view(r) == deep_link(url@),
{
    let path = strip_domain(url);
    if !str_starts_with(path.as_str(), "/manga/") {
        None
    } else if str_ends_with(path.as_str(), ".html") {
        Some(DeepLinkResult::Chapter { manga_key: String::new(), key: path })
    } else {
        Some(DeepLinkResult::Manga { key: path })
    }
}

/// Site links give back their keys: the link to a key under `/manga/` points at
/// that series, or at that chapter when the key ends in `.html`.
pub proof fn lemma_key_link(key: Seq<char>)
    requires
        starts_with(key, "/manga/"@),
    ensures
        deep_link(BASE_URL@ + key) == (if ends_with(key, ".html"@) {
            Some(LinkTarget::Chapter { manga_key: Seq::empty(), key })
        } else {
            Some(LinkTarget::Manga { key })
        }),
{
    lemma_strip_prefix_concat(BASE_URL@, key);
}

/// Links on the mobile site point where the desktop site's do: for a key under
/// `/manga/`, `MOBILE_URL` + key and `BASE_URL` + key name the same series or chapter.
pub proof fn lemma_mobile_link(key: Seq<char>)
    requires
        starts_with(key, "/manga/"@),
    ensures
        deep_link(MOBILE_URL@ + key) == deep_link(BASE_URL@ + key),
        deep_link(MOBILE_URL@ + key) is Some,
{
    reveal_strlit("https://www.mangahere.cc");
    reveal_strlit("https://m.mangahere.cc");
    let url = MOBILE_URL@ + key;
    lemma_strip_prefix_concat(BASE_URL@, key);
    lemma_strip_prefix_concat(MOBILE_URL@, key);
    if BASE_URL@.len() <= url.len() {
        assert(url.take(BASE_URL@.len() as int)[8] == url[8]);
        assert(url.take(BASE_URL@.len() as int)[8] != BASE_URL@[8]);
    }
    assert(strip_prefix(url, BASE_URL@) is None);
}

} // verus!
