//! FanFox (fanfox.net): an HTML catalogue with a desktop site for browsing and a
//! mobile site whose reader shows all of a chapter's pages at once.

use vstd::prelude::*;
use crate::common::{
    entry, first_or_empty, first_text, keyword_status, non_empty, or_else_keep,
    status_from_label, text_or_empty,
};
use crate::date::{calendar_date, parse_calendar_date};
use crate::model::{
    link_view, listing_defaults, new_chapter, Chapter, ContentRating, DeepLinkResult, FilterValue, LinkTarget,
    Manga, SearchRequest, Viewer,
};
use crate::text::{
    decimal, decimal_string, ends_with, join, join_str, lemma_strip_prefix_concat, replace, replace_char,
    replace_char_str, replace_str, starts_with, str_ends_with, str_equals, str_starts_with,
    strip_either, strip_either_str, occurs_at, strip_prefix,
};

verus! {

/// The desktop site's address.
pub const BASE_URL: &'static str = "https://fanfox.net";

/// The mobile site's address.
pub const MOBILE_URL: &'static str = "https://m.fanfox.net";

/// `url` without the desktop (or mobile) site's address in front.
pub open spec fn site_path(url: Seq<char>) -> Seq<char> {
    strip_either(url, BASE_URL@, MOBILE_URL@)
}

/// `url` without the desktop (or mobile) site's address in front.
pub fn strip_domain(url: &str) -> (r: String)
    ensures
        r@ == site_path(url@),
{
    strip_either_str(url, BASE_URL, MOBILE_URL)
}

/// The upload date of a chapter, such as "Jan 05,2024".
pub fn parse_date(text: &str) -> (r: Option<i64>)
    ensures
        r == calendar_date(text@, "%b %d,%Y"@),
{
    parse_calendar_date(text, "%b %d,%Y")
}

/// A catalogue entry from a list item: its link's address and title and the link's
/// cover image.  Items without a link address give none.
pub fn parse_entry(href: Option<String>, title: Option<String>, cover: Option<String>) -> (r:
    Option<Manga>)
    ensures
        match href {
            Some(h) => r matches Some(m) && m.key@ == site_path(h@) && m.title@ == text_or_empty(
                title,
            ) && m.cover == cover && m.description is None && listing_defaults(m),
            None => r is None,
        },
{
    match href {
        Some(h) => Some(entry(strip_domain(h.as_str()), title, cover)),
        None => None,
    }
}

// ---------------------------------------------------------------------------
// Searching
// ---------------------------------------------------------------------------

/// The genres to include and exclude: those of the last `genre` filter.
pub open spec fn genre_choice(filters: Seq<FilterValue>) -> Option<(Seq<String>, Seq<String>)>
    decreases filters.len(),
{
    if filters.len() == 0 {
        None
    } else {
        match filters.last() {
            FilterValue::MultiSelect { id, included, excluded } => if id@ == "genre"@ {
                Some((included@, excluded@))
            } else {
                genre_choice(filters.drop_last())
            },
            _ => genre_choice(filters.drop_last()),
        }
    }
}

/// The type chosen: that of the last `type` filter.
pub open spec fn type_choice(filters: Seq<FilterValue>) -> Option<Seq<char>>
    decreases filters.len(),
{
    if filters.len() == 0 {
        None
    } else {
        match filters.last() {
            FilterValue::Select { id, value } => if id@ == "type"@ {
                Some(value@)
            } else {
                type_choice(filters.drop_last())
            },
            _ => type_choice(filters.drop_last()),
        }
    }
}

/// The names of a list of strings.
pub open spec fn texts(list: Seq<String>) -> Seq<Seq<char>> {
    list.map_values(|s: String| s@)
}

/// What to fetch for a search.  Without a query or an active filter, a page of
/// the directory; otherwise a search by title, type (`0` for any) and genres.
pub open spec fn search_request_spec(query: Seq<char>, page: int, filters: Seq<FilterValue>) -> (
    Seq<char>,
    Seq<char>,
) {
    let (inc, exc) = match genre_choice(filters) {
        Some((i, e)) => (i, e),
        None => (Seq::empty(), Seq::empty()),
    };
    let t = match type_choice(filters) {
        Some(t) => t,
        None => Seq::empty(),
    };
    let active = inc.len() > 0 || exc.len() > 0 || (t.len() > 0 && t != "0"@);
    if query.len() == 0 && !active {
        let suffix = if page != 1 {
            decimal(page) + ".html"@
        } else {
            Seq::empty()
        };
        (BASE_URL@ + "/directory/"@ + suffix, "ul.manga-list-1-list li"@)
    } else {
        let type_value = if t.len() == 0 {
            "0"@
        } else {
            t
        };
        (
            BASE_URL@ + "/search?page="@ + decimal(page) + "&title="@ + replace_char(
                query,
                ' ',
                "+"@,
            ) + "&type="@ + type_value + "&genres="@ + join(texts(inc), ","@) + "&nogenres="@
                + join(texts(exc), ","@) + "&sort=&stype=1"@,
            "ul.manga-list-4-list li"@,
        )
    }
}

/// Choosing a type makes a search by that type: when the last `type` filter holds a
/// value other than empty or `0`, the request is a title search (even with no query
/// and no genres) whose address carries `type=<value>`, between the title and the
/// genres.
pub proof fn lemma_type_filter_searches(query: Seq<char>, page: int, filters: Seq<FilterValue>)
    requires
        type_choice(filters) matches Some(t) && t.len() > 0 && t != "0"@,
    ensures
        ({
            let (url, selector) = search_request_spec(query, page, filters);
            let t = type_choice(filters)->0;
            &&& selector == "ul.manga-list-4-list li"@
            &&& starts_with(url, BASE_URL@ + "/search?page="@)
            &&& exists|i: int| occurs_at(url, "&type="@ + t + "&genres="@, i)
        }),
{
    let t = type_choice(filters)->0;
    let (inc, exc) = match genre_choice(filters) {
        Some((i, e)) => (i, e),
        None => (Seq::empty(), Seq::empty()),
    };
    let head = BASE_URL@ + "/search?page="@;
    let a = head + decimal(page) + "&title="@ + replace_char(query, ' ', "+"@);
    let mid = "&type="@ + t + "&genres="@;
    let b = join(texts(inc), ","@) + "&nogenres="@ + join(texts(exc), ","@) + "&sort=&stype=1"@;
    let url = search_request_spec(query, page, filters).0;
    assert(url =~= a + mid + b);
    assert((a + mid + b).subrange(a.len() as int, a.len() + mid.len() as int) =~= mid);
    assert(occurs_at(url, mid, a.len() as int));
    assert(url.take(head.len() as int) =~= head);
}

/// What to fetch for a search.
pub fn search_request(query: Option<String>, page: i32, filters: &Vec<FilterValue>) -> (r:
    SearchRequest)
    ensures
        (r.url@, r.selector@) == search_request_spec(text_or_empty(query), page as int, filters@),
{
    let query = match query {
        Some(q) => q,
        None => String::new(),
    };
    let mut included: Vec<String> = Vec::new();
    let mut excluded: Vec<String> = Vec::new();
    let mut type_value = String::new();
    let mut i: usize = 0;
    assert(filters@.take(0) =~= Seq::<FilterValue>::empty());
    while i < filters.len()
        invariant
            i <= filters@.len(),
            (included@, excluded@) == (match genre_choice(filters@.take(i as int)) {
                Some((inc, exc)) => (inc, exc),
                None => (Seq::<String>::empty(), Seq::<String>::empty()),
            }),
            type_value@ == (match type_choice(filters@.take(i as int)) {
                Some(t) => t,
                None => Seq::<char>::empty(),
            }),
        decreases filters.len() - i,
    {
        assert(filters@.take(i + 1).drop_last() =~= filters@.take(i as int));
        assert(filters@.take(i + 1).last() == filters@[i as int]);
        match &filters[i] {
            FilterValue::MultiSelect { id, included: inc, excluded: exc } => {
                if str_equals(id.as_str(), "genre") {
                    included = inc.clone();
                    excluded = exc.clone();
                }
            },
            FilterValue::Select { id, value } => {
                if str_equals(id.as_str(), "type") {
                    type_value = value.clone();
                }
            },
            FilterValue::Other => {},
        }
        i = i + 1;
    }
    assert(filters@.take(filters@.len() as int) =~= filters@);
    let filters_active = included.len() > 0 || excluded.len() > 0 || (
    !type_value.as_str().is_empty() && !str_equals(type_value.as_str(), "0"));
    if query.as_str().is_empty() && !filters_active {
        let mut url = String::from_str(BASE_URL);
        url.append("/directory/");
        if page != 1 {
            url.append(decimal_string(page as i64).as_str());
            url.append(".html");
        }
        SearchRequest { url, selector: String::from_str("ul.manga-list-1-list li") }
    } else {
        let mut url = String::from_str(BASE_URL);
        url.append("/search?page=");
        url.append(decimal_string(page as i64).as_str());
        url.append("&title=");
        url.append(replace_char_str(query.as_str(), ' ', "+").as_str());
        url.append("&type=");
        if type_value.as_str().is_empty() {
            url.append("0");
        } else {
            url.append(type_value.as_str());
        }
        url.append("&genres=");
        url.append(join_str(&included, ",").as_str());
        url.append("&nogenres=");
        url.append(join_str(&excluded, ",").as_str());
        url.append("&sort=&stype=1");
        assert(included.deep_view() =~= texts(included@));
        assert(excluded.deep_view() =~= texts(excluded@));
        SearchRequest { url, selector: String::from_str("ul.manga-list-4-list li") }
    }
}

// ---------------------------------------------------------------------------
// Series details and chapters
// ---------------------------------------------------------------------------

/// The address of a series page.
pub fn page_url(key: &str) -> (r: String)
    ensures
        r@ == BASE_URL@ + key@,
{
    let mut url = String::from_str(BASE_URL);
    url.append(key);
    url
}

/// A series with the details read from its page: cover (kept when missing),
/// authors, genres, summary and status label; read right to left.
pub fn update_details(
    manga: Manga,
    url: String,
    cover: Option<String>,
    authors: Option<Vec<String>>,
    tags: Option<Vec<String>>,
    description: Option<String>,
    status_label: Option<String>,
) -> (r: Manga)
    ensures
        r.key == manga.key,
        r.title == manga.title,
        r.url == Some(url),
        r.cover == (match cover {
            Some(_) => cover,
            None => manga.cover,
        }),
        r.authors == authors,
        r.artists == manga.artists,
        r.tags == tags,
        r.description == description,
        r.status == keyword_status(status_label.deep_view()),
        r.update_strategy == manga.update_strategy,
        r.viewer == Viewer::RightToLeft,
        r.content_rating == ContentRating::Safe,
        r.chapters == manga.chapters,
{
    let mut m = manga;
    m.url = Some(url);
    m.cover = or_else_keep(cover, m.cover);
    m.authors = authors;
    m.tags = tags;
    m.description = description;
    m.status = status_from_label(&status_label);
    m.viewer = Viewer::RightToLeft;
    m.content_rating = ContentRating::Safe;
    m
}

/// The last of a list of texts, if any.
pub open spec fn last_text(texts: Seq<String>) -> Option<Seq<char>> {
    if texts.len() == 0 {
        None
    } else {
        Some(texts.last()@)
    }
}

/// What a chapter link becomes: keyed by its path, titled by its first text line
/// and dated by its last.
pub open spec fn link_chapter(href: Seq<char>, lines: Seq<String>, c: Chapter) -> bool {
    &&& c.key@ == site_path(href)
    &&& c.title.deep_view() == (if first_text(lines).len() == 0 {
        None
    } else {
        Some(first_text(lines))
    })
    &&& c.date_uploaded == (match last_text(lines) {
        Some(d) => calendar_date(d, "%b %d,%Y"@),
        None => None,
    })
    &&& c.url.deep_view() == Some(href)
    &&& c.chapter_number is None
    &&& c.volume_number is None
    &&& c.scanlators is None
    &&& c.language is None
}

/// A chapter from a link of the chapter list: its address and the texts of its
/// lines.  Links without an address give none.
pub fn chapter_from_link(href: Option<String>, lines: &Vec<String>) -> (r: Option<Chapter>)
    ensures
        match href {
            Some(h) => r matches Some(c) && link_chapter(h@, lines@, c),
            None => r is None,
        },
{
    let h = match href {
        Some(h) => h,
        None => {
            return None;
        },
    };
    let mut c = new_chapter(strip_domain(h.as_str()));
    c.title = non_empty(first_or_empty(lines));
    c.date_uploaded = if lines.len() == 0 {
        None
    } else {
        parse_date(lines[lines.len() - 1].as_str())
    };
    c.url = Some(h);
    Some(c)
}

/// The address of a chapter on the mobile reader, which shows every page.
pub open spec fn reader_url_spec(key: Seq<char>) -> Seq<char> {
    MOBILE_URL@ + replace(key, "/manga/"@, "/roll_manga/"@)
}

/// The address of a chapter on the mobile reader.
pub fn reader_url(key: &str) -> (r: String)
    ensures
        r@ == reader_url_spec(key@),
{
    let mut url = String::from_str(MOBILE_URL);
    url.append(replace_str(key, "/manga/", "/roll_manga/").as_str());
    url
}

// ---------------------------------------------------------------------------
// Deep links
// ---------------------------------------------------------------------------

/// What a link into the site points at: paths under `/manga/` are series, or
/// chapters when they end in an `.html` page.
pub open spec fn deep_link(url: Seq<char>) -> Option<LinkTarget> {
    let path = site_path(url);
    if !starts_with(path, "/manga/"@) {
        None
    } else if ends_with(path, ".html"@) {
        Some(LinkTarget::Chapter { manga_key: Seq::empty(), key: path })
    } else {
        Some(LinkTarget::Manga { key: path })
    }
}

/// What a link into the site points at, if it points at a series or a chapter.
pub fn handle_deep_link(url: &str) -> (r: Option<DeepLinkResult>)
    ensures
        link_view(r) == deep_link(url@),
{
    let path = strip_domain(url);
    if !str_starts_with(path.as_str(), "/manga/") {
        None
    } else if str_ends_with(path.as_str(), ".html") {
        Some(DeepLinkResult::Chapter { manga_key: String::new(), key: path })
    } else {
        Some(DeepLinkResult::Manga { key: path })
    }
}

/// Site links give back their keys: the link to a key under `/manga/` points at
/// that series, or at that chapter when the key ends in `.html`.
pub proof fn lemma_key_link(key: Seq<char>)
    requires
        starts_with(key, "/manga/"@),
    ensures
        deep_link(BASE_URL@ + key) == (if ends_with(key, ".html"@) {
            Some(LinkTarget::Chapter { manga_key: Seq::empty(), key })
        } else {
            Some(LinkTarget::Manga { key })
        }),
{
    lemma_strip_prefix_concat(BASE_URL@, key);
}

/// Links on the mobile site point where the desktop site's do: for a key under
/// `/manga/`, `MOBILE_URL` + key and `BASE_URL` + key name the same series or chapter.
pub proof fn lemma_mobile_link(key: Seq<char>)
    requires
        starts_with(key, "/manga/"@),
    ensures
        deep_link(MOBILE_URL@ + key) == deep_link(BASE_URL@ + key),
        deep_link(MOBILE_URL@ + key) is Some,
{
    reveal_strlit("https://fanfox.net");
    reveal_strlit("https://m.fanfox.net");
    let url = MOBILE_URL@ + key;
    lemma_strip_prefix_concat(BASE_URL@, key);
    lemma_strip_prefix_concat(MOBILE_URL@, key);
    if BASE_URL@.len() <= url.len() {
        assert(url.take(BASE_URL@.len() as int)[8] == url[8]);
        assert(url.take(BASE_URL@.len() as int)[8] != BASE_URL@[8]);
    }
    assert(strip_prefix(url, BASE_URL@) is None);
}

} // verus!
