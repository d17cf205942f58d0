//! MangaFreak (mangafreak.me): an HTML catalogue browsed by a genre ranking and
//! searched by name.

use vstd::prelude::*;
use crate::common::{
    entry, first_or_empty, first_text, non_empty, number_text, number_text_of, or_else_keep,
    text_or_empty,
};
use crate::date::{calendar_date, parse_calendar_date};
use crate::model::{
    link_view, listing_defaults, new_chapter, strategy_for, update_strategy_for, Chapter, ChapterNumber,
    ContentRating, DeepLinkResult, LinkTarget, Manga, MangaPageResult, MangaStatus, Viewer,
};
use crate::text::{
    decimal, decimal_string, lemma_strip_prefix_concat, replace_char, replace_char_str,
    starts_with, str_equals, str_starts_with, str_strip_prefix, strip_prefix, trim, trim_str,
};

verus! {

/// The site's address.
pub const BASE_URL: &'static str = "https://ww2.mangafreak.me";

/// The chapter number in a chapter name, as text to be read as a number: from its
/// first digit, the digits and points that follow.
pub fn parse_chapter_number(name: &str) -> (r: ChapterNumber)
    ensures
        r matches ChapterNumber::Text(t) && t@ == number_text(name@),
{
    ChapterNumber::Text(number_text_of(name))
}

/// The upload date of a chapter, such as "2024/01/05".
pub fn parse_date(text: &str) -> (r: Option<i64>)
    ensures
        r == calendar_date(text@, "%Y/%m/%d"@),
{
    parse_calendar_date(text, "%Y/%m/%d")
}

/// A catalogue entry from a result item: its link's `href`, the link's text and
/// the item's image.  Items without a link address give none.
pub fn parse_entry(href: Option<String>, title: Option<String>, cover: Option<String>) -> (r:
    Option<Manga>)
    ensures
        match href {
            Some(h) => r matches Some(m) && m.key == h && m.title@ == text_or_empty(title)
                && m.cover == cover && m.description is None && listing_defaults(m),
            None => r is None,
        },
{
    match href {
        Some(h) => Some(entry(h, title, cover)),
        None => None,
    }
}

/// The address to fetch for a search: without a query, a page of the ranking of
/// all genres; otherwise the results for the query, with spaces as underscores.
pub open spec fn search_url_spec(query: Seq<char>, page: int) -> Seq<char> {
    if query.len() == 0 {
        BASE_URL@ + "/Genre/All/"@ + decimal(page)
    } else {
        BASE_URL@ + "/Find/"@ + replace_char(query, ' ', "_"@)
    }
}

/// The address to fetch for a search.
pub fn search_url(query: Option<String>, page: i32) -> (r: String)
    ensures
        r@ == search_url_spec(text_or_empty(query), page as int),
{
    let query = match query {
        Some(q) => q,
        None => String::new(),
    };
    let mut url = String::from_str(BASE_URL);
    if query.as_str().is_empty() {
        url.append("/Genre/All/");
        url.append(decimal_string(page as i64).as_str());
    } else {
        url.append("/Find/");
        url.append(replace_char_str(query.as_str(), ' ', "_").as_str());
    }
    url
}

/// Where a search's results stand on the page: the selector of the result items
/// and, within each, of its link.  Browsing the ranking (no query) lists ranking
/// items; a search by name lists series and author results.
pub open spec fn search_selectors_spec(query: Seq<char>) -> (Seq<char>, Seq<char>) {
    if query.len() == 0 {
        ("div.ranking_item"@, "a"@)
    } else {
        ("div.manga_search_item, div.mangaka_search_item"@, "h3 a, h5 a"@)
    }
}

/// Where a search's results stand on the page.
pub fn search_selectors(query: &Option<String>) -> (r: (String, String))
    ensures
        (r.0@, r.1@) == search_selectors_spec(text_or_empty(*query)),
{
    let browsing = match query {
        Some(q) => q.as_str().is_empty(),
        None => true,
    };
    if browsing {
        (String::from_str("div.ranking_item"), String::from_str("a"))
    } else {
        (
            String::from_str("div.manga_search_item, div.mangaka_search_item"),
            String::from_str("h3 a, h5 a"),
        )
    }
}

/// A page of search results: the entries listed, with a next page only when
/// browsing the ranking (no query) and the page links to a following one; a search
/// by name lists everything on one page.
pub fn search_page(query: &Option<String>, entries: Vec<Manga>, next_link: bool) -> (r:
    MangaPageResult)
    ensures
        r.entries@ == entries@,
        r.has_next_page == (text_or_empty(*query).len() == 0 && next_link),
{
    let browsing = match query {
        Some(q) => q.as_str().is_empty(),
        None => true,
    };
    MangaPageResult { entries, has_next_page: browsing && next_link }
}

/// The address of a series or chapter page.
pub fn page_url(key: &str) -> (r: String)
    ensures
        r@ == BASE_URL@ + key@,
{
    let mut url = String::from_str(BASE_URL);
    url.append(key);
    url
}

/// The trimmed `i`-th value of the series data block, if there is one.
pub open spec fn data_value(data: Seq<String>, i: int) -> Option<Seq<char>> {
    if 0 <= i < data.len() {
        Some(trim(data[i]@))
    } else {
        None
    }
}

/// The status the data block names in its third value.
pub open spec fn data_status(data: Seq<String>) -> MangaStatus {
    match data_value(data, 2) {
        Some(s) => if s == "ON-GOING"@ {
            MangaStatus::Ongoing
        } else if s == "COMPLETED"@ {
            MangaStatus::Completed
        } else {
            MangaStatus::Unknown
        },
        None => MangaStatus::Unknown,
    }
}

/// The one name the data block gives in its `i`-th value, when it is not blank.
pub open spec fn data_name(data: Seq<String>, i: int) -> Option<Seq<Seq<char>>> {
    match data_value(data, i) {
        Some(s) => if s.len() > 0 {
            Some(seq![s])
        } else {
            None
        },
        None => None,
    }
}

/// The one name in the `i`-th value of the data block, when it is not blank.
fn name_at(data: &Vec<String>, i: usize) -> (r: Option<Vec<String>>)
    ensures
        r.deep_view() == data_name(data@, i as int),
{
    if i < data.len() {
        let t = trim_str(data[i].as_str());
        if t.as_str().is_empty() {
            None
        } else {
            let mut v = Vec::new();
            v.push(t);
            assert(v.deep_view() =~= seq![trim(data@[i as int]@)]);
            Some(v)
        }
    } else {
        None
    }
}

/// A series with the details read from its page: heading (kept when missing),
/// cover (kept when missing), the data block's values in their fixed order
/// (status flag, release, status, author, artist), genres and summary.
pub fn update_details(
    manga: Manga,
    url: String,
    title: Option<String>,
    cover: Option<String>,
    data: &Vec<String>,
    tags: Option<Vec<String>>,
    description: Option<String>,
) -> (r: Manga)
    ensures
        r.key == manga.key,
        r.url == Some(url),
        r.title == (match title {
            Some(t) => t,
            None => manga.title,
        }),
        r.cover == (match cover {
            Some(_) => cover,
            None => manga.cover,
        }),
        r.status == data_status(data@),
        r.authors.deep_view() == data_name(data@, 3),
        r.artists.deep_view() == data_name(data@, 4),
        r.tags == tags,
        r.description == description,
        r.update_strategy == strategy_for(r.status),
        r.viewer == Viewer::RightToLeft,
        r.content_rating == ContentRating::Safe,
        r.chapters == manga.chapters,
{
    let mut m = manga;
    m.url = Some(url);
    if let Some(t) = title {
        m.title = t;
    }
    m.cover = or_else_keep(cover, m.cover);
    m.status = if data.len() > 2 {
        let s = trim_str(data[2].as_str());
        if str_equals(s.as_str(), "ON-GOING") {
            MangaStatus::Ongoing
        } else if str_equals(s.as_str(), "COMPLETED") {
            MangaStatus::Completed
        } else {
            MangaStatus::Unknown
        }
    } else {
        MangaStatus::Unknown
    };
    m.authors = name_at(data, 3);
    m.artists = name_at(data, 4);
    m.tags = tags;
    m.description = description;
    m.update_strategy = update_strategy_for(m.status);
    m.viewer = Viewer::RightToLeft;
    m.content_rating = ContentRating::Safe;
    m
}

/// The second of a list of texts, if any.
pub open spec fn second_text(texts: Seq<String>) -> Option<Seq<char>> {
    if texts.len() > 1 {
        Some(texts[1]@)
    } else {
        None
    }
}

/// What a row of the chapter table becomes: keyed by its link's `href`, named by
/// its first cell and dated by its second.
pub open spec fn row_chapter(href: String, abs_href: Option<String>, cells: Seq<String>, c: Chapter) -> bool {
    &&& c.key == href
    &&& c.chapter_number matches Some(ChapterNumber::Text(t)) && t@ == number_text(first_text(cells))
    &&& c.title.deep_view() == (if first_text(cells).len() == 0 {
        None
    } else {
        Some(first_text(cells))
    })
    &&& c.date_uploaded == (match second_text(cells) {
        Some(d) => calendar_date(d, "%Y/%m/%d"@),
        None => None,
    })
    &&& c.url == abs_href
    &&& c.volume_number is None
    &&& c.scanlators is None
    &&& c.language is None
}

/// A chapter from a row of the chapter table: its link's `href` and absolute
/// address and the texts of its cells.  Rows without a link address give none.
pub fn chapter_from_row(href: Option<String>, abs_href: Option<String>, cells: &Vec<String>) -> (r:
    Option<Chapter>)
    ensures
        match href {
            Some(h) => r matches Some(c) && row_chapter(h, abs_href, cells@, c),
            None => r is None,
        },
{
    let h = match href {
        Some(h) => h,
        None => {
            return None;
        },
    };
    let name = first_or_empty(cells);
    let mut c = new_chapter(h);
    c.chapter_number = Some(parse_chapter_number(name.as_str()));
    c.title = non_empty(name);
    c.date_uploaded = if cells.len() > 1 {
        parse_date(cells[1].as_str())
    } else {
        None
    };
    c.url = abs_href;
    Some(c)
}

/// A row of the chapter table: its link's `href` and absolute address, when the row
/// has a link, and the texts of its cells.
pub struct ChapterRow {
    pub href: Option<String>,
    pub abs_href: Option<String>,
    pub cells: Vec<String>,
}

/// The rows of the chapter table that have a link address, in table order.
pub open spec fn linked_rows(rows: Seq<ChapterRow>) -> Seq<ChapterRow>
    decreases rows.len(),
{
    if rows.len() == 0 {
        Seq::empty()
    } else {
        let earlier = linked_rows(rows.drop_last());
        if rows.last().href is Some {
            earlier.push(rows.last())
        } else {
            earlier
        }
    }
}

/// A copy of an optional text.
fn copy_text(text: &Option<String>) -> (r: Option<String>)
    ensures
        r == *text,
{
    match text {
        Some(t) => Some(t.clone()),
        None => None,
    }
}

/// The chapter list of a series page: one chapter per row with a link address, in
/// the table's order.  The page lists the newest chapter first and the oldest last,
/// which is the order the list is shown in.
pub fn chapters_from_rows(rows: &Vec<ChapterRow>) -> (r: Vec<Chapter>)
    ensures
        r@.len() == linked_rows(rows@).len(),
        forall|i: int|
            0 <= i < r@.len() ==> {
                let row = #[trigger] linked_rows(rows@)[i];
                row_chapter(row.href->0, row.abs_href, row.cells@, r@[i])
            },
{
    let mut r: Vec<Chapter> = Vec::new();
    let mut i: usize = 0;
    assert(rows@.take(0) =~= Seq::<ChapterRow>::empty());
    while i < rows.len()
        invariant
            i <= rows@.len(),
            r@.len() == linked_rows(rows@.take(i as int)).len(),
            forall|j: int|
                0 <= j < r@.len() ==> {
                    let row = #[trigger] linked_rows(rows@.take(i as int))[j];
                    row_chapter(row.href->0, row.abs_href, row.cells@, r@[j])
                },
        decreases rows.len() - i,
    {
        let row = &rows[i];
        let ghost seen = rows@.take(i as int);
        let ghost upto = rows@.take(i + 1);
        assert(upto.drop_last() =~= seen);
        assert(upto.last() == rows@[i as int]);
        match chapter_from_row(copy_text(&row.href), copy_text(&row.abs_href), &row.cells) {
            Some(c) => {
                assert(linked_rows(upto) == linked_rows(seen).push(rows@[i as int]));
                r.push(c);
            },
            None => {
                assert(linked_rows(upto) == linked_rows(seen));
            },
        }
        i = i + 1;
    }
    assert(rows@.take(rows@.len() as int) =~= rows@);
    r
}

/// What a link into the site points at: `/Manga/...` is a series, `/Read...` a
/// chapter.
pub open spec fn deep_link(url: Seq<char>) -> Option<LinkTarget> {
    match strip_prefix(url, BASE_URL@) {
        Some(path) => if starts_with(path, "/Manga/"@) {
            Some(LinkTarget::Manga { key: path })
        } else if starts_with(path, "/Read"@) {
            Some(LinkTarget::Chapter { manga_key: Seq::empty(), key: path })
        } else {
            None
        },
        None => None,
    }
}

/// What a link into the site points at, if it points at a series or a chapter.
pub fn handle_deep_link(url: &str) -> (r: Option<DeepLinkResult>)
    ensures
        link_view(r) == deep_link(url@),
{
    let path = match str_strip_prefix(url, BASE_URL) {
        Some(path) => path,
        None => {
            return None;
        },
    };
    if str_starts_with(path.as_str(), "/Manga/") {
        Some(DeepLinkResult::Manga { key: path })
    } else if str_starts_with(path.as_str(), "/Read") {
        Some(DeepLinkResult::Chapter { manga_key: String::new(), key: path })
    } else {
        None
    }
}

/// Site links give back their keys: the link to a series key under `/Manga/`
/// points at that series.
pub proof fn lemma_series_link(key: Seq<char>)
    requires
        starts_with(key, "/Manga/"@),
    ensures
        deep_link(BASE_URL@ + key) == Some(LinkTarget::Manga { key }),
{
    lemma_strip_prefix_concat(BASE_URL@, key);
}

/// Site links give back their keys: the link to a chapter key under `/Read`
/// points at that chapter.
pub proof fn lemma_chapter_link(key: Seq<char>)
    requires
        starts_with(key, "/Read"@),
    ensures
        deep_link(BASE_URL@ + key) == Some(LinkTarget::Chapter { manga_key: Seq::empty(), key }),
{
    lemma_strip_prefix_concat(BASE_URL@, key);
    reveal_strlit("/Read");
    reveal_strlit("/Manga/");
    assert(key.take(5) == "/Read"@);
    assert(key[1] == key.take(5)[1]);
    if starts_with(key, "/Manga/"@) {
        assert(key[1] == key.take(7)[1]);
    }
}

} // verus!
