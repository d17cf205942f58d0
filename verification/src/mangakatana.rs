//! MangaKatana (mangakatana.com): an HTML catalogue whose reader lists the page
//! images in an inline script.

use vstd::prelude::*;
use crate::common::{
    keyword_status, lowercase, non_empty, number_text, number_text_of, or_else_keep,
    status_from_label, to_lowercase,
};
use crate::date::{calendar_date, parse_calendar_date};
use crate::model::{
    link_view, listing_defaults, new_chapter, new_manga, strategy_for, update_strategy_for, Chapter,
    ChapterNumber, ContentRating, DeepLinkResult, LinkTarget, Manga, MangaPageResult,
    Viewer,
};
use crate::text::{
    decimal, decimal_string, last_piece, last_piece_str, replace_char, replace_char_str,
    contains, find_from, lemma_find_from_is, lemma_second_piece_prefix, lemma_find_from_none, lemma_not_occurs,
    lemma_starts_with_concat, lemma_strip_prefix_concat,
    str_strip_prefix, strip_prefix,
    chars_of, find, find_from_exec, lemma_find_from, lemma_find_skip, lemma_span_is, occurs_at,
    piece_end, second_piece, skip_while, split, split_chars, starts_with, starts_with_exec,
    string_of, sub_chars, take_while,
};

verus! {

/// The site's address.
pub const BASE_URL: &'static str = "https://mangakatana.com";

/// `url` without the site's address in front (`strip_domain`).
pub open spec fn site_path(url: Seq<char>) -> Seq<char> {
    match strip_prefix(url, BASE_URL@) {
        Some(path) => path,
        None => url,
    }
}

/// `url` without the site's address in front.
pub fn strip_domain(url: &str) -> (r: String)
    ensures
        r@ == site_path(url@),
{
    match str_strip_prefix(url, BASE_URL) {
        Some(path) => path,
        None => String::from_str(url),
    }
}

/// The chapter number in a chapter name such as "Chapter 10.5" or
/// "Vol.2 Chapter 7": the number text after the last `chapter`, in any case.
pub open spec fn chapter_number_text(name: Seq<char>) -> Seq<char> {
    number_text(last_piece(lowercase(name), "chapter"@))
}

/// The chapter number in a chapter name, as text to be read as a number.
pub fn parse_chapter_number(name: &str) -> (r: ChapterNumber)
    ensures
        r matches ChapterNumber::Text(t) && t@ == chapter_number_text(name@),
{
    let lower = to_lowercase(name);
    let after = last_piece_str(lower.as_str(), "chapter");
    ChapterNumber::Text(number_text_of(after.as_str()))
}

/// Matching `chapter` ignores case: two names that lowercase to the same text, such
/// as "CHAPTER 3" and "Chapter 3", give the same chapter number.
pub proof fn lemma_chapter_number_ignores_case(a: Seq<char>, b: Seq<char>)
    requires
        lowercase(a) == lowercase(b),
    ensures
        chapter_number_text(a) == chapter_number_text(b),
{
}

/// The upload date in a chapter row, such as "Jan-05-2024".
pub fn parse_date(text: &str) -> (r: Option<i64>)
    ensures
        r == calendar_date(text@, "%b-%d-%Y"@),
{
    parse_calendar_date(text, "%b-%d-%Y")
}

// ---------------------------------------------------------------------------
// Searching
// ---------------------------------------------------------------------------

/// The address of a page of the catalogue, or of a search by book name.
pub open spec fn search_url_spec(query: Seq<char>, page: int) -> Seq<char> {
    if query.len() == 0 {
        BASE_URL@ + "/manga/page/"@ + decimal(page)
    } else {
        BASE_URL@ + "/page/"@ + decimal(page) + "?search="@ + replace_char(query, ' ', "+"@)
            + "&search_by=book_name"@
    }
}

/// The address of a page of the catalogue (no query) or of a search.
pub fn search_url(query: Option<String>, page: i32) -> (r: String)
    ensures
        r@ == search_url_spec(
            match query {
                Some(q) => q@,
                None => Seq::empty(),
            },
            page as int,
        ),
{
    let query = match query {
        Some(q) => q,
        None => String::new(),
    };
    let mut url = String::from_str(BASE_URL);
    if query.as_str().is_empty() {
        url.append("/manga/page/");
        url.append(decimal_string(page as i64).as_str());
    } else {
        url.append("/page/");
        url.append(decimal_string(page as i64).as_str());
        url.append("?search=");
        url.append(replace_char_str(query.as_str(), ' ', "+").as_str());
        url.append("&search_by=book_name");
    }
    url
}

/// A catalogue entry from a result item: the link's address, its own text and
/// the item's cover image.  Items without a link address give none.
pub fn parse_list_entry(href: Option<String>, title: Option<String>, cover: Option<String>) -> (r:
    Option<Manga>)
    ensures
        match href {
            Some(h) => r matches Some(m) && m.key@ == site_path(h@) && m.title@ == (match title {
                Some(t) => t@,
                None => Seq::empty(),
            }) && m.cover == cover && m.description is None && listing_defaults(m),
            None => r is None,
        },
{
    match href {
        Some(h) => {
            let mut m = new_manga(
                strip_domain(h.as_str()),
                match title {
                    Some(t) => t,
                    None => String::new(),
                },
            );
            m.cover = cover;
            Some(m)
        },
        None => None,
    }
}

/// The entry a search gives when it lands directly on a series page: its heading,
/// its canonical address (or else its `og:url`) and its cover.  Pages without a
/// heading or an address give none.
pub fn single_result(
    title: Option<String>,
    canonical: Option<String>,
    og_url: Option<String>,
    cover: Option<String>,
) -> (r: Option<Manga>)
    ensures
        match (title, or_spec(canonical, og_url)) {
            (Some(t), Some(u)) => r matches Some(m) && m.title == t && m.key@ == site_path(u@)
                && m.cover == cover && m.description is None && listing_defaults(m),
            _ => r is None,
        },
{
    let title = match title {
        Some(t) => t,
        None => {
            return None;
        },
    };
    let address = match or_else_keep(canonical, og_url) {
        Some(u) => u,
        None => {
            return None;
        },
    };
    let mut m = new_manga(strip_domain(address.as_str()), title);
    m.cover = cover;
    Some(m)
}

/// `a` when it holds a value, else `b`.
pub open spec fn or_spec<T>(a: Option<T>, b: Option<T>) -> Option<T> {
    match a {
        Some(_) => a,
        None => b,
    }
}

/// A page of search results: the listed entries and whether a next-page link was
/// found; when nothing is listed but the search landed on a series page, that
/// series alone, with no next page.
pub fn search_results(entries: Vec<Manga>, single: Option<Manga>, next_link: bool) -> (r:
    MangaPageResult)
    ensures
        entries@.len() == 0 && single is Some ==> r.entries@ == seq![single->0]
            && !r.has_next_page,
        !(entries@.len() == 0 && single is Some) ==> r.entries@ == entries@ && r.has_next_page
            == next_link,
{
    if entries.len() == 0 {
        if let Some(m) = single {
            let mut v = Vec::new();
            v.push(m);
            return MangaPageResult { entries: v, has_next_page: false };
        }
    }
    MangaPageResult { entries, has_next_page: next_link }
}

// ---------------------------------------------------------------------------
// Series details and chapters
// ---------------------------------------------------------------------------

/// The address of a series or chapter page.
pub fn page_url(key: &str) -> (r: String)
    ensures
        r@ == BASE_URL@ + key@,
{
    let mut url = String::from_str(BASE_URL);
    url.append(key);
    url
}

/// A series with the details read from its page: its heading (kept when missing),
/// cover (kept when missing), authors, summary, genres and status label.
pub fn update_details(
    manga: Manga,
    url: String,
    title: Option<String>,
    cover: Option<String>,
    authors: Option<Vec<String>>,
    description: Option<String>,
    tags: Option<Vec<String>>,
    status_label: Option<String>,
) -> (r: Manga)
    ensures
        r.key == manga.key,
        r.url == Some(url),
        r.title == (match title {
            Some(t) => t,
            None => manga.title,
        }),
        r.cover == or_spec(cover, manga.cover),
        r.authors == authors,
        r.artists == manga.artists,
        r.description == description,
        r.tags == tags,
        r.status == keyword_status(status_label.deep_view()),
        r.update_strategy == strategy_for(r.status),
        r.viewer == Viewer::RightToLeft,
        r.content_rating == ContentRating::Safe,
        r.chapters == manga.chapters,
{
    let mut m = manga;
    m.url = Some(url);
    if let Some(t) = title {
        m.title = t;
    }
    m.cover = or_else_keep(cover, m.cover);
    m.authors = authors;
    m.description = description;
    m.tags = tags;
    m.status = status_from_label(&status_label);
    m.update_strategy = update_strategy_for(m.status);
    m.viewer = Viewer::RightToLeft;
    m.content_rating = ContentRating::Safe;
    m
}

/// A chapter from a row of the chapter table: its link's address and text, and its
/// upload time text.  Rows without a link address give none.
pub fn chapter_from_row(href: Option<String>, name: Option<String>, date: Option<String>) -> (r:
    Option<Chapter>)
    ensures
        match href {
            Some(h) => r matches Some(c) && {
                &&& c.key@ == site_path(h@)
                &&& c.url == Some(h)
                &&& (c.chapter_number matches Some(ChapterNumber::Text(t)) && t@
                    == chapter_number_text(name_or_empty(name)))
                &&& c.title.deep_view() == (if name_or_empty(name).len() == 0 {
                    None
                } else {
                    Some(name_or_empty(name))
                })
                &&& c.date_uploaded == (match date {
                    Some(d) => calendar_date(d@, "%b-%d-%Y"@),
                    None => None,
                })
                &&& c.volume_number is None
                &&& c.scanlators is None
                &&& c.language is None
            },
            None => r is None,
        },
{
    let h = match href {
        Some(h) => h,
        None => {
            return None;
        },
    };
    let name = match name {
        Some(n) => n,
        None => String::new(),
    };
    let mut c = new_chapter(strip_domain(h.as_str()));
    c.chapter_number = Some(parse_chapter_number(name.as_str()));
    c.title = non_empty(name);
    c.date_uploaded = match date {
        Some(d) => parse_date(d.as_str()),
        None => None,
    };
    c.url = Some(h);
    Some(c)
}

/// The text of an optional name, empty when missing.
pub open spec fn name_or_empty(name: Option<String>) -> Seq<char> {
    match name {
        Some(n) => n@,
        None => Seq::empty(),
    }
}

/// The address of a chapter's reader page, on the image server chosen in the
/// settings when one is chosen.
pub fn reader_url(key: &str, server: &str) -> (r: String)
    ensures
        r@ == BASE_URL@ + key@ + (if server@.len() == 0 {
            Seq::empty()
        } else {
            "?sv="@ + server@
        }),
{
    let mut url = String::from_str(BASE_URL);
    url.append(key);
    if !server.is_empty() {
        url.append("?sv=");
        url.append(server);
    }
    url
}

// ---------------------------------------------------------------------------
// Page images from the reader's script
// ---------------------------------------------------------------------------

/// Whether `char::is_alphanumeric` holds of `c`.
pub uninterp spec fn alphanumeric(c: char) -> bool;

/// Calls `char::is_alphanumeric` (Unicode `Alphabetic` or `Numeric`).  Claims only
/// that the result is a function of the character.
#[verifier::external_body]
fn char_is_alphanumeric(c: char) -> (b: bool)
    ensures
        b == alphanumeric(c),
{
    c.is_alphanumeric()
}

/// A character that may appear in a script identifier.
pub open spec fn ident_char(c: char) -> bool {
    alphanumeric(c) || c == '_'
}

/// The name of the script variable that holds the page list: the identifier after
/// the first `data-src'` of the script (up to the next `data-src'`).
pub open spec fn page_array_name(script: Seq<char>) -> Option<Seq<char>> {
    match second_piece(script, "data-src'"@) {
        Some(after) => Some(
            take_while(skip_while(after, |c: char| !ident_char(c)), |c: char| ident_char(c)),
        ),
        None => None,
    }
}

/// The text between the first `[` of `decl` and the first `]` after it.
pub open spec fn bracketed(decl: Seq<char>) -> Option<Seq<char>> {
    match find(decl, "["@) {
        Some(open) => match find(decl.skip(open), "]"@) {
            Some(close) => Some(decl.subrange(open + 1, open + close)),
            None => None,
        },
        None => None,
    }
}

/// Whether a piece of the page list is a link: it starts with `http`.
pub open spec fn is_link() -> spec_fn(Seq<char>) -> bool {
    |piece: Seq<char>| starts_with(piece, "http"@)
}

/// The pieces of `list` that start with `http`.
pub open spec fn links(list: Seq<Seq<char>>) -> Seq<Seq<char>> {
    list.filter(is_link())
}

/// The page image urls of a reader page: the single-quoted `http` items of the
/// array literal assigned to the variable that the script reads `data-src` from.
pub open spec fn page_urls(script: Seq<char>) -> Seq<Seq<char>> {
    match page_array_name(script) {
        Some(name) => if name.len() == 0 {
            Seq::empty()
        } else {
            match second_piece(script, "var "@ + name) {
                Some(decl) => match bracketed(decl) {
                    Some(content) => links(split(content, "'"@)),
                    None => Seq::empty(),
                },
                None => Seq::empty(),
            }
        },
        None => Seq::empty(),
    }
}

/// The pages come from the declaration of the array that `data-src` reads, not from
/// whatever the script declares first: text put in front of a reader script, in which
/// neither `data-src'` nor the declaration `var <name>` of that array starts, leaves
/// the pages as they were, even when it declares other arrays of links.
pub proof fn lemma_pages_ignore_earlier_text(pre: Seq<char>, script: Seq<char>)
    requires
        forall|j: int| 0 <= j < pre.len() ==> !occurs_at(pre + script, "data-src'"@, j),
        page_array_name(script) matches Some(name) ==> forall|j: int|
            0 <= j < pre.len() ==> !occurs_at(pre + script, "var "@ + name, j),
    ensures
        page_urls(pre + script) == page_urls(script),
{
    lemma_second_piece_prefix(pre, script, "data-src'"@);
    match page_array_name(script) {
        Some(name) => {
            lemma_second_piece_prefix(pre, script, "var "@ + name);
        },
        None => {},
    }
}

/// The identifier in `v[from..to]` after its leading non-identifier characters:
/// its bounds.
fn ident_bounds(v: &Vec<char>, from: usize, to: usize) -> (r: (usize, usize))
    requires
        from <= to <= v.len(),
    ensures
        from <= r.0 <= r.1 <= to,
        v@.subrange(r.0 as int, r.1 as int) == take_while(
            skip_while(v@.subrange(from as int, to as int), |c: char| !ident_char(c)),
            |c: char| ident_char(c),
        ),
{
    let ghost t = v@.subrange(from as int, to as int);
    let ghost f = |c: char| !ident_char(c);
    let ghost g = |c: char| ident_char(c);
    let mut a = from;
    while a < to && !(char_is_alphanumeric(v[a]) || v[a] == '_')
        invariant
            from <= a <= to <= v.len(),
            forall|j: int| from <= j < a ==> !ident_char(#[trigger] v@[j]),
        decreases to - a,
    {
        a = a + 1;
    }
    proof {
        assert forall|j: int| 0 <= j < a - from implies f(t[j]) by {
            assert(t[j] == v@[from + j]);
        }
        if a < to {
            assert(t[a - from] == v@[a as int]);
        }
        lemma_span_is(t, f, a - from);
    }
    let mut b = a;
    while b < to && (char_is_alphanumeric(v[b]) || v[b] == '_')
        invariant
            a <= b <= to <= v.len(),
            forall|j: int| a <= j < b ==> ident_char(#[trigger] v@[j]),
        decreases to - b,
    {
        b = b + 1;
    }
    proof {
        let u = t.skip(a - from);
        assert(u =~= v@.subrange(a as int, to as int));
        assert forall|j: int| 0 <= j < b - a implies g(u[j]) by {
            assert(u[j] == v@[a + j]);
        }
        if b < to {
            assert(u[b - a] == v@[b as int]);
        }
        lemma_span_is(u, g, b - a);
        assert(u.take(b - a) =~= v@.subrange(a as int, b as int));
    }
    (a, b)
}

/// The second piece of `v` split on `p`, as bounds into `v`.
fn second_piece_bounds(v: &Vec<char>, p: &Vec<char>) -> (r: Option<(usize, usize)>)
    ensures
        match r {
            Some((a, b)) => a <= b <= v.len() && second_piece(v@, p@) == Some(
                v@.subrange(a as int, b as int),
            ),
            None => second_piece(v@, p@) is None,
        },
{
    proof {
        lemma_find_from(v@, p@, 0);
    }
    match find_from_exec(v, p, 0) {
        Some(i) => {
            assert(occurs_at(v@, p@, i as int));
            assert(i + p.len() <= v.len());
            let k = i + p.len();
            let (e, _) = piece_end(v, p, k);
            Some((k, e))
        },
        None => None,
    }
}

/// The pieces of `list` that start with `http`.
fn keep_links(list: Vec<String>) -> (r: Vec<String>)
    ensures
        r.deep_view() == links(list.deep_view()),
{
    let http = chars_of("http");
    let mut r: Vec<String> = Vec::new();
    let mut i: usize = 0;
    assert(list.deep_view().take(0) =~= Seq::<Seq<char>>::empty());
    proof {
        reveal_with_fuel(Seq::filter, 1);
    }
    while i < list.len()
        invariant
            i <= list.len(),
            http@ == "http"@,
            r.deep_view() == list.deep_view().take(i as int).filter(is_link()),
        decreases list.len() - i,
    {
        let piece = chars_of(list[i].as_str());
        proof {
            reveal_with_fuel(Seq::filter, 1);
            assert(list.deep_view().take(i + 1).drop_last() =~= list.deep_view().take(i as int));
            assert(list.deep_view().take(i + 1).last() == list@[i as int]@);
        }
        let keep = starts_with_exec(&piece, &http);
        let ghost x = list.deep_view()[i as int];
        assert(x == list@[i as int]@);
        assert(piece@ == x);
        assert(keep == starts_with(x, "http"@));
        assert(keep == is_link()(x));
        let ghost before = r.deep_view();
        if keep {
            r.push(list[i].clone());
            assert(r.deep_view() =~= before.push(x));
        }
        assert(list.deep_view().take(i + 1).filter(is_link()) == (if is_link()(x) {
            before.push(x)
        } else {
            before
        }));
        i = i + 1;
    }
    assert(list.deep_view().take(list.len() as int) =~= list.deep_view());
    r
}

/// The page image urls listed in the script of a reader page.
pub fn extract_pages(script: &str) -> (r: Vec<String>)
    ensures
        r.deep_view() == page_urls(script@),
{
    let v = chars_of(script);
    let marker = chars_of("data-src'");
    let (k, e) = match second_piece_bounds(&v, &marker) {
        Some(bounds) => bounds,
        None => {
            return Vec::new();
        },
    };
    let (a, b) = ident_bounds(&v, k, e);
    if a == b {
        return Vec::new();
    }
    let mut decl_name = String::from_str("var ");
    let name = string_of(&v, a, b);
    decl_name.append(name.as_str());
    let decl_marker = chars_of(decl_name.as_str());
    let (k2, e2) = match second_piece_bounds(&v, &decl_marker) {
        Some(bounds) => bounds,
        None => {
            return Vec::new();
        },
    };
    let decl = sub_chars(&v, k2, e2);
    let open_bracket = chars_of("[");
    let close_bracket = chars_of("]");
    proof {
        lemma_find_from(decl@, open_bracket@, 0);
    }
    let open = match find_from_exec(&decl, &open_bracket, 0) {
        Some(i) => i,
        None => {
            return Vec::new();
        },
    };
    proof {
        lemma_find_skip(decl@, close_bracket@, open as int);
        lemma_find_from(decl@, close_bracket@, open as int);
        reveal_strlit("[");
        reveal_strlit("]");
        // The `[` itself is not a `]`.
        assert(decl@[open as int] == '[') by {
            assert(decl@.subrange(open as int, open + 1) == open_bracket@);
            assert(decl@.subrange(open as int, open + 1)[0] == decl@[open as int]);
        }
        if occurs_at(decl@, close_bracket@, open as int) {
            assert(decl@.subrange(open as int, open + 1)[0] == decl@[open as int]);
        }
    }
    let close = match find_from_exec(&decl, &close_bracket, open) {
        Some(j) => j,
        None => {
            return Vec::new();
        },
    };
    assert(close > open);
    let content = sub_chars(&decl, open + 1, close);
    let quote = chars_of("'");
    let pieces = split_chars(&content, &quote);
    keep_links(pieces)
}

// ---------------------------------------------------------------------------
// Deep links
// ---------------------------------------------------------------------------

/// What a link into the site points at.  Series pages are `/manga/<slug>.<id>`;
/// a chapter page adds `/c<n>` after the slug, and the series is the part before
/// the first `/c` that follows `/manga/`.
pub open spec fn deep_link(url: Seq<char>) -> Option<LinkTarget> {
    match strip_prefix(url, BASE_URL@) {
        Some(path) => if starts_with(path, "/manga/"@) {
            match find_from(path, "/c"@, "/manga/"@.len() as int) {
                Some(i) => Some(LinkTarget::Chapter { manga_key: path.take(i), key: path }),
                None => Some(LinkTarget::Manga { key: path }),
            }
        } else {
            None
        },
        None => None,
    }
}

/// What a link into the site points at, if it points at a series or a chapter.
pub fn handle_deep_link(url: &str) -> (r: Option<DeepLinkResult>)
    ensures
        link_view(r) == deep_link(url@),
{
    let path = match str_strip_prefix(url, BASE_URL) {
        Some(path) => path,
        None => {
            return None;
        },
    };
    let pv = chars_of(path.as_str());
    let dir = chars_of("/manga/");
    if !starts_with_exec(&pv, &dir) {
        return None;
    }
    match find_from_exec(&pv, &chars_of("/c"), dir.len()) {
        Some(i) => {
            proof {
                lemma_find_from(pv@, "/c"@, dir@.len() as int);
            }
            let manga_key = string_of(&pv, 0, i);
            assert(pv@.subrange(0, i as int) =~= pv@.take(i as int));
            Some(DeepLinkResult::Chapter { manga_key, key: path })
        },
        None => Some(DeepLinkResult::Manga { key: path }),
    }
}

/// No occurrence of `/c` starts inside a slug without `/` that follows `/manga/`.
proof fn lemma_slug_holds_no_chapter(key: Seq<char>, slug: Seq<char>, j: int)
    requires
        key.take(7) == "/manga/"@,
        key.len() >= 7 + slug.len(),
        key.subrange(7, 7 + slug.len() as int) == slug,
        forall|k: int| 0 <= k < slug.len() ==> slug[k] != '/',
        7 <= j < 7 + slug.len(),
    ensures
        !occurs_at(key, "/c"@, j),
{
    reveal_strlit("/c");
    assert(key[j] == key.subrange(7, 7 + slug.len() as int)[j - 7]);
    lemma_not_occurs(key, "/c"@, j, 0);
}

/// A series link gives back the series key it was made from: for a slug without
/// `/` (such as `chainsaw-man.21427`), the link to `BASE_URL` + `/manga/` + slug
/// points at that series.
pub proof fn lemma_series_link(slug: Seq<char>)
    requires
        forall|k: int| 0 <= k < slug.len() ==> slug[k] != '/',
    ensures
        deep_link(BASE_URL@ + ("/manga/"@ + slug)) == Some(
            LinkTarget::Manga { key: "/manga/"@ + slug },
        ),
{
    reveal_strlit("/manga/");
    reveal_strlit("/c");
    let key = "/manga/"@ + slug;
    lemma_strip_prefix_concat(BASE_URL@, key);
    assert(key.take(7) =~= "/manga/"@);
    assert(key.subrange(7, 7 + slug.len() as int) =~= slug);
    assert forall|j: int| 7 <= j implies !occurs_at(key, "/c"@, j) by {
        if j < key.len() {
            lemma_slug_holds_no_chapter(key, slug, j);
        }
    }
    lemma_find_from_none(key, "/c"@, 7);
}

/// A chapter link gives back the chapter and its series: for a slug without `/`,
/// the link to `BASE_URL` + `/manga/` + slug + `/c<n>...` points at that chapter
/// of the series `/manga/` + slug.
pub proof fn lemma_chapter_link(slug: Seq<char>, rest: Seq<char>)
    requires
        forall|k: int| 0 <= k < slug.len() ==> slug[k] != '/',
        starts_with(rest, "/c"@),
    ensures
        deep_link(BASE_URL@ + ("/manga/"@ + slug + rest)) == Some(
            LinkTarget::Chapter { manga_key: "/manga/"@ + slug, key: "/manga/"@ + slug + rest },
        ),
{
    reveal_strlit("/manga/");
    reveal_strlit("/c");
    let manga_key = "/manga/"@ + slug;
    let key = manga_key + rest;
    let p = "/c"@;
    let n = manga_key.len() as int;
    lemma_strip_prefix_concat(BASE_URL@, key);
    assert(key.take(7) =~= "/manga/"@);
    assert(key.subrange(7, 7 + slug.len() as int) =~= slug);
    assert(occurs_at(key, p, n)) by {
        assert(key.subrange(n, n + 2) =~= rest.take(2));
    }
    assert forall|j: int| 7 <= j < n implies !occurs_at(key, p, j) by {
        lemma_slug_holds_no_chapter(key, slug, j);
    }
    lemma_find_from_is(key, p, 7, n);
    assert(key.take(n) =~= manga_key);
}

} // verus!
