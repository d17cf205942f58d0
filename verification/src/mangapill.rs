//! MangaPill (mangapill.com): an HTML catalogue searched from a single listing.

use vstd::prelude::*;
use crate::common::{entry, lowercase, non_empty, or_else_keep, text_or_empty, to_lowercase};
use crate::model::{
    link_view, listing_defaults, new_chapter, strategy_for, update_strategy_for, Chapter, ChapterNumber,
    ContentRating, DeepLinkResult, LinkTarget, Manga, MangaStatus, Viewer,
};
use crate::text::{
    chars_of, contains, decimal, decimal_string, is_white_space, is_white_space_exec, join,
    join_str, lemma_span, lemma_span_is, lemma_strip_prefix_concat, replace_char,
    replace_char_str, skip_while, starts_with, str_contains, str_starts_with, str_strip_prefix,
    string_of, strip_prefix, take_while,
};

verus! {

/// The site's address.
pub const BASE_URL: &'static str = "https://mangapill.com";

// ---------------------------------------------------------------------------
// Words of a chapter name
// ---------------------------------------------------------------------------

/// White space.
pub open spec fn space() -> spec_fn(char) -> bool {
    |c: char| is_white_space(c)
}

/// Anything but white space.
pub open spec fn non_space() -> spec_fn(char) -> bool {
    |c: char| !is_white_space(c)
}

/// The words of `s`: its maximal runs of characters other than white space, in
/// order (what `split_whitespace` yields).
pub open spec fn words(s: Seq<char>) -> Seq<Seq<char>>
    decreases s.len(),
{
    let t = skip_while(s, space());
    if t.len() == 0 {
        Seq::empty()
    } else {
        let w = take_while(t, non_space());
        proof {
            lemma_span(s, space());
            lemma_span(t, non_space());
        }
        seq![w] + words(t.skip(w.len() as int))
    }
}

/// The words of `v[pos..]` are the word at `a..b` followed by the words after it,
/// when `a` is the first non-space at or after `pos` and `b` the first space after `a`.
proof fn lemma_words_step(v: Seq<char>, pos: int, a: int, b: int)
    requires
        0 <= pos <= a < b <= v.len(),
        forall|j: int| pos <= j < a ==> is_white_space(#[trigger] v[j]),
        forall|j: int| a <= j < b ==> !is_white_space(#[trigger] v[j]),
        b < v.len() ==> is_white_space(v[b]),
    ensures
        words(v.skip(pos)) == seq![v.subrange(a, b)] + words(v.skip(b)),
{
    let s = v.skip(pos);
    assert forall|j: int| 0 <= j < a - pos implies space()(s[j]) by {
        assert(s[j] == v[pos + j]);
    }
    assert(s[a - pos] == v[a]);
    lemma_span_is(s, space(), a - pos);
    let t = skip_while(s, space());
    assert(t =~= v.skip(a));
    assert forall|j: int| 0 <= j < b - a implies non_space()(t[j]) by {
        assert(t[j] == v[a + j]);
    }
    if b < v.len() {
        assert(t[b - a] == v[b]);
    }
    lemma_span_is(t, non_space(), b - a);
    assert(take_while(t, non_space()) =~= v.subrange(a, b));
    assert(t.skip(b - a) =~= v.skip(b));
}

/// The words of `v[pos..]` are none when only white space is left.
proof fn lemma_words_end(v: Seq<char>, pos: int)
    requires
        0 <= pos <= v.len(),
        forall|j: int| pos <= j < v.len() ==> is_white_space(#[trigger] v[j]),
    ensures
        words(v.skip(pos)) == Seq::<Seq<char>>::empty(),
{
    let s = v.skip(pos);
    assert forall|j: int| 0 <= j < s.len() implies space()(s[j]) by {
        assert(s[j] == v[pos + j]);
    }
    lemma_span_is(s, space(), s.len() as int);
}

/// The words of a text (`split_whitespace`).
pub fn split_words(text: &str) -> (r: Vec<String>)
    ensures
        r.deep_view() == words(text@),
{
    let v = chars_of(text);
    let mut r: Vec<String> = Vec::new();
    let mut pos: usize = 0;
    assert(v@.skip(0) =~= v@);
    loop
        invariant
            pos <= v.len(),
            v@ == text@,
            r.deep_view() + words(v@.skip(pos as int)) == words(v@),
        decreases v.len() - pos,
    {
        let mut a = pos;
        while a < v.len() && is_white_space_exec(v[a])
            invariant
                pos <= a <= v.len(),
                forall|j: int| pos <= j < a ==> is_white_space(#[trigger] v@[j]),
            decreases v.len() - a,
        {
            a = a + 1;
        }
        if a == v.len() {
            proof {
                lemma_words_end(v@, pos as int);
            }
            assert(r.deep_view() + Seq::<Seq<char>>::empty() =~= r.deep_view());
            return r;
        }
        let mut b = a + 1;
        while b < v.len() && !is_white_space_exec(v[b])
            invariant
                a < b <= v.len(),
                forall|j: int| a <= j < b ==> !is_white_space(#[trigger] v@[j]),
            decreases v.len() - b,
        {
            b = b + 1;
        }
        proof {
            lemma_words_step(v@, pos as int, a as int, b as int);
        }
        let ghost before = r.deep_view();
        r.push(string_of(&v, a, b));
        assert(r.deep_view() =~= before.push(v@.subrange(a as int, b as int)));
        assert(r.deep_view() + words(v@.skip(b as int)) =~= before + words(
            v@.skip(pos as int),
        ));
        pos = b;
    }
}

/// The chapter number in a chapter name such as "Chapter 179.5": the last of its
/// words that is a number.
pub fn parse_chapter_number(name: &str) -> (r: ChapterNumber)
    ensures
        r matches ChapterNumber::LastOf(ws) && ws.deep_view() == words(name@),
{
    ChapterNumber::LastOf(split_words(name))
}

// ---------------------------------------------------------------------------
// Searching
// ---------------------------------------------------------------------------

/// A catalogue entry from a result item: its series link's `href`, its title text
/// and its image's `data-src` (or else absolute `src`).  Items without a series
/// link give none.
pub fn parse_entry(
    href: Option<String>,
    title: Option<String>,
    data_src: Option<String>,
    src: Option<String>,
) -> (r: Option<Manga>)
    ensures
        match href {
            Some(h) => r matches Some(m) && {
                &&& m.key == h
                &&& m.title@ == text_or_empty(title)
                &&& m.cover == (match data_src {
                    Some(_) => data_src,
                    None => src,
                })
                &&& m.description is None
                &&& listing_defaults(m)
            },
            None => r is None,
        },
{
    match href {
        Some(h) => Some(entry(h, title, or_else_keep(data_src, src))),
        None => None,
    }
}

/// The address of a page of search results (every series when the query is empty).
pub open spec fn search_url_spec(query: Seq<char>, page: int) -> Seq<char> {
    BASE_URL@ + "/search?page="@ + decimal(page) + "&q="@ + replace_char(query, ' ', "+"@)
}

/// The address of a page of search results.
pub fn search_url(query: Option<String>, page: i32) -> (r: String)
    ensures
        r@ == search_url_spec(text_or_empty(query), page as int),
{
    let query = match query {
        Some(q) => q,
        None => String::new(),
    };
    let mut url = String::from_str(BASE_URL);
    url.append("/search?page=");
    url.append(decimal_string(page as i64).as_str());
    url.append("&q=");
    url.append(replace_char_str(query.as_str(), ' ', "+").as_str());
    url
}

// ---------------------------------------------------------------------------
// Series details and chapters
// ---------------------------------------------------------------------------

/// The address of a series or chapter page.
pub fn page_url(key: &str) -> (r: String)
    ensures
        r@ == BASE_URL@ + key@,
{
    let mut url = String::from_str(BASE_URL);
    url.append(key);
    url
}

/// The status the information spans name, joined by spaces and read in lower case.
pub open spec fn spans_status(spans: Option<Seq<Seq<char>>>) -> MangaStatus {
    let text = lowercase(
        match spans {
            Some(s) => join(s, " "@),
            None => Seq::empty(),
        },
    );
    if contains(text, "publishing"@) {
        MangaStatus::Ongoing
    } else if contains(text, "finished"@) {
        MangaStatus::Completed
    } else if contains(text, "on hiatus"@) {
        MangaStatus::Hiatus
    } else if contains(text, "discontinued"@) {
        MangaStatus::Cancelled
    } else {
        MangaStatus::Unknown
    }
}

/// The status the information spans name.
pub fn status_from_spans(spans: &Option<Vec<String>>) -> (r: MangaStatus)
    ensures
        r == spans_status(spans.deep_view()),
{
    let joined = match spans {
        Some(s) => join_str(s, " "),
        None => String::new(),
    };
    let text = to_lowercase(joined.as_str());
    if str_contains(text.as_str(), "publishing") {
        MangaStatus::Ongoing
    } else if str_contains(text.as_str(), "finished") {
        MangaStatus::Completed
    } else if str_contains(text.as_str(), "on hiatus") {
        MangaStatus::Hiatus
    } else if str_contains(text.as_str(), "discontinued") {
        MangaStatus::Cancelled
    } else {
        MangaStatus::Unknown
    }
}

/// The non-empty texts of a list.
pub open spec fn non_empty_texts(texts: Seq<String>) -> Seq<String> {
    texts.filter(|t: String| t@.len() > 0)
}

/// The non-empty texts of a list, in order.
fn keep_non_empty(texts: Vec<String>) -> (r: Vec<String>)
    ensures
        r@ == non_empty_texts(texts@),
{
    let mut r: Vec<String> = Vec::new();
    let mut i: usize = 0;
    proof {
        reveal_with_fuel(Seq::filter, 1);
        assert(texts@.take(0) =~= Seq::<String>::empty());
    }
    while i < texts.len()
        invariant
            i <= texts@.len(),
            r@ == non_empty_texts(texts@.take(i as int)),
        decreases texts.len() - i,
    {
        proof {
            reveal_with_fuel(Seq::filter, 1);
            assert(texts@.take(i + 1).drop_last() =~= texts@.take(i as int));
            assert(texts@.take(i + 1).last() == texts@[i as int]);
        }
        if !texts[i].as_str().is_empty() {
            r.push(texts[i].clone());
        }
        i = i + 1;
    }
    assert(texts@.take(texts@.len() as int) =~= texts@);
    r
}

/// A series with the details read from its page: cover (its image's `data-src`,
/// else absolute `src`, kept when missing), summary, genre link texts (without the
/// empty ones) and information spans; read right to left.
pub fn update_details(
    manga: Manga,
    url: String,
    cover_data_src: Option<String>,
    cover_src: Option<String>,
    description: Option<String>,
    genres: Option<Vec<String>>,
    spans: Option<Vec<String>>,
) -> (r: Manga)
    ensures
        r.key == manga.key,
        r.title == manga.title,
        r.url == Some(url),
        r.cover == (match cover_data_src {
            Some(_) => cover_data_src,
            None => match cover_src {
                Some(_) => cover_src,
                None => manga.cover,
            },
        }),
        r.description == description,
        match genres {
            Some(g) => r.tags matches Some(t) && t@ == non_empty_texts(g@),
            None => r.tags is None,
        },
        r.authors == manga.authors,
        r.artists == manga.artists,
        r.status == spans_status(spans.deep_view()),
        r.update_strategy == strategy_for(r.status),
        r.viewer == Viewer::RightToLeft,
        r.content_rating == ContentRating::Safe,
        r.chapters == manga.chapters,
{
    let mut m = manga;
    m.url = Some(url);
    m.cover = or_else_keep(or_else_keep(cover_data_src, cover_src), m.cover);
    m.description = description;
    m.tags = match genres {
        Some(g) => Some(keep_non_empty(g)),
        None => None,
    };
    m.status = status_from_spans(&spans);
    m.update_strategy = update_strategy_for(m.status);
    m.viewer = Viewer::RightToLeft;
    m.content_rating = ContentRating::Safe;
    m
}

/// A chapter from a link of the chapter list: its `href`, its text and its absolute
/// address.  Links without an `href` give none.
pub fn chapter_from_link(href: Option<String>, name: Option<String>, abs_href: Option<String>) -> (r:
    Option<Chapter>)
    ensures
        match href {
            Some(h) => r matches Some(c) && {
                &&& c.key == h
                &&& (c.chapter_number matches Some(ChapterNumber::LastOf(ws)) && ws.deep_view()
                    == words(text_or_empty(name)))
                &&& c.title.deep_view() == (if text_or_empty(name).len() == 0 {
                    None
                } else {
                    Some(text_or_empty(name))
                })
                &&& c.url == abs_href
                &&& c.date_uploaded is None
                &&& c.volume_number is None
                &&& c.scanlators is None
                &&& c.language is None
            },
            None => r is None,
        },
{
    let h = match href {
        Some(h) => h,
        None => {
            return None;
        },
    };
    let name = match name {
        Some(n) => n,
        None => String::new(),
    };
    let mut c = new_chapter(h);
    c.chapter_number = Some(parse_chapter_number(name.as_str()));
    c.title = non_empty(name);
    c.url = abs_href;
    Some(c)
}

// ---------------------------------------------------------------------------
// Deep links
// ---------------------------------------------------------------------------

/// What a link into the site points at: `/manga/...` is a series, `/chapters/...`
/// a chapter.
pub open spec fn deep_link(url: Seq<char>) -> Option<LinkTarget> {
    match strip_prefix(url, BASE_URL@) {
        Some(path) => if starts_with(path, "/manga/"@) {
            Some(LinkTarget::Manga { key: path })
        } else if starts_with(path, "/chapters/"@) {
            Some(LinkTarget::Chapter { manga_key: Seq::empty(), key: path })
        } else {
            None
        },
        None => None,
    }
}

/// What a link into the site points at, if it points at a series or a chapter.
pub fn handle_deep_link(url: &str) -> (r: Option<DeepLinkResult>)
    ensures
        link_view(r) == deep_link(url@),
{
    let path = match str_strip_prefix(url, BASE_URL) {
        Some(path) => path,
        None => {
            return None;
        },
    };
    if str_starts_with(path.as_str(), "/manga/") {
        Some(DeepLinkResult::Manga { key: path })
    } else if str_starts_with(path.as_str(), "/chapters/") {
        Some(DeepLinkResult::Chapter { manga_key: String::new(), key: path })
    } else {
        None
    }
}

/// Site links give back their keys: the link to a series key under `/manga/`
/// points at that series.
pub proof fn lemma_series_link(key: Seq<char>)
    requires
        starts_with(key, "/manga/"@),
    ensures
        deep_link(BASE_URL@ + key) == Some(LinkTarget::Manga { key }),
{
    lemma_strip_prefix_concat(BASE_URL@, key);
}

/// Site links give back their keys: the link to a chapter key under `/chapters/`
/// points at that chapter.
pub proof fn lemma_chapter_link(key: Seq<char>)
    requires
        starts_with(key, "/chapters/"@),
    ensures
        deep_link(BASE_URL@ + key) == Some(LinkTarget::Chapter { manga_key: Seq::empty(), key }),
{
    lemma_strip_prefix_concat(BASE_URL@, key);
    reveal_strlit("/chapters/");
    reveal_strlit("/manga/");
    assert(key.take(10) == "/chapters/"@);
    assert(key[1] == key.take(10)[1]);
    if starts_with(key, "/manga/"@) {
        assert(key[1] == key.take(7)[1]);
    }
}

} // verus!
