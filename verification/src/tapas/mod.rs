//! Tapas (tapas.io): a webcomic platform read through its story API and web pages.

pub mod models;

use vstd::prelude::*;
use crate::common::{lowercase, text_or_empty, non_empty, or_else_keep, to_lowercase};
use crate::date::{parse_rfc3339, rfc3339_instant};
use crate::model::{
    link_view, listing_defaults, new_chapter, new_manga, Chapter, ChapterNumber, ContentRating, DeepLinkResult,
    LinkTarget, Manga, MangaPageResult, MangaStatus, Viewer,
};
use crate::tapas::models::{first_text, ChaptersResponse, EpisodeDto, MangaDto, RankingResponse};
use crate::text::{
    chars_of, contains, decimal, decimal_string, lemma_span_is,
    lemma_strip_prefix_concat, replace_char, replace_char_str, starts_with, str_contains, str_starts_with, str_strip_prefix, string_of, strip_prefix,
    take_while,
};

verus! {

/// The website's address.
pub const BASE_URL: &'static str = "https://tapas.io";

/// The story API's address.
pub const API_URL: &'static str = "https://story-api.tapas.io";

// ---------------------------------------------------------------------------
// Searching
// ---------------------------------------------------------------------------

/// The address of the ranking page shown for page `page` of the catalogue (the
/// API counts pages from 0).
pub open spec fn ranking_url_spec(page: int) -> Seq<char> {
    API_URL@ + "/cosmos/api/v1/landing/ranking?category_type=COMIC&subtab_id=17&size=25&page="@
        + decimal(page - 1)
}

/// The address of the ranking page shown for page `page` of the catalogue.
pub fn ranking_url(page: i32) -> (r: String)
    requires
        page > i32::MIN,
    ensures
        r@ == ranking_url_spec(page as int),
{
    let mut url = String::from_str(API_URL);
    url.append("/cosmos/api/v1/landing/ranking?category_type=COMIC&subtab_id=17&size=25&page=");
    url.append(decimal_string((page - 1) as i64).as_str());
    url
}

/// The key of the series with the given id.
pub open spec fn series_key(id: Seq<char>) -> Seq<char> {
    "/series/"@ + id
}

/// The key of the series with the given numeric id.
pub fn series_key_of(id: i64) -> (r: String)
    ensures
        r@ == series_key(decimal(id as int)),
{
    let mut key = String::from_str("/series/");
    key.append(decimal_string(id).as_str());
    key
}

/// Whether a ranking reply says that another page follows: unless its paging
/// information says this is the last page, with a missing flag meaning the last.
pub open spec fn ranking_has_next(response: RankingResponse) -> bool {
    match response.meta {
        Some(meta) => match meta.pagination {
            Some(p) => !p.last,
            None => false,
        },
        None => false,
    }
}

/// What a ranked series becomes as a catalogue entry.
pub open spec fn ranked(item: MangaDto, m: Manga) -> bool {
    &&& m.key@ == series_key(decimal(item.series_id as int))
    &&& m.title == item.title
    &&& m.cover.deep_view() == (match first_text(item.asset_property.book_cover_image@) {
        Some(s) => Some(s + ".png"@),
        None => None,
    })
    &&& m.description.deep_view() == (if item.description@.len() == 0 {
        None
    } else {
        Some(item.description@)
    })
    &&& listing_defaults(m)
}

/// The catalogue entry for a ranked series.
pub fn ranked_entry(item: MangaDto) -> (r: Manga)
    ensures
        ranked(item, r),
{
    let cover = item.cover();
    let mut m = new_manga(series_key_of(item.series_id), item.title);
    m.cover = cover;
    m.description = non_empty(item.description);
    m
}

/// A page of the catalogue from a ranking reply: its series in order, and whether
/// another page follows.
pub fn ranking_results(response: RankingResponse) -> (r: MangaPageResult)
    ensures
        r.has_next_page == ranking_has_next(response),
        r.entries@.len() == response.data.items@.len(),
        forall|i: int|
            0 <= i < r.entries@.len() ==> ranked(#[trigger] response.data.items@[i], r.entries@[i]),
{
    let has_next_page = match &response.meta {
        Some(meta) => match &meta.pagination {
            Some(p) => !p.last,
            None => false,
        },
        None => false,
    };
    let ghost items = response.data.items@;
    let mut rest = response.data.items;
    let mut entries: Vec<Manga> = Vec::new();
    // Take the items from the back, then restore their order.
    let mut reversed: Vec<Manga> = Vec::new();
    while rest.len() > 0
        invariant
            rest@ == items.take(rest@.len() as int),
            rest@.len() <= items.len(),
            reversed@.len() == items.len() - rest@.len(),
            forall|j: int|
                0 <= j < reversed@.len() ==> ranked(#[trigger] items[items.len() - 1 - j], reversed@[j]),
        decreases rest@.len(),
    {
        let item = rest.pop().unwrap();
        assert(rest@ =~= items.take(rest@.len() as int));
        reversed.push(ranked_entry(item));
    }
    while reversed.len() > 0
        invariant
            entries@.len() + reversed@.len() == items.len(),
            forall|j: int|
                0 <= j < reversed@.len() ==> ranked(#[trigger] items[items.len() - 1 - j], reversed@[j]),
            forall|j: int| 0 <= j < entries@.len() ==> ranked(#[trigger] items[j], entries@[j]),
        decreases reversed@.len(),
    {
        let m = reversed.pop().unwrap();
        proof {
            let j = reversed@.len() as int;
            let k = entries@.len() as int;
            assert(items.len() - 1 - j == k);
        }
        entries.push(m);
    }
    MangaPageResult { entries, has_next_page }
}

/// The address of a search of the website's comics.
pub open spec fn search_url_spec(query: Seq<char>, page: int) -> Seq<char> {
    BASE_URL@ + "/search?pageNumber="@ + decimal(page) + "&q="@ + replace_char(query, ' ', "+"@)
        + "&t=COMICS"@
}

/// The address of a search of the website's comics.
pub fn search_url(query: &str, page: i32) -> (r: String)
    ensures
        r@ == search_url_spec(query@, page as int),
{
    let mut url = String::from_str(BASE_URL);
    url.append("/search?pageNumber=");
    url.append(decimal_string(page as i64).as_str());
    url.append("&q=");
    url.append(replace_char_str(query, ' ', "+").as_str());
    url.append("&t=COMICS");
    url
}

/// A catalogue entry from a search result: the series id of its link, the alt text
/// of its thumbnail (or else its title link's text) and its thumbnail.  Results
/// without a series id give none.
pub fn search_entry(
    series_id: Option<String>,
    thumb_alt: Option<String>,
    title_text: Option<String>,
    cover: Option<String>,
) -> (r: Option<Manga>)
    ensures
        match series_id {
            Some(id) => r matches Some(m) && {
                &&& m.key@ == series_key(id@)
                &&& m.title@ == text_or_empty(
                    match thumb_alt {
                        Some(_) => thumb_alt,
                        None => title_text,
                    },
                )
                &&& m.cover == cover
                &&& m.description is None
                &&& listing_defaults(m)
            },
            None => r is None,
        },
{
    let id = match series_id {
        Some(id) => id,
        None => {
            return None;
        },
    };
    let title = match or_else_keep(thumb_alt, title_text) {
        Some(t) => t,
        None => String::new(),
    };
    let mut key = String::from_str("/series/");
    key.append(id.as_str());
    let mut m = new_manga(key, title);
    m.cover = cover;
    Some(m)
}

// ---------------------------------------------------------------------------
// Series details
// ---------------------------------------------------------------------------

/// The address of a website page, such as an episode's.
pub fn page_url(key: &str) -> (r: String)
    ensures
        r@ == BASE_URL@ + key@,
{
    let mut url = String::from_str(BASE_URL);
    url.append(key);
    url
}

/// The address of a series' information page.
pub fn info_url(key: &str) -> (r: String)
    ensures
        r@ == BASE_URL@ + key@ + "/info"@,
{
    let mut url = String::from_str(BASE_URL);
    url.append(key);
    url.append("/info");
    url
}

/// The status a schedule label names: `completed`, else `update` for a running
/// series, in any case.
pub open spec fn schedule_status(label: Option<Seq<char>>) -> MangaStatus {
    match label {
        Some(s) => if contains(lowercase(s), "completed"@) {
            MangaStatus::Completed
        } else if contains(lowercase(s), "update"@) {
            MangaStatus::Ongoing
        } else {
            MangaStatus::Unknown
        },
        None => MangaStatus::Unknown,
    }
}

/// The status a schedule label names.
pub fn status_from_schedule(label: &Option<String>) -> (r: MangaStatus)
    ensures
        r == schedule_status(label.deep_view()),
{
    match label {
        Some(s) => {
            let lower = to_lowercase(s.as_str());
            if str_contains(lower.as_str(), "completed") {
                MangaStatus::Completed
            } else if str_contains(lower.as_str(), "update") {
                MangaStatus::Ongoing
            } else {
                MangaStatus::Unknown
            }
        },
        None => MangaStatus::Unknown,
    }
}

/// A series with the details read from its information page: title (kept when
/// missing), thumbnail (kept when missing), description, creators, genres and
/// schedule label.
pub fn update_details(
    manga: Manga,
    title: Option<String>,
    cover: Option<String>,
    description: Option<String>,
    authors: Option<Vec<String>>,
    tags: Option<Vec<String>>,
    schedule_label: Option<String>,
) -> (r: Manga)
    ensures
        r.key == manga.key,
        r.url.deep_view() == Some(BASE_URL@ + manga.key@),
        r.title == (match title {
            Some(t) => t,
            None => manga.title,
        }),
        r.cover == (match cover {
            Some(_) => cover,
            None => manga.cover,
        }),
        r.description == description,
        r.authors == authors,
        r.artists == manga.artists,
        r.tags == tags,
        r.status == schedule_status(schedule_label.deep_view()),
        r.update_strategy == manga.update_strategy,
        r.viewer == Viewer::Webtoon,
        r.content_rating == ContentRating::Safe,
        r.chapters == manga.chapters,
{
    let mut m = manga;
    let mut url = String::from_str(BASE_URL);
    url.append(m.key.as_str());
    m.url = Some(url);
    if let Some(t) = title {
        m.title = t;
    }
    m.cover = or_else_keep(cover, m.cover);
    m.description = description;
    m.authors = authors;
    m.tags = tags;
    m.status = status_from_schedule(&schedule_label);
    m.viewer = Viewer::Webtoon;
    m.content_rating = ContentRating::Safe;
    m
}

// ---------------------------------------------------------------------------
// Episodes
// ---------------------------------------------------------------------------

/// The address of page `page` of a series' episode list, newest first.
pub open spec fn episodes_url_spec(series_key: Seq<char>, page: int) -> Seq<char> {
    BASE_URL@ + series_key + "/episodes?page="@ + decimal(page)
        + "&sort=NEWEST&since=0&large=true&last_access=0"@
}

/// The address of page `page` of a series' episode list.
pub fn episodes_url(series_key: &str, page: i32) -> (r: String)
    ensures
        r@ == episodes_url_spec(series_key@, page as int),
{
    let mut url = String::from_str(BASE_URL);
    url.append(series_key);
    url.append("/episodes?page=");
    url.append(decimal_string(page as i64).as_str());
    url.append("&sort=NEWEST&since=0&large=true&last_access=0");
    url
}

/// An episode can be read when it is unlocked or free.
pub open spec fn readable(ep: EpisodeDto) -> bool {
    ep.unlocked || ep.free
}

/// An episode is listed unless it is scheduled (and scheduled episodes are not
/// shown) or cannot be read (and locked episodes are not shown).
pub open spec fn listed(ep: EpisodeDto, show_locked: bool, show_scheduled: bool) -> bool {
    !((ep.scheduled && !show_scheduled) || (!readable(ep) && !show_locked))
}

/// The title an episode is listed under: its own, marked with a lock when it
/// cannot be read.
pub open spec fn episode_title(ep: EpisodeDto) -> Seq<char> {
    if readable(ep) {
        ep.title@
    } else {
        "\u{1F512} "@ + ep.title@
    }
}

/// What a listed episode becomes as a chapter.
pub open spec fn episode_chapter(ep: EpisodeDto, c: Chapter) -> bool {
    &&& c.key@ == "/episode/"@ + decimal(ep.id as int)
    &&& c.url.deep_view() == Some(BASE_URL@ + "/episode/"@ + decimal(ep.id as int))
    &&& c.title.deep_view() == (if episode_title(ep).len() == 0 {
        None
    } else {
        Some(episode_title(ep))
    })
    &&& c.chapter_number == Some(ChapterNumber::Text(ep.scene))
    &&& c.date_uploaded == (match ep.publish_date {
        Some(d) => rfc3339_instant(d@),
        None => None,
    })
    &&& c.volume_number is None
    &&& c.scanlators is None
    &&& c.language is None
}

/// The chapter for an episode.
pub fn chapter_from_episode(ep: &EpisodeDto) -> (c: Chapter)
    ensures
        episode_chapter(*ep, c),
{
    let id = decimal_string(ep.id);
    let mut key = String::from_str("/episode/");
    key.append(id.as_str());
    let mut url = String::from_str(BASE_URL);
    url.append(key.as_str());
    assert(url@ =~= BASE_URL@ + "/episode/"@ + decimal(ep.id as int));
    let title = if ep.unlocked || ep.free {
        ep.title.clone()
    } else {
        let mut t = String::from_str("\u{1F512} ");
        t.append(ep.title.as_str());
        t
    };
    let mut c = new_chapter(key);
    c.title = non_empty(title);
    c.chapter_number = Some(ChapterNumber::Text(ep.scene.clone()));
    c.date_uploaded = match &ep.publish_date {
        Some(d) => parse_rfc3339(d.as_str()),
        None => None,
    };
    c.url = Some(url);
    c
}

/// The episodes of a reply that are listed, in order.
pub open spec fn listed_episodes(
    episodes: Seq<EpisodeDto>,
    show_locked: bool,
    show_scheduled: bool,
) -> Seq<EpisodeDto> {
    episodes.filter(|ep: EpisodeDto| listed(ep, show_locked, show_scheduled))
}

/// Two tests that agree on every episode of a list keep the same episodes.
proof fn lemma_filter_agree(
    episodes: Seq<EpisodeDto>,
    f: spec_fn(EpisodeDto) -> bool,
    g: spec_fn(EpisodeDto) -> bool,
)
    requires
        forall|i: int| 0 <= i < episodes.len() ==> f(episodes[i]) == g(episodes[i]),
    ensures
        episodes.filter(f) == episodes.filter(g),
    decreases episodes.len(),
{
    reveal_with_fuel(Seq::filter, 1);
    if episodes.len() > 0 {
        let rest = episodes.drop_last();
        assert forall|i: int| 0 <= i < rest.len() implies f(rest[i]) == g(rest[i]) by {
            assert(rest[i] == episodes[i]);
        }
        lemma_filter_agree(rest, f, g);
        assert(f(episodes.last()) == g(episodes.last()));
    }
}

/// Locked episodes are shown by the `show_locked` setting alone: where no episode is
/// scheduled, the `show_scheduled` setting changes nothing, so a locked episode is
/// listed whenever locked episodes are shown.
pub proof fn lemma_scheduling_setting_spares_unscheduled(
    episodes: Seq<EpisodeDto>,
    show_locked: bool,
)
    requires
        forall|i: int| 0 <= i < episodes.len() ==> !(#[trigger] episodes[i]).scheduled,
    ensures
        listed_episodes(episodes, show_locked, true) == listed_episodes(
            episodes,
            show_locked,
            false,
        ),
        show_locked ==> listed_episodes(episodes, show_locked, false) == episodes,
        !show_locked ==> listed_episodes(episodes, show_locked, false) == episodes.filter(
            |ep: EpisodeDto| readable(ep),
        ),
{
    let on = |ep: EpisodeDto| listed(ep, show_locked, true);
    let off = |ep: EpisodeDto| listed(ep, show_locked, false);
    lemma_filter_agree(episodes, on, off);
    if show_locked {
        lemma_filter_agree(episodes, off, |ep: EpisodeDto| true);
        lemma_filter_all(episodes);
    } else {
        lemma_filter_agree(episodes, off, |ep: EpisodeDto| readable(ep));
    }
}

/// Keeping every episode keeps the list as it is.
proof fn lemma_filter_all(episodes: Seq<EpisodeDto>)
    ensures
        episodes.filter(|ep: EpisodeDto| true) == episodes,
    decreases episodes.len(),
{
    reveal_with_fuel(Seq::filter, 1);
    if episodes.len() > 0 {
        lemma_filter_all(episodes.drop_last());
        assert(episodes.drop_last().push(episodes.last()) =~= episodes);
    }
}

/// Scheduled episodes are shown by the `show_scheduled` setting alone: where every
/// episode can be read, the `show_locked` setting changes nothing, and a scheduled
/// episode is listed exactly when scheduled episodes are shown.
pub proof fn lemma_locking_setting_spares_readable(
    episodes: Seq<EpisodeDto>,
    show_scheduled: bool,
)
    requires
        forall|i: int| 0 <= i < episodes.len() ==> readable(#[trigger] episodes[i]),
    ensures
        listed_episodes(episodes, true, show_scheduled) == listed_episodes(
            episodes,
            false,
            show_scheduled,
        ),
        show_scheduled ==> listed_episodes(episodes, false, show_scheduled) == episodes,
        !show_scheduled ==> listed_episodes(episodes, false, show_scheduled) == episodes.filter(
            |ep: EpisodeDto| !ep.scheduled,
        ),
{
    let on = |ep: EpisodeDto| listed(ep, true, show_scheduled);
    let off = |ep: EpisodeDto| listed(ep, false, show_scheduled);
    lemma_filter_agree(episodes, on, off);
    if show_scheduled {
        lemma_filter_agree(episodes, off, |ep: EpisodeDto| true);
        lemma_filter_all(episodes);
    } else {
        lemma_filter_agree(episodes, off, |ep: EpisodeDto| !ep.scheduled);
    }
}

/// Appends the chapters for the listed episodes of a reply to `chapters`, in order,
/// and says which page of the episode list to read next, if any: the next one when
/// the reply says another follows, up to page 100.
pub fn add_episodes(
    chapters: &mut Vec<Chapter>,
    response: &ChaptersResponse,
    show_locked: bool,
    show_scheduled: bool,
    page: i32,
) -> (next: Option<i32>)
    ensures
        final(chapters)@.len() == old(chapters)@.len() + listed_episodes(
            response.data.episodes@,
            show_locked,
            show_scheduled,
        ).len(),
        forall|i: int| 0 <= i < old(chapters)@.len() ==> final(chapters)@[i] == old(chapters)@[i],
        forall|i: int|
            0 <= i < listed_episodes(response.data.episodes@, show_locked, show_scheduled).len()
                ==> episode_chapter(
                #[trigger] listed_episodes(response.data.episodes@, show_locked, show_scheduled)[i],
                final(chapters)@[old(chapters)@.len() + i],
            ),
        next == (if response.data.pagination.has_next && page < 100 {
            Some((page + 1) as i32)
        } else {
            None::<i32>
        }),
{
    let episodes = &response.data.episodes;
    let ghost start = chapters@.len();
    let ghost keep = |ep: EpisodeDto| listed(ep, show_locked, show_scheduled);
    let mut i: usize = 0;
    proof {
        reveal_with_fuel(Seq::filter, 1);
        assert(episodes@.take(0) =~= Seq::<EpisodeDto>::empty());
    }
    while i < episodes.len()
        invariant
            episodes@ == response.data.episodes@,
            i <= episodes@.len(),
            keep == (|ep: EpisodeDto| listed(ep, show_locked, show_scheduled)),
            chapters@.len() == start + episodes@.take(i as int).filter(keep).len(),
            forall|j: int| 0 <= j < start ==> chapters@[j] == old(chapters)@[j],
            start == old(chapters)@.len(),
            forall|j: int|
                0 <= j < episodes@.take(i as int).filter(keep).len() ==> episode_chapter(
                    #[trigger] episodes@.take(i as int).filter(keep)[j],
                    chapters@[start + j],
                ),
        decreases episodes.len() - i,
    {
        let ep = &episodes[i];
        let ghost before = episodes@.take(i as int).filter(keep);
        proof {
            reveal_with_fuel(Seq::filter, 1);
            assert(episodes@.take(i + 1).drop_last() =~= episodes@.take(i as int));
            assert(episodes@.take(i + 1).last() == episodes@[i as int]);
        }
        let readable = ep.unlocked || ep.free;
        if !((ep.scheduled && !show_scheduled) || (!readable && !show_locked)) {
            assert(keep(*ep));
            assert(episodes@.take(i + 1).filter(keep) == before.push(*ep));
            let c = chapter_from_episode(ep);
            chapters.push(c);
        } else {
            assert(!keep(*ep));
            assert(episodes@.take(i + 1).filter(keep) == before);
        }
        i = i + 1;
    }
    assert(episodes@.take(episodes@.len() as int) =~= episodes@);
    if response.data.pagination.has_next && page < 100 {
        Some(page + 1)
    } else {
        None
    }
}

// ---------------------------------------------------------------------------
// Deep links
// ---------------------------------------------------------------------------

/// A character that ends a series id in a link.
pub open spec fn id_char(c: char) -> bool {
    c != '/' && c != '?'
}

/// What a link into the website points at: `/series/<id>` (with anything after
/// the id) is a series, `/episode/...` a chapter.
pub open spec fn deep_link(url: Seq<char>) -> Option<LinkTarget> {
    match strip_prefix(url, BASE_URL@) {
        Some(path) => match strip_prefix(path, "/series/"@) {
            Some(rest) => Some(
                LinkTarget::Manga { key: series_key(take_while(rest, |c: char| id_char(c))) },
            ),
            None => if starts_with(path, "/episode/"@) {
                Some(LinkTarget::Chapter { manga_key: Seq::empty(), key: path })
            } else {
                None
            },
        },
        None => None,
    }
}

/// What a link into the website points at, if it points at a series or a chapter.
pub fn handle_deep_link(url: &str) -> (r: Option<DeepLinkResult>)
    ensures
        link_view(r) == deep_link(url@),
{
    let path = match str_strip_prefix(url, BASE_URL) {
        Some(path) => path,
        None => {
            return None;
        },
    };
    match str_strip_prefix(path.as_str(), "/series/") {
        Some(rest) => {
            let v = chars_of(rest.as_str());
            let mut n: usize = 0;
            while n < v.len() && v[n] != '/' && v[n] != '?'
                invariant
                    n <= v.len(),
                    forall|j: int| 0 <= j < n ==> id_char(#[trigger] v@[j]),
                decreases v.len() - n,
            {
                n = n + 1;
            }
            proof {
                lemma_span_is(v@, |c: char| id_char(c), n as int);
                assert(v@.subrange(0, n as int) =~= v@.take(n as int));
            }
            let mut key = String::from_str("/series/");
            key.append(string_of(&v, 0, n).as_str());
            Some(DeepLinkResult::Manga { key })
        },
        None => {
            if str_starts_with(path.as_str(), "/episode/") {
                Some(DeepLinkResult::Chapter { manga_key: String::new(), key: path })
            } else {
                None
            }
        },
    }
}

/// A series link gives back the series: the link to the key of a series whose id
/// holds no `/` or `?` points at that series.
pub proof fn lemma_series_link(id: Seq<char>)
    requires
        forall|j: int| 0 <= j < id.len() ==> id_char(#[trigger] id[j]),
    ensures
        deep_link(BASE_URL@ + series_key(id)) == Some(LinkTarget::Manga { key: series_key(id) }),
{
    lemma_strip_prefix_concat(BASE_URL@, series_key(id));
    lemma_strip_prefix_concat("/series/"@, id);
    lemma_span_is(id, |c: char| id_char(c), id.len() as int);
    assert(id.take(id.len() as int) =~= id);
}

/// An episode link gives back the episode: the link to an episode's key points at
/// that chapter.
pub proof fn lemma_episode_link(id: Seq<char>)
    ensures
        deep_link(BASE_URL@ + ("/episode/"@ + id)) == Some(
            LinkTarget::Chapter { manga_key: Seq::empty(), key: "/episode/"@ + id },
        ),
{
    reveal_strlit("/episode/");
    reveal_strlit("/series/");
    lemma_strip_prefix_concat(BASE_URL@, "/episode/"@ + id);
    assert(("/episode/"@ + id).take(9) =~= "/episode/"@);
    assert(("/episode/"@ + id)[1] == 'e');
    assert("/series/"@[1] == 's');
    if starts_with("/episode/"@ + id, "/series/"@) {
        assert(("/episode/"@ + id).take(8)[1] == "/series/"@[1]);
    }
}

} // verus!
