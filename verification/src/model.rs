//! The values that every source produces: catalogue entries, chapters, pages of
//! search results and the targets of deep links.

use vstd::prelude::*;

verus! {

/// Publication status of a series.
#[derive(Clone, Copy, Debug, PartialEq, Eq, Structural)]
pub enum MangaStatus {
    Unknown,
    Ongoing,
    Completed,
    Cancelled,
    Hiatus,
}

/// Content rating of a series.
#[derive(Clone, Copy, Debug, PartialEq, Eq, Structural)]
pub enum ContentRating {
    Unknown,
    Safe,
    Suggestive,
    NSFW,
}

/// Reading direction a series is best read in.
#[derive(Clone, Copy, Debug, PartialEq, Eq, Structural)]
pub enum Viewer {
    Unknown,
    LeftToRight,
    RightToLeft,
    Vertical,
    Webtoon,
}

/// Whether a series should be checked for new chapters.
#[derive(Clone, Copy, Debug, PartialEq, Eq, Structural)]
pub enum UpdateStrategy {
    Always,
    Never,
}

/// How a chapter's number is known.  Numbers are read from text; turning the
/// text into a number is left to the caller.
#[derive(Clone, Debug, PartialEq)]
pub enum ChapterNumber {
    /// The number written in this text; none when the text is not a number.
    Text(String),
    /// The number written in this text, or this position when the text is not a number.
    TextOr(String, u64),
    /// The number written in the last of these texts that is a number, if any.
    LastOf(Vec<String>),
}

/// One chapter of a series.
#[derive(Clone, Debug, PartialEq)]
pub struct Chapter {
    pub key: String,
    pub title: Option<String>,
    pub chapter_number: Option<ChapterNumber>,
    pub volume_number: Option<ChapterNumber>,
    /// Seconds since 1970-01-01 00:00:00 UTC.
    pub date_uploaded: Option<i64>,
    pub scanlators: Option<Vec<String>>,
    pub url: Option<String>,
    pub language: Option<String>,
}

/// One series of a catalogue.
#[derive(Clone, Debug, PartialEq)]
pub struct Manga {
    pub key: String,
    pub title: String,
    pub cover: Option<String>,
    pub authors: Option<Vec<String>>,
    pub artists: Option<Vec<String>>,
    pub description: Option<String>,
    pub url: Option<String>,
    pub tags: Option<Vec<String>>,
    pub status: MangaStatus,
    pub content_rating: ContentRating,
    pub viewer: Viewer,
    pub update_strategy: UpdateStrategy,
    pub chapters: Option<Vec<Chapter>>,
}

/// One page of search results.
#[derive(Clone, Debug, PartialEq)]
pub struct MangaPageResult {
    pub entries: Vec<Manga>,
    pub has_next_page: bool,
}

/// A search filter value chosen by the user.
#[derive(Clone, Debug, PartialEq)]
pub enum FilterValue {
    /// A choice of one option of the filter `id`.
    Select { id: String, value: String },
    /// Options of the filter `id` to include and to exclude.
    MultiSelect { id: String, included: Vec<String>, excluded: Vec<String> },
    /// A filter of another kind, which the sources here do not read.
    Other,
}

/// What to fetch for a search: the page's address and the selector of its entries.
#[derive(Clone, Debug, PartialEq)]
pub struct SearchRequest {
    pub url: String,
    pub selector: String,
}

/// What a link into a catalogue's website points at.
#[derive(Clone, Debug, PartialEq, Eq)]
pub enum DeepLinkResult {
    Manga { key: String },
    Chapter { manga_key: String, key: String },
}

/// A deep link target, with its keys taken as character sequences.
pub enum LinkTarget {
    Manga { key: Seq<char> },
    Chapter { manga_key: Seq<char>, key: Seq<char> },
}

/// The view of a deep link result.
pub open spec fn link_view(r: Option<DeepLinkResult>) -> Option<LinkTarget> {
    match r {
        Some(DeepLinkResult::Manga { key }) => Some(LinkTarget::Manga { key: key@ }),
        Some(DeepLinkResult::Chapter { manga_key, key }) => Some(
            LinkTarget::Chapter { manga_key: manga_key@, key: key@ },
        ),
        None => None,
    }
}

/// The update strategy every source gives a series of the given status:
/// finished series are never checked again.
pub open spec fn strategy_for(status: MangaStatus) -> UpdateStrategy {
    match status {
        MangaStatus::Completed | MangaStatus::Cancelled => UpdateStrategy::Never,
        _ => UpdateStrategy::Always,
    }
}

/// The update strategy for a series of the given status.
pub fn update_strategy_for(status: MangaStatus) -> (r: UpdateStrategy)
    ensures
        r == strategy_for(status),
{
    match status {
        MangaStatus::Completed | MangaStatus::Cancelled => UpdateStrategy::Never,
        _ => UpdateStrategy::Always,
    }
}

/// A catalogue entry's fields other than its key, title, cover and description, as
/// `new_manga` leaves them: no authors, artists, address, tags or chapters, an
/// unknown status, rating and viewer, and the default update strategy.
pub open spec fn listing_defaults(m: Manga) -> bool {
    &&& m.authors is None
    &&& m.artists is None
    &&& m.url is None
    &&& m.tags is None
    &&& m.status == MangaStatus::Unknown
    &&& m.content_rating == ContentRating::Unknown
    &&& m.viewer == Viewer::Unknown
    &&& m.update_strategy == UpdateStrategy::Always
    &&& m.chapters is None
}

/// A series known only by its key and title, with every other field at its default.
pub fn new_manga(key: String, title: String) -> (m: Manga)
    ensures
        m.key == key,
        m.title == title,
        m.cover is None,
        m.authors is None,
        m.artists is None,
        m.description is None,
        m.url is None,
        m.tags is None,
        m.status == MangaStatus::Unknown,
        m.content_rating == ContentRating::Unknown,
        m.viewer == Viewer::Unknown,
        m.update_strategy == UpdateStrategy::Always,
        m.chapters is None,
{
    Manga {
        key,
        title,
        cover: None,
        authors: None,
        artists: None,
        description: None,
        url: None,
        tags: None,
        status: MangaStatus::Unknown,
        content_rating: ContentRating::Unknown,
        viewer: Viewer::Unknown,
        update_strategy: UpdateStrategy::Always,
        chapters: None,
    }
}

/// A chapter known only by its key, with every other field empty.
pub fn new_chapter(key: String) -> (c: Chapter)
    ensures
        c.key == key,
        c.title is None,
        c.chapter_number is None,
        c.volume_number is None,
        c.date_uploaded is None,
        c.scanlators is None,
        c.url is None,
        c.language is None,
{
    Chapter {
        key,
        title: None,
        chapter_number: None,
        volume_number: None,
        date_uploaded: None,
        scanlators: None,
        url: None,
        language: None,
    }
}

} // verus!
