//! The shapes of the Comick API's replies, as the source reads them.

use vstd::prelude::*;

verus! {

/// A cover image.
pub struct MdCover {
    pub b2key: Option<String>,
}

/// An entry as returned by the search/listing endpoints.
pub struct SearchComic {
    pub slug: String,
    pub title: String,
    pub md_covers: Vec<MdCover>,
}

/// The reply for a series: the series, its authors and its artists.
pub struct ComicDetailResponse {
    pub comic: Comic,
    pub authors: Vec<NameItem>,
    pub artists: Vec<NameItem>,
}

/// A person credited on a series.
pub struct NameItem {
    pub name: Option<String>,
}

/// A series.
pub struct Comic {
    pub hid: String,
    pub slug: Option<String>,
    pub title: String,
    pub country: Option<String>,
    pub status: Option<i32>,
    pub desc: Option<String>,
    pub content_rating: Option<String>,
    pub md_covers: Vec<MdCover>,
    pub md_comic_md_genres: Vec<GenreWrap>,
}

/// A genre tag of a series.
pub struct GenreWrap {
    pub md_genres: Option<Genre>,
}

/// A genre.
pub struct Genre {
    pub name: Option<String>,
}

/// A page of a series' chapter list, with the total number of chapters.
pub struct ChaptersResponse {
    pub chapters: Vec<ChapterItem>,
    pub total: Option<i32>,
}

/// One upload of a chapter, by one scanlation group.
pub struct ChapterItem {
    pub hid: String,
    pub chap: Option<String>,
    pub vol: Option<String>,
    pub title: Option<String>,
    pub group_name: Vec<String>,
    pub created_at: Option<String>,
}

/// The reply for a chapter.
pub struct ChapterDetailResponse {
    pub chapter: ChapterDetail,
}

/// A chapter's page images.
pub struct ChapterDetail {
    pub md_images: Vec<MdImage>,
}

/// A page image.
pub struct MdImage {
    pub b2key: Option<String>,
}

} // verus!
