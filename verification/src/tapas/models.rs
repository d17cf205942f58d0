//! The shapes of the Tapas story API's replies, as the source reads them.

use vstd::prelude::*;

verus! {

/// A page of the comics ranking.
pub struct RankingResponse {
    pub data: WrapperContent,
    pub meta: Option<Meta>,
}

/// The ranked series of a ranking page.
pub struct WrapperContent {
    pub items: Vec<MangaDto>,
}

/// Paging information of a ranking page.
pub struct Meta {
    pub pagination: Option<Pagination>,
}

/// Paging information: whether this is the last page, and whether another follows.
pub struct Pagination {
    pub last: bool,
    pub has_next: bool,
}

/// The value a missing `last` flag takes in a reply: a page that does not say
/// otherwise is the last one.
pub fn default_true() -> (r: bool)
    ensures
        r,
{
    true
}

impl Default for Pagination {
    /// No flag set.
    fn default() -> (r: Self)
        ensures
            !r.last,
            !r.has_next,
    {
        Pagination { last: false, has_next: false }
    }
}

/// A series of the ranking.
pub struct MangaDto {
    pub series_id: i64,
    pub title: String,
    pub description: String,
    pub asset_property: Field,
}

/// The asset properties of a series.
pub struct Field {
    /// The values of the `bookCoverImage` object, in key order: the text of each
    /// value that is a string, and none for any other value.
    pub book_cover_image: Vec<Option<String>>,
}

/// The first text among cover image values.
pub open spec fn first_text(values: Seq<Option<String>>) -> Option<Seq<char>>
    decreases values.len(),
{
    if values.len() == 0 {
        None
    } else {
        match values[0] {
            Some(s) => Some(s@),
            None => first_text(values.drop_first()),
        }
    }
}

impl MangaDto {
    /// The cover image address: the first string among the cover image values,
    /// with `.png` appended.
    pub fn cover(&self) -> (r: Option<String>)
        ensures
            r.deep_view() == (match first_text(self.asset_property.book_cover_image@) {
                Some(s) => Some(s + ".png"@),
                None => None,
            }),
    {
        let values = &self.asset_property.book_cover_image;
        let mut i: usize = 0;
        assert(values@.skip(0) =~= values@);
        while i < values.len()
            invariant
                values@ == self.asset_property.book_cover_image@,
                i <= values@.len(),
                first_text(values@) == first_text(values@.skip(i as int)),
            decreases values.len() - i,
        {
            assert(values@.skip(i as int).drop_first() =~= values@.skip(i + 1));
            assert(values@.skip(i as int)[0] == values@[i as int]);
            match &values[i] {
                Some(s) => {
                    assert(values@.skip(i as int).len() > 0);
                    assert(first_text(values@.skip(i as int)) == Some(s@));
                    let mut r = s.clone();
                    r.append(".png");
                    return Some(r);
                },
                None => {},
            }
            i = i + 1;
        }
        None
    }
}

/// A page of a series' episode list.
pub struct ChaptersResponse {
    pub data: ChapterListData,
}

/// The episodes of a page of the episode list, with its paging information.
pub struct ChapterListData {
    pub pagination: Pagination,
    pub episodes: Vec<EpisodeDto>,
}

/// One episode of a series.
pub struct EpisodeDto {
    pub id: i64,
    pub title: String,
    pub publish_date: Option<String>,
    pub unlocked: bool,
    pub free: bool,
    /// The episode's number, as decimal text.
    pub scene: String,
    pub scheduled: bool,
}

} // verus!
