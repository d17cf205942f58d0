//! The shape of the webtoons.com mobile API's episode list reply.

use vstd::prelude::*;

verus! {

/// The reply to an episode list request.
pub struct EpisodeListResponse {
    pub result: EpisodeList,
}

/// The episodes of a series, oldest first.
pub struct EpisodeList {
    pub episode_list: Vec<Episode>,
}

/// One episode of a series.
pub struct Episode {
    pub episode_title: String,
    pub viewer_link: String,
    /// When the episode was published, in milliseconds since the UNIX epoch.
    pub exposure_date_millis: i64,
}

} // verus!
