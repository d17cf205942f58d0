//! ManhuaUS (manhuaus.com): a site built on the Madara WordPress theme, read by the
//! shared Madara source with the settings below.

use vstd::prelude::*;

verus! {

/// The site's address.
pub const BASE_URL: &'static str = "https://manhuaus.com";

/// The settings this site differs by from the Madara defaults.
pub struct MadaraSettings {
    /// The site's address.
    pub base_url: String,
    /// Whether chapter lists come from the theme's newer chapter endpoint.
    pub use_new_chapter_endpoint: bool,
    /// Whether entries not flagged as manga are dropped from listings.
    pub filter_non_manga_items: bool,
}

/// The settings for this site: its address, the newer chapter endpoint, and no
/// filtering of entries by type (the site does not flag the type of its entries).
pub fn params() -> (r: MadaraSettings)
    ensures
        r.base_url@ == BASE_URL@,
        r.use_new_chapter_endpoint,
        !r.filter_non_manga_items,
{
    MadaraSettings {
        base_url: String::from_str(BASE_URL),
        use_new_chapter_endpoint: true,
        filter_non_manga_items: false,
    }
}

} // verus!
