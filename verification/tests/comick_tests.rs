use manga_sources::comick::models::{
    ChapterDetail, ChapterDetailResponse, ChapterItem, ChaptersResponse, Comic,
    ComicDetailResponse, Genre, GenreWrap, MdCover, MdImage, NameItem, SearchComic,
};
use manga_sources::comick::{
    add_chapters, chapter_from_item, chapters_url, comic_slug, comic_url, cover_url,
    handle_deep_link, page_urls, search_results, search_url, update_details,
};
use manga_sources::model::{
    new_manga, ChapterNumber, ContentRating, DeepLinkResult, MangaStatus, UpdateStrategy, Viewer,
};

fn cover(key: Option<&str>) -> MdCover {
    MdCover { b2key: key.map(String::from) }
}

fn comic(status: Option<i32>, rating: Option<&str>, country: Option<&str>) -> Comic {
    Comic {
        hid: "hid1".to_string(),
        slug: Some("my-slug".to_string()),
        title: "My Title".to_string(),
        country: country.map(String::from),
        status,
        desc: Some("About".to_string()),
        content_rating: rating.map(String::from),
        md_covers: vec![cover(None), cover(Some("c.jpg"))],
        md_comic_md_genres: vec![
            GenreWrap { md_genres: Some(Genre { name: Some("Action".to_string()) }) },
            GenreWrap { md_genres: None },
            GenreWrap { md_genres: Some(Genre { name: None }) },
            GenreWrap { md_genres: Some(Genre { name: Some("Drama".to_string()) }) },
        ],
    }
}

fn detail(status: Option<i32>, rating: Option<&str>, country: Option<&str>) -> ComicDetailResponse {
    ComicDetailResponse {
        comic: comic(status, rating, country),
        authors: vec![NameItem { name: Some("A".to_string()) }, NameItem { name: None }],
        artists: vec![],
    }
}

fn item(hid: &str, groups: &[&str], title: Option<&str>) -> ChapterItem {
    ChapterItem {
        hid: hid.to_string(),
        chap: Some("12.5".to_string()),
        vol: None,
        title: title.map(String::from),
        group_name: groups.iter().map(|g| g.to_string()).collect(),
        created_at: Some("2024-01-05T10:00:00Z".to_string()),
    }
}

#[test]
fn cover_is_the_first_keyed_cover() {
    assert_eq!(
        cover_url(&vec![cover(None), cover(Some("a.png")), cover(Some("b.png"))]),
        Some("https://meo.comick.pictures/a.png".to_string())
    );
    assert_eq!(cover_url(&vec![cover(None)]), None);
    assert_eq!(cover_url(&vec![]), None);
}

#[test]
fn comick_search_addresses() {
    assert_eq!(
        search_url(None, 2),
        "https://api.comick.dev/v1.0/search?sort=follow&page=2&limit=30&tachiyomi=true"
    );
    assert_eq!(
        search_url(Some("one piece".to_string()), 1),
        "https://api.comick.dev/v1.0/search?q=one%20piece&page=1&limit=30&tachiyomi=true"
    );
}

#[test]
fn search_results_have_a_next_page_only_when_full() {
    let make = |n: usize| -> Vec<SearchComic> {
        (0..n)
            .map(|i| SearchComic { slug: format!("s{i}"), title: format!("t{i}"), md_covers: vec![] })
            .collect()
    };
    let full = search_results(&make(30));
    assert!(full.has_next_page);
    assert_eq!(full.entries.len(), 30);
    assert_eq!(full.entries[3].key, "s3");
    assert_eq!(full.entries[3].title, "t3");
    assert!(!search_results(&make(29)).has_next_page);
    assert!(!search_results(&make(0)).has_next_page);
}

#[test]
fn details_of_a_series() {
    let m = update_details(new_manga("key".to_string(), "old".to_string()), &detail(Some(2), Some("erotica"), Some("kr")));
    assert_eq!(m.title, "My Title");
    assert_eq!(m.cover, Some("https://meo.comick.pictures/c.jpg".to_string()));
    assert_eq!(m.url, Some("https://comick.io/comic/my-slug".to_string()));
    assert_eq!(m.description, Some("About".to_string()));
    assert_eq!(m.authors, Some(vec!["A".to_string()]));
    assert_eq!(m.artists, Some(vec![]));
    assert_eq!(m.tags, Some(vec!["Action".to_string(), "Drama".to_string()]));
    assert_eq!(m.status, MangaStatus::Completed);
    assert_eq!(m.content_rating, ContentRating::NSFW);
    assert_eq!(m.viewer, Viewer::Webtoon);
    assert_eq!(m.update_strategy, UpdateStrategy::Never);
}

#[test]
fn status_rating_and_viewer_codes() {
    let base = || new_manga("k".to_string(), "t".to_string());
    let cases = [
        (Some(1), MangaStatus::Ongoing, UpdateStrategy::Always),
        (Some(3), MangaStatus::Cancelled, UpdateStrategy::Never),
        (Some(4), MangaStatus::Hiatus, UpdateStrategy::Always),
        (Some(9), MangaStatus::Unknown, UpdateStrategy::Always),
        (None, MangaStatus::Unknown, UpdateStrategy::Always),
    ];
    for (code, status, strategy) in cases {
        let m = update_details(base(), &detail(code, None, None));
        assert_eq!(m.status, status);
        assert_eq!(m.update_strategy, strategy);
    }
    assert_eq!(update_details(base(), &detail(None, Some("suggestive"), Some("jp"))).content_rating, ContentRating::Suggestive);
    assert_eq!(update_details(base(), &detail(None, Some("safe"), Some("jp"))).content_rating, ContentRating::Safe);
    assert_eq!(update_details(base(), &detail(None, None, Some("jp"))).viewer, Viewer::RightToLeft);
    assert_eq!(update_details(base(), &detail(None, None, Some("cn"))).viewer, Viewer::Webtoon);
    assert_eq!(update_details(base(), &detail(None, None, Some("us"))).viewer, Viewer::Unknown);
}

#[test]
fn cover_kept_when_the_reply_has_none() {
    let mut d = detail(None, None, None);
    d.comic.md_covers = vec![];
    let mut m = new_manga("k".to_string(), "t".to_string());
    m.cover = Some("kept".to_string());
    assert_eq!(update_details(m, &d).cover, Some("kept".to_string()));
}

#[test]
fn slug_falls_back_to_the_key() {
    let mut d = detail(None, None, None);
    assert_eq!(comic_slug(&d, "key"), "my-slug");
    d.comic.slug = None;
    assert_eq!(comic_slug(&d, "key"), "key");
    let m = update_details(new_manga("key".to_string(), "t".to_string()), &d);
    assert_eq!(m.url, Some("https://comick.io/comic/key".to_string()));
}

#[test]
fn api_addresses() {
    assert_eq!(comic_url("abc"), "https://api.comick.dev/comic/abc?tachiyomi=true");
    assert_eq!(
        chapters_url("hid", 3),
        "https://api.comick.dev/comic/hid/chapters?lang=en&page=3&limit=100&tachiyomi=true"
    );
}

#[test]
fn chapter_from_an_upload() {
    let c = chapter_from_item(&item("x1", &["", "Group A", "Group B"], Some("")), "my-slug");
    assert_eq!(c.key, "x1");
    assert_eq!(c.title, None);
    assert_eq!(c.chapter_number, Some(ChapterNumber::Text("12.5".to_string())));
    assert_eq!(c.volume_number, None);
    assert_eq!(c.date_uploaded, Some(1704448800));
    assert_eq!(c.scanlators, Some(vec!["Group A".to_string(), "Group B".to_string()]));
    assert_eq!(c.url, Some("https://comick.io/comic/my-slug/x1".to_string()));
    assert_eq!(c.language, Some("en".to_string()));
    let c = chapter_from_item(&item("x2", &[""], Some("Start")), "s");
    assert_eq!(c.scanlators, None);
    assert_eq!(c.title, Some("Start".to_string()));
}

#[test]
fn chapter_paging() {
    let page = |n: usize, total: Option<i32>| ChaptersResponse {
        chapters: (0..n).map(|i| item(&format!("h{i}"), &[], None)).collect(),
        total,
    };
    let mut chapters = Vec::new();
    assert_eq!(add_chapters(&mut chapters, &page(100, Some(150)), "s", 1), Some(2));
    assert_eq!(chapters.len(), 100);
    assert_eq!(add_chapters(&mut chapters, &page(50, Some(150)), "s", 2), None);
    assert_eq!(chapters.len(), 150);
    assert_eq!(chapters[100].key, "h0");
    // An empty page ends the list.
    assert_eq!(add_chapters(&mut chapters, &page(0, Some(1000)), "s", 3), None);
    assert_eq!(chapters.len(), 150);
    // Without a total, a full page asks for the next one and a short page ends the list.
    let mut other = Vec::new();
    assert_eq!(add_chapters(&mut other, &page(100, None), "s", 1), Some(2));
    assert_eq!(add_chapters(&mut other, &page(40, None), "s", 2), None);
    assert_eq!(other.len(), 140);
    let mut short = Vec::new();
    assert_eq!(add_chapters(&mut short, &page(1, None), "s", 1), None);
    assert_eq!(add_chapters(&mut short, &page(100, None), "s", 50), None);
    // Page 50 is the last one read.
    let mut many = Vec::new();
    assert_eq!(add_chapters(&mut many, &page(1, Some(10_000)), "s", 50), None);
    assert_eq!(add_chapters(&mut many, &page(1, Some(10_000)), "s", 49), Some(50));
}

#[test]
fn comick_page_images() {
    let d = ChapterDetailResponse {
        chapter: ChapterDetail {
            md_images: vec![
                MdImage { b2key: Some("1.jpg".to_string()) },
                MdImage { b2key: None },
                MdImage { b2key: Some("2.jpg".to_string()) },
            ],
        },
    };
    assert_eq!(
        page_urls(&d),
        vec!["https://meo.comick.pictures/1.jpg".to_string(), "https://meo.comick.pictures/2.jpg".to_string()]
    );
}

#[test]
fn comick_deep_links() {
    assert_eq!(
        handle_deep_link("https://comick.io/comic/my-slug"),
        Some(DeepLinkResult::Manga { key: "my-slug".to_string() })
    );
    assert_eq!(
        handle_deep_link("https://comick.io/comic/my-slug/"),
        Some(DeepLinkResult::Manga { key: "my-slug".to_string() })
    );
    assert_eq!(
        handle_deep_link("https://comick.io/comic/my-slug/aBc12-chapter-3-en"),
        Some(DeepLinkResult::Chapter { manga_key: "my-slug".to_string(), key: "aBc12".to_string() })
    );
    assert_eq!(handle_deep_link("https://comick.io/comic//x"), None);
    assert_eq!(handle_deep_link("https://comick.io/home"), None);
}

#[test]
fn chapter_addresses_link_back() {
    let c = chapter_from_item(&item("zz9", &[], None), "a-slug");
    assert_eq!(
        handle_deep_link(&c.url.unwrap()),
        Some(DeepLinkResult::Chapter { manga_key: "a-slug".to_string(), key: "zz9".to_string() })
    );
    let m = update_details(new_manga("k".to_string(), "t".to_string()), &detail(None, None, None));
    assert_eq!(handle_deep_link(&m.url.unwrap()), Some(DeepLinkResult::Manga { key: "my-slug".to_string() }));
}
