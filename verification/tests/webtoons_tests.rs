use manga_sources::model::{new_manga, ChapterNumber, DeepLinkResult, MangaStatus, Viewer};
use manga_sources::webtoons::models::Episode;
use manga_sources::webtoons::{
    chapters_from_episodes, episodes_url, handle_deep_link, manga_from_element, page_image,
    parse_number, query_param, search_address, search_page, search_url, strip_domain, trending_url,
    update_details,
};

#[test]
fn domains_are_stripped() {
    assert_eq!(strip_domain("https://www.webtoons.com/en/x"), "/en/x");
    assert_eq!(strip_domain("https://m.webtoons.com/en/x"), "/en/x");
    assert_eq!(strip_domain("https://other.com/en/x"), "https://other.com/en/x");
}

#[test]
fn query_parameters() {
    assert_eq!(query_param("/en/a/list?title_no=95&page=2", "title_no"), Some("95".to_string()));
    assert_eq!(query_param("/en/a/list?titleNo=7", "titleNo"), Some("7".to_string()));
    assert_eq!(query_param("/en/a/list?x=1", "title_no"), None);
}

#[test]
fn numbers_in_titles() {
    assert_eq!(parse_number("Ep. 12.5 - The end"), "12.5");
    assert_eq!(parse_number("Prologue"), "");
}

#[test]
fn webtoons_searching() {
    assert_eq!(trending_url(), "https://www.webtoons.com/en/ranking/trending");
    assert_eq!(search_url("tower of god", 2), "https://www.webtoons.com/en/search?keyword=tower+of+god&page=2");
    let m = manga_from_element(Some("https://www.webtoons.com/en/fantasy/x/list?title_no=1".to_string()), None, None).unwrap();
    assert_eq!(m.key, "/en/fantasy/x/list?title_no=1");
    assert_eq!(m.title, "");
    assert!(manga_from_element(None, None, None).is_none());
}

#[test]
fn webtoons_details() {
    let m = update_details(
        new_manga("/en/x/list?title_no=1".to_string(), "old".to_string()),
        Some("New".to_string()),
        None,
        Some("Author".to_string()),
        None,
        None,
        Some("UP EVERY SATURDAY".to_string()),
    );
    assert_eq!(m.url, Some("https://www.webtoons.com/en/x/list?title_no=1".to_string()));
    assert_eq!(m.title, "New");
    assert_eq!(m.authors, Some(vec!["Author".to_string()]));
    assert_eq!(m.status, MangaStatus::Ongoing);
    assert_eq!(m.viewer, Viewer::Webtoon);
    let done = |s: &str| update_details(new_manga("k".to_string(), "t".to_string()), None, None, None, None, None, Some(s.to_string())).status;
    assert_eq!(done("completed"), MangaStatus::Completed);
    assert_eq!(done("The end"), MangaStatus::Completed);
    assert_eq!(done("hiatus"), MangaStatus::Unknown);
}

#[test]
fn page_images_at_maximum_quality() {
    let u = "https://img/x.jpg?type=q90";
    assert_eq!(page_image(Some(u.to_string()), None, true), Some("https://img/x.jpg".to_string()));
    assert_eq!(page_image(Some(u.to_string()), None, false), Some(u.to_string()));
    assert_eq!(page_image(None, Some("s".to_string()), true), Some("s".to_string()));
    assert_eq!(page_image(None, None, true), None);
}

#[test]
fn episode_lists() {
    assert_eq!(
        episodes_url("/en/fantasy/x/list?title_no=95"),
        "https://m.webtoons.com/api/v1/webtoon/95/episodes?pageSize=99999"
    );
    assert_eq!(
        episodes_url("/en/canvas/x/list?titleNo=12&a=b"),
        "https://m.webtoons.com/api/v1/canvas/12/episodes?pageSize=99999"
    );
    assert_eq!(episodes_url("/en/x"), "https://m.webtoons.com/api/v1/webtoon//episodes?pageSize=99999");
    let eps = vec![
        Episode { episode_title: "Ep. 1".to_string(), viewer_link: "https://m.webtoons.com/en/x/ep1/viewer?e=1".to_string(), exposure_date_millis: 1_704_412_800_000 },
        Episode { episode_title: "Special".to_string(), viewer_link: "/en/x/sp/viewer?e=2".to_string(), exposure_date_millis: 0 },
    ];
    let chapters = chapters_from_episodes(&eps);
    assert_eq!(chapters.len(), 2);
    assert_eq!(chapters[0].key, "/en/x/sp/viewer?e=2");
    assert_eq!(chapters[0].chapter_number, Some(ChapterNumber::TextOr(String::new(), 2)));
    assert_eq!(chapters[0].date_uploaded, None);
    assert_eq!(chapters[1].key, "/en/x/ep1/viewer?e=1");
    assert_eq!(chapters[1].url, Some("https://www.webtoons.com/en/x/ep1/viewer?e=1".to_string()));
    assert_eq!(chapters[1].chapter_number, Some(ChapterNumber::TextOr("1".to_string(), 1)));
    assert_eq!(chapters[1].date_uploaded, Some(1_704_412_800));
    assert_eq!(chapters[1].title, Some("Ep. 1".to_string()));
}

#[test]
fn webtoons_deep_links() {
    assert_eq!(
        handle_deep_link("https://www.webtoons.com/en/x/ep1/viewer?title_no=1&episode_no=1"),
        Some(DeepLinkResult::Chapter { manga_key: String::new(), key: "/en/x/ep1/viewer?title_no=1&episode_no=1".to_string() })
    );
    assert_eq!(
        handle_deep_link("https://m.webtoons.com/en/x/list?title_no=1"),
        Some(DeepLinkResult::Manga { key: "/en/x/list?title_no=1".to_string() })
    );
    assert_eq!(handle_deep_link("https://www.webtoons.com/en/genres"), None);
}

#[test]
fn webtoons_search_pages() {
    assert_eq!(search_address("", 3), "https://www.webtoons.com/en/ranking/trending");
    assert_eq!(search_address("tower of god", 2), "https://www.webtoons.com/en/search?keyword=tower+of+god&page=2");
    let one = || vec![new_manga("/en/x".to_string(), "X".to_string())];
    // The trending ranking is a single page.
    assert!(!search_page("", one(), true).has_next_page);
    assert!(search_page("tower", one(), true).has_next_page);
    assert!(!search_page("tower", one(), false).has_next_page);
    assert_eq!(search_page("tower", one(), true).entries.len(), 1);
}
