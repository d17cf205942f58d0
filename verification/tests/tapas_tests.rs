use manga_sources::model::{new_manga, ChapterNumber, ContentRating, DeepLinkResult, MangaStatus, Viewer};
use manga_sources::tapas::models::{
    default_true, ChapterListData, ChaptersResponse, EpisodeDto, Field, MangaDto, Meta,
    Pagination, RankingResponse, WrapperContent,
};
use manga_sources::tapas::{
    add_episodes, episodes_url, handle_deep_link, info_url, ranking_results, ranking_url,
    search_entry, search_url, series_key_of, update_details,
};

fn dto(id: i64, covers: Vec<Option<&str>>, description: &str) -> MangaDto {
    MangaDto {
        series_id: id,
        title: format!("T{id}"),
        description: description.to_string(),
        asset_property: Field { book_cover_image: covers.into_iter().map(|c| c.map(String::from)).collect() },
    }
}

fn ep(id: i64, unlocked: bool, free: bool, scheduled: bool) -> EpisodeDto {
    EpisodeDto {
        id,
        title: format!("Ep {id}"),
        publish_date: Some("2024-01-05T10:00:00Z".to_string()),
        unlocked,
        free,
        scene: format!("{id}"),
        scheduled,
    }
}

#[test]
fn missing_last_flag_means_last_page() {
    assert!(default_true());
    let p = Pagination::default();
    assert!(!p.last);
    assert!(!p.has_next);
}

#[test]
fn cover_is_first_string_value_with_png() {
    assert_eq!(dto(1, vec![None, Some("https://x/a"), Some("b")], "").cover(), Some("https://x/a.png".to_string()));
    assert_eq!(dto(1, vec![None], "").cover(), None);
}

#[test]
fn ranking_address_counts_from_zero() {
    assert_eq!(
        ranking_url(1),
        "https://story-api.tapas.io/cosmos/api/v1/landing/ranking?category_type=COMIC&subtab_id=17&size=25&page=0"
    );
    assert_eq!(series_key_of(42), "/series/42");
}

#[test]
fn ranking_pages() {
    let response = |meta: Option<Meta>| RankingResponse {
        data: WrapperContent { items: vec![dto(7, vec![Some("c")], "Story"), dto(8, vec![], "")] },
        meta,
    };
    let r = ranking_results(response(Some(Meta { pagination: Some(Pagination { last: false, has_next: true }) })));
    assert!(r.has_next_page);
    assert_eq!(r.entries.len(), 2);
    assert_eq!(r.entries[0].key, "/series/7");
    assert_eq!(r.entries[0].title, "T7");
    assert_eq!(r.entries[0].cover, Some("c.png".to_string()));
    assert_eq!(r.entries[0].description, Some("Story".to_string()));
    assert_eq!(r.entries[1].description, None);
    assert!(!ranking_results(response(Some(Meta { pagination: Some(Pagination { last: true, has_next: false }) }))).has_next_page);
    assert!(!ranking_results(response(Some(Meta { pagination: None }))).has_next_page);
    assert!(!ranking_results(response(None)).has_next_page);
}

#[test]
fn tapas_searching() {
    assert_eq!(search_url("love story", 2), "https://tapas.io/search?pageNumber=2&q=love+story&t=COMICS");
    let m = search_entry(Some("99".to_string()), None, Some("Name".to_string()), Some("img".to_string())).unwrap();
    assert_eq!(m.key, "/series/99");
    assert_eq!(m.title, "Name");
    assert_eq!(m.cover, Some("img".to_string()));
    assert_eq!(search_entry(Some("1".to_string()), Some("Alt".to_string()), Some("Name".to_string()), None).unwrap().title, "Alt");
    assert_eq!(search_entry(Some("1".to_string()), None, None, None).unwrap().title, "");
    assert!(search_entry(None, Some("Alt".to_string()), None, None).is_none());
}

#[test]
fn tapas_details() {
    assert_eq!(info_url("/series/5"), "https://tapas.io/series/5/info");
    let m = update_details(
        new_manga("/series/5".to_string(), "old".to_string()),
        None,
        Some("cov".to_string()),
        Some("desc".to_string()),
        Some(vec!["A".to_string()]),
        None,
        Some("COMPLETED".to_string()),
    );
    assert_eq!(m.url, Some("https://tapas.io/series/5".to_string()));
    assert_eq!(m.title, "old");
    assert_eq!(m.status, MangaStatus::Completed);
    assert_eq!(m.viewer, Viewer::Webtoon);
    assert_eq!(m.content_rating, ContentRating::Safe);
    let m = update_details(new_manga("k".to_string(), "t".to_string()), Some("New".to_string()), None, None, None, None, Some("Updated every Monday".to_string()));
    assert_eq!(m.title, "New");
    assert_eq!(m.status, MangaStatus::Ongoing);
    let m = update_details(new_manga("k".to_string(), "t".to_string()), None, None, None, None, None, Some("Hiatus".to_string()));
    assert_eq!(m.status, MangaStatus::Unknown);
}

#[test]
fn episodes_are_filtered_and_paged() {
    assert_eq!(
        episodes_url("/series/5", 2),
        "https://tapas.io/series/5/episodes?page=2&sort=NEWEST&since=0&large=true&last_access=0"
    );
    let response = ChaptersResponse {
        data: ChapterListData {
            pagination: Pagination { last: false, has_next: true },
            episodes: vec![ep(1, true, false, false), ep(2, false, false, false), ep(3, false, true, true)],
        },
    };
    let mut chapters = Vec::new();
    assert_eq!(add_episodes(&mut chapters, &response, false, false, 1), Some(2));
    assert_eq!(chapters.len(), 1);
    assert_eq!(chapters[0].key, "/episode/1");
    assert_eq!(chapters[0].url, Some("https://tapas.io/episode/1".to_string()));
    assert_eq!(chapters[0].title, Some("Ep 1".to_string()));
    assert_eq!(chapters[0].chapter_number, Some(ChapterNumber::Text("1".to_string())));
    assert_eq!(chapters[0].date_uploaded, Some(1704448800));
    let mut all = Vec::new();
    assert_eq!(add_episodes(&mut all, &response, true, true, 100), None);
    assert_eq!(all.len(), 3);
    assert_eq!(all[1].title, Some("\u{1F512} Ep 2".to_string()));
    assert_eq!(all[2].title, Some("Ep 3".to_string()));
}

#[test]
fn tapas_deep_links() {
    assert_eq!(handle_deep_link("https://tapas.io/series/abc/info"), Some(DeepLinkResult::Manga { key: "/series/abc".to_string() }));
    assert_eq!(handle_deep_link("https://tapas.io/series/abc?x=1"), Some(DeepLinkResult::Manga { key: "/series/abc".to_string() }));
    assert_eq!(handle_deep_link("https://tapas.io/series/"), Some(DeepLinkResult::Manga { key: "/series/".to_string() }));
    assert_eq!(
        handle_deep_link("https://tapas.io/episode/123"),
        Some(DeepLinkResult::Chapter { manga_key: String::new(), key: "/episode/123".to_string() })
    );
    assert_eq!(handle_deep_link("https://tapas.io/about"), None);
    assert_eq!(handle_deep_link("https://m.tapas.io/series/abc"), None);
}
