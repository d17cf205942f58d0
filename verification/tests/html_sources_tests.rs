use manga_sources::model::{
    new_manga, ChapterNumber, ContentRating, DeepLinkResult, FilterValue, MangaStatus,
    UpdateStrategy, Viewer,
};
use manga_sources::{fanfox, mangafreak, mangahere, mangakatana, mangapill, manhuaus};

fn s(x: &str) -> String {
    x.to_string()
}

#[test]
fn fanfox_search_requests() {
    let r = fanfox::search_request(None, 1, &vec![]);
    assert_eq!(r.url, "https://fanfox.net/directory/");
    assert_eq!(r.selector, "ul.manga-list-1-list li");
    assert_eq!(fanfox::search_request(None, 3, &vec![]).url, "https://fanfox.net/directory/3.html");
    let r = fanfox::search_request(Some(s("one piece")), 2, &vec![]);
    assert_eq!(r.url, "https://fanfox.net/search?page=2&title=one+piece&type=0&genres=&nogenres=&sort=&stype=1");
    assert_eq!(r.selector, "ul.manga-list-4-list li");
    let filters = vec![
        FilterValue::MultiSelect { id: s("genre"), included: vec![s("1"), s("2")], excluded: vec![s("9")] },
        FilterValue::Select { id: s("type"), value: s("2") },
        FilterValue::Other,
    ];
    assert_eq!(
        fanfox::search_request(None, 1, &filters).url,
        "https://fanfox.net/search?page=1&title=&type=2&genres=1,2&nogenres=9&sort=&stype=1"
    );
    // Type "0" alone is no active filter.
    let only_type = vec![FilterValue::Select { id: s("type"), value: s("0") }];
    assert_eq!(fanfox::search_request(None, 1, &only_type).url, "https://fanfox.net/directory/");
    // The last genre filter wins; other ids are ignored.
    let two = vec![
        FilterValue::MultiSelect { id: s("genre"), included: vec![s("1")], excluded: vec![] },
        FilterValue::MultiSelect { id: s("other"), included: vec![s("5")], excluded: vec![] },
        FilterValue::MultiSelect { id: s("genre"), included: vec![s("3")], excluded: vec![] },
    ];
    assert_eq!(
        fanfox::search_request(None, 1, &two).url,
        "https://fanfox.net/search?page=1&title=&type=0&genres=3&nogenres=&sort=&stype=1"
    );
}

#[test]
fn fanfox_entries_chapters_and_links() {
    let m = fanfox::parse_entry(Some(s("https://fanfox.net/manga/naruto/")), Some(s("Naruto")), None).unwrap();
    assert_eq!(m.key, "/manga/naruto/");
    assert_eq!(m.title, "Naruto");
    assert!(fanfox::parse_entry(None, None, None).is_none());
    let c = fanfox::chapter_from_link(Some(s("https://m.fanfox.net/manga/naruto/c001/1.html")), &vec![s("Ch.001"), s("Jan 05,2024")]).unwrap();
    assert_eq!(c.key, "/manga/naruto/c001/1.html");
    assert_eq!(c.title, Some(s("Ch.001")));
    assert_eq!(c.date_uploaded, Some(1704412800));
    assert_eq!(c.url, Some(s("https://m.fanfox.net/manga/naruto/c001/1.html")));
    let c = fanfox::chapter_from_link(Some(s("x")), &vec![]).unwrap();
    assert_eq!(c.title, None);
    assert_eq!(c.date_uploaded, None);
    assert_eq!(fanfox::reader_url("/manga/naruto/c001/1.html"), "https://m.fanfox.net/roll_manga/naruto/c001/1.html");
    assert_eq!(
        fanfox::handle_deep_link("https://fanfox.net/manga/naruto/"),
        Some(DeepLinkResult::Manga { key: s("/manga/naruto/") })
    );
    assert_eq!(
        fanfox::handle_deep_link("https://m.fanfox.net/manga/naruto/c001/1.html"),
        Some(DeepLinkResult::Chapter { manga_key: String::new(), key: s("/manga/naruto/c001/1.html") })
    );
    assert_eq!(fanfox::handle_deep_link("https://fanfox.net/directory/"), None);
}

#[test]
fn fanfox_and_mangahere_details() {
    let m = fanfox::update_details(new_manga(s("/manga/x/"), s("X")), s("u"), None, None, None, None, Some(s("Status: Ongoing")));
    assert_eq!(m.status, MangaStatus::Ongoing);
    assert_eq!(m.viewer, Viewer::RightToLeft);
    assert_eq!(m.content_rating, ContentRating::Safe);
    assert_eq!(m.url, Some(s("u")));
    let m = mangahere::update_details(new_manga(s("/manga/x/"), s("X")), s("u"), None, None, None, None, Some(s("COMPLETED")));
    assert_eq!(m.status, MangaStatus::Completed);
    let m = mangahere::update_details(new_manga(s("/manga/x/"), s("X")), s("u"), None, None, None, None, None);
    assert_eq!(m.status, MangaStatus::Unknown);
}

#[test]
fn mangahere_requests_and_links() {
    let r = mangahere::search_request(None, 1);
    assert_eq!(r.url, "https://www.mangahere.cc/directory/1.htm");
    assert_eq!(r.selector, ".manga-list-1-list li");
    let r = mangahere::search_request(Some(s("a b")), 4);
    assert_eq!(r.url, "https://www.mangahere.cc/search?page=4&title=a+b");
    assert_eq!(r.selector, ".manga-list-4-list > li");
    assert_eq!(mangahere::reader_url("/manga/x/c1/1.html"), "https://m.mangahere.cc/roll_manga/x/c1/1.html");
    assert_eq!(
        mangahere::handle_deep_link("https://www.mangahere.cc/manga/x/"),
        Some(DeepLinkResult::Manga { key: s("/manga/x/") })
    );
    assert_eq!(mangahere::handle_deep_link("https://www.mangahere.cc/search"), None);
}

#[test]
fn mangafreak_pages_and_chapters() {
    assert_eq!(mangafreak::search_url(None, 2), "https://ww2.mangafreak.me/Genre/All/2");
    assert_eq!(mangafreak::search_url(Some(s("one piece")), 2), "https://ww2.mangafreak.me/Find/one_piece");
    assert_eq!(mangafreak::parse_chapter_number("Naruto 700.5 - End"), ChapterNumber::Text(s("700.5")));
    let data = vec![s("x"), s("1999"), s("  ON-GOING "), s(" Kishimoto "), s("   ")];
    let m = mangafreak::update_details(new_manga(s("/Manga/Naruto"), s("N")), s("u"), None, None, &data, None, None);
    assert_eq!(m.status, MangaStatus::Ongoing);
    assert_eq!(m.authors, Some(vec![s("Kishimoto")]));
    assert_eq!(m.artists, None);
    assert_eq!(m.update_strategy, UpdateStrategy::Always);
    let m = mangafreak::update_details(new_manga(s("k"), s("N")), s("u"), Some(s("T")), None, &vec![s(""), s(""), s("COMPLETED")], None, None);
    assert_eq!(m.status, MangaStatus::Completed);
    assert_eq!(m.update_strategy, UpdateStrategy::Never);
    assert_eq!(m.title, "T");
    assert_eq!(m.authors, None);
    let c = mangafreak::chapter_from_row(Some(s("/Read1_Naruto_1")), Some(s("https://ww2.mangafreak.me/Read1_Naruto_1")), &vec![s("Naruto 1"), s("2024/01/05")]).unwrap();
    assert_eq!(c.key, "/Read1_Naruto_1");
    assert_eq!(c.chapter_number, Some(ChapterNumber::Text(s("1"))));
    assert_eq!(c.date_uploaded, Some(1704412800));
    assert!(mangafreak::chapter_from_row(None, None, &vec![]).is_none());
    assert_eq!(
        mangafreak::handle_deep_link("https://ww2.mangafreak.me/Read1_Naruto_1"),
        Some(DeepLinkResult::Chapter { manga_key: String::new(), key: s("/Read1_Naruto_1") })
    );
    assert_eq!(
        mangafreak::handle_deep_link("https://ww2.mangafreak.me/Manga/Naruto"),
        Some(DeepLinkResult::Manga { key: s("/Manga/Naruto") })
    );
    assert_eq!(mangafreak::handle_deep_link("https://ww2.mangafreak.me/Genre"), None);
}

#[test]
fn mangapill_words_status_and_links() {
    assert_eq!(mangapill::split_words("  Chapter\t179.5  end "), vec![s("Chapter"), s("179.5"), s("end")]);
    assert_eq!(mangapill::split_words("   "), Vec::<String>::new());
    assert_eq!(mangapill::search_url(None, 1), "https://mangapill.com/search?page=1&q=");
    assert_eq!(mangapill::search_url(Some(s("a b")), 3), "https://mangapill.com/search?page=3&q=a+b");
    let m = mangapill::update_details(
        new_manga(s("/manga/1/x"), s("X")),
        s("u"),
        None,
        Some(s("src")),
        None,
        Some(vec![s("Action"), s(""), s("Drama")]),
        Some(vec![s("Type"), s("On Hiatus")]),
    );
    assert_eq!(m.cover, Some(s("src")));
    assert_eq!(m.tags, Some(vec![s("Action"), s("Drama")]));
    assert_eq!(m.status, MangaStatus::Hiatus);
    let status = |spans: &[&str]| {
        mangapill::update_details(new_manga(s("k"), s("t")), s("u"), None, None, None, None, Some(spans.iter().map(|x| x.to_string()).collect())).status
    };
    assert_eq!(status(&["Publishing"]), MangaStatus::Ongoing);
    assert_eq!(status(&["Finished"]), MangaStatus::Completed);
    assert_eq!(status(&["Discontinued"]), MangaStatus::Cancelled);
    assert_eq!(status(&["on", "hiatus"]), MangaStatus::Hiatus);
    let c = mangapill::chapter_from_link(Some(s("/chapters/1-10179500/x-chapter-179.5")), Some(s("Chapter 179.5")), None).unwrap();
    assert_eq!(c.chapter_number, Some(ChapterNumber::LastOf(vec![s("Chapter"), s("179.5")])));
    assert_eq!(
        mangapill::handle_deep_link("https://mangapill.com/chapters/1-10179500/x"),
        Some(DeepLinkResult::Chapter { manga_key: String::new(), key: s("/chapters/1-10179500/x") })
    );
    assert_eq!(
        mangapill::handle_deep_link("https://mangapill.com/manga/1/x"),
        Some(DeepLinkResult::Manga { key: s("/manga/1/x") })
    );
    assert_eq!(mangapill::handle_deep_link("https://mangapill.com/search"), None);
    let e = mangapill::parse_entry(Some(s("/manga/1/x")), None, Some(s("ds")), Some(s("src"))).unwrap();
    assert_eq!(e.cover, Some(s("ds")));
    assert_eq!(e.title, "");
}

#[test]
fn mangakatana_details_and_single_results() {
    let m = mangakatana::single_result(Some(s("Naruto")), None, Some(s("https://mangakatana.com/manga/naruto.1")), None).unwrap();
    assert_eq!(m.key, "/manga/naruto.1");
    assert!(mangakatana::single_result(None, Some(s("x")), None, None).is_none());
    assert!(mangakatana::single_result(Some(s("x")), None, None, None).is_none());
    let r = mangakatana::search_results(vec![], Some(m.clone()), true);
    assert_eq!(r.entries.len(), 1);
    assert!(!r.has_next_page);
    let r = mangakatana::search_results(vec![m.clone()], None, true);
    assert!(r.has_next_page);
    let d = mangakatana::update_details(new_manga(s("/manga/x.1"), s("X")), s("u"), None, None, None, None, None, Some(s("Completed")));
    assert_eq!(d.status, MangaStatus::Completed);
    assert_eq!(d.update_strategy, UpdateStrategy::Never);
    let c = mangakatana::chapter_from_row(Some(s("https://mangakatana.com/manga/x.1/c2")), Some(s("Chapter 2")), Some(s("Jan-05-2024"))).unwrap();
    assert_eq!(c.key, "/manga/x.1/c2");
    assert_eq!(c.date_uploaded, Some(1704412800));
    assert_eq!(mangakatana::reader_url("/manga/x.1/c2", ""), "https://mangakatana.com/manga/x.1/c2");
    assert_eq!(mangakatana::reader_url("/manga/x.1/c2", "mk"), "https://mangakatana.com/manga/x.1/c2?sv=mk");
}

#[test]
fn manhuaus_settings() {
    let p = manhuaus::params();
    assert_eq!(p.base_url, "https://manhuaus.com");
    assert!(p.use_new_chapter_endpoint);
    assert!(!p.filter_non_manga_items);
}

#[test]
fn mangafreak_chapter_rows_skip_unlinked_and_keep_the_page_order() {
    let row = |href: Option<&str>, name: &str| mangafreak::ChapterRow {
        href: href.map(s),
        abs_href: href.map(|h| format!("https://ww2.mangafreak.me{h}")),
        cells: vec![s(name), s("2024/01/05")],
    };
    // The page lists the newest chapter first; the list keeps that order.
    let chapters = mangafreak::chapters_from_rows(&vec![
        row(Some("/Read1_Naruto_2"), "Naruto 2"),
        row(None, "Naruto 1.5"),
        row(Some("/Read1_Naruto_1"), "Naruto 1"),
    ]);
    assert_eq!(chapters.len(), 2);
    assert_eq!(chapters[0].key, "/Read1_Naruto_2");
    assert_eq!(chapters[0].chapter_number, Some(ChapterNumber::Text(s("2"))));
    assert_eq!(chapters[1].key, "/Read1_Naruto_1");
    assert_eq!(chapters[1].url, Some(s("https://ww2.mangafreak.me/Read1_Naruto_1")));
    assert!(mangafreak::chapters_from_rows(&vec![]).is_empty());
}

#[test]
fn mangafreak_search_pages() {
    let one = || vec![new_manga(s("/Manga/Naruto"), s("Naruto"))];
    let browse = mangafreak::search_page(&None, one(), true);
    assert!(browse.has_next_page);
    assert_eq!(browse.entries.len(), 1);
    assert!(mangafreak::search_page(&Some(s("")), one(), true).has_next_page);
    assert!(!mangafreak::search_page(&None, one(), false).has_next_page);
    // A search by name is one page, whatever the page links to.
    assert!(!mangafreak::search_page(&Some(s("naruto")), one(), true).has_next_page);
    assert_eq!(mangafreak::search_selectors(&None), (s("div.ranking_item"), s("a")));
    assert_eq!(
        mangafreak::search_selectors(&Some(s("naruto"))),
        (s("div.manga_search_item, div.mangaka_search_item"), s("h3 a, h5 a"))
    );
}

#[test]
fn catalogue_entries_leave_other_fields_at_their_defaults() {
    let m = mangafreak::parse_entry(Some(s("/Manga/Naruto")), Some(s("Naruto")), Some(s("c.jpg"))).unwrap();
    assert_eq!(m.content_rating, ContentRating::Unknown);
    assert_eq!(m.viewer, Viewer::Unknown);
    assert_eq!(m.update_strategy, UpdateStrategy::Always);
    assert_eq!(m.description, None);
    assert_eq!(m.authors, None);
    assert_eq!(m.tags, None);
    let m = mangakatana::parse_list_entry(Some(s("https://mangakatana.com/manga/x.1")), None, None).unwrap();
    assert_eq!(m.content_rating, ContentRating::Unknown);
    assert_eq!(m.status, MangaStatus::Unknown);
    assert_eq!(m.title, "");
}
