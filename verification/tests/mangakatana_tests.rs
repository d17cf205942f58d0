use manga_sources::mangakatana::{extract_pages, handle_deep_link, parse_chapter_number, search_url};
use manga_sources::model::{ChapterNumber, DeepLinkResult};

#[test]
fn extract_pages_reads_the_array_named_by_data_src() {
    let script = "var thzq=['https://i1.mangakatana.com/a.jpg','https://i1.mangakatana.com/b.jpg',];\
        function x(){ $(el).attr('data-src', thzq[i]); }";
    assert_eq!(
        extract_pages(script),
        vec![
            "https://i1.mangakatana.com/a.jpg".to_string(),
            "https://i1.mangakatana.com/b.jpg".to_string()
        ]
    );
}

#[test]
fn extract_pages_without_marker_is_empty() {
    assert!(extract_pages("var a=['http://x'];").is_empty());
}

#[test]
fn mangakatana_deep_links() {
    assert_eq!(
        handle_deep_link("https://mangakatana.com/manga/naruto.123"),
        Some(DeepLinkResult::Manga { key: "/manga/naruto.123".to_string() })
    );
    assert_eq!(
        handle_deep_link("https://mangakatana.com/manga/naruto.123/c45"),
        Some(DeepLinkResult::Chapter {
            manga_key: "/manga/naruto.123".to_string(),
            key: "/manga/naruto.123/c45".to_string()
        })
    );
    assert_eq!(handle_deep_link("https://example.com/manga/x"), None);
}

#[test]
fn mangakatana_deep_links_with_slugs_starting_with_c() {
    assert_eq!(
        handle_deep_link("https://mangakatana.com/manga/chainsaw-man.21427"),
        Some(DeepLinkResult::Manga { key: "/manga/chainsaw-man.21427".to_string() })
    );
    assert_eq!(
        handle_deep_link("https://mangakatana.com/manga/chainsaw-man.21427/c12"),
        Some(DeepLinkResult::Chapter {
            manga_key: "/manga/chainsaw-man.21427".to_string(),
            key: "/manga/chainsaw-man.21427/c12".to_string()
        })
    );
}

#[test]
fn chapter_numbers_ignore_case() {
    assert_eq!(parse_chapter_number("CHAPTER 3"), ChapterNumber::Text("3".to_string()));
    assert_eq!(parse_chapter_number("ChApTeR 3"), parse_chapter_number("chapter 3"));
}

#[test]
fn chapter_numbers() {
    assert_eq!(parse_chapter_number("Vol.2 Chapter 7"), ChapterNumber::Text("7".to_string()));
    assert_eq!(parse_chapter_number("Chapter 10.5: x"), ChapterNumber::Text("10.5".to_string()));
}

#[test]
fn search_urls() {
    assert_eq!(search_url(None, 3), "https://mangakatana.com/manga/page/3");
    assert_eq!(
        search_url(Some("one piece".to_string()), -12),
        "https://mangakatana.com/page/-12?search=one+piece&search_by=book_name"
    );
}
