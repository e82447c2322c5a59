use mdex_dl::endpoints::Endpoint;

#[test]
fn simple_endpoints_render_their_uri() {
    assert_eq!(Endpoint::GetChapter("u1".to_string()).as_string(), "/chapter/u1");
    assert_eq!(Endpoint::GetChapterCdn("u2".to_string()).as_string(), "/at-home/server/u2");
    assert_eq!(Endpoint::GetManga("u3".to_string()).as_string(), "/manga/u3");
}

#[test]
fn search_query_is_percent_encoded() {
    let e = Endpoint::SearchManga(vec![
        ("title".to_string(), "a b".to_string()),
        ("contentRating[]".to_string(), "safe".to_string()),
    ]);
    assert_eq!(e.as_string(), "/manga?title=a+b&contentRating%5B%5D=safe");
}

#[test]
fn chapter_feed_carries_query() {
    let e = Endpoint::GetMangaChapters(
        "u4".to_string(),
        vec![("offset".to_string(), "0".to_string()), ("limit".to_string(), "500".to_string())],
    );
    assert_eq!(e.as_string(), "/manga/u4/feed?offset=0&limit=500");
}
