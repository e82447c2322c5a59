use mdex_dl::cdn::{CdnParseError, CdnWarning, ChapterCdnInfo};
use mdex_dl::config::ImageQuality;

fn info(base: &str, hash: &str, data: Vec<&str>, saver: Vec<&str>) -> ChapterCdnInfo {
    ChapterCdnInfo {
        base_url: base.to_string(),
        hash: hash.to_string(),
        data: data.into_iter().map(|s| s.to_string()).collect(),
        data_saver: saver.into_iter().map(|s| s.to_string()).collect(),
    }
}

#[test]
fn url_construction_exact_order() {
    let cdn = info("https://cdn.example/", "abc123", vec!["1.png", "2.png"], vec![]);
    let urls = cdn.construct_image_urls(ImageQuality::Lossless);
    assert_eq!(
        urls,
        vec![
            "https://cdn.example/data/abc123/1.png".to_string(),
            "https://cdn.example/data/abc123/2.png".to_string(),
        ]
    );
}

#[test]
fn url_construction_adds_missing_slash() {
    let cdn = info("https://cdn.example", "abc123", vec!["1.png"], vec![]);
    let urls = cdn.construct_image_urls(ImageQuality::Lossless);
    assert_eq!(urls, vec!["https://cdn.example/data/abc123/1.png".to_string()]);
}

#[test]
fn url_construction_data_saver_tier() {
    let cdn = info("https://cdn.example", "h", vec!["1.png"], vec!["1.jpg", "2.jpg"]);
    let urls = cdn.construct_image_urls(ImageQuality::Lossy);
    assert_eq!(
        urls,
        vec![
            "https://cdn.example/data-saver/h/1.jpg".to_string(),
            "https://cdn.example/data-saver/h/2.jpg".to_string(),
        ]
    );
}

#[test]
fn new_reads_delivery_metadata() {
    let body =
        "{\"baseUrl\":\"https://x\",\"chapter\":{\"hash\":\"h\",\"data\":[\"a.png\"],\"dataSaver\":[\"a.jpg\"]}}";
    let cdn = ChapterCdnInfo::new(body).unwrap();
    assert_eq!(cdn.base_url, "https://x");
    assert_eq!(cdn.hash, "h");
    assert_eq!(cdn.data, vec!["a.png".to_string()]);
    assert_eq!(cdn.data_saver, vec!["a.jpg".to_string()]);
}

#[test]
fn new_names_the_missing_field() {
    assert!(matches!(ChapterCdnInfo::new("{\"chapter\":{}}"), Err(CdnParseError::BaseUrl)));
    assert!(matches!(
        ChapterCdnInfo::new("{\"baseUrl\":\"https://x\",\"chapter\":{\"hash\":3}}"),
        Err(CdnParseError::Hash)
    ));
    assert!(matches!(
        ChapterCdnInfo::new("{\"baseUrl\":\"https://x\",\"chapter\":{\"hash\":\"h\",\"data\":[3]}}"),
        Err(CdnParseError::Data)
    ));
    assert!(matches!(ChapterCdnInfo::new("not json"), Err(CdnParseError::BaseUrl)));
}

#[test]
fn warnings_for_inconsistent_shape() {
    let cdn = info("b", "", vec!["1.png"], vec![]);
    let w = cdn.consistency_warnings();
    assert_eq!(
        w,
        vec![CdnWarning::InconsistentCounts, CdnWarning::EmptyHash, CdnWarning::NoLossyImages]
    );
}

#[test]
fn no_warnings_for_consistent_shape() {
    let cdn = info("b", "h", vec!["1.png"], vec!["1.jpg"]);
    assert_eq!(cdn.consistency_warnings(), Vec::<CdnWarning>::new());
}
