use mdex_dl::lang::Lang;
use mdex_dl::models::ContentRating;
use mdex_dl::search::{
    all_ratings, chapter_feed_params, content_rating_param, language_filter_param, search_params,
    SearchParamError, MAX_CHAPTER_PAGINATION, MAX_MANGA_PAGINATION,
};

fn lang(code: &str) -> Lang {
    Lang { code: code.to_string() }
}

fn pair(k: &str, v: &str) -> (String, String) {
    (k.to_string(), v.to_string())
}

#[test]
fn language_filter_keys_differ_for_chapters() {
    let langs = vec![lang("en"), lang("fr")];
    assert_eq!(
        language_filter_param(&langs, true).unwrap(),
        vec![pair("translatedLanguage[]", "en"), pair("translatedLanguage[]", "fr")]
    );
    assert_eq!(
        language_filter_param(&langs, false).unwrap(),
        vec![
            pair("availableTranslatedLanguage[]", "en"),
            pair("availableTranslatedLanguage[]", "fr"),
        ]
    );
    // the unknown language has no two-letter code to filter on
    assert_eq!(
        language_filter_param(&vec![lang("")], true),
        Err(SearchParamError::LanguageWithoutCode)
    );
}

#[test]
fn content_ratings_repeat_the_key() {
    assert_eq!(
        content_rating_param(&all_ratings()),
        vec![
            pair("contentRating[]", "safe"),
            pair("contentRating[]", "suggestive"),
            pair("contentRating[]", "erotica"),
            pair("contentRating[]", "pornographic"),
        ]
    );
    assert_eq!(
        content_rating_param(&vec![ContentRating::Safe]),
        vec![pair("contentRating[]", "safe")]
    );
}

#[test]
fn search_params_carry_pagination_and_filters() {
    assert_eq!(MAX_MANGA_PAGINATION, 100);
    let ps = search_params("solo", 2, &lang("en")).unwrap();
    assert_eq!(
        ps,
        vec![
            pair("title", "solo"),
            pair("availableTranslatedLanguage[]", "en"),
            pair("limit", "100"),
            pair("offset", "200"),
            pair("order[relevance]", "desc"),
            pair("contentRating[]", "safe"),
            pair("contentRating[]", "suggestive"),
            pair("contentRating[]", "erotica"),
            pair("contentRating[]", "pornographic"),
        ]
    );
    assert_eq!(search_params("x", 0, &lang("")), Err(SearchParamError::LanguageWithoutCode));
}

#[test]
fn chapter_feed_params_window() {
    assert_eq!(MAX_CHAPTER_PAGINATION, 500);
    let ps = chapter_feed_params(500, MAX_CHAPTER_PAGINATION, &lang("en")).unwrap();
    assert_eq!(
        ps,
        vec![
            pair("offset", "500"),
            pair("limit", "500"),
            pair("translatedLanguage[]", "en"),
            pair("contentRating[]", "safe"),
            pair("contentRating[]", "suggestive"),
            pair("contentRating[]", "erotica"),
            pair("contentRating[]", "pornographic"),
        ]
    );
}
