use mdex_dl::lang::Lang;
use mdex_dl::models::{
    Chapter, ChapterAttributes, ChapterData, IntegrityError, Manga, MangaAttributes, MangaData,
    Relationship, ContentRating, State, Status,
};
use mdex_dl::search::SearchResults;

const UUID: &str = "0a1b2c3d-0000-1111-2222-333344445555";

fn lang(code: &str) -> Lang {
    Lang { code: code.to_string() }
}

fn chapter(number: Option<&str>, title: Option<&str>, rels: Vec<(&str, &str)>) -> Chapter {
    Chapter::from_data(ChapterData {
        id: UUID.to_string(),
        type_: "chapter".to_string(),
        attributes: ChapterAttributes {
            volume: None,
            chapter_number: number.map(|s| s.to_string()),
            title: title.map(|s| s.to_string()),
            translated_language: lang("en"),
            external_url: None,
            is_unavailable: false,
            publish_at: 0,
            readable_at: 0,
            created_at: 0,
            pages: 12,
            version: 1,
        },
        relationships: rels
            .into_iter()
            .map(|(kind, id)| Relationship { id: id.to_string(), type_: kind.to_string() })
            .collect(),
    })
}

fn manga(titles: Vec<(&str, &str)>, alts: Vec<Vec<(&str, &str)>>) -> Manga {
    Manga::from_data(MangaData {
        id: UUID.to_string(),
        type_: "manga".to_string(),
        attributes: MangaAttributes {
            title: titles.into_iter().map(|(c, t)| (lang(c), t.to_string())).collect(),
            alt_titles: alts
                .into_iter()
                .map(|m| m.into_iter().map(|(c, t)| (lang(c), t.to_string())).collect())
                .collect(),
            description: vec![],
            is_locked: false,
            links: None,
            official_links: None,
            original_language: lang("ja"),
            last_volume: None,
            last_chapter: None,
            publication_demographic: None,
            status: Status::Ongoing,
            year: None,
            content_rating: ContentRating::Safe,
            tags: vec![],
            state: State::Published,
            chapter_numbers_reset_on_new_volume: false,
            created_at: 0,
            updated_at: 0,
            version: 1,
        },
        relationships: vec![],
    })
}

#[test]
fn formatted_title_pads_and_suffixes() {
    let c = chapter(Some("11"), Some("I broke through"), vec![]);
    assert_eq!(c.formatted_title(), "[011] I broke through (0a1b2c3d)");
}

#[test]
fn formatted_title_without_number_or_title() {
    let c = chapter(None, None, vec![]);
    assert_eq!(c.formatted_title(), "[---] (0a1b2c3d)");
    let c = chapter(Some("7"), Some(""), vec![]);
    assert_eq!(c.formatted_title(), "[007] (0a1b2c3d)");
}

#[test]
fn parent_uuid_scans_relationships() {
    let c = chapter(
        Some("1"),
        None,
        vec![("scanlation_group", "g-1"), ("manga", "m-1"), ("manga", "m-2")],
    );
    assert_eq!(c.parent_uuid(), Ok(&"m-1".to_string()));
}

#[test]
fn parent_uuid_absence_is_an_integrity_error() {
    let c = chapter(Some("1"), None, vec![("scanlation_group", "g-1")]);
    assert_eq!(c.parent_uuid(), Err(IntegrityError::MissingParentWork));
}

#[test]
fn title_prefers_the_requested_language() {
    let m = manga(vec![("ja", "JT"), ("en", "ET")], vec![]);
    assert_eq!(m.title(&lang("en")), "ET");
}

#[test]
fn title_falls_back_to_alt_titles_then_any() {
    let m = manga(vec![("ja", "JT")], vec![vec![("fr", "FT")], vec![("en", "AT")]]);
    assert_eq!(m.title(&lang("en")), "AT");
    // no entry for "de" anywhere: any available title (the first)
    assert_eq!(m.title(&lang("de")), "JT");
}

#[test]
fn search_results_display_and_get() {
    let m1 = manga(vec![("en", "First")], vec![]);
    let m2 = manga(vec![("en", "Second")], vec![]);
    let results = SearchResults { data: vec![m1.data, m2.data], total: 2 };
    assert_eq!(results.display(&lang("en")), vec!["[1] First", "[2] Second"]);
    assert!(results.get(1).is_some());
    assert!(results.get(2).is_none());
}
