use mdex_dl::menu::{page_options, total_pages, PageAction, PagePosition};

#[test]
fn page_position_classifies() {
    assert_eq!(PagePosition::new(0, 0, 0), PagePosition::All);
    assert_eq!(PagePosition::new(0, 4, 0), PagePosition::Start);
    assert_eq!(PagePosition::new(0, 4, 2), PagePosition::Middle);
    assert_eq!(PagePosition::new(0, 4, 4), PagePosition::End);
}

#[test]
fn page_action_reads_navigation_entries() {
    assert_eq!(PageAction::new(PagePosition::Start, 5, 5), PageAction::Next);
    assert_eq!(PageAction::new(PagePosition::Start, 5, 2), PageAction::Choose);
    assert_eq!(PageAction::new(PagePosition::Middle, 6, 0), PageAction::Last);
    assert_eq!(PageAction::new(PagePosition::Middle, 6, 6), PageAction::Next);
    assert_eq!(PageAction::new(PagePosition::Middle, 6, 3), PageAction::Choose);
    assert_eq!(PageAction::new(PagePosition::End, 5, 0), PageAction::Last);
    assert_eq!(PageAction::new(PagePosition::End, 5, 3), PageAction::Choose);
    assert_eq!(PageAction::new(PagePosition::All, 5, 0), PageAction::Choose);
}

#[test]
fn total_pages_is_the_ceiling() {
    assert_eq!(total_pages(0, 100), 0);
    assert_eq!(total_pages(1, 100), 1);
    assert_eq!(total_pages(100, 100), 1);
    assert_eq!(total_pages(101, 100), 2);
    assert_eq!(total_pages(250, 100), 3);
}

#[test]
fn page_options_insert_navigation() {
    let titles = vec!["[1] A".to_string(), "[2] B".to_string()];
    let (opts, off) = page_options(&titles, PagePosition::Start);
    assert_eq!(opts, vec!["[1] A", "[2] B", "Next page"]);
    assert_eq!(off, 0);
    let (opts, off) = page_options(&titles, PagePosition::Middle);
    assert_eq!(opts, vec!["Last page", "[1] A", "[2] B", "Next page"]);
    assert_eq!(off, 1);
    let (opts, off) = page_options(&titles, PagePosition::End);
    assert_eq!(opts, vec!["Last page", "[1] A", "[2] B"]);
    assert_eq!(off, 1);
    let (opts, off) = page_options(&titles, PagePosition::All);
    assert_eq!(opts, vec!["[1] A", "[2] B"]);
    assert_eq!(off, 0);
}
