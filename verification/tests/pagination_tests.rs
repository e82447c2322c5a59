use mdex_dl::pagination::{collect_paged, next_page_step, PageRequest, PageStep};

#[test]
fn pagination_completeness_small_pages() {
    let items: Vec<u64> = (0..1234).collect();
    let fetched = collect_paged(&items, 100);
    assert_eq!(fetched, items);
}

#[test]
fn pagination_completeness_odd_page_size() {
    let items: Vec<u64> = (0..500).collect();
    let fetched = collect_paged(&items, 7);
    assert_eq!(fetched, items);
}

#[test]
fn pagination_single_page() {
    let items: Vec<u64> = (0..10).collect();
    let fetched = collect_paged(&items, 500);
    assert_eq!(fetched, items);
}

#[test]
fn full_collection_at_the_bound_is_complete() {
    // 20 windows of 500 end exactly at the bound: nothing is cut off
    let items: Vec<u64> = (0..10_000).collect();
    let fetched = collect_paged(&items, 500);
    assert_eq!(fetched, items);
}

#[test]
fn boundary_halt_returns_prefix() {
    let items: Vec<u64> = (0..10_000).collect();
    let fetched = collect_paged(&items, 300);
    // offsets 0, 300, ..., 9600 are issued; 9900 + 300 > 10_000 halts
    assert_eq!(fetched.len(), 9900);
    assert_eq!(&fetched[..], &items[..9900]);
}

#[test]
fn boundary_page_is_never_issued() {
    assert_eq!(next_page_step(9900, 300, 10_000), PageStep::Boundary);
    assert_eq!(next_page_step(10_000, 500, 20_000), PageStep::Boundary);
}

#[test]
fn next_page_step_done_and_fetch() {
    assert_eq!(next_page_step(500, 500, 400), PageStep::Done);
    assert_eq!(
        next_page_step(500, 500, 1200),
        PageStep::Fetch(PageRequest { offset: 500, limit: 500 })
    );
}
