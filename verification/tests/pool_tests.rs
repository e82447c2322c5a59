use mdex_dl::pool::{BoundedPool, ChapterProgress, DownloadReport};

#[test]
fn bounded_concurrency_never_exceeds_capacity() {
    let mut pool = BoundedPool::new(2);
    assert!(pool.try_acquire());
    assert!(pool.try_acquire());
    // a third task queues up: the pool refuses the slot
    assert!(!pool.try_acquire());
    assert_eq!(pool.in_flight, 2);
    pool.release();
    assert!(pool.try_acquire());
    assert!(pool.in_flight <= pool.capacity);
}

#[test]
fn many_queued_tasks_stay_bounded() {
    let mut pool = BoundedPool::new(3);
    let mut max_in_flight = 0;
    // far more tasks than slots: acquire whenever possible, release one
    // every third step
    for step in 0..100 {
        pool.try_acquire();
        if step % 3 == 2 && pool.in_flight > 0 {
            pool.release();
        }
        if pool.in_flight > max_in_flight {
            max_in_flight = pool.in_flight;
        }
    }
    assert!(max_in_flight <= 3);
}

#[test]
fn chapter_progress_counts_pages() {
    let mut p = ChapterProgress::new(3);
    assert!(!p.is_complete());
    p.advance();
    p.advance();
    p.advance();
    assert!(p.is_complete());
    assert_eq!(p.done, 3);
}

#[test]
fn report_accumulates_and_saturates() {
    let mut r = DownloadReport::new();
    r.add_bytes(100);
    r.add_bytes(23);
    assert_eq!(r.bytes_transferred, 123);
    r.add_bytes(u64::MAX);
    assert_eq!(r.bytes_transferred, u64::MAX);
    r.set_elapsed_ms(512);
    assert_eq!(r.elapsed_ms, 512);
}

#[test]
fn report_absorbs_chapter_totals() {
    let mut work = DownloadReport::new();
    let mut ch1 = DownloadReport::new();
    ch1.add_bytes(10);
    let mut ch2 = DownloadReport::new();
    ch2.add_bytes(32);
    work.absorb(&ch1);
    work.absorb(&ch2);
    assert_eq!(work.bytes_transferred, 42);
}
