use mdex_dl::download::{
    chapter_dir, chapters_with_metadata, effective_permits, infer_extension, metadata_batches,
    page_label, plan_image_tasks, WorkPhase, WorkState,
};
use std::collections::HashMap;

#[test]
fn page_labels_zero_pad_to_page_total_width() {
    // a 12-page chapter zero-pads to width 2: "00".."11"
    assert_eq!(page_label(0, 12), "00");
    assert_eq!(page_label(11, 12), "11");
    assert_eq!(page_label(7, 5), "7");
    assert_eq!(page_label(3, 100), "003");
}

#[test]
fn extension_inferred_from_trailing_segment() {
    assert_eq!(infer_extension("https://c/x/1.png"), ("png".to_string(), true));
    assert_eq!(infer_extension("https://c/x/1.jpeg"), ("jpeg".to_string(), true));
    // unrecognized extensions fall back to the default, with a warning flag
    assert_eq!(infer_extension("https://c/x/1.webp"), ("png".to_string(), false));
    assert_eq!(infer_extension("no-dot-at-all"), ("png".to_string(), false));
}

#[test]
fn planned_tasks_fix_filenames_before_dispatch() {
    let urls: Vec<String> = (0..12).map(|i| format!("https://c/h/p{}.png", i)).collect();
    let tasks = plan_image_tasks(&urls);
    assert_eq!(tasks.len(), 12);
    assert_eq!(tasks[0].filename, "00.png");
    assert_eq!(tasks[11].filename, "11.png");
    assert_eq!(tasks[5].url, urls[5]);
    assert_eq!(tasks[5].page_index, 5);
}

#[test]
fn page_order_preserved_under_reverse_completion() {
    let urls: Vec<String> = vec![
        "https://c/h/a.png".to_string(),
        "https://c/h/b.png".to_string(),
        "https://c/h/c.png".to_string(),
    ];
    let tasks = plan_image_tasks(&urls);
    // complete the downloads in reverse order: page 2 finishes first
    let mut disk: HashMap<String, String> = HashMap::new();
    for k in [2usize, 1, 0] {
        disk.insert(tasks[k].filename.clone(), tasks[k].url.clone());
    }
    assert_eq!(disk.len(), 3);
    assert_eq!(disk["0.png"], "https://c/h/a.png");
    assert_eq!(disk["1.png"], "https://c/h/b.png");
    assert_eq!(disk["2.png"], "https://c/h/c.png");
}

#[test]
fn metadata_batches_are_full_then_remainder() {
    assert_eq!(metadata_batches(85, 40), vec![(0, 40), (40, 80), (80, 85)]);
    assert_eq!(metadata_batches(0, 40), Vec::<(usize, usize)>::new());
    assert_eq!(metadata_batches(40, 40), vec![(0, 40)]);
}

#[test]
fn partial_batch_resilience_keeps_siblings() {
    // metadata failed for chapter 2 (index 1) of a 3-chapter batch:
    // chapters 1 and 3 are kept, in order
    let present = vec![true, false, true];
    assert_eq!(chapters_with_metadata(&present), vec![0, 2]);
}

#[test]
fn effective_permits_clamps() {
    assert_eq!(effective_permits(0, 5), 1);
    assert_eq!(effective_permits(3, 5), 3);
    assert_eq!(effective_permits(9, 5), 5);
}

#[test]
fn chapter_dir_sanitises_titles() {
    // '/' and ':' are not filesystem-safe: the sanitiser replaces them
    assert_eq!(chapter_dir("/root", "a/b", "ch: one"), "/root/a_b/ch_ one");
    assert_eq!(chapter_dir("/root", "Plain Title", "Ch 1"), "/root/Plain Title/Ch 1");
}

#[test]
fn work_state_partially_failed_after_metadata_failure() {
    let mut w = WorkState::new(3);
    assert_eq!(w.phase, WorkPhase::Idle);
    w.start_metadata();
    w.note_metadata_failure();
    w.start_downloads();
    w.note_chapter_done();
    w.note_chapter_done();
    w.finish();
    assert_eq!(w.phase, WorkPhase::PartiallyFailed);
    assert_eq!(w.chapters_done, 2);
    assert_eq!(w.metadata_failed, 1);
}

#[test]
fn work_state_completed_when_clean() {
    let mut w = WorkState::new(2);
    w.start_metadata();
    w.start_downloads();
    w.note_chapter_done();
    w.note_chapter_done();
    w.finish();
    assert_eq!(w.phase, WorkPhase::Completed);
}
