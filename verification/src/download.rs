//! The planning side of the two-tier bounded-concurrency download
//! orchestrator: destination directories, page labels and filenames,
//! the per-image task list, metadata batching, and the per-work state
//! machine. The application executes the plans with real pools and
//! I/O; the laws here say the on-disk layout is fixed by the plan, not
//! by the order downloads happen to finish in.

use vstd::prelude::*;
use vstd::string::StringExecFns;
use crate::text::dec_rep;
use crate::text::dec_width;
use crate::text::lemma_dec_rep_len_monotonic;
use crate::text::lemma_padded_injective;
use crate::text::pad_left_zeros;
use crate::text::padded;
use crate::text::str_eq;
use crate::text::usize_to_dec;

verus! {

/// The upstream API's per-minute request allowance for the delivery-
/// metadata endpoint; metadata fetches are batched to at most this
/// many in flight.
pub const CDN_METADATA_RATELIMIT: usize = 40;

/// What a filename sanitiser makes of a title. The exact replacement
/// rules are the sanitiser's own; only determinism and non-emptiness
/// are relied on.
pub uninterp spec fn sanitised(s: Seq<char>) -> Seq<char>;

/// Relies on sanitise_file_name::sanitise (default options): replaces
/// filesystem-unsafe characters, a fixed function of the title alone,
/// and never returns an empty name (an empty result becomes `_`).
#[verifier::external_body]
fn sanitise_component(s: &str) -> (r: String)
    ensures
        r@ == sanitised(s@),
        r@.len() >= 1,
{
    sanitise_file_name::sanitise(s)
}

/// The destination directory of one chapter:
/// `saveRoot/sanitisedWorkTitle/sanitisedChapterTitle`.
pub fn chapter_dir(save_root: &str, work_title: &str, chapter_title: &str) -> (r: String)
    ensures
        r@ == save_root@ + "/"@ + sanitised(work_title@) + "/"@ + sanitised(chapter_title@),
{
    let mut r = save_root.to_owned();
    r.append("/");
    let work = sanitise_component(work_title);
    r.append(work.as_str());
    r.append("/");
    let chapter = sanitise_component(chapter_title);
    r.append(chapter.as_str());
    r
}

/// `k` is the position of the last dot of `s`.
pub open spec fn is_last_dot(s: Seq<char>, k: int) -> bool {
    0 <= k < s.len() && s[k] == '.' && (forall|j: int| k < j < s.len() ==> s[j] != '.')
}

/// A string has at most one last dot.
pub proof fn lemma_last_dot_unique(s: Seq<char>, k1: int, k2: int)
    requires
        is_last_dot(s, k1),
        is_last_dot(s, k2),
    ensures
        k1 == k2,
{
    if k1 < k2 {
        assert(s[k2] != '.');
    } else if k2 < k1 {
        assert(s[k1] != '.');
    }
}

/// The part of a URL after its last dot, when it has one.
pub fn trailing_segment(s: &str) -> (r: Option<String>)
    ensures
        r is Some <==> exists|k: int| is_last_dot(s@, k),
        r matches Some(e) ==> exists|k: int|
            is_last_dot(s@, k) && e@ == s@.subrange(k + 1, s@.len() as int),
{
    let n = s.unicode_len();
    let mut i: usize = n;
    while i > 0
        invariant
            0 <= i <= n,
            n == s@.len(),
            forall|j: int| i <= j < n ==> s@[j] != '.',
        decreases i,
    {
        let c = s.get_char(i - 1);
        if c == '.' {
            let e = s.substring_char(i, n).to_owned();
            proof {
                assert(is_last_dot(s@, i - 1));
            }
            return Option::Some(e);
        }
        i -= 1;
    }
    Option::None
}

/// The file extensions the upstream CDN serves.
pub open spec fn spec_known_ext(e: Seq<char>) -> bool {
    e == "png"@ || e == "jpg"@ || e == "jpeg"@ || e == "gif"@
}

/// The extension a page is saved under: the URL's trailing segment
/// when it is one of the known image extensions, else the default
/// `png` (with a warning at the call site).
pub open spec fn spec_inferred_ext(url: Seq<char>) -> Seq<char> {
    if exists|k: int| is_last_dot(url, k) {
        let k = choose|k: int| is_last_dot(url, k);
        let e = url.subrange(k + 1, url.len() as int);
        if spec_known_ext(e) {
            e
        } else {
            "png"@
        }
    } else {
        "png"@
    }
}

/// Infers the saved-file extension from an image URL's trailing path
/// segment. The flag says whether the URL carried a recognized
/// extension; when it did not, the default is used and the caller
/// warns.
pub fn infer_extension(url: &str) -> (r: (String, bool))
    ensures
        r.0@ == spec_inferred_ext(url@),
        r.1 <==> exists|k: int|
            is_last_dot(url@, k) && spec_known_ext(url@.subrange(k + 1, url@.len() as int)),
{
    match trailing_segment(url) {
        Option::Some(e) => {
            let known = str_eq(e.as_str(), "png") || str_eq(e.as_str(), "jpg") || str_eq(
                e.as_str(),
                "jpeg",
            ) || str_eq(e.as_str(), "gif");
            proof {
                let k0 = choose|k: int|
                    is_last_dot(url@, k) && e@ == url@.subrange(k + 1, url@.len() as int);
                let kc = choose|k: int| is_last_dot(url@, k);
                lemma_last_dot_unique(url@, k0, kc);
                if !known {
                    assert forall|k: int| is_last_dot(url@, k) implies !spec_known_ext(
                        url@.subrange(k + 1, url@.len() as int),
                    ) by {
                        lemma_last_dot_unique(url@, k, k0);
                    }
                }
            }
            if known {
                (e, true)
            } else {
                ("png".to_owned(), false)
            }
        },
        Option::None => ("png".to_owned(), false),
    }
}

/// The zero-padded label of page `index` among `count` pages: padded
/// to the width of `count`'s decimal representation.
pub open spec fn spec_page_label(index: nat, count: nat) -> Seq<char> {
    padded(dec_rep(index), dec_rep(count).len())
}

/// The zero-padded label of page `index` among `count` pages.
pub fn page_label(index: usize, count: usize) -> (r: String)
    ensures
        r@ == spec_page_label(index as nat, count as nat),
{
    let digits = usize_to_dec(index);
    let width = dec_width(count);
    pad_left_zeros(digits.as_str(), width)
}

/// The filename a page is written to: its zero-padded label, a dot,
/// and the inferred extension.
pub fn image_filename(label: &str, ext: &str) -> (r: String)
    ensures
        r@ == label@ + "."@ + ext@,
{
    let mut r = label.to_owned();
    r.append(".");
    r.append(ext);
    r
}

/// The filename of page `index` among `count` pages fetched from
/// `url`.
pub open spec fn spec_task_filename(url: Seq<char>, count: nat, index: nat) -> Seq<char> {
    spec_page_label(index, count) + "."@ + spec_inferred_ext(url)
}

/// One image to fetch and write: created per page, consumed once. The
/// page index — and with it the on-disk filename — is fixed when the
/// task is created, before anything is dispatched.
#[derive(Debug, Clone)]
pub struct DownloadTask {
    pub url: String,
    pub page_index: usize,
    pub filename: String,
}

/// The task list `plan_image_tasks` promises for a URL list.
pub open spec fn planned_tasks(tasks: Seq<DownloadTask>, urls: Seq<Seq<char>>) -> bool {
    &&& tasks.len() == urls.len()
    &&& forall|i: int|
        0 <= i < tasks.len() ==> {
            &&& (#[trigger] tasks[i]).url@ == urls[i]
            &&& tasks[i].page_index == i
            &&& tasks[i].filename@ == spec_task_filename(urls[i], tasks.len() as nat, i as nat)
        }
}

/// Plans one task per image URL, in page order: task `i` fetches
/// `urls[i]` and writes it under the zero-padded label of `i`.
pub fn plan_image_tasks(urls: &Vec<String>) -> (r: Vec<DownloadTask>)
    ensures
        planned_tasks(r@, urls@.map_values(|u: String| u@)),
{
    let count = urls.len();
    let mut r: Vec<DownloadTask> = Vec::new();
    let mut i: usize = 0;
    while i < count
        invariant
            0 <= i <= count,
            count == urls@.len(),
            r@.len() == i,
            forall|j: int|
                0 <= j < i ==> {
                    &&& (#[trigger] r@[j]).url@ == urls@[j]@
                    &&& r@[j].page_index == j
                    &&& r@[j].filename@ == spec_task_filename(urls@[j]@, count as nat, j as nat)
                },
        decreases count - i,
    {
        let label = page_label(i, count);
        let ext = infer_extension(urls[i].as_str());
        let filename = image_filename(label.as_str(), ext.0.as_str());
        r.push(DownloadTask { url: urls[i].clone(), page_index: i, filename });
        i += 1;
    }
    proof {
        assert(urls@.map_values(|u: String| u@).len() == urls@.len());
    }
    r
}

/// Page-order preservation: the filenames of a planned task list pin
/// the pages (no two pages share a filename), and any completion
/// order — any permutation of the tasks — performs exactly the
/// planned writes. On-disk names always reflect the original page
/// sequence, not the order downloads finish in.
pub proof fn lemma_page_order_preserved(
    tasks: Seq<DownloadTask>,
    urls: Seq<Seq<char>>,
    order: Seq<int>,
)
    requires
        planned_tasks(tasks, urls),
        order.len() == tasks.len(),
        forall|i: int| 0 <= i < order.len() ==> 0 <= #[trigger] order[i] < tasks.len(),
        forall|i: int, j: int| 0 <= i < j < order.len() ==> order[i] != order[j],
        forall|k: int| 0 <= k < tasks.len() ==> #[trigger] order.contains(k),
    ensures
        forall|i: int, j: int|
            0 <= i < tasks.len() && 0 <= j < tasks.len() && i != j ==> (
            #[trigger] tasks[i]).filename@ != (#[trigger] tasks[j]).filename@,
        forall|x: DownloadTask|
            Seq::new(order.len(), |i: int| tasks[order[i]]).contains(x) <==> #[trigger] tasks.contains(
                x,
            ),
{
    let n = tasks.len() as nat;
    let w = dec_rep(n).len();
    assert forall|i: int, j: int|
        0 <= i < tasks.len() && 0 <= j < tasks.len() && i != j implies (
    #[trigger] tasks[i]).filename@ != (#[trigger] tasks[j]).filename@ by {
        lemma_dec_rep_len_monotonic(i as nat, n);
        lemma_dec_rep_len_monotonic(j as nat, n);
        assert(spec_page_label(i as nat, n).len() == w);
        assert(spec_page_label(j as nat, n).len() == w);
        if tasks[i].filename@ == tasks[j].filename@ {
            assert(tasks[i].filename@.subrange(0, w as int) =~= spec_page_label(i as nat, n));
            assert(tasks[j].filename@.subrange(0, w as int) =~= spec_page_label(j as nat, n));
            lemma_padded_injective(i as nat, j as nat, w);
        }
    }
    let permuted = Seq::new(order.len(), |i: int| tasks[order[i]]);
    assert forall|x: DownloadTask| #[trigger] permuted.contains(x) implies tasks.contains(x) by {
        let i = choose|i: int| 0 <= i < permuted.len() && permuted[i] == x;
        assert(tasks[order[i]] == x);
    }
    assert forall|x: DownloadTask| tasks.contains(x) implies #[trigger] permuted.contains(x) by {
        let k = choose|k: int| 0 <= k < tasks.len() && tasks[k] == x;
        assert(order.contains(k));
        let i = choose|i: int| 0 <= i < order.len() && order[i] == k;
        assert(permuted[i] == x);
    }
}

/// Splits `n` chapters into batches of at most `batch_size` for the
/// metadata stage: consecutive windows, in order, each full but the
/// last. A full batch completes before the next starts, keeping the
/// metadata endpoint under its per-minute allowance.
pub fn metadata_batches(n: usize, batch_size: usize) -> (r: Vec<(usize, usize)>)
    requires
        batch_size >= 1,
    ensures
        n == 0 ==> r@.len() == 0,
        n > 0 ==> r@.len() >= 1 && r@[0].0 == 0 && r@[r@.len() - 1].1 == n,
        forall|i: int| 0 <= i < r@.len() ==> (#[trigger] r@[i]).0 < r@[i].1 <= n,
        forall|i: int| 0 <= i < r@.len() - 1 ==> (#[trigger] r@[i]).1 == r@[i + 1].0,
        forall|i: int| 0 <= i < r@.len() - 1 ==> (#[trigger] r@[i]).1 - r@[i].0 == batch_size,
        r@.len() > 0 ==> r@[r@.len() - 1].1 - r@[r@.len() - 1].0 <= batch_size,
{
    let mut r: Vec<(usize, usize)> = Vec::new();
    let mut start: usize = 0;
    while start < n
        invariant
            0 <= start <= n,
            batch_size >= 1,
            r@.len() == 0 <==> start == 0,
            r@.len() > 0 ==> r@[0].0 == 0 && r@[r@.len() - 1].1 == start,
            forall|i: int| 0 <= i < r@.len() ==> (#[trigger] r@[i]).0 < r@[i].1 <= n,
            forall|i: int| 0 <= i < r@.len() - 1 ==> (#[trigger] r@[i]).1 == r@[i + 1].0,
            forall|i: int| 0 <= i < r@.len() - 1 ==> (#[trigger] r@[i]).1 - r@[i].0 == batch_size,
            r@.len() > 0 ==> r@[r@.len() - 1].1 - r@[r@.len() - 1].0 <= batch_size,
            r@.len() > 0 && start < n ==> r@[r@.len() - 1].1 - r@[r@.len() - 1].0 == batch_size,
        decreases n - start,
    {
        let end = if n - start > batch_size {
            start + batch_size
        } else {
            n
        };
        r.push((start, end));
        start = end;
    }
    r
}

/// Keeps the chapters whose metadata fetch succeeded: exactly the
/// indices marked present, in their original order. One chapter's
/// metadata failure never drops its siblings.
pub fn chapters_with_metadata(present: &Vec<bool>) -> (r: Vec<usize>)
    ensures
        forall|j: int|
            0 <= j < r@.len() ==> 0 <= #[trigger] r@[j] < present@.len() && present@[r@[j] as int],
        forall|j1: int, j2: int| 0 <= j1 < j2 < r@.len() ==> r@[j1] < r@[j2],
        forall|i: int|
            0 <= i < present@.len() && #[trigger] present@[i] ==> exists|j: int|
                0 <= j < r@.len() && r@[j] == i,
{
    let n = present.len();
    let mut r: Vec<usize> = Vec::new();
    let mut i: usize = 0;
    while i < n
        invariant
            0 <= i <= n,
            n == present@.len(),
            forall|j: int|
                0 <= j < r@.len() ==> 0 <= #[trigger] r@[j] < i && present@[r@[j] as int],
            forall|j1: int, j2: int| 0 <= j1 < j2 < r@.len() ==> r@[j1] < r@[j2],
            forall|k: int|
                0 <= k < i && #[trigger] present@[k] ==> exists|j: int|
                    0 <= j < r@.len() && r@[j] == k,
        decreases n - i,
    {
        if present[i] {
            let ghost r_old = r@;
            r.push(i);
            proof {
                assert forall|k: int|
                    0 <= k < i + 1 && #[trigger] present@[k] implies exists|j: int|
                    0 <= j < r@.len() && r@[j] == k by {
                    if k == i {
                        assert(r@[r@.len() - 1] == k);
                    } else {
                        let j = choose|j: int| 0 <= j < r_old.len() && r_old[j] == k;
                        assert(r@[j] == k);
                    }
                }
            }
        }
        i += 1;
    }
    r
}

/// The number of image tasks allowed in flight for a chapter of
/// `num_images` pages: the configured pool size, clamped to at least
/// one task and to no more tasks than there are images.
pub fn effective_permits(num_images: usize, image_permits: usize) -> (r: usize)
    requires
        image_permits >= 1,
    ensures
        r == if num_images == 0 {
            1usize
        } else if num_images > image_permits {
            image_permits
        } else {
            num_images
        },
        1 <= r <= image_permits,
{
    if num_images == 0 {
        1
    } else if num_images > image_permits {
        image_permits
    } else {
        num_images
    }
}

/// The phases one work's download passes through.
#[derive(Debug, Clone, Copy, PartialEq, Eq, Structural)]
pub enum WorkPhase {
    Idle,
    FetchingMetadata,
    Downloading,
    Completed,
    PartiallyFailed,
}

/// The per-work orchestration state: the phase, and how the work's
/// chapters have fared so far.
#[derive(Debug, Clone, Copy, PartialEq, Eq, Structural)]
pub struct WorkState {
    pub phase: WorkPhase,
    pub chapters: usize,
    pub metadata_failed: usize,
    pub chapters_failed: usize,
    pub chapters_done: usize,
}

impl WorkState {
    /// Every chapter is accounted for at most once.
    pub open spec fn wf(self) -> bool {
        self.metadata_failed + self.chapters_failed + self.chapters_done <= self.chapters
    }

    /// A fresh, idle state for a work of `chapters` chapters.
    pub fn new(chapters: usize) -> (r: WorkState)
        ensures
            r.phase == WorkPhase::Idle,
            r.chapters == chapters,
            r.metadata_failed == 0 && r.chapters_failed == 0 && r.chapters_done == 0,
            r.wf(),
    {
        WorkState {
            phase: WorkPhase::Idle,
            chapters,
            metadata_failed: 0,
            chapters_failed: 0,
            chapters_done: 0,
        }
    }

    /// Enters the metadata stage.
    pub fn start_metadata(&mut self)
        requires
            old(self).phase == WorkPhase::Idle,
        ensures
            *final(self) == (WorkState { phase: WorkPhase::FetchingMetadata, ..*old(self) }),
    {
        self.phase = WorkPhase::FetchingMetadata;
    }

    /// Records one chapter whose metadata fetch failed: the chapter
    /// is skipped, the batch goes on.
    pub fn note_metadata_failure(&mut self)
        requires
            old(self).phase == WorkPhase::FetchingMetadata,
            old(self).wf(),
            old(self).metadata_failed + old(self).chapters_failed + old(self).chapters_done < old(
                self,
            ).chapters,
        ensures
            *final(self) == (WorkState {
                metadata_failed: (old(self).metadata_failed + 1) as usize,
                ..*old(self)
            }),
            final(self).wf(),
    {
        self.metadata_failed = self.metadata_failed + 1;
    }

    /// Enters the download stage.
    pub fn start_downloads(&mut self)
        requires
            old(self).phase == WorkPhase::FetchingMetadata,
        ensures
            *final(self) == (WorkState { phase: WorkPhase::Downloading, ..*old(self) }),
    {
        self.phase = WorkPhase::Downloading;
    }

    /// Records one chapter fully downloaded.
    pub fn note_chapter_done(&mut self)
        requires
            old(self).phase == WorkPhase::Downloading,
            old(self).wf(),
            old(self).metadata_failed + old(self).chapters_failed + old(self).chapters_done < old(
                self,
            ).chapters,
        ensures
            *final(self) == (WorkState { chapters_done: (old(self).chapters_done + 1) as usize, ..*old(self) }),
            final(self).wf(),
    {
        self.chapters_done = self.chapters_done + 1;
    }

    /// Records one chapter whose download failed; its siblings keep
    /// going.
    pub fn note_chapter_failure(&mut self)
        requires
            old(self).phase == WorkPhase::Downloading,
            old(self).wf(),
            old(self).metadata_failed + old(self).chapters_failed + old(self).chapters_done < old(
                self,
            ).chapters,
        ensures
            *final(self) == (WorkState {
                chapters_failed: (old(self).chapters_failed + 1) as usize,
                ..*old(self)
            }),
            final(self).wf(),
    {
        self.chapters_failed = self.chapters_failed + 1;
    }

    /// Closes the run: completed only when no chapter was skipped or
    /// failed, else partially failed.
    pub fn finish(&mut self)
        requires
            old(self).phase == WorkPhase::Downloading,
        ensures
            *final(self) == (WorkState {
                phase: if old(self).metadata_failed == 0 && old(self).chapters_failed == 0 {
                    WorkPhase::Completed
                } else {
                    WorkPhase::PartiallyFailed
                },
                ..*old(self)
            }),
    {
        if self.metadata_failed == 0 && self.chapters_failed == 0 {
            self.phase = WorkPhase::Completed;
        } else {
            self.phase = WorkPhase::PartiallyFailed;
        }
    }
}

} // verus!
