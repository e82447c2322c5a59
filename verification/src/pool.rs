//! The synchronized state the download stages share: the two bounded
//! task pools, the per-chapter progress counter and the byte/time
//! report. The application backs the pools with real semaphores; the
//! law here says the modelled in-flight count can never pass the
//! pool's capacity, whatever order acquisitions and releases come in.

use vstd::prelude::*;

verus! {

/// A bounded pool of task slots: at most `capacity` holders at once.
#[derive(Debug, Clone, Copy, PartialEq, Eq, Structural)]
pub struct BoundedPool {
    pub capacity: usize,
    pub in_flight: usize,
}

impl BoundedPool {
    /// The in-flight count never passes the capacity.
    pub open spec fn wf(self) -> bool {
        self.in_flight <= self.capacity
    }

    /// A fresh pool with every slot free.
    pub fn new(capacity: usize) -> (r: BoundedPool)
        ensures
            r.capacity == capacity,
            r.in_flight == 0,
            r.wf(),
    {
        BoundedPool { capacity, in_flight: 0 }
    }

    /// Takes a slot when one is free; says whether it did.
    pub fn try_acquire(&mut self) -> (r: bool)
        requires
            old(self).wf(),
        ensures
            final(self).capacity == old(self).capacity,
            final(self).wf(),
            r <==> old(self).in_flight < old(self).capacity,
            r ==> final(self).in_flight == old(self).in_flight + 1,
            !r ==> final(self).in_flight == old(self).in_flight,
    {
        if self.in_flight < self.capacity {
            self.in_flight = self.in_flight + 1;
            true
        } else {
            false
        }
    }

    /// Gives a held slot back.
    pub fn release(&mut self)
        requires
            old(self).wf(),
            old(self).in_flight >= 1,
        ensures
            final(self).capacity == old(self).capacity,
            final(self).in_flight == old(self).in_flight - 1,
            final(self).wf(),
    {
        self.in_flight = self.in_flight - 1;
    }
}

/// One step a pool's clients take.
#[derive(Debug, Clone, Copy, PartialEq, Eq, Structural)]
pub enum PoolEvent {
    /// A task asked for a slot (granted only when one is free).
    Acquire,
    /// A task gave its slot back (ignored when none is held).
    Release,
}

/// The in-flight count after a pool of capacity `cap` has served the
/// given event sequence, starting idle.
pub open spec fn pool_run(cap: nat, events: Seq<PoolEvent>) -> nat
    decreases events.len(),
{
    if events.len() == 0 {
        0
    } else {
        let prev = pool_run(cap, events.drop_last());
        match events.last() {
            PoolEvent::Acquire => if prev < cap {
                prev + 1
            } else {
                prev
            },
            PoolEvent::Release => if prev > 0 {
                (prev - 1) as nat
            } else {
                0
            },
        }
    }
}

/// Bounded concurrency: whatever the order and number of acquisitions
/// and releases, the in-flight count never exceeds the pool's
/// capacity.
pub proof fn lemma_pool_bounded(cap: nat, events: Seq<PoolEvent>)
    ensures
        pool_run(cap, events) <= cap,
    decreases events.len(),
{
    if events.len() > 0 {
        lemma_pool_bounded(cap, events.drop_last());
    }
}

/// A chapter's progress: how many of its pages are done.
#[derive(Debug, Clone, Copy, PartialEq, Eq, Structural)]
pub struct ChapterProgress {
    pub done: usize,
    pub total: usize,
}

impl ChapterProgress {
    /// Never more pages done than the chapter has.
    pub open spec fn wf(self) -> bool {
        self.done <= self.total
    }

    /// Fresh progress for a chapter of `total` pages.
    pub fn new(total: usize) -> (r: ChapterProgress)
        ensures
            r.total == total,
            r.done == 0,
            r.wf(),
    {
        ChapterProgress { done: 0, total }
    }

    /// Counts one more finished page.
    pub fn advance(&mut self)
        requires
            old(self).wf(),
            old(self).done < old(self).total,
        ensures
            final(self).done == old(self).done + 1,
            final(self).total == old(self).total,
            final(self).wf(),
    {
        self.done = self.done + 1;
    }

    /// Whether every page is done.
    pub fn is_complete(&self) -> (r: bool)
        ensures
            r <==> self.done == self.total,
    {
        self.done == self.total
    }
}

/// The accumulated result of one download invocation: bytes moved and
/// the wall-clock time the whole run took.
#[derive(Debug, Clone, Copy, PartialEq, Eq, Structural)]
pub struct DownloadReport {
    pub bytes_transferred: u64,
    pub elapsed_ms: u64,
}

impl DownloadReport {
    /// An empty report.
    pub fn new() -> (r: DownloadReport)
        ensures
            r.bytes_transferred == 0,
            r.elapsed_ms == 0,
    {
        DownloadReport { bytes_transferred: 0, elapsed_ms: 0 }
    }

    /// Adds one task's byte count, saturating at the top of the
    /// counter rather than wrapping.
    pub fn add_bytes(&mut self, n: u64)
        ensures
            final(self).elapsed_ms == old(self).elapsed_ms,
            old(self).bytes_transferred + n <= u64::MAX
                ==> final(self).bytes_transferred == old(self).bytes_transferred + n,
            old(self).bytes_transferred + n > u64::MAX ==> final(self).bytes_transferred
                == u64::MAX,
    {
        if self.bytes_transferred <= u64::MAX - n {
            self.bytes_transferred = self.bytes_transferred + n;
        } else {
            self.bytes_transferred = u64::MAX;
        }
    }

    /// Folds a chapter's report into the work-level one: bytes add up
    /// (saturating), the elapsed time is the whole run's and is set
    /// once at the end.
    pub fn absorb(&mut self, other: &DownloadReport)
        ensures
            final(self).elapsed_ms == old(self).elapsed_ms,
            old(self).bytes_transferred + other.bytes_transferred <= u64::MAX
                ==> final(self).bytes_transferred == old(self).bytes_transferred
                + other.bytes_transferred,
            old(self).bytes_transferred + other.bytes_transferred > u64::MAX
                ==> final(self).bytes_transferred == u64::MAX,
    {
        self.add_bytes(other.bytes_transferred);
    }

    /// Records the run's wall-clock time.
    pub fn set_elapsed_ms(&mut self, ms: u64)
        ensures
            final(self).bytes_transferred == old(self).bytes_transferred,
            final(self).elapsed_ms == ms,
    {
        self.elapsed_ms = ms;
    }
}

} // verus!
