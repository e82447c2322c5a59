//! Paginated collection fetching: the planner that decides which
//! offset/limit window to request next, honouring the upstream API's
//! hard bound on `offset + limit`, and the laws that paging this way
//! collects the collection exactly.

use vstd::prelude::*;
use vstd::arithmetic::div_mod::lemma_div_is_ordered;
use vstd::arithmetic::div_mod::lemma_fundamental_div_mod;
use vstd::arithmetic::div_mod::lemma_fundamental_div_mod_converse;
use vstd::arithmetic::div_mod::lemma_mod_bound;
use vstd::arithmetic::mul::lemma_mul_inequality;
use vstd::arithmetic::mul::lemma_mul_strict_inequality;

verus! {

/// The upstream API rejects any page whose `offset + limit` exceeds
/// this bound, so the pager must stop short of it.
pub const COLLECTION_RESULT_BOUND: u32 = 10_000;

/// One offset/limit window of a larger server-side result set.
#[derive(Debug, Clone, Copy, PartialEq, Eq, Structural)]
pub struct PageRequest {
    pub offset: u32,
    pub limit: u32,
}

impl PageRequest {
    /// A page request is only issued while it respects the collection
    /// result bound.
    pub open spec fn wf(self) -> bool {
        self.offset + self.limit <= COLLECTION_RESULT_BOUND
    }
}

/// What the pager decides to do after `offset` items of a collection
/// of `total` have been fetched.
#[derive(Debug, Clone, Copy, PartialEq, Eq, Structural)]
pub enum PageStep {
    /// Issue this page request.
    Fetch(PageRequest),
    /// The next page would cross the collection result bound: halt and
    /// keep the prefix collected so far.
    Boundary,
    /// Every item has been fetched.
    Done,
}

/// Decides the next paging action. No request crossing the collection
/// result bound is ever produced.
pub fn next_page_step(offset: u32, limit: u32, total: u32) -> (r: PageStep)
    requires
        1 <= limit,
    ensures
        offset >= total ==> r == PageStep::Done,
        offset < total && offset + limit > COLLECTION_RESULT_BOUND ==> r == PageStep::Boundary,
        offset < total && offset + limit <= COLLECTION_RESULT_BOUND ==> r == PageStep::Fetch(
            PageRequest { offset, limit },
        ),
        r matches PageStep::Fetch(p) ==> p.wf() && p == (PageRequest { offset, limit }),
{
    if offset >= total {
        PageStep::Done
    } else if offset as u64 + limit as u64 > COLLECTION_RESULT_BOUND as u64 {
        PageStep::Boundary
    } else {
        PageStep::Fetch(PageRequest { offset, limit })
    }
}

/// The items that paging with windows of `limit`, starting at
/// `offset`, collects from a collection: each page's items in response
/// order, pages concatenated in request order, halting at the
/// collection result bound.
pub open spec fn assembled<T>(items: Seq<T>, limit: nat, offset: nat) -> Seq<T>
    recommends
        1 <= limit,
    decreases items.len() - offset,
{
    if offset >= items.len() || limit < 1 || offset + limit > COLLECTION_RESULT_BOUND {
        Seq::empty()
    } else if offset + limit <= items.len() {
        items.subrange(offset as int, (offset + limit) as int) + assembled(
            items,
            limit,
            (offset + limit) as nat,
        )
    } else {
        items.subrange(offset as int, items.len() as int)
    }
}

/// Paging always yields a contiguous prefix of what remains at
/// `offset`: items come back in original order, without duplicates or
/// gaps, whether or not the collection result bound halts the fetch.
pub proof fn lemma_assembled_prefix<T>(items: Seq<T>, limit: nat, offset: nat)
    requires
        1 <= limit,
        offset <= items.len(),
    ensures
        assembled(items, limit, offset).len() <= items.len() - offset,
        assembled(items, limit, offset) == items.subrange(
            offset as int,
            (offset + assembled(items, limit, offset).len()) as int,
        ),
    decreases items.len() - offset,
{
    if offset >= items.len() || offset + limit > COLLECTION_RESULT_BOUND {
        assert(assembled(items, limit, offset) =~= items.subrange(
            offset as int,
            offset as int,
        ));
    } else if offset + limit <= items.len() {
        lemma_assembled_prefix(items, limit, (offset + limit) as nat);
        let rest = assembled(items, limit, (offset + limit) as nat);
        assert(assembled(items, limit, offset) =~= items.subrange(
            offset as int,
            (offset + limit + rest.len()) as int,
        ));
    } else {
        assert(assembled(items, limit, offset) =~= items.subrange(
            offset as int,
            items.len() as int,
        ));
    }
}

/// The number of windows of `limit` needed to cover `total` items:
/// the division rounded up.
pub open spec fn window_ceiling(total: nat, limit: nat) -> int
    recommends
        1 <= limit,
{
    (total + limit - 1) as int / limit as int
}

/// The rounded-up window count covers the collection, and is one
/// more than the windows strictly before the last item.
proof fn lemma_ceiling_covers(total: nat, limit: nat)
    requires
        1 <= limit,
    ensures
        window_ceiling(total, limit) * limit >= total,
        total > 0 ==> window_ceiling(total, limit) == (total - 1) as int / limit as int + 1,
{
    let l = limit as int;
    let x = (total + limit - 1) as int;
    lemma_fundamental_div_mod(x, l);
    lemma_mod_bound(x, l);
    assert(window_ceiling(total, limit) * l == l * (x / l)) by (nonlinear_arith)
        requires
            window_ceiling(total, limit) == x / l,
    ;
    if total > 0 {
        let a = (total - 1) as int;
        lemma_fundamental_div_mod(a, l);
        lemma_mod_bound(a, l);
        assert(a + l == (a / l + 1) * l + a % l) by (nonlinear_arith)
            requires
                a == l * (a / l) + a % l,
        ;
        lemma_fundamental_div_mod_converse(a + l, l, a / l + 1, a % l);
    }
}

/// When the rounded-up window count keeps the whole collection under
/// the result bound, every window starting at a multiple of `limit`
/// before the end fits under the bound too.
proof fn lemma_window_in_bound(len: nat, limit: nat, offset: nat)
    requires
        1 <= limit,
        offset < len,
        offset % limit == 0,
        window_ceiling(len, limit) * limit <= COLLECTION_RESULT_BOUND,
    ensures
        offset + limit <= COLLECTION_RESULT_BOUND,
{
    let l = limit as int;
    let q = offset as int / l;
    lemma_fundamental_div_mod(offset as int, l);
    lemma_div_is_ordered(offset as int, (len - 1) as int, l);
    lemma_ceiling_covers(len, limit);
    lemma_mul_inequality(q + 1, (len - 1) as int / l + 1, l);
    assert((q + 1) * l == l * q + l) by (nonlinear_arith);
}

/// Pagination completeness: when every window of the collection lies
/// under the collection result bound, paging with that window size
/// collects exactly the collection, in original order. (A collection
/// whose last window would cross the bound is instead cut short
/// there: see the boundary case of `next_page_step`.)
pub proof fn lemma_pagination_complete<T>(items: Seq<T>, limit: nat)
    requires
        1 <= limit,
        window_ceiling(items.len(), limit) * limit <= COLLECTION_RESULT_BOUND,
    ensures
        assembled(items, limit, 0) == items,
{
    let l = limit as int;
    lemma_fundamental_div_mod_converse(0, l, 0, 0);
    lemma_assembled_skip(items, limit, 0);
    assert(items.skip(0) =~= items);
}

/// Helper for completeness: paging from any window-aligned `offset`
/// collects everything from `offset` on.
proof fn lemma_assembled_skip<T>(items: Seq<T>, limit: nat, offset: nat)
    requires
        1 <= limit,
        offset <= items.len(),
        offset % limit == 0,
        window_ceiling(items.len(), limit) * limit <= COLLECTION_RESULT_BOUND,
    ensures
        assembled(items, limit, offset) == items.skip(offset as int),
    decreases items.len() - offset,
{
    if offset >= items.len() {
        assert(assembled(items, limit, offset) =~= items.skip(offset as int));
    } else {
        lemma_window_in_bound(items.len(), limit, offset);
        if offset + limit <= items.len() {
            let l = limit as int;
            let q = offset as int / l;
            lemma_fundamental_div_mod(offset as int, l);
            assert(offset + l == l * (q + 1) + 0) by (nonlinear_arith)
                requires
                    offset == l * q,
            ;
            lemma_fundamental_div_mod_converse(offset as int + l, l, q + 1, 0);
            lemma_assembled_skip(items, limit, (offset + limit) as nat);
            assert(assembled(items, limit, offset) =~= items.skip(offset as int));
        } else {
            assert(assembled(items, limit, offset) =~= items.skip(offset as int));
        }
    }
}

/// Runs the paging loop against a collection already in memory (each
/// `Fetch` step is answered with the corresponding slice). This is the
/// verified shape of the fetch-all loop; the application runs the same
/// loop with the network answering each step.
pub fn collect_paged<T: Copy>(items: &Vec<T>, limit: u32) -> (r: Vec<T>)
    requires
        1 <= limit,
        items@.len() <= u32::MAX,
    ensures
        r@ == assembled(items@, limit as nat, 0),
{
    let total = items.len() as u32;
    let mut r: Vec<T> = Vec::new();
    let mut offset: u32 = 0;
    loop
        invariant
            1 <= limit,
            items@.len() == total,
            offset <= total,
            assembled(items@, limit as nat, 0) == r@ + assembled(
                items@,
                limit as nat,
                offset as nat,
            ),
        ensures
            r@ == assembled(items@, limit as nat, 0),
        decreases total - offset,
    {
        match next_page_step(offset, limit, total) {
            PageStep::Done => {
                assert(assembled(items@, limit as nat, offset as nat) =~= Seq::<T>::empty());
                assert(r@ =~= r@ + Seq::<T>::empty());
                break;
            },
            PageStep::Boundary => {
                assert(assembled(items@, limit as nat, offset as nat) =~= Seq::<T>::empty());
                assert(r@ =~= r@ + Seq::<T>::empty());
                break;
            },
            PageStep::Fetch(p) => {
                let end = if p.offset as u64 + p.limit as u64 <= total as u64 {
                    p.offset + p.limit
                } else {
                    total
                };
                let ghost r_before = r@;
                let mut j: u32 = p.offset;
                while j < end
                    invariant
                        p.offset <= j <= end,
                        end <= items@.len(),
                        items@.len() <= u32::MAX,
                        r@ == r_before + items@.subrange(p.offset as int, j as int),
                    decreases end - j,
                {
                    r.push(items[j as usize]);
                    assert(r@ =~= r_before + items@.subrange(p.offset as int, j + 1 as int));
                    j += 1;
                }
                assert(r@ == r_before + items@.subrange(p.offset as int, end as int));
                offset = end;
                proof {
                    let lim = limit as nat;
                    let off = p.offset as nat;
                    if off + lim <= items@.len() {
                        assert(assembled(items@, lim, off) == items@.subrange(
                            off as int,
                            (off + lim) as int,
                        ) + assembled(items@, lim, (off + lim) as nat));
                    } else {
                        assert(assembled(items@, lim, off) == items@.subrange(
                            off as int,
                            items@.len() as int,
                        ));
                        assert(assembled(items@, lim, items@.len() as nat) =~= Seq::<
                            T,
                        >::empty());
                        assert(assembled(items@, lim, off) =~= items@.subrange(
                            off as int,
                            items@.len() as int,
                        ) + assembled(items@, lim, items@.len() as nat));
                    }
                }
            },
        }
    }
    r
}


/// The offsets the pager issues against a collection of `total`,
/// starting at `offset`: one request per window, until the items run
/// out or the next window would cross the collection result bound.
pub open spec fn issued_offsets(limit: nat, total: nat, offset: nat) -> Seq<nat>
    recommends
        1 <= limit,
    decreases total - offset,
{
    if offset >= total || limit < 1 || offset + limit > COLLECTION_RESULT_BOUND {
        Seq::empty()
    } else if offset + limit >= total {
        seq![offset]
    } else {
        seq![offset] + issued_offsets(limit, total, (offset + limit) as nat)
    }
}

/// The pager's request trace: the issued offsets step by the window
/// size, every one lies before the end of the collection, none
/// crosses the collection result bound, and the trace only stops
/// when the items ran out or the next window would cross the bound.
pub proof fn lemma_issued_offsets(limit: nat, total: nat, offset: nat)
    requires
        1 <= limit,
    ensures
        forall|i: int|
            0 <= i < issued_offsets(limit, total, offset).len() ==> #[trigger] issued_offsets(
                limit,
                total,
                offset,
            )[i] == offset + i * limit,
        forall|i: int|
            0 <= i < issued_offsets(limit, total, offset).len() ==> #[trigger] issued_offsets(
                limit,
                total,
                offset,
            )[i] < total,
        forall|i: int|
            0 <= i < issued_offsets(limit, total, offset).len() ==> #[trigger] issued_offsets(
                limit,
                total,
                offset,
            )[i] + limit <= COLLECTION_RESULT_BOUND,
        offset + issued_offsets(limit, total, offset).len() * limit >= total || offset
            + issued_offsets(limit, total, offset).len() * limit + limit
            > COLLECTION_RESULT_BOUND,
    decreases total - offset,
{
    let issued = issued_offsets(limit, total, offset);
    if offset >= total || offset + limit > COLLECTION_RESULT_BOUND {
        assert(issued.len() * limit == 0) by (nonlinear_arith)
            requires
                issued.len() == 0,
        ;
    } else if offset + limit >= total {
        assert(issued.len() * limit == limit) by (nonlinear_arith)
            requires
                issued.len() == 1,
        ;
    } else {
        lemma_issued_offsets(limit, total, (offset + limit) as nat);
        let tail = issued_offsets(limit, total, (offset + limit) as nat);
        assert forall|i: int| 0 <= i < issued.len() implies #[trigger] issued[i] == offset + i
            * limit by {
            if i == 0 {
                assert(0 * limit == 0) by (nonlinear_arith);
            } else {
                assert(tail[i - 1] == (offset + limit) + (i - 1) * limit);
                assert((offset + limit) + (i - 1) * limit == offset + i * limit) by (nonlinear_arith);
            }
        }
        assert(offset + issued.len() * limit == (offset + limit) + tail.len() * limit) by (nonlinear_arith)
            requires
                issued.len() == tail.len() + 1,
        ;
    }
}

/// The request trace from the start of a collection whose windows
/// all fit under the bound: exactly the multiples of the window size
/// below `total`, each issued once, in increasing order.
pub proof fn lemma_issued_offsets_complete(limit: nat, total: nat)
    requires
        1 <= limit,
        window_ceiling(total, limit) * limit <= COLLECTION_RESULT_BOUND,
    ensures
        forall|i: int|
            0 <= i < issued_offsets(limit, total, 0).len() ==> #[trigger] issued_offsets(
                limit,
                total,
                0,
            )[i] == i * limit,
        forall|i: int, j: int|
            0 <= i < j < issued_offsets(limit, total, 0).len() ==> issued_offsets(limit, total, 0)[i]
                < issued_offsets(limit, total, 0)[j],
        forall|i: int|
            0 <= i < issued_offsets(limit, total, 0).len() ==> #[trigger] issued_offsets(
                limit,
                total,
                0,
            )[i] < total,
        forall|k: int|
            0 <= k && #[trigger] (k * limit) < total ==> k < issued_offsets(limit, total, 0).len(),
{
    lemma_issued_offsets(limit, total, 0);
    let issued = issued_offsets(limit, total, 0);
    let n = issued.len() as int;
    assert forall|i: int| 0 <= i < n implies #[trigger] issued[i] == i * limit by {
        assert(issued[i] == 0 + i * limit);
    }
    assert forall|i: int, j: int| 0 <= i < j < n implies issued[i] < issued[j] by {
        lemma_mul_strict_inequality(i, j, limit as int);
    }
    lemma_ceiling_covers(total, limit);
    if !(0 + n * limit >= total) {
        // the trace stopped at the bound: the next window would cross
        // it, yet every window up to the ceiling fits, so the trace
        // already covers the ceiling
        assert(n * limit + limit > COLLECTION_RESULT_BOUND);
        assert((n + 1) * limit == n * limit + limit) by (nonlinear_arith);
        if n + 1 <= window_ceiling(total, limit) {
            lemma_mul_inequality(n + 1, window_ceiling(total, limit), limit as int);
            assert(false);
        }
        lemma_mul_inequality(window_ceiling(total, limit), n, limit as int);
        assert(false);
    }
    assert forall|k: int| 0 <= k && #[trigger] (k * limit) < total implies k < n by {
        if k >= n {
            lemma_mul_inequality(n, k, limit as int);
        }
    }
}

} // verus!
