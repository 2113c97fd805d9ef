//! Row windows over a sequence of record batches: which runs of rows of
//! which batches hold the rows `offset .. offset + limit` of the batches
//! taken one after the other.

use vstd::prelude::*;

verus! {

/// `len` consecutive rows of batch number `batch`, from its row `start`.
#[derive(Clone, Copy, Debug, PartialEq, Eq, Structural)]
pub struct BatchSlice {
    pub batch: usize,
    pub start: usize,
    pub len: usize,
}

/// The number of rows of all batches together.
pub open spec fn total_rows(rows: Seq<usize>) -> int
    decreases rows.len(),
{
    if rows.len() == 0 {
        0
    } else {
        total_rows(rows.drop_last()) + rows.last()
    }
}

/// The number of rows in the batches before batch `i`: the row number, in the
/// batches taken together, of the first row of batch `i`.
pub open spec fn rows_before(rows: Seq<usize>, i: int) -> int {
    total_rows(rows.take(i))
}

/// The rows `lo .. hi` of the batches taken together, as runs of rows of
/// single batches: for each batch in order, the rows it shares with the
/// window, where it shares any.
pub open spec fn window_slices(rows: Seq<usize>, lo: int, hi: int) -> Seq<BatchSlice>
    decreases rows.len(),
{
    if rows.len() == 0 {
        Seq::empty()
    } else {
        let prev = window_slices(rows.drop_last(), lo, hi);
        let first = total_rows(rows.drop_last());
        let end = first + rows.last();
        let from = if lo > first { lo } else { first };
        let to = if hi < end { hi } else { end };
        if from < to {
            prev.push(
                BatchSlice {
                    batch: (rows.len() - 1) as usize,
                    start: (from - first) as usize,
                    len: (to - from) as usize,
                },
            )
        } else {
            prev
        }
    }
}

/// The number of rows in the window `lo .. hi` that exist.
pub open spec fn window_len(rows: Seq<usize>, lo: int, hi: int) -> int {
    let end = if hi < total_rows(rows) { hi } else { total_rows(rows) };
    if lo < end {
        end - lo
    } else {
        0
    }
}

/// The row numbers, in the batches taken together, that a list of slices
/// holds, in the order of the slices.
pub open spec fn slice_rows(rows: Seq<usize>, slices: Seq<BatchSlice>) -> Seq<int>
    decreases slices.len(),
{
    if slices.len() == 0 {
        Seq::empty()
    } else {
        let s = slices.last();
        slice_rows(rows, slices.drop_last()) + Seq::new(
            s.len as nat,
            |k: int| rows_before(rows, s.batch as int) + s.start + k,
        )
    }
}

/// Each slice lies inside its batch and holds at least one row, and the
/// slices name their batches in strictly increasing order.
pub open spec fn slices_in_bounds(rows: Seq<usize>, slices: Seq<BatchSlice>) -> bool {
    &&& forall|k: int|
        0 <= k < slices.len() ==> {
            &&& (#[trigger] slices[k]).batch < rows.len()
            &&& slices[k].len > 0
            &&& slices[k].start + slices[k].len <= rows[slices[k].batch as int]
        }
    &&& forall|k1: int, k2: int|
        0 <= k1 < k2 < slices.len() ==> (#[trigger] slices[k1]).batch < (#[trigger] slices[k2]).batch
}

/// The window that the borrowing limit/offset path takes: `limit` rows from
/// row `offset`, or all rows from `offset` when there is no limit.
pub open spec fn borrowed_window(rows: Seq<usize>, offset: int, limit: Option<usize>) -> Seq<
    BatchSlice,
> {
    match limit {
        Some(l) => window_slices(rows, offset, offset + l),
        None => window_slices(rows, offset, total_rows(rows)),
    }
}

/// The window that the owning limit/offset path takes: a missing offset is 0
/// and a missing limit is `usize::MAX`.
pub open spec fn owned_window(rows: Seq<usize>, limit: Option<usize>, offset: Option<usize>) -> Seq<
    BatchSlice,
> {
    let o = match offset {
        Some(o) => o as int,
        None => 0,
    };
    let l = match limit {
        Some(l) => l as int,
        None => usize::MAX as int,
    };
    window_slices(rows, o, o + l)
}

/// Row `r` lies in batch `i`.
pub open spec fn row_in_batch(rows: Seq<usize>, i: int, r: int) -> bool {
    rows_before(rows, i) <= r < rows_before(rows, i + 1)
}

/// The borrowing path adds the limit to the position of `offset` within its
/// batch; that sum fits in `usize` (it is not computed when the limit is 0 or
/// `offset` lies past the last row).
pub open spec fn borrowed_window_fits(rows: Seq<usize>, offset: int, limit: Option<usize>) -> bool {
    forall|i: int|
        0 <= i < rows.len() && #[trigger] row_in_batch(rows, i, offset) ==> match limit {
            Some(l) => l == 0 || offset - rows_before(rows, i) + l <= usize::MAX,
            None => true,
        }
}

/// What the owning limit/offset path does with the batches.
#[derive(Debug)]
pub enum LimitOffsetPlan {
    /// Keep the batches as they are.
    Unchanged,
    /// Replace the batches with these slices of them, in this order.
    Slices(Vec<BatchSlice>),
    /// Replace the batches with one empty batch of the first batch's schema.
    EmptyBatch,
}

proof fn lemma_rows_before_succ(rows: Seq<usize>, i: int)
    requires
        0 <= i < rows.len(),
    ensures
        rows_before(rows, i + 1) == rows_before(rows, i) + rows[i],
        rows.take(i + 1).drop_last() == rows.take(i),
{
    assert(rows.take(i + 1).drop_last() =~= rows.take(i));
}

proof fn lemma_rows_before_mono(rows: Seq<usize>, i: int, j: int)
    requires
        0 <= i <= j <= rows.len(),
    ensures
        rows_before(rows, i) <= rows_before(rows, j),
    decreases j - i,
{
    if i < j {
        lemma_rows_before_succ(rows, j - 1);
        lemma_rows_before_mono(rows, i, j - 1);
    }
}

proof fn lemma_rows_before_all(rows: Seq<usize>)
    ensures
        rows_before(rows, rows.len() as int) == total_rows(rows),
        rows.take(rows.len() as int) == rows,
{
    assert(rows.take(rows.len() as int) =~= rows);
}

proof fn lemma_total_nonneg(rows: Seq<usize>)
    ensures
        total_rows(rows) >= 0,
    decreases rows.len(),
{
    if rows.len() > 0 {
        lemma_total_nonneg(rows.drop_last());
    }
}

/// The window over the first `i + 1` batches is the window over the first
/// `i` batches and the part of batch `i` in the window.
proof fn lemma_window_take_succ(rows: Seq<usize>, lo: int, hi: int, i: int)
    requires
        0 <= i < rows.len(),
    ensures
        ({
            let first = rows_before(rows, i);
            let end = first + rows[i];
            let from = if lo > first { lo } else { first };
            let to = if hi < end { hi } else { end };
            window_slices(rows.take(i + 1), lo, hi) == if from < to {
                window_slices(rows.take(i), lo, hi).push(
                    BatchSlice {
                        batch: i as usize,
                        start: (from - first) as usize,
                        len: (to - from) as usize,
                    },
                )
            } else {
                window_slices(rows.take(i), lo, hi)
            }
        }),
{
    lemma_rows_before_succ(rows, i);
    assert(rows.take(i + 1).last() == rows[i]);
}

/// Batches that start at or after the end of the window add nothing to it.
proof fn lemma_window_rest_empty(rows: Seq<usize>, lo: int, hi: int, i: int, j: int)
    requires
        0 <= i <= j <= rows.len(),
        hi <= lo || hi <= rows_before(rows, i),
    ensures
        window_slices(rows.take(j), lo, hi) == window_slices(rows.take(i), lo, hi),
    decreases j - i,
{
    if i < j {
        lemma_window_rest_empty(rows, lo, hi, i, j - 1);
        lemma_window_take_succ(rows, lo, hi, j - 1);
        lemma_rows_before_mono(rows, i, j - 1);
    }
}

/// Only the part of the window before the last row matters.
proof fn lemma_window_clip(rows: Seq<usize>, lo: int, hi1: int, hi2: int)
    requires
        (if hi1 < total_rows(rows) { hi1 } else { total_rows(rows) }) == (if hi2 < total_rows(
            rows,
        ) {
            hi2
        } else {
            total_rows(rows)
        }),
    ensures
        window_slices(rows, lo, hi1) == window_slices(rows, lo, hi2),
    decreases rows.len(),
{
    if rows.len() > 0 {
        lemma_total_nonneg(rows.drop_last());
        lemma_window_clip(rows.drop_last(), lo, hi1, hi2);
    }
}

/// A window that starts at or after the last row is empty.
proof fn lemma_window_past_end(rows: Seq<usize>, lo: int, hi: int)
    requires
        lo >= total_rows(rows),
    ensures
        window_slices(rows, lo, hi).len() == 0,
{
    let t = total_rows(rows);
    lemma_window_clip(rows, lo, hi, if hi < t { hi } else { t });
    lemma_rows_before_all(rows);
    lemma_window_rest_empty(rows, lo, if hi < t { hi } else { t }, 0, rows.len() as int);
    assert(rows.take(0).len() == 0);
}

/// Law: the slices of a window lie inside their batches, are not empty, and
/// come in the order of the batches.
pub proof fn lemma_window_in_bounds(rows: Seq<usize>, lo: int, hi: int)
    requires
        rows.len() <= usize::MAX,
    ensures
        slices_in_bounds(rows, window_slices(rows, lo, hi)),
    decreases rows.len(),
{
    if rows.len() > 0 {
        let d = rows.drop_last();
        lemma_window_in_bounds(d, lo, hi);
        let w = window_slices(rows, lo, hi);
        let p = window_slices(d, lo, hi);
        assert forall|k: int| 0 <= k < p.len() implies p[k].batch < d.len() && rows[p[k].batch as int]
            == d[p[k].batch as int] by {
            assert(p[k].batch < d.len());
        }
        lemma_total_nonneg(d);
        let first = total_rows(d);
        let end = first + rows.last();
        let from = if lo > first { lo } else { first };
        let to = if hi < end { hi } else { end };
        if from < to {
            let s = BatchSlice {
                batch: (rows.len() - 1) as usize,
                start: (from - first) as usize,
                len: (to - from) as usize,
            };
            assert(w == p.push(s));
            assert(s.batch == rows.len() - 1);
            assert(s.start + s.len == to - first);
            assert forall|k: int| 0 <= k < w.len() implies {
                &&& (#[trigger] w[k]).batch < rows.len()
                &&& w[k].len > 0
                &&& w[k].start + w[k].len <= rows[w[k].batch as int]
            } by {
                if k < p.len() {
                    assert(w[k] == p[k]);
                }
            }
            assert forall|k1: int, k2: int|
                0 <= k1 < k2 < w.len() implies (#[trigger] w[k1]).batch < (#[trigger] w[k2]).batch by {
                if k2 < p.len() {
                    assert(w[k1] == p[k1] && w[k2] == p[k2]);
                } else {
                    assert(w[k1] == p[k1]);
                }
            }
        }
    }
}

proof fn lemma_slice_rows_prefix(rows: Seq<usize>, n: int, slices: Seq<BatchSlice>)
    requires
        0 <= n <= rows.len(),
        forall|k: int| 0 <= k < slices.len() ==> (#[trigger] slices[k]).batch < n,
    ensures
        slice_rows(rows.take(n), slices) == slice_rows(rows, slices),
    decreases slices.len(),
{
    if slices.len() > 0 {
        let s = slices.last();
        lemma_slice_rows_prefix(rows, n, slices.drop_last());
        assert(rows.take(n).take(s.batch as int) =~= rows.take(s.batch as int));
        assert(Seq::new(s.len as nat, |k: int| rows_before(rows.take(n), s.batch as int) + s.start + k)
            =~= Seq::new(s.len as nat, |k: int| rows_before(rows, s.batch as int) + s.start + k));
    }
}

/// Law: the slices of the window `lo .. hi` hold, in order, exactly the rows
/// `lo .. min(hi, total)` of the batches taken together.
pub proof fn lemma_window_rows(rows: Seq<usize>, lo: int, hi: int)
    requires
        0 <= lo,
        rows.len() <= usize::MAX,
    ensures
        slice_rows(rows, window_slices(rows, lo, hi)) == Seq::new(
            window_len(rows, lo, hi) as nat,
            |k: int| lo + k,
        ),
    decreases rows.len(),
{
    if rows.len() == 0 {
        assert(Seq::new(window_len(rows, lo, hi) as nat, |k: int| lo + k) =~= Seq::<int>::empty());
    } else {
        let d = rows.drop_last();
        let n = d.len() as int;
        lemma_window_rows(d, lo, hi);
        lemma_window_in_bounds(d, lo, hi);
        lemma_total_nonneg(d);
        let p = window_slices(d, lo, hi);
        assert(d =~= rows.take(n));
        lemma_slice_rows_prefix(rows, n, p);
        let first = total_rows(d);
        let end = first + rows.last();
        let from = if lo > first { lo } else { first };
        let to = if hi < end { hi } else { end };
        let prev_rows = Seq::new(window_len(d, lo, hi) as nat, |k: int| lo + k);
        if from < to {
            let s = BatchSlice {
                batch: n as usize,
                start: (from - first) as usize,
                len: (to - from) as usize,
            };
            let w = p.push(s);
            assert(w.drop_last() =~= p);
            lemma_rows_before_all(d);
            assert(rows.take(n) =~= d);
            assert(rows_before(rows, n) == first);
            assert(window_len(d, lo, hi) == from - lo);
            assert(total_rows(rows) == end);
            assert(window_len(rows, lo, hi) == to - lo);
            let tail = Seq::new(s.len as nat, |k: int| rows_before(rows, s.batch as int) + s.start + k);
            assert(slice_rows(rows, w) == prev_rows + tail);
            assert(slice_rows(rows, w) =~= Seq::new(
                window_len(rows, lo, hi) as nat,
                |k: int| lo + k,
            ));
        } else {
            assert(prev_rows =~= Seq::new(window_len(rows, lo, hi) as nat, |k: int| lo + k));
        }
    }
}

/// Law: the two limit/offset paths take the same rows: the borrowing path
/// with offset `o` and the owning path with offset `Some(o)`.
pub proof fn lemma_limit_offset_paths_agree(rows: Seq<usize>, offset: usize, limit: Option<usize>)
    requires
        total_rows(rows) <= usize::MAX,
    ensures
        borrowed_window(rows, offset as int, limit) == owned_window(rows, limit, Some(offset)),
{
    if limit is None {
        lemma_window_clip(rows, offset as int, total_rows(rows), offset + usize::MAX);
    }
}

/// The owning path keeps the batches as they are: there are none, or the
/// offset is 0 and the limit is `usize::MAX` (given or by default).
pub open spec fn keeps_all(rows: Seq<usize>, limit: Option<usize>, offset: Option<usize>) -> bool {
    ||| rows.len() == 0
    ||| (match offset {
        Some(o) => o == 0,
        None => true,
    }) && (match limit {
        Some(l) => l == usize::MAX,
        None => true,
    })
}

/// `plan` is what the owning limit/offset path does with batches of these
/// row counts: keep them when `keeps_all`; otherwise the slices of the
/// window, or one empty batch where the window holds no rows.
pub open spec fn is_limit_offset_plan(
    plan: LimitOffsetPlan,
    rows: Seq<usize>,
    limit: Option<usize>,
    offset: Option<usize>,
) -> bool {
    match plan {
        LimitOffsetPlan::Unchanged => keeps_all(rows, limit, offset),
        LimitOffsetPlan::Slices(v) => {
            &&& !keeps_all(rows, limit, offset)
            &&& v@ == owned_window(rows, limit, offset)
            &&& v@.len() > 0
        },
        LimitOffsetPlan::EmptyBatch => {
            &&& !keeps_all(rows, limit, offset)
            &&& owned_window(rows, limit, offset).len() == 0
        },
    }
}

/// Apply limit and offset by borrowing slices without cloning batches (fast path).
/// `batch_rows` holds the number of rows of each batch; the result names the
/// slices of the batches that make up the answer, in order.
pub fn apply_limit_offset_borrow(batch_rows: &[usize], offset: usize, limit: Option<usize>) -> (slices:
    Vec<BatchSlice>)
    requires
        total_rows(batch_rows@) <= usize::MAX,
        borrowed_window_fits(batch_rows@, offset as int, limit),
    ensures
        slices@ == borrowed_window(batch_rows@, offset as int, limit),
{
    let ghost rows = batch_rows@;
    let n = batch_rows.len();
    if n == 0 {
        return Vec::new();
    }
    let mut total_rows_sum: usize = 0;
    let mut i: usize = 0;
    while i < n
        invariant
            n == rows.len(),
            rows == batch_rows@,
            i <= n,
            total_rows(rows) <= usize::MAX,
            total_rows_sum == rows_before(rows, i as int),
        decreases n - i,
    {
        proof {
            lemma_rows_before_succ(rows, i as int);
            lemma_rows_before_mono(rows, i + 1, n as int);
            lemma_rows_before_all(rows);
        }
        total_rows_sum = total_rows_sum + batch_rows[i];
        i = i + 1;
    }
    proof {
        lemma_rows_before_all(rows);
    }
    let ghost hi: int = match limit {
        Some(l) => offset + l,
        None => total_rows(rows),
    };
    if offset >= total_rows_sum {
        proof {
            lemma_window_past_end(rows, offset as int, hi);
        }
        return Vec::new();
    }
    let max_rows = match limit {
        Some(l) => l,
        None => total_rows_sum - offset,
    };
    assert(hi == offset + max_rows);
    let mut result: Vec<BatchSlice> = Vec::new();
    proof {
        lemma_rows_before_all(rows);
    }
    let mut rows_skipped: usize = 0;
    let mut rows_taken: usize = 0;
    let mut i: usize = 0;
    proof {
        assert(rows.take(0) =~= Seq::<usize>::empty());
    }
    while i < n
        invariant
            n == rows.len(),
            rows == batch_rows@,
            rows.take(n as int) == rows,
            i <= n,
            total_rows(rows) <= usize::MAX,
            total_rows(rows) == total_rows_sum,
            borrowed_window_fits(rows, offset as int, limit),
            offset < total_rows_sum,
            max_rows == match limit {
                Some(l) => l as int,
                None => total_rows_sum - offset,
            },
            hi == offset + max_rows,
            rows_skipped == rows_before(rows, i as int),
            rows_taken == (if rows_skipped <= offset {
                0
            } else {
                (if hi < rows_skipped { hi } else { rows_skipped as int }) - offset
            }),
            result@ == window_slices(rows.take(i as int), offset as int, hi),
        ensures
            result@ == window_slices(rows, offset as int, hi),
        decreases n - i,
    {
        let batch_rows_here = batch_rows[i];
        proof {
            lemma_rows_before_succ(rows, i as int);
            lemma_rows_before_mono(rows, i + 1, n as int);
            lemma_rows_before_all(rows);
            lemma_window_take_succ(rows, offset as int, hi, i as int);
        }
        if rows_skipped + batch_rows_here <= offset {
            rows_skipped = rows_skipped + batch_rows_here;
            i = i + 1;
            continue;
        }
        if rows_taken >= max_rows {
            proof {
                lemma_window_rest_empty(rows, offset as int, hi, i as int, n as int);
            }
            break;
        }
        let start = if rows_skipped < offset {
            offset - rows_skipped
        } else {
            0
        };
        let remaining = max_rows - rows_taken;
        proof {
            if rows_skipped <= offset {
                assert(row_in_batch(rows, i as int, offset as int));
            }
        }
        let window_end = start + remaining;
        let end = if window_end < batch_rows_here {
            window_end
        } else {
            batch_rows_here
        };
        if start < end {
            result.push(BatchSlice { batch: i, start, len: end - start });
            rows_taken = rows_taken + (end - start);
        }
        rows_skipped = rows_skipped + batch_rows_here;
        i = i + 1;
    }
    result
}

/// Apply limit and offset to batches (for owned batches after other operations).
/// `batch_rows` holds the number of rows of each batch.
pub fn apply_limit_offset(batch_rows: &[usize], limit: Option<usize>, offset: Option<usize>) -> (plan:
    LimitOffsetPlan)
    ensures
        is_limit_offset_plan(plan, batch_rows@, limit, offset),
{
    let ghost rows = batch_rows@;
    let n = batch_rows.len();
    if n == 0 {
        return LimitOffsetPlan::Unchanged;
    }
    let mut remaining_offset = match offset {
        Some(o) => o,
        None => 0,
    };
    let mut remaining_limit = match limit {
        Some(l) => l,
        None => usize::MAX,
    };
    if remaining_offset == 0 && remaining_limit == usize::MAX {
        return LimitOffsetPlan::Unchanged;
    }
    let ghost o: int = remaining_offset as int;
    let ghost l: int = remaining_limit as int;
    let ghost hi: int = o + l;
    let mut result: Vec<BatchSlice> = Vec::new();
    let mut i: usize = 0;
    proof {
        assert(rows.take(0) =~= Seq::<usize>::empty());
        lemma_rows_before_all(rows);
    }
    while i < n
        invariant
            n == rows.len(),
            rows == batch_rows@,
            rows.take(n as int) == rows,
            i <= n,
            0 <= o,
            0 <= l,
            hi == o + l,
            rows_before(rows, i as int) <= o ==> remaining_offset == o - rows_before(rows, i as int)
                && remaining_limit == l,
            rows_before(rows, i as int) > o ==> remaining_offset == 0 && remaining_limit == l - ((
            if hi < rows_before(rows, i as int) {
                hi
            } else {
                rows_before(rows, i as int)
            }) - o),
            result@ == window_slices(rows.take(i as int), o, hi),
        ensures
            result@ == window_slices(rows, o, hi),
        decreases n - i,
    {
        let rows_here = batch_rows[i];
        proof {
            lemma_rows_before_succ(rows, i as int);
            lemma_rows_before_all(rows);
            lemma_window_take_succ(rows, o, hi, i as int);
            lemma_total_nonneg(rows.take(i as int));
        }
        if remaining_offset >= rows_here {
            remaining_offset = remaining_offset - rows_here;
            i = i + 1;
            continue;
        }
        let start_in_batch = remaining_offset;
        let available_here = rows_here - start_in_batch;
        let take = if remaining_limit < available_here {
            remaining_limit
        } else {
            available_here
        };
        if take == 0 {
            proof {
                lemma_window_rest_empty(rows, o, hi, i as int, n as int);
            }
            break;
        }
        result.push(BatchSlice { batch: i, start: start_in_batch, len: take });
        remaining_limit = remaining_limit - take;
        remaining_offset = 0;
        i = i + 1;
        if remaining_limit == 0 {
            proof {
                lemma_window_rest_empty(rows, o, hi, i as int, n as int);
            }
            break;
        }
    }
    proof {
        lemma_rows_before_all(rows);
    }
    if result.len() == 0 {
        LimitOffsetPlan::EmptyBatch
    } else {
        LimitOffsetPlan::Slices(result)
    }
}

/// The row numbers, in order, of the rows that a limit/offset plan keeps of
/// batches with these row counts.
pub open spec fn plan_rows(rows: Seq<usize>, plan: LimitOffsetPlan) -> Seq<int> {
    match plan {
        LimitOffsetPlan::Unchanged => Seq::new(total_rows(rows) as nat, |k: int| k),
        LimitOffsetPlan::Slices(v) => slice_rows(rows, v@),
        LimitOffsetPlan::EmptyBatch => Seq::empty(),
    }
}

/// Law: the owning limit/offset plan keeps the same rows, in the same
/// order, as the fast path's slices for the same limit and offset (a
/// missing offset being 0). So a query answered through the pipeline
/// without a projection (for instance with an empty column list) gives the
/// rows that the fast path gives.
pub proof fn lemma_plan_rows_match_fast_path(
    rows: Seq<usize>,
    limit: Option<usize>,
    offset: Option<usize>,
    plan: LimitOffsetPlan,
)
    requires
        rows.len() <= usize::MAX,
        total_rows(rows) <= usize::MAX,
        is_limit_offset_plan(plan, rows, limit, offset),
    ensures
        plan_rows(rows, plan) == slice_rows(
            rows,
            borrowed_window(
                rows,
                match offset {
                    Some(o) => o as int,
                    None => 0,
                },
                limit,
            ),
        ),
{
    let o: usize = match offset {
        Some(o) => o,
        None => 0,
    };
    lemma_limit_offset_paths_agree(rows, o, limit);
    assert(owned_window(rows, limit, offset) == owned_window(rows, limit, Some(o)));
    lemma_total_nonneg(rows);
    match plan {
        LimitOffsetPlan::Unchanged => {
            let l = match limit {
                Some(l) => l as int,
                None => usize::MAX as int,
            };
            lemma_window_rows(rows, o as int, o + l);
            if rows.len() == 0 {
                assert(Seq::new(total_rows(rows) as nat, |k: int| k) =~= Seq::<int>::empty());
                assert(Seq::new(window_len(rows, o as int, o + l) as nat, |k: int| o + k)
                    =~= Seq::<int>::empty());
            } else {
                assert(Seq::new(total_rows(rows) as nat, |k: int| k) =~= Seq::new(
                    window_len(rows, o as int, o + l) as nat,
                    |k: int| o + k,
                ));
            }
        },
        LimitOffsetPlan::Slices(_) => {},
        LimitOffsetPlan::EmptyBatch => {
            assert(owned_window(rows, limit, offset) =~= Seq::<BatchSlice>::empty());
        },
    }
}

} // verus!
