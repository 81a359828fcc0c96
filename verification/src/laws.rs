//! Laws of the stream: proved properties that hold of every scan, relating
//! boundary resolution, chunk planning and batch delivery.

use crate::engine::{chunk_batch, delivered_batches, num_chunks};
use crate::table::{ids_in_range, strictly_sorted};
use vstd::prelude::*;

verus! {

/// A fetch window that is already empty (`lo > hi`) selects no rows.
pub proof fn lemma_empty_window_selects_nothing(ids: Seq<i32>, lo: int, hi: int)
    requires
        lo > hi,
    ensures
        ids_in_range(ids, lo, hi).len() == 0,
    decreases ids.len(),
{
    if ids.len() > 0 {
        lemma_empty_window_selects_nothing(ids.drop_last(), lo, hi);
    }
}

/// A window whose lower end lies above every row selects no rows.
proof fn lemma_window_above_all_selects_nothing(ids: Seq<i32>, lo: int, hi: int)
    requires
        forall|i: int| 0 <= i < ids.len() ==> ids[i] < lo,
    ensures
        ids_in_range(ids, lo, hi).len() == 0,
    decreases ids.len(),
{
    if ids.len() > 0 {
        assert(forall|i: int| 0 <= i < ids.len() - 1 ==> ids.drop_last()[i] == ids[i]);
        lemma_window_above_all_selects_nothing(ids.drop_last(), lo, hi);
    }
}

/// Every row a window selects lies inside the window.
proof fn lemma_window_selection_bounds(ids: Seq<i32>, lo: int, hi: int)
    ensures
        forall|j: int|
            0 <= j < ids_in_range(ids, lo, hi).len() ==> lo <= #[trigger] ids_in_range(
                ids,
                lo,
                hi,
            )[j] <= hi,
    decreases ids.len(),
{
    if ids.len() > 0 {
        let init = ids.drop_last();
        lemma_window_selection_bounds(init, lo, hi);
        let f = ids_in_range(ids, lo, hi);
        let fi = ids_in_range(init, lo, hi);
        assert forall|j: int| 0 <= j < f.len() implies lo <= #[trigger] f[j] <= hi by {
            if lo <= ids.last() <= hi {
                assert(f == fi.push(ids.last()));
                if j < fi.len() {
                    assert(f[j] == fi[j]);
                } else {
                    assert(f[j] == ids.last());
                }
            } else {
                assert(f == fi);
            }
        }
    }
}

/// A bound that holds of every row holds of every row a window selects.
proof fn lemma_window_selection_below(ids: Seq<i32>, lo: int, hi: int, v: int)
    requires
        forall|i: int| 0 <= i < ids.len() ==> ids[i] < v,
    ensures
        forall|j: int|
            0 <= j < ids_in_range(ids, lo, hi).len() ==> #[trigger] ids_in_range(ids, lo, hi)[j]
                < v,
    decreases ids.len(),
{
    if ids.len() > 0 {
        let init = ids.drop_last();
        assert(forall|i: int| 0 <= i < init.len() ==> init[i] == ids[i]);
        lemma_window_selection_below(init, lo, hi, v);
        let f = ids_in_range(ids, lo, hi);
        let fi = ids_in_range(init, lo, hi);
        assert forall|j: int| 0 <= j < f.len() implies #[trigger] f[j] < v by {
            if lo <= ids.last() <= hi {
                assert(f == fi.push(ids.last()));
                if j < fi.len() {
                    assert(f[j] == fi[j]);
                } else {
                    assert(f[j] == ids.last());
                }
            } else {
                assert(f == fi);
            }
        }
    }
}

/// A window keeps the snapshot's order: what it selects from a strictly
/// sorted snapshot is strictly sorted.
proof fn lemma_window_selection_sorted(ids: Seq<i32>, lo: int, hi: int)
    requires
        strictly_sorted(ids),
    ensures
        strictly_sorted(ids_in_range(ids, lo, hi)),
    decreases ids.len(),
{
    if ids.len() > 0 {
        let init = ids.drop_last();
        let x = ids.last();
        assert(forall|i: int| 0 <= i < init.len() ==> init[i] == ids[i]);
        assert(strictly_sorted(init));
        assert(forall|i: int| 0 <= i < init.len() ==> init[i] < x);
        lemma_window_selection_sorted(init, lo, hi);
        let f = ids_in_range(ids, lo, hi);
        let fi = ids_in_range(init, lo, hi);
        if lo <= x <= hi {
            lemma_window_selection_below(init, lo, hi, x as int);
            assert(f == fi.push(x));
            assert forall|i: int, j: int| 0 <= i < j < f.len() implies f[i] < f[j] by {
                if j < fi.len() {
                    assert(f[i] == fi[i] && f[j] == fi[j]);
                } else {
                    assert(f[i] == fi[i] && f[j] == x);
                }
            }
        } else {
            assert(f == fi);
        }
    }
}

/// What a scan yields is ascending end to end: the concatenation of its
/// batches, in yield order, is strictly sorted.
pub proof fn lemma_scan_output_ascending(ids: Seq<i32>, from: int, to: int, chunk_size: int)
    requires
        strictly_sorted(ids),
        chunk_size > 0,
    ensures
        strictly_sorted(delivered_batches(ids, from, to, chunk_size).flatten()),
{
    lemma_scan_partitions_range(ids, from, to, chunk_size);
    lemma_window_selection_sorted(ids, from, to);
}

/// On a strictly sorted snapshot, two adjacent fetch windows select exactly
/// what the joined window selects, in the same order: nothing is lost,
/// duplicated or reordered at a chunk boundary.
pub proof fn lemma_adjacent_windows_join(ids: Seq<i32>, lo: int, mid: int, hi: int)
    requires
        strictly_sorted(ids),
        lo <= mid + 1,
        mid <= hi,
    ensures
        ids_in_range(ids, lo, mid) + ids_in_range(ids, mid + 1, hi) == ids_in_range(ids, lo, hi),
    decreases ids.len(),
{
    if ids.len() == 0 {
        assert(ids_in_range(ids, lo, mid) + ids_in_range(ids, mid + 1, hi) =~= ids_in_range(
            ids,
            lo,
            hi,
        ));
    } else {
        let init = ids.drop_last();
        let x = ids.last();
        assert(forall|i: int| 0 <= i < init.len() ==> init[i] == ids[i]);
        assert(strictly_sorted(init));
        assert(forall|i: int| 0 <= i < init.len() ==> init[i] < x);
        lemma_adjacent_windows_join(init, lo, mid, hi);
        let a1 = ids_in_range(init, lo, mid);
        let a2 = ids_in_range(init, mid + 1, hi);
        if lo <= x <= mid {
            assert(forall|i: int| 0 <= i < init.len() ==> init[i] < mid + 1);
            lemma_window_above_all_selects_nothing(init, mid + 1, hi);
            assert(ids_in_range(ids, lo, mid) == a1.push(x));
            assert(ids_in_range(ids, mid + 1, hi) == a2);
            assert(ids_in_range(ids, lo, hi) == ids_in_range(init, lo, hi).push(x));
            assert(a1 + a2 =~= a1);
            assert(a1.push(x) + a2 =~= ids_in_range(init, lo, hi).push(x));
        } else if mid + 1 <= x <= hi {
            assert(ids_in_range(ids, lo, mid) == a1);
            assert(ids_in_range(ids, mid + 1, hi) == a2.push(x));
            assert(ids_in_range(ids, lo, hi) == ids_in_range(init, lo, hi).push(x));
            assert(a1 + a2.push(x) =~= (a1 + a2).push(x));
        } else {
            assert(ids_in_range(ids, lo, mid) == a1);
            assert(ids_in_range(ids, mid + 1, hi) == a2);
            assert(ids_in_range(ids, lo, hi) == ids_in_range(init, lo, hi));
        }
    }
}

/// The batches of one scan, concatenated in yield order, are exactly the
/// rows whose cursor value lies in `[from, to]` — each exactly once, in
/// ascending cursor order.
pub proof fn lemma_scan_partitions_range(ids: Seq<i32>, from: int, to: int, chunk_size: int)
    requires
        strictly_sorted(ids),
        chunk_size > 0,
    ensures
        delivered_batches(ids, from, to, chunk_size).flatten() == ids_in_range(ids, from, to),
    decreases to + chunk_size - from,
{
    if from > to {
        lemma_empty_window_selects_nothing(ids, from, to);
        assert(delivered_batches(ids, from, to, chunk_size).flatten() =~= ids_in_range(
            ids,
            from,
            to,
        ));
    } else {
        let b = chunk_batch(ids, from, to, chunk_size);
        let rest = delivered_batches(ids, from + chunk_size, to, chunk_size);
        lemma_scan_partitions_range(ids, from + chunk_size, to, chunk_size);
        if from + chunk_size - 1 < to {
            lemma_adjacent_windows_join(ids, from, from + chunk_size - 1, to);
            assert(b + ids_in_range(ids, from + chunk_size, to) == ids_in_range(ids, from, to));
        } else {
            lemma_empty_window_selects_nothing(ids, from + chunk_size, to);
            assert(ids_in_range(ids, from + chunk_size, to) =~= Seq::<i32>::empty());
            assert(b + ids_in_range(ids, from + chunk_size, to) =~= ids_in_range(ids, from, to));
        }
        if b.len() == 0 {
            assert(delivered_batches(ids, from, to, chunk_size) == rest);
            assert(rest.flatten() == ids_in_range(ids, from + chunk_size, to));
            assert(b + ids_in_range(ids, from + chunk_size, to) =~= ids_in_range(
                ids,
                from + chunk_size,
                to,
            ));
        } else {
            let s = seq![b] + rest;
            assert(delivered_batches(ids, from, to, chunk_size) == s);
            assert(s.len() > 0);
            assert(s.first() == b);
            assert(s.drop_first() =~= rest);
            assert(s.flatten() == b + rest.flatten());
        }
    }
}

/// A scan whose resolved range is already empty (`from > to`), or whose
/// table holds no rows, delivers nothing: the processor is invoked zero
/// times.
pub proof fn lemma_empty_scan_delivers_nothing(ids: Seq<i32>, from: int, to: int, chunk_size: int)
    requires
        from > to || ids.len() == 0,
    ensures
        delivered_batches(ids, from, to, chunk_size).len() == 0,
    decreases to + chunk_size - from,
{
    if !(chunk_size <= 0 || from > to) {
        lemma_empty_scan_delivers_nothing(ids, from + chunk_size, to, chunk_size);
    }
}

/// No delivered batch is empty: the processor is never invoked on no rows.
pub proof fn lemma_delivered_batches_nonempty(ids: Seq<i32>, from: int, to: int, chunk_size: int)
    ensures
        forall|k: int|
            0 <= k < delivered_batches(ids, from, to, chunk_size).len()
                ==> delivered_batches(ids, from, to, chunk_size)[k].len() > 0,
    decreases to + chunk_size - from,
{
    if !(chunk_size <= 0 || from > to) {
        lemma_delivered_batches_nonempty(ids, from + chunk_size, to, chunk_size);
        let b = chunk_batch(ids, from, to, chunk_size);
        let rest = delivered_batches(ids, from + chunk_size, to, chunk_size);
        let all = delivered_batches(ids, from, to, chunk_size);
        assert forall|k: int| 0 <= k < all.len() implies all[k].len() > 0 by {
            if b.len() == 0 {
                assert(all[k] == rest[k]);
            } else if k == 0 {
                assert(all[k] == b);
            } else {
                assert(all[k] == rest[k - 1]);
            }
        }
    }
}

/// Every delivered batch holds only cursor values from the scan's own range.
pub proof fn lemma_delivered_within_bounds(ids: Seq<i32>, from: int, to: int, chunk_size: int)
    requires
        chunk_size > 0,
    ensures
        forall|k: int, j: int|
            0 <= k < delivered_batches(ids, from, to, chunk_size).len() && 0 <= j
                < delivered_batches(ids, from, to, chunk_size)[k].len() ==> from <= #[trigger] delivered_batches(
                ids,
                from,
                to,
                chunk_size,
            )[k][j] <= to,
    decreases to + chunk_size - from,
{
    if !(from > to) {
        let b = chunk_batch(ids, from, to, chunk_size);
        let rest = delivered_batches(ids, from + chunk_size, to, chunk_size);
        let all = delivered_batches(ids, from, to, chunk_size);
        let mid = if from + chunk_size - 1 < to {
            from + chunk_size - 1
        } else {
            to
        };
        lemma_window_selection_bounds(ids, from, mid);
        lemma_delivered_within_bounds(ids, from + chunk_size, to, chunk_size);
        assert forall|k: int, j: int|
            0 <= k < all.len() && 0 <= j < all[k].len() implies from <= #[trigger] all[k][j]
            <= to by {
            if b.len() == 0 {
                assert(all[k] == rest[k]);
            } else {
                if k == 0 {
                    assert(all[k] == b);
                } else {
                    assert(all[k] == rest[k - 1]);
                }
            }
        }
    }
}

/// With an explicit lower bound above some row's cursor value, that row
/// appears in no batch of the whole scan.
pub proof fn lemma_scan_excludes_below(ids: Seq<i32>, from: int, to: int, chunk_size: int, v: i32)
    requires
        chunk_size > 0,
        v < from,
    ensures
        forall|k: int|
            0 <= k < delivered_batches(ids, from, to, chunk_size).len()
                ==> !delivered_batches(ids, from, to, chunk_size)[k].contains(v),
{
    lemma_delivered_within_bounds(ids, from, to, chunk_size);
    let all = delivered_batches(ids, from, to, chunk_size);
    assert forall|k: int| 0 <= k < all.len() implies !all[k].contains(v) by {
        if all[k].contains(v) {
            let j = choose|j: int| 0 <= j < all[k].len() && all[k][j] == v;
            assert(from <= all[k][j]);
        }
    }
}

/// With an explicit upper bound below some row's cursor value, that row
/// appears in no batch of the whole scan.
pub proof fn lemma_scan_excludes_above(ids: Seq<i32>, from: int, to: int, chunk_size: int, v: i32)
    requires
        chunk_size > 0,
        v > to,
    ensures
        forall|k: int|
            0 <= k < delivered_batches(ids, from, to, chunk_size).len()
                ==> !delivered_batches(ids, from, to, chunk_size)[k].contains(v),
{
    lemma_delivered_within_bounds(ids, from, to, chunk_size);
    let all = delivered_batches(ids, from, to, chunk_size);
    assert forall|k: int| 0 <= k < all.len() implies !all[k].contains(v) by {
        if all[k].contains(v) {
            let j = choose|j: int| 0 <= j < all[k].len() && all[k][j] == v;
            assert(all[k][j] <= to);
        }
    }
}

/// A table with exactly one row yields exactly one batch, holding exactly
/// that row, whatever the (positive) chunk size — the bounds being the row's
/// own cursor value, which is what they resolve to on such a table when left
/// unspecified.
pub proof fn lemma_single_row_single_batch(ids: Seq<i32>, chunk_size: int)
    requires
        ids.len() == 1,
        chunk_size > 0,
    ensures
        delivered_batches(ids, ids[0] as int, ids[0] as int, chunk_size) == seq![ids],
{
    let m = ids[0] as int;
    assert(ids.drop_last() =~= Seq::<i32>::empty());
    assert(ids_in_range(Seq::<i32>::empty(), m, m) == Seq::<i32>::empty());
    assert(ids.last() == ids[0]);
    assert(ids_in_range(ids, m, m) =~= ids);
    let mid = if m + chunk_size - 1 < m {
        m + chunk_size - 1
    } else {
        m
    };
    assert(mid == m);
    assert(chunk_batch(ids, m, m, chunk_size) == ids);
    assert(delivered_batches(ids, m + chunk_size, m, chunk_size) =~= Seq::<Seq<i32>>::empty());
    assert(delivered_batches(ids, m, m, chunk_size) =~= seq![ids]);
}

/// A point-sized window selects at most one row of a strictly sorted
/// snapshot.
proof fn lemma_point_window_at_most_one(ids: Seq<i32>, p: int)
    requires
        strictly_sorted(ids),
    ensures
        ids_in_range(ids, p, p).len() <= 1,
    decreases ids.len(),
{
    if ids.len() > 0 {
        let init = ids.drop_last();
        assert(forall|i: int| 0 <= i < init.len() ==> init[i] == ids[i]);
        assert(strictly_sorted(init));
        lemma_point_window_at_most_one(init, p);
        if p <= ids.last() <= p {
            assert(forall|i: int| 0 <= i < init.len() ==> init[i] < p);
            lemma_window_above_all_selects_nothing(init, p, p);
        }
    }
}

/// With chunk size one every batch holds exactly one row, and the scan
/// delivers one batch per row of the range: as many deliveries as there are
/// rows with cursor in `[from, to]`, reproducing them in order.
pub proof fn lemma_unit_chunks_deliver_singletons(ids: Seq<i32>, from: int, to: int)
    requires
        strictly_sorted(ids),
    ensures
        forall|k: int|
            0 <= k < delivered_batches(ids, from, to, 1).len() ==> delivered_batches(
                ids,
                from,
                to,
                1,
            )[k].len() == 1,
        delivered_batches(ids, from, to, 1).len() == ids_in_range(ids, from, to).len(),
        delivered_batches(ids, from, to, 1).flatten() == ids_in_range(ids, from, to),
    decreases to + 1 - from,
{
    lemma_scan_partitions_range(ids, from, to, 1);
    if from > to {
        lemma_empty_window_selects_nothing(ids, from, to);
    } else {
        let b = chunk_batch(ids, from, to, 1);
        let rest = delivered_batches(ids, from + 1, to, 1);
        let all = delivered_batches(ids, from, to, 1);
        assert(b == ids_in_range(ids, from, from));
        lemma_point_window_at_most_one(ids, from);
        lemma_unit_chunks_deliver_singletons(ids, from + 1, to);
        lemma_adjacent_windows_join(ids, from, from, to);
        assert(ids_in_range(ids, from, to).len() == b.len() + ids_in_range(
            ids,
            from + 1,
            to,
        ).len());
        if b.len() == 0 {
            assert(all == rest);
        } else {
            assert(b.len() == 1);
            assert(all == seq![b] + rest);
            assert forall|k: int| 0 <= k < all.len() implies all[k].len() == 1 by {
                if k == 0 {
                    assert(all[k] == b);
                } else {
                    assert(all[k] == rest[k - 1]);
                }
            }
        }
    }
}

/// A window that covers every row selects the whole table unchanged.
pub proof fn lemma_full_window_selects_all(ids: Seq<i32>, lo: int, hi: int)
    requires
        forall|i: int| 0 <= i < ids.len() ==> lo <= #[trigger] ids[i] <= hi,
    ensures
        ids_in_range(ids, lo, hi) == ids,
    decreases ids.len(),
{
    if ids.len() > 0 {
        let init = ids.drop_last();
        assert(forall|i: int| 0 <= i < init.len() ==> init[i] == ids[i]);
        lemma_full_window_selects_all(init, lo, hi);
        assert(ids_in_range(ids, lo, hi) == init.push(ids.last()));
        assert(init.push(ids.last()) =~= ids);
    }
}

/// With chunk size one and the bounds left to resolve to the table's MIN and
/// MAX, a table of N rows streams as exactly N singleton batches whose
/// concatenation reproduces the whole table in order.
pub proof fn lemma_unit_chunks_reproduce_table(ids: Seq<i32>)
    requires
        strictly_sorted(ids),
        ids.len() > 0,
    ensures
        delivered_batches(ids, ids.first() as int, ids.last() as int, 1).len() == ids.len(),
        delivered_batches(ids, ids.first() as int, ids.last() as int, 1).flatten() == ids,
{
    let lo = ids.first() as int;
    let hi = ids.last() as int;
    lemma_unit_chunks_deliver_singletons(ids, lo, hi);
    assert forall|i: int| 0 <= i < ids.len() implies lo <= #[trigger] ids[i] <= hi by {
        if i > 0 {
            assert(ids.first() < ids[i]);
        }
        if i < ids.len() - 1 {
            assert(ids[i] < ids.last());
        }
    }
    lemma_full_window_selects_all(ids, lo, hi);
}

/// The processor is invoked at most once per planned chunk: never more than
/// `num_chunks` times over a whole scan.
pub proof fn lemma_delivery_count_bounded(ids: Seq<i32>, from: int, to: int, chunk_size: int)
    ensures
        delivered_batches(ids, from, to, chunk_size).len() <= num_chunks(from, to, chunk_size),
    decreases to + chunk_size - from,
{
    if !(chunk_size <= 0 || from > to) {
        lemma_delivery_count_bounded(ids, from + chunk_size, to, chunk_size);
    }
}

/// A non-empty range is covered by exactly `ceil((to - from + 1) /
/// chunk_size)` chunks — written here over Euclidean division as
/// `(to - from) / chunk_size + 1`.
pub proof fn lemma_num_chunks_is_ceil(from: int, to: int, chunk_size: int)
    requires
        chunk_size > 0,
        from <= to,
    ensures
        num_chunks(from, to, chunk_size) == (to - from) / chunk_size + 1,
    decreases to + chunk_size - from,
{
    if from + chunk_size > to {
        assert(num_chunks(from + chunk_size, to, chunk_size) == 0);
        vstd::arithmetic::div_mod::lemma_fundamental_div_mod_converse(
            to - from,
            chunk_size,
            0,
            to - from,
        );
    } else {
        lemma_num_chunks_is_ceil(from + chunk_size, to, chunk_size);
        let q = (to - from - chunk_size) / chunk_size;
        vstd::arithmetic::div_mod::lemma_fundamental_div_mod(to - from - chunk_size, chunk_size);
        vstd::arithmetic::div_mod::lemma_mod_bound(to - from - chunk_size, chunk_size);
        let r = (to - from - chunk_size) % chunk_size;
        assert(to - from == (q + 1) * chunk_size + r) by (nonlinear_arith)
            requires
                to - from - chunk_size == chunk_size * q + r,
        ;
        vstd::arithmetic::div_mod::lemma_fundamental_div_mod_converse(
            to - from,
            chunk_size,
            q + 1,
            r,
        );
    }
}

/// The batches of a scan are a function of the table snapshot and the
/// resolved bounds alone: re-running a stream with identical bounds against
/// an unchanged table yields an identical sequence of batches.
pub proof fn lemma_rerun_yields_identical_batches(
    ids: Seq<i32>,
    from: int,
    to: int,
    chunk_size: int,
    first_run: Seq<Seq<i32>>,
    second_run: Seq<Seq<i32>>,
)
    requires
        first_run == delivered_batches(ids, from, to, chunk_size),
        second_run == delivered_batches(ids, from, to, chunk_size),
    ensures
        first_run == second_run,
{
}

} // verus!
