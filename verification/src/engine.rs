//! The stream engine: resolves bounds once, then fetches and yields one
//! batch per chunk, in ascending cursor order, until the range is exhausted.

use crate::bounds::{resolve_bounds, resolved_bound};
use crate::config::{StreamConfig, StreamError};
use crate::planner::plan_next;
use crate::table::{ids_in_range, max_of, min_of, Table};
use vstd::prelude::*;

verus! {

/// The lower scan bound a run over `ids` uses: the explicit one where given,
/// else MIN of the cursor column, else 0.
pub open spec fn scan_from(ids: Seq<i32>, config: StreamConfig) -> int {
    resolved_bound(config.from, min_of(ids))
}

/// The upper scan bound a run over `ids` uses: the explicit one where given,
/// else MAX of the cursor column, else 0.
pub open spec fn scan_to(ids: Seq<i32>, config: StreamConfig) -> int {
    resolved_bound(config.to, max_of(ids))
}

/// The batch one chunk yields: the rows whose cursor value lies in the
/// chunk's window `[from, from + chunk_size)`, capped by the scan's hard
/// ceiling `to`.
pub open spec fn chunk_batch(ids: Seq<i32>, from: int, to: int, chunk_size: int) -> Seq<i32> {
    ids_in_range(
        ids,
        from,
        if from + chunk_size - 1 < to {
            from + chunk_size - 1
        } else {
            to
        },
    )
}

/// The batches one whole scan hands to its processor, in yield order: one
/// per planned chunk, the empty ones left out — a processor is never invoked
/// with an empty batch.
pub open spec fn delivered_batches(ids: Seq<i32>, from: int, to: int, chunk_size: int) -> Seq<
    Seq<i32>,
>
    decreases to + chunk_size - from,
{
    if chunk_size <= 0 || from > to {
        Seq::empty()
    } else {
        let batch = chunk_batch(ids, from, to, chunk_size);
        let rest = delivered_batches(ids, from + chunk_size, to, chunk_size);
        if batch.len() == 0 {
            rest
        } else {
            seq![batch] + rest
        }
    }
}

/// How many chunks the planner emits for a scan of `[from, to]`: an upper
/// bound on how often the processor is invoked.
pub open spec fn num_chunks(from: int, to: int, chunk_size: int) -> int
    decreases to + chunk_size - from,
{
    if chunk_size <= 0 || from > to {
        0
    } else {
        1 + num_chunks(from + chunk_size, to, chunk_size)
    }
}

/// Streams the table in chunks, blocking until the scan is exhausted, and
/// returns the non-empty batches in yield order. The batches are exactly
/// `delivered_batches` of the snapshot over the resolved bounds: together
/// they cover the rows with cursor in `[from, to]` once each, ascending.
pub fn stream_batches(table: &Table, config: &StreamConfig) -> (r: Result<
    Vec<Vec<i32>>,
    StreamError,
>)
    requires
        table.wf(),
        config.wf(),
    ensures
        match r {
            Err(e) => config.chunk_size <= 0 && e == StreamError::InvalidChunkSize,
            Ok(batches) => {
                &&& config.chunk_size > 0
                &&& batches.deep_view() == delivered_batches(
                    table@,
                    scan_from(table@, *config),
                    scan_to(table@, *config),
                    config.chunk_size as int,
                )
            },
        },
{
    if config.chunk_size <= 0 {
        return Err(StreamError::InvalidChunkSize);
    }
    let c: i32 = config.chunk_size;
    let mut range = resolve_bounds(config.from, config.to, table.min_id(), table.max_id());
    let ghost from0: int = range.from as int;
    let ghost to0: int = range.to as int;
    let mut out: Vec<Vec<i32>> = Vec::new();
    loop
        invariant
            table.wf(),
            range.wf(),
            c > 0,
            range.to == to0,
            out.deep_view() + delivered_batches(table@, range.from as int, to0, c as int)
                == delivered_batches(table@, from0, to0, c as int),
        ensures
            range.from > range.to,
            range.to == to0,
            out.deep_view() + delivered_batches(table@, range.from as int, to0, c as int)
                == delivered_batches(table@, from0, to0, c as int),
        decreases range.to + c - range.from,
    {
        match plan_next(&range, c) {
            None => {
                break ;
            },
            Some((chunk, remaining)) => {
                let hi = chunk.fetch_hi(range.to);
                let batch = table.fetch(chunk.lower, hi);
                proof {
                    assert(batch@ == chunk_batch(table@, range.from as int, to0, c as int));
                    assert(delivered_batches(table@, range.from as int, to0, c as int) == (if batch@.len() == 0 {
                        delivered_batches(table@, remaining.from as int, to0, c as int)
                    } else {
                        seq![batch@] + delivered_batches(table@, remaining.from as int, to0, c as int)
                    }));
                }
                if batch.len() > 0 {
                    let ghost old_dv = out.deep_view();
                    out.push(batch);
                    proof {
                        assert(out.deep_view() =~~= old_dv.push(batch@));
                        assert(old_dv.push(batch@) + delivered_batches(
                            table@,
                            remaining.from as int,
                            to0,
                            c as int,
                        ) =~= old_dv + (seq![batch@] + delivered_batches(
                            table@,
                            remaining.from as int,
                            to0,
                            c as int,
                        )));
                    }
                }
                range = remaining;
            },
        }
    }
    proof {
        assert(delivered_batches(table@, range.from as int, to0, c as int) =~= Seq::<
            Seq<i32>,
        >::empty());
        assert(out.deep_view() =~= out.deep_view() + Seq::<Seq<i32>>::empty());
    }
    Ok(out)
}

} // verus!
