//! Chunk planning: splitting a resolved scan range into fixed-size
//! sub-ranges, one per fetch.

use crate::bounds::CursorRange;
use vstd::prelude::*;

verus! {

/// One chunk's fetch window: the half-open cursor interval `[lower, upper)`,
/// with `upper == lower + chunk_size`. The half-open convention is what keeps
/// a row whose cursor equals `upper` for the next chunk, so no row is fetched
/// twice and none is skipped.
#[derive(Clone, Copy, Debug, PartialEq, Eq, Structural)]
pub struct ChunkSpec {
    /// The least cursor value this chunk claims.
    pub lower: i64,
    /// The exclusive upper end of the chunk's window.
    pub upper: i64,
}

impl ChunkSpec {
    /// The greatest cursor value this chunk may claim once the scan's hard
    /// ceiling `to` is applied: the last chunk may extend past `to`, but
    /// nothing past `to` is ever fetched.
    pub open spec fn claim_hi(&self, to: int) -> int {
        if self.upper - 1 < to {
            self.upper - 1
        } else {
            to
        }
    }

    /// The inclusive upper end of this chunk's fetch predicate, with the
    /// scan ceiling `to` applied.
    pub fn fetch_hi(&self, to: i64) -> (r: i64)
        requires
            self.upper >= 1,
        ensures
            r == self.claim_hi(to as int),
    {
        if self.upper - 1 < to {
            self.upper - 1
        } else {
            to
        }
    }
}

/// Plans the next chunk of `range`: `None` when the scan is done
/// (`range.from > range.to`, which covers the empty table and the fully
/// consumed range alike), else the chunk `[from, from + chunk_size)` together
/// with the remaining range, which starts where the chunk ends.
pub fn plan_next(range: &CursorRange, chunk_size: i32) -> (r: Option<(ChunkSpec, CursorRange)>)
    requires
        range.wf(),
        chunk_size > 0,
    ensures
        match r {
            None => range.from > range.to,
            Some((chunk, remaining)) => {
                &&& range.from <= range.to
                &&& chunk.lower == range.from
                &&& chunk.upper == range.from + chunk_size
                &&& remaining.from == range.from + chunk_size
                &&& remaining.to == range.to
                &&& remaining.wf()
            },
        },
{
    if range.from > range.to {
        None
    } else {
        let upper: i64 = range.from + chunk_size as i64;
        Some((ChunkSpec { lower: range.from, upper }, CursorRange { from: upper, to: range.to }))
    }
}

} // verus!
