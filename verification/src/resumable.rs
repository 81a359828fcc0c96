//! The suspension-capable stream: a resumable state machine whose caller
//! performs the store I/O between steps. The machine decides what happens
//! next — query the bounds, fetch a chunk, or stop — and the caller carries
//! each answer back in. Only one fetch is ever outstanding per stream, and
//! the chunks of one stream are never reordered, so a scheduler may
//! interleave any other work between a fetch being issued and its batch
//! being delivered without changing what the stream yields.

use crate::bounds::{resolved_bound, CursorRange};
use crate::config::{StreamConfig, StreamError};
use crate::engine::{chunk_batch, delivered_batches, scan_from, scan_to};
use crate::planner::ChunkSpec;
use crate::table::Table;
use vstd::prelude::*;

verus! {

/// Where a stream stands between two steps of its driver.
#[derive(Debug)]
pub enum StreamState {
    /// No boundary query has been issued yet.
    NotStarted,
    /// The scan range is fixed; the next step plans a chunk.
    BoundsResolved(CursorRange),
    /// A chunk fetch is outstanding; the range that follows it is kept.
    Fetching(ChunkSpec, CursorRange),
    /// The scan is over; no further fetch is issued.
    Exhausted,
}

/// A resumable stream over a serial table. The caller alternates between
/// asking the machine what to do and handing it the result of the store
/// call it asked for.
#[derive(Debug)]
pub struct Streamer {
    /// How many cursor values one chunk covers; positive.
    pub chunk_size: i32,
    /// The caller's explicit lower bound, if any.
    pub explicit_from: Option<i32>,
    /// The caller's explicit upper bound, if any.
    pub explicit_to: Option<i32>,
    /// Where the stream stands.
    pub state: StreamState,
}

impl Streamer {
    /// The machine's invariant: a positive chunk size, non-negative bounds,
    /// and a chunk window that is always exactly one chunk ahead of the
    /// remaining range.
    pub open spec fn wf(&self) -> bool {
        &&& self.chunk_size > 0
        &&& (self.explicit_from matches Some(f) ==> f >= 0)
        &&& (self.explicit_to matches Some(t) ==> t >= 0)
        &&& (self.state matches StreamState::BoundsResolved(r) ==> r.wf())
        &&& (self.state matches StreamState::Fetching(c, r) ==> {
            &&& r.wf()
            &&& c.upper == c.lower + self.chunk_size
            &&& c.upper == r.from
            &&& c.lower >= 0
        })
    }

    /// Builds a stream in its initial state. A non-positive chunk size is a
    /// configuration error, rejected before any work is attempted.
    pub fn new(config: &StreamConfig) -> (r: Result<Streamer, StreamError>)
        requires
            config.wf(),
        ensures
            match r {
                Err(e) => config.chunk_size <= 0 && e == StreamError::InvalidChunkSize,
                Ok(s) => {
                    &&& config.chunk_size > 0
                    &&& s.chunk_size == config.chunk_size
                    &&& s.explicit_from == config.from
                    &&& s.explicit_to == config.to
                    &&& s.state is NotStarted
                    &&& s.wf()
                },
            },
    {
        if config.chunk_size <= 0 {
            Err(StreamError::InvalidChunkSize)
        } else {
            Ok(
                Streamer {
                    chunk_size: config.chunk_size,
                    explicit_from: config.from,
                    explicit_to: config.to,
                    state: StreamState::NotStarted,
                },
            )
        }
    }

    /// True until the boundary queries have been answered.
    pub fn wants_bounds(&self) -> (r: bool)
        ensures
            r == (self.state is NotStarted),
    {
        matches!(self.state, StreamState::NotStarted)
    }

    /// True when the lower boundary query can be skipped because the caller
    /// gave the bound explicitly.
    pub fn has_explicit_from(&self) -> (r: bool)
        ensures
            r == (self.explicit_from is Some),
    {
        self.explicit_from.is_some()
    }

    /// True when the upper boundary query can be skipped because the caller
    /// gave the bound explicitly.
    pub fn has_explicit_to(&self) -> (r: bool)
        ensures
            r == (self.explicit_to is Some),
    {
        self.explicit_to.is_some()
    }

    /// Fixes the scan range once the boundary queries have completed.
    /// `store_min` / `store_max` are the store's MIN/MAX of the cursor
    /// column; each is only consulted for a bound that is not explicit, so a
    /// caller that skipped a query may pass `None` for it.
    pub fn bounds_ready(&mut self, store_min: Option<i32>, store_max: Option<i32>)
        requires
            old(self).wf(),
            old(self).state is NotStarted,
            (store_min matches Some(m) ==> m >= 0),
            (store_max matches Some(m) ==> m >= 0),
        ensures
            final(self).wf(),
            final(self).chunk_size == old(self).chunk_size,
            final(self).explicit_from == old(self).explicit_from,
            final(self).explicit_to == old(self).explicit_to,
            final(self).state matches StreamState::BoundsResolved(r) && {
                &&& r.from == resolved_bound(old(self).explicit_from, store_min)
                &&& r.to == resolved_bound(old(self).explicit_to, store_max)
            },
    {
        let from: i32 = match self.explicit_from {
            Some(f) => f,
            None => match store_min {
                Some(m) => m,
                None => 0,
            },
        };
        let to: i32 = match self.explicit_to {
            Some(t) => t,
            None => match store_max {
                Some(m) => m,
                None => 0,
            },
        };
        self.state = StreamState::BoundsResolved(
            CursorRange { from: from as i64, to: to as i64 },
        );
    }

    /// Plans the next chunk. `None` means the range is exhausted and the
    /// stream terminates with no further suspension; `Some` gives the next
    /// window, and the stream then awaits that fetch's batch.
    pub fn plan_chunk(&mut self) -> (r: Option<ChunkSpec>)
        requires
            old(self).wf(),
            old(self).state is BoundsResolved,
        ensures
            final(self).wf(),
            final(self).chunk_size == old(self).chunk_size,
            final(self).explicit_from == old(self).explicit_from,
            final(self).explicit_to == old(self).explicit_to,
            ({
                let rng = old(self).state->BoundsResolved_0;
                match r {
                    None => rng.from > rng.to && final(self).state is Exhausted,
                    Some(chunk) => {
                        &&& rng.from <= rng.to
                        &&& chunk.lower == rng.from
                        &&& chunk.upper == rng.from + old(self).chunk_size
                        &&& final(self).state matches StreamState::Fetching(c, rem) && c == chunk
                            && rem.from == rng.from + old(self).chunk_size && rem.to == rng.to
                    },
                }
            }),
    {
        let range = match &self.state {
            StreamState::BoundsResolved(r) => *r,
            _ => CursorRange { from: 1, to: 0 },
        };
        if range.from > range.to {
            self.state = StreamState::Exhausted;
            None
        } else {
            let upper: i64 = range.from + self.chunk_size as i64;
            let chunk = ChunkSpec { lower: range.from, upper };
            self.state = StreamState::Fetching(
                chunk,
                CursorRange { from: upper, to: range.to },
            );
            Some(chunk)
        }
    }

    /// The window of the outstanding fetch as an inclusive cursor interval,
    /// with the scan's hard ceiling applied: the store is asked for rows
    /// with cursor in `[r.0, r.1]`.
    pub fn fetch_window(&self) -> (r: (i64, i64))
        requires
            self.wf(),
            self.state is Fetching,
        ensures
            ({
                let c = self.state->Fetching_0;
                let rem = self.state->Fetching_1;
                r.0 == c.lower && r.1 == c.claim_hi(rem.to as int)
            }),
    {
        match &self.state {
            StreamState::Fetching(c, rem) => (c.lower, c.fetch_hi(rem.to)),
            _ => (0, 0),
        }
    }

    /// The outstanding batch has been yielded to the consumer (or the
    /// consumer stopped pulling and discarded it): the scan moves on to the
    /// rest of the range.
    pub fn batch_done(&mut self)
        requires
            old(self).wf(),
            old(self).state is Fetching,
        ensures
            final(self).wf(),
            final(self).chunk_size == old(self).chunk_size,
            final(self).explicit_from == old(self).explicit_from,
            final(self).explicit_to == old(self).explicit_to,
            final(self).state == StreamState::BoundsResolved(old(self).state->Fetching_1),
    {
        let remaining = match &self.state {
            StreamState::Fetching(_, rem) => *rem,
            _ => CursorRange { from: 1, to: 0 },
        };
        self.state = StreamState::BoundsResolved(remaining);
    }

    /// True once the scan is over.
    pub fn is_exhausted(&self) -> (r: bool)
        ensures
            r == (self.state is Exhausted),
    {
        matches!(self.state, StreamState::Exhausted)
    }
}

/// Drives a resumable stream over an in-memory snapshot until it is
/// exhausted, collecting the yielded batches. The suspension-capable machine
/// yields exactly the batches the blocking engine yields: the same chunking,
/// the same order, the same rows.
pub fn run_to_completion(table: &Table, config: &StreamConfig) -> (r: Result<
    Vec<Vec<i32>>,
    StreamError,
>)
    requires
        table.wf(),
        config.wf(),
    ensures
        match r {
            Err(e) => config.chunk_size <= 0 && e == StreamError::InvalidChunkSize,
            Ok(batches) => {
                &&& config.chunk_size > 0
                &&& batches.deep_view() == delivered_batches(
                    table@,
                    scan_from(table@, *config),
                    scan_to(table@, *config),
                    config.chunk_size as int,
                )
            },
        },
{
    let mut s = match Streamer::new(config) {
        Err(e) => {
            return Err(e);
        },
        Ok(s) => s,
    };
    let store_min = if s.has_explicit_from() {
        None
    } else {
        table.min_id()
    };
    let store_max = if s.has_explicit_to() {
        None
    } else {
        table.max_id()
    };
    s.bounds_ready(store_min, store_max);
    let ghost cs: int = config.chunk_size as int;
    let ghost from0: int = scan_from(table@, *config);
    let ghost to0: int = scan_to(table@, *config);
    let ghost full: Seq<Seq<i32>> = delivered_batches(table@, from0, to0, cs);
    let mut out: Vec<Vec<i32>> = Vec::new();
    loop
        invariant_except_break
            s.state matches StreamState::BoundsResolved(rng) && rng.to == to0 && out.deep_view()
                + delivered_batches(table@, rng.from as int, to0, cs) == full,
        invariant
            table.wf(),
            s.wf(),
            s.chunk_size == config.chunk_size,
            config.chunk_size > 0,
            cs == config.chunk_size as int,
            full == delivered_batches(table@, from0, to0, cs),
        ensures
            out.deep_view() == full,
        decreases s.state->BoundsResolved_0.to + s.chunk_size - s.state->BoundsResolved_0.from,
    {
        let ghost rng = s.state->BoundsResolved_0;
        match s.plan_chunk() {
            None => {
                proof {
                    assert(delivered_batches(table@, rng.from as int, to0, cs) =~= Seq::<
                        Seq<i32>,
                    >::empty());
                    assert(out.deep_view() =~= out.deep_view() + Seq::<Seq<i32>>::empty());
                }
                break ;
            },
            Some(_chunk) => {
                let (lo, hi) = s.fetch_window();
                let batch = table.fetch(lo, hi);
                proof {
                    assert(batch@ == chunk_batch(table@, rng.from as int, to0, cs));
                    assert(delivered_batches(table@, rng.from as int, to0, cs) == (if batch@.len()
                        == 0 {
                        delivered_batches(table@, rng.from + cs, to0, cs)
                    } else {
                        seq![batch@] + delivered_batches(table@, rng.from + cs, to0, cs)
                    }));
                }
                if batch.len() > 0 {
                    let ghost old_dv = out.deep_view();
                    out.push(batch);
                    proof {
                        assert(out.deep_view() =~~= old_dv.push(batch@));
                        assert(old_dv.push(batch@) + delivered_batches(
                            table@,
                            rng.from + cs,
                            to0,
                            cs,
                        ) =~= old_dv + (seq![batch@] + delivered_batches(
                            table@,
                            rng.from + cs,
                            to0,
                            cs,
                        )));
                    }
                }
                s.batch_done();
            },
        }
    }
    Ok(out)
}

} // verus!
