//! Stream configuration: the chunk size and the optional explicit bounds.

use vstd::prelude::*;

verus! {

/// Why a stream could not be constructed.
#[derive(Clone, Copy, Debug, PartialEq, Eq, Structural)]
pub enum StreamError {
    /// The configured chunk size was zero or negative. This is a
    /// configuration error, detected before any work is attempted.
    InvalidChunkSize,
}

/// Chunk size used by the blocking engine when the caller gives none.
pub const DEFAULT_SYNC_CHUNK_SIZE: i32 = 100000;

/// Chunk size used by the suspension-capable engine when the caller gives none.
pub const DEFAULT_ASYNC_CHUNK_SIZE: i32 = 500;

/// The optional knobs of one stream: the number of cursor values each chunk
/// covers, and explicit scan bounds. A bound left as `None` is resolved
/// against the store's MIN or MAX of the cursor column when the stream runs.
#[derive(Clone, Copy, Debug)]
pub struct StreamConfig {
    /// How many cursor values one chunk covers; must be positive.
    pub chunk_size: i32,
    /// Lower scan bound; `None` means "start at the table's least cursor value".
    pub from: Option<i32>,
    /// Upper scan bound; `None` means "stop at the table's greatest cursor value".
    pub to: Option<i32>,
}

impl StreamConfig {
    /// Explicit bounds, where given, are cursor values, hence non-negative.
    pub open spec fn wf(&self) -> bool {
        &&& (self.from matches Some(f) ==> f >= 0)
        &&& (self.to matches Some(t) ==> t >= 0)
    }

    /// Configuration of a blocking stream with every knob left at its default.
    pub fn sync_defaults() -> (r: Self)
        ensures
            r.chunk_size == DEFAULT_SYNC_CHUNK_SIZE,
            r.from is None,
            r.to is None,
            r.wf(),
    {
        StreamConfig { chunk_size: DEFAULT_SYNC_CHUNK_SIZE, from: None, to: None }
    }

    /// Configuration of a suspension-capable stream with every knob left at
    /// its default.
    pub fn async_defaults() -> (r: Self)
        ensures
            r.chunk_size == DEFAULT_ASYNC_CHUNK_SIZE,
            r.from is None,
            r.to is None,
            r.wf(),
    {
        StreamConfig { chunk_size: DEFAULT_ASYNC_CHUNK_SIZE, from: None, to: None }
    }

    /// The same configuration with the chunk size replaced.
    pub fn with_chunk_size(self, chunk_size: i32) -> (r: Self)
        ensures
            r.chunk_size == chunk_size,
            r.from == self.from,
            r.to == self.to,
    {
        StreamConfig { chunk_size, ..self }
    }

    /// The same configuration with an explicit lower bound.
    pub fn with_from(self, from: i32) -> (r: Self)
        requires
            from >= 0,
        ensures
            r.chunk_size == self.chunk_size,
            r.from == Some(from),
            r.to == self.to,
    {
        StreamConfig { from: Some(from), ..self }
    }

    /// The same configuration with an explicit upper bound.
    pub fn with_to(self, to: i32) -> (r: Self)
        requires
            to >= 0,
        ensures
            r.chunk_size == self.chunk_size,
            r.from == self.from,
            r.to == Some(to),
    {
        StreamConfig { to: Some(to), ..self }
    }
}

} // verus!
