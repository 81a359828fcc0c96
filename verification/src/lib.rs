//! A chunked streaming engine for tables keyed by a monotonically increasing
//! integer cursor (a "serial" key).
//!
//! The engine walks the cursor range `[from, to]` in fixed-size chunks so a
//! caller can process an arbitrarily large table without holding all of it in
//! memory at once. Boundary resolution fills in missing bounds from the
//! store's MIN/MAX of the cursor column, the chunk planner splits the range
//! into half-open sub-ranges, and the stream engine fetches and yields one
//! batch per chunk, in ascending cursor order. A blocking engine and a
//! resumable, suspension-capable state machine share the same chunking
//! semantics.

pub mod bounds;
pub mod config;
pub mod counter;
pub mod db_url;
pub mod engine;
pub mod laws;
pub mod planner;
pub mod resumable;
pub mod table;

pub use bounds::resolve_bounds;
pub use bounds::CursorRange;
pub use config::StreamConfig;
pub use config::StreamError;
pub use counter::Counter;
pub use db_url::split_database_url;
pub use engine::stream_batches;
pub use planner::plan_next;
pub use planner::ChunkSpec;
pub use resumable::run_to_completion;
pub use resumable::StreamState;
pub use resumable::Streamer;
pub use table::Table;
