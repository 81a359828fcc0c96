//! Boundary resolution: fixing the concrete scan range `[from, to]` before
//! the first chunk is planned.

use vstd::prelude::*;

verus! {

/// A resolved scan range over the cursor column. `from > to` signals an
/// empty or exhausted scan; that is a normal state, not an error.
#[derive(Clone, Copy, Debug, PartialEq, Eq, Structural)]
pub struct CursorRange {
    /// The least cursor value the scan still has to cover.
    pub from: i64,
    /// The greatest cursor value the scan covers, a hard ceiling.
    pub to: i64,
}

impl CursorRange {
    /// Both ends are non-negative. `to` is a value of the 32-bit cursor
    /// column; `from` may pass `to` by up to one chunk while a scan advances,
    /// which the wider bound admits without overflow.
    pub open spec fn wf(&self) -> bool {
        &&& 0 <= self.from <= 0x1_0000_0000
        &&& 0 <= self.to <= i32::MAX
    }
}

/// What one bound resolves to: the explicit value where the caller gave one
/// (taken verbatim, with no validation against the rows), else the store's
/// answer, else `0` for an empty table.
pub open spec fn resolved_bound(explicit: Option<i32>, store: Option<i32>) -> int {
    match explicit {
        Some(v) => v as int,
        None => match store {
            Some(v) => v as int,
            None => 0,
        },
    }
}

/// Resolves both scan bounds. `store_min` / `store_max` are the store's MIN
/// and MAX of the cursor column (`None` on an empty table); each is only
/// consulted for a bound the caller did not give explicitly.
pub fn resolve_bounds(
    explicit_from: Option<i32>,
    explicit_to: Option<i32>,
    store_min: Option<i32>,
    store_max: Option<i32>,
) -> (r: CursorRange)
    requires
        (explicit_from matches Some(f) ==> f >= 0),
        (explicit_to matches Some(t) ==> t >= 0),
        (store_min matches Some(m) ==> m >= 0),
        (store_max matches Some(m) ==> m >= 0),
    ensures
        r.from == resolved_bound(explicit_from, store_min),
        r.to == resolved_bound(explicit_to, store_max),
        r.wf(),
{
    let from: i32 = match explicit_from {
        Some(f) => f,
        None => match store_min {
            Some(m) => m,
            None => 0,
        },
    };
    let to: i32 = match explicit_to {
        Some(t) => t,
        None => match store_max {
            Some(m) => m,
            None => 0,
        },
    };
    CursorRange { from: from as i64, to: to as i64 }
}

} // verus!
