//! An in-memory snapshot of a serial table: the store capability the engine
//! scans over — MIN and MAX of the cursor column, and a range fetch.

use vstd::prelude::*;

verus! {

/// Strictly ascending: the serial cursor column is unique and ordered.
pub open spec fn strictly_sorted(ids: Seq<i32>) -> bool {
    forall|i: int, j: int| 0 <= i < j < ids.len() ==> ids[i] < ids[j]
}

/// The rows of `ids` whose cursor value lies in `[lo, hi]`, in the order
/// they stand in `ids`.
pub open spec fn ids_in_range(ids: Seq<i32>, lo: int, hi: int) -> Seq<i32>
    decreases ids.len(),
{
    if ids.len() == 0 {
        Seq::empty()
    } else {
        let init = ids_in_range(ids.drop_last(), lo, hi);
        if lo <= ids.last() <= hi {
            init.push(ids.last())
        } else {
            init
        }
    }
}

/// The store's MIN of the cursor column: `None` on an empty table.
pub open spec fn min_of(ids: Seq<i32>) -> Option<i32> {
    if ids.len() == 0 {
        None
    } else {
        Some(ids.first())
    }
}

/// The store's MAX of the cursor column: `None` on an empty table.
pub open spec fn max_of(ids: Seq<i32>) -> Option<i32> {
    if ids.len() == 0 {
        None
    } else {
        Some(ids.last())
    }
}

/// A point-in-time snapshot of a serial table, reduced to what the engine
/// reads of each row: its cursor value. Rows are kept in ascending cursor
/// order, as the store would return them.
#[derive(Debug)]
pub struct Table {
    ids: Vec<i32>,
}

impl View for Table {
    type V = Seq<i32>;

    closed spec fn view(&self) -> Seq<i32> {
        self.ids@
    }
}

impl Table {
    /// Cursor values are non-negative and strictly ascending.
    pub open spec fn wf(&self) -> bool {
        &&& strictly_sorted(self@)
        &&& forall|i: int| 0 <= i < self@.len() ==> self@[i] >= 0
    }

    /// An empty table.
    pub fn new() -> (r: Table)
        ensures
            r@ == Seq::<i32>::empty(),
            r.wf(),
    {
        Table { ids: Vec::new() }
    }

    /// Appends a row. The cursor column is serial, so each new row's value
    /// must exceed every existing one.
    pub fn push_row(&mut self, id: i32)
        requires
            old(self).wf(),
            id >= 0,
            old(self)@.len() > 0 ==> old(self)@.last() < id,
        ensures
            final(self)@ == old(self)@.push(id),
            final(self).wf(),
    {
        proof {
            assert forall|i: int, j: int|
                0 <= i < j < self@.len() + 1 implies self@.push(id)[i] < self@.push(id)[j] by {
                if j < self@.len() {
                    assert(self@[i] < self@[j]);
                } else {
                    assert(self@[i] <= self@.last());
                }
            }
        }
        self.ids.push(id);
    }

    /// The number of rows in the snapshot.
    pub fn len(&self) -> (r: usize)
        ensures
            r == self@.len(),
    {
        self.ids.len()
    }

    /// MIN of the cursor column: the first row's value, `None` when empty.
    pub fn min_id(&self) -> (r: Option<i32>)
        requires
            self.wf(),
        ensures
            r == min_of(self@),
    {
        if self.ids.len() == 0 {
            None
        } else {
            Some(self.ids[0])
        }
    }

    /// MAX of the cursor column: the last row's value, `None` when empty.
    pub fn max_id(&self) -> (r: Option<i32>)
        requires
            self.wf(),
        ensures
            r == max_of(self@),
    {
        if self.ids.len() == 0 {
            None
        } else {
            Some(self.ids[self.ids.len() - 1])
        }
    }

    /// One chunk's fetch: the rows whose cursor value lies in `[lo, hi]`, in
    /// ascending order, exactly as the store's range query would return them.
    pub fn fetch(&self, lo: i64, hi: i64) -> (r: Vec<i32>)
        requires
            self.wf(),
        ensures
            r@ == ids_in_range(self@, lo as int, hi as int),
    {
        let mut out: Vec<i32> = Vec::new();
        let mut i: usize = 0;
        while i < self.ids.len()
            invariant
                i <= self@.len(),
                out@ == ids_in_range(self@.take(i as int), lo as int, hi as int),
            decreases self@.len() - i,
        {
            let id = self.ids[i];
            proof {
                assert(self@.take(i + 1).drop_last() =~= self@.take(i as int));
                assert(self@.take(i + 1).last() == self@[i as int]);
            }
            if lo <= id as i64 && id as i64 <= hi {
                out.push(id);
            }
            i = i + 1;
        }
        proof {
            assert(self@.take(self@.len() as int) =~= self@);
        }
        out
    }
}

} // verus!
