//! A small call counter: the test double used to count how often a stream's
//! processor runs.

use vstd::prelude::*;

verus! {

/// A counter over a boxed 16-bit value.
#[derive(Debug)]
pub struct Counter {
    /// The current count.
    pub value: Box<u16>,
}

impl Counter {
    /// A counter starting at `initial_value`.
    pub fn new(initial_value: u16) -> (r: Self)
        ensures
            *r.value == initial_value,
    {
        Counter { value: Box::new(initial_value) }
    }

    /// Adds one to the count.
    pub fn increment(&mut self)
        requires
            *old(self).value < u16::MAX,
        ensures
            *final(self).value == *old(self).value + 1,
    {
        self.value = Box::new(*self.value + 1);
    }

    /// Takes one off the count.
    pub fn decrement(&mut self)
        requires
            *old(self).value > 0,
        ensures
            *final(self).value == *old(self).value - 1,
    {
        self.value = Box::new(*self.value - 1);
    }
}

} // verus!
