use vstd::prelude::*;

verus! {

/// A bounded counting sequence: yields `0, 1, ..., max - 1`, then stops.
/// Drives the scheduler's "spawn one worker per configured thread" loop.
pub struct Repeat {
    max: i32,
    iteration: i32,
}

impl Repeat {
    /// How many values are still to come.
    pub closed spec fn remaining(self) -> int {
        if self.iteration >= self.max {
            0
        } else {
            self.max - self.iteration
        }
    }

    /// The value the next call to `next` yields, if any.
    pub closed spec fn current(self) -> int {
        self.iteration as int
    }

    /// Yields the next value of the sequence, or `None` once `max` values
    /// have been yielded.
    pub fn next(&mut self) -> (r: Option<i32>)
        ensures
            old(self).remaining() == 0 ==> r is None && *final(self) == *old(self),
            old(self).remaining() > 0 ==> {
                &&& r == Some(old(self).current() as i32)
                &&& final(self).remaining() == old(self).remaining() - 1
                &&& final(self).current() == old(self).current() + 1
            },
    {
        if self.iteration >= self.max {
            Option::None
        } else {
            let val = Option::Some(self.iteration);
            self.iteration = self.iteration + 1;
            val
        }
    }
}

/// Starts a `Repeat` that will yield exactly `max` values (none when
/// `max <= 0`).
pub fn repeat(max: i32) -> (r: Repeat)
    ensures
        r.remaining() == if max >= 0 { max as int } else { 0 },
        r.current() == 0,
{
    Repeat { max: max, iteration: 0 }
}

} // verus!
