//! The source of uniformly distributed draw positions.
//!
//! The minter consumes randomness but never produces it: callers inject a
//! source, so distributions can be driven by the platform's entropy in
//! production and replayed deterministically under test.

use vstd::prelude::*;

verus! {

/// An injectable source of uniformly distributed integers.
pub trait RandomnessSource {
    /// A value in the half-open range `[min, max)`.
    fn next_usize_in_range(&mut self, min: usize, max: usize) -> (r: usize)
        requires
            min < max,
        ensures
            min <= r < max,
    ;
}

/// A randomness source that replays a fixed script of values: each request
/// consumes the next scripted value, or falls back to `min` once the script
/// is exhausted or when the scripted value is outside the requested range.
pub struct ScriptedRandomness {
    values: Vec<usize>,
    next: usize,
}

impl ScriptedRandomness {
    /// The scripted values.
    pub closed spec fn script(self) -> Seq<usize> {
        self.values@
    }

    /// How many scripted values were consumed so far.
    pub closed spec fn cursor(self) -> int {
        self.next as int
    }

    /// A source that replays `values` in order.
    pub fn new(values: Vec<usize>) -> (r: Self)
        ensures
            r.script() == values@,
            r.cursor() == 0,
    {
        ScriptedRandomness { values, next: 0 }
    }
}

impl RandomnessSource for ScriptedRandomness {
    fn next_usize_in_range(&mut self, min: usize, max: usize) -> (r: usize)
        ensures
            final(self).script() == old(self).script(),
            old(self).cursor() < old(self).script().len() ==> {
                &&& final(self).cursor() == old(self).cursor() + 1
                &&& r == if min <= old(self).script()[old(self).cursor()]
                    < max { old(self).script()[old(self).cursor()] } else { min }
            },
            old(self).cursor() >= old(self).script().len() ==> final(self).cursor() == old(
                self,
            ).cursor() && r == min,
    {
        if self.next < self.values.len() {
            let v = self.values[self.next];
            self.next = self.next + 1;
            if min <= v && v < max {
                v
            } else {
                min
            }
        } else {
            min
        }
    }
}

} // verus!
