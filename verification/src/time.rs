//! Frame time keeping.

use crate::clock::{instant_now, nanos_between};
use vstd::prelude::*;

verus! {

/// Contains time information of a certain part of the program.
/// Tracks elapsed time, delta time and frame count; spans are kept as whole
/// nanosecond counts, so no precision is lost to rounding.
pub struct Time {
    /// The clock reading of the last update.
    cur: std::time::Instant,
    /// The clock reading of the update before it.
    prev: std::time::Instant,
    init: std::time::Instant,
    framecount: usize,
    delta_ns: u64,
    elapsed_ns: u64,
}

impl Time {
    pub closed spec fn framecount_spec(&self) -> int {
        self.framecount as int
    }

    pub closed spec fn delta_spec(&self) -> u64 {
        self.delta_ns
    }

    pub closed spec fn elapsed_spec(&self) -> u64 {
        self.elapsed_ns
    }

    /// Creates and initializes a new time struct: no frames yet, no time
    /// passed.
    pub fn new() -> (r: Time)
        ensures
            r.framecount_spec() == 0,
            r.delta_spec() == 0,
            r.elapsed_spec() == 0,
    {
        Time {
            cur: instant_now(),
            prev: instant_now(),
            init: instant_now(),
            framecount: 0,
            delta_ns: 0,
            elapsed_ns: 0,
        }
    }

    /// Advances to the next frame: reads the clock, measures the span since
    /// the previous frame and since creation, and counts the frame. The
    /// measured spans depend on the clock, so nothing is promised of them;
    /// even a clock that did not advance is safe (the delta is then zero).
    pub fn update(&mut self)
        requires
            old(self).framecount_spec() + 1 <= usize::MAX,
        ensures
            final(self).framecount_spec() == old(self).framecount_spec() + 1,
    {
        self.prev = self.cur;
        self.cur = instant_now();
        self.delta_ns = nanos_between(&self.cur, &self.prev);
        self.elapsed_ns = nanos_between(&self.cur, &self.init);
        self.framecount = self.framecount + 1;
    }

    /// The raw span between the last two frames, in nanoseconds.
    pub fn delta_raw(&self) -> (r: u64)
        ensures
            r == self.delta_spec(),
    {
        self.delta_ns
    }

    /// The span between the last two frames in whole milliseconds.
    /// A whole smaller time unit does not lose precision to rounding errors.
    pub fn delta_ms(&self) -> (r: usize)
        ensures
            r == (self.delta_spec() / 1_000_000) as usize,
    {
        #[verifier::truncate] ((self.delta_ns / 1_000_000) as usize)
    }

    /// The span between the last two frames in whole microseconds.
    /// A whole smaller time unit does not lose precision to rounding errors.
    pub fn delta_us(&self) -> (r: usize)
        ensures
            r == (self.delta_spec() / 1_000) as usize,
    {
        #[verifier::truncate] ((self.delta_ns / 1_000) as usize)
    }

    /// The raw span between creation and the start of the current frame, in
    /// nanoseconds.
    pub fn elapsed_raw(&self) -> (r: u64)
        ensures
            r == self.elapsed_spec(),
    {
        self.elapsed_ns
    }

    /// The number of frames advanced with `update`.
    pub fn framecount(&self) -> (r: usize)
        ensures
            r == self.framecount_spec(),
    {
        self.framecount
    }
}

} // verus!
